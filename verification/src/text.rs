//! Text helpers over Unicode scalar values, the units that `str::chars` yields.

use vstd::prelude::*;

verus! {

/// An ASCII decimal digit.
pub open spec fn is_digit(c: char) -> bool {
    '0' <= c && c <= '9'
}

/// `s` with every maximal run of ASCII digits replaced by one `#`.
pub open spec fn template_of(s: Seq<char>) -> Seq<char>
    decreases s.len(),
{
    if s.len() == 0 {
        Seq::empty()
    } else {
        let rest = template_of(s.drop_last());
        if !is_digit(s.last()) {
            rest.push(s.last())
        } else if s.len() > 1 && is_digit(s[s.len() - 2]) {
            rest
        } else {
            rest.push('#')
        }
    }
}

/// No character of `s` is an ASCII digit.
pub open spec fn digit_free(s: Seq<char>) -> bool {
    forall|i: int| 0 <= i < s.len() ==> !is_digit(#[trigger] s[i])
}

/// Law: a template holds no digits, and text without digits is its own
/// template, so normalising twice gives the same template as once.
pub proof fn law_template_is_digit_free_and_stable(s: Seq<char>)
    ensures
        digit_free(template_of(s)),
        digit_free(s) ==> template_of(s) == s,
        template_of(template_of(s)) == template_of(s),
    decreases s.len(),
{
    if s.len() > 0 {
        let p = s.drop_last();
        law_template_is_digit_free_and_stable(p);
        let rest = template_of(p);
        assert(digit_free(template_of(s))) by {
            if !is_digit(s.last()) {
                assert(template_of(s) == rest.push(s.last()));
            } else if s.len() > 1 && is_digit(s[s.len() - 2]) {
            } else {
                assert(template_of(s) == rest.push('#'));
            }
        }
        if digit_free(s) {
            assert(digit_free(p)) by {
                assert forall|i: int| 0 <= i < p.len() implies !is_digit(#[trigger] p[i]) by {
                    assert(p[i] == s[i]);
                }
            }
            assert(!is_digit(s[s.len() - 1]));
            assert(template_of(s) =~= s);
        }
    }
    lemma_digit_free_fixed(template_of(s));
}

proof fn lemma_digit_free_fixed(s: Seq<char>)
    requires
        digit_free(s),
    ensures
        template_of(s) == s,
    decreases s.len(),
{
    if s.len() > 0 {
        let p = s.drop_last();
        assert(digit_free(p)) by {
            assert forall|i: int| 0 <= i < p.len() implies !is_digit(#[trigger] p[i]) by {
                assert(p[i] == s[i]);
            }
        }
        lemma_digit_free_fixed(p);
        assert(!is_digit(s[s.len() - 1]));
        assert(template_of(s) =~= s);
    }
}

/// Appends one character (`String::push`).
#[verifier::external_body]
pub fn push_char(s: &mut String, c: char)
    ensures
        final(s)@ == old(s)@.push(c),
{
    s.push(c);
}

/// Collapses each run of ASCII digits in `message` into a single `#`, so that
/// readings that differ only in their numbers share one template.
pub fn normalize_template(message: &str) -> (normalized: String)
    ensures
        normalized@ == template_of(message@),
{
    let n = message.unicode_len();
    let mut normalized = String::new();
    let mut in_digits = false;
    let mut i: usize = 0;
    while i < n
        invariant
            n == message@.len(),
            i <= n,
            normalized@ == template_of(message@.take(i as int)),
            in_digits == (i > 0 && is_digit(message@[i - 1])),
        decreases n - i,
    {
        let c = message.get_char(i);
        assert(message@.take(i + 1).drop_last() =~= message@.take(i as int));
        if '0' <= c && c <= '9' {
            if !in_digits {
                push_char(&mut normalized, '#');
                in_digits = true;
            }
        } else {
            in_digits = false;
            push_char(&mut normalized, c);
        }
        i = i + 1;
    }
    assert(message@.take(n as int) =~= message@);
    normalized
}


/// A character with the Unicode White_Space property, which `char::is_whitespace`
/// and `str::trim` go by: the 25 code points U+0009..U+000D, U+0020, U+0085,
/// U+00A0, U+1680, U+2000..U+200A, U+2028, U+2029, U+202F, U+205F and U+3000.
pub open spec fn is_white_space(c: char) -> bool {
    ('\u{9}' <= c && c <= '\u{d}') || c == ' ' || c == '\u{85}' || c == '\u{a0}' || c == '\u{1680}'
        || ('\u{2000}' <= c && c <= '\u{200a}') || c == '\u{2028}' || c == '\u{2029}' || c == '\u{202f}'
        || c == '\u{205f}' || c == '\u{3000}'
}

/// `s` without its leading white space.
pub open spec fn trimmed_start(s: Seq<char>) -> Seq<char>
    decreases s.len(),
{
    if s.len() > 0 && is_white_space(s[0]) { trimmed_start(s.drop_first()) } else { s }
}

/// `s` without its trailing white space.
pub open spec fn trimmed_end(s: Seq<char>) -> Seq<char>
    decreases s.len(),
{
    if s.len() > 0 && is_white_space(s.last()) { trimmed_end(s.drop_last()) } else { s }
}

/// What `str::trim` returns for a string with characters `s`: `s` without its
/// leading and trailing white space.
pub open spec fn trimmed(s: Seq<char>) -> Seq<char> {
    trimmed_end(trimmed_start(s))
}

/// An ASCII letter or digit, which is never white space.
pub open spec fn ascii_alphanumeric(c: char) -> bool {
    ('a' <= c && c <= 'z') || ('A' <= c && c <= 'Z') || ('0' <= c && c <= '9')
}

proof fn lemma_trimmed_start_shape(s: Seq<char>)
    ensures
        trimmed_start(s).len() <= s.len(),
        trimmed_start(s) == s.subrange(s.len() - trimmed_start(s).len(), s.len() as int),
        trimmed_start(s).len() > 0 ==> !is_white_space(trimmed_start(s)[0]),
    decreases s.len(),
{
    if s.len() > 0 && is_white_space(s[0]) {
        let d = s.drop_first();
        lemma_trimmed_start_shape(d);
        assert(d.subrange(d.len() - trimmed_start(d).len(), d.len() as int) =~= s.subrange(
            s.len() - trimmed_start(d).len(),
            s.len() as int,
        ));
    } else {
        assert(s.subrange(0, s.len() as int) =~= s);
    }
}

proof fn lemma_trimmed_end_shape(s: Seq<char>)
    ensures
        trimmed_end(s).len() <= s.len(),
        trimmed_end(s) == s.subrange(0, trimmed_end(s).len() as int),
        trimmed_end(s).len() > 0 ==> !is_white_space(trimmed_end(s).last()),
    decreases s.len(),
{
    if s.len() > 0 && is_white_space(s.last()) {
        let d = s.drop_last();
        lemma_trimmed_end_shape(d);
        assert(d.subrange(0, trimmed_end(d).len() as int) =~= s.subrange(0, trimmed_end(d).len() as int));
    } else {
        assert(s.subrange(0, s.len() as int) =~= s);
    }
}

/// Law: text that is empty, or starts and ends with a character that is not
/// white space, is left as it is by trimming.
pub proof fn law_trim_keeps_bare_text(s: Seq<char>)
    requires
        s.len() == 0 || (!is_white_space(s[0]) && !is_white_space(s.last())),
    ensures
        trimmed(s) == s,
{
}

/// Law: trimming gives a part of the text, no longer than it, that neither
/// starts nor ends with white space; so trimming again changes nothing.
pub proof fn law_trim_idempotent(s: Seq<char>)
    ensures
        trimmed(s).len() <= s.len(),
        trimmed(s).len() > 0 ==> !is_white_space(trimmed(s)[0]) && !is_white_space(trimmed(s).last()),
        trimmed(trimmed(s)) == trimmed(s),
{
    let u = trimmed_start(s);
    lemma_trimmed_start_shape(s);
    lemma_trimmed_end_shape(u);
    let t = trimmed_end(u);
    if t.len() > 0 {
        assert(t[0] == u[0]);
    }
    law_trim_keeps_bare_text(t);
}

/// Law: text that starts and ends with an ASCII letter or digit has nothing
/// to trim.
pub proof fn law_trim_keeps_alphanumeric_ends(s: Seq<char>)
    requires
        s.len() > 0,
        ascii_alphanumeric(s[0]),
        ascii_alphanumeric(s.last()),
    ensures
        trimmed(s) == s,
{
    law_trim_keeps_bare_text(s);
}

/// `s` with leading and trailing white space removed (`str::trim`).
#[verifier::external_body]
pub fn trim(s: &str) -> (t: &str)
    ensures
        t@ == trimmed(s@),
{
    s.trim()
}

/// The text is empty once white space is trimmed.
pub open spec fn is_blank(s: Seq<char>) -> bool {
    trimmed(s).len() == 0
}

/// Whether `s` holds nothing but white space.
pub fn blank(s: &str) -> (b: bool)
    ensures
        b == is_blank(s@),
{
    trim(s).is_empty()
}

/// An owned copy of a string slice.
pub fn owned(s: &str) -> (o: String)
    ensures
        o@ == s@,
{
    String::from_str(s)
}

/// The concatenation `a` followed by `b`.
pub fn joined(a: &str, b: &str) -> (j: String)
    ensures
        j@ == a@ + b@,
{
    let mut j = String::from_str(a);
    j.append(b);
    j
}

/// The first `max_chars` characters of `s`, followed by `…` when anything was
/// cut off.
pub open spec fn truncated(s: Seq<char>, max_chars: nat) -> Seq<char> {
    if s.len() > max_chars { s.take(max_chars as int).push('\u{2026}') } else { s }
}

/// Shortens `value` to at most `max_chars` characters plus an ellipsis, never
/// splitting a character.
pub fn truncate(value: &str, max_chars: usize) -> (result: String)
    ensures
        result@ == truncated(value@, max_chars as nat),
{
    if value.unicode_len() > max_chars {
        let mut result = owned(value.substring_char(0, max_chars));
        push_char(&mut result, '\u{2026}');
        result
    } else {
        owned(value)
    }
}

/// Whether two strings hold the same characters.
pub fn str_equal(a: &str, b: &str) -> (eq: bool)
    ensures
        eq == (a@ == b@),
{
    let n = a.unicode_len();
    if n != b.unicode_len() {
        return false;
    }
    let mut i: usize = 0;
    while i < n
        invariant
            n == a@.len(),
            n == b@.len(),
            i <= n,
            forall|k: int| 0 <= k < i ==> a@[k] == b@[k],
        decreases n - i,
    {
        if a.get_char(i) != b.get_char(i) {
            return false;
        }
        i = i + 1;
    }
    assert(a@ =~= b@);
    true
}

} // verus!
