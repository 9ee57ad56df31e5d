//! Finished downloads: which file-system events complete a download, the
//! tables of in-progress and already announced files, and when a finished
//! file has stopped changing.

use vstd::prelude::*;
use crate::paths::{
    eq_ignore_ascii_case, equal_ignoring_ascii_case, extension_of, file_stem_of, path_extension,
    path_file_stem, path_matches, path_with_file_name, paths_equal, same_path, with_file_name_of,
};
use crate::settings::DownloadsSettings;

verus! {

/// A browser's in-progress download extension: `crdownload`, `part`,
/// `partial` or `download`, in any ASCII case.
pub open spec fn is_temp_extension(extension: Seq<char>) -> bool {
    equal_ignoring_ascii_case(extension, "crdownload"@) || equal_ignoring_ascii_case(extension, "part"@)
        || equal_ignoring_ascii_case(extension, "partial"@) || equal_ignoring_ascii_case(extension, "download"@)
}

/// The path is a browser's in-progress download: it has a temporary
/// extension.
pub open spec fn is_temp_path(path: Seq<char>) -> bool {
    match extension_of(path) {
        Some(e) => is_temp_extension(e),
        None => false,
    }
}

/// The finished file for `path`, given the file stem that `Path::file_stem`
/// reports for it: the final component replaced by the stem, or `path`
/// itself when there is no stem.
pub open spec fn finished_path_of(path: Seq<char>, stem: Option<Seq<char>>) -> Seq<char> {
    match stem {
        Some(stem) => with_file_name_of(path, stem),
        None => path,
    }
}

/// The path with one extension removed: the finished file of a download.
pub open spec fn strip_temp_extension(path: Seq<char>) -> Seq<char> {
    finished_path_of(path, file_stem_of(path))
}

/// Whether `extension` is one that browsers give in-progress downloads.
pub fn temp_extension(extension: &str) -> (temp: bool)
    ensures
        temp == is_temp_extension(extension@),
{
    eq_ignore_ascii_case(extension, "crdownload") || eq_ignore_ascii_case(extension, "part")
        || eq_ignore_ascii_case(extension, "partial") || eq_ignore_ascii_case(extension, "download")
}

/// Whether `path` is an in-progress browser download.
pub fn is_temp(path: &str) -> (temp: bool)
    ensures
        temp == is_temp_path(path@),
{
    match path_extension(path) {
        Some(extension) => temp_extension(extension.as_str()),
        None => false,
    }
}

/// The finished file for `path` whose file stem is `stem`.
pub fn finished_path(path: &str, stem: Option<String>) -> (finished: String)
    ensures
        finished@ == finished_path_of(path@, match stem {
            Some(s) => Some(s@),
            None => None,
        }),
{
    match stem {
        Some(stem) => path_with_file_name(path, stem.as_str()),
        None => crate::text::owned(path),
    }
}

/// The finished file that an in-progress download becomes.
pub fn without_temp_extension(path: &str) -> (finished: String)
    ensures
        finished@ == strip_temp_extension(path@),
{
    finished_path(path, path_file_stem(path))
}

/// A remembered path and when it was seen, as plain values.
pub type TrackedModel = (Seq<char>, u64);

/// The table remembers `path`: some remembered path is the same path.
pub open spec fn has_path(t: Seq<TrackedModel>, path: Seq<char>) -> bool {
    exists|i: int| 0 <= i < t.len() && path_matches(#[trigger] t[i].0, path)
}

/// No two remembered paths are the same path.
pub open spec fn unique_paths(t: Seq<TrackedModel>) -> bool {
    forall|i: int, j: int|
        #![trigger t[i], t[j]]
        0 <= i < t.len() && 0 <= j < t.len() && i != j ==> !path_matches(t[i].0, t[j].0)
}

/// `i` is the first entry of `t` that is the same path as `path`.
pub open spec fn first_path_at(t: Seq<TrackedModel>, path: Seq<char>, i: int) -> bool {
    &&& 0 <= i < t.len()
    &&& path_matches(t[i].0, path)
    &&& forall|k: int| 0 <= k < i ==> !path_matches(#[trigger] t[k].0, path)
}

/// Where the table remembers `path`: the first entry that is the same path.
pub open spec fn path_index(t: Seq<TrackedModel>, path: Seq<char>) -> int {
    choose|i: int| first_path_at(t, path, i)
}

/// The table after remembering `path` as seen at `now` (`HashMap::insert`,
/// which keeps the key already stored for the same path).
pub open spec fn upserted(t: Seq<TrackedModel>, path: Seq<char>, now: u64) -> Seq<TrackedModel> {
    if has_path(t, path) {
        t.update(path_index(t, path), (t[path_index(t, path)].0, now))
    } else {
        t.push((path, now))
    }
}

/// The table after forgetting `path` (`HashMap::remove`).
pub open spec fn without_path(t: Seq<TrackedModel>, path: Seq<char>) -> Seq<TrackedModel> {
    if has_path(t, path) { t.remove(path_index(t, path)) } else { t }
}

/// The entries of `t` seen no longer than `max_age` before `now`.
pub open spec fn pruned(t: Seq<TrackedModel>, max_age: u64, now: u64) -> Seq<TrackedModel>
    decreases t.len(),
{
    if t.len() == 0 {
        Seq::empty()
    } else {
        let rest = pruned(t.drop_last(), max_age, now);
        let age: int = if now >= t.last().1 { now - t.last().1 } else { 0 };
        if age <= max_age { rest.push(t.last()) } else { rest }
    }
}

/// The first entry of `t` whose path, without its temporary extension, is
/// the same path as `finished`.
pub open spec fn first_match(t: Seq<TrackedModel>, finished: Seq<char>) -> Option<int>
    decreases t.len(),
{
    if t.len() == 0 {
        None
    } else if same_path(strip_temp_extension(t[0].0), finished) {
        Some(0)
    } else {
        match first_match(t.drop_first(), finished) {
            Some(j) => Some(j + 1),
            None => None,
        }
    }
}

proof fn lemma_first_match_found(t: Seq<TrackedModel>, finished: Seq<char>, i: int)
    requires
        0 <= i < t.len(),
        same_path(strip_temp_extension(t[i].0), finished),
        forall|k: int| 0 <= k < i ==> !same_path(strip_temp_extension(#[trigger] t[k].0), finished),
    ensures
        first_match(t, finished) == Some(i),
    decreases t.len(),
{
    if i > 0 {
        assert(!same_path(strip_temp_extension(t[0].0), finished));
        let d = t.drop_first();
        assert forall|k: int| 0 <= k < i - 1 implies !same_path(strip_temp_extension(#[trigger] d[k].0), finished) by {
            assert(d[k] == t[k + 1]);
        }
        lemma_first_match_found(d, finished, i - 1);
    }
}

proof fn lemma_first_match_none(t: Seq<TrackedModel>, finished: Seq<char>)
    requires
        forall|k: int| 0 <= k < t.len() ==> !same_path(strip_temp_extension(#[trigger] t[k].0), finished),
    ensures
        first_match(t, finished) is None,
    decreases t.len(),
{
    if t.len() > 0 {
        let d = t.drop_first();
        assert forall|k: int| 0 <= k < d.len() implies !same_path(strip_temp_extension(#[trigger] d[k].0), finished) by {
            assert(d[k] == t[k + 1]);
        }
        lemma_first_match_none(d, finished);
    }
}

proof fn lemma_first_match_in_range(t: Seq<TrackedModel>, finished: Seq<char>)
    ensures
        first_match(t, finished) matches Some(i) ==> 0 <= i < t.len(),
    decreases t.len(),
{
    if t.len() > 0 {
        lemma_first_match_in_range(t.drop_first(), finished);
    }
}

proof fn lemma_path_index(t: Seq<TrackedModel>, path: Seq<char>, i: int)
    requires
        first_path_at(t, path, i),
    ensures
        has_path(t, path),
        path_index(t, path) == i,
{
    assert(path_matches(t[i].0, path));
    let j = path_index(t, path);
    assert(first_path_at(t, path, j));
    if j < i {
        assert(!path_matches(t[j].0, path));
    } else if i < j {
        assert(!path_matches(t[i].0, path));
    }
}

proof fn lemma_first_path_exists(t: Seq<TrackedModel>, path: Seq<char>)
    requires
        has_path(t, path),
    ensures
        first_path_at(t, path, path_index(t, path)),
    decreases t.len(),
{
    if path_matches(t[0].0, path) {
        assert(first_path_at(t, path, 0));
    } else {
        let d = t.drop_first();
        let w = choose|i: int| 0 <= i < t.len() && path_matches(#[trigger] t[i].0, path);
        assert(d[w - 1] == t[w]);
        lemma_first_path_exists(d, path);
        let j = path_index(d, path);
        assert forall|k: int| 0 <= k < j + 1 implies !path_matches(#[trigger] t[k].0, path) by {
            if k > 0 {
                assert(t[k] == d[k - 1]);
            }
        }
        assert(t[j + 1] == d[j]);
        assert(first_path_at(t, path, j + 1));
    }
}

proof fn lemma_remove_keeps_unique(t: Seq<TrackedModel>, i: int)
    requires
        unique_paths(t),
        0 <= i < t.len(),
    ensures
        unique_paths(t.remove(i)),
{
    let r = t.remove(i);
    assert forall|a: int, b: int| 0 <= a < r.len() && 0 <= b < r.len() && a != b implies !path_matches(
        #[trigger] r[a].0,
        #[trigger] r[b].0,
    ) by {
        let a2 = if a < i { a } else { a + 1 };
        let b2 = if b < i { b } else { b + 1 };
        assert(r[a] == t[a2] && r[b] == t[b2]);
    }
}

proof fn lemma_upserted_has(t: Seq<TrackedModel>, path: Seq<char>, now: u64)
    ensures
        has_path(upserted(t, path, now), path),
        upserted(t, path, now).contains((
            if has_path(t, path) { t[path_index(t, path)].0 } else { path },
            now,
        )),
{
    let u = upserted(t, path, now);
    if has_path(t, path) {
        lemma_first_path_exists(t, path);
        let k = path_index(t, path);
        assert(u[k] == (t[k].0, now));
        assert(path_matches(u[k].0, path));
    } else {
        assert(u[t.len() as int] == (path, now));
        assert(path_matches(u[t.len() as int].0, path));
    }
}

proof fn lemma_upserted_unique(t: Seq<TrackedModel>, path: Seq<char>, now: u64)
    requires
        unique_paths(t),
        !has_path(t, path) ==> forall|k: int| 0 <= k < t.len() ==> !path_matches(path, #[trigger] t[k].0),
    ensures
        unique_paths(upserted(t, path, now)),
{
    let u = upserted(t, path, now);
    if has_path(t, path) {
        lemma_first_path_exists(t, path);
        let k = path_index(t, path);
        assert forall|a: int, b: int| 0 <= a < u.len() && 0 <= b < u.len() && a != b implies !path_matches(
            #[trigger] u[a].0,
            #[trigger] u[b].0,
        ) by {
            assert(u[a].0 == t[a].0 && u[b].0 == t[b].0);
        }
    } else {
        assert forall|a: int, b: int| 0 <= a < u.len() && 0 <= b < u.len() && a != b implies !path_matches(
            #[trigger] u[a].0,
            #[trigger] u[b].0,
        ) by {
            if a < t.len() && b < t.len() {
                assert(u[a] == t[a] && u[b] == t[b]);
            } else if a < t.len() {
                assert(u[a] == t[a]);
                assert(u[b].0 == path);
            } else {
                assert(u[b] == t[b]);
                assert(u[a].0 == path);
                assert(!path_matches(path, t[b].0));
            }
        }
    }
}

proof fn lemma_pruned_subset(t: Seq<TrackedModel>, max_age: u64, now: u64)
    requires
        unique_paths(t),
    ensures
        unique_paths(pruned(t, max_age, now)),
        forall|x: TrackedModel| #[trigger] pruned(t, max_age, now).contains(x) ==> t.contains(x),
    decreases t.len(),
{
    if t.len() > 0 {
        let p = t.drop_last();
        assert(unique_paths(p)) by {
            assert forall|a: int, b: int| 0 <= a < p.len() && 0 <= b < p.len() && a != b implies !path_matches(#[trigger] p[a].0, #[trigger] p[b].0) by {
                assert(p[a] == t[a] && p[b] == t[b]);
            }
        }
        lemma_pruned_subset(p, max_age, now);
        let rest = pruned(p, max_age, now);
        assert forall|x: TrackedModel| #[trigger] pruned(t, max_age, now).contains(x) implies t.contains(x) by {
            if rest.contains(x) {
                let k = choose|k: int| 0 <= k < p.len() && p[k] == x;
                assert(t[k] == x);
            } else {
                assert(t[t.len() - 1] == x);
            }
        }
        let age: int = if now >= t.last().1 { now - t.last().1 } else { 0 };
        if age <= max_age {
            let l = rest.push(t.last());
            assert forall|a: int, b: int| 0 <= a < l.len() && 0 <= b < l.len() && a != b implies !path_matches(#[trigger] l[a].0, #[trigger] l[b].0) by {
                if a < rest.len() && b < rest.len() {
                    assert(l[a] == rest[a] && l[b] == rest[b]);
                } else if a < rest.len() {
                    assert(rest.contains(rest[a]));
                    let k = choose|k: int| 0 <= k < p.len() && p[k] == rest[a];
                    assert(t[k] == p[k]);
                    assert(l[b] == t[t.len() - 1]);
                } else if b < rest.len() {
                    assert(rest.contains(rest[b]));
                    let k = choose|k: int| 0 <= k < p.len() && p[k] == rest[b];
                    assert(t[k] == p[k]);
                    assert(l[a] == t[t.len() - 1]);
                }
            }
        }
    }
}

/// A remembered path.
pub struct TrackedPath {
    pub path: String,
    pub seen_at: u64,
}

pub open spec fn tracked_model(e: TrackedPath) -> TrackedModel {
    (e.path@, e.seen_at)
}

/// Paths with the time they were last seen; no two entries are the same path
/// (`Path`'s `==`, which compares components).
pub struct PathTable {
    entries: Vec<TrackedPath>,
}

impl View for PathTable {
    type V = Seq<TrackedModel>;

    closed spec fn view(&self) -> Seq<TrackedModel> {
        self.entries@.map_values(|e: TrackedPath| tracked_model(e))
    }
}

impl PathTable {
    pub open spec fn wf(&self) -> bool {
        unique_paths(self@)
    }

    /// An empty table.
    pub fn new() -> (t: Self)
        ensures
            t.wf(),
            t@ == Seq::<TrackedModel>::empty(),
    {
        let t = PathTable { entries: Vec::new() };
        assert(t@ =~= Seq::<TrackedModel>::empty());
        t
    }

    /// Number of remembered paths.
    pub fn len(&self) -> (n: usize)
        ensures
            n == self@.len(),
    {
        self.entries.len()
    }

    /// Where `path` is remembered, if it is: the first entry that is the same
    /// path (`Path`'s `==`).
    pub fn index_of(&self, path: &str) -> (found: Option<usize>)
        requires
            self.wf(),
        ensures
            found is None <==> !has_path(self@, path@),
            found is None ==> forall|k: int| 0 <= k < self@.len() ==> !path_matches(path@, #[trigger] self@[k].0),
            found matches Some(i) ==> i == path_index(self@, path@) && i < self@.len(),
    {
        let n = self.entries.len();
        let mut i: usize = 0;
        while i < n
            invariant
                n == self@.len(),
                self.wf(),
                i <= n,
                forall|k: int| 0 <= k < i ==> !path_matches(#[trigger] self@[k].0, path@),
                forall|k: int| 0 <= k < i ==> !path_matches(path@, #[trigger] self@[k].0),
            decreases n - i,
        {
            assert(self@[i as int] == tracked_model(self.entries@[i as int]));
            if paths_equal(self.entries[i].path.as_str(), path) {
                proof { lemma_path_index(self@, path@, i as int); }
                return Some(i);
            }
            i = i + 1;
        }
        None
    }

    /// Whether `path` is remembered.
    pub fn contains(&self, path: &str) -> (found: bool)
        requires
            self.wf(),
        ensures
            found == has_path(self@, path@),
    {
        self.index_of(path).is_some()
    }

    /// Remembers `path` as seen at `now`; an entry for the same path keeps
    /// its stored text and takes the new time.
    pub fn upsert(&mut self, path: String, now: u64)
        requires
            old(self).wf(),
        ensures
            final(self).wf(),
            final(self)@ == upserted(old(self)@, path@, now),
    {
        let ghost before = self@;
        let ghost p = path@;
        match self.index_of(path.as_str()) {
            Some(i) => {
                proof { lemma_upserted_unique(before, p, now); }
                let stored = self.entries[i].path.clone();
                assert(before[i as int] == tracked_model(self.entries@[i as int]));
                self.entries.set(i, TrackedPath { path: stored, seen_at: now });
                assert(self@ =~= before.update(i as int, (before[i as int].0, now)));
            },
            None => {
                proof { lemma_upserted_unique(before, p, now); }
                self.entries.push(TrackedPath { path, seen_at: now });
                assert(self@ =~= before.push((p, now)));
            },
        }
    }

    /// Forgets the entry at index `i`.
    pub fn remove_at(&mut self, i: usize)
        requires
            old(self).wf(),
            i < old(self)@.len(),
        ensures
            final(self).wf(),
            final(self)@ == old(self)@.remove(i as int),
    {
        let ghost before = self@;
        proof { lemma_remove_keeps_unique(before, i as int); }
        self.entries.remove(i);
        assert(self@ =~= before.remove(i as int));
    }

    /// Forgets `path`.
    pub fn remove(&mut self, path: &str)
        requires
            old(self).wf(),
        ensures
            final(self).wf(),
            final(self)@ == without_path(old(self)@, path@),
    {
        match self.index_of(path) {
            Some(i) => self.remove_at(i),
            None => {},
        }
    }

    /// Forgets every path last seen more than `max_age` before `now`.
    pub fn prune(&mut self, max_age: u64, now: u64)
        requires
            old(self).wf(),
        ensures
            final(self).wf(),
            final(self)@ == pruned(old(self)@, max_age, now),
    {
        let ghost before = self@;
        let mut kept: Vec<TrackedPath> = Vec::new();
        let n = self.entries.len();
        let mut i: usize = 0;
        while i < n
            invariant
                n == self.entries@.len(),
                before == self.entries@.map_values(|e: TrackedPath| tracked_model(e)),
                i <= n,
                kept@.map_values(|e: TrackedPath| tracked_model(e)) == pruned(before.take(i as int), max_age, now),
            decreases n - i,
        {
            let entry = &self.entries[i];
            assert(before.take(i + 1).drop_last() =~= before.take(i as int));
            assert(before.take(i + 1).last() == tracked_model(*entry));
            let age = if now >= entry.seen_at { now - entry.seen_at } else { 0 };
            if age <= max_age {
                let copy = TrackedPath { path: entry.path.clone(), seen_at: entry.seen_at };
                let ghost prev = kept@;
                kept.push(copy);
                assert(kept@.map_values(|e: TrackedPath| tracked_model(e)) =~= prev.map_values(
                    |e: TrackedPath| tracked_model(e),
                ).push(tracked_model(copy)));
            }
            i = i + 1;
        }
        assert(before.take(n as int) =~= before);
        self.entries = kept;
        proof { lemma_pruned_subset(before, max_age, now); }
    }

    /// The first entry, in the table's order, whose path without its
    /// temporary extension is the same path as `finished`.
    pub fn first_match(&self, finished: &str) -> (found: Option<usize>)
        ensures
            found matches Some(i) ==> first_match(self@, finished@) == Some(i as int),
            found is None ==> first_match(self@, finished@) is None,
    {
        let n = self.entries.len();
        let mut i: usize = 0;
        while i < n
            invariant
                n == self@.len(),
                i <= n,
                forall|k: int| 0 <= k < i ==> !same_path(strip_temp_extension(#[trigger] self@[k].0), finished@),
            decreases n - i,
        {
            assert(self@[i as int] == tracked_model(self.entries@[i as int]));
            let stripped = without_temp_extension(self.entries[i].path.as_str());
            if paths_equal(stripped.as_str(), finished) {
                proof { lemma_first_match_found(self@, finished@, i as int); }
                return Some(i);
            }
            i = i + 1;
        }
        proof { lemma_first_match_none(self@, finished@); }
        None
    }
}

/// The kinds of file-system change that can complete a download.
#[derive(Clone, Copy, Debug, PartialEq, Eq, Structural)]
pub enum FsEventKind {
    /// A rename reported with both the old and the new path.
    RenameBoth,
    /// Files were removed.
    Remove,
    /// Files were created, or renamed into place (new path only).
    CreateOrRenameTo,
    /// Any other change.
    Other,
}

/// A file-system change in the watched folder.
pub struct FsEvent {
    pub kind: FsEventKind,
    pub paths: Vec<String>,
}

/// The texts of a list of paths.
pub open spec fn path_texts(v: Seq<String>) -> Seq<Seq<char>> {
    v.map_values(|s: String| s@)
}

/// The in-progress table after noting every temporary path of a change.
pub open spec fn noted(t: Seq<TrackedModel>, paths: Seq<Seq<char>>, now: u64) -> Seq<TrackedModel>
    decreases paths.len(),
{
    if paths.len() == 0 {
        t
    } else {
        let t0 = noted(t, paths.drop_last(), now);
        if is_temp_path(paths.last()) { upserted(t0, paths.last(), now) } else { t0 }
    }
}

/// Removed temporary files: each one completes the file it would become.
pub open spec fn removed_temps(t: Seq<TrackedModel>, paths: Seq<Seq<char>>) -> (Seq<TrackedModel>, Seq<Seq<char>>)
    decreases paths.len(),
{
    if paths.len() == 0 {
        (t, Seq::empty())
    } else {
        let (t0, c0) = removed_temps(t, paths.drop_last());
        let p = paths.last();
        if is_temp_path(p) { (without_path(t0, p), c0.push(strip_temp_extension(p))) } else { (t0, c0) }
    }
}

/// Created files: each new finished file is a candidate, and one that an
/// in-progress download becomes also retires that download.
pub open spec fn created_files(t: Seq<TrackedModel>, paths: Seq<Seq<char>>) -> (Seq<TrackedModel>, Seq<Seq<char>>)
    decreases paths.len(),
{
    if paths.len() == 0 {
        (t, Seq::empty())
    } else {
        let (t0, c0) = created_files(t, paths.drop_last());
        let p = paths.last();
        if is_temp_path(p) {
            (t0, c0)
        } else {
            match first_match(t0, p) {
                Some(i) => (t0.remove(i), c0.push(p)),
                None => (t0, c0.push(p)),
            }
        }
    }
}

/// The in-progress table after a change at `now`, and the finished files the
/// change completes.
pub open spec fn completion(t: Seq<TrackedModel>, kind: FsEventKind, paths: Seq<Seq<char>>, now: u64)
    -> (Seq<TrackedModel>, Seq<Seq<char>>)
{
    let t1 = noted(t, paths, now);
    match kind {
        FsEventKind::RenameBoth => if paths.len() >= 2 && is_temp_path(paths[0]) && !is_temp_path(paths[1]) {
            (without_path(t1, paths[0]), seq![paths[1]])
        } else {
            (t1, Seq::empty())
        },
        FsEventKind::Remove => removed_temps(t1, paths),
        FsEventKind::CreateOrRenameTo => created_files(t1, paths),
        FsEventKind::Other => (t1, Seq::empty()),
    }
}

/// How long, in nanoseconds, an in-progress download is remembered: one hour.
pub const TEMP_FILE_MAX_AGE_NS: u64 = 3_600_000_000_000;

/// How long, in nanoseconds, an announced file is not announced again: one minute.
pub const EMITTED_MAX_AGE_NS: u64 = 60_000_000_000;

/// The downloads detector's memory of in-progress downloads and of finished
/// files already announced.
pub struct DownloadTracker {
    pub temp_files: PathTable,
    pub emitted: PathTable,
}

impl DownloadTracker {
    pub open spec fn wf(&self) -> bool {
        self.temp_files.wf() && self.emitted.wf()
    }

    /// A tracker that remembers nothing.
    pub fn new() -> (t: Self)
        ensures
            t.wf(),
            t.temp_files@ == Seq::<TrackedModel>::empty(),
            t.emitted@ == Seq::<TrackedModel>::empty(),
    {
        DownloadTracker { temp_files: PathTable::new(), emitted: PathTable::new() }
    }

    /// Takes in a file-system change at `now` and returns the finished files
    /// it completes, in order.
    pub fn completion_candidates(&mut self, event: &FsEvent, now: u64) -> (candidates: Vec<String>)
        requires
            old(self).wf(),
        ensures
            final(self).wf(),
            final(self).emitted@ == old(self).emitted@,
            (final(self).temp_files@, path_texts(candidates@)) == completion(
                old(self).temp_files@,
                event.kind,
                path_texts(event.paths@),
                now,
            ),
    {
        let ghost ps = path_texts(event.paths@);
        let ghost start = self.temp_files@;
        let n = event.paths.len();
        let mut i: usize = 0;
        while i < n
            invariant
                n == event.paths@.len(),
                ps == path_texts(event.paths@),
                i <= n,
                self.temp_files.wf(),
                self.emitted@ == old(self).emitted@,
                self.emitted.wf(),
                self.temp_files@ == noted(start, ps.take(i as int), now),
            decreases n - i,
        {
            assert(ps.take(i + 1).drop_last() =~= ps.take(i as int));
            assert(ps.take(i + 1).last() == event.paths@[i as int]@);
            let path = &event.paths[i];
            if is_temp(path.as_str()) {
                self.temp_files.upsert(path.clone(), now);
            }
            i = i + 1;
        }
        assert(ps.take(n as int) =~= ps);
        let ghost t1 = self.temp_files@;
        let mut candidates: Vec<String> = Vec::new();
        match event.kind {
            FsEventKind::RenameBoth => {
                if n >= 2 {
                    let from = &event.paths[0];
                    let to = &event.paths[1];
                    if is_temp(from.as_str()) && !is_temp(to.as_str()) {
                        self.temp_files.remove(from.as_str());
                        candidates.push(to.clone());
                        assert(path_texts(candidates@) =~= seq![ps[1]]);
                    }
                }
                assert(n < 2 || !(is_temp_path(ps[0]) && !is_temp_path(ps[1])) ==> path_texts(candidates@) =~= Seq::<Seq<char>>::empty());
            },
            FsEventKind::Remove => {
                let mut k: usize = 0;
                assert(path_texts(candidates@) =~= Seq::<Seq<char>>::empty());
                while k < n
                    invariant
                        n == event.paths@.len(),
                        ps == path_texts(event.paths@),
                        k <= n,
                        self.temp_files.wf(),
                        self.emitted@ == old(self).emitted@,
                        self.emitted.wf(),
                        (self.temp_files@, path_texts(candidates@)) == removed_temps(t1, ps.take(k as int)),
                    decreases n - k,
                {
                    assert(ps.take(k + 1).drop_last() =~= ps.take(k as int));
                    assert(ps.take(k + 1).last() == event.paths@[k as int]@);
                    let path = &event.paths[k];
                    if is_temp(path.as_str()) {
                        self.temp_files.remove(path.as_str());
                        let finished = without_temp_extension(path.as_str());
                        let ghost prev = candidates@;
                        candidates.push(finished);
                        assert(path_texts(candidates@) =~= path_texts(prev).push(finished@));
                    }
                    k = k + 1;
                }
                assert(ps.take(n as int) =~= ps);
            },
            FsEventKind::CreateOrRenameTo => {
                let mut k: usize = 0;
                assert(path_texts(candidates@) =~= Seq::<Seq<char>>::empty());
                while k < n
                    invariant
                        n == event.paths@.len(),
                        ps == path_texts(event.paths@),
                        k <= n,
                        self.temp_files.wf(),
                        self.emitted@ == old(self).emitted@,
                        self.emitted.wf(),
                        (self.temp_files@, path_texts(candidates@)) == created_files(t1, ps.take(k as int)),
                    decreases n - k,
                {
                    assert(ps.take(k + 1).drop_last() =~= ps.take(k as int));
                    assert(ps.take(k + 1).last() == event.paths@[k as int]@);
                    let path = &event.paths[k];
                    if !is_temp(path.as_str()) {
                        proof { lemma_first_match_in_range(self.temp_files@, path@); }
                        match self.temp_files.first_match(path.as_str()) {
                            Some(found) => self.temp_files.remove_at(found),
                            None => {},
                        }
                        let ghost prev = candidates@;
                        candidates.push(path.clone());
                        assert(path_texts(candidates@) =~= path_texts(prev).push(path@));
                    }
                    k = k + 1;
                }
                assert(ps.take(n as int) =~= ps);
            },
            FsEventKind::Other => {
                assert(path_texts(candidates@) =~= Seq::<Seq<char>>::empty());
            },
        }
        candidates
    }

    /// Forgets in-progress downloads unseen for an hour and announcements
    /// older than a minute; run while the folder is quiet.
    pub fn prune(&mut self, now: u64)
        requires
            old(self).wf(),
        ensures
            final(self).wf(),
            final(self).temp_files@ == pruned(old(self).temp_files@, TEMP_FILE_MAX_AGE_NS, now),
            final(self).emitted@ == pruned(old(self).emitted@, EMITTED_MAX_AGE_NS, now),
    {
        self.temp_files.prune(TEMP_FILE_MAX_AGE_NS, now);
        self.emitted.prune(EMITTED_MAX_AGE_NS, now);
    }

    /// Whether `path` was announced recently.
    pub fn already_emitted(&self, path: &str) -> (done: bool)
        requires
            self.wf(),
        ensures
            done == has_path(self.emitted@, path@),
    {
        self.emitted.contains(path)
    }

    /// Remembers that `path` was announced at `now`.
    pub fn record_emitted(&mut self, path: String, now: u64)
        requires
            old(self).wf(),
        ensures
            final(self).wf(),
            final(self).temp_files@ == old(self).temp_files@,
            final(self).emitted@ == upserted(old(self).emitted@, path@, now),
    {
        self.emitted.upsert(path, now);
    }
}

proof fn lemma_pruned_keeps(t: Seq<TrackedModel>, max_age: u64, now: u64, x: TrackedModel)
    requires
        t.contains(x),
        (if now >= x.1 { now - x.1 } else { 0 }) <= max_age,
    ensures
        pruned(t, max_age, now).contains(x),
    decreases t.len(),
{
    let rest = pruned(t.drop_last(), max_age, now);
    if t.last() == x {
        assert(pruned(t, max_age, now) == rest.push(x));
        assert(pruned(t, max_age, now)[rest.len() as int] == x);
    } else {
        let k = choose|k: int| 0 <= k < t.len() && t[k] == x;
        assert(t.drop_last()[k] == x);
        lemma_pruned_keeps(t.drop_last(), max_age, now, x);
        let j = choose|j: int| 0 <= j < rest.len() && rest[j] == x;
        let age: int = if now >= t.last().1 { now - t.last().1 } else { 0 };
        if age <= max_age {
            assert(pruned(t, max_age, now)[j] == x);
        }
    }
}

/// Law: a finished file, once announced at `now`, counts as announced at any
/// time within the following minute, even after the tables are pruned, so it
/// is not announced twice.
pub proof fn law_announced_file_not_repeated(emitted: Seq<TrackedModel>, path: Seq<char>, now: u64, later: u64)
    requires
        unique_paths(emitted),
        now <= later <= now + EMITTED_MAX_AGE_NS,
    ensures
        has_path(upserted(emitted, path, now), path),
        has_path(pruned(upserted(emitted, path, now), EMITTED_MAX_AGE_NS, later), path),
{
    lemma_upserted_has(emitted, path, now);
    let u = upserted(emitted, path, now);
    let key = if has_path(emitted, path) { emitted[path_index(emitted, path)].0 } else { path };
    if has_path(emitted, path) {
        lemma_first_path_exists(emitted, path);
    }
    assert(path_matches(key, path));
    lemma_pruned_keeps(u, EMITTED_MAX_AGE_NS, later, (key, now));
    let p = pruned(u, EMITTED_MAX_AGE_NS, later);
    let j = choose|j: int| 0 <= j < p.len() && p[j] == (key, now);
    assert(path_matches(p[j].0, path));
}

/// Law: a newly created file that is not an in-progress download is a
/// finished-download candidate on its own; if the table remembers a download
/// that becomes it, that download is retired, and otherwise the table is
/// unchanged.
pub proof fn law_new_file_is_candidate(t: Seq<TrackedModel>, path: Seq<char>, now: u64)
    requires
        !is_temp_path(path),
    ensures
        completion(t, FsEventKind::CreateOrRenameTo, seq![path], now).1 == seq![path],
        completion(t, FsEventKind::CreateOrRenameTo, seq![path], now).0 == (match first_match(t, path) {
            Some(i) => t.remove(i),
            None => t,
        }),
{
    let ps = seq![path];
    assert(ps.drop_last() =~= Seq::<Seq<char>>::empty());
    assert(ps.last() == path);
    assert(noted(t, ps.drop_last(), now) == t);
    assert(noted(t, ps, now) == t);
    assert(created_files(t, ps.drop_last()) == (t, Seq::<Seq<char>>::empty()));
    assert(Seq::<Seq<char>>::empty().push(path) =~= seq![path]);
}

/// Size and modification time of a file, the time as nanoseconds from the
/// Unix epoch (negative before it), when the platform reports one.
#[derive(Clone, Copy, Debug, PartialEq, Eq, Structural)]
pub struct FileStamp {
    pub size: u64,
    pub modified: Option<i128>,
}

/// How many times a finished file is sampled before giving up on it.
pub const STABILITY_SAMPLES: u8 = 5;

/// Decides when a finished file has stopped changing: two further samples
/// equal to the one before them, within five samples.
#[derive(Clone, Copy, Debug, PartialEq, Eq, Structural)]
pub struct StabilityProbe {
    pub previous: Option<FileStamp>,
    pub stable_samples: u8,
    pub samples_taken: u8,
}

/// The probe after a sample, and whether the file counts as stable.
pub open spec fn stability_transition(p: StabilityProbe, current: Option<FileStamp>) -> (StabilityProbe, bool) {
    let same = current is Some && current == p.previous;
    let stable: u8 = if same {
        if p.stable_samples == u8::MAX { u8::MAX } else { (p.stable_samples + 1) as u8 }
    } else {
        0
    };
    let taken: u8 = if p.samples_taken == u8::MAX { u8::MAX } else { (p.samples_taken + 1) as u8 };
    (StabilityProbe { previous: current, stable_samples: stable, samples_taken: taken }, same && stable >= 2)
}

impl StabilityProbe {
    /// A probe that has taken no sample.
    pub fn new() -> (p: Self)
        ensures
            p.previous is None,
            p.stable_samples == 0,
            p.samples_taken == 0,
    {
        StabilityProbe { previous: None, stable_samples: 0, samples_taken: 0 }
    }

    /// Whether every allowed sample has been taken.
    pub fn exhausted(&self) -> (done: bool)
        ensures
            done == (self.samples_taken >= STABILITY_SAMPLES),
    {
        self.samples_taken >= STABILITY_SAMPLES
    }

    /// Takes one sample (`None` when the path is missing or not a file);
    /// returns whether the file is now stable.
    pub fn observe(&mut self, current: Option<FileStamp>) -> (stable: bool)
        ensures
            (*final(self), stable) == stability_transition(*old(self), current),
    {
        let same = match (current, self.previous) {
            (Some(c), Some(p)) => c.size == p.size && c.modified == p.modified,
            _ => false,
        };
        self.stable_samples = if same { self.stable_samples.saturating_add(1) } else { 0 };
        self.samples_taken = self.samples_taken.saturating_add(1);
        self.previous = current;
        same && self.stable_samples >= 2
    }
}

/// Law: a file counts as stable only after three equal samples in a row.
pub proof fn law_stable_needs_three_equal_samples(p: StabilityProbe, a: Option<FileStamp>, b: Option<FileStamp>, c: Option<FileStamp>)
    requires
        p.previous is None,
        p.stable_samples == 0,
    ensures
        !stability_transition(p, a).1,
        !stability_transition(stability_transition(p, a).0, b).1,
        stability_transition(stability_transition(stability_transition(p, a).0, b).0, c).1 == (a is Some && a == b
            && b == c),
{
}

/// The operating system's Downloads folder (`dirs::download_dir`), as text.
/// Where it is depends on the platform and the user's environment, so
/// nothing is stated.
#[verifier::external_body]
fn platform_download_dir() -> Option<String> {
    match dirs::download_dir() {
        Some(path) => Some(path.to_string_lossy().into_owned()),
        None => None,
    }
}

/// The folder to watch: the configured one unless it is blank, else the
/// operating system's Downloads folder.
pub fn downloads_directory(settings: &DownloadsSettings) -> (dir: Option<String>)
    ensures
        (settings.directory is Some && !crate::text::is_blank(settings.directory->Some_0@)) ==> (dir is Some
            && dir->Some_0@ == settings.directory->Some_0@),
{
    match &settings.directory {
        Some(d) => {
            if !crate::text::blank(d.as_str()) {
                return Some(d.clone());
            }
        },
        None => {},
    }
    platform_download_dir()
}

proof fn lemma_created_candidates(t: Seq<TrackedModel>, paths: Seq<Seq<char>>)
    ensures
        forall|i: int|
            0 <= i < created_files(t, paths).1.len() ==> !is_temp_path(#[trigger] created_files(t, paths).1[i])
                && paths.contains(created_files(t, paths).1[i]),
    decreases paths.len(),
{
    if paths.len() > 0 {
        let prev = paths.drop_last();
        lemma_created_candidates(t, prev);
        let c0 = created_files(t, prev).1;
        let c = created_files(t, paths).1;
        assert forall|i: int| 0 <= i < c.len() implies !is_temp_path(#[trigger] c[i]) && paths.contains(c[i]) by {
            if i < c0.len() {
                assert(c[i] == c0[i]);
                let k = choose|k: int| 0 <= k < prev.len() && prev[k] == c0[i];
                assert(paths[k] == prev[k]);
            } else {
                assert(c[i] == paths.last());
                assert(paths[paths.len() - 1] == paths.last());
            }
        }
    }
}

/// Law: a rename completes a download only when a temporary file becomes a
/// file that is not temporary, and then the new name is the one candidate;
/// created files complete only paths of the change that are not temporary.
/// So no rename or creation ever reports an in-progress download as finished.
pub proof fn law_finished_candidates_are_not_temporary(t: Seq<TrackedModel>, paths: Seq<Seq<char>>, now: u64)
    ensures
        completion(t, FsEventKind::RenameBoth, paths, now).1.len() <= 1,
        completion(t, FsEventKind::RenameBoth, paths, now).1.len() == 1 <==> (paths.len() >= 2
            && is_temp_path(paths[0]) && !is_temp_path(paths[1])),
        completion(t, FsEventKind::RenameBoth, paths, now).1.len() == 1
            ==> completion(t, FsEventKind::RenameBoth, paths, now).1[0] == paths[1],
        forall|i: int|
            0 <= i < completion(t, FsEventKind::RenameBoth, paths, now).1.len() ==> !is_temp_path(
                #[trigger] completion(t, FsEventKind::RenameBoth, paths, now).1[i],
            ),
        forall|i: int|
            0 <= i < completion(t, FsEventKind::CreateOrRenameTo, paths, now).1.len() ==> !is_temp_path(
                #[trigger] completion(t, FsEventKind::CreateOrRenameTo, paths, now).1[i],
            ) && paths.contains(completion(t, FsEventKind::CreateOrRenameTo, paths, now).1[i]),
{
    lemma_created_candidates(noted(t, paths, now), paths);
}

proof fn lemma_removed_candidates(t: Seq<TrackedModel>, paths: Seq<Seq<char>>)
    ensures
        forall|i: int|
            #![trigger removed_temps(t, paths).1[i]]
            0 <= i < removed_temps(t, paths).1.len() ==> exists|k: int|
                0 <= k < paths.len() && is_temp_path(#[trigger] paths[k])
                    && removed_temps(t, paths).1[i] == strip_temp_extension(paths[k]),
    decreases paths.len(),
{
    if paths.len() > 0 {
        let prev = paths.drop_last();
        lemma_removed_candidates(t, prev);
        let c0 = removed_temps(t, prev).1;
        let c = removed_temps(t, paths).1;
        let last = paths.last();
        if is_temp_path(last) {
            assert(c == c0.push(strip_temp_extension(last)));
        } else {
            assert(c == c0);
        }
        assert forall|i: int| #![trigger c[i]] 0 <= i < c.len() implies exists|k: int|
            0 <= k < paths.len() && is_temp_path(#[trigger] paths[k]) && c[i] == strip_temp_extension(paths[k]) by {
            if i < c0.len() {
                assert(c[i] == c0[i]);
                let k = choose|k: int| 0 <= k < prev.len() && is_temp_path(#[trigger] prev[k]) && c0[i] == strip_temp_extension(prev[k]);
                assert(paths[k] == prev[k]);
            } else {
                let k = paths.len() - 1;
                assert(paths[k] == last);
                assert(is_temp_path(paths[k]) && c[i] == strip_temp_extension(paths[k]));
            }
        }
    }
}

/// `candidate` is the finished name of one of the temporary files in `paths`.
pub open spec fn finished_name_of_temporary(paths: Seq<Seq<char>>, candidate: Seq<char>) -> bool {
    exists|k: int| 0 <= k < paths.len() && is_temp_path(#[trigger] paths[k]) && candidate == strip_temp_extension(paths[k])
}

/// Law: a removal completes only downloads that were in progress: each
/// candidate is the finished name of a removed temporary file of the change;
/// any other kind of change completes nothing.
pub proof fn law_removal_candidates_come_from_temporary_files(t: Seq<TrackedModel>, paths: Seq<Seq<char>>, now: u64)
    ensures
        forall|c: Seq<char>|
            #[trigger] completion(t, FsEventKind::Remove, paths, now).1.contains(c) ==> finished_name_of_temporary(paths, c),
        completion(t, FsEventKind::Other, paths, now).1.len() == 0,
{
    let t1 = noted(t, paths, now);
    lemma_removed_candidates(t1, paths);
    let r = removed_temps(t1, paths).1;
    assert(completion(t, FsEventKind::Remove, paths, now).1 == r);
    assert forall|c: Seq<char>| #[trigger] r.contains(c) implies finished_name_of_temporary(paths, c) by {
        let i = choose|i: int| 0 <= i < r.len() && r[i] == c;
        assert(removed_temps(t1, paths).1[i] == c);
    }
}

} // verus!
