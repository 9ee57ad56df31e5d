//! Secrets live only in the operating system's credential vault, reached
//! through the `keyring` crate.

use vstd::prelude::*;
use crate::text::{blank, is_blank, joined, owned, trim, trimmed};

verus! {

/// Which secret an entry holds.
#[derive(Clone, Copy, Debug, PartialEq, Eq, Structural)]
pub enum SecretKind {
    ImapPassword,
    DiscordBotToken,
}

/// The vault service name under which a kind of secret is stored.
pub open spec fn service_name(kind: SecretKind) -> Seq<char> {
    match kind {
        SecretKind::ImapPassword => "com.ionsense.desktop.imap"@,
        SecretKind::DiscordBotToken => "com.ionsense.desktop.discord"@,
    }
}

/// The vault account name for a kind of secret: the configured IMAP account
/// (trimmed) for the IMAP password, one fixed name for the Discord token.
pub open spec fn account_name(kind: SecretKind, configured: Seq<char>) -> Seq<char> {
    match kind {
        SecretKind::ImapPassword => "com.ionsense.desktop:"@ + trimmed(configured),
        SecretKind::DiscordBotToken => "com.ionsense.desktop:discord-bot"@,
    }
}

impl SecretKind {
    /// The vault service name of this kind of secret.
    pub fn service(self) -> (name: &'static str)
        ensures
            name@ == service_name(self),
    {
        match self {
            SecretKind::ImapPassword => "com.ionsense.desktop.imap",
            SecretKind::DiscordBotToken => "com.ionsense.desktop.discord",
        }
    }
}

/// The vault account name under which a kind of secret is stored.
pub fn credential_account(kind: SecretKind, configured_account: &str) -> (account: String)
    ensures
        account@ == account_name(kind, configured_account@),
{
    match kind {
        SecretKind::ImapPassword => joined("com.ionsense.desktop:", trim(configured_account)),
        SecretKind::DiscordBotToken => owned("com.ionsense.desktop:discord-bot"),
    }
}

#[verifier::external_type_specification]
#[verifier::external_body]
pub struct ExKeyringEntry(keyring::Entry);

#[verifier::external_type_specification]
#[verifier::external_body]
pub struct ExKeyringError(keyring::Error);

/// Opens an entry of the platform credential store (`keyring::Entry::new`),
/// which fails when the store cannot be initialised or rejects the names, and
/// returns a ghost record of the service and account handed to the call.
/// Nothing is stated of the outcome, which depends on the machine's vault.
#[verifier::external_body]
fn open_entry(service: &str, account: &str) -> (opened: (
    Result<keyring::Entry, keyring::Error>,
    Ghost<(Seq<char>, Seq<char>)>,
))
    ensures
        opened.1@ == (service@, account@),
{
    (keyring::Entry::new(service, account), Ghost((service@, account@)))
}

/// `keyring::Entry::get_password` reads the entry's secret from the vault;
/// what it returns depends on the vault, so nothing is stated.
pub assume_specification[ keyring::Entry::get_password ](entry: &keyring::Entry) -> Result<String, keyring::Error>;

/// Writes `secret` as the entry's secret (`keyring::Entry::set_password`) and
/// returns a ghost record of the secret handed to the call. Whether the write
/// succeeds depends on the vault, so nothing is stated of the outcome.
#[verifier::external_body]
fn write_entry(entry: &keyring::Entry, secret: &str) -> (written: (Result<(), keyring::Error>, Ghost<Seq<char>>))
    ensures
        written.1@ == secret@,
{
    (entry.set_password(secret), Ghost(secret@))
}

/// `keyring::Entry::delete_credential` removes the entry from the vault;
/// whether that succeeds depends on the vault, so nothing is stated.
pub assume_specification[ keyring::Entry::delete_credential ](entry: &keyring::Entry) -> Result<(), keyring::Error>;

/// Why a credential operation failed.
#[derive(Debug)]
pub enum CredentialError {
    /// The account name is empty or white space.
    EmptyAccount,
    /// The secret to store is empty.
    EmptySecret,
    /// The vault entry could not be opened.
    OpenEntry(keyring::Error),
    /// The secret could not be read from the vault.
    Read(keyring::Error),
    /// The secret could not be written to the vault.
    Write(keyring::Error),
    /// The secret could not be deleted from the vault.
    Delete(keyring::Error),
}

/// An operation on the vault.
#[derive(Clone, Copy, Debug, PartialEq, Eq, Structural)]
pub enum VaultOp {
    /// An entry was opened.
    Open,
    /// The entry's secret was read.
    Read,
    /// A secret was written to the entry.
    Write,
    /// The entry was deleted.
    Delete,
}

/// One call into the vault: the operation, the service and account of the
/// entry it acts on, the secret written (empty for other operations), and
/// whether the call succeeded.
pub type VaultCall = (VaultOp, Seq<char>, Seq<char>, Seq<char>, bool);

/// The calls of one attempt at `op` on the entry of `kind` under `account`:
/// opening the entry, and, if it opened, `op` (writing `secret` for a
/// write), which succeeded or not.
pub open spec fn attempt(
    kind: SecretKind,
    account: Seq<char>,
    op: VaultOp,
    secret: Seq<char>,
    opened: bool,
    succeeded: bool,
) -> Seq<VaultCall> {
    if opened {
        seq![
            (VaultOp::Open, service_name(kind), account, Seq::empty(), true),
            (op, service_name(kind), account, secret, succeeded),
        ]
    } else {
        seq![(VaultOp::Open, service_name(kind), account, Seq::empty(), false)]
    }
}

/// The entry was opened: the outcome is not an `OpenEntry` error.
pub open spec fn entry_opened<T>(result: Result<T, CredentialError>) -> bool {
    !(result matches Err(CredentialError::OpenEntry(_)))
}

/// The calls of storing `secret` under `account`: none when the account is
/// blank or the secret empty, else an attempt to write it.
pub open spec fn store_calls(
    kind: SecretKind,
    account: Seq<char>,
    secret: Seq<char>,
    opened: bool,
    succeeded: bool,
) -> Seq<VaultCall> {
    if is_blank(account) || secret.len() == 0 {
        Seq::empty()
    } else {
        attempt(kind, account, VaultOp::Write, secret, opened, succeeded)
    }
}

/// Storing `secret` under `account` worked: the library accepted the
/// account and the secret, and the entry opened and took the write.
pub open spec fn store_ok(account: Seq<char>, secret: Seq<char>, opened: bool, succeeded: bool) -> bool {
    !is_blank(account) && secret.len() > 0 && opened && succeeded
}

/// The calls of restoring the entry of `kind` under `account` after a change:
/// none for an unchanged secret, else writing the previous secret back, or
/// deleting the entry when there was none.
pub open spec fn restore_calls(
    kind: SecretKind,
    account: Seq<char>,
    previous: Option<Seq<char>>,
    changed: bool,
    opened: bool,
    succeeded: bool,
) -> Seq<VaultCall> {
    if !changed {
        Seq::empty()
    } else {
        match previous {
            Some(p) => store_calls(kind, account, p, opened, succeeded),
            None => attempt(kind, account, VaultOp::Delete, Seq::empty(), opened, succeeded),
        }
    }
}

/// Restoring worked: nothing was changed, or the previous secret was
/// stored again, or the entry was deleted.
pub open spec fn restore_ok(
    account: Seq<char>,
    previous: Option<Seq<char>>,
    changed: bool,
    opened: bool,
    succeeded: bool,
) -> bool {
    !changed || match previous {
        Some(p) => store_ok(account, p, opened, succeeded),
        None => opened && succeeded,
    }
}

/// Reads a secret from the vault. Whether a secret is there depends on the
/// vault; a failure is reported as the step that failed. The ghost log holds
/// the calls made and their outcomes: the entry of `kind` under `account` is
/// opened, then read.
pub fn get_secret(kind: SecretKind, account: &str) -> (result: (Result<String, CredentialError>, Ghost<Seq<VaultCall>>))
    ensures
        result.0 matches Err(e) ==> (e is OpenEntry || e is Read),
        result.1@ == attempt(kind, account@, VaultOp::Read, Seq::empty(), entry_opened(result.0), result.0 is Ok),
{
    let (opened, Ghost(names)) = open_entry(kind.service(), account);
    let open_log: Ghost<Seq<VaultCall>> = Ghost(Seq::empty().push((VaultOp::Open, names.0, names.1, Seq::empty(), false)));
    let entry = match opened {
        Ok(entry) => entry,
        Err(error) => {
            assert(open_log@ =~= attempt(kind, account@, VaultOp::Read, Seq::empty(), false, false));
            return (Err(CredentialError::OpenEntry(error)), open_log);
        },
    };
    let read = entry.get_password();
    let log: Ghost<Seq<VaultCall>> = Ghost(Seq::empty().push((VaultOp::Open, names.0, names.1, Seq::empty(), true)).push(
        (VaultOp::Read, names.0, names.1, Seq::empty(), read is Ok),
    ));
    assert(log@ =~= attempt(kind, account@, VaultOp::Read, Seq::empty(), true, read is Ok));
    match read {
        Ok(secret) => (Ok(secret), log),
        Err(error) => (Err(CredentialError::Read(error)), log),
    }
}

/// Stores a secret in the vault. A blank account or an empty secret is
/// refused before the vault is touched. The ghost log holds the calls made
/// and their outcomes: the entry of `kind` under `account` is opened, then
/// `secret` is written.
pub fn set_secret(kind: SecretKind, account: &str, secret: &str) -> (result: (Result<(), CredentialError>, Ghost<Seq<VaultCall>>))
    ensures
        is_blank(account@) ==> (result.0 matches Err(CredentialError::EmptyAccount)),
        !is_blank(account@) && secret@.len() == 0 ==> (result.0 matches Err(CredentialError::EmptySecret)),
        !is_blank(account@) && secret@.len() > 0 ==> (result.0 matches Err(e) ==> (e is OpenEntry || e is Write)),
        result.1@ == store_calls(kind, account@, secret@, entry_opened(result.0), result.0 is Ok),
        result.0 is Ok <==> store_ok(account@, secret@, entry_opened(result.0), result.0 is Ok),
{
    if blank(account) {
        return (Err(CredentialError::EmptyAccount), Ghost(Seq::empty()));
    }
    if secret.is_empty() {
        return (Err(CredentialError::EmptySecret), Ghost(Seq::empty()));
    }
    let (opened, Ghost(names)) = open_entry(kind.service(), account);
    let open_log: Ghost<Seq<VaultCall>> = Ghost(Seq::empty().push((VaultOp::Open, names.0, names.1, Seq::empty(), false)));
    let entry = match opened {
        Ok(entry) => entry,
        Err(error) => {
            assert(open_log@ =~= attempt(kind, account@, VaultOp::Write, secret@, false, false));
            return (Err(CredentialError::OpenEntry(error)), open_log);
        },
    };
    let (written, Ghost(secret_written)) = write_entry(&entry, secret);
    let log: Ghost<Seq<VaultCall>> = Ghost(Seq::empty().push((VaultOp::Open, names.0, names.1, Seq::empty(), true)).push(
        (VaultOp::Write, names.0, names.1, secret_written, written is Ok),
    ));
    assert(log@ =~= attempt(kind, account@, VaultOp::Write, secret@, true, written is Ok));
    match written {
        Ok(()) => (Ok(()), log),
        Err(error) => (Err(CredentialError::Write(error)), log),
    }
}

/// Removes a secret from the vault. The ghost log holds the calls made and
/// their outcomes: the entry of `kind` under `account` is opened, then
/// deleted.
pub fn delete_secret(kind: SecretKind, account: &str) -> (result: (Result<(), CredentialError>, Ghost<Seq<VaultCall>>))
    ensures
        result.0 matches Err(e) ==> (e is OpenEntry || e is Delete),
        result.1@ == attempt(kind, account@, VaultOp::Delete, Seq::empty(), entry_opened(result.0), result.0 is Ok),
{
    let (opened, Ghost(names)) = open_entry(kind.service(), account);
    let open_log: Ghost<Seq<VaultCall>> = Ghost(Seq::empty().push((VaultOp::Open, names.0, names.1, Seq::empty(), false)));
    let entry = match opened {
        Ok(entry) => entry,
        Err(error) => {
            assert(open_log@ =~= attempt(kind, account@, VaultOp::Delete, Seq::empty(), false, false));
            return (Err(CredentialError::OpenEntry(error)), open_log);
        },
    };
    let deleted = entry.delete_credential();
    let log: Ghost<Seq<VaultCall>> = Ghost(Seq::empty().push((VaultOp::Open, names.0, names.1, Seq::empty(), true)).push(
        (VaultOp::Delete, names.0, names.1, Seq::empty(), deleted is Ok),
    ));
    assert(log@ =~= attempt(kind, account@, VaultOp::Delete, Seq::empty(), true, deleted is Ok));
    match deleted {
        Ok(()) => (Ok(()), log),
        Err(error) => (Err(CredentialError::Delete(error)), log),
    }
}

/// The view of an optional borrowed secret.
pub open spec fn secret_view(secret: Option<&str>) -> Option<Seq<char>> {
    match secret {
        Some(s) => Some(s@),
        None => None,
    }
}

/// Rolls a changed secret back: writes the previous secret again, or deletes
/// the entry when there was none. An unchanged secret is left alone.
pub fn restore_secret(kind: SecretKind, account: &str, previous: Option<&str>, changed: bool) -> (result: (Result<(), CredentialError>, Ghost<Seq<VaultCall>>))
    ensures
        !changed ==> result.0 is Ok,
        changed && previous is None ==> (result.0 matches Err(e) ==> (e is OpenEntry || e is Delete)),
        (changed && previous is Some) ==> {
            let p = previous->Some_0;
            &&& is_blank(account@) ==> (result.0 matches Err(CredentialError::EmptyAccount))
            &&& !is_blank(account@) && p@.len() == 0 ==> (result.0 matches Err(CredentialError::EmptySecret))
            &&& !is_blank(account@) && p@.len() > 0 ==> (result.0 matches Err(e) ==> (e is OpenEntry || e is Write))
        },
        result.1@ == restore_calls(kind, account@, secret_view(previous), changed, entry_opened(result.0), result.0 is Ok),
        result.0 is Ok <==> restore_ok(account@, secret_view(previous), changed, entry_opened(result.0), result.0 is Ok),
{
    if !changed {
        return (Ok(()), Ghost(Seq::empty()));
    }
    match previous {
        Some(secret) => set_secret(kind, account, secret),
        None => delete_secret(kind, account),
    }
}

/// A secret supplied with a settings change, or `None` when the field was
/// left empty.
pub open spec fn supplied(secret: Option<Seq<char>>) -> bool {
    secret matches Some(s) && s.len() > 0
}

/// Keeps a supplied secret only if it is not empty.
pub fn nonempty_secret(secret: Option<String>) -> (kept: Option<String>)
    ensures
        kept is Some <==> (secret is Some && secret->Some_0@.len() > 0),
        kept is Some ==> kept->Some_0@ == secret->Some_0@,
{
    match secret {
        Some(s) => if s.as_str().is_empty() { None } else { Some(s) },
        None => None,
    }
}

/// Why a settings change is refused before anything is written.
#[derive(Clone, Copy, Debug, PartialEq, Eq, Structural)]
pub enum SaveRejection {
    /// An IMAP password was supplied without an IMAP user name.
    ImapUsernameMissing,
    /// Email is enabled, but no password was supplied or is stored.
    ImapPasswordMissing,
    /// Discord is enabled, but no bot token was supplied or is stored.
    DiscordTokenMissing,
}

/// The message shown to the user for a refused settings change.
pub open spec fn rejection_text(r: SaveRejection) -> Seq<char> {
    match r {
        SaveRejection::ImapUsernameMissing => "An IMAP username is required before saving its password"@,
        SaveRejection::ImapPasswordMissing => "Enable email only after providing an OS-keychain password"@,
        SaveRejection::DiscordTokenMissing => "Enable Discord only after providing an OS-keychain bot token"@,
    }
}

impl SaveRejection {
    /// The message shown to the user.
    pub fn message(&self) -> (text: String)
        ensures
            text@ == rejection_text(*self),
    {
        match self {
            SaveRejection::ImapUsernameMissing => owned("An IMAP username is required before saving its password"),
            SaveRejection::ImapPasswordMissing => owned("Enable email only after providing an OS-keychain password"),
            SaveRejection::DiscordTokenMissing => owned("Enable Discord only after providing an OS-keychain bot token"),
        }
    }
}

/// The vault account of the IMAP password for the user name `username`.
pub open spec fn imap_account(username: Seq<char>) -> Seq<char> {
    account_name(SecretKind::ImapPassword, username)
}

/// The vault account of the Discord bot token.
pub open spec fn discord_account() -> Seq<char> {
    account_name(SecretKind::DiscordBotToken, "discord-bot"@)
}

/// The calls of an attempt to read the secret of `kind` under `account`.
pub open spec fn read_attempt(kind: SecretKind, account: Seq<char>, opened: bool, succeeded: bool) -> Seq<VaultCall> {
    attempt(kind, account, VaultOp::Read, Seq::empty(), opened, succeeded)
}

/// A password was supplied without a user name.
pub open spec fn username_missing(username: Seq<char>, imap_password: Option<String>) -> bool {
    imap_password is Some && username.len() == 0
}

/// The save check's verdict, given whether the stored IMAP password and the
/// stored Discord token were found (`None` where they were not looked up):
/// a password without a user name is refused; an enabled detector with no
/// new secret is refused when its stored secret was looked up and not found.
pub open spec fn save_check_result(
    username: Seq<char>,
    email_enabled: bool,
    imap_password: Option<String>,
    discord_enabled: bool,
    discord_token: Option<String>,
    imap_found: Option<bool>,
    discord_found: Option<bool>,
) -> Result<(), SaveRejection> {
    if username_missing(username, imap_password) {
        Err(SaveRejection::ImapUsernameMissing)
    } else if email_enabled && imap_password is None && imap_found == Some(false) {
        Err(SaveRejection::ImapPasswordMissing)
    } else if discord_enabled && discord_token is None && discord_found == Some(false) {
        Err(SaveRejection::DiscordTokenMissing)
    } else {
        Ok(())
    }
}

/// Decides the save check from the outcomes of the vault look-ups.
pub fn save_check_outcome(
    email_enabled: bool,
    imap_username: &str,
    discord_enabled: bool,
    imap_password: &Option<String>,
    discord_token: &Option<String>,
    imap_found: Option<bool>,
    discord_found: Option<bool>,
) -> (result: Result<(), SaveRejection>)
    ensures
        result == save_check_result(
            imap_username@,
            email_enabled,
            *imap_password,
            discord_enabled,
            *discord_token,
            imap_found,
            discord_found,
        ),
{
    if imap_password.is_some() && imap_username.is_empty() {
        Err(SaveRejection::ImapUsernameMissing)
    } else if email_enabled && imap_password.is_none() && imap_found == Some(false) {
        Err(SaveRejection::ImapPasswordMissing)
    } else if discord_enabled && discord_token.is_none() && discord_found == Some(false) {
        Err(SaveRejection::DiscordTokenMissing)
    } else {
        Ok(())
    }
}

/// Which stored secrets a save check looks up, and with what outcome, when
/// the IMAP read opened its entry or not (`io`) and succeeded or not (`ir`),
/// and likewise the Discord read (`dopen`, `dr`): the IMAP password when email
/// is enabled without a new one, then, unless that password was not found,
/// the Discord token when Discord is enabled without a new one.
pub open spec fn save_check_found(
    username: Seq<char>,
    email_enabled: bool,
    imap_password: Option<String>,
    discord_enabled: bool,
    discord_token: Option<String>,
    io: bool,
    ir: bool,
    dopen: bool,
    dr: bool,
) -> (Option<bool>, Option<bool>) {
    let reads_imap = !username_missing(username, imap_password) && email_enabled && imap_password is None;
    let reads_discord = !username_missing(username, imap_password) && discord_enabled && discord_token is None
        && !(reads_imap && !(io && ir));
    (if reads_imap { Some(io && ir) } else { None }, if reads_discord { Some(dopen && dr) } else { None })
}

/// The vault calls of a save check: the look-ups of `save_check_found`.
pub open spec fn save_check_calls(
    username: Seq<char>,
    email_enabled: bool,
    imap_password: Option<String>,
    discord_enabled: bool,
    discord_token: Option<String>,
    io: bool,
    ir: bool,
    dopen: bool,
    dr: bool,
) -> Seq<VaultCall> {
    let found = save_check_found(username, email_enabled, imap_password, discord_enabled, discord_token, io, ir, dopen, dr);
    (if found.0 is Some { read_attempt(SecretKind::ImapPassword, imap_account(username), io, ir) } else {
        Seq::empty()
    }) + (if found.1 is Some { read_attempt(SecretKind::DiscordBotToken, discord_account(), dopen, dr) } else {
        Seq::empty()
    })
}

/// Checks, before a settings change is saved, that every enabled detector has
/// a secret: one supplied with the change or one already in the vault. The
/// user name is the sanitised one, and the secrets are the non-empty ones.
/// The ghost log holds the vault look-ups made and their outcomes, and the
/// verdict is `save_check_result` of those outcomes.
pub fn check_secrets_for_save(
    email_enabled: bool,
    imap_username: &str,
    discord_enabled: bool,
    imap_password: &Option<String>,
    discord_token: &Option<String>,
) -> (result: (Result<(), SaveRejection>, Ghost<Seq<VaultCall>>))
    ensures
        result.0 == Err::<(), SaveRejection>(SaveRejection::ImapUsernameMissing) <==> (imap_password is Some
            && imap_username@.len() == 0),
        result.0 == Err::<(), SaveRejection>(SaveRejection::ImapPasswordMissing) ==> email_enabled && imap_password is None,
        result.0 == Err::<(), SaveRejection>(SaveRejection::DiscordTokenMissing) ==> discord_enabled && discord_token is None,
        !(imap_password is Some && imap_username@.len() == 0) && !(email_enabled && imap_password is None)
            && !(discord_enabled && discord_token is None) ==> result.0 is Ok,
        exists|io: bool, ir: bool, dopen: bool, dr: bool|
            result.1@ == #[trigger] save_check_calls(
                imap_username@,
                email_enabled,
                *imap_password,
                discord_enabled,
                *discord_token,
                io,
                ir,
                dopen,
                dr,
            ) && {
                let found = save_check_found(
                    imap_username@,
                    email_enabled,
                    *imap_password,
                    discord_enabled,
                    *discord_token,
                    io,
                    ir,
                    dopen,
                    dr,
                );
                result.0 == save_check_result(
                    imap_username@,
                    email_enabled,
                    *imap_password,
                    discord_enabled,
                    *discord_token,
                    found.0,
                    found.1,
                )
            },
{
    let ghost mut io = false;
    let ghost mut ir = false;
    let ghost mut dopen = false;
    let ghost mut dr = false;
    let ghost mut imap_log: Seq<VaultCall> = Seq::empty();
    let ghost mut discord_log: Seq<VaultCall> = Seq::empty();
    let missing = imap_password.is_some() && imap_username.is_empty();
    let mut imap_found: Option<bool> = None;
    let mut discord_found: Option<bool> = None;
    if !missing && email_enabled && imap_password.is_none() {
        let account = credential_account(SecretKind::ImapPassword, imap_username);
        let (read, Ghost(calls)) = get_secret(SecretKind::ImapPassword, account.as_str());
        proof {
            io = entry_opened(read);
            ir = read is Ok;
            imap_log = calls;
        }
        imap_found = Some(read.is_ok());
    }
    if !missing && discord_enabled && discord_token.is_none() && imap_found != Some(false) {
        let account = credential_account(SecretKind::DiscordBotToken, "discord-bot");
        proof {
            reveal_strlit("discord-bot");
        }
        let (read, Ghost(calls)) = get_secret(SecretKind::DiscordBotToken, account.as_str());
        proof {
            dopen = entry_opened(read);
            dr = read is Ok;
            discord_log = calls;
        }
        discord_found = Some(read.is_ok());
    }
    let outcome = save_check_outcome(
        email_enabled,
        imap_username,
        discord_enabled,
        imap_password,
        discord_token,
        imap_found,
        discord_found,
    );
    let ghost log = imap_log + discord_log;
    proof {
        let found = save_check_found(
            imap_username@,
            email_enabled,
            *imap_password,
            discord_enabled,
            *discord_token,
            io,
            ir,
            dopen,
            dr,
        );
        assert(found == (imap_found, discord_found));
        assert(log =~= save_check_calls(
            imap_username@,
            email_enabled,
            *imap_password,
            discord_enabled,
            *discord_token,
            io,
            ir,
            dopen,
            dr,
        ));
    }
    (outcome, Ghost(log))
}

/// A secret that a settings change may replace, with what the vault held
/// before, so that the change can be rolled back.
pub struct SecretChange {
    pub kind: SecretKind,
    pub account: String,
    /// The new secret, when one was supplied.
    pub new_secret: Option<String>,
    /// The secret stored before the change, when one was readable.
    pub prior: Option<String>,
}

/// Prepares a change of one secret: the prior secret is read only when a new
/// one is supplied, and kept exactly when the read found one. The ghost log
/// holds that read and its outcome, if it was made.
pub fn prepare_secret_change(kind: SecretKind, account: String, new_secret: Option<String>) -> (prepared: (
    SecretChange,
    Ghost<Seq<VaultCall>>,
))
    ensures
        prepared.0.kind == kind,
        prepared.0.account@ == account@,
        prepared.0.new_secret is Some <==> new_secret is Some,
        prepared.0.new_secret is Some ==> prepared.0.new_secret->Some_0@ == new_secret->Some_0@,
        new_secret is None ==> prepared.0.prior is None && prepared.1@ == Seq::<VaultCall>::empty(),
        new_secret is Some ==> exists|opened: bool, succeeded: bool|
            prepared.1@ == #[trigger] read_attempt(kind, account@, opened, succeeded)
                && (prepared.0.prior is Some <==> opened && succeeded),
{
    let ghost mut log: Seq<VaultCall> = Seq::empty();
    let prior = if new_secret.is_some() {
        let (read, Ghost(calls)) = get_secret(kind, account.as_str());
        proof {
            log = calls;
            assert(log == read_attempt(kind, account@, entry_opened(read), read is Ok));
        }
        match read {
            Ok(secret) => Some(secret),
            Err(_) => None,
        }
    } else {
        None
    };
    (SecretChange { kind, account, new_secret, prior }, Ghost(log))
}

/// Which secret write failed.
#[derive(Debug)]
pub enum SecretWriteFailure {
    Imap(CredentialError),
    Discord(CredentialError),
}

/// The view of an optional owned secret.
pub open spec fn owned_secret_view(secret: Option<String>) -> Option<Seq<char>> {
    match secret {
        Some(s) => Some(s@),
        None => None,
    }
}

/// The calls of writing the new secret of `change`, if it has one.
pub open spec fn change_store_calls(change: SecretChange, opened: bool, succeeded: bool) -> Seq<VaultCall> {
    match change.new_secret {
        Some(secret) => store_calls(change.kind, change.account@, secret@, opened, succeeded),
        None => Seq::empty(),
    }
}

/// Writing the new secret of `change` worked, or there was none to write.
pub open spec fn change_store_ok(change: SecretChange, opened: bool, succeeded: bool) -> bool {
    match change.new_secret {
        Some(secret) => store_ok(change.account@, secret@, opened, succeeded),
        None => true,
    }
}

/// The calls of rolling `change` back.
pub open spec fn change_restore_calls(change: SecretChange, opened: bool, succeeded: bool) -> Seq<VaultCall> {
    restore_calls(change.kind, change.account@, owned_secret_view(change.prior), change.new_secret is Some, opened, succeeded)
}

/// Rolling `change` back worked.
pub open spec fn change_restore_ok(change: SecretChange, opened: bool, succeeded: bool) -> bool {
    restore_ok(change.account@, owned_secret_view(change.prior), change.new_secret is Some, opened, succeeded)
}

/// Restores the vault to its state before `change`; a change without a new
/// secret touched nothing.
pub fn roll_back_secret(change: &SecretChange) -> (result: (Result<(), CredentialError>, Ghost<Seq<VaultCall>>))
    ensures
        change.new_secret is None ==> result.0 is Ok,
        change.new_secret is Some && change.prior is None
            ==> (result.0 matches Err(e) ==> (e is OpenEntry || e is Delete)),
        (change.new_secret is Some && change.prior is Some) ==> {
            let p = change.prior->Some_0;
            &&& is_blank(change.account@) ==> (result.0 matches Err(CredentialError::EmptyAccount))
            &&& !is_blank(change.account@) && p@.len() == 0 ==> (result.0 matches Err(CredentialError::EmptySecret))
            &&& !is_blank(change.account@) && p@.len() > 0 ==> (result.0 matches Err(e) ==> (e is OpenEntry || e is Write))
        },
        result.1@ == change_restore_calls(*change, entry_opened(result.0), result.0 is Ok),
        result.0 is Ok <==> change_restore_ok(*change, entry_opened(result.0), result.0 is Ok),
{
    let prior = match &change.prior {
        Some(p) => Some(p.as_str()),
        None => None,
    };
    restore_secret(change.kind, change.account.as_str(), prior, change.new_secret.is_some())
}

/// The vault calls of writing the secrets of `imap` then `discord`, given
/// each attempt's outcome (`io`/`iw` for the IMAP write, `dopen`/`dw` for the
/// Discord write, `ro`/`rw` for the rollback): the IMAP write; then, if it
/// worked, the Discord write; then, if that failed, the IMAP rollback.
pub open spec fn write_secrets_calls(
    imap: SecretChange,
    discord: SecretChange,
    io: bool,
    iw: bool,
    dopen: bool,
    dw: bool,
    ro: bool,
    rw: bool,
) -> Seq<VaultCall> {
    if !change_store_ok(imap, io, iw) {
        change_store_calls(imap, io, iw)
    } else if !change_store_ok(discord, dopen, dw) {
        change_store_calls(imap, io, iw) + change_store_calls(discord, dopen, dw) + change_restore_calls(imap, ro, rw)
    } else {
        change_store_calls(imap, io, iw) + change_store_calls(discord, dopen, dw)
    }
}

/// The outcome of writing the secrets, given the outcomes of the vault
/// calls: success exactly when every requested write worked; an IMAP failure
/// stops at once; a Discord failure after a good IMAP write reports whether
/// the IMAP rollback worked.
pub open spec fn write_secrets_outcome_holds(
    result: Result<(), (SecretWriteFailure, Option<CredentialError>)>,
    imap: SecretChange,
    discord: SecretChange,
    io: bool,
    iw: bool,
    dopen: bool,
    dw: bool,
    ro: bool,
    rw: bool,
) -> bool {
    let imap_ok = change_store_ok(imap, io, iw);
    let discord_ok = change_store_ok(discord, dopen, dw);
    &&& result is Ok <==> imap_ok && discord_ok
    &&& (result matches Err((SecretWriteFailure::Imap(_), None))) <==> !imap_ok
    &&& (result matches Err((SecretWriteFailure::Discord(_), _))) <==> (imap_ok && !discord_ok)
    &&& result matches Err((SecretWriteFailure::Discord(_), rollback))
        ==> (rollback is None <==> change_restore_ok(imap, ro, rw))
}

/// Writes the supplied secrets: the IMAP password first, then the Discord
/// token; if the token cannot be written, the IMAP password is rolled back.
/// A rollback failure cannot be reported beside the write failure, so it is
/// returned second. The ghost log holds the vault calls made and their
/// outcomes, in order, and the result follows from those outcomes.
pub fn write_new_secrets(imap: &SecretChange, discord: &SecretChange)
    -> (result: (Result<(), (SecretWriteFailure, Option<CredentialError>)>, Ghost<Seq<VaultCall>>))
    ensures
        imap.new_secret is None && discord.new_secret is None ==> result.0 is Ok,
        result.0 matches Err((SecretWriteFailure::Imap(_), rollback)) ==> imap.new_secret is Some && rollback is None,
        result.0 matches Err((SecretWriteFailure::Discord(_), rollback))
            ==> discord.new_secret is Some && (imap.new_secret is None ==> rollback is None),
        imap.new_secret is Some && is_blank(imap.account@)
            ==> (result.0 matches Err((SecretWriteFailure::Imap(CredentialError::EmptyAccount), None))),
        imap.new_secret is Some && !is_blank(imap.account@) && imap.new_secret->Some_0@.len() == 0
            ==> (result.0 matches Err((SecretWriteFailure::Imap(CredentialError::EmptySecret), None))),
        imap.new_secret is Some && !is_blank(imap.account@) && imap.new_secret->Some_0@.len() > 0
            ==> (result.0 matches Err((SecretWriteFailure::Imap(e), _)) ==> (e is OpenEntry || e is Write)),
        discord.new_secret is Some && is_blank(discord.account@) ==> (
            result.0 matches Err((SecretWriteFailure::Imap(_), _))
            || result.0 matches Err((SecretWriteFailure::Discord(CredentialError::EmptyAccount), _))),
        discord.new_secret is Some && !is_blank(discord.account@) && discord.new_secret->Some_0@.len() == 0 ==> (
            result.0 matches Err((SecretWriteFailure::Imap(_), _))
            || result.0 matches Err((SecretWriteFailure::Discord(CredentialError::EmptySecret), _))),
        discord.new_secret is Some && !is_blank(discord.account@) && discord.new_secret->Some_0@.len() > 0
            ==> (result.0 matches Err((SecretWriteFailure::Discord(e), _)) ==> (e is OpenEntry || e is Write)),
        imap.new_secret is None && discord.new_secret is Some && is_blank(discord.account@)
            ==> (result.0 matches Err((SecretWriteFailure::Discord(CredentialError::EmptyAccount), None))),
        imap.new_secret is None && discord.new_secret is Some && !is_blank(discord.account@)
            && discord.new_secret->Some_0@.len() == 0
            ==> (result.0 matches Err((SecretWriteFailure::Discord(CredentialError::EmptySecret), None))),
        exists|io: bool, iw: bool, dopen: bool, dw: bool, ro: bool, rw: bool|
            result.1@ == #[trigger] write_secrets_calls(*imap, *discord, io, iw, dopen, dw, ro, rw)
                && write_secrets_outcome_holds(result.0, *imap, *discord, io, iw, dopen, dw, ro, rw),
{
    let ghost mut io = false;
    let ghost mut iw = false;
    let ghost mut dopen = false;
    let ghost mut dw = false;
    let ghost mut ro = false;
    let ghost mut rw = false;
    let ghost mut log: Seq<VaultCall> = Seq::empty();
    match &imap.new_secret {
        Some(secret) => {
            let (written, Ghost(calls)) = set_secret(imap.kind, imap.account.as_str(), secret.as_str());
            proof {
                io = entry_opened(written);
                iw = written is Ok;
                log = calls;
            }
            if let Err(error) = written {
                proof {
                    assert(log == write_secrets_calls(*imap, *discord, io, iw, dopen, dw, ro, rw));
                }
                return (Err((SecretWriteFailure::Imap(error), None)), Ghost(log));
            }
        },
        None => {},
    }
    proof {
        assert(change_store_ok(*imap, io, iw));
        assert(log == change_store_calls(*imap, io, iw));
    }
    match &discord.new_secret {
        Some(secret) => {
            let (written, Ghost(calls)) = set_secret(discord.kind, discord.account.as_str(), secret.as_str());
            proof {
                dopen = entry_opened(written);
                dw = written is Ok;
                log = log + calls;
            }
            if let Err(error) = written {
                let (rolled_back, Ghost(undo)) = roll_back_secret(imap);
                proof {
                    ro = entry_opened(rolled_back);
                    rw = rolled_back is Ok;
                    log = log + undo;
                    assert(log == write_secrets_calls(*imap, *discord, io, iw, dopen, dw, ro, rw));
                }
                let rollback = match rolled_back {
                    Ok(()) => None,
                    Err(e) => Some(e),
                };
                return (Err((SecretWriteFailure::Discord(error), rollback)), Ghost(log));
            }
        },
        None => {},
    }
    proof {
        assert(log =~= write_secrets_calls(*imap, *discord, io, iw, dopen, dw, ro, rw));
    }
    (Ok(()), Ghost(log))
}

/// A step of saving settings, after the secrets are written, that can fail.
#[derive(Clone, Copy, Debug, PartialEq, Eq, Structural)]
pub enum SaveStepFailure {
    /// Launch at login could not be brought in line with the new settings.
    Autostart,
    /// The settings file could not be written.
    SettingsFile,
}

/// One step of undoing a failed save.
#[derive(Clone, Copy, Debug, PartialEq, Eq, Structural)]
pub enum UndoStep {
    /// Set launch at login back to the previous settings' choice.
    RestoreAutostart,
    /// Roll the IMAP password back (`roll_back_secret`).
    RollBackImapSecret,
    /// Roll the Discord bot token back (`roll_back_secret`).
    RollBackDiscordSecret,
}

/// What a failed save undoes, in order: the launch-at-login change when it
/// was made, then the IMAP password, then the Discord token.
pub open spec fn undo_plan(failure: SaveStepFailure) -> Seq<UndoStep> {
    match failure {
        SaveStepFailure::Autostart => seq![UndoStep::RollBackImapSecret, UndoStep::RollBackDiscordSecret],
        SaveStepFailure::SettingsFile => seq![
            UndoStep::RestoreAutostart,
            UndoStep::RollBackImapSecret,
            UndoStep::RollBackDiscordSecret,
        ],
    }
}

/// The undo steps for a save that failed at `failure`, in the order to run
/// them.
pub fn undo_after(failure: SaveStepFailure) -> (plan: Vec<UndoStep>)
    ensures
        plan@ == undo_plan(failure),
{
    let mut plan: Vec<UndoStep> = Vec::new();
    match failure {
        SaveStepFailure::Autostart => {},
        SaveStepFailure::SettingsFile => plan.push(UndoStep::RestoreAutostart),
    }
    plan.push(UndoStep::RollBackImapSecret);
    plan.push(UndoStep::RollBackDiscordSecret);
    assert(plan@ =~= undo_plan(failure));
    plan
}

/// Law: a failed save undoes every change made before the failing step, each
/// once, and the launch-at-login change, made last, is undone first.
pub proof fn law_undo_covers_earlier_steps(failure: SaveStepFailure)
    ensures
        undo_plan(failure).contains(UndoStep::RollBackImapSecret),
        undo_plan(failure).contains(UndoStep::RollBackDiscordSecret),
        undo_plan(failure).contains(UndoStep::RestoreAutostart) <==> failure == SaveStepFailure::SettingsFile,
        failure == SaveStepFailure::SettingsFile ==> undo_plan(failure)[0] == UndoStep::RestoreAutostart,
        forall|i: int, j: int|
            0 <= i < j < undo_plan(failure).len() ==> undo_plan(failure)[i] != undo_plan(failure)[j],
{
    let p = undo_plan(failure);
    match failure {
        SaveStepFailure::Autostart => {
            assert(p[0] == UndoStep::RollBackImapSecret);
            assert(p[1] == UndoStep::RollBackDiscordSecret);
            assert(!p.contains(UndoStep::RestoreAutostart));
        },
        SaveStepFailure::SettingsFile => {
            assert(p[0] == UndoStep::RestoreAutostart);
            assert(p[1] == UndoStep::RollBackImapSecret);
            assert(p[2] == UndoStep::RollBackDiscordSecret);
        },
    }
}

/// The steps of saving settings, in order.
#[derive(Clone, Copy, Debug, PartialEq, Eq, Structural)]
pub enum SaveStage {
    /// Check that every enabled detector has a secret.
    CheckSecrets,
    /// Write the supplied secrets (rolled back inside on failure).
    WriteSecrets,
    /// Bring launch at login in line with the new settings.
    SyncAutostart,
    /// Write the settings file.
    WriteSettingsFile,
    /// Adopt the settings and restart the detectors.
    Commit,
    /// Remove the credential of a previous IMAP user name.
    RemoveStaleCredential,
}

/// What follows a save step that succeeded or failed.
#[derive(Clone, Copy, Debug, PartialEq, Eq, Structural)]
pub enum SaveTransition {
    /// Go on with the given step.
    Proceed(SaveStage),
    /// The save is complete.
    Finish,
    /// Stop and report the failure; nothing needs undoing.
    Abort,
    /// Run `undo_after` for the failure, then stop and report it.
    UndoThenAbort(SaveStepFailure),
}

/// The save sequence: each step leads to the next on success; a failed
/// check, secret write or commit stops the save as it stands, a failed
/// launch-at-login or file step first undoes what came before, and a failed
/// removal of a stale credential is only reported.
pub open spec fn save_transition(stage: SaveStage, succeeded: bool) -> SaveTransition {
    match stage {
        SaveStage::CheckSecrets => if succeeded { SaveTransition::Proceed(SaveStage::WriteSecrets) } else {
            SaveTransition::Abort
        },
        SaveStage::WriteSecrets => if succeeded { SaveTransition::Proceed(SaveStage::SyncAutostart) } else {
            SaveTransition::Abort
        },
        SaveStage::SyncAutostart => if succeeded { SaveTransition::Proceed(SaveStage::WriteSettingsFile) } else {
            SaveTransition::UndoThenAbort(SaveStepFailure::Autostart)
        },
        SaveStage::WriteSettingsFile => if succeeded { SaveTransition::Proceed(SaveStage::Commit) } else {
            SaveTransition::UndoThenAbort(SaveStepFailure::SettingsFile)
        },
        SaveStage::Commit => if succeeded { SaveTransition::Proceed(SaveStage::RemoveStaleCredential) } else {
            SaveTransition::Abort
        },
        SaveStage::RemoveStaleCredential => SaveTransition::Finish,
    }
}

/// The step of the save sequence that follows `stage`.
pub fn next_save_step(stage: SaveStage, succeeded: bool) -> (next: SaveTransition)
    ensures
        next == save_transition(stage, succeeded),
{
    match stage {
        SaveStage::CheckSecrets => if succeeded { SaveTransition::Proceed(SaveStage::WriteSecrets) } else {
            SaveTransition::Abort
        },
        SaveStage::WriteSecrets => if succeeded { SaveTransition::Proceed(SaveStage::SyncAutostart) } else {
            SaveTransition::Abort
        },
        SaveStage::SyncAutostart => if succeeded { SaveTransition::Proceed(SaveStage::WriteSettingsFile) } else {
            SaveTransition::UndoThenAbort(SaveStepFailure::Autostart)
        },
        SaveStage::WriteSettingsFile => if succeeded { SaveTransition::Proceed(SaveStage::Commit) } else {
            SaveTransition::UndoThenAbort(SaveStepFailure::SettingsFile)
        },
        SaveStage::Commit => if succeeded { SaveTransition::Proceed(SaveStage::RemoveStaleCredential) } else {
            SaveTransition::Abort
        },
        SaveStage::RemoveStaleCredential => SaveTransition::Finish,
    }
}

/// Law: the vault and launch at login are undone only for a failure after
/// the secrets were written and before the settings were adopted, and once
/// the settings are adopted the save always finishes.
pub proof fn law_undo_only_before_commit(stage: SaveStage, succeeded: bool)
    ensures
        save_transition(stage, succeeded) is UndoThenAbort ==> !succeeded && (stage == SaveStage::SyncAutostart
            || stage == SaveStage::WriteSettingsFile),
        stage == SaveStage::RemoveStaleCredential ==> save_transition(stage, succeeded) == SaveTransition::Finish,
        succeeded && stage != SaveStage::RemoveStaleCredential ==> save_transition(stage, succeeded) is Proceed,
{
}

/// The vault account of the previous IMAP user name, when a change of user
/// name leaves it behind.
pub open spec fn stale_imap_account_of(previous: Seq<char>, current: Seq<char>) -> Option<Seq<char>> {
    if previous != current && !is_blank(previous) {
        Some(account_name(SecretKind::ImapPassword, previous))
    } else {
        None
    }
}

/// Returns the vault account to delete after the IMAP user name changed.
pub fn stale_imap_account(previous_username: &str, current_username: &str) -> (account: Option<String>)
    ensures
        account is Some <==> stale_imap_account_of(previous_username@, current_username@) is Some,
        account is Some ==> account->Some_0@ == stale_imap_account_of(previous_username@, current_username@)->Some_0,
{
    if !crate::text::str_equal(previous_username, current_username) && !blank(previous_username) {
        Some(credential_account(SecretKind::ImapPassword, previous_username))
    } else {
        None
    }
}

/// Whether each detector's secret is stored.
#[derive(Clone, Copy, Debug, PartialEq, Eq, Structural)]
pub struct CredentialStatus {
    pub imap_configured: bool,
    pub discord_configured: bool,
}

/// The vault reads of a status lookup, given each read's outcome: the IMAP
/// password unless the user name is blank, then the Discord token.
pub open spec fn status_calls(username: Seq<char>, io: bool, ir: bool, dopen: bool, dr: bool) -> Seq<VaultCall> {
    (if is_blank(username) { Seq::empty() } else {
        read_attempt(SecretKind::ImapPassword, imap_account(username), io, ir)
    }) + read_attempt(SecretKind::DiscordBotToken, discord_account(), dopen, dr)
}

/// Looks up which secrets are stored. An IMAP password counts only under a
/// non-blank user name. The ghost log holds the vault reads made and their
/// outcomes; a secret counts as stored exactly when its read succeeded.
pub fn credential_status(imap_username: &str) -> (status: (CredentialStatus, Ghost<Seq<VaultCall>>))
    ensures
        exists|io: bool, ir: bool, dopen: bool, dr: bool|
            status.1@ == #[trigger] status_calls(imap_username@, io, ir, dopen, dr)
                && status.0.imap_configured == (!is_blank(imap_username@) && io && ir)
                && status.0.discord_configured == (dopen && dr),
{
    let ghost mut io = false;
    let ghost mut ir = false;
    let ghost mut imap_log: Seq<VaultCall> = Seq::empty();
    let imap_configured = if blank(imap_username) {
        false
    } else {
        let account = credential_account(SecretKind::ImapPassword, imap_username);
        let (read, Ghost(calls)) = get_secret(SecretKind::ImapPassword, account.as_str());
        proof {
            io = entry_opened(read);
            ir = read is Ok;
            imap_log = calls;
        }
        read.is_ok()
    };
    let account = credential_account(SecretKind::DiscordBotToken, "discord-bot");
    proof {
        reveal_strlit("discord-bot");
    }
    let (read, Ghost(calls)) = get_secret(SecretKind::DiscordBotToken, account.as_str());
    let ghost dopen = entry_opened(read);
    let ghost dr = read is Ok;
    let discord_configured = read.is_ok();
    let ghost log = imap_log + calls;
    proof {
        assert(log == status_calls(imap_username@, io, ir, dopen, dr));
    }
    (CredentialStatus { imap_configured, discord_configured }, Ghost(log))
}

/// Law: when email is enabled and no new password is supplied, the save check
/// looks the stored IMAP password up first, under the vault account of the
/// configured user name, and refuses the save with `ImapPasswordMissing`
/// exactly when that look-up did not find it (the entry did not open, or the
/// read failed).
pub proof fn law_enabled_email_needs_a_stored_password(
    username: Seq<char>,
    discord_enabled: bool,
    discord_token: Option<String>,
    io: bool,
    ir: bool,
    dopen: bool,
    dr: bool,
)
    ensures
        ({
            let found = save_check_found(username, true, None, discord_enabled, discord_token, io, ir, dopen, dr);
            let calls = save_check_calls(username, true, None, discord_enabled, discord_token, io, ir, dopen, dr);
            &&& found.0 == Some(io && ir)
            &&& calls.len() >= 1
            &&& calls[0] == (VaultOp::Open, service_name(SecretKind::ImapPassword), imap_account(username), Seq::<char>::empty(), io)
            &&& (save_check_result(username, true, None, discord_enabled, discord_token, found.0, found.1)
                == Err::<(), SaveRejection>(SaveRejection::ImapPasswordMissing) <==> !(io && ir))
        }),
{
}

} // verus!
