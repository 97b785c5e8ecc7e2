//! API keys, kept in the operating system's credential store (Keychain,
//! Credential Manager, Secret Service or the kernel keyring) through the
//! `keyring` crate; a key never leaves this module except to build requests.
use vstd::prelude::*;

verus! {

/// The credential-store service name all keys are filed under.
pub const SERVICE_NAME: &'static str = "vuln-hound";

#[verifier::external_type_specification]
#[verifier::external_body]
pub struct ExKeyringEntry(keyring::Entry);

#[verifier::external_type_specification]
#[verifier::external_body]
pub struct ExKeyringError(keyring::Error);

/// `keyring::Entry::new`: the store entry of `user` under `service`. What
/// comes back depends on the platform's credential store, so nothing is
/// stated of it.
#[verifier::external_body]
fn keyring_entry(service: &str, user: &str) -> (r: Result<keyring::Entry, keyring::Error>) {
    keyring::Entry::new(service, user)
}

/// `keyring::Entry::set_password`: stores `password` in the entry. The
/// outcome depends on the credential store; nothing is stated of it.
#[verifier::external_body]
fn keyring_set_password(entry: &keyring::Entry, password: &str) -> (r: Result<(), keyring::Error>) {
    entry.set_password(password)
}

/// `keyring::Entry::get_password`: the password stored in the entry. The
/// outcome depends on the credential store; nothing is stated of it.
#[verifier::external_body]
fn keyring_get_password(entry: &keyring::Entry) -> (r: Result<String, keyring::Error>) {
    entry.get_password()
}

/// `keyring::Entry::delete_credential`: removes the entry's credential. The
/// outcome depends on the credential store; nothing is stated of it.
#[verifier::external_body]
fn keyring_delete_credential(entry: &keyring::Entry) -> (r: Result<(), keyring::Error>) {
    entry.delete_credential()
}

/// The `Display` text of a `keyring::Error`. Nothing is stated of it: the
/// error value is opaque here.
#[verifier::external_body]
fn keyring_error_text(e: &keyring::Error) -> String {
    e.to_string()
}

/// Whether a `keyring::Error` is the `NoEntry` variant (no credential is
/// stored). Nothing is stated of it: the error value is opaque here.
#[verifier::external_body]
fn keyring_error_is_no_entry(e: &keyring::Error) -> bool {
    match e {
        keyring::Error::NoEntry => true,
        _ => false,
    }
}

/// The stage of a credential-store operation that can fail.
#[derive(Debug, Clone, Copy, PartialEq, Eq, Structural)]
pub enum KeychainStage {
    Access,
    Save,
    Read,
    Delete,
}

/// The message prefix of a failure at `stage`.
pub open spec fn keychain_prefix(stage: KeychainStage) -> Seq<char> {
    match stage {
        KeychainStage::Access => "couldn't access the system keychain: "@,
        KeychainStage::Save => "couldn't save the key: "@,
        KeychainStage::Read => "couldn't read the key: "@,
        KeychainStage::Delete => "couldn't delete the key: "@,
    }
}

/// `m` reports a failure at `stage`: its prefix, then the store's message.
pub open spec fn is_failure_at(m: Seq<char>, stage: KeychainStage) -> bool {
    exists|detail: Seq<char>| m == keychain_prefix(stage) + detail
}

/// The message for a failure at `stage` with the store's message `detail`.
pub fn keychain_failure(stage: KeychainStage, detail: &str) -> (m: String)
    ensures
        m@ == keychain_prefix(stage) + detail@,
{
    let mut m = match stage {
        KeychainStage::Access => String::from_str("couldn't access the system keychain: "),
        KeychainStage::Save => String::from_str("couldn't save the key: "),
        KeychainStage::Read => String::from_str("couldn't read the key: "),
        KeychainStage::Delete => String::from_str("couldn't delete the key: "),
    };
    m.append(detail);
    m
}

/// A failed credential-store call, as plain values: whether the store
/// reported that no credential is stored, and the store's message.
#[derive(Debug, Clone, PartialEq, Eq)]
pub struct StoreFailure {
    pub no_entry: bool,
    pub detail: String,
}

fn store_failure(e: &keyring::Error) -> StoreFailure {
    StoreFailure { no_entry: keyring_error_is_no_entry(e), detail: keyring_error_text(e) }
}

/// What a store call at `stage` comes to: its value when it succeeded, else
/// the failure message of `stage` with the store's message.
pub open spec fn stage_outcome_spec<T>(stage: KeychainStage, reply: Result<T, StoreFailure>) -> Result<
    T,
    Seq<char>,
> {
    match reply {
        Ok(v) => Ok(v),
        Err(f) => Err(keychain_prefix(stage) + f.detail@),
    }
}

/// The outcome of a store call at `stage`, given what the store answered.
pub fn stage_outcome<T>(stage: KeychainStage, reply: Result<T, StoreFailure>) -> (r: Result<
    T,
    String,
>)
    ensures
        match stage_outcome_spec(stage, reply) {
            Ok(v) => r == Ok::<T, String>(v),
            Err(m) => r matches Err(e) && e@ == m,
        },
{
    match reply {
        Ok(v) => Ok(v),
        Err(f) => Err(keychain_failure(stage, f.detail.as_str())),
    }
}

/// The outcome of deleting a credential, given what the store answered:
/// a credential that is not there counts as deleted.
pub open spec fn delete_outcome_spec(reply: Result<(), StoreFailure>) -> Result<(), Seq<char>> {
    match reply {
        Ok(()) => Ok(()),
        Err(f) => if f.no_entry {
            Ok(())
        } else {
            Err(keychain_prefix(KeychainStage::Delete) + f.detail@)
        },
    }
}

/// The outcome of deleting a credential, given what the store answered.
pub fn delete_outcome(reply: Result<(), StoreFailure>) -> (r: Result<(), String>)
    ensures
        match delete_outcome_spec(reply) {
            Ok(()) => r == Ok::<(), String>(()),
            Err(m) => r matches Err(e) && e@ == m,
        },
{
    match reply {
        Ok(()) => Ok(()),
        Err(f) => if f.no_entry {
            Ok(())
        } else {
            Err(keychain_failure(KeychainStage::Delete, f.detail.as_str()))
        },
    }
}

fn entry(provider_id: &str) -> (r: Result<keyring::Entry, String>)
    ensures
        r matches Err(m) ==> is_failure_at(m@, KeychainStage::Access),
{
    let reply = match keyring_entry(SERVICE_NAME, provider_id) {
        Ok(e) => Ok(e),
        Err(e) => Err(store_failure(&e)),
    };
    let ghost g = reply;
    let r = stage_outcome(KeychainStage::Access, reply);
    proof {
        if let Err(f) = g {
            assert(r->Err_0@ == keychain_prefix(KeychainStage::Access) + f.detail@);
        }
    }
    r
}

/// Stores `key` for `provider_id`. Whether the store accepts it is up to
/// the platform; a failure says whether the store could not be opened or
/// the key not saved.
pub fn save_api_key(provider_id: &str, key: &str) -> (r: Result<(), String>)
    ensures
        r matches Err(m) ==> is_failure_at(m@, KeychainStage::Access) || is_failure_at(
            m@,
            KeychainStage::Save,
        ),
{
    let e = entry(provider_id)?;
    let reply = match keyring_set_password(&e, key) {
        Ok(()) => Ok(()),
        Err(err) => Err(store_failure(&err)),
    };
    let ghost g = reply;
    let r = stage_outcome(KeychainStage::Save, reply);
    proof {
        if let Err(f) = g {
            assert(r->Err_0@ == keychain_prefix(KeychainStage::Save) + f.detail@);
        }
    }
    r
}

/// The store's answers to reading a key: to opening the entry, then (when
/// it opened) to reading its key.
pub type KeyReadReply = Result<Result<String, StoreFailure>, StoreFailure>;

/// What reading a key comes to, given the store's answers: the key, or the
/// failure message of the stage that failed.
pub open spec fn read_key_outcome_spec(reply: KeyReadReply) -> Result<Seq<char>, Seq<char>> {
    match reply {
        Err(f) => Err(keychain_prefix(KeychainStage::Access) + f.detail@),
        Ok(Err(f)) => Err(keychain_prefix(KeychainStage::Read) + f.detail@),
        Ok(Ok(k)) => Ok(k@),
    }
}

/// What reading a key comes to, given the store's answers.
pub fn read_key_outcome(reply: KeyReadReply) -> (r: Result<String, String>)
    ensures
        match read_key_outcome_spec(reply) {
            Ok(k) => r matches Ok(v) && v@ == k,
            Err(m) => r matches Err(e) && e@ == m,
        },
{
    match reply {
        Err(f) => Err(keychain_failure(KeychainStage::Access, f.detail.as_str())),
        Ok(Err(f)) => Err(keychain_failure(KeychainStage::Read, f.detail.as_str())),
        Ok(Ok(k)) => Ok(k),
    }
}

/// Asks the store for the key of `provider_id`: opens its entry, then (when
/// it opened) reads the key.
fn ask_for_key(provider_id: &str) -> KeyReadReply {
    match keyring_entry(SERVICE_NAME, provider_id) {
        Ok(e) => Ok(
            match keyring_get_password(&e) {
                Ok(k) => Ok(k),
                Err(err) => Err(store_failure(&err)),
            },
        ),
        Err(e) => Err(store_failure(&e)),
    }
}

/// The key stored for `provider_id`. A failure says whether the store could
/// not be opened or the key not read (for instance because none is stored).
pub fn get_api_key(provider_id: &str) -> (r: Result<String, String>)
    ensures
        r matches Err(m) ==> is_failure_at(m@, KeychainStage::Access) || is_failure_at(
            m@,
            KeychainStage::Read,
        ),
{
    let reply = ask_for_key(provider_id);
    let ghost g = reply;
    let r = read_key_outcome(reply);
    proof {
        match g {
            Err(f) => assert(r->Err_0@ == keychain_prefix(KeychainStage::Access) + f.detail@),
            Ok(Err(f)) => assert(r->Err_0@ == keychain_prefix(KeychainStage::Read) + f.detail@),
            Ok(Ok(_)) => {},
        }
    }
    r
}

/// A key is readable when the store opened the entry and read its key.
pub open spec fn key_readable_spec(reply: KeyReadReply) -> bool {
    reply matches Ok(Ok(_))
}

/// Whether a key is readable, given what the store answered to opening the
/// entry and then (when it opened) to reading its key.
pub fn key_is_readable(reply: KeyReadReply) -> (r: bool)
    ensures
        r == key_readable_spec(reply),
{
    match reply {
        Ok(Ok(_)) => true,
        _ => false,
    }
}

/// Whether a key can be read for `provider_id`: the store opens and holds
/// a readable key. The store alone decides.
pub fn has_api_key(provider_id: &str) -> bool {
    key_is_readable(ask_for_key(provider_id))
}

/// On the same answers of the store, a key is reported present exactly
/// when reading it succeeds.
pub proof fn lemma_has_key_agrees_with_get(reply: KeyReadReply)
    ensures
        key_readable_spec(reply) <==> read_key_outcome_spec(reply) is Ok,
{
}

/// Deleting succeeds whenever nothing is left to delete: when the store
/// deletes the credential, and when it reports that none is stored (as it
/// does for a key deleted before).
pub proof fn lemma_delete_succeeds_when_nothing_is_left(reply: Result<(), StoreFailure>)
    requires
        reply matches Err(f) ==> f.no_entry,
    ensures
        delete_outcome_spec(reply) == Ok::<(), Seq<char>>(()),
{
}

/// Deletes the key stored for `provider_id`; deleting a key that is not
/// there is a success.
pub fn delete_api_key(provider_id: &str) -> (r: Result<(), String>)
    ensures
        r matches Err(m) ==> is_failure_at(m@, KeychainStage::Access) || is_failure_at(
            m@,
            KeychainStage::Delete,
        ),
{
    let e = entry(provider_id)?;
    let reply = match keyring_delete_credential(&e) {
        Ok(()) => Ok(()),
        Err(err) => Err(store_failure(&err)),
    };
    let ghost g = reply;
    let r = delete_outcome(reply);
    proof {
        if let Err(f) = g {
            if !f.no_entry {
                assert(r->Err_0@ == keychain_prefix(KeychainStage::Delete) + f.detail@);
            }
        }
    }
    r
}

} // verus!
