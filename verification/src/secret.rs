//! The API key, kept in the operating system's credential store (Windows Credential
//! Manager, macOS Keychain, Secret Service on Linux) rather than in the settings file.
//! What the store holds, and whether there is one at all, is the machine's business: the
//! functions here decide what the app makes of each answer.

use vstd::prelude::*;
use keyring::Entry as CredentialEntry;

verus! {

/// The entry of the credential store that holds one secret.
#[verifier::external_type_specification]
#[verifier::external_body]
pub struct ExKeyringEntry(CredentialEntry);

/// What the credential store reports when it cannot do what was asked.
#[verifier::external_type_specification]
#[verifier::external_body]
pub struct ExKeyringError(keyring::Error);

/// The service under which the key is stored.
pub const SERVICE: &'static str = "com.nosugark.realingo";

/// The account under which the key is stored.
pub const USER: &'static str = "api-key";

/// `CredentialEntry::store_status`, read as "is there a usable store". Nothing is claimed
/// of the answer, which depends on the machine.
#[verifier::external_body]
fn store_ready() -> bool {
    CredentialEntry::store_status().is_ok()
}

/// `CredentialEntry::new` for a service and an account. Nothing is claimed of the result,
/// which depends on the machine's credential store.
#[verifier::external_body]
fn open_entry(service: &str, user: &str) -> Result<CredentialEntry, keyring::Error> {
    CredentialEntry::new(service, user)
}

/// `CredentialEntry::get_password`. Nothing is claimed of the result: it is whatever the
/// store holds, or its refusal.
#[verifier::external_body]
fn read_password(entry: &CredentialEntry) -> Result<String, keyring::Error> {
    entry.get_password()
}

/// `CredentialEntry::set_password`. Nothing is claimed of the result.
#[verifier::external_body]
fn write_password(entry: &CredentialEntry, password: &str) -> Result<(), keyring::Error> {
    entry.set_password(password)
}

/// Why the store refused to delete an entry.
pub enum StoreRefusal {
    /// There was no entry to delete (`keyring::Error::NoEntry`).
    NoEntry,
    /// Any other refusal, with the store's message (its `Display`).
    Other(String),
}

/// `CredentialEntry::delete_credential`, with the store's refusal told apart as
/// `StoreRefusal`: one arm for `keyring::Error::NoEntry`, one for every other error with
/// its message. Nothing is claimed of which answer comes back, which is the store's.
#[verifier::external_body]
fn delete_password(entry: &CredentialEntry) -> Result<(), StoreRefusal> {
    match entry.delete_credential() {
        Ok(()) => Ok(()),
        Err(keyring::Error::NoEntry) => Err(StoreRefusal::NoEntry),
        Err(e) => Err(StoreRefusal::Other(e.to_string())),
    }
}

/// The message of a store's refusal (its `Display`). Nothing is claimed of the text.
#[verifier::external_body]
fn message_of(e: &keyring::Error) -> String {
    e.to_string()
}

/// Whether this machine has a usable credential store. Where it has none, the key stays in
/// the settings file.
pub fn available() -> bool {
    store_ready()
}

/// What a read of the store yields for the app: the stored key where the store gave one
/// that is not empty; otherwise nothing, for an empty key is no key.
pub fn nonempty_password(stored: Result<String, keyring::Error>) -> (r: Option<String>)
    ensures
        match stored {
            Ok(k) => if k@.len() > 0 {
                r == Some(k)
            } else {
                r is None
            },
            Err(_) => r is None,
        },
{
    match stored {
        Ok(k) => if k.as_str().is_empty() {
            None
        } else {
            Some(k)
        },
        Err(_) => None,
    }
}

/// What clearing the key comes to: a deletion that succeeded, or found nothing to delete,
/// has cleared it (saving an already cleared field twice is fine); any other refusal is
/// reported with its message.
pub fn cleared(deleted: Result<(), StoreRefusal>) -> (r: Result<(), String>)
    ensures
        deleted is Ok ==> r is Ok,
        deleted matches Err(StoreRefusal::NoEntry) ==> r is Ok,
        deleted matches Err(StoreRefusal::Other(m)) ==> r == Err::<(), String>(m),
{
    match deleted {
        Ok(()) => Ok(()),
        Err(StoreRefusal::NoEntry) => Ok(()),
        Err(StoreRefusal::Other(m)) => Err(m),
    }
}

/// The key stored for `user`: `None` where the store cannot be opened, holds nothing, or
/// holds an empty key.
pub fn get_as(user: &str) -> (r: Option<String>)
    ensures
        r matches Some(k) ==> k@.len() > 0,
{
    match open_entry(SERVICE, user) {
        Ok(entry) => nonempty_password(read_password(&entry)),
        Err(_) => None,
    }
}

/// What saving a key asks of the store.
pub enum KeyRequest {
    /// Delete the entry: the key was cleared.
    Delete,
    /// Write this key into the entry.
    Write(String),
}

/// What saving `key` asks of the store: an empty key deletes the entry, for "clear the
/// field" has to actually clear it and must not store an empty key; any other key is
/// written as it is.
pub fn key_request(key: &str) -> (r: KeyRequest)
    ensures
        key@.len() == 0 <==> r is Delete,
        r matches KeyRequest::Write(k) ==> k@ == key@,
{
    if key.is_empty() {
        KeyRequest::Delete
    } else {
        KeyRequest::Write(String::from_str(key))
    }
}

/// What a write comes to: done where the store took the key; otherwise the store's
/// refusal, reported with its message.
pub fn written(stored: Result<(), keyring::Error>, message: String) -> (r: Result<(), String>)
    ensures
        stored is Ok ==> r is Ok,
        stored is Err ==> r == Err::<(), String>(message),
{
    match stored {
        Ok(()) => Ok(()),
        Err(_) => Err(message),
    }
}

/// Stores `key` for `user`, as `key_request` decides: an empty key deletes the entry
/// (and a missing entry counts as deleted, see `cleared`), any other key is written (see
/// `written`). A store that cannot be opened or refuses is reported with its message.
/// Which of these happens is the machine's credential store's answer, so no clause
/// below fixes the result.
pub fn set_as(user: &str, key: &str) -> Result<(), String> {
    let entry = match open_entry(SERVICE, user) {
        Ok(entry) => entry,
        Err(e) => {
            return Err(message_of(&e));
        },
    };
    match key_request(key) {
        KeyRequest::Delete => {
            cleared(delete_password(&entry))
        },
        KeyRequest::Write(k) => {
            let stored = write_password(&entry, k.as_str());
            let message = match &stored {
                Ok(()) => String::new(),
                Err(e) => message_of(e),
            };
            written(stored, message)
        },
    }
}

/// The stored API key, if there is one.
pub fn get() -> (r: Option<String>)
    ensures
        r matches Some(k) ==> k@.len() > 0,
{
    get_as(USER)
}

/// Stores the API key; an empty key deletes the entry.
pub fn set(key: &str) -> Result<(), String> {
    set_as(USER, key)
}

} // verus!
