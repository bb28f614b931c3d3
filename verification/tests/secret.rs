use realingo::secret::{available, cleared, get_as, key_request, nonempty_password, set_as, written, KeyRequest, StoreRefusal};

/// Round-trips against the real store under a throwaway name, so it never touches the
/// user's actual key. Skipped where there is no store (headless Linux) or a locked one.
#[test]
fn stores_reads_and_clears() {
    const PROBE: &str = "api-key-selftest";
    if !available() || set_as(PROBE, "sk-probe").is_err() {
        return;
    }
    assert_eq!(get_as(PROBE).as_deref(), Some("sk-probe"));

    set_as(PROBE, "").unwrap();
    assert_eq!(get_as(PROBE), None, "an empty key must delete the entry, not store one");

    // Deleting something already gone is how a cleared field saves twice.
    set_as(PROBE, "").unwrap();
}

#[test]
fn an_empty_key_asks_for_deletion_and_any_other_is_written() {
    assert!(matches!(key_request(""), KeyRequest::Delete));
    assert!(matches!(key_request("sk-1"), KeyRequest::Write(k) if k == "sk-1"));
    assert!(matches!(key_request(" "), KeyRequest::Write(k) if k == " "));
}

#[test]
fn store_answers_become_the_app_s_results() {
    assert_eq!(written(Ok(()), String::new()), Ok(()));
    assert_eq!(written(Err(keyring::Error::NoEntry), "refused".into()), Err("refused".to_string()));
    assert_eq!(cleared(Ok(())), Ok(()));
    assert_eq!(cleared(Err(StoreRefusal::NoEntry)), Ok(()));
    assert_eq!(cleared(Err(StoreRefusal::Other("locked".into()))), Err("locked".to_string()));
    assert_eq!(nonempty_password(Ok("sk".into())).as_deref(), Some("sk"));
    assert_eq!(nonempty_password(Ok(String::new())), None);
    assert_eq!(nonempty_password(Err(keyring::Error::NoEntry)), None);
}
