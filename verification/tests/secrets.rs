use screeny_core::secrets::{secret_update, SecretUpdate};
use screeny_core::{MemoryStore, SecretStore, LLM_API_KEY, SMTP_PASSWORD};

#[test]
fn memory_store_round_trip() {
    let mut store = MemoryStore::default();
    assert!(!store.is_set(SMTP_PASSWORD));
    store.set(SMTP_PASSWORD, "hunter2").unwrap();
    assert_eq!(
        store.get(SMTP_PASSWORD).unwrap().as_deref(),
        Some("hunter2")
    );
    assert!(store.is_set(SMTP_PASSWORD));
    store.delete(SMTP_PASSWORD).unwrap();
    assert!(!store.is_set(SMTP_PASSWORD));
}

#[test]
fn writes_to_one_key_leave_others_alone() {
    let mut store = MemoryStore::default();
    store.set(SMTP_PASSWORD, "a").unwrap();
    store.set(LLM_API_KEY, "b").unwrap();
    store.set(SMTP_PASSWORD, "c").unwrap();
    assert_eq!(store.get(SMTP_PASSWORD).unwrap().as_deref(), Some("c"));
    assert_eq!(store.get(LLM_API_KEY).unwrap().as_deref(), Some("b"));
    store.delete(SMTP_PASSWORD).unwrap();
    assert_eq!(store.get(SMTP_PASSWORD).unwrap(), None);
    assert_eq!(store.get(LLM_API_KEY).unwrap().as_deref(), Some("b"));
    // deleting a missing key is fine
    store.delete(SMTP_PASSWORD).unwrap();
}

#[test]
fn blank_secret_field_clears_and_text_is_trimmed() {
    assert_eq!(secret_update("   "), SecretUpdate::Delete);
    assert_eq!(secret_update(""), SecretUpdate::Delete);
    assert_eq!(secret_update(" pw \n"), SecretUpdate::Store("pw".into()));
}

/// A store whose reads always fail.
struct Unreadable;

impl SecretStore for Unreadable {
    fn get(&self, _key: &str) -> Result<Option<String>, screeny_core::CoreError> {
        Err(screeny_core::CoreError::Secret("locked".into()))
    }

    fn set(&mut self, _key: &str, _value: &str) -> Result<(), screeny_core::CoreError> {
        Ok(())
    }

    fn delete(&mut self, _key: &str) -> Result<(), screeny_core::CoreError> {
        Ok(())
    }
}

#[test]
fn failed_reads_do_not_count_as_set() {
    assert!(!Unreadable.is_set(SMTP_PASSWORD));
}
