use vanish::ident::{new_identifier, ID_LEN};
use vanish::validate::{is_allowed_expiration, is_message_length_ok, DEFAULT_EXPIRATION_SECS};
use vanish::{
    create_secret, create_secret_at, get_secret, get_secret_at, CreateSecretPayload, Secret, SecretError,
    SecretStore,
};

fn is_id_char(c: char) -> bool {
    c.is_ascii_alphanumeric() || c == '_' || c == '-'
}

#[test]
fn message_of_exactly_500_chars_is_accepted() {
    let p = CreateSecretPayload { message: "a".repeat(500), expires_in_secs: None };
    assert_eq!(p.validate(), Ok(600));
    let p = CreateSecretPayload { message: "a".repeat(501), expires_in_secs: None };
    assert_eq!(p.validate(), Err(SecretError::MessageTooLong));
}

#[test]
fn message_length_counts_characters_not_bytes() {
    let wide = "é".repeat(500);
    assert_eq!(wide.len(), 1000);
    assert!(is_message_length_ok(&wide));
    assert!(!is_message_length_ok(&"é".repeat(501)));
    assert!(is_message_length_ok(&String::new()));
}

#[test]
fn every_whitelisted_ttl_is_accepted() {
    for ttl in [60u64, 300, 600, 1800, 3600, 21600, 43200, 86400] {
        assert!(is_allowed_expiration(ttl));
        let p = CreateSecretPayload { message: "m".to_string(), expires_in_secs: Some(ttl) };
        assert_eq!(p.validate(), Ok(ttl));
    }
}

#[test]
fn other_ttls_are_rejected() {
    for ttl in [0u64, 1, 59, 61, 599, 601, 86401, 99999, u64::MAX] {
        assert!(!is_allowed_expiration(ttl));
        let p = CreateSecretPayload { message: "m".to_string(), expires_in_secs: Some(ttl) };
        assert_eq!(p.validate(), Err(SecretError::InvalidExpiration));
    }
}

#[test]
fn omitted_ttl_defaults_to_ten_minutes() {
    assert_eq!(DEFAULT_EXPIRATION_SECS, 600);
    let p = CreateSecretPayload { message: "m".to_string(), expires_in_secs: None };
    assert_eq!(p.validate(), Ok(600));
}

#[test]
fn length_is_checked_before_expiration() {
    let p = CreateSecretPayload { message: "a".repeat(501), expires_in_secs: Some(7) };
    assert_eq!(p.validate(), Err(SecretError::MessageTooLong));
}

#[test]
fn identifiers_are_ten_safe_characters() {
    let a = new_identifier();
    assert_eq!(ID_LEN, 10);
    assert_eq!(a.chars().count(), 10);
    assert!(a.chars().all(is_id_char));
    let b = new_identifier();
    assert_ne!(a, b);
}

#[test]
fn round_trip_then_not_found() {
    let mut store = SecretStore::new();
    let id = store.put_at("hello world".to_string(), 60, 1_000).unwrap();
    assert_eq!(store.len(), 1);
    assert_eq!(store.take_at(&id, 1_000), Ok("hello world".to_string()));
    assert_eq!(store.len(), 0);
    assert_eq!(store.take_at(&id, 1_000), Err(SecretError::NotFound));
}

#[test]
fn round_trip_with_the_real_clock() {
    let mut store = SecretStore::new();
    let id = store.put("hello world".to_string(), 60).unwrap();
    assert_eq!(store.take(&id), Ok("hello world".to_string()));
    assert_eq!(store.take(&id), Err(SecretError::NotFound));
}

#[test]
fn expiry_instant_is_still_readable() {
    let mut store = SecretStore::new();
    let id = store.put_at("edge".to_string(), 60, 1_000).unwrap();
    assert_eq!(store.take_at(&id, 1_060), Ok("edge".to_string()));
}

#[test]
fn expired_secret_is_not_found_and_purged() {
    let mut store = SecretStore::new();
    let id = store.put_at("late".to_string(), 60, 1_000).unwrap();
    assert!(store.contains(&id));
    assert_eq!(store.take_at(&id, 1_061), Err(SecretError::NotFound));
    assert!(!store.contains(&id));
    assert_eq!(store.len(), 0);
    assert_eq!(store.take_at(&id, 0), Err(SecretError::NotFound));
}

#[test]
fn expiry_saturates_at_the_last_instant() {
    let mut store = SecretStore::new();
    let id = store.put_at("far".to_string(), 86400, u64::MAX - 10).unwrap();
    assert_eq!(store.take_at(&id, u64::MAX), Ok("far".to_string()));
}

#[test]
fn never_inserted_is_always_not_found() {
    let mut store = SecretStore::new();
    let kept = store.put_at("kept".to_string(), 60, 5).unwrap();
    let ghost_id = "nope".to_string();
    for _ in 0..3 {
        assert_eq!(store.take_at(&ghost_id, 5), Err(SecretError::NotFound));
        assert_eq!(store.len(), 1);
    }
    assert!(store.contains(&kept));
}

#[test]
fn same_message_twice_gets_distinct_ids_and_stays_isolated() {
    let mut store = SecretStore::new();
    let a = store.put_at("same".to_string(), 300, 10).unwrap();
    let b = store.put_at("same".to_string(), 300, 10).unwrap();
    assert_ne!(a, b);
    assert_eq!(store.take_at(&a, 20), Ok("same".to_string()));
    assert!(store.contains(&b));
    assert_eq!(store.take_at(&b, 20), Ok("same".to_string()));
    assert_eq!(store.take_at(&a, 20), Err(SecretError::NotFound));
}

#[test]
fn insert_new_refuses_a_used_identifier() {
    let mut store = SecretStore::new();
    let id = "fixed".to_string();
    assert!(store.insert_new(id.clone(), Secret { message: "one".to_string(), expires_at: 100 }));
    assert!(!store.insert_new(id.clone(), Secret { message: "two".to_string(), expires_at: 100 }));
    assert_eq!(store.len(), 1);
    assert_eq!(store.take_at(&id, 50), Ok("one".to_string()));
}

#[test]
fn repeated_gets_deliver_exactly_once() {
    let mut store = SecretStore::new();
    let p = CreateSecretPayload { message: "once".to_string(), expires_in_secs: Some(60) };
    let id = create_secret_at(&p, &mut store, 1_000).unwrap();
    let results: Vec<_> = (0..8).map(|_| get_secret_at(&id, &mut store, 1_000)).collect();
    assert_eq!(results[0], Ok("once".to_string()));
    assert!(results[1..].iter().all(|r| *r == Err(SecretError::NotFound)));
}

#[test]
fn rejected_create_stores_nothing() {
    let mut store = SecretStore::new();
    let kept = create_secret_at(&CreateSecretPayload { message: "k".to_string(), expires_in_secs: None }, &mut store, 0).unwrap();
    let p = CreateSecretPayload { message: "x".repeat(501), expires_in_secs: Some(60) };
    assert_eq!(create_secret_at(&p, &mut store, 0), Err(SecretError::MessageTooLong));
    let p = CreateSecretPayload { message: "x".to_string(), expires_in_secs: Some(61) };
    assert_eq!(create_secret_at(&p, &mut store, 0), Err(SecretError::InvalidExpiration));
    assert_eq!(store.len(), 1);
    assert!(store.contains(&kept));
}

#[test]
fn create_stores_with_expiry_now_plus_ttl() {
    let mut store = SecretStore::new();
    let p = CreateSecretPayload { message: "é".repeat(500), expires_in_secs: Some(60) };
    let id = create_secret_at(&p, &mut store, 100).unwrap();
    assert_eq!(id.chars().count(), 10);
    assert_eq!(get_secret_at(&id, &mut store, 160), Ok("é".repeat(500)));
    let p = CreateSecretPayload { message: "d".to_string(), expires_in_secs: None };
    let id = create_secret_at(&p, &mut store, 100).unwrap();
    assert_eq!(get_secret_at(&id, &mut store, 701), Err(SecretError::NotFound));
    assert!(!store.contains(&id));
}

#[test]
fn create_and_get_with_the_real_clock() {
    let mut store = SecretStore::new();
    let p = CreateSecretPayload { message: "now".to_string(), expires_in_secs: Some(300) };
    let id = create_secret(&p, &mut store).unwrap();
    assert_eq!(get_secret(&id, &mut store), Ok("now".to_string()));
    assert_eq!(get_secret(&id, &mut store), Err(SecretError::NotFound));
}

#[test]
fn secret_expiring_at_the_last_instant_is_always_delivered() {
    let mut store = SecretStore::new();
    let id = "forever".to_string();
    assert!(store.insert_new(id.clone(), Secret { message: "m".to_string(), expires_at: u64::MAX }));
    assert_eq!(store.take(&id), Ok("m".to_string()));
}

#[test]
fn put_with_id_refuses_a_used_identifier() {
    let mut store = SecretStore::new();
    let id = "taken".to_string();
    assert_eq!(store.put_with_id(id.clone(), "a".to_string(), 60, 0), Ok(id.clone()));
    assert_eq!(store.put_with_id(id.clone(), "b".to_string(), 60, 0), Err(SecretError::IdCollision));
    assert_eq!(store.take_at(&id, 60), Ok("a".to_string()));
}
