use rusqlite::Connection;
use vaulter::crypto::Crypto;
use vaulter::secret::{Secret, SecretError};
use vaulter::storage::{secret_from_row, Store, StoredRow};

fn crypto_of(passphrase: &str) -> Crypto {
    match Crypto::new(passphrase) {
        Ok(crypto) => crypto,
        Err(e) => panic!("no key: {:?}", e),
    }
}

fn store_at(path: &str, passphrase: &str) -> Store {
    match Store::new(path) {
        Ok(store) => store.with_crypto(crypto_of(passphrase)),
        Err(e) => panic!("no store: {:?}", e),
    }
}

fn memory_store() -> Store {
    store_at(":memory:", "correct horse battery staple")
}

fn secret_of(key: &str, val: &str) -> Secret {
    match Secret::new(key.to_string(), val.to_string()) {
        Ok(secret) => secret,
        Err(e) => panic!("refused: {:?}", e),
    }
}

fn found(r: Result<Secret, SecretError>) -> Secret {
    match r {
        Ok(secret) => secret,
        Err(e) => panic!("not found: {:?}", e),
    }
}

fn failure(r: Result<Secret, SecretError>) -> SecretError {
    match r {
        Ok(_) => panic!("found"),
        Err(e) => e,
    }
}

#[test]
fn saved_secret_is_read_back() {
    let store = memory_store();
    store.save(&secret_of("api-token", "sk-abcd1234")).unwrap();
    let secret = found(store.get("api-token"));
    assert_eq!(secret.key(), "api-token");
    assert_eq!(secret.val(), "sk-abcd1234");
}

#[test]
fn stored_value_is_not_the_plaintext() {
    let path = "file:vaulter_raw_row?mode=memory&cache=shared";
    let raw = Connection::open(path).unwrap();
    let store = store_at(path, "correct horse battery staple");
    store.save(&secret_of("api-token", "sk-abcd1234")).unwrap();
    let val: String = raw
        .query_row("SELECT val FROM secrets WHERE key = 'api-token'", [], |row| row.get(0))
        .unwrap();
    assert_ne!(val, "sk-abcd1234");
    assert!(!"sk-abcd1234".contains(val.as_str()));
    assert!(!val.contains("sk-abcd1234"));
    assert_eq!(crypto_of("correct horse battery staple").decrypt(&val).unwrap(), "sk-abcd1234");
    let count: i64 = raw
        .query_row("SELECT COUNT(*) FROM secrets", [], |row| row.get(0))
        .unwrap();
    assert_eq!(count, 1);
}

#[test]
fn second_save_replaces_the_first() {
    let store = memory_store();
    store.save(&secret_of("api-token", "first value")).unwrap();
    store.save(&secret_of("api-token", "second value")).unwrap();
    assert_eq!(found(store.get("api-token")).val(), "second value");
    assert_eq!(store.list_keys().unwrap(), vec!["api-token".to_string()]);
}

#[test]
fn delete_of_a_missing_key_succeeds() {
    let store = memory_store();
    store.delete("never-saved").unwrap();
    store.save(&secret_of("api-token", "sk-abcd1234")).unwrap();
    store.delete("never-saved").unwrap();
    assert_eq!(store.list_keys().unwrap(), vec!["api-token".to_string()]);
}

#[test]
fn delete_removes_the_row() {
    let store = memory_store();
    store.save(&secret_of("api-token", "sk-abcd1234")).unwrap();
    store.save(&secret_of("other", "value")).unwrap();
    store.delete("api-token").unwrap();
    assert_eq!(store.list_keys().unwrap(), vec!["other".to_string()]);
    match failure(store.get("api-token")) {
        SecretError::StoreErr(m) => assert_eq!(m, "No secret found for key: api-token"),
        other => panic!("wrong error: {:?}", other),
    }
    store.delete("api-token").unwrap();
}

#[test]
fn empty_store_lists_no_keys() {
    let store = memory_store();
    assert!(store.list_keys().unwrap().is_empty());
}

#[test]
fn two_saves_list_two_keys() {
    let store = memory_store();
    store.save(&secret_of("alpha", "first value")).unwrap();
    store.save(&secret_of("beta", "second value")).unwrap();
    let mut keys = store.list_keys().unwrap();
    keys.sort();
    assert_eq!(keys, vec!["alpha".to_string(), "beta".to_string()]);
}

#[test]
fn list_keys_needs_no_key_bound() {
    let store = Store::new(":memory:").unwrap_or_else(|e| panic!("no store: {:?}", e));
    assert!(store.list_keys().unwrap().is_empty());
    store.delete("anything").unwrap();
}

#[test]
fn get_of_a_missing_key_is_a_store_error() {
    let store = memory_store();
    match failure(store.get("nokey")) {
        SecretError::StoreErr(m) => assert_eq!(m, "No secret found for key: nokey"),
        other => panic!("wrong error: {:?}", other),
    }
}

#[test]
fn keys_match_exactly() {
    let store = memory_store();
    store.save(&secret_of("Token", "sk-abcd1234")).unwrap();
    assert!(matches!(failure(store.get("token")), SecretError::StoreErr(_)));
    assert!(matches!(failure(store.get("Token ")), SecretError::StoreErr(_)));
    assert_eq!(found(store.get("Token")).val(), "sk-abcd1234");
}

#[test]
fn store_without_key_refuses_save_and_get() {
    let store = Store::new(":memory:").unwrap_or_else(|e| panic!("no store: {:?}", e));
    match store.save(&secret_of("api-token", "sk-abcd1234")) {
        Err(SecretError::CryptoErr(m)) => assert_eq!(m, "Crypto not initialized"),
        other => panic!("wrong outcome: {:?}", other),
    }
    match failure(store.get("api-token")) {
        SecretError::CryptoErr(m) => assert_eq!(m, "Crypto not initialized"),
        other => panic!("wrong error: {:?}", other),
    }
    match store.sealed_row(&secret_of("api-token", "sk-abcd1234")) {
        Err(SecretError::CryptoErr(m)) => assert_eq!(m, "Crypto not initialized"),
        Err(other) => panic!("wrong error: {:?}", other),
        Ok(_) => panic!("sealed without a key"),
    }
    assert!(store.list_keys().unwrap().is_empty());
}

#[test]
fn another_passphrase_does_not_read_back() {
    let path = "file:vaulter_two_keys?mode=memory&cache=shared";
    let writer = store_at(path, "first passphrase");
    let reader = store_at(path, "second passphrase");
    writer.save(&secret_of("api-token", "sk-abcd1234")).unwrap();
    assert_eq!(reader.list_keys().unwrap(), vec!["api-token".to_string()]);
    match failure(reader.get("api-token")) {
        SecretError::CryptoErr(m) => assert_eq!(m, "Decryption failed: aead::Error"),
        other => panic!("wrong error: {:?}", other),
    }
    assert_eq!(found(writer.get("api-token")).val(), "sk-abcd1234");
}

#[test]
fn changed_row_is_a_crypto_error() {
    let path = "file:vaulter_changed_row?mode=memory&cache=shared";
    let raw = Connection::open(path).unwrap();
    let store = store_at(path, "correct horse battery staple");
    store.save(&secret_of("api-token", "sk-abcd1234")).unwrap();
    raw.execute("UPDATE secrets SET val = 'AAAA' WHERE key = 'api-token'", [])
        .unwrap();
    match failure(store.get("api-token")) {
        SecretError::CryptoErr(m) => assert_eq!(m, "Invalid encrypted data"),
        other => panic!("wrong error: {:?}", other),
    }
}

#[test]
fn open_keeps_an_existing_table() {
    let path = "file:vaulter_reopen?mode=memory&cache=shared";
    let first = store_at(path, "correct horse battery staple");
    first.save(&secret_of("api-token", "sk-abcd1234")).unwrap();
    let second = store_at(path, "correct horse battery staple");
    assert_eq!(found(second.get("api-token")).val(), "sk-abcd1234");
}

#[test]
fn open_fails_where_no_file_can_be() {
    match Store::new("/nonexistent-directory/of/vaulter/secrets.db") {
        Err(SecretError::StoreErr(m)) => assert!(m.starts_with("Failed to open database: ")),
        Err(other) => panic!("wrong error: {:?}", other),
        Ok(_) => panic!("opened"),
    }
}

#[test]
fn open_refuses_a_path_with_a_nul_character() {
    for path in ["\0", "secrets\0.db", ":memory:\0"] {
        match Store::new(path) {
            Err(SecretError::StoreErr(m)) => assert!(m.starts_with("Failed to open database: ")),
            Err(other) => panic!("wrong error: {:?}", other),
            Ok(_) => panic!("opened"),
        }
    }
}

#[test]
fn stores_opened_apart_in_memory_share_nothing() {
    let first = memory_store();
    let second = memory_store();
    first.save(&secret_of("api-token", "sk-abcd1234")).unwrap();
    assert!(second.list_keys().unwrap().is_empty());
    assert_eq!(first.list_keys().unwrap(), vec!["api-token".to_string()]);
}

#[test]
fn sealed_row_has_the_key_and_opens_to_the_value() {
    let store = memory_store();
    let crypto = crypto_of("correct horse battery staple");
    let secret = secret_of("api-token", "sk-abcd1234");
    let row = store.sealed_row(&secret).unwrap();
    assert_eq!(row.key, "api-token");
    assert_ne!(row.val, "sk-abcd1234");
    assert_eq!(crypto.decrypt(&row.val).unwrap(), "sk-abcd1234");
    let back = found(secret_from_row(&crypto, "api-token", Some(row)));
    assert_eq!(back.key(), "api-token");
    assert_eq!(back.val(), "sk-abcd1234");
    assert!(store.list_keys().unwrap().is_empty());
}

#[test]
fn secret_from_row_reports_a_missing_row() {
    let crypto = crypto_of("pw");
    match failure(secret_from_row(&crypto, "api-token", None)) {
        SecretError::StoreErr(m) => assert_eq!(m, "No secret found for key: api-token"),
        other => panic!("wrong error: {:?}", other),
    }
}

#[test]
fn secret_from_row_takes_the_key_of_the_row() {
    let crypto = crypto_of("pw");
    let row = StoredRow { key: "stored".to_string(), val: crypto.encrypt("sk-abcd1234").unwrap() };
    let secret = found(secret_from_row(&crypto, "asked", Some(row)));
    assert_eq!(secret.key(), "stored");
    assert_eq!(secret.val(), "sk-abcd1234");
}

#[test]
fn secret_from_row_validates_what_it_opens() {
    let crypto = crypto_of("pw");
    let long_val = "v".repeat(129);
    for val in ["", "v", long_val.as_str()] {
        let row = StoredRow { key: "api-token".to_string(), val: crypto.encrypt(val).unwrap() };
        match failure(secret_from_row(&crypto, "api-token", Some(row))) {
            SecretError::StoreErr(m) => assert_eq!(
                m,
                "Invalid stored value: value must be between 2 and 128 characters"
            ),
            other => panic!("wrong error: {:?}", other),
        }
    }
    for val in ["vv", "v".repeat(128).as_str()] {
        let row = StoredRow { key: "api-token".to_string(), val: crypto.encrypt(val).unwrap() };
        assert_eq!(found(secret_from_row(&crypto, "api-token", Some(row))).val(), val);
    }
    let bad_key = StoredRow { key: "k".to_string(), val: crypto.encrypt("sk-abcd1234").unwrap() };
    match failure(secret_from_row(&crypto, "k", Some(bad_key))) {
        SecretError::InvalidKey(m) => assert_eq!(m, "key must be between 2 and 128 characters"),
        other => panic!("wrong error: {:?}", other),
    }
}

#[test]
fn get_reports_a_stored_value_of_a_wrong_length_as_a_store_error() {
    let path = "file:vaulter_wrong_length?mode=memory&cache=shared";
    let raw = Connection::open(path).unwrap();
    let store = store_at(path, "correct horse battery staple");
    let crypto = crypto_of("correct horse battery staple");
    let long_val = "v".repeat(129);
    for val in ["v", long_val.as_str()] {
        let sealed = crypto.encrypt(val).unwrap();
        raw.execute(
            "INSERT OR REPLACE INTO secrets (key, val) VALUES (?1, ?2)",
            ["api-token", sealed.as_str()],
        )
        .unwrap();
        match failure(store.get("api-token")) {
            SecretError::StoreErr(m) => assert_eq!(
                m,
                "Invalid stored value: value must be between 2 and 128 characters"
            ),
            other => panic!("wrong error: {:?}", other),
        }
    }
}

#[test]
fn secret_from_row_reports_what_does_not_open() {
    let crypto = crypto_of("pw");
    let cases = [
        ("not base64!!", "Base64 decode failed: "),
        ("AAAA", "Invalid encrypted data"),
        ("AAECAwQFBgcICQoLDA0ODw==", "Decryption failed: aead::Error"),
    ];
    for (val, expected) in cases {
        let row = StoredRow { key: "api-token".to_string(), val: val.to_string() };
        match failure(secret_from_row(&crypto, "api-token", Some(row))) {
            SecretError::CryptoErr(m) => assert!(m.starts_with(expected)),
            other => panic!("wrong error: {:?}", other),
        }
    }
}
