use georuggine::auth::{hash_password, verify_password};

#[test]
fn password_corretta_viene_verificata() {
    let hash = hash_password("supersegreta").unwrap();
    assert!(verify_password(&hash, "supersegreta"));
}

#[test]
fn password_sbagliata_viene_rifiutata() {
    let hash = hash_password("supersegreta").unwrap();
    assert!(!verify_password(&hash, "altra-password"));
}

#[test]
fn hash_non_valido_non_va_in_panico() {
    assert!(!verify_password("non-un-hash", "qualsiasi"));
}

#[test]
fn stessa_password_produce_hash_diversi() {
    let hash1 = hash_password("supersegreta").unwrap();
    let hash2 = hash_password("supersegreta").unwrap();
    assert_ne!(hash1, hash2);
    assert!(verify_password(&hash1, "supersegreta"));
    assert!(verify_password(&hash2, "supersegreta"));
}

#[test]
fn hash_is_a_phc_string_for_argon2() {
    let hash = hash_password("supersegreta").unwrap();
    assert!(hash.starts_with("$argon2id$"));
    assert_ne!(hash, "supersegreta");
}

#[test]
fn empty_hash_matches_nothing() {
    assert!(!verify_password("", ""));
}
