use hermetic_fhe::crypto::CiphertextStore;
use hermetic_fhe::crypto::KeyStore;

fn keygen() -> (u8, u8) {
    (1u8, 2u8)
}

#[test]
fn crypto_test_test_key_generation() {
    let mut key_store = KeyStore::<u8, u8>::new();

    let result = key_store.generate_keys("DEFAULT", keygen);
    assert!(result.is_ok(), "Key generation should succeed with valid parameter set");

    let (client_key_id, server_key_id) = result.unwrap();
    assert!(!client_key_id.is_empty(), "Client key ID should not be empty");
    assert!(!server_key_id.is_empty(), "Server key ID should not be empty");

    let client_key = key_store.get_client_key(&client_key_id);
    assert!(client_key.is_some(), "Client key should be retrievable");

    let server_key = key_store.get_server_key(&server_key_id);
    assert!(server_key.is_some(), "Server key should be retrievable");
}

#[test]
fn crypto_test_test_invalid_parameter_set() {
    let mut key_store = KeyStore::<u8, u8>::new();

    let result = key_store.generate_keys("INVALID_PARAMETER_SET", keygen);
    assert!(result.is_err(), "Key generation should fail with invalid parameter set");
}

#[test]
fn test_ciphertext_store() {
    let mut key_store = KeyStore::<u8, u8>::new();
    let mut ciphertext_store = CiphertextStore::<bool, u8>::new();

    let (client_key_id, _) = key_store.generate_keys("DEFAULT", keygen).unwrap();
    let client_key = *key_store.get_client_key(&client_key_id).unwrap();

    // With the stand-in engine a boolean ciphertext is the plaintext itself.
    let true_value = true;
    let id = ciphertext_store.store_boolean(true_value);

    let retrieved = ciphertext_store.get_boolean(&id);
    assert!(retrieved.is_some(), "Stored ciphertext should be retrievable");

    let decrypt = |c: &bool, _k: &u8| *c;
    let decrypted_value = decrypt(retrieved.unwrap(), &client_key);
    assert_eq!(decrypted_value, true, "Decrypted value should match the original");

    let not_found = ciphertext_store.get_boolean("nonexistent-id");
    assert!(not_found.is_none(), "Nonexistent ciphertext ID should return None");
}
