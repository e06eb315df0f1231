use hermetic_fhe::crypto::parameter_set_is_valid;
use hermetic_fhe::crypto::CiphertextStore;
use hermetic_fhe::crypto::KeyStore;
use hermetic_fhe::error::FheError;
use hermetic_fhe::operator::Operator;
use hermetic_fhe::operator::OperatorClass;
use hermetic_fhe::service::FheServiceImpl;

fn setup_service() -> FheServiceImpl<u8, u8, bool, u8> {
    let key_store = KeyStore::new();
    let ciphertext_store = CiphertextStore::new();
    FheServiceImpl::new(key_store, ciphertext_store)
}

fn keygen() -> (u8, u8) {
    (1u8, 2u8)
}

fn encrypt_bool(value: bool, _key: &u8) -> bool {
    value
}

fn decrypt_bool(ciphertext: &bool, _key: &u8) -> bool {
    *ciphertext
}

fn encrypt_int(value: u8, _key: &u8) -> u8 {
    value
}

fn decrypt_int(ciphertext: &u8, _key: &u8) -> u8 {
    *ciphertext
}

fn bool_binary(op: Operator, _key: &u8, a: &bool, b: &bool) -> bool {
    match op {
        Operator::And => *a && *b,
        Operator::Or => *a || *b,
        Operator::Xor => *a ^ *b,
        _ => false,
    }
}

fn bool_unary(_key: &u8, a: &bool) -> bool {
    !*a
}

fn int_binary(op: Operator, a: &u8, b: &u8) -> u8 {
    match op {
        Operator::Add => a.wrapping_add(*b),
        Operator::Subtract => a.wrapping_sub(*b),
        Operator::Multiply => a.wrapping_mul(*b),
        _ => 0,
    }
}

#[test]
fn test_generate_keys_all_parameter_sets() {
    for code in 0..3 {
        let mut service = setup_service();
        let (client_key_id, server_key_id) = service.generate_keys(code, keygen).unwrap();
        assert!(!client_key_id.is_empty(), "Client key ID should not be empty");
        assert!(!server_key_id.is_empty(), "Server key ID should not be empty");
        assert_ne!(client_key_id, server_key_id, "The two key handles should be distinct");
    }
    let mut key_store = KeyStore::<u8, u8>::new();
    for name in ["DEFAULT", "FAST", "SECURE"] {
        let (client_key_id, server_key_id) = key_store.generate_keys(name, keygen).unwrap();
        assert_ne!(client_key_id, server_key_id);
        assert!(key_store.get_client_key(&client_key_id).is_some());
        assert!(key_store.get_server_key(&server_key_id).is_some());
    }
}

#[test]
fn test_parameter_set_names() {
    assert!(parameter_set_is_valid("DEFAULT"));
    assert!(parameter_set_is_valid("FAST"));
    assert!(parameter_set_is_valid("SECURE"));
    assert!(!parameter_set_is_valid(""));
    assert!(!parameter_set_is_valid("default"));
    assert!(!parameter_set_is_valid("INVALID_PARAMETER_SET"));
}

#[test]
fn test_invalid_parameter_set_stores_nothing() {
    let mut key_store = KeyStore::<u8, u8>::new();
    let result = key_store.generate_keys("INVALID_PARAMETER_SET", keygen);
    assert_eq!(result.unwrap_err(), FheError::InvalidParameterSet);

    // A valid generation afterwards behaves as on a fresh store, and the
    // failed one left nothing a later lookup could see.
    let (client_key_id, server_key_id) = key_store.generate_keys("DEFAULT", keygen).unwrap();
    assert!(key_store.get_client_key(&client_key_id).is_some());
    assert!(key_store.get_server_key(&server_key_id).is_some());
    assert!(key_store.get_client_key("INVALID_PARAMETER_SET").is_none());
}

#[test]
fn test_round_trip_all_booleans() {
    let mut service = setup_service();
    let (client_key_id, _) = service.generate_keys(0, keygen).unwrap();
    for value in [false, true] {
        let id = service.encrypt_boolean(&client_key_id, value, encrypt_bool).unwrap();
        let decrypted = service.decrypt_boolean(&client_key_id, &id, decrypt_bool).unwrap();
        assert_eq!(decrypted, value, "Decrypted value should match the original");
    }
}

#[test]
fn test_round_trip_all_integers() {
    let mut service = setup_service();
    let (client_key_id, _) = service.generate_keys(0, keygen).unwrap();
    for value in 0..=255i64 {
        let id = service.encrypt_integer(&client_key_id, value, 8, encrypt_int).unwrap();
        let decrypted = service.decrypt_integer(&client_key_id, &id, decrypt_int).unwrap();
        assert_eq!(decrypted, value, "Decrypted integer should match the original");
    }
}

#[test]
fn test_integer_range_bounds() {
    let mut service = setup_service();
    let (client_key_id, _) = service.generate_keys(0, keygen).unwrap();

    assert!(service.encrypt_integer(&client_key_id, 0, 8, encrypt_int).is_ok());
    assert!(service.encrypt_integer(&client_key_id, 255, 8, encrypt_int).is_ok());
    assert_eq!(
        service.encrypt_integer(&client_key_id, 256, 8, encrypt_int).unwrap_err(),
        FheError::ValueOutOfRange
    );
    assert_eq!(
        service.encrypt_integer(&client_key_id, -1, 8, encrypt_int).unwrap_err(),
        FheError::ValueOutOfRange
    );

    // The requested width is accepted and ignored: the ciphertext width is
    // fixed at 8 bits whatever the request says.
    assert!(service.encrypt_integer(&client_key_id, 200, 4, encrypt_int).is_ok());
    assert_eq!(
        service.encrypt_integer(&client_key_id, 256, 16, encrypt_int).unwrap_err(),
        FheError::ValueOutOfRange
    );
}

#[test]
fn test_comparison_operators_unimplemented() {
    let mut service = setup_service();
    let (client_key_id, server_key_id) = service.generate_keys(0, keygen).unwrap();

    let a_id = service.encrypt_integer(&client_key_id, 5, 8, encrypt_int).unwrap();
    let b_id = service.encrypt_integer(&client_key_id, 3, 8, encrypt_int).unwrap();

    for op in [Operator::GreaterThan, Operator::LessThan, Operator::Equal] {
        // With resolvable operands.
        let operand_ids = vec![a_id.clone(), b_id.clone()];
        let response = service.evaluate_operation(
            &server_key_id,
            op,
            &operand_ids,
            bool_binary,
            bool_unary,
            int_binary,
        );
        assert_eq!(response.unwrap_err(), FheError::Unimplemented);

        // And regardless of operand validity: unresolvable handles and a
        // wrong count fail the same way.
        let operand_ids = vec!["no-such-handle".to_string()];
        let response = service.evaluate_operation(
            &server_key_id,
            op,
            &operand_ids,
            bool_binary,
            bool_unary,
            int_binary,
        );
        assert_eq!(response.unwrap_err(), FheError::Unimplemented);
    }
}

#[test]
fn test_operator_arity_enforcement() {
    let mut service = setup_service();
    let (client_key_id, server_key_id) = service.generate_keys(0, keygen).unwrap();

    let t_id = service.encrypt_boolean(&client_key_id, true, encrypt_bool).unwrap();
    let f_id = service.encrypt_boolean(&client_key_id, false, encrypt_bool).unwrap();
    let n_id = service.encrypt_integer(&client_key_id, 7, 8, encrypt_int).unwrap();

    // Binary boolean operators with one operand.
    for op in [Operator::And, Operator::Or, Operator::Xor] {
        let operand_ids = vec![t_id.clone()];
        let response = service.evaluate_operation(
            &server_key_id,
            op,
            &operand_ids,
            bool_binary,
            bool_unary,
            int_binary,
        );
        assert_eq!(response.unwrap_err(), FheError::BinaryOperandCount);
    }

    // Not with two operands.
    let operand_ids = vec![t_id.clone(), f_id.clone()];
    let response = service.evaluate_operation(
        &server_key_id,
        Operator::Not,
        &operand_ids,
        bool_binary,
        bool_unary,
        int_binary,
    );
    assert_eq!(response.unwrap_err(), FheError::UnaryOperandCount);

    // Binary integer operator with three operands.
    let operand_ids = vec![n_id.clone(), n_id.clone(), n_id.clone()];
    let response = service.evaluate_operation(
        &server_key_id,
        Operator::Add,
        &operand_ids,
        bool_binary,
        bool_unary,
        int_binary,
    );
    assert_eq!(response.unwrap_err(), FheError::BinaryOperandCount);

    // An empty operand list is rejected before anything else about the
    // operator is considered.
    let operand_ids: Vec<String> = vec![];
    for op in [Operator::And, Operator::Not, Operator::Add, Operator::Equal] {
        let response = service.evaluate_operation(
            &server_key_id,
            op,
            &operand_ids,
            bool_binary,
            bool_unary,
            int_binary,
        );
        let status = response.unwrap_err();
        assert_eq!(status, FheError::NoOperands);
        assert!(status.message().contains("No operands provided"));
    }
}

#[test]
fn test_missing_operand_positions() {
    let mut service = setup_service();
    let (client_key_id, server_key_id) = service.generate_keys(0, keygen).unwrap();

    let t_id = service.encrypt_boolean(&client_key_id, true, encrypt_bool).unwrap();

    let operand_ids = vec!["missing".to_string(), t_id.clone()];
    let response = service.evaluate_operation(
        &server_key_id,
        Operator::And,
        &operand_ids,
        bool_binary,
        bool_unary,
        int_binary,
    );
    let status = response.unwrap_err();
    assert_eq!(status, FheError::FirstOperandNotFound);
    assert!(status.message().contains("First operand not found"));

    let operand_ids = vec![t_id.clone(), "missing".to_string()];
    let response = service.evaluate_operation(
        &server_key_id,
        Operator::And,
        &operand_ids,
        bool_binary,
        bool_unary,
        int_binary,
    );
    let status = response.unwrap_err();
    assert_eq!(status, FheError::SecondOperandNotFound);
    assert!(status.message().contains("Second operand not found"));

    let operand_ids = vec!["missing".to_string()];
    let response = service.evaluate_operation(
        &server_key_id,
        Operator::Not,
        &operand_ids,
        bool_binary,
        bool_unary,
        int_binary,
    );
    let status = response.unwrap_err();
    assert_eq!(status, FheError::OperandNotFound);
    assert!(status.message().contains("Operand not found"));
}

#[test]
fn test_operand_kind_is_never_coerced() {
    let mut service = setup_service();
    let (client_key_id, server_key_id) = service.generate_keys(0, keygen).unwrap();

    // A boolean operator does not see integer ciphertexts, and the other
    // way round: the handle simply does not resolve in that partition.
    let n_id = service.encrypt_integer(&client_key_id, 7, 8, encrypt_int).unwrap();
    let t_id = service.encrypt_boolean(&client_key_id, true, encrypt_bool).unwrap();

    let operand_ids = vec![n_id.clone(), n_id.clone()];
    let response = service.evaluate_operation(
        &server_key_id,
        Operator::And,
        &operand_ids,
        bool_binary,
        bool_unary,
        int_binary,
    );
    assert_eq!(response.unwrap_err(), FheError::FirstOperandNotFound);

    let operand_ids = vec![t_id.clone(), t_id.clone()];
    let response = service.evaluate_operation(
        &server_key_id,
        Operator::Add,
        &operand_ids,
        bool_binary,
        bool_unary,
        int_binary,
    );
    assert_eq!(response.unwrap_err(), FheError::FirstOperandNotFound);

    // Decryption is partitioned the same way.
    assert_eq!(
        service.decrypt_boolean(&client_key_id, &n_id, decrypt_bool).unwrap_err(),
        FheError::EncryptedDataNotFound
    );
    assert_eq!(
        service.decrypt_integer(&client_key_id, &t_id, decrypt_int).unwrap_err(),
        FheError::EncryptedDataNotFound
    );
}

#[test]
fn test_subtract_preserves_operand_order() {
    let mut service = setup_service();
    let (client_key_id, server_key_id) = service.generate_keys(0, keygen).unwrap();

    let a_id = service.encrypt_integer(&client_key_id, 30, 8, encrypt_int).unwrap();
    let b_id = service.encrypt_integer(&client_key_id, 12, 8, encrypt_int).unwrap();

    let operand_ids = vec![a_id, b_id];
    let result_id = service
        .evaluate_operation(
            &server_key_id,
            Operator::Subtract,
            &operand_ids,
            bool_binary,
            bool_unary,
            int_binary,
        )
        .unwrap();

    let result = service.decrypt_integer(&client_key_id, &result_id, decrypt_int).unwrap();
    assert_eq!(result, 18, "30 - 12 should be 18, never 12 - 30");
}

#[test]
fn test_end_to_end_default_scenario() {
    let mut service = setup_service();
    let (client_key_id, server_key_id) = service.generate_keys(0, keygen).unwrap();

    let a_id = service.encrypt_integer(&client_key_id, 15, 8, encrypt_int).unwrap();
    let b_id = service.encrypt_integer(&client_key_id, 7, 8, encrypt_int).unwrap();

    let cases = [
        (Operator::Multiply, 105),
        (Operator::Subtract, 8),
        (Operator::Add, 22),
    ];
    for (op, expected) in cases {
        let operand_ids = vec![a_id.clone(), b_id.clone()];
        let result_id = service
            .evaluate_operation(
                &server_key_id,
                op,
                &operand_ids,
                bool_binary,
                bool_unary,
                int_binary,
            )
            .unwrap();
        let result = service.decrypt_integer(&client_key_id, &result_id, decrypt_int).unwrap();
        assert_eq!(result, expected);
    }
}

#[test]
fn test_concurrent_style_encrypts_get_distinct_handles() {
    // The sequential analogue of many independent encrypt calls against one
    // client key: every call returns a handle distinct from every other,
    // and each handle still decrypts to its own value afterwards.
    let mut service = setup_service();
    let (client_key_id, _) = service.generate_keys(0, keygen).unwrap();

    let values: Vec<i64> = (0..16).map(|i| i * 16 + 3).collect();
    let mut handles: Vec<String> = Vec::new();
    for &v in &values {
        handles.push(service.encrypt_integer(&client_key_id, v, 8, encrypt_int).unwrap());
    }
    for i in 0..handles.len() {
        for j in 0..i {
            assert_ne!(handles[i], handles[j], "Every encrypt call returns a fresh handle");
        }
    }
    for (h, &v) in handles.iter().zip(values.iter()) {
        let decrypted = service.decrypt_integer(&client_key_id, h, decrypt_int).unwrap();
        assert_eq!(decrypted, v);
    }
}

#[test]
fn test_evaluation_does_not_disturb_operands() {
    // Evaluation writes a new ciphertext and never mutates its operands:
    // the operands decrypt to their original values afterwards.
    let mut service = setup_service();
    let (client_key_id, server_key_id) = service.generate_keys(0, keygen).unwrap();

    let a_id = service.encrypt_integer(&client_key_id, 9, 8, encrypt_int).unwrap();
    let b_id = service.encrypt_integer(&client_key_id, 4, 8, encrypt_int).unwrap();

    let operand_ids = vec![a_id.clone(), b_id.clone()];
    let result_id = service
        .evaluate_operation(
            &server_key_id,
            Operator::Add,
            &operand_ids,
            bool_binary,
            bool_unary,
            int_binary,
        )
        .unwrap();

    assert_ne!(result_id, a_id);
    assert_ne!(result_id, b_id);
    assert_eq!(service.decrypt_integer(&client_key_id, &a_id, decrypt_int).unwrap(), 9);
    assert_eq!(service.decrypt_integer(&client_key_id, &b_id, decrypt_int).unwrap(), 4);
    assert_eq!(service.decrypt_integer(&client_key_id, &result_id, decrypt_int).unwrap(), 13);
}

#[test]
fn test_error_messages() {
    let cases = [
        (FheError::InvalidParameterSet, "Invalid parameter set"),
        (FheError::ClientKeyNotFound, "Client key not found"),
        (FheError::ServerKeyNotFound, "Server key not found"),
        (FheError::EncryptedDataNotFound, "Encrypted data not found"),
        (FheError::FirstOperandNotFound, "First operand not found"),
        (FheError::SecondOperandNotFound, "Second operand not found"),
        (FheError::OperandNotFound, "Operand not found"),
        (FheError::NoOperands, "No operands provided"),
        (FheError::BinaryOperandCount, "Binary operation requires 2 operands"),
        (FheError::UnaryOperandCount, "Unary operation requires 1 operand"),
        (FheError::ValueOutOfRange, "Value out of range for uint8"),
        (
            FheError::Unimplemented,
            "Comparison operations not implemented in this demo",
        ),
    ];
    for (error, message) in cases {
        assert_eq!(error.message(), message);
    }
}

#[test]
fn test_operator_classification() {
    let cases = [
        (Operator::And, OperatorClass::BooleanBinary),
        (Operator::Or, OperatorClass::BooleanBinary),
        (Operator::Xor, OperatorClass::BooleanBinary),
        (Operator::Not, OperatorClass::BooleanUnary),
        (Operator::Add, OperatorClass::IntegerBinary),
        (Operator::Subtract, OperatorClass::IntegerBinary),
        (Operator::Multiply, OperatorClass::IntegerBinary),
        (Operator::GreaterThan, OperatorClass::Unsupported),
        (Operator::LessThan, OperatorClass::Unsupported),
        (Operator::Equal, OperatorClass::Unsupported),
    ];
    for (op, class) in cases {
        assert_eq!(op.classify(), class);
    }
}
