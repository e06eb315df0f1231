//! The session facade and operation dispatcher.
//!
//! [`FheServiceImpl`] composes the key store and the ciphertext store into
//! the four public capabilities: generate keys, encrypt, decrypt, evaluate.
//! The encryption scheme itself is an external collaborator: each capability
//! takes a callable for the engine work it needs, and the contracts here
//! relate the stores before and after the call to what that callable
//! returned, with the operands handed over in their given order.
//!
//! Every validation failure is detected before the engine callable runs, so
//! a failed request never changes the stores.

use vstd::prelude::*;

use crate::crypto::CiphertextStore;
use crate::crypto::KeyStore;
use crate::error::FheError;
use crate::operator::class_of;
use crate::operator::Operator;
use crate::operator::OperatorClass;

verus! {

/// The service state: key material and ciphertexts, both keyed by opaque
/// handles, generic over the engine's key and ciphertext value types.
pub struct FheServiceImpl<CK, SK, B, I> {
    key_store: KeyStore<CK, SK>,
    ciphertext_store: CiphertextStore<B, I>,
}

impl<CK, SK, B, I> FheServiceImpl<CK, SK, B, I> {
    /// The client-key partition of the key store.
    pub closed spec fn client_keys(&self) -> Map<Seq<char>, CK> {
        self.key_store.clients()
    }

    /// The server-key partition of the key store.
    pub closed spec fn server_keys(&self) -> Map<Seq<char>, SK> {
        self.key_store.servers()
    }

    /// The boolean partition of the ciphertext store.
    pub closed spec fn boolean_ciphertexts(&self) -> Map<Seq<char>, B> {
        self.ciphertext_store.booleans()
    }

    /// The integer partition of the ciphertext store.
    pub closed spec fn integer_ciphertexts(&self) -> Map<Seq<char>, I> {
        self.ciphertext_store.integers()
    }

    /// The error an evaluation request is rejected with, if any: the server
    /// key must resolve, the operand list must fit the operator's class, and
    /// every operand must resolve in the partition of the operator's kind.
    pub open spec fn evaluation_error(
        &self,
        server_key_id: Seq<char>,
        operation: Operator,
        operand_ids: Seq<String>,
    ) -> Option<FheError> {
        if !self.server_keys().contains_key(server_key_id) {
            Some(FheError::ServerKeyNotFound)
        } else if operand_ids.len() == 0 {
            Some(FheError::NoOperands)
        } else {
            match class_of(operation) {
                OperatorClass::BooleanBinary => if operand_ids.len() != 2 {
                    Some(FheError::BinaryOperandCount)
                } else if !self.boolean_ciphertexts().contains_key(operand_ids[0]@) {
                    Some(FheError::FirstOperandNotFound)
                } else if !self.boolean_ciphertexts().contains_key(operand_ids[1]@) {
                    Some(FheError::SecondOperandNotFound)
                } else {
                    None
                },
                OperatorClass::BooleanUnary => if operand_ids.len() != 1 {
                    Some(FheError::UnaryOperandCount)
                } else if !self.boolean_ciphertexts().contains_key(operand_ids[0]@) {
                    Some(FheError::OperandNotFound)
                } else {
                    None
                },
                OperatorClass::IntegerBinary => if operand_ids.len() != 2 {
                    Some(FheError::BinaryOperandCount)
                } else if !self.integer_ciphertexts().contains_key(operand_ids[0]@) {
                    Some(FheError::FirstOperandNotFound)
                } else if !self.integer_ciphertexts().contains_key(operand_ids[1]@) {
                    Some(FheError::SecondOperandNotFound)
                } else {
                    None
                },
                OperatorClass::Unsupported => Some(FheError::Unimplemented),
            }
        }
    }

    /// A service over the given stores.
    pub fn new(
        key_store: KeyStore<CK, SK>,
        ciphertext_store: CiphertextStore<B, I>,
    ) -> (r: Self)
        ensures
            r.client_keys() == key_store.clients(),
            r.server_keys() == key_store.servers(),
            r.boolean_ciphertexts() == ciphertext_store.booleans(),
            r.integer_ciphertexts() == ciphertext_store.integers(),
    {
        FheServiceImpl { key_store, ciphertext_store }
    }

    /// Map the wire code of a parameter set to its name, derive one key pair
    /// through `keygen`, and store the pair under two fresh, distinct
    /// handles.
    ///
    /// Fails exactly on an unrecognized code, and then changes nothing.
    pub fn generate_keys<F: FnOnce() -> (CK, SK)>(
        &mut self,
        parameter_set: i32,
        keygen: F,
    ) -> (r: Result<(String, String), FheError>)
        requires
            call_requires(keygen, ()),
        ensures
            final(self).boolean_ciphertexts() == old(self).boolean_ciphertexts(),
            final(self).integer_ciphertexts() == old(self).integer_ciphertexts(),
            r is Err <==> !(0 <= parameter_set <= 2),
            r matches Err(e) ==> {
                &&& e == FheError::InvalidParameterSet
                &&& final(self).client_keys() == old(self).client_keys()
                &&& final(self).server_keys() == old(self).server_keys()
            },
            r matches Ok(ids) ==> {
                &&& ids.0@.len() >= 36
                &&& ids.1@.len() >= 36
                &&& ids.0@ != ids.1@
                &&& !old(self).client_keys().contains_key(ids.0@)
                &&& !old(self).server_keys().contains_key(ids.0@)
                &&& !old(self).client_keys().contains_key(ids.1@)
                &&& !old(self).server_keys().contains_key(ids.1@)
                &&& final(self).client_keys().contains_key(ids.0@)
                &&& final(self).server_keys().contains_key(ids.1@)
                &&& exists|p: (CK, SK)|
                    {
                        &&& #[trigger] call_ensures(keygen, (), p)
                        &&& final(self).client_keys() == old(self).client_keys().insert(
                            ids.0@,
                            p.0,
                        )
                        &&& final(self).server_keys() == old(self).server_keys().insert(
                            ids.1@,
                            p.1,
                        )
                    }
            },
    {
        let name = match parameter_set {
            0 => "DEFAULT",
            1 => "FAST",
            2 => "SECURE",
            _ => {
                return Err(FheError::InvalidParameterSet);
            },
        };
        self.key_store.generate_keys(name, keygen)
    }

    /// Encrypt a boolean under the named client key through `encrypt` and
    /// store the result under a fresh handle.
    ///
    /// Fails exactly when the client key does not resolve, and then changes
    /// nothing.
    pub fn encrypt_boolean<F: FnOnce(bool, &CK) -> B>(
        &mut self,
        client_key_id: &str,
        value: bool,
        encrypt: F,
    ) -> (r: Result<String, FheError>)
        requires
            forall|v: bool, k: CK| #[trigger] call_requires(encrypt, (v, &k)),
        ensures
            final(self).client_keys() == old(self).client_keys(),
            final(self).server_keys() == old(self).server_keys(),
            r is Err <==> !old(self).client_keys().contains_key(client_key_id@),
            r matches Err(e) ==> {
                &&& e == FheError::ClientKeyNotFound
                &&& final(self).boolean_ciphertexts() == old(self).boolean_ciphertexts()
                &&& final(self).integer_ciphertexts() == old(self).integer_ciphertexts()
            },
            r matches Ok(id) ==> {
                &&& id@.len() >= 36
                &&& !old(self).boolean_ciphertexts().contains_key(id@)
                &&& !old(self).integer_ciphertexts().contains_key(id@)
                &&& final(self).integer_ciphertexts() == old(self).integer_ciphertexts()
                &&& exists|k: CK, c: B|
                    {
                        &&& k == old(self).client_keys()[client_key_id@]
                        &&& #[trigger] call_ensures(encrypt, (value, &k), c)
                        &&& final(self).boolean_ciphertexts() == old(
                            self,
                        ).boolean_ciphertexts().insert(id@, c)
                    }
            },
    {
        let client_key = match self.key_store.get_client_key(client_key_id) {
            Some(k) => k,
            None => {
                return Err(FheError::ClientKeyNotFound);
            },
        };
        let ciphertext = encrypt(value, client_key);
        let id = self.ciphertext_store.store_boolean(ciphertext);
        Ok(id)
    }

    /// Encrypt an integer under the named client key through `encrypt` and
    /// store the result under a fresh handle.
    ///
    /// The requested bit width is accepted and ignored: the ciphertext width
    /// is fixed at 8 bits, so the value must lie in `0 ..= 255`. Fails
    /// exactly when the client key does not resolve or the value does not
    /// fit, and then changes nothing.
    pub fn encrypt_integer<F: FnOnce(u8, &CK) -> I>(
        &mut self,
        client_key_id: &str,
        value: i64,
        _num_bits: i32,
        encrypt: F,
    ) -> (r: Result<String, FheError>)
        requires
            forall|v: u8, k: CK| #[trigger] call_requires(encrypt, (v, &k)),
        ensures
            final(self).client_keys() == old(self).client_keys(),
            final(self).server_keys() == old(self).server_keys(),
            r is Err <==> {
                ||| !old(self).client_keys().contains_key(client_key_id@)
                ||| !(0 <= value <= 255)
            },
            r matches Err(e) ==> {
                &&& e == if !old(self).client_keys().contains_key(client_key_id@) {
                    FheError::ClientKeyNotFound
                } else {
                    FheError::ValueOutOfRange
                }
                &&& final(self).boolean_ciphertexts() == old(self).boolean_ciphertexts()
                &&& final(self).integer_ciphertexts() == old(self).integer_ciphertexts()
            },
            r matches Ok(id) ==> {
                &&& id@.len() >= 36
                &&& !old(self).boolean_ciphertexts().contains_key(id@)
                &&& !old(self).integer_ciphertexts().contains_key(id@)
                &&& final(self).boolean_ciphertexts() == old(self).boolean_ciphertexts()
                &&& exists|k: CK, c: I|
                    {
                        &&& k == old(self).client_keys()[client_key_id@]
                        &&& #[trigger] call_ensures(encrypt, (value as u8, &k), c)
                        &&& final(self).integer_ciphertexts() == old(
                            self,
                        ).integer_ciphertexts().insert(id@, c)
                    }
            },
    {
        let client_key = match self.key_store.get_client_key(client_key_id) {
            Some(k) => k,
            None => {
                return Err(FheError::ClientKeyNotFound);
            },
        };
        if value < 0 || value > 255 {
            return Err(FheError::ValueOutOfRange);
        }
        let ciphertext = encrypt(value as u8, client_key);
        let id = self.ciphertext_store.store_integer(ciphertext);
        Ok(id)
    }

    /// Validate an evaluation request, run the matching engine callable on
    /// the resolved operands in their given order, and store the result
    /// under a fresh handle.
    ///
    /// The request fails exactly as [`Self::evaluation_error`] says, before
    /// any callable runs, and a failed request changes nothing.
    pub fn evaluate_operation<FB, FN, FI>(
        &mut self,
        server_key_id: &str,
        operation: Operator,
        operand_ids: &Vec<String>,
        bool_binary: FB,
        bool_not: FN,
        int_binary: FI,
    ) -> (r: Result<String, FheError>) where
        FB: FnOnce(Operator, &SK, &B, &B) -> B,
        FN: FnOnce(&SK, &B) -> B,
        FI: FnOnce(Operator, &I, &I) -> I,
        requires
            forall|op: Operator, k: SK, x: B, y: B| #[trigger] call_requires(
                bool_binary,
                (op, &k, &x, &y),
            ),
            forall|k: SK, x: B| #[trigger] call_requires(bool_not, (&k, &x)),
            forall|op: Operator, x: I, y: I| #[trigger] call_requires(int_binary, (op, &x, &y)),
        ensures
            final(self).client_keys() == old(self).client_keys(),
            final(self).server_keys() == old(self).server_keys(),
            r is Err <==> old(self).evaluation_error(server_key_id@, operation, operand_ids@)
                is Some,
            r matches Err(e) ==> {
                &&& Some(e) == old(self).evaluation_error(server_key_id@, operation, operand_ids@)
                &&& final(self).boolean_ciphertexts() == old(self).boolean_ciphertexts()
                &&& final(self).integer_ciphertexts() == old(self).integer_ciphertexts()
            },
            r matches Ok(id) ==> {
                &&& id@.len() >= 36
                &&& !old(self).boolean_ciphertexts().contains_key(id@)
                &&& !old(self).integer_ciphertexts().contains_key(id@)
                &&& match class_of(operation) {
                    OperatorClass::BooleanBinary => exists|k: SK, x: B, y: B, c: B|
                        {
                            &&& k == old(self).server_keys()[server_key_id@]
                            &&& x == old(self).boolean_ciphertexts()[operand_ids@[0]@]
                            &&& y == old(self).boolean_ciphertexts()[operand_ids@[1]@]
                            &&& #[trigger] call_ensures(bool_binary, (operation, &k, &x, &y), c)
                            &&& final(self).boolean_ciphertexts() == old(
                                self,
                            ).boolean_ciphertexts().insert(id@, c)
                            &&& final(self).integer_ciphertexts() == old(
                                self,
                            ).integer_ciphertexts()
                        },
                    OperatorClass::BooleanUnary => exists|k: SK, x: B, c: B|
                        {
                            &&& k == old(self).server_keys()[server_key_id@]
                            &&& x == old(self).boolean_ciphertexts()[operand_ids@[0]@]
                            &&& #[trigger] call_ensures(bool_not, (&k, &x), c)
                            &&& final(self).boolean_ciphertexts() == old(
                                self,
                            ).boolean_ciphertexts().insert(id@, c)
                            &&& final(self).integer_ciphertexts() == old(
                                self,
                            ).integer_ciphertexts()
                        },
                    OperatorClass::IntegerBinary => exists|x: I, y: I, c: I|
                        {
                            &&& x == old(self).integer_ciphertexts()[operand_ids@[0]@]
                            &&& y == old(self).integer_ciphertexts()[operand_ids@[1]@]
                            &&& #[trigger] call_ensures(int_binary, (operation, &x, &y), c)
                            &&& final(self).integer_ciphertexts() == old(
                                self,
                            ).integer_ciphertexts().insert(id@, c)
                            &&& final(self).boolean_ciphertexts() == old(
                                self,
                            ).boolean_ciphertexts()
                        },
                    OperatorClass::Unsupported => false,
                }
            },
    {
        let server_key = match self.key_store.get_server_key(server_key_id) {
            Some(k) => k,
            None => {
                return Err(FheError::ServerKeyNotFound);
            },
        };
        if operand_ids.len() == 0 {
            return Err(FheError::NoOperands);
        }
        match operation.classify() {
            OperatorClass::BooleanBinary => {
                if operand_ids.len() != 2 {
                    return Err(FheError::BinaryOperandCount);
                }
                let first = &operand_ids[0];
                let second = &operand_ids[1];
                let a = match self.ciphertext_store.get_boolean(first.as_str()) {
                    Some(c) => c,
                    None => {
                        return Err(FheError::FirstOperandNotFound);
                    },
                };
                let b = match self.ciphertext_store.get_boolean(second.as_str()) {
                    Some(c) => c,
                    None => {
                        return Err(FheError::SecondOperandNotFound);
                    },
                };
                let result = bool_binary(operation, server_key, a, b);
                let id = self.ciphertext_store.store_boolean(result);
                Ok(id)
            },
            OperatorClass::BooleanUnary => {
                if operand_ids.len() != 1 {
                    return Err(FheError::UnaryOperandCount);
                }
                let first = &operand_ids[0];
                let a = match self.ciphertext_store.get_boolean(first.as_str()) {
                    Some(c) => c,
                    None => {
                        return Err(FheError::OperandNotFound);
                    },
                };
                let result = bool_not(server_key, a);
                let id = self.ciphertext_store.store_boolean(result);
                Ok(id)
            },
            OperatorClass::IntegerBinary => {
                if operand_ids.len() != 2 {
                    return Err(FheError::BinaryOperandCount);
                }
                let first = &operand_ids[0];
                let second = &operand_ids[1];
                let a = match self.ciphertext_store.get_integer(first.as_str()) {
                    Some(c) => c,
                    None => {
                        return Err(FheError::FirstOperandNotFound);
                    },
                };
                let b = match self.ciphertext_store.get_integer(second.as_str()) {
                    Some(c) => c,
                    None => {
                        return Err(FheError::SecondOperandNotFound);
                    },
                };
                let result = int_binary(operation, a, b);
                let id = self.ciphertext_store.store_integer(result);
                Ok(id)
            },
            OperatorClass::Unsupported => Err(FheError::Unimplemented),
        }
    }

    /// Resolve the named client key and ciphertext and decrypt the
    /// ciphertext through `decrypt`.
    ///
    /// Fails exactly when the client key or the ciphertext does not resolve,
    /// with the more specific of the two errors. The stores are never
    /// changed.
    pub fn decrypt_boolean<F: FnOnce(&B, &CK) -> bool>(
        &self,
        client_key_id: &str,
        encrypted_data_id: &str,
        decrypt: F,
    ) -> (r: Result<bool, FheError>)
        requires
            forall|c: B, k: CK| #[trigger] call_requires(decrypt, (&c, &k)),
        ensures
            r is Err <==> {
                ||| !self.client_keys().contains_key(client_key_id@)
                ||| !self.boolean_ciphertexts().contains_key(encrypted_data_id@)
            },
            r matches Err(e) ==> e == if !self.client_keys().contains_key(client_key_id@) {
                FheError::ClientKeyNotFound
            } else {
                FheError::EncryptedDataNotFound
            },
            r matches Ok(v) ==> call_ensures(
                decrypt,
                (
                    &self.boolean_ciphertexts()[encrypted_data_id@],
                    &self.client_keys()[client_key_id@],
                ),
                v,
            ),
    {
        let client_key = match self.key_store.get_client_key(client_key_id) {
            Some(k) => k,
            None => {
                return Err(FheError::ClientKeyNotFound);
            },
        };
        let ciphertext = match self.ciphertext_store.get_boolean(encrypted_data_id) {
            Some(c) => c,
            None => {
                return Err(FheError::EncryptedDataNotFound);
            },
        };
        let value = decrypt(ciphertext, client_key);
        Ok(value)
    }

    /// Resolve the named client key and ciphertext and decrypt the
    /// ciphertext through `decrypt`, widening the 8-bit plaintext.
    ///
    /// Fails exactly when the client key or the ciphertext does not resolve,
    /// with the more specific of the two errors. The stores are never
    /// changed.
    pub fn decrypt_integer<F: FnOnce(&I, &CK) -> u8>(
        &self,
        client_key_id: &str,
        encrypted_data_id: &str,
        decrypt: F,
    ) -> (r: Result<i64, FheError>)
        requires
            forall|c: I, k: CK| #[trigger] call_requires(decrypt, (&c, &k)),
        ensures
            r is Err <==> {
                ||| !self.client_keys().contains_key(client_key_id@)
                ||| !self.integer_ciphertexts().contains_key(encrypted_data_id@)
            },
            r matches Err(e) ==> e == if !self.client_keys().contains_key(client_key_id@) {
                FheError::ClientKeyNotFound
            } else {
                FheError::EncryptedDataNotFound
            },
            r matches Ok(v) ==> {
                &&& 0 <= v <= 255
                &&& call_ensures(
                    decrypt,
                    (
                        &self.integer_ciphertexts()[encrypted_data_id@],
                        &self.client_keys()[client_key_id@],
                    ),
                    v as u8,
                )
            },
    {
        let client_key = match self.key_store.get_client_key(client_key_id) {
            Some(k) => k,
            None => {
                return Err(FheError::ClientKeyNotFound);
            },
        };
        let ciphertext = match self.ciphertext_store.get_integer(encrypted_data_id) {
            Some(c) => c,
            None => {
                return Err(FheError::EncryptedDataNotFound);
            },
        };
        let value = decrypt(ciphertext, client_key);
        Ok(value as i64)
    }
}

/// Round trip, boolean: whenever the decryption callable inverts the
/// encryption callable under a given key, a ciphertext that encryption
/// produced for `value` decrypts back to `value`. The inversion hypothesis
/// is the engine's to meet; everything else is the library's.
pub proof fn lemma_boolean_round_trip<CK, B, FE: FnOnce(bool, &CK) -> B, FD: FnOnce(
    &B,
    &CK,
) -> bool>(
    enc: FE,
    dec: FD,
    key: CK,
    value: bool,
    ciphertext: B,
    plain: bool,
)
    requires
        call_ensures(enc, (value, &key), ciphertext),
        call_ensures(dec, (&ciphertext, &key), plain),
        forall|v: bool, c: B, p: bool|
            #[trigger] call_ensures(enc, (v, &key), c) && #[trigger] call_ensures(
                dec,
                (&c, &key),
                p,
            ) ==> p == v,
    ensures
        plain == value,
{
}

/// Round trip, integer: whenever the decryption callable inverts the
/// encryption callable under a given key, a ciphertext that encryption
/// produced for `value` decrypts back to `value`. The inversion hypothesis
/// is the engine's to meet; everything else is the library's.
pub proof fn lemma_integer_round_trip<CK, I, FE: FnOnce(u8, &CK) -> I, FD: FnOnce(
    &I,
    &CK,
) -> u8>(
    enc: FE,
    dec: FD,
    key: CK,
    value: u8,
    ciphertext: I,
    plain: u8,
)
    requires
        call_ensures(enc, (value, &key), ciphertext),
        call_ensures(dec, (&ciphertext, &key), plain),
        forall|v: u8, c: I, p: u8|
            #[trigger] call_ensures(enc, (v, &key), c) && #[trigger] call_ensures(
                dec,
                (&c, &key),
                p,
            ) ==> p == v,
    ensures
        plain == value,
{
}

} // verus!
