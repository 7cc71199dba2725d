use password_vault::container::{decode_vault, encode_vault, vault_from_stored};
use password_vault::credentials::{Credential, Credentials};
use password_vault::error::VaultError;
use password_vault::kdf::{
    Argon2Params, Argon2Variant, Argon2Version, KdfParams, DEFAULT_M_COST, DEFAULT_P_COST,
    DEFAULT_T_COST, KEY_LEN, SALT_LEN,
};
use password_vault::vault::{decrypt, encrypt, seal_credentials, VaultContainer, NONCE_LEN};

fn s(x: &str) -> String {
    x.to_string()
}

fn small_params(salt: Vec<u8>, m_cost: u32, p_cost: u32) -> KdfParams {
    KdfParams::Argon2(Argon2Params {
        variant: Argon2Variant::Argon2id,
        version: Argon2Version::V0x13,
        m_cost,
        t_cost: 1,
        p_cost,
        output_len: 32,
        salt,
    })
}

fn sample() -> Credentials {
    let mut c = Credentials::new();
    c.add_or_update_credential(Credential::new(s("example.com"), s("a@b.com"), s("u"), s("p"), s("")));
    c.add_or_update_credential(Credential::new(s("x.org"), s("q@x.org"), s("me"), s("pw"), s("n")));
    c
}

fn key(fill: u8) -> Vec<u8> {
    vec![fill; KEY_LEN]
}

#[test]
fn generated_params_use_defaults_and_a_full_salt() {
    match KdfParams::generate() {
        KdfParams::Argon2(a) => {
            assert_eq!(a.salt.len(), SALT_LEN);
            assert_eq!(a.m_cost, DEFAULT_M_COST);
            assert_eq!(a.t_cost, DEFAULT_T_COST);
            assert_eq!(a.p_cost, DEFAULT_P_COST);
            assert_eq!(a.output_len as usize, KEY_LEN);
            assert_eq!(a.variant, Argon2Variant::Argon2id);
            assert_eq!(a.version, Argon2Version::V0x13);
        }
    }
}

#[test]
fn two_generated_salts_differ() {
    let (KdfParams::Argon2(a), KdfParams::Argon2(b)) = (KdfParams::generate(), KdfParams::generate());
    assert_ne!(a.salt, b.salt);
}

#[test]
fn derivation_is_deterministic() {
    let p = small_params(vec![7; SALT_LEN], 64, 1);
    let k1 = p.derive_key("correct horse").unwrap();
    let k2 = p.derive_key("correct horse").unwrap();
    assert_eq!(k1, k2);
    assert_eq!(k1.len(), KEY_LEN);
    assert_ne!(k1, b"correct horse".to_vec());
}

#[test]
fn derivation_depends_on_password_and_salt() {
    let p = small_params(vec![7; SALT_LEN], 64, 1);
    let q = small_params(vec![8; SALT_LEN], 64, 1);
    let k1 = p.derive_key("one").unwrap();
    assert_ne!(k1, p.derive_key("two").unwrap());
    assert_ne!(k1, q.derive_key("one").unwrap());
}

#[test]
fn malformed_params_are_invalid() {
    let short_salt = small_params(vec![7; 16], 64, 1);
    assert_eq!(short_salt.validate(), Err(VaultError::InvalidParameters));
    assert_eq!(short_salt.derive_key("pw"), Err(VaultError::InvalidParameters));
    let mut zero_time = small_params(vec![7; SALT_LEN], 64, 1);
    if let KdfParams::Argon2(a) = &mut zero_time {
        a.t_cost = 0;
    }
    assert_eq!(zero_time.derive_key("pw"), Err(VaultError::InvalidParameters));
    let mut long_output = small_params(vec![7; SALT_LEN], 64, 1);
    if let KdfParams::Argon2(a) = &mut long_output {
        a.output_len = 64;
    }
    assert_eq!(long_output.validate(), Err(VaultError::InvalidParameters));
    assert_eq!(small_params(vec![7; SALT_LEN], 64, 1).validate(), Ok(()));
}

#[test]
fn primitive_rejection_is_derivation_failure() {
    let too_little_memory = small_params(vec![7; SALT_LEN], 8, 2);
    assert_eq!(too_little_memory.validate(), Ok(()));
    assert_eq!(too_little_memory.derive_key("pw"), Err(VaultError::DerivationFailed));
}

#[test]
fn encrypt_then_decrypt_round_trips() {
    let c = sample();
    let v = encrypt(&key(1), small_params(vec![3; SALT_LEN], 64, 1), &c).ok().unwrap();
    assert_eq!(v.nonce.len(), NONCE_LEN);
    let back = decrypt(&key(1), &v).ok().unwrap();
    assert_eq!(
        password_vault::codec::encode_credentials(&back),
        password_vault::codec::encode_credentials(&c)
    );
}

#[test]
fn empty_collection_round_trips() {
    let c = Credentials::new();
    let v = encrypt(&key(1), small_params(vec![3; SALT_LEN], 64, 1), &c).ok().unwrap();
    assert_eq!(decrypt(&key(1), &v).ok().unwrap().len(), 0);
}

#[test]
fn sealing_hides_the_plaintext_and_adds_a_tag() {
    let c = sample();
    let plain = password_vault::codec::encode_credentials(&c);
    let v = seal_credentials(&key(1), vec![0; NONCE_LEN], small_params(vec![3; SALT_LEN], 64, 1), &c)
        .ok()
        .unwrap();
    assert_eq!(v.ciphertext.len(), plain.len() + 16);
    assert_ne!(&v.ciphertext[..plain.len()], &plain[..]);
    let again = seal_credentials(&key(1), vec![0; NONCE_LEN], small_params(vec![3; SALT_LEN], 64, 1), &c)
        .ok()
        .unwrap();
    assert_eq!(v.ciphertext, again.ciphertext);
}

#[test]
fn fresh_nonce_per_encryption() {
    let c = sample();
    let a = encrypt(&key(1), small_params(vec![3; SALT_LEN], 64, 1), &c).ok().unwrap();
    let b = encrypt(&key(1), small_params(vec![3; SALT_LEN], 64, 1), &c).ok().unwrap();
    assert_ne!(a.nonce, b.nonce);
    assert_ne!(a.ciphertext, b.ciphertext);
}

#[test]
fn wrong_key_is_authentication_failure() {
    let v = encrypt(&key(1), small_params(vec![3; SALT_LEN], 64, 1), &sample()).ok().unwrap();
    assert_eq!(decrypt(&key(2), &v).err(), Some(VaultError::AuthenticationFailed));
}

#[test]
fn every_flipped_bit_is_detected() {
    let v = encrypt(&key(1), small_params(vec![3; SALT_LEN], 64, 1), &sample()).ok().unwrap();
    for i in 0..v.ciphertext.len() * 8 {
        let mut ct = v.ciphertext.clone();
        ct[i / 8] ^= 1 << (i % 8);
        let t = VaultContainer { kdf_params: small_params(vec![3; SALT_LEN], 64, 1), nonce: v.nonce.clone(), ciphertext: ct };
        assert_eq!(decrypt(&key(1), &t).err(), Some(VaultError::AuthenticationFailed));
    }
    for i in 0..NONCE_LEN * 8 {
        let mut nonce = v.nonce.clone();
        nonce[i / 8] ^= 1 << (i % 8);
        let t = VaultContainer { kdf_params: small_params(vec![3; SALT_LEN], 64, 1), nonce, ciphertext: v.ciphertext.clone() };
        assert_eq!(decrypt(&key(1), &t).err(), Some(VaultError::AuthenticationFailed));
    }
}

#[test]
fn wrong_nonce_length_is_a_layout_error() {
    let mut v = encrypt(&key(1), small_params(vec![3; SALT_LEN], 64, 1), &sample()).ok().unwrap();
    v.nonce.pop();
    assert_eq!(decrypt(&key(1), &v).err(), Some(VaultError::SerializationError));
}

#[test]
fn container_layout_round_trips() {
    let v = encrypt(&key(1), small_params(vec![3; SALT_LEN], 64, 1), &sample()).ok().unwrap();
    let bytes = encode_vault(&v);
    assert_eq!(bytes.len(), 56 + 8 + SALT_LEN + 8 + NONCE_LEN + 8 + v.ciphertext.len());
    assert_eq!(&bytes[..8], &[0u8; 8]);
    assert_eq!(&bytes[8..16], &[2, 0, 0, 0, 0, 0, 0, 0]);
    assert_eq!(&bytes[16..24], &[0x13, 0, 0, 0, 0, 0, 0, 0]);
    assert_eq!(&bytes[24..32], &[64, 0, 0, 0, 0, 0, 0, 0]);
    let back = decode_vault(&bytes).ok().unwrap();
    assert_eq!(back.nonce, v.nonce);
    assert_eq!(back.ciphertext, v.ciphertext);
    assert_eq!(encode_vault(&back), bytes);
    assert_eq!(decrypt(&key(1), &back).ok().unwrap().len(), 2);
}

#[test]
fn truncated_or_padded_container_is_rejected() {
    let v = encrypt(&key(1), small_params(vec![3; SALT_LEN], 64, 1), &sample()).ok().unwrap();
    let bytes = encode_vault(&v);
    assert_eq!(decode_vault(&bytes[..bytes.len() - 1].to_vec()).err(), Some(VaultError::SerializationError));
    let mut longer = bytes.clone();
    longer.push(0);
    assert_eq!(decode_vault(&longer).err(), Some(VaultError::SerializationError));
    assert_eq!(decode_vault(&bytes[..40].to_vec()).err(), Some(VaultError::SerializationError));
}

#[test]
fn out_of_range_container_head_is_invalid_parameters() {
    let v = encrypt(&key(1), small_params(vec![3; SALT_LEN], 64, 1), &sample()).ok().unwrap();
    let bytes = encode_vault(&v);
    let mut bad_tag = bytes.clone();
    bad_tag[0] = 1;
    assert_eq!(decode_vault(&bad_tag).err(), Some(VaultError::InvalidParameters));
    let mut bad_variant = bytes.clone();
    bad_variant[8] = 3;
    assert_eq!(decode_vault(&bad_variant).err(), Some(VaultError::InvalidParameters));
    let mut bad_version = bytes.clone();
    bad_version[16] = 0x11;
    assert_eq!(decode_vault(&bad_version).err(), Some(VaultError::InvalidParameters));
    let mut huge_cost = bytes.clone();
    huge_cost[44] = 1;
    assert_eq!(decode_vault(&huge_cost).err(), Some(VaultError::InvalidParameters));
    assert_eq!(vault_from_stored(Some(huge_cost)).err(), Some(VaultError::InvalidParameters));
}

#[test]
fn huge_parallelism_is_invalid_not_a_panic() {
    let p = small_params(vec![7; SALT_LEN], 64, 0x2000_0000);
    assert_eq!(p.validate(), Err(VaultError::InvalidParameters));
    assert_eq!(p.derive_key("pw"), Err(VaultError::InvalidParameters));
    let v = encrypt(&key(1), small_params(vec![3; SALT_LEN], 64, 1), &sample()).ok().unwrap();
    let mut bytes = encode_vault(&v);
    bytes[40..48].copy_from_slice(&[0, 0, 0, 0x20, 0, 0, 0, 0]);
    let stored = decode_vault(&bytes).ok().unwrap();
    assert_eq!(stored.kdf_params.derive_key("pw"), Err(VaultError::InvalidParameters));
}

#[test]
fn memory_above_ceiling_is_derivation_failure() {
    let p = small_params(vec![7; SALT_LEN], password_vault::kdf::MAX_M_COST + 1, 1);
    assert_eq!(p.validate(), Ok(()));
    assert_eq!(p.derive_key("pw"), Err(VaultError::DerivationFailed));
}

#[test]
fn missing_vault_is_no_vault() {
    assert!(matches!(vault_from_stored(None), Ok(None)));
    assert_eq!(vault_from_stored(Some(vec![])).err(), Some(VaultError::SerializationError));
    let v = encrypt(&key(1), small_params(vec![3; SALT_LEN], 64, 1), &sample()).ok().unwrap();
    assert!(matches!(vault_from_stored(Some(encode_vault(&v))), Ok(Some(_))));
}
