//! Authenticated encryption of the credential set, and the persisted vault.
use chacha20poly1305::aead::{Aead, KeyInit};
use crate::codec::{credentials_bytes, decode_credentials, decodes_to, encode_credentials};
use crate::credentials::{unique_keys, CredentialModel, Credentials};
use crate::error::VaultError;
use crate::kdf::{random_bytes, KdfParams, KEY_LEN};
use vstd::prelude::*;

verus! {

/// Length in bytes of the nonce of one encryption.
pub const NONCE_LEN: usize = 12;

/// The persisted unit: how the key was derived, the nonce of the encryption,
/// and the ciphertext with its authentication tag appended.
pub struct VaultContainer {
    pub kdf_params: KdfParams,
    pub nonce: Vec<u8>,
    pub ciphertext: Vec<u8>,
}

/// The ChaCha20-Poly1305 ciphertext (tag appended) of `plaintext` under `key` and `nonce`.
pub uninterp spec fn sealed(key: Seq<u8>, nonce: Seq<u8>, plaintext: Seq<u8>) -> Seq<u8>;

/// A message short enough for one ChaCha20-Poly1305 encryption.
pub open spec fn fits_cipher(len: nat) -> bool {
    len / 64 < 0xFFFF_FFFF
}

/// `ciphertext` is what sealing `plaintext` under `key` and `nonce` gives.
pub open spec fn opens_to(key: Seq<u8>, nonce: Seq<u8>, ciphertext: Seq<u8>, plaintext: Seq<u8>) -> bool {
    fits_cipher(plaintext.len()) && ciphertext == sealed(key, nonce, plaintext)
}

/// Relies on chacha20poly1305's `ChaCha20Poly1305::encrypt` (trait `aead::Aead`),
/// which fails only on a message of 2^32 - 1 blocks of 64 bytes or more.
#[verifier::external_body]
fn aead_seal(key: &Vec<u8>, nonce: &Vec<u8>, plaintext: &Vec<u8>) -> (r: Option<Vec<u8>>)
    requires
        key@.len() == KEY_LEN,
        nonce@.len() == NONCE_LEN,
    ensures
        r is Some <==> fits_cipher(plaintext@.len()),
        r matches Some(c) ==> c@ == sealed(key@, nonce@, plaintext@),
{
    let cipher = chacha20poly1305::ChaCha20Poly1305::new(chacha20poly1305::Key::from_slice(key));
    cipher.encrypt(chacha20poly1305::Nonce::from_slice(nonce), plaintext.as_slice()).ok()
}

/// `r` holds the message of every seal that `ciphertext` is.
pub open spec fn opens_every_seal(
    r: Option<Vec<u8>>,
    key: Seq<u8>,
    nonce: Seq<u8>,
    ciphertext: Seq<u8>,
) -> bool {
    forall|p: Seq<u8>| #[trigger]
        opens_to(key, nonce, ciphertext, p) ==> (r matches Some(q) && q@ == p)
}

/// Relies on chacha20poly1305's `ChaCha20Poly1305::decrypt` (trait `aead::Aead`):
/// it checks the tag before it returns anything, so it succeeds exactly on the
/// ciphertexts that sealing some message under this key and nonce gives, and
/// returns that message.
#[verifier::external_body]
fn aead_open(key: &Vec<u8>, nonce: &Vec<u8>, ciphertext: &Vec<u8>) -> (r: Option<Vec<u8>>)
    requires
        key@.len() == KEY_LEN,
        nonce@.len() == NONCE_LEN,
    ensures
        r matches Some(p) ==> opens_to(key@, nonce@, ciphertext@, p@),
        opens_every_seal(r, key@, nonce@, ciphertext@),
{
    let cipher = chacha20poly1305::ChaCha20Poly1305::new(chacha20poly1305::Key::from_slice(key));
    cipher.decrypt(chacha20poly1305::Nonce::from_slice(nonce), ciphertext.as_slice()).ok()
}

/// Where `ciphertext` seals the layout of `s`, `r` gives back `s`.
pub open spec fn gives_back_sealed(
    key: Seq<u8>,
    nonce: Seq<u8>,
    ciphertext: Seq<u8>,
    r: Result<Seq<CredentialModel>, VaultError>,
) -> bool {
    forall|s: Seq<CredentialModel>|
        nonce.len() == NONCE_LEN && unique_keys(s) && #[trigger] opens_to(
            key,
            nonce,
            ciphertext,
            credentials_bytes(s),
        ) ==> r == Ok::<Seq<CredentialModel>, VaultError>(s)
}

/// Some message seals to `ciphertext` under `key` and `nonce`.
pub open spec fn has_opening(key: Seq<u8>, nonce: Seq<u8>, ciphertext: Seq<u8>) -> bool {
    exists|p: Seq<u8>| opens_to(key, nonce, ciphertext, p)
}

/// The message that seals to `ciphertext`, where there is one.
pub open spec fn opening(key: Seq<u8>, nonce: Seq<u8>, ciphertext: Seq<u8>) -> Seq<u8> {
    choose|p: Seq<u8>| opens_to(key, nonce, ciphertext, p)
}

/// Each result of `decrypt` comes only where its condition holds.
pub open spec fn outcome_justified(
    key: Seq<u8>,
    nonce: Seq<u8>,
    ciphertext: Seq<u8>,
    r: Result<Seq<CredentialModel>, VaultError>,
) -> bool {
    let opened = nonce.len() == NONCE_LEN && has_opening(key, nonce, ciphertext);
    let p = opening(key, nonce, ciphertext);
    match r {
        Ok(s) => opened && decodes_to(p, s),
        Err(VaultError::AuthenticationFailed) => nonce.len() == NONCE_LEN && !has_opening(
            key,
            nonce,
            ciphertext,
        ),
        Err(VaultError::SerializationError) => nonce.len() != NONCE_LEN || (opened
            && !exists|s: Seq<CredentialModel>| decodes_to(p, s)),
        Err(_) => false,
    }
}

/// What `decrypt` may return for `ciphertext` under `key` and `nonce`.
pub open spec fn decrypt_outcome(
    key: Seq<u8>,
    nonce: Seq<u8>,
    ciphertext: Seq<u8>,
    r: Result<Seq<CredentialModel>, VaultError>,
) -> bool {
    gives_back_sealed(key, nonce, ciphertext, r) && outcome_justified(key, nonce, ciphertext, r)
}

/// Encrypts `credentials` under `key` with the given `nonce`, and bundles the
/// result with `kdf_params`.
pub fn seal_credentials(
    key: &Vec<u8>,
    nonce: Vec<u8>,
    kdf_params: KdfParams,
    credentials: &Credentials,
) -> (r: Result<VaultContainer, VaultError>)
    requires
        key@.len() == KEY_LEN,
        nonce@.len() == NONCE_LEN,
    ensures
        r is Ok <==> fits_cipher(credentials_bytes(credentials@).len()),
        r matches Ok(v) ==> v.kdf_params == kdf_params && v.nonce@ == nonce@ && v.ciphertext@
            == sealed(key@, nonce@, credentials_bytes(credentials@)),
        r matches Err(e) ==> e == VaultError::SerializationError,
{
    let plaintext = encode_credentials(credentials);
    match aead_seal(key, &nonce, &plaintext) {
        Some(ciphertext) => Ok(VaultContainer { kdf_params, nonce, ciphertext }),
        None => Err(VaultError::SerializationError),
    }
}

/// Encrypts `credentials` under `key` with a fresh random nonce.
pub fn encrypt(key: &Vec<u8>, kdf_params: KdfParams, credentials: &Credentials) -> (r: Result<
    VaultContainer,
    VaultError,
>)
    requires
        key@.len() == KEY_LEN,
    ensures
        r is Ok <==> fits_cipher(credentials_bytes(credentials@).len()),
        r matches Ok(v) ==> v.kdf_params == kdf_params && v.nonce@.len() == NONCE_LEN
            && v.ciphertext@ == sealed(key@, v.nonce@, credentials_bytes(credentials@)),
        r matches Err(e) ==> e == VaultError::SerializationError,
{
    seal_credentials(key, random_bytes(NONCE_LEN), kdf_params, credentials)
}

/// Decrypts the credentials of `vault` under `key`. The tag is checked before
/// any plaintext is used: a wrong key or a damaged ciphertext gives
/// `AuthenticationFailed`.
pub fn decrypt(key: &Vec<u8>, vault: &VaultContainer) -> (r: Result<Credentials, VaultError>)
    requires
        key@.len() == KEY_LEN,
    ensures
        r matches Ok(c) ==> c.wf(),
        decrypt_outcome(
            key@,
            vault.nonce@,
            vault.ciphertext@,
            match r {
                Ok(c) => Ok(c@),
                Err(e) => Err(e),
            },
        ),
{
    if vault.nonce.len() != NONCE_LEN {
        return Err(VaultError::SerializationError);
    }
    let plaintext = match aead_open(key, &vault.nonce, &vault.ciphertext) {
        Some(p) => p,
        None => return Err(VaultError::AuthenticationFailed),
    };
    let r = decode_credentials(&plaintext);
    proof {
        let (k, n, ct) = (key@, vault.nonce@, vault.ciphertext@);
        assert forall|s: Seq<CredentialModel>|
            unique_keys(s) && #[trigger] opens_to(k, n, ct, credentials_bytes(s)) implies decodes_to(
            plaintext@,
            s,
        ) by {}
        assert(opens_to(k, n, ct, plaintext@));
        assert(plaintext@ == opening(k, n, ct));
        match &r {
            Ok(c) => {
                assert forall|s: Seq<CredentialModel>|
                    n.len() == NONCE_LEN && unique_keys(s) && #[trigger] opens_to(
                        k,
                        n,
                        ct,
                        credentials_bytes(s),
                    ) implies Ok::<Seq<CredentialModel>, VaultError>(c@) == Ok::<
                    Seq<CredentialModel>,
                    VaultError,
                >(s) by {}
                assert(decrypt_outcome(k, n, ct, Ok(c@)));
            },
            Err(e) => {
                assert(!exists|s: Seq<CredentialModel>| decodes_to(plaintext@, s));
                assert(decrypt_outcome(k, n, ct, Err(*e)));
            },
        }
    }
    r
}

/// Decrypting what was encrypted under the same key gives back the same
/// credentials: whatever `decrypt` may return for the output of `encrypt` is
/// exactly the credential sequence that was encrypted.
pub proof fn lemma_round_trip(
    key: Seq<u8>,
    nonce: Seq<u8>,
    ciphertext: Seq<u8>,
    s: Seq<CredentialModel>,
    r: Result<Seq<CredentialModel>, VaultError>,
)
    requires
        unique_keys(s),
        nonce.len() == NONCE_LEN,
        fits_cipher(credentials_bytes(s).len()),
        ciphertext == sealed(key, nonce, credentials_bytes(s)),
        decrypt_outcome(key, nonce, ciphertext, r),
    ensures
        r == Ok::<Seq<CredentialModel>, VaultError>(s),
{
    assert(opens_to(key, nonce, ciphertext, credentials_bytes(s)));
}

} // verus!
