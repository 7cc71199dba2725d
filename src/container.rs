//! The byte layout of a persisted vault.
//!
//! Seven integers of eight bytes each, least significant first: the algorithm
//! tag (0 for Argon2), the Argon2 variant (0 for Argon2d, 1 for Argon2i, 2 for
//! Argon2id), the version (0x10 or 0x13), memory cost, time cost, parallelism
//! and output length. Then three byte strings, each its length as such an
//! integer followed by its bytes: the salt, the nonce and the ciphertext.
use crate::codec::{
    bytes_field,
    le_bytes,
    le_value,
    lemma_le_value_of_bytes,
    push_bytes,
    push_u64,
    read_bytes,
    read_u64,
};
use crate::error::VaultError;
use crate::kdf::{Argon2Params, Argon2Variant, Argon2Version, KdfParams};
use crate::vault::VaultContainer;
use vstd::prelude::*;

verus! {

pub open spec fn variant_code(v: Argon2Variant) -> u64 {
    match v {
        Argon2Variant::Argon2d => 0,
        Argon2Variant::Argon2i => 1,
        Argon2Variant::Argon2id => 2,
    }
}

pub open spec fn version_code(v: Argon2Version) -> u64 {
    match v {
        Argon2Version::V0x10 => 0x10,
        Argon2Version::V0x13 => 0x13,
    }
}

/// The fixed-width head of the layout: the key-derivation numbers.
pub open spec fn params_head(p: KdfParams) -> Seq<u8> {
    match p {
        KdfParams::Argon2(a) => le_bytes(0) + le_bytes(variant_code(a.variant)) + le_bytes(
            version_code(a.version),
        ) + le_bytes(a.m_cost as u64) + le_bytes(a.t_cost as u64) + le_bytes(a.p_cost as u64)
            + le_bytes(a.output_len as u64),
    }
}

pub open spec fn params_salt(p: KdfParams) -> Seq<u8> {
    match p {
        KdfParams::Argon2(a) => a.salt@,
    }
}

/// The layout of `v`.
pub open spec fn container_bytes(v: VaultContainer) -> Seq<u8> {
    params_head(v.kdf_params) + bytes_field(params_salt(v.kdf_params)) + bytes_field(v.nonce@)
        + bytes_field(v.ciphertext@)
}

/// `v` and `w` hold the same values.
pub open spec fn same_vault(v: VaultContainer, w: VaultContainer) -> bool {
    v.kdf_params.same_as(&w.kdf_params) && v.nonce@ == w.nonce@ && v.ciphertext@ == w.ciphertext@
}

/// Lays out `v` for storage.
pub fn encode_vault(v: &VaultContainer) -> (r: Vec<u8>)
    ensures
        r@ == container_bytes(*v),
{
    let mut out: Vec<u8> = Vec::new();
    match &v.kdf_params {
        KdfParams::Argon2(a) => {
            push_u64(&mut out, 0);
            let variant: u64 = match a.variant {
                Argon2Variant::Argon2d => 0,
                Argon2Variant::Argon2i => 1,
                Argon2Variant::Argon2id => 2,
            };
            push_u64(&mut out, variant);
            let version: u64 = match a.version {
                Argon2Version::V0x10 => 0x10,
                Argon2Version::V0x13 => 0x13,
            };
            push_u64(&mut out, version);
            push_u64(&mut out, a.m_cost as u64);
            push_u64(&mut out, a.t_cost as u64);
            push_u64(&mut out, a.p_cost as u64);
            push_u64(&mut out, a.output_len as u64);
            push_bytes(&mut out, &a.salt);
        },
    }
    push_bytes(&mut out, &v.nonce);
    push_bytes(&mut out, &v.ciphertext);
    out
}

/// The numbers at the head of a layout of `v`.
#[verifier::rlimit(100)]
#[verifier::spinoff_prover]
proof fn lemma_layout_head(b: Seq<u8>, v: VaultContainer)
    requires
        container_bytes(v) == b,
    ensures
        ({
            let KdfParams::Argon2(a) = v.kdf_params;
            &&& b.len() >= 56
            &&& b.subrange(0, 8) == le_bytes(0)
            &&& b.subrange(8, 16) == le_bytes(variant_code(a.variant))
            &&& b.subrange(16, 24) == le_bytes(version_code(a.version))
            &&& b.subrange(24, 32) == le_bytes(a.m_cost as u64)
            &&& b.subrange(32, 40) == le_bytes(a.t_cost as u64)
            &&& b.subrange(40, 48) == le_bytes(a.p_cost as u64)
            &&& b.subrange(48, 56) == le_bytes(a.output_len as u64)
        }),
{
    let KdfParams::Argon2(a) = v.kdf_params;
    let h = params_head(v.kdf_params);
    assert(h.len() == 56);
    assert(b.subrange(0, 56) =~= h);
    assert(h.subrange(0, 8) =~= le_bytes(0));
    assert(h.subrange(8, 16) =~= le_bytes(variant_code(a.variant)));
    assert(h.subrange(16, 24) =~= le_bytes(version_code(a.version)));
    assert(h.subrange(24, 32) =~= le_bytes(a.m_cost as u64));
    assert(h.subrange(32, 40) =~= le_bytes(a.t_cost as u64));
    assert(h.subrange(40, 48) =~= le_bytes(a.p_cost as u64));
    assert(h.subrange(48, 56) =~= le_bytes(a.output_len as u64));
    assert(b.subrange(0, 8) =~= h.subrange(0, 8));
    assert(b.subrange(8, 16) =~= h.subrange(8, 16));
    assert(b.subrange(16, 24) =~= h.subrange(16, 24));
    assert(b.subrange(24, 32) =~= h.subrange(24, 32));
    assert(b.subrange(32, 40) =~= h.subrange(32, 40));
    assert(b.subrange(40, 48) =~= h.subrange(40, 48));
    assert(b.subrange(48, 56) =~= h.subrange(48, 56));
}

/// What a layout of `v` holds, part by part.
proof fn lemma_layout_reads(b: Seq<u8>, v: VaultContainer)
    requires
        container_bytes(v) == b,
    ensures
        ({
            let KdfParams::Argon2(a) = v.kdf_params;
            let sf = bytes_field(a.salt@);
            let nf = bytes_field(v.nonce@);
            let cf = bytes_field(v.ciphertext@);
            let s1 = 56 + sf.len() as int;
            let s2 = s1 + nf.len() as int;
            &&& b.len() == 56 + sf.len() + nf.len() + cf.len()
            &&& le_value(b.subrange(0, 8)) == 0
            &&& le_value(b.subrange(8, 16)) == variant_code(a.variant)
            &&& le_value(b.subrange(16, 24)) == version_code(a.version)
            &&& le_value(b.subrange(24, 32)) == a.m_cost as u64
            &&& le_value(b.subrange(32, 40)) == a.t_cost as u64
            &&& le_value(b.subrange(40, 48)) == a.p_cost as u64
            &&& le_value(b.subrange(48, 56)) == a.output_len as u64
            &&& b.subrange(56, s1) == sf
            &&& b.subrange(s1, s2) == nf
            &&& b.subrange(s2, b.len() as int) == cf
        }),
{
    let KdfParams::Argon2(a) = v.kdf_params;
    lemma_layout_head(b, v);
    lemma_le_value_of_bytes(0);
    lemma_le_value_of_bytes(variant_code(a.variant));
    lemma_le_value_of_bytes(version_code(a.version));
    lemma_le_value_of_bytes(a.m_cost as u64);
    lemma_le_value_of_bytes(a.t_cost as u64);
    lemma_le_value_of_bytes(a.p_cost as u64);
    lemma_le_value_of_bytes(a.output_len as u64);
    let h = params_head(v.kdf_params);
    let sf = bytes_field(a.salt@);
    let nf = bytes_field(v.nonce@);
    let cf = bytes_field(v.ciphertext@);
    assert(h.len() == 56);
    let s1 = 56 + sf.len() as int;
    let s2 = s1 + nf.len() as int;
    assert(b.subrange(56, s1) =~= sf);
    assert(b.subrange(s1, s2) =~= nf);
    assert(b.subrange(s2, b.len() as int) =~= cf);
}

/// The numbers at the head of `b` name a known algorithm, variant and
/// version, and each cost fits the parameter record.
#[verifier::opaque]
pub open spec fn head_in_range(b: Seq<u8>) -> bool {
    &&& le_value(b.subrange(0, 8)) == 0
    &&& le_value(b.subrange(8, 16)) <= 2
    &&& (le_value(b.subrange(16, 24)) == 0x10 || le_value(b.subrange(16, 24)) == 0x13)
    &&& le_value(b.subrange(24, 32)) <= 0xFFFF_FFFF
    &&& le_value(b.subrange(32, 40)) <= 0xFFFF_FFFF
    &&& le_value(b.subrange(40, 48)) <= 0xFFFF_FFFF
    &&& le_value(b.subrange(48, 56)) <= 0xFFFF_FFFF
}

/// Reads a vault whose head is in range from its layout.
#[verifier::rlimit(100)]
#[verifier::spinoff_prover]
fn decode_vault_body(b: &Vec<u8>) -> (r: Result<VaultContainer, VaultError>)
    requires
        b@.len() >= 56,
        head_in_range(b@),
    ensures
        r matches Ok(v) ==> container_bytes(v) == b@,
        forall|v: VaultContainer| #[trigger]
            container_bytes(v) == b@ ==> (r matches Ok(w) && same_vault(w, v)),
        r matches Err(e) ==> e == VaultError::SerializationError,
{
    proof {
        reveal(head_in_range);
    }
    let tag = read_u64(b, 0);
    let variant_c = read_u64(b, 8);
    let version_c = read_u64(b, 16);
    let m_cost = read_u64(b, 24);
    let t_cost = read_u64(b, 32);
    let p_cost = read_u64(b, 40);
    let output_len = read_u64(b, 48);
    let variant = if variant_c == 0 {
        Argon2Variant::Argon2d
    } else if variant_c == 1 {
        Argon2Variant::Argon2i
    } else {
        Argon2Variant::Argon2id
    };
    let version = if version_c == 0x10 {
        Argon2Version::V0x10
    } else {
        Argon2Version::V0x13
    };
    let (salt, end1) = match read_bytes(b, 56) {
        Some(x) => x,
        None => {
            proof {
                assert forall|v: VaultContainer| #[trigger] container_bytes(v) == b@ implies false by {
                    lemma_layout_reads(b@, v);
                }
            }
            return Err(VaultError::SerializationError);
        },
    };
    let (nonce, end2) = match read_bytes(b, end1) {
        Some(x) => x,
        None => {
            proof {
                assert forall|v: VaultContainer| #[trigger] container_bytes(v) == b@ implies false by {
                    lemma_layout_reads(b@, v);
                }
            }
            return Err(VaultError::SerializationError);
        },
    };
    let (ciphertext, end3) = match read_bytes(b, end2) {
        Some(x) => x,
        None => {
            proof {
                assert forall|v: VaultContainer| #[trigger] container_bytes(v) == b@ implies false by {
                    lemma_layout_reads(b@, v);
                }
            }
            return Err(VaultError::SerializationError);
        },
    };
    if end3 != b.len() {
        proof {
            assert forall|v: VaultContainer| #[trigger] container_bytes(v) == b@ implies false by {
                lemma_layout_reads(b@, v);
            }
        }
        return Err(VaultError::SerializationError);
    }
    let params = Argon2Params {
        variant,
        version,
        m_cost: m_cost as u32,
        t_cost: t_cost as u32,
        p_cost: p_cost as u32,
        output_len: output_len as u32,
        salt,
    };
    let v = VaultContainer { kdf_params: KdfParams::Argon2(params), nonce, ciphertext };
    proof {
        let bb = b@;
        crate::codec::lemma_le_bytes_of_value(bb.subrange(0, 8));
        crate::codec::lemma_le_bytes_of_value(bb.subrange(8, 16));
        crate::codec::lemma_le_bytes_of_value(bb.subrange(16, 24));
        crate::codec::lemma_le_bytes_of_value(bb.subrange(24, 32));
        crate::codec::lemma_le_bytes_of_value(bb.subrange(32, 40));
        crate::codec::lemma_le_bytes_of_value(bb.subrange(40, 48));
        crate::codec::lemma_le_bytes_of_value(bb.subrange(48, 56));
        assert(bb =~= bb.subrange(0, 8) + bb.subrange(8, 16) + bb.subrange(16, 24) + bb.subrange(
            24,
            32,
        ) + bb.subrange(32, 40) + bb.subrange(40, 48) + bb.subrange(48, 56) + bb.subrange(
            56,
            end1 as int,
        ) + bb.subrange(end1 as int, end2 as int) + bb.subrange(end2 as int, end3 as int));
        assert(container_bytes(v) =~= bb);
        assert forall|w: VaultContainer| #[trigger] container_bytes(w) == b@ implies same_vault(
            v,
            w,
        ) by {
            lemma_layout_reads(b@, w);
        }
    }
    Ok(v)
}

/// Reads a vault from its layout. A head with an unknown algorithm or an
/// out-of-range cost gives `InvalidParameters`; any other bytes that lay out
/// no vault give `SerializationError`.
pub fn decode_vault(b: &Vec<u8>) -> (r: Result<VaultContainer, VaultError>)
    ensures
        r matches Ok(v) ==> container_bytes(v) == b@,
        forall|v: VaultContainer| #[trigger]
            container_bytes(v) == b@ ==> (r matches Ok(w) && same_vault(w, v)),
        r == Err::<VaultContainer, VaultError>(VaultError::InvalidParameters) <==> (b@.len() >= 56
            && !head_in_range(b@)),
        r matches Err(e) ==> e == VaultError::SerializationError || e
            == VaultError::InvalidParameters,
{
    if b.len() < 56 {
        proof {
            assert forall|v: VaultContainer| #[trigger] container_bytes(v) == b@ implies false by {
                lemma_layout_reads(b@, v);
            }
        }
        return Err(VaultError::SerializationError);
    }
    let tag = read_u64(b, 0);
    let variant_c = read_u64(b, 8);
    let version_c = read_u64(b, 16);
    let m_cost = read_u64(b, 24);
    let t_cost = read_u64(b, 32);
    let p_cost = read_u64(b, 40);
    let output_len = read_u64(b, 48);
    proof {
        reveal(head_in_range);
    }
    if tag != 0 || variant_c > 2 || (version_c != 0x10 && version_c != 0x13) || m_cost > 0xFFFF_FFFF
        || t_cost > 0xFFFF_FFFF || p_cost > 0xFFFF_FFFF || output_len > 0xFFFF_FFFF {
        proof {
            assert forall|v: VaultContainer| #[trigger] container_bytes(v) == b@ implies false by {
                lemma_layout_reads(b@, v);
            }
        }
        return Err(VaultError::InvalidParameters);
    }
    decode_vault_body(b)
}

/// What was found in storage: nothing yet, or the bytes of a vault. No stored
/// vault is the fresh state, never an error.
pub fn vault_from_stored(stored: Option<Vec<u8>>) -> (r: Result<Option<VaultContainer>, VaultError>)
    ensures
        stored is None ==> r matches Ok(None),
        stored matches Some(b) ==> {
            &&& r matches Ok(Some(v)) ==> container_bytes(v) == b@
            &&& r is Ok <==> exists|v: VaultContainer| container_bytes(v) == b@
            &&& r == Err::<Option<VaultContainer>, VaultError>(VaultError::InvalidParameters) <==> (
            b@.len() >= 56 && !head_in_range(b@))
            &&& r matches Err(e) ==> e == VaultError::SerializationError || e
                == VaultError::InvalidParameters
        },
{
    match stored {
        None => Ok(None),
        Some(b) => match decode_vault(&b) {
            Ok(v) => Ok(Some(v)),
            Err(e) => Err(e),
        },
    }
}

/// A stored vault reads back as the vault that was laid out.
pub proof fn lemma_vault_layout_round_trip(v: VaultContainer, r: Result<VaultContainer, VaultError>)
    requires
        forall|w: VaultContainer| #[trigger]
            container_bytes(w) == container_bytes(v) ==> (r matches Ok(x) && same_vault(x, w)),
    ensures
        r matches Ok(x) && same_vault(x, v),
{
    assert(container_bytes(v) == container_bytes(v));
}

} // verus!
