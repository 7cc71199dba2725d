//! Key-derivation parameters and the derivation of the master key.
use crate::error::VaultError;
use vstd::prelude::*;
use vstd::string::StringSliceAdditionalSpecFns;

verus! {

/// Length in bytes of a vault's salt.
pub const SALT_LEN: usize = 32;

/// Length in bytes of a master key.
pub const KEY_LEN: usize = 32;

/// Memory cost of fresh parameters, in KiB blocks (1 GiB).
pub const DEFAULT_M_COST: u32 = 1048576;

/// Largest memory cost this library will derive with, in KiB blocks (2 GiB).
pub const MAX_M_COST: u32 = 2097152;

/// Largest number of lanes that argon2 accepts.
pub const MAX_P_COST: u32 = 0xFFFFFF;

/// Passes over memory of fresh parameters.
pub const DEFAULT_T_COST: u32 = 3;

/// Lanes of fresh parameters.
pub const DEFAULT_P_COST: u32 = 1;

#[derive(Clone, Copy, Debug, PartialEq, Eq, Structural)]
pub enum Argon2Variant {
    Argon2d,
    Argon2i,
    Argon2id,
}

#[derive(Clone, Copy, Debug, PartialEq, Eq, Structural)]
pub enum Argon2Version {
    V0x10,
    V0x13,
}

/// How a master key is derived with Argon2.
pub struct Argon2Params {
    pub variant: Argon2Variant,
    pub version: Argon2Version,
    /// Memory size in KiB blocks.
    pub m_cost: u32,
    /// Number of passes.
    pub t_cost: u32,
    /// Number of lanes.
    pub p_cost: u32,
    /// Length of the derived key in bytes.
    pub output_len: u32,
    pub salt: Vec<u8>,
}

/// The key-derivation record of a vault, tagged by algorithm.
pub enum KdfParams {
    Argon2(Argon2Params),
}

/// The key that Argon2 derives from these inputs.
pub uninterp spec fn argon2_output(
    password: Seq<u8>,
    salt: Seq<u8>,
    variant: Argon2Variant,
    version: Argon2Version,
    m_cost: u32,
    t_cost: u32,
    p_cost: u32,
    output_len: u32,
) -> Seq<u8>;

/// The inputs that argon2's `Params::new` and `hash_password_into` accept.
pub open spec fn argon2_accepts(
    m_cost: u32,
    t_cost: u32,
    p_cost: u32,
    output_len: u32,
    password_len: nat,
    salt_len: nat,
) -> bool {
    &&& m_cost >= 8
    &&& m_cost >= 8 * p_cost
    &&& t_cost >= 1
    &&& 1 <= p_cost <= 0xFFFFFF
    &&& output_len >= 4
    &&& password_len <= 0xFFFF_FFFF
    &&& 8 <= salt_len <= 0xFFFF_FFFF
}

/// Relies on argon2's `Params::new` and `Argon2::hash_password_into`: they
/// fail exactly on the inputs outside `argon2_accepts`, and otherwise fill
/// the output buffer with the derived key.
#[verifier::external_body]
fn argon2_hash(
    variant: Argon2Variant,
    version: Argon2Version,
    m_cost: u32,
    t_cost: u32,
    p_cost: u32,
    output_len: u32,
    password: &[u8],
    salt: &[u8],
) -> (r: Option<Vec<u8>>)
    requires
        p_cost <= MAX_P_COST,
    ensures
        r is Some <== argon2_accepts(m_cost, t_cost, p_cost, output_len, password@.len(), salt@.len()),
        r is Some ==> argon2_accepts(m_cost, t_cost, p_cost, output_len, password@.len(), salt@.len()),
        r matches Some(k) ==> k@.len() == output_len,
        r matches Some(k) ==> k@ == argon2_output(
            password@,
            salt@,
            variant,
            version,
            m_cost,
            t_cost,
            p_cost,
            output_len,
        ),
{
    let algorithm = match variant {
        Argon2Variant::Argon2d => argon2::Algorithm::Argon2d,
        Argon2Variant::Argon2i => argon2::Algorithm::Argon2i,
        Argon2Variant::Argon2id => argon2::Algorithm::Argon2id,
    };
    let version = match version {
        Argon2Version::V0x10 => argon2::Version::V0x10,
        Argon2Version::V0x13 => argon2::Version::V0x13,
    };
    let params = argon2::Params::new(m_cost, t_cost, p_cost, Some(output_len as usize)).ok()?;
    let mut out = vec![0u8; output_len as usize];
    argon2::Argon2::new(algorithm, version, params).hash_password_into(password, salt, &mut out).ok()?;
    Some(out)
}

/// Relies on rand's `OsRng` (the operating system's random source) through
/// `Rng::fill`: the buffer of `n` bytes is filled in place.
#[verifier::external_body]
pub(crate) fn random_bytes(n: usize) -> (r: Vec<u8>)
    ensures
        r@.len() == n,
{
    let mut out = vec![0u8; n];
    rand::Rng::fill(&mut rand::rngs::OsRng, &mut out[..]);
    out
}

impl Argon2Params {
    /// The parameters lie in the range this library supports.
    pub open spec fn valid(&self) -> bool {
        &&& self.salt@.len() == SALT_LEN
        &&& self.output_len == KEY_LEN
        &&& self.m_cost >= 8
        &&& self.t_cost >= 1
        &&& 1 <= self.p_cost <= MAX_P_COST
    }
}

impl KdfParams {
    /// `self` and `o` hold the same values.
    pub open spec fn same_as(&self, o: &KdfParams) -> bool {
        match (self, o) {
            (KdfParams::Argon2(a), KdfParams::Argon2(b)) => {
                &&& a.variant == b.variant
                &&& a.version == b.version
                &&& a.m_cost == b.m_cost
                &&& a.t_cost == b.t_cost
                &&& a.p_cost == b.p_cost
                &&& a.output_len == b.output_len
                &&& a.salt@ == b.salt@
            },
        }
    }

    /// A copy of the parameters.
    pub fn duplicate(&self) -> (r: KdfParams)
        ensures
            r.same_as(self),
            forall|p: Seq<u8>| #[trigger] r.key_for(p) == self.key_for(p),
    {
        match self {
            KdfParams::Argon2(a) => KdfParams::Argon2(
                Argon2Params {
                    variant: a.variant,
                    version: a.version,
                    m_cost: a.m_cost,
                    t_cost: a.t_cost,
                    p_cost: a.p_cost,
                    output_len: a.output_len,
                    salt: vstd::slice::slice_to_vec(a.salt.as_slice()),
                },
            ),
        }
    }

    pub open spec fn valid(&self) -> bool {
        match self {
            KdfParams::Argon2(a) => a.valid(),
        }
    }

    /// What `derive_key` returns for `password`.
    pub open spec fn key_for(&self, password: Seq<u8>) -> Result<Seq<u8>, VaultError> {
        match self {
            KdfParams::Argon2(a) => if !a.valid() {
                Err(VaultError::InvalidParameters)
            } else if a.m_cost > MAX_M_COST || !argon2_accepts(
                a.m_cost,
                a.t_cost,
                a.p_cost,
                a.output_len,
                password.len(),
                a.salt@.len(),
            ) {
                Err(VaultError::DerivationFailed)
            } else {
                Ok(
                    argon2_output(
                        password,
                        a.salt@,
                        a.variant,
                        a.version,
                        a.m_cost,
                        a.t_cost,
                        a.p_cost,
                        a.output_len,
                    ),
                )
            },
        }
    }

    /// Fresh parameters for a new vault, with the default costs.
    pub open spec fn is_fresh_default(&self) -> bool {
        match self {
            KdfParams::Argon2(a) => {
                &&& a.variant == Argon2Variant::Argon2id
                &&& a.version == Argon2Version::V0x13
                &&& a.m_cost == DEFAULT_M_COST
                &&& a.t_cost == DEFAULT_T_COST
                &&& a.p_cost == DEFAULT_P_COST
                &&& a.output_len == KEY_LEN
                &&& a.salt@.len() == SALT_LEN
            },
        }
    }

    /// Argon2id parameters with the default costs, around `salt`.
    pub fn with_salt(salt: Vec<u8>) -> (r: KdfParams)
        requires
            salt@.len() == SALT_LEN,
        ensures
            r.is_fresh_default(),
            r.valid(),
            r matches KdfParams::Argon2(a) && a.salt@ == salt@,
    {
        KdfParams::Argon2(
            Argon2Params {
                variant: Argon2Variant::Argon2id,
                version: Argon2Version::V0x13,
                m_cost: DEFAULT_M_COST,
                t_cost: DEFAULT_T_COST,
                p_cost: DEFAULT_P_COST,
                output_len: KEY_LEN as u32,
                salt,
            },
        )
    }

    /// Fresh parameters for a new vault: default costs and a salt drawn from
    /// the operating system's random source.
    pub fn generate() -> (r: KdfParams)
        ensures
            r.is_fresh_default(),
            r.valid(),
    {
        KdfParams::with_salt(random_bytes(SALT_LEN))
    }

    /// Reports whether the parameters lie in the supported range.
    pub fn validate(&self) -> (r: Result<(), VaultError>)
        ensures
            r is Ok <==> self.valid(),
            r matches Err(e) ==> e == VaultError::InvalidParameters,
    {
        match self {
            KdfParams::Argon2(a) => {
                if a.salt.len() == SALT_LEN && a.output_len as usize == KEY_LEN && a.m_cost >= 8
                    && a.t_cost >= 1 && a.p_cost >= 1 && a.p_cost <= MAX_P_COST {
                    Ok(())
                } else {
                    Err(VaultError::InvalidParameters)
                }
            },
        }
    }

    /// Derives the master key from `password`. The result depends on the
    /// parameters and the password alone. Parameters out of the supported
    /// range give `InvalidParameters`; a memory cost above `MAX_M_COST`, or
    /// input that argon2 rejects, gives `DerivationFailed`.
    pub fn derive_key(&self, password: &str) -> (r: Result<Vec<u8>, VaultError>)
        ensures
            r matches Ok(k) ==> k@.len() == KEY_LEN,
            r matches Ok(k) ==> self.key_for(password.spec_bytes()) == Ok::<Seq<u8>, VaultError>(k@),
            r matches Err(e) ==> self.key_for(password.spec_bytes()) == Err::<Seq<u8>, VaultError>(e),
    {
        self.validate()?;
        match self {
            KdfParams::Argon2(a) => {
                if a.m_cost > MAX_M_COST {
                    return Err(VaultError::DerivationFailed);
                }
                let pw = password.as_bytes();
                match argon2_hash(
                    a.variant,
                    a.version,
                    a.m_cost,
                    a.t_cost,
                    a.p_cost,
                    a.output_len,
                    pw,
                    a.salt.as_slice(),
                ) {
                    Some(k) => Ok(k),
                    None => Err(VaultError::DerivationFailed),
                }
            },
        }
    }
}

/// Deriving a key is deterministic: two derivations from the same parameters
/// and the same password give the same outcome.
pub proof fn lemma_derive_key_deterministic(
    p: KdfParams,
    password: Seq<u8>,
    r1: Result<Seq<u8>, VaultError>,
    r2: Result<Seq<u8>, VaultError>,
)
    requires
        r1 == p.key_for(password),
        r2 == p.key_for(password),
    ensures
        r1 == r2,
{
}

} // verus!
