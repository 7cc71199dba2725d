//! The canonical byte layout of a credential set.
//!
//! An integer is eight bytes, least significant first. A string is its UTF-8
//! length as such an integer, then its UTF-8 bytes. A credential is its five
//! strings (website, email, username, password, notes), and a credential set
//! is the number of credentials followed by each of them in order.
use crate::credentials::{unique_keys, Credential, CredentialModel, Credentials};
use crate::error::VaultError;
use vstd::prelude::*;
use vstd::slice::{slice_subrange, slice_to_vec};
use vstd::utf8::{
    decode_utf8,
    decode_utf8_encode_utf8,
    encode_utf8,
    encode_utf8_decode_utf8,
    encode_utf8_valid_utf8,
    valid_utf8,
};

verus! {

/// The eight bytes of `n`, least significant first.
pub open spec fn le_bytes(n: u64) -> Seq<u8> {
    seq![
        (n & 0xff) as u8,
        ((n >> 8) & 0xff) as u8,
        ((n >> 16) & 0xff) as u8,
        ((n >> 24) & 0xff) as u8,
        ((n >> 32) & 0xff) as u8,
        ((n >> 40) & 0xff) as u8,
        ((n >> 48) & 0xff) as u8,
        ((n >> 56) & 0xff) as u8,
    ]
}

/// The integer whose bytes, least significant first, are the first eight of `s`.
pub open spec fn le_value(s: Seq<u8>) -> u64 {
    (s[0] as u64) | ((s[1] as u64) << 8) | ((s[2] as u64) << 16) | ((s[3] as u64) << 24) | ((
    s[4] as u64) << 32) | ((s[5] as u64) << 40) | ((s[6] as u64) << 48) | ((s[7] as u64) << 56)
}

/// A byte string: its length, then its bytes.
pub open spec fn bytes_field(x: Seq<u8>) -> Seq<u8> {
    le_bytes(x.len() as u64) + x
}

/// A string: its UTF-8 bytes as a byte string.
#[verifier::opaque]
pub open spec fn string_bytes(s: Seq<char>) -> Seq<u8> {
    bytes_field(encode_utf8(s))
}

#[verifier::opaque]
pub open spec fn credential_bytes(c: CredentialModel) -> Seq<u8> {
    string_bytes(c.website) + string_bytes(c.email) + string_bytes(c.username) + string_bytes(
        c.password,
    ) + string_bytes(c.notes)
}

/// The credentials of `s`, one after the other.
pub open spec fn records_bytes(s: Seq<CredentialModel>) -> Seq<u8>
    decreases s.len(),
{
    if s.len() == 0 {
        Seq::empty()
    } else {
        records_bytes(s.drop_last()) + credential_bytes(s.last())
    }
}

/// The canonical layout of the credential sequence `s`.
pub open spec fn credentials_bytes(s: Seq<CredentialModel>) -> Seq<u8> {
    le_bytes(s.len() as u64) + records_bytes(s)
}

pub proof fn lemma_le_value_of_bytes(n: u64)
    ensures
        le_value(le_bytes(n)) == n,
{
    lemma_bytes_bounded(n);
    lemma_bytes_recompose(n);
}

proof fn lemma_bytes_bounded(n: u64)
    ensures
        (n & 0xff) < 256,
        ((n >> 8) & 0xff) < 256,
        ((n >> 16) & 0xff) < 256,
        ((n >> 24) & 0xff) < 256,
        ((n >> 32) & 0xff) < 256,
        ((n >> 40) & 0xff) < 256,
        ((n >> 48) & 0xff) < 256,
        ((n >> 56) & 0xff) < 256,
{
    assert(((n & 0xff) < 256)) by (bit_vector);
    assert((((n >> 8) & 0xff) < 256)) by (bit_vector);
    assert((((n >> 16) & 0xff) < 256)) by (bit_vector);
    assert((((n >> 24) & 0xff) < 256)) by (bit_vector);
    assert((((n >> 32) & 0xff) < 256)) by (bit_vector);
    assert((((n >> 40) & 0xff) < 256)) by (bit_vector);
    assert((((n >> 48) & 0xff) < 256)) by (bit_vector);
    assert((((n >> 56) & 0xff) < 256)) by (bit_vector);
}

proof fn lemma_bytes_recompose(n: u64)
    ensures
        (n & 0xff) | (((n >> 8) & 0xff) << 8) | (((n >> 16) & 0xff) << 16) | (((n >> 24) & 0xff)
            << 24) | (((n >> 32) & 0xff) << 32) | (((n >> 40) & 0xff) << 40) | (((n >> 48) & 0xff)
            << 48) | (((n >> 56) & 0xff) << 56) == n,
{
    assert(((n & 0xff) | (((n >> 8) & 0xff) << 8) | (((n >> 16) & 0xff) << 16) | (((n >> 24) & 0xff) << 24) | (((n >> 32) & 0xff) << 32) | (((n >> 40) & 0xff) << 40) | (((n >> 48) & 0xff) << 48) | (((n >> 56) & 0xff) << 56) == n)) by (bit_vector);
}

proof fn lemma_value_split(b0: u64, b1: u64, b2: u64, b3: u64, b4: u64, b5: u64, b6: u64, b7: u64)
    requires
        b0 < 256,
        b1 < 256,
        b2 < 256,
        b3 < 256,
        b4 < 256,
        b5 < 256,
        b6 < 256,
        b7 < 256,
    ensures
        ((b0 | (b1 << 8) | (b2 << 16) | (b3 << 24) | (b4 << 32) | (b5 << 40) | (b6 << 48) | (b7
            << 56)) & 0xff) == b0,
        (((b0 | (b1 << 8) | (b2 << 16) | (b3 << 24) | (b4 << 32) | (b5 << 40) | (b6 << 48) | (b7
            << 56)) >> 8) & 0xff) == b1,
        (((b0 | (b1 << 8) | (b2 << 16) | (b3 << 24) | (b4 << 32) | (b5 << 40) | (b6 << 48) | (b7
            << 56)) >> 16) & 0xff) == b2,
        (((b0 | (b1 << 8) | (b2 << 16) | (b3 << 24) | (b4 << 32) | (b5 << 40) | (b6 << 48) | (b7
            << 56)) >> 24) & 0xff) == b3,
        (((b0 | (b1 << 8) | (b2 << 16) | (b3 << 24) | (b4 << 32) | (b5 << 40) | (b6 << 48) | (b7
            << 56)) >> 32) & 0xff) == b4,
        (((b0 | (b1 << 8) | (b2 << 16) | (b3 << 24) | (b4 << 32) | (b5 << 40) | (b6 << 48) | (b7
            << 56)) >> 40) & 0xff) == b5,
        (((b0 | (b1 << 8) | (b2 << 16) | (b3 << 24) | (b4 << 32) | (b5 << 40) | (b6 << 48) | (b7
            << 56)) >> 48) & 0xff) == b6,
        (((b0 | (b1 << 8) | (b2 << 16) | (b3 << 24) | (b4 << 32) | (b5 << 40) | (b6 << 48) | (b7
            << 56)) >> 56) & 0xff) == b7,
{
    assert((b0 < 256 && b1 < 256 && b2 < 256 && b3 < 256 && b4 < 256 && b5 < 256 && b6 < 256 && b7 < 256) ==> (((b0 | (b1 << 8) | (b2 << 16) | (b3 << 24) | (b4 << 32) | (b5 << 40) | (b6 << 48) | (b7 << 56)) & 0xff) == b0)) by (bit_vector);
    assert((b0 < 256 && b1 < 256 && b2 < 256 && b3 < 256 && b4 < 256 && b5 < 256 && b6 < 256 && b7 < 256) ==> ((((b0 | (b1 << 8) | (b2 << 16) | (b3 << 24) | (b4 << 32) | (b5 << 40) | (b6 << 48) | (b7 << 56)) >> 8) & 0xff) == b1)) by (bit_vector);
    assert((b0 < 256 && b1 < 256 && b2 < 256 && b3 < 256 && b4 < 256 && b5 < 256 && b6 < 256 && b7 < 256) ==> ((((b0 | (b1 << 8) | (b2 << 16) | (b3 << 24) | (b4 << 32) | (b5 << 40) | (b6 << 48) | (b7 << 56)) >> 16) & 0xff) == b2)) by (bit_vector);
    assert((b0 < 256 && b1 < 256 && b2 < 256 && b3 < 256 && b4 < 256 && b5 < 256 && b6 < 256 && b7 < 256) ==> ((((b0 | (b1 << 8) | (b2 << 16) | (b3 << 24) | (b4 << 32) | (b5 << 40) | (b6 << 48) | (b7 << 56)) >> 24) & 0xff) == b3)) by (bit_vector);
    assert((b0 < 256 && b1 < 256 && b2 < 256 && b3 < 256 && b4 < 256 && b5 < 256 && b6 < 256 && b7 < 256) ==> ((((b0 | (b1 << 8) | (b2 << 16) | (b3 << 24) | (b4 << 32) | (b5 << 40) | (b6 << 48) | (b7 << 56)) >> 32) & 0xff) == b4)) by (bit_vector);
    assert((b0 < 256 && b1 < 256 && b2 < 256 && b3 < 256 && b4 < 256 && b5 < 256 && b6 < 256 && b7 < 256) ==> ((((b0 | (b1 << 8) | (b2 << 16) | (b3 << 24) | (b4 << 32) | (b5 << 40) | (b6 << 48) | (b7 << 56)) >> 40) & 0xff) == b5)) by (bit_vector);
    assert((b0 < 256 && b1 < 256 && b2 < 256 && b3 < 256 && b4 < 256 && b5 < 256 && b6 < 256 && b7 < 256) ==> ((((b0 | (b1 << 8) | (b2 << 16) | (b3 << 24) | (b4 << 32) | (b5 << 40) | (b6 << 48) | (b7 << 56)) >> 48) & 0xff) == b6)) by (bit_vector);
    assert((b0 < 256 && b1 < 256 && b2 < 256 && b3 < 256 && b4 < 256 && b5 < 256 && b6 < 256 && b7 < 256) ==> ((((b0 | (b1 << 8) | (b2 << 16) | (b3 << 24) | (b4 << 32) | (b5 << 40) | (b6 << 48) | (b7 << 56)) >> 56) & 0xff) == b7)) by (bit_vector);
}

pub proof fn lemma_le_bytes_of_value(s: Seq<u8>)
    requires
        s.len() == 8,
    ensures
        le_bytes(le_value(s)) == s,
{
    lemma_value_split(
        s[0] as u64,
        s[1] as u64,
        s[2] as u64,
        s[3] as u64,
        s[4] as u64,
        s[5] as u64,
        s[6] as u64,
        s[7] as u64,
    );
    assert(le_bytes(le_value(s)) =~= s);
}

/// Appends the eight bytes of `n`.
pub(crate) fn push_u64(out: &mut Vec<u8>, n: u64)
    ensures
        final(out)@ == old(out)@ + le_bytes(n),
{
    out.push((n & 0xff) as u8);
    out.push(((n >> 8) & 0xff) as u8);
    out.push(((n >> 16) & 0xff) as u8);
    out.push(((n >> 24) & 0xff) as u8);
    out.push(((n >> 32) & 0xff) as u8);
    out.push(((n >> 40) & 0xff) as u8);
    out.push(((n >> 48) & 0xff) as u8);
    out.push(((n >> 56) & 0xff) as u8);
    assert(final(out)@ =~= old(out)@ + le_bytes(n));
}

/// The integer stored in the eight bytes at `pos`.
pub(crate) fn read_u64(b: &Vec<u8>, pos: usize) -> (r: u64)
    requires
        pos + 8 <= b@.len(),
    ensures
        r == le_value(b@.subrange(pos as int, pos + 8)),
{
    let _len = b.len();
    (b[pos] as u64) | ((b[pos + 1] as u64) << 8) | ((b[pos + 2] as u64) << 16) | ((b[pos
        + 3] as u64) << 24) | ((b[pos + 4] as u64) << 32) | ((b[pos + 5] as u64) << 40) | ((b[pos
        + 6] as u64) << 48) | ((b[pos + 7] as u64) << 56)
}

/// Relies on std's `String::from_utf8`: it succeeds exactly on well-formed
/// UTF-8, and the string then holds the characters that the bytes encode.
#[verifier::external_body]
fn string_from_utf8(bytes: Vec<u8>) -> (r: Option<String>)
    ensures
        r is Some <==> valid_utf8(bytes@),
        r matches Some(s) ==> s@ == decode_utf8(bytes@),
{
    String::from_utf8(bytes).ok()
}

pub(crate) fn push_bytes(out: &mut Vec<u8>, x: &Vec<u8>)
    ensures
        final(out)@ == old(out)@ + bytes_field(x@),
{
    push_u64(out, x.len() as u64);
    let mut copy = slice_to_vec(x.as_slice());
    out.append(&mut copy);
    assert(final(out)@ =~= old(out)@ + bytes_field(x@));
}

/// Reads the byte string whose layout starts at `pos`, and the position after it.
pub(crate) fn read_bytes(b: &Vec<u8>, pos: usize) -> (r: Option<(Vec<u8>, usize)>)
    requires
        pos <= b@.len(),
    ensures
        r matches Some((x, next)) ==> pos <= next <= b@.len() && b@.subrange(pos as int, next as int)
            == bytes_field(x@),
        forall|x: Seq<u8>|
            pos + (#[trigger] bytes_field(x)).len() <= b@.len() && b@.subrange(
                pos as int,
                pos + bytes_field(x).len(),
            ) == bytes_field(x) ==> (r matches Some((y, next)) && y@ == x && next == pos
                + bytes_field(x).len()),
{
    if b.len() - pos < 8 {
        return None;
    }
    let n = read_u64(b, pos);
    proof {
        assert forall|x: Seq<u8>|
            pos + (#[trigger] bytes_field(x)).len() <= b@.len() && b@.subrange(
                pos as int,
                pos + bytes_field(x).len(),
            ) == bytes_field(x) implies n == x.len() by {
            assert(b@.subrange(pos as int, pos + 8) =~= bytes_field(x).subrange(0, 8));
            assert(bytes_field(x).subrange(0, 8) =~= le_bytes(x.len() as u64));
            lemma_le_value_of_bytes(x.len() as u64);
        }
    }
    if n as u128 > (b.len() - pos - 8) as u128 {
        return None;
    }
    let end = pos + 8 + n as usize;
    let x = slice_to_vec(slice_subrange(b.as_slice(), pos + 8, end));
    proof {
        lemma_le_bytes_of_value(b@.subrange(pos as int, pos + 8));
        assert(b@.subrange(pos as int, end as int) =~= b@.subrange(pos as int, pos + 8) + x@);
        assert forall|y: Seq<u8>|
            pos + (#[trigger] bytes_field(y)).len() <= b@.len() && b@.subrange(
                pos as int,
                pos + bytes_field(y).len(),
            ) == bytes_field(y) implies x@ == y by {
            assert(y =~= bytes_field(y).subrange(8, 8 + y.len() as int));
            assert(x@ =~= b@.subrange(pos as int, pos + bytes_field(y).len()).subrange(
                8,
                8 + y.len() as int,
            ));
        }
    }
    Some((x, end))
}

/// Appends the layout of `s`.
fn push_string(out: &mut Vec<u8>, s: &String)
    ensures
        final(out)@ == old(out)@ + string_bytes(s@),
{
    reveal(string_bytes);
    let bytes = slice_to_vec(s.as_str().as_bytes());
    push_bytes(out, &bytes);
}

/// Reads the string whose layout starts at `pos`, and the position after it.
fn read_string(b: &Vec<u8>, pos: usize) -> (r: Option<(String, usize)>)
    requires
        pos <= b@.len(),
    ensures
        r matches Some((s, next)) ==> pos <= next <= b@.len() && b@.subrange(pos as int, next as int)
            == string_bytes(s@),
        forall|x: Seq<char>|
            pos + (#[trigger] string_bytes(x)).len() <= b@.len() && b@.subrange(
                pos as int,
                pos + string_bytes(x).len(),
            ) == string_bytes(x) ==> (r matches Some((s, next)) && s@ == x && next == pos
                + string_bytes(x).len()),
{
    reveal(string_bytes);
    let (bytes, next) = match read_bytes(b, pos) {
        Some(found) => found,
        None => return None,
    };
    let ghost v = bytes@;
    match string_from_utf8(bytes) {
        Some(s) => {
            proof {
                decode_utf8_encode_utf8(v);
                assert forall|x: Seq<char>|
                    pos + (#[trigger] string_bytes(x)).len() <= b@.len() && b@.subrange(
                        pos as int,
                        pos + string_bytes(x).len(),
                    ) == string_bytes(x) implies s@ == x by {
                    assert(bytes_field(encode_utf8(x)) == string_bytes(x));
                    encode_utf8_decode_utf8(x);
                }
            }
            Some((s, next))
        },
        None => {
            proof {
                assert forall|x: Seq<char>|
                    pos + (#[trigger] string_bytes(x)).len() <= b@.len() && b@.subrange(
                        pos as int,
                        pos + string_bytes(x).len(),
                    ) == string_bytes(x) implies false by {
                    assert(bytes_field(encode_utf8(x)) == string_bytes(x));
                    encode_utf8_valid_utf8(x);
                }
            }
            None
        },
    }
}

proof fn lemma_halves(b: Seq<u8>, pos: int, x: Seq<u8>, y: Seq<u8>)
    requires
        0 <= pos,
        pos + x.len() + y.len() <= b.len(),
        b.subrange(pos, pos + x.len() + y.len()) == x + y,
    ensures
        b.subrange(pos, pos + x.len()) == x,
        b.subrange(pos + x.len(), pos + x.len() + y.len()) == y,
{
    assert(b.subrange(pos, pos + x.len()) =~= (x + y).subrange(0, x.len() as int));
    assert((x + y).subrange(0, x.len() as int) =~= x);
    assert(b.subrange(pos + x.len(), pos + x.len() + y.len()) =~= (x + y).subrange(
        x.len() as int,
        (x.len() + y.len()) as int,
    ));
    assert((x + y).subrange(x.len() as int, (x.len() + y.len()) as int) =~= y);
}

/// Appends the layout of `c`.
fn push_credential(out: &mut Vec<u8>, c: &Credential)
    ensures
        final(out)@ == old(out)@ + credential_bytes(c@),
{
    push_string(out, &c.website);
    push_string(out, &c.email);
    push_string(out, &c.username);
    push_string(out, &c.password);
    push_string(out, &c.notes);
    reveal(credential_bytes);
    assert(final(out)@ =~= old(out)@ + credential_bytes(c@));
}

/// `b` holds the layout of `m` at `pos`.
pub open spec fn lays_out_at(b: Seq<u8>, pos: int, m: CredentialModel) -> bool {
    0 <= pos && pos + credential_bytes(m).len() <= b.len() && b.subrange(
        pos,
        pos + credential_bytes(m).len(),
    ) == credential_bytes(m)
}

proof fn lemma_credential_fields(b: Seq<u8>, pos: int, m: CredentialModel)
    requires
        lays_out_at(b, pos, m),
    ensures
        ({
            let end1 = pos + string_bytes(m.website).len();
            let end2 = end1 + string_bytes(m.email).len();
            let end3 = end2 + string_bytes(m.username).len();
            let end4 = end3 + string_bytes(m.password).len();
            let end5 = end4 + string_bytes(m.notes).len();
            &&& end5 == pos + credential_bytes(m).len()
            &&& b.subrange(pos, end1) == string_bytes(m.website)
            &&& b.subrange(end1, end2) == string_bytes(m.email)
            &&& b.subrange(end2, end3) == string_bytes(m.username)
            &&& b.subrange(end3, end4) == string_bytes(m.password)
            &&& b.subrange(end4, end5) == string_bytes(m.notes)
        }),
{
    reveal(credential_bytes);
    let f1 = string_bytes(m.website);
    let f2 = string_bytes(m.email);
    let f3 = string_bytes(m.username);
    let f4 = string_bytes(m.password);
    let f5 = string_bytes(m.notes);
    lemma_halves(b, pos, f1 + f2 + f3 + f4, f5);
    lemma_halves(b, pos, f1 + f2 + f3, f4);
    lemma_halves(b, pos, f1 + f2, f3);
    lemma_halves(b, pos, f1, f2);
}

/// Reads the credential whose layout starts at `pos`, and the position after it.
#[verifier::rlimit(100)]
#[verifier::spinoff_prover]
fn read_credential(b: &Vec<u8>, pos: usize) -> (r: Option<(Credential, usize)>)
    requires
        pos <= b@.len(),
    ensures
        r matches Some((c, next)) ==> pos <= next <= b@.len() && b@.subrange(pos as int, next as int)
            == credential_bytes(c@),
        forall|m: CredentialModel|
            #[trigger] lays_out_at(b@, pos as int, m) ==> (r matches Some((c, next)) && c@ == m
                && next == pos + credential_bytes(m).len()),
{
    let (website, end1) = match read_string(b, pos) {
        Some(x) => x,
        None => {
            proof {
                assert forall|m: CredentialModel| #[trigger]
                    lays_out_at(b@, pos as int, m) implies false by {
                    lemma_credential_fields(b@, pos as int, m);
                }
            }
            return None;
        },
    };
    let (email, end2) = match read_string(b, end1) {
        Some(x) => x,
        None => {
            proof {
                assert forall|m: CredentialModel| #[trigger]
                    lays_out_at(b@, pos as int, m) implies false by {
                    lemma_credential_fields(b@, pos as int, m);
                }
            }
            return None;
        },
    };
    let (username, end3) = match read_string(b, end2) {
        Some(x) => x,
        None => {
            proof {
                assert forall|m: CredentialModel| #[trigger]
                    lays_out_at(b@, pos as int, m) implies false by {
                    lemma_credential_fields(b@, pos as int, m);
                }
            }
            return None;
        },
    };
    let (password, end4) = match read_string(b, end3) {
        Some(x) => x,
        None => {
            proof {
                assert forall|m: CredentialModel| #[trigger]
                    lays_out_at(b@, pos as int, m) implies false by {
                    lemma_credential_fields(b@, pos as int, m);
                }
            }
            return None;
        },
    };
    let (notes, end5) = match read_string(b, end4) {
        Some(x) => x,
        None => {
            proof {
                assert forall|m: CredentialModel| #[trigger]
                    lays_out_at(b@, pos as int, m) implies false by {
                    lemma_credential_fields(b@, pos as int, m);
                }
            }
            return None;
        },
    };
    let c = Credential { website, email, username, password, notes };
    proof {
        let bb = b@;
        assert(bb.subrange(pos as int, end5 as int) =~= bb.subrange(pos as int, end1 as int)
            + bb.subrange(end1 as int, end2 as int) + bb.subrange(end2 as int, end3 as int) + bb.subrange(
            end3 as int,
            end4 as int,
        ) + bb.subrange(end4 as int, end5 as int));
        reveal(credential_bytes);
        assert(bb.subrange(pos as int, end5 as int) =~= credential_bytes(c@));
        assert forall|m: CredentialModel| #[trigger]
            lays_out_at(b@, pos as int, m) implies c@ == m && end5 == pos + credential_bytes(
            m,
        ).len() by {
            lemma_credential_fields(b@, pos as int, m);
        }
    }
    Some((c, end5))
}

proof fn lemma_records_len(s: Seq<CredentialModel>)
    ensures
        records_bytes(s).len() >= s.len(),
    decreases s.len(),
{
    if s.len() > 0 {
        lemma_records_len(s.drop_last());
        reveal(credential_bytes);
        reveal(string_bytes);
    }
}

/// Positions in `records_bytes(s)` of each record, in order.
proof fn lemma_records_prefix(s: Seq<CredentialModel>, j: int)
    requires
        0 <= j <= s.len(),
    ensures
        records_bytes(s.take(j)).len() <= records_bytes(s).len(),
        records_bytes(s).subrange(0, records_bytes(s.take(j)).len() as int) == records_bytes(
            s.take(j),
        ),
    decreases s.len(),
{
    if j == s.len() {
        assert(s.take(j) =~= s);
        assert(records_bytes(s).subrange(0, records_bytes(s).len() as int) =~= records_bytes(s));
    } else {
        let t = s.drop_last();
        lemma_records_prefix(t, j);
        assert(t.take(j) =~= s.take(j));
        let a = records_bytes(t);
        let full = records_bytes(s);
        assert(full == a + credential_bytes(s.last()));
        assert(full.subrange(0, records_bytes(s.take(j)).len() as int) =~= a.subrange(
            0,
            records_bytes(s.take(j)).len() as int,
        ));
    }
}

/// Lays out the credential set `c`.
pub fn encode_credentials(c: &Credentials) -> (r: Vec<u8>)
    ensures
        r@ == credentials_bytes(c@),
{
    let mut out: Vec<u8> = Vec::new();
    push_u64(&mut out, c.len() as u64);
    let mut i: usize = 0;
    while i < c.len()
        invariant
            i <= c@.len(),
            out@ == le_bytes(c@.len() as u64) + records_bytes(c@.take(i as int)),
        decreases c@.len() - i,
    {
        proof {
            assert(c@.take(i + 1).drop_last() =~= c@.take(i as int));
        }
        push_credential(&mut out, c.get(i));
        assert(out@ =~= le_bytes(c@.len() as u64) + records_bytes(c@.take(i + 1)));
        i = i + 1;
    }
    assert(c@.take(i as int) =~= c@);
    out
}

/// `b` is the layout of the credential sequence `s`, whose keys are unique.
pub open spec fn decodes_to(b: Seq<u8>, s: Seq<CredentialModel>) -> bool {
    unique_keys(s) && b == credentials_bytes(s)
}

/// Where `b` lays out `s`, the record at position `i` of `s` lies at the end
/// of the layout of the first `i` records.
proof fn lemma_record_at(b: Seq<u8>, s: Seq<CredentialModel>, i: int)
    requires
        decodes_to(b, s),
        0 <= i < s.len(),
    ensures
        lays_out_at(b, 8 + records_bytes(s.take(i)).len() as int, s[i]),
{
    let rb = records_bytes(s);
    assert(s.take(i + 1).drop_last() =~= s.take(i));
    assert(s.take(i + 1).last() == s[i]);
    lemma_records_prefix(s, i + 1);
    let pre = records_bytes(s.take(i + 1));
    assert(pre == records_bytes(s.take(i)) + credential_bytes(s[i]));
    assert(b.subrange(8, b.len() as int) =~= rb);
    assert(b.subrange(8, 8 + pre.len() as int) =~= rb.subrange(0, pre.len() as int));
    lemma_halves(b, 8, records_bytes(s.take(i)), credential_bytes(s[i]));
}

/// Reads a credential set from its layout. Fails with `SerializationError`
/// exactly where `b` lays out no credential sequence with unique keys.
#[verifier::rlimit(40)]
pub fn decode_credentials(b: &Vec<u8>) -> (r: Result<Credentials, VaultError>)
    ensures
        r is Ok <==> exists|s: Seq<CredentialModel>| decodes_to(b@, s),
        r matches Ok(c) ==> c.wf() && decodes_to(b@, c@),
        forall|s: Seq<CredentialModel>| #[trigger]
            decodes_to(b@, s) ==> (r matches Ok(c) && c@ == s),
        r matches Err(e) ==> e == VaultError::SerializationError,
{
    if b.len() < 8 {
        return Err(VaultError::SerializationError);
    }
    let count = read_u64(b, 0);
    proof {
        assert forall|s: Seq<CredentialModel>| #[trigger] decodes_to(b@, s) implies s.len()
            == count && s.take(0) == Seq::<CredentialModel>::empty() by {
            lemma_records_len(s);
            assert(s.take(0) =~= Seq::<CredentialModel>::empty());
            assert(b@.subrange(0, 8) =~= le_bytes(s.len() as u64));
            lemma_le_value_of_bytes(s.len() as u64);
        }
    }
    let mut result = Credentials::new();
    let mut pos: usize = 8;
    let mut i: u64 = 0;
    while i < count
        invariant
            8 <= pos <= b@.len(),
            i <= count,
            count == le_value(b@.subrange(0, 8)),
            result.wf(),
            result@.len() == i,
            b@.subrange(8, pos as int) == records_bytes(result@),
            forall|s: Seq<CredentialModel>| #[trigger]
                decodes_to(b@, s) ==> s.len() == count && result@ == s.take(i as int),
        decreases count - i,
    {
        let ghost old_pos = pos;
        proof {
            assert forall|s: Seq<CredentialModel>| #[trigger] decodes_to(b@, s) implies lays_out_at(
                b@,
                pos as int,
                s[i as int],
            ) by {
                lemma_record_at(b@, s, i as int);
            }
        }
        let (c, next) = match read_credential(b, pos) {
            Some(x) => x,
            None => {
                proof {
                    assert forall|s: Seq<CredentialModel>| #[trigger] decodes_to(b@, s) implies false by {
                        assert(lays_out_at(b@, pos as int, s[i as int]));
                    }
                }
                return Err(VaultError::SerializationError);
            },
        };
        if result.get_credential(&c.website, &c.email).is_some() {
            proof {
                assert forall|s: Seq<CredentialModel>| #[trigger] decodes_to(b@, s) implies false by {
                    assert(lays_out_at(b@, pos as int, s[i as int]));
                    let k = crate::credentials::key_index(result@, c.website@, c.email@);
                    assert(s[k] == result@[k]);
                    assert(!crate::credentials::has_identity(
                        s[k],
                        s[i as int].website,
                        s[i as int].email,
                    ));
                }
            }
            return Err(VaultError::SerializationError);
        }
        let ghost before = result@;
        result.add_or_update_credential(c);
        proof {
            assert(result@ == before.push(c@));
            assert(b@.subrange(8, next as int) =~= b@.subrange(8, old_pos as int) + b@.subrange(
                old_pos as int,
                next as int,
            ));
            assert(result@.drop_last() =~= before);
            assert forall|s: Seq<CredentialModel>| #[trigger] decodes_to(b@, s) implies result@
                == s.take(i + 1) by {
                assert(lays_out_at(b@, old_pos as int, s[i as int]));
                assert(result@ =~= s.take(i + 1));
            }
        }
        pos = next;
        i = i + 1;
    }
    if pos != b.len() {
        proof {
            assert forall|s: Seq<CredentialModel>| #[trigger] decodes_to(b@, s) implies false by {
                assert(s.take(i as int) =~= s);
            }
        }
        return Err(VaultError::SerializationError);
    }
    proof {
        lemma_le_bytes_of_value(b@.subrange(0, 8));
        assert(b@ =~= b@.subrange(0, 8) + b@.subrange(8, pos as int));
        assert(decodes_to(b@, result@));
        assert forall|s: Seq<CredentialModel>| #[trigger] decodes_to(b@, s) implies result@ == s by {
            assert(s.take(i as int) =~= s);
        }
    }
    Ok(result)
}

} // verus!
