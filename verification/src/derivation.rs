//! Identifier derivation: the environmental inputs are encoded
//! canonically (stable field order, the variable-length entropy
//! length-prefixed, fixed-width integers little-endian) and hashed with
//! BLAKE2b-256 into a fresh 32-byte identifier.

use vstd::prelude::*;
use crate::record::{CallerIdentity, Identifier, ID_LENGTH};
use blake2::Digest;

verus! {

/// The 32-byte BLAKE2b digest of a byte string. The digest is named, not
/// defined: which bytes come out is fixed by the hash function alone.
pub uninterp spec fn blake2b_256_of(input: Seq<u8>) -> Seq<u8>;

/// Relies on `blake2::Blake2b256` (BLAKE2b with 32-byte output, unkeyed):
/// `Digest::digest` returns a 32-byte digest that depends on the input
/// bytes alone.
#[verifier::external_body]
fn blake2b_256(input: &[u8]) -> (r: Vec<u8>)
    ensures
        r@ == blake2b_256_of(input@),
        r@.len() == ID_LENGTH,
{
    blake2::Blake2b256::digest(input).to_vec()
}

/// The eight little-endian bytes of a 64-bit integer.
pub open spec fn spec_u64_le_bytes(x: u64) -> Seq<u8> {
    seq![
        (x & 0xff) as u8,
        ((x >> 8) & 0xff) as u8,
        ((x >> 16) & 0xff) as u8,
        ((x >> 24) & 0xff) as u8,
        ((x >> 32) & 0xff) as u8,
        ((x >> 40) & 0xff) as u8,
        ((x >> 48) & 0xff) as u8,
        ((x >> 56) & 0xff) as u8,
    ]
}

/// Appends the eight little-endian bytes of `x` to `out`.
fn push_u64_le(out: &mut Vec<u8>, x: u64)
    ensures
        final(out)@ == old(out)@ + spec_u64_le_bytes(x),
{
    out.push((x & 0xff) as u8);
    out.push(((x >> 8) & 0xff) as u8);
    out.push(((x >> 16) & 0xff) as u8);
    out.push(((x >> 24) & 0xff) as u8);
    out.push(((x >> 32) & 0xff) as u8);
    out.push(((x >> 40) & 0xff) as u8);
    out.push(((x >> 48) & 0xff) as u8);
    out.push(((x >> 56) & 0xff) as u8);
    proof {
        assert(out@ =~= old(out)@ + spec_u64_le_bytes(x));
    }
}

/// The canonical encoding of the derivation inputs: the entropy length,
/// the entropy bytes, then the caller, operation sequence and height,
/// each integer as eight little-endian bytes.
pub open spec fn spec_payload(
    entropy: Seq<u8>,
    caller: CallerIdentity,
    op_sequence: u64,
    height: u64,
) -> Seq<u8> {
    spec_u64_le_bytes(entropy.len() as u64) + entropy + spec_u64_le_bytes(caller)
        + spec_u64_le_bytes(op_sequence) + spec_u64_le_bytes(height)
}

/// Builds the canonical payload for one derivation.
fn encode_payload(
    entropy: &[u8],
    caller: CallerIdentity,
    op_sequence: u64,
    height: u64,
) -> (r: Vec<u8>)
    ensures
        r@ == spec_payload(entropy@, caller, op_sequence, height),
{
    let mut out: Vec<u8> = Vec::new();
    push_u64_le(&mut out, entropy.len() as u64);
    let mut i: usize = 0;
    while i < entropy.len()
        invariant
            i <= entropy@.len(),
            out@ == spec_u64_le_bytes(entropy@.len() as u64) + entropy@.take(i as int),
        decreases entropy@.len() - i,
    {
        out.push(entropy[i]);
        proof {
            assert(out@ =~= spec_u64_le_bytes(entropy@.len() as u64) + entropy@.take(
                i as int + 1,
            ));
        }
        i += 1;
    }
    proof {
        assert(entropy@.take(entropy@.len() as int) =~= entropy@);
    }
    push_u64_le(&mut out, caller);
    push_u64_le(&mut out, op_sequence);
    push_u64_le(&mut out, height);
    out
}

/// The identifier derived from the given environmental inputs: the
/// BLAKE2b-256 digest of their canonical encoding.
pub open spec fn spec_derive(
    entropy: Seq<u8>,
    caller: CallerIdentity,
    op_sequence: u64,
    height: u64,
) -> Seq<u8> {
    blake2b_256_of(spec_payload(entropy, caller, op_sequence, height))
}

/// Derives a candidate identifier from the environmental inputs. Pure
/// and deterministic given its inputs; always a 32-byte digest. The
/// environment must never repeat the same input tuple for two
/// registrations — that is the collision-avoidance mechanism.
pub fn derive_identifier(
    entropy: &[u8],
    caller: CallerIdentity,
    op_sequence: u64,
    height: u64,
) -> (r: Identifier)
    ensures
        r.wf(),
        r@ == spec_derive(entropy@, caller, op_sequence, height),
{
    let payload = encode_payload(entropy, caller, op_sequence, height);
    let digest = blake2b_256(payload.as_slice());
    Identifier::new(digest)
}

} // verus!
