//! The guest program that hashes its input with SHA-256 a given number of
//! times, each round hashing the digest of the round before.
use risc0_zkvm::sha::Impl;
use risc0_zkvm::sha::Sha256;
use vstd::prelude::*;

verus! {

/// The 32 bytes of the SHA-256 digest of `data`, as computed by
/// `risc0_zkvm::sha::Impl::hash_bytes`.
pub uninterp spec fn sha256_bytes(data: Seq<u8>) -> Seq<u8>;

/// Hashes `data` with `risc0_zkvm::sha::Impl::hash_bytes` and returns the
/// digest's bytes (`Digest::as_bytes`). The contract claims that the result is
/// a function of the bytes of `data` alone, and that a digest has 32 bytes
/// (a `Digest` holds eight `u32` words).
#[verifier::external_body]
fn hash_bytes(data: &[u8]) -> (digest: Vec<u8>)
    ensures
        digest@ == sha256_bytes(data@),
        digest@.len() == 32,
{
    Impl::hash_bytes(data).as_bytes().to_vec()
}

/// `data` hashed `rounds` times, each round hashing the previous digest.
pub open spec fn hash_chain(data: Seq<u8>, rounds: nat) -> Seq<u8>
    decreases rounds,
{
    if rounds == 0 {
        data
    } else {
        sha256_bytes(hash_chain(data, (rounds - 1) as nat))
    }
}

/// How many times the guest hashes for an iteration count: once for the
/// input, then once more for each further iteration, so never less than once.
pub open spec fn hash_rounds(num_iter: u32) -> nat {
    if num_iter <= 1 {
        1
    } else {
        num_iter as nat
    }
}

/// Hashes `data` once, then rehashes the digest for each iteration after the
/// first: the result is `data` hashed `max(num_iter, 1)` times.
pub fn iterated_sha256(num_iter: u32, data: &[u8]) -> (digest: Vec<u8>)
    ensures
        digest@ == hash_chain(data@, hash_rounds(num_iter)),
        num_iter <= 1 ==> digest@ == sha256_bytes(data@),
        num_iter >= 1 ==> digest@ == hash_chain(data@, num_iter as nat),
        digest@.len() == 32,
{
    let mut hash = hash_bytes(data);
    let mut i: u32 = 1;
    assert(hash_chain(data@, 0) == data@);
    while i < num_iter
        invariant
            1 <= i,
            i <= num_iter || num_iter <= 1,
            num_iter <= 1 ==> i == 1,
            hash@ == hash_chain(data@, i as nat),
            hash@.len() == 32,
        decreases num_iter - i,
    {
        hash = hash_bytes(hash.as_slice());
        i = i + 1;
    }
    proof {
        reveal_with_fuel(hash_chain, 2);
    }
    hash
}

/// A chain of no rounds is the input itself, and each further round hashes
/// the digest of the rounds before it.
pub proof fn law_hash_chain_steps(data: Seq<u8>, rounds: nat)
    ensures
        hash_chain(data, 0) == data,
        hash_chain(data, rounds + 1) == sha256_bytes(hash_chain(data, rounds)),
{
}

/// The guest hashes once for zero or one iteration, and `num_iter` times
/// otherwise.
pub proof fn law_hash_rounds(num_iter: u32)
    ensures
        hash_rounds(num_iter) == (if num_iter == 0 { 1 } else { num_iter as int }),
        hash_rounds(num_iter) >= 1,
{
}

/// Hashing for zero iterations and for one iteration give the same digest:
/// the input is always hashed at least once.
pub proof fn law_zero_and_one_iteration_agree(data: Seq<u8>)
    ensures
        hash_chain(data, hash_rounds(0)) == hash_chain(data, hash_rounds(1)),
        hash_chain(data, hash_rounds(1)) == sha256_bytes(data),
{
    reveal_with_fuel(hash_chain, 2);
}

/// One more iteration hashes the previous result once more.
pub proof fn law_next_iteration(data: Seq<u8>, num_iter: u32)
    requires
        1 <= num_iter < u32::MAX,
    ensures
        hash_chain(data, hash_rounds((num_iter + 1) as u32)) == sha256_bytes(
            hash_chain(data, hash_rounds(num_iter)),
        ),
{
}

/// Chains compose: hashing the result of `a` rounds for `b` more rounds is
/// hashing the input for `a + b` rounds.
pub proof fn law_chain_composes(data: Seq<u8>, a: nat, b: nat)
    ensures
        hash_chain(hash_chain(data, a), b) == hash_chain(data, a + b),
    decreases b,
{
    if b > 0 {
        law_chain_composes(data, a, (b - 1) as nat);
    }
}

} // verus!
