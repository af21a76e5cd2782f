//! Proof-of-work challenges: hash difficulty, challenge data, and the
//! solution search step.
//!
//! A challenge asks for a byte postfix such that the SHA-256 digest of
//! `nonce ++ postfix` starts with at least `difficulty` zero bits.  The
//! difficulty count and the counter increment are verified here; the
//! digest itself comes from the `sha2` crate behind a named result.

use sha2::Digest;
use vstd::prelude::*;

verus! {

/// Difficulty demanded of freshly issued challenges.
pub const CHALLENGE_DIFFICULTY: u64 = 10;

/// Number of leading zero bits of a byte: how many high bits are clear
/// before the first set bit.
pub open spec fn byte_leading_zeros(b: u8) -> int {
    if b >= 128 {
        0
    } else if b >= 64 {
        1
    } else if b >= 32 {
        2
    } else if b >= 16 {
        3
    } else if b >= 8 {
        4
    } else if b >= 4 {
        5
    } else if b >= 2 {
        6
    } else if b >= 1 {
        7
    } else {
        8
    }
}

/// Number of leading zero bits of a byte string: eight per leading zero
/// byte, plus the leading zero bits of the first nonzero byte.
pub open spec fn leading_zero_bits(hash: Seq<u8>) -> int
    decreases hash.len(),
{
    if hash.len() == 0 {
        0
    } else if hash[0] == 0 {
        8 + leading_zero_bits(hash.drop_first())
    } else {
        byte_leading_zeros(hash[0])
    }
}

/// A prefix of zero bytes contributes eight bits each to the count.
proof fn lemma_leading_zero_bits_skip(hash: Seq<u8>, i: int)
    requires
        0 <= i <= hash.len(),
        forall|k: int| 0 <= k < i ==> hash[k] == 0,
    ensures
        leading_zero_bits(hash) == 8 * i + leading_zero_bits(hash.skip(i)),
    decreases i,
{
    if i == 0 {
        assert(hash.skip(0) =~= hash);
    } else {
        assert(hash.drop_first() =~= hash.skip(1));
        lemma_leading_zero_bits_skip(hash.skip(1), i - 1);
        assert(hash.skip(1).skip(i - 1) =~= hash.skip(i));
    }
}

/// Compute the difficulty of a proof-of-work hash: the number of leading
/// zero bits.
pub fn check_hash_difficulty(hash: &[u8]) -> (difficulty: u64)
    requires
        hash@.len() < 0x2000000000000000,
    ensures
        difficulty == leading_zero_bits(hash@),
{
    let n: usize = hash.len();
    let mut count: u64 = 0;
    let mut i: usize = 0;
    while i < n
        invariant
            n == hash@.len(),
            n < 0x2000000000000000,
            0 <= i <= n,
            count == 8 * i,
            forall|k: int| 0 <= k < i ==> hash@[k] == 0,
        decreases n - i,
    {
        let b: u8 = hash[i];
        if b == 0 {
            count = count + 8;
        } else {
            proof {
                lemma_leading_zero_bits_skip(hash@, i as int);
                assert(hash@.skip(i as int)[0] == hash@[i as int]);
            }
            let bits: u64 = if b >= 128 {
                0
            } else if b >= 64 {
                1
            } else if b >= 32 {
                2
            } else if b >= 16 {
                3
            } else if b >= 8 {
                4
            } else if b >= 4 {
                5
            } else if b >= 2 {
                6
            } else {
                7
            };
            return count + bits;
        }
        i = i + 1;
    }
    proof {
        lemma_leading_zero_bits_skip(hash@, n as int);
        assert(hash@.skip(n as int) =~= Seq::<u8>::empty());
    }
    count
}

/// The supported hash algorithms for proof of work.
#[derive(Clone, Copy, Debug, PartialEq, Eq, Structural)]
pub enum ProofOfWorkAlgorithm {
    Sha256,
}

/// A challenge issued to a client: find a postfix to `nonce` whose
/// digest reaches `difficulty` leading zero bits.
#[derive(Clone, Debug, PartialEq)]
pub struct ProofOfWorkChallenge {
    pub nonce: Vec<u8>,
    pub difficulty: u64,
    pub algorithm: ProofOfWorkAlgorithm,
}

/// A client's answer: the signed challenge it was given and the postfix
/// it found.
#[derive(Clone, Debug, PartialEq)]
pub struct ProofOfWorkAttempt {
    pub challenge_string: String,
    pub nonce_postfix: Vec<u8>,
}

/// Build a challenge over `nonce` with the standard difficulty.
pub fn make_challenge(nonce: Vec<u8>) -> (challenge: ProofOfWorkChallenge)
    ensures
        challenge.nonce == nonce,
        challenge.difficulty == CHALLENGE_DIFFICULTY,
        challenge.algorithm == ProofOfWorkAlgorithm::Sha256,
{
    ProofOfWorkChallenge {
        nonce,
        difficulty: CHALLENGE_DIFFICULTY,
        algorithm: ProofOfWorkAlgorithm::Sha256,
    }
}

/// Relies on `rand::random`: 32 bytes of thread-local randomness; only
/// the length is promised.
#[verifier::external_body]
fn random_nonce_bytes() -> (nonce: Vec<u8>)
    ensures
        nonce@.len() == 32,
{
    let bytes: [u8; 32] = rand::random();
    bytes.to_vec()
}

/// Issue a fresh challenge over a random 32-byte nonce.
pub fn fresh_challenge() -> (challenge: ProofOfWorkChallenge)
    ensures
        challenge.nonce@.len() == 32,
        challenge.difficulty == CHALLENGE_DIFFICULTY,
        challenge.algorithm == ProofOfWorkAlgorithm::Sha256,
{
    make_challenge(random_nonce_bytes())
}

/// The SHA-256 digest of a byte string; computed by the `sha2` crate and
/// depending on the input bytes alone.
pub uninterp spec fn sha256_of(data: Seq<u8>) -> Seq<u8>;

/// Relies on `sha2::Sha256::digest`: the one-shot SHA-256 digest, a
/// 32-byte function of the input bytes alone.
#[verifier::external_body]
fn sha256_digest(data: &Vec<u8>) -> (digest: Vec<u8>)
    ensures
        digest@ == sha256_of(data@),
        digest@.len() == 32,
{
    sha2::Sha256::digest(data.as_slice()).to_vec()
}

/// Concatenate two byte strings.
fn concat_bytes(a: &Vec<u8>, b: &Vec<u8>) -> (joined: Vec<u8>)
    ensures
        joined@ == a@ + b@,
{
    let mut joined: Vec<u8> = Vec::new();
    let mut i: usize = 0;
    let n: usize = a.len();
    while i < n
        invariant
            n == a@.len(),
            0 <= i <= n,
            joined@ == a@.take(i as int),
        decreases n - i,
    {
        proof {
            assert(a@.take(i + 1) =~= a@.take(i as int).push(a@[i as int]));
        }
        joined.push(a[i]);
        i = i + 1;
    }
    let m: usize = b.len();
    let mut j: usize = 0;
    proof {
        assert(a@.take(n as int) =~= a@);
    }
    while j < m
        invariant
            m == b@.len(),
            0 <= j <= m,
            joined@ == a@ + b@.take(j as int),
        decreases m - j,
    {
        proof {
            assert(a@ + b@.take(j + 1) =~= (a@ + b@.take(j as int)).push(b@[j as int]));
        }
        joined.push(b[j]);
        j = j + 1;
    }
    proof {
        assert(a@ + b@.take(m as int) =~= a@ + b@);
    }
    joined
}

/// The difficulty a solution attempt reaches: the leading zero bits of
/// the digest of the challenge nonce followed by the attempt's postfix.
pub fn pow_attempt_difficulty(nonce: &Vec<u8>, postfix: &Vec<u8>) -> (difficulty: u64)
    ensures
        difficulty == leading_zero_bits(sha256_of(nonce@ + postfix@)),
{
    let joined: Vec<u8> = concat_bytes(nonce, postfix);
    let digest: Vec<u8> = sha256_digest(&joined);
    check_hash_difficulty(digest.as_slice())
}

/// Whether `postfix` solves `challenge`: the attempt's difficulty reaches
/// the demanded one.
pub fn verify_pow_solution(challenge: &ProofOfWorkChallenge, postfix: &Vec<u8>) -> (solved: bool)
    ensures
        solved == (challenge.difficulty <= leading_zero_bits(
            sha256_of(challenge.nonce@ + postfix@),
        )),
{
    let solved_difficulty: u64 = pow_attempt_difficulty(&challenge.nonce, postfix);
    challenge.difficulty <= solved_difficulty
}

/// All-zero byte string of length `n`.
pub open spec fn zero_bytes(n: nat) -> Seq<u8> {
    Seq::new(n, |i: int| 0u8)
}

/// A counter's bytes after a big-endian increment: trailing 255s roll
/// over to zero and the byte before them goes up by one; a counter of
/// all 255s wraps around to all zeros.
pub open spec fn incremented(s: Seq<u8>) -> Seq<u8>
    decreases s.len(),
{
    if s.len() == 0 {
        s
    } else if s.last() == 255 {
        incremented(s.drop_last()).push(0)
    } else {
        s.update(s.len() - 1, (s.last() + 1) as u8)
    }
}

proof fn lemma_incremented_all_255(s: Seq<u8>)
    requires
        forall|k: int| 0 <= k < s.len() ==> s[k] == 255,
    ensures
        incremented(s) =~= zero_bytes(s.len()),
    decreases s.len(),
{
    if s.len() > 0 {
        lemma_incremented_all_255(s.drop_last());
    }
}

proof fn lemma_incremented_split(s: Seq<u8>, i: int)
    requires
        0 <= i < s.len(),
        s[i] != 255,
        forall|k: int| i < k < s.len() ==> s[k] == 255,
    ensures
        incremented(s) =~= s.take(i).push((s[i] + 1) as u8) + zero_bytes((s.len() - i - 1) as nat),
    decreases s.len(),
{
    if i == s.len() - 1 {
        assert(s.update(s.len() - 1, (s.last() + 1) as u8) =~= s.take(i).push((s[i] + 1) as u8)
            + zero_bytes(0));
    } else {
        assert(s.last() == 255);
        assert(s.drop_last()[i] == s[i]);
        lemma_incremented_split(s.drop_last(), i);
        assert(s.drop_last().take(i) =~= s.take(i));
        assert((s.take(i).push((s[i] + 1) as u8) + zero_bytes((s.len() - i - 2) as nat)).push(0)
            =~= s.take(i).push((s[i] + 1) as u8) + zero_bytes((s.len() - i - 1) as nat));
    }
}

/// Advance a big-endian counter by one in place, wrapping at the top.
pub fn increment_byte_slice(data: &mut Vec<u8>)
    ensures
        final(data)@ == incremented(old(data)@),
{
    let n: usize = data.len();
    let mut i: usize = n;
    while i > 0
        invariant
            n == old(data)@.len(),
            0 <= i <= n,
            data@.len() == n,
            forall|k: int| 0 <= k < i ==> data@[k] == old(data)@[k],
            forall|k: int| i <= k < n ==> old(data)@[k] == 255,
            forall|k: int| i <= k < n ==> data@[k] == 0,
        decreases i,
    {
        i = i - 1;
        if data[i] == 255 {
            data[i] = 0;
        } else {
            let b: u8 = data[i];
            data[i] = b + 1;
            proof {
                lemma_incremented_split(old(data)@, i as int);
                assert(data@ =~= old(data)@.take(i as int).push((old(data)@[i as int] + 1) as u8)
                    + zero_bytes((n - i - 1) as nat));
            }
            return ;
        }
    }
    proof {
        lemma_incremented_all_255(old(data)@);
        assert(data@ =~= zero_bytes(n as nat));
    }
}

} // verus!
