//! Proof construction and verification: the combined work hash over the
//! operation hashes, and the coarse leading-zeros acceptance rule.

use vstd::prelude::*;
use crate::errors::DemleError;
use crate::hashing::{sha3_hex, sha3_hex_of};
use crate::text::{dec_str, join_comma, u64_to_string, join_with_comma};

verus! {

/// Proof of work for a completed computation: the authoritative object
/// checked against the difficulty.
#[derive(Debug)]
pub struct Proof {
    pub nonce: u64,
    /// Hex digest of the combined text below.
    pub work_hash: String,
    /// Hex digests of the operation outputs, in declaration order.
    pub operation_hashes: Vec<String>,
    pub total_flops: u64,
    pub timestamp: u64,
}

/// The text whose digest is the work hash:
/// nonce ":" comma-joined operation hashes ":" total flops.
pub open spec fn proof_text(nonce: u64, hashes: Seq<Seq<char>>, total_flops: u64) -> Seq<char> {
    dec_str(nonce as int) + seq![':'] + join_comma(hashes) + seq![':'] + dec_str(
        total_flops as int,
    )
}

/// Count of leading '0' characters of a text.
pub open spec fn leading_zeros(s: Seq<char>) -> int
    decreases s.len(),
{
    if s.len() == 0 || s[0] != '0' {
        0
    } else {
        1 + leading_zeros(s.drop_first())
    }
}

/// The number of decimal digits of n beyond the first; the order of
/// magnitude of a difficulty.
pub open spec fn floor_log10(n: int) -> int
    decreases n,
{
    if n < 10 {
        0
    } else {
        1 + floor_log10(n / 10)
    }
}

/// A counted prefix of zeros followed by a non-zero (or the end) pins the
/// leading-zeros count.
proof fn lemma_leading_zeros_from_prefix(s: Seq<char>, i: int)
    requires
        0 <= i <= s.len(),
        forall|t: int| 0 <= t < i ==> s[t] == '0',
        i < s.len() ==> s[i] != '0',
    ensures
        leading_zeros(s) == i,
    decreases i,
{
    if i == 0 {
    } else {
        lemma_leading_zeros_from_prefix(s.drop_first(), i - 1);
    }
}

/// Count the leading '0' characters of a string.
pub fn count_leading_zeros(s: &String) -> (r: usize)
    ensures
        r == leading_zeros(s@),
{
    let text = s.as_str();
    let len = text.unicode_len();
    let mut i: usize = 0;
    while i < len
        invariant
            0 <= i <= len,
            len == s@.len(),
            text@ == s@,
            forall|t: int| 0 <= t < i ==> s@[t] == '0',
        decreases len - i,
    {
        let c = text.get_char(i);
        if c != '0' {
            proof {
                lemma_leading_zeros_from_prefix(s@, i as int);
            }
            return i;
        }
        i = i + 1;
    }
    proof {
        lemma_leading_zeros_from_prefix(s@, len as int);
    }
    len
}

/// Powers of ten.
pub open spec fn pow10(k: nat) -> int
    decreases k,
{
    if k == 0 {
        1
    } else {
        10 * pow10((k - 1) as nat)
    }
}

/// The magnitude of a value below the k-th power of ten is below k.
proof fn lemma_floor_log10_below(n: int, k: nat)
    requires
        k >= 1,
        0 <= n < pow10(k),
    ensures
        floor_log10(n) < k,
    decreases k,
{
    if n >= 10 {
        assert(pow10(k) == 10 * pow10((k - 1) as nat));
        crate::arith::lemma_div_below(n, 10, pow10((k - 1) as nat));
        lemma_floor_log10_below(n / 10, (k - 1) as nat);
    }
}

/// The magnitude is never negative.
proof fn lemma_floor_log10_nonneg(n: int)
    requires
        0 <= n,
    ensures
        floor_log10(n) >= 0,
    decreases n,
{
    if n >= 10 {
        lemma_floor_log10_nonneg(n / 10);
    }
}

/// The order of magnitude of a difficulty: its decimal digit count less
/// one, and zero for values below ten.
pub fn required_zeros(difficulty: u64) -> (r: usize)
    ensures
        r == floor_log10(difficulty as int),
{
    proof {
        reveal_with_fuel(pow10, 25);
        assert(pow10(20) == 100000000000000000000);
        lemma_floor_log10_below(difficulty as int, 20);
    }
    let mut n: u64 = difficulty;
    let mut r: usize = 0;
    while n >= 10
        invariant
            r + floor_log10(n as int) == floor_log10(difficulty as int),
            floor_log10(difficulty as int) <= 19,
            n <= difficulty,
            r <= 19,
        decreases n,
    {
        n = n / 10;
        r = r + 1;
        proof {
            lemma_floor_log10_nonneg(n as int);
        }
    }
    r
}

impl Proof {
    /// Build a proof: the work hash is the digest of the nonce, the
    /// operation hashes in order, and the total operation count, joined
    /// exactly as `proof_text` states.
    pub fn new(nonce: u64, operation_hashes: Vec<String>, total_flops: u64, timestamp: u64) -> (p:
        Self)
        ensures
            p.nonce == nonce,
            p.operation_hashes == operation_hashes,
            p.total_flops == total_flops,
            p.timestamp == timestamp,
            p.work_hash@ == sha3_hex_of(
                vstd::utf8::encode_utf8(
                    proof_text(nonce, operation_hashes.deep_view(), total_flops),
                ),
            ),
            p.work_hash@.len() == 64,
    {
        let mut text = u64_to_string(nonce);
        let joined = join_with_comma(&operation_hashes);
        text.append(":");
        text.append(joined.as_str());
        text.append(":");
        let flops_text = u64_to_string(total_flops);
        text.append(flops_text.as_str());
        proof {
            reveal_strlit(":");
            assert(":"@ =~= seq![':']);
            assert(text@ =~= proof_text(nonce, operation_hashes.deep_view(), total_flops));
        }
        let work_hash = sha3_hex(text.as_str().as_bytes());
        Proof { nonce, work_hash, operation_hashes, total_flops, timestamp }
    }

    /// Check this proof against a difficulty: accepted exactly when the
    /// count of leading '0' characters of the work hash reaches the
    /// difficulty's order of magnitude. The check is deliberately coarse:
    /// difficulty changes within one decade do not change the required
    /// count. Never fails.
    pub fn verify(&self, difficulty: u64) -> (r: Result<bool, DemleError>)
        ensures
            r is Ok,
            r->Ok_0 == (leading_zeros(self.work_hash@) >= floor_log10(difficulty as int)),
    {
        let lz = count_leading_zeros(&self.work_hash);
        let req = required_zeros(difficulty);
        Ok(lz >= req)
    }

    /// Hex content hash of raw output bytes.
    pub fn hash_operation_result(data: &[u8]) -> (r: String)
        ensures
            r@ == sha3_hex_of(data@),
            r@.len() == 64,
    {
        sha3_hex(data)
    }
}

/// Acceptance is coarse: two work hashes with the same count of leading
/// '0' characters receive the same verdict at every difficulty, whatever
/// their remaining characters; `Proof::verify` accepts exactly by that
/// count.
pub proof fn lemma_acceptance_coarseness(h1: Seq<char>, h2: Seq<char>, difficulty: u64)
    requires
        leading_zeros(h1) == leading_zeros(h2),
    ensures
        (leading_zeros(h1) >= floor_log10(difficulty as int)) == (leading_zeros(h2)
            >= floor_log10(difficulty as int)),
{
}

} // verus!
