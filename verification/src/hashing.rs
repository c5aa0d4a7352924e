//! The hash predicate: SHA-256 digests, their hexadecimal form, the
//! candidates that a search tries and the test that tells a solution.

use sha2::{Digest, Sha256};
use vstd::prelude::*;

verus! {

/// The SHA-256 digest of `input`.
///
/// Nothing is said of its value beyond what `sha256_digest` states: it is
/// the name under which contracts speak of what the `sha2` crate computes.
pub uninterp spec fn sha256(input: Seq<u8>) -> Seq<u8>;

/// Hashes `input` with `sha2::Sha256::digest`.
///
/// Trusted, not proved: the 32 bytes returned are the SHA-256 digest of
/// `input`, and depend on nothing but those bytes.
#[verifier::external_body]
fn sha256_digest(input: &[u8]) -> (digest: Vec<u8>)
    ensures
        digest@ == sha256(input@),
        digest@.len() == 32,
{
    Sha256::digest(input).to_vec()
}

/// The lower-case hexadecimal digit of a value below sixteen.
pub open spec fn hex_digit(nibble: int) -> char {
    if nibble < 10 {
        (48 + nibble) as char
    } else {
        (87 + nibble) as char
    }
}

/// The `k`-th half-byte of `bytes`, the high half of each byte first.
pub open spec fn nibble(bytes: Seq<u8>, k: int) -> int {
    if k % 2 == 0 {
        bytes[k / 2] as int / 16
    } else {
        bytes[k / 2] as int % 16
    }
}

/// Lower-case hexadecimal text of `bytes`: two digits for each byte.
pub open spec fn hex(bytes: Seq<u8>) -> Seq<char> {
    Seq::new(2 * bytes.len(), |k: int| hex_digit(nibble(bytes, k)))
}

/// One hexadecimal digit as text.
fn digit_text(value: u8) -> (text: &'static str)
    requires
        value < 16,
    ensures
        text@ == seq![hex_digit(value as int)],
{
    proof {
        reveal_strlit("0");
        reveal_strlit("1");
        reveal_strlit("2");
        reveal_strlit("3");
        reveal_strlit("4");
        reveal_strlit("5");
        reveal_strlit("6");
        reveal_strlit("7");
        reveal_strlit("8");
        reveal_strlit("9");
        reveal_strlit("a");
        reveal_strlit("b");
        reveal_strlit("c");
        reveal_strlit("d");
        reveal_strlit("e");
        reveal_strlit("f");
    }
    let text = match value {
        0 => "0",
        1 => "1",
        2 => "2",
        3 => "3",
        4 => "4",
        5 => "5",
        6 => "6",
        7 => "7",
        8 => "8",
        9 => "9",
        10 => "a",
        11 => "b",
        12 => "c",
        13 => "d",
        14 => "e",
        _ => "f",
    };
    text
}

/// Writes `bytes` in lower-case hexadecimal.
pub fn to_hex(bytes: &[u8]) -> (text: String)
    ensures
        text@ == hex(bytes@),
{
    let mut text = String::new();
    let mut i: usize = 0;
    while i < bytes.len()
        invariant
            i <= bytes.len(),
            text@.len() == 2 * i,
            forall|k: int| 0 <= k < 2 * i ==> text@[k] == hex_digit(nibble(bytes@, k)),
        decreases bytes.len() - i,
    {
        let byte: u8 = bytes[i];
        text.append(digit_text(byte / 16));
        text.append(digit_text(byte % 16));
        i += 1;
    }
    text
}

/// The SHA-256 digest of `input`: thirty-two bytes.
pub fn digest_of(input: &[u8]) -> (bytes: Vec<u8>)
    ensures
        bytes@ == sha256(input@),
        bytes@.len() == 32,
{
    sha256_digest(input)
}

/// The SHA-256 digest of `input` in lower-case hexadecimal.
pub fn compute_sha256(input: &[u8]) -> (text: String)
    ensures
        text@ == hex(sha256(input@)),
{
    let bytes = sha256_digest(input);
    to_hex(bytes.as_slice())
}

/// The decimal digits of `n` as ASCII bytes, without leading zeros.
pub open spec fn decimal(n: nat) -> Seq<u8>
    decreases n,
{
    if n < 10 {
        seq![(48 + n) as u8]
    } else {
        decimal(n / 10).push((48 + n % 10) as u8)
    }
}

/// What a search hashes for `nonce`: the payload, then the nonce in decimal.
pub open spec fn candidate(payload: Seq<u8>, nonce: nat) -> Seq<u8> {
    payload + decimal(nonce)
}

/// Appends the decimal digits of `n` to `bytes`.
pub fn push_decimal(bytes: &mut Vec<u8>, n: u64)
    ensures
        final(bytes)@ == old(bytes)@ + decimal(n as nat),
    decreases n,
{
    if n >= 10 {
        push_decimal(bytes, n / 10);
    }
    let digit: u8 = (n % 10) as u8;
    bytes.push(48 + digit);
}

/// The bytes that a search hashes for `nonce`.
pub fn candidate_bytes(payload: &[u8], nonce: u64) -> (bytes: Vec<u8>)
    ensures
        bytes@ == candidate(payload@, nonce as nat),
{
    let mut bytes: Vec<u8> = Vec::new();
    let mut i: usize = 0;
    while i < payload.len()
        invariant
            i <= payload.len(),
            bytes@ == payload@.take(i as int),
        decreases payload.len() - i,
    {
        bytes.push(payload[i]);
        i += 1;
    }
    push_decimal(&mut bytes, nonce);
    bytes
}

/// The difficulty predicate: the hexadecimal text of `digest` begins with
/// `difficulty` zeros. A digest shorter than that never meets it.
pub open spec fn meets_difficulty(digest: Seq<u8>, difficulty: nat) -> bool {
    &&& difficulty <= hex(digest).len()
    &&& forall|k: int| 0 <= k < difficulty ==> hex(digest)[k] == '0'
}

/// Whether hashing the payload with `nonce` gives a digest that meets
/// `difficulty`.
pub open spec fn solves(payload: Seq<u8>, difficulty: nat, nonce: nat) -> bool {
    meets_difficulty(sha256(candidate(payload, nonce)), difficulty)
}

/// Only the value zero is written as the digit `0`.
pub proof fn lemma_zero_digit(value: int)
    requires
        0 <= value < 16,
    ensures
        hex_digit(value) == '0' <==> value == 0,
{
}

/// Tests the difficulty predicate on a digest.
pub fn digest_meets(digest: &[u8], difficulty: u32) -> (met: bool)
    ensures
        met == meets_difficulty(digest@, difficulty as nat),
{
    if difficulty as u128 > 2 * (digest.len() as u128) {
        return false;
    }
    let mut k: u32 = 0;
    while k < difficulty
        invariant
            k <= difficulty,
            difficulty <= 2 * digest@.len(),
            forall|j: int| 0 <= j < k ==> hex(digest@)[j] == '0',
        decreases difficulty - k,
    {
        let byte: u8 = digest[(k / 2) as usize];
        let value: u8 = if k % 2 == 0 {
            byte / 16
        } else {
            byte % 16
        };
        proof {
            lemma_zero_digit(value as int);
        }
        if value != 0 {
            assert(hex(digest@)[k as int] != '0');
            return false;
        }
        k += 1;
    }
    true
}

/// What every block id begins with.
pub open spec fn block_prefix() -> Seq<char> {
    seq!['b', 'l', 'o', 'c', 'k', '-']
}

/// The id of the block that `digest` identifies.
pub open spec fn block_id(digest: Seq<u8>) -> Seq<char> {
    block_prefix() + hex(digest)
}

/// Writes the id of the block that `digest` identifies.
pub fn block_id_for(digest: &[u8]) -> (id: String)
    ensures
        id@ == block_id(digest@),
{
    proof {
        reveal_strlit("block-");
    }
    let mut id = String::from_str("block-");
    let text = to_hex(digest);
    id.append(text.as_str());
    id
}

/// Recomputes a solution: whether hashing `payload` with `nonce` gives a
/// digest that meets `difficulty` and that identifies the block `id`.
pub fn confirms_solution(payload: &[u8], nonce: u64, difficulty: u32, id: &String) -> (confirmed:
    bool)
    ensures
        confirmed == (solves(payload@, difficulty as nat, nonce as nat) && id@ == block_id(
            sha256(candidate(payload@, nonce as nat)),
        )),
{
    let bytes = candidate_bytes(payload, nonce);
    let hashed = sha256_digest(bytes.as_slice());
    if !digest_meets(hashed.as_slice(), difficulty) {
        return false;
    }
    let expected = block_id_for(hashed.as_slice());
    expected == *id
}

/// Whether `nonce` is the first at or after `from` to solve the search.
pub open spec fn is_next_solution(payload: Seq<u8>, difficulty: nat, from: nat, nonce: nat) -> bool {
    &&& from <= nonce
    &&& solves(payload, difficulty, nonce)
    &&& forall|k: nat| from <= k < nonce ==> !solves(payload, difficulty, k)
}

/// The first nonce at or after `from` that solves the search, where one
/// does.
pub open spec fn next_solution(payload: Seq<u8>, difficulty: nat, from: nat) -> nat {
    choose|n: nat| is_next_solution(payload, difficulty, from, n)
}

/// Whether one of the `count` nonces from `from` on solves the search.
pub open spec fn solved_within(payload: Seq<u8>, difficulty: nat, from: nat, count: nat) -> bool {
    exists|n: nat| from <= n < from + count && solves(payload, difficulty, n)
}

/// From a given nonce on, a search has at most one next solution.
pub proof fn lemma_next_solution(payload: Seq<u8>, difficulty: nat, from: nat, nonce: nat)
    requires
        is_next_solution(payload, difficulty, from, nonce),
    ensures
        next_solution(payload, difficulty, from) == nonce,
{
    let other = next_solution(payload, difficulty, from);
    assert(is_next_solution(payload, difficulty, from, other));
}

/// Where some nonce at or after `from` solves a search, a first one does,
/// and it is no greater.
pub proof fn lemma_least_solution(payload: Seq<u8>, difficulty: nat, from: nat, nonce: nat)
    requires
        from <= nonce,
        solves(payload, difficulty, nonce),
    ensures
        is_next_solution(payload, difficulty, from, next_solution(payload, difficulty, from)),
        next_solution(payload, difficulty, from) <= nonce,
    decreases nonce,
{
    if exists|k: nat| from <= k < nonce && solves(payload, difficulty, k) {
        let k = choose|k: nat| from <= k < nonce && solves(payload, difficulty, k);
        lemma_least_solution(payload, difficulty, from, k);
    } else {
        assert(is_next_solution(payload, difficulty, from, nonce));
        lemma_next_solution(payload, difficulty, from, nonce);
    }
}

/// Tries the `count` nonces from `from` on, in order, and returns the first
/// that solves the search, with its digest.
pub fn sweep(payload: &[u8], difficulty: u32, from: u64, count: u64) -> (found: Option<
    (u64, Vec<u8>),
>)
    requires
        from + count <= u64::MAX,
    ensures
        match found {
            Some((nonce, digest)) => {
                &&& nonce < from + count
                &&& is_next_solution(payload@, difficulty as nat, from as nat, nonce as nat)
                &&& digest@ == sha256(candidate(payload@, nonce as nat))
            },
            None => !solved_within(payload@, difficulty as nat, from as nat, count as nat),
        },
{
    let end: u64 = from + count;
    let mut nonce: u64 = from;
    while nonce < end
        invariant
            from <= nonce <= end,
            end == from + count,
            forall|k: nat| from <= k < nonce ==> !solves(payload@, difficulty as nat, k),
        decreases end - nonce,
    {
        let bytes = candidate_bytes(payload, nonce);
        let hashed = sha256_digest(bytes.as_slice());
        if digest_meets(hashed.as_slice(), difficulty) {
            return Some((nonce, hashed));
        }
        nonce += 1;
    }
    None
}

} // verus!
