//! Identifiers shared by all contracts and the hashing used to derive them.
use soroban_sdk::xdr::ToXdr;
use vstd::prelude::*;

verus! {

/// An account on the ledger.  Accounts are told apart by a numeric identity.
#[derive(Clone, Copy, Debug, PartialEq, Eq, Structural, Hash)]
pub struct Address {
    pub id: u64,
}

/// A 32-byte identifier, kept as its big-endian high and low halves.
#[derive(Clone, Copy, Debug, PartialEq, Eq, Structural, Hash)]
pub struct Bytes32 {
    pub hi: u128,
    pub lo: u128,
}

/// Division rounding toward zero, as on machine integers.
pub open spec fn trunc_div(a: int, b: int) -> int {
    if a >= 0 { a / b } else { -((-a) / b) }
}

/// `i` is the first position of `s` whose element satisfies `p`.
pub open spec fn is_first_match<T>(s: Seq<T>, p: spec_fn(T) -> bool, i: int) -> bool {
    &&& 0 <= i < s.len()
    &&& p(s[i])
    &&& forall|j: int| 0 <= j < i ==> !p(#[trigger] s[j])
}

/// The first position of `s` whose element satisfies `p`, if any.
pub open spec fn first_match<T>(s: Seq<T>, p: spec_fn(T) -> bool) -> Option<int> {
    if exists|i: int| is_first_match(s, p, i) {
        Some(choose|i: int| is_first_match(s, p, i))
    } else {
        None
    }
}

/// The first match is the position a left-to-right search stops at.
pub proof fn lemma_first_match_at<T>(s: Seq<T>, p: spec_fn(T) -> bool, i: int)
    requires
        is_first_match(s, p, i),
    ensures
        first_match(s, p) == Some(i),
{
    let k = choose|k: int| is_first_match(s, p, k);
    assert(is_first_match(s, p, k));
    if k < i {
        assert(!p(s[k]));
    }
    if i < k {
        assert(!p(s[i]));
    }
}

/// Where no element satisfies `p` there is no first match.
pub proof fn lemma_first_match_none<T>(s: Seq<T>, p: spec_fn(T) -> bool)
    requires
        forall|j: int| 0 <= j < s.len() ==> !p(#[trigger] s[j]),
    ensures
        first_match(s, p) is None,
{
    if exists|i: int| is_first_match(s, p, i) {
        let k = choose|i: int| is_first_match(s, p, i);
        assert(p(s[k]));
    }
}

/// Replacing an element by one that the predicate judges alike moves no
/// first match.
pub proof fn lemma_first_match_update<T>(s: Seq<T>, p: spec_fn(T) -> bool, i: int, x: T)
    requires
        0 <= i < s.len(),
        p(s[i]) == p(x),
    ensures
        first_match(s.update(i, x), p) == first_match(s, p),
{
    let u = s.update(i, x);
    match first_match(s, p) {
        Some(k) => {
            let k2 = choose|j: int| is_first_match(s, p, j);
            assert(is_first_match(s, p, k2));
            assert(is_first_match(u, p, k2)) by {
                assert forall|j: int| 0 <= j < k2 implies !p(#[trigger] u[j]) by {
                    assert(!p(s[j]));
                }
            }
            lemma_first_match_at(u, p, k2);
        },
        None => {
            assert forall|j: int| 0 <= j < u.len() implies !p(#[trigger] u[j]) by {
                if p(u[j]) {
                    assert(p(s[j]));
                    lemma_first_match_some(s, p, j);
                }
            }
            lemma_first_match_none(u, p);
        },
    }
}

/// Appending an element moves no first match, and where there was none the
/// element, if it matches, is the first.
pub proof fn lemma_first_match_push<T>(s: Seq<T>, p: spec_fn(T) -> bool, x: T)
    ensures
        first_match(s, p) is Some ==> first_match(s.push(x), p) == first_match(s, p),
        first_match(s, p) is None && p(x) ==> first_match(s.push(x), p) == Some(s.len() as int),
        first_match(s, p) is None && !p(x) ==> first_match(s.push(x), p) is None,
{
    let u = s.push(x);
    match first_match(s, p) {
        Some(k) => {
            let k2 = choose|j: int| is_first_match(s, p, j);
            assert(is_first_match(s, p, k2));
            assert(is_first_match(u, p, k2)) by {
                assert forall|j: int| 0 <= j < k2 implies !p(#[trigger] u[j]) by {
                    assert(!p(s[j]));
                }
            }
            lemma_first_match_at(u, p, k2);
        },
        None => {
            assert forall|j: int| 0 <= j < s.len() implies !p(#[trigger] s[j]) by {
                if p(s[j]) {
                    lemma_first_match_some(s, p, j);
                }
            }
            if p(x) {
                assert(is_first_match(u, p, s.len() as int)) by {
                    assert forall|j: int| 0 <= j < s.len() implies !p(#[trigger] u[j]) by {
                        assert(!p(s[j]));
                    }
                }
                lemma_first_match_at(u, p, s.len() as int);
            } else {
                assert forall|j: int| 0 <= j < u.len() implies !p(#[trigger] u[j]) by {
                    if j < s.len() {
                        assert(!p(s[j]));
                    }
                }
                lemma_first_match_none(u, p);
            }
        },
    }
}

/// Where some element matches, there is a first match.
pub proof fn lemma_first_match_some<T>(s: Seq<T>, p: spec_fn(T) -> bool, i: int)
    requires
        0 <= i < s.len(),
        p(s[i]),
    ensures
        first_match(s, p) is Some,
    decreases i,
{
    if forall|j: int| 0 <= j < i ==> !p(#[trigger] s[j]) {
        lemma_first_match_at(s, p, i);
    } else {
        let j = choose|j: int| 0 <= j < i && p(#[trigger] s[j]);
        lemma_first_match_some(s, p, j);
    }
}

/// A position found by a search, read as a mathematical index.
pub open spec fn as_index(r: Option<usize>) -> Option<int> {
    match r {
        Some(i) => Some(i as int),
        None => None,
    }
}

/// Big-endian value of a byte sequence.
pub open spec fn be_value(s: Seq<u8>) -> nat
    decreases s.len(),
{
    if s.len() == 0 {
        0
    } else {
        be_value(s.drop_last()) * 256 + s.last() as nat
    }
}

/// The identifier whose bytes are the 32 bytes of `s`, most significant first.
pub open spec fn bytes32_of(s: Seq<u8>) -> Bytes32 {
    Bytes32 { hi: be_value(s.subrange(0, 16)) as u128, lo: be_value(s.subrange(16, 32)) as u128 }
}

/// The SHA-256 digest of a byte string.
pub uninterp spec fn sha256_digest(data: Seq<u8>) -> Seq<u8>;

/// The most bytes hashed at once.  The ledger host meters its work, and
/// hashing more than a few megabytes on a fresh environment exhausts its
/// default budget, which makes the call panic.
pub const HASH_INPUT_LIMIT: usize = 1048576;

/// Hashes `data` with the ledger's SHA-256 (`soroban_sdk::crypto::Crypto::sha256`)
/// and returns the digest as an identifier.  Claimed: the result is the digest,
/// read big-endian into the two halves.
#[verifier::external_body]
fn sha256(data: &Vec<u8>) -> (id: Bytes32)
    requires
        data@.len() <= HASH_INPUT_LIMIT,
    ensures
        id == bytes32_of(sha256_digest(data@)),
{
    let env = soroban_sdk::Env::default();
    let bytes = soroban_sdk::Bytes::from_slice(&env, data.as_slice());
    let digest: [u8; 32] = env.crypto().sha256(&bytes).to_array();
    let mut hi = [0u8; 16];
    let mut lo = [0u8; 16];
    hi.copy_from_slice(&digest[..16]);
    lo.copy_from_slice(&digest[16..]);
    Bytes32 { hi: u128::from_be_bytes(hi), lo: u128::from_be_bytes(lo) }
}

/// Derives a unique identifier from the serialized inputs: their SHA-256 digest.
pub fn generate_id(serialized_inputs: &Vec<u8>) -> (id: Bytes32)
    requires
        serialized_inputs@.len() <= HASH_INPUT_LIMIT,
    ensures
        id == bytes32_of(sha256_digest(serialized_inputs@)),
{
    sha256(serialized_inputs)
}

} // verus!
