//! Fixed-width byte keys and their lexicographic order.

use vstd::prelude::*;

verus! {

/// A 32-byte identity: an Ed25519 public key, a digest or an address.
pub type PublicKey = [u8; 32];

/// `a` and `b` agree before position `i`, and there `a` holds the smaller byte.
pub open spec fn smaller_at(a: Seq<u8>, b: Seq<u8>, i: int) -> bool {
    &&& 0 <= i < a.len()
    &&& i < b.len()
    &&& a[i] < b[i]
    &&& forall|j: int| 0 <= j < i ==> a[j] == b[j]
}

/// Strict lexicographic order on byte strings of equal length: the first
/// position where the two differ decides.
pub open spec fn lex_lt(a: Seq<u8>, b: Seq<u8>) -> bool {
    exists|i: int| smaller_at(a, b, i)
}

/// `lex_lt` is transitive.
pub proof fn lemma_lex_transitive(a: Seq<u8>, b: Seq<u8>, c: Seq<u8>)
    requires
        lex_lt(a, b),
        lex_lt(b, c),
    ensures
        lex_lt(a, c),
{
    let i = choose|i: int| smaller_at(a, b, i);
    let j = choose|j: int| smaller_at(b, c, j);
    let k = if i <= j { i } else { j };
    assert(smaller_at(a, c, k));
}

/// `lex_lt` never holds both ways, nor between equal strings.
pub proof fn lemma_lex_asymmetric(a: Seq<u8>, b: Seq<u8>)
    requires
        lex_lt(a, b),
    ensures
        !lex_lt(b, a),
        a != b,
{
    let i = choose|i: int| smaller_at(a, b, i);
    if lex_lt(b, a) {
        let j = choose|j: int| smaller_at(b, a, j);
        assert(i == j || i < j || j < i);
    }
}

/// Two byte strings of one length are equal or ordered one way.
pub proof fn lemma_lex_total(a: Seq<u8>, b: Seq<u8>)
    requires
        a.len() == b.len(),
    ensures
        a == b || lex_lt(a, b) || lex_lt(b, a),
{
    lemma_lex_total_from(a, b, 0);
}

proof fn lemma_lex_total_from(a: Seq<u8>, b: Seq<u8>, n: int)
    requires
        a.len() == b.len(),
        0 <= n <= a.len(),
        forall|j: int| 0 <= j < n ==> a[j] == b[j],
    ensures
        a == b || lex_lt(a, b) || lex_lt(b, a),
    decreases a.len() - n,
{
    if n == a.len() {
        assert(a =~= b);
    } else if a[n] < b[n] {
        assert(smaller_at(a, b, n));
    } else if b[n] < a[n] {
        assert(smaller_at(b, a, n));
    } else {
        lemma_lex_total_from(a, b, n + 1);
    }
}

/// How two keys stand to each other.
#[derive(Clone, Copy, Debug, PartialEq, Eq)]
pub enum KeyOrder {
    Less,
    Equal,
    Greater,
}

/// Compares two keys byte by byte.
pub fn compare_keys(a: &PublicKey, b: &PublicKey) -> (r: KeyOrder)
    ensures
        r is Less <==> lex_lt(a@, b@),
        r is Equal <==> a@ == b@,
        r is Greater <==> lex_lt(b@, a@),
{
    let mut i: usize = 0;
    while i < 32
        invariant
            i <= 32,
            forall|j: int| 0 <= j < i ==> a@[j] == b@[j],
        decreases 32 - i,
    {
        if a[i] < b[i] {
            proof {
                assert(smaller_at(a@, b@, i as int));
                lemma_lex_asymmetric(a@, b@);
            }
            return KeyOrder::Less;
        }
        if a[i] > b[i] {
            proof {
                assert(smaller_at(b@, a@, i as int));
                lemma_lex_asymmetric(b@, a@);
            }
            return KeyOrder::Greater;
        }
        i += 1;
    }
    proof {
        assert(a@ =~= b@);
        if lex_lt(a@, b@) {
            lemma_lex_asymmetric(a@, b@);
        }
    }
    KeyOrder::Equal
}

/// Whether two keys hold the same bytes.
pub fn keys_equal(a: &PublicKey, b: &PublicKey) -> (r: bool)
    ensures
        r == (a@ == b@),
{
    let mut i: usize = 0;
    while i < 32
        invariant
            i <= 32,
            forall|j: int| 0 <= j < i ==> a@[j] == b@[j],
        decreases 32 - i,
    {
        if a[i] != b[i] {
            return false;
        }
        i += 1;
    }
    assert(a@ =~= b@);
    true
}

} // verus!
