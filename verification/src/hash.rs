//! Fixed-width block hashes and their byte-wise order.

use vstd::prelude::*;
use vstd::std_specs::cmp::PartialEqSpecImpl;

verus! {

/// A 32-byte block hash.
#[derive(Clone, Copy, Debug)]
pub struct BlockHash(pub [u8; 32]);

impl View for BlockHash {
    type V = Seq<u8>;

    open spec fn view(&self) -> Seq<u8> {
        self.0@
    }
}

/// `k` is the first position at which `a` and `b` hold different bytes.
pub open spec fn first_difference(a: Seq<u8>, b: Seq<u8>, k: int) -> bool {
    &&& 0 <= k < a.len()
    &&& k < b.len()
    &&& a[k] != b[k]
    &&& forall|j: int| 0 <= j < k ==> a[j] == b[j]
}

/// Lexicographic order on byte strings: at the first position where the two
/// differ, `a` holds the smaller byte.
pub open spec fn lex_lt(a: Seq<u8>, b: Seq<u8>) -> bool {
    exists|k: int| #[trigger] first_difference(a, b, k) && a[k] < b[k]
}

/// Two byte strings of one length that are not equal differ at a first position.
pub proof fn lemma_first_difference_exists(a: Seq<u8>, b: Seq<u8>, from: int) -> (k: int)
    requires
        a.len() == b.len(),
        a != b,
        0 <= from <= a.len(),
        forall|j: int| 0 <= j < from ==> a[j] == b[j],
    ensures
        first_difference(a, b, k),
    decreases a.len() - from,
{
    if from == a.len() {
        assert(a =~= b);
        from
    } else if a[from] != b[from] {
        from
    } else {
        lemma_first_difference_exists(a, b, from + 1)
    }
}

/// Of two distinct byte strings of one length, exactly one precedes the other.
pub proof fn lemma_lex_lt_total(a: Seq<u8>, b: Seq<u8>)
    requires
        a.len() == b.len(),
    ensures
        a == b || lex_lt(a, b) || lex_lt(b, a),
        !(lex_lt(a, b) && lex_lt(b, a)),
        a == b ==> !lex_lt(a, b),
{
    if a != b {
        let k = lemma_first_difference_exists(a, b, 0);
        assert(first_difference(b, a, k));
    }
    if lex_lt(a, b) && lex_lt(b, a) {
        let k1 = choose|k: int| #[trigger] first_difference(a, b, k) && a[k] < b[k];
        let k2 = choose|k: int| #[trigger] first_difference(b, a, k) && b[k] < a[k];
        assert(k1 == k2);
    }
}

/// The order is transitive.
pub proof fn lemma_lex_lt_transitive(a: Seq<u8>, b: Seq<u8>, c: Seq<u8>)
    requires
        lex_lt(a, b),
        lex_lt(b, c),
    ensures
        lex_lt(a, c),
{
    let k1 = choose|k: int| #[trigger] first_difference(a, b, k) && a[k] < b[k];
    let k2 = choose|k: int| #[trigger] first_difference(b, c, k) && b[k] < c[k];
    let k = if k1 <= k2 { k1 } else { k2 };
    assert(first_difference(a, c, k));
}

/// Two hashes are the same hash exactly if they hold the same bytes.
pub proof fn lemma_same_bytes(a: BlockHash, b: BlockHash)
    ensures
        (a@ == b@) <==> (a == b),
        a@.len() == 32,
{
    if a@ == b@ {
        assert forall|i: int| 0 <= i < 32 implies a.0[i] == b.0[i] by {
            assert(a@[i] == b@[i]);
        }
        assert(a.0 =~= b.0);
    }
}

impl BlockHash {
    /// The hash whose bytes are those of `bytes`, in order.
    pub fn from_slice(bytes: &[u8]) -> (hash: BlockHash)
        requires
            bytes@.len() == 32,
        ensures
            hash@ == bytes@,
    {
        let mut out = [0u8; 32];
        let mut i: usize = 0;
        while i < 32
            invariant
                i <= 32,
                bytes@.len() == 32,
                forall|j: int| 0 <= j < i ==> out@[j] == bytes@[j],
            decreases 32 - i,
        {
            out[i] = bytes[i];
            i = i + 1;
        }
        assert(out@ =~= bytes@);
        BlockHash(out)
    }

    /// The 32 bytes of the hash, in order.
    pub fn to_vec(&self) -> (bytes: Vec<u8>)
        ensures
            bytes@ == self@,
            bytes@.len() == 32,
    {
        let mut bytes: Vec<u8> = Vec::new();
        let mut i: usize = 0;
        while i < 32
            invariant
                i <= 32,
                bytes@.len() == i,
                forall|j: int| 0 <= j < i ==> bytes@[j] == self.0@[j],
            decreases 32 - i,
        {
            bytes.push(self.0[i]);
            i = i + 1;
        }
        assert(bytes@ =~= self@);
        bytes
    }

    /// Whether `self` comes strictly before `other` in byte-wise lexicographic order.
    pub fn precedes(&self, other: &BlockHash) -> (r: bool)
        ensures
            r == lex_lt(self@, other@),
    {
        let mut i: usize = 0;
        while i < 32
            invariant
                i <= 32,
                forall|j: int| 0 <= j < i ==> self.0@[j] == other.0@[j],
            decreases 32 - i,
        {
            if self.0[i] != other.0[i] {
                assert(first_difference(self@, other@, i as int));
                assert forall|k: int| #[trigger]
                    first_difference(self@, other@, k) implies k == i by {}
                return self.0[i] < other.0[i];
            }
            i = i + 1;
        }
        assert(self@ =~= other@);
        false
    }
}

impl PartialEq for BlockHash {
    fn eq(&self, other: &BlockHash) -> (r: bool) {
        let mut i: usize = 0;
        while i < 32
            invariant
                i <= 32,
                forall|j: int| 0 <= j < i ==> self.0@[j] == other.0@[j],
            decreases 32 - i,
        {
            if self.0[i] != other.0[i] {
                return false;
            }
            i = i + 1;
        }
        proof {
            lemma_same_bytes(*self, *other);
            assert(self@ =~= other@);
        }
        true
    }
}

impl Eq for BlockHash {

}

impl PartialEqSpecImpl for BlockHash {
    open spec fn obeys_eq_spec() -> bool {
        true
    }

    open spec fn eq_spec(&self, other: &BlockHash) -> bool {
        *self == *other
    }
}

} // verus!
