//! Building blocks of the list screens: selecting the positions of the items
//! a filter keeps, and the byte-wise text order that sorting uses.

use vstd::prelude::*;
use vstd::utf8::encode_utf8;

verus! {

/// The UTF-8 bytes of a text, by which texts are ordered.
pub open spec fn text_bytes(s: String) -> Seq<u8> {
    encode_utf8(s@)
}

/// Positions `0..n` that `keep` accepts, in increasing order.
pub open spec fn indices_where(n: nat, keep: spec_fn(int) -> bool) -> Seq<usize>
    decreases n,
{
    if n == 0 {
        Seq::empty()
    } else {
        let r = indices_where((n - 1) as nat, keep);
        if keep(n - 1) { r.push((n - 1) as usize) } else { r }
    }
}

/// Every position `indices_where` yields is below `n` and accepted, the
/// positions strictly increase, and every accepted position is yielded.
pub proof fn lemma_indices_where(n: nat, keep: spec_fn(int) -> bool)
    requires
        n <= usize::MAX,
    ensures
        forall|k: int| 0 <= k < indices_where(n, keep).len() ==> (#[trigger] indices_where(n, keep)[k]) < n && keep(indices_where(n, keep)[k] as int),
        forall|a: int, b: int| 0 <= a < b < indices_where(n, keep).len() ==> #[trigger] indices_where(n, keep)[a] < #[trigger] indices_where(n, keep)[b],
        forall|i: int| 0 <= i < n && keep(i) ==> #[trigger] indices_where(n, keep).contains(i as usize),
    decreases n,
{
    if n > 0 {
        lemma_indices_where((n - 1) as nat, keep);
        let r = indices_where((n - 1) as nat, keep);
        let s = indices_where(n, keep);
        if keep(n - 1) {
            assert(s == r.push((n - 1) as usize));
        } else {
            assert(s == r);
        }
        assert forall|k: int| 0 <= k < s.len() implies (#[trigger] s[k]) < n && keep(s[k] as int) by {
            if k < r.len() {
                assert(s[k] == r[k]);
            }
        }
        assert forall|a: int, b: int| 0 <= a < b < s.len() implies #[trigger] s[a] < #[trigger] s[b] by {
            if b < r.len() {
                assert(s[a] == r[a] && s[b] == r[b]);
            } else {
                assert(s[a] == r[a]);
            }
        }
        assert forall|i: int| 0 <= i < n && keep(i) implies #[trigger] s.contains(i as usize) by {
            if i == n - 1 {
                assert(s[s.len() - 1] == i as usize);
            } else {
                assert(r.contains(i as usize));
                let k = choose|k: int| 0 <= k < r.len() && r[k] == i as usize;
                assert(s[k] == r[k]);
            }
        }
    }
}

/// A position below `n` is among those `indices_where` yields exactly when
/// `keep` accepts it.
pub proof fn lemma_indices_where_contains(n: nat, keep: spec_fn(int) -> bool, i: int)
    requires
        n <= usize::MAX,
        0 <= i < n,
    ensures
        indices_where(n, keep).contains(i as usize) <==> keep(i),
{
    lemma_indices_where(n, keep);
    let s = indices_where(n, keep);
    if s.contains(i as usize) {
        let k = choose|k: int| 0 <= k < s.len() && s[k] == i as usize;
        assert(keep(s[k] as int));
    }
}

/// Splitting a selection in two: when `keep` accepts a position exactly when
/// one of `a` and `b` does, and no position is accepted by both, the
/// positions `a` yields followed by those `b` yields are those `keep` yields,
/// in another order.
pub proof fn lemma_indices_where_split(
    n: nat,
    keep: spec_fn(int) -> bool,
    a: spec_fn(int) -> bool,
    b: spec_fn(int) -> bool,
)
    requires
        forall|i: int| 0 <= i < n ==> (#[trigger] keep(i) <==> (a(i) || b(i))),
        forall|i: int| 0 <= i < n ==> !(#[trigger] a(i) && b(i)),
    ensures
        (indices_where(n, a) + indices_where(n, b)).to_multiset() =~= indices_where(n, keep).to_multiset(),
    decreases n,
{
    broadcast use vstd::seq_lib::group_to_multiset_ensures, vstd::multiset::group_multiset_axioms;

    if n > 0 {
        let m = (n - 1) as nat;
        lemma_indices_where_split(m, keep, a, b);
        vstd::seq_lib::lemma_multiset_commutative(indices_where(n, a), indices_where(n, b));
        vstd::seq_lib::lemma_multiset_commutative(indices_where(m, a), indices_where(m, b));
        assert(keep(m as int) <==> (a(m as int) || b(m as int)));
        assert(!(a(m as int) && b(m as int)));
    }
}

/// Text order: byte-wise lexicographic order of the UTF-8 encodings, which is
/// how `str` values compare.
pub open spec fn bytes_lt(a: Seq<u8>, b: Seq<u8>) -> bool
    decreases a.len(),
{
    if a.len() == 0 {
        b.len() > 0
    } else if b.len() == 0 {
        false
    } else if a[0] < b[0] {
        true
    } else if a[0] > b[0] {
        false
    } else {
        bytes_lt(a.drop_first(), b.drop_first())
    }
}

pub proof fn lemma_bytes_irreflexive(a: Seq<u8>)
    ensures
        !bytes_lt(a, a),
    decreases a.len(),
{
    if a.len() > 0 {
        lemma_bytes_irreflexive(a.drop_first());
    }
}

pub proof fn lemma_bytes_transitive(a: Seq<u8>, b: Seq<u8>, c: Seq<u8>)
    requires
        bytes_lt(a, b),
        bytes_lt(b, c),
    ensures
        bytes_lt(a, c),
    decreases a.len(),
{
    if a.len() > 0 && b.len() > 0 && c.len() > 0 && a[0] == b[0] && b[0] == c[0] {
        lemma_bytes_transitive(a.drop_first(), b.drop_first(), c.drop_first());
    }
}

pub proof fn lemma_bytes_total(a: Seq<u8>, b: Seq<u8>)
    ensures
        a == b || bytes_lt(a, b) || bytes_lt(b, a),
    decreases a.len(),
{
    if a.len() > 0 && b.len() > 0 && a[0] == b[0] {
        lemma_bytes_total(a.drop_first(), b.drop_first());
        if a.drop_first() == b.drop_first() {
            assert(a =~= seq![a[0]] + a.drop_first());
            assert(b =~= seq![b[0]] + b.drop_first());
        }
    } else if a.len() == 0 && b.len() == 0 {
        assert(a =~= b);
    }
}

pub proof fn lemma_bytes_asymmetric(a: Seq<u8>, b: Seq<u8>)
    requires
        bytes_lt(a, b),
    ensures
        !bytes_lt(b, a),
{
    if bytes_lt(b, a) {
        lemma_bytes_transitive(a, b, a);
        lemma_bytes_irreflexive(a);
    }
}

/// Whether `a` orders before `b` as text.
pub fn bytes_less(a: &[u8], b: &[u8]) -> (r: bool)
    ensures
        r == bytes_lt(a@, b@),
{
    let mut i: usize = 0;
    assert(a@.skip(0) =~= a@);
    assert(b@.skip(0) =~= b@);
    while i < a.len() && i < b.len()
        invariant
            i <= a@.len(),
            i <= b@.len(),
            bytes_lt(a@, b@) == bytes_lt(a@.skip(i as int), b@.skip(i as int)),
        decreases a@.len() - i,
    {
        let ghost sa = a@.skip(i as int);
        let ghost sb = b@.skip(i as int);
        assert(sa[0] == a@[i as int] && sb[0] == b@[i as int]);
        if a[i] < b[i] {
            return true;
        }
        if a[i] > b[i] {
            return false;
        }
        assert(sa.drop_first() =~= a@.skip(i + 1));
        assert(sb.drop_first() =~= b@.skip(i + 1));
        i = i + 1;
    }
    i == a.len() && i < b.len()
}

/// Whether `a` and `b` hold the same bytes.
pub fn bytes_equal(a: &[u8], b: &[u8]) -> (r: bool)
    ensures
        r == (a@ == b@),
{
    if a.len() != b.len() {
        return false;
    }
    let mut i: usize = 0;
    while i < a.len()
        invariant
            a@.len() == b@.len(),
            i <= a@.len(),
            forall|k: int| 0 <= k < i ==> a@[k] == b@[k],
        decreases a@.len() - i,
    {
        if a[i] != b[i] {
            return false;
        }
        i = i + 1;
    }
    assert(a@ =~= b@);
    true
}

} // verus!
