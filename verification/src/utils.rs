//! Order-independent comparison of segment collections.

use vstd::prelude::*;
use vstd::multiset::Multiset;
use crate::SSDPart;

verus! {

broadcast use vstd::seq_lib::group_to_multiset_ensures, vstd::multiset::group_multiset_axioms;

/// Returns the index of the first occurrence of `x` in `v`, if any.
fn find_first(v: &Vec<SSDPart>, x: SSDPart) -> (r: Option<usize>)
    ensures
        match r {
            Some(j) => j < v@.len() && v@[j as int] == x,
            None => forall|k: int| 0 <= k < v@.len() ==> v@[k] != x,
        },
{
    let mut j: usize = 0;
    while j < v.len()
        invariant
            j <= v@.len(),
            forall|k: int| 0 <= k < j ==> v@[k] != x,
        decreases v@.len() - j,
    {
        if v[j] == x {
            return Some(j);
        }
        j = j + 1;
    }
    None
}

/// Two collections are equal when they hold the same segments with the same
/// multiplicities, in any order. Each element of `v1` is matched against and
/// removed from a working copy of `v2`, which must end up empty: duplicates
/// on either side are not collapsed.
#[verifier::loop_isolation(false)]
pub fn cmp_vec_unordered(v1: &Vec<SSDPart>, mut v2: Vec<SSDPart>) -> (r: bool)
    ensures
        r <==> v1@.to_multiset() == v2@.to_multiset(),
{
    let ghost orig: Seq<SSDPart> = v2@;
    let mut i: usize = 0;
    while i < v1.len()
        invariant
            i <= v1@.len(),
            orig.to_multiset() == v1@.take(i as int).to_multiset().add(v2@.to_multiset()),
        decreases v1@.len() - i,
    {
        let x = v1[i];
        match find_first(&v2, x) {
            None => {
                proof {
                    lemma_absent_element_unequal(v1@, orig, v2@.to_multiset(), i as int);
                }
                return false;
            },
            Some(j) => {
                proof {
                    let pre = v2@;
                    assert(pre.to_multiset().count(x) > 0);
                    assert(v1@.take(i + 1) =~= v1@.take(i as int).push(x));
                    lemma_shift_one(v1@.take(i as int), pre.to_multiset(), x);
                }
                v2.remove(j);
            },
        }
        i = i + 1;
    }
    proof {
        assert(v1@.take(i as int) =~= v1@);
    }
    if v2.len() > 0 {
        proof {
            assert(orig.to_multiset().len() == v1@.to_multiset().len() + v2@.to_multiset().len());
        }
        return false;
    }
    proof {
        assert(v2@ =~= Seq::<SSDPart>::empty());
        lemma_empty_to_multiset();
        assert(v1@.to_multiset().add(Multiset::<SSDPart>::empty()) =~= v1@.to_multiset());
    }
    true
}

/// Two collections that differ by one added element are never equal as
/// multisets, whatever the order of either: inserting `x` anywhere in `b`
/// breaks equality with `a`.
pub proof fn lemma_added_element_breaks_equality(
    a: Seq<SSDPart>,
    b: Seq<SSDPart>,
    i: int,
    x: SSDPart,
)
    requires
        a.to_multiset() == b.to_multiset(),
        0 <= i <= b.len(),
    ensures
        a.to_multiset() != b.insert(i, x).to_multiset(),
{
    assert(b.insert(i, x).to_multiset().len() == b.to_multiset().len() + 1);
}

/// Two collections that differ by one removed element are never equal as
/// multisets: removing any position of `b` breaks equality with `a`.
pub proof fn lemma_removed_element_breaks_equality(a: Seq<SSDPart>, b: Seq<SSDPart>, i: int)
    requires
        a.to_multiset() == b.to_multiset(),
        0 <= i < b.len(),
    ensures
        a.to_multiset() != b.remove(i).to_multiset(),
{
    assert(b.remove(i).to_multiset().len() == b.to_multiset().len() - 1);
}

/// A sequence holding an element that another lacks converts to a different
/// multiset.
pub proof fn lemma_multiset_differs_by_element(a: Seq<SSDPart>, b: Seq<SSDPart>, x: SSDPart)
    requires
        a.contains(x),
        !b.contains(x),
    ensures
        a.to_multiset() != b.to_multiset(),
{
    assert(a.to_multiset().count(x) > 0);
    assert(b.to_multiset().count(x) == 0);
}

/// Sequences of different lengths convert to different multisets.
pub proof fn lemma_multiset_differs_by_len(a: Seq<SSDPart>, b: Seq<SSDPart>)
    requires
        a.len() != b.len(),
    ensures
        a.to_multiset() != b.to_multiset(),
{
    assert(a.to_multiset().len() == a.len());
    assert(b.to_multiset().len() == b.len());
}

/// The empty sequence converts to the empty multiset.
proof fn lemma_empty_to_multiset()
    ensures
        Seq::<SSDPart>::empty().to_multiset() =~= Multiset::<SSDPart>::empty(),
{
    assert(Seq::<SSDPart>::empty().to_multiset().len() == 0);
}

/// Moving one occurrence of `x` from the right operand of `add` into the
/// sequence on the left leaves the combined multiset unchanged.
proof fn lemma_shift_one(s: Seq<SSDPart>, m: Multiset<SSDPart>, x: SSDPart)
    requires
        m.count(x) > 0,
    ensures
        s.push(x).to_multiset().add(m.remove(x)) == s.to_multiset().add(m),
{
    assert(s.push(x).to_multiset().add(m.remove(x)) =~= s.to_multiset().add(m));
}

/// When `v1[i]` does not occur in the remainder `m`, the whole of `v1` cannot
/// have the same multiset as `orig == take(i) + m`: `orig` is short one
/// occurrence of `v1[i]`.
proof fn lemma_absent_element_unequal(
    v1: Seq<SSDPart>,
    orig: Seq<SSDPart>,
    m: Multiset<SSDPart>,
    i: int,
)
    requires
        0 <= i < v1.len(),
        orig.to_multiset() == v1.take(i).to_multiset().add(m),
        m.count(v1[i]) == 0,
    ensures
        v1.to_multiset() != orig.to_multiset(),
{
    let x = v1[i];
    assert(v1 =~= v1.take(i + 1) + v1.skip(i + 1));
    vstd::seq_lib::lemma_multiset_commutative(v1.take(i + 1), v1.skip(i + 1));
    assert(v1.take(i + 1) =~= v1.take(i).push(x));
    assert(v1.take(i + 1).to_multiset().count(x) == v1.take(i).to_multiset().count(x) + 1);
    assert(v1.to_multiset().count(x) >= v1.take(i).to_multiset().count(x) + 1);
    assert(orig.to_multiset().count(x) == v1.take(i).to_multiset().count(x));
}

} // verus!
