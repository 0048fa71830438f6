//! What holds of the clustering of residual shapes: the merge threshold.

use vstd::prelude::*;
use crate::cluster::{
    can_merge, cluster_from, cluster_variants, gather, merged_variant, name_difference,
};
use crate::shape::ShapeModel;

verus! {

proof fn lemma_push_contains<T>(s: Seq<T>, x: T, y: T)
    ensures
        s.push(x).contains(y) <==> (s.contains(y) || x == y),
{
    if s.contains(y) {
        let i = choose|i: int| 0 <= i < s.len() && s[i] == y;
        assert(s.push(x)[i] == y);
    }
    if x == y {
        assert(s.push(x)[s.len() as int] == y);
    }
    if s.push(x).contains(y) {
        let i = choose|i: int| 0 <= i < s.push(x).len() && s.push(x)[i] == y;
        if i < s.len() {
            assert(s[i] == y);
        }
    }
}

/// Merge threshold, for a cluster: when the shapes before place `j` have
/// been looked at, a shape behind the base belongs to the cluster of the base
/// exactly if it was free and differs from the base by at most one field
/// name. The shapes from `j` on keep their marks.
pub proof fn law_cluster_membership(shapes: Seq<ShapeModel>, base: int, taken: Seq<bool>, j: int)
    requires
        shapes.len() <= usize::MAX,
        0 <= base < shapes.len(),
        taken.len() == shapes.len(),
        base + 1 <= j <= shapes.len(),
    ensures
        gather(shapes, base, taken, j).1.len() == taken.len(),
        gather(shapes, base, taken, j).0.len() >= 1,
        gather(shapes, base, taken, j).0[0] == base,
        forall|m: int|
            0 <= m < gather(shapes, base, taken, j).0.len() ==> base <= #[trigger] gather(
                shapes,
                base,
                taken,
                j,
            ).0[m] < j,
        forall|k: int|
            j <= k < shapes.len() ==> #[trigger] gather(shapes, base, taken, j).1[k] == taken[k],
        forall|k: int|
            base < k < j ==> (#[trigger] gather(shapes, base, taken, j).0.contains(k as usize) <==> (
            !taken[k] && name_difference(shapes[base], shapes[k]) <= 1)),
    decreases j,
{
    let g = gather(shapes, base, taken, j);
    if j > base + 1 {
        law_cluster_membership(shapes, base, taken, j - 1);
        let prev = gather(shapes, base, taken, j - 1);
        let last = j - 1;
        assert(prev.1[last] == taken[last]);
        assert(!prev.0.contains(last as usize)) by {
            if prev.0.contains(last as usize) {
                let m = choose|m: int| 0 <= m < prev.0.len() && prev.0[m] == last as usize;
                assert(prev.0[m] < j - 1);
            }
        }
        assert forall|k: int| base < k < j implies (#[trigger] g.0.contains(k as usize) <==> (
        !taken[k] && name_difference(shapes[base], shapes[k]) <= 1)) by {
            if g.0 != prev.0 {
                lemma_push_contains(prev.0, last as usize, k as usize);
            }
            if k < j - 1 {
                assert(prev.0.contains(k as usize) <==> (!taken[k] && name_difference(
                    shapes[base],
                    shapes[k],
                ) <= 1));
            }
        }
    } else {
        assert forall|k: int| base < k < j implies (#[trigger] g.0.contains(k as usize) <==> (
        !taken[k] && name_difference(shapes[base], shapes[k]) <= 1)) by {}
    }
}

/// Merge threshold, for two shapes: two shapes that differ by at most one
/// field name are clustered into one variant; two shapes that differ by two
/// or more field names are never clustered together, and give two variants.
pub proof fn law_merge_threshold(a: ShapeModel, b: ShapeModel)
    ensures
        name_difference(a, b) <= 1 ==> cluster_variants(seq![a, b]) == seq![
            merged_variant(seq![a, b], seq![0usize, 1usize]),
        ],
        name_difference(a, b) >= 2 ==> cluster_variants(seq![a, b]) == seq![
            merged_variant(seq![a, b], seq![0usize]),
            merged_variant(seq![a, b], seq![1usize]),
        ],
{
    let s = seq![a, b];
    let none = Seq::new(s.len(), |k: int| false);
    reveal_with_fuel(cluster_from, 3);
    reveal_with_fuel(gather, 3);
    assert(cluster_from(s, 0) == (Seq::<crate::optimizer::VariantModel>::empty(), none));
    let g0 = gather(s, 0, none, 2);
    let first = gather(s, 0, none, 1);
    assert(first.0 =~= seq![0usize]);
    assert(first.1 =~= seq![true, false]);
    if can_merge(a, b) {
        assert(g0.0 =~= seq![0usize, 1usize]);
        assert(g0.1 =~= seq![true, true]);
        assert(cluster_from(s, 1).0 =~= seq![merged_variant(s, g0.0)]);
        assert(cluster_from(s, 2).0 =~= seq![merged_variant(s, g0.0)]);
    } else {
        assert(g0.0 =~= seq![0usize]);
        assert(g0.1 =~= seq![true, false]);
        assert(cluster_from(s, 1).0 =~= seq![merged_variant(s, g0.0)]);
        let g1 = gather(s, 1, g0.1, 2);
        assert(g1.0 =~= seq![1usize]);
        assert(cluster_from(s, 2).0 =~= seq![merged_variant(s, g0.0), merged_variant(s, g1.0)]);
    }
}

} // verus!
