//! What holds of the orderings: fields by name, variants by score, and
//! replacements by their place. Each is the same things in another order,
//! and the order is the one asked for.

use vstd::prelude::*;
use vstd::seq_lib::{to_multiset_build, to_multiset_insert};
use crate::evolution::{rank_position, ranked};
use crate::fields::{by_name, insert_position, sorted_by_name, text_le};
use crate::shape::FieldModel;
use crate::surgery::{edit_position, sorted_edits};

verus! {

/// Of two texts, one comes before the other, or they are the same.
pub proof fn lemma_text_le_total(a: Seq<char>, b: Seq<char>, i: int)
    requires
        0 <= i,
    ensures
        text_le(a, b, i) || text_le(b, a, i),
    decreases a.len() - i,
{
    if i < a.len() && i < b.len() {
        if a[i] == b[i] {
            lemma_text_le_total(a, b, i + 1);
        } else {
            vstd::utf8::char_u32_cast(a[i], a[i] as u32);
            vstd::utf8::char_u32_cast(b[i], b[i] as u32);
        }
    }
}

/// What comes before a text comes before everything behind that text.
pub proof fn lemma_text_le_transitive(a: Seq<char>, b: Seq<char>, c: Seq<char>, i: int)
    requires
        0 <= i,
        text_le(a, b, i),
        text_le(b, c, i),
    ensures
        text_le(a, c, i),
    decreases a.len() - i,
{
    if i < a.len() && a[i] == b[i] && b[i] == c[i] {
        lemma_text_le_transitive(a, b, c, i + 1);
    }
}

/// The fields are in the order of their names.
pub open spec fn ordered_by_name(fields: Seq<FieldModel>) -> bool {
    forall|i: int, j: int|
        0 <= i < j < fields.len() ==> text_le(
            (#[trigger] fields[i]).name,
            (#[trigger] fields[j]).name,
            0,
        )
}

proof fn lemma_insert_position(sorted: Seq<FieldModel>, name: Seq<char>, n: nat)
    requires
        n <= sorted.len(),
    ensures
        insert_position(sorted, name, n) <= n,
        insert_position(sorted, name, n) > 0 ==> text_le(
            sorted[insert_position(sorted, name, n) - 1].name,
            name,
            0,
        ),
        forall|k: int|
            insert_position(sorted, name, n) <= k < n ==> !text_le(
                (#[trigger] sorted[k]).name,
                name,
                0,
            ),
    decreases n,
{
    if n > 0 && !text_le(sorted[n - 1].name, name, 0) {
        lemma_insert_position(sorted, name, (n - 1) as nat);
    }
}

proof fn lemma_sorted_by_name(fields: Seq<FieldModel>, n: nat)
    requires
        n <= fields.len(),
    ensures
        sorted_by_name(fields, n).len() == n,
        sorted_by_name(fields, n).to_multiset() == fields.take(n as int).to_multiset(),
        ordered_by_name(sorted_by_name(fields, n)),
    decreases n,
{
    if n == 0 {
        assert(fields.take(0) =~= sorted_by_name(fields, 0));
    } else {
        lemma_sorted_by_name(fields, (n - 1) as nat);
        let prev = sorted_by_name(fields, (n - 1) as nat);
        let f = fields[n - 1];
        lemma_insert_position(prev, f.name, prev.len());
        let p = insert_position(prev, f.name, prev.len()) as int;
        let cur = prev.insert(p, f);
        to_multiset_insert(prev, p, f);
        to_multiset_build(fields.take(n - 1), f);
        assert(fields.take(n as int) =~= fields.take(n - 1).push(f));
        assert forall|i: int, j: int| 0 <= i < j < cur.len() implies text_le(
            (#[trigger] cur[i]).name,
            (#[trigger] cur[j]).name,
            0,
        ) by {
            if j < p {
                assert(cur[i] == prev[i] && cur[j] == prev[j]);
            } else if j == p {
                assert(cur[i] == prev[i]);
                if i < p - 1 {
                    assert(text_le(prev[i].name, prev[p - 1].name, 0));
                    lemma_text_le_transitive(prev[i].name, prev[p - 1].name, f.name, 0);
                }
            } else if i < p {
                assert(cur[i] == prev[i] && cur[j] == prev[j - 1]);
            } else if i == p {
                assert(cur[j] == prev[j - 1]);
                assert(!text_le(prev[j - 1].name, f.name, 0));
                lemma_text_le_total(f.name, prev[j - 1].name, 0);
            } else {
                assert(cur[i] == prev[i - 1] && cur[j] == prev[j - 1]);
            }
        }
    }
}

/// Ordering by name. The fields ordered by name are the same fields, each
/// as often as before, and each stands in front of the fields whose names
/// come after its own.
pub proof fn law_by_name_orders(fields: Seq<FieldModel>)
    ensures
        by_name(fields).len() == fields.len(),
        by_name(fields).to_multiset() == fields.to_multiset(),
        ordered_by_name(by_name(fields)),
{
    lemma_sorted_by_name(fields, fields.len());
    assert(fields.take(fields.len() as int) =~= fields);
}

proof fn lemma_rank_position(scores: Seq<nat>, order: Seq<usize>, k: int, p: nat)
    requires
        p <= order.len(),
    ensures
        rank_position(scores, order, k, p) <= p,
        rank_position(scores, order, k, p) > 0 ==> scores[order[rank_position(
            scores,
            order,
            k,
            p,
        ) - 1] as int] >= scores[k],
        forall|q: int|
            rank_position(scores, order, k, p) <= q < p ==> scores[(#[trigger] order[q]) as int]
                < scores[k],
    decreases p,
{
    if p > 0 && scores[order[p - 1] as int] < scores[k] {
        lemma_rank_position(scores, order, k, (p - 1) as nat);
    }
}

/// Ranking by score. The ranking of the first `n` places lists each of
/// them once, and each stands in front of the places of a lower score; of
/// two places of one score, the earlier stands in front.
pub proof fn law_ranked_orders(scores: Seq<nat>, n: nat)
    requires
        n <= scores.len(),
        n <= usize::MAX,
    ensures
        ranked(scores, n).len() == n,
        forall|p: int| 0 <= p < n ==> (#[trigger] ranked(scores, n)[p]) < n,
        forall|k: int| 0 <= k < n ==> #[trigger] ranked(scores, n).contains(k as usize),
        forall|p: int, q: int|
            0 <= p < q < n ==> scores[(#[trigger] ranked(scores, n)[p]) as int] >= scores[(
            #[trigger] ranked(scores, n)[q]) as int],
        forall|p: int, q: int|
            0 <= p < q < n && scores[(#[trigger] ranked(scores, n)[p]) as int] == scores[(
            #[trigger] ranked(scores, n)[q]) as int] ==> ranked(scores, n)[p] < ranked(
                scores,
                n,
            )[q],
    decreases n,
{
    if n > 0 {
        law_ranked_orders(scores, (n - 1) as nat);
        let prev = ranked(scores, (n - 1) as nat);
        let k = n - 1;
        lemma_rank_position(scores, prev, k, prev.len());
        let pos = rank_position(scores, prev, k, prev.len()) as int;
        let cur = prev.insert(pos, k as usize);
        assert forall|j: int| 0 <= j < n implies #[trigger] cur.contains(j as usize) by {
            if j < k {
                assert(prev.contains(j as usize));
                let w = choose|w: int| 0 <= w < prev.len() && prev[w] == j as usize;
                if w < pos {
                    assert(cur[w] == j as usize);
                } else {
                    assert(cur[w + 1] == j as usize);
                }
            } else {
                assert(cur[pos] == j as usize);
            }
        }
        assert forall|p: int, q: int| 0 <= p < q < n implies scores[(#[trigger] cur[p]) as int]
            >= scores[(#[trigger] cur[q]) as int] by {
            if q < pos {
                assert(cur[p] == prev[p] && cur[q] == prev[q]);
            } else if q == pos {
                assert(cur[p] == prev[p]);
                if p < pos - 1 {
                    assert(scores[prev[p] as int] >= scores[prev[pos - 1] as int]);
                }
            } else if p < pos {
                assert(cur[p] == prev[p] && cur[q] == prev[q - 1]);
            } else if p == pos {
                assert(cur[q] == prev[q - 1]);
            } else {
                assert(cur[p] == prev[p - 1] && cur[q] == prev[q - 1]);
            }
        }
        assert forall|p: int, q: int|
            0 <= p < q < n && scores[(#[trigger] cur[p]) as int] == scores[(
            #[trigger] cur[q]) as int] implies cur[p] < cur[q] by {
            if q < pos {
                assert(cur[p] == prev[p] && cur[q] == prev[q]);
            } else if q == pos {
                assert(cur[p] == prev[p]);
            } else if p < pos {
                assert(cur[p] == prev[p] && cur[q] == prev[q - 1]);
            } else if p == pos {
                assert(cur[q] == prev[q - 1]);
            } else {
                assert(cur[p] == prev[p - 1] && cur[q] == prev[q - 1]);
            }
        }
        assert forall|p: int| 0 <= p < n implies (#[trigger] cur[p]) < n by {
            if p < pos {
                assert(cur[p] == prev[p]);
            } else if p > pos {
                assert(cur[p] == prev[p - 1]);
            }
        }
    }
}

proof fn lemma_edit_position(sorted: Seq<(usize, usize, Seq<char>)>, start: usize, p: nat)
    requires
        p <= sorted.len(),
    ensures
        edit_position(sorted, start, p) <= p,
        edit_position(sorted, start, p) > 0 ==> sorted[edit_position(sorted, start, p) - 1].0
            <= start,
        forall|q: int| edit_position(sorted, start, p) <= q < p ==> (#[trigger] sorted[q]).0 > start,
    decreases p,
{
    if p > 0 && sorted[p - 1].0 > start {
        lemma_edit_position(sorted, start, (p - 1) as nat);
    }
}

/// Ordering replacements. The replacements ordered by their start are the
/// same replacements, each as often as before, in the order of their starts.
pub proof fn law_sorted_edits_orders(edits: Seq<(usize, usize, Seq<char>)>, n: nat)
    requires
        n <= edits.len(),
    ensures
        sorted_edits(edits, n).len() == n,
        sorted_edits(edits, n).to_multiset() == edits.take(n as int).to_multiset(),
        forall|i: int, j: int|
            0 <= i < j < n ==> (#[trigger] sorted_edits(edits, n)[i]).0 <= (#[trigger] sorted_edits(
                edits,
                n,
            )[j]).0,
    decreases n,
{
    if n == 0 {
        assert(edits.take(0) =~= sorted_edits(edits, 0));
    } else {
        law_sorted_edits_orders(edits, (n - 1) as nat);
        let prev = sorted_edits(edits, (n - 1) as nat);
        let e = edits[n - 1];
        lemma_edit_position(prev, e.0, prev.len());
        let p = edit_position(prev, e.0, prev.len()) as int;
        let cur = prev.insert(p, e);
        to_multiset_insert(prev, p, e);
        to_multiset_build(edits.take(n - 1), e);
        assert(edits.take(n as int) =~= edits.take(n - 1).push(e));
        assert forall|i: int, j: int| 0 <= i < j < n implies (#[trigger] cur[i]).0 <= (
        #[trigger] cur[j]).0 by {
            if j < p {
                assert(cur[i] == prev[i] && cur[j] == prev[j]);
            } else if j == p {
                assert(cur[i] == prev[i]);
                if i < p - 1 {
                    assert(prev[i].0 <= prev[p - 1].0);
                }
            } else if i < p {
                assert(cur[i] == prev[i] && cur[j] == prev[j - 1]);
            } else if i == p {
                assert(cur[j] == prev[j - 1]);
            } else {
                assert(cur[i] == prev[i - 1] && cur[j] == prev[j - 1]);
            }
        }
    }
}

} // verus!
