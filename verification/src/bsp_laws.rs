use crate::bsp::{halves, lemma_rooms_enclosed, BspContent, BspNode};
use crate::rect::Rect;
use vstd::prelude::*;

verus! {

/// The sum of the areas of the rectangles.
pub open spec fn total_area(rects: Seq<Rect>) -> int
    decreases rects.len(),
{
    if rects.len() == 0 {
        0
    } else {
        total_area(rects.drop_last()) + rects.last().area()
    }
}

/// The cells of `whole` are the cells of the rectangles, taken together.
pub open spec fn covers_exactly(rects: Seq<Rect>, whole: Rect) -> bool {
    forall|px: int, py: int| #[trigger]
        whole.has_cell(px, py) <==> exists|i: int|
            0 <= i < rects.len() && (#[trigger] rects[i]).has_cell(px, py)
}

/// No cell lies in two of the rectangles.
pub open spec fn pairwise_disjoint(rects: Seq<Rect>) -> bool {
    forall|i: int, j: int, px: int, py: int|
        0 <= i < j < rects.len() ==> !(#[trigger] rects[i].has_cell(px, py)
            && #[trigger] rects[j].has_cell(px, py))
}

/// The area of two runs of rectangles is the sum of their areas.
pub proof fn lemma_total_area_concat(a: Seq<Rect>, b: Seq<Rect>)
    ensures
        total_area(a + b) == total_area(a) + total_area(b),
    decreases b.len(),
{
    if b.len() == 0 {
        assert(a + b =~= a);
    } else {
        lemma_total_area_concat(a, b.drop_last());
        assert((a + b).drop_last() =~= a + b.drop_last());
        assert((a + b).last() == b.last());
    }
}

/// The leaves of a partition tile the rectangle of its root: every cell of
/// the root lies in a leaf and every cell of a leaf in the root, no cell lies
/// in two leaves, and the areas of the leaves add up to the area of the root.
pub proof fn lemma_leaves_partition(node: BspNode)
    requires
        node.wf(),
    ensures
        covers_exactly(node.leaf_rects(), node.rect),
        pairwise_disjoint(node.leaf_rects()),
        total_area(node.leaf_rects()) == node.rect.w * node.rect.h,
    decreases node,
{
    let leaves = node.leaf_rects();
    match node.content {
        BspContent::Leaf { room } => {
            assert(leaves.drop_last() =~= Seq::<Rect>::empty());
            assert(total_area(leaves.drop_last()) == 0);
            assert forall|px: int, py: int| #[trigger]
                node.rect.has_cell(px, py) <==> exists|i: int|
                    0 <= i < leaves.len() && (#[trigger] leaves[i]).has_cell(px, py) by {
                if node.rect.has_cell(px, py) {
                    assert(leaves[0].has_cell(px, py));
                }
            }
        },
        BspContent::Split { left, right } => {
            lemma_leaves_partition(*left);
            lemma_leaves_partition(*right);
            let l = left.leaf_rects();
            let r = right.leaf_rects();
            let a = left.rect;
            let b = right.rect;
            let whole = node.rect;
            lemma_total_area_concat(l, r);
            lemma_halves_tile(whole, a, b);
            assert forall|px: int, py: int| #[trigger]
                whole.has_cell(px, py) <==> exists|i: int|
                    0 <= i < leaves.len() && (#[trigger] leaves[i]).has_cell(px, py) by {
                if whole.has_cell(px, py) {
                    if a.has_cell(px, py) {
                        let i = choose|i: int| 0 <= i < l.len() && (#[trigger] l[i]).has_cell(px, py);
                        assert(leaves[i] == l[i]);
                        assert(leaves[i].has_cell(px, py));
                    } else {
                        assert(b.has_cell(px, py));
                        let j = choose|j: int| 0 <= j < r.len() && (#[trigger] r[j]).has_cell(px, py);
                        assert(leaves[l.len() + j] == r[j]);
                        assert(leaves[l.len() + j].has_cell(px, py));
                    }
                }
                if exists|i: int| 0 <= i < leaves.len() && (#[trigger] leaves[i]).has_cell(px, py) {
                    let i = choose|i: int|
                        0 <= i < leaves.len() && (#[trigger] leaves[i]).has_cell(px, py);
                    if i < l.len() {
                        assert(leaves[i] == l[i]);
                        assert(l[i].has_cell(px, py));
                        assert(a.has_cell(px, py));
                    } else {
                        assert(leaves[i] == r[i - l.len()]);
                        assert(r[i - l.len()].has_cell(px, py));
                        assert(b.has_cell(px, py));
                    }
                }
            }
            assert forall|i: int, j: int, px: int, py: int| 0 <= i < j < leaves.len() implies !(
            #[trigger] leaves[i].has_cell(px, py) && #[trigger] leaves[j].has_cell(px, py)) by {
                if leaves[i].has_cell(px, py) && leaves[j].has_cell(px, py) {
                    if j < l.len() {
                        assert(leaves[i] == l[i] && leaves[j] == l[j]);
                        assert(l[i].has_cell(px, py) && l[j].has_cell(px, py));
                    } else if i >= l.len() {
                        assert(leaves[i] == r[i - l.len()] && leaves[j] == r[j - l.len()]);
                        assert(r[i - l.len()].has_cell(px, py) && r[j - l.len()].has_cell(px, py));
                    } else {
                        assert(leaves[i] == l[i] && leaves[j] == r[j - l.len()]);
                        assert(l[i].has_cell(px, py));
                        assert(r[j - l.len()].has_cell(px, py));
                        assert(a.has_cell(px, py));
                        assert(b.has_cell(px, py));
                    }
                }
            }
        },
    }
}

/// The two parts of a cut tile the rectangle that was cut.
pub proof fn lemma_halves_tile(whole: Rect, a: Rect, b: Rect)
    requires
        whole.valid(),
        crate::bsp::splits_into(whole, a, b),
    ensures
        forall|px: int, py: int| #[trigger]
            whole.has_cell(px, py) <==> a.has_cell(px, py) || b.has_cell(px, py),
        forall|px: int, py: int| !(#[trigger] a.has_cell(px, py) && b.has_cell(px, py)),
        a.w * a.h + b.w * b.h == whole.w * whole.h,
        whole.encloses(a),
        whole.encloses(b),
{
    if exists|k: int| 0 < k < whole.w && #[trigger] halves(whole, true, k) == (a, b) {
        let k = choose|k: int| 0 < k < whole.w && #[trigger] halves(whole, true, k) == (a, b);
        assert(a.w == k && b.w == whole.w - k && a.h == whole.h && b.h == whole.h);
        assert(k * whole.h + (whole.w - k) * whole.h == whole.w * whole.h) by (nonlinear_arith);
    } else {
        let k = choose|k: int| 0 < k < whole.h && #[trigger] halves(whole, false, k) == (a, b);
        assert(a.h == k && b.h == whole.h - k && a.w == whole.w && b.w == whole.w);
        assert(whole.w * k + whole.w * (whole.h - k) == whole.w * whole.h) by (nonlinear_arith);
    }
}

/// Once rooms are placed, the leaves and the rooms go in pairs: each leaf has
/// one room, at least as large as the smallest room, inside the leaf with a
/// free cell on every side.
pub proof fn lemma_rooms_in_leaves(node: BspNode)
    requires
        node.wf(),
        node.furnished(),
    ensures
        node.leaf_rooms().len() == node.leaf_rects().len(),
        forall|i: int|
            0 <= i < node.leaf_rects().len() ==> (#[trigger] node.leaf_rects()[i]).holds_with_margin(
                node.leaf_rooms()[i],
            ),
        forall|i: int|
            0 <= i < node.leaf_rooms().len() ==> (#[trigger] node.leaf_rooms()[i]).w
                >= node.min_room_size && node.leaf_rooms()[i].h >= node.min_room_size,
        node.first_room().is_some(),
    decreases node,
{
    match node.content {
        BspContent::Leaf { room } => {},
        BspContent::Split { left, right } => {
            lemma_rooms_in_leaves(*left);
            lemma_rooms_in_leaves(*right);
            let n = left.leaf_rects().len();
            assert forall|i: int| 0 <= i < node.leaf_rects().len() implies (
            #[trigger] node.leaf_rects()[i]).holds_with_margin(node.leaf_rooms()[i]) by {
                if i < n {
                    assert(node.leaf_rects()[i] == left.leaf_rects()[i]);
                    assert(node.leaf_rooms()[i] == left.leaf_rooms()[i]);
                } else {
                    assert(node.leaf_rects()[i] == right.leaf_rects()[i - n]);
                    assert(node.leaf_rooms()[i] == right.leaf_rooms()[i - n]);
                }
            }
            assert forall|i: int| 0 <= i < node.leaf_rooms().len() implies (
            #[trigger] node.leaf_rooms()[i]).w >= node.min_room_size && node.leaf_rooms()[i].h
                >= node.min_room_size by {
                if i < n {
                    assert(node.leaf_rooms()[i] == left.leaf_rooms()[i]);
                } else {
                    assert(node.leaf_rooms()[i] == right.leaf_rooms()[i - n]);
                }
            }
        },
    }
}

/// In a partition every corridor lies inside the rectangle of every node
/// above it, and is not empty.
pub proof fn lemma_passages_enclosed(node: BspNode)
    requires
        node.wf(),
    ensures
        forall|j: int|
            0 <= j < node.passages().len() ==> node.rect.encloses(#[trigger] node.passages()[j])
                && node.passages()[j].w > 0 && node.passages()[j].h > 0,
    decreases node,
{
    match node.content {
        BspContent::Leaf { room } => {},
        BspContent::Split { left, right } => {
            lemma_passages_enclosed(*left);
            lemma_passages_enclosed(*right);
            lemma_rooms_enclosed(*left);
            lemma_rooms_enclosed(*right);
            lemma_halves_tile(node.rect, left.rect, right.rect);
            let lp = left.passages();
            let rp = right.passages();
            let all = node.passages();
            let between = crate::bsp::link(left.first_room(), right.first_room());
            assert(all == lp + rp + between);
            assert forall|j: int| 0 <= j < all.len() implies node.rect.encloses(#[trigger] all[j])
                && all[j].w > 0 && all[j].h > 0 by {
                if j < lp.len() {
                    assert(all[j] == lp[j]);
                } else if j < lp.len() + rp.len() {
                    assert(all[j] == rp[j - lp.len()]);
                } else {
                    let a = left.first_room().unwrap();
                    let b = right.first_room().unwrap();
                    assert(a == left.leaf_rooms()[0]);
                    assert(b == right.leaf_rooms()[0]);
                    assert(all[j] == between[j - lp.len() - rp.len()]);
                    assert(between == crate::bsp::corridor(a, b));
                }
            }
        },
    }
}

} // verus!
