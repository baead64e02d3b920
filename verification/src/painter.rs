//! The painter's algorithm: triangles ordered from the farthest to the
//! nearest, so that drawing them in order lets the near ones cover the far
//! ones.

use vstd::prelude::*;
use vstd::seq_lib::{lemma_multiset_commutative, to_multiset_build};
use crate::triangle::Triangle;

verus! {

/// Whether the triangles are in order of descending depth.
pub open spec fn farthest_first(triangles: Seq<Triangle>) -> bool {
    forall|i: int, j: int| 0 <= i < j < triangles.len() ==> triangles[i].dist >= triangles[j].dist
}

/// The triangles of the given depth, in the order in which they stand.
pub open spec fn at_depth(triangles: Seq<Triangle>, depth: i32) -> Seq<Triangle>
    decreases triangles.len(),
{
    if triangles.len() == 0 {
        Seq::empty()
    } else if triangles.last().dist == depth {
        at_depth(triangles.drop_last(), depth).push(triangles.last())
    } else {
        at_depth(triangles.drop_last(), depth)
    }
}

/// Whether `sorted` holds the triangles of `given` in order of descending
/// depth, those of equal depth in the order in which they stand in `given`.
/// There is one such sequence for each `given`.
pub open spec fn painted(given: Seq<Triangle>, sorted: Seq<Triangle>) -> bool {
    &&& farthest_first(sorted)
    &&& forall|depth: i32| #[trigger] at_depth(sorted, depth) == at_depth(given, depth)
}

/// A triangle added at the end joins those of its depth at their end.
pub proof fn lemma_at_depth_push(triangles: Seq<Triangle>, t: Triangle, depth: i32)
    ensures
        at_depth(triangles.push(t), depth) == if t.dist == depth {
            at_depth(triangles, depth).push(t)
        } else {
            at_depth(triangles, depth)
        },
{
    assert(triangles.push(t).drop_last() =~= triangles);
}

/// The triangles of a depth in two sequences, one after the other, are those
/// in the first and then those in the second.
pub proof fn lemma_at_depth_concat(a: Seq<Triangle>, b: Seq<Triangle>, depth: i32)
    ensures
        at_depth(a + b, depth) == at_depth(a, depth) + at_depth(b, depth),
    decreases b.len(),
{
    if b.len() == 0 {
        assert(a + b =~= a);
        assert(at_depth(a, depth) + at_depth(b, depth) =~= at_depth(a, depth));
    } else {
        lemma_at_depth_concat(a, b.drop_last(), depth);
        assert((a + b).drop_last() =~= a + b.drop_last());
        assert((a + b).last() == b.last());
        if b.last().dist == depth {
            assert((at_depth(a, depth) + at_depth(b.drop_last(), depth)).push(b.last())
                =~= at_depth(a, depth) + at_depth(b.drop_last(), depth).push(b.last()));
        }
    }
}

/// Where no triangle has the depth, none is found at it.
pub proof fn lemma_at_depth_none(triangles: Seq<Triangle>, depth: i32)
    requires
        forall|i: int| 0 <= i < triangles.len() ==> triangles[i].dist != depth,
    ensures
        at_depth(triangles, depth).len() == 0,
    decreases triangles.len(),
{
    if triangles.len() > 0 {
        assert forall|i: int| 0 <= i < triangles.drop_last().len() implies triangles.drop_last()[i].dist
            != depth by {
            assert(triangles.drop_last()[i] == triangles[i]);
        }
        lemma_at_depth_none(triangles.drop_last(), depth);
    }
}

/// In a sequence in order of descending depth no triangle is nearer than
/// the last.
proof fn lemma_last_is_nearest(triangles: Seq<Triangle>, depth: i32)
    requires
        farthest_first(triangles),
        triangles.len() > 0,
        at_depth(triangles, depth).len() > 0,
    ensures
        depth >= triangles.last().dist,
{
    if depth < triangles.last().dist {
        assert forall|i: int| 0 <= i < triangles.len() implies triangles[i].dist != depth by {
            if i < triangles.len() - 1 {
                assert(triangles[i].dist >= triangles[triangles.len() - 1].dist);
            }
        }
        lemma_at_depth_none(triangles, depth);
    }
}

/// There is at most one way to paint a sequence: two sequences in order of
/// descending depth that hold the same triangles at every depth, in the same
/// order, are equal.
pub proof fn lemma_painted_unique(given: Seq<Triangle>, a: Seq<Triangle>, b: Seq<Triangle>)
    requires
        painted(given, a),
        painted(given, b),
    ensures
        a == b,
    decreases a.len(),
{
    if a.len() == 0 {
        if b.len() > 0 {
            let depth = b.last().dist;
            assert(at_depth(b, depth) == at_depth(given, depth));
            assert(at_depth(a, depth) == at_depth(given, depth));
        }
        assert(a =~= b);
    } else {
        let depth = a.last().dist;
        assert(at_depth(a, depth) == at_depth(given, depth));
        assert(at_depth(b, depth) == at_depth(given, depth));
        assert(b.len() > 0);
        let other = b.last().dist;
        assert(at_depth(a, other) == at_depth(given, other));
        assert(at_depth(b, other) == at_depth(given, other));
        lemma_last_is_nearest(b, depth);
        lemma_last_is_nearest(a, other);
        assert(depth == other);
        assert(a.last() == at_depth(a, depth).last());
        assert(b.last() == at_depth(b, depth).last());
        let front_a = a.drop_last();
        let front_b = b.drop_last();
        assert forall|d: i32| #[trigger] at_depth(front_b, d) == at_depth(front_a, d) by {
            assert(at_depth(a, d) == at_depth(given, d));
            assert(at_depth(b, d) == at_depth(given, d));
            if d == depth {
                assert(at_depth(a, d).drop_last() =~= at_depth(front_a, d));
                assert(at_depth(b, d).drop_last() =~= at_depth(front_b, d));
            }
        }
        assert(farthest_first(front_a)) by {
            assert forall|i: int, j: int| 0 <= i < j < front_a.len() implies front_a[i].dist
                >= front_a[j].dist by {
                assert(front_a[i] == a[i] && front_a[j] == a[j]);
            }
        }
        assert(farthest_first(front_b)) by {
            assert forall|i: int, j: int| 0 <= i < j < front_b.len() implies front_b[i].dist
                >= front_b[j].dist by {
                assert(front_b[i] == b[i] && front_b[j] == b[j]);
            }
        }
        lemma_painted_unique(front_a, front_a, front_b);
        assert(a =~= front_a.push(a.last()));
        assert(b =~= front_b.push(b.last()));
    }
}

/// Merges two runs in order of descending depth into one. Of two triangles
/// of the same depth the one from `left` comes first.
fn merge(left: &Vec<Triangle>, right: &Vec<Triangle>) -> (out: Vec<Triangle>)
    requires
        farthest_first(left@),
        farthest_first(right@),
        left.len() + right.len() <= usize::MAX,
    ensures
        painted(left@ + right@, out@),
        out@.to_multiset() == left@.to_multiset().add(right@.to_multiset()),
        out@.len() == left@.len() + right@.len(),
{
    let mut out: Vec<Triangle> = Vec::new();
    let mut i: usize = 0;
    let mut j: usize = 0;
    proof {
        assert(left@.subrange(0, 0) =~= Seq::<Triangle>::empty());
        assert(right@.subrange(0, 0) =~= Seq::<Triangle>::empty());
        lemma_multiset_commutative(Seq::<Triangle>::empty(), Seq::<Triangle>::empty());
        assert(Seq::<Triangle>::empty() + Seq::<Triangle>::empty() =~= Seq::<Triangle>::empty());
    }
    while i < left.len() || j < right.len()
        invariant
            0 <= i <= left.len(),
            0 <= j <= right.len(),
            left.len() + right.len() <= usize::MAX,
            farthest_first(left@),
            farthest_first(right@),
            farthest_first(out@),
            out@.len() == i + j,
            out@.to_multiset() == left@.subrange(0, i as int).to_multiset().add(
                right@.subrange(0, j as int).to_multiset(),
            ),
            forall|depth: i32| #[trigger]
                at_depth(out@, depth) == at_depth(left@.subrange(0, i as int), depth) + at_depth(
                    right@.subrange(0, j as int),
                    depth,
                ),
            forall|k: int| 0 <= k < j && i < left.len() ==> right@[k].dist > left@[i as int].dist,
            forall|k: int| 0 <= k < out@.len() && i < left.len() ==> out@[k].dist >= left@[i as int].dist,
            forall|k: int| 0 <= k < out@.len() && j < right.len() ==> out@[k].dist >= right@[j as int].dist,
        decreases left.len() - i + right.len() - j,
    {
        let ghost before = out@;
        let ghost taken_left = left@.subrange(0, i as int);
        let ghost taken_right = right@.subrange(0, j as int);
        let take_left: bool = if i >= left.len() {
            false
        } else if j >= right.len() {
            true
        } else {
            left[i].dist >= right[j].dist
        };
        if take_left {
            let t: Triangle = left[i];
            out.push(t);
            proof {
                to_multiset_build(before, t);
                to_multiset_build(left@.subrange(0, i as int), t);
                assert(left@.subrange(0, i as int).push(t) =~= left@.subrange(0, i as int + 1));
                assert(out@.to_multiset() =~= left@.subrange(0, i as int + 1).to_multiset().add(
                    right@.subrange(0, j as int).to_multiset(),
                ));
                assert forall|depth: i32| #[trigger]
                    at_depth(out@, depth) == at_depth(left@.subrange(0, i as int + 1), depth)
                        + at_depth(taken_right, depth) by {
                    lemma_at_depth_push(before, t, depth);
                    lemma_at_depth_push(taken_left, t, depth);
                    if t.dist == depth {
                        assert forall|k: int| 0 <= k < taken_right.len() implies taken_right[k].dist
                            != depth by {
                            assert(taken_right[k] == right@[k]);
                        }
                        lemma_at_depth_none(taken_right, depth);
                        assert(at_depth(taken_left, depth) + at_depth(taken_right, depth)
                            =~= at_depth(taken_left, depth));
                        assert(at_depth(taken_left, depth).push(t) + at_depth(
                            taken_right,
                            depth,
                        ) =~= at_depth(taken_left, depth).push(t));
                    }
                }
            }
            i = i + 1;
        } else {
            let t: Triangle = right[j];
            out.push(t);
            proof {
                to_multiset_build(before, t);
                to_multiset_build(right@.subrange(0, j as int), t);
                assert(right@.subrange(0, j as int).push(t) =~= right@.subrange(0, j as int + 1));
                assert(out@.to_multiset() =~= left@.subrange(0, i as int).to_multiset().add(
                    right@.subrange(0, j as int + 1).to_multiset(),
                ));
                assert forall|depth: i32| #[trigger]
                    at_depth(out@, depth) == at_depth(taken_left, depth) + at_depth(
                        right@.subrange(0, j as int + 1),
                        depth,
                    ) by {
                    lemma_at_depth_push(before, t, depth);
                    lemma_at_depth_push(taken_right, t, depth);
                    if t.dist == depth {
                        assert((at_depth(taken_left, depth) + at_depth(taken_right, depth)).push(t)
                            =~= at_depth(taken_left, depth) + at_depth(taken_right, depth).push(
                            t,
                        ));
                    }
                }
            }
            j = j + 1;
        }
    }
    proof {
        assert(left@.subrange(0, i as int) =~= left@);
        assert(right@.subrange(0, j as int) =~= right@);
        assert forall|depth: i32| #[trigger]
            at_depth(out@, depth) == at_depth(left@ + right@, depth) by {
            lemma_at_depth_concat(left@, right@, depth);
        }
    }
    out
}

/// Sorts the triangles from index `lo` up to `hi` by descending depth.
fn sort_range(triangles: &Vec<Triangle>, lo: usize, hi: usize) -> (out: Vec<Triangle>)
    requires
        lo <= hi <= triangles.len(),
    ensures
        painted(triangles@.subrange(lo as int, hi as int), out@),
        out@.to_multiset() == triangles@.subrange(lo as int, hi as int).to_multiset(),
        out@.len() == hi - lo,
    decreases hi - lo,
{
    if hi - lo <= 1 {
        let mut out: Vec<Triangle> = Vec::new();
        if hi - lo == 1 {
            out.push(triangles[lo]);
        }
        proof {
            assert(out@ =~= triangles@.subrange(lo as int, hi as int));
        }
        out
    } else {
        let mid: usize = lo + (hi - lo) / 2;
        let left: Vec<Triangle> = sort_range(triangles, lo, mid);
        let right: Vec<Triangle> = sort_range(triangles, mid, hi);
        proof {
            lemma_multiset_commutative(
                triangles@.subrange(lo as int, mid as int),
                triangles@.subrange(mid as int, hi as int),
            );
            assert(triangles@.subrange(lo as int, mid as int) + triangles@.subrange(
                mid as int,
                hi as int,
            ) =~= triangles@.subrange(lo as int, hi as int));
        }
        let out: Vec<Triangle> = merge(&left, &right);
        proof {
            assert forall|depth: i32| #[trigger]
                at_depth(out@, depth) == at_depth(
                    triangles@.subrange(lo as int, hi as int),
                    depth,
                ) by {
                lemma_at_depth_concat(left@, right@, depth);
                lemma_at_depth_concat(
                    triangles@.subrange(lo as int, mid as int),
                    triangles@.subrange(mid as int, hi as int),
                    depth,
                );
                assert(at_depth(left@, depth) == at_depth(
                    triangles@.subrange(lo as int, mid as int),
                    depth,
                ));
                assert(at_depth(right@, depth) == at_depth(
                    triangles@.subrange(mid as int, hi as int),
                    depth,
                ));
            }
        }
        out
    }
}

impl Triangle {
    /// Sort an array of Triangle's according to depth, the farthest first.
    ///
    /// The result holds the same triangles, each as often as the input does,
    /// and those of equal depth in the order in which they came.
    pub fn painters_algorithm(projected_triangles: &Vec<Triangle>) -> (out: Vec<Triangle>)
        ensures
            painted(projected_triangles@, out@),
            farthest_first(out@),
            out@.to_multiset() == projected_triangles@.to_multiset(),
            out@.len() == projected_triangles@.len(),
            forall|i: int|
                0 <= i < out@.len() - 1 ==> (#[trigger] out@[i]).dist >= out@[i + 1].dist,
    {
        let out: Vec<Triangle> = sort_range(projected_triangles, 0, projected_triangles.len());
        proof {
            assert(projected_triangles@.subrange(0, projected_triangles@.len() as int)
                =~= projected_triangles@);
            assert forall|i: int| 0 <= i < out@.len() - 1 implies (#[trigger] out@[i]).dist
                >= out@[i + 1].dist by {
                assert(out@[i].dist >= out@[i + 1].dist);
            }
        }
        out
    }
}

} // verus!
