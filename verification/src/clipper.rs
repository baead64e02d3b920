//! Clipping of a screen-space triangle against the four edges of the viewport.
//!
//! The viewport is the rectangle from `(0, 0)` to `(width, height)`. The edges
//! are taken in a fixed order; at each edge a triangle is dropped, kept, or cut
//! into one or two smaller triangles, which are then clipped in turn.

use vstd::prelude::*;
use crate::fixed::{
    lemma_trunc_div_exact, lemma_trunc_div_fraction, quotient, sat, trunc_div, wide_mul,
};
use crate::triangle::Triangle;
use crate::vec3d::Vec3d;

verus! {

/// One edge of the viewport, with the half-plane beyond it.
#[derive(Copy, Clone, Debug, PartialEq, Eq, Structural)]
pub enum Edge {
    /// `x < 0`
    Left,
    /// `x > width`
    Right,
    /// `y < 0`
    Top,
    /// `y > height`
    Bottom,
}

/// The point reached from `from` toward `to` after the fraction `n / d` of the
/// way, in one coordinate.
pub open spec fn slid(from: int, to: int, n: int, d: int) -> int {
    from + trunc_div((to - from) * n, d)
}

/// A fraction of the way from one value to another lies between the two.
pub proof fn lemma_slid_between(from: int, to: int, n: int, d: int)
    requires
        d != 0,
        (0 <= n <= d) || (d <= n <= 0),
    ensures
        from <= to ==> from <= slid(from, to, n, d) <= to,
        to <= from ==> to <= slid(from, to, n, d) <= from,
{
    lemma_trunc_div_fraction(to - from, n, d);
}

impl Edge {
    /// The coordinate of `v` that this edge bounds.
    pub open spec fn coordinate(self, v: Vec3d) -> int {
        match self {
            Edge::Left | Edge::Right => v.x as int,
            Edge::Top | Edge::Bottom => v.y as int,
        }
    }

    /// The value of that coordinate on the edge.
    pub open spec fn limit(self, width: i32, height: i32) -> int {
        match self {
            Edge::Left | Edge::Top => 0,
            Edge::Right => width as int,
            Edge::Bottom => height as int,
        }
    }

    /// Whether `v` lies strictly beyond this edge.
    pub open spec fn excludes(self, v: Vec3d, width: i32, height: i32) -> bool {
        match self {
            Edge::Left | Edge::Top => self.coordinate(v) < 0,
            Edge::Right | Edge::Bottom => self.coordinate(v) > self.limit(width, height),
        }
    }

    /// The point where the segment from `p`, which this edge admits, to `q`,
    /// which it excludes, meets the edge: each coordinate of `p` moved toward
    /// that of `q` by the same fraction, rounded toward `p`.
    #[verifier::opaque]
    pub open spec fn crossing(self, p: Vec3d, q: Vec3d, width: i32, height: i32) -> Vec3d {
        let n = self.limit(width, height) - self.coordinate(p);
        let d = self.coordinate(q) - self.coordinate(p);
        Vec3d {
            x: sat(slid(p.x as int, q.x as int, n, d)),
            y: sat(slid(p.y as int, q.y as int, n, d)),
            z: sat(slid(p.z as int, q.z as int, n, d)),
        }
    }

    /// A crossing lies on the edge, and in every coordinate between the two
    /// ends of its segment.
    pub proof fn lemma_crossing(self, p: Vec3d, q: Vec3d, width: i32, height: i32)
        requires
            !self.excludes(p, width, height),
            self.excludes(q, width, height),
        ensures
            ({
                let c = self.crossing(p, q, width, height);
                &&& self.coordinate(c) == self.limit(width, height)
                &&& (p.x <= c.x <= q.x || q.x <= c.x <= p.x)
                &&& (p.y <= c.y <= q.y || q.y <= c.y <= p.y)
                &&& (p.z <= c.z <= q.z || q.z <= c.z <= p.z)
            }),
    {
        reveal(Edge::crossing);
        let n = self.limit(width, height) - self.coordinate(p);
        let d = self.coordinate(q) - self.coordinate(p);
        lemma_slid_between(p.x as int, q.x as int, n, d);
        lemma_slid_between(p.y as int, q.y as int, n, d);
        lemma_slid_between(p.z as int, q.z as int, n, d);
        lemma_trunc_div_exact(n, d);
    }

    /// Whether `v` lies strictly beyond this edge.
    pub fn is_beyond(self, v: Vec3d, width: i32, height: i32) -> (b: bool)
        ensures
            b == self.excludes(v, width, height),
    {
        match self {
            Edge::Left => v.x < 0,
            Edge::Right => v.x > width,
            Edge::Top => v.y < 0,
            Edge::Bottom => v.y > height,
        }
    }

    /// The point where the segment from `p` to `q` meets this edge.
    pub fn cross(self, p: Vec3d, q: Vec3d, width: i32, height: i32) -> (c: Vec3d)
        requires
            !self.excludes(p, width, height),
            self.excludes(q, width, height),
        ensures
            c == self.crossing(p, q, width, height),
    {
        let limit: i64 = match self {
            Edge::Left | Edge::Top => 0,
            Edge::Right => width as i64,
            Edge::Bottom => height as i64,
        };
        let from: i64 = match self {
            Edge::Left | Edge::Right => p.x as i64,
            Edge::Top | Edge::Bottom => p.y as i64,
        };
        let to: i64 = match self {
            Edge::Left | Edge::Right => q.x as i64,
            Edge::Top | Edge::Bottom => q.y as i64,
        };
        let n: i64 = limit - from;
        let d: i64 = to - from;
        proof {
            reveal(Edge::crossing);
        }
        Vec3d { x: slide(p.x, q.x, n, d), y: slide(p.y, q.y, n, d), z: slide(p.z, q.z, n, d) }
    }
}

/// Moves `from` toward `to` by the fraction `n / d` of the way.
fn slide(from: i32, to: i32, n: i64, d: i64) -> (r: i32)
    requires
        d != 0,
        (0 <= n <= d) || (d <= n <= 0),
        -0x1_0000_0000 <= d <= 0x1_0000_0000,
    ensures
        r as int == slid(from as int, to as int, n as int, d as int),
        r == sat(slid(from as int, to as int, n as int, d as int)),
{
    let k: i64 = to as i64 - from as i64;
    let t: i128 = quotient(wide_mul(k, n), d as i128);
    proof {
        lemma_slid_between(from as int, to as int, n as int, d as int);
    }
    (from as i128 + t) as i32
}

impl Triangle {
    /// Whether no vertex lies beyond the edge `e`.
    pub open spec fn clear_of(self, e: Edge, width: i32, height: i32) -> bool {
        &&& !e.excludes(self.verticies.0, width, height)
        &&& !e.excludes(self.verticies.1, width, height)
        &&& !e.excludes(self.verticies.2, width, height)
    }

    /// Whether all three vertices lie beyond the edge `e`.
    pub open spec fn wholly_beyond(self, e: Edge, width: i32, height: i32) -> bool {
        &&& e.excludes(self.verticies.0, width, height)
        &&& e.excludes(self.verticies.1, width, height)
        &&& e.excludes(self.verticies.2, width, height)
    }

    /// Whether every vertex lies in the viewport: `0 <= x <= width` and
    /// `0 <= y <= height`.
    pub open spec fn within(self, width: i32, height: i32) -> bool {
        &&& 0 <= self.verticies.0.x <= width && 0 <= self.verticies.0.y <= height
        &&& 0 <= self.verticies.1.x <= width && 0 <= self.verticies.1.y <= height
        &&& 0 <= self.verticies.2.x <= width && 0 <= self.verticies.2.y <= height
    }

    /// Whether the triangle lies fully outside the viewport: all three
    /// vertices lie beyond one and the same edge.
    pub open spec fn beyond(self, width: i32, height: i32) -> bool {
        ||| self.wholly_beyond(Edge::Left, width, height)
        ||| self.wholly_beyond(Edge::Right, width, height)
        ||| self.wholly_beyond(Edge::Top, width, height)
        ||| self.wholly_beyond(Edge::Bottom, width, height)
    }

    /// The first edge, in the order left, right, top, bottom, that some vertex
    /// lies beyond.
    pub open spec fn first_violated(self, width: i32, height: i32) -> Option<Edge> {
        if !self.clear_of(Edge::Left, width, height) {
            Some(Edge::Left)
        } else if !self.clear_of(Edge::Right, width, height) {
            Some(Edge::Right)
        } else if !self.clear_of(Edge::Top, width, height) {
            Some(Edge::Top)
        } else if !self.clear_of(Edge::Bottom, width, height) {
            Some(Edge::Bottom)
        } else {
            None
        }
    }

    /// The number of edges that some vertex lies beyond.
    pub open spec fn violations(self, width: i32, height: i32) -> int {
        (if self.clear_of(Edge::Left, width, height) {
            0int
        } else {
            1int
        }) + (if self.clear_of(Edge::Right, width, height) {
            0int
        } else {
            1int
        }) + (if self.clear_of(Edge::Top, width, height) {
            0int
        } else {
            1int
        }) + (if self.clear_of(Edge::Bottom, width, height) {
            0int
        } else {
            1int
        })
    }

    /// What is left of the triangle on the near side of the edge `e`.
    ///
    /// With all vertices beyond the edge nothing is left, with none the
    /// triangle itself. With two vertices beyond it, the two sides that run to
    /// the third are cut at the edge, which leaves one triangle. With one
    /// vertex beyond it, the two sides that meet there are cut, which leaves a
    /// quadrilateral, given as two triangles. The winding is kept.
    pub open spec fn pieces(self, e: Edge, width: i32, height: i32) -> Seq<Triangle> {
        let a = self.verticies.0;
        let b = self.verticies.1;
        let c = self.verticies.2;
        let out_a = e.excludes(a, width, height);
        let out_b = e.excludes(b, width, height);
        let out_c = e.excludes(c, width, height);
        if out_a {
            if out_b {
                if out_c {
                    Seq::empty()
                } else {
                    seq![
                        self.reshaped(
                            e.crossing(c, a, width, height),
                            e.crossing(c, b, width, height),
                            c,
                        ),
                    ]
                }
            } else if out_c {
                seq![
                    self.reshaped(
                        e.crossing(b, a, width, height),
                        b,
                        e.crossing(b, c, width, height),
                    ),
                ]
            } else {
                seq![
                    self.reshaped(e.crossing(b, a, width, height), b, c),
                    self.reshaped(
                        e.crossing(b, a, width, height),
                        c,
                        e.crossing(c, a, width, height),
                    ),
                ]
            }
        } else if out_b {
            if out_c {
                seq![
                    self.reshaped(
                        a,
                        e.crossing(a, b, width, height),
                        e.crossing(a, c, width, height),
                    ),
                ]
            } else {
                seq![
                    self.reshaped(a, e.crossing(a, b, width, height), c),
                    self.reshaped(
                        e.crossing(a, b, width, height),
                        e.crossing(c, b, width, height),
                        c,
                    ),
                ]
            }
        } else if out_c {
            seq![
                self.reshaped(a, b, e.crossing(a, c, width, height)),
                self.reshaped(
                    e.crossing(a, c, width, height),
                    b,
                    e.crossing(b, c, width, height),
                ),
            ]
        } else {
            seq![self]
        }
    }

    /// The triangles that cover the part of this triangle inside the
    /// viewport.
    ///
    /// A triangle within the viewport stands for itself. Otherwise it is cut
    /// at the first edge that a vertex lies beyond, and each piece is clipped
    /// in turn with one less of the budget. A triangle that still reaches out
    /// of the viewport when the budget is used up is dropped.
    pub open spec fn clipped(self, width: i32, height: i32, budget: int) -> Seq<Triangle>
        decreases budget,
    {
        match self.first_violated(width, height) {
            None => seq![self],
            Some(e) => {
                let parts = self.pieces(e, width, height);
                if budget <= 0 || parts.len() == 0 {
                    Seq::empty()
                } else if parts.len() == 1 {
                    parts[0].clipped(width, height, budget - 1)
                } else {
                    parts[0].clipped(width, height, budget - 1) + parts[1].clipped(
                        width,
                        height,
                        budget - 1,
                    )
                }
            },
        }
    }

    /// Whether `v` lies in the bounding box of the triangle, as seen on the
    /// screen.
    pub open spec fn spans(self, v: Vec3d) -> bool {
        let a = self.verticies.0;
        let b = self.verticies.1;
        let c = self.verticies.2;
        &&& (a.x <= v.x || b.x <= v.x || c.x <= v.x)
        &&& (a.x >= v.x || b.x >= v.x || c.x >= v.x)
        &&& (a.y <= v.y || b.y <= v.y || c.y <= v.y)
        &&& (a.y >= v.y || b.y >= v.y || c.y >= v.y)
    }

    /// Whether all three vertices lie in the bounding box of `whole`, none of
    /// them beyond the edge `e`, and colour and depth are those of `whole`.
    pub open spec fn cut_from(self, whole: Triangle, e: Edge, width: i32, height: i32) -> bool {
        &&& whole.spans(self.verticies.0)
        &&& whole.spans(self.verticies.1)
        &&& whole.spans(self.verticies.2)
        &&& self.clear_of(e, width, height)
        &&& self.color == whole.color
        &&& self.dist == whole.dist
    }

    /// A triangle whose vertices lie in the bounding box of another is clear
    /// of the edges that the other is clear of, and wholly beyond those that
    /// the other is wholly beyond.
    pub proof fn lemma_spanned(self, whole: Triangle, f: Edge, width: i32, height: i32)
        requires
            whole.spans(self.verticies.0),
            whole.spans(self.verticies.1),
            whole.spans(self.verticies.2),
        ensures
            whole.clear_of(f, width, height) ==> self.clear_of(f, width, height),
            whole.wholly_beyond(f, width, height) ==> self.wholly_beyond(f, width, height),
    {
    }

    /// The crossing of a side of the triangle lies in its bounding box and
    /// not beyond the edge.
    proof fn lemma_crossing_spanned(self, e: Edge, p: Vec3d, q: Vec3d, width: i32, height: i32)
        requires
            !e.excludes(p, width, height),
            e.excludes(q, width, height),
            self.spans(p),
            self.spans(q),
        ensures
            self.spans(e.crossing(p, q, width, height)),
            !e.excludes(e.crossing(p, q, width, height), width, height),
    {
        e.lemma_crossing(p, q, width, height);
    }

    /// Cutting at an edge leaves at most two pieces, each cut from the
    /// triangle.
    pub proof fn lemma_pieces_cut(self, e: Edge, width: i32, height: i32)
        ensures
            self.pieces(e, width, height).len() <= 2,
            forall|i: int|
                0 <= i < self.pieces(e, width, height).len() ==> (
                #[trigger] self.pieces(e, width, height)[i]).cut_from(self, e, width, height),
    {
        let a = self.verticies.0;
        let b = self.verticies.1;
        let c = self.verticies.2;
        let out_a = e.excludes(a, width, height);
        let out_b = e.excludes(b, width, height);
        let out_c = e.excludes(c, width, height);
        assert(self.spans(a) && self.spans(b) && self.spans(c));
        if !out_a && out_b {
            self.lemma_crossing_spanned(e, a, b, width, height);
        }
        if !out_a && out_c {
            self.lemma_crossing_spanned(e, a, c, width, height);
        }
        if !out_b && out_a {
            self.lemma_crossing_spanned(e, b, a, width, height);
        }
        if !out_b && out_c {
            self.lemma_crossing_spanned(e, b, c, width, height);
        }
        if !out_c && out_a {
            self.lemma_crossing_spanned(e, c, a, width, height);
        }
        if !out_c && out_b {
            self.lemma_crossing_spanned(e, c, b, width, height);
        }
    }

    /// Cutting at an edge leaves at most two pieces. None of them reaches
    /// beyond that edge; an edge that the triangle is clear of, its pieces are
    /// clear of; and an edge that the triangle lies wholly beyond, its pieces
    /// lie wholly beyond.
    pub proof fn lemma_pieces(self, e: Edge, width: i32, height: i32)
        ensures
            self.pieces(e, width, height).len() <= 2,
            forall|i: int|
                0 <= i < self.pieces(e, width, height).len() ==> {
                    let part = #[trigger] self.pieces(e, width, height)[i];
                    &&& part.clear_of(e, width, height)
                    &&& part.color == self.color
                    &&& part.dist == self.dist
                    &&& forall|f: Edge|
                        self.clear_of(f, width, height) ==> #[trigger] part.clear_of(
                            f,
                            width,
                            height,
                        )
                    &&& forall|f: Edge|
                        self.wholly_beyond(f, width, height) ==> #[trigger] part.wholly_beyond(
                            f,
                            width,
                            height,
                        )
                },
    {
        self.lemma_pieces_cut(e, width, height);
        assert forall|i: int| 0 <= i < self.pieces(e, width, height).len() implies {
            let part = #[trigger] self.pieces(e, width, height)[i];
            &&& part.clear_of(e, width, height)
            &&& part.color == self.color
            &&& part.dist == self.dist
            &&& forall|f: Edge|
                self.clear_of(f, width, height) ==> #[trigger] part.clear_of(f, width, height)
            &&& forall|f: Edge|
                self.wholly_beyond(f, width, height) ==> #[trigger] part.wholly_beyond(
                    f,
                    width,
                    height,
                )
        } by {
            let part = self.pieces(e, width, height)[i];
            assert(part.cut_from(self, e, width, height));
            assert forall|f: Edge| self.clear_of(f, width, height) implies #[trigger] part.clear_of(
                f,
                width,
                height,
            ) by {
                part.lemma_spanned(self, f, width, height);
            }
            assert forall|f: Edge|
                self.wholly_beyond(f, width, height) implies #[trigger] part.wholly_beyond(
                f,
                width,
                height,
            ) by {
                part.lemma_spanned(self, f, width, height);
            }
        }
    }

    /// Cuts the triangle at the edge `e`.
    pub fn split(&self, e: Edge, width: i32, height: i32) -> (parts: Vec<Triangle>)
        ensures
            parts@ == self.pieces(e, width, height),
    {
        let a: Vec3d = self.verticies.0;
        let b: Vec3d = self.verticies.1;
        let c: Vec3d = self.verticies.2;
        let out_a: bool = e.is_beyond(a, width, height);
        let out_b: bool = e.is_beyond(b, width, height);
        let out_c: bool = e.is_beyond(c, width, height);
        let mut parts: Vec<Triangle> = Vec::new();
        if out_a {
            if out_b {
                if !out_c {
                    let c_a: Vec3d = e.cross(c, a, width, height);
                    let b_c: Vec3d = e.cross(c, b, width, height);
                    parts.push(self.reshape(c_a, b_c, c));
                }
            } else {
                let a_b: Vec3d = e.cross(b, a, width, height);
                if out_c {
                    let b_c: Vec3d = e.cross(b, c, width, height);
                    parts.push(self.reshape(a_b, b, b_c));
                } else {
                    let c_a: Vec3d = e.cross(c, a, width, height);
                    parts.push(self.reshape(a_b, b, c));
                    parts.push(self.reshape(a_b, c, c_a));
                }
            }
        } else if out_b {
            let a_b: Vec3d = e.cross(a, b, width, height);
            if out_c {
                let c_a: Vec3d = e.cross(a, c, width, height);
                parts.push(self.reshape(a, a_b, c_a));
            } else {
                let b_c: Vec3d = e.cross(c, b, width, height);
                parts.push(self.reshape(a, a_b, c));
                parts.push(self.reshape(a_b, b_c, c));
            }
        } else if out_c {
            let c_a: Vec3d = e.cross(a, c, width, height);
            let b_c: Vec3d = e.cross(b, c, width, height);
            parts.push(self.reshape(a, b, c_a));
            parts.push(self.reshape(c_a, b, b_c));
        } else {
            parts.push(*self);
        }
        proof {
            assert(parts@ =~= self.pieces(e, width, height));
        }
        parts
    }

    /// Whether some vertex lies beyond the edge `e`.
    fn reaches_beyond(&self, e: Edge, width: i32, height: i32) -> (b: bool)
        ensures
            b == !self.clear_of(e, width, height),
    {
        e.is_beyond(self.verticies.0, width, height) || e.is_beyond(
            self.verticies.1,
            width,
            height,
        ) || e.is_beyond(self.verticies.2, width, height)
    }

    /// The first edge that some vertex lies beyond.
    pub fn first_violated_edge(&self, width: i32, height: i32) -> (e: Option<Edge>)
        ensures
            e == self.first_violated(width, height),
    {
        if self.reaches_beyond(Edge::Left, width, height) {
            Some(Edge::Left)
        } else if self.reaches_beyond(Edge::Right, width, height) {
            Some(Edge::Right)
        } else if self.reaches_beyond(Edge::Top, width, height) {
            Some(Edge::Top)
        } else if self.reaches_beyond(Edge::Bottom, width, height) {
            Some(Edge::Bottom)
        } else {
            None
        }
    }

    /// Clip the Triangle so that no part of it is rendered off the screen.
    ///
    /// Returns the triangles that replace it, every vertex of them in the
    /// viewport. `depth_budget` bounds how many times in a row a piece may be
    /// cut again; four is always enough.
    pub fn clip(&mut self, x_bound: i32, y_bound: i32, depth_budget: i32) -> (out: Vec<Triangle>)
        ensures
            *final(self) == *old(self),
            out@ == old(self).clipped(x_bound, y_bound, depth_budget as int),
            forall|i: int| 0 <= i < out@.len() ==> (#[trigger] out@[i]).within(x_bound, y_bound),
            old(self).within(x_bound, y_bound) ==> out@ == seq![*old(self)] && total_doubled_area(
                out@,
            ) == old(self).doubled_area(),
            old(self).beyond(x_bound, y_bound) ==> out@.len() == 0,
            depth_budget >= 4 ==> out@ == old(self).clipped(x_bound, y_bound, 4),
        decreases depth_budget,
    {
        proof {
            if self.beyond(x_bound, y_bound) {
                self.lemma_beyond_clips_to_nothing(x_bound, y_bound, depth_budget as int);
            }
            if self.within(x_bound, y_bound) {
                self.lemma_within_keeps_area(x_bound, y_bound, depth_budget as int);
            }
            if depth_budget >= 4 {
                self.lemma_four_levels_suffice(x_bound, y_bound, depth_budget as int);
            }
        }
        match self.first_violated_edge(x_bound, y_bound) {
            None => {
                let mut out: Vec<Triangle> = Vec::new();
                out.push(*self);
                assert(out@ =~= seq![*self]);
                out
            },
            Some(e) => {
                let parts: Vec<Triangle> = self.split(e, x_bound, y_bound);
                proof {
                    self.lemma_pieces(e, x_bound, y_bound);
                }
                if depth_budget <= 0 || parts.len() == 0 {
                    Vec::new()
                } else if parts.len() == 1 {
                    let mut first: Triangle = parts[0];
                    first.clip(x_bound, y_bound, depth_budget - 1)
                } else {
                    let mut first: Triangle = parts[0];
                    let mut second: Triangle = parts[1];
                    let mut out: Vec<Triangle> = first.clip(x_bound, y_bound, depth_budget - 1);
                    let mut rest: Vec<Triangle> = second.clip(x_bound, y_bound, depth_budget - 1);
                    out.append(&mut rest);
                    out
                }
            },
        }
    }

    /// A triangle that lies fully outside the viewport clips to nothing,
    /// whatever the budget.
    pub proof fn lemma_beyond_clips_to_nothing(self, width: i32, height: i32, budget: int)
        requires
            self.beyond(width, height),
        ensures
            self.clipped(width, height, budget).len() == 0,
        decreases budget,
    {
        let e = self.first_violated(width, height).unwrap();
        let parts = self.pieces(e, width, height);
        self.lemma_pieces(e, width, height);
        if budget > 0 && parts.len() > 0 {
            assert(parts[0].beyond(width, height));
            parts[0].lemma_beyond_clips_to_nothing(width, height, budget - 1);
            if parts.len() == 2 {
                assert(parts[1].beyond(width, height));
                parts[1].lemma_beyond_clips_to_nothing(width, height, budget - 1);
            }
        }
    }

    /// Each piece that a cut leaves reaches beyond fewer edges than the
    /// triangle that was cut.
    pub proof fn lemma_pieces_violate_less(self, width: i32, height: i32)
        requires
            self.first_violated(width, height).is_some(),
        ensures
            ({
                let parts = self.pieces(
                    self.first_violated(width, height).unwrap(),
                    width,
                    height,
                );
                forall|i: int|
                    0 <= i < parts.len() ==> (#[trigger] parts[i]).violations(width, height)
                        < self.violations(width, height)
            }),
    {
        let e = self.first_violated(width, height).unwrap();
        let parts = self.pieces(e, width, height);
        self.lemma_pieces(e, width, height);
        assert forall|i: int| 0 <= i < parts.len() implies (#[trigger] parts[i]).violations(
            width,
            height,
        ) < self.violations(width, height) by {
            let part = parts[i];
            assert(part.clear_of(e, width, height));
            assert(self.clear_of(Edge::Left, width, height) ==> part.clear_of(
                Edge::Left,
                width,
                height,
            ));
            assert(self.clear_of(Edge::Right, width, height) ==> part.clear_of(
                Edge::Right,
                width,
                height,
            ));
            assert(self.clear_of(Edge::Top, width, height) ==> part.clear_of(
                Edge::Top,
                width,
                height,
            ));
            assert(self.clear_of(Edge::Bottom, width, height) ==> part.clear_of(
                Edge::Bottom,
                width,
                height,
            ));
        }
    }

    /// The budget does not matter once it covers the edges that the triangle
    /// reaches beyond: every cut settles one edge for good.
    pub proof fn lemma_budget_suffices(self, width: i32, height: i32, budget: int, other: int)
        requires
            budget >= self.violations(width, height),
            other >= self.violations(width, height),
        ensures
            self.clipped(width, height, budget) == self.clipped(width, height, other),
        decreases budget,
    {
        match self.first_violated(width, height) {
            None => {},
            Some(e) => {
                let parts = self.pieces(e, width, height);
                self.lemma_pieces(e, width, height);
                self.lemma_pieces_violate_less(width, height);
                if parts.len() >= 1 {
                    parts[0].lemma_budget_suffices(width, height, budget - 1, other - 1);
                }
                if parts.len() == 2 {
                    parts[1].lemma_budget_suffices(width, height, budget - 1, other - 1);
                }
            },
        }
    }

    /// A budget of four is always enough: a larger one changes nothing.
    pub proof fn lemma_four_levels_suffice(self, width: i32, height: i32, budget: int)
        requires
            budget >= 4,
        ensures
            self.clipped(width, height, budget) == self.clipped(width, height, 4),
    {
        self.lemma_budget_suffices(width, height, budget, 4);
    }

    /// Every triangle that clipping returns lies within the viewport, and has
    /// the colour and the depth of the triangle that was clipped.
    pub proof fn lemma_clipped_contained(self, width: i32, height: i32, budget: int)
        ensures
            forall|i: int|
                0 <= i < self.clipped(width, height, budget).len() ==> {
                    let t = #[trigger] self.clipped(width, height, budget)[i];
                    &&& t.within(width, height)
                    &&& t.color == self.color
                    &&& t.dist == self.dist
                },
        decreases budget,
    {
        let out = self.clipped(width, height, budget);
        match self.first_violated(width, height) {
            None => {},
            Some(e) => {
                let parts = self.pieces(e, width, height);
                self.lemma_pieces(e, width, height);
                if budget > 0 && parts.len() >= 1 {
                    let first = parts[0].clipped(width, height, budget - 1);
                    parts[0].lemma_clipped_contained(width, height, budget - 1);
                    if parts.len() == 2 {
                        let second = parts[1].clipped(width, height, budget - 1);
                        parts[1].lemma_clipped_contained(width, height, budget - 1);
                        assert forall|i: int| 0 <= i < out.len() implies {
                            let t = #[trigger] out[i];
                            &&& t.within(width, height)
                            &&& t.color == self.color
                            &&& t.dist == self.dist
                        } by {
                            if i < first.len() {
                                assert(out[i] == first[i]);
                            } else {
                                assert(out[i] == second[i - first.len()]);
                            }
                        }
                    }
                }
            },
        }
    }

    /// Twice the area that the triangle covers on the screen.
    pub open spec fn doubled_area(self) -> int {
        let a = self.verticies.0;
        let b = self.verticies.1;
        let c = self.verticies.2;
        let signed = (b.x - a.x) * (c.y - a.y) - (c.x - a.x) * (b.y - a.y);
        if signed < 0 {
            -signed
        } else {
            signed
        }
    }

    /// A triangle that lies within the viewport is returned as it is, so the
    /// area that the result covers is the area of the triangle.
    pub proof fn lemma_within_keeps_area(self, width: i32, height: i32, budget: int)
        requires
            self.within(width, height),
        ensures
            self.clipped(width, height, budget) == seq![self],
            total_doubled_area(self.clipped(width, height, budget)) == self.doubled_area(),
    {
        let out = self.clipped(width, height, budget);
        assert(out.drop_last() =~= Seq::<Triangle>::empty());
        reveal_with_fuel(total_doubled_area, 2);
    }
}

/// Twice the area that the triangles cover on the screen, taken together.
pub open spec fn total_doubled_area(triangles: Seq<Triangle>) -> int
    decreases triangles.len(),
{
    if triangles.len() == 0 {
        0
    } else {
        total_doubled_area(triangles.drop_last()) + triangles.last().doubled_area()
    }
}

} // verus!
