//! Ear clipping: cutting a simple polygon into triangles by removing one "ear"
//! (a corner whose triangle holds no other vertex) at a time.
//!
//! The geometry (orientation of corners, pointiness of a corner) is measured in
//! floating point by the caller; this module holds the combinatorial part: the
//! polygon's cycle of remaining vertices, the choice of the ear to cut, and the
//! triangles that the cuts produce.
use vstd::prelude::*;

verus! {

/// The turning direction of a corner `p1 -> p2 -> p3`.
#[derive(PartialEq, Eq, Structural, Debug, Clone, Copy)]
pub enum Orient {
    Ccw,
    Cw,
    Collinear,
}

/// The orientation of a corner, given how its cross product compares with zero:
/// a negative cross product is a counter-clockwise turn, a positive one a
/// clockwise turn, and zero means the three points are collinear.
pub fn corner_orientation(cross_vs_zero: std::cmp::Ordering) -> (r: Orient)
    ensures
        (cross_vs_zero is Less) <==> (r == Orient::Ccw),
        (cross_vs_zero is Equal) <==> (r == Orient::Collinear),
        (cross_vs_zero is Greater) <==> (r == Orient::Cw),
{
    match cross_vs_zero {
        std::cmp::Ordering::Less => Orient::Ccw,
        std::cmp::Ordering::Equal => Orient::Collinear,
        std::cmp::Ordering::Greater => Orient::Cw,
    }
}

/// Whether a point lies in a triangle, from the orientations `d1`, `d2`, `d3` of
/// the point against the triangle's three edges.
///
/// The answer is `None` when the point is collinear with all three edges (the
/// triangle is degenerate), `Some(false)` when the point is strictly on both
/// sides of some edges (some turn is clockwise and another counter-clockwise),
/// and `Some(true)` otherwise (inside, or on the border).
pub fn point_in_triangle_from_orients(d1: Orient, d2: Orient, d3: Orient) -> (r: Option<bool>)
    ensures
        r is None <==> (d1 == Orient::Collinear && d2 == Orient::Collinear && d3 == Orient::Collinear),
        r == Some(false) <==> (
            (d1 == Orient::Cw || d2 == Orient::Cw || d3 == Orient::Cw)
            && (d1 == Orient::Ccw || d2 == Orient::Ccw || d3 == Orient::Ccw)),
{
    let has_cw = d1 == Orient::Cw || d2 == Orient::Cw || d3 == Orient::Cw;
    let has_ccw = d1 == Orient::Ccw || d2 == Orient::Ccw || d3 == Orient::Ccw;
    if d1 == Orient::Collinear && d2 == Orient::Collinear && d3 == Orient::Collinear {
        None
    } else {
        Some(!(has_cw && has_ccw))
    }
}

/// What the geometry says of one corner of the polygon: whether it is an ear,
/// and its pointiness, given as an integer whose order is the order of the
/// corner's pointiness (a sharper corner has a larger `pointiness`).
#[derive(PartialEq, Eq, Structural, Debug, Clone, Copy)]
pub struct VertexShape {
    pub is_ear: bool,
    pub pointiness: u32,
}

/// The bookkeeping of one polygon vertex during ear clipping.
#[derive(PartialEq, Eq, Structural, Debug, Clone, Copy)]
pub struct VertexInfo {
    pub is_active: bool,
    pub is_ear: bool,
    pub pointiness: u32,
    pub p_prev: usize,
    pub p_next: usize,
}

/// The position after `k` in a cycle of length `m`.
pub open spec fn succ(k: int, m: int) -> int {
    if k + 1 == m {
        0
    } else {
        k + 1
    }
}

/// The position before `k` in a cycle of length `m`.
pub open spec fn pred(k: int, m: int) -> int {
    if k == 0 {
        m - 1
    } else {
        k - 1
    }
}

/// The vertices `0, 1, ..., n - 1` of a polygon, in their order around it.
pub open spec fn polygon_cycle(n: nat) -> Seq<usize> {
    Seq::new(n, |i: int| i as usize)
}

/// The position of vertex `v` in the cycle `c`.
pub open spec fn position_of(c: Seq<usize>, v: usize) -> int {
    choose|k: int| 0 <= k < c.len() && c[k] == v
}

/// `t` is the triangle cut off the cycle `c` at position `k`: the vertex there
/// with its two neighbours, in the order previous, vertex, next.
pub open spec fn is_clip_triangle(c: Seq<usize>, k: int, t: Seq<u32>) -> bool {
    &&& t.len() == 3
    &&& 0 <= k < c.len()
    &&& t[0] == c[pred(k, c.len() as int)] as u32
    &&& t[1] == c[k] as u32
    &&& t[2] == c[succ(k, c.len() as int)] as u32
}

/// The cycle that remains of `c` after cutting off the triangles `tris` one
/// after another, each at the vertex in its middle, while at least four
/// vertices remain; `None` when some triangle is not such a cut.
pub open spec fn after_clips(c: Seq<usize>, tris: Seq<[u32; 3]>) -> Option<Seq<usize>>
    decreases tris.len(),
{
    if tris.len() == 0 {
        Some(c)
    } else {
        match after_clips(c, tris.drop_last()) {
            Some(d) => {
                let t = tris.last();
                let k = position_of(d, t@[1] as usize);
                if d.len() > 3 && is_clip_triangle(d, k, t@) {
                    Some(d.remove(k))
                } else {
                    None
                }
            },
            None => None,
        }
    }
}

/// `tris` is what ear clipping makes of a polygon of `n` vertices: `n - 3` ears
/// cut off its cycle one after another, then the last triangle, whose middle is
/// the smallest of the three vertices that remain.
pub open spec fn is_ear_decomposition(n: nat, tris: Seq<[u32; 3]>) -> bool {
    &&& n >= 3
    &&& tris.len() == n - 2
    &&& match after_clips(polygon_cycle(n), tris.take(n - 3)) {
        Some(d) => {
            let t = tris[n - 3];
            let k = position_of(d, t@[1] as usize);
            &&& d.len() == 3
            &&& is_clip_triangle(d, k, t@)
            &&& forall|j: int| 0 <= j < 3 ==> d[k] <= d[j]
        },
        None => false,
    }
}

/// The shape recorded for a vertex.
pub open spec fn shape_of(info: VertexInfo) -> VertexShape {
    VertexShape { is_ear: info.is_ear, pointiness: info.pointiness }
}

/// `shapes` are answers that the measuring function `f` can give for the
/// corners of the cycle `c`: each vertex measured between its two neighbours
/// in `c`, and each measurement successful.
pub open spec fn measures<F: Fn(usize, usize, usize) -> Option<VertexShape>>(
    f: F,
    c: Seq<usize>,
    shapes: Seq<VertexShape>,
) -> bool {
    &&& shapes.len() == c.len()
    &&& forall|i: int|
        0 <= i < c.len() ==> f.ensures(
            (c[i], c[pred(i, c.len() as int)], c[succ(i, c.len() as int)]),
            Some(#[trigger] shapes[i]),
        )
}

/// Position `k` of the cycle `c`, whose corners have the shapes `shapes`, is
/// the sharpest ear: an ear of greatest pointiness, and the last in vertex
/// order among the ears of that pointiness.
pub open spec fn is_sharpest_ear(c: Seq<usize>, shapes: Seq<VertexShape>, k: int) -> bool {
    &&& 0 <= k < c.len()
    &&& shapes[k].is_ear
    &&& forall|i: int|
        0 <= i < c.len() && (#[trigger] shapes[i]).is_ear ==> shapes[i].pointiness <= shapes[k].pointiness
    &&& forall|i: int|
        0 <= i < c.len() && (#[trigger] shapes[i]).is_ear && c[i] > c[k] ==> shapes[i].pointiness
            < shapes[k].pointiness
}

/// The `j`-th triangle of `tris` cuts off, from the cycle that the triangles
/// before it leave of `c`, the sharpest ear as `f` measures the corners there.
pub open spec fn cuts_sharpest_ear<F: Fn(usize, usize, usize) -> Option<VertexShape>>(
    f: F,
    c: Seq<usize>,
    tris: Seq<[u32; 3]>,
    j: int,
) -> bool {
    match after_clips(c, tris.take(j)) {
        Some(d) => exists|shapes: Seq<VertexShape>|
            #[trigger] measures(f, d, shapes) && is_sharpest_ear(
                d,
                shapes,
                position_of(d, tris[j]@[1] as usize),
            ),
        None => false,
    }
}

/// Each of the first `count` triangles of `tris` cuts off the sharpest ear,
/// as `f` measures it, of the cycle that the triangles before it leave of `c`.
pub open spec fn all_cuts_sharpest<F: Fn(usize, usize, usize) -> Option<VertexShape>>(
    f: F,
    c: Seq<usize>,
    tris: Seq<[u32; 3]>,
    count: int,
) -> bool {
    forall|j: int| 0 <= j < count ==> #[trigger] cuts_sharpest_ear(f, c, tris, j)
}

/// `f` can measure the corner at `v`, between `p` and `q`, as an ear.
pub open spec fn can_measure_ear<F: Fn(usize, usize, usize) -> Option<VertexShape>>(
    f: F,
    v: usize,
    p: usize,
    q: usize,
) -> bool {
    exists|s: VertexShape| #[trigger] f.ensures((v, p, q), Some(s)) && s.is_ear
}

/// The middle vertex of each of the first `count` triangles of `tris` can be
/// measured by `f` as an ear, between the triangle's other two vertices.
pub open spec fn cut_vertices_measure_as_ears<F: Fn(usize, usize, usize) -> Option<VertexShape>>(
    f: F,
    tris: Seq<[u32; 3]>,
    count: int,
) -> bool {
    forall|j: int|
        #![trigger tris[j]]
        0 <= j < count ==> can_measure_ear(
            f,
            tris[j]@[1] as usize,
            tris[j]@[0] as usize,
            tris[j]@[2] as usize,
        )
}

/// Some corner of the cycle `d` can fail to be measured by `f`.
pub open spec fn some_corner_can_fail<F: Fn(usize, usize, usize) -> Option<VertexShape>>(
    f: F,
    d: Seq<usize>,
) -> bool {
    exists|i: int|
        0 <= i < d.len() && #[trigger] f.ensures(
            (d[i], d[pred(i, d.len() as int)], d[succ(i, d.len() as int)]),
            None,
        )
}

/// The corners of the cycle `d` can all be measured by `f`, with no ear among
/// them.
pub open spec fn can_measure_without_ear<F: Fn(usize, usize, usize) -> Option<VertexShape>>(
    f: F,
    d: Seq<usize>,
) -> bool {
    exists|shapes: Seq<VertexShape>|
        #[trigger] measures(f, d, shapes) && forall|i: int| 0 <= i < d.len() ==> !(#[trigger] shapes[i]).is_ear
}

/// Ear clipping of a polygon of `n` vertices, with corners measured by `f`,
/// can give up after the cuts `cuts`: each of them took the sharpest ear, and
/// in the cycle they leave either a corner can fail to be measured (the
/// corners are measured at the start and after each cut but the last), or,
/// with cuts still to make, the corners can measure with no ear among them.
pub open spec fn can_give_up_after<F: Fn(usize, usize, usize) -> Option<VertexShape>>(
    f: F,
    n: nat,
    cuts: Seq<[u32; 3]>,
) -> bool {
    let c = polygon_cycle(n);
    &&& n >= 1
    &&& cuts.len() == 0 || cuts.len() <= n - 3
    &&& all_cuts_sharpest(f, c, cuts, cuts.len() as int)
    &&& match after_clips(c, cuts) {
        Some(d) => {
            ||| (cuts.len() == 0 || cuts.len() < n - 3) && some_corner_can_fail(f, d)
            ||| cuts.len() < n - 3 && can_measure_without_ear(f, d)
        },
        None => false,
    }
}

/// In a cycle without repeated vertices, `position_of` finds the position of
/// each of its vertices.
pub proof fn lemma_position_of(c: Seq<usize>, k: int)
    requires
        c.no_duplicates(),
        0 <= k < c.len(),
    ensures
        position_of(c, c[k]) == k,
{
    let j = position_of(c, c[k]);
    assert(0 <= j < c.len() && c[j] == c[k]);
}

/// The polygon's vertices during ear clipping: the ones not yet cut off form a
/// cycle, linked both ways through `p_prev` and `p_next`.
pub struct EarRing {
    infos: Vec<VertexInfo>,
    cycle: Ghost<Seq<usize>>,
}

impl View for EarRing {
    type V = Seq<usize>;

    /// The active vertices, in their order around the polygon.
    closed spec fn view(&self) -> Seq<usize> {
        self.cycle@
    }
}

impl EarRing {
    /// The number of vertices of the polygon, active or not.
    pub closed spec fn n(&self) -> nat {
        self.infos.len() as nat
    }

    /// What is known of vertex `v`.
    pub closed spec fn info(&self, v: int) -> VertexInfo {
        self.infos[v]
    }

    /// The shapes recorded for the active vertices, in their order around the
    /// polygon.
    pub closed spec fn shapes(&self) -> Seq<VertexShape> {
        Seq::new(self.cycle@.len(), |i: int| shape_of(self.infos[self.cycle@[i] as int]))
    }

    /// The shape recorded for each active vertex is an answer that `f` can
    /// give for its corner between its current neighbours.
    pub closed spec fn shapes_measured_by<F: Fn(usize, usize, usize) -> Option<VertexShape>>(
        &self,
        f: F,
    ) -> bool {
        forall|u: int|
            0 <= u < self.infos.len() && (#[trigger] self.infos[u]).is_active ==> f.ensures(
                (u as usize, self.infos[u].p_prev, self.infos[u].p_next),
                Some(shape_of(self.infos[u])),
            )
    }

    /// The ring is consistent: the active vertices form a cycle of at least
    /// three distinct vertices whose links agree with the cycle's order.
    #[verifier::opaque]
    pub closed spec fn wf(&self) -> bool {
        let c = self.cycle@;
        let n = self.infos.len();
        &&& 3 <= c.len()
        &&& n <= u32::MAX
        &&& c.no_duplicates()
        &&& forall|k: int| 0 <= k < c.len() ==> #[trigger] c[k] < n
        &&& forall|k: int|
            0 <= k < c.len() ==> {
                &&& self.infos[#[trigger] c[k] as int].p_next == c[succ(k, c.len() as int)]
                &&& self.infos[c[k] as int].p_prev == c[pred(k, c.len() as int)]
            }
        &&& forall|v: int| 0 <= v < n ==> (#[trigger] self.infos[v].is_active <==> c.contains(v as usize))
    }

    /// A ring of `n_vertices` active vertices, linked in order around the
    /// polygon, none of them known yet to be an ear.
    pub fn new(n_vertices: usize) -> (r: Self)
        requires
            3 <= n_vertices <= u32::MAX,
        ensures
            r.wf(),
            r.n() == n_vertices,
            r@ == polygon_cycle(n_vertices as nat),
            forall|v: int| 0 <= v < n_vertices ==> !(#[trigger] r.info(v)).is_ear && r.info(v).pointiness == 0,
    {
        proof {
            reveal(EarRing::wf);
        }
        let mut infos: Vec<VertexInfo> = Vec::new();
        let mut i: usize = 0;
        while i < n_vertices
            invariant
                i <= n_vertices,
                3 <= n_vertices,
                infos.len() == i,
                forall|j: int|
                    0 <= j < i ==> {
                        &&& (#[trigger] infos[j]).is_active
                        &&& !infos[j].is_ear
                        &&& infos[j].pointiness == 0
                        &&& infos[j].p_prev == (if j == 0 { n_vertices - 1 } else { j - 1 })
                        &&& infos[j].p_next == (if j == n_vertices - 1 { 0 } else { j + 1 })
                    },
            decreases n_vertices - i,
        {
            let p_prev = if i == 0 { n_vertices - 1 } else { i - 1 };
            let p_next = if i == n_vertices - 1 { 0 } else { i + 1 };
            infos.push(VertexInfo { is_active: true, is_ear: false, pointiness: 0, p_prev, p_next });
            i = i + 1;
        }
        let ghost c = polygon_cycle(n_vertices as nat);
        assert forall|v: int| 0 <= v < n_vertices implies (#[trigger] infos[v].is_active <==> c.contains(v as usize)) by {
            assert(c[v] == v as usize);
        }
        EarRing { infos, cycle: Ghost(c) }
    }

    /// The vertex before `v` around the remaining polygon.
    pub fn prev_of(&self, v: usize) -> (r: usize)
        requires
            v < self.n(),
        ensures
            r == self.info(v as int).p_prev,
    {
        self.infos[v].p_prev
    }

    /// The vertex after `v` around the remaining polygon.
    pub fn next_of(&self, v: usize) -> (r: usize)
        requires
            v < self.n(),
        ensures
            r == self.info(v as int).p_next,
    {
        self.infos[v].p_next
    }

    /// Records what the geometry says of vertex `v`.
    pub fn set_shape(&mut self, v: usize, shape: VertexShape)
        requires
            v < old(self).n(),
        ensures
            final(self)@ == old(self)@,
            final(self).n() == old(self).n(),
            old(self).wf() ==> final(self).wf(),
            final(self).info(v as int) == (VertexInfo {
                is_ear: shape.is_ear,
                pointiness: shape.pointiness,
                ..old(self).info(v as int)
            }),
            forall|u: int| 0 <= u < final(self).n() && u != v ==> #[trigger] final(self).info(u) == old(self).info(u),
    {
        proof {
            reveal(EarRing::wf);
        }
        let mut info = self.infos[v];
        info.is_ear = shape.is_ear;
        info.pointiness = shape.pointiness;
        self.infos.set(v, info);
        proof {
            let c = self.cycle@;
            if old(self).wf() {
                assert forall|k: int| 0 <= k < c.len() implies {
                    &&& self.infos[#[trigger] c[k] as int].p_next == c[succ(k, c.len() as int)]
                    &&& self.infos[c[k] as int].p_prev == c[pred(k, c.len() as int)]
                } by {
                    assert(old(self).infos[c[k] as int].p_next == c[succ(k, c.len() as int)]);
                }
            }
        }
    }

    /// The ear to cut next: among the active vertices that are ears, one of
    /// greatest pointiness, the last such in vertex order; `None` when no
    /// active vertex is an ear.
    pub fn select_ear(&self) -> (r: Option<usize>)
        ensures
            r is None <==> (forall|u: int| 0 <= u < self.n() ==> !(#[trigger] self.info(u)).is_active || !self.info(u).is_ear),
            r matches Some(v) ==> {
                &&& v < self.n()
                &&& self.info(v as int).is_active
                &&& self.info(v as int).is_ear
                &&& forall|u: int|
                    0 <= u < self.n() && (#[trigger] self.info(u)).is_active && self.info(u).is_ear
                        ==> self.info(u).pointiness <= self.info(v as int).pointiness
                &&& forall|u: int|
                    v < u < self.n() && (#[trigger] self.info(u)).is_active && self.info(u).is_ear
                        ==> self.info(u).pointiness < self.info(v as int).pointiness
            },
    {
        let mut best: Option<usize> = None;
        let mut i: usize = 0;
        while i < self.infos.len()
            invariant
                i <= self.infos.len(),
                best is None <==> (forall|u: int| 0 <= u < i ==> !(#[trigger] self.infos[u]).is_active || !self.infos[u].is_ear),
                best matches Some(v) ==> {
                    &&& v < i
                    &&& self.infos[v as int].is_active
                    &&& self.infos[v as int].is_ear
                    &&& forall|u: int|
                        0 <= u < i && (#[trigger] self.infos[u]).is_active && self.infos[u].is_ear
                            ==> self.infos[u].pointiness <= self.infos[v as int].pointiness
                    &&& forall|u: int|
                        v < u < i && (#[trigger] self.infos[u]).is_active && self.infos[u].is_ear
                            ==> self.infos[u].pointiness < self.infos[v as int].pointiness
                },
            decreases self.infos.len() - i,
        {
            let info = self.infos[i];
            if info.is_active && info.is_ear {
                match best {
                    None => {
                        best = Some(i);
                    },
                    Some(b) => {
                        if info.pointiness >= self.infos[b].pointiness {
                            best = Some(i);
                        }
                    },
                }
            }
            i = i + 1;
        }
        if let Some(v) = best {
            assert(self.info(v as int).is_active);
        }
        best
    }

    /// Cuts the ear at active vertex `v` off the polygon: `v` becomes inactive,
    /// its two neighbours are linked to each other, and the triangle
    /// `[previous, v, next]` is returned.
    #[verifier::spinoff_prover]
    #[verifier::rlimit(50)]
    pub fn clip(&mut self, v: usize) -> (t: [u32; 3])
        requires
            old(self).wf(),
            old(self)@.len() > 3,
            v < old(self).n(),
            old(self).info(v as int).is_active,
        ensures
            final(self).wf(),
            final(self).n() == old(self).n(),
            final(self)@ == old(self)@.remove(position_of(old(self)@, v)),
            is_clip_triangle(old(self)@, position_of(old(self)@, v), t@),
            forall|u: int|
                0 <= u < final(self).n() ==> (#[trigger] final(self).info(u)).is_ear == old(self).info(u).is_ear
                    && final(self).info(u).pointiness == old(self).info(u).pointiness,
            forall|u: int|
                0 <= u < final(self).n() && u != t@[0] && u != t@[1] && u != t@[2]
                    ==> #[trigger] final(self).info(u) == old(self).info(u),
            !final(self).info(v as int).is_active,
    {
        proof {
            reveal(EarRing::wf);
        }
        let ghost c = self.cycle@;
        let ghost m = c.len() as int;
        let ghost k = choose|k: int| 0 <= k < c.len() && c[k] == v;
        proof {
            assert(c.contains(v));
            lemma_position_of(c, k);
        }
        let p = self.infos[v].p_prev;
        let q = self.infos[v].p_next;
        assert(p == c[pred(k, m)] && q == c[succ(k, m)]);
        assert(self.infos[p as int].p_next == v) by {
            assert(c[succ(pred(k, m), m)] == v);
        }
        let mut vi = self.infos[v];
        vi.is_active = false;
        self.infos.set(v, vi);
        let mut pi = self.infos[p];
        pi.p_next = q;
        self.infos.set(p, pi);
        let mut qi = self.infos[q];
        qi.p_prev = p;
        self.infos.set(q, qi);
        let ghost d = c.remove(k);
        proof {
            self.cycle = Ghost(d);
            lemma_clip_keeps_cycle(old(self).infos@, self.infos@, c, k);
        }
        [p as u32, v as u32, q as u32]
    }

    /// Cuts off the sharpest ear: among the active vertices recorded as ears,
    /// one of greatest pointiness, the last such in vertex order. Returns the
    /// triangle `[previous, ear, next]`; or `None`, leaving the ring as it
    /// was, when no active vertex is recorded as an ear.
    pub fn cut_sharpest_ear(&mut self) -> (r: Option<[u32; 3]>)
        requires
            old(self).wf(),
            old(self)@.len() > 3,
        ensures
            final(self).wf(),
            final(self).n() == old(self).n(),
            r is None <==> (forall|i: int| 0 <= i < old(self)@.len() ==> !(#[trigger] old(self).shapes()[i]).is_ear),
            r is None ==> *final(self) == *old(self),
            r matches Some(t) ==> {
                let k = position_of(old(self)@, t@[1] as usize);
                &&& is_sharpest_ear(old(self)@, old(self).shapes(), k)
                &&& is_clip_triangle(old(self)@, k, t@)
                &&& final(self)@ == old(self)@.remove(k)
                &&& final(self)@.contains(t@[0] as usize) && final(self)@.contains(t@[2] as usize)
                &&& t@[0] != t@[1] && t@[1] != t@[2] && t@[0] != t@[2]
                &&& t@[1] < old(self).n() && !final(self).info(t@[1] as int).is_active
                &&& forall|u: int|
                    0 <= u < final(self).n() ==> #[trigger] final(self).info(u).is_ear == old(self).info(u).is_ear
                &&& forall|u: int|
                    0 <= u < final(self).n() && u != t@[0] && u != t@[1] && u != t@[2]
                        ==> #[trigger] final(self).info(u) == old(self).info(u)
            },
    {
        proof {
            reveal(EarRing::wf);
        }
        let ghost c = self.cycle@;
        let ghost shapes = self.shapes();
        match self.select_ear() {
            None => {
                assert forall|i: int| 0 <= i < c.len() implies !(#[trigger] shapes[i]).is_ear by {
                    assert(c[i] < self.n());
                    assert(self.info(c[i] as int).is_active);
                    assert(shapes[i] == shape_of(self.info(c[i] as int)));
                }
                None
            },
            Some(v) => {
                proof {
                    assert(c.contains(v));
                    let k0 = choose|k: int| 0 <= k < c.len() && c[k] == v;
                    lemma_position_of(c, k0);
                    assert forall|i: int| 0 <= i < c.len() && (#[trigger] shapes[i]).is_ear implies
                        shapes[i].pointiness <= shapes[k0].pointiness
                        && (c[i] > c[k0] ==> shapes[i].pointiness < shapes[k0].pointiness) by {
                        assert(c[i] < self.n());
                        assert(self.info(c[i] as int).is_active);
                        assert(shapes[i] == shape_of(self.info(c[i] as int)));
                        assert(shapes[k0] == shape_of(self.info(v as int)));
                    }
                    assert(is_sharpest_ear(c, shapes, k0));
                }
                let t = self.clip(v);
                proof {
                    let k = position_of(c, v);
                    let m = c.len() as int;
                    assert(t@[1] as usize == v);
                    let d = self.cycle@;
                    let ip = if pred(k, m) < k { pred(k, m) } else { pred(k, m) - 1 };
                    let iq = if succ(k, m) < k { succ(k, m) } else { succ(k, m) - 1 };
                    assert(d[ip] == c[pred(k, m)]);
                    assert(d[iq] == c[succ(k, m)]);
                    assert(d.contains(t@[0] as usize) && d.contains(t@[2] as usize));
                    assert(pred(k, m) != k && succ(k, m) != k && pred(k, m) != succ(k, m));
                    assert(c[pred(k, m)] != c[k] && c[succ(k, m)] != c[k] && c[pred(k, m)] != c[succ(k, m)]);
                    assert(c[pred(k, m)] < self.n() && c[succ(k, m)] < self.n());
                }
                Some(t)
            },
        }
    }

    /// The smallest active vertex, if any.
    pub fn first_active(&self) -> (r: Option<usize>)
        ensures
            r is None <==> (forall|u: int| 0 <= u < self.n() ==> !(#[trigger] self.info(u)).is_active),
            r matches Some(v) ==> v < self.n() && self.info(v as int).is_active
                && forall|u: int| 0 <= u < v ==> !(#[trigger] self.info(u)).is_active,
    {
        let mut i: usize = 0;
        while i < self.infos.len()
            invariant
                i <= self.infos.len(),
                forall|u: int| 0 <= u < i ==> !(#[trigger] self.infos[u]).is_active,
            decreases self.infos.len() - i,
        {
            if self.infos[i].is_active {
                assert(self.info(i as int).is_active);
                return Some(i);
            }
            i = i + 1;
        }
        None
    }
}

/// When every active vertex of a consistent ring has a shape recorded that `f`
/// can give for its corner, the recorded shapes measure the ring's cycle.
proof fn lemma_recorded_shapes_measure<F: Fn(usize, usize, usize) -> Option<VertexShape>>(
    ring: EarRing,
    f: F,
)
    requires
        ring.wf(),
        ring.shapes_measured_by(f),
    ensures
        measures(f, ring@, ring.shapes()),
{
    reveal(EarRing::wf);
    let c = ring.cycle@;
    let m = c.len() as int;
    assert forall|i: int| 0 <= i < m implies f.ensures(
        (c[i], c[pred(i, m)], c[succ(i, m)]),
        Some(#[trigger] ring.shapes()[i]),
    ) by {
        let u = c[i] as int;
        assert(ring.infos[u].is_active);
        assert(ring.infos[u].p_prev == c[pred(i, m)]);
    }
}

/// After an ear `e` is cut and its two neighbours `p` and `q` are measured
/// again, every active vertex still has a shape recorded that `f` can give
/// for its corner.
proof fn lemma_measured_after_cut<F: Fn(usize, usize, usize) -> Option<VertexShape>>(
    f: F,
    r0: EarRing,
    r: EarRing,
    p: int,
    e: int,
    q: int,
)
    requires
        r0.shapes_measured_by(f),
        r.infos.len() == r0.infos.len(),
        0 <= p < r.infos.len(),
        0 <= e < r.infos.len(),
        0 <= q < r.infos.len(),
        !r.infos[e].is_active,
        forall|u: int|
            0 <= u < r.infos.len() && u != p && u != e && u != q ==> #[trigger] r.infos[u] == r0.infos[u],
        f.ensures((p as usize, r.infos[p].p_prev, r.infos[p].p_next), Some(shape_of(r.infos[p]))),
        f.ensures((q as usize, r.infos[q].p_prev, r.infos[q].p_next), Some(shape_of(r.infos[q]))),
    ensures
        r.shapes_measured_by(f),
{
    assert forall|u: int|
        0 <= u < r.infos.len() && (#[trigger] r.infos[u]).is_active implies f.ensures(
            (u as usize, r.infos[u].p_prev, r.infos[u].p_next),
            Some(shape_of(r.infos[u])),
        ) by {
        if u != p && u != q {
            assert(r.infos[u] == r0.infos[u]);
        }
    }
}

/// Cutting position `k` out of the cycle `c` keeps the links of the remaining
/// cycle consistent, given the three link updates that `clip` makes.
#[verifier::spinoff_prover]
#[verifier::rlimit(60)]
proof fn lemma_clip_keeps_cycle(old_infos: Seq<VertexInfo>, new_infos: Seq<VertexInfo>, c: Seq<usize>, k: int)
    requires
        c.len() > 3,
        0 <= k < c.len(),
        c.no_duplicates(),
        old_infos.len() == new_infos.len(),
        old_infos.len() <= u32::MAX,
        forall|j: int| 0 <= j < c.len() ==> #[trigger] c[j] < old_infos.len(),
        forall|j: int|
            0 <= j < c.len() ==> {
                &&& old_infos[#[trigger] c[j] as int].p_next == c[succ(j, c.len() as int)]
                &&& old_infos[c[j] as int].p_prev == c[pred(j, c.len() as int)]
            },
        forall|u: int| 0 <= u < old_infos.len() ==> (#[trigger] old_infos[u].is_active <==> c.contains(u as usize)),
        ({
            let m = c.len() as int;
            let v = c[k] as int;
            let p = c[pred(k, m)] as int;
            let q = c[succ(k, m)] as int;
            &&& new_infos[v] == VertexInfo { is_active: false, ..old_infos[v] }
            &&& new_infos[p] == VertexInfo { p_next: q as usize, ..old_infos[p] }
            &&& new_infos[q] == VertexInfo { p_prev: p as usize, ..old_infos[q] }
            &&& forall|u: int| 0 <= u < old_infos.len() && u != v && u != p && u != q ==> #[trigger] new_infos[u] == old_infos[u]
        }),
    ensures
        ({
            let d = c.remove(k);
            &&& 3 <= d.len()
            &&& d.no_duplicates()
            &&& forall|j: int| 0 <= j < d.len() ==> #[trigger] d[j] < new_infos.len()
            &&& forall|j: int|
                0 <= j < d.len() ==> {
                    &&& new_infos[#[trigger] d[j] as int].p_next == d[succ(j, d.len() as int)]
                    &&& new_infos[d[j] as int].p_prev == d[pred(j, d.len() as int)]
                }
            &&& forall|u: int| 0 <= u < new_infos.len() ==> (#[trigger] new_infos[u].is_active <==> d.contains(u as usize))
            &&& forall|u: int| 0 <= u < new_infos.len() ==> #[trigger] new_infos[u].is_ear == old_infos[u].is_ear
                && new_infos[u].pointiness == old_infos[u].pointiness
        }),
{
    let m = c.len() as int;
    let d = c.remove(k);
    let v = c[k];
    let p = c[pred(k, m)];
    let q = c[succ(k, m)];
    // Position in `c` of position `j` in `d`.
    assert forall|j: int| 0 <= j < d.len() implies #[trigger] d[j] == c[if j < k { j } else { j + 1 }] by {}
    assert(p != v && q != v && p != q);
    assert forall|i: int, j: int| 0 <= i < d.len() && 0 <= j < d.len() && i != j implies d[i] != d[j] by {
        let ii = if i < k { i } else { i + 1 };
        let jj = if j < k { j } else { j + 1 };
        assert(c[ii] != c[jj]);
    }
    assert forall|j: int| 0 <= j < d.len() implies {
        &&& new_infos[#[trigger] d[j] as int].p_next == d[succ(j, d.len() as int)]
        &&& new_infos[d[j] as int].p_prev == d[pred(j, d.len() as int)]
    } by {
        let jj = if j < k { j } else { j + 1 };
        let sj = succ(j, d.len() as int);
        let pj = pred(j, d.len() as int);
        let sjj = if sj < k { sj } else { sj + 1 };
        let pjj = if pj < k { pj } else { pj + 1 };
        assert(d[sj] == c[sjj]);
        assert(d[pj] == c[pjj]);
        assert(old_infos[c[jj] as int].p_next == c[succ(jj, m)]);
        assert(old_infos[c[jj] as int].p_prev == c[pred(jj, m)]);
        if jj == pred(k, m) {
            assert(c[jj] == p);
        } else if jj == succ(k, m) {
            assert(c[jj] == q);
            assert(c[jj] != p);
        } else {
            assert(c[jj] != p && c[jj] != q && c[jj] != v);
        }
    }
    assert forall|u: int| 0 <= u < new_infos.len() implies (#[trigger] new_infos[u].is_active <==> d.contains(u as usize)) by {
        if d.contains(u as usize) {
            let j = choose|j: int| 0 <= j < d.len() && d[j] == u as usize;
            let jj = if j < k { j } else { j + 1 };
            assert(c[jj] == u as usize);
            assert(c.contains(u as usize));
            assert(u != v as int);
        }
        if new_infos[u].is_active {
            assert(u != v as int);
            assert(old_infos[u].is_active);
            assert(c.contains(u as usize));
            let j = choose|j: int| 0 <= j < c.len() && c[j] == u as usize;
            assert(j != k);
            let dj = if j < k { j } else { j - 1 };
            assert(d[dj] == u as usize);
        }
    }
}

/// An element of `s.remove(k)` is an element of `s`, other than `s[k]` when
/// `s` has no repeated elements.
proof fn lemma_remove_contains(s: Seq<usize>, k: int, x: usize)
    requires
        0 <= k < s.len(),
        s.remove(k).contains(x),
    ensures
        s.contains(x),
        s.no_duplicates() ==> x != s[k],
{
    let d = s.remove(k);
    let j = choose|j: int| 0 <= j < d.len() && d[j] == x;
    let jj = if j < k { j } else { j + 1 };
    assert(s[jj] == x);
}

/// The triangles cut off a cycle `c` of distinct vertices are each made of
/// three distinct vertices of `c`; their middles are distinct vertices, none
/// of which is left in the remaining cycle, which is made of distinct vertices
/// of `c`.
proof fn lemma_after_clips_vertices(c: Seq<usize>, tris: Seq<[u32; 3]>, n: nat)
    requires
        c.no_duplicates(),
        n <= u32::MAX,
        forall|j: int| 0 <= j < c.len() ==> #[trigger] c[j] < n,
        after_clips(c, tris) is Some,
    ensures
        ({
            let d = after_clips(c, tris)->0;
            &&& d.no_duplicates()
            &&& d.len() == c.len() - tris.len()
            &&& forall|x: usize| #[trigger] d.contains(x) ==> c.contains(x)
            &&& forall|j: int| 0 <= j < tris.len() ==> is_triangle_of(c, #[trigger] tris[j]@)
            &&& forall|i: int, j: int| 0 <= i < j < tris.len() ==> #[trigger] tris[i]@[1] != #[trigger] tris[j]@[1]
            &&& forall|j: int| 0 <= j < tris.len() ==> !d.contains(#[trigger] tris[j]@[1] as usize)
        }),
    decreases tris.len(),
{
    if tris.len() > 0 {
        let prefix = tris.drop_last();
        lemma_after_clips_vertices(c, prefix, n);
        let d0 = after_clips(c, prefix)->0;
        let t = tris.last();
        let k = position_of(d0, t@[1] as usize);
        let d = d0.remove(k);
        let m = d0.len() as int;
        assert(d0.contains(d0[k]) && d0.contains(d0[pred(k, m)]) && d0.contains(d0[succ(k, m)]));
        assert(c.contains(d0[k]) && c.contains(d0[pred(k, m)]) && c.contains(d0[succ(k, m)]));
        assert(is_triangle_of(c, t@)) by {
            let a = choose|j: int| 0 <= j < c.len() && c[j] == d0[pred(k, m)];
            let b = choose|j: int| 0 <= j < c.len() && c[j] == d0[k];
            let e = choose|j: int| 0 <= j < c.len() && c[j] == d0[succ(k, m)];
            assert(c[a] < n && c[b] < n && c[e] < n);
        }
        assert forall|i: int, j: int| 0 <= i < j < tris.len() implies #[trigger] tris[i]@[1] != #[trigger] tris[j]@[1] by {
            if j < tris.len() - 1 {
                assert(tris[i] == prefix[i] && tris[j] == prefix[j]);
            } else {
                assert(tris[i] == prefix[i]);
                assert(!d0.contains(prefix[i]@[1] as usize));
                assert(d0.contains(d0[k]));
            }
        }
        assert forall|j: int| 0 <= j < tris.len() implies is_triangle_of(c, #[trigger] tris[j]@) by {
            if j < tris.len() - 1 {
                assert(tris[j] == prefix[j]);
            }
        }
        assert forall|x: usize| #[trigger] d.contains(x) implies c.contains(x) by {
            lemma_remove_contains(d0, k, x);
        }
        assert forall|j: int| 0 <= j < tris.len() implies !d.contains(#[trigger] tris[j]@[1] as usize) by {
            if d.contains(tris[j]@[1] as usize) {
                lemma_remove_contains(d0, k, tris[j]@[1] as usize);
                if j < tris.len() - 1 {
                    assert(tris[j] == prefix[j]);
                }
            }
        }
        assert forall|i: int, j: int| 0 <= i < d.len() && 0 <= j < d.len() && i != j implies d[i] != d[j] by {
            let ii = if i < k { i } else { i + 1 };
            let jj = if j < k { j } else { j + 1 };
            assert(d[i] == d0[ii] && d[j] == d0[jj]);
        }
    }
}

/// `t` is a triangle of three distinct vertices of the cycle `c`.
pub open spec fn is_triangle_of(c: Seq<usize>, t: Seq<u32>) -> bool {
    &&& t.len() == 3
    &&& c.contains(t[0] as usize) && c.contains(t[1] as usize) && c.contains(t[2] as usize)
    &&& t[0] != t[1] && t[1] != t[2] && t[0] != t[2]
    &&& t[0] as usize as u32 == t[0] && t[1] as usize as u32 == t[1] && t[2] as usize as u32 == t[2]
}

/// Ear clipping covers the polygon without repeating a cut: each of the
/// `n - 2` triangles of an ear decomposition of a polygon of `n` vertices is
/// made of three distinct vertices of the polygon, and no vertex is the middle
/// (the cut ear) of two triangles.
pub proof fn lemma_ear_decomposition_vertices(n: nat, tris: Seq<[u32; 3]>)
    requires
        n <= u32::MAX,
        is_ear_decomposition(n, tris),
    ensures
        tris.len() == n - 2,
        forall|j: int, e: int| 0 <= j < tris.len() && 0 <= e < 3 ==> #[trigger] tris[j]@[e] < n,
        forall|j: int| 0 <= j < tris.len() ==> tris[j]@[0] != tris[j]@[1] && tris[j]@[1] != tris[j]@[2] && tris[j]@[0] != tris[j]@[2],
        forall|i: int, j: int| 0 <= i < j < tris.len() ==> #[trigger] tris[i]@[1] != #[trigger] tris[j]@[1],
{
    let c = polygon_cycle(n);
    let clipped = tris.take(n - 3);
    assert forall|i: int, j: int| 0 <= i < c.len() && 0 <= j < c.len() && i != j implies c[i] != c[j] by {}
    lemma_after_clips_vertices(c, clipped, n);
    let d = after_clips(c, clipped)->0;
    let t = tris[n - 3];
    let k = position_of(d, t@[1] as usize);
    assert(d.contains(d[0]) && d.contains(d[1]) && d.contains(d[2]));
    assert(is_triangle_of(c, t@)) by {
        assert(d.contains(d[pred(k, 3)]) && d.contains(d[k]) && d.contains(d[succ(k, 3)]));
    }
    assert forall|j: int| 0 <= j < tris.len() implies is_triangle_of(c, #[trigger] tris[j]@) by {
        if j < n - 3 {
            assert(tris[j] == clipped[j]);
        }
    }
    assert forall|j: int, e: int| 0 <= j < tris.len() && 0 <= e < 3 implies #[trigger] tris[j]@[e] < n by {
        assert(is_triangle_of(c, tris[j]@));
        let x = tris[j]@[e] as usize;
        assert(c.contains(x));
        let w = choose|w: int| 0 <= w < c.len() && c[w] == x;
        assert(c[w] == w as usize);
    }
    assert forall|i: int, j: int| 0 <= i < j < tris.len() implies #[trigger] tris[i]@[1] != #[trigger] tris[j]@[1] by {
        if j < n - 3 {
            assert(tris[i] == clipped[i] && tris[j] == clipped[j]);
        } else {
            assert(tris[i] == clipped[i]);
            assert(!d.contains(clipped[i]@[1] as usize));
            assert(d.contains(d[k]));
        }
    }
}

/// Appending a triangle keeps what is known of the triangles before it.
proof fn lemma_keep_cuts<F: Fn(usize, usize, usize) -> Option<VertexShape>>(
    f: F,
    c: Seq<usize>,
    tris: Seq<[u32; 3]>,
    t: [u32; 3],
    count: int,
)
    requires
        0 <= count <= tris.len(),
        all_cuts_sharpest(f, c, tris, count),
        cut_vertices_measure_as_ears(f, tris, count),
    ensures
        all_cuts_sharpest(f, c, tris.push(t), count),
        cut_vertices_measure_as_ears(f, tris.push(t), count),
{
    let out = tris.push(t);
    assert forall|j: int| 0 <= j < count implies #[trigger] cuts_sharpest_ear(f, c, out, j) by {
        assert(out.take(j) =~= tris.take(j));
        assert(out[j] == tris[j]);
        assert(cuts_sharpest_ear(f, c, tris, j));
    }
    assert forall|j: int|
        #![trigger out[j]]
        0 <= j < count implies can_measure_ear(
            f,
            out[j]@[1] as usize,
            out[j]@[0] as usize,
            out[j]@[2] as usize,
        ) by {
        assert(out[j] == tris[j]);
    }
}

/// Cutting the sharpest ear `t` off the cycle `d` left by the cuts `tris`
/// extends them by one more cut of the sharpest ear, whose middle vertex `f`
/// measures as an ear.
proof fn lemma_add_cut<F: Fn(usize, usize, usize) -> Option<VertexShape>>(
    f: F,
    c: Seq<usize>,
    tris: Seq<[u32; 3]>,
    t: [u32; 3],
    d: Seq<usize>,
    shapes: Seq<VertexShape>,
)
    requires
        after_clips(c, tris) == Some(d),
        d.len() > 3,
        forall|i: int| 0 <= i < d.len() ==> #[trigger] d[i] <= u32::MAX,
        measures(f, d, shapes),
        is_sharpest_ear(d, shapes, position_of(d, t@[1] as usize)),
        is_clip_triangle(d, position_of(d, t@[1] as usize), t@),
        all_cuts_sharpest(f, c, tris, tris.len() as int),
        cut_vertices_measure_as_ears(f, tris, tris.len() as int),
    ensures
        after_clips(c, tris.push(t)) == Some(d.remove(position_of(d, t@[1] as usize))),
        all_cuts_sharpest(f, c, tris.push(t), tris.len() as int + 1),
        cut_vertices_measure_as_ears(f, tris.push(t), tris.len() as int + 1),
{
    let out = tris.push(t);
    let k = position_of(d, t@[1] as usize);
    let m = d.len() as int;
    lemma_keep_cuts(f, c, tris, t, tris.len() as int);
    assert(out.drop_last() =~= tris);
    assert(out.take(tris.len() as int) =~= tris);
    assert(out[tris.len() as int] == t);
    assert(cuts_sharpest_ear(f, c, out, tris.len() as int));
    assert(d[k] <= u32::MAX && d[pred(k, m)] <= u32::MAX && d[succ(k, m)] <= u32::MAX);
    assert(t@[1] as usize == d[k]);
    assert(t@[0] as usize == d[pred(k, m)]);
    assert(t@[2] as usize == d[succ(k, m)]);
    assert(f.ensures((d[k], d[pred(k, m)], d[succ(k, m)]), Some(shapes[k])));
    assert(can_measure_ear(f, d[k], d[pred(k, m)], d[succ(k, m)]));
}

/// A failed measurement of a corner of the cycle left by sharpest-ear cuts,
/// where corners are measured, is a way for ear clipping to give up.
proof fn lemma_give_up_on_failed_measure<F: Fn(usize, usize, usize) -> Option<VertexShape>>(
    f: F,
    n: nat,
    cuts: Seq<[u32; 3]>,
    d: Seq<usize>,
    j: int,
)
    requires
        n >= 1,
        cuts.len() == 0 || cuts.len() < n - 3,
        all_cuts_sharpest(f, polygon_cycle(n), cuts, cuts.len() as int),
        after_clips(polygon_cycle(n), cuts) == Some(d),
        0 <= j < d.len(),
        f.ensures((d[j], d[pred(j, d.len() as int)], d[succ(j, d.len() as int)]), None),
    ensures
        can_give_up_after(f, n, cuts),
{
    assert(some_corner_can_fail(f, d));
}

/// Corners of the cycle left by sharpest-ear cuts that measure with no ear,
/// with cuts still to make, are a way for ear clipping to give up.
proof fn lemma_give_up_without_ear<F: Fn(usize, usize, usize) -> Option<VertexShape>>(
    f: F,
    n: nat,
    cuts: Seq<[u32; 3]>,
    d: Seq<usize>,
    shapes: Seq<VertexShape>,
)
    requires
        n >= 3,
        cuts.len() < n - 3,
        all_cuts_sharpest(f, polygon_cycle(n), cuts, cuts.len() as int),
        after_clips(polygon_cycle(n), cuts) == Some(d),
        measures(f, d, shapes),
        forall|i: int| 0 <= i < d.len() ==> !(#[trigger] shapes[i]).is_ear,
    ensures
        can_give_up_after(f, n, cuts),
{
    assert(can_measure_without_ear(f, d));
}

/// `f` gives one answer for each corner: two answers it can give for the same
/// vertex between the same neighbours are equal.
pub open spec fn deterministic<F: Fn(usize, usize, usize) -> Option<VertexShape>>(f: F) -> bool {
    forall|v: usize, p: usize, q: usize, r1: Option<VertexShape>, r2: Option<VertexShape>|
        #[trigger] f.ensures((v, p, q), r1) && #[trigger] f.ensures((v, p, q), r2) ==> r1 == r2
}

/// When the triangles `tris` are cuts of the cycle `c`, each of them is a cut
/// of the cycle that the ones before it leave.
proof fn lemma_after_clips_prefix(c: Seq<usize>, tris: Seq<[u32; 3]>, j: int)
    requires
        after_clips(c, tris) is Some,
        0 <= j < tris.len(),
    ensures
        after_clips(c, tris.take(j)) is Some,
        ({
            let d = after_clips(c, tris.take(j))->0;
            let k = position_of(d, tris[j]@[1] as usize);
            &&& d.len() > 3
            &&& is_clip_triangle(d, k, tris[j]@)
            &&& after_clips(c, tris.take(j + 1)) == Some(d.remove(k))
        }),
    decreases tris.len(),
{
    let prefix = tris.drop_last();
    if j == tris.len() - 1 {
        assert(tris.take(j) =~= prefix);
        assert(tris.take(j + 1) =~= tris);
    } else {
        lemma_after_clips_prefix(c, prefix, j);
        assert(prefix.take(j) =~= tris.take(j));
        assert(prefix.take(j + 1) =~= tris.take(j + 1));
        assert(prefix[j] == tris[j]);
    }
}

/// With a deterministic measuring function there is one way to cut sharpest
/// ears: two sequences of sharpest-ear cuts of the same cycle agree on their
/// first `len` cuts.
proof fn lemma_sharpest_cuts_agree<F: Fn(usize, usize, usize) -> Option<VertexShape>>(
    f: F,
    c: Seq<usize>,
    a: Seq<[u32; 3]>,
    b: Seq<[u32; 3]>,
    len: int,
    n: nat,
)
    requires
        deterministic(f),
        c.no_duplicates(),
        n <= u32::MAX,
        forall|k: int| 0 <= k < c.len() ==> #[trigger] c[k] < n,
        0 <= len <= a.len(),
        len <= b.len(),
        after_clips(c, a.take(len)) is Some,
        after_clips(c, b.take(len)) is Some,
        all_cuts_sharpest(f, c, a, len),
        all_cuts_sharpest(f, c, b, len),
    ensures
        a.take(len) == b.take(len),
    decreases len,
{
    if len > 0 {
        let j = len - 1;
        lemma_after_clips_prefix(c, a.take(len), j);
        lemma_after_clips_prefix(c, b.take(len), j);
        assert(a.take(len).take(j) =~= a.take(j));
        assert(b.take(len).take(j) =~= b.take(j));
        assert(a.take(len)[j] == a[j]);
        assert(b.take(len)[j] == b[j]);
        lemma_sharpest_cuts_agree(f, c, a, b, j, n);
        let d = after_clips(c, a.take(j))->0;
        lemma_after_clips_vertices(c, a.take(j), n);
        assert(cuts_sharpest_ear(f, c, a, j));
        assert(cuts_sharpest_ear(f, c, b, j));
        let ka = position_of(d, a[j]@[1] as usize);
        let kb = position_of(d, b[j]@[1] as usize);
        let sa = choose|s: Seq<VertexShape>| #[trigger] measures(f, d, s) && is_sharpest_ear(d, s, ka);
        let sb = choose|s: Seq<VertexShape>| #[trigger] measures(f, d, s) && is_sharpest_ear(d, s, kb);
        let m = d.len() as int;
        assert forall|i: int| 0 <= i < m implies sa[i] == sb[i] by {
            assert(f.ensures((d[i], d[pred(i, m)], d[succ(i, m)]), Some(sa[i])));
            assert(f.ensures((d[i], d[pred(i, m)], d[succ(i, m)]), Some(sb[i])));
        }
        assert(sa =~= sb);
        assert(sa[kb].is_ear && sa[ka].is_ear);
        if d[ka] != d[kb] {
            if d[ka] > d[kb] {
                assert(sa[ka].pointiness < sa[kb].pointiness);
            } else {
                assert(sa[kb].pointiness < sa[ka].pointiness);
            }
        }
        assert(ka == kb);
        assert(a[j] =~= b[j]);
        assert(a.take(len) =~= a.take(j).push(a[j]));
        assert(b.take(len) =~= b.take(j).push(b[j]));
    }
}

/// With a deterministic measuring function, an ear decomposition whose cuts
/// all take the sharpest ear, with every corner measured at the start, leaves
/// ear clipping no way to give up.
proof fn lemma_no_give_up_after_success<F: Fn(usize, usize, usize) -> Option<VertexShape>>(
    f: F,
    n: nat,
    tris: Seq<[u32; 3]>,
    cuts: Seq<[u32; 3]>,
)
    requires
        deterministic(f),
        3 <= n <= u32::MAX,
        is_ear_decomposition(n, tris),
        exists|shapes: Seq<VertexShape>| #[trigger] measures(f, polygon_cycle(n), shapes),
        all_cuts_sharpest(f, polygon_cycle(n), tris, n - 3),
    ensures
        !can_give_up_after(f, n, cuts),
{
    if can_give_up_after(f, n, cuts) {
        let c = polygon_cycle(n);
        let len = cuts.len() as int;
        let whole = tris.take(n - 3);
        assert forall|i: int, j: int| 0 <= i < c.len() && 0 <= j < c.len() && i != j implies c[i] != c[j] by {}
        assert(cuts.take(len) =~= cuts);
        assert(whole.take(len) =~= tris.take(len));
        if len < n - 3 {
            lemma_after_clips_prefix(c, whole, len);
        } else {
            assert(whole.take(len) =~= whole);
        }
        assert forall|j: int| 0 <= j < len implies #[trigger] cuts_sharpest_ear(f, c, whole, j) by {
            assert(whole.take(j) =~= tris.take(j));
            assert(whole[j] == tris[j]);
            assert(cuts_sharpest_ear(f, c, tris, j));
        }
        lemma_sharpest_cuts_agree(f, c, whole, cuts, len, n);
        let d = after_clips(c, cuts)->0;
        assert(after_clips(c, tris.take(len)) == Some(d));
        let m = d.len() as int;
        if (len == 0 || len < n - 3) && some_corner_can_fail(f, d) {
            let i = choose|i: int|
                0 <= i < d.len() && #[trigger] f.ensures((d[i], d[pred(i, m)], d[succ(i, m)]), None);
            if len < n - 3 {
                assert(cuts_sharpest_ear(f, c, tris, len));
                let s = choose|s: Seq<VertexShape>|
                    #[trigger] measures(f, d, s) && is_sharpest_ear(d, s, position_of(d, tris[len]@[1] as usize));
                assert(f.ensures((d[i], d[pred(i, m)], d[succ(i, m)]), Some(s[i])));
            } else {
                assert(tris.take(0) =~= Seq::<[u32; 3]>::empty());
                assert(d == c);
                let s = choose|s: Seq<VertexShape>| #[trigger] measures(f, c, s);
                assert(f.ensures((d[i], d[pred(i, m)], d[succ(i, m)]), Some(s[i])));
            }
        } else {
            let none = choose|s: Seq<VertexShape>|
                #[trigger] measures(f, d, s) && forall|i: int| 0 <= i < d.len() ==> !(#[trigger] s[i]).is_ear;
            assert(cuts_sharpest_ear(f, c, tris, len));
            let k = position_of(d, tris[len]@[1] as usize);
            let s = choose|s: Seq<VertexShape>| #[trigger] measures(f, d, s) && is_sharpest_ear(d, s, k);
            assert(f.ensures((d[k], d[pred(k, m)], d[succ(k, m)]), Some(s[k])));
            assert(f.ensures((d[k], d[pred(k, m)], d[succ(k, m)]), Some(none[k])));
            assert(!none[k].is_ear);
        }
    }
}

/// Every answer that `f` can give for the corner at `v`, between `p` and `q`,
/// is a failed measurement.
pub open spec fn always_fails<F: Fn(usize, usize, usize) -> Option<VertexShape>>(
    f: F,
    v: usize,
    p: usize,
    q: usize,
) -> bool {
    forall|r: Option<VertexShape>| #[trigger] f.ensures((v, p, q), r) ==> r is None
}

/// Ear clipping of a polygon of `n_vertices` vertices.
///
/// `vertex_shape(v, prev, next)` measures the corner at `v` between its current
/// neighbours `prev` and `next`, or gives `None` when the geometry cannot be
/// measured. Every vertex is measured first, in order; the function gives up
/// (`None`) at the first failed measurement. Then `n_vertices - 3` times, the
/// sharpest ear (greatest pointiness, the last in vertex order on ties) is cut
/// off and its two neighbours are measured again (they are not measured after
/// the last of these cuts); the function gives up when a measurement fails or
/// no ear is left. The three remaining vertices make the last triangle.
///
/// On success the triangles are an ear decomposition of the polygon, each cut
/// taking the sharpest ear as measured, and every corner of the polygon can be
/// measured; on failure, some sequence of such cuts leads to a failed
/// measurement or to a cycle without ears. When `vertex_shape` gives one
/// answer per corner, the converse holds too: the function fails exactly when
/// such a sequence exists. Success is owed when every measurement succeeds
/// and finds an ear, and, for a triangle, whenever every measurement succeeds.
///
/// A polygon of one or two vertices is only measured: it is accepted when one
/// of its corners always fails to measure, and the function then gives up.
#[verifier::spinoff_prover]
#[verifier::rlimit(100)]
pub fn triangulate_ear_clipping<F: Fn(usize, usize, usize) -> Option<VertexShape>>(
    n_vertices: usize,
    vertex_shape: F,
) -> (r: Option<Vec<[u32; 3]>>)
    requires
        n_vertices <= u32::MAX,
        n_vertices >= 3 || exists|v: int|
            0 <= v < n_vertices && #[trigger] always_fails(
                vertex_shape,
                v as usize,
                pred(v, n_vertices as int) as usize,
                succ(v, n_vertices as int) as usize,
            ),
        forall|v: usize, p: usize, q: usize| vertex_shape.requires((v, p, q)),
    ensures
        n_vertices < 3 ==> r is None,
        r matches Some(tris) ==> {
            &&& is_ear_decomposition(n_vertices as nat, tris@)
            &&& exists|shapes: Seq<VertexShape>|
                #[trigger] measures(vertex_shape, polygon_cycle(n_vertices as nat), shapes)
            &&& all_cuts_sharpest(vertex_shape, polygon_cycle(n_vertices as nat), tris@, n_vertices - 3)
            &&& cut_vertices_measure_as_ears(vertex_shape, tris@, n_vertices - 3)
        },
        r is None ==> exists|cuts: Seq<[u32; 3]>|
            #[trigger] can_give_up_after(vertex_shape, n_vertices as nat, cuts),
        (deterministic(vertex_shape) && exists|cuts: Seq<[u32; 3]>|
            #[trigger] can_give_up_after(vertex_shape, n_vertices as nat, cuts)) ==> r is None,
        (forall|v: usize, p: usize, q: usize, s: Option<VertexShape>|
            #[trigger] vertex_shape.ensures((v, p, q), s) ==> (s matches Some(x) && x.is_ear)) ==> r is Some,
        (n_vertices == 3 && forall|v: usize, p: usize, q: usize, s: Option<VertexShape>|
            #[trigger] vertex_shape.ensures((v, p, q), s) ==> s is Some) ==> r is Some,
{
    let ghost all_ears = forall|v: usize, p: usize, q: usize, s: Option<VertexShape>|
        #[trigger] vertex_shape.ensures((v, p, q), s) ==> (s matches Some(x) && x.is_ear);
    let ghost never_fails = forall|v: usize, p: usize, q: usize, s: Option<VertexShape>|
        #[trigger] vertex_shape.ensures((v, p, q), s) ==> s is Some;
    let ghost c0 = polygon_cycle(n_vertices as nat);
    if n_vertices < 3 {
        let mut v: usize = 0;
        while v < n_vertices
            invariant
                v <= n_vertices < 3,
                c0 == polygon_cycle(n_vertices as nat),
                forall|v: usize, p: usize, q: usize| vertex_shape.requires((v, p, q)),
                forall|u: int|
                    0 <= u < v ==> !#[trigger] always_fails(
                        vertex_shape,
                        u as usize,
                        pred(u, n_vertices as int) as usize,
                        succ(u, n_vertices as int) as usize,
                    ),
            decreases n_vertices - v,
        {
            let p = if v == 0 { n_vertices - 1 } else { v - 1 };
            let q = if v == n_vertices - 1 { 0 } else { v + 1 };
            let answer = vertex_shape(v, p, q);
            match answer {
                Some(_) => {},
                None => {
                    proof {
                        let m = n_vertices as int;
                        assert(after_clips(c0, Seq::<[u32; 3]>::empty()) == Some(c0));
                        assert(c0[v as int] == v && c0[pred(v as int, m)] == p && c0[succ(v as int, m)] == q);
                        lemma_give_up_on_failed_measure(vertex_shape, n_vertices as nat, Seq::empty(), c0, v as int);
                    }
                    return None;
                },
            }
            assert(pred(v as int, n_vertices as int) as usize == p && succ(v as int, n_vertices as int) as usize == q);
            v = v + 1;
        }
        return None;
    }
    let mut ring = EarRing::new(n_vertices);
    let mut v: usize = 0;
    while v < n_vertices
        invariant
            ring.wf(),
            ring.n() == n_vertices,
            ring@ == c0,
            c0 == polygon_cycle(n_vertices as nat),
            3 <= n_vertices <= u32::MAX,
            v <= n_vertices,
            forall|v: usize, p: usize, q: usize| vertex_shape.requires((v, p, q)),
            all_ears == forall|v: usize, p: usize, q: usize, s: Option<VertexShape>|
                #[trigger] vertex_shape.ensures((v, p, q), s) ==> (s matches Some(x) && x.is_ear),
            never_fails == forall|v: usize, p: usize, q: usize, s: Option<VertexShape>|
                #[trigger] vertex_shape.ensures((v, p, q), s) ==> s is Some,
            all_ears ==> forall|u: int| 0 <= u < v ==> (#[trigger] ring.info(u)).is_ear,
            forall|u: int|
                0 <= u < v ==> vertex_shape.ensures(
                    (u as usize, (#[trigger] ring.info(u)).p_prev, ring.info(u).p_next),
                    Some(shape_of(ring.info(u))),
                ),
        decreases n_vertices - v,
    {
        let p = ring.prev_of(v);
        let q = ring.next_of(v);
        let answer = vertex_shape(v, p, q);
        match answer {
            Some(shape) => ring.set_shape(v, shape),
            None => {
                proof {
                    let m = n_vertices as int;
                    assert(after_clips(c0, Seq::<[u32; 3]>::empty()) == Some(c0));
                    assert(c0[v as int] == v);
                    assert(ring.info(c0[v as int] as int).p_prev == c0[pred(v as int, m)]
                        && ring.info(c0[v as int] as int).p_next == c0[succ(v as int, m)]) by {
                        reveal(EarRing::wf);
                    }
                    lemma_give_up_on_failed_measure(vertex_shape, n_vertices as nat, Seq::empty(), c0, v as int);
                    assert(!never_fails && !all_ears);
                }
                return None;
            },
        }
        v = v + 1;
    }
    proof {
        assert forall|u: int|
            0 <= u < ring.infos.len() && (#[trigger] ring.infos[u]).is_active implies vertex_shape.ensures(
                (u as usize, ring.infos[u].p_prev, ring.infos[u].p_next),
                Some(shape_of(ring.infos[u])),
            ) by {
            assert(ring.info(u) == ring.infos[u]);
        }
        lemma_recorded_shapes_measure(ring, vertex_shape);
    }
    let mut output: Vec<[u32; 3]> = Vec::new();
    let mut i: usize = 0;
    while i < n_vertices - 3
        invariant_except_break
            ring.shapes_measured_by(vertex_shape),
        invariant
            ring@.len() == n_vertices - i,
            ring.wf(),
            ring.n() == n_vertices,
            3 <= n_vertices <= u32::MAX,
            i <= n_vertices - 3,
            output@.len() == i,
            c0 == polygon_cycle(n_vertices as nat),
            after_clips(c0, output@) == Some(ring@),
            forall|v: usize, p: usize, q: usize| vertex_shape.requires((v, p, q)),
            all_ears == forall|v: usize, p: usize, q: usize, s: Option<VertexShape>|
                #[trigger] vertex_shape.ensures((v, p, q), s) ==> (s matches Some(x) && x.is_ear),
            all_ears ==> forall|u: int| 0 <= u < n_vertices ==> (#[trigger] ring.info(u)).is_ear,
            exists|shapes: Seq<VertexShape>| #[trigger] measures(vertex_shape, c0, shapes),
            all_cuts_sharpest(vertex_shape, c0, output@, i as int),
            cut_vertices_measure_as_ears(vertex_shape, output@, i as int),
        ensures
            output@.len() == n_vertices - 3,
            ring@.len() == 3,
        decreases n_vertices - 3 - i,
    {
        let ghost ring0 = ring;
        let ghost before = ring@;
        let ghost before_shapes = ring.shapes();
        let ghost before_output = output@;
        proof {
            lemma_recorded_shapes_measure(ring, vertex_shape);
        }
        let triangle = match ring.cut_sharpest_ear() {
            Some(t) => t,
            None => {
                proof {
                    reveal(EarRing::wf);
                    lemma_give_up_without_ear(vertex_shape, n_vertices as nat, before_output, before, before_shapes);
                    let c = before[0];
                    assert(ring.info(c as int).is_active);
                    assert(before_shapes[0] == shape_of(ring.info(c as int)));
                    assert(!all_ears);
                }
                return None;
            },
        };
        output.push(triangle);
        let ghost k = position_of(before, triangle@[1] as usize);
        proof {
            assert(forall|j: int| 0 <= j < before.len() ==> #[trigger] before[j] < n_vertices) by {
                reveal(EarRing::wf);
            }
            lemma_add_cut(vertex_shape, c0, before_output, triangle, before, before_shapes);
        }
        if i == n_vertices - 4 {
            i = i + 1;
            break;
        }
        let p = triangle[0] as usize;
        let q = triangle[2] as usize;
        let ghost d = ring@;
        let ghost ring1 = ring;
        assert(before[pred(k, before.len() as int)] < n_vertices && before[succ(k, before.len() as int)] < n_vertices) by {
            reveal(EarRing::wf);
        }
        let pp = ring.prev_of(p);
        let pq = ring.next_of(p);
        let answer = vertex_shape(p, pp, pq);
        let shape_p = match answer {
            Some(shape) => shape,
            None => {
                proof {
                    let jp = choose|j: int| 0 <= j < d.len() && d[j] == p;
                    assert(ring.info(d[jp] as int).p_prev == d[pred(jp, d.len() as int)]
                        && ring.info(d[jp] as int).p_next == d[succ(jp, d.len() as int)]) by {
                        reveal(EarRing::wf);
                    }
                    lemma_give_up_on_failed_measure(vertex_shape, n_vertices as nat, output@, d, jp);
                    assert(!all_ears);
                }
                return None;
            },
        };
        ring.set_shape(p, shape_p);
        let ghost ring2 = ring;
        let qp = ring.prev_of(q);
        let qq = ring.next_of(q);
        let answer = vertex_shape(q, qp, qq);
        let shape_q = match answer {
            Some(shape) => shape,
            None => {
                proof {
                    let jq = choose|j: int| 0 <= j < d.len() && d[j] == q;
                    assert(ring.info(d[jq] as int).p_prev == d[pred(jq, d.len() as int)]
                        && ring.info(d[jq] as int).p_next == d[succ(jq, d.len() as int)]) by {
                        reveal(EarRing::wf);
                    }
                    lemma_give_up_on_failed_measure(vertex_shape, n_vertices as nat, output@, d, jq);
                    assert(!all_ears);
                }
                return None;
            },
        };
        ring.set_shape(q, shape_q);
        proof {
            let e = triangle@[1] as int;
            assert forall|u: int|
                0 <= u < ring.infos.len() && u != p && u != e && u != q implies #[trigger] ring.infos[u] == ring0.infos[u] by {
                assert(ring.info(u) == ring2.info(u));
                assert(ring1.info(u) == ring0.info(u));
                assert(ring2.info(u) == ring1.info(u));
            }
            assert(ring2.info(e) == ring1.info(e));
            assert(ring.info(e) == ring2.info(e));
            assert(ring.info(p as int) == ring2.info(p as int));
            assert(shape_of(ring.infos[p as int]) == shape_p);
            assert(shape_of(ring.infos[q as int]) == shape_q);
            lemma_measured_after_cut(vertex_shape, ring0, ring, p as int, e, q as int);
        }
        i = i + 1;
    }
    let ghost clipped = output@;
    match ring.first_active() {
        Some(f) => {
            let p = ring.prev_of(f);
            let q = ring.next_of(f);
            let last = [p as u32, f as u32, q as u32];
            output.push(last);
            proof {
                reveal(EarRing::wf);
                let d = ring@;
                assert(d.contains(f));
                let k = choose|k: int| 0 <= k < d.len() && d[k] == f;
                lemma_position_of(d, k);
                assert(output@.take(n_vertices - 3) =~= clipped);
                assert(output@[n_vertices - 3] == last);
                assert forall|j: int| 0 <= j < 3 implies d[k] <= d[j] by {
                    assert(ring.info(d[j] as int).is_active);
                }
                assert(is_clip_triangle(d, k, last@));
                lemma_keep_cuts(vertex_shape, c0, clipped, last, n_vertices - 3);
                assert(is_ear_decomposition(n_vertices as nat, output@));
                if deterministic(vertex_shape) {
                    assert forall|cuts: Seq<[u32; 3]>| !#[trigger] can_give_up_after(vertex_shape, n_vertices as nat, cuts) by {
                        lemma_no_give_up_after_success(vertex_shape, n_vertices as nat, output@, cuts);
                    }
                }
            }
        },
        None => {
            proof {
                reveal(EarRing::wf);
                let d = ring@;
                assert(ring.info(d[0] as int).is_active);
            }
        },
    }
    Some(output)
}

} // verus!
