//! The mathematical model of a polyhedron: points, the links between them,
//! and the faces that the links imply.

use crate::threed::lemma_matches_reflexive;
use crate::threed::Matching;
use crate::threed::Point3D;
use crate::threed::Triangle3D;
use vstd::prelude::*;

verus! {

/// Points and the links between them. A point is known by its handle, which
/// is its position in `points`; `links[v]` lists the handles of the points
/// linked to `v`.
pub ghost struct Graph {
    pub points: Seq<Point3D>,
    pub links: Seq<Seq<usize>>,
}

/// The triangles of `list` that match none of those kept before them, in
/// their order.
pub open spec fn first_of_each(list: Seq<Triangle3D>, how: Matching) -> Seq<Triangle3D>
    decreases list.len(),
{
    if list.len() == 0 {
        Seq::empty()
    } else {
        let kept = first_of_each(list.drop_last(), how);
        if list.last().spec_is_in_by(kept, how) {
            kept
        } else {
            kept.push(list.last())
        }
    }
}

/// The corner of a box that handle `k` names. Bit 2 of `k` picks the `x`
/// coordinate, bit 1 the `y` coordinate and bit 0 the `z` coordinate: from
/// `upper` where the bit is clear, from `lower` where it is set.
pub open spec fn cube_corner(upper: Point3D, lower: Point3D, k: int) -> Point3D {
    Point3D {
        x: if k / 4 == 0 {
            upper.x
        } else {
            lower.x
        },
        y: if (k / 2) % 2 == 0 {
            upper.y
        } else {
            lower.y
        },
        z: if k % 2 == 0 {
            upper.z
        } else {
            lower.z
        },
    }
}

/// The links of corner `v` of a cube: in ascending order, the six handles
/// below 8 that are neither `v` nor the opposite corner `7 - v`.
pub open spec fn cube_row(row: Seq<usize>, v: int) -> bool {
    &&& row.len() == 6
    &&& forall|a: int|
        0 <= a < row.len() ==> 0 <= #[trigger] row[a] < 8 && row[a] != v && row[a] != 7 - v
    &&& forall|a: int, b: int| 0 <= a < b < row.len() ==> #[trigger] row[a] < #[trigger] row[b]
    &&& forall|w: usize| w < 8 && w != v && w != 7 - v ==> #[trigger] row.contains(w)
}

impl Graph {
    /// `b` is among the links of `a`.
    pub open spec fn linked(self, a: int, b: int) -> bool {
        exists|k: int| 0 <= k < self.links[a].len() && #[trigger] self.links[a][k] == b
    }

    /// Every point has its list of links. A link names a point of the graph
    /// other than the one that holds it, and is held from the other end too.
    /// No list names a point twice.
    pub open spec fn wf(self) -> bool {
        &&& self.links.len() == self.points.len()
        &&& forall|v: int, k: int|
            0 <= v < self.links.len() && 0 <= k < self.links[v].len() ==> {
                &&& (#[trigger] self.links[v][k]) < self.points.len()
                &&& self.links[v][k] != v
                &&& self.linked(self.links[v][k] as int, v)
            }
        &&& forall|v: int, j: int, k: int|
            0 <= v < self.links.len() && 0 <= j < k < self.links[v].len()
                ==> #[trigger] self.links[v][j] != #[trigger] self.links[v][k]
    }

    /// No coordinate of any point is a NaN.
    pub open spec fn is_nan_free(self) -> bool {
        forall|v: int| 0 <= v < self.points.len() ==> (#[trigger] self.points[v]).is_nan_free()
    }

    /// The graph with one more point, which has no links yet.
    pub open spec fn with_point(self, pt: Point3D) -> Graph {
        Graph { points: self.points.push(pt), links: self.links.push(Seq::empty()) }
    }

    /// The graph with `a` and `b` linked. Nothing changes where they are
    /// linked already, or where `a` is `b`.
    pub open spec fn link(self, a: usize, b: usize) -> Graph {
        if a == b || self.linked(a as int, b as int) {
            self
        } else {
            Graph {
                links: self.links.update(a as int, self.links[a as int].push(b)).update(
                    b as int,
                    self.links[b as int].push(a),
                ),
                ..self
            }
        }
    }

    /// The triangle on the points `v`, `l` and `ll`, in this order.
    pub open spec fn triangle(self, v: int, l: int, ll: int) -> Triangle3D {
        Triangle3D { a: self.points[v], b: self.points[l], c: self.points[ll] }
    }

    /// The candidates that start at `v`, go on to `l` and end in one of the
    /// first `upto` links of `l`, in the order of these. A link of `l` back
    /// to `v` gives no candidate; with `closed_only`, nor does a link of `l`
    /// to a point that is not linked to `v`.
    pub open spec fn through(self, v: int, l: int, upto: int, closed_only: bool) -> Seq<
        Triangle3D,
    >
        decreases upto,
    {
        if upto <= 0 {
            Seq::empty()
        } else {
            let ll = self.links[l][upto - 1] as int;
            let before = self.through(v, l, upto - 1, closed_only);
            if ll != v && (closed_only ==> self.linked(v, ll)) {
                before.push(self.triangle(v, l, ll))
            } else {
                before
            }
        }
    }

    /// The candidates that start at `v` and go on along one of its first
    /// `upto` links, in the order of these.
    pub open spec fn around(self, v: int, upto: int, closed_only: bool) -> Seq<Triangle3D>
        decreases upto,
    {
        if upto <= 0 {
            Seq::empty()
        } else {
            let l = self.links[v][upto - 1] as int;
            self.around(v, upto - 1, closed_only) + self.through(
                v,
                l,
                self.links[l].len() as int,
                closed_only,
            )
        }
    }

    /// The candidates that start at one of the first `upto` points, in the
    /// order of these.
    pub open spec fn sweep(self, upto: int, closed_only: bool) -> Seq<Triangle3D>
        decreases upto,
    {
        if upto <= 0 {
            Seq::empty()
        } else {
            self.sweep(upto - 1, closed_only) + self.around(
                upto - 1,
                self.links[upto - 1].len() as int,
                closed_only,
            )
        }
    }

    /// Every candidate, in the order in which the points and their links give
    /// them: for each point `v`, each link `l` of `v` and each link `ll` of
    /// `l` other than `v`, the triangle on `v`, `l` and `ll`; with
    /// `closed_only`, only where `ll` is linked to `v` as well.
    pub open spec fn candidates(self, closed_only: bool) -> Seq<Triangle3D> {
        self.sweep(self.points.len() as int, closed_only)
    }

    /// The faces that the links imply: of the candidates, in their order,
    /// each one that matches no face before it.
    pub open spec fn faces_with(self, how: Matching, closed_only: bool) -> Seq<Triangle3D> {
        first_of_each(self.candidates(closed_only), how)
    }

    /// The faces as they are found in the plain way: every walk along two
    /// links gives a candidate, and candidates are matched loosely.
    pub open spec fn faces(self) -> Seq<Triangle3D> {
        self.faces_with(Matching::Loose, false)
    }

    /// Link `i` of point `v`, followed by link `j` of the point reached, is a
    /// walk that does not end where it began; with `closed_only`, one that
    /// ends in a point linked to `v`.
    pub open spec fn is_walk(self, v: int, i: int, j: int, closed_only: bool) -> bool {
        &&& 0 <= v < self.points.len()
        &&& 0 <= i < self.links[v].len()
        &&& 0 <= j < self.links[self.links[v][i] as int].len()
        &&& self.links[self.links[v][i] as int][j] != v
        &&& closed_only ==> self.linked(v, self.links[self.links[v][i] as int][j] as int)
    }

    /// The triangle on the three points of a walk.
    pub open spec fn walk_triangle(self, v: int, i: int, j: int) -> Triangle3D {
        let l = self.links[v][i] as int;
        self.triangle(v, l, self.links[l][j] as int)
    }

    /// `t` is the triangle of some walk.
    pub open spec fn is_candidate(self, t: Triangle3D, closed_only: bool) -> bool {
        exists|v: int, i: int, j: int| #[trigger]
            self.is_walk(v, i, j, closed_only) && t == self.walk_triangle(v, i, j)
    }

    /// The graph is the cube between `upper` and `lower`: eight corners, each
    /// linked to all others but the opposite one.
    pub open spec fn is_cube(self, upper: Point3D, lower: Point3D) -> bool {
        &&& self.points.len() == 8
        &&& self.links.len() == 8
        &&& forall|k: int| 0 <= k < 8 ==> #[trigger] self.points[k] == cube_corner(upper, lower, k)
        &&& forall|k: int| 0 <= k < 8 ==> cube_row(#[trigger] self.links[k], k)
    }
}

/// One more triangle is kept exactly when it matches none of those kept so
/// far.
pub proof fn lemma_first_of_each_push(list: Seq<Triangle3D>, t: Triangle3D, how: Matching)
    ensures
        first_of_each(list.push(t), how) == if t.spec_is_in_by(first_of_each(list, how), how) {
            first_of_each(list, how)
        } else {
            first_of_each(list, how).push(t)
        },
{
    assert(list.push(t).drop_last() =~= list);
}

/// A new point without links keeps the graph well formed.
pub proof fn lemma_with_point_wf(g: Graph, pt: Point3D)
    requires
        g.wf(),
    ensures
        g.with_point(pt).wf(),
{
    let h = g.with_point(pt);
    assert forall|v: int, k: int|
        0 <= v < h.links.len() && 0 <= k < h.links[v].len() implies {
        &&& (#[trigger] h.links[v][k]) < h.points.len()
        &&& h.links[v][k] != v
        &&& h.linked(h.links[v][k] as int, v)
    } by {
        let w = g.links[v][k] as int;
        let m = choose|m: int| 0 <= m < g.links[w].len() && #[trigger] g.links[w][m] == v;
        assert(h.links[w][m] == v);
    }
}

/// A new link keeps the graph well formed.
pub proof fn lemma_link_wf(g: Graph, a: usize, b: usize)
    requires
        g.wf(),
        a < g.points.len(),
        b < g.points.len(),
    ensures
        g.link(a, b).wf(),
{
    let h = g.link(a, b);
    if a != b && !g.linked(a as int, b as int) {
        let da = g.links[a as int].len() as int;
        let db = g.links[b as int].len() as int;
        assert(h.links[a as int] == g.links[a as int].push(b));
        assert(h.links[b as int] == g.links[b as int].push(a));
        assert(h.links[a as int][da] == b);
        assert(h.links[b as int][db] == a);
        assert forall|v: int, k: int|
            0 <= v < h.links.len() && 0 <= k < h.links[v].len() implies {
            &&& (#[trigger] h.links[v][k]) < h.points.len()
            &&& h.links[v][k] != v
            &&& h.linked(h.links[v][k] as int, v)
        } by {
            let w = h.links[v][k] as int;
            if v == a && k == da {
                assert(h.links[b as int][db] == a);
            } else if v == b && k == db {
                assert(h.links[a as int][da] == b);
            } else {
                assert(g.links[v][k] == w);
                let m = choose|m: int| 0 <= m < g.links[w].len() && #[trigger] g.links[w][m] == v;
                assert(h.links[w][m] == v);
            }
        }
        assert forall|v: int, j: int, k: int|
            0 <= v < h.links.len() && 0 <= j < k < h.links[v].len() implies #[trigger] h.links[v][j]
            != #[trigger] h.links[v][k] by {
            if v == a && k == da {
                assert(g.links[v][j] == h.links[v][j]);
            } else if v == b && k == db {
                assert(g.links[v][j] == h.links[v][j]);
                if g.links[v][j] == a {
                    assert(g.linked(g.links[v][j] as int, v));
                }
            } else {
                assert(g.links[v][j] == h.links[v][j]);
                assert(g.links[v][k] == h.links[v][k]);
            }
        }
    }
}

/// What is kept of a list comes from the list; every triangle of the list is
/// kept or matches one that is kept; no kept triangle matches one kept
/// before it; and something is kept unless the list is empty.
pub proof fn lemma_first_of_each(list: Seq<Triangle3D>, how: Matching)
    ensures
        first_of_each(list, how).len() <= list.len(),
        list.len() > 0 ==> first_of_each(list, how).len() > 0,
        forall|k: int|
            0 <= k < first_of_each(list, how).len() ==> list.contains(
                #[trigger] first_of_each(list, how)[k],
            ),
        forall|k: int|
            0 <= k < list.len() ==> first_of_each(list, how).contains(#[trigger] list[k])
                || list[k].spec_is_in_by(first_of_each(list, how), how),
        forall|a: int, b: int|
            0 <= a < b < first_of_each(list, how).len() ==> !(#[trigger] first_of_each(
                list,
                how,
            )[b]).spec_matches_by(#[trigger] first_of_each(list, how)[a], how),
    decreases list.len(),
{
    if list.len() > 0 {
        let front = list.drop_last();
        let last = list.last();
        let kept = first_of_each(front, how);
        let all = first_of_each(list, how);
        lemma_first_of_each(front, how);
        assert forall|k: int| 0 <= k < all.len() implies list.contains(#[trigger] all[k]) by {
            if k < kept.len() {
                let m = choose|m: int| 0 <= m < front.len() && front[m] == kept[k];
                assert(list[m] == all[k]);
            } else {
                assert(list[list.len() - 1] == all[k]);
            }
        }
        assert forall|k: int| 0 <= k < list.len() implies all.contains(#[trigger] list[k])
            || list[k].spec_is_in_by(all, how) by {
            if k < front.len() {
                assert(front[k] == list[k]);
                if kept.contains(front[k]) {
                    let m = choose|m: int| 0 <= m < kept.len() && kept[m] == front[k];
                    assert(all[m] == list[k]);
                } else {
                    let m = choose|m: int|
                        0 <= m < kept.len() && front[k].spec_matches_by(#[trigger] kept[m], how);
                    assert(list[k].spec_matches_by(all[m], how));
                }
            } else if !last.spec_is_in_by(kept, how) {
                assert(all[all.len() - 1] == list[k]);
            }
        }
    }
}

/// The candidates through one link are triangles of walks, and hold the
/// triangle of every walk along that link.
proof fn lemma_through(g: Graph, v: int, i: int, upto: int, closed_only: bool)
    requires
        0 <= v < g.points.len(),
        0 <= i < g.links[v].len(),
        0 <= upto <= g.links[g.links[v][i] as int].len(),
    ensures
        forall|k: int|
            0 <= k < g.through(v, g.links[v][i] as int, upto, closed_only).len()
                ==> g.is_candidate(
                #[trigger] g.through(v, g.links[v][i] as int, upto, closed_only)[k],
                closed_only,
            ),
        forall|j: int|
            0 <= j < upto && #[trigger] g.is_walk(v, i, j, closed_only) ==> g.through(
                v,
                g.links[v][i] as int,
                upto,
                closed_only,
            ).contains(g.walk_triangle(v, i, j)),
    decreases upto,
{
    let l = g.links[v][i] as int;
    let now = g.through(v, l, upto, closed_only);
    if upto > 0 {
        let before = g.through(v, l, upto - 1, closed_only);
        lemma_through(g, v, i, upto - 1, closed_only);
        assert forall|k: int| 0 <= k < now.len() implies g.is_candidate(
            #[trigger] now[k],
            closed_only,
        ) by {
            if k < before.len() {
                assert(now[k] == before[k]);
            } else {
                assert(g.is_walk(v, i, upto - 1, closed_only));
                assert(now[k] == g.walk_triangle(v, i, upto - 1));
            }
        }
        assert forall|j: int|
            0 <= j < upto && #[trigger] g.is_walk(v, i, j, closed_only) implies now.contains(
            g.walk_triangle(v, i, j),
        ) by {
            if j < upto - 1 {
                let m = choose|m: int|
                    0 <= m < before.len() && before[m] == g.walk_triangle(v, i, j);
                assert(now[m] == g.walk_triangle(v, i, j));
            } else {
                assert(now[now.len() - 1] == g.walk_triangle(v, i, j));
            }
        }
    }
}

/// The candidates around one point are triangles of walks, and hold the
/// triangle of every walk from that point.
proof fn lemma_around(g: Graph, v: int, upto: int, closed_only: bool)
    requires
        0 <= v < g.points.len(),
        0 <= upto <= g.links[v].len(),
    ensures
        forall|k: int|
            0 <= k < g.around(v, upto, closed_only).len() ==> g.is_candidate(
                #[trigger] g.around(v, upto, closed_only)[k],
                closed_only,
            ),
        forall|i: int, j: int|
            0 <= i < upto && #[trigger] g.is_walk(v, i, j, closed_only) ==> g.around(
                v,
                upto,
                closed_only,
            ).contains(g.walk_triangle(v, i, j)),
    decreases upto,
{
    let now = g.around(v, upto, closed_only);
    if upto > 0 {
        let before = g.around(v, upto - 1, closed_only);
        let l = g.links[v][upto - 1] as int;
        let last = g.through(v, l, g.links[l].len() as int, closed_only);
        lemma_around(g, v, upto - 1, closed_only);
        lemma_through(g, v, upto - 1, g.links[l].len() as int, closed_only);
        assert forall|k: int| 0 <= k < now.len() implies g.is_candidate(
            #[trigger] now[k],
            closed_only,
        ) by {
            if k < before.len() {
                assert(now[k] == before[k]);
            } else {
                assert(now[k] == last[k - before.len()]);
            }
        }
        assert forall|i: int, j: int|
            0 <= i < upto && #[trigger] g.is_walk(v, i, j, closed_only) implies now.contains(
            g.walk_triangle(v, i, j),
        ) by {
            let t = g.walk_triangle(v, i, j);
            if i < upto - 1 {
                let m = choose|m: int| 0 <= m < before.len() && before[m] == t;
                assert(now[m] == t);
            } else {
                let m = choose|m: int| 0 <= m < last.len() && last[m] == t;
                assert(now[before.len() + m] == t);
            }
        }
    }
}

/// The candidates from the first points are triangles of walks, and hold the
/// triangle of every walk from one of these points.
proof fn lemma_sweep(g: Graph, upto: int, closed_only: bool)
    requires
        g.links.len() == g.points.len(),
        0 <= upto <= g.points.len(),
    ensures
        forall|k: int|
            0 <= k < g.sweep(upto, closed_only).len() ==> g.is_candidate(
                #[trigger] g.sweep(upto, closed_only)[k],
                closed_only,
            ),
        forall|v: int, i: int, j: int|
            0 <= v < upto && #[trigger] g.is_walk(v, i, j, closed_only) ==> g.sweep(
                upto,
                closed_only,
            ).contains(g.walk_triangle(v, i, j)),
    decreases upto,
{
    let now = g.sweep(upto, closed_only);
    if upto > 0 {
        let before = g.sweep(upto - 1, closed_only);
        let last = g.around(upto - 1, g.links[upto - 1].len() as int, closed_only);
        lemma_sweep(g, upto - 1, closed_only);
        lemma_around(g, upto - 1, g.links[upto - 1].len() as int, closed_only);
        assert forall|k: int| 0 <= k < now.len() implies g.is_candidate(
            #[trigger] now[k],
            closed_only,
        ) by {
            if k < before.len() {
                assert(now[k] == before[k]);
            } else {
                assert(now[k] == last[k - before.len()]);
            }
        }
        assert forall|v: int, i: int, j: int|
            0 <= v < upto && #[trigger] g.is_walk(v, i, j, closed_only) implies now.contains(
            g.walk_triangle(v, i, j),
        ) by {
            let t = g.walk_triangle(v, i, j);
            if v < upto - 1 {
                let m = choose|m: int| 0 <= m < before.len() && before[m] == t;
                assert(now[m] == t);
            } else {
                let m = choose|m: int| 0 <= m < last.len() && last[m] == t;
                assert(now[before.len() + m] == t);
            }
        }
    }
}

/// The candidates are the triangles of the walks: each candidate is the
/// triangle of a walk, and the triangle of each walk is a candidate.
pub proof fn lemma_candidates(g: Graph, closed_only: bool)
    requires
        g.links.len() == g.points.len(),
    ensures
        forall|k: int|
            0 <= k < g.candidates(closed_only).len() ==> g.is_candidate(
                #[trigger] g.candidates(closed_only)[k],
                closed_only,
            ),
        forall|v: int, i: int, j: int| #[trigger]
            g.is_walk(v, i, j, closed_only) ==> g.candidates(closed_only).contains(
                g.walk_triangle(v, i, j),
            ),
{
    lemma_sweep(g, g.points.len() as int, closed_only);
}

/// Every face is the triangle of a walk along two links.
pub proof fn lemma_faces_are_candidates(g: Graph, how: Matching, closed_only: bool)
    requires
        g.links.len() == g.points.len(),
    ensures
        forall|k: int|
            0 <= k < g.faces_with(how, closed_only).len() ==> g.is_candidate(
                #[trigger] g.faces_with(how, closed_only)[k],
                closed_only,
            ),
{
    let faces = g.faces_with(how, closed_only);
    let candidates = g.candidates(closed_only);
    lemma_candidates(g, closed_only);
    lemma_first_of_each(candidates, how);
    assert forall|k: int| 0 <= k < faces.len() implies g.is_candidate(
        #[trigger] faces[k],
        closed_only,
    ) by {
        let t = faces[k];
        assert(candidates.contains(t));
        let m = choose|m: int| 0 <= m < candidates.len() && candidates[m] == t;
        assert(g.is_candidate(candidates[m], closed_only));
    }
}

/// The triangle of every walk matches some face, unless one of its
/// coordinates is a NaN.
pub proof fn lemma_faces_cover_candidates(g: Graph, how: Matching, closed_only: bool)
    requires
        g.links.len() == g.points.len(),
    ensures
        forall|v: int, i: int, j: int|
            #[trigger] g.is_walk(v, i, j, closed_only) && g.walk_triangle(v, i, j).is_nan_free()
                ==> g.walk_triangle(v, i, j).spec_is_in_by(g.faces_with(how, closed_only), how),
{
    let faces = g.faces_with(how, closed_only);
    let candidates = g.candidates(closed_only);
    lemma_candidates(g, closed_only);
    lemma_first_of_each(candidates, how);
    assert forall|v: int, i: int, j: int|
        #[trigger] g.is_walk(v, i, j, closed_only) && g.walk_triangle(
            v,
            i,
            j,
        ).is_nan_free() implies g.walk_triangle(v, i, j).spec_is_in_by(faces, how) by {
        let t = g.walk_triangle(v, i, j);
        assert(candidates.contains(t));
        let m = choose|m: int| 0 <= m < candidates.len() && candidates[m] == t;
        assert(faces.contains(candidates[m]) || candidates[m].spec_is_in_by(faces, how));
        if faces.contains(t) {
            let f = choose|f: int| 0 <= f < faces.len() && faces[f] == t;
            lemma_matches_reflexive(t, how);
            assert(t.spec_matches_by(faces[f], how));
        }
    }
}

/// No face matches a face before it.
pub proof fn lemma_faces_differ(g: Graph, how: Matching, closed_only: bool)
    ensures
        forall|a: int, b: int|
            0 <= a < b < g.faces_with(how, closed_only).len() ==> !(#[trigger] g.faces_with(
                how,
                closed_only,
            )[b]).spec_matches_by(#[trigger] g.faces_with(how, closed_only)[a], how),
{
    lemma_first_of_each(g.candidates(closed_only), how);
}

/// There is a face exactly when there is a walk.
pub proof fn lemma_faces_exist(g: Graph, how: Matching, closed_only: bool)
    requires
        g.links.len() == g.points.len(),
    ensures
        g.faces_with(how, closed_only).len() > 0 <==> exists|v: int, i: int, j: int| #[trigger]
            g.is_walk(v, i, j, closed_only),
{
    let candidates = g.candidates(closed_only);
    lemma_candidates(g, closed_only);
    lemma_first_of_each(candidates, how);
    if g.faces_with(how, closed_only).len() > 0 {
        assert(g.is_candidate(candidates[0], closed_only));
    }
    if exists|v: int, i: int, j: int| #[trigger] g.is_walk(v, i, j, closed_only) {
        let (v, i, j) = choose|v: int, i: int, j: int| #[trigger] g.is_walk(v, i, j, closed_only);
        assert(candidates.contains(g.walk_triangle(v, i, j)));
    }
}

/// A cube is a well-formed graph.
pub proof fn lemma_cube_wf(g: Graph, upper: Point3D, lower: Point3D)
    requires
        g.is_cube(upper, lower),
    ensures
        g.wf(),
{
    assert forall|v: int, k: int|
        0 <= v < g.links.len() && 0 <= k < g.links[v].len() implies {
        &&& (#[trigger] g.links[v][k]) < g.points.len()
        &&& g.links[v][k] != v
        &&& g.linked(g.links[v][k] as int, v)
    } by {
        let w = g.links[v][k] as int;
        assert(cube_row(g.links[v], v));
        assert(cube_row(g.links[w], w));
        assert(g.links[w].contains(v as usize));
        let m = choose|m: int| 0 <= m < g.links[w].len() && g.links[w][m] == v as usize;
        assert(g.links[w][m] == v);
    }
    assert forall|v: int, j: int, k: int|
        0 <= v < g.links.len() && 0 <= j < k < g.links[v].len() implies #[trigger] g.links[v][j]
        != #[trigger] g.links[v][k] by {
        assert(cube_row(g.links[v], v));
    }
}

/// A cube has faces, however they are looked for.
pub proof fn lemma_cube_has_faces(
    g: Graph,
    upper: Point3D,
    lower: Point3D,
    how: Matching,
    closed_only: bool,
)
    requires
        g.is_cube(upper, lower),
    ensures
        g.faces_with(how, closed_only).len() > 0,
{
    assert(cube_row(g.links[0], 0));
    assert(g.links[0].contains(1usize));
    assert(g.links[0].contains(2usize));
    let i = choose|i: int| 0 <= i < g.links[0].len() && g.links[0][i] == 1usize;
    let k = choose|k: int| 0 <= k < g.links[0].len() && g.links[0][k] == 2usize;
    assert(cube_row(g.links[1], 1));
    assert(g.links[1].contains(2usize));
    let j = choose|j: int| 0 <= j < g.links[1].len() && g.links[1][j] == 2usize;
    assert(g.linked(0, 2)) by {
        assert(g.links[0][k] == 2);
    }
    assert(g.is_walk(0, i, j, closed_only));
    lemma_faces_exist(g, how, closed_only);
}

} // verus!
