//! Polyhedra as vertices and adjacency, and the faces that adjacency implies.
//!
//! A `Geometry` stores points and, for each point, the handles of the points
//! linked to it. It stores no faces: a face is found wherever two links meet,
//! and `make_tris` collects them, keeping one triangle of each set of
//! triangles that match one another.

use crate::graph::cube_corner;
use crate::graph::cube_row;
use crate::graph::first_of_each;
use crate::graph::lemma_cube_wf;
use crate::graph::lemma_faces_are_candidates;
use crate::graph::lemma_first_of_each_push;
use crate::graph::lemma_link_wf;
use crate::graph::lemma_with_point_wf;
use crate::graph::Graph;
use crate::threed::lemma_matches_reflexive;
use crate::threed::Matching;
use crate::threed::Point3D;
use crate::threed::Triangle3D;
use vstd::prelude::*;

verus! {

/// A polyhedron: its vertices, the links between them, and the faces found
/// when they were last looked for.
pub struct Geometry {
    vertices: Vec<Point3D>,
    links: Vec<Vec<usize>>,
    tris_cache: Vec<Triangle3D>,
}

/// What a `Geometry` stands for: its graph, and the faces it has cached.
pub ghost struct GeometryView {
    pub graph: Graph,
    pub cache: Seq<Triangle3D>,
}

impl View for Geometry {
    type V = GeometryView;

    closed spec fn view(&self) -> GeometryView {
        GeometryView {
            graph: Graph {
                points: self.vertices@,
                links: Seq::new(self.links@.len(), |v: int| self.links@[v]@),
            },
            cache: self.tris_cache@,
        }
    }
}

/// How faces are looked for.
#[derive(Clone, Copy, Debug)]
pub struct Discovery {
    /// How a candidate is held against the faces found before it.
    pub matching: Matching,
    /// Whether a walk along two links gives a candidate only where its last
    /// point is linked to its first, so that the three links close a
    /// triangle.
    pub closed_only: bool,
}

impl Discovery {
    /// The plain way: every walk gives a candidate, and candidates are
    /// matched loosely.
    pub open spec fn plain() -> Discovery {
        Discovery { matching: Matching::Loose, closed_only: false }
    }
}

impl Default for Discovery {
    /// The plain way.
    fn default() -> (how: Discovery)
        ensures
            how == Discovery::plain(),
    {
        Discovery { matching: Matching::Loose, closed_only: false }
    }
}

impl GeometryView {
    /// `after` is this geometry once its faces have been looked for again:
    /// the same graph, and its faces in the cache.
    pub open spec fn rebuilds_to(self, after: GeometryView, how: Discovery) -> bool {
        after.graph == self.graph && after.cache == self.graph.faces_with(
            how.matching,
            how.closed_only,
        )
    }
}

/// Looking for the faces a second time, in the same way and with the graph
/// unchanged, finds the same faces again: as many as the first time, and, in
/// a graph without NaN coordinates, each of them matching one of the first
/// time.
pub proof fn lemma_rebuild_twice(
    before: GeometryView,
    once: GeometryView,
    twice: GeometryView,
    how: Discovery,
)
    requires
        before.graph.wf(),
        before.rebuilds_to(once, how),
        once.rebuilds_to(twice, how),
    ensures
        twice.cache == once.cache,
        twice.cache.len() == once.cache.len(),
        before.graph.is_nan_free() ==> forall|k: int|
            0 <= k < twice.cache.len() ==> (#[trigger] twice.cache[k]).spec_is_in_by(
                once.cache,
                how.matching,
            ),
{
    let g = before.graph;
    lemma_faces_are_candidates(g, how.matching, how.closed_only);
    if g.is_nan_free() {
        assert forall|k: int| 0 <= k < twice.cache.len() implies (
        #[trigger] twice.cache[k]).spec_is_in_by(once.cache, how.matching) by {
            let t = twice.cache[k];
            assert(g.is_candidate(g.faces_with(how.matching, how.closed_only)[k], how.closed_only));
            let (v, i, j) = choose|v: int, i: int, j: int| #[trigger]
                g.is_walk(v, i, j, how.closed_only) && t == g.walk_triangle(v, i, j);
            let l = g.links[v][i] as int;
            let ll = g.links[l][j] as int;
            assert(g.points[v].is_nan_free());
            assert(g.points[l].is_nan_free());
            assert(g.points[ll].is_nan_free());
            lemma_matches_reflexive(t, how.matching);
            assert(t.spec_matches_by(once.cache[k], how.matching));
        }
    }
}

impl Geometry {
    /// The graph is well formed.
    pub open spec fn wf(&self) -> bool {
        self@.graph.wf()
    }

    /// A geometry without vertices.
    pub fn new() -> (g: Geometry)
        ensures
            g.wf(),
            g@.graph.points.len() == 0,
            g@.cache.len() == 0,
    {
        Geometry { vertices: Vec::new(), links: Vec::new(), tris_cache: Vec::new() }
    }

    /// The number of vertices.
    pub fn vertex_count(&self) -> (n: usize)
        ensures
            n == self@.graph.points.len(),
    {
        self.vertices.len()
    }

    /// Adds a vertex without links. Its handle is the number of vertices
    /// there were before.
    pub fn add_point(&mut self, pt: Point3D)
        requires
            old(self).wf(),
        ensures
            final(self).wf(),
            final(self)@.graph == old(self)@.graph.with_point(pt),
            final(self)@.cache == old(self)@.cache,
    {
        self.vertices.push(pt);
        self.links.push(Vec::new());
        assert(self@.graph.links =~= old(self)@.graph.with_point(pt).links);
        proof {
            lemma_with_point_wf(old(self)@.graph, pt);
        }
    }

    /// The point of vertex `idx`.
    pub fn get_link_pt(&self, idx: usize) -> (pt: Point3D)
        requires
            idx < self@.graph.points.len(),
        ensures
            pt == self@.graph.points[idx as int],
    {
        self.vertices[idx]
    }

    /// The handles of the vertices linked to vertex `idx`.
    pub fn links_of(&self, idx: usize) -> (row: &Vec<usize>)
        requires
            self.wf(),
            idx < self@.graph.points.len(),
        ensures
            row@ == self@.graph.links[idx as int],
    {
        &self.links[idx]
    }

    /// The cached faces, as `make_tris` left them.
    pub fn tris(&self) -> (cache: &Vec<Triangle3D>)
        ensures
            cache@ == self@.cache,
    {
        &self.tris_cache
    }

    /// Tells whether `b` is among the links of `a`.
    pub fn is_linked(&self, a: usize, b: usize) -> (r: bool)
        requires
            self.wf(),
            a < self@.graph.points.len(),
        ensures
            r == self@.graph.linked(a as int, b as int),
    {
        let row = &self.links[a];
        let mut k: usize = 0;
        while k < row.len()
            invariant
                k <= row.len(),
                row@ == self@.graph.links[a as int],
                forall|m: int| 0 <= m < k ==> row@[m] != b,
            decreases row.len() - k,
        {
            if row[k] == b {
                return true;
            }
            k += 1;
        }
        false
    }

    /// Links the vertices `a` and `b` to each other. Linking a vertex to
    /// itself, or linking two vertices again, changes nothing.
    pub fn link(&mut self, a: usize, b: usize)
        requires
            old(self).wf(),
            a < old(self)@.graph.points.len(),
            b < old(self)@.graph.points.len(),
        ensures
            final(self).wf(),
            final(self)@.graph == old(self)@.graph.link(a, b),
            final(self)@.cache == old(self)@.cache,
    {
        if a != b && !self.is_linked(a, b) {
            self.links[a].push(b);
            self.links[b].push(a);
            assert(self@.graph.links =~= old(self)@.graph.link(a, b).links);
        }
        proof {
            lemma_link_wf(old(self)@.graph, a, b);
        }
    }

    /// Links three vertices into a triangle: `a` to `b`, `b` to `c`, and `c`
    /// to `a`.
    pub fn add_tri(&mut self, a: usize, b: usize, c: usize)
        requires
            old(self).wf(),
            a < old(self)@.graph.points.len(),
            b < old(self)@.graph.points.len(),
            c < old(self)@.graph.points.len(),
        ensures
            final(self).wf(),
            final(self)@.graph == old(self)@.graph.link(a, b).link(b, c).link(c, a),
            final(self)@.cache == old(self)@.cache,
    {
        self.link(a, b);
        self.link(b, c);
        self.link(c, a);
    }

    /// The cube between two opposite corners. Corner `k` takes each
    /// coordinate from `upper` or from `lower`, as the bits of `k` say, so
    /// that the corner opposite to `k` is `7 - k`. Each corner is linked to
    /// all others but the opposite one.
    pub fn cube(upper: Point3D, lower: Point3D) -> (g: Geometry)
        ensures
            g.wf(),
            g@.graph.is_cube(upper, lower),
            g@.cache.len() == 0,
    {
        let mut vertices: Vec<Point3D> = Vec::new();
        let mut links: Vec<Vec<usize>> = Vec::new();
        let mut index: usize = 0;
        while index < 8
            invariant
                index <= 8,
                vertices@.len() == index,
                links@.len() == index,
                forall|k: int|
                    0 <= k < index ==> #[trigger] vertices@[k] == cube_corner(upper, lower, k),
                forall|k: int| 0 <= k < index ==> cube_row((#[trigger] links@[k])@, k),
            decreases 8 - index,
        {
            let corner = Point3D {
                x: if index / 4 == 0 {
                    upper.x
                } else {
                    lower.x
                },
                y: if (index / 2) % 2 == 0 {
                    upper.y
                } else {
                    lower.y
                },
                z: if index % 2 == 0 {
                    upper.z
                } else {
                    lower.z
                },
            };
            let mut row: Vec<usize> = Vec::new();
            let mut link_index: usize = 0;
            while link_index < 8
                invariant
                    index < 8,
                    link_index <= 8,
                    row@.len() == link_index - (if index < link_index {
                        1int
                    } else {
                        0int
                    }) - (if 7 - index < link_index {
                        1int
                    } else {
                        0int
                    }),
                    forall|a: int|
                        0 <= a < row@.len() ==> 0 <= #[trigger] row@[a] < link_index && row@[a]
                            != index && row@[a] != 7 - index,
                    forall|a: int, b: int|
                        0 <= a < b < row@.len() ==> #[trigger] row@[a] < #[trigger] row@[b],
                    forall|w: usize|
                        w < link_index && w != index && w != 7 - index ==> #[trigger] row@.contains(
                            w,
                        ),
                decreases 8 - link_index,
            {
                if link_index != index && link_index != 7 - index {
                    let ghost before = row@;
                    row.push(link_index);
                    assert forall|w: usize|
                        w < link_index + 1 && w != index && w != 7 - index
                            implies #[trigger] row@.contains(w) by {
                        if w < link_index {
                            assert(before.contains(w));
                            let m = choose|m: int| 0 <= m < before.len() && before[m] == w;
                            assert(row@[m] == w);
                        } else {
                            assert(row@[row@.len() - 1] == w);
                        }
                    }
                }
                link_index += 1;
            }
            vertices.push(corner);
            links.push(row);
            index += 1;
        }
        let g = Geometry { vertices, links, tris_cache: Vec::new() };
        proof {
            assert forall|k: int| 0 <= k < 8 implies cube_row(#[trigger] g@.graph.links[k], k) by {
                assert(cube_row(links@[k]@, k));
            }
            lemma_cube_wf(g@.graph, upper, lower);
        }
        g
    }

    /// Moves every vertex to where `transformation` sends it. Links and
    /// cached faces stay as they are.
    pub fn apply_transformation<F: Fn(Point3D) -> Point3D>(&mut self, transformation: F)
        requires
            old(self).wf(),
            forall|k: int|
                0 <= k < old(self)@.graph.points.len() ==> call_requires(
                    transformation,
                    (#[trigger] old(self)@.graph.points[k],),
                ),
        ensures
            final(self).wf(),
            final(self)@.graph.links == old(self)@.graph.links,
            final(self)@.cache == old(self)@.cache,
            final(self)@.graph.points.len() == old(self)@.graph.points.len(),
            forall|k: int|
                0 <= k < old(self)@.graph.points.len() ==> call_ensures(
                    transformation,
                    (old(self)@.graph.points[k],),
                    #[trigger] final(self)@.graph.points[k],
                ),
    {
        let n: usize = self.vertices.len();
        let mut k: usize = 0;
        while k < n
            invariant
                k <= n,
                n == old(self)@.graph.points.len(),
                self@.graph.points.len() == n,
                self@.graph.links == old(self)@.graph.links,
                self@.cache == old(self)@.cache,
                forall|m: int|
                    0 <= m < n ==> call_requires(
                        transformation,
                        (#[trigger] old(self)@.graph.points[m],),
                    ),
                forall|m: int|
                    0 <= m < k ==> call_ensures(
                        transformation,
                        (old(self)@.graph.points[m],),
                        #[trigger] self@.graph.points[m],
                    ),
                forall|m: int|
                    k <= m < n ==> #[trigger] self@.graph.points[m] == old(self)@.graph.points[m],
            decreases n - k,
        {
            let moved = transformation(self.vertices[k]);
            self.vertices[k] = moved;
            k += 1;
        }
    }

    /// Derives the faces from the links: for each vertex `v`, each link `l`
    /// of `v` and each link `ll` of `l` other than `v`, the triangle on the
    /// three, unless it matches a face found before it. With
    /// `how.closed_only`, `ll` must be linked to `v` as well.
    pub fn discover_faces_with(&self, how: Discovery) -> (faces: Vec<Triangle3D>)
        requires
            self.wf(),
        ensures
            faces@ == self@.graph.faces_with(how.matching, how.closed_only),
    {
        let ghost g = self@.graph;
        let closed_only = how.closed_only;
        let matching = how.matching;
        let mut faces: Vec<Triangle3D> = Vec::new();
        let n: usize = self.vertices.len();
        let mut v: usize = 0;
        while v < n
            invariant
                g == self@.graph,
                g.wf(),
                n == g.points.len(),
                v <= n,
                faces@ == first_of_each(g.sweep(v as int, closed_only), matching),
            decreases n - v,
        {
            let row = &self.links[v];
            let mut i: usize = 0;
            assert(g.sweep(v as int, closed_only) + g.around(v as int, 0, closed_only) =~= g.sweep(
                v as int,
                closed_only,
            ));
            while i < row.len()
                invariant
                    g == self@.graph,
                    g.wf(),
                    n == g.points.len(),
                    v < n,
                    row@ == g.links[v as int],
                    i <= row.len(),
                    faces@ == first_of_each(
                        g.sweep(v as int, closed_only) + g.around(v as int, i as int, closed_only),
                        matching,
                    ),
                decreases row.len() - i,
            {
                let l: usize = row[i];
                let next = &self.links[l];
                let ghost done = g.sweep(v as int, closed_only) + g.around(
                    v as int,
                    i as int,
                    closed_only,
                );
                let mut j: usize = 0;
                assert(done + g.through(v as int, l as int, 0, closed_only) =~= done);
                while j < next.len()
                    invariant
                        g == self@.graph,
                        g.wf(),
                        n == g.points.len(),
                        v < n,
                        l < n,
                        next@ == g.links[l as int],
                        j <= next.len(),
                        faces@ == first_of_each(
                            done + g.through(v as int, l as int, j as int, closed_only),
                            matching,
                        ),
                    decreases next.len() - j,
                {
                    let ll: usize = next[j];
                    if ll != v && (!closed_only || self.is_linked(v, ll)) {
                        let t = Triangle3D {
                            a: self.vertices[v],
                            b: self.vertices[l],
                            c: self.vertices[ll],
                        };
                        proof {
                            let before = done + g.through(
                                v as int,
                                l as int,
                                j as int,
                                closed_only,
                            );
                            lemma_first_of_each_push(before, t, matching);
                            assert(before.push(t) =~= done + g.through(
                                v as int,
                                l as int,
                                j + 1,
                                closed_only,
                            ));
                        }
                        if !t.is_in_by(&faces, matching) {
                            faces.push(t);
                        }
                    }
                    j += 1;
                }
                assert(done + g.through(v as int, l as int, j as int, closed_only) =~= g.sweep(
                    v as int,
                    closed_only,
                ) + g.around(v as int, i + 1, closed_only));
                i += 1;
            }
            v += 1;
        }
        faces
    }

    /// Derives the faces from the links in the plain way.
    pub fn discover_faces(&self) -> (faces: Vec<Triangle3D>)
        requires
            self.wf(),
        ensures
            faces@ == self@.graph.faces(),
    {
        self.discover_faces_with(Discovery::default())
    }

    /// Drops the cached faces and finds them afresh, in the way that `how`
    /// says.
    pub fn make_tris_with(&mut self, how: Discovery)
        requires
            old(self).wf(),
        ensures
            final(self).wf(),
            old(self)@.rebuilds_to(final(self)@, how),
    {
        self.tris_cache = self.discover_faces_with(how);
    }

    /// Drops the cached faces and finds them afresh, in the plain way.
    pub fn make_tris(&mut self)
        requires
            old(self).wf(),
        ensures
            final(self).wf(),
            old(self)@.rebuilds_to(final(self)@, Discovery::plain()),
    {
        self.make_tris_with(Discovery::default());
    }
}

} // verus!
