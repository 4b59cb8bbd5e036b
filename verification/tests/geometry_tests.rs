use wireframe::geometry::Discovery;
use wireframe::geometry::Geometry;
use wireframe::scalar::Scalar;
use wireframe::threed::Matching;
use wireframe::threed::Point3D;
use wireframe::threed::Triangle3D;

fn s(x: f32) -> Scalar {
    Scalar::from_bits(x.to_bits())
}

fn f(x: Scalar) -> f32 {
    f32::from_bits(x.to_bits())
}

fn p(x: f32, y: f32, z: f32) -> Point3D {
    Point3D::from_coords(s(x), s(y), s(z))
}

fn coords(q: Point3D) -> (f32, f32, f32) {
    (f(q.x), f(q.y), f(q.z))
}

fn unit_cube() -> Geometry {
    Geometry::cube(p(1.0, 1.0, 1.0), p(-1.0, -1.0, -1.0))
}

#[test]
fn new_geometry_is_empty() {
    let mut g = Geometry::new();
    assert_eq!(g.vertex_count(), 0);
    assert!(g.tris().is_empty());
    g.make_tris();
    assert!(g.tris().is_empty());
    assert!(g.discover_faces().is_empty());
}

#[test]
fn add_point_appends_an_unlinked_vertex() {
    let mut g = Geometry::new();
    g.add_point(p(1.0, 2.0, 3.0));
    g.add_point(p(4.0, 5.0, 6.0));
    assert_eq!(g.vertex_count(), 2);
    assert_eq!(coords(g.get_link_pt(0)), (1.0, 2.0, 3.0));
    assert_eq!(coords(g.get_link_pt(1)), (4.0, 5.0, 6.0));
    assert!(g.links_of(0).is_empty());
    assert!(g.links_of(1).is_empty());
    g.make_tris();
    assert!(g.tris().is_empty());
}

#[test]
fn link_joins_both_ends() {
    let mut g = Geometry::new();
    g.add_point(p(0.0, 0.0, 0.0));
    g.add_point(p(1.0, 0.0, 0.0));
    g.add_point(p(0.0, 1.0, 0.0));
    g.link(0, 2);
    assert_eq!(g.links_of(0), &vec![2]);
    assert_eq!(g.links_of(2), &vec![0]);
    assert!(g.links_of(1).is_empty());
    assert!(g.is_linked(0, 2));
    assert!(g.is_linked(2, 0));
    assert!(!g.is_linked(0, 1));
    assert!(!g.is_linked(1, 0));
    assert!(!g.is_linked(0, 0));
    assert!(!g.is_linked(0, 17));
}

#[test]
fn link_to_itself_changes_nothing() {
    let mut g = Geometry::new();
    g.add_point(p(0.0, 0.0, 0.0));
    g.add_point(p(1.0, 0.0, 0.0));
    g.link(1, 1);
    assert!(g.links_of(0).is_empty());
    assert!(g.links_of(1).is_empty());
}

#[test]
fn link_twice_changes_nothing() {
    let mut g = Geometry::new();
    g.add_point(p(0.0, 0.0, 0.0));
    g.add_point(p(1.0, 0.0, 0.0));
    g.link(0, 1);
    g.link(0, 1);
    g.link(1, 0);
    assert_eq!(g.links_of(0), &vec![1]);
    assert_eq!(g.links_of(1), &vec![0]);
}

#[test]
fn three_linked_points_make_one_face() {
    let a = p(1.0, 1.0, 1.0);
    let b = p(1.0, 1.0, -1.0);
    let c = p(1.0, -1.0, 1.0);
    let mut g = Geometry::new();
    g.add_point(a);
    g.add_point(b);
    g.add_point(c);
    g.add_tri(0, 1, 2);
    assert_eq!(g.links_of(0), &vec![1, 2]);
    assert_eq!(g.links_of(1), &vec![0, 2]);
    assert_eq!(g.links_of(2), &vec![1, 0]);
    g.make_tris();
    assert!(g.tris().len() >= 1);
    assert_eq!(g.tris().len(), 1);
    let face = g.tris()[0];
    let input = Triangle3D { a, b, c };
    assert!(face.matches(&input));
    assert!(input.matches(&face));
    assert!(face.contains_all(&a, &b, &c));
    assert_eq!(coords(face.a), (1.0, 1.0, 1.0));
    assert_eq!(coords(face.b), (1.0, 1.0, -1.0));
    assert_eq!(coords(face.c), (1.0, -1.0, 1.0));
}

#[test]
fn an_open_path_gives_a_triangle_too() {
    let mut g = Geometry::new();
    g.add_point(p(0.0, 0.0, 0.0));
    g.add_point(p(1.0, 0.0, 0.0));
    g.add_point(p(2.0, 0.0, 0.0));
    g.link(0, 1);
    g.link(1, 2);
    assert!(!g.is_linked(0, 2));
    let faces = g.discover_faces();
    assert_eq!(faces.len(), 1);
    assert_eq!(coords(faces[0].a), (0.0, 0.0, 0.0));
    assert_eq!(coords(faces[0].b), (1.0, 0.0, 0.0));
    assert_eq!(coords(faces[0].c), (2.0, 0.0, 0.0));
}

#[test]
fn a_single_link_gives_no_face() {
    let mut g = Geometry::new();
    g.add_point(p(0.0, 0.0, 0.0));
    g.add_point(p(1.0, 0.0, 0.0));
    g.link(0, 1);
    g.make_tris();
    assert!(g.tris().is_empty());
}

#[test]
fn faces_come_in_the_order_of_vertices_and_links() {
    let mut g = Geometry::new();
    g.add_point(p(0.0, 0.0, 0.0));
    g.add_point(p(1.0, 0.0, 0.0));
    g.add_point(p(0.0, 1.0, 0.0));
    g.add_point(p(0.0, 0.0, 1.0));
    g.link(0, 1);
    g.link(1, 2);
    g.link(1, 3);
    let faces = g.discover_faces();
    assert_eq!(faces.len(), 3);
    assert_eq!(coords(faces[0].a), (0.0, 0.0, 0.0));
    assert_eq!(coords(faces[0].c), (0.0, 1.0, 0.0));
    assert_eq!(coords(faces[1].a), (0.0, 0.0, 0.0));
    assert_eq!(coords(faces[1].c), (0.0, 0.0, 1.0));
    assert_eq!(coords(faces[2].a), (0.0, 1.0, 0.0));
    assert_eq!(coords(faces[2].b), (1.0, 0.0, 0.0));
    assert_eq!(coords(faces[2].c), (0.0, 0.0, 1.0));
}

#[test]
fn equal_points_under_two_handles_give_one_face() {
    let mut g = Geometry::new();
    g.add_point(p(0.0, 0.0, 0.0));
    g.add_point(p(1.0, 0.0, 0.0));
    g.add_point(p(0.0, 1.0, 0.0));
    g.add_point(p(0.0, 0.0, 0.0));
    g.add_tri(0, 1, 2);
    g.add_tri(3, 1, 2);
    g.make_tris();
    assert_eq!(g.tris().len(), 1);
}

#[test]
fn cube_has_eight_corners_of_degree_six() {
    let g = unit_cube();
    assert_eq!(g.vertex_count(), 8);
    let mut handles = 0;
    for v in 0..8 {
        let row = g.links_of(v);
        assert_eq!(row.len(), 6);
        handles += row.len();
        for w in 0..8 {
            assert_eq!(g.is_linked(v, w), w != v && w != 7 - v);
            assert_eq!(row.contains(&w), w != v && w != 7 - v);
        }
        for k in 1..row.len() {
            assert!(row[k - 1] < row[k]);
        }
    }
    assert_eq!(handles, 48);
    assert!(g.tris().is_empty());
}

#[test]
fn cube_corners_follow_the_bits_of_the_handle() {
    let g = Geometry::cube(p(3.0, 5.0, 7.0), p(2.0, 4.0, 6.0));
    assert_eq!(coords(g.get_link_pt(0)), (3.0, 5.0, 7.0));
    assert_eq!(coords(g.get_link_pt(1)), (3.0, 5.0, 6.0));
    assert_eq!(coords(g.get_link_pt(2)), (3.0, 4.0, 7.0));
    assert_eq!(coords(g.get_link_pt(3)), (3.0, 4.0, 6.0));
    assert_eq!(coords(g.get_link_pt(4)), (2.0, 5.0, 7.0));
    assert_eq!(coords(g.get_link_pt(5)), (2.0, 5.0, 6.0));
    assert_eq!(coords(g.get_link_pt(6)), (2.0, 4.0, 7.0));
    assert_eq!(coords(g.get_link_pt(7)), (2.0, 4.0, 6.0));
}

#[test]
fn cube_opposite_corners_differ_on_every_axis() {
    let g = unit_cube();
    for v in 0..8 {
        let a = coords(g.get_link_pt(v));
        let b = coords(g.get_link_pt(7 - v));
        assert_eq!(a.0, -b.0);
        assert_eq!(a.1, -b.1);
        assert_eq!(a.2, -b.2);
    }
}

#[test]
fn cube_faces_are_stable() {
    let mut g = unit_cube();
    g.make_tris();
    let first: Vec<Triangle3D> = g.tris().clone();
    assert!(!first.is_empty());
    assert_eq!(first.len(), 56);
    g.make_tris();
    let second: Vec<Triangle3D> = g.tris().clone();
    assert_eq!(second.len(), first.len());
    for x in second.iter() {
        assert!(x.is_in(&first));
    }
    for (x, y) in first.iter().zip(second.iter()) {
        assert!(x == y);
    }
}

#[test]
fn no_face_matches_an_earlier_one() {
    let mut g = unit_cube();
    g.make_tris();
    let faces = g.tris();
    for b in 0..faces.len() {
        for a in 0..b {
            assert!(!faces[b].matches(&faces[a]));
        }
    }
}

#[test]
fn every_walk_matches_some_face() {
    let mut g = unit_cube();
    g.make_tris();
    for v in 0..8 {
        for &l in g.links_of(v).iter() {
            for &ll in g.links_of(l).iter() {
                if ll != v {
                    let x = Triangle3D {
                        a: g.get_link_pt(v),
                        b: g.get_link_pt(l),
                        c: g.get_link_pt(ll),
                    };
                    assert!(x.is_in(g.tris()));
                }
            }
        }
    }
}

#[test]
fn discover_faces_leaves_the_cache_alone() {
    let mut g = unit_cube();
    let faces = g.discover_faces();
    assert_eq!(faces.len(), 56);
    assert!(g.tris().is_empty());
    g.make_tris();
    assert_eq!(g.tris().len(), faces.len());
    for (x, y) in faces.iter().zip(g.tris().iter()) {
        assert!(x == y);
    }
}

#[test]
fn a_flat_cube_has_fewer_faces() {
    let mut g = Geometry::cube(p(1.0, 1.0, 0.0), p(-1.0, -1.0, 0.0));
    g.make_tris();
    assert_eq!(g.vertex_count(), 8);
    assert_eq!(g.tris().len(), 7);
    let flat = g.tris().iter().filter(|x| x.a == x.b).count();
    assert_eq!(flat, 3);
}

#[test]
fn a_nan_corner_is_found_again_each_time() {
    let mut g = Geometry::new();
    g.add_point(p(f32::NAN, 0.0, 0.0));
    g.add_point(p(1.0, 0.0, 0.0));
    g.add_point(p(0.0, 1.0, 0.0));
    g.add_tri(0, 1, 2);
    g.make_tris();
    assert_eq!(g.tris().len(), 6);
    g.make_tris();
    assert_eq!(g.tris().len(), 6);
    let x = g.tris()[0];
    assert!(!x.is_in(g.tris()));
}

#[test]
fn apply_transformation_moves_every_vertex() {
    let mut g = unit_cube();
    g.make_tris();
    let cached = g.tris().len();
    g.apply_transformation(|q: Point3D| p(f(q.x) + 10.0, f(q.y) * 2.0, -f(q.z)));
    assert_eq!(g.vertex_count(), 8);
    assert_eq!(coords(g.get_link_pt(0)), (11.0, 2.0, -1.0));
    assert_eq!(coords(g.get_link_pt(7)), (9.0, -2.0, 1.0));
    for v in 0..8 {
        assert_eq!(g.links_of(v).len(), 6);
    }
    assert_eq!(g.tris().len(), cached);
    assert_eq!(coords(g.tris()[0].a), (1.0, 1.0, 1.0));
    g.make_tris();
    assert_eq!(coords(g.tris()[0].a), (11.0, 2.0, -1.0));
}

#[test]
fn apply_transformation_on_nothing_is_nothing() {
    let mut g = Geometry::new();
    g.apply_transformation(|q: Point3D| q);
    assert_eq!(g.vertex_count(), 0);
}

type Triple = [(f32, f32, f32); 3];

fn same_point(a: (f32, f32, f32), b: (f32, f32, f32)) -> bool {
    a.0 == b.0 && a.1 == b.1 && a.2 == b.2
}

fn loose(x: &Triple, y: &Triple) -> bool {
    x.iter().all(|c| y.iter().any(|d| same_point(*c, *d)))
}

fn strict(x: &Triple, y: &Triple) -> bool {
    let orders = [
        [0, 1, 2],
        [0, 2, 1],
        [1, 0, 2],
        [1, 2, 0],
        [2, 0, 1],
        [2, 1, 0],
    ];
    orders
        .iter()
        .any(|o| (0..3).all(|k| same_point(x[k], y[o[k]])))
}

fn expected_faces(
    points: &[(f32, f32, f32)],
    links: &[Vec<usize>],
    matching: Matching,
    closed_only: bool,
) -> Vec<Triple> {
    let mut faces: Vec<Triple> = Vec::new();
    for v in 0..points.len() {
        for &l in links[v].iter() {
            for &ll in links[l].iter() {
                if ll == v || (closed_only && !links[v].contains(&ll)) {
                    continue;
                }
                let t = [points[v], points[l], points[ll]];
                let found = faces.iter().any(|f| match matching {
                    Matching::Loose => loose(&t, f),
                    Matching::Strict => strict(&t, f),
                });
                if !found {
                    faces.push(t);
                }
            }
        }
    }
    faces
}

fn shape(g: &Geometry) -> (Vec<(f32, f32, f32)>, Vec<Vec<usize>>) {
    let n = g.vertex_count();
    (
        (0..n).map(|v| coords(g.get_link_pt(v))).collect(),
        (0..n).map(|v| g.links_of(v).clone()).collect(),
    )
}

fn agrees(g: &Geometry) {
    let (points, links) = shape(g);
    for matching in [Matching::Loose, Matching::Strict] {
        for closed_only in [false, true] {
            let how = Discovery {
                matching,
                closed_only,
            };
            let got: Vec<Triple> = g
                .discover_faces_with(how)
                .iter()
                .map(|t| [coords(t.a), coords(t.b), coords(t.c)])
                .collect();
            let want = expected_faces(&points, &links, matching, closed_only);
            assert_eq!(got.len(), want.len());
            for (x, y) in got.iter().zip(want.iter()) {
                for k in 0..3 {
                    assert_eq!(x[k].0.to_bits(), y[k].0.to_bits());
                    assert_eq!(x[k].1.to_bits(), y[k].1.to_bits());
                    assert_eq!(x[k].2.to_bits(), y[k].2.to_bits());
                }
            }
        }
    }
}

fn scattered(seed: u32, vertices: usize, tries: usize) -> Geometry {
    let mut state = seed;
    let mut next = move || {
        state = state.wrapping_mul(1664525).wrapping_add(1013904223);
        (state >> 16) as usize
    };
    let values = [0.0f32, -0.0, 1.0, 2.0];
    let mut g = Geometry::new();
    for _ in 0..vertices {
        let x = values[next() % 4];
        let y = values[next() % 2];
        let z = values[next() % 2];
        g.add_point(p(x, y, z));
    }
    for _ in 0..tries {
        let a = next() % vertices;
        let b = next() % vertices;
        g.link(a, b);
    }
    g
}

#[test]
fn discovery_defaults_to_the_plain_way() {
    let how = Discovery::default();
    assert_eq!(how.matching, Matching::Loose);
    assert!(!how.closed_only);
    let g = unit_cube();
    let plain = g.discover_faces();
    let by_default = g.discover_faces_with(how);
    assert_eq!(plain.len(), by_default.len());
    for (x, y) in plain.iter().zip(by_default.iter()) {
        assert!(x == y);
    }
}

#[test]
fn closed_only_asks_for_the_third_link() {
    let mut g = Geometry::new();
    g.add_point(p(0.0, 0.0, 0.0));
    g.add_point(p(1.0, 0.0, 0.0));
    g.add_point(p(2.0, 0.0, 0.0));
    g.link(0, 1);
    g.link(1, 2);
    let closed = Discovery {
        matching: Matching::Loose,
        closed_only: true,
    };
    assert_eq!(g.discover_faces().len(), 1);
    assert!(g.discover_faces_with(closed).is_empty());
    g.link(2, 0);
    assert_eq!(g.discover_faces_with(closed).len(), 1);
    g.make_tris_with(closed);
    assert_eq!(g.tris().len(), 1);
}

#[test]
fn cube_has_32_closed_faces() {
    let mut g = unit_cube();
    for matching in [Matching::Loose, Matching::Strict] {
        g.make_tris_with(Discovery {
            matching,
            closed_only: true,
        });
        assert_eq!(g.tris().len(), 32);
        g.make_tris_with(Discovery {
            matching,
            closed_only: false,
        });
        assert_eq!(g.tris().len(), 56);
    }
}

#[test]
fn strict_matching_keeps_more_of_a_flat_cube() {
    let g = Geometry::cube(p(1.0, 1.0, 0.0), p(-1.0, -1.0, 0.0));
    let loose = g.discover_faces_with(Discovery {
        matching: Matching::Loose,
        closed_only: false,
    });
    let strict = g.discover_faces_with(Discovery {
        matching: Matching::Strict,
        closed_only: false,
    });
    assert_eq!(loose.len(), 7);
    assert_eq!(strict.len(), 16);
}

#[test]
fn faces_agree_with_a_plain_count() {
    agrees(&Geometry::new());
    agrees(&unit_cube());
    agrees(&Geometry::cube(p(1.0, 1.0, 0.0), p(-1.0, -1.0, 0.0)));
    agrees(&Geometry::cube(p(0.0, 1.0, 1.0), p(-0.0, 1.0, -1.0)));
    agrees(&Geometry::cube(p(f32::NAN, 1.0, 1.0), p(-1.0, -1.0, -1.0)));
    for seed in 0..40 {
        agrees(&scattered(seed, 6, 9));
        agrees(&scattered(seed + 100, 9, 30));
    }
}

#[test]
fn faces_are_stable_however_they_are_looked_for() {
    for seed in 0..10 {
        let mut g = scattered(seed, 7, 14);
        for matching in [Matching::Loose, Matching::Strict] {
            for closed_only in [false, true] {
                let how = Discovery {
                    matching,
                    closed_only,
                };
                g.make_tris_with(how);
                let first: Vec<Triangle3D> = g.tris().clone();
                g.make_tris_with(how);
                assert_eq!(g.tris().len(), first.len());
                for x in g.tris().iter() {
                    assert!(x.is_in_by(&first, matching));
                }
            }
        }
    }
}
