use wireframe::geometry::Geometry;
use wireframe::render::Camera;
use wireframe::render::RenderMode;
use wireframe::render::World;
use wireframe::scalar::Scalar;
use wireframe::threed::Point3D;

fn s(x: f32) -> Scalar {
    Scalar::from_bits(x.to_bits())
}

fn f(x: Scalar) -> f32 {
    f32::from_bits(x.to_bits())
}

fn p(x: f32, y: f32, z: f32) -> Point3D {
    Point3D::from_coords(s(x), s(y), s(z))
}

fn coords(q: Point3D) -> (f32, f32, f32) {
    (f(q.x), f(q.y), f(q.z))
}

fn triangle_at(x: f32) -> Geometry {
    let mut g = Geometry::new();
    g.add_point(p(x, 0.0, 0.0));
    g.add_point(p(x, 1.0, 0.0));
    g.add_point(p(x, 0.0, 1.0));
    g.add_tri(0, 1, 2);
    g
}

#[test]
fn default_camera_looks_along_x() {
    let c = Camera::new();
    assert_eq!(coords(c.position), (0.0, 0.0, 0.0));
    assert_eq!(coords(c.point_at), (0.5, 0.0, 0.0));
    assert_eq!(f(c.hfov), 90.0);
    assert_eq!(c.mode, RenderMode::FlatNoDepth);
}

#[test]
fn new_world_is_empty() {
    let mut w = World::new();
    assert_eq!(w.geometry_count(), 0);
    assert_eq!(f(w.camera().hfov), 90.0);
    assert!(w.render_frame().is_empty());
    assert_eq!(w.geometry_count(), 0);
}

#[test]
fn add_keeps_the_order() {
    let mut w = World::new();
    w.add(triangle_at(1.0));
    w.add(triangle_at(2.0));
    w.add(Geometry::new());
    assert_eq!(w.geometry_count(), 3);
    assert_eq!(coords(w.geometry(0).get_link_pt(0)), (1.0, 0.0, 0.0));
    assert_eq!(coords(w.geometry(1).get_link_pt(0)), (2.0, 0.0, 0.0));
    assert_eq!(w.geometry(2).vertex_count(), 0);
}

#[test]
fn render_frame_hands_out_faces_in_order() {
    let mut w = World::new();
    w.add(triangle_at(1.0));
    w.add(Geometry::new());
    w.add(Geometry::cube(p(1.0, 1.0, 1.0), p(-1.0, -1.0, -1.0)));
    w.add(triangle_at(2.0));
    let frame = w.render_frame();
    assert_eq!(frame.len(), 1 + 0 + 56 + 1);
    assert_eq!(coords(frame[0].a), (1.0, 0.0, 0.0));
    assert_eq!(coords(frame[1].a), (1.0, 1.0, 1.0));
    assert_eq!(coords(frame[57].a), (2.0, 0.0, 0.0));
    assert_eq!(w.geometry(0).tris().len(), 1);
    assert_eq!(w.geometry(1).tris().len(), 0);
    assert_eq!(w.geometry(2).tris().len(), 56);
    assert_eq!(w.geometry(3).tris().len(), 1);
}

#[test]
fn render_frame_gives_the_same_frame_again() {
    let mut w = World::new();
    w.add(Geometry::cube(p(1.0, 1.0, 1.0), p(-1.0, -1.0, -1.0)));
    let first = w.render_frame();
    let second = w.render_frame();
    assert_eq!(first.len(), second.len());
    for (x, y) in first.iter().zip(second.iter()) {
        assert!(x == y);
    }
}

#[test]
fn draw_geometry_rebuilds_and_hands_out_the_cache() {
    let mut c = Camera::new();
    let mut g = triangle_at(3.0);
    assert!(g.tris().is_empty());
    let tris = c.draw_geometry(&mut g);
    assert_eq!(tris.len(), 1);
    assert_eq!(g.tris().len(), 1);
    assert!(tris[0] == g.tris()[0]);
    assert_eq!(coords(tris[0].a), (3.0, 0.0, 0.0));
    assert_eq!(coords(tris[0].b), (3.0, 1.0, 0.0));
    assert_eq!(coords(tris[0].c), (3.0, 0.0, 1.0));
    assert_eq!(f(c.hfov), 90.0);
}

#[test]
fn set_camera_replaces_the_camera() {
    let mut w = World::new();
    w.add(triangle_at(1.0));
    let c = Camera {
        position: p(0.0, 0.0, 0.0),
        point_at: p(1.0, 0.0, 0.0),
        hfov: s(60.0),
        mode: RenderMode::Simple,
    };
    w.set_camera(c);
    assert_eq!(coords(w.camera().point_at), (1.0, 0.0, 0.0));
    assert_eq!(f(w.camera().hfov), 60.0);
    assert_eq!(w.camera().mode, RenderMode::Simple);
    assert_eq!(w.geometry_count(), 1);
}
