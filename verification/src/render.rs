//! The scene: geometries and the camera that looks at them.
//!
//! A frame is prepared here and drawn elsewhere. Preparing it means finding
//! the faces of each geometry afresh and handing them out in the order in
//! which they are to be projected and drawn.

use crate::geometry::Discovery;
use crate::geometry::Geometry;
use crate::geometry::GeometryView;
use crate::scalar::Scalar;
use crate::scalar::HALF_BITS;
use crate::scalar::NINETY_BITS;
use crate::scalar::ZERO_BITS;
use crate::threed::Point3D;
use crate::threed::Triangle3D;
use vstd::prelude::*;

verus! {

/// How a camera turns faces into a picture.
#[derive(Clone, Copy, Debug, PartialEq, Eq)]
pub enum RenderMode {
    FlatNoDepth,
    Simple,
    RayTrace,
    Off,
}

/// A point of view: where it stands, the point it looks at, and the
/// horizontal field of view in degrees.
#[derive(Clone, Copy, Debug)]
pub struct Camera {
    pub position: Point3D,
    pub point_at: Point3D,
    pub hfov: Scalar,
    pub mode: RenderMode,
}

/// Geometries in the order in which they were added, and one camera.
pub struct World {
    geometries: Vec<Geometry>,
    camera: Camera,
}

/// What a `World` stands for.
pub ghost struct WorldView {
    pub geometries: Seq<GeometryView>,
    pub camera: Camera,
}

/// The faces of all geometries, geometry after geometry.
pub open spec fn frame_of(geometries: Seq<GeometryView>) -> Seq<Triangle3D>
    decreases geometries.len(),
{
    if geometries.len() == 0 {
        Seq::empty()
    } else {
        frame_of(geometries.drop_last()) + geometries.last().graph.faces()
    }
}

/// The camera that a new world starts with: at the origin, looking along
/// the `x` axis at the point `(0.5, 0, 0)`, with a field of view of 90
/// degrees.
pub open spec fn default_camera() -> Camera {
    Camera {
        position: Point3D {
            x: Scalar { bits: ZERO_BITS },
            y: Scalar { bits: ZERO_BITS },
            z: Scalar { bits: ZERO_BITS },
        },
        point_at: Point3D {
            x: Scalar { bits: HALF_BITS },
            y: Scalar { bits: ZERO_BITS },
            z: Scalar { bits: ZERO_BITS },
        },
        hfov: Scalar { bits: NINETY_BITS },
        mode: RenderMode::FlatNoDepth,
    }
}

impl Camera {
    /// The default camera.
    pub fn new() -> (camera: Camera)
        ensures
            camera == default_camera(),
    {
        Camera {
            position: Point3D {
                x: Scalar::from_bits(ZERO_BITS),
                y: Scalar::from_bits(ZERO_BITS),
                z: Scalar::from_bits(ZERO_BITS),
            },
            point_at: Point3D {
                x: Scalar::from_bits(HALF_BITS),
                y: Scalar::from_bits(ZERO_BITS),
                z: Scalar::from_bits(ZERO_BITS),
            },
            hfov: Scalar::from_bits(NINETY_BITS),
            mode: RenderMode::FlatNoDepth,
        }
    }

    /// Prepares one geometry for drawing: finds its faces afresh and hands
    /// them out in the order of the cache.
    pub fn draw_geometry(&mut self, geometry: &mut Geometry) -> (tris: Vec<Triangle3D>)
        requires
            old(geometry).wf(),
        ensures
            *final(self) == *old(self),
            final(geometry).wf(),
            old(geometry)@.rebuilds_to(final(geometry)@, Discovery::plain()),
            tris@ == final(geometry)@.cache,
    {
        geometry.make_tris();
        let cache = geometry.tris();
        let mut tris: Vec<Triangle3D> = Vec::new();
        let mut k: usize = 0;
        while k < cache.len()
            invariant
                k <= cache.len(),
                tris@ == cache@.subrange(0, k as int),
            decreases cache.len() - k,
        {
            tris.push(cache[k]);
            assert(cache@.subrange(0, k as int).push(cache@[k as int]) =~= cache@.subrange(
                0,
                k + 1,
            ));
            k += 1;
        }
        assert(cache@.subrange(0, k as int) =~= cache@);
        tris
    }
}

impl View for World {
    type V = WorldView;

    closed spec fn view(&self) -> WorldView {
        WorldView {
            geometries: Seq::new(self.geometries@.len(), |k: int| self.geometries@[k]@),
            camera: self.camera,
        }
    }
}

impl WorldView {
    /// Every geometry is well formed.
    pub open spec fn wf(self) -> bool {
        forall|k: int| 0 <= k < self.geometries.len() ==> (#[trigger] self.geometries[k]).graph.wf()
    }

    /// `after` is this world once a frame has been prepared: the same
    /// camera, and the same geometries, each with its faces found afresh.
    pub open spec fn renders_to(self, after: WorldView) -> bool {
        &&& after.camera == self.camera
        &&& after.geometries.len() == self.geometries.len()
        &&& forall|k: int|
            0 <= k < self.geometries.len() ==> (#[trigger] self.geometries[k]).rebuilds_to(
                after.geometries[k],
                Discovery::plain(),
            )
    }
}

impl World {
    /// Every geometry is well formed.
    pub open spec fn wf(&self) -> bool {
        self@.wf()
    }

    /// A world without geometries, seen by the default camera.
    pub fn new() -> (world: World)
        ensures
            world.wf(),
            world@.geometries.len() == 0,
            world@.camera == default_camera(),
    {
        World { geometries: Vec::new(), camera: Camera::new() }
    }

    /// The number of geometries.
    pub fn geometry_count(&self) -> (n: usize)
        ensures
            n == self@.geometries.len(),
    {
        self.geometries.len()
    }

    /// The geometry that was added as number `k`, counted from 0.
    pub fn geometry(&self, k: usize) -> (g: &Geometry)
        requires
            k < self@.geometries.len(),
        ensures
            g@ == self@.geometries[k as int],
    {
        &self.geometries[k]
    }

    /// The camera.
    pub fn camera(&self) -> (camera: &Camera)
        ensures
            *camera == self@.camera,
    {
        &self.camera
    }

    /// Puts another camera in the place of the present one.
    pub fn set_camera(&mut self, camera: Camera)
        ensures
            final(self)@.camera == camera,
            final(self)@.geometries == old(self)@.geometries,
    {
        self.camera = camera;
    }

    /// Takes a geometry in, behind those that are there.
    pub fn add(&mut self, g: Geometry)
        requires
            old(self).wf(),
            g.wf(),
        ensures
            final(self).wf(),
            final(self)@.camera == old(self)@.camera,
            final(self)@.geometries == old(self)@.geometries.push(g@),
    {
        self.geometries.push(g);
        assert(self@.geometries =~= old(self)@.geometries.push(g@));
    }

    /// Prepares a frame: finds the faces of every geometry afresh, in the
    /// order in which the geometries were added, and hands out all faces in
    /// that order.
    pub fn render_frame(&mut self) -> (tris: Vec<Triangle3D>)
        requires
            old(self).wf(),
        ensures
            final(self).wf(),
            old(self)@.renders_to(final(self)@),
            tris@ == frame_of(old(self)@.geometries),
    {
        let mut tris: Vec<Triangle3D> = Vec::new();
        let n: usize = self.geometries.len();
        let mut k: usize = 0;
        assert(old(self)@.geometries.subrange(0, 0) =~= Seq::empty());
        while k < n
            invariant
                k <= n,
                n == old(self)@.geometries.len(),
                self@.geometries.len() == n,
                self@.camera == old(self)@.camera,
                self.wf(),
                forall|m: int|
                    0 <= m < k ==> (#[trigger] old(self)@.geometries[m]).rebuilds_to(
                        self@.geometries[m],
                        Discovery::plain(),
                    ),
                forall|m: int|
                    k <= m < n ==> #[trigger] self@.geometries[m] == old(self)@.geometries[m],
                tris@ == frame_of(old(self)@.geometries.subrange(0, k as int)),
            decreases n - k,
        {
            let ghost before = self@;
            assert(before.geometries[k as int].graph.wf());
            assert(before.geometries[k as int] == old(self)@.geometries[k as int]);
            let mut faces = self.camera.draw_geometry(&mut self.geometries[k]);
            tris.append(&mut faces);
            proof {
                let all = old(self)@.geometries;
                assert forall|m: int| 0 <= m < n implies (
                #[trigger] self@.geometries[m]).graph.wf() by {
                    if m != k {
                        assert(self@.geometries[m] == before.geometries[m]);
                    }
                }
                assert forall|m: int| k + 1 <= m < n implies #[trigger] self@.geometries[m]
                    == all[m] by {
                    assert(self@.geometries[m] == before.geometries[m]);
                }
                assert forall|m: int| 0 <= m < k + 1 implies (#[trigger] all[m]).rebuilds_to(
                    self@.geometries[m],
                    Discovery::plain(),
                ) by {
                    if m != k {
                        assert(self@.geometries[m] == before.geometries[m]);
                    }
                }
                assert(all.subrange(0, k + 1).drop_last() =~= all.subrange(0, k as int));
                assert(all.subrange(0, k + 1).last() == all[k as int]);
            }
            k += 1;
        }
        assert(old(self)@.geometries.subrange(0, n as int) =~= old(self)@.geometries);
        tris
    }
}

} // verus!
