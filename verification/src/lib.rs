//! A wireframe pipeline: polyhedra as vertices and adjacency, the triangular
//! faces that the adjacency implies, and the scene that owns them.
//!
//! Coordinates are carried as IEEE 754 bit patterns (see `scalar`). The
//! library compares and moves them; whoever needs their sum or their sine
//! converts them, computes, and converts back.
//!
//! - `scalar`: a number as its bit pattern, with numeric equality and order.
//! - `threed`, `twod`: points and triangles, and how triangles match.
//! - `matrix`: vectors and matrices as containers.
//! - `graph`: the model of a polyhedron and of its faces, with its laws.
//! - `geometry`: the polyhedron itself, and the search for its faces.
//! - `render`: the camera and the world, and the faces of a frame.

pub mod geometry;
pub mod graph;
pub mod matrix;
pub mod render;
pub mod scalar;
pub mod threed;
pub mod twod;
