//! Geodesic icosahedron and hexsphere meshes.
//!
//! The construction engine is generic over the vector type that holds the
//! coordinates: it decides which points are made, how they are welded into
//! shared vertices and how the triangles and polygonal faces are wired.
//! The arithmetic on coordinates is supplied by an implementation of
//! [`vector::MeshVector`].
//!
//! - [`mesh`]: the mesh and its welded position store.
//! - [`subdivide`]: lattice subdivision and the geodesic sphere.
//! - [`topology`]: cells around each vertex, adjacency and centroids.
//! - [`dual`]: the dual (hexsphere) construction.
//! - [`normals`]: per-vertex and per-face normals.
//! - [`output`]: file formats.

pub mod output;
pub mod vector;
pub mod mesh;
pub mod subdivide;
pub mod topology;
pub mod dual;
pub mod normals;
