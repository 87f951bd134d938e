//! Exact geometry kernel and incremental navigation-mesh builder.
//!
//! Coordinates are integers on a fixed world grid, so every predicate
//! (containment, parallelism, coplanarity) is decided exactly. Results that
//! are not on the grid (an intersection point, a centre) are returned as
//! homogeneous rational points, and lengths as exact square roots.
pub mod geo;
pub mod navigation;
pub mod proto_navmesh;
