//! Delaunay triangulation of points of the plane, and the Voronoi diagram
//! that is dual to it, clipped to a rectangle.
//!
//! A [`delaunay::Delaunay`] holds the triangles, half-edges and hull of a set
//! of points, with an index from each point to a half-edge that arrives at
//! it. It finds the point nearest to a given one by a walk from neighbour to
//! neighbour, and draws its mesh, hull, points and triangles. A
//! [`voronoi::Voronoi`] holds the centres of the circles through the
//! triangles and the directions of the rays that leave the hull, and gives
//! each point's cell as a polygon within the rectangle.
//!
//! The triangles come from `delaunator`. It is asked only where every point,
//! as it is handed over, is tame: zero, or of a size from 2^-400 up to 2^401
//! (see [`triangulation::tame`]). Points of which one is not are left
//! without triangles and without a hull.
//!
//! Numbers are held as codes (see [`scalar`]): the library compares them and
//! leaves the arithmetic to a kernel that its caller supplies. Drawing goes to
//! a [`context::CanvasRenderingContext2d`]: a [`path::Path`] writes the text
//! of a path, a [`polygon::Polygon`] keeps the points.
pub mod clip;
pub mod colinear;
pub mod context;
pub mod delaunay;
pub mod delaunay_render;
pub mod jitter;
pub mod path;
pub mod polygon;
pub mod scalar;
pub mod search;
pub mod triangulation;
pub mod voronoi;
pub mod voronoi_render;
pub mod walk;
