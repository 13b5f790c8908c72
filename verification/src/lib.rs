//! The geometry core of a 2D vector-graphics rasterizer.
//!
//! A path is made of cubic Bézier curves. This crate evaluates, splits and
//! bounds such curves ([`bezier`]), finds the places where two of them meet
//! by Bézier clipping ([`intersection`]), keeps the curves of a path in a
//! bounding-volume hierarchy ([`curve_bvh`]), and rewrites a path until no
//! two of its curves cross ([`flatten`]), by way of a list of replacements
//! that is applied in one pass ([`change_list`]).
//!
//! The geometry is written over a number type of the caller's choice
//! ([`scalar`]); [`fixed`] is the one that comes with the crate. Every
//! function says in its contract which result it returns, in terms of the
//! operations of that number type. How close that result is to the exact
//! curve depends on the number type; for the fixed-point scalar
//! [`fixed_geometry`] says it, over the exact algebra of [`blend`].
//!
//! Around the geometry stand the integer side of pixel storage ([`image`])
//! and the paints of a canvas ([`paint`]).
pub mod arrayvec;
pub mod bezier;
pub mod blend;
pub mod change_list;
pub mod curve_bvh;
pub mod fixed;
pub mod fixed_geometry;
pub mod flatten;
pub mod float4;
pub mod image;
pub mod intersection;
pub mod line;
pub mod matrix;
pub mod paint;
pub mod path;
pub mod point;
pub mod rect;
pub mod scalar;
pub mod vec3;

