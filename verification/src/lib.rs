//! Two-dimensional vector drawing primitives and their emission as text.
//!
//! A drawing is an ordered collection of lines, rectangles, ellipses and
//! paths, each with an optional stroke and fill. The crate computes bounding
//! boxes, shifts and scales drawings, and emits them either as an SVG
//! document or as a script for a compositing host.
//!
//! All coordinates are decimal fixed-point numbers ([`scalar::Scalar`]), so
//! every geometric operation is exact integer arithmetic with a stated
//! rounding rule.
pub mod builder;
pub mod error;
pub mod item;
pub mod path;
pub mod prelude;
pub mod rect;
pub mod scalar;
pub mod text;
