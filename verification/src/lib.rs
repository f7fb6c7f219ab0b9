//! Freehand ink strokes, their triangle meshes and the store that keeps them.
//!
//! A stroke is a sequence of sampled points. Each point is drawn as a round
//! cap, a fan of wedges around its centre, and each pair of consecutive
//! points is bridged by a tapered quad. This crate decides *which* vertices a
//! stroke's mesh consists of and in which order they are emitted, and it keeps
//! the book of finished and unfinished strokes. Every vertex is described
//! symbolically (see [`line::Vertex`]); turning a description into coordinates
//! is left to the caller, who owns the geometry.
pub mod canvas;
pub mod line;
pub mod point;
