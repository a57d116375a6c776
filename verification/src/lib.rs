//! An ordered registry of map layers and the pipeline that fills it.
//!
//! * [`geometry`]: planar geometries over any coordinate scalar, and their
//!   reprojection through a transform that the caller brings.
//! * [`geom_type`]: the bit mask of the geometry kinds that a collection holds.
//! * [`layer`]: a layer, its identifier and its colours.
//! * [`layers`]: the registry itself, which keeps the layers in drawing order
//!   and finds them by identifier.
//! * [`hit_test`]: which geometry a point picks.
//! * [`transform`]: the reprojection service as a lookup that hands out
//!   transforms.
//! * [`loader`]: from a parsed document to pending layers and into the
//!   registry.
//! * [`network`]: the state of a download that arrives chunk by chunk.
//! * [`events`]: what the owner of the registry does with one request and
//!   what it announces.
//! * [`manage_layer`]: what a window that manages one layer has to show.
//!
//! Coordinates are never computed with here. Arithmetic on them, reading
//! files, parsing and the network belong to the program around the library.

pub mod events;
pub mod geom_type;
pub mod geometry;
pub mod hit_test;
pub mod layer;
pub mod layers;
pub mod loader;
pub mod manage_layer;
pub mod network;
pub mod transform;
