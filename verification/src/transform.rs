//! The reprojection service as the registry sees it.
//!
//! The service is a `lookup`: given the identifiers of a source and a target
//! reference system it hands out a transform, a callable from coordinate to
//! coordinate, or reports that it does not know an identifier. What the
//! transform computes is its own affair; the contracts here speak of its
//! results through `call_ensures` and claim nothing else of them.

use crate::geometry::{geometry_maps, is_total, reproject, Coord, Geometry};
use crate::layer::{Metadata, PendingLayer};
use vstd::prelude::*;
use vstd::string::StringExecFns;

verus! {

/// A reference-system identifier that the service does not know.
#[derive(Debug, Clone, PartialEq, Eq)]
pub struct TransformError {
    pub identifier: String,
}

/// `lookup` can be asked about any pair of identifiers, and every transform
/// it hands out accepts every coordinate.
pub open spec fn is_service<T, L, F>(lookup: L) -> bool where
    L: Fn(&str, &str) -> Result<F, TransformError>,
    F: Fn(&Coord<T>) -> Coord<T>,
 {
    &&& forall|source: &str, target: &str| call_requires(lookup, (source, target))
    &&& forall|source: &str, target: &str, f: F| #[trigger]
        call_ensures(lookup, (source, target), Ok(f)) ==> is_total(f)
}

/// `lookup` never hands out a transform from `source` to `target`.
pub open spec fn is_unrecognized<T, L, F>(lookup: L, source: &str, target: &str) -> bool where
    L: Fn(&str, &str) -> Result<F, TransformError>,
    F: Fn(&Coord<T>) -> Coord<T>,
 {
    forall|f: F| !call_ensures(lookup, (source, target), Ok(f))
}

/// `lookup` never refuses the pair `source`, `target`.
pub open spec fn is_recognized<T, L, F>(lookup: L, source: &str, target: &str) -> bool where
    L: Fn(&str, &str) -> Result<F, TransformError>,
    F: Fn(&Coord<T>) -> Coord<T>,
 {
    forall|e: TransformError| !call_ensures(lookup, (source, target), Err(e))
}

/// `outcome` is a possible result of preparing `geometry` for the registry:
/// either an error that `lookup` gives for the two identifiers, or a pending
/// layer that carries `name` and `metadata`, is labelled with `source`, and
/// holds `geometry` reprojected through a transform that `lookup` gives.
pub open spec fn prepares<T, L, F>(
    lookup: L,
    geometry: Geometry<T>,
    name: String,
    metadata: Option<Metadata>,
    source: &str,
    target: &str,
    outcome: Result<PendingLayer<T>, TransformError>,
) -> bool where L: Fn(&str, &str) -> Result<F, TransformError>, F: Fn(&Coord<T>) -> Coord<T> {
    match outcome {
        Ok(pending) => {
            &&& pending.name == name
            &&& pending.metadata == metadata
            &&& pending.crs@ == source@
            &&& exists|f: F| #[trigger]
                call_ensures(lookup, (source, target), Ok(f)) && geometry_maps(
                    f,
                    geometry,
                    pending.geometry,
                )
        },
        Err(e) => call_ensures(lookup, (source, target), Err(e)),
    }
}

/// Asks `lookup` for the transform from `source` to `target` and, if there
/// is one, reprojects every coordinate of `geometry` through it. No
/// coordinate is touched when the lookup fails.
pub fn prepare<T, L, F>(
    geometry: &Geometry<T>,
    name: String,
    metadata: Option<Metadata>,
    source: &str,
    target: &str,
    lookup: &L,
) -> (outcome: Result<PendingLayer<T>, TransformError>) where
    L: Fn(&str, &str) -> Result<F, TransformError>,
    F: Fn(&Coord<T>) -> Coord<T>,

    requires
        is_service::<T, L, F>(*lookup),
    ensures
        prepares(*lookup, *geometry, name, metadata, source, target, outcome),
        is_unrecognized::<T, L, F>(*lookup, source, target) ==> outcome is Err,
        is_recognized::<T, L, F>(*lookup, source, target) ==> outcome is Ok,
{
    match lookup(source, target) {
        Ok(transform) => {
            let projected = reproject(geometry, &transform);
            Ok(PendingLayer { name, geometry: projected, metadata, crs: String::from_str(source) })
        },
        Err(e) => Err(e),
    }
}

} // verus!
