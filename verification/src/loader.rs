//! From a parsed document to layers.
//!
//! A document is a bare geometry, one feature, or a collection of features.
//! It is taken apart into pairs of a geometry and the properties that go
//! with it; every pair is reprojected; what could be reprojected enters the
//! registry, what could not is handed back.

use crate::geometry::{leaves, leaves_of, Coord, Geometry};
use crate::layer::{clone_metadata, LayerId, Metadata, PendingLayer};
use crate::layers::{admitted_batch, consecutive_ids, Layers};
use crate::transform::{
    is_recognized,
    is_service,
    is_unrecognized,
    prepare,
    prepares,
    TransformError,
};
use vstd::prelude::*;

verus! {

/// A geometry with the properties attached to it. Either may be missing.
#[derive(Debug, PartialEq)]
pub struct Feature<T> {
    pub geometry: Option<Geometry<T>>,
    pub properties: Option<Metadata>,
}

/// A parsed document, in one of its three shapes.
#[derive(Debug, PartialEq)]
pub enum GeoJson<T> {
    Geometry(Geometry<T>),
    Feature(Feature<T>),
    FeatureCollection(Vec<Feature<T>>),
}

/// One request to load a document: where its text comes from, and the
/// reference systems to reproject from and to.
#[derive(Debug, Clone, PartialEq, Eq)]
pub enum LoadRequest {
    FromPath { path: String, source_srs: String, target_srs: String },
    FromBytes { file_name: String, bytes: Vec<u8>, source_srs: String, target_srs: String },
}

impl LoadRequest {
    /// The name to show for what is loaded: the path, or the name that came
    /// with the bytes.
    pub fn name(&self) -> (name: &String)
        ensures
            *name == match *self {
                LoadRequest::FromPath { path, .. } => path,
                LoadRequest::FromBytes { file_name, .. } => file_name,
            },
    {
        match self {
            LoadRequest::FromPath { path, .. } => path,
            LoadRequest::FromBytes { file_name, .. } => file_name,
        }
    }

    /// The reference system the document is in.
    pub fn source_srs(&self) -> (srs: &String)
        ensures
            *srs == match *self {
                LoadRequest::FromPath { source_srs, .. } => source_srs,
                LoadRequest::FromBytes { source_srs, .. } => source_srs,
            },
    {
        match self {
            LoadRequest::FromPath { source_srs, .. } => source_srs,
            LoadRequest::FromBytes { source_srs, .. } => source_srs,
        }
    }

    /// The reference system the layers are to be in.
    pub fn target_srs(&self) -> (srs: &String)
        ensures
            *srs == match *self {
                LoadRequest::FromPath { target_srs, .. } => target_srs,
                LoadRequest::FromBytes { target_srs, .. } => target_srs,
            },
    {
        match self {
            LoadRequest::FromPath { target_srs, .. } => target_srs,
            LoadRequest::FromBytes { target_srs, .. } => target_srs,
        }
    }
}

/// Why a job produced no layers at all.
#[derive(Debug, Clone, PartialEq, Eq)]
pub enum JobError {
    /// The text is not a document.
    Parse { message: String },
    /// The text could not be read.
    Io { message: String },
}

/// What one reprojection gave: a layer ready for the registry, or the error
/// of the lookup.
pub type Prepared<T> = Result<PendingLayer<T>, TransformError>;

/// What loading a document did: the identifiers of the new layers, in the
/// order of the document, and the errors of the pairs that were dropped.
#[derive(Debug, Clone, PartialEq, Eq)]
pub struct LoadReport {
    pub layer_ids: Vec<LayerId>,
    pub dropped: Vec<TransformError>,
}

/// What a job that parsed a document has finished: the layers that are
/// ready for the registry, in document order, and the errors of the pairs it
/// had to drop.
#[derive(Debug, PartialEq)]
pub struct Completed<T> {
    pub layers: Vec<PendingLayer<T>>,
    pub dropped: Vec<TransformError>,
}

/// Each geometry of `geometries` paired with the same `properties`.
pub open spec fn with_properties<T>(
    geometries: Seq<Geometry<T>>,
    properties: Option<Metadata>,
) -> Seq<(Geometry<T>, Option<Metadata>)> {
    Seq::new(geometries.len(), |i: int| (geometries[i], properties))
}

/// The pairs of one feature: each leaf of its geometry with the properties
/// of the feature. A feature without a geometry has none.
pub open spec fn feature_pairs<T>(feature: Feature<T>) -> Seq<(Geometry<T>, Option<Metadata>)> {
    match feature.geometry {
        Some(g) => with_properties(leaves(g), feature.properties),
        None => Seq::empty(),
    }
}

/// The pairs of the features of `features`, in order.
pub open spec fn features_pairs<T>(
    features: Seq<Feature<T>>,
) -> Seq<(Geometry<T>, Option<Metadata>)>
    decreases features.len(),
{
    if features.len() == 0 {
        Seq::empty()
    } else {
        features_pairs(features.drop_last()) + feature_pairs(features.last())
    }
}

/// The pairs of a document. A bare geometry has no properties.
pub open spec fn document_pairs<T>(document: GeoJson<T>) -> Seq<(Geometry<T>, Option<Metadata>)> {
    match document {
        GeoJson::Geometry(g) => with_properties(leaves(g), None),
        GeoJson::Feature(f) => feature_pairs(f),
        GeoJson::FeatureCollection(fs) => features_pairs(fs@),
    }
}

/// `results` holds, pair by pair and in order, a possible result of
/// preparing that pair under `name`.
pub open spec fn prepares_all<T, L, F>(
    lookup: L,
    pairs: Seq<(Geometry<T>, Option<Metadata>)>,
    name: String,
    source: &str,
    target: &str,
    results: Seq<Prepared<T>>,
) -> bool where L: Fn(&str, &str) -> Result<F, TransformError>, F: Fn(&Coord<T>) -> Coord<T> {
    &&& results.len() == pairs.len()
    &&& forall|i: int|
        0 <= i < pairs.len() ==> prepares(
            lookup,
            pairs[i].0,
            name,
            pairs[i].1,
            source,
            target,
            #[trigger] results[i],
        )
}

/// The pending layers among `results`, in order.
pub open spec fn successes<T>(results: Seq<Prepared<T>>) -> Seq<PendingLayer<T>>
    decreases results.len(),
{
    if results.len() == 0 {
        Seq::empty()
    } else {
        match results.last() {
            Ok(pending) => successes(results.drop_last()).push(pending),
            Err(_) => successes(results.drop_last()),
        }
    }
}

/// The errors among `results`, in order.
pub open spec fn failures<T>(results: Seq<Prepared<T>>) -> Seq<TransformError>
    decreases results.len(),
{
    if results.len() == 0 {
        Seq::empty()
    } else {
        match results.last() {
            Ok(_) => failures(results.drop_last()),
            Err(e) => failures(results.drop_last()).push(e),
        }
    }
}

/// `after` and `report` are a possible outcome of loading `pairs` into
/// `before`: for some results of preparing the pairs, the pending layers
/// among them stand on top of the layers of `before`, in order and under
/// consecutive new identifiers, and the errors among them are reported.
pub open spec fn loads<T, L, F>(
    lookup: L,
    pairs: Seq<(Geometry<T>, Option<Metadata>)>,
    name: String,
    source: &str,
    target: &str,
    before: Layers<T>,
    after: Layers<T>,
    report: LoadReport,
) -> bool where L: Fn(&str, &str) -> Result<F, TransformError>, F: Fn(&Coord<T>) -> Coord<T> {
    exists|results: Seq<Prepared<T>>|
        {
            &&& #[trigger] prepares_all(lookup, pairs, name, source, target, results)
            &&& after@ == before@ + admitted_batch(successes(results), before.next_raw_id())
            &&& after.next_raw_id() == before.next_raw_id() + successes(results).len()
            &&& report.layer_ids@ == consecutive_ids(
                before.next_raw_id(),
                successes(results).len(),
            )
            &&& report.dropped@ == failures(results)
        }
}

/// Of `results`, each is a success or a failure and none is both: the
/// pending layers and the errors together are as many as the results.
pub proof fn lemma_successes_and_failures<T>(results: Seq<Prepared<T>>)
    ensures
        successes(results).len() + failures(results).len() == results.len(),
    decreases results.len(),
{
    if results.len() > 0 {
        lemma_successes_and_failures(results.drop_last());
    }
}

/// Where the lookup never refuses, nothing is dropped; where it always
/// refuses, nothing is ready.
pub proof fn lemma_all_or_nothing<T, L, F>(
    lookup: L,
    pairs: Seq<(Geometry<T>, Option<Metadata>)>,
    name: String,
    source: &str,
    target: &str,
    results: Seq<Prepared<T>>,
) where L: Fn(&str, &str) -> Result<F, TransformError>, F: Fn(&Coord<T>) -> Coord<T>
    requires
        prepares_all(lookup, pairs, name, source, target, results),
    ensures
        is_recognized::<T, L, F>(lookup, source, target) ==> failures(results).len() == 0
            && successes(results).len() == pairs.len(),
        is_unrecognized::<T, L, F>(lookup, source, target) ==> successes(results).len() == 0
            && failures(results).len() == pairs.len(),
    decreases results.len(),
{
    if results.len() > 0 {
        let i = results.len() - 1;
        assert(prepares(lookup, pairs[i].0, name, pairs[i].1, source, target, results[i]));
        assert(prepares_all(
            lookup,
            pairs.drop_last(),
            name,
            source,
            target,
            results.drop_last(),
        )) by {
            assert forall|k: int| 0 <= k < pairs.drop_last().len() implies prepares(
                lookup,
                pairs.drop_last()[k].0,
                name,
                pairs.drop_last()[k].1,
                source,
                target,
                #[trigger] results.drop_last()[k],
            ) by {
                assert(prepares(lookup, pairs[k].0, name, pairs[k].1, source, target, results[k]));
            }
        }
        lemma_all_or_nothing(lookup, pairs.drop_last(), name, source, target, results.drop_last());
    }
}

/// A copy of the properties of a feature.
fn clone_properties(properties: &Option<Metadata>) -> (copy: Option<Metadata>)
    ensures
        copy == *properties,
{
    match properties {
        Some(map) => Some(clone_metadata(map)),
        None => None,
    }
}

/// Prepares every leaf of `geometry`, in order, each with a copy of
/// `properties`. A failure on one leaf does not stop the others.
pub fn prepare_geometry<T, L, F>(
    geometry: &Geometry<T>,
    properties: &Option<Metadata>,
    name: &String,
    source: &str,
    target: &str,
    lookup: &L,
) -> (results: Vec<Prepared<T>>) where
    L: Fn(&str, &str) -> Result<F, TransformError>,
    F: Fn(&Coord<T>) -> Coord<T>,

    requires
        is_service::<T, L, F>(*lookup),
    ensures
        prepares_all(
            *lookup,
            with_properties(leaves(*geometry), *properties),
            *name,
            source,
            target,
            results@,
        ),
    decreases *geometry,
{
    match geometry {
        Geometry::GeometryCollection(members) => {
            let mut results: Vec<Prepared<T>> = Vec::new();
            let mut i: usize = 0;
            while i < members.len()
                invariant
                    is_service::<T, L, F>(*lookup),
                    i <= members.len(),
                    *geometry is GeometryCollection,
                    geometry->GeometryCollection_0 == *members,
                    prepares_all(
                        *lookup,
                        with_properties(leaves_of(members@.take(i as int)), *properties),
                        *name,
                        source,
                        target,
                        results@,
                    ),
                decreases members.len() - i,
            {
                proof {
                    vstd::std_specs::vec::axiom_vec_index_decreases(*members, i as int);
                    assert(decreases_to!(*geometry => geometry->GeometryCollection_0));
                }
                let ghost done = results@;
                let mut part = prepare_geometry(
                    &members[i],
                    properties,
                    name,
                    source,
                    target,
                    lookup,
                );
                let ghost added = part@;
                results.append(&mut part);
                proof {
                    assert(members@.take(i + 1).drop_last() =~= members@.take(i as int));
                    let head = with_properties(leaves_of(members@.take(i as int)), *properties);
                    let tail = with_properties(leaves(members@[i as int]), *properties);
                    assert(with_properties(leaves_of(members@.take(i + 1)), *properties) =~= head
                        + tail);
                    lemma_prepares_concat(*lookup, head, tail, *name, source, target, done, added);
                }
                i += 1;
            }
            proof {
                assert(members@.take(i as int) =~= members@);
            }
            results
        },
        _ => {
            let mut results: Vec<Prepared<T>> = Vec::new();
            let one = prepare(
                geometry,
                name.clone(),
                clone_properties(properties),
                source,
                target,
                lookup,
            );
            results.push(one);
            proof {
                assert(leaves(*geometry) =~= seq![*geometry]);
            }
            results
        },
    }
}

/// Results for the pairs `a` followed by results for the pairs `b` are
/// results for `a + b`.
pub proof fn lemma_prepares_concat<T, L, F>(
    lookup: L,
    a: Seq<(Geometry<T>, Option<Metadata>)>,
    b: Seq<(Geometry<T>, Option<Metadata>)>,
    name: String,
    source: &str,
    target: &str,
    ra: Seq<Prepared<T>>,
    rb: Seq<Prepared<T>>,
) where L: Fn(&str, &str) -> Result<F, TransformError>, F: Fn(&Coord<T>) -> Coord<T>
    requires
        prepares_all(lookup, a, name, source, target, ra),
        prepares_all(lookup, b, name, source, target, rb),
    ensures
        prepares_all(lookup, a + b, name, source, target, ra + rb),
{
    assert forall|i: int| 0 <= i < (a + b).len() implies prepares(
        lookup,
        (a + b)[i].0,
        name,
        (a + b)[i].1,
        source,
        target,
        #[trigger] (ra + rb)[i],
    ) by {
        if i < a.len() {
            assert(prepares(lookup, a[i].0, name, a[i].1, source, target, ra[i]));
        } else {
            let k = i - a.len();
            assert(prepares(lookup, b[k].0, name, b[k].1, source, target, rb[k]));
        }
    }
}

/// Prepares the pairs of one feature.
pub fn prepare_feature<T, L, F>(
    feature: &Feature<T>,
    name: &String,
    source: &str,
    target: &str,
    lookup: &L,
) -> (results: Vec<Prepared<T>>) where
    L: Fn(&str, &str) -> Result<F, TransformError>,
    F: Fn(&Coord<T>) -> Coord<T>,

    requires
        is_service::<T, L, F>(*lookup),
    ensures
        prepares_all(*lookup, feature_pairs(*feature), *name, source, target, results@),
{
    match &feature.geometry {
        Some(geometry) => prepare_geometry(
            geometry,
            &feature.properties,
            name,
            source,
            target,
            lookup,
        ),
        None => Vec::new(),
    }
}

/// Prepares the pairs of a whole document, in document order.
pub fn prepare_document<T, L, F>(
    document: &GeoJson<T>,
    name: &String,
    source: &str,
    target: &str,
    lookup: &L,
) -> (results: Vec<Prepared<T>>) where
    L: Fn(&str, &str) -> Result<F, TransformError>,
    F: Fn(&Coord<T>) -> Coord<T>,

    requires
        is_service::<T, L, F>(*lookup),
    ensures
        prepares_all(*lookup, document_pairs(*document), *name, source, target, results@),
{
    match document {
        GeoJson::Geometry(geometry) => {
            let properties: Option<Metadata> = None;
            prepare_geometry(geometry, &properties, name, source, target, lookup)
        },
        GeoJson::Feature(feature) => prepare_feature(feature, name, source, target, lookup),
        GeoJson::FeatureCollection(features) => {
            let mut results: Vec<Prepared<T>> = Vec::new();
            let mut i: usize = 0;
            while i < features.len()
                invariant
                    is_service::<T, L, F>(*lookup),
                    i <= features.len(),
                    prepares_all(
                        *lookup,
                        features_pairs(features@.take(i as int)),
                        *name,
                        source,
                        target,
                        results@,
                    ),
                decreases features.len() - i,
            {
                let ghost done = results@;
                let mut part = prepare_feature(&features[i], name, source, target, lookup);
                let ghost added = part@;
                results.append(&mut part);
                proof {
                    assert(features@.take(i + 1).drop_last() =~= features@.take(i as int));
                    lemma_prepares_concat(
                        *lookup,
                        features_pairs(features@.take(i as int)),
                        feature_pairs(features@[i as int]),
                        *name,
                        source,
                        target,
                        done,
                        added,
                    );
                }
                i += 1;
            }
            proof {
                assert(features@.take(i as int) =~= features@);
            }
            results
        },
    }
}

/// Parts `results` into the pending layers and the errors, each in order.
pub fn split<T>(
    results: Vec<Prepared<T>>,
) -> (parts: (Vec<PendingLayer<T>>, Vec<TransformError>))
    ensures
        parts.0@ == successes(results@),
        parts.1@ == failures(results@),
{
    let mut ready: Vec<PendingLayer<T>> = Vec::new();
    let mut dropped: Vec<TransformError> = Vec::new();
    for result in it: results
        invariant
            ready@ == successes(results@.take(it.index() as int)),
            dropped@ == failures(results@.take(it.index() as int)),
    {
        proof {
            let done = it.index() as int;
            assert(results@.take(done + 1).drop_last() =~= results@.take(done));
        }
        match result {
            Ok(pending) => {
                ready.push(pending);
            },
            Err(e) => {
                dropped.push(e);
            },
        }
    }
    proof {
        assert(results@.take(results@.len() as int) =~= results@);
    }
    (ready, dropped)
}

/// The work of a job once its text has been read and parsed, or could not
/// be. A text that could not be read or is no document fails the whole job
/// with that error. Otherwise every pair of the document is reprojected; a
/// pair that cannot be is dropped and does not stop the others. The registry
/// is not touched.
pub fn perform<T, L, F>(
    parsed: Result<GeoJson<T>, JobError>,
    name: &String,
    source: &str,
    target: &str,
    lookup: &L,
) -> (done: Result<Completed<T>, JobError>) where
    L: Fn(&str, &str) -> Result<F, TransformError>,
    F: Fn(&Coord<T>) -> Coord<T>,

    requires
        is_service::<T, L, F>(*lookup),
    ensures
        match parsed {
            Ok(document) => {
                &&& done matches Ok(completed)
                &&& exists|results: Seq<Prepared<T>>|
                    {
                        &&& #[trigger] prepares_all(
                            *lookup,
                            document_pairs(document),
                            *name,
                            source,
                            target,
                            results,
                        )
                        &&& completed.layers@ == successes(results)
                        &&& completed.dropped@ == failures(results)
                    }
                &&& completed.layers@.len() + completed.dropped@.len() == document_pairs(
                    document,
                ).len()
                &&& is_recognized::<T, L, F>(*lookup, source, target)
                    ==> completed.dropped@.len() == 0
                &&& is_unrecognized::<T, L, F>(*lookup, source, target)
                    ==> completed.layers@.len() == 0
            },
            Err(e) => done == Err::<Completed<T>, JobError>(e),
        },
{
    match parsed {
        Ok(document) => {
            let results = prepare_document(&document, name, source, target, lookup);
            proof {
                lemma_successes_and_failures(results@);
                lemma_all_or_nothing(
                    *lookup,
                    document_pairs(document),
                    *name,
                    source,
                    target,
                    results@,
                );
            }
            let (layers, dropped) = split(results);
            Ok(Completed { layers, dropped })
        },
        Err(e) => Err(e),
    }
}

/// Puts what is ready among `results` on top of `layers` and reports the new
/// identifiers and the errors.
pub fn insert_prepared<T>(
    layers: &mut Layers<T>,
    results: Vec<Prepared<T>>,
) -> (report: LoadReport)
    requires
        old(layers).wf(),
        old(layers).next_raw_id() + results@.len() <= u64::MAX,
    ensures
        final(layers).wf(),
        final(layers)@ == old(layers)@ + admitted_batch(
            successes(results@),
            old(layers).next_raw_id(),
        ),
        final(layers).next_raw_id() == old(layers).next_raw_id() + successes(results@).len(),
        report.layer_ids@ == consecutive_ids(
            old(layers).next_raw_id(),
            successes(results@).len(),
        ),
        report.dropped@ == failures(results@),
        report.layer_ids@.len() + report.dropped@.len() == results@.len(),
{
    proof {
        lemma_successes_and_failures(results@);
    }
    let (ready, dropped) = split(results);
    let layer_ids = layers.insert_batch(ready);
    LoadReport { layer_ids, dropped }
}

/// Loads the leaves of `geometry`, each with a copy of `metadata`.
pub fn load_geojson_geometry<T, L, F>(
    geometry: &Geometry<T>,
    layers: &mut Layers<T>,
    metadata: &Option<Metadata>,
    name: &String,
    source_projection: &str,
    target_projection: &str,
    lookup: &L,
) -> (report: LoadReport) where
    L: Fn(&str, &str) -> Result<F, TransformError>,
    F: Fn(&Coord<T>) -> Coord<T>,

    requires
        old(layers).wf(),
        old(layers).next_raw_id() + leaves(*geometry).len() <= u64::MAX,
        is_service::<T, L, F>(*lookup),
    ensures
        final(layers).wf(),
        loads(
            *lookup,
            with_properties(leaves(*geometry), *metadata),
            *name,
            source_projection,
            target_projection,
            *old(layers),
            *final(layers),
            report,
        ),
        report.layer_ids@.len() + report.dropped@.len() == leaves(*geometry).len(),
        final(layers)@.len() == old(layers)@.len() + report.layer_ids@.len(),
        is_recognized::<T, L, F>(*lookup, source_projection, target_projection)
            ==> report.dropped@.len() == 0,
        is_unrecognized::<T, L, F>(*lookup, source_projection, target_projection) ==> {
            &&& final(layers)@ == old(layers)@
            &&& report.layer_ids@.len() == 0
        },
{
    let results = prepare_geometry(
        geometry,
        metadata,
        name,
        source_projection,
        target_projection,
        lookup,
    );
    proof {
        lemma_all_or_nothing(
            *lookup,
            with_properties(leaves(*geometry), *metadata),
            *name,
            source_projection,
            target_projection,
            results@,
        );
    }
    insert_prepared(layers, results)
}

/// Loads one feature: the leaves of its geometry, each with a copy of its
/// properties. A feature without a geometry loads nothing.
pub fn load_geojson_feature<T, L, F>(
    feature: &Feature<T>,
    layers: &mut Layers<T>,
    name: &String,
    source_projection: &str,
    target_projection: &str,
    lookup: &L,
) -> (report: LoadReport) where
    L: Fn(&str, &str) -> Result<F, TransformError>,
    F: Fn(&Coord<T>) -> Coord<T>,

    requires
        old(layers).wf(),
        old(layers).next_raw_id() + feature_pairs(*feature).len() <= u64::MAX,
        is_service::<T, L, F>(*lookup),
    ensures
        final(layers).wf(),
        loads(
            *lookup,
            feature_pairs(*feature),
            *name,
            source_projection,
            target_projection,
            *old(layers),
            *final(layers),
            report,
        ),
        report.layer_ids@.len() + report.dropped@.len() == feature_pairs(*feature).len(),
        final(layers)@.len() == old(layers)@.len() + report.layer_ids@.len(),
        is_recognized::<T, L, F>(*lookup, source_projection, target_projection)
            ==> report.dropped@.len() == 0,
        is_unrecognized::<T, L, F>(*lookup, source_projection, target_projection) ==> {
            &&& final(layers)@ == old(layers)@
            &&& report.layer_ids@.len() == 0
        },
{
    let results = prepare_feature(feature, name, source_projection, target_projection, lookup);
    proof {
        lemma_all_or_nothing(
            *lookup,
            feature_pairs(*feature),
            *name,
            source_projection,
            target_projection,
            results@,
        );
    }
    insert_prepared(layers, results)
}

/// Loads a parsed document: every pair of it is reprojected, and those that
/// could be enter `layers` in document order. A pair that cannot be
/// reprojected is dropped and reported; the others are not affected.
pub fn load<T, L, F>(
    document: &GeoJson<T>,
    layers: &mut Layers<T>,
    name: &String,
    source_projection: &str,
    target_projection: &str,
    lookup: &L,
) -> (report: LoadReport) where
    L: Fn(&str, &str) -> Result<F, TransformError>,
    F: Fn(&Coord<T>) -> Coord<T>,

    requires
        old(layers).wf(),
        old(layers).next_raw_id() + document_pairs(*document).len() <= u64::MAX,
        is_service::<T, L, F>(*lookup),
    ensures
        final(layers).wf(),
        loads(
            *lookup,
            document_pairs(*document),
            *name,
            source_projection,
            target_projection,
            *old(layers),
            *final(layers),
            report,
        ),
        report.layer_ids@.len() + report.dropped@.len() == document_pairs(*document).len(),
        final(layers)@.len() == old(layers)@.len() + report.layer_ids@.len(),
        is_recognized::<T, L, F>(*lookup, source_projection, target_projection)
            ==> report.dropped@.len() == 0,
        is_unrecognized::<T, L, F>(*lookup, source_projection, target_projection) ==> {
            &&& final(layers)@ == old(layers)@
            &&& report.layer_ids@.len() == 0
        },
{
    let results = prepare_document(document, name, source_projection, target_projection, lookup);
    proof {
        lemma_all_or_nothing(
            *lookup,
            document_pairs(*document),
            *name,
            source_projection,
            target_projection,
            results@,
        );
    }
    insert_prepared(layers, results)
}

/// One request per path, each from `source_srs` to `target_srs`.
pub fn load_layers_from_cli(
    geojson_files: &Vec<String>,
    source_srs: &String,
    target_srs: &String,
) -> (requests: Vec<LoadRequest>)
    ensures
        requests@.len() == geojson_files@.len(),
        forall|i: int|
            0 <= i < geojson_files@.len() ==> #[trigger] requests@[i] == (LoadRequest::FromPath {
                path: geojson_files@[i],
                source_srs: *source_srs,
                target_srs: *target_srs,
            }),
{
    let mut requests: Vec<LoadRequest> = Vec::new();
    let mut i: usize = 0;
    while i < geojson_files.len()
        invariant
            i <= geojson_files.len(),
            requests@.len() == i,
            forall|k: int|
                0 <= k < i ==> #[trigger] requests@[k] == (LoadRequest::FromPath {
                    path: geojson_files@[k],
                    source_srs: *source_srs,
                    target_srs: *target_srs,
                }),
        decreases geojson_files.len() - i,
    {
        requests.push(
            LoadRequest::FromPath {
                path: geojson_files[i].clone(),
                source_srs: source_srs.clone(),
                target_srs: target_srs.clone(),
            },
        );
        i += 1;
    }
    requests
}

} // verus!
