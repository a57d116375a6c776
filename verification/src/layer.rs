//! One layer of the registry: a named, styled geometry.

use crate::geom_type::{geom_type_of, mask_of, GeomType, FILLED};
use crate::geometry::Geometry;
use vstd::prelude::*;

verus! {

/// `serde_json::Map`, the property map of a feature. Nothing here reads its
/// entries; a value of it is carried from the parsed feature to the layer.
#[verifier::external_type_specification]
#[verifier::external_body]
#[verifier::reject_recursive_types(K)]
#[verifier::reject_recursive_types(V)]
pub struct ExJsonMap<K, V>(serde_json::Map<K, V>);

/// `serde_json::Value`, one property value.
#[verifier::external_type_specification]
#[verifier::external_body]
pub struct ExJsonValue(serde_json::Value);

/// The properties of one feature, by name.
pub type Metadata = serde_json::Map<String, serde_json::Value>;

/// Calls `Clone::clone` of `serde_json::Map<String, Value>`, which clones the
/// underlying map entry by entry. The contract claims that the copy is the
/// same map: equal keys with equal values.
#[verifier::external_body]
pub(crate) fn clone_metadata(metadata: &Metadata) -> (copy: Metadata)
    ensures
        copy == *metadata,
{
    metadata.clone()
}

/// Identifies a layer for as long as the process lives. Identifiers are
/// handed out in increasing order and are never handed out twice.
#[derive(Clone, Copy, Debug, PartialEq, Eq, Hash, Structural)]
pub struct LayerId(pub u64);

/// A colour with its opacity, eight bits per channel.
#[derive(Clone, Copy, Debug, PartialEq, Eq, Structural)]
pub struct Color {
    pub red: u8,
    pub green: u8,
    pub blue: u8,
    pub alpha: u8,
}

/// How a layer is drawn. Only geometry that encloses an area is filled.
#[derive(Clone, Copy, Debug, PartialEq, Eq, Structural)]
pub struct LayerColor {
    pub fill: Option<Color>,
    pub stroke: Color,
}

/// Which of the two colours of a layer is meant.
#[derive(Clone, Copy, Debug, PartialEq, Eq, Structural)]
pub enum ColorSlot {
    Fill,
    Stroke,
}

/// The stroke of a new layer: opaque black.
pub open spec fn default_stroke() -> Color {
    Color { red: 0, green: 0, blue: 0, alpha: 255 }
}

/// The fill of a new layer that has one: half-transparent grey.
pub open spec fn default_fill() -> Color {
    Color { red: 128, green: 128, blue: 128, alpha: 128 }
}

/// The colours of a new layer whose kinds are `mask`.
pub open spec fn default_color(mask: u16) -> LayerColor {
    LayerColor {
        fill: if mask & FILLED != 0 {
            Some(default_fill())
        } else {
            None
        },
        stroke: default_stroke(),
    }
}

/// A geometry ready to enter the registry: already in the target reference
/// system, with everything a layer has but its identifier.
#[derive(Debug, PartialEq)]
pub struct PendingLayer<T> {
    pub name: String,
    pub geometry: Geometry<T>,
    pub metadata: Option<Metadata>,
    pub crs: String,
}

/// One renderable dataset. Its rank in the drawing order is its position in
/// the registry and is not stored here.
#[derive(Debug, PartialEq)]
pub struct Layer<T> {
    pub id: LayerId,
    pub name: String,
    pub geometry: Geometry<T>,
    pub geom_type: GeomType,
    pub metadata: Option<Metadata>,
    /// The reference system the data came in, kept for display.
    pub crs: String,
    pub color: LayerColor,
    pub visible: bool,
}

impl<T> Layer<T> {
    /// The kind summary is the one derived from the geometry.
    pub open spec fn wf(&self) -> bool {
        self.geom_type.bits == mask_of(self.geometry)
    }

    /// The layer that `pending` becomes under the identifier `id`: visible,
    /// in the default colours of its kinds.
    pub open spec fn admitted(pending: PendingLayer<T>, id: LayerId) -> Layer<T> {
        Layer {
            id,
            name: pending.name,
            geometry: pending.geometry,
            geom_type: GeomType { bits: mask_of(pending.geometry) },
            metadata: pending.metadata,
            crs: pending.crs,
            color: default_color(mask_of(pending.geometry)),
            visible: true,
        }
    }

    /// Makes the layer that `pending` becomes under the identifier `id`.
    pub fn new(pending: PendingLayer<T>, id: LayerId) -> (layer: Layer<T>)
        ensures
            layer == Layer::admitted(pending, id),
            layer.wf(),
    {
        let geom_type = geom_type_of(&pending.geometry);
        let fill = if geom_type.has_fill() {
            Some(Color { red: 128, green: 128, blue: 128, alpha: 128 })
        } else {
            None
        };
        Layer {
            id,
            name: pending.name,
            geometry: pending.geometry,
            geom_type,
            metadata: pending.metadata,
            crs: pending.crs,
            color: LayerColor { fill, stroke: Color { red: 0, green: 0, blue: 0, alpha: 255 } },
            visible: true,
        }
    }
}

} // verus!
