//! What a window that manages one layer has to show.
//!
//! Drawing the window is not done here. This module looks the layer up and
//! decides which rows there are; a layer that is gone closes the window.

use crate::geom_type::FILLED;
use crate::layer::{Color, Layer, LayerId};
use crate::layers::Layers;
use vstd::prelude::*;

verus! {

/// Whether the window is open, and for which layer.
#[derive(Clone, Copy, Debug, PartialEq, Eq, Structural)]
pub struct ManageLayerWindowState {
    pub is_visible: bool,
    pub layer_id: Option<LayerId>,
}

/// The rows of the window: name, reference system, and the colours. There
/// is a fill row only for a layer that has a fill.
#[derive(Debug, PartialEq, Eq)]
pub struct ManageLayerRows<'a> {
    pub layer_id: LayerId,
    pub name: &'a String,
    pub crs: &'a String,
    pub fill: Option<Color>,
    pub stroke: Color,
}

/// The fill that is shown for `layer`: its fill colour, if its geometry
/// encloses an area.
pub open spec fn shown_fill<T>(layer: Layer<T>) -> Option<Color> {
    if layer.geom_type.bits & FILLED != 0 {
        layer.color.fill
    } else {
        None
    }
}

/// The rows to show, if the window is to be shown at all.
///
/// A closed window, or one without a layer, shows nothing and stays as it
/// is. An open window whose layer is no longer in the registry shows nothing
/// and is closed. Otherwise the rows are those of the layer.
pub fn manage_layer_window<'a, T>(
    state: &mut ManageLayerWindowState,
    layers: &'a Layers<T>,
) -> (rows: Option<ManageLayerRows<'a>>)
    requires
        layers.wf(),
    ensures
        final(state).layer_id == old(state).layer_id,
        match (old(state).is_visible, old(state).layer_id) {
            (true, Some(id)) => match layers.position_of(id) {
                Some(i) => {
                    &&& final(state).is_visible
                    &&& rows matches Some(shown)
                    &&& shown.layer_id == id
                    &&& *shown.name == layers@[i].name
                    &&& *shown.crs == layers@[i].crs
                    &&& shown.fill == shown_fill(layers@[i])
                    &&& shown.stroke == layers@[i].color.stroke
                },
                None => !final(state).is_visible && rows is None,
            },
            _ => final(state).is_visible == old(state).is_visible && rows is None,
        },
{
    if !state.is_visible {
        return None;
    }
    let layer_id = match state.layer_id {
        Some(id) => id,
        None => {
            return None;
        },
    };
    match layers.get(layer_id) {
        Some(layer) => {
            let fill = if layer.geom_type.has_fill() {
                layer.color.fill
            } else {
                None
            };
            Some(
                ManageLayerRows {
                    layer_id,
                    name: &layer.name,
                    crs: &layer.crs,
                    fill,
                    stroke: layer.color.stroke,
                },
            )
        },
        None => {
            state.is_visible = false;
            None
        },
    }
}

} // verus!
