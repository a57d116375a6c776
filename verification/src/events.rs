//! What the owner of the registry does with one request, and what it
//! announces afterwards.
//!
//! Each function here takes the registry and one event, changes the registry
//! through its own operations, and returns the notifications to send. Who
//! queues the events and who receives the notifications is not decided here.

use crate::geometry::{Coord, Geometry};
use crate::layer::{Color, ColorSlot, Layer, LayerId, Metadata, PendingLayer};
use crate::layers::{
    admitted_batch,
    consecutive_ids,
    displaced,
    moved,
    recolored,
    Layers,
    MoveDirection,
};
use crate::loader::JobError;
use crate::transform::{is_recognized, is_service, is_unrecognized, prepares, TransformError};
use vstd::prelude::*;

verus! {

/// Something that happened to a layer, for whoever draws or lists layers.
#[derive(Clone, Copy, Debug, PartialEq, Eq, Structural)]
pub enum Notification {
    LayerCreated(LayerId),
    LayerDeleted(LayerId),
    LayerBecameVisible(LayerId),
    LayerBecameHidden(LayerId),
    LayerColorUpdated(LayerId),
    LayerZIndexUpdated(LayerId),
}

/// The result of a finished job: the identifiers of the layers it created,
/// in the order of creation, or the reason why it failed.
pub type JobOutcome = Result<Vec<LayerId>, JobError>;

/// One `LayerCreated` per identifier, in order.
pub open spec fn created(ids: Seq<LayerId>) -> Seq<Notification> {
    Seq::new(ids.len(), |i: int| Notification::LayerCreated(ids[i]))
}

/// Shows or hides the layer `id` and announces what it became. A stale
/// identifier changes nothing and announces nothing.
pub fn handle_toggle_layer_visibility_event<T>(
    layers: &mut Layers<T>,
    id: LayerId,
) -> (note: Option<Notification>)
    requires
        old(layers).wf(),
    ensures
        final(layers).wf(),
        final(layers).positions() == old(layers).positions(),
        final(layers).next_raw_id() == old(layers).next_raw_id(),
        match old(layers).position_of(id) {
            Some(i) => {
                &&& final(layers)@ == old(layers)@.update(
                    i,
                    Layer { visible: !old(layers)@[i].visible, ..old(layers)@[i] },
                )
                &&& note == Some(
                    if old(layers)@[i].visible {
                        Notification::LayerBecameHidden(id)
                    } else {
                        Notification::LayerBecameVisible(id)
                    },
                )
            },
            None => final(layers)@ == old(layers)@ && note is None,
        },
{
    match layers.toggle_visibility(id) {
        Some(true) => Some(Notification::LayerBecameVisible(id)),
        Some(false) => Some(Notification::LayerBecameHidden(id)),
        None => None,
    }
}

/// Sets one colour of the layer `id` and announces the change. A stale
/// identifier changes nothing and announces nothing.
pub fn handle_update_color_event<T>(
    layers: &mut Layers<T>,
    id: LayerId,
    slot: ColorSlot,
    color: Color,
) -> (note: Option<Notification>)
    requires
        old(layers).wf(),
    ensures
        final(layers).wf(),
        final(layers).positions() == old(layers).positions(),
        final(layers).next_raw_id() == old(layers).next_raw_id(),
        match old(layers).position_of(id) {
            Some(i) => {
                &&& final(layers)@ == old(layers)@.update(
                    i,
                    Layer {
                        color: recolored(old(layers)@[i].color, slot, color),
                        ..old(layers)@[i]
                    },
                )
                &&& note == Some(Notification::LayerColorUpdated(id))
            },
            None => final(layers)@ == old(layers)@ && note is None,
        },
{
    if layers.set_color(id, slot, color) {
        Some(Notification::LayerColorUpdated(id))
    } else {
        None
    }
}

/// Removes the layer `id` and announces that it is gone. The announcement
/// is made for a stale identifier too: after the call no layer `id` exists.
pub fn handle_delete_layer_event<T>(layers: &mut Layers<T>, id: LayerId) -> (note: Notification)
    requires
        old(layers).wf(),
    ensures
        final(layers).wf(),
        final(layers).next_raw_id() == old(layers).next_raw_id(),
        final(layers)@ == match old(layers).position_of(id) {
            Some(i) => old(layers)@.remove(i),
            None => old(layers)@,
        },
        note == Notification::LayerDeleted(id),
{
    let _ = layers.remove(id);
    Notification::LayerDeleted(id)
}

/// Moves the layer `id` one position and announces the new rank of both
/// layers that changed places: first of `id`, then of the other. Where
/// nothing moves nothing is announced.
pub fn handle_move_layer_event<T>(
    layers: &mut Layers<T>,
    id: LayerId,
    direction: MoveDirection,
) -> (notes: Vec<Notification>)
    requires
        old(layers).wf(),
    ensures
        final(layers).wf(),
        final(layers).next_raw_id() == old(layers).next_raw_id(),
        final(layers)@ == moved(old(layers)@, old(layers).position_of(id), direction),
        notes@ == match displaced(old(layers)@, old(layers).position_of(id), direction) {
            Some(other) => seq![
                Notification::LayerZIndexUpdated(id),
                Notification::LayerZIndexUpdated(other),
            ],
            None => Seq::<Notification>::empty(),
        },
{
    let mut notes: Vec<Notification> = Vec::new();
    match layers.move_layer(id, direction) {
        Some(other) => {
            notes.push(Notification::LayerZIndexUpdated(id));
            notes.push(Notification::LayerZIndexUpdated(other));
            assert(notes@ =~= seq![
                Notification::LayerZIndexUpdated(id),
                Notification::LayerZIndexUpdated(other),
            ]);
        },
        None => {},
    }
    notes
}

/// Adds a layer and announces it. When the reference systems are not
/// known, the error is returned, nothing is added and nothing announced.
pub fn handle_create_layer_event<T, L, F>(
    layers: &mut Layers<T>,
    unprojected_geometry: Geometry<T>,
    name: String,
    source_crs: &str,
    target_crs: &str,
    lookup: &L,
) -> (result: Result<Notification, TransformError>) where
    L: Fn(&str, &str) -> Result<F, TransformError>,
    F: Fn(&Coord<T>) -> Coord<T>,

    requires
        old(layers).wf(),
        old(layers).next_raw_id() < u64::MAX,
        is_service::<T, L, F>(*lookup),
    ensures
        final(layers).wf(),
        match result {
            Ok(note) => {
                &&& note == Notification::LayerCreated(LayerId(old(layers).next_raw_id()))
                &&& final(layers).next_raw_id() == old(layers).next_raw_id() + 1
                &&& exists|pending: PendingLayer<T>| #[trigger]
                    prepares(
                        *lookup,
                        unprojected_geometry,
                        name,
                        None::<Metadata>,
                        source_crs,
                        target_crs,
                        Ok(pending),
                    ) && final(layers)@ == old(layers)@.push(
                        Layer::admitted(pending, LayerId(old(layers).next_raw_id())),
                    )
            },
            Err(e) => {
                &&& prepares(
                    *lookup,
                    unprojected_geometry,
                    name,
                    None::<Metadata>,
                    source_crs,
                    target_crs,
                    Err(e),
                )
                &&& final(layers)@ == old(layers)@
                &&& final(layers).positions() == old(layers).positions()
                &&& final(layers).next_raw_id() == old(layers).next_raw_id()
            },
        },
        is_unrecognized::<T, L, F>(*lookup, source_crs, target_crs) ==> result is Err,
        is_recognized::<T, L, F>(*lookup, source_crs, target_crs) ==> result is Ok,
{
    match layers.add(unprojected_geometry, name, None, source_crs, target_crs, lookup) {
        Ok(id) => Ok(Notification::LayerCreated(id)),
        Err(e) => Err(e),
    }
}

/// Takes what a job has sent: puts a batch of finished layers on top of the
/// registry, in order, and answers with their identifiers; passes the
/// failure of a failed job on and leaves the registry alone.
pub fn deliver<T>(
    layers: &mut Layers<T>,
    sent: Result<Vec<PendingLayer<T>>, JobError>,
) -> (outcome: JobOutcome)
    requires
        old(layers).wf(),
        sent matches Ok(batch) ==> old(layers).next_raw_id() + batch@.len() <= u64::MAX,
    ensures
        final(layers).wf(),
        match sent {
            Ok(batch) => {
                &&& outcome matches Ok(ids)
                &&& ids@ == consecutive_ids(old(layers).next_raw_id(), batch@.len())
                &&& final(layers)@ == old(layers)@ + admitted_batch(
                    batch@,
                    old(layers).next_raw_id(),
                )
                &&& final(layers).next_raw_id() == old(layers).next_raw_id() + batch@.len()
            },
            Err(e) => {
                &&& outcome == Err::<Vec<LayerId>, JobError>(e)
                &&& final(layers)@ == old(layers)@
                &&& final(layers).positions() == old(layers).positions()
                &&& final(layers).next_raw_id() == old(layers).next_raw_id()
            },
        },
{
    match sent {
        Ok(batch) => Ok(layers.insert_batch(batch)),
        Err(e) => Err(e),
    }
}

/// The announcements for one finished job: one `LayerCreated` per new
/// layer, in the order in which the identifiers were handed out; none for a
/// job that failed.
pub fn handle_loaded_layers(outcome: &JobOutcome) -> (notes: Vec<Notification>)
    ensures
        notes@ == match outcome {
            Ok(ids) => created(ids@),
            Err(_) => Seq::<Notification>::empty(),
        },
{
    let mut notes: Vec<Notification> = Vec::new();
    match outcome {
        Ok(ids) => {
            let mut i: usize = 0;
            while i < ids.len()
                invariant
                    i <= ids.len(),
                    notes@ == created(ids@.take(i as int)),
                decreases ids.len() - i,
            {
                notes.push(Notification::LayerCreated(ids[i]));
                proof {
                    assert(notes@ =~= created(ids@.take(i + 1)));
                }
                i += 1;
            }
            proof {
                assert(ids@.take(i as int) =~= ids@);
            }
        },
        Err(_) => {},
    }
    notes
}

/// What a job sends to the owner of the registry when it is done: its
/// finished layers, or the reason why it failed.
pub type Sent<T> = Result<Vec<PendingLayer<T>>, JobError>;

/// What the owner did with everything that had arrived: the announcements
/// to make, in the order in which the layers were created, and the failures
/// of the jobs that failed, in the order of arrival.
#[derive(Debug, Clone, PartialEq, Eq)]
pub struct Drained {
    pub notifications: Vec<Notification>,
    pub failures: Vec<JobError>,
}

/// The layers of what was sent: those of a batch, none for a failure.
pub open spec fn layers_of<T>(sent: Sent<T>) -> Seq<PendingLayer<T>> {
    match sent {
        Ok(batch) => batch@,
        Err(_) => Seq::empty(),
    }
}

/// The layers of all batches among `received`, in the order of arrival.
pub open spec fn delivered_layers<T>(received: Seq<Sent<T>>) -> Seq<PendingLayer<T>>
    decreases received.len(),
{
    if received.len() == 0 {
        Seq::empty()
    } else {
        delivered_layers(received.drop_last()) + layers_of(received.last())
    }
}

/// The failures among `received`, in the order of arrival.
pub open spec fn job_failures<T>(received: Seq<Sent<T>>) -> Seq<JobError>
    decreases received.len(),
{
    if received.len() == 0 {
        Seq::empty()
    } else {
        match received.last() {
            Ok(_) => job_failures(received.drop_last()),
            Err(e) => job_failures(received.drop_last()).push(e),
        }
    }
}

/// A prefix of what was received holds no more layers than the whole.
pub proof fn lemma_delivered_prefix<T>(received: Seq<Sent<T>>, k: int)
    requires
        0 <= k <= received.len(),
    ensures
        delivered_layers(received.take(k)).len() <= delivered_layers(received).len(),
    decreases received.len(),
{
    if k == received.len() {
        assert(received.take(k) =~= received);
    } else {
        lemma_delivered_prefix(received.drop_last(), k);
        assert(received.drop_last().take(k) =~= received.take(k));
    }
}

/// Identifiers handed out to one batch after another are the identifiers
/// handed out to all their layers in one go.
pub proof fn lemma_batches_in_a_row<T>(
    a: Seq<PendingLayer<T>>,
    b: Seq<PendingLayer<T>>,
    first: u64,
)
    requires
        first + a.len() + b.len() <= u64::MAX,
    ensures
        admitted_batch(a + b, first) == admitted_batch(a, first) + admitted_batch(
            b,
            (first + a.len()) as u64,
        ),
        consecutive_ids(first, a.len() + b.len()) == consecutive_ids(first, a.len())
            + consecutive_ids((first + a.len()) as u64, b.len()),
        created(consecutive_ids(first, a.len() + b.len())) == created(
            consecutive_ids(first, a.len()),
        ) + created(consecutive_ids((first + a.len()) as u64, b.len())),
{
    assert(admitted_batch(a + b, first) =~= admitted_batch(a, first) + admitted_batch(
        b,
        (first + a.len()) as u64,
    ));
    assert(consecutive_ids(first, a.len() + b.len()) =~= consecutive_ids(first, a.len())
        + consecutive_ids((first + a.len()) as u64, b.len()));
    assert(created(consecutive_ids(first, a.len() + b.len())) =~= created(
        consecutive_ids(first, a.len()),
    ) + created(consecutive_ids((first + a.len()) as u64, b.len())));
}

/// Takes everything that has arrived, in the order of arrival: each batch
/// goes on top of the registry, each failure is set aside. Across all
/// batches the new identifiers rise by one from layer to layer, and the
/// announcements follow them.
pub fn drain<T>(layers: &mut Layers<T>, received: Vec<Sent<T>>) -> (drained: Drained)
    requires
        old(layers).wf(),
        old(layers).next_raw_id() + delivered_layers(received@).len() <= u64::MAX,
    ensures
        final(layers).wf(),
        final(layers)@ == old(layers)@ + admitted_batch(
            delivered_layers(received@),
            old(layers).next_raw_id(),
        ),
        final(layers).next_raw_id() == old(layers).next_raw_id() + delivered_layers(
            received@,
        ).len(),
        drained.notifications@ == created(
            consecutive_ids(old(layers).next_raw_id(), delivered_layers(received@).len()),
        ),
        drained.failures@ == job_failures(received@),
{
    let ghost first = layers.next_raw_id();
    let ghost before = layers@;
    let mut notifications: Vec<Notification> = Vec::new();
    let mut failures: Vec<JobError> = Vec::new();
    proof {
        assert(layers@ =~= before + admitted_batch(Seq::<PendingLayer<T>>::empty(), first));
        assert(notifications@ =~= created(consecutive_ids(first, 0)));
    }
    for sent in it: received
        invariant
            layers.wf(),
            first + delivered_layers(received@).len() <= u64::MAX,
            layers.next_raw_id() == first + delivered_layers(
                received@.take(it.index() as int),
            ).len(),
            layers@ == before + admitted_batch(
                delivered_layers(received@.take(it.index() as int)),
                first,
            ),
            notifications@ == created(
                consecutive_ids(
                    first,
                    delivered_layers(received@.take(it.index() as int)).len(),
                ),
            ),
            failures@ == job_failures(received@.take(it.index() as int)),
    {
        let ghost k = it.index() as int;
        let ghost done = delivered_layers(received@.take(k));
        proof {
            assert(received@.take(k + 1).drop_last() =~= received@.take(k));
            lemma_delivered_prefix(received@, k + 1);
            lemma_batches_in_a_row(done, layers_of(sent), first);
        }
        match deliver(layers, sent) {
            Ok(ids) => {
                let outcome: JobOutcome = Ok(ids);
                let mut notes = handle_loaded_layers(&outcome);
                notifications.append(&mut notes);
            },
            Err(e) => {
                failures.push(e);
                proof {
                    assert(done + layers_of(sent) =~= done);
                }
            },
        }
    }
    proof {
        assert(received@.take(received@.len() as int) =~= received@);
    }
    Drained { notifications, failures }
}

} // verus!
