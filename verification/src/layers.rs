//! The registry: layers in drawing order, found by identifier.

use crate::geom_type::geom_type_of;
use crate::geometry::{Coord, Geometry};
use crate::hit_test::{are_tests, geometry_hit, picks};
use crate::layer::{Color, ColorSlot, Layer, LayerColor, LayerId, Metadata, PendingLayer};
use crate::transform::{
    is_recognized,
    is_service,
    is_unrecognized,
    prepare,
    prepares,
    TransformError,
};
use std::collections::HashMap;
use vstd::prelude::*;

verus! {

broadcast use vstd::std_specs::hash::group_hash_axioms;

/// Towards the top of the drawing order, or towards its bottom.
#[derive(Clone, Copy, Debug, PartialEq, Eq, Structural)]
pub enum MoveDirection {
    Up,
    Down,
}

/// The layers, bottom first, and for each identifier the position of its
/// layer. The position of a layer is its rank in the drawing order: the
/// layer at the highest position is drawn last and lies on top.
pub struct Layers<T> {
    data: Vec<Layer<T>>,
    index: HashMap<u64, usize>,
    next_id: u64,
}

/// The position next to `i` on the side `direction`, if a sequence of
/// length `len` has one.
pub open spec fn neighbour(len: nat, i: int, direction: MoveDirection) -> Option<int> {
    match direction {
        MoveDirection::Up => if i + 1 < len {
            Some(i + 1)
        } else {
            None
        },
        MoveDirection::Down => if i >= 1 {
            Some(i - 1)
        } else {
            None
        },
    }
}

/// The sequence `s` after the layer at `position` has changed places with
/// its neighbour on the side `direction`; `s` itself where there is no such
/// layer or no such neighbour.
pub open spec fn moved<T>(
    s: Seq<Layer<T>>,
    position: Option<int>,
    direction: MoveDirection,
) -> Seq<Layer<T>> {
    match position {
        Some(i) => match neighbour(s.len(), i, direction) {
            Some(j) => s.update(i, s[j]).update(j, s[i]),
            None => s,
        },
        None => s,
    }
}

/// The identifier of the layer that gives way when the layer at `position`
/// moves to the side `direction`, if one does.
pub open spec fn displaced<T>(
    s: Seq<Layer<T>>,
    position: Option<int>,
    direction: MoveDirection,
) -> Option<LayerId> {
    match position {
        Some(i) => match neighbour(s.len(), i, direction) {
            Some(j) => Some(s[j].id),
            None => None,
        },
        None => None,
    }
}

/// The colours `color` with the one in `slot` replaced by `value`.
pub open spec fn recolored(color: LayerColor, slot: ColorSlot, value: Color) -> LayerColor {
    match slot {
        ColorSlot::Fill => LayerColor { fill: Some(value), ..color },
        ColorSlot::Stroke => LayerColor { stroke: value, ..color },
    }
}

/// The layers that the pending layers `batch` become when identifiers are
/// handed out in order from `first` on.
pub open spec fn admitted_batch<T>(batch: Seq<PendingLayer<T>>, first: u64) -> Seq<Layer<T>> {
    Seq::new(batch.len(), |k: int| Layer::admitted(batch[k], LayerId((first + k) as u64)))
}

/// `count` identifiers in order from `first` on.
pub open spec fn consecutive_ids(first: u64, count: nat) -> Seq<LayerId> {
    Seq::new(count, |k: int| LayerId((first + k) as u64))
}

/// The raw identifiers of the first `n` layers of `s`.
pub open spec fn raw_ids<T>(s: Seq<Layer<T>>, n: int) -> Set<u64> {
    Set::new(|k: u64| exists|i: int| 0 <= i < n && (#[trigger] s[i]).id.0 == k)
}

/// Where a map records each of the first `n` layers at its own position,
/// these layers have `n` different identifiers, all of them keys of the map.
pub proof fn lemma_recorded_ids<T>(s: Seq<Layer<T>>, m: Map<u64, usize>, n: int)
    requires
        0 <= n <= s.len(),
        forall|i: int|
            0 <= i < n ==> m.contains_key((#[trigger] s[i]).id.0) && m[s[i].id.0] == i,
    ensures
        raw_ids(s, n).finite(),
        raw_ids(s, n).len() == n,
        raw_ids(s, n).subset_of(m.dom()),
    decreases n,
{
    if n == 0 {
        assert(raw_ids(s, n) =~= Set::<u64>::empty());
    } else {
        lemma_recorded_ids(s, m, n - 1);
        let k = s[n - 1].id.0;
        assert(!raw_ids(s, n - 1).contains(k)) by {
            if raw_ids(s, n - 1).contains(k) {
                let i = choose|i: int| 0 <= i < n - 1 && (#[trigger] s[i]).id.0 == k;
                assert(m[s[i].id.0] == i);
            }
        }
        assert(raw_ids(s, n) =~= raw_ids(s, n - 1).insert(k)) by {
            assert forall|x: u64| raw_ids(s, n).contains(x) implies raw_ids(s, n - 1).insert(
                k,
            ).contains(x) by {
                let i = choose|i: int| 0 <= i < n && (#[trigger] s[i]).id.0 == x;
                if i < n - 1 {
                    assert(raw_ids(s, n - 1).contains(x));
                }
            }
            assert forall|x: u64| raw_ids(s, n - 1).insert(k).contains(x) implies raw_ids(
                s,
                n,
            ).contains(x) by {
                if x == k {
                    assert(s[n - 1].id.0 == x);
                } else {
                    let i = choose|i: int| 0 <= i < n - 1 && (#[trigger] s[i]).id.0 == x;
                    assert(s[i].id.0 == x);
                }
            }
        }
    }
}

impl<T> View for Layers<T> {
    type V = Seq<Layer<T>>;

    /// The layers in drawing order, bottom first.
    closed spec fn view(&self) -> Seq<Layer<T>> {
        self.data@
    }
}

impl<T> Layers<T> {
    /// The index: for the raw value of an identifier, the position recorded
    /// for it.
    pub closed spec fn positions(&self) -> Map<u64, usize> {
        self.index@
    }

    /// The raw value of the identifier that the next new layer gets.
    pub closed spec fn next_raw_id(&self) -> u64 {
        self.next_id
    }

    /// The index and the sequence agree: each layer is recorded at the
    /// position where it stands, each record leads to the layer it names, and
    /// every identifier in use was handed out before. It follows that no two
    /// layers share an identifier.
    pub open spec fn wf(&self) -> bool {
        &&& forall|i: int|
            0 <= i < self@.len() ==> {
                &&& self.positions().contains_key((#[trigger] self@[i]).id.0)
                &&& self.positions()[self@[i].id.0] == i
                &&& self@[i].id.0 < self.next_raw_id()
                &&& self@[i].wf()
            }
        &&& forall|k: u64| #[trigger]
            self.positions().contains_key(k) ==> {
                &&& self.positions()[k] < self@.len()
                &&& self@[self.positions()[k] as int].id.0 == k
            }
    }

    /// Where the layer `id` stands, if the registry holds it.
    pub open spec fn position_of(&self, id: LayerId) -> Option<int> {
        if self.positions().contains_key(id.0) {
            Some(self.positions()[id.0] as int)
        } else {
            None
        }
    }

    /// `hit` is a possible answer to "does `point` pick the layer at position
    /// `i`?": a hidden layer is never picked, a visible one when its geometry
    /// is.
    pub open spec fn is_picked<W, N>(
        &self,
        i: int,
        point: Coord<T>,
        within: W,
        near: N,
        hit: bool,
    ) -> bool where
        W: Fn(&Geometry<T>, &Coord<T>) -> bool,
        N: Fn(&Geometry<T>, &Coord<T>) -> bool,
     {
        if self@[i].visible {
            picks(within, near, self@[i].geometry, point, hit)
        } else {
            !hit
        }
    }

    /// The layer at position `i` is the topmost that `point` picks: it may
    /// be picked, and every layer above it may be missed.
    pub open spec fn is_topmost_pick<W, N>(
        &self,
        i: int,
        point: Coord<T>,
        within: W,
        near: N,
    ) -> bool where
        W: Fn(&Geometry<T>, &Coord<T>) -> bool,
        N: Fn(&Geometry<T>, &Coord<T>) -> bool,
     {
        &&& 0 <= i < self@.len()
        &&& self.is_picked(i, point, within, near, true)
        &&& forall|j: int|
            i < j < self@.len() ==> #[trigger] self.is_picked(j, point, within, near, false)
    }

    /// An empty registry, whose first layer will get identifier 0.
    pub fn new() -> (layers: Layers<T>)
        ensures
            layers.wf(),
            layers@ == Seq::<Layer<T>>::empty(),
            layers.positions() == Map::<u64, usize>::empty(),
            layers.next_raw_id() == 0,
    {
        Layers { data: Vec::new(), index: HashMap::new(), next_id: 0 }
    }

    /// The number of layers.
    pub fn len(&self) -> (n: usize)
        ensures
            n == self@.len(),
    {
        self.data.len()
    }

    /// Whether the registry holds no layer.
    pub fn is_empty(&self) -> (b: bool)
        ensures
            b == (self@.len() == 0),
    {
        self.data.len() == 0
    }

    /// The identifier that the next new layer gets.
    pub fn next_layer_id(&self) -> (id: LayerId)
        ensures
            id.0 == self.next_raw_id(),
    {
        LayerId(self.next_id)
    }

    /// The identifiers of the layers in drawing order, bottom first.
    pub fn ids(&self) -> (ids: Vec<LayerId>)
        ensures
            ids@.len() == self@.len(),
            forall|i: int| 0 <= i < self@.len() ==> #[trigger] ids@[i] == self@[i].id,
    {
        let mut ids: Vec<LayerId> = Vec::new();
        let mut i: usize = 0;
        while i < self.data.len()
            invariant
                i <= self.data.len(),
                ids@.len() == i,
                forall|k: int| 0 <= k < i ==> #[trigger] ids@[k] == self.data@[k].id,
            decreases self.data.len() - i,
        {
            ids.push(self.data[i].id);
            i += 1;
        }
        ids
    }

    /// The layer at `position`, or nothing if the registry has fewer layers.
    pub fn layer_at(&self, position: usize) -> (found: Option<&Layer<T>>)
        ensures
            found == if position < self@.len() {
                Some(&self@[position as int])
            } else {
                None
            },
    {
        if position < self.data.len() {
            Some(&self.data[position])
        } else {
            None
        }
    }

    /// The layer `id`, or nothing if the registry does not hold it.
    pub fn get(&self, id: LayerId) -> (found: Option<&Layer<T>>)
        requires
            self.wf(),
        ensures
            match self.position_of(id) {
                Some(i) => found == Some(&self@[i]),
                None => found is None,
            },
    {
        match self.index.get(&id.0) {
            Some(position) => Some(&self.data[*position]),
            None => None,
        }
    }

    /// The layer `id`, open to change, or nothing if the registry does not
    /// hold it. Whatever the caller writes stands at the same position
    /// afterwards; the registry stays well-formed if the layer keeps its
    /// identifier and stays well-formed itself.
    pub fn get_mut(&mut self, id: LayerId) -> (found: Option<&mut Layer<T>>)
        requires
            old(self).wf(),
        ensures
            final(self).positions() == old(self).positions(),
            final(self).next_raw_id() == old(self).next_raw_id(),
            match old(self).position_of(id) {
                Some(i) => found matches Some(layer) && *layer == old(self)@[i] && final(self)@
                    == old(self)@.update(i, *final(layer)),
                None => found is None && final(self)@ == old(self)@,
            },
            found matches Some(layer) ==> (final(layer).id == id && final(layer).wf()
                ==> final(self).wf()),
    {
        match self.index.get(&id.0) {
            Some(position) => {
                let position: usize = *position;
                Some(&mut self.data[position])
            },
            None => None,
        }
    }

    /// The layer `id` with its position, or nothing if the registry does not
    /// hold it.
    pub fn get_with_z_index(&self, id: LayerId) -> (found: Option<(&Layer<T>, usize)>)
        requires
            self.wf(),
        ensures
            match self.position_of(id) {
                Some(i) => found == Some((&self@[i], i as usize)),
                None => found is None,
            },
    {
        match self.index.get(&id.0) {
            Some(position) => Some((&self.data[*position], *position)),
            None => None,
        }
    }

    /// Puts `pending` on top under the next unused identifier, which is
    /// returned.
    pub fn insert(&mut self, pending: PendingLayer<T>) -> (id: LayerId)
        requires
            old(self).wf(),
            old(self).next_raw_id() < u64::MAX,
        ensures
            final(self).wf(),
            id.0 == old(self).next_raw_id(),
            final(self).next_raw_id() == old(self).next_raw_id() + 1,
            final(self)@ == old(self)@.push(Layer::admitted(pending, id)),
            final(self).positions() == old(self).positions().insert(
                id.0,
                old(self)@.len() as usize,
            ),
    {
        let id = LayerId(self.next_id);
        let layer = Layer::new(pending, id);
        let position = self.data.len();
        self.data.push(layer);
        self.index.insert(id.0, position);
        self.next_id = self.next_id + 1;
        id
    }

    /// Puts every layer of `batch` on top, in order, and returns their new
    /// identifiers: as many as the batch is long, each one more than the one
    /// before.
    pub fn insert_batch(&mut self, batch: Vec<PendingLayer<T>>) -> (ids: Vec<LayerId>)
        requires
            old(self).wf(),
            old(self).next_raw_id() + batch@.len() <= u64::MAX,
        ensures
            final(self).wf(),
            final(self).next_raw_id() == old(self).next_raw_id() + batch@.len(),
            final(self)@ == old(self)@ + admitted_batch(batch@, old(self).next_raw_id()),
            ids@ == consecutive_ids(old(self).next_raw_id(), batch@.len()),
    {
        let ghost before = *self;
        let mut ids: Vec<LayerId> = Vec::new();
        for pending in it: batch
            invariant
                before.wf(),
                self.wf(),
                before.next_raw_id() + batch@.len() <= u64::MAX,
                ids@.len() == it.index(),
                self.next_raw_id() == before.next_raw_id() + it.index(),
                self@ == before@ + admitted_batch(
                    batch@.take(it.index() as int),
                    before.next_raw_id(),
                ),
                ids@ == consecutive_ids(before.next_raw_id(), it.index() as nat),
        {
            let ghost done = it.index() as int;
            let id = self.insert(pending);
            ids.push(id);
            proof {
                assert(batch@.take(done + 1) =~= batch@.take(done).push(batch@[done]));
                assert(self@ =~= before@ + admitted_batch(
                    batch@.take(done + 1),
                    before.next_raw_id(),
                ));
                assert(ids@ =~= consecutive_ids(before.next_raw_id(), (done + 1) as nat));
            }
        }
        proof {
            assert(batch@.take(batch@.len() as int) =~= batch@);
        }
        ids
    }

    /// Reprojects `geometry` from `source_crs` to `target_crs` through the
    /// transform that `lookup` hands out for the two, and puts the result on
    /// top as a new, visible layer called `name`, labelled with `source_crs`.
    /// When `lookup` refuses, its error is returned and nothing changes.
    pub fn add<L, F>(
        &mut self,
        geometry: Geometry<T>,
        name: String,
        metadata: Option<Metadata>,
        source_crs: &str,
        target_crs: &str,
        lookup: &L,
    ) -> (result: Result<LayerId, TransformError>) where
        L: Fn(&str, &str) -> Result<F, TransformError>,
        F: Fn(&Coord<T>) -> Coord<T>,

        requires
            old(self).wf(),
            old(self).next_raw_id() < u64::MAX,
            is_service::<T, L, F>(*lookup),
        ensures
            final(self).wf(),
            match result {
                Ok(id) => {
                    &&& id.0 == old(self).next_raw_id()
                    &&& final(self).next_raw_id() == old(self).next_raw_id() + 1
                    &&& exists|pending: PendingLayer<T>| #[trigger]
                        prepares(
                            *lookup,
                            geometry,
                            name,
                            metadata,
                            source_crs,
                            target_crs,
                            Ok(pending),
                        ) && final(self)@ == old(self)@.push(Layer::admitted(pending, id))
                },
                Err(e) => {
                    &&& prepares(*lookup, geometry, name, metadata, source_crs, target_crs, Err(e))
                    &&& final(self)@ == old(self)@
                    &&& final(self).positions() == old(self).positions()
                    &&& final(self).next_raw_id() == old(self).next_raw_id()
                },
            },
            is_unrecognized::<T, L, F>(*lookup, source_crs, target_crs) ==> result is Err,
            is_recognized::<T, L, F>(*lookup, source_crs, target_crs) ==> result is Ok,
    {
        match prepare(&geometry, name, metadata, source_crs, target_crs, lookup) {
            Ok(pending) => Ok(self.insert(pending)),
            Err(e) => Err(e),
        }
    }

    /// Takes the layer `id` out and returns it. The layers above it move down
    /// by one position each, and the index follows them. Without such a layer
    /// nothing changes.
    pub fn remove(&mut self, id: LayerId) -> (removed: Option<Layer<T>>)
        requires
            old(self).wf(),
        ensures
            final(self).wf(),
            final(self).next_raw_id() == old(self).next_raw_id(),
            match old(self).position_of(id) {
                Some(i) => removed == Some(old(self)@[i]) && final(self)@ == old(self)@.remove(i),
                None => removed is None && final(self)@ == old(self)@ && final(self).positions()
                    == old(self).positions(),
            },
    {
        let position: usize = match self.index.get(&id.0) {
            Some(position) => *position,
            None => {
                return None;
            },
        };
        let ghost before = *self;
        self.index.remove(&id.0);
        let layer = self.data.remove(position);
        let mut i: usize = position;
        while i < self.data.len()
            invariant
                before.wf(),
                before.position_of(id) == Some(position as int),
                self.next_id == before.next_id,
                self.data@ == before.data@.remove(position as int),
                position <= i <= self.data.len(),
                forall|k: u64| #[trigger]
                    self.index@.contains_key(k) <==> before.index@.contains_key(k) && k != id.0,
                forall|j: int|
                    0 <= j < self.data@.len() ==> self.index@[(#[trigger] self.data@[j]).id.0] == (
                    if j < i {
                        j
                    } else {
                        j + 1
                    }),
            decreases self.data.len() - i,
        {
            let raw: u64 = self.data[i].id.0;
            proof {
                assert(self.data@[i as int] == before.data@[i + 1]);
                assert(before.index@.contains_key(before.data@[i + 1].id.0));
                assert forall|j: int| 0 <= j < self.data@.len() && j != i implies (
                #[trigger] self.data@[j]).id.0 != raw by {
                    let old_j = if j < position {
                        j
                    } else {
                        j + 1
                    };
                    assert(self.data@[j] == before.data@[old_j]);
                    assert(before.index@[before.data@[old_j].id.0] == old_j);
                    assert(before.index@[before.data@[i + 1].id.0] == i + 1);
                }
            }
            self.index.insert(raw, i);
            i += 1;
        }
        proof {
            assert forall|k: u64| #[trigger] self.index@.contains_key(k) implies self.index@[k]
                < self.data@.len() && self.data@[self.index@[k] as int].id.0 == k by {
                let p = before.index@[k] as int;
                assert(before.data@[p].id.0 == k);
                let j = if p < position {
                    p
                } else {
                    p - 1
                };
                assert(self.data@[j] == before.data@[p]);
            }
            assert forall|j: int| 0 <= j < self.data@.len() implies self.index@.contains_key(
                (#[trigger] self.data@[j]).id.0,
            ) && self.data@[j].id.0 < self.next_id && self.data@[j].wf() by {
                let old_j = if j < position {
                    j
                } else {
                    j + 1
                };
                assert(self.data@[j] == before.data@[old_j]);
                assert(before.index@[before.data@[old_j].id.0] == old_j);
            }
        }
        Some(layer)
    }

    /// Exchanges the layer `id` with the layer directly above it (`Up`) or
    /// below it (`Down`) and returns the identifier of that other layer.
    /// Without a layer `id`, or without a neighbour on that side, nothing
    /// changes.
    pub fn move_layer(&mut self, id: LayerId, direction: MoveDirection) -> (other: Option<LayerId>)
        requires
            old(self).wf(),
        ensures
            final(self).wf(),
            final(self).next_raw_id() == old(self).next_raw_id(),
            final(self)@ == moved(old(self)@, old(self).position_of(id), direction),
            other == displaced(old(self)@, old(self).position_of(id), direction),
    {
        let position: usize = match self.index.get(&id.0) {
            Some(position) => *position,
            None => {
                return None;
            },
        };
        assert(position < self.data.len());
        let target: usize = match direction {
            MoveDirection::Up => {
                if position + 1 < self.data.len() {
                    position + 1
                } else {
                    return None;
                }
            },
            MoveDirection::Down => {
                if position >= 1 {
                    position - 1
                } else {
                    return None;
                }
            },
        };
        let ghost before = *self;
        let other = LayerId(self.data[target].id.0);
        let lower: usize = if position < target {
            position
        } else {
            target
        };
        let upper = self.data.remove(lower + 1);
        self.data.insert(lower, upper);
        proof {
            assert(self.data@ =~= moved(before.data@, Some(position as int), direction));
            assert(before.index@[before.data@[target as int].id.0] == target);
            assert(before.index@[before.data@[position as int].id.0] == position);
        }
        self.index.insert(id.0, target);
        self.index.insert(other.0, position);
        proof {
            assert forall|i: int| 0 <= i < self.data@.len() implies self.index@.contains_key(
                (#[trigger] self.data@[i]).id.0,
            ) && self.index@[self.data@[i].id.0] == i by {
                if i != position && i != target {
                    assert(self.data@[i] == before.data@[i]);
                    assert(before.index@[before.data@[i].id.0] == i);
                }
            }
            assert forall|k: u64| #[trigger] self.index@.contains_key(k) implies self.index@[k]
                < self.data@.len() && self.data@[self.index@[k] as int].id.0 == k by {
                if k != id.0 && k != other.0 {
                    let p = before.index@[k] as int;
                    assert(before.data@[p].id.0 == k);
                    assert(self.data@[p] == before.data@[p]);
                }
            }
        }
        Some(other)
    }

    /// Shows or hides the layer `id` and returns whether it is visible
    /// afterwards. Without such a layer nothing changes.
    pub fn toggle_visibility(&mut self, id: LayerId) -> (now: Option<bool>)
        requires
            old(self).wf(),
        ensures
            final(self).wf(),
            final(self).positions() == old(self).positions(),
            final(self).next_raw_id() == old(self).next_raw_id(),
            match old(self).position_of(id) {
                Some(i) => now == Some(!old(self)@[i].visible) && final(self)@ == old(self)@.update(
                    i,
                    Layer { visible: !old(self)@[i].visible, ..old(self)@[i] },
                ),
                None => now is None && final(self)@ == old(self)@,
            },
    {
        match self.index.get(&id.0) {
            Some(position) => {
                let position: usize = *position;
                let visible = !self.data[position].visible;
                self.data[position].visible = visible;
                Some(visible)
            },
            None => None,
        }
    }

    /// Sets the fill or the stroke of the layer `id` and returns whether
    /// there is such a layer. Without one nothing changes.
    pub fn set_color(&mut self, id: LayerId, slot: ColorSlot, color: Color) -> (found: bool)
        requires
            old(self).wf(),
        ensures
            final(self).wf(),
            final(self).positions() == old(self).positions(),
            final(self).next_raw_id() == old(self).next_raw_id(),
            match old(self).position_of(id) {
                Some(i) => found && final(self)@ == old(self)@.update(
                    i,
                    Layer { color: recolored(old(self)@[i].color, slot, color), ..old(self)@[i] },
                ),
                None => !found && final(self)@ == old(self)@,
            },
    {
        match self.index.get(&id.0) {
            Some(position) => {
                let position: usize = *position;
                match slot {
                    ColorSlot::Fill => {
                        self.data[position].color.fill = Some(color);
                    },
                    ColorSlot::Stroke => {
                        self.data[position].color.stroke = color;
                    },
                }
                true
            },
            None => false,
        }
    }

    /// The topmost visible layer that `point` picks, with the properties of
    /// its feature. Layers are asked from the top down; hidden layers are
    /// not asked.
    pub fn feature_from_click<W, N>(
        &self,
        point: &Coord<T>,
        within: &W,
        near: &N,
    ) -> (found: Option<(&Layer<T>, Option<&Metadata>)>) where
        W: Fn(&Geometry<T>, &Coord<T>) -> bool,
        N: Fn(&Geometry<T>, &Coord<T>) -> bool,

        requires
            are_tests(*within, *near),
        ensures
            match found {
                Some((layer, properties)) => {
                    &&& exists|i: int|
                        *layer == #[trigger] self@[i] && self.is_topmost_pick(
                            i,
                            *point,
                            *within,
                            *near,
                        )
                    &&& match properties {
                        Some(p) => layer.metadata == Some(*p),
                        None => layer.metadata is None,
                    }
                },
                None => forall|j: int|
                    0 <= j < self@.len() ==> #[trigger] self.is_picked(
                        j,
                        *point,
                        *within,
                        *near,
                        false,
                    ),
            },
    {
        let mut i: usize = self.data.len();
        while i > 0
            invariant
                are_tests(*within, *near),
                i <= self.data.len(),
                forall|j: int|
                    i <= j < self@.len() ==> #[trigger] self.is_picked(
                        j,
                        *point,
                        *within,
                        *near,
                        false,
                    ),
            decreases i,
        {
            i -= 1;
            let layer = &self.data[i];
            if layer.visible && geometry_hit(&layer.geometry, point, within, near) {
                let properties = layer.metadata.as_ref();
                proof {
                    assert(*layer == self@[i as int]);
                    assert(self.is_topmost_pick(i as int, *point, *within, *near));
                }
                return Some((layer, properties));
            }
        }
        None
    }

    /// Whether the index and the sequence agree, found out by looking: the
    /// index has as many records as there are layers, and each layer is
    /// recorded at its position, has an identifier that was handed out, and
    /// has the kind summary of its geometry.
    pub fn is_consistent(&self) -> (ok: bool)
        ensures
            ok == self.wf(),
    {
        if self.index.len() != self.data.len() {
            proof {
                if self.wf() {
                    lemma_recorded_ids(self@, self.positions(), self@.len() as int);
                    let ids = raw_ids(self@, self@.len() as int);
                    assert forall|k: u64| self.positions().dom().contains(k) implies ids.contains(
                        k,
                    ) by {
                        assert(self@[self.positions()[k] as int].id.0 == k);
                    }
                    assert(ids =~= self.positions().dom());
                }
            }
            return false;
        }
        let mut i: usize = 0;
        while i < self.data.len()
            invariant
                i <= self.data.len(),
                forall|j: int|
                    0 <= j < i ==> {
                        &&& self.positions().contains_key((#[trigger] self@[j]).id.0)
                        &&& self.positions()[self@[j].id.0] == j
                        &&& self@[j].id.0 < self.next_raw_id()
                        &&& self@[j].wf()
                    },
            decreases self.data.len() - i,
        {
            let layer = &self.data[i];
            let recorded = match self.index.get(&layer.id.0) {
                Some(position) => *position == i,
                None => false,
            };
            if !recorded || layer.id.0 >= self.next_id || geom_type_of(&layer.geometry).bits()
                != layer.geom_type.bits() {
                proof {
                    assert(self@[i as int] == *layer);
                }
                return false;
            }
            i += 1;
        }
        proof {
            lemma_recorded_ids(self@, self.positions(), self@.len() as int);
            let ids = raw_ids(self@, self@.len() as int);
            vstd::set_lib::lemma_subset_equality(ids, self.positions().dom());
            assert forall|k: u64| #[trigger]
                self.positions().contains_key(k) implies self.positions()[k] < self@.len()
                && self@[self.positions()[k] as int].id.0 == k by {
                assert(ids.contains(k));
                let j = choose|j: int| 0 <= j < self@.len() && (#[trigger] self@[j]).id.0 == k;
                assert(self.positions()[self@[j].id.0] == j);
            }
        }
        true
    }
}

/// In a well-formed registry the index says of an identifier exactly what
/// the sequence says: `id` is recorded at position `i` if and only if the
/// layer at position `i` is the layer `id`.
pub proof fn lemma_index_matches_sequence<T>(layers: Layers<T>, id: LayerId, i: int)
    requires
        layers.wf(),
    ensures
        layers.position_of(id) == Some(i) <==> 0 <= i < layers@.len() && layers@[i].id == id,
{
    if 0 <= i < layers@.len() && layers@[i].id == id {
        assert(layers.positions()[layers@[i].id.0] == i);
    }
    if layers.position_of(id) == Some(i) {
        assert(layers.positions().contains_key(id.0));
    }
}

/// In a well-formed registry no identifier stands at two positions.
pub proof fn lemma_ids_distinct<T>(layers: Layers<T>, i: int, j: int)
    requires
        layers.wf(),
        0 <= i < layers@.len(),
        0 <= j < layers@.len(),
        layers@[i].id == layers@[j].id,
    ensures
        i == j,
{
    assert(layers.positions()[layers@[i].id.0] == i);
    assert(layers.positions()[layers@[j].id.0] == j);
}

/// The sequence decides the index: two well-formed registries with the same
/// layers in the same order record the same positions.
pub proof fn lemma_sequence_decides_index<T>(a: Layers<T>, b: Layers<T>)
    requires
        a.wf(),
        b.wf(),
        a@ == b@,
    ensures
        a.positions() == b.positions(),
{
    assert forall|k: u64| a.positions().contains_key(k) <==> b.positions().contains_key(k) by {
        if a.positions().contains_key(k) {
            let i = a.positions()[k] as int;
            assert(b.positions().contains_key(b@[i].id.0));
        }
        if b.positions().contains_key(k) {
            let i = b.positions()[k] as int;
            assert(a.positions().contains_key(a@[i].id.0));
        }
    }
    assert forall|k: u64| a.positions().contains_key(k) implies a.positions()[k]
        == b.positions()[k] by {
        let i = a.positions()[k] as int;
        assert(b.positions()[b@[i].id.0] == i);
    }
    assert(a.positions() =~= b.positions());
}

/// Moving a layer up and then down again restores the registry, unless the
/// layer stands on top of at least one other: there the first move does
/// nothing and the second takes the layer down. Here `b` is what `move_layer`
/// makes of `a` for `Up`, and `c` what it makes of `b` for `Down`.
pub proof fn lemma_move_up_then_down<T>(a: Layers<T>, b: Layers<T>, c: Layers<T>, id: LayerId)
    requires
        a.wf(),
        b.wf(),
        c.wf(),
        b@ == moved(a@, a.position_of(id), MoveDirection::Up),
        c@ == moved(b@, b.position_of(id), MoveDirection::Down),
        a.position_of(id) == Some(a@.len() - 1) ==> a@.len() == 1,
    ensures
        c@ == a@,
        c.positions() == a.positions(),
{
    match a.position_of(id) {
        Some(i) => {
            lemma_index_matches_sequence(a, id, i);
            if i + 1 < a@.len() {
                lemma_index_matches_sequence(b, id, i + 1);
                assert(c@ =~= a@);
            } else {
                lemma_index_matches_sequence(b, id, i);
            }
        },
        None => {
            match b.position_of(id) {
                Some(j) => {
                    lemma_index_matches_sequence(b, id, j);
                    lemma_index_matches_sequence(a, id, j);
                },
                None => {},
            }
        },
    }
    lemma_sequence_decides_index(a, c);
}

/// Moving a layer down and then up again restores the registry, unless the
/// layer stands at the bottom below at least one other. Here `b` is what
/// `move_layer` makes of `a` for `Down`, and `c` what it makes of `b` for
/// `Up`.
pub proof fn lemma_move_down_then_up<T>(a: Layers<T>, b: Layers<T>, c: Layers<T>, id: LayerId)
    requires
        a.wf(),
        b.wf(),
        c.wf(),
        b@ == moved(a@, a.position_of(id), MoveDirection::Down),
        c@ == moved(b@, b.position_of(id), MoveDirection::Up),
        a.position_of(id) == Some(0int) ==> a@.len() == 1,
    ensures
        c@ == a@,
        c.positions() == a.positions(),
{
    match a.position_of(id) {
        Some(i) => {
            lemma_index_matches_sequence(a, id, i);
            if i >= 1 {
                lemma_index_matches_sequence(b, id, i - 1);
                assert(c@ =~= a@);
            } else {
                lemma_index_matches_sequence(b, id, i);
            }
        },
        None => {
            match b.position_of(id) {
                Some(j) => {
                    lemma_index_matches_sequence(b, id, j);
                    lemma_index_matches_sequence(a, id, j);
                },
                None => {},
            }
        },
    }
    lemma_sequence_decides_index(a, c);
}

/// A move towards a side where the layer has no neighbour changes nothing:
/// `Up` for the layer on top, `Down` for the layer at the bottom.
pub proof fn lemma_move_at_boundary<T>(layers: Layers<T>, id: LayerId)
    requires
        layers.wf(),
    ensures
        layers.position_of(id) == Some(layers@.len() - 1) ==> moved(
            layers@,
            layers.position_of(id),
            MoveDirection::Up,
        ) == layers@,
        layers.position_of(id) == Some(0int) ==> moved(
            layers@,
            layers.position_of(id),
            MoveDirection::Down,
        ) == layers@,
        layers.position_of(id) is None ==> moved(layers@, layers.position_of(id), MoveDirection::Up)
            == layers@ && moved(layers@, layers.position_of(id), MoveDirection::Down) == layers@,
{
}

/// After a layer at position `i` has left, a layer that stood below it is
/// found where it was, a layer that stood above it one position lower, and
/// the layer itself nowhere. Here `b` is what `remove` makes of `a`.
pub proof fn lemma_remove_shifts_down<T>(a: Layers<T>, b: Layers<T>, id: LayerId, other: LayerId)
    requires
        a.wf(),
        b.wf(),
        a.position_of(id) is Some,
        b@ == a@.remove(a.position_of(id)->0),
    ensures
        b@.len() == a@.len() - 1,
        b.position_of(id) is None,
        match a.position_of(other) {
            Some(j) => if j < a.position_of(id)->0 {
                b.position_of(other) == Some(j)
            } else if j > a.position_of(id)->0 {
                b.position_of(other) == Some(j - 1)
            } else {
                other == id
            },
            None => b.position_of(other) is None,
        },
{
    let i = a.position_of(id)->0;
    lemma_index_matches_sequence(a, id, i);
    match b.position_of(id) {
        Some(p) => {
            lemma_index_matches_sequence(b, id, p);
            let q = if p < i {
                p
            } else {
                p + 1
            };
            assert(b@[p] == a@[q]);
            lemma_ids_distinct(a, i, q);
        },
        None => {},
    }
    match a.position_of(other) {
        Some(j) => {
            lemma_index_matches_sequence(a, other, j);
            if j < i {
                assert(b@[j] == a@[j]);
                lemma_index_matches_sequence(b, other, j);
            } else if j > i {
                assert(b@[j - 1] == a@[j]);
                lemma_index_matches_sequence(b, other, j - 1);
            } else {
            }
        },
        None => {
            match b.position_of(other) {
                Some(p) => {
                    lemma_index_matches_sequence(b, other, p);
                    let q = if p < i {
                        p
                    } else {
                        p + 1
                    };
                    assert(b@[p] == a@[q]);
                    lemma_index_matches_sequence(a, other, q);
                },
                None => {},
            }
        },
    }
}

/// The identifier that the next new layer gets is not in use.
pub proof fn lemma_next_id_is_fresh<T>(layers: Layers<T>)
    requires
        layers.wf(),
    ensures
        layers.position_of(LayerId(layers.next_raw_id())) is None,
{
    match layers.position_of(LayerId(layers.next_raw_id())) {
        Some(i) => {
            lemma_index_matches_sequence(layers, LayerId(layers.next_raw_id()), i);
        },
        None => {},
    }
}

/// Of two visible layers that a point picks whatever the tests answer, the
/// upper one hides the lower: the topmost pick stands at least as high as
/// any visible layer that cannot be missed.
pub proof fn lemma_topmost_pick_is_above<T, W, N>(
    layers: Layers<T>,
    point: Coord<T>,
    within: W,
    near: N,
    i: int,
    j: int,
) where W: Fn(&Geometry<T>, &Coord<T>) -> bool, N: Fn(&Geometry<T>, &Coord<T>) -> bool
    requires
        layers.is_topmost_pick(i, point, within, near),
        0 <= j < layers@.len(),
        !layers.is_picked(j, point, within, near, false),
    ensures
        j <= i,
        layers@[j].visible,
{
}

/// A hidden layer is never picked: every answer about it is "missed".
pub proof fn lemma_hidden_layer_is_missed<T, W, N>(
    layers: Layers<T>,
    point: Coord<T>,
    within: W,
    near: N,
    i: int,
) where W: Fn(&Geometry<T>, &Coord<T>) -> bool, N: Fn(&Geometry<T>, &Coord<T>) -> bool
    requires
        0 <= i < layers@.len(),
        !layers@[i].visible,
    ensures
        layers.is_picked(i, point, within, near, false),
        !layers.is_picked(i, point, within, near, true),
        !layers.is_topmost_pick(i, point, within, near),
{
}

} // verus!
