//! The layer registry: every layer's record under its layer type, the
//! gerbers that wait for a role, the assignments of filenames to layer
//! types, and the freshness of the derived display coordinates.

use crate::clock::{clock_elapsed, clock_now, duration_nanos};
use crate::detector::{default_rules, spec_detect, LayerDetector};
use crate::display::{spec_quadrant_offset, spec_visibility_after_flip, DisplayManager};
use crate::geometry::Point;
use crate::layer::{placed_at, GerberGeometry, LayerInfo, LayerType, UnassignedGerber};
use crate::pairs::{
    lemma_filter_distinct, lemma_pairs_len, lemma_pairs_lookup, lemma_pairs_update, pairs_map,
};
use crate::table::{name_views, AssignmentTable, LayerTable};
use crate::transform::ViewTransformState;
use std::time::Instant;
use vstd::prelude::*;

verus! {

/// Nanoseconds after which the display coordinates count as stale even if
/// nobody marked them dirty: two seconds.
pub const STALENESS_THRESHOLD_NANOS: u128 = 2_000_000_000;

/// Manager of all layer state.
///
/// The layers are walked in the order in which their types were first
/// added. No layer type has two records and no filename two assignments.
#[derive(Debug)]
pub struct LayerManager {
    layers: LayerTable,
    active_layer: LayerType,
    layer_detector: LayerDetector,
    unassigned_gerbers: Vec<UnassignedGerber>,
    layer_assignments: AssignmentTable,
    coordinates_last_updated: Instant,
    coordinates_dirty: bool,
}

/// What a layer manager holds, as mathematical values.
pub struct LayerManagerView {
    /// The record of each layer present.
    pub layers: Map<LayerType, LayerInfo>,
    /// The layer types present, in the order in which they are walked.
    pub layer_order: Seq<LayerType>,
    /// The layer that is selected.
    pub active_layer: LayerType,
    /// The rule table of the detector.
    pub detector: Seq<(Seq<char>, LayerType)>,
    /// The gerbers that wait for a role, oldest first.
    pub unassigned: Seq<UnassignedGerber>,
    /// The layer type assigned to each filename.
    pub assignments: Map<Seq<char>, LayerType>,
    /// Whether the display coordinates are marked as out of date.
    pub coordinates_dirty: bool,
    /// The reading of the clock at which the display coordinates were last
    /// brought up to date.
    pub coordinates_last_updated: Instant,
}

/// The durable part of a layer manager: the active layer and the
/// assignments. Everything else is built afresh when a manager is made
/// from it.
#[derive(Debug)]
pub struct PersistedLayers {
    pub active_layer: LayerType,
    pub layer_assignments: Vec<(String, LayerType)>,
}

/// Counts of what a layer manager holds.
#[derive(Clone, Copy, Debug, PartialEq, Eq, Structural)]
pub struct LayerStatistics {
    pub total_layers: usize,
    pub visible_layers: usize,
    pub unassigned_gerbers: usize,
    pub assignments: usize,
}

/// The record of `layer_type` in `layers`, if there is one.
pub open spec fn spec_get_layer(layers: Map<LayerType, LayerInfo>, layer_type: LayerType) -> Option<
    LayerInfo,
> {
    if layers.contains_key(layer_type) {
        Some(layers[layer_type])
    } else {
        None
    }
}

/// The layer types of `layers` whose layer is visible.
pub open spec fn visible_types(layers: Map<LayerType, LayerInfo>) -> Set<LayerType> {
    Set::new(|t: LayerType| layers.contains_key(t) && layers[t].visible)
}

/// The test for a layer type's record in `layers` being visible.
pub open spec fn visibility_in(layers: Map<LayerType, LayerInfo>) -> spec_fn(LayerType) -> bool {
    |t: LayerType| layers[t].visible
}

/// The layer types of `order` whose layer is visible, in that order.
pub open spec fn visible_order(order: Seq<LayerType>, layers: Map<LayerType, LayerInfo>) -> Seq<
    LayerType,
> {
    order.filter(visibility_in(layers))
}

/// Which layer type a file called `name` is taken for: the one that the
/// name is assigned to, or else the one that the detector tells.
pub open spec fn spec_resolve(
    assignments: Map<Seq<char>, LayerType>,
    detector: Seq<(Seq<char>, LayerType)>,
    name: Seq<char>,
) -> Option<LayerType> {
    if assignments.contains_key(name) {
        Some(assignments[name])
    } else {
        spec_detect(detector, name)
    }
}

/// The record that imported geometry starts with: visible, nothing derived
/// yet.
pub open spec fn imported_record(geometry: GerberGeometry) -> LayerInfo {
    LayerInfo { geometry: Some(geometry), visible: true, bounding_box: None, coordinates: None }
}

/// `order` with `layer_type` behind it unless it is a key of `layers`.
pub open spec fn order_with(
    order: Seq<LayerType>,
    layers: Map<LayerType, LayerInfo>,
    layer_type: LayerType,
) -> Seq<LayerType> {
    if layers.contains_key(layer_type) {
        order
    } else {
        order.push(layer_type)
    }
}

/// The centre of the geometry of the mechanical outline, where there is
/// one.
pub open spec fn spec_outline_centroid(layers: Map<LayerType, LayerInfo>) -> Option<(i64, i64)> {
    match spec_get_layer(layers, LayerType::MechanicalOutline) {
        Some(info) => match info.geometry {
            Some(g) => Some((g.bounding_box.spec_center().x, g.bounding_box.spec_center().y)),
            None => None,
        },
        None => None,
    }
}

/// Whether entry `i` of `unassigned` is the first that came from the file
/// called `name`.
pub open spec fn is_first_waiting(unassigned: Seq<UnassignedGerber>, name: Seq<char>, i: int) -> bool {
    &&& 0 <= i < unassigned.len()
    &&& unassigned[i].filename@ == name
    &&& forall|j: int| 0 <= j < i ==> (#[trigger] unassigned[j]).filename@ != name
}

/// The index of the first gerber of `unassigned` that came from the file
/// called `name`, if one did.
pub open spec fn first_waiting(unassigned: Seq<UnassignedGerber>, name: Seq<char>) -> Option<int> {
    if exists|i: int| is_first_waiting(unassigned, name, i) {
        Some(choose|i: int| is_first_waiting(unassigned, name, i))
    } else {
        None
    }
}

/// The first waiting gerber of a name is unique.
pub proof fn lemma_first_waiting(unassigned: Seq<UnassignedGerber>, name: Seq<char>, i: int)
    requires
        is_first_waiting(unassigned, name, i),
    ensures
        first_waiting(unassigned, name) == Some(i),
{
    let j = choose|j: int| is_first_waiting(unassigned, name, j);
    if j < i {
        assert(unassigned[j].filename@ != name);
    } else if i < j {
        assert(unassigned[i].filename@ != name);
    }
}

/// Whether some filename is assigned to `layer_type`.
pub open spec fn is_assigned(assignments: Map<Seq<char>, LayerType>, layer_type: LayerType) -> bool {
    exists|name: Seq<char>| #[trigger]
        assignments.contains_key(name) && assignments[name] == layer_type
}

/// `layers` with the visibility of `layer_type` set to `visible`, if the
/// layer is present.
pub open spec fn with_visibility(
    layers: Map<LayerType, LayerInfo>,
    layer_type: LayerType,
    visible: bool,
) -> Map<LayerType, LayerInfo> {
    if layers.contains_key(layer_type) {
        layers.insert(layer_type, LayerInfo { visible, ..layers[layer_type] })
    } else {
        layers
    }
}

/// `layers` with the visibility of `layer_type` turned over, if the layer
/// is present.
pub open spec fn with_toggled_visibility(
    layers: Map<LayerType, LayerInfo>,
    layer_type: LayerType,
) -> Map<LayerType, LayerInfo> {
    if layers.contains_key(layer_type) {
        layers.insert(
            layer_type,
            LayerInfo { visible: !layers[layer_type].visible, ..layers[layer_type] },
        )
    } else {
        layers
    }
}

/// The assignments that a list of entries makes when they are made one
/// after another: a later entry for a filename replaces an earlier one.
pub open spec fn assignments_of(entries: Seq<(String, LayerType)>) -> Map<Seq<char>, LayerType>
    decreases entries.len(),
{
    if entries.len() == 0 {
        Map::empty()
    } else {
        assignments_of(entries.drop_last()).insert(entries.last().0@, entries.last().1)
    }
}

/// `layers` with every record placed where the view `state` puts layers
/// of its type.
pub open spec fn positioned(layers: Map<LayerType, LayerInfo>, state: ViewTransformState) -> Map<
    LayerType,
    LayerInfo,
> {
    Map::new(
        |t: LayerType| layers.contains_key(t),
        |t: LayerType| placed_at(layers[t], spec_quadrant_offset(state, t)),
    )
}

/// `layers` with every record placed where its geometry lies.
pub open spec fn initialized(layers: Map<LayerType, LayerInfo>) -> Map<LayerType, LayerInfo> {
    Map::new(
        |t: LayerType| layers.contains_key(t),
        |t: LayerType| placed_at(layers[t], Point { x: 0, y: 0 }),
    )
}

/// `layers` after the board was flipped to the face given by
/// `showing_top`.
pub open spec fn flipped(layers: Map<LayerType, LayerInfo>, showing_top: bool) -> Map<
    LayerType,
    LayerInfo,
> {
    Map::new(
        |t: LayerType| layers.contains_key(t),
        |t: LayerType|
            LayerInfo {
                visible: spec_visibility_after_flip(t, showing_top, layers[t].visible),
                ..layers[t]
            },
    )
}

/// Whether coordinates need an update when `elapsed_nanos` nanoseconds have
/// gone by since the last one: when they are dirty, or stale.
pub open spec fn spec_needs_update(dirty: bool, elapsed_nanos: u128) -> bool {
    dirty || elapsed_nanos > STALENESS_THRESHOLD_NANOS
}

/// After a record was added under a layer type, that layer type has
/// exactly this record, whatever it had before; every other layer type has
/// what it had.
pub proof fn lemma_get_after_add(
    layers: Map<LayerType, LayerInfo>,
    layer_type: LayerType,
    info: LayerInfo,
    other: LayerType,
)
    ensures
        spec_get_layer(layers.insert(layer_type, info), layer_type) == Some(info),
        other != layer_type ==> spec_get_layer(layers.insert(layer_type, info), other)
            == spec_get_layer(layers, other),
{
}

/// After a layer type was removed it has no record; every other layer type
/// has what it had.
pub proof fn lemma_get_after_remove(
    layers: Map<LayerType, LayerInfo>,
    layer_type: LayerType,
    other: LayerType,
)
    ensures
        spec_get_layer(layers.remove(layer_type), layer_type).is_none(),
        other != layer_type ==> spec_get_layer(layers.remove(layer_type), other) == spec_get_layer(
            layers,
            other,
        ),
{
}

/// Dirty coordinates need an update however little time has gone by, and
/// clean coordinates need none until more than the threshold has.
pub proof fn lemma_freshness(elapsed_nanos: u128)
    ensures
        spec_needs_update(true, elapsed_nanos),
        !spec_needs_update(false, elapsed_nanos) <==> elapsed_nanos <= STALENESS_THRESHOLD_NANOS,
        !spec_needs_update(false, 0),
{
}

impl View for LayerManager {
    type V = LayerManagerView;

    closed spec fn view(&self) -> LayerManagerView {
        LayerManagerView {
            layers: self.layers.map(),
            layer_order: self.layers.types@,
            active_layer: self.active_layer,
            detector: self.layer_detector@,
            unassigned: self.unassigned_gerbers@,
            assignments: self.layer_assignments.map(),
            coordinates_dirty: self.coordinates_dirty,
            coordinates_last_updated: self.coordinates_last_updated,
        }
    }
}

impl LayerManager {
    #[verifier::type_invariant]
    spec fn well_formed(&self) -> bool {
        self.layers.wf() && self.layer_assignments.wf()
    }

    /// The reading of the clock at which the display coordinates were last
    /// brought up to date.
    pub open spec fn last_updated(&self) -> Instant {
        self@.coordinates_last_updated
    }

    /// A new manager whose coordinates are clean as of the clock reading
    /// `now`: no layers, the top copper layer active, the built-in
    /// detector, nothing unassigned, nothing assigned.
    pub fn new_at(now: Instant) -> (manager: LayerManager)
        ensures
            manager@ == (LayerManagerView {
                layers: Map::empty(),
                layer_order: Seq::empty(),
                active_layer: LayerType::Copper(1),
                detector: default_rules(),
                unassigned: Seq::empty(),
                assignments: Map::empty(),
                coordinates_dirty: false,
                coordinates_last_updated: now,
            }),
    {
        LayerManager {
            layers: LayerTable::new(),
            active_layer: LayerType::Copper(1),
            layer_detector: LayerDetector::new(),
            unassigned_gerbers: Vec::new(),
            layer_assignments: AssignmentTable::new(),
            coordinates_last_updated: now,
            coordinates_dirty: false,
        }
    }

    /// Create a new LayerManager with default settings: no layers, the top
    /// copper layer active, the built-in detector, nothing unassigned,
    /// nothing assigned, coordinates clean as of what the clock reads now.
    pub fn new() -> (manager: LayerManager)
        ensures
            manager@ == (LayerManagerView {
                layers: Map::empty(),
                layer_order: Seq::empty(),
                active_layer: LayerType::Copper(1),
                detector: default_rules(),
                unassigned: Seq::empty(),
                assignments: Map::empty(),
                coordinates_dirty: false,
                coordinates_last_updated: manager.last_updated(),
            }),
    {
        LayerManager::new_at(clock_now())
    }

    /// Add or update a layer: the record stands under the layer type
    /// afterwards, in place of any record that stood there. A layer type
    /// that is new comes last in the order.
    pub fn add_layer(&mut self, layer_type: LayerType, layer_info: LayerInfo)
        ensures
            final(self)@ == (LayerManagerView {
                layers: old(self)@.layers.insert(layer_type, layer_info),
                layer_order: if old(self)@.layers.contains_key(layer_type) {
                    old(self)@.layer_order
                } else {
                    old(self)@.layer_order.push(layer_type)
                },
                ..old(self)@
            }),
    {
        proof {
            use_type_invariant(&*self);
        }
        let mut layers = LayerTable::new();
        core::mem::swap(&mut self.layers, &mut layers);
        layers.put(layer_type, layer_info);
        self.layers = layers;
    }

    /// Remove a layer. Gives the record that stood under the layer type,
    /// or `None` if there was none; afterwards there is none.
    pub fn remove_layer(&mut self, layer_type: &LayerType) -> (removed: Option<LayerInfo>)
        ensures
            removed == spec_get_layer(old(self)@.layers, *layer_type),
            final(self)@ == (LayerManagerView {
                layers: old(self)@.layers.remove(*layer_type),
                layer_order: if old(self)@.layers.contains_key(*layer_type) {
                    old(self)@.layer_order.remove(old(self)@.layer_order.index_of(*layer_type))
                } else {
                    old(self)@.layer_order
                },
                ..old(self)@
            }),
    {
        proof {
            use_type_invariant(&*self);
        }
        let mut layers = LayerTable::new();
        core::mem::swap(&mut self.layers, &mut layers);
        let removed = layers.take(layer_type);
        self.layers = layers;
        removed
    }

    /// Get a layer by type: its record, or `None` if the layer type has
    /// none.
    pub fn get_layer(&self, layer_type: &LayerType) -> (found: Option<&LayerInfo>)
        ensures
            match found {
                Some(info) => spec_get_layer(self@.layers, *layer_type) == Some(*info),
                None => spec_get_layer(self@.layers, *layer_type).is_none(),
            },
    {
        proof {
            use_type_invariant(self);
        }
        match self.layers.find(layer_type) {
            Some(i) => Some(&self.layers.infos[i]),
            None => None,
        }
    }

    /// Get a mutable reference to a layer by type. Whatever the caller
    /// writes through it becomes the record of the layer type; nothing else
    /// changes.
    pub fn get_layer_mut(&mut self, layer_type: &LayerType) -> (found: Option<&mut LayerInfo>)
        ensures
            match found {
                Some(info) => spec_get_layer(old(self)@.layers, *layer_type) == Some(*info)
                    && final(self)@ == (LayerManagerView {
                    layers: old(self)@.layers.insert(*layer_type, *final(info)),
                    ..old(self)@
                }),
                None => spec_get_layer(old(self)@.layers, *layer_type).is_none() && final(self)@
                    == old(self)@,
            },
    {
        proof {
            use_type_invariant(&*self);
        }
        match self.layers.find(layer_type) {
            Some(i) => {
                let ghost types = self.layers.types@;
                let ghost infos = self.layers.infos@;
                let slot = &mut self.layers.infos[i];
                proof {
                    lemma_pairs_update(types, infos, i as int, *final(slot));
                }
                Some(slot)
            },
            None => None,
        }
    }

    /// Set the active layer.
    pub fn set_active_layer(&mut self, layer_type: LayerType)
        ensures
            final(self)@ == (LayerManagerView { active_layer: layer_type, ..old(self)@ }),
    {
        proof {
            use_type_invariant(&*self);
        }
        self.active_layer = layer_type;
    }

    /// Get the active layer.
    pub fn get_active_layer(&self) -> (active: LayerType)
        ensures
            active == self@.active_layer,
    {
        self.active_layer
    }

    /// Clear all layers and assignments, and the unassigned gerbers with
    /// them. The active layer, the detector and the freshness stay.
    pub fn clear_all(&mut self)
        ensures
            final(self)@ == (LayerManagerView {
                layers: Map::empty(),
                layer_order: Seq::empty(),
                unassigned: Seq::empty(),
                assignments: Map::empty(),
                ..old(self)@
            }),
    {
        proof {
            use_type_invariant(&*self);
        }
        self.layers = LayerTable::new();
        self.unassigned_gerbers = Vec::new();
        self.layer_assignments = AssignmentTable::new();
    }

    /// Add an unassigned gerber file, behind those that wait already.
    pub fn add_unassigned_gerber(&mut self, gerber: UnassignedGerber)
        ensures
            final(self)@ == (LayerManagerView {
                unassigned: old(self)@.unassigned.push(gerber),
                ..old(self)@
            }),
    {
        proof {
            use_type_invariant(&*self);
        }
        let mut waiting: Vec<UnassignedGerber> = Vec::new();
        core::mem::swap(&mut self.unassigned_gerbers, &mut waiting);
        waiting.push(gerber);
        self.unassigned_gerbers = waiting;
    }

    /// Remove an unassigned gerber by index. An index past the end removes
    /// nothing and gives `None`.
    pub fn remove_unassigned_gerber(&mut self, index: usize) -> (removed: Option<UnassignedGerber>)
        ensures
            index < old(self)@.unassigned.len() ==> removed == Some(
                old(self)@.unassigned[index as int],
            ) && final(self)@ == (LayerManagerView {
                unassigned: old(self)@.unassigned.remove(index as int),
                ..old(self)@
            }),
            index >= old(self)@.unassigned.len() ==> removed.is_none() && final(self)@ == old(
                self,
            )@,
    {
        proof {
            use_type_invariant(&*self);
        }
        if index < self.unassigned_gerbers.len() {
            let mut waiting: Vec<UnassignedGerber> = Vec::new();
            core::mem::swap(&mut self.unassigned_gerbers, &mut waiting);
            let gerber = waiting.remove(index);
            self.unassigned_gerbers = waiting;
            Some(gerber)
        } else {
            None
        }
    }

    fn record_assignment(&mut self, filename: String, layer_type: LayerType)
        ensures
            final(self)@ == (LayerManagerView {
                assignments: old(self)@.assignments.insert(filename@, layer_type),
                ..old(self)@
            }),
    {
        proof {
            use_type_invariant(&*self);
        }
        let mut assignments = AssignmentTable::new();
        core::mem::swap(&mut self.layer_assignments, &mut assignments);
        assignments.put(filename, layer_type);
        self.layer_assignments = assignments;
    }

    /// The index of the first unassigned gerber that came from the file
    /// called `filename`, or `None` if none waits under that name.
    pub fn waiting_index(&self, filename: &str) -> (found: Option<usize>)
        ensures
            match found {
                Some(i) => first_waiting(self@.unassigned, filename@) == Some(i as int),
                None => first_waiting(self@.unassigned, filename@).is_none(),
            },
    {
        let wanted: String = filename.to_owned();
        let mut i: usize = 0;
        while i < self.unassigned_gerbers.len()
            invariant
                i <= self.unassigned_gerbers@.len(),
                wanted@ == filename@,
                forall|j: int|
                    0 <= j < i ==> (#[trigger] self.unassigned_gerbers@[j]).filename@ != filename@,
            decreases self.unassigned_gerbers.len() - i,
        {
            if self.unassigned_gerbers[i].filename == wanted {
                proof {
                    lemma_first_waiting(self.unassigned_gerbers@, filename@, i as int);
                }
                return Some(i);
            }
            i = i + 1;
        }
        proof {
            if exists|k: int| is_first_waiting(self.unassigned_gerbers@, filename@, k) {
                let k = choose|k: int| is_first_waiting(self.unassigned_gerbers@, filename@, k);
                assert(self.unassigned_gerbers@[k].filename@ != filename@);
            }
        }
        None
    }

    /// Assign a layer manually: `filename` is assigned to `layer_type`
    /// afterwards, and to nothing else. Where a gerber of that filename
    /// waits in the unassigned list, the first such gerber leaves the list,
    /// its geometry becomes the visible layer of `layer_type` in place of
    /// any layer that had it, and the coordinates are marked dirty.
    pub fn assign_layer(&mut self, filename: String, layer_type: LayerType)
        ensures
            match first_waiting(old(self)@.unassigned, filename@) {
                Some(i) => final(self)@ == (LayerManagerView {
                    layers: old(self)@.layers.insert(
                        layer_type,
                        imported_record(old(self)@.unassigned[i].geometry),
                    ),
                    layer_order: order_with(old(self)@.layer_order, old(self)@.layers, layer_type),
                    unassigned: old(self)@.unassigned.remove(i),
                    assignments: old(self)@.assignments.insert(filename@, layer_type),
                    coordinates_dirty: true,
                    ..old(self)@
                }),
                None => final(self)@ == (LayerManagerView {
                    assignments: old(self)@.assignments.insert(filename@, layer_type),
                    ..old(self)@
                }),
            },
    {
        match self.waiting_index(filename.as_str()) {
            Some(i) => {
                self.promote_unassigned(i, layer_type);
            },
            None => {
                self.record_assignment(filename, layer_type);
            },
        }
    }

    /// Remove a layer assignment. Gives the layer type that `filename` was
    /// assigned to, or `None` if it was assigned to none.
    pub fn remove_assignment(&mut self, filename: &str) -> (removed: Option<LayerType>)
        ensures
            removed == (if old(self)@.assignments.contains_key(filename@) {
                Some(old(self)@.assignments[filename@])
            } else {
                None
            }),
            final(self)@ == (LayerManagerView {
                assignments: old(self)@.assignments.remove(filename@),
                ..old(self)@
            }),
    {
        proof {
            use_type_invariant(&*self);
        }
        let mut assignments = AssignmentTable::new();
        core::mem::swap(&mut self.layer_assignments, &mut assignments);
        let removed = assignments.take(filename);
        self.layer_assignments = assignments;
        removed
    }

    /// Get the assignment for a filename, or `None` if it has none.
    pub fn get_assignment(&self, filename: &str) -> (found: Option<&LayerType>)
        ensures
            match found {
                Some(t) => self@.assignments.contains_key(filename@) && self@.assignments[filename@]
                    == *t,
                None => !self@.assignments.contains_key(filename@),
            },
    {
        proof {
            use_type_invariant(self);
        }
        match self.layer_assignments.find(filename) {
            Some(i) => Some(&self.layer_assignments.types[i]),
            None => None,
        }
    }

    /// Check if a layer type is already assigned, to any filename.
    pub fn is_layer_assigned(&self, layer_type: &LayerType) -> (assigned: bool)
        ensures
            assigned == is_assigned(self@.assignments, *layer_type),
    {
        proof {
            use_type_invariant(self);
        }
        let ghost names = name_views(self.layer_assignments.names@);
        let ghost types = self.layer_assignments.types@;
        let mut i: usize = 0;
        while i < self.layer_assignments.types.len()
            invariant
                self.layer_assignments.wf(),
                names == name_views(self.layer_assignments.names@),
                types == self.layer_assignments.types@,
                i <= types.len(),
                forall|j: int| 0 <= j < i ==> types[j] != *layer_type,
            decreases self.layer_assignments.types.len() - i,
        {
            if self.layer_assignments.types[i] == *layer_type {
                proof {
                    lemma_pairs_lookup(names, types, i as int);
                }
                return true;
            }
            i = i + 1;
        }
        proof {
            if is_assigned(self@.assignments, *layer_type) {
                let name = choose|name: Seq<char>| #[trigger]
                    self@.assignments.contains_key(name) && self@.assignments[name] == *layer_type;
                let j = names.index_of(name);
                lemma_pairs_lookup(names, types, j);
            }
        }
        false
    }

    /// The layer types present, in the order in which the manager walks
    /// them. Each stands once, and they are exactly the layer types that
    /// have a record.
    pub fn layer_types(&self) -> (types: Vec<LayerType>)
        ensures
            types@ == self@.layer_order,
            types@.no_duplicates(),
            forall|t: LayerType| #[trigger] types@.contains(t) <==> self@.layers.contains_key(t),
    {
        proof {
            use_type_invariant(self);
        }
        let mut types: Vec<LayerType> = Vec::new();
        let mut i: usize = 0;
        while i < self.layers.types.len()
            invariant
                i <= self.layers.types@.len(),
                types@ == self.layers.types@.take(i as int),
            decreases self.layers.types.len() - i,
        {
            types.push(self.layers.types[i]);
            assert(self.layers.types@.take(i as int).push(self.layers.types@[i as int])
                =~= self.layers.types@.take(i + 1));
            i = i + 1;
        }
        assert(self.layers.types@.take(i as int) =~= self.layers.types@);
        types
    }

    /// Get all visible layers, each with its record, in the order in which
    /// the manager walks its layers.
    pub fn get_visible_layers(&self) -> (visible: Vec<(&LayerType, &LayerInfo)>)
        ensures
            visible@.len() == visible_order(self@.layer_order, self@.layers).len(),
            forall|k: int|
                0 <= k < visible@.len() ==> *(#[trigger] visible@[k]).0 == visible_order(
                    self@.layer_order,
                    self@.layers,
                )[k] && *visible@[k].1 == self@.layers[*visible@[k].0],
            visible@.len() == visible_types(self@.layers).len(),
            visible_order(self@.layer_order, self@.layers).no_duplicates(),
            forall|t: LayerType| #[trigger]
                visible_order(self@.layer_order, self@.layers).contains(t) <==> visible_types(
                    self@.layers,
                ).contains(t),
    {
        proof {
            use_type_invariant(self);
        }
        let ghost order = self.layers.types@;
        let ghost layers = self.layers.map();
        let mut visible: Vec<(&LayerType, &LayerInfo)> = Vec::new();
        let mut i: usize = 0;
        assert(visible_order(order.take(0), layers).len() == 0) by {
            reveal(Seq::filter);
        }
        while i < self.layers.types.len()
            invariant
                self.layers.wf(),
                order == self.layers.types@,
                layers == self.layers.map(),
                i <= order.len(),
                visible@.len() == visible_order(order.take(i as int), layers).len(),
                forall|k: int|
                    0 <= k < visible@.len() ==> *(#[trigger] visible@[k]).0 == visible_order(
                        order.take(i as int),
                        layers,
                    )[k] && *visible@[k].1 == layers[*visible@[k].0],
            decreases self.layers.types.len() - i,
        {
            proof {
                lemma_pairs_lookup(order, self.layers.infos@, i as int);
                reveal(Seq::filter);
                assert(order.take(i + 1).drop_last() =~= order.take(i as int));
                assert(order.take(i + 1).last() == order[i as int]);
            }
            if self.layers.infos[i].visible {
                visible.push((&self.layers.types[i], &self.layers.infos[i]));
            }
            i = i + 1;
        }
        proof {
            assert(order.take(i as int) =~= order);
            lemma_filter_distinct(order, visibility_in(layers));
            lemma_pairs_len(order, self.layers.infos@);
            assert(visible_types(layers) =~= Set::new(
                |k: LayerType| order.contains(k) && visibility_in(layers)(k),
            ));
        }
        visible
    }

    /// Toggle layer visibility. A layer type without a record changes
    /// nothing.
    pub fn toggle_layer_visibility(&mut self, layer_type: &LayerType)
        ensures
            final(self)@ == (LayerManagerView {
                layers: with_toggled_visibility(old(self)@.layers, *layer_type),
                ..old(self)@
            }),
    {
        proof {
            use_type_invariant(&*self);
        }
        let mut layers = LayerTable::new();
        core::mem::swap(&mut self.layers, &mut layers);
        match layers.find(layer_type) {
            Some(i) => {
                let info: LayerInfo = layers.infos[i];
                layers.put(*layer_type, LayerInfo { visible: !info.visible, ..info });
            },
            None => {},
        }
        self.layers = layers;
    }

    /// Set layer visibility. A layer type without a record changes
    /// nothing.
    pub fn set_layer_visibility(&mut self, layer_type: &LayerType, visible: bool)
        ensures
            final(self)@ == (LayerManagerView {
                layers: with_visibility(old(self)@.layers, *layer_type, visible),
                ..old(self)@
            }),
    {
        proof {
            use_type_invariant(&*self);
        }
        let mut layers = LayerTable::new();
        core::mem::swap(&mut self.layers, &mut layers);
        match layers.find(layer_type) {
            Some(i) => {
                let info: LayerInfo = layers.infos[i];
                layers.put(*layer_type, LayerInfo { visible, ..info });
            },
            None => {},
        }
        self.layers = layers;
    }

    /// Get the number of loaded layers.
    pub fn layer_count(&self) -> (count: usize)
        ensures
            count == self@.layers.dom().len(),
            count == self@.layer_order.len(),
    {
        proof {
            use_type_invariant(self);
            lemma_pairs_len(self.layers.types@, self.layers.infos@);
        }
        self.layers.types.len()
    }

    /// Get the number of unassigned gerbers.
    pub fn unassigned_count(&self) -> (count: usize)
        ensures
            count == self@.unassigned.len(),
    {
        self.unassigned_gerbers.len()
    }

    /// Get the number of filenames that have an assignment.
    pub fn assignment_count(&self) -> (count: usize)
        ensures
            count == self@.assignments.dom().len(),
    {
        proof {
            use_type_invariant(self);
            lemma_pairs_len(name_views(self.layer_assignments.names@), self.layer_assignments.types@);
        }
        self.layer_assignments.types.len()
    }

    /// The unassigned gerber at `index`, or `None` past the end.
    pub fn get_unassigned_gerber(&self, index: usize) -> (found: Option<&UnassignedGerber>)
        ensures
            match found {
                Some(g) => index < self@.unassigned.len() && *g == self@.unassigned[index as int],
                None => index >= self@.unassigned.len(),
            },
    {
        if index < self.unassigned_gerbers.len() {
            Some(&self.unassigned_gerbers[index])
        } else {
            None
        }
    }

    /// Get layer statistics: how many layers there are, how many of them
    /// are visible, how many gerbers wait for a role, and how many
    /// filenames are assigned.
    pub fn get_statistics(&self) -> (stats: LayerStatistics)
        ensures
            stats.total_layers == self@.layers.dom().len(),
            stats.visible_layers == visible_types(self@.layers).len(),
            stats.unassigned_gerbers == self@.unassigned.len(),
            stats.assignments == self@.assignments.dom().len(),
    {
        LayerStatistics {
            total_layers: self.layer_count(),
            visible_layers: self.get_visible_layers().len(),
            unassigned_gerbers: self.unassigned_count(),
            assignments: self.assignment_count(),
        }
    }

    /// Auto-detect layer type for a filename, by the manager's detector.
    pub fn detect_layer_type(&self, filename: &str) -> (detected: Option<LayerType>)
        ensures
            detected == spec_detect(self@.detector, filename@),
    {
        self.layer_detector.detect_layer_type(filename)
    }

    /// Whether the manager holds coordinates that are marked dirty.
    pub fn is_dirty(&self) -> (dirty: bool)
        ensures
            dirty == self@.coordinates_dirty,
    {
        self.coordinates_dirty
    }

    /// Places every layer where the view `state` puts layers of its type.
    /// The freshness is left as it is.
    pub fn apply_positions(&mut self, state: &ViewTransformState)
        ensures
            final(self)@ == (LayerManagerView {
                layers: positioned(old(self)@.layers, *state),
                ..old(self)@
            }),
    {
        proof {
            use_type_invariant(&*self);
        }
        let mut layers = LayerTable::new();
        core::mem::swap(&mut self.layers, &mut layers);
        let ghost types = layers.types@;
        let ghost before = layers.infos@;
        layers.place_each(state);
        proof {
            let after = layers.infos@;
            assert forall|t: LayerType| #[trigger] types.contains(t) implies pairs_map(types, after)[t]
                == placed_at(pairs_map(types, before)[t], spec_quadrant_offset(*state, t)) by {
                let j = types.index_of(t);
                lemma_pairs_lookup(types, before, j);
                lemma_pairs_lookup(types, after, j);
            }
            assert(layers.map() =~= positioned(pairs_map(types, before), *state));
        }
        self.layers = layers;
    }

    /// Places every layer where its geometry lies, and marks the
    /// coordinates clean as of the clock reading `now`.
    pub fn initialize_all_coordinates_at(&mut self, now: Instant)
        ensures
            final(self)@ == (LayerManagerView {
                layers: initialized(old(self)@.layers),
                coordinates_dirty: false,
                coordinates_last_updated: now,
                ..old(self)@
            }),
    {
        let unplaced = ViewTransformState::new();
        self.apply_positions(&unplaced);
        assert(positioned(old(self)@.layers, unplaced) =~= initialized(old(self)@.layers));
        self.mark_coordinates_updated_at(now);
    }

    /// Initialize all layer coordinates from their gerber data: every
    /// layer is placed where its geometry lies, and the coordinates are
    /// clean as of what the clock reads now.
    pub fn initialize_all_coordinates(&mut self)
        ensures
            final(self)@ == (LayerManagerView {
                layers: initialized(old(self)@.layers),
                coordinates_dirty: false,
                coordinates_last_updated: final(self).last_updated(),
                ..old(self)@
            }),
    {
        self.initialize_all_coordinates_at(clock_now());
    }

    /// Mark coordinates as needing update. Doing so twice is the same as
    /// doing so once.
    pub fn mark_coordinates_dirty(&mut self)
        ensures
            final(self)@ == (LayerManagerView { coordinates_dirty: true, ..old(self)@ }),
    {
        proof {
            use_type_invariant(&*self);
        }
        self.coordinates_dirty = true;
    }

    /// Marks the coordinates as updated at the clock reading `now`: the
    /// flag is cleared and the time is stamped, both in this one step.
    pub fn mark_coordinates_updated_at(&mut self, now: Instant)
        ensures
            final(self)@ == (LayerManagerView {
                coordinates_dirty: false,
                coordinates_last_updated: now,
                ..old(self)@
            }),
            final(self).last_updated() == now,
    {
        proof {
            use_type_invariant(&*self);
        }
        self.coordinates_dirty = false;
        self.coordinates_last_updated = now;
    }

    /// Mark coordinates as updated: clean, as of what the clock reads now.
    pub fn mark_coordinates_updated(&mut self)
        ensures
            final(self)@ == (LayerManagerView {
                coordinates_dirty: false,
                coordinates_last_updated: final(self).last_updated(),
                ..old(self)@
            }),
    {
        self.mark_coordinates_updated_at(clock_now());
    }

    /// Whether coordinates need updating when `elapsed_nanos` nanoseconds
    /// have gone by since they were last updated.
    pub fn needs_update_after(&self, elapsed_nanos: u128) -> (needed: bool)
        ensures
            needed == spec_needs_update(self@.coordinates_dirty, elapsed_nanos),
    {
        self.coordinates_dirty || elapsed_nanos > STALENESS_THRESHOLD_NANOS
    }

    /// Check if coordinates need updating (based on time or dirty flag).
    /// Dirty coordinates always do. Clean ones do once the clock says that
    /// more than the threshold has gone by since the stored time of the
    /// last update; of that the contract says nothing, as it is the
    /// clock's to tell.
    pub fn coordinates_need_update(&self) -> (needed: bool)
        ensures
            self@.coordinates_dirty ==> needed,
    {
        let elapsed = clock_elapsed(&self.coordinates_last_updated);
        let elapsed_nanos: u128 = duration_nanos(&elapsed);
        self.needs_update_after(elapsed_nanos)
    }

    /// Updates the coordinates from the display settings if `needed`:
    /// places every layer, clears the flag and stamps the clock reading
    /// `now`. Otherwise nothing changes, the stored time included.
    pub fn update_coordinates_when(
        &mut self,
        display_manager: &DisplayManager,
        needed: bool,
        now: Instant,
    )
        ensures
            needed ==> final(self)@ == (LayerManagerView {
                layers: positioned(old(self)@.layers, display_manager.view),
                coordinates_dirty: false,
                coordinates_last_updated: now,
                ..old(self)@
            }),
            !needed ==> final(self)@ == old(self)@,
    {
        if !needed {
            return ;
        }
        self.apply_positions(&display_manager.view);
        self.mark_coordinates_updated_at(now);
    }

    /// Update layer coordinates based on current view and display settings.
    /// This should be called when gerber view positions change. Nothing
    /// happens unless the coordinates need an update; dirty coordinates
    /// always get one.
    pub fn update_coordinates_from_display(&mut self, display_manager: &DisplayManager)
        ensures
            final(self)@ == old(self)@ || final(self)@ == (LayerManagerView {
                layers: positioned(old(self)@.layers, display_manager.view),
                coordinates_dirty: false,
                coordinates_last_updated: final(self).last_updated(),
                ..old(self)@
            }),
            old(self)@.coordinates_dirty ==> final(self)@ == (LayerManagerView {
                layers: positioned(old(self)@.layers, display_manager.view),
                coordinates_dirty: false,
                coordinates_last_updated: final(self).last_updated(),
                ..old(self)@
            }),
            !final(self)@.coordinates_dirty,
    {
        let needed = self.coordinates_need_update();
        if needed {
            self.update_coordinates_when(display_manager, true, clock_now());
        }
    }

    /// Calculate the mechanical outline centroid for design offset
    /// calculation: the centre of the outline's geometry, or `None` where
    /// there is no outline or it has no geometry.
    pub fn get_mechanical_outline_centroid(&self) -> (centroid: Option<(i64, i64)>)
        ensures
            centroid == spec_outline_centroid(self@.layers),
    {
        match self.get_layer(&LayerType::MechanicalOutline) {
            Some(info) => match info.geometry {
                Some(g) => {
                    let c = g.bounding_box.center();
                    Some((c.x, c.y))
                },
                None => None,
            },
            None => None,
        }
    }

    /// Sets every layer's visibility to what it is after the board was
    /// flipped to the face given by `showing_top`, and marks the coordinates
    /// dirty.
    pub fn apply_flip(&mut self, showing_top: bool)
        ensures
            final(self)@ == (LayerManagerView {
                layers: flipped(old(self)@.layers, showing_top),
                coordinates_dirty: true,
                ..old(self)@
            }),
    {
        proof {
            use_type_invariant(&*self);
        }
        let mut layers = LayerTable::new();
        core::mem::swap(&mut self.layers, &mut layers);
        let ghost types = layers.types@;
        let ghost before = layers.infos@;
        layers.flip_each(showing_top);
        proof {
            let after = layers.infos@;
            assert forall|t: LayerType| #[trigger] types.contains(t) implies pairs_map(types, after)[t]
                == (LayerInfo {
                visible: spec_visibility_after_flip(
                    t,
                    showing_top,
                    pairs_map(types, before)[t].visible,
                ),
                ..pairs_map(types, before)[t]
            }) by {
                let j = types.index_of(t);
                lemma_pairs_lookup(types, before, j);
                lemma_pairs_lookup(types, after, j);
            }
            assert(layers.map() =~= flipped(pairs_map(types, before), showing_top));
        }
        self.layers = layers;
        self.coordinates_dirty = true;
    }

    /// Takes in the geometry of the file called `filename`. The role is
    /// the one that the filename is assigned to, or else the one that the
    /// detector tells. With a role, the geometry becomes the visible layer
    /// of that role, in place of any layer that had it, and the coordinates
    /// are marked dirty. Without one, the geometry joins the unassigned
    /// gerbers; it is never dropped.
    pub fn import_gerber(&mut self, filename: String, geometry: GerberGeometry) -> (role: Option<
        LayerType,
    >)
        ensures
            role == spec_resolve(old(self)@.assignments, old(self)@.detector, filename@),
            match role {
                Some(t) => final(self)@ == (LayerManagerView {
                    layers: old(self)@.layers.insert(t, imported_record(geometry)),
                    layer_order: order_with(old(self)@.layer_order, old(self)@.layers, t),
                    coordinates_dirty: true,
                    ..old(self)@
                }),
                None => final(self)@ == (LayerManagerView {
                    unassigned: old(self)@.unassigned.push(UnassignedGerber { filename, geometry }),
                    ..old(self)@
                }),
            },
    {
        let assigned: Option<LayerType> = match self.get_assignment(filename.as_str()) {
            Some(t) => Some(*t),
            None => None,
        };
        let role: Option<LayerType> = match assigned {
            Some(t) => Some(t),
            None => self.detect_layer_type(filename.as_str()),
        };
        match role {
            Some(t) => {
                self.add_layer(t, LayerInfo::new(Some(geometry), true));
                self.mark_coordinates_dirty();
            },
            None => {
                self.add_unassigned_gerber(UnassignedGerber { filename, geometry });
            },
        }
        role
    }

    /// Gives the unassigned gerber at `index` the role `layer_type`: the
    /// gerber leaves the unassigned list, its filename is assigned to the
    /// layer type, its geometry becomes the visible layer of that type, and
    /// the coordinates are marked dirty. An index past the end changes
    /// nothing and gives `false`.
    pub fn promote_unassigned(&mut self, index: usize, layer_type: LayerType) -> (promoted: bool)
        ensures
            promoted == (index < old(self)@.unassigned.len()),
            promoted ==> final(self)@ == (LayerManagerView {
                layers: old(self)@.layers.insert(
                    layer_type,
                    imported_record(old(self)@.unassigned[index as int].geometry),
                ),
                layer_order: order_with(old(self)@.layer_order, old(self)@.layers, layer_type),
                unassigned: old(self)@.unassigned.remove(index as int),
                assignments: old(self)@.assignments.insert(
                    old(self)@.unassigned[index as int].filename@,
                    layer_type,
                ),
                coordinates_dirty: true,
                ..old(self)@
            }),
            !promoted ==> final(self)@ == old(self)@,
    {
        match self.remove_unassigned_gerber(index) {
            Some(gerber) => {
                self.add_layer(layer_type, LayerInfo::new(Some(gerber.geometry), true));
                self.record_assignment(gerber.filename, layer_type);
                self.mark_coordinates_dirty();
                true
            },
            None => false,
        }
    }

    /// The durable part of this manager: the active layer, and one entry
    /// for each filename that is assigned.
    pub fn to_persisted(&self) -> (persisted: PersistedLayers)
        ensures
            persisted.active_layer == self@.active_layer,
            assignments_of(persisted.layer_assignments@) == self@.assignments,
            persisted.layer_assignments@.len() == self@.assignments.dom().len(),
    {
        proof {
            use_type_invariant(self);
        }
        let ghost names = name_views(self.layer_assignments.names@);
        let ghost types = self.layer_assignments.types@;
        let mut entries: Vec<(String, LayerType)> = Vec::new();
        let mut i: usize = 0;
        proof {
            crate::pairs::lemma_pairs_empty::<Seq<char>, LayerType>();
            assert(names.take(0) =~= Seq::<Seq<char>>::empty());
            assert(types.take(0) =~= Seq::<LayerType>::empty());
        }
        while i < self.layer_assignments.names.len()
            invariant
                self.layer_assignments.wf(),
                names == name_views(self.layer_assignments.names@),
                types == self.layer_assignments.types@,
                i <= names.len(),
                entries@.len() == i,
                assignments_of(entries@) == pairs_map(names.take(i as int), types.take(i as int)),
            decreases self.layer_assignments.names.len() - i,
        {
            let name: String = self.layer_assignments.names[i].clone();
            let layer_type: LayerType = self.layer_assignments.types[i];
            proof {
                crate::pairs::lemma_pairs_take_step(names, types, i as int);
                assert(entries@.push((name, layer_type)).drop_last() =~= entries@);
            }
            entries.push((name, layer_type));
            i = i + 1;
        }
        proof {
            assert(names.take(i as int) =~= names);
            assert(types.take(i as int) =~= types);
            lemma_pairs_len(names, types);
        }
        PersistedLayers { active_layer: self.active_layer, layer_assignments: entries }
    }

    /// A manager made from a durable part: its active layer and its
    /// assignments, with no layers, nothing unassigned, the built-in
    /// detector, and the coordinates marked dirty as of what the clock
    /// reads now.
    pub fn from_persisted(persisted: &PersistedLayers) -> (manager: LayerManager)
        ensures
            manager@ == (LayerManagerView {
                layers: Map::empty(),
                layer_order: Seq::empty(),
                active_layer: persisted.active_layer,
                detector: default_rules(),
                unassigned: Seq::empty(),
                assignments: assignments_of(persisted.layer_assignments@),
                coordinates_dirty: true,
                coordinates_last_updated: manager.last_updated(),
            }),
    {
        LayerManager::from_persisted_at(persisted, clock_now())
    }

    /// A manager made from a durable part at the clock reading `now`: its
    /// active layer and its assignments, with no layers, nothing
    /// unassigned, the built-in detector, the coordinates marked dirty,
    /// and `now` as the stored time.
    pub fn from_persisted_at(persisted: &PersistedLayers, now: Instant) -> (manager: LayerManager)
        ensures
            manager@ == (LayerManagerView {
                layers: Map::empty(),
                layer_order: Seq::empty(),
                active_layer: persisted.active_layer,
                detector: default_rules(),
                unassigned: Seq::empty(),
                assignments: assignments_of(persisted.layer_assignments@),
                coordinates_dirty: true,
                coordinates_last_updated: now,
            }),
    {
        let mut assignments = AssignmentTable::new();
        let mut i: usize = 0;
        assert(persisted.layer_assignments@.take(0) =~= Seq::<(String, LayerType)>::empty());
        while i < persisted.layer_assignments.len()
            invariant
                assignments.wf(),
                i <= persisted.layer_assignments@.len(),
                assignments.map() == assignments_of(persisted.layer_assignments@.take(i as int)),
            decreases persisted.layer_assignments.len() - i,
        {
            let name: String = persisted.layer_assignments[i].0.clone();
            let layer_type: LayerType = persisted.layer_assignments[i].1;
            proof {
                let entries = persisted.layer_assignments@;
                assert(entries.take(i + 1).drop_last() =~= entries.take(i as int));
                assert(entries.take(i + 1).last() == entries[i as int]);
            }
            assignments.put(name, layer_type);
            i = i + 1;
        }
        assert(persisted.layer_assignments@.take(i as int) =~= persisted.layer_assignments@);
        LayerManager {
            layers: LayerTable::new(),
            active_layer: persisted.active_layer,
            layer_detector: LayerDetector::new(),
            unassigned_gerbers: Vec::new(),
            layer_assignments: assignments,
            coordinates_last_updated: now,
            coordinates_dirty: true,
        }
    }
}

impl Default for LayerManager {
    fn default() -> (manager: LayerManager)
        ensures
            manager@ == (LayerManagerView {
                layers: Map::empty(),
                layer_order: Seq::empty(),
                active_layer: LayerType::Copper(1),
                detector: default_rules(),
                unassigned: Seq::empty(),
                assignments: Map::empty(),
                coordinates_dirty: false,
                coordinates_last_updated: manager.last_updated(),
            }),
    {
        LayerManager::new()
    }
}

} // verus!
