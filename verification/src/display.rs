//! Display settings that decide where and whether layers are shown.

use crate::geometry::{BoundingBox, Point};
use crate::grid::{snap_to_grid, spec_snap_to_grid, GridSettings};
use crate::layer::LayerType;
use crate::manager::{flipped, positioned, LayerManager, LayerManagerView};
use crate::transform::ViewTransformState;
use crate::units::{clamp_i64, from_canonical, spec_from_canonical, DisplayUnit};
use vstd::prelude::*;

verus! {

/// The display settings: which face of the board is shown, and the state
/// of the view.
#[derive(Clone, Copy, Debug, PartialEq, Eq, Structural)]
pub struct DisplayManager {
    pub showing_top: bool,
    pub view: ViewTransformState,
}

/// The offset that the quadrant view gives to the layers of one type. With
/// the quadrant view off there is none. With it on, copper goes up and to
/// the right by the magnitude, silkscreen up and to the left, soldermask
/// down and to the left, paste down and to the right; the mechanical
/// outline stays where it is.
pub open spec fn spec_quadrant_offset(state: ViewTransformState, layer_type: LayerType) -> Point {
    if !state.quadrant_view_enabled {
        Point { x: 0, y: 0 }
    } else {
        let m = state.quadrant_offset_magnitude;
        let n = clamp_i64(-m) as i64;
        match layer_type {
            LayerType::Copper(_) => Point { x: m, y: m },
            LayerType::Silkscreen(_) => Point { x: n, y: m },
            LayerType::Soldermask(_) => Point { x: n, y: n },
            LayerType::Paste(_) => Point { x: m, y: n },
            LayerType::MechanicalOutline => Point { x: 0, y: 0 },
        }
    }
}

/// Whether a layer is shown after the board was flipped to the face given
/// by `showing_top`: layers of the top face are shown exactly when the top
/// is, layers below it exactly when it is not, and the mechanical outline
/// stays as it was.
pub open spec fn spec_visibility_after_flip(
    layer_type: LayerType,
    showing_top: bool,
    current: bool,
) -> bool {
    if layer_type.spec_is_top() {
        showing_top
    } else if layer_type.spec_is_bottom() {
        !showing_top
    } else {
        current
    }
}

/// A length of `extent` nanometres as a canonical length: lengths past the
/// canonical range count as its upper end.
pub open spec fn spec_extent(extent: int) -> int {
    clamp_i64(extent)
}

/// The width and height of `bbox` as display values of `unit`.
pub open spec fn spec_board_dimensions(bbox: BoundingBox, unit: DisplayUnit) -> (int, int) {
    (
        spec_from_canonical(spec_extent(bbox.spec_width()), unit),
        spec_from_canonical(spec_extent(bbox.spec_height()), unit),
    )
}

/// The width and height of a board with the bounding box `bbox`, as
/// display values of `unit`.
pub fn board_dimensions(bbox: &BoundingBox, unit: DisplayUnit) -> (dimensions: (i64, i64))
    ensures
        (dimensions.0 as int, dimensions.1 as int) == spec_board_dimensions(*bbox, unit),
{
    let width: u64 = bbox.width();
    let height: u64 = bbox.height();
    let w: i64 = if width > i64::MAX as u64 {
        i64::MAX
    } else {
        width as i64
    };
    let h: i64 = if height > i64::MAX as u64 {
        i64::MAX
    } else {
        height as i64
    };
    (from_canonical(w, unit), from_canonical(h, unit))
}

/// The visibility of a layer after a flip of the board.
pub fn visibility_after_flip(layer_type: LayerType, showing_top: bool, current: bool) -> (visible:
    bool)
    ensures
        visible == spec_visibility_after_flip(layer_type, showing_top, current),
{
    if layer_type.is_top() {
        showing_top
    } else if layer_type.is_bottom() {
        !showing_top
    } else {
        current
    }
}

/// The quadrant offset of the layers of one type in the view `state`.
pub fn quadrant_offset(state: &ViewTransformState, layer_type: LayerType) -> (offset: Point)
    ensures
        offset == spec_quadrant_offset(*state, layer_type),
{
    if !state.quadrant_view_enabled {
        return Point { x: 0, y: 0 };
    }
    let m: i64 = state.quadrant_offset_magnitude;
    let n: i64 = if m == i64::MIN {
        i64::MAX
    } else {
        -m
    };
    match layer_type {
        LayerType::Copper(_) => Point { x: m, y: m },
        LayerType::Silkscreen(_) => Point { x: n, y: m },
        LayerType::Soldermask(_) => Point { x: n, y: n },
        LayerType::Paste(_) => Point { x: m, y: n },
        LayerType::MechanicalOutline => Point { x: 0, y: 0 },
    }
}

impl DisplayManager {
    /// The top face shown, in the initial view state.
    pub fn new() -> (display: DisplayManager)
        ensures
            display.showing_top,
            display.view == ViewTransformState::spec_initial(),
    {
        DisplayManager { showing_top: true, view: ViewTransformState::new() }
    }

    /// Turns the board over: shows the other face. The view is unchanged.
    pub fn flip(&mut self)
        ensures
            final(self).showing_top == !old(self).showing_top,
            final(self).view == old(self).view,
    {
        self.showing_top = !self.showing_top;
    }

    /// Switches the quadrant view on or off. The rest is unchanged.
    pub fn set_quadrant_view(&mut self, enabled: bool)
        ensures
            *final(self) == (DisplayManager {
                view: ViewTransformState { quadrant_view_enabled: enabled, ..old(self).view },
                ..*old(self)
            }),
    {
        self.view.quadrant_view_enabled = enabled;
    }

    /// Makes the stored position under the cursor the custom origin,
    /// snapped to the grid where the grid says so. Nothing else changes.
    pub fn set_origin_at(&mut self, cursor: Point, grid: &GridSettings)
        ensures
            *final(self) == (DisplayManager {
                view: ViewTransformState {
                    design_offset: spec_snap_to_grid(cursor, *grid),
                    ..old(self).view
                },
                ..*old(self)
            }),
    {
        self.view.design_offset = snap_to_grid(cursor, grid);
    }

    /// Turns the board over and sets the visibility of the layers of
    /// `manager` accordingly: the layers of the face now shown become
    /// visible, those of the other face hidden, and the mechanical outline
    /// stays as it is. The coordinates of `manager` are marked dirty.
    pub fn flip_board(&mut self, manager: &mut LayerManager)
        ensures
            final(self).showing_top == !old(self).showing_top,
            final(self).view == old(self).view,
            final(manager)@ == (LayerManagerView {
                layers: flipped(old(manager)@.layers, !old(self).showing_top),
                coordinates_dirty: true,
                ..old(manager)@
            }),
    {
        self.showing_top = !self.showing_top;
        manager.apply_flip(self.showing_top);
    }

    /// Recomputes where every layer of `manager` is displayed under these
    /// settings. The freshness of `manager` is left as it is.
    pub fn update_layer_positions(&self, manager: &mut LayerManager)
        ensures
            final(manager)@ == (LayerManagerView {
                layers: positioned(old(manager)@.layers, self.view),
                ..old(manager)@
            }),
    {
        manager.apply_positions(&self.view);
    }

    /// The quadrant offset of the layers of one type under these settings.
    pub fn get_quadrant_offset(&self, layer_type: LayerType) -> (offset: Point)
        ensures
            offset == spec_quadrant_offset(self.view, layer_type),
    {
        quadrant_offset(&self.view, layer_type)
    }
}

} // verus!
