//! The ruler: two points picked by clicks, and what is measured between
//! them.

use crate::geometry::Point;
use crate::grid::{snap_to_grid, spec_snap_to_grid, GridSettings};
use vstd::prelude::*;

verus! {

/// The state of the ruler tool.
#[derive(Clone, Copy, Debug, PartialEq, Eq, Structural)]
pub struct RulerState {
    /// Whether the tool is switched on.
    pub active: bool,
    /// The first point of the measurement.
    pub start: Option<Point>,
    /// The second point of the measurement, or the live preview of it.
    pub end: Option<Point>,
    /// Whether the second point follows the pointer.
    pub dragging: bool,
}

/// What lies between two points: the offsets along the axes and the
/// straight distance, rounded down to whole nanometres. The distance is
/// absent where the sum of the squared offsets is too large to hold.
#[derive(Clone, Copy, Debug, PartialEq, Eq, Structural)]
pub struct RulerMeasurement {
    pub dx: i128,
    pub dy: i128,
    pub distance: Option<u128>,
}

/// Whether `m` is what lies between `start` and `end`.
pub open spec fn measures(m: RulerMeasurement, start: Point, end: Point) -> bool {
    &&& m.dx == end.x - start.x
    &&& m.dy == end.y - start.y
    &&& match m.distance {
        Some(d) => is_floor_sqrt(m.dx * m.dx + m.dy * m.dy, d as int),
        None => m.dx * m.dx + m.dy * m.dy > u128::MAX,
    }
}

/// Whether `r` is the square root of `n` rounded down.
pub open spec fn is_floor_sqrt(n: int, r: int) -> bool {
    0 <= r && r * r <= n && n < (r + 1) * (r + 1)
}

/// The ruler after a click at `point` while it is active: the first click
/// sets the start and begins the preview, the second fixes the end, and a
/// third begins a new measurement. A click that comes while the end point
/// still follows the pointer counts as the second one: the preview never
/// turns it into the start of a new measurement.
pub open spec fn spec_click(state: RulerState, point: Point) -> RulerState {
    if !state.active {
        state
    } else if state.start.is_none() {
        RulerState { start: Some(point), end: None, dragging: true, ..state }
    } else if state.end.is_none() || state.dragging {
        RulerState { end: Some(point), dragging: false, ..state }
    } else {
        RulerState { start: Some(point), end: None, dragging: true, ..state }
    }
}

/// The ruler after the pointer moved to `point`: while the second point is
/// being dragged it follows the pointer.
pub open spec fn spec_hover(state: RulerState, point: Point) -> RulerState {
    if state.active && state.dragging && state.start.is_some() {
        RulerState { end: Some(point), ..state }
    } else {
        state
    }
}

/// The ruler after its switch was pressed: switched over, and cleared when
/// that switched it off.
pub open spec fn spec_toggle(state: RulerState) -> RulerState {
    if state.active {
        RulerState { active: false, start: None, end: None, dragging: false }
    } else {
        RulerState { active: true, ..state }
    }
}

/// Whether the ruler is in order: an end point that follows the pointer
/// has a start point to be measured from.
pub open spec fn ruler_in_order(state: RulerState) -> bool {
    state.dragging ==> state.start.is_some()
}

/// A ruler in order stays in order under every click, every move of the
/// pointer and every press of its switch.
pub proof fn lemma_ruler_stays_in_order(state: RulerState, point: Point)
    requires
        ruler_in_order(state),
    ensures
        ruler_in_order(spec_click(state, point)),
        ruler_in_order(spec_hover(state, point)),
        ruler_in_order(spec_toggle(state)),
{
}

/// The square of `r` grows with `r`.
proof fn lemma_square_monotone(a: int, b: int)
    requires
        0 <= a <= b,
    ensures
        a * a <= b * b,
{
    assert(a * a <= b * b) by (nonlinear_arith)
        requires
            0 <= a <= b,
    ;
}

/// The square root of `n`, rounded down.
pub fn floor_sqrt(n: u128) -> (root: u128)
    ensures
        is_floor_sqrt(n as int, root as int),
{
    let mut low: u128 = 0;
    let mut high: u128 = 0xFFFF_FFFF_FFFF_FFFF;
    assert(0xFFFF_FFFF_FFFF_FFFFint * 0xFFFF_FFFF_FFFF_FFFFint <= u128::MAX);
    assert((0xFFFF_FFFF_FFFF_FFFFint + 1) * (0xFFFF_FFFF_FFFF_FFFFint + 1) > u128::MAX)
       ;
    while low < high
        invariant
            low <= high <= 0xFFFF_FFFF_FFFF_FFFF,
            low * low <= n,
            n < (high + 1) * (high + 1),
        decreases high - low,
    {
        let mid: u128 = low + (high - low + 1) / 2;
        proof {
            lemma_square_monotone(mid as int, 0xFFFF_FFFF_FFFF_FFFF);
        }
        if mid * mid <= n {
            low = mid;
        } else {
            high = mid - 1;
        }
    }
    low
}

/// Measures from `start` to `end`: the offsets along x and y, and the
/// straight distance rounded down.
pub fn measure(start: Point, end: Point) -> (m: RulerMeasurement)
    ensures
        measures(m, start, end),
{
    let dx: i128 = end.x as i128 - start.x as i128;
    let dy: i128 = end.y as i128 - start.y as i128;
    let ax: u128 = if dx < 0 {
        (-dx) as u128
    } else {
        dx as u128
    };
    let ay: u128 = if dy < 0 {
        (-dy) as u128
    } else {
        dy as u128
    };
    proof {
        lemma_square_monotone(ax as int, 0xFFFF_FFFF_FFFF_FFFF);
        lemma_square_monotone(ay as int, 0xFFFF_FFFF_FFFF_FFFF);
        assert(0xFFFF_FFFF_FFFF_FFFFint * 0xFFFF_FFFF_FFFF_FFFFint <= u128::MAX);
        assert((ax as int) * (ax as int) == dx * dx) by (nonlinear_arith)
            requires
                ax == dx || ax == -dx,
        ;
        assert((ay as int) * (ay as int) == dy * dy) by (nonlinear_arith)
            requires
                ay == dy || ay == -dy,
        ;
    }
    let distance: Option<u128> = match (ax * ax).checked_add(ay * ay) {
        Some(squares) => Some(floor_sqrt(squares)),
        None => None,
    };
    RulerMeasurement { dx, dy, distance }
}

impl RulerState {
    /// The ruler switched off, with no points.
    pub fn new() -> (state: RulerState)
        ensures
            state == (RulerState { active: false, start: None, end: None, dragging: false }),
            ruler_in_order(state),
    {
        RulerState { active: false, start: None, end: None, dragging: false }
    }

    /// Presses the ruler's switch. Switching it off clears the points.
    pub fn toggle(&mut self)
        ensures
            *final(self) == spec_toggle(*old(self)),
    {
        if self.active {
            self.active = false;
            self.start = None;
            self.end = None;
            self.dragging = false;
        } else {
            self.active = true;
        }
    }

    /// Takes a click at the stored position `point`, snapped to the grid
    /// where the grid says so. An inactive ruler takes no clicks.
    pub fn click(&mut self, point: Point, grid: &GridSettings)
        ensures
            *final(self) == spec_click(*old(self), spec_snap_to_grid(point, *grid)),
    {
        if !self.active {
            return ;
        }
        let snapped: Point = snap_to_grid(point, grid);
        if self.start.is_none() {
            self.start = Some(snapped);
            self.end = None;
            self.dragging = true;
        } else if self.end.is_none() || self.dragging {
            self.end = Some(snapped);
            self.dragging = false;
        } else {
            self.start = Some(snapped);
            self.end = None;
            self.dragging = true;
        }
    }

    /// Takes a move of the pointer to the stored position `point`, snapped
    /// to the grid where the grid says so.
    pub fn hover(&mut self, point: Point, grid: &GridSettings)
        ensures
            *final(self) == spec_hover(*old(self), spec_snap_to_grid(point, *grid)),
    {
        if self.active && self.dragging && self.start.is_some() {
            self.end = Some(snap_to_grid(point, grid));
        }
    }

    /// What the ruler measures: present exactly when both points are set.
    pub fn measurement(&self) -> (m: Option<RulerMeasurement>)
        ensures
            m.is_some() <==> self.start.is_some() && self.end.is_some(),
            match m {
                Some(found) => measures(found, self.start.unwrap(), self.end.unwrap()),
                None => true,
            },
    {
        match (self.start, self.end) {
            (Some(a), Some(b)) => Some(measure(a, b)),
            _ => None,
        }
    }
}

} // verus!
