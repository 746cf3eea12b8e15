//! The view transform pipeline: rotate, then mirror, then translate.
//!
//! Every consumer of display positions (violation markers, overlays, the
//! cursor readout) goes through [`to_display`], so all of them agree. The
//! pipeline works on whole nanometres; a rotation is a number of quarter
//! turns, which keeps every stage exact and the whole mapping invertible.

use crate::geometry::{in_canonical_range, Point};
use vstd::prelude::*;

verus! {

/// Largest quadrant offset magnitude that can be set: 500 mm.
pub const MAX_QUADRANT_OFFSET: i64 = 500_000_000;

/// A rotation about the origin by a whole number of quarter turns,
/// counter-clockwise.
#[derive(Clone, Copy, Debug, PartialEq, Eq, Structural)]
pub enum Rotation {
    Deg0,
    Deg90,
    Deg180,
    Deg270,
}

/// The state of the view: rotation, the two mirror flags, the custom origin
/// (the zero point means that none is set), the offset that centres the
/// design in the viewport, and the quadrant view with its offset magnitude.
#[derive(Clone, Copy, Debug, PartialEq, Eq, Structural)]
pub struct ViewTransformState {
    pub rotation: Rotation,
    pub mirror_x: bool,
    pub mirror_y: bool,
    pub design_offset: Point,
    pub center_offset: Point,
    pub quadrant_view_enabled: bool,
    pub quadrant_offset_magnitude: i64,
}

/// `p` turned about the origin by `r`, by the standard rotation matrix.
pub open spec fn rotate(p: (int, int), r: Rotation) -> (int, int) {
    match r {
        Rotation::Deg0 => p,
        Rotation::Deg90 => (-p.1, p.0),
        Rotation::Deg180 => (-p.0, -p.1),
        Rotation::Deg270 => (p.1, -p.0),
    }
}

/// `p` with its x component negated if `mirror_x` is set and its y
/// component negated if `mirror_y` is set.
pub open spec fn mirror(p: (int, int), mirror_x: bool, mirror_y: bool) -> (int, int) {
    (
        if mirror_x {
            -p.0
        } else {
            p.0
        },
        if mirror_y {
            -p.1
        } else {
            p.1
        },
    )
}

/// `p` moved by `t`.
pub open spec fn translate(p: (int, int), t: (int, int)) -> (int, int) {
    (p.0 + t.0, p.1 + t.1)
}

/// The translation in effect: the centre offset less the custom origin.
/// With no custom origin set this is the centre offset itself.
pub open spec fn effective_translation(state: ViewTransformState) -> (int, int) {
    (
        state.center_offset.x - state.design_offset.x,
        state.center_offset.y - state.design_offset.y,
    )
}

/// Where the stored position `p` is displayed: rotated, then mirrored, then
/// translated.
pub open spec fn spec_to_display(p: (int, int), state: ViewTransformState) -> (int, int) {
    translate(
        mirror(rotate(p, state.rotation), state.mirror_x, state.mirror_y),
        effective_translation(state),
    )
}

/// The stored position that is displayed at `d`: the stages of
/// [`spec_to_display`] undone in reverse order.
pub open spec fn spec_to_canonical(d: (int, int), state: ViewTransformState) -> (int, int) {
    let t = effective_translation(state);
    rotate(
        mirror((d.0 - t.0, d.1 - t.1), state.mirror_x, state.mirror_y),
        state.rotation.spec_inverse(),
    )
}

impl Rotation {
    /// The angle in degrees.
    pub open spec fn spec_degrees(self) -> int {
        match self {
            Rotation::Deg0 => 0,
            Rotation::Deg90 => 90,
            Rotation::Deg180 => 180,
            Rotation::Deg270 => 270,
        }
    }

    /// The rotation a quarter turn further.
    pub open spec fn spec_next(self) -> Rotation {
        match self {
            Rotation::Deg0 => Rotation::Deg90,
            Rotation::Deg90 => Rotation::Deg180,
            Rotation::Deg180 => Rotation::Deg270,
            Rotation::Deg270 => Rotation::Deg0,
        }
    }

    /// The rotation that undoes this one.
    pub open spec fn spec_inverse(self) -> Rotation {
        match self {
            Rotation::Deg0 => Rotation::Deg0,
            Rotation::Deg90 => Rotation::Deg270,
            Rotation::Deg180 => Rotation::Deg180,
            Rotation::Deg270 => Rotation::Deg90,
        }
    }

    /// The rotation by `degrees`, which wrap modulo 360. Only whole quarter
    /// turns have one.
    pub open spec fn spec_from_degrees(degrees: int) -> Option<Rotation> {
        let wrapped = degrees % 360;
        if wrapped == 0 {
            Some(Rotation::Deg0)
        } else if wrapped == 90 {
            Some(Rotation::Deg90)
        } else if wrapped == 180 {
            Some(Rotation::Deg180)
        } else if wrapped == 270 {
            Some(Rotation::Deg270)
        } else {
            None
        }
    }

    pub fn degrees(self) -> (d: u16)
        ensures
            d == self.spec_degrees(),
    {
        match self {
            Rotation::Deg0 => 0,
            Rotation::Deg90 => 90,
            Rotation::Deg180 => 180,
            Rotation::Deg270 => 270,
        }
    }

    /// The rotation by `degrees`. Any angle is accepted and wraps modulo
    /// 360, negative ones included; an angle that is no whole number of
    /// quarter turns has no exact rotation and gives `None`.
    pub fn from_degrees(degrees: i64) -> (r: Option<Rotation>)
        ensures
            r == Rotation::spec_from_degrees(degrees as int),
            r.is_some() <==> (degrees as int) % 90 == 0,
    {
        let remainder: i64 = degrees % 360;
        let wrapped: i64 = if remainder < 0 {
            remainder + 360
        } else {
            remainder
        };
        proof {
            assert(wrapped == (degrees as int) % 360);
            vstd::arithmetic::div_mod::lemma_mod_mod(degrees as int, 90, 4);
            assert((wrapped as int) % 90 == (degrees as int) % 90);
        }
        if wrapped == 0 {
            Some(Rotation::Deg0)
        } else if wrapped == 90 {
            Some(Rotation::Deg90)
        } else if wrapped == 180 {
            Some(Rotation::Deg180)
        } else if wrapped == 270 {
            Some(Rotation::Deg270)
        } else {
            None
        }
    }

    /// A quarter turn further: the angle plus 90, modulo 360.
    pub fn next(self) -> (r: Rotation)
        ensures
            r == self.spec_next(),
            r.spec_degrees() == (self.spec_degrees() + 90) % 360,
    {
        match self {
            Rotation::Deg0 => Rotation::Deg90,
            Rotation::Deg90 => Rotation::Deg180,
            Rotation::Deg180 => Rotation::Deg270,
            Rotation::Deg270 => Rotation::Deg0,
        }
    }

    /// The rotation that undoes this one.
    pub fn inverse(self) -> (r: Rotation)
        ensures
            r == self.spec_inverse(),
            r.spec_degrees() == (360 - self.spec_degrees()) % 360,
    {
        match self {
            Rotation::Deg0 => Rotation::Deg0,
            Rotation::Deg90 => Rotation::Deg270,
            Rotation::Deg180 => Rotation::Deg180,
            Rotation::Deg270 => Rotation::Deg90,
        }
    }
}

/// With no rotation and no mirroring the pipeline is a pure translation.
pub proof fn lemma_plain_state_translates(p: (int, int), state: ViewTransformState)
    requires
        state.rotation == Rotation::Deg0,
        !state.mirror_x,
        !state.mirror_y,
    ensures
        spec_to_display(p, state) == translate(p, effective_translation(state)),
{
}

/// The pipeline is invertible: mapping a stored position to display space
/// and back gives the position again, in every view state.
pub proof fn lemma_to_canonical_inverts_to_display(p: (int, int), state: ViewTransformState)
    ensures
        spec_to_canonical(spec_to_display(p, state), state) == p,
{
}

/// Mapping a display position to stored space and forth again gives the
/// display position, in every view state.
pub proof fn lemma_to_display_inverts_to_canonical(d: (int, int), state: ViewTransformState)
    ensures
        spec_to_display(spec_to_canonical(d, state), state) == d,
{
}

/// The pipeline distorts nothing: two displayed positions are as far
/// apart as the stored positions they come from.
pub proof fn lemma_pipeline_keeps_distances(
    p: (int, int),
    q: (int, int),
    state: ViewTransformState,
)
    ensures
        ({
            let dp = spec_to_display(p, state);
            let dq = spec_to_display(q, state);
            (dp.0 - dq.0) * (dp.0 - dq.0) + (dp.1 - dq.1) * (dp.1 - dq.1) == (p.0 - q.0) * (p.0
                - q.0) + (p.1 - q.1) * (p.1 - q.1)
        }),
{
    let a = p.0 - q.0;
    let b = p.1 - q.1;
    assert((-a) * (-a) == a * a) by (nonlinear_arith);
    assert((-b) * (-b) == b * b) by (nonlinear_arith);
}

fn narrow(x: i128, y: i128) -> (p: Option<Point>)
    ensures
        match p {
            Some(q) => q@ == (x as int, y as int),
            None => !in_canonical_range((x as int, y as int)),
        },
{
    if x < i64::MIN as i128 || x > i64::MAX as i128 || y < i64::MIN as i128 || y > i64::MAX as i128 {
        None
    } else {
        Some(Point { x: x as i64, y: y as i64 })
    }
}

/// Maps a stored position to display space: rotates it about the origin,
/// then negates the mirrored components, then adds the effective
/// translation. Gives `None` exactly when the display position has a
/// coordinate outside the canonical range.
pub fn to_display(p: Point, state: &ViewTransformState) -> (d: Option<Point>)
    ensures
        match d {
            Some(q) => q@ == spec_to_display(p@, *state),
            None => !in_canonical_range(spec_to_display(p@, *state)),
        },
{
    let x: i128 = p.x as i128;
    let y: i128 = p.y as i128;
    let (rx, ry): (i128, i128) = match state.rotation {
        Rotation::Deg0 => (x, y),
        Rotation::Deg90 => (-y, x),
        Rotation::Deg180 => (-x, -y),
        Rotation::Deg270 => (y, -x),
    };
    let mx: i128 = if state.mirror_x {
        -rx
    } else {
        rx
    };
    let my: i128 = if state.mirror_y {
        -ry
    } else {
        ry
    };
    let tx: i128 = state.center_offset.x as i128 - state.design_offset.x as i128;
    let ty: i128 = state.center_offset.y as i128 - state.design_offset.y as i128;
    narrow(mx + tx, my + ty)
}

/// Maps a display position back to stored space, undoing [`to_display`].
/// Gives `None` exactly when the stored position has a coordinate outside
/// the canonical range.
pub fn to_canonical(d: Point, state: &ViewTransformState) -> (p: Option<Point>)
    ensures
        match p {
            Some(q) => q@ == spec_to_canonical(d@, *state),
            None => !in_canonical_range(spec_to_canonical(d@, *state)),
        },
{
    let tx: i128 = state.center_offset.x as i128 - state.design_offset.x as i128;
    let ty: i128 = state.center_offset.y as i128 - state.design_offset.y as i128;
    let ux: i128 = d.x as i128 - tx;
    let uy: i128 = d.y as i128 - ty;
    let mx: i128 = if state.mirror_x {
        -ux
    } else {
        ux
    };
    let my: i128 = if state.mirror_y {
        -uy
    } else {
        uy
    };
    let (x, y): (i128, i128) = match state.rotation {
        Rotation::Deg0 => (mx, my),
        Rotation::Deg90 => (my, -mx),
        Rotation::Deg180 => (-mx, -my),
        Rotation::Deg270 => (-my, mx),
    };
    narrow(x, y)
}

impl ViewTransformState {
    /// The initial state: no rotation, no mirroring, no offsets, quadrant
    /// view off.
    pub open spec fn spec_initial() -> ViewTransformState {
        ViewTransformState {
            rotation: Rotation::Deg0,
            mirror_x: false,
            mirror_y: false,
            design_offset: Point { x: 0, y: 0 },
            center_offset: Point { x: 0, y: 0 },
            quadrant_view_enabled: false,
            quadrant_offset_magnitude: 0,
        }
    }

    /// The initial state.
    pub fn new() -> (state: ViewTransformState)
        ensures
            state == ViewTransformState::spec_initial(),
    {
        ViewTransformState {
            rotation: Rotation::Deg0,
            mirror_x: false,
            mirror_y: false,
            design_offset: Point { x: 0, y: 0 },
            center_offset: Point { x: 0, y: 0 },
            quadrant_view_enabled: false,
            quadrant_offset_magnitude: 0,
        }
    }

    pub open spec fn spec_has_custom_origin(&self) -> bool {
        self.design_offset.x != 0 || self.design_offset.y != 0
    }

    /// Whether a custom origin is set, that is, whether the design offset
    /// is anything but the zero point.
    #[verifier::when_used_as_spec(spec_has_custom_origin)]
    pub fn has_custom_origin(&self) -> (b: bool)
        ensures
            b == self.spec_has_custom_origin(),
    {
        self.design_offset.x != 0 || self.design_offset.y != 0
    }

    /// Turns the view a quarter turn further; nothing else changes.
    pub fn rotate_quarter_turn(&mut self)
        ensures
            *final(self) == (ViewTransformState {
                rotation: old(self).rotation.spec_next(),
                ..*old(self)
            }),
    {
        self.rotation = self.rotation.next();
    }

    /// Flips the mirror-x flag; nothing else changes.
    pub fn toggle_mirror_x(&mut self)
        ensures
            *final(self) == (ViewTransformState { mirror_x: !old(self).mirror_x, ..*old(self) }),
    {
        self.mirror_x = !self.mirror_x;
    }

    /// Flips the mirror-y flag; nothing else changes.
    pub fn toggle_mirror_y(&mut self)
        ensures
            *final(self) == (ViewTransformState { mirror_y: !old(self).mirror_y, ..*old(self) }),
    {
        self.mirror_y = !self.mirror_y;
    }

    /// Makes `origin` the custom origin; nothing else changes.
    pub fn set_origin(&mut self, origin: Point)
        ensures
            *final(self) == (ViewTransformState { design_offset: origin, ..*old(self) }),
    {
        self.design_offset = origin;
    }

    /// Removes the custom origin; nothing else changes.
    pub fn reset_origin(&mut self)
        ensures
            *final(self) == (ViewTransformState {
                design_offset: Point { x: 0, y: 0 },
                ..*old(self)
            }),
            !final(self).spec_has_custom_origin(),
    {
        self.design_offset = Point { x: 0, y: 0 };
    }

    /// Sets the quadrant offset magnitude, limited to the span from zero to
    /// [`MAX_QUADRANT_OFFSET`]; nothing else changes.
    pub fn set_quadrant_offset_magnitude(&mut self, magnitude: i64)
        ensures
            *final(self) == (ViewTransformState {
                quadrant_offset_magnitude: if magnitude < 0 {
                    0
                } else if magnitude > MAX_QUADRANT_OFFSET {
                    MAX_QUADRANT_OFFSET
                } else {
                    magnitude
                },
                ..*old(self)
            }),
    {
        self.quadrant_offset_magnitude = if magnitude < 0 {
            0
        } else if magnitude > MAX_QUADRANT_OFFSET {
            MAX_QUADRANT_OFFSET
        } else {
            magnitude
        };
    }

    /// What the coordinate display reads for a pointer at the display
    /// position `cursor`: the stored position that the pipeline shows
    /// there, found by undoing every stage of the pipeline. `cursor` is a
    /// position in display space, not a stored one. Gives `None` exactly
    /// when the stored position lies outside the canonical range.
    pub fn cursor_readout(&self, cursor: Point) -> (shown: Option<Point>)
        ensures
            match shown {
                Some(q) => q@ == spec_to_canonical(cursor@, *self),
                None => !in_canonical_range(spec_to_canonical(cursor@, *self)),
            },
    {
        to_canonical(cursor, self)
    }
}

} // verus!
