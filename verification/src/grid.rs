//! The measuring grid and snapping points to it.

use crate::geometry::Point;
use crate::units::{lemma_round_div_exact, round_div};
use vstd::arithmetic::div_mod::{
    lemma_fundamental_div_mod, lemma_fundamental_div_mod_converse, lemma_mod_pos_bound,
};
use vstd::prelude::*;

verus! {

/// Number of grid spacings offered for selection.
pub const GRID_PRESET_COUNT: usize = 7;

/// How close, in nanometres, a spacing must be to a preset to count as it.
pub const GRID_PRESET_TOLERANCE: i64 = 1_000;

/// The grid: its spacing in nanometres, whether points snap to it, and the
/// size of its dots in tenths of a pixel (which only affects drawing).
#[derive(Clone, Copy, Debug, PartialEq, Eq, Structural)]
pub struct GridSettings {
    pub enabled: bool,
    pub spacing: i64,
    pub dot_size: u32,
    pub snap_enabled: bool,
}

/// The multiple of `s` at or next to `x` on the side of zero.
pub open spec fn multiple_toward_zero(x: int, s: int) -> int
    recommends
        s > 0,
{
    if x >= 0 {
        x - x % s
    } else {
        -((-x) - (-x) % s)
    }
}

/// `x` moved to the nearest multiple of the spacing `s`, halves away from
/// zero. Where that multiple lies outside the canonical range, the multiple
/// on the other side of `x` is taken. A spacing that is not positive moves
/// nothing.
pub open spec fn snap_axis(x: int, s: int) -> int {
    if s <= 0 {
        x
    } else {
        let nearest = round_div(x, s) * s;
        if i64::MIN <= nearest <= i64::MAX {
            nearest
        } else {
            multiple_toward_zero(x, s)
        }
    }
}

/// `p` snapped to the grid `g`: unchanged when snapping is off, else each
/// axis snapped on its own.
pub open spec fn spec_snap_to_grid(p: Point, g: GridSettings) -> Point {
    if g.snap_enabled {
        Point { x: snap_axis(p.x as int, g.spacing as int) as i64, y: snap_axis(p.y as int, g.spacing as int) as i64 }
    } else {
        p
    }
}

/// The spacing of preset `i` in nanometres: 100, 50, 25, 10, 5, 2 and 1 mil.
pub open spec fn preset_spacing(i: int) -> int {
    if i == 0 {
        2_540_000
    } else if i == 1 {
        1_270_000
    } else if i == 2 {
        635_000
    } else if i == 3 {
        254_000
    } else if i == 4 {
        127_000
    } else if i == 5 {
        50_800
    } else {
        25_400
    }
}

/// Whether `spacing` is preset `i` up to the tolerance.
pub open spec fn matches_preset(spacing: int, i: int) -> bool {
    -GRID_PRESET_TOLERANCE < spacing - preset_spacing(i) < GRID_PRESET_TOLERANCE
}

/// For a length that is not negative, the nearest multiple of `s` is the
/// multiple below it, or the one above when the remainder is at least half
/// of `s`.
proof fn lemma_nearest_multiple(a: int, s: int)
    requires
        a >= 0,
        s >= 1,
    ensures
        round_div(a, s) * s == if 2 * (a % s) >= s {
            a - a % s + s
        } else {
            a - a % s
        },
        round_div(-a, s) * s == -(round_div(a, s) * s),
{
    let q = a / s;
    let r = a % s;
    lemma_fundamental_div_mod(a, s);
    lemma_mod_pos_bound(a, s);
    assert(s * q == q * s) by (nonlinear_arith);
    if 2 * r >= s {
        assert(2 * a + s == (q + 1) * (2 * s) + (2 * r - s)) by (nonlinear_arith)
            requires
                a == q * s + r,
        ;
        lemma_fundamental_div_mod_converse(2 * a + s, 2 * s, q + 1, 2 * r - s);
        assert((q + 1) * s == q * s + s) by (nonlinear_arith);
    } else {
        assert(2 * a + s == q * (2 * s) + (2 * r + s)) by (nonlinear_arith)
            requires
                a == q * s + r,
        ;
        lemma_fundamental_div_mod_converse(2 * a + s, 2 * s, q, 2 * r + s);
    }
    let k = round_div(a, s);
    if a == 0 {
        assert(k == 0);
        assert(k * s == 0) by (nonlinear_arith)
            requires
                k == 0,
        ;
    } else {
        assert(round_div(-a, s) == -k);
        assert((-k) * s == -(k * s)) by (nonlinear_arith);
    }
}

/// A snapped coordinate is a whole number of spacings and stays inside the
/// canonical range.
proof fn lemma_snap_axis_is_multiple(x: int, s: int) -> (k: int)
    requires
        i64::MIN <= x <= i64::MAX,
        s >= 1,
    ensures
        snap_axis(x, s) == k * s,
        i64::MIN <= snap_axis(x, s) <= i64::MAX,
{
    let nearest = round_div(x, s) * s;
    if i64::MIN <= nearest <= i64::MAX {
        round_div(x, s)
    } else {
        let a = if x >= 0 {
            x
        } else {
            -x
        };
        let q = a / s;
        lemma_fundamental_div_mod(a, s);
        lemma_mod_pos_bound(a, s);
        assert(s * q == q * s) by (nonlinear_arith);
        assert((-q) * s == -(q * s)) by (nonlinear_arith);
        if x >= 0 {
            q
        } else {
            -q
        }
    }
}

/// Snapping one coordinate twice is the same as snapping it once.
pub proof fn lemma_snap_axis_idempotent(x: int, s: int)
    requires
        i64::MIN <= x <= i64::MAX,
    ensures
        snap_axis(snap_axis(x, s), s) == snap_axis(x, s),
{
    if s >= 1 {
        let k = lemma_snap_axis_is_multiple(x, s);
        lemma_round_div_exact(k, s);
    }
}

/// Snapping is idempotent: for every point and every grid, snapping a
/// snapped point leaves it where it is.
pub proof fn lemma_snap_idempotent(p: Point, g: GridSettings)
    ensures
        spec_snap_to_grid(spec_snap_to_grid(p, g), g) == spec_snap_to_grid(p, g),
{
    if g.snap_enabled {
        lemma_snap_axis_idempotent(p.x as int, g.spacing as int);
        lemma_snap_axis_idempotent(p.y as int, g.spacing as int);
        if g.spacing >= 1 {
            lemma_snap_axis_is_multiple(p.x as int, g.spacing as int);
            lemma_snap_axis_is_multiple(p.y as int, g.spacing as int);
        }
    }
}

/// A snapped coordinate lies less than one spacing from where it was.
pub proof fn lemma_snap_axis_near(x: int, s: int)
    requires
        i64::MIN <= x <= i64::MAX,
        s >= 1,
    ensures
        -s < snap_axis(x, s) - x < s,
{
    crate::units::lemma_round_div_near(x, s);
    let a = if x >= 0 {
        x
    } else {
        -x
    };
    lemma_mod_pos_bound(a, s);
}

/// Snaps one coordinate to the spacing `s`.
pub fn snap_coordinate(x: i64, s: i64) -> (snapped: i64)
    ensures
        snapped == snap_axis(x as int, s as int),
{
    if s <= 0 {
        return x;
    }
    let a: i128 = if x >= 0 {
        x as i128
    } else {
        -(x as i128)
    };
    let wide: i128 = s as i128;
    let r: i128 = a % wide;
    let below: i128 = a - r;
    proof {
        lemma_nearest_multiple(a as int, s as int);
        lemma_mod_pos_bound(a as int, s as int);
    }
    let nearest: i128 = if 2 * r >= wide {
        below + wide
    } else {
        below
    };
    let signed_nearest: i128 = if x >= 0 {
        nearest
    } else {
        -nearest
    };
    assert(signed_nearest == round_div(x as int, s as int) * s);
    if i64::MIN as i128 <= signed_nearest && signed_nearest <= i64::MAX as i128 {
        signed_nearest as i64
    } else if x >= 0 {
        below as i64
    } else {
        (-below) as i64
    }
}

/// Snaps a point to the grid. With snapping off the point comes back
/// unchanged; with it on, each axis goes to the nearest grid line.
pub fn snap_to_grid(point: Point, settings: &GridSettings) -> (snapped: Point)
    ensures
        snapped == spec_snap_to_grid(point, *settings),
{
    if settings.snap_enabled {
        Point {
            x: snap_coordinate(point.x, settings.spacing),
            y: snap_coordinate(point.y, settings.spacing),
        }
    } else {
        point
    }
}

impl GridSettings {
    /// A visible tenth-inch grid with one-pixel dots, snapping off.
    pub fn new() -> (g: GridSettings)
        ensures
            g.enabled,
            g.spacing == preset_spacing(0),
            g.dot_size == 10,
            !g.snap_enabled,
    {
        GridSettings { enabled: true, spacing: 2_540_000, dot_size: 10, snap_enabled: false }
    }

    /// The spacing of preset `index`, or nothing past the last preset.
    pub fn preset(index: usize) -> (spacing: Option<i64>)
        ensures
            index < GRID_PRESET_COUNT ==> spacing == Some(preset_spacing(index as int) as i64),
            index >= GRID_PRESET_COUNT ==> spacing.is_none(),
    {
        if index == 0 {
            Some(2_540_000)
        } else if index == 1 {
            Some(1_270_000)
        } else if index == 2 {
            Some(635_000)
        } else if index == 3 {
            Some(254_000)
        } else if index == 4 {
            Some(127_000)
        } else if index == 5 {
            Some(50_800)
        } else if index == 6 {
            Some(25_400)
        } else {
            None
        }
    }

    /// Which preset the current spacing is, if any: the first one it
    /// matches up to the tolerance.
    pub fn preset_index(&self) -> (found: Option<usize>)
        ensures
            match found {
                Some(i) => i < GRID_PRESET_COUNT && matches_preset(self.spacing as int, i as int)
                    && forall|j: int| 0 <= j < i ==> !matches_preset(self.spacing as int, j),
                None => forall|j: int|
                    0 <= j < GRID_PRESET_COUNT ==> !matches_preset(self.spacing as int, j),
            },
    {
        let mut i: usize = 0;
        while i < GRID_PRESET_COUNT
            invariant
                i <= GRID_PRESET_COUNT,
                forall|j: int| 0 <= j < i ==> !matches_preset(self.spacing as int, j),
            decreases GRID_PRESET_COUNT - i,
        {
            match GridSettings::preset(i) {
                Some(candidate) => {
                    let gap: i128 = self.spacing as i128 - candidate as i128;
                    if -(GRID_PRESET_TOLERANCE as i128) < gap && gap < GRID_PRESET_TOLERANCE as i128 {
                        return Some(i);
                    }
                },
                None => {},
            }
            i = i + 1;
        }
        None
    }

    /// Sets the spacing to preset `index`. An index past the last preset
    /// changes nothing.
    pub fn select_preset(&mut self, index: usize)
        ensures
            index < GRID_PRESET_COUNT ==> *final(self) == (GridSettings {
                spacing: preset_spacing(index as int) as i64,
                ..*old(self)
            }),
            index >= GRID_PRESET_COUNT ==> *final(self) == *old(self),
    {
        match GridSettings::preset(index) {
            Some(spacing) => {
                self.spacing = spacing;
            },
            None => {},
        }
    }
}

} // verus!
