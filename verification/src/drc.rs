//! The design-rule check: measured widths and clearances are held against
//! thresholds, and what falls short is reported as violations and overlay
//! shapes.
//!
//! Everything the check reports lies in raw geometry space. Nothing of the
//! view is baked in: a caller that wants display positions maps them with
//! the transform pipeline, so a change of the view never asks for a new
//! check.

use crate::geometry::{in_canonical_range, Point};
use crate::transform::{spec_to_display, to_display, ViewTransformState};
use crate::units::clamp_i64;
use vstd::prelude::*;

verus! {

/// How good a measured trace is.
#[derive(Clone, Copy, Debug, PartialEq, Eq, Structural)]
pub enum TraceQualityType {
    /// At or above the preferred value.
    Nominal,
    /// Below the preferred value, but not below the minimum.
    Marginal,
    /// Below the minimum.
    Failing,
}

/// What a measurement is a measurement of.
#[derive(Clone, Copy, Debug, PartialEq, Eq, Structural)]
pub enum DrcRule {
    TraceWidth,
    Clearance,
}

/// The thresholds of the check, in nanometres. They are configuration: the
/// check takes whatever it is given.
#[derive(Clone, Copy, Debug, PartialEq, Eq, Structural)]
pub struct DrcSimple {
    pub min_trace_width: i64,
    pub preferred_trace_width: i64,
    pub min_clearance: i64,
    pub preferred_clearance: i64,
    /// Half the side of the square that marks a failing spot.
    pub marker_half_size: i64,
}

/// One measured width or clearance, at a position in raw geometry space.
#[derive(Clone, Copy, Debug, PartialEq, Eq, Structural)]
pub struct Measurement {
    pub position: Point,
    pub rule: DrcRule,
    pub value: i64,
}

/// A spot where a rule is not met: its position in raw geometry space, the
/// rule, and how badly it is missed.
#[derive(Clone, Copy, Debug, PartialEq, Eq, Structural)]
pub struct DrcViolation {
    pub x: i64,
    pub y: i64,
    pub rule: DrcRule,
    pub quality: TraceQualityType,
}

/// A region to highlight, as the corners of a polygon in raw geometry
/// space. A shape is drawn only if it has at least three corners.
#[derive(Clone, Debug)]
pub struct OverlayShape {
    pub points: Vec<Point>,
}

/// What a check found.
#[derive(Clone, Debug)]
pub struct DrcReport {
    pub violations: Vec<DrcViolation>,
    pub overlays: Vec<OverlayShape>,
}

/// The check's thresholds together with what the last check found.
#[derive(Clone, Debug)]
pub struct DrcManager {
    pub rules: DrcSimple,
    pub violations: Vec<DrcViolation>,
    pub corner_overlay_shapes: Vec<OverlayShape>,
}

/// The quality of a measured `value` against a `minimum` and a `preferred`
/// value.
pub open spec fn spec_classify(value: int, minimum: int, preferred: int) -> TraceQualityType {
    if value < minimum {
        TraceQualityType::Failing
    } else if value < preferred {
        TraceQualityType::Marginal
    } else {
        TraceQualityType::Nominal
    }
}

/// The quality of a measurement under the thresholds `rules`.
pub open spec fn spec_quality(m: Measurement, rules: DrcSimple) -> TraceQualityType {
    match m.rule {
        DrcRule::TraceWidth => spec_classify(
            m.value as int,
            rules.min_trace_width as int,
            rules.preferred_trace_width as int,
        ),
        DrcRule::Clearance => spec_classify(
            m.value as int,
            rules.min_clearance as int,
            rules.preferred_clearance as int,
        ),
    }
}

/// The violation that a measurement of less than nominal quality makes.
pub open spec fn violation_of(m: Measurement, rules: DrcSimple) -> DrcViolation {
    DrcViolation { x: m.position.x, y: m.position.y, rule: m.rule, quality: spec_quality(m, rules) }
}

/// The violations among `measurements`, in the order of the measurements.
pub open spec fn found_violations(measurements: Seq<Measurement>, rules: DrcSimple) -> Seq<
    DrcViolation,
>
    decreases measurements.len(),
{
    if measurements.len() == 0 {
        Seq::empty()
    } else {
        let before = found_violations(measurements.drop_last(), rules);
        if spec_quality(measurements.last(), rules) == TraceQualityType::Nominal {
            before
        } else {
            before.push(violation_of(measurements.last(), rules))
        }
    }
}

/// The place of a rule in the order of violations.
pub open spec fn rule_rank(rule: DrcRule) -> int {
    match rule {
        DrcRule::TraceWidth => 0,
        DrcRule::Clearance => 1,
    }
}

/// The place of a quality in the order of violations.
pub open spec fn quality_rank(quality: TraceQualityType) -> int {
    match quality {
        TraceQualityType::Nominal => 0,
        TraceQualityType::Marginal => 1,
        TraceQualityType::Failing => 2,
    }
}

/// Whether `a` comes before `b` or is equal to it: violations are ordered
/// by x, then y, then rule, then quality.
pub open spec fn in_order(a: DrcViolation, b: DrcViolation) -> bool {
    if a.x != b.x {
        a.x < b.x
    } else if a.y != b.y {
        a.y < b.y
    } else if a.rule != b.rule {
        rule_rank(a.rule) < rule_rank(b.rule)
    } else {
        quality_rank(a.quality) <= quality_rank(b.quality)
    }
}

/// Whether every violation of `s` comes before or with every later one.
pub open spec fn sorted(s: Seq<DrcViolation>) -> bool {
    forall|i: int, j: int| 0 <= i < j < s.len() ==> in_order(s[i], s[j])
}

/// `s` with `v` put in behind the last violation that it does not come
/// before.
pub open spec fn insert_sorted(s: Seq<DrcViolation>, v: DrcViolation) -> Seq<DrcViolation>
    decreases s.len(),
{
    if s.len() == 0 {
        seq![v]
    } else if in_order(s.last(), v) {
        s.push(v)
    } else {
        insert_sorted(s.drop_last(), v).push(s.last())
    }
}

/// The violations of `s` in order.
pub open spec fn sort_violations(s: Seq<DrcViolation>) -> Seq<DrcViolation>
    decreases s.len(),
{
    if s.len() == 0 {
        Seq::empty()
    } else {
        insert_sorted(sort_violations(s.drop_last()), s.last())
    }
}

/// The corners of the square marker around `(x, y)`, counter-clockwise
/// from the lower left. A corner that would leave the canonical range stops
/// at its end.
pub open spec fn marker_corners(x: i64, y: i64, half: i64) -> Seq<Point> {
    let left = clamp_i64(x - half) as i64;
    let right = clamp_i64(x + half) as i64;
    let low = clamp_i64(y - half) as i64;
    let high = clamp_i64(y + half) as i64;
    seq![
        Point { x: left, y: low },
        Point { x: right, y: low },
        Point { x: right, y: high },
        Point { x: left, y: high },
    ]
}

/// The markers of the failing violations among `violations`, in their
/// order.
pub open spec fn failing_markers(violations: Seq<DrcViolation>, half: i64) -> Seq<Seq<Point>>
    decreases violations.len(),
{
    if violations.len() == 0 {
        Seq::empty()
    } else {
        let before = failing_markers(violations.drop_last(), half);
        let last = violations.last();
        if last.quality == TraceQualityType::Failing {
            before.push(marker_corners(last.x, last.y, half))
        } else {
            before
        }
    }
}

/// The corners of each shape of `shapes`.
pub open spec fn shape_views(shapes: Seq<OverlayShape>) -> Seq<Seq<Point>> {
    Seq::new(shapes.len(), |i: int| shapes[i].points@)
}

/// Where the corners `points` are displayed in the view `state`.
pub open spec fn displayed(points: Seq<Point>, state: ViewTransformState) -> Seq<(int, int)> {
    Seq::new(points.len(), |i: int| spec_to_display(points[i]@, state))
}

/// Whether every point of `points` is displayed inside the canonical
/// range.
pub open spec fn all_displayable(points: Seq<Point>, state: ViewTransformState) -> bool {
    forall|i: int| 0 <= i < points.len() ==> in_canonical_range(#[trigger] displayed(points, state)[i])
}

/// The order of violations is total: of two violations one comes before
/// or with the other.
pub proof fn lemma_order_total(a: DrcViolation, b: DrcViolation)
    ensures
        in_order(a, b) || in_order(b, a),
{
}

/// Two violations that each come before or with the other are the same
/// violation.
pub proof fn lemma_order_antisymmetric(a: DrcViolation, b: DrcViolation)
    requires
        in_order(a, b),
        in_order(b, a),
    ensures
        a == b,
{
}

/// The order of violations is transitive.
pub proof fn lemma_order_transitive(a: DrcViolation, b: DrcViolation, c: DrcViolation)
    requires
        in_order(a, b),
        in_order(b, c),
    ensures
        in_order(a, c),
{
}

/// Putting a violation into an ordered list at the place found from the
/// back is the same as `insert_sorted`.
proof fn lemma_insert_at(s: Seq<DrcViolation>, v: DrcViolation, at: int)
    requires
        0 <= at <= s.len(),
        at > 0 ==> in_order(s[at - 1], v),
        forall|k: int| at <= k < s.len() ==> !in_order(s[k], v),
    ensures
        insert_sorted(s, v) == s.insert(at, v),
    decreases s.len() - at,
{
    if s.len() == 0 {
        assert(s.insert(at, v) =~= seq![v]);
    } else if at == s.len() {
        assert(s.insert(at, v) =~= s.push(v));
    } else {
        assert(!in_order(s.last(), v));
        lemma_insert_at(s.drop_last(), v, at);
        assert(s.drop_last().insert(at, v).push(s.last()) =~= s.insert(at, v));
    }
}

/// Inserting into an ordered list keeps it ordered and adds exactly the
/// inserted violation.
pub proof fn lemma_insert_sorted(s: Seq<DrcViolation>, v: DrcViolation)
    requires
        sorted(s),
    ensures
        sorted(insert_sorted(s, v)),
        insert_sorted(s, v).to_multiset() == s.to_multiset().insert(v),
        insert_sorted(s, v).len() == s.len() + 1,
    decreases s.len(),
{
    broadcast use vstd::seq_lib::group_to_multiset_ensures;

    if s.len() == 0 {
        assert(seq![v] =~= Seq::<DrcViolation>::empty().push(v));
    } else if in_order(s.last(), v) {
        let r = s.push(v);
        assert forall|i: int, j: int| 0 <= i < j < r.len() implies in_order(r[i], r[j]) by {
            if j == s.len() {
                if i < s.len() - 1 {
                    lemma_order_transitive(s[i], s.last(), v);
                }
            }
        }
    } else {
        let rest = s.drop_last();
        let last = s.last();
        assert(sorted(rest));
        lemma_insert_sorted(rest, v);
        let inner = insert_sorted(rest, v);
        let r = inner.push(last);
        lemma_order_total(last, v);
        assert forall|k: int| 0 <= k < inner.len() implies in_order(inner[k], last) by {
            assert(inner.to_multiset().count(inner[k]) > 0);
            if inner[k] != v {
                assert(rest.to_multiset().count(inner[k]) > 0);
                assert(rest.contains(inner[k]));
                let i = rest.index_of(inner[k]);
                assert(in_order(s[i], s[s.len() - 1]));
            }
        }
        assert forall|i: int, j: int| 0 <= i < j < r.len() implies in_order(r[i], r[j]) by {
            if j < inner.len() {
                assert(in_order(inner[i], inner[j]));
            }
        }
        assert(s =~= rest.push(last));
        assert(r.to_multiset() =~= s.to_multiset().insert(v));
    }
}

/// Sorting gives an ordered list of exactly the violations that were
/// given: none lost, none added, none changed.
pub proof fn lemma_sort_violations(s: Seq<DrcViolation>)
    ensures
        sorted(sort_violations(s)),
        sort_violations(s).to_multiset() == s.to_multiset(),
        sort_violations(s).len() == s.len(),
    decreases s.len(),
{
    broadcast use vstd::seq_lib::group_to_multiset_ensures;

    if s.len() == 0 {
    } else {
        lemma_sort_violations(s.drop_last());
        lemma_insert_sorted(sort_violations(s.drop_last()), s.last());
        assert(s =~= s.drop_last().push(s.last()));
    }
}

/// An ordered list is determined by what it holds: two ordered lists of
/// the same violations are the same list.
pub proof fn lemma_sorted_unique(a: Seq<DrcViolation>, b: Seq<DrcViolation>)
    requires
        sorted(a),
        sorted(b),
        a.to_multiset() == b.to_multiset(),
    ensures
        a == b,
    decreases a.len(),
{
    broadcast use vstd::seq_lib::group_to_multiset_ensures;

    assert(a.len() == b.len()) by {
        assert(a.to_multiset().len() == a.len());
        assert(b.to_multiset().len() == b.len());
    }
    if a.len() == 0 {
        assert(a =~= b);
    } else {
        let x = a.last();
        let y = b.last();
        assert(a.to_multiset().count(x) > 0) by {
            assert(a.contains(x));
        }
        assert(b.contains(x));
        assert(b.to_multiset().count(y) > 0) by {
            assert(b.contains(y));
        }
        assert(a.contains(y));
        let i = b.index_of(x);
        let j = a.index_of(y);
        assert(in_order(x, y)) by {
            if i < b.len() - 1 {
                assert(in_order(b[i], b[b.len() - 1]));
            }
        }
        assert(in_order(y, x)) by {
            if j < a.len() - 1 {
                assert(in_order(a[j], a[a.len() - 1]));
            }
        }
        lemma_order_antisymmetric(x, y);
        assert(a =~= a.drop_last().push(x));
        assert(b =~= b.drop_last().push(y));
        assert(a.drop_last().to_multiset() =~= b.drop_last().to_multiset()) by {
            assert(a.to_multiset() == a.drop_last().to_multiset().insert(x));
            assert(b.to_multiset() == b.drop_last().to_multiset().insert(x));
            assert forall|v: DrcViolation|
                a.drop_last().to_multiset().count(v) == b.drop_last().to_multiset().count(v) by {
                assert(a.drop_last().to_multiset().insert(x).count(v) == b.drop_last().to_multiset().insert(
                    x,
                ).count(v));
            }
        }
        lemma_sorted_unique(a.drop_last(), b.drop_last());
    }
}

/// The check is deterministic and does not depend on the order in which
/// the violations were found: two lists of the same violations sort to the
/// same list.
pub proof fn lemma_sort_ignores_order(a: Seq<DrcViolation>, b: Seq<DrcViolation>)
    requires
        a.to_multiset() == b.to_multiset(),
    ensures
        sort_violations(a) == sort_violations(b),
{
    lemma_sort_violations(a);
    lemma_sort_violations(b);
    lemma_sorted_unique(sort_violations(a), sort_violations(b));
}

/// Judges a measured value: failing below the minimum, marginal below the
/// preferred value, nominal otherwise.
pub fn classify(value: i64, minimum: i64, preferred: i64) -> (quality: TraceQualityType)
    ensures
        quality == spec_classify(value as int, minimum as int, preferred as int),
{
    if value < minimum {
        TraceQualityType::Failing
    } else if value < preferred {
        TraceQualityType::Marginal
    } else {
        TraceQualityType::Nominal
    }
}

fn rank_of_rule(rule: DrcRule) -> (rank: u8)
    ensures
        rank == rule_rank(rule),
{
    match rule {
        DrcRule::TraceWidth => 0,
        DrcRule::Clearance => 1,
    }
}

fn rank_of_quality(quality: TraceQualityType) -> (rank: u8)
    ensures
        rank == quality_rank(quality),
{
    match quality {
        TraceQualityType::Nominal => 0,
        TraceQualityType::Marginal => 1,
        TraceQualityType::Failing => 2,
    }
}

/// Whether `a` comes before `b` or is equal to it in the order of
/// violations.
pub fn comes_before_or_with(a: &DrcViolation, b: &DrcViolation) -> (ordered: bool)
    ensures
        ordered == in_order(*a, *b),
{
    if a.x != b.x {
        a.x < b.x
    } else if a.y != b.y {
        a.y < b.y
    } else if rank_of_rule(a.rule) != rank_of_rule(b.rule) {
        rank_of_rule(a.rule) < rank_of_rule(b.rule)
    } else {
        rank_of_quality(a.quality) <= rank_of_quality(b.quality)
    }
}

fn insert_in_order(list: &mut Vec<DrcViolation>, v: DrcViolation)
    requires
        sorted(old(list)@),
    ensures
        final(list)@ == insert_sorted(old(list)@, v),
        sorted(final(list)@),
{
    let mut at: usize = list.len();
    while at > 0 && !comes_before_or_with(&list[at - 1], &v)
        invariant
            at <= list@.len(),
            forall|k: int| at <= k < list@.len() ==> !in_order(list@[k], v),
        decreases at,
    {
        at = at - 1;
    }
    proof {
        lemma_insert_at(list@, v, at as int);
        lemma_insert_sorted(list@, v);
    }
    list.insert(at, v);
}

/// Puts violations in order: by x, then y, then rule, then quality.
pub fn sort_in_order(violations: &Vec<DrcViolation>) -> (ordered: Vec<DrcViolation>)
    ensures
        ordered@ == sort_violations(violations@),
        sorted(ordered@),
        ordered@.to_multiset() == violations@.to_multiset(),
{
    let mut ordered: Vec<DrcViolation> = Vec::new();
    let mut i: usize = 0;
    assert(violations@.take(0) =~= Seq::<DrcViolation>::empty());
    while i < violations.len()
        invariant
            i <= violations@.len(),
            ordered@ == sort_violations(violations@.take(i as int)),
            sorted(ordered@),
        decreases violations.len() - i,
    {
        proof {
            assert(violations@.take(i + 1).drop_last() =~= violations@.take(i as int));
            assert(violations@.take(i + 1).last() == violations@[i as int]);
        }
        insert_in_order(&mut ordered, violations[i]);
        i = i + 1;
    }
    proof {
        assert(violations@.take(i as int) =~= violations@);
        lemma_sort_violations(violations@);
    }
    ordered
}

/// The square marker around `(x, y)` with sides of twice `half`.
pub fn square_marker(x: i64, y: i64, half: i64) -> (shape: OverlayShape)
    ensures
        shape.points@ == marker_corners(x, y, half),
{
    let left: i64 = crate::geometry::sub_clamped(x, half);
    let right: i64 = crate::geometry::add_clamped(x, half);
    let low: i64 = crate::geometry::sub_clamped(y, half);
    let high: i64 = crate::geometry::add_clamped(y, half);
    let mut points: Vec<Point> = Vec::new();
    points.push(Point { x: left, y: low });
    points.push(Point { x: right, y: low });
    points.push(Point { x: right, y: high });
    points.push(Point { x: left, y: high });
    assert(points@ =~= marker_corners(x, y, half));
    OverlayShape { points }
}

/// Run the check on `measurements` under the thresholds `rules`. Each
/// measurement of less than nominal quality gives a violation at its own
/// position; the violations come out ordered by x, then y, then rule, then
/// quality, whatever the order of the measurements. Each failing violation
/// gives a square marker, in the order of the violations.
pub fn run_simple_drc_check(measurements: &Vec<Measurement>, rules: &DrcSimple) -> (report:
    DrcReport)
    ensures
        report.violations@ == sort_violations(found_violations(measurements@, *rules)),
        sorted(report.violations@),
        report.violations@.to_multiset() == found_violations(measurements@, *rules).to_multiset(),
        shape_views(report.overlays@) == failing_markers(
            report.violations@,
            rules.marker_half_size,
        ),
{
    let mut violations: Vec<DrcViolation> = Vec::new();
    let mut i: usize = 0;
    assert(measurements@.take(0) =~= Seq::<Measurement>::empty());
    while i < measurements.len()
        invariant
            i <= measurements@.len(),
            violations@ == sort_violations(
                found_violations(measurements@.take(i as int), *rules),
            ),
            sorted(violations@),
        decreases measurements.len() - i,
    {
        let m: Measurement = measurements[i];
        let quality: TraceQualityType = rules.quality_of(&m);
        proof {
            assert(measurements@.take(i + 1).drop_last() =~= measurements@.take(i as int));
            assert(measurements@.take(i + 1).last() == measurements@[i as int]);
            let before = found_violations(measurements@.take(i as int), *rules);
            if quality != TraceQualityType::Nominal {
                assert(before.push(violation_of(m, *rules)).drop_last() =~= before);
            }
        }
        match quality {
            TraceQualityType::Nominal => {},
            _ => {
                insert_in_order(
                    &mut violations,
                    DrcViolation { x: m.position.x, y: m.position.y, rule: m.rule, quality },
                );
            },
        }
        i = i + 1;
    }
    proof {
        assert(measurements@.take(i as int) =~= measurements@);
        lemma_sort_violations(found_violations(measurements@, *rules));
    }
    let overlays: Vec<OverlayShape> = markers_of(&violations, rules.marker_half_size);
    DrcReport { violations, overlays }
}

/// The square markers of the failing violations among `violations`, in
/// their order.
pub fn markers_of(violations: &Vec<DrcViolation>, half: i64) -> (overlays: Vec<OverlayShape>)
    ensures
        shape_views(overlays@) == failing_markers(violations@, half),
{
    let mut overlays: Vec<OverlayShape> = Vec::new();
    let mut i: usize = 0;
    assert(violations@.take(0) =~= Seq::<DrcViolation>::empty());
    assert(shape_views(overlays@) =~= failing_markers(violations@.take(0), half));
    while i < violations.len()
        invariant
            i <= violations@.len(),
            shape_views(overlays@) == failing_markers(violations@.take(i as int), half),
        decreases violations.len() - i,
    {
        let v: DrcViolation = violations[i];
        proof {
            assert(violations@.take(i + 1).drop_last() =~= violations@.take(i as int));
            assert(violations@.take(i + 1).last() == violations@[i as int]);
        }
        let ghost before = overlays@;
        match v.quality {
            TraceQualityType::Failing => {
                let shape = square_marker(v.x, v.y, half);
                overlays.push(shape);
                assert(shape_views(overlays@) =~= shape_views(before).push(
                    marker_corners(v.x, v.y, half),
                ));
            },
            _ => {},
        }
        i = i + 1;
    }
    assert(violations@.take(i as int) =~= violations@);
    overlays
}

impl DrcSimple {
    /// The thresholds that a check starts with unless it is given others:
    /// 0.15 mm minimum and 0.2 mm preferred, for widths and clearances
    /// alike, and markers of 1 mm.
    pub fn new() -> (rules: DrcSimple)
        ensures
            rules == (DrcSimple {
                min_trace_width: 150_000,
                preferred_trace_width: 200_000,
                min_clearance: 150_000,
                preferred_clearance: 200_000,
                marker_half_size: 500_000,
            }),
    {
        DrcSimple {
            min_trace_width: 150_000,
            preferred_trace_width: 200_000,
            min_clearance: 150_000,
            preferred_clearance: 200_000,
            marker_half_size: 500_000,
        }
    }

    /// The quality of a measurement under these thresholds.
    pub fn quality_of(&self, m: &Measurement) -> (quality: TraceQualityType)
        ensures
            quality == spec_quality(*m, *self),
    {
        match m.rule {
            DrcRule::TraceWidth => classify(
                m.value,
                self.min_trace_width,
                self.preferred_trace_width,
            ),
            DrcRule::Clearance => classify(m.value, self.min_clearance, self.preferred_clearance),
        }
    }
}

impl Measurement {
    pub fn new(position: Point, rule: DrcRule, value: i64) -> (m: Measurement)
        ensures
            m == (Measurement { position, rule, value }),
    {
        Measurement { position, rule, value }
    }
}

impl DrcViolation {
    /// Where the violation lies in raw geometry space.
    pub fn position(&self) -> (p: Point)
        ensures
            p == (Point { x: self.x, y: self.y }),
    {
        Point { x: self.x, y: self.y }
    }

    /// Where the violation is displayed in the view `state`: its position
    /// put through the transform pipeline. Gives `None` exactly when that
    /// lies outside the canonical range.
    pub fn to_display(&self, state: &ViewTransformState) -> (shown: Option<Point>)
        ensures
            match shown {
                Some(q) => q@ == spec_to_display((self.x as int, self.y as int), *state),
                None => !in_canonical_range(
                    spec_to_display((self.x as int, self.y as int), *state),
                ),
            },
    {
        to_display(self.position(), state)
    }
}

impl OverlayShape {
    pub fn new(points: Vec<Point>) -> (shape: OverlayShape)
        ensures
            shape.points == points,
    {
        OverlayShape { points }
    }

    /// Whether the shape has the three corners that a polygon needs.
    pub fn is_drawable(&self) -> (drawable: bool)
        ensures
            drawable == (self.points@.len() >= 3),
    {
        self.points.len() >= 3
    }

    /// Where the corners of the shape are displayed in the view `state`,
    /// each put through the transform pipeline. Gives `None` exactly when
    /// the shape has fewer than three corners or a corner is displayed
    /// outside the canonical range.
    pub fn to_display(&self, state: &ViewTransformState) -> (shown: Option<Vec<Point>>)
        ensures
            shown.is_some() <==> self.points@.len() >= 3 && all_displayable(self.points@, *state),
            match shown {
                Some(corners) => corners@.len() == self.points@.len() && forall|i: int|
                    0 <= i < corners@.len() ==> (#[trigger] corners@[i])@ == displayed(
                        self.points@,
                        *state,
                    )[i],
                None => true,
            },
    {
        if self.points.len() < 3 {
            return None;
        }
        let mut corners: Vec<Point> = Vec::new();
        let mut i: usize = 0;
        while i < self.points.len()
            invariant
                i <= self.points@.len(),
                corners@.len() == i,
                forall|k: int|
                    0 <= k < i ==> (#[trigger] corners@[k])@ == displayed(self.points@, *state)[k],
                forall|k: int|
                    0 <= k < i ==> in_canonical_range(
                        #[trigger] displayed(self.points@, *state)[k],
                    ),
            decreases self.points.len() - i,
        {
            match to_display(self.points[i], state) {
                Some(q) => {
                    corners.push(q);
                },
                None => {
                    assert(!in_canonical_range(displayed(self.points@, *state)[i as int]));
                    return None;
                },
            }
            i = i + 1;
        }
        Some(corners)
    }
}

impl DrcManager {
    /// A manager with the thresholds `rules` and nothing found yet.
    pub fn new(rules: DrcSimple) -> (manager: DrcManager)
        ensures
            manager.rules == rules,
            manager.violations@ == Seq::<DrcViolation>::empty(),
            manager.corner_overlay_shapes@ == Seq::<OverlayShape>::empty(),
    {
        DrcManager { rules, violations: Vec::new(), corner_overlay_shapes: Vec::new() }
    }

    /// Runs the check on `measurements` under the manager's thresholds and
    /// keeps what it finds, in place of what the last check found.
    pub fn run_check(&mut self, measurements: &Vec<Measurement>)
        ensures
            final(self).rules == old(self).rules,
            final(self).violations@ == sort_violations(
                found_violations(measurements@, old(self).rules),
            ),
            shape_views(final(self).corner_overlay_shapes@) == failing_markers(
                final(self).violations@,
                old(self).rules.marker_half_size,
            ),
    {
        let report = run_simple_drc_check(measurements, &self.rules);
        self.violations = report.violations;
        self.corner_overlay_shapes = report.overlays;
    }

    /// Forgets what the last check found.
    pub fn clear(&mut self)
        ensures
            final(self).rules == old(self).rules,
            final(self).violations@ == Seq::<DrcViolation>::empty(),
            final(self).corner_overlay_shapes@ == Seq::<OverlayShape>::empty(),
    {
        self.violations = Vec::new();
        self.corner_overlay_shapes = Vec::new();
    }

    /// How many violations the last check found.
    pub fn violation_count(&self) -> (count: usize)
        ensures
            count == self.violations@.len(),
    {
        self.violations.len()
    }
}

} // verus!
