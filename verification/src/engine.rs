//! Snap geometry in flipped screen space: origin top-left, Y growing downward.

use vstd::prelude::*;
use crate::config::{Config, default_cycle_ratios, default_center_ratios};

verus! {

/// `x` is a value an `i32` can hold.
pub open spec fn fits_i32(x: int) -> bool {
    i32::MIN <= x <= i32::MAX
}

pub open spec fn min_int(a: int, b: int) -> int {
    if a <= b { a } else { b }
}

pub open spec fn max_int(a: int, b: int) -> int {
    if a >= b { a } else { b }
}

/// Integer division rounding toward zero, as Rust's `/` on signed integers does.
pub open spec fn trunc_div(x: int, d: int) -> int
    recommends
        d > 0,
{
    if x >= 0 {
        x / d
    } else {
        -((-x) / d)
    }
}

/// An axis-aligned rectangle given by its four edges.
#[derive(Debug, Clone, Copy, PartialEq, Eq, Structural)]
pub struct Rect {
    pub left: i32,
    pub top: i32,
    pub right: i32,
    pub bottom: i32,
}

/// Width of the overlap of two spans, clamped at zero.
pub open spec fn overlap_len(lo1: int, hi1: int, lo2: int, hi2: int) -> int {
    max_int(min_int(hi1, hi2) - max_int(lo1, lo2), 0)
}

impl Rect {
    pub open spec fn spec_width(self) -> int {
        self.right - self.left
    }

    pub open spec fn spec_height(self) -> int {
        self.bottom - self.top
    }

    /// Area of the overlap of two rectangles, zero when they are disjoint.
    pub open spec fn spec_intersection_area(self, other: Rect) -> int {
        overlap_len(self.left as int, self.right as int, other.left as int, other.right as int)
            * overlap_len(self.top as int, self.bottom as int, other.top as int, other.bottom as int)
    }

    /// Whether computing the overlap does not leave the `i32` range on either axis.
    pub open spec fn overlap_fits(self, other: Rect) -> bool {
        &&& fits_i32(min_int(self.right as int, other.right as int) - max_int(self.left as int, other.left as int))
        &&& fits_i32(min_int(self.bottom as int, other.bottom as int) - max_int(self.top as int, other.top as int))
    }

    /// The centre point, each coordinate rounded toward the near edge.
    pub open spec fn spec_center(self) -> (int, int) {
        (self.left + trunc_div(self.spec_width(), 2), self.top + trunc_div(self.spec_height(), 2))
    }

    pub fn width(&self) -> (w: i32)
        requires
            fits_i32(self.spec_width()),
        ensures
            w == self.spec_width(),
    {
        self.right - self.left
    }

    pub fn height(&self) -> (h: i32)
        requires
            fits_i32(self.spec_height()),
        ensures
            h == self.spec_height(),
    {
        self.bottom - self.top
    }

    /// The centre point of the rectangle.
    pub fn center(&self) -> (c: (i32, i32))
        requires
            fits_i32(self.spec_width()),
            fits_i32(self.spec_height()),
        ensures
            c.0 == self.spec_center().0,
            c.1 == self.spec_center().1,
    {
        (self.left + self.width() / 2, self.top + self.height() / 2)
    }

    /// Area of the overlap with `other`, or 0 if they do not intersect.
    pub fn intersection_area(&self, other: &Rect) -> (area: i64)
        requires
            self.overlap_fits(*other),
        ensures
            area == self.spec_intersection_area(*other),
            area >= 0,
    {
        let right = if self.right <= other.right { self.right } else { other.right };
        let left = if self.left >= other.left { self.left } else { other.left };
        let bottom = if self.bottom <= other.bottom { self.bottom } else { other.bottom };
        let top = if self.top >= other.top { self.top } else { other.top };
        let dw = right - left;
        let dh = bottom - top;
        let w: i64 = if dw > 0 { dw as i64 } else { 0 };
        let h: i64 = if dh > 0 { dh as i64 } else { 0 };
        assert(0 <= w * h <= i32::MAX * i32::MAX) by (nonlinear_arith)
            requires
                0 <= w <= i32::MAX,
                0 <= h <= i32::MAX,
        ;
        w * h
    }
}

/// A fraction `num / den` of a length. Values in `(0, 1]` are the useful
/// ones; others can be held so that settings can be checked and dropped.
#[derive(Debug, Clone, Copy, PartialEq, Eq, Structural)]
pub struct Ratio {
    pub num: i32,
    pub den: i32,
}

impl Ratio {
    /// The ratio lies in `(0, 1]`.
    pub open spec fn in_unit_range(self) -> bool {
        0 < self.num && self.num <= self.den
    }

    /// Whether the ratio lies in `(0, 1]`.
    pub fn is_usable(&self) -> (b: bool)
        ensures
            b == self.in_unit_range(),
    {
        0 < self.num && self.num <= self.den
    }
}

/// Clamp to the `i32` range, as a float-to-integer `as` conversion does.
pub open spec fn clamp_i32(x: int) -> int {
    if x < i32::MIN {
        i32::MIN as int
    } else if x > i32::MAX {
        i32::MAX as int
    } else {
        x
    }
}

/// `len` scaled by `r`, rounded toward zero. A ratio without a positive
/// denominator has no value and scales every length to zero.
pub open spec fn scale(len: int, r: Ratio) -> int {
    if r.den > 0 {
        clamp_i32(trunc_div(len * r.num, r.den as int))
    } else {
        0
    }
}

/// `len` scaled by `r`, rounded toward zero.
pub fn scale_len(len: i32, r: &Ratio) -> (n: i32)
    ensures
        n == scale(len as int, *r),
{
    if r.den <= 0 {
        return 0;
    }
    let l: i64 = len as i64;
    let m: i64 = r.num as i64;
    assert(-0x4000_0000_0000_0000 <= l * m <= 0x4000_0000_0000_0000) by (nonlinear_arith)
        requires
            i32::MIN <= l <= i32::MAX,
            i32::MIN <= m <= i32::MAX,
    ;
    let p: i64 = l * m;
    let q: i64 = p / (r.den as i64);
    if q < i32::MIN as i64 {
        i32::MIN
    } else if q > i32::MAX as i64 {
        i32::MAX
    } else {
        q as i32
    }
}

/// `ratios[cycle]`, wrapping around, or `fallback` for an empty list.
pub open spec fn ratio_at_spec(ratios: Seq<Ratio>, cycle: int, fallback: Ratio) -> Ratio {
    if ratios.len() == 0 {
        fallback
    } else {
        ratios[cycle % (ratios.len() as int)]
    }
}

/// Pick `ratios[cycle]`, wrapping, with a fallback for an empty list.
pub fn ratio_at(ratios: &Vec<Ratio>, cycle: usize, fallback: Ratio) -> (r: Ratio)
    ensures
        r == ratio_at_spec(ratios@, cycle as int, fallback),
{
    if ratios.len() == 0 {
        return fallback;
    }
    ratios[cycle % ratios.len()]
}

/// The snap parameters that `calculate_snap` needs, taken from the settings.
#[derive(Debug, Clone, PartialEq)]
pub struct SnapConfig {
    pub cycle_ratios: Vec<Ratio>,
    pub center_ratios: Vec<Ratio>,
    pub screen_edge_gap: i32,
    pub window_gap: i32,
}

/// Rectangle edges as mathematical integers.
pub struct Edges {
    pub left: int,
    pub top: int,
    pub right: int,
    pub bottom: int,
}

impl Rect {
    pub open spec fn edges(self) -> Edges {
        Edges { left: self.left as int, top: self.top as int, right: self.right as int, bottom: self.bottom as int }
    }
}

impl Edges {
    pub open spec fn fits(self) -> bool {
        fits_i32(self.left) && fits_i32(self.top) && fits_i32(self.right) && fits_i32(self.bottom)
    }

    pub open spec fn width(self) -> int {
        self.right - self.left
    }

    pub open spec fn height(self) -> int {
        self.bottom - self.top
    }
}

/// `r` moved inward by `by` on all four sides.
pub open spec fn inset_spec(r: Edges, by: int) -> Edges {
    Edges { left: r.left + by, top: r.top + by, right: r.right - by, bottom: r.bottom - by }
}

/// How a snapped window sits along one axis of the work area.
pub enum Anchor {
    /// Flush with the low edge (left or top), sized by the cycle ratio.
    Start,
    /// Flush with the high edge (right or bottom), sized by the cycle ratio.
    End,
    /// The whole axis.
    Whole,
    /// Centred, sized by the centre ratio.
    Middle,
}

/// Horizontal anchor of a grid position, laid out as a numeric keypad.
pub open spec fn column_anchor(key: u32) -> Anchor {
    if key == 1 || key == 4 || key == 7 {
        Anchor::Start
    } else if key == 3 || key == 6 || key == 9 {
        Anchor::End
    } else if key == 5 {
        Anchor::Middle
    } else {
        Anchor::Whole
    }
}

/// Vertical anchor of a grid position: row 1-3 at the bottom, 7-9 at the top.
pub open spec fn row_anchor(key: u32) -> Anchor {
    if key == 7 || key == 8 || key == 9 {
        Anchor::Start
    } else if key == 1 || key == 2 || key == 3 {
        Anchor::End
    } else if key == 5 {
        Anchor::Middle
    } else {
        Anchor::Whole
    }
}

/// The `(low, high)` edges of the window along an axis spanning `lo..hi`.
pub open spec fn span(lo: int, hi: int, anchor: Anchor, grid: Ratio, center: Ratio) -> (int, int) {
    let len = hi - lo;
    match anchor {
        Anchor::Start => (lo, lo + scale(len, grid)),
        Anchor::End => (hi - scale(len, grid), hi),
        Anchor::Whole => (lo, hi),
        Anchor::Middle => {
            let n = scale(len, center);
            let x = lo + trunc_div(len - n, 2);
            (x, x + n)
        },
    }
}

/// Computing `span` stays inside the `i32` range at every step.
pub open spec fn span_fits(lo: int, hi: int, anchor: Anchor, grid: Ratio, center: Ratio) -> bool {
    let len = hi - lo;
    &&& fits_i32(lo)
    &&& fits_i32(hi)
    &&& fits_i32(len)
    &&& match anchor {
        Anchor::Start => fits_i32(lo + scale(len, grid)),
        Anchor::End => fits_i32(hi - scale(len, grid)),
        Anchor::Whole => true,
        Anchor::Middle => {
            let n = scale(len, center);
            &&& fits_i32(len - n)
            &&& fits_i32(lo + trunc_div(len - n, 2))
            &&& fits_i32(lo + trunc_div(len - n, 2) + n)
        },
    }
}

/// The window's interior edges pulled in by half the gap: the low edges (left,
/// top) by `gap / 2`, the high edges (right, bottom) by the rest, so that two
/// neighbours meeting edge to edge end up exactly `gap` apart. Edges on or past
/// the work-area boundary stay put; a gap that would leave no width or height
/// is not applied at all.
pub open spec fn gap_spec(rect: Edges, area: Edges, gap: int) -> Edges {
    if gap <= 0 {
        rect
    } else {
        let lead = gap / 2;
        let trail = gap - lead;
        let gapped = Edges {
            left: if rect.left > area.left { rect.left + lead } else { rect.left },
            top: if rect.top > area.top { rect.top + lead } else { rect.top },
            right: if rect.right < area.right { rect.right - trail } else { rect.right },
            bottom: if rect.bottom < area.bottom { rect.bottom - trail } else { rect.bottom },
        };
        if gapped.width() <= 0 || gapped.height() <= 0 {
            rect
        } else {
            gapped
        }
    }
}

/// Computing `gap_spec` stays inside the `i32` range at every step.
pub open spec fn gap_fits(rect: Edges, area: Edges, gap: int) -> bool {
    gap > 0 ==> {
        let lead = gap / 2;
        let trail = gap - lead;
        let gapped = Edges {
            left: if rect.left > area.left { rect.left + lead } else { rect.left },
            top: if rect.top > area.top { rect.top + lead } else { rect.top },
            right: if rect.right < area.right { rect.right - trail } else { rect.right },
            bottom: if rect.bottom < area.bottom { rect.bottom - trail } else { rect.bottom },
        };
        &&& gapped.fits()
        &&& fits_i32(gapped.width())
        &&& fits_i32(gapped.height())
    }
}

/// The ratio a tap uses for halves and corners: the cycle ratios, or a half.
pub open spec fn grid_ratio(config: SnapConfig, cycle: int) -> Ratio {
    ratio_at_spec(config.cycle_ratios@, cycle, Ratio { num: 1, den: 2 })
}

/// The ratio a tap uses for the centre position: the centre ratios, or all of it.
pub open spec fn center_ratio(config: SnapConfig, cycle: int) -> Ratio {
    ratio_at_spec(config.center_ratios@, cycle, Ratio { num: 1, den: 1 })
}

/// The area windows are laid out in: the work area less the screen-edge gap.
pub open spec fn layout_area(work_area: Rect, config: SnapConfig) -> Edges {
    inset_spec(work_area.edges(), config.screen_edge_gap as int)
}

/// Where grid position `key` puts a window before the window gap.
pub open spec fn snapped_spec(key: u32, cycle: int, work_area: Rect, config: SnapConfig) -> Edges {
    let area = layout_area(work_area, config);
    let g = grid_ratio(config, cycle);
    let c = center_ratio(config, cycle);
    let (x0, x1) = span(area.left, area.right, column_anchor(key), g, c);
    let (y0, y1) = span(area.top, area.bottom, row_anchor(key), g, c);
    Edges { left: x0, top: y0, right: x1, bottom: y1 }
}

/// The final snapped frame for grid position `key` on tap number `cycle`.
pub open spec fn snap_spec(key: u32, cycle: int, work_area: Rect, config: SnapConfig) -> Edges {
    gap_spec(
        snapped_spec(key, cycle, work_area, config),
        layout_area(work_area, config),
        config.window_gap as int,
    )
}

/// Every intermediate value of the snap computation fits an `i32`.
pub open spec fn snap_fits(key: u32, cycle: int, work_area: Rect, config: SnapConfig) -> bool {
    let area = layout_area(work_area, config);
    let g = grid_ratio(config, cycle);
    let c = center_ratio(config, cycle);
    &&& area.fits()
    &&& span_fits(area.left, area.right, column_anchor(key), g, c)
    &&& span_fits(area.top, area.bottom, row_anchor(key), g, c)
    &&& gap_fits(snapped_spec(key, cycle, work_area, config), area, config.window_gap as int)
}

impl Rect {
    /// The rectangle moved inward by `by` on all four sides.
    pub fn inset(&self, by: i32) -> (r: Rect)
        requires
            inset_spec(self.edges(), by as int).fits(),
        ensures
            r.edges() == inset_spec(self.edges(), by as int),
    {
        Rect { left: self.left + by, top: self.top + by, right: self.right - by, bottom: self.bottom - by }
    }
}

/// Pull the window's interior edges in by half the gap.
///
/// Only interior edges move: an edge on the work-area boundary has already
/// been placed by the screen-edge gap. Two windows meeting in the middle each
/// give up half, the left or upper one taking the larger half of an odd gap,
/// so the visible channel between them is the full gap. A gap too large for
/// the window is not applied.
pub fn apply_window_gap(rect: Rect, work_area: Rect, gap: i32) -> (r: Rect)
    requires
        gap_fits(rect.edges(), work_area.edges(), gap as int),
    ensures
        r.edges() == gap_spec(rect.edges(), work_area.edges(), gap as int),
{
    if gap <= 0 {
        return rect;
    }
    let lead = gap / 2;
    let trail = gap - lead;

    let mut gapped = rect;
    if rect.left > work_area.left {
        gapped.left = gapped.left + lead;
    }
    if rect.top > work_area.top {
        gapped.top = gapped.top + lead;
    }
    if rect.right < work_area.right {
        gapped.right = gapped.right - trail;
    }
    if rect.bottom < work_area.bottom {
        gapped.bottom = gapped.bottom - trail;
    }

    if gapped.width() <= 0 || gapped.height() <= 0 {
        return rect;
    }
    gapped
}

/// Takes the current window rect, the display's work area and the snap
/// parameters, and returns the frame for grid position `key` (1-9, laid out
/// as a numeric keypad) on tap number `cycle`. Any other key fills the area.
pub fn calculate_snap(key: u32, cycle: usize, _current: Rect, work_area: Rect, config: &SnapConfig) -> (r: Rect)
    requires
        snap_fits(key, cycle as int, work_area, *config),
    ensures
        r.edges() == snap_spec(key, cycle as int, work_area, *config),
{
    let work_area = work_area.inset(config.screen_edge_gap);

    let mw = work_area.right - work_area.left;
    let mh = work_area.bottom - work_area.top;

    let grid = ratio_at(&config.cycle_ratios, cycle, Ratio { num: 1, den: 2 });

    let (nx, ny, nw, nh) = if key == 1 {
        let nw = scale_len(mw, &grid);
        let nh = scale_len(mh, &grid);
        (work_area.left, work_area.bottom - nh, nw, nh)
    } else if key == 2 {
        let nh = scale_len(mh, &grid);
        (work_area.left, work_area.bottom - nh, mw, nh)
    } else if key == 3 {
        let nw = scale_len(mw, &grid);
        let nh = scale_len(mh, &grid);
        (work_area.right - nw, work_area.bottom - nh, nw, nh)
    } else if key == 4 {
        let nw = scale_len(mw, &grid);
        (work_area.left, work_area.top, nw, mh)
    } else if key == 5 {
        let ratio = ratio_at(&config.center_ratios, cycle, Ratio { num: 1, den: 1 });
        let nw = scale_len(mw, &ratio);
        let nh = scale_len(mh, &ratio);
        (work_area.left + (mw - nw) / 2, work_area.top + (mh - nh) / 2, nw, nh)
    } else if key == 6 {
        let nw = scale_len(mw, &grid);
        (work_area.right - nw, work_area.top, nw, mh)
    } else if key == 7 {
        let nw = scale_len(mw, &grid);
        let nh = scale_len(mh, &grid);
        (work_area.left, work_area.top, nw, nh)
    } else if key == 8 {
        let nh = scale_len(mh, &grid);
        (work_area.left, work_area.top, mw, nh)
    } else if key == 9 {
        let nw = scale_len(mw, &grid);
        let nh = scale_len(mh, &grid);
        (work_area.right - nw, work_area.top, nw, nh)
    } else {
        (work_area.left, work_area.top, mw, mh)
    };

    let snapped = Rect { left: nx, top: ny, right: nx + nw, bottom: ny + nh };

    apply_window_gap(snapped, work_area, config.window_gap)
}

/// Both ratio lists hold only ratios in `(0, 1]`, as sanitised settings do.
pub open spec fn ratios_usable(config: SnapConfig) -> bool {
    &&& forall|i: int| 0 <= i < config.cycle_ratios@.len() ==> (#[trigger] config.cycle_ratios@[i]).in_unit_range()
    &&& forall|i: int| 0 <= i < config.center_ratios@.len() ==> (#[trigger] config.center_ratios@[i]).in_unit_range()
}

/// A ratio in `(0, 1]` scales a non-negative length to between zero and itself.
pub proof fn lemma_scale_bounds(len: int, r: Ratio)
    requires
        0 <= len <= i32::MAX,
        r.in_unit_range(),
    ensures
        0 <= scale(len, r) <= len,
{
    let p = len * r.num;
    let d = r.den as int;
    assert(0 <= p <= len * d) by (nonlinear_arith)
        requires
            p == len * r.num,
            d == r.den,
            0 <= len,
            0 < r.num <= r.den,
    ;
    assert(0 <= p / d <= len) by (nonlinear_arith)
        requires
            0 <= p <= len * d,
            d > 0,
    ;
}

proof fn lemma_ratio_at_usable(ratios: Seq<Ratio>, cycle: int, fallback: Ratio)
    requires
        cycle >= 0,
        fallback.in_unit_range(),
        forall|i: int| 0 <= i < ratios.len() ==> (#[trigger] ratios[i]).in_unit_range(),
    ensures
        ratio_at_spec(ratios, cycle, fallback).in_unit_range(),
{
    if ratios.len() > 0 {
        let i = cycle % (ratios.len() as int);
        assert(0 <= i < ratios.len());
        assert(ratios[i].in_unit_range());
    }
}

proof fn lemma_span_within(lo: int, hi: int, anchor: Anchor, grid: Ratio, center: Ratio)
    requires
        lo <= hi,
        hi - lo <= i32::MAX,
        grid.in_unit_range(),
        center.in_unit_range(),
    ensures
        lo <= span(lo, hi, anchor, grid, center).0 <= span(lo, hi, anchor, grid, center).1 <= hi,
{
    let len = hi - lo;
    lemma_scale_bounds(len, grid);
    lemma_scale_bounds(len, center);
}

/// With usable ratios and a layout area that is not inverted, every grid
/// position, on every tap, with any window gap, lands inside the layout area
/// (the work area less the screen-edge gap), and never with negative size.
pub proof fn lemma_snap_stays_inside(key: u32, cycle: int, work_area: Rect, config: SnapConfig)
    requires
        cycle >= 0,
        ratios_usable(config),
        snap_fits(key, cycle, work_area, config),
        layout_area(work_area, config).width() >= 0,
        layout_area(work_area, config).height() >= 0,
    ensures
        ({
            let area = layout_area(work_area, config);
            let r = snap_spec(key, cycle, work_area, config);
            &&& area.left <= r.left <= r.right <= area.right
            &&& area.top <= r.top <= r.bottom <= area.bottom
        }),
{
    let area = layout_area(work_area, config);
    lemma_ratio_at_usable(config.cycle_ratios@, cycle, Ratio { num: 1, den: 2 });
    lemma_ratio_at_usable(config.center_ratios@, cycle, Ratio { num: 1, den: 1 });
    let g = grid_ratio(config, cycle);
    let c = center_ratio(config, cycle);
    lemma_span_within(area.left, area.right, column_anchor(key), g, c);
    lemma_span_within(area.top, area.bottom, row_anchor(key), g, c);
}

/// Positions anchored to an edge of the layout area keep that edge exactly,
/// whatever the ratios and whatever the window gap: corners sit in their
/// corners, halves against their sides, and the outer margin is exactly the
/// screen-edge gap.
pub proof fn lemma_snap_anchors(key: u32, cycle: int, work_area: Rect, config: SnapConfig)
    ensures
        ({
            let area = layout_area(work_area, config);
            let r = snap_spec(key, cycle, work_area, config);
            &&& (column_anchor(key) is Start || column_anchor(key) is Whole) ==> r.left == area.left
            &&& (column_anchor(key) is End || column_anchor(key) is Whole) ==> r.right == area.right
            &&& (row_anchor(key) is Start || row_anchor(key) is Whole) ==> r.top == area.top
            &&& (row_anchor(key) is End || row_anchor(key) is Whole) ==> r.bottom == area.bottom
        }),
{
}

/// The window gap: no gap leaves the frame as it is; an edge on or beyond the
/// boundary never moves; an interior low edge moves inward by `gap / 2` and an
/// interior high edge by the rest of the gap; and the result is either the
/// frame unchanged or one of positive size.
pub proof fn lemma_gap_properties(rect: Edges, area: Edges, gap: int)
    ensures
        gap <= 0 ==> gap_spec(rect, area, gap) == rect,
        rect.left <= area.left ==> gap_spec(rect, area, gap).left == rect.left,
        rect.top <= area.top ==> gap_spec(rect, area, gap).top == rect.top,
        rect.right >= area.right ==> gap_spec(rect, area, gap).right == rect.right,
        rect.bottom >= area.bottom ==> gap_spec(rect, area, gap).bottom == rect.bottom,
        gap_spec(rect, area, gap) == rect || (gap_spec(rect, area, gap).width() > 0
            && gap_spec(rect, area, gap).height() > 0),
        gap > 0 && gap_spec(rect, area, gap) != rect && rect.left > area.left
            ==> gap_spec(rect, area, gap).left == rect.left + gap / 2,
        gap > 0 && gap_spec(rect, area, gap) != rect && rect.right < area.right
            ==> gap_spec(rect, area, gap).right == rect.right - (gap - gap / 2),
        gap > 0 && gap_spec(rect, area, gap) != rect && rect.top > area.top
            ==> gap_spec(rect, area, gap).top == rect.top + gap / 2,
        gap > 0 && gap_spec(rect, area, gap) != rect && rect.bottom < area.bottom
            ==> gap_spec(rect, area, gap).bottom == rect.bottom - (gap - gap / 2),
{
}

/// Two neighbours that meet edge to edge inside the area, side by side or one
/// above the other, are exactly `gap` apart once the window gap is applied to
/// both: each gives up half, the first taking the larger half of an odd gap.
pub proof fn lemma_gap_separates_neighbours(first: Edges, second: Edges, area: Edges, gap: int)
    requires
        gap > 0,
        gap_spec(first, area, gap) != first,
        gap_spec(second, area, gap) != second,
    ensures
        first.right == second.left && area.left < second.left && first.right < area.right ==> gap_spec(
            second,
            area,
            gap,
        ).left - gap_spec(first, area, gap).right == gap,
        first.bottom == second.top && area.top < second.top && first.bottom < area.bottom ==> gap_spec(
            second,
            area,
            gap,
        ).top - gap_spec(first, area, gap).bottom == gap,
{
}

/// Tapping again cycles: a further full round of the ratio list in use (the
/// cycle ratios for halves and corners, the centre ratios for the centre)
/// gives the same frame. With one ratio every tap gives the same frame.
pub proof fn lemma_cycle_wraps(key: u32, cycle: int, work_area: Rect, config: SnapConfig)
    requires
        cycle >= 0,
    ensures
        key != 5 ==> snap_spec(key, cycle + config.cycle_ratios@.len(), work_area, config)
            == snap_spec(key, cycle, work_area, config),
        key == 5 ==> snap_spec(key, cycle + config.center_ratios@.len(), work_area, config)
            == snap_spec(key, cycle, work_area, config),
{
    let n = config.cycle_ratios@.len() as int;
    let m = config.center_ratios@.len() as int;
    if n > 0 {
        vstd::arithmetic::div_mod::lemma_mod_add_multiples_vanish(cycle, n);
    }
    if m > 0 {
        vstd::arithmetic::div_mod::lemma_mod_add_multiples_vanish(cycle, m);
    }
    if key != 5 {
        assert(grid_ratio(config, cycle + n) == grid_ratio(config, cycle));
    } else {
        assert(center_ratio(config, cycle + m) == center_ratio(config, cycle));
    }
}

/// The centre position without a window gap leaves equal margins on opposite
/// sides, to within one pixel of rounding.
pub proof fn lemma_center_is_centered(cycle: int, work_area: Rect, config: SnapConfig)
    requires
        cycle >= 0,
        ratios_usable(config),
        config.window_gap <= 0,
        layout_area(work_area, config).width() >= 0,
        layout_area(work_area, config).height() >= 0,
        layout_area(work_area, config).width() <= i32::MAX,
        layout_area(work_area, config).height() <= i32::MAX,
    ensures
        ({
            let area = layout_area(work_area, config);
            let r = snap_spec(5, cycle, work_area, config);
            &&& -1 <= (r.left - area.left) - (area.right - r.right) <= 1
            &&& -1 <= (r.top - area.top) - (area.bottom - r.bottom) <= 1
        }),
{
    let area = layout_area(work_area, config);
    lemma_ratio_at_usable(config.center_ratios@, cycle, Ratio { num: 1, den: 1 });
    let c = center_ratio(config, cycle);
    lemma_scale_bounds(area.width(), c);
    lemma_scale_bounds(area.height(), c);
}

/// The channel between two neighbours that a window gap leaves: the full gap,
/// nothing without a gap.
pub open spec fn gap_channel(gap: int) -> int {
    if gap > 0 {
        gap
    } else {
        0
    }
}

/// With a cycle ratio of one half, the left and right halves (and the top and
/// bottom halves) are separated by exactly the window gap's channel, plus a
/// one-pixel seam when the area's size is odd. Without a gap they meet
/// exactly on an even-sized area and never overlap. The gap is applied as long
/// as the halves stay wider than the larger half of it.
pub proof fn lemma_halves_tile(cycle: int, work_area: Rect, config: SnapConfig)
    requires
        cycle >= 0,
        grid_ratio(config, cycle) == (Ratio { num: 1, den: 2 }),
        0 <= layout_area(work_area, config).width() <= i32::MAX,
        0 <= layout_area(work_area, config).height() <= i32::MAX,
    ensures
        ({
            let area = layout_area(work_area, config);
            let gap = config.window_gap as int;
            &&& (gap <= 0 || (area.width() / 2 > gap - gap / 2 && area.height() > 0)) ==> snap_spec(
                6,
                cycle,
                work_area,
                config,
            ).left - snap_spec(4, cycle, work_area, config).right == area.width() % 2 + gap_channel(gap)
            &&& (gap <= 0 || (area.height() / 2 > gap - gap / 2 && area.width() > 0)) ==> snap_spec(
                2,
                cycle,
                work_area,
                config,
            ).top - snap_spec(8, cycle, work_area, config).bottom == area.height() % 2 + gap_channel(gap)
        }),
{
    let area = layout_area(work_area, config);
    let g = grid_ratio(config, cycle);
    assert(scale(area.width(), g) == area.width() / 2);
    assert(scale(area.height(), g) == area.height() / 2);
}

/// The overlap area is symmetric and never negative; a rectangle overlaps
/// itself by its own area, and rectangles that do not meet overlap by zero.
pub proof fn lemma_intersection_area_properties(a: Rect, b: Rect)
    ensures
        a.spec_intersection_area(b) == b.spec_intersection_area(a),
        a.spec_intersection_area(b) >= 0,
        a.spec_width() >= 0 && a.spec_height() >= 0 ==> a.spec_intersection_area(a) == a.spec_width()
            * a.spec_height(),
        (a.right <= b.left || b.right <= a.left || a.bottom <= b.top || b.bottom <= a.top)
            ==> a.spec_intersection_area(b) == 0,
{
    let w = overlap_len(a.left as int, a.right as int, b.left as int, b.right as int);
    let h = overlap_len(a.top as int, a.bottom as int, b.top as int, b.bottom as int);
    assert(w * h >= 0) by (nonlinear_arith)
        requires
            w >= 0,
            h >= 0,
    ;
    assert(overlap_len(b.left as int, b.right as int, a.left as int, a.right as int) == w);
    assert(overlap_len(b.top as int, b.bottom as int, a.top as int, a.bottom as int) == h);
    assert(w == 0 || h == 0 ==> w * h == 0) by (nonlinear_arith);
}

impl Default for Rect {
    fn default() -> (r: Rect)
        ensures
            r == (Rect { left: 0, top: 0, right: 0, bottom: 0 }),
    {
        Rect { left: 0, top: 0, right: 0, bottom: 0 }
    }
}

fn copy_ratios(ratios: &Vec<Ratio>) -> (v: Vec<Ratio>)
    ensures
        v@ == ratios@,
{
    let mut v: Vec<Ratio> = Vec::new();
    let mut i: usize = 0;
    while i < ratios.len()
        invariant
            i <= ratios.len(),
            v@ == ratios@.subrange(0, i as int),
        decreases ratios.len() - i,
    {
        v.push(ratios[i]);
        i = i + 1;
    }
    v
}

impl SnapConfig {
    /// `self` carries the ratios and gaps of `config`.
    pub open spec fn taken_from(self, config: Config) -> bool {
        &&& self.cycle_ratios@ == config.cycle_ratios@
        &&& self.center_ratios@ == config.center_ratios@
        &&& self.screen_edge_gap == config.gaps.screen_edge
        &&& self.window_gap == config.gaps.between_windows
    }
}

impl<'a> From<&'a Config> for SnapConfig {
    fn from(config: &'a Config) -> (s: SnapConfig)
        ensures
            s.taken_from(*config),
    {
        SnapConfig {
            cycle_ratios: copy_ratios(&config.cycle_ratios),
            center_ratios: copy_ratios(&config.center_ratios),
            screen_edge_gap: config.gaps.screen_edge,
            window_gap: config.gaps.between_windows,
        }
    }
}

/// `SnapConfig` holds vectors, which no spec expression can build from the
/// settings, so the generic `From` contract promises nothing here; the `from`
/// above states the conversion in its own `ensures`.
impl<'a> vstd::std_specs::convert::FromSpecImpl<&'a Config> for SnapConfig {
    open spec fn obeys_from_spec() -> bool {
        false
    }

    open spec fn from_spec(v: &'a Config) -> SnapConfig {
        arbitrary()
    }
}

impl Default for SnapConfig {
    fn default() -> (s: SnapConfig)
        ensures
            s.cycle_ratios@ == default_cycle_ratios(),
            s.center_ratios@ == default_center_ratios(),
            s.screen_edge_gap == 0,
            s.window_gap == 0,
    {
        let config = Config::default();
        SnapConfig::from(&config)
    }
}

/// The largest coordinate or gap size for which snapping is known to fit in
/// `i32`: 2^26 pixels.
pub const SAFE_EXTENT: i32 = 0x400_0000;

/// Every edge of `r` lies within `SAFE_EXTENT` of the origin.
pub open spec fn rect_within_safe_extent(r: Rect) -> bool {
    &&& -SAFE_EXTENT <= r.left <= SAFE_EXTENT
    &&& -SAFE_EXTENT <= r.top <= SAFE_EXTENT
    &&& -SAFE_EXTENT <= r.right <= SAFE_EXTENT
    &&& -SAFE_EXTENT <= r.bottom <= SAFE_EXTENT
}

proof fn lemma_scale_magnitude(len: int, r: Ratio)
    requires
        -0x7fff_ffff <= len <= 0x7fff_ffff,
        r.in_unit_range(),
    ensures
        len >= 0 ==> 0 <= scale(len, r) <= len,
        len < 0 ==> len <= scale(len, r) <= 0,
{
    if len >= 0 {
        lemma_scale_bounds(len, r);
    } else {
        let m = -len;
        let p = len * r.num;
        let d = r.den as int;
        assert(0 <= m * r.num <= m * d) by (nonlinear_arith)
            requires
                m >= 0,
                d == r.den,
                0 < r.num <= r.den,
        ;
        assert(-p == m * r.num) by (nonlinear_arith)
            requires
                p == len * r.num,
                m == -len,
        ;
        assert(0 <= (m * r.num) / d <= m) by (nonlinear_arith)
            requires
                0 <= m * r.num <= m * d,
                d > 0,
        ;
    }
}

/// Snapping cannot overflow when the ratios are usable and the work area's
/// coordinates and both gaps are at most `SAFE_EXTENT` in size, whatever the
/// key and tap.
pub proof fn lemma_bounded_snap_fits(key: u32, cycle: int, work_area: Rect, config: SnapConfig)
    requires
        cycle >= 0,
        ratios_usable(config),
        rect_within_safe_extent(work_area),
        -SAFE_EXTENT <= config.screen_edge_gap <= SAFE_EXTENT,
        -SAFE_EXTENT <= config.window_gap <= SAFE_EXTENT,
    ensures
        snap_fits(key, cycle, work_area, config),
{
    let area = layout_area(work_area, config);
    lemma_ratio_at_usable(config.cycle_ratios@, cycle, Ratio { num: 1, den: 2 });
    lemma_ratio_at_usable(config.center_ratios@, cycle, Ratio { num: 1, den: 1 });
    let g = grid_ratio(config, cycle);
    let c = center_ratio(config, cycle);
    lemma_scale_magnitude(area.width(), g);
    lemma_scale_magnitude(area.width(), c);
    lemma_scale_magnitude(area.height(), g);
    lemma_scale_magnitude(area.height(), c);
}

/// Every edge of every rectangle lies within `SAFE_EXTENT` of the origin.
pub fn within_safe_extent(r: &Rect) -> (b: bool)
    ensures
        b == rect_within_safe_extent(*r),
{
    -SAFE_EXTENT <= r.left && r.left <= SAFE_EXTENT && -SAFE_EXTENT <= r.top && r.top <= SAFE_EXTENT
        && -SAFE_EXTENT <= r.right && r.right <= SAFE_EXTENT && -SAFE_EXTENT <= r.bottom && r.bottom
        <= SAFE_EXTENT
}

/// Where each grid position lands without a window gap, laid out as on a
/// numeric keypad in the layout area `a` (the work area moved in by the
/// screen-edge gap on every side), with `gw` and `gh` the area's width and
/// height scaled by the tap's cycle ratio (`cycle_ratios[cycle % len]`, or one
/// half when there are none): corners (1, 3, 7, 9) are `gw` by `gh` in their named corner,
/// left and right (4, 6) are `gw` wide and full height, bottom and top (2, 8)
/// are full width and `gh` high, and any key outside 1-9 fills the area.
pub proof fn lemma_grid_positions(key: u32, cycle: int, work_area: Rect, config: SnapConfig)
    requires
        config.window_gap <= 0,
    ensures
        ({
            let e = config.screen_edge_gap as int;
            let a = Edges {
                left: work_area.left + e,
                top: work_area.top + e,
                right: work_area.right - e,
                bottom: work_area.bottom - e,
            };
            let n = config.cycle_ratios@.len() as int;
            let g = if n == 0 { Ratio { num: 1, den: 2 } } else { config.cycle_ratios@[cycle % n] };
            let gw = scale(a.width(), g);
            let gh = scale(a.height(), g);
            let r = snap_spec(key, cycle, work_area, config);
            &&& key == 1 ==> r == Edges { left: a.left, top: a.bottom - gh, right: a.left + gw, bottom: a.bottom }
            &&& key == 2 ==> r == Edges { left: a.left, top: a.bottom - gh, right: a.right, bottom: a.bottom }
            &&& key == 3 ==> r == Edges { left: a.right - gw, top: a.bottom - gh, right: a.right, bottom: a.bottom }
            &&& key == 4 ==> r == Edges { left: a.left, top: a.top, right: a.left + gw, bottom: a.bottom }
            &&& key == 6 ==> r == Edges { left: a.right - gw, top: a.top, right: a.right, bottom: a.bottom }
            &&& key == 7 ==> r == Edges { left: a.left, top: a.top, right: a.left + gw, bottom: a.top + gh }
            &&& key == 8 ==> r == Edges { left: a.left, top: a.top, right: a.right, bottom: a.top + gh }
            &&& key == 9 ==> r == Edges { left: a.right - gw, top: a.top, right: a.right, bottom: a.top + gh }
            &&& (key == 0 || key > 9) ==> r == a
        }),
{
}

/// Without a window gap the centre position (5) is the layout area scaled by
/// the tap's centre ratio (`center_ratios[cycle % len]`, or all of it when
/// there are none) on both axes, with equal margins on opposite sides
/// (the right and bottom ones one pixel larger when the leftover is odd).
pub proof fn lemma_center_position(cycle: int, work_area: Rect, config: SnapConfig)
    requires
        cycle >= 0,
        ratios_usable(config),
        config.window_gap <= 0,
        0 <= layout_area(work_area, config).width() <= i32::MAX,
        0 <= layout_area(work_area, config).height() <= i32::MAX,
    ensures
        ({
            let e = config.screen_edge_gap as int;
            let a = Edges {
                left: work_area.left + e,
                top: work_area.top + e,
                right: work_area.right - e,
                bottom: work_area.bottom - e,
            };
            let n = config.center_ratios@.len() as int;
            let c = if n == 0 { Ratio { num: 1, den: 1 } } else { config.center_ratios@[cycle % n] };
            let r = snap_spec(5, cycle, work_area, config);
            &&& r.width() == scale(a.width(), c)
            &&& r.height() == scale(a.height(), c)
            &&& 0 <= (a.right - r.right) - (r.left - a.left) <= 1
            &&& 0 <= (a.bottom - r.bottom) - (r.top - a.top) <= 1
        }),
{
    let a = layout_area(work_area, config);
    lemma_ratio_at_usable(config.center_ratios@, cycle, Ratio { num: 1, den: 1 });
    let c = center_ratio(config, cycle);
    lemma_scale_bounds(a.width(), c);
    lemma_scale_bounds(a.height(), c);
}

/// A positive window gap is applied whenever the frame is wider and taller
/// than the gap: every edge strictly inside the area moves inward (left and top
/// by `gap / 2`, right and bottom by the rest of the gap), every edge on or
/// beyond the area's boundary stays, whatever the shape of the frame.
pub proof fn lemma_gap_applied(rect: Edges, area: Edges, gap: int)
    requires
        gap > 0,
        rect.width() > gap,
        rect.height() > gap,
    ensures
        gap_spec(rect, area, gap).left == if rect.left > area.left { rect.left + gap / 2 } else { rect.left },
        gap_spec(rect, area, gap).top == if rect.top > area.top { rect.top + gap / 2 } else { rect.top },
        gap_spec(rect, area, gap).right == if rect.right < area.right {
            rect.right - (gap - gap / 2)
        } else {
            rect.right
        },
        gap_spec(rect, area, gap).bottom == if rect.bottom < area.bottom {
            rect.bottom - (gap - gap / 2)
        } else {
            rect.bottom
        },
{
}

/// The overlap of two non-inverted rectangles never exceeds either one's
/// area; a rectangle lying inside another overlaps it by exactly its own
/// area; and growing the other rectangle never shrinks the overlap.
pub proof fn lemma_intersection_area_bounds(a: Rect, b: Rect, c: Rect)
    requires
        a.spec_width() >= 0,
        a.spec_height() >= 0,
        b.spec_width() >= 0,
        b.spec_height() >= 0,
    ensures
        a.spec_intersection_area(b) <= a.spec_width() * a.spec_height(),
        a.spec_intersection_area(b) <= b.spec_width() * b.spec_height(),
        b.left <= a.left && a.right <= b.right && b.top <= a.top && a.bottom <= b.bottom
            ==> a.spec_intersection_area(b) == a.spec_width() * a.spec_height(),
        c.left <= b.left && b.right <= c.right && c.top <= b.top && b.bottom <= c.bottom
            ==> a.spec_intersection_area(b) <= a.spec_intersection_area(c),
{
    let w = overlap_len(a.left as int, a.right as int, b.left as int, b.right as int);
    let h = overlap_len(a.top as int, a.bottom as int, b.top as int, b.bottom as int);
    let wc = overlap_len(a.left as int, a.right as int, c.left as int, c.right as int);
    let hc = overlap_len(a.top as int, a.bottom as int, c.top as int, c.bottom as int);
    let aw = a.spec_width();
    let ah = a.spec_height();
    let bw = b.spec_width();
    let bh = b.spec_height();
    assert(0 <= w <= aw && w <= bw);
    assert(0 <= h <= ah && h <= bh);
    assert(w * h <= aw * ah && w * h <= bw * bh) by (nonlinear_arith)
        requires
            0 <= w <= aw,
            w <= bw,
            0 <= h <= ah,
            h <= bh,
    ;
    if c.left <= b.left && b.right <= c.right && c.top <= b.top && b.bottom <= c.bottom {
        assert(w <= wc && h <= hc);
        assert(w * h <= wc * hc) by (nonlinear_arith)
            requires
                0 <= w <= wc,
                0 <= h <= hc,
        ;
    }
}

} // verus!
