//! Choosing the display a window belongs to, among the displays' usable
//! areas in flipped screen space.

use vstd::prelude::*;
use crate::engine::{fits_i32, rect_within_safe_extent, Rect};

verus! {

/// Squared distance between the centres of `window` and `area`.
pub open spec fn center_distance(window: Rect, area: Rect) -> int {
    let dx = area.spec_center().0 - window.spec_center().0;
    let dy = area.spec_center().1 - window.spec_center().1;
    dx * dx + dy * dy
}

/// `areas[i]` overlaps `window` most, and strictly more than every earlier area.
pub open spec fn is_first_largest_overlap(window: Rect, areas: Seq<Rect>, i: int) -> bool {
    &&& 0 <= i < areas.len()
    &&& forall|j: int|
        0 <= j < areas.len() ==> (#[trigger] window.spec_intersection_area(areas[j]))
            <= window.spec_intersection_area(areas[i])
    &&& forall|j: int|
        0 <= j < i ==> (#[trigger] window.spec_intersection_area(areas[j]))
            < window.spec_intersection_area(areas[i])
}

/// `areas[i]` has its centre nearest to `window`'s, and strictly nearer than
/// every earlier area.
pub open spec fn is_first_nearest(window: Rect, areas: Seq<Rect>, i: int) -> bool {
    &&& 0 <= i < areas.len()
    &&& forall|j: int|
        0 <= j < areas.len() ==> center_distance(window, areas[i]) <= #[trigger] center_distance(
            window,
            areas[j],
        )
    &&& forall|j: int|
        0 <= j < i ==> center_distance(window, areas[i]) < #[trigger] center_distance(window, areas[j])
}

/// The chosen area is `areas[i]`: the one the window overlaps most if it
/// overlaps any, otherwise the one whose centre is nearest.
pub open spec fn is_chosen(window: Rect, areas: Seq<Rect>, i: int) -> bool {
    if exists|j: int| 0 <= j < areas.len() && window.spec_intersection_area(#[trigger] areas[j]) > 0 {
        is_first_largest_overlap(window, areas, i)
    } else {
        is_first_nearest(window, areas, i)
    }
}

/// Every overlap, centre and centre offset can be computed in `i32`, and every
/// squared centre distance in `i64`.
pub open spec fn choice_fits(window: Rect, areas: Seq<Rect>) -> bool {
    &&& fits_i32(window.spec_width())
    &&& fits_i32(window.spec_height())
    &&& forall|j: int|
        0 <= j < areas.len() ==> {
            let a = #[trigger] areas[j];
            &&& window.overlap_fits(a)
            &&& fits_i32(a.spec_width())
            &&& fits_i32(a.spec_height())
            &&& fits_i32(a.spec_center().0 - window.spec_center().0)
            &&& fits_i32(a.spec_center().1 - window.spec_center().1)
            &&& center_distance(window, a) <= i64::MAX
        }
}

/// The usable area of the display that `window` mostly occupies: the area it
/// overlaps most, or, when it overlaps none, the one whose centre is nearest.
/// Ties go to the earlier area. `None` only when there are no areas.
pub fn choose_work_area(window: Rect, areas: &[Rect]) -> (r: Option<Rect>)
    requires
        choice_fits(window, areas@),
    ensures
        areas@.len() == 0 ==> r is None,
        areas@.len() > 0 ==> exists|i: int| is_chosen(window, areas@, i) && r == Some(areas@[i]),
{
    if areas.len() == 0 {
        return None;
    }
    let (wcx, wcy) = window.center();
    let mut best: usize = 0;
    let mut best_area: i64 = window.intersection_area(&areas[0]);
    let (cx0, cy0) = areas[0].center();
    let dx0: i64 = (cx0 - wcx) as i64;
    let dy0: i64 = (cy0 - wcy) as i64;
    assert(0 <= dx0 * dx0 <= 0x4000_0000_0000_0000) by (nonlinear_arith)
        requires
            i32::MIN <= dx0 <= i32::MAX,
    ;
    assert(0 <= dy0 * dy0 <= 0x4000_0000_0000_0000) by (nonlinear_arith)
        requires
            i32::MIN <= dy0 <= i32::MAX,
    ;
    assert(areas@[0] == areas[0]);
    let mut nearest: usize = 0;
    let mut nearest_dist: i64 = dx0 * dx0 + dy0 * dy0;
    let mut i: usize = 1;
    while i < areas.len()
        invariant
            choice_fits(window, areas@),
            wcx == window.spec_center().0,
            wcy == window.spec_center().1,
            1 <= i <= areas@.len(),
            best < i,
            nearest < i,
            best_area == window.spec_intersection_area(areas@[best as int]),
            nearest_dist == center_distance(window, areas@[nearest as int]),
            forall|j: int|
                0 <= j < i ==> (#[trigger] window.spec_intersection_area(areas@[j]))
                    <= window.spec_intersection_area(areas@[best as int]),
            forall|j: int|
                0 <= j < best ==> (#[trigger] window.spec_intersection_area(areas@[j]))
                    < window.spec_intersection_area(areas@[best as int]),
            forall|j: int|
                0 <= j < i ==> center_distance(window, areas@[nearest as int])
                    <= #[trigger] center_distance(window, areas@[j]),
            forall|j: int|
                0 <= j < nearest ==> center_distance(window, areas@[nearest as int])
                    < #[trigger] center_distance(window, areas@[j]),
        decreases areas@.len() - i,
    {
        let a = areas[i];
        assert(areas@[i as int] == a);
        let overlap = window.intersection_area(&a);
        if overlap > best_area {
            best = i;
            best_area = overlap;
        }
        let (scx, scy) = a.center();
        let dx: i64 = (scx - wcx) as i64;
        let dy: i64 = (scy - wcy) as i64;
        assert(0 <= dx * dx <= 0x4000_0000_0000_0000) by (nonlinear_arith)
            requires
                i32::MIN <= dx <= i32::MAX,
        ;
        assert(0 <= dy * dy <= 0x4000_0000_0000_0000) by (nonlinear_arith)
            requires
                i32::MIN <= dy <= i32::MAX,
        ;
        let dist = dx * dx + dy * dy;
        if dist < nearest_dist {
            nearest = i;
            nearest_dist = dist;
        }
        i = i + 1;
    }
    if best_area > 0 {
        assert(is_chosen(window, areas@, best as int));
        Some(areas[best])
    } else {
        assert(forall|j: int| 0 <= j < areas@.len() ==> window.spec_intersection_area(#[trigger] areas@[j]) <= 0);
        assert(is_chosen(window, areas@, nearest as int));
        Some(areas[nearest])
    }
}

/// Choosing a display cannot overflow when every coordinate is at most
/// `SAFE_EXTENT` in size.
pub proof fn lemma_bounded_choice_fits(window: Rect, areas: Seq<Rect>)
    requires
        rect_within_safe_extent(window),
        forall|j: int| 0 <= j < areas.len() ==> rect_within_safe_extent(#[trigger] areas[j]),
    ensures
        choice_fits(window, areas),
{
    assert forall|j: int| 0 <= j < areas.len() implies {
        let a = #[trigger] areas[j];
        &&& window.overlap_fits(a)
        &&& fits_i32(a.spec_width())
        &&& fits_i32(a.spec_height())
        &&& fits_i32(a.spec_center().0 - window.spec_center().0)
        &&& fits_i32(a.spec_center().1 - window.spec_center().1)
        &&& center_distance(window, a) <= i64::MAX
    } by {
        let a = areas[j];
        let dx = a.spec_center().0 - window.spec_center().0;
        let dy = a.spec_center().1 - window.spec_center().1;
        assert(-0x1000_0000 <= dx <= 0x1000_0000);
        assert(-0x1000_0000 <= dy <= 0x1000_0000);
        assert(dx * dx + dy * dy <= 0x1000_0000 * 0x1000_0000 * 2) by (nonlinear_arith)
            requires
                -0x1000_0000 <= dx <= 0x1000_0000,
                -0x1000_0000 <= dy <= 0x1000_0000,
        ;
    }
}

} // verus!
