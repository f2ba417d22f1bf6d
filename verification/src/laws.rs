//! What holds of every layout, whatever the windows and the region.

use crate::geometry::{
    lemma_column_cut_within, lemma_column_within, lemma_columns_apart, lemma_contained_wf,
    lemma_contains_transitive, lemma_inset_within, lemma_reserve_within, lemma_row_cut_within,
    lemma_row_within, lemma_rows_apart, lemma_within_stay_apart, Edge, Region,
};
use crate::layout::{
    all_apart, all_within, bottom_cell, bottom_main_area, bottom_stack_area, has_unfocused,
    lemma_bottom_cell_within, lemma_side_cell_within, main_count, none_shown, placed_windows,
    shows_nothing, side_cell, side_main_area, side_stack_area, Layout, WindowId,
};
use crate::params::{lemma_share_fits, LayoutParams};
use vstd::prelude::*;

verus! {

/// A layout places every window of the list exactly once and no other
/// window: the windows of its placements are the list itself. The one
/// exception is a layout that shows the focused window alone while no window
/// is focused, which places none.
pub proof fn lemma_every_window_placed(
    layout: Layout,
    windows: Seq<WindowId>,
    focus: Option<WindowId>,
    region: Region,
    params: LayoutParams,
)
    requires
        layout.shows_focus_only() && windows.len() > 0 ==> focus is Some,
    ensures
        placed_windows(layout.arrange(windows, focus, region, params)) == windows,
        layout.arrange(windows, focus, region, params).len() == windows.len(),
        placed_windows(layout.arrange(windows, focus, region, params)).to_set()
            == windows.to_set(),
    decreases layout,
{
    match layout {
        Layout::ReserveEdge { edge, pixels, inner } => {
            lemma_every_window_placed(
                *inner,
                windows,
                focus,
                region.spec_reserve(edge, pixels),
                params,
            );
        },
        Layout::Gaps { outer_px, inner_px, inner } => {
            lemma_every_window_placed(*inner, windows, focus, region.spec_inset(outer_px), params);
        },
        _ => {},
    }
}

/// A layout that shows the focused window alone places nothing while no
/// window is focused.
pub proof fn lemma_nothing_placed_without_focus(
    layout: Layout,
    windows: Seq<WindowId>,
    region: Region,
    params: LayoutParams,
)
    requires
        layout.shows_focus_only(),
    ensures
        layout.arrange(windows, None, region, params).len() == 0,
    decreases layout,
{
    match layout {
        Layout::ReserveEdge { edge, pixels, inner } => {
            lemma_nothing_placed_without_focus(
                *inner,
                windows,
                region.spec_reserve(edge, pixels),
                params,
            );
        },
        Layout::Gaps { outer_px, inner_px, inner } => {
            lemma_nothing_placed_without_focus(
                *inner,
                windows,
                region.spec_inset(outer_px),
                params,
            );
        },
        _ => {},
    }
}

/// With the stack at the side, the windows that get a place in the main area
/// are the first `min(n, max_main)` of the list, whatever the region and the
/// ratio; all others get a place in the stack area, and none is hidden.
pub proof fn lemma_main_windows_come_first_at_the_side(
    windows: Seq<WindowId>,
    focus: Option<WindowId>,
    region: Region,
    params: LayoutParams,
)
    ensures
        ({
            let placed = Layout::MainAndStackSide.arrange(windows, focus, region, params);
            let n_main = main_count(windows.len(), params.max_main as nat);
            let n_stack = (windows.len() - n_main) as nat;
            &&& n_main == vstd::math::min(windows.len() as int, params.max_main as int)
            &&& placed.len() == n_main + n_stack
            &&& forall|i: int|
                0 <= i < n_main ==> #[trigger] placed[i] == (
                    windows[i],
                    Some(side_main_area(region, windows.len(), params).spec_row(n_main, i as nat)),
                )
            &&& forall|i: int|
                n_main <= i < windows.len() ==> #[trigger] placed[i] == (
                    windows[i],
                    Some(
                        side_stack_area(region, windows.len(), params).spec_row(
                            n_stack,
                            (i - n_main) as nat,
                        ),
                    ),
                )
        }),
{
}

/// With the stack at the bottom, the windows that get a place in the main
/// area are the first `min(n, max_main)` of the list, whatever the region and
/// the ratio; all others get a place in the stack area, and none is hidden.
pub proof fn lemma_main_windows_come_first_at_the_bottom(
    windows: Seq<WindowId>,
    focus: Option<WindowId>,
    region: Region,
    params: LayoutParams,
)
    ensures
        ({
            let placed = Layout::MainAndStackBottom.arrange(windows, focus, region, params);
            let n_main = main_count(windows.len(), params.max_main as nat);
            let n_stack = (windows.len() - n_main) as nat;
            &&& n_main == vstd::math::min(windows.len() as int, params.max_main as int)
            &&& placed.len() == n_main + n_stack
            &&& forall|i: int|
                0 <= i < n_main ==> #[trigger] placed[i] == (
                    windows[i],
                    Some(
                        bottom_main_area(region, windows.len(), params).spec_column(
                            n_main,
                            i as nat,
                        ),
                    ),
                )
            &&& forall|i: int|
                n_main <= i < windows.len() ==> #[trigger] placed[i] == (
                    windows[i],
                    Some(
                        bottom_stack_area(region, windows.len(), params).spec_column(
                            n_stack,
                            (i - n_main) as nat,
                        ),
                    ),
                )
        }),
{
}

/// An entry is the stand-in of a window which the layout replaces by a single
/// pixel.
spec fn is_stand_in(
    layout: Layout,
    windows: Seq<WindowId>,
    focus: Option<WindowId>,
    region: Region,
    placement: Option<Region>,
) -> bool {
    &&& layout.spec_uses_pixels()
    &&& has_unfocused(windows, focus)
    &&& placement == Some(layout.stand_in(region))
}

/// Every rectangle that a layout yields lies within the region that the
/// layout was given, or is the rectangle that stands in for a window which
/// the layout replaces by a single pixel.
proof fn lemma_within_or_stand_in(
    layout: Layout,
    windows: Seq<WindowId>,
    focus: Option<WindowId>,
    region: Region,
    params: LayoutParams,
)
    requires
        region.wf(),
        params.wf(),
    ensures
        forall|i: int|
            0 <= i < layout.arrange(windows, focus, region, params).len() ==> ((
            #[trigger] layout.arrange(windows, focus, region, params)[i]).1 matches Some(placed)
                ==> region.spec_contains(placed) || is_stand_in(
                layout,
                windows,
                focus,
                region,
                Some(placed),
            )),
    decreases layout,
{
    let placed = layout.arrange(windows, focus, region, params);
    match layout {
        Layout::MainAndStackSide => {
            assert forall|i: int| 0 <= i < placed.len() implies region.spec_contains(
                (#[trigger] placed[i]).1.unwrap(),
            ) by {
                lemma_side_cell_within(region, windows.len(), params, i as nat);
            }
        },
        Layout::MainAndStackBottom => {
            assert forall|i: int| 0 <= i < placed.len() implies region.spec_contains(
                (#[trigger] placed[i]).1.unwrap(),
            ) by {
                lemma_bottom_cell_within(region, windows.len(), params, i as nat);
            }
        },
        Layout::ExclusiveFocus(hide) => {},
        Layout::ReserveEdge { edge, pixels, inner } => {
            let reduced = region.spec_reserve(edge, pixels);
            lemma_reserve_within(region, edge, pixels);
            lemma_within_or_stand_in(*inner, windows, focus, reduced, params);
            assert forall|i: int| 0 <= i < placed.len() implies ((
            #[trigger] placed[i]).1 matches Some(rectangle) ==> region.spec_contains(rectangle)
                || is_stand_in(layout, windows, focus, region, Some(rectangle))) by {
                if let Some(rectangle) = placed[i].1 {
                    if reduced.spec_contains(rectangle) {
                        lemma_contains_transitive(region, reduced, rectangle);
                    }
                }
            }
        },
        Layout::Gaps { outer_px, inner_px, inner } => {
            let reduced = region.spec_inset(outer_px);
            lemma_inset_within(region, outer_px);
            let within = inner.arrange(windows, focus, reduced, params);
            lemma_within_or_stand_in(*inner, windows, focus, reduced, params);
            assert forall|i: int| 0 <= i < placed.len() implies ((
            #[trigger] placed[i]).1 matches Some(rectangle) ==> region.spec_contains(rectangle)
                || is_stand_in(layout, windows, focus, region, Some(rectangle))) by {
                if let Some(before) = within[i].1 {
                    if reduced.spec_contains(before) {
                        lemma_contained_wf(reduced, before);
                        lemma_inset_within(before, inner_px);
                        lemma_contains_transitive(reduced, before, before.spec_inset(inner_px));
                        lemma_contains_transitive(region, reduced, before.spec_inset(inner_px));
                    }
                }
            }
        },
    }
}

/// Every rectangle that a layout yields lies within the region that the
/// layout was given. Where the layout replaces windows by a single pixel and
/// there is such a window, this holds as far as that pixel's rectangle lies
/// within the region, which [`lemma_stand_in_within`] shows for every region
/// whose core is not empty.
pub proof fn lemma_placements_within(
    layout: Layout,
    windows: Seq<WindowId>,
    focus: Option<WindowId>,
    region: Region,
    params: LayoutParams,
)
    requires
        region.wf(),
        params.wf(),
        layout.spec_uses_pixels() && has_unfocused(windows, focus) ==> region.spec_contains(
            layout.stand_in(region),
        ),
    ensures
        all_within(layout.arrange(windows, focus, region, params), region),
{
    lemma_within_or_stand_in(layout, windows, focus, region, params);
}

/// The rectangle that stands in for a window lies within the region that the
/// layout was given, provided that the region which reaches the core of the
/// layout covers at least one pixel.
pub proof fn lemma_stand_in_within(layout: Layout, region: Region)
    requires
        region.wf(),
        !layout.core_region(region).spec_is_empty(),
    ensures
        region.spec_contains(layout.stand_in(region)),
        layout.stand_in(region).wf(),
    decreases layout,
{
    match layout {
        Layout::ReserveEdge { edge, pixels, inner } => {
            let reduced = region.spec_reserve(edge, pixels);
            lemma_reserve_within(region, edge, pixels);
            lemma_stand_in_within(*inner, reduced);
            lemma_contains_transitive(region, reduced, inner.stand_in(reduced));
        },
        Layout::Gaps { outer_px, inner_px, inner } => {
            let reduced = region.spec_inset(outer_px);
            lemma_inset_within(region, outer_px);
            lemma_stand_in_within(*inner, reduced);
            let pixel = inner.stand_in(reduced);
            lemma_inset_within(pixel, inner_px);
            lemma_contains_transitive(reduced, pixel, pixel.spec_inset(inner_px));
            lemma_contains_transitive(region, reduced, pixel.spec_inset(inner_px));
        },
        _ => {},
    }
}

/// Gaps of no pixels change nothing: a layout wrapped in them yields what it
/// yields alone.
pub proof fn lemma_zero_gaps_change_nothing(
    inner: Layout,
    windows: Seq<WindowId>,
    focus: Option<WindowId>,
    region: Region,
    params: LayoutParams,
)
    ensures
        (Layout::Gaps { outer_px: 0, inner_px: 0, inner: Box::new(inner) }).arrange(
            windows,
            focus,
            region,
            params,
        ) == inner.arrange(windows, focus, region, params),
{
    let alone = inner.arrange(windows, focus, region, params);
    assert forall|i: int| 0 <= i < alone.len() implies (
        #[trigger] alone[i].0,
        crate::layout::inset_placement(alone[i].1, 0),
    ) == alone[i] by {}
}

/// Reserving at least as many pixels along an edge as the region has in that
/// direction leaves nothing of it: no height where the edge is the top or the
/// bottom, no width where it is the left or the right.
pub proof fn lemma_reserve_exhausts(region: Region, edge: Edge, pixels: u32)
    ensures
        (edge == Edge::Top || edge == Edge::Bottom) && region.height <= pixels
            ==> region.spec_reserve(edge, pixels).height == 0,
        (edge == Edge::Left || edge == Edge::Right) && region.width <= pixels
            ==> region.spec_reserve(edge, pixels).width == 0,
        region.spec_is_empty() ==> region.spec_reserve(edge, pixels).spec_is_empty(),
{
}

/// In a region that covers no pixel, each window is hidden, gets a rectangle
/// without width or without height, or gets the rectangle that stands in for
/// a window which the layout replaces by a single pixel.
proof fn lemma_nothing_shown_or_stand_in(
    layout: Layout,
    windows: Seq<WindowId>,
    focus: Option<WindowId>,
    region: Region,
    params: LayoutParams,
)
    requires
        region.spec_is_empty(),
    ensures
        forall|i: int|
            0 <= i < layout.arrange(windows, focus, region, params).len() ==> shows_nothing(
                (#[trigger] layout.arrange(windows, focus, region, params)[i]).1,
            ) || is_stand_in(
                layout,
                windows,
                focus,
                region,
                layout.arrange(windows, focus, region, params)[i].1,
            ),
    decreases layout,
{
    let placed = layout.arrange(windows, focus, region, params);
    match layout {
        Layout::MainAndStackSide => {
            assert forall|i: int| 0 <= i < placed.len() implies shows_nothing(
                (#[trigger] placed[i]).1,
            ) by {
                lemma_cell_of_empty_region(region, windows.len(), params, i as nat);
            }
        },
        Layout::MainAndStackBottom => {
            assert forall|i: int| 0 <= i < placed.len() implies shows_nothing(
                (#[trigger] placed[i]).1,
            ) by {
                lemma_cell_of_empty_region(region, windows.len(), params, i as nat);
            }
        },
        Layout::ExclusiveFocus(hide) => {
            assert forall|i: int| 0 <= i < placed.len() implies shows_nothing(
                (#[trigger] placed[i]).1,
            ) || is_stand_in(layout, windows, focus, region, placed[i].1) by {}
        },
        Layout::ReserveEdge { edge, pixels, inner } => {
            let reduced = region.spec_reserve(edge, pixels);
            let within = inner.arrange(windows, focus, reduced, params);
            lemma_nothing_shown_or_stand_in(*inner, windows, focus, reduced, params);
            assert forall|i: int| 0 <= i < placed.len() implies shows_nothing(
                (#[trigger] placed[i]).1,
            ) || is_stand_in(layout, windows, focus, region, placed[i].1) by {
                assert(shows_nothing(within[i].1) || is_stand_in(
                    *inner,
                    windows,
                    focus,
                    reduced,
                    within[i].1,
                ));
            }
        },
        Layout::Gaps { outer_px, inner_px, inner } => {
            let reduced = region.spec_inset(outer_px);
            let within = inner.arrange(windows, focus, reduced, params);
            lemma_nothing_shown_or_stand_in(*inner, windows, focus, reduced, params);
            assert forall|i: int| 0 <= i < placed.len() implies shows_nothing(
                (#[trigger] placed[i]).1,
            ) || is_stand_in(layout, windows, focus, region, placed[i].1) by {
                assert(shows_nothing(within[i].1) || is_stand_in(
                    *inner,
                    windows,
                    focus,
                    reduced,
                    within[i].1,
                ));
            }
        },
    }
}

/// In a region that covers no pixel, no layout shows anything: each window
/// is hidden or gets a rectangle without width or without height. Where the
/// layout replaces windows by a single pixel and there is such a window, this
/// holds as far as the rectangle that stands in for it is empty, which it is
/// once a gap has been taken off it.
pub proof fn lemma_empty_region_shows_nothing(
    layout: Layout,
    windows: Seq<WindowId>,
    focus: Option<WindowId>,
    region: Region,
    params: LayoutParams,
)
    requires
        region.spec_is_empty(),
        layout.spec_uses_pixels() && has_unfocused(windows, focus) ==> layout.stand_in(
            region,
        ).spec_is_empty(),
    ensures
        none_shown(layout.arrange(windows, focus, region, params)),
{
    lemma_nothing_shown_or_stand_in(layout, windows, focus, region, params);
}

/// In a region that covers no pixel, the rectangles of both main-and-stack
/// arrangements cover none either.
pub proof fn lemma_cell_of_empty_region(
    region: Region,
    n_windows: nat,
    params: LayoutParams,
    index: nat,
)
    requires
        region.spec_is_empty(),
        index < n_windows,
    ensures
        side_cell(region, n_windows, params, index).spec_is_empty(),
        bottom_cell(region, n_windows, params, index).spec_is_empty(),
{
    let percent = params.ratio.percent as int;
    assert(0 * percent == 0) by (nonlinear_arith);
    assert(forall|count: int| count > 0 ==> #[trigger] (0int / count) == 0) by (nonlinear_arith);
}

/// Only a layout that shows the focused window alone puts single pixels in
/// the place of windows.
pub proof fn lemma_pixels_only_with_focus(layout: Layout)
    ensures
        layout.spec_uses_pixels() ==> layout.shows_focus_only(),
    decreases layout,
{
    match layout {
        Layout::ReserveEdge { edge, pixels, inner } => lemma_pixels_only_with_focus(*inner),
        Layout::Gaps { outer_px, inner_px, inner } => lemma_pixels_only_with_focus(*inner),
        _ => {},
    }
}

/// With the stack at the side, no two windows get rectangles with a pixel in
/// common.
pub proof fn lemma_side_cells_apart(
    region: Region,
    n_windows: nat,
    params: LayoutParams,
    earlier: nat,
    later: nat,
)
    requires
        region.wf(),
        params.wf(),
        earlier < later < n_windows,
    ensures
        !side_cell(region, n_windows, params, earlier).spec_overlaps(
            side_cell(region, n_windows, params, later),
        ),
{
    let n_main = main_count(n_windows, params.max_main as nat);
    let n_stack = (n_windows - n_main) as nat;
    let main_area = side_main_area(region, n_windows, params);
    let stack_area = side_stack_area(region, n_windows, params);
    lemma_share_fits(region.width as nat, params.ratio.percent as nat);
    lemma_column_cut_within(region, params.ratio.spec_of(region.width));
    if later < n_main {
        lemma_rows_apart(main_area, n_main, earlier, later);
    } else if earlier >= n_main {
        lemma_rows_apart(stack_area, n_stack, (earlier - n_main) as nat, (later - n_main) as nat);
    } else {
        lemma_row_within(main_area, n_main, earlier);
        lemma_row_within(stack_area, n_stack, (later - n_main) as nat);
    }
}

/// With the stack at the bottom, no two windows get rectangles with a pixel
/// in common.
pub proof fn lemma_bottom_cells_apart(
    region: Region,
    n_windows: nat,
    params: LayoutParams,
    earlier: nat,
    later: nat,
)
    requires
        region.wf(),
        params.wf(),
        earlier < later < n_windows,
    ensures
        !bottom_cell(region, n_windows, params, earlier).spec_overlaps(
            bottom_cell(region, n_windows, params, later),
        ),
{
    let n_main = main_count(n_windows, params.max_main as nat);
    let n_stack = (n_windows - n_main) as nat;
    let main_area = bottom_main_area(region, n_windows, params);
    let stack_area = bottom_stack_area(region, n_windows, params);
    lemma_share_fits(region.height as nat, params.ratio.percent as nat);
    lemma_row_cut_within(region, params.ratio.spec_of(region.height));
    if later < n_main {
        lemma_columns_apart(main_area, n_main, earlier, later);
    } else if earlier >= n_main {
        lemma_columns_apart(
            stack_area,
            n_stack,
            (earlier - n_main) as nat,
            (later - n_main) as nat,
        );
    } else {
        lemma_column_within(main_area, n_main, earlier);
        lemma_column_within(stack_area, n_stack, (later - n_main) as nat);
    }
}

/// A layout with a main area and a stack, whatever transformers are around
/// it, shows every window and gives no two windows rectangles with a pixel in
/// common.
pub proof fn lemma_tiles_never_overlap(
    layout: Layout,
    windows: Seq<WindowId>,
    focus: Option<WindowId>,
    region: Region,
    params: LayoutParams,
)
    requires
        region.wf(),
        params.wf(),
        !layout.shows_focus_only(),
    ensures
        all_apart(layout.arrange(windows, focus, region, params)),
    decreases layout,
{
    let placed = layout.arrange(windows, focus, region, params);
    match layout {
        Layout::MainAndStackSide => {
            assert forall|i: int, j: int| 0 <= i < j < placed.len() implies !(
            #[trigger] placed[i]).1.unwrap().spec_overlaps((#[trigger] placed[j]).1.unwrap()) by {
                lemma_side_cells_apart(region, windows.len(), params, i as nat, j as nat);
            }
        },
        Layout::MainAndStackBottom => {
            assert forall|i: int, j: int| 0 <= i < j < placed.len() implies !(
            #[trigger] placed[i]).1.unwrap().spec_overlaps((#[trigger] placed[j]).1.unwrap()) by {
                lemma_bottom_cells_apart(region, windows.len(), params, i as nat, j as nat);
            }
        },
        Layout::ExclusiveFocus(hide) => {},
        Layout::ReserveEdge { edge, pixels, inner } => {
            lemma_reserve_within(region, edge, pixels);
            lemma_tiles_never_overlap(
                *inner,
                windows,
                focus,
                region.spec_reserve(edge, pixels),
                params,
            );
        },
        Layout::Gaps { outer_px, inner_px, inner } => {
            let reduced = region.spec_inset(outer_px);
            lemma_inset_within(region, outer_px);
            let within = inner.arrange(windows, focus, reduced, params);
            lemma_tiles_never_overlap(*inner, windows, focus, reduced, params);
            lemma_pixels_only_with_focus(*inner);
            lemma_placements_within(*inner, windows, focus, reduced, params);
            assert forall|i: int, j: int| 0 <= i < j < placed.len() implies !(
            #[trigger] placed[i]).1.unwrap().spec_overlaps((#[trigger] placed[j]).1.unwrap()) by {
                let a = within[i].1.unwrap();
                let b = within[j].1.unwrap();
                lemma_contained_wf(reduced, a);
                lemma_contained_wf(reduced, b);
                lemma_inset_within(a, inner_px);
                lemma_inset_within(b, inner_px);
                lemma_within_stay_apart(a, b, a.spec_inset(inner_px), b.spec_inset(inner_px));
            }
        },
    }
}

} // verus!
