//! The layouts that every workspace starts with.

use crate::geometry::Edge;
use crate::layout::{HideStrategy, Layout};
use crate::layout_set::{LayoutSet, LayoutSetView};
use crate::params::{LayoutParams, Ratio};
use vstd::prelude::*;

verus! {

/// The height of the status bar at the top of the screen, in pixels.
pub const BAR_HEIGHT: u32 = 20;

/// The number of windows in the main area to start with.
pub const N_MAIN: u32 = 1;

/// The share of the screen that the main area takes to start with, in
/// percent.
pub const RATIO_PERCENT: u32 = 60;

/// The gap around the screen and around each window, in pixels.
pub const GAP_PX: u32 = 1;

/// The parameters that every layout starts with.
pub open spec fn spec_default_params() -> LayoutParams {
    LayoutParams { max_main: N_MAIN, ratio: Ratio { percent: RATIO_PERCENT } }
}

/// `layout` below the status bar and with gaps around its windows.
pub open spec fn spec_decorated(layout: Layout) -> Layout {
    Layout::Gaps {
        outer_px: GAP_PX,
        inner_px: GAP_PX,
        inner: Box::new(
            Layout::ReserveEdge { edge: Edge::Top, pixels: BAR_HEIGHT, inner: Box::new(layout) },
        ),
    }
}

/// The parameters that every layout starts with.
#[verifier::when_used_as_spec(spec_default_params)]
pub fn default_params() -> (params: LayoutParams)
    ensures
        params == spec_default_params(),
        params.wf(),
{
    LayoutParams::new(N_MAIN, Ratio { percent: RATIO_PERCENT })
}

/// Keeps the strip of the status bar free and puts gaps around the windows
/// of `layout`.
#[verifier::when_used_as_spec(spec_decorated)]
pub fn decorated(layout: Layout) -> (wrapped: Layout)
    ensures
        wrapped == spec_decorated(layout),
{
    layout.with_reserved_edge(Edge::Top, BAR_HEIGHT).with_gaps(GAP_PX, GAP_PX)
}

/// The layouts of a new workspace: the stack at the side, the stack at the
/// bottom, and the focused window alone, each below the status bar and with
/// gaps, each with the default parameters. The first one is in use.
pub fn default_layouts() -> (set: LayoutSet)
    ensures
        set.wf(),
        set@ == (LayoutSetView {
            layouts: seq![
                spec_decorated(Layout::MainAndStackSide),
                spec_decorated(Layout::MainAndStackBottom),
                spec_decorated(Layout::ExclusiveFocus(HideStrategy::Omit)),
            ],
            params: seq![spec_default_params(), spec_default_params(), spec_default_params()],
            current: 0,
        }),
{
    let mut set = LayoutSet::new(decorated(Layout::MainAndStackSide), default_params());
    set.push(decorated(Layout::MainAndStackBottom), default_params());
    set.push(decorated(Layout::monocle()), default_params());
    assert(set@.layouts =~= seq![
        spec_decorated(Layout::MainAndStackSide),
        spec_decorated(Layout::MainAndStackBottom),
        spec_decorated(Layout::ExclusiveFocus(HideStrategy::Omit)),
    ]);
    assert(set@.params =~= seq![
        spec_default_params(),
        spec_default_params(),
        spec_default_params(),
    ]);
    set
}

} // verus!
