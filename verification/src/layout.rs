//! Layouts: the rules that assign each window of a workspace its place.
//!
//! A layout is one of three arrangements, possibly wrapped in transformers
//! that change the region it works in and the rectangles that come out of it.
//! What a layout yields is defined by [`Layout::arrange`]; [`Layout::compute`]
//! is the executable function that returns exactly that.

use crate::geometry::{
    lemma_column_cut_within, lemma_column_within, lemma_contained_wf, lemma_contains_transitive,
    lemma_inset_within, lemma_reserve_within, lemma_row_cut_within, lemma_row_within, Edge, Region,
};
use crate::params::{lemma_share_fits, LayoutParams};
use vstd::prelude::*;

verus! {

/// The identifier of a window. Two windows are the same exactly when their
/// identifiers are equal; the numbers carry no other meaning.
#[derive(Clone, Copy, Debug, PartialEq, Eq, Hash, Structural)]
pub struct WindowId(pub u32);

/// How a layout that shows one window at a time treats the others.
#[derive(Clone, Copy, Debug, PartialEq, Eq, Structural)]
pub enum HideStrategy {
    /// The window is marked hidden and gets no rectangle.
    Omit,
    /// The window shrinks to a rectangle of no size at the region's origin.
    ZeroSize,
    /// The window shrinks to a single pixel at the region's origin.
    OnePixel,
}

/// A rule that places windows, built from an arrangement at the core and any
/// number of transformers around it. Each transformer owns the layout it
/// wraps, so a layout is always a chain that ends in an arrangement.
#[derive(Debug, PartialEq, Eq)]
pub enum Layout {
    /// A main column on the left, the other windows in a column on the right.
    MainAndStackSide,
    /// A main row at the top, the other windows in a row below it.
    MainAndStackBottom,
    /// The focused window takes the whole region; the others are treated as
    /// the strategy says.
    ExclusiveFocus(HideStrategy),
    /// Keeps `pixels` along `edge` free of windows.
    ReserveEdge { edge: Edge, pixels: u32, inner: Box<Layout> },
    /// Leaves `outer_px` free around the region and `inner_px` around each
    /// window.
    Gaps { outer_px: u32, inner_px: u32, inner: Box<Layout> },
}

impl Clone for Layout {
    fn clone(&self) -> (copy: Layout)
        ensures
            copy == *self,
        decreases self,
    {
        match self {
            Layout::MainAndStackSide => Layout::MainAndStackSide,
            Layout::MainAndStackBottom => Layout::MainAndStackBottom,
            Layout::ExclusiveFocus(hide) => Layout::ExclusiveFocus(*hide),
            Layout::ReserveEdge { edge, pixels, inner } => Layout::ReserveEdge {
                edge: *edge,
                pixels: *pixels,
                inner: Box::new((&**inner).clone()),
            },
            Layout::Gaps { outer_px, inner_px, inner } => Layout::Gaps {
                outer_px: *outer_px,
                inner_px: *inner_px,
                inner: Box::new((&**inner).clone()),
            },
        }
    }
}

/// How many of `n_windows` windows go to the main area when it takes at most
/// `max_main`.
pub open spec fn main_count(n_windows: nat, max_main: nat) -> nat {
    if n_windows <= max_main {
        n_windows
    } else {
        max_main
    }
}

/// Both areas get windows, so the region is divided between them.
pub open spec fn is_divided(n_windows: nat, max_main: nat) -> bool {
    0 < max_main < n_windows
}

/// Splits `n_windows` windows into those of the main area and those of the
/// stack: the main area takes as many as there are, up to `max_main`.
pub fn partition(n_windows: usize, max_main: usize) -> (counts: (usize, usize))
    ensures
        counts.0 == main_count(n_windows as nat, max_main as nat),
        counts.1 == n_windows - counts.0,
{
    let n_main: usize = if n_windows <= max_main { n_windows } else { max_main };
    (n_main, n_windows - n_main)
}

/// The area of the main windows where the stack is at the side: the left
/// share of the region where it is divided, all of it otherwise.
pub open spec fn side_main_area(region: Region, n_windows: nat, params: LayoutParams) -> Region {
    if is_divided(n_windows, params.max_main as nat) {
        region.spec_left_part(params.ratio.spec_of(region.width))
    } else {
        region
    }
}

/// The area of the stacked windows where the stack is at the side: what the
/// main area leaves on the right where the region is divided, all of it
/// otherwise.
pub open spec fn side_stack_area(region: Region, n_windows: nat, params: LayoutParams) -> Region {
    if is_divided(n_windows, params.max_main as nat) {
        region.spec_right_part(params.ratio.spec_of(region.width))
    } else {
        region
    }
}

/// The rectangle of the window at `index` where the stack is at the side.
/// The first `main_count` windows are rows of the main area, the rest are
/// rows of the stack area, both from the top down.
pub open spec fn side_cell(region: Region, n_windows: nat, params: LayoutParams, index: nat)
    -> Region {
    let n_main = main_count(n_windows, params.max_main as nat);
    if index < n_main {
        side_main_area(region, n_windows, params).spec_row(n_main, index)
    } else {
        side_stack_area(region, n_windows, params).spec_row(
            (n_windows - n_main) as nat,
            (index - n_main) as nat,
        )
    }
}

/// The area of the main windows where the stack is at the bottom: the top
/// share of the region where it is divided, all of it otherwise.
pub open spec fn bottom_main_area(region: Region, n_windows: nat, params: LayoutParams)
    -> Region {
    if is_divided(n_windows, params.max_main as nat) {
        region.spec_top_part(params.ratio.spec_of(region.height))
    } else {
        region
    }
}

/// The area of the stacked windows where the stack is at the bottom: what
/// the main area leaves below it where the region is divided, all of it
/// otherwise.
pub open spec fn bottom_stack_area(region: Region, n_windows: nat, params: LayoutParams)
    -> Region {
    if is_divided(n_windows, params.max_main as nat) {
        region.spec_bottom_part(params.ratio.spec_of(region.height))
    } else {
        region
    }
}

/// The rectangle of the window at `index` where the stack is at the bottom.
/// The first `main_count` windows are columns of the main area, the rest are
/// columns of the stack area, both from left to right.
pub open spec fn bottom_cell(region: Region, n_windows: nat, params: LayoutParams, index: nat)
    -> Region {
    let n_main = main_count(n_windows, params.max_main as nat);
    if index < n_main {
        bottom_main_area(region, n_windows, params).spec_column(n_main, index)
    } else {
        bottom_stack_area(region, n_windows, params).spec_column(
            (n_windows - n_main) as nat,
            (index - n_main) as nat,
        )
    }
}

/// What a window that is not shown gets under `hide` in `region`.
pub open spec fn hidden_placement(hide: HideStrategy, region: Region) -> Option<Region> {
    match hide {
        HideStrategy::Omit => None,
        HideStrategy::ZeroSize => Some(Region { x: region.x, y: region.y, width: 0, height: 0 }),
        HideStrategy::OnePixel => Some(Region { x: region.x, y: region.y, width: 1, height: 1 }),
    }
}

/// What `window` gets where only `focus` is shown.
pub open spec fn exclusive_placement(
    hide: HideStrategy,
    focus: WindowId,
    window: WindowId,
    region: Region,
) -> Option<Region> {
    if window == focus {
        Some(region)
    } else {
        hidden_placement(hide, region)
    }
}

/// A placement with `pixels` taken off each side of its rectangle, if it
/// has one.
pub open spec fn inset_placement(placement: Option<Region>, pixels: u32) -> Option<Region> {
    match placement {
        Some(region) => Some(region.spec_inset(pixels)),
        None => None,
    }
}

/// The windows that a sequence of placements speaks of, in its order.
pub open spec fn placed_windows(placed: Seq<(WindowId, Option<Region>)>) -> Seq<WindowId> {
    placed.map_values(|entry: (WindowId, Option<Region>)| entry.0)
}

/// A window is focused and at least one window of the list is another one.
pub open spec fn has_unfocused(windows: Seq<WindowId>, focus: Option<WindowId>) -> bool {
    focus matches Some(focused) && exists|i: int|
        0 <= i < windows.len() && #[trigger] windows[i] != focused
}

/// A placement shows nothing: the window is hidden or its rectangle covers no
/// pixel.
pub open spec fn shows_nothing(placement: Option<Region>) -> bool {
    placement matches Some(region) ==> region.spec_is_empty()
}

/// Every rectangle in `placed` has far edges that an `i32` can hold.
pub open spec fn all_wf(placed: Seq<(WindowId, Option<Region>)>) -> bool {
    forall|i: int|
        0 <= i < placed.len() ==> ((#[trigger] placed[i]).1 matches Some(rectangle)
            ==> rectangle.wf())
}

/// Every rectangle in `placed` lies within `region`.
pub open spec fn all_within(placed: Seq<(WindowId, Option<Region>)>, region: Region) -> bool {
    forall|i: int|
        0 <= i < placed.len() ==> ((#[trigger] placed[i]).1 matches Some(rectangle)
            ==> region.spec_contains(rectangle))
}

/// No entry of `placed` shows anything.
pub open spec fn none_shown(placed: Seq<(WindowId, Option<Region>)>) -> bool {
    forall|i: int| 0 <= i < placed.len() ==> shows_nothing((#[trigger] placed[i]).1)
}

/// Every entry of `placed` has a rectangle, and no two of the rectangles
/// have a pixel in common.
pub open spec fn all_apart(placed: Seq<(WindowId, Option<Region>)>) -> bool {
    &&& forall|i: int| 0 <= i < placed.len() ==> (#[trigger] placed[i]).1 is Some
    &&& forall|i: int, j: int|
        0 <= i < j < placed.len() ==> !(#[trigger] placed[i]).1.unwrap().spec_overlaps(
            (#[trigger] placed[j]).1.unwrap(),
        )
}

/// Places every window where the stack is at the side.
pub fn main_and_stack_side(windows: &[WindowId], region: Region, params: LayoutParams) -> (placed:
    Vec<(WindowId, Option<Region>)>)
    requires
        region.wf(),
        params.wf(),
    ensures
        placed@ == Seq::new(
            windows@.len(),
            |i: int| (windows@[i], Some(side_cell(region, windows@.len(), params, i as nat))),
        ),
{
    let n: usize = windows.len();
    let (n_main, n_stack) = partition(n, params.max_main as usize);
    let (main_area, stack_area) = if n_main > 0 && n_stack > 0 {
        region.split_at_column(params.ratio.of(region.width))
    } else {
        (region, region)
    };
    let mut placed: Vec<(WindowId, Option<Region>)> = Vec::new();
    let mut i: usize = 0;
    while i < n
        invariant
            i <= n,
            n == windows@.len(),
            n_main == main_count(n as nat, params.max_main as nat),
            n_stack == n - n_main,
            main_area == side_main_area(region, n as nat, params),
            stack_area == side_stack_area(region, n as nat, params),
            main_area.wf(),
            stack_area.wf(),
            placed@.len() == i,
            forall|k: int|
                0 <= k < i ==> placed@[k] == (
                    windows@[k],
                    Some(side_cell(region, n as nat, params, k as nat)),
                ),
        decreases n - i,
    {
        let cell = if i < n_main {
            main_area.row(n_main, i)
        } else {
            stack_area.row(n_stack, i - n_main)
        };
        placed.push((windows[i], Some(cell)));
        i += 1;
    }
    placed
}

/// Places every window where the stack is at the bottom.
pub fn main_and_stack_bottom(windows: &[WindowId], region: Region, params: LayoutParams) -> (placed:
    Vec<(WindowId, Option<Region>)>)
    requires
        region.wf(),
        params.wf(),
    ensures
        placed@ == Seq::new(
            windows@.len(),
            |i: int| (windows@[i], Some(bottom_cell(region, windows@.len(), params, i as nat))),
        ),
{
    let n: usize = windows.len();
    let (n_main, n_stack) = partition(n, params.max_main as usize);
    let (main_area, stack_area) = if n_main > 0 && n_stack > 0 {
        region.split_at_row(params.ratio.of(region.height))
    } else {
        (region, region)
    };
    let mut placed: Vec<(WindowId, Option<Region>)> = Vec::new();
    let mut i: usize = 0;
    while i < n
        invariant
            i <= n,
            n == windows@.len(),
            n_main == main_count(n as nat, params.max_main as nat),
            n_stack == n - n_main,
            main_area == bottom_main_area(region, n as nat, params),
            stack_area == bottom_stack_area(region, n as nat, params),
            main_area.wf(),
            stack_area.wf(),
            placed@.len() == i,
            forall|k: int|
                0 <= k < i ==> placed@[k] == (
                    windows@[k],
                    Some(bottom_cell(region, n as nat, params, k as nat)),
                ),
        decreases n - i,
    {
        let cell = if i < n_main {
            main_area.column(n_main, i)
        } else {
            stack_area.column(n_stack, i - n_main)
        };
        placed.push((windows[i], Some(cell)));
        i += 1;
    }
    placed
}

/// Places every window where only the focused one is shown: it takes the
/// whole region and the others are treated as `hide` says. With no focused
/// window nothing is placed.
pub fn exclusive_focus(
    windows: &[WindowId],
    focus: Option<WindowId>,
    region: Region,
    hide: HideStrategy,
) -> (placed: Vec<(WindowId, Option<Region>)>)
    ensures
        placed@ == match focus {
            Some(focused) => Seq::new(
                windows@.len(),
                |i: int| (windows@[i], exclusive_placement(hide, focused, windows@[i], region)),
            ),
            None => Seq::empty(),
        },
{
    let mut placed: Vec<(WindowId, Option<Region>)> = Vec::new();
    if let Some(focused) = focus {
        let unfocused: Option<Region> = match hide {
            HideStrategy::Omit => None,
            HideStrategy::ZeroSize => Some(
                Region { x: region.x, y: region.y, width: 0, height: 0 },
            ),
            HideStrategy::OnePixel => Some(
                Region { x: region.x, y: region.y, width: 1, height: 1 },
            ),
        };
        let n: usize = windows.len();
        let mut i: usize = 0;
        while i < n
            invariant
                i <= n,
                n == windows@.len(),
                unfocused == hidden_placement(hide, region),
                placed@.len() == i,
                forall|k: int|
                    0 <= k < i ==> placed@[k] == (
                        windows@[k],
                        exclusive_placement(hide, focused, windows@[k], region),
                    ),
            decreases n - i,
        {
            let window = windows[i];
            if window == focused {
                placed.push((window, Some(region)));
            } else {
                placed.push((window, unfocused));
            }
            i += 1;
        }
    }
    placed
}

/// Shows the focused window alone, over the whole monitor region, and hides
/// every other one. The number of main windows and the ratio play no part.
pub fn really_cool_layout(
    clients: &[WindowId],
    focused: Option<WindowId>,
    monitor_region: &Region,
    max_main: u32,
    ratio: crate::params::Ratio,
) -> (actions: Vec<(WindowId, Option<Region>)>)
    ensures
        actions@ == Layout::ExclusiveFocus(HideStrategy::Omit).arrange(
            clients@,
            focused,
            *monitor_region,
            LayoutParams { max_main, ratio },
        ),
        focused is None ==> actions@.len() == 0,
        focused matches Some(id) ==> {
            &&& actions@.len() == clients@.len()
            &&& forall|i: int|
                0 <= i < clients@.len() ==> #[trigger] actions@[i] == (
                    clients@[i],
                    if clients@[i] == id {
                        Some(*monitor_region)
                    } else {
                        None
                    },
                )
        },
{
    exclusive_focus(clients, focused, *monitor_region, HideStrategy::Omit)
}

impl Layout {
    /// The layout that shows the focused window alone and hides the others.
    pub fn monocle() -> (layout: Layout)
        ensures
            layout == Layout::ExclusiveFocus(HideStrategy::Omit),
    {
        Layout::ExclusiveFocus(HideStrategy::Omit)
    }

    /// The layout that shows the focused window alone and treats the others
    /// as `hide` says.
    pub fn exclusive(hide: HideStrategy) -> (layout: Layout)
        ensures
            layout == Layout::ExclusiveFocus(hide),
    {
        Layout::ExclusiveFocus(hide)
    }

    /// This layout in what is left of the region once `pixels` along `edge`
    /// are kept free.
    pub fn with_reserved_edge(self, edge: Edge, pixels: u32) -> (layout: Layout)
        ensures
            layout == (Layout::ReserveEdge { edge, pixels, inner: Box::new(self) }),
    {
        Layout::ReserveEdge { edge, pixels, inner: Box::new(self) }
    }

    /// This layout with `outer_px` kept free around the region and
    /// `inner_px` around each window.
    pub fn with_gaps(self, outer_px: u32, inner_px: u32) -> (layout: Layout)
        ensures
            layout == (Layout::Gaps { outer_px, inner_px, inner: Box::new(self) }),
    {
        Layout::Gaps { outer_px, inner_px, inner: Box::new(self) }
    }

    /// What the layout yields: one entry for each window, in the order of
    /// `windows`, that holds the window's rectangle or `None` where the window
    /// is hidden. The one exception is a layout that shows the focused window
    /// alone, which yields nothing while no window is focused.
    pub open spec fn arrange(
        &self,
        windows: Seq<WindowId>,
        focus: Option<WindowId>,
        region: Region,
        params: LayoutParams,
    ) -> Seq<(WindowId, Option<Region>)>
        decreases self,
    {
        match *self {
            Layout::MainAndStackSide => Seq::new(
                windows.len(),
                |i: int| (windows[i], Some(side_cell(region, windows.len(), params, i as nat))),
            ),
            Layout::MainAndStackBottom => Seq::new(
                windows.len(),
                |i: int| (windows[i], Some(bottom_cell(region, windows.len(), params, i as nat))),
            ),
            Layout::ExclusiveFocus(hide) => match focus {
                Some(focused) => Seq::new(
                    windows.len(),
                    |i: int| (windows[i], exclusive_placement(hide, focused, windows[i], region)),
                ),
                None => Seq::empty(),
            },
            Layout::ReserveEdge { edge, pixels, inner } => inner.arrange(
                windows,
                focus,
                region.spec_reserve(edge, pixels),
                params,
            ),
            Layout::Gaps { outer_px, inner_px, inner } => inner.arrange(
                windows,
                focus,
                region.spec_inset(outer_px),
                params,
            ).map_values(
                |entry: (WindowId, Option<Region>)| (entry.0, inset_placement(entry.1, inner_px)),
            ),
        }
    }

    /// The arrangement at the core of the layout, without the transformers
    /// around it.
    pub open spec fn spec_arrangement(&self) -> Layout
        decreases self,
    {
        match *self {
            Layout::ReserveEdge { edge, pixels, inner } => inner.spec_arrangement(),
            Layout::Gaps { outer_px, inner_px, inner } => inner.spec_arrangement(),
            Layout::MainAndStackSide => Layout::MainAndStackSide,
            Layout::MainAndStackBottom => Layout::MainAndStackBottom,
            Layout::ExclusiveFocus(hide) => Layout::ExclusiveFocus(hide),
        }
    }

    /// The arrangement at the core of the layout, without the transformers
    /// around it.
    pub fn arrangement(&self) -> (found: &Layout)
        ensures
            *found == self.spec_arrangement(),
            !(*found is ReserveEdge),
            !(*found is Gaps),
        decreases self,
    {
        match self {
            Layout::ReserveEdge { edge, pixels, inner } => inner.arrangement(),
            Layout::Gaps { outer_px, inner_px, inner } => inner.arrangement(),
            _ => self,
        }
    }

    /// The region that the arrangement at the core of the layout works in
    /// when the layout is given `region`.
    pub open spec fn core_region(&self, region: Region) -> Region
        decreases self,
    {
        match *self {
            Layout::ReserveEdge { edge, pixels, inner } => inner.core_region(
                region.spec_reserve(edge, pixels),
            ),
            Layout::Gaps { outer_px, inner_px, inner } => inner.core_region(
                region.spec_inset(outer_px),
            ),
            _ => region,
        }
    }

    /// The arrangement at the core of the layout puts a single pixel in the
    /// place of each window that it does not show.
    pub open spec fn spec_uses_pixels(&self) -> bool
        decreases self,
    {
        match *self {
            Layout::ExclusiveFocus(hide) => (hide == HideStrategy::OnePixel),
            Layout::ReserveEdge { edge, pixels, inner } => inner.spec_uses_pixels(),
            Layout::Gaps { outer_px, inner_px, inner } => inner.spec_uses_pixels(),
            _ => false,
        }
    }

    /// The arrangement at the core of the layout shows the focused window
    /// alone.
    pub open spec fn shows_focus_only(&self) -> bool
        decreases self,
    {
        match *self {
            Layout::ExclusiveFocus(hide) => true,
            Layout::ReserveEdge { edge, pixels, inner } => inner.shows_focus_only(),
            Layout::Gaps { outer_px, inner_px, inner } => inner.shows_focus_only(),
            _ => false,
        }
    }

    /// The rectangle that stands in for a window which the layout does not
    /// show, where it puts a single pixel in the place of such a window: the
    /// pixel at the origin of the core region, less the gaps that the
    /// transformers around the core leave around every window.
    pub open spec fn stand_in(&self, region: Region) -> Region
        decreases self,
    {
        match *self {
            Layout::ReserveEdge { edge, pixels, inner } => inner.stand_in(
                region.spec_reserve(edge, pixels),
            ),
            Layout::Gaps { outer_px, inner_px, inner } => inner.stand_in(
                region.spec_inset(outer_px),
            ).spec_inset(inner_px),
            _ => Region { x: region.x, y: region.y, width: 1, height: 1 },
        }
    }

    /// The layout can work in `region`: the far edges of the region are
    /// coordinates that an `i32` can hold, and so are those of the single
    /// pixel at the origin of the core region, where the layout puts such
    /// pixels in the place of windows.
    pub open spec fn spec_admits(&self, region: Region) -> bool {
        &&& region.wf()
        &&& self.spec_uses_pixels() ==> {
            &&& self.core_region(region).x < i32::MAX
            &&& self.core_region(region).y < i32::MAX
        }
    }

    /// Tells whether the layout puts a single pixel in the place of each
    /// window that it does not show.
    #[verifier::when_used_as_spec(spec_uses_pixels)]
    pub fn uses_pixels(&self) -> (uses: bool)
        ensures
            uses == self.spec_uses_pixels(),
        decreases self,
    {
        match self {
            Layout::ExclusiveFocus(hide) => match hide {
                HideStrategy::OnePixel => true,
                _ => false,
            },
            Layout::ReserveEdge { edge, pixels, inner } => inner.uses_pixels(),
            Layout::Gaps { outer_px, inner_px, inner } => inner.uses_pixels(),
            _ => false,
        }
    }

    /// The region that the arrangement at the core of the layout gets.
    pub fn core_region_of(&self, region: Region) -> (core: Region)
        requires
            region.wf(),
        ensures
            core == self.core_region(region),
            core.wf(),
            region.spec_contains(core),
        decreases self,
    {
        match self {
            Layout::ReserveEdge { edge, pixels, inner } => inner.core_region_of(
                region.reserve(*edge, *pixels),
            ),
            Layout::Gaps { outer_px, inner_px, inner } => inner.core_region_of(
                region.inset(*outer_px),
            ),
            _ => region,
        }
    }

    /// Tells whether the layout can work in `region`.
    #[verifier::when_used_as_spec(spec_admits)]
    pub fn admits(&self, region: Region) -> (ok: bool)
        ensures
            ok == self.spec_admits(region),
    {
        if !region.is_wf() {
            return false;
        }
        if self.uses_pixels() {
            let core = self.core_region_of(region);
            core.x < i32::MAX && core.y < i32::MAX
        } else {
            true
        }
    }

    /// Places the windows as the layout says: see [`Layout::arrange`].
    ///
    /// The region has to be one that the layout admits, which
    /// [`Layout::admits`] tells, and the ratio a proper fraction. Every other
    /// input has a result: an empty list, a region without width or height,
    /// more main windows than there are windows or none at all.
    pub fn compute(
        &self,
        windows: &[WindowId],
        focus: Option<WindowId>,
        region: Region,
        params: LayoutParams,
    ) -> (placed: Vec<(WindowId, Option<Region>)>)
        requires
            self.spec_admits(region),
            params.wf(),
        ensures
            placed@ == self.arrange(windows@, focus, region, params),
        decreases self,
    {
        match self {
            Layout::MainAndStackSide => main_and_stack_side(windows, region, params),
            Layout::MainAndStackBottom => main_and_stack_bottom(windows, region, params),
            Layout::ExclusiveFocus(hide) => exclusive_focus(windows, focus, region, *hide),
            Layout::ReserveEdge { edge, pixels, inner } => inner.compute(
                windows,
                focus,
                region.reserve(*edge, *pixels),
                params,
            ),
            Layout::Gaps { outer_px, inner_px, inner } => {
                let within = inner.compute(windows, focus, region.inset(*outer_px), params);
                proof {
                    lemma_placements_wf(
                        **inner,
                        windows@,
                        focus,
                        region.spec_inset(*outer_px),
                        params,
                    );
                }
                inset_each(within, *inner_px)
            },
        }
    }
}

/// Takes `pixels` off each side of every rectangle in `placed`.
pub fn inset_each(placed: Vec<(WindowId, Option<Region>)>, pixels: u32) -> (spaced: Vec<
    (WindowId, Option<Region>),
>)
    requires
        all_wf(placed@),
    ensures
        spaced@ == placed@.map_values(
            |entry: (WindowId, Option<Region>)| (entry.0, inset_placement(entry.1, pixels)),
        ),
{
    let n: usize = placed.len();
    let mut spaced: Vec<(WindowId, Option<Region>)> = Vec::new();
    let mut i: usize = 0;
    while i < n
        invariant
            i <= n,
            n == placed@.len(),
            spaced@.len() == i,
            all_wf(placed@),
            forall|k: int|
                0 <= k < i ==> spaced@[k] == (
                    placed@[k].0,
                    inset_placement(placed@[k].1, pixels),
                ),
        decreases n - i,
    {
        let entry = placed[i];
        let moved: Option<Region> = match entry.1 {
            Some(region) => Some(region.inset(pixels)),
            None => None,
        };
        spaced.push((entry.0, moved));
        i += 1;
    }
    spaced
}

/// Each rectangle of the side arrangement lies within the region.
pub proof fn lemma_side_cell_within(
    region: Region,
    n_windows: nat,
    params: LayoutParams,
    index: nat,
)
    requires
        region.wf(),
        params.wf(),
        index < n_windows,
    ensures
        region.spec_contains(side_cell(region, n_windows, params, index)),
        side_cell(region, n_windows, params, index).wf(),
{
    let n_main = main_count(n_windows, params.max_main as nat);
    let main_area = side_main_area(region, n_windows, params);
    let stack_area = side_stack_area(region, n_windows, params);
    lemma_share_fits(region.width as nat, params.ratio.percent as nat);
    lemma_column_cut_within(region, params.ratio.spec_of(region.width));
    if index < n_main {
        lemma_row_within(main_area, n_main, index);
        lemma_contains_transitive(region, main_area, main_area.spec_row(n_main, index));
    } else {
        let n_stack = (n_windows - n_main) as nat;
        let at = (index - n_main) as nat;
        lemma_row_within(stack_area, n_stack, at);
        lemma_contains_transitive(region, stack_area, stack_area.spec_row(n_stack, at));
    }
    lemma_contained_wf(region, side_cell(region, n_windows, params, index));
}

/// Each rectangle of the bottom arrangement lies within the region.
pub proof fn lemma_bottom_cell_within(
    region: Region,
    n_windows: nat,
    params: LayoutParams,
    index: nat,
)
    requires
        region.wf(),
        params.wf(),
        index < n_windows,
    ensures
        region.spec_contains(bottom_cell(region, n_windows, params, index)),
        bottom_cell(region, n_windows, params, index).wf(),
{
    let n_main = main_count(n_windows, params.max_main as nat);
    let main_area = bottom_main_area(region, n_windows, params);
    let stack_area = bottom_stack_area(region, n_windows, params);
    lemma_share_fits(region.height as nat, params.ratio.percent as nat);
    lemma_row_cut_within(region, params.ratio.spec_of(region.height));
    if index < n_main {
        lemma_column_within(main_area, n_main, index);
        lemma_contains_transitive(region, main_area, main_area.spec_column(n_main, index));
    } else {
        let n_stack = (n_windows - n_main) as nat;
        let at = (index - n_main) as nat;
        lemma_column_within(stack_area, n_stack, at);
        lemma_contains_transitive(region, stack_area, stack_area.spec_column(n_stack, at));
    }
    lemma_contained_wf(region, bottom_cell(region, n_windows, params, index));
}

/// In a region that the layout admits, every rectangle that it yields has
/// far edges that are representable coordinates.
pub proof fn lemma_placements_wf(
    layout: Layout,
    windows: Seq<WindowId>,
    focus: Option<WindowId>,
    region: Region,
    params: LayoutParams,
)
    requires
        layout.spec_admits(region),
        params.wf(),
    ensures
        all_wf(layout.arrange(windows, focus, region, params)),
    decreases layout,
{
    let placed = layout.arrange(windows, focus, region, params);
    match layout {
        Layout::MainAndStackSide => {
            assert forall|i: int| 0 <= i < placed.len() implies (
            #[trigger] placed[i]).1.unwrap().wf() by {
                lemma_side_cell_within(region, windows.len(), params, i as nat);
            }
        },
        Layout::MainAndStackBottom => {
            assert forall|i: int| 0 <= i < placed.len() implies (
            #[trigger] placed[i]).1.unwrap().wf() by {
                lemma_bottom_cell_within(region, windows.len(), params, i as nat);
            }
        },
        Layout::ExclusiveFocus(hide) => {},
        Layout::ReserveEdge { edge, pixels, inner } => {
            lemma_reserve_within(region, edge, pixels);
            lemma_placements_wf(*inner, windows, focus, region.spec_reserve(edge, pixels), params);
        },
        Layout::Gaps { outer_px, inner_px, inner } => {
            lemma_inset_within(region, outer_px);
            let within = inner.arrange(windows, focus, region.spec_inset(outer_px), params);
            lemma_placements_wf(*inner, windows, focus, region.spec_inset(outer_px), params);
            assert forall|i: int| 0 <= i < placed.len() implies ((
            #[trigger] placed[i]).1 matches Some(rectangle) ==> rectangle.wf()) by {
                if let Some(before) = within[i].1 {
                    lemma_inset_within(before, inner_px);
                }
            }
        },
    }
}

} // verus!
