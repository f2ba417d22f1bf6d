//! The layouts of one workspace: an ordered, non-empty sequence of layouts,
//! each with parameters of its own, and the position of the one in use.

use crate::geometry::Region;
use crate::layout::{Layout, WindowId};
use crate::params::LayoutParams;
use vstd::arithmetic::div_mod::{lemma_mod_add_multiples_vanish, lemma_mod_self_0, lemma_small_mod};
use vstd::prelude::*;

verus! {

/// A request to a layout set.
#[derive(Clone, Copy, Debug, PartialEq, Eq, Structural)]
pub enum Message {
    /// Use the next layout, or the first one after the last.
    CycleForward,
    /// Use the previous layout, or the last one before the first.
    CycleBackward,
    /// Add this many windows to the main area of the layout in use.
    IncMain(i32),
    /// Give the main area of the layout in use one step more of the region.
    ExpandRatio,
    /// Give the main area of the layout in use one step less of the region.
    ShrinkRatio,
}

/// What a layout set holds: the layouts in their order, the parameters of
/// each at the same position, and the position of the layout in use.
pub struct LayoutSetView {
    pub layouts: Seq<Layout>,
    pub params: Seq<LayoutParams>,
    pub current: nat,
}

impl LayoutSetView {
    /// There is at least one layout, each has valid parameters, and the
    /// position in use is that of one of them.
    pub open spec fn wf(self) -> bool {
        &&& self.layouts.len() > 0
        &&& self.params.len() == self.layouts.len()
        &&& self.current < self.layouts.len()
        &&& forall|i: int| 0 <= i < self.params.len() ==> (#[trigger] self.params[i]).wf()
    }

    /// The set with the parameters of the layout in use replaced.
    pub open spec fn with_current_params(self, params: LayoutParams) -> LayoutSetView {
        LayoutSetView { params: self.params.update(self.current as int, params), ..self }
    }

    /// The set after `message`. Cycling moves the position by one and wraps
    /// at both ends; the other messages change the parameters of the layout
    /// in use and nothing else.
    pub open spec fn step(self, message: Message) -> LayoutSetView {
        match message {
            Message::CycleForward => LayoutSetView {
                current: ((self.current as int + 1) % (self.layouts.len() as int)) as nat,
                ..self
            },
            Message::CycleBackward => LayoutSetView {
                current: ((self.current as int + self.layouts.len() as int - 1) % (
                    self.layouts.len() as int
                )) as nat,
                ..self
            },
            Message::IncMain(delta) => self.with_current_params(
                self.params[self.current as int].spec_inc_main(delta),
            ),
            Message::ExpandRatio => self.with_current_params(
                self.params[self.current as int].spec_expand_ratio(),
            ),
            Message::ShrinkRatio => self.with_current_params(
                self.params[self.current as int].spec_shrink_ratio(),
            ),
        }
    }
}

/// The layouts of one workspace.
pub struct LayoutSet {
    layouts: Vec<Layout>,
    params: Vec<LayoutParams>,
    current: usize,
}

impl View for LayoutSet {
    type V = LayoutSetView;

    closed spec fn view(&self) -> LayoutSetView {
        LayoutSetView {
            layouts: self.layouts@,
            params: self.params@,
            current: self.current as nat,
        }
    }
}

impl LayoutSet {
    /// The set is in a state that its functions leave it in: see
    /// [`LayoutSetView::wf`].
    pub open spec fn wf(&self) -> bool {
        self@.wf()
    }

    /// A set of one layout, which is the one in use.
    pub fn new(layout: Layout, params: LayoutParams) -> (set: LayoutSet)
        requires
            params.wf(),
        ensures
            set.wf(),
            set@ == (LayoutSetView { layouts: seq![layout], params: seq![params], current: 0 }),
    {
        let mut layouts: Vec<Layout> = Vec::new();
        layouts.push(layout);
        let mut all_params: Vec<LayoutParams> = Vec::new();
        all_params.push(params);
        LayoutSet { layouts, params: all_params, current: 0 }
    }

    /// Adds a layout after the last one. The layout in use stays in use.
    pub fn push(&mut self, layout: Layout, params: LayoutParams)
        requires
            old(self).wf(),
            params.wf(),
        ensures
            final(self).wf(),
            final(self)@ == (LayoutSetView {
                layouts: old(self)@.layouts.push(layout),
                params: old(self)@.params.push(params),
                current: old(self)@.current,
            }),
    {
        self.layouts.push(layout);
        self.params.push(params);
    }

    /// The number of layouts, which is never zero.
    pub fn len(&self) -> (n: usize)
        requires
            self.wf(),
        ensures
            n == self@.layouts.len(),
            n > 0,
    {
        self.layouts.len()
    }

    /// The position of the layout in use.
    pub fn current_index(&self) -> (index: usize)
        requires
            self.wf(),
        ensures
            index == self@.current,
            index < self@.layouts.len(),
    {
        self.current
    }

    /// The layout in use.
    pub fn current_layout(&self) -> (layout: &Layout)
        requires
            self.wf(),
        ensures
            *layout == self@.layouts[self@.current as int],
    {
        &self.layouts[self.current]
    }

    /// The parameters of the layout in use.
    pub fn current_params(&self) -> (params: LayoutParams)
        requires
            self.wf(),
        ensures
            params == self@.params[self@.current as int],
            params.wf(),
    {
        self.params[self.current]
    }

    /// The layout at `index`, if there is one.
    pub fn layout_at(&self, index: usize) -> (layout: Option<&Layout>)
        requires
            self.wf(),
        ensures
            match layout {
                Some(found) => index < self@.layouts.len() && *found == self@.layouts[index as int],
                None => index >= self@.layouts.len(),
            },
    {
        if index < self.layouts.len() {
            Some(&self.layouts[index])
        } else {
            None
        }
    }

    /// The parameters of the layout at `index`, if there is one.
    pub fn params_at(&self, index: usize) -> (params: Option<LayoutParams>)
        requires
            self.wf(),
        ensures
            params == if index < self@.params.len() {
                Some(self@.params[index as int])
            } else {
                None
            },
    {
        if index < self.params.len() {
            Some(self.params[index])
        } else {
            None
        }
    }

    /// Moves on to the next layout, from the last one to the first.
    pub fn cycle_forward(&mut self)
        requires
            old(self).wf(),
        ensures
            final(self).wf(),
            final(self)@ == old(self)@.step(Message::CycleForward),
    {
        let n: usize = self.layouts.len();
        proof {
            if self.current + 1 == n {
                lemma_mod_self_0(n as int);
            } else {
                lemma_small_mod((self.current + 1) as nat, n as nat);
            }
        }
        if self.current + 1 == n {
            self.current = 0;
        } else {
            self.current = self.current + 1;
        }
    }

    /// Moves back to the previous layout, from the first one to the last.
    pub fn cycle_backward(&mut self)
        requires
            old(self).wf(),
        ensures
            final(self).wf(),
            final(self)@ == old(self)@.step(Message::CycleBackward),
    {
        let n: usize = self.layouts.len();
        proof {
            if self.current == 0 {
                lemma_small_mod((n - 1) as nat, n as nat);
            } else {
                lemma_mod_add_multiples_vanish(self.current - 1, n as int);
                lemma_small_mod((self.current - 1) as nat, n as nat);
            }
        }
        if self.current == 0 {
            self.current = n - 1;
        } else {
            self.current = self.current - 1;
        }
    }

    /// Carries out `message`. Only the position in use or the parameters of
    /// the layout in use change: the layouts themselves and the parameters of
    /// every other layout stay as they are.
    pub fn handle_message(&mut self, message: Message)
        requires
            old(self).wf(),
        ensures
            final(self).wf(),
            final(self)@ == old(self)@.step(message),
            final(self)@.layouts == old(self)@.layouts,
            forall|i: int|
                0 <= i < old(self)@.params.len() && i != old(self)@.current
                    ==> #[trigger] final(self)@.params[i] == old(self)@.params[i],
    {
        match message {
            Message::CycleForward => self.cycle_forward(),
            Message::CycleBackward => self.cycle_backward(),
            Message::IncMain(delta) => {
                let changed = self.params[self.current].inc_main(delta);
                self.params.set(self.current, changed);
            },
            Message::ExpandRatio => {
                let changed = self.params[self.current].expand_ratio();
                self.params.set(self.current, changed);
            },
            Message::ShrinkRatio => {
                let changed = self.params[self.current].shrink_ratio();
                self.params.set(self.current, changed);
            },
        }
    }

    /// Places the windows with the layout in use and its parameters.
    pub fn arrange(&self, windows: &[WindowId], focus: Option<WindowId>, region: Region) -> (placed:
        Vec<(WindowId, Option<Region>)>)
        requires
            self.wf(),
            self@.layouts[self@.current as int].spec_admits(region),
        ensures
            placed@ == self@.layouts[self@.current as int].arrange(
                windows@,
                focus,
                region,
                self@.params[self@.current as int],
            ),
    {
        self.layouts[self.current].compute(windows, focus, region, self.params[self.current])
    }
}

} // verus!
