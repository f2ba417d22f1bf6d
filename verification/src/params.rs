//! The adjustable parameters of a layout: how many windows go into the main
//! area and what share of the region that area takes.

use vstd::prelude::*;

verus! {

/// The smallest share, in percent, that adjusting a ratio leaves to the main
/// area.
pub const MIN_RATIO_PERCENT: u32 = 5;

/// The largest share, in percent, that adjusting a ratio leaves to the main
/// area.
pub const MAX_RATIO_PERCENT: u32 = 95;

/// By how many percent one adjustment changes a ratio.
pub const RATIO_STEP_PERCENT: u32 = 10;

/// `value` brought into the range that adjusted ratios stay in.
pub open spec fn clamp_percent(value: int) -> u32 {
    if value < MIN_RATIO_PERCENT {
        MIN_RATIO_PERCENT
    } else if value > MAX_RATIO_PERCENT {
        MAX_RATIO_PERCENT
    } else {
        value as u32
    }
}

/// `value` brought into the range of a `u32`.
pub open spec fn clamp_count(value: int) -> u32 {
    if value < 0 {
        0
    } else if value > u32::MAX {
        u32::MAX
    } else {
        value as u32
    }
}

/// The share of a region that goes to the main area, as a whole number of
/// percent strictly between 0 and 100.
#[derive(Clone, Copy, Debug, PartialEq, Eq, Structural)]
pub struct Ratio {
    pub percent: u32,
}

impl Ratio {
    /// The share is a proper fraction: more than nothing, less than all.
    pub open spec fn wf(self) -> bool {
        0 < self.percent < 100
    }

    /// This share of `extent` pixels, rounded down.
    pub open spec fn spec_of(self, extent: u32) -> u32 {
        ((extent * self.percent) / 100) as u32
    }

    /// The ratio after one step up.
    pub open spec fn spec_expanded(self) -> Ratio {
        Ratio { percent: clamp_percent(self.percent + RATIO_STEP_PERCENT) }
    }

    /// The ratio after one step down.
    pub open spec fn spec_reduced(self) -> Ratio {
        Ratio { percent: clamp_percent(self.percent - RATIO_STEP_PERCENT) }
    }

    /// The ratio of `percent` in a hundred, where that is a proper fraction.
    pub fn from_percent(percent: u32) -> (ratio: Option<Ratio>)
        ensures
            ratio == if 0 < percent < 100 {
                Some(Ratio { percent })
            } else {
                None
            },
    {
        if 0 < percent && percent < 100 {
            Some(Ratio { percent })
        } else {
            None
        }
    }

    /// Tells whether the ratio is a proper fraction.
    pub fn is_wf(self) -> (ok: bool)
        ensures
            ok == self.wf(),
    {
        0 < self.percent && self.percent < 100
    }

    /// This share of `extent` pixels, rounded down.
    #[verifier::when_used_as_spec(spec_of)]
    pub fn of(self, extent: u32) -> (share: u32)
        requires
            self.wf(),
        ensures
            share == self.spec_of(extent),
            share <= extent,
    {
        proof {
            lemma_share_fits(extent as nat, self.percent as nat);
        }
        let scaled: u64 = extent as u64 * self.percent as u64;
        (scaled / 100) as u32
    }

    /// Raises the ratio by one step, staying within
    /// `MIN_RATIO_PERCENT ..= MAX_RATIO_PERCENT`.
    #[verifier::when_used_as_spec(spec_expanded)]
    pub fn expanded(self) -> (ratio: Ratio)
        ensures
            ratio == self.spec_expanded(),
            ratio.wf(),
    {
        let raised: u64 = self.percent as u64 + RATIO_STEP_PERCENT as u64;
        if raised < MIN_RATIO_PERCENT as u64 {
            Ratio { percent: MIN_RATIO_PERCENT }
        } else if raised > MAX_RATIO_PERCENT as u64 {
            Ratio { percent: MAX_RATIO_PERCENT }
        } else {
            Ratio { percent: raised as u32 }
        }
    }

    /// Lowers the ratio by one step, staying within
    /// `MIN_RATIO_PERCENT ..= MAX_RATIO_PERCENT`.
    #[verifier::when_used_as_spec(spec_reduced)]
    pub fn reduced(self) -> (ratio: Ratio)
        ensures
            ratio == self.spec_reduced(),
            ratio.wf(),
    {
        let lowered: i64 = self.percent as i64 - RATIO_STEP_PERCENT as i64;
        if lowered < MIN_RATIO_PERCENT as i64 {
            Ratio { percent: MIN_RATIO_PERCENT }
        } else if lowered > MAX_RATIO_PERCENT as i64 {
            Ratio { percent: MAX_RATIO_PERCENT }
        } else {
            Ratio { percent: lowered as u32 }
        }
    }
}

/// A share of at most a hundred percent of `extent` is at most `extent`.
pub proof fn lemma_share_fits(extent: nat, percent: nat)
    requires
        percent <= 100,
    ensures
        (extent * percent) / 100 <= extent,
        extent * percent <= extent * 100,
{
    assert(extent * percent <= extent * 100) by (nonlinear_arith)
        requires
            percent <= 100,
    ;
    assert((extent * 100) / 100 == extent) by (nonlinear_arith);
    assert((extent * percent) / 100 <= (extent * 100) / 100) by (nonlinear_arith)
        requires
            extent * percent <= extent * 100,
    ;
}

/// The parameters that one layout of one workspace is computed with.
#[derive(Clone, Copy, Debug, PartialEq, Eq, Structural)]
pub struct LayoutParams {
    /// The most windows that the main area takes.
    pub max_main: u32,
    /// The share of the region that the main area takes.
    pub ratio: Ratio,
}

impl LayoutParams {
    /// The ratio is a proper fraction.
    pub open spec fn wf(self) -> bool {
        self.ratio.wf()
    }

    /// The parameters with `delta` added to `max_main`, which stays within
    /// the range of a `u32`.
    pub open spec fn spec_inc_main(self, delta: i32) -> LayoutParams {
        LayoutParams { max_main: clamp_count(self.max_main + delta), ..self }
    }

    /// The parameters with the ratio one step up.
    pub open spec fn spec_expand_ratio(self) -> LayoutParams {
        LayoutParams { ratio: self.ratio.spec_expanded(), ..self }
    }

    /// The parameters with the ratio one step down.
    pub open spec fn spec_shrink_ratio(self) -> LayoutParams {
        LayoutParams { ratio: self.ratio.spec_reduced(), ..self }
    }

    /// Parameters with `max_main` main windows at most and the given ratio.
    pub fn new(max_main: u32, ratio: Ratio) -> (params: LayoutParams)
        ensures
            params == (LayoutParams { max_main, ratio }),
    {
        LayoutParams { max_main, ratio }
    }

    /// Tells whether the ratio is a proper fraction.
    pub fn is_wf(self) -> (ok: bool)
        ensures
            ok == self.wf(),
    {
        self.ratio.is_wf()
    }

    /// Adds `delta` to the number of main windows. The number never goes
    /// below zero, however negative `delta` is.
    #[verifier::when_used_as_spec(spec_inc_main)]
    pub fn inc_main(self, delta: i32) -> (params: LayoutParams)
        ensures
            params == self.spec_inc_main(delta),
            self.wf() ==> params.wf(),
    {
        let moved: i64 = self.max_main as i64 + delta as i64;
        let max_main: u32 = if moved < 0 {
            0
        } else if moved > u32::MAX as i64 {
            u32::MAX
        } else {
            moved as u32
        };
        LayoutParams { max_main, ratio: self.ratio }
    }

    /// Gives the main area one step more of the region.
    #[verifier::when_used_as_spec(spec_expand_ratio)]
    pub fn expand_ratio(self) -> (params: LayoutParams)
        ensures
            params == self.spec_expand_ratio(),
            params.wf(),
    {
        LayoutParams { max_main: self.max_main, ratio: self.ratio.expanded() }
    }

    /// Gives the main area one step less of the region.
    #[verifier::when_used_as_spec(spec_shrink_ratio)]
    pub fn shrink_ratio(self) -> (params: LayoutParams)
        ensures
            params == self.spec_shrink_ratio(),
            params.wf(),
    {
        LayoutParams { max_main: self.max_main, ratio: self.ratio.reduced() }
    }
}

} // verus!
