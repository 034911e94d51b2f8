//! Bounding how deeply composite actions nest.

use vstd::prelude::*;

use crate::error::{RunnerError, RunnerErrorView};
use crate::number;
use crate::text;

verus! {

/// Deepest nesting of composite actions.
pub const MAX_COMPOSITE_DEPTH: u32 = 10;

/// How deeply composite actions are nested.
#[derive(Debug, Clone, Copy)]
pub struct DepthTracker {
    current: u32,
    max: u32,
}

/// The current depth and the limit.
pub struct DepthView {
    pub current: nat,
    pub max: nat,
}

impl View for DepthTracker {
    type V = DepthView;

    closed spec fn view(&self) -> DepthView {
        DepthView { current: self.current as nat, max: self.max as nat }
    }
}

/// The failure of nesting too deeply.
pub open spec fn too_deep(max: nat) -> RunnerErrorView {
    RunnerErrorView::StepExecution(
        "composite action depth limit exceeded (max "@ + number::decimal(max) + ")"@,
    )
}

/// The depth after a level was entered. The level counts as entered even
/// when it is refused.
pub open spec fn entered(d: DepthView) -> DepthView {
    DepthView { current: d.current + 1, ..d }
}

/// The depth after a level was left.
pub open spec fn left(d: DepthView) -> DepthView {
    DepthView {
        current: if d.current > 0 {
            (d.current - 1) as nat
        } else {
            0
        },
        ..d
    }
}

/// Whether one more level can be entered.
pub open spec fn has_room(d: DepthView) -> bool {
    d.current < d.max
}

impl DepthTracker {
    #[verifier::type_invariant]
    spec fn inv(self) -> bool {
        self.max == MAX_COMPOSITE_DEPTH
    }

    /// No nesting, and the default limit.
    pub fn new() -> (r: DepthTracker)
        ensures
            r@ == (DepthView { current: 0, max: MAX_COMPOSITE_DEPTH as nat }),
    {
        DepthTracker { current: 0, max: MAX_COMPOSITE_DEPTH }
    }

    /// The current depth. The limit is the same for every tracker.
    pub fn current(&self) -> (r: u32)
        ensures
            r == self@.current,
            self@.max == MAX_COMPOSITE_DEPTH,
    {
        proof {
            use_type_invariant(&*self);
        }
        self.current
    }

    /// Enters a level; an error when it lies beyond the limit.
    pub fn enter(&mut self) -> (r: Result<(), RunnerError>)
        requires
            old(self)@.current < u32::MAX,
        ensures
            final(self)@ == entered(old(self)@),
            old(self)@.max == MAX_COMPOSITE_DEPTH,
            match r {
                Ok(_) => has_room(old(self)@),
                Err(e) => !has_room(old(self)@) && e@ == too_deep(old(self)@.max),
            },
    {
        proof {
            use_type_invariant(&*self);
        }
        self.current = self.current + 1;
        if self.current > self.max {
            let max = number::show_u64(self.max as u64);
            return Err(
                RunnerError::StepExecution(
                    text::cat3(
                        "composite action depth limit exceeded (max ",
                        max.as_str(),
                        ")",
                    ),
                ),
            );
        }
        Ok(())
    }

    /// Leaves the current level.
    pub fn exit(&mut self)
        ensures
            final(self)@ == left(old(self)@),
            old(self)@.max == MAX_COMPOSITE_DEPTH,
    {
        proof {
            use_type_invariant(&*self);
        }
        if self.current > 0 {
            self.current = self.current - 1;
        }
    }
}

impl Default for DepthTracker {
    fn default() -> (r: DepthTracker)
        ensures
            r@ == (DepthView { current: 0, max: MAX_COMPOSITE_DEPTH as nat }),
    {
        DepthTracker::new()
    }
}

/// Leaving undoes entering.
pub proof fn law_exit_undoes_enter(d: DepthView)
    ensures
        left(entered(d)) == d,
{
}

/// Levels entered one inside the other, from none: the first ten are
/// accepted, every further one is refused.
pub proof fn law_ten_levels(levels: nat)
    ensures
        has_room(nested(DepthView { current: 0, max: MAX_COMPOSITE_DEPTH as nat }, levels))
            <==> levels < 10,
{
    lemma_nested(DepthView { current: 0, max: MAX_COMPOSITE_DEPTH as nat }, levels);
}

proof fn lemma_nested(d: DepthView, levels: nat)
    ensures
        nested(d, levels) == (DepthView { current: d.current + levels, ..d }),
    decreases levels,
{
    if levels > 0 {
        lemma_nested(d, (levels - 1) as nat);
    }
}

/// The depth after several levels were entered one inside the other.
pub open spec fn nested(d: DepthView, levels: nat) -> DepthView
    decreases levels,
{
    if levels == 0 {
        d
    } else {
        entered(nested(d, (levels - 1) as nat))
    }
}

/// Entering goes one level deeper and keeps the limit, leaving comes one
/// level back and stops at none; there is room exactly below the limit.
pub proof fn law_levels_count_one(d: DepthView)
    ensures
        entered(d).current == d.current + 1,
        entered(d).max == d.max,
        left(d).max == d.max,
        d.current > 0 ==> left(d).current == d.current - 1,
        d.current == 0 ==> left(d).current == 0,
        has_room(d) <==> d.current < d.max,
        has_room(entered(d)) ==> has_room(d),
{
}

/// Entering is refused exactly from ten levels on, and counts either way;
/// leaving takes one level back. Nesting starts at none.
pub proof fn law_enter_and_exit(
    fresh: DepthTracker,
    d: &mut DepthTracker,
    r: Result<(), RunnerError>,
    e: &mut DepthTracker,
)
    requires
        call_ensures(DepthTracker::new, (), fresh),
        call_ensures(DepthTracker::enter, (d,), r),
        call_ensures(DepthTracker::exit, (e,), ()),
    ensures
        fresh@.current == 0 && fresh@.max == 10,
        r is Ok <==> old(d)@.current < 10,
        final(d)@.current == old(d)@.current + 1,
        r matches Err(f) ==> f@ == RunnerErrorView::StepExecution(
            "composite action depth limit exceeded (max "@ + number::decimal(10) + ")"@,
        ),
        old(e)@.current > 0 ==> final(e)@.current == old(e)@.current - 1,
        old(e)@.current == 0 ==> final(e)@.current == 0,
{
}

} // verus!
