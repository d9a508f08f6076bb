//! What holds of every run of the tracer.
//!
//! A run is a sequence of steps, each of them one call of the protocol. The
//! laws are stated over the functions that the contracts of the calls use.

use vstd::prelude::*;
use crate::events::EventKind;
use crate::traces::TraceView;
use crate::tracer::{Features, TracerView};
use crate::{no_trace_text, trace_report};

verus! {

/// One call of the protocol.
pub enum Step {
    /// The open of a computation traced under `tag`.
    Enter { tag: Seq<char>, context: Option<Seq<char>>, input: Seq<char>, location: Seq<char> },
    /// The close of a computation traced under `tag`.
    Leave {
        tag: Seq<char>,
        context: Option<Seq<char>>,
        input: Seq<char>,
        location: Seq<char>,
        kind: EventKind,
    },
    /// The open of a silenced region under `tag`.
    Silence { tag: Seq<char>, context: Option<Seq<char>>, input: Seq<char>, location: Seq<char> },
    /// The close of the innermost silenced region.
    Unsilence {
        context: Option<Seq<char>>,
        input: Seq<char>,
        location: Seq<char>,
        kind: EventKind,
    },
}

/// The tracer after one step.
pub open spec fn step(t: TracerView, s: Step) -> TracerView {
    match s {
        Step::Enter { tag, context, input, location } => t.entered(tag, context, input, location),
        Step::Leave { tag, context, input, location, kind } => t.left(
            tag,
            context,
            input,
            location,
            kind,
        ),
        Step::Silence { tag, context, input, location } => t.silence_entered(
            tag,
            context,
            input,
            location,
        ),
        Step::Unsilence { context, input, location, kind } => t.silence_left(
            context,
            input,
            location,
            kind,
        ),
    }
}

/// The tracer after the steps, first to last.
pub open spec fn run(t: TracerView, steps: Seq<Step>) -> TracerView
    decreases steps.len(),
{
    if steps.len() == 0 {
        t
    } else {
        step(run(t, steps.drop_last()), steps.last())
    }
}

/// Every step is the open or the close of a computation traced under `tag`.
pub open spec fn traces_tag(steps: Seq<Step>, tag: Seq<char>) -> bool {
    forall|i: int|
        0 <= i < steps.len() ==> match #[trigger] steps[i] {
            Step::Enter { tag: t, .. } => t == tag,
            Step::Leave { tag: t, .. } => t == tag,
            _ => false,
        }
}

/// Every close carries an outcome: none of them is recorded as an open.
pub open spec fn closes_with_outcomes(steps: Seq<Step>) -> bool {
    forall|i: int|
        0 <= i < steps.len() ==> match #[trigger] steps[i] {
            Step::Leave { kind, .. } => !(kind is Open),
            Step::Unsilence { kind, .. } => !(kind is Open),
            _ => true,
        }
}

/// The number of opens among the steps.
pub open spec fn opens(steps: Seq<Step>) -> nat
    decreases steps.len(),
{
    if steps.len() == 0 {
        0
    } else if steps.last() is Enter {
        opens(steps.drop_last()) + 1
    } else {
        opens(steps.drop_last())
    }
}

/// Opens minus closes among the steps.
pub open spec fn depth(steps: Seq<Step>) -> int
    decreases steps.len(),
{
    if steps.len() == 0 {
        0
    } else if steps.last() is Enter {
        depth(steps.drop_last()) + 1
    } else if steps.last() is Leave {
        depth(steps.drop_last()) - 1
    } else {
        depth(steps.drop_last())
    }
}

/// No close comes before its open: at no point have more computations been
/// left than entered.
pub open spec fn well_nested(steps: Seq<Step>) -> bool {
    forall|k: int| 0 <= k <= steps.len() ==> depth(#[trigger] steps.take(k)) >= 0
}

/// The steps are the opens and closes of complete invocations: well nested,
/// and each open has its close.
pub open spec fn balanced(steps: Seq<Step>) -> bool {
    well_nested(steps) && depth(steps) == 0
}

/// A prefix of well nested steps is well nested.
proof fn lemma_prefix_well_nested(steps: Seq<Step>)
    requires
        well_nested(steps),
        steps.len() > 0,
    ensures
        well_nested(steps.drop_last()),
        depth(steps.drop_last()) >= 0,
        depth(steps) >= 0,
{
    let shorter = steps.drop_last();
    assert forall|k: int| 0 <= k <= shorter.len() implies depth(#[trigger] shorter.take(k))
        >= 0 by {
        assert(shorter.take(k) =~= steps.take(k));
    }
    assert(shorter.take(shorter.len() as int) =~= shorter);
    assert(steps.take(steps.len() as int) =~= steps);
}

/// What well nested opens and closes on one tag do to its trace: each step
/// adds one event, the depth follows the opens and closes, and no close
/// finds the trace at depth zero.
proof fn lemma_nested_run(t: TracerView, tag: Seq<char>, steps: Seq<Step>)
    requires
        t.features.trace,
        !t.silenced(),
        t.entry(tag).active,
        traces_tag(steps, tag),
        well_nested(steps),
    ensures
        ({
            let r = run(t, steps);
            &&& r.tags.contains_key(tag) || steps.len() == 0
            &&& r.entry(tag) == (TraceView {
                events: r.entry(tag).events,
                level: (t.entry(tag).level + depth(steps)) as nat,
                ..t.entry(tag)
            })
            &&& r.entry(tag).events.len() == t.entry(tag).events.len() + steps.len()
            &&& r.silence_levels == t.silence_levels
            &&& r.features == t.features
            &&& r.color == t.color
            &&& t.entry(tag).consistent() && closes_with_outcomes(steps) ==> r.entry(
                tag,
            ).consistent()
        }),
        steps.len() == 2 * opens(steps) - depth(steps),
        forall|k: int|
            0 <= k < steps.len() && steps[k] is Leave ==> #[trigger] run(
                t,
                steps.take(k),
            ).can_leave(tag),
    decreases steps.len(),
{
    if steps.len() > 0 {
        let shorter = steps.drop_last();
        lemma_prefix_well_nested(steps);
        assert(traces_tag(shorter, tag)) by {
            assert forall|i: int| 0 <= i < shorter.len() implies match #[trigger] shorter[i] {
                Step::Enter { tag: t, .. } => t == tag,
                Step::Leave { tag: t, .. } => t == tag,
                _ => false,
            } by {
                assert(shorter[i] == steps[i]);
            }
        }
        if closes_with_outcomes(steps) {
            assert forall|i: int| 0 <= i < shorter.len() implies match #[trigger] shorter[i] {
                Step::Leave { kind, .. } => !(kind is Open),
                Step::Unsilence { kind, .. } => !(kind is Open),
                _ => true,
            } by {
                assert(shorter[i] == steps[i]);
            }
        }
        lemma_nested_run(t, tag, shorter);
        let before = run(t, shorter);
        let last = steps.last();
        assert(last == steps[steps.len() - 1]);
        let r = run(t, steps);
        match last {
            Step::Enter { tag: _, context, input, location } => {
                assert(r.entry(tag) == before.entry(tag).opened(context, input, location));
                assert(r.entry(tag).events.drop_last() =~= before.entry(tag).events);
            },
            Step::Leave { tag: _, context, input, location, kind } => {
                assert(r.entry(tag) == before.entry(tag).closed(context, input, location, kind));
                assert(r.entry(tag).events.drop_last() =~= before.entry(tag).events);
            },
            _ => {},
        }
        assert forall|k: int| 0 <= k < steps.len() && steps[k] is Leave implies #[trigger] run(
            t,
            steps.take(k),
        ).can_leave(tag) by {
            if k < shorter.len() {
                assert(steps.take(k) =~= shorter.take(k));
                assert(shorter[k] == steps[k]);
            } else {
                assert(steps.take(k) =~= shorter);
            }
        }
    }
}

/// Balanced invocations on one tag, outside any silenced region, leave two
/// events each in the trace of that tag and the depth where it was: after
/// `n` invocations on a trace at depth zero the trace holds `2 * n` events
/// more and is at depth zero again. No close on the way finds the trace at
/// depth zero.
pub proof fn lemma_balanced_invocations(t: TracerView, tag: Seq<char>, steps: Seq<Step>)
    requires
        t.features.trace,
        !t.silenced(),
        t.entry(tag).active,
        traces_tag(steps, tag),
        balanced(steps),
    ensures
        steps.len() == 2 * opens(steps),
        run(t, steps).entry(tag).events.len() == t.entry(tag).events.len() + 2 * opens(steps),
        run(t, steps).entry(tag).level == t.entry(tag).level,
        t.entry(tag).consistent() && closes_with_outcomes(steps) ==> run(t, steps).entry(
            tag,
        ).consistent(),
        forall|k: int|
            0 <= k < steps.len() && steps[k] is Leave ==> #[trigger] run(
                t,
                steps.take(k),
            ).can_leave(tag),
{
    lemma_nested_run(t, tag, steps);
}

/// A tracer that does not record is left alone by every step.
proof fn lemma_idle_run(t: TracerView, steps: Seq<Step>)
    requires
        !t.features.trace,
    ensures
        run(t, steps) == t,
    decreases steps.len(),
{
    if steps.len() > 0 {
        lemma_idle_run(t, steps.drop_last());
    }
}

/// No step touches the trace of an inactive tag.
proof fn lemma_inactive_run(t: TracerView, tag: Seq<char>, steps: Seq<Step>)
    requires
        t.tags.contains_key(tag),
        !t.tags[tag].active,
    ensures
        run(t, steps).tags.contains_key(tag),
        run(t, steps).tags[tag] == t.tags[tag],
        run(t, steps).color == t.color,
        run(t, steps).features == t.features,
    decreases steps.len(),
{
    if steps.len() > 0 {
        lemma_inactive_run(t, tag, steps.drop_last());
    }
}

/// Deactivating a tag freezes its log. Whatever steps follow, on this tag or
/// another, inside silenced regions or outside, its trace stays as it was
/// when it was deactivated; and activating it afterwards gives back the
/// trace from before the deactivation, active, so that recording resumes
/// where it stopped.
pub proof fn lemma_deactivation_freezes(t: TracerView, tag: Seq<char>, steps: Seq<Step>)
    requires
        t.features.trace,
    ensures
        ({
            let frozen = t.with_entry(tag, (TraceView { active: false, ..t.entry(tag) }));
            let later = run(frozen, steps);
            let resumed = later.with_entry(tag, (TraceView { active: true, ..later.entry(tag) }));
            &&& later.entry(tag) == frozen.entry(tag)
            &&& later.entry(tag).events == t.entry(tag).events
            &&& later.entry(tag).level == t.entry(tag).level
            &&& resumed.entry(tag) == (TraceView { active: true, ..t.entry(tag) })
        }),
{
    let frozen = t.with_entry(tag, (TraceView { active: false, ..t.entry(tag) }));
    lemma_inactive_run(frozen, tag, steps);
}

/// A reset empties the log of the tag and sets its depth to zero. Whether
/// the trace is active, whether it prints, its depth limit and its colors
/// stay, and so does every other tag, the silent buffer and the stack of
/// silenced regions.
pub proof fn lemma_reset_keeps_the_rest(t: TracerView, tag: Seq<char>, other: Seq<char>)
    requires
        t.features.trace,
    ensures
        ({
            let r = t.with_entry(tag, t.entry(tag).cleared());
            &&& r.entry(tag).events.len() == 0
            &&& r.entry(tag).level == 0
            &&& r.entry(tag).active == t.entry(tag).active
            &&& r.entry(tag).print == t.entry(tag).print
            &&& r.entry(tag).panic_on_level == t.entry(tag).panic_on_level
            &&& r.entry(tag).color == t.entry(tag).color
            &&& r.entry(tag).consistent()
            &&& other != tag ==> r.tags.contains_key(other) == t.tags.contains_key(other)
                && r.entry(other) == t.entry(other)
            &&& r.silent == t.silent
            &&& r.silence_levels == t.silence_levels
        }),
{
}

/// Every step is an open of a computation traced under `tag`.
pub open spec fn opens_tag(steps: Seq<Step>, tag: Seq<char>) -> bool {
    forall|i: int|
        0 <= i < steps.len() ==> match #[trigger] steps[i] {
            Step::Enter { tag: t, .. } => t == tag,
            _ => false,
        }
}

/// Opens alone are well nested and as deep as they are many.
proof fn lemma_opens_only(steps: Seq<Step>, tag: Seq<char>)
    requires
        opens_tag(steps, tag),
    ensures
        traces_tag(steps, tag),
        depth(steps) == steps.len(),
        well_nested(steps),
    decreases steps.len(),
{
    if steps.len() > 0 {
        let shorter = steps.drop_last();
        assert(steps.last() == steps[steps.len() - 1]);
        assert(opens_tag(shorter, tag)) by {
            assert forall|i: int| 0 <= i < shorter.len() implies match #[trigger] shorter[i] {
                Step::Enter { tag: t, .. } => t == tag,
                _ => false,
            } by {
                assert(shorter[i] == steps[i]);
            }
        }
        lemma_opens_only(shorter, tag);
        assert forall|k: int| 0 <= k <= steps.len() implies depth(#[trigger] steps.take(k))
            >= 0 by {
            if k < steps.len() {
                assert(steps.take(k) =~= shorter.take(k));
            } else {
                assert(steps.take(k) =~= steps);
            }
        }
    }
    assert forall|i: int| 0 <= i < steps.len() implies match #[trigger] steps[i] {
        Step::Enter { tag: t, .. } => t == tag,
        Step::Leave { tag: t, .. } => t == tag,
        _ => false,
    } by {
        assert(opens_tag(steps, tag));
    }
}

/// Nested opens on one tag, outside any silenced region: each adds one
/// event and one level of depth. An open is accepted exactly where the
/// depth that the opens before it have reached is below the limit of the
/// trace; without a limit every open is accepted, however deep.
pub proof fn lemma_nested_opens(t: TracerView, tag: Seq<char>, steps: Seq<Step>)
    requires
        t.features.trace,
        !t.silenced(),
        t.entry(tag).active,
        opens_tag(steps, tag),
    ensures
        run(t, steps).entry(tag).level == t.entry(tag).level + steps.len(),
        run(t, steps).entry(tag).events.len() == t.entry(tag).events.len() + steps.len(),
        forall|k: int|
            0 <= k <= steps.len() ==> (#[trigger] run(t, steps.take(k)).entry(tag).accepts_open()
                <==> match t.entry(tag).panic_on_level {
                Some(limit) => t.entry(tag).level + k < limit,
                None => true,
            }),
{
    lemma_opens_only(steps, tag);
    lemma_nested_run(t, tag, steps);
    assert forall|k: int| 0 <= k <= steps.len() implies (#[trigger] run(
        t,
        steps.take(k),
    ).entry(tag).accepts_open() <==> match t.entry(tag).panic_on_level {
        Some(limit) => t.entry(tag).level + k < limit,
        None => true,
    }) by {
        let prefix = steps.take(k);
        assert(opens_tag(prefix, tag)) by {
            assert forall|i: int| 0 <= i < prefix.len() implies match #[trigger] prefix[i] {
                Step::Enter { tag: t, .. } => t == tag,
                _ => false,
            } by {
                assert(prefix[i] == steps[i]);
            }
        }
        lemma_opens_only(prefix, tag);
        lemma_nested_run(t, tag, prefix);
    }
}

/// Before each of the steps a silenced region is open.
pub open spec fn silenced_throughout(t: TracerView, steps: Seq<Step>) -> bool
    decreases steps.len(),
{
    steps.len() > 0 ==> silenced_throughout(t, steps.drop_last()) && run(
        t,
        steps.drop_last(),
    ).silenced()
}

/// Steps inside a silenced region leave the registry alone.
proof fn lemma_silenced_run(t: TracerView, steps: Seq<Step>)
    requires
        silenced_throughout(t, steps),
    ensures
        run(t, steps).tags == t.tags,
        run(t, steps).color == t.color,
        run(t, steps).features == t.features,
    decreases steps.len(),
{
    if steps.len() > 0 {
        lemma_silenced_run(t, steps.drop_last());
    }
}

/// Running `first` and then `rest` is running `rest` after `first`.
proof fn lemma_run_from_second(t: TracerView, first: Step, rest: Seq<Step>)
    ensures
        run(t, seq![first] + rest) == run(step(t, first), rest),
    decreases rest.len(),
{
    let all = seq![first] + rest;
    if rest.len() == 0 {
        assert(all.drop_last() =~= Seq::<Step>::empty());
        assert(run(t, all.drop_last()) == t);
        assert(all.last() == first);
    } else {
        assert(all.drop_last() =~= seq![first] + rest.drop_last());
        assert(all.last() == rest.last());
        lemma_run_from_second(t, first, rest.drop_last());
    }
}

/// A silenced region is invisible in the registry. From the open of the
/// region on, as long as a silenced region is open before each step, no step
/// changes the trace of any tag: not the open and the close of the region,
/// not the opens and closes of the computations traced inside it, under
/// whatever tag, not the regions nested in it. What is reported for each tag
/// is the same text as before the region.
pub proof fn lemma_silenced_region_invisible(t: TracerView, first: Step, rest: Seq<Step>)
    requires
        first is Silence,
        t.features.trace ==> silenced_throughout(step(t, first), rest),
    ensures
        run(t, seq![first] + rest).tags == t.tags,
        forall|tag: Seq<char>|
            trace_report(#[trigger] run(t, seq![first] + rest), tag) == trace_report(t, tag),
{
    lemma_run_from_second(t, first, rest);
    if t.features.trace {
        lemma_silenced_run(step(t, first), rest);
    } else {
        lemma_idle_run(t, seq![first] + rest);
    }
}

/// The label for the error of a computation does not depend on where the
/// computation ran: it is the same inside and outside a silenced region,
/// whatever the registry and the silent buffer hold.
pub proof fn lemma_breadcrumb_ignores_state(
    a: TracerView,
    b: TracerView,
    context: Option<Seq<char>>,
    kind: EventKind,
)
    requires
        a.features == b.features,
    ensures
        a.breadcrumb(context, kind) == b.breadcrumb(context, kind),
        !(kind is CloseError || kind is CloseFailure) ==> a.breadcrumb(context, kind) is None,
{
}

/// No step is the open or the close of a computation traced under `tag`.
pub open spec fn never_traces(steps: Seq<Step>, tag: Seq<char>) -> bool {
    forall|i: int|
        0 <= i < steps.len() ==> match #[trigger] steps[i] {
            Step::Enter { tag: t, .. } => t != tag,
            Step::Leave { tag: t, .. } => t != tag,
            _ => true,
        }
}

/// A tag that no computation was traced under has no trace, and the report
/// for it says so: silencing a region under a tag does not create its
/// trace, and neither does tracing under another tag.
pub proof fn lemma_unused_tag_has_no_trace(t: TracerView, tag: Seq<char>, steps: Seq<Step>)
    requires
        t.features.trace,
        !t.tags.contains_key(tag),
        never_traces(steps, tag),
    ensures
        !run(t, steps).tags.contains_key(tag),
        run(t, steps).features == t.features,
        trace_report(run(t, steps), tag) == no_trace_text(tag),
    decreases steps.len(),
{
    if steps.len() > 0 {
        let shorter = steps.drop_last();
        assert(never_traces(shorter, tag)) by {
            assert forall|i: int| 0 <= i < shorter.len() implies match #[trigger] shorter[i] {
                Step::Enter { tag: t, .. } => t != tag,
                Step::Leave { tag: t, .. } => t != tag,
                _ => true,
            } by {
                assert(shorter[i] == steps[i]);
            }
        }
        lemma_unused_tag_has_no_trace(t, tag, shorter);
        assert(steps.last() == steps[steps.len() - 1]);
    }
}

/// In every trace of the registry the depth equals the number of unmatched
/// opens in the log.
pub open spec fn depths_match_logs(t: TracerView) -> bool {
    forall|tag: Seq<char>| #[trigger] t.tags.contains_key(tag) ==> t.tags[tag].consistent()
}

/// Each step is accepted by the tracer that the steps before it have left:
/// no open finds its trace at the depth limit, no close finds its trace at
/// depth zero.
pub open spec fn accepted(t: TracerView, steps: Seq<Step>) -> bool
    decreases steps.len(),
{
    steps.len() > 0 ==> accepted(t, steps.drop_last()) && match steps.last() {
        Step::Enter { tag, .. } => run(t, steps.drop_last()).can_enter(tag),
        Step::Leave { tag, .. } => run(t, steps.drop_last()).can_leave(tag),
        Step::Silence { tag, .. } => run(t, steps.drop_last()).can_silence(tag),
        Step::Unsilence { .. } => run(t, steps.drop_last()).can_unsilence(),
    }
}

/// An open, an accepted close with an outcome, and a clear each keep the
/// depth of a trace equal to the number of unmatched opens in its log; a
/// fresh trace starts that way.
pub proof fn lemma_trace_stays_consistent(
    t: TraceView,
    context: Option<Seq<char>>,
    input: Seq<char>,
    location: Seq<char>,
    kind: EventKind,
)
    ensures
        TraceView::fresh(t.color).consistent(),
        t.cleared().consistent(),
        t.consistent() ==> t.opened(context, input, location).consistent(),
        t.consistent() && t.accepts_close() && !(kind is Open) ==> t.closed(
            context,
            input,
            location,
            kind,
        ).consistent(),
{
    let opened = t.opened(context, input, location);
    let closed = t.closed(context, input, location, kind);
    if t.active {
        assert(opened.events.drop_last() =~= t.events);
        assert(closed.events.drop_last() =~= t.events);
    }
}

/// The depth of every trace in the registry equals the number of unmatched
/// opens in its log, and stays so through every run of accepted steps
/// whose closes carry outcomes.
pub proof fn lemma_depths_match_logs(t: TracerView, steps: Seq<Step>)
    requires
        depths_match_logs(t),
        closes_with_outcomes(steps),
        accepted(t, steps),
    ensures
        depths_match_logs(run(t, steps)),
    decreases steps.len(),
{
    if steps.len() > 0 {
        let shorter = steps.drop_last();
        assert(closes_with_outcomes(shorter)) by {
            assert forall|i: int| 0 <= i < shorter.len() implies match #[trigger] shorter[i] {
                Step::Leave { kind, .. } => !(kind is Open),
                Step::Unsilence { kind, .. } => !(kind is Open),
                _ => true,
            } by {
                assert(shorter[i] == steps[i]);
            }
        }
        lemma_depths_match_logs(t, shorter);
        let before = run(t, shorter);
        let after = run(t, steps);
        assert(steps.last() == steps[steps.len() - 1]);
        match steps.last() {
            Step::Enter { tag, context, input, location } => {
                lemma_trace_stays_consistent(
                    before.entry(tag),
                    context,
                    input,
                    location,
                    EventKind::Open,
                );
            },
            Step::Leave { tag, context, input, location, kind } => {
                lemma_trace_stays_consistent(before.entry(tag), context, input, location, kind);
            },
            _ => {},
        }
        assert forall|tag: Seq<char>| #[trigger]
            after.tags.contains_key(tag) implies after.tags[tag].consistent() by {
            if before.tags.contains_key(tag) {
                assert(before.tags[tag].consistent());
            }
        }
    }
}

/// A tracer starts with the depth of every trace equal to the number of
/// unmatched opens in its log.
pub proof fn lemma_initial_depths_match(features: Features)
    ensures
        depths_match_logs(TracerView::initial(features)),
{
}

} // verus!
