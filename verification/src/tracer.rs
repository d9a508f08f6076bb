//! The tracer: the registry of traces, the buffer that takes the events of
//! silenced subtrees, and the protocol that brackets a traced computation.
//!
//! A traced computation is bracketed by two calls: one before it runs
//! ([`Tracer::tr_open`]) and one with its result ([`Tracer::tr_close`]). A
//! silenced subtree is bracketed by [`Tracer::silence_tree_open`] and
//! [`Tracer::silence_tree_close`]; while any silenced region is open, the
//! events of every traced computation go to the silent buffer instead of the
//! trace of their tag.

use vstd::prelude::*;
use crate::events::EventKind;
use crate::tags::{entry, TraceTags};
use crate::TraceError;
use crate::traces::{describe, label_view, line_view, Outcome, Trace, TraceView};

verus! {

/// The capabilities of a tracer, chosen when it is made.
#[derive(Clone, Copy, Debug, PartialEq, Eq)]
pub struct Features {
    /// Events are recorded. Without it every call leaves the traces alone.
    pub trace: bool,
    /// Rendering uses ANSI colors.
    pub color: bool,
    /// Errors of a computation with a context are to get a breadcrumb.
    pub context: bool,
}

/// The registry, the silent buffer and the stack of silenced regions.
pub struct Tracer {
    /// The trace of each tag.
    pub tags: TraceTags,
    /// The buffer that takes the events of silenced subtrees.
    pub silent: Trace,
    /// One depth for each silenced region that is open, innermost last.
    pub silence_levels: Vec<usize>,
    /// The capabilities of this tracer.
    pub features: Features,
}

/// The mathematical value of a [`Tracer`].
pub struct TracerView {
    pub tags: Map<Seq<char>, TraceView>,
    pub color: bool,
    pub silent: TraceView,
    pub silence_levels: Seq<usize>,
    pub features: Features,
}

/// What the close of a traced computation hands back.
pub struct Finished {
    /// The rendered close event, where it is to be printed at once.
    pub line: Option<String>,
    /// The label to attach to the error of the computation, if any.
    pub breadcrumb: Option<&'static str>,
}

impl TracerView {
    /// A silenced region is open.
    pub open spec fn silenced(self) -> bool {
        self.silence_levels.len() > 0
    }

    /// The trace that `tag` stands for in the registry.
    pub open spec fn entry(self, tag: Seq<char>) -> TraceView {
        entry(self.tags, tag, self.color)
    }

    /// The depth of `tag` in the registry, zero where it has no trace.
    pub open spec fn level_of(self, tag: Seq<char>) -> nat {
        if self.tags.contains_key(tag) {
            self.tags[tag].level
        } else {
            0
        }
    }

    /// The trace that takes the events of a computation traced under `tag`:
    /// the silent buffer inside a silenced region, the tag's own otherwise.
    pub open spec fn target(self, tag: Seq<char>) -> TraceView {
        if self.silenced() {
            self.silent
        } else {
            self.entry(tag)
        }
    }

    /// The tracer with `trace` in place of the target of `tag`.
    pub open spec fn with_target(self, tag: Seq<char>, trace: TraceView) -> TracerView {
        if self.silenced() {
            TracerView { silent: trace, ..self }
        } else {
            TracerView { tags: self.tags.insert(tag, trace), ..self }
        }
    }

    /// The open of a computation traced under `tag` is accepted.
    pub open spec fn can_enter(self, tag: Seq<char>) -> bool {
        self.features.trace ==> self.target(tag).can_open()
    }

    /// The close of a computation traced under `tag` is accepted.
    pub open spec fn can_leave(self, tag: Seq<char>) -> bool {
        self.features.trace ==> self.target(tag).accepts_close()
    }

    /// The tracer after the open of a computation traced under `tag`.
    pub open spec fn entered(
        self,
        tag: Seq<char>,
        context: Option<Seq<char>>,
        input: Seq<char>,
        location: Seq<char>,
    ) -> TracerView {
        if self.features.trace {
            self.with_target(tag, self.target(tag).opened(context, input, location))
        } else {
            self
        }
    }

    /// The tracer after the close of a computation traced under `tag`.
    pub open spec fn left(
        self,
        tag: Seq<char>,
        context: Option<Seq<char>>,
        input: Seq<char>,
        location: Seq<char>,
        kind: EventKind,
    ) -> TracerView {
        if self.features.trace {
            self.with_target(tag, self.target(tag).closed(context, input, location, kind))
        } else {
            self
        }
    }

    /// The silent buffer with its depth set to the depth of `tag`.
    pub open spec fn aligned(self, tag: Seq<char>) -> TraceView {
        TraceView { level: self.level_of(tag), ..self.silent }
    }

    /// The open of a silenced region under `tag` is accepted.
    pub open spec fn can_silence(self, tag: Seq<char>) -> bool {
        self.features.trace ==> self.aligned(tag).can_open()
    }

    /// The close of a silenced region is accepted.
    pub open spec fn can_unsilence(self) -> bool {
        self.features.trace ==> self.silent.accepts_close()
    }

    /// The tracer after the open of a silenced region under `tag`: the
    /// depth of the tag is pushed, the silent buffer is set to that depth
    /// and records the open. The registry stays as it is.
    pub open spec fn silence_entered(
        self,
        tag: Seq<char>,
        context: Option<Seq<char>>,
        input: Seq<char>,
        location: Seq<char>,
    ) -> TracerView {
        if self.features.trace {
            TracerView {
                silence_levels: self.silence_levels.push(self.level_of(tag) as usize),
                silent: self.aligned(tag).opened(context, input, location),
                ..self
            }
        } else {
            self
        }
    }

    /// The tracer after the close of a silenced region: the silent buffer
    /// records the close and the innermost region is popped. The registry
    /// stays as it is.
    pub open spec fn silence_left(
        self,
        context: Option<Seq<char>>,
        input: Seq<char>,
        location: Seq<char>,
        kind: EventKind,
    ) -> TracerView {
        if self.features.trace {
            TracerView {
                silence_levels: if self.silenced() {
                    self.silence_levels.drop_last()
                } else {
                    self.silence_levels
                },
                silent: self.silent.closed(context, input, location, kind),
                ..self
            }
        } else {
            self
        }
    }

    /// The label that the error of a computation gets: its context, where
    /// the tracer enriches errors and the outcome is an error or a failure.
    pub open spec fn breadcrumb(self, context: Option<Seq<char>>, kind: EventKind) -> Option<
        Seq<char>,
    > {
        if self.features.context && (kind is CloseError || kind is CloseFailure) {
            context
        } else {
            None
        }
    }

    /// The tracer with `trace` as the trace of `tag`, where it records at
    /// all.
    pub open spec fn with_entry(self, tag: Seq<char>, trace: TraceView) -> TracerView {
        if self.features.trace {
            TracerView { tags: self.tags.insert(tag, trace), ..self }
        } else {
            self
        }
    }

    /// A tracer as it is made: an empty trace for the default tag, an empty
    /// silent buffer, no silenced region.
    pub open spec fn initial(features: Features) -> TracerView {
        TracerView {
            tags: Map::<Seq<char>, TraceView>::empty().insert(
                crate::DEFAULT_TAG@,
                TraceView::fresh(features.color),
            ),
            color: features.color,
            silent: TraceView::fresh(features.color),
            silence_levels: Seq::empty(),
            features,
        }
    }

    /// The line that the open of a computation traced under `tag` hands out.
    pub open spec fn enter_line(
        self,
        tag: Seq<char>,
        context: Option<Seq<char>>,
        input: Seq<char>,
        location: Seq<char>,
    ) -> Option<Seq<char>> {
        if self.features.trace {
            self.target(tag).printed(
                self.target(tag).open_event(context, input, location),
                self.silenced(),
            )
        } else {
            None
        }
    }

    /// The line that the close of a computation traced under `tag` hands
    /// out.
    pub open spec fn leave_line(
        self,
        tag: Seq<char>,
        context: Option<Seq<char>>,
        input: Seq<char>,
        location: Seq<char>,
        kind: EventKind,
    ) -> Option<Seq<char>> {
        if self.features.trace {
            self.target(tag).printed(
                self.target(tag).close_event(context, input, location, kind),
                self.silenced(),
            )
        } else {
            None
        }
    }
}

impl View for Tracer {
    type V = TracerView;

    open spec fn view(&self) -> TracerView {
        TracerView {
            tags: self.tags@,
            color: self.tags.colored(),
            silent: self.silent@,
            silence_levels: self.silence_levels@,
            features: self.features,
        }
    }
}

impl Tracer {
    /// The registry is well formed.
    pub open spec fn wf(&self) -> bool {
        self.tags.wf()
    }

    /// A tracer with the given capabilities.
    pub fn with_features(features: Features) -> (tracer: Tracer)
        ensures
            tracer.wf(),
            tracer@ == TracerView::initial(features),
    {
        Tracer {
            tags: TraceTags::with_color(features.color),
            silent: Trace::new(features.color),
            silence_levels: Vec::new(),
            features,
        }
    }

    /// A tracer that records, renders without colors and enriches errors.
    pub fn new() -> (tracer: Tracer)
        ensures
            tracer.wf(),
            tracer@ == TracerView::initial(Features { trace: true, color: false, context: true }),
    {
        Tracer::with_features(Features { trace: true, color: false, context: true })
    }

    /// Whether [`Tracer::tr_open`] may be called for `tag`.
    pub fn tr_open_allowed(&self, tag: &str) -> (b: bool)
        requires
            self.wf(),
        ensures
            b == self@.can_enter(tag@),
    {
        if !self.features.trace {
            true
        } else if self.silence_levels.len() > 0 {
            self.silent.open_allowed()
        } else {
            self.tags.open_allowed(tag)
        }
    }

    /// Whether the close of a computation traced under `tag` may be called.
    pub fn tr_close_allowed(&self, tag: &str) -> (b: bool)
        requires
            self.wf(),
        ensures
            b == self@.can_leave(tag@),
    {
        if !self.features.trace {
            true
        } else if self.silence_levels.len() > 0 {
            self.silent.close_allowed()
        } else {
            self.tags.close_allowed(tag)
        }
    }

    /// Whether [`Tracer::silence_tree_open`] may be called for `tag`.
    pub fn silence_tree_open_allowed(&self, tag: &'static str) -> (b: bool)
        requires
            self.wf(),
        ensures
            b == self@.can_silence(tag@),
    {
        if !self.features.trace || !self.silent.active {
            return true;
        }
        let baseline = self.tags.level_for_tag(tag);
        if baseline == usize::MAX {
            return false;
        }
        match self.silent.panic_on_level {
            Some(limit) => baseline < limit,
            None => true,
        }
    }

    /// Whether the close of a silenced region may be called.
    pub fn silence_tree_close_allowed(&self) -> (b: bool)
        ensures
            b == self@.can_unsilence(),
    {
        !self.features.trace || self.silent.close_allowed()
    }

    /// The label for the error of a computation with this context and
    /// outcome.
    fn breadcrumb(&self, context: Option<&'static str>, is_error: bool) -> (label: Option<
        &'static str,
    >)
        ensures
            label == if self.features.context && is_error {
                context
            } else {
                None
            },
    {
        if self.features.context && is_error {
            context
        } else {
            None
        }
    }

    /// The first half of tracing a computation: records its open. Inside a
    /// silenced region the event goes to the silent buffer and nothing is
    /// handed out for printing; otherwise it goes to the trace of `tag`.
    ///
    /// The trace must accept the open: an unverified caller asks
    /// [`Tracer::tr_open_allowed`] first.
    pub fn tr_open(
        &mut self,
        tag: &'static str,
        context: Option<&'static str>,
        input: &str,
        name: &'static str,
    ) -> (line: Option<String>)
        requires
            old(self).wf(),
            old(self)@.can_enter(tag@),
        ensures
            final(self).wf(),
            final(self)@ == old(self)@.entered(tag@, label_view(context), input@, name@),
            line_view(line) == old(self)@.enter_line(tag@, label_view(context), input@, name@),
    {
        if !self.features.trace {
            None
        } else if self.silence_levels.len() > 0 {
            let done = self.silent.open(context, input, name, true);
            done.line
        } else {
            self.tags.open(tag, context, input, name, false)
        }
    }

    /// The second half of tracing a computation: records its close with
    /// `outcome`, in the silent buffer inside a silenced region and in the
    /// trace of `tag` otherwise. Hands back the line to print, if any, and
    /// the context as the label for the error where the tracer enriches
    /// errors and the outcome is an error or a failure.
    ///
    /// The trace must accept the close: an unverified caller asks
    /// [`Tracer::tr_close_allowed`] first.
    pub fn tr_close_outcome(
        &mut self,
        tag: &'static str,
        context: Option<&'static str>,
        input: &str,
        name: &'static str,
        outcome: Outcome,
    ) -> (done: Finished)
        requires
            old(self).wf(),
            old(self)@.can_leave(tag@),
        ensures
            final(self).wf(),
            final(self)@ == old(self)@.left(tag@, label_view(context), input@, name@, outcome@),
            line_view(done.line) == old(self)@.leave_line(
                tag@,
                label_view(context),
                input@,
                name@,
                outcome@,
            ),
            done.breadcrumb == if old(self).features.context && (outcome@ is CloseError
                || outcome@ is CloseFailure) {
                context
            } else {
                None
            },
            label_view(done.breadcrumb) == old(self)@.breadcrumb(label_view(context), outcome@),
    {
        let breadcrumb = self.breadcrumb(context, outcome.is_error());
        let line = if !self.features.trace {
            None
        } else if self.silence_levels.len() > 0 {
            let done = self.silent.close_outcome(context, input, name, outcome, true);
            done.line
        } else {
            self.tags.close_outcome(tag, context, input, name, outcome, false)
        };
        Finished { line, breadcrumb }
    }

    /// The second half of tracing a computation, with the result of a nom
    /// parser. The result is classified and recorded as by
    /// [`Tracer::tr_close_outcome`]: as a success exactly where it is `Ok`,
    /// with the payload text of the payload's `Debug` impl.
    pub fn tr_close<I, O: core::fmt::Debug, E: TraceError<I>>(
        &mut self,
        tag: &'static str,
        context: Option<&'static str>,
        input: &str,
        name: &'static str,
        result: &nom::IResult<I, O, E>,
    ) -> (done: Finished)
        requires
            old(self).wf(),
            old(self)@.can_leave(tag@),
        ensures
            final(self).wf(),
            exists|kind: EventKind|
                {
                    &&& !(kind is Open)
                    &&& kind is CloseOk <==> result is Ok
                    &&& final(self)@ == #[trigger] old(self)@.left(
                        tag@,
                        label_view(context),
                        input@,
                        name@,
                        kind,
                    )
                    &&& line_view(done.line) == old(self)@.leave_line(
                        tag@,
                        label_view(context),
                        input@,
                        name@,
                        kind,
                    )
                    &&& done.breadcrumb == if old(self).features.context && (kind is CloseError
                        || kind is CloseFailure) {
                        context
                    } else {
                        None
                    }
                    &&& label_view(done.breadcrumb) == old(self)@.breadcrumb(
                        label_view(context),
                        kind,
                    )
                },
    {
        let outcome = describe(result);
        let ghost kind = outcome@;
        let done = self.tr_close_outcome(tag, context, input, name, outcome);
        assert(self@ == old(self)@.left(tag@, label_view(context), input@, name@, kind));
        done
    }

    /// Opens a silenced region under `tag`: pushes the depth of the tag,
    /// sets the silent buffer to that depth and records the open there. The
    /// registry is not touched, and nothing is handed out for printing.
    ///
    /// The silent buffer must accept the open at that depth: an unverified
    /// caller asks [`Tracer::silence_tree_open_allowed`] first.
    pub fn silence_tree_open(
        &mut self,
        tag: &'static str,
        context: Option<&'static str>,
        input: &str,
        name: &'static str,
    )
        requires
            old(self).wf(),
            old(self)@.can_silence(tag@),
        ensures
            final(self).wf(),
            final(self)@ == old(self)@.silence_entered(
                tag@,
                label_view(context),
                input@,
                name@,
            ),
    {
        if self.features.trace {
            let cut_level = self.tags.level_for_tag(tag);
            self.silence_levels.push(cut_level);
            self.silent.set_level(cut_level);
            self.silent.open(context, input, name, true);
        }
    }

    /// Closes the innermost silenced region with `outcome`: records the
    /// close in the silent buffer and pops the region. The registry is not
    /// touched. Hands back the label for the error, as
    /// [`Tracer::tr_close_outcome`] does.
    ///
    /// The silent buffer must accept the close: an unverified caller asks
    /// [`Tracer::silence_tree_close_allowed`] first.
    pub fn silence_tree_close_outcome(
        &mut self,
        context: Option<&'static str>,
        input: &str,
        name: &'static str,
        outcome: Outcome,
    ) -> (breadcrumb: Option<&'static str>)
        requires
            old(self).wf(),
            old(self)@.can_unsilence(),
        ensures
            final(self).wf(),
            final(self)@ == old(self)@.silence_left(
                label_view(context),
                input@,
                name@,
                outcome@,
            ),
            breadcrumb == if old(self).features.context && (outcome@ is CloseError
                || outcome@ is CloseFailure) {
                context
            } else {
                None
            },
            label_view(breadcrumb) == old(self)@.breadcrumb(label_view(context), outcome@),
    {
        let breadcrumb = self.breadcrumb(context, outcome.is_error());
        if self.features.trace {
            self.silent.close_outcome(context, input, name, outcome, true);
            self.silence_levels.pop();
        }
        breadcrumb
    }

    /// Closes the innermost silenced region with the result of a nom
    /// parser, classified as in [`Tracer::tr_close`].
    pub fn silence_tree_close<I, O: core::fmt::Debug, E: TraceError<I>>(
        &mut self,
        context: Option<&'static str>,
        input: &str,
        name: &'static str,
        result: &nom::IResult<I, O, E>,
    ) -> (breadcrumb: Option<&'static str>)
        requires
            old(self).wf(),
            old(self)@.can_unsilence(),
        ensures
            final(self).wf(),
            exists|kind: EventKind|
                {
                    &&& !(kind is Open)
                    &&& kind is CloseOk <==> result is Ok
                    &&& final(self)@ == #[trigger] old(self)@.silence_left(
                        label_view(context),
                        input@,
                        name@,
                        kind,
                    )
                    &&& breadcrumb == if old(self).features.context && (kind is CloseError
                        || kind is CloseFailure) {
                        context
                    } else {
                        None
                    }
                    &&& label_view(breadcrumb) == old(self)@.breadcrumb(label_view(context), kind)
                },
    {
        let outcome = describe(result);
        let ghost kind = outcome@;
        let breadcrumb = self.silence_tree_close_outcome(context, input, name, outcome);
        assert(self@ == old(self)@.silence_left(label_view(context), input@, name@, kind));
        breadcrumb
    }

    /// Makes the trace of `tag` record events.
    pub fn activate(&mut self, tag: &'static str)
        requires
            old(self).wf(),
        ensures
            final(self).wf(),
            final(self)@ == old(self)@.with_entry(
                tag@,
                (TraceView { active: true, ..old(self)@.entry(tag@) }),
            ),
    {
        if self.features.trace {
            self.tags.activate(tag);
        }
    }

    /// Makes the trace of `tag` ignore opens and closes.
    pub fn deactivate(&mut self, tag: &'static str)
        requires
            old(self).wf(),
        ensures
            final(self).wf(),
            final(self)@ == old(self)@.with_entry(
                tag@,
                (TraceView { active: false, ..old(self)@.entry(tag@) }),
            ),
    {
        if self.features.trace {
            self.tags.deactivate(tag);
        }
    }

    /// Empties the log of `tag` and sets its depth to zero. Its settings
    /// stay, and so does every other tag.
    pub fn reset(&mut self, tag: &'static str)
        requires
            old(self).wf(),
        ensures
            final(self).wf(),
            final(self)@ == old(self)@.with_entry(tag@, old(self)@.entry(tag@).cleared()),
    {
        if self.features.trace {
            self.tags.clear(tag);
        }
    }

    /// Sets or removes the depth at which the trace of `tag` refuses a
    /// further open.
    pub fn set_max_level(&mut self, tag: &'static str, level: Option<usize>)
        requires
            old(self).wf(),
        ensures
            final(self).wf(),
            final(self)@ == old(self)@.with_entry(
                tag@,
                (TraceView {
                    panic_on_level: match level {
                        Some(limit) => Some(limit as nat),
                        None => None,
                    },
                    ..old(self)@.entry(tag@)
                }),
            ),
    {
        if self.features.trace {
            self.tags.panic_on_level(tag, level);
        }
    }

    /// Makes the trace of `tag` hand out its events for printing, or stops
    /// it from doing so.
    pub fn set_print(&mut self, tag: &'static str, print: bool)
        requires
            old(self).wf(),
        ensures
            final(self).wf(),
            final(self)@ == old(self)@.with_entry(
                tag@,
                (TraceView { print, ..old(self)@.entry(tag@) }),
            ),
    {
        if self.features.trace {
            if print {
                self.tags.activate_trace_print(tag);
            } else {
                self.tags.deactivate_trace_print(tag);
            }
        }
    }
}

} // verus!
