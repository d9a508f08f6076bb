//! One trace channel: an ordered event log with its nesting depth and its
//! settings.

use vstd::prelude::*;
use vstd::string::StringExecFns;
use crate::events::{event_line, EventKind, EventView, Needed, TraceEvent, TraceEventType};

verus! {

/// The classified result of a traced computation, with its payload already
/// formatted for display.
#[derive(Clone, Debug)]
pub enum Outcome {
    /// The computation succeeded; the text describes its value.
    Success(String),
    /// It failed in a way that another branch may recover from.
    RecoverableError(String),
    /// It failed for good.
    FatalError(String),
    /// It ran out of input.
    Incomplete(Needed),
}

impl View for Outcome {
    type V = EventKind;

    /// The kind of close event that the outcome is recorded as.
    open spec fn view(&self) -> EventKind {
        match self {
            Outcome::Success(text) => EventKind::CloseOk(text@),
            Outcome::RecoverableError(text) => EventKind::CloseError(text@),
            Outcome::FatalError(text) => EventKind::CloseFailure(text@),
            Outcome::Incomplete(needed) => EventKind::CloseIncomplete(*needed),
        }
    }
}

impl Outcome {
    /// The close event kind of this outcome; never `Open`.
    pub fn into_event(self) -> (kind: TraceEventType)
        ensures
            kind@ == self@,
            !(kind@ is Open),
    {
        match self {
            Outcome::Success(text) => TraceEventType::CloseOk(text),
            Outcome::RecoverableError(text) => TraceEventType::CloseError(text),
            Outcome::FatalError(text) => TraceEventType::CloseFailure(text),
            Outcome::Incomplete(needed) => TraceEventType::CloseIncomplete(needed),
        }
    }

    /// Whether the outcome carries an error, recoverable or fatal.
    pub fn is_error(&self) -> (b: bool)
        ensures
            b == (self@ is CloseError || self@ is CloseFailure),
    {
        match self {
            Outcome::RecoverableError(_) => true,
            Outcome::FatalError(_) => true,
            _ => false,
        }
    }
}

/// The event log and the settings of one tag.
pub struct Trace {
    /// The recorded events, oldest first.
    pub events: Vec<TraceEvent>,
    /// The current nesting depth.
    pub level: usize,
    /// Whether events are recorded at all.
    pub active: bool,
    /// Whether each event is rendered for printing as it is recorded.
    pub print: bool,
    /// The nesting depth at which a further open is refused, if any.
    pub panic_on_level: Option<usize>,
    /// Whether rendering uses ANSI colors.
    pub color: bool,
}

/// The mathematical value of a [`Trace`].
pub struct TraceView {
    pub events: Seq<EventView>,
    pub level: nat,
    pub active: bool,
    pub print: bool,
    pub panic_on_level: Option<nat>,
    pub color: bool,
}

/// What recording an event hands back.
pub struct Recorded {
    /// The nesting depth after the call.
    pub level: usize,
    /// The rendered event, where it is to be printed at once.
    pub line: Option<String>,
}

/// The text in an optional string.
pub open spec fn line_view(line: Option<String>) -> Option<Seq<char>> {
    match line {
        Some(text) => Some(text@),
        None => None,
    }
}

/// The text in an optional string slice.
pub open spec fn label_view(label: Option<&'static str>) -> Option<Seq<char>> {
    match label {
        Some(text) => Some(text@),
        None => None,
    }
}

/// Opens minus closes among `events`: the depth that the log itself shows.
pub open spec fn unmatched_opens(events: Seq<EventView>) -> int
    decreases events.len(),
{
    if events.len() == 0 {
        0
    } else if events.last().event is Open {
        unmatched_opens(events.drop_last()) + 1
    } else {
        unmatched_opens(events.drop_last()) - 1
    }
}

/// The rendering of a log: the lines of its events in stored order.
pub open spec fn trace_text(events: Seq<EventView>, colored: bool) -> Seq<char>
    decreases events.len(),
{
    if events.len() == 0 {
        Seq::empty()
    } else {
        trace_text(events.drop_last(), colored) + event_line(events.last(), colored)
    }
}

impl TraceView {
    /// A trace as it is created: empty, active, silent on the console, with
    /// no depth limit.
    pub open spec fn fresh(color: bool) -> TraceView {
        TraceView {
            events: Seq::empty(),
            level: 0,
            active: true,
            print: false,
            panic_on_level: None,
            color,
        }
    }

    /// The depth equals the number of unmatched opens in the log.
    pub open spec fn consistent(self) -> bool {
        self.level == unmatched_opens(self.events)
    }

    /// An open is accepted: the trace is inactive, or the depth is below the
    /// configured limit.
    pub open spec fn accepts_open(self) -> bool {
        self.active ==> match self.panic_on_level {
            Some(limit) => self.level < limit,
            None => true,
        }
    }

    /// An open is accepted and the depth has room to grow by one.
    pub open spec fn can_open(self) -> bool {
        self.accepts_open() && (self.active ==> self.level < usize::MAX)
    }

    /// A close is accepted: the trace is inactive, or something is open.
    pub open spec fn accepts_close(self) -> bool {
        self.active ==> self.level > 0
    }

    /// The event that an open records.
    pub open spec fn open_event(
        self,
        context: Option<Seq<char>>,
        input: Seq<char>,
        location: Seq<char>,
    ) -> EventView {
        EventView { level: self.level, location, context, input, event: EventKind::Open }
    }

    /// The event that a close records.
    pub open spec fn close_event(
        self,
        context: Option<Seq<char>>,
        input: Seq<char>,
        location: Seq<char>,
        kind: EventKind,
    ) -> EventView {
        EventView { level: (self.level - 1) as nat, location, context, input, event: kind }
    }

    /// The trace after an open.
    pub open spec fn opened(
        self,
        context: Option<Seq<char>>,
        input: Seq<char>,
        location: Seq<char>,
    ) -> TraceView {
        if self.active {
            TraceView {
                events: self.events.push(self.open_event(context, input, location)),
                level: self.level + 1,
                ..self
            }
        } else {
            self
        }
    }

    /// The trace after a close with an outcome of the given kind.
    pub open spec fn closed(
        self,
        context: Option<Seq<char>>,
        input: Seq<char>,
        location: Seq<char>,
        kind: EventKind,
    ) -> TraceView {
        if self.active {
            TraceView {
                events: self.events.push(self.close_event(context, input, location, kind)),
                level: (self.level - 1) as nat,
                ..self
            }
        } else {
            self
        }
    }

    /// The trace after a clear.
    pub open spec fn cleared(self) -> TraceView {
        TraceView { events: Seq::empty(), level: 0, ..self }
    }

    /// The line that recording `event` hands out for printing, if any.
    pub open spec fn printed(self, event: EventView, silent: bool) -> Option<Seq<char>> {
        if self.active && self.print && !silent {
            Some(event_line(event, self.color))
        } else {
            None
        }
    }

    /// The rendering of the whole log.
    pub open spec fn text(self) -> Seq<char> {
        trace_text(self.events, self.color)
    }
}

impl View for Trace {
    type V = TraceView;

    open spec fn view(&self) -> TraceView {
        TraceView {
            events: self.events@.map_values(|e: TraceEvent| e@),
            level: self.level as nat,
            active: self.active,
            print: self.print,
            panic_on_level: match self.panic_on_level {
                Some(limit) => Some(limit as nat),
                None => None,
            },
            color: self.color,
        }
    }
}

impl Default for Trace {
    fn default() -> (trace: Trace)
        ensures
            trace@ == TraceView::fresh(false),
    {
        let trace = Trace {
            events: Vec::new(),
            level: 0,
            active: true,
            print: false,
            panic_on_level: None,
            color: false,
        };
        assert(trace@.events =~= Seq::empty());
        trace
    }
}

/// nom's error wrapper, which tells a recoverable error, a failure and an
/// incomplete computation apart. Its inside is not read by verified code.
#[verifier::external_type_specification]
#[verifier::external_body]
#[verifier::reject_recursive_types(E)]
pub struct ExErr<E>(nom::Err<E>);

/// Classifies the result of a nom parser and formats its payload with
/// `{:?}`: the parsed value for `Ok`, the error for `nom::Err::Error` and
/// `nom::Err::Failure`, the needed amount for `nom::Err::Incomplete`.
/// Trusted: the outcome is a success exactly for `Ok`. The text depends on
/// the `Debug` impls of the payloads and is not stated.
#[verifier::external_body]
pub(crate) fn describe<I, O: core::fmt::Debug, E: core::fmt::Debug>(
    result: &nom::IResult<I, O, E>,
) -> (outcome: Outcome)
    ensures
        outcome@ is CloseOk <==> result is Ok,
{
    match result {
        Ok((_, value)) => Outcome::Success(format!("{:?}", value)),
        Err(nom::Err::Error(e)) => Outcome::RecoverableError(format!("{:?}", e)),
        Err(nom::Err::Failure(e)) => Outcome::FatalError(format!("{:?}", e)),
        Err(nom::Err::Incomplete(nom::Needed::Unknown)) => Outcome::Incomplete(Needed::Unknown),
        Err(nom::Err::Incomplete(nom::Needed::Size(n))) => {
            Outcome::Incomplete(Needed::Size(n.get()))
        },
    }
}

impl Trace {
    /// An empty, active trace that renders with or without colors.
    pub fn new(color: bool) -> (trace: Trace)
        ensures
            trace@ == TraceView::fresh(color),
    {
        let trace = Trace {
            events: Vec::new(),
            level: 0,
            active: true,
            print: false,
            panic_on_level: None,
            color,
        };
        assert(trace@.events =~= Seq::empty());
        trace
    }

    /// Whether [`Trace::open`] may be called: the trace is inactive, or its
    /// depth is below the configured limit and below the largest depth that
    /// can be counted.
    pub fn open_allowed(&self) -> (b: bool)
        ensures
            b == self@.can_open(),
    {
        if !self.active {
            return true;
        }
        if self.level == usize::MAX {
            return false;
        }
        match self.panic_on_level {
            Some(limit) => self.level < limit,
            None => true,
        }
    }

    /// Whether a close may be called: the trace is inactive, or something
    /// is open.
    pub fn close_allowed(&self) -> (b: bool)
        ensures
            b == self@.accepts_close(),
    {
        !self.active || self.level > 0
    }

    /// Empties the log and sets the depth to zero. The settings stay.
    pub fn clear(&mut self)
        ensures
            final(self)@ == old(self)@.cleared(),
            final(self)@.consistent(),
    {
        self.events.clear();
        self.level = 0;
        assert(self@.events =~= Seq::empty());
    }

    /// Appends `event` and keeps the view in step.
    fn record(&mut self, event: TraceEvent, silent: bool) -> (line: Option<String>)
        ensures
            final(self)@ == (TraceView {
                events: old(self)@.events.push(event@),
                ..old(self)@
            }),
            line_view(line) == old(self)@.printed(event@, silent),
    {
        let line = if self.active && self.print && !silent {
            Some(event.render(self.color))
        } else {
            None
        };
        self.events.push(event);
        assert(self@.events =~= old(self)@.events.push(event@));
        line
    }

    /// Records that a computation is entered. On an inactive trace nothing
    /// happens. Otherwise an open event at the current depth is appended and
    /// the depth grows by one. Where the trace prints and `silent` is off,
    /// the rendered event is handed back for printing.
    ///
    /// An active trace must be below its depth limit: an unverified caller
    /// asks [`Trace::open_allowed`] first.
    pub fn open(
        &mut self,
        context: Option<&'static str>,
        input: &str,
        location: &'static str,
        silent: bool,
    ) -> (done: Recorded)
        requires
            old(self)@.can_open(),
        ensures
            final(self)@ == old(self)@.opened(label_view(context), input@, location@),
            done.level == final(self).level,
            line_view(done.line) == old(self)@.printed(
                old(self)@.open_event(label_view(context), input@, location@),
                silent,
            ),
            old(self)@.consistent() ==> final(self)@.consistent(),
    {
        let mut line: Option<String> = None;
        if self.active {
            let event = TraceEvent {
                level: self.level,
                location,
                context,
                input: String::from_str(input),
                event: TraceEventType::Open,
            };
            line = self.record(event, silent);
            self.level = self.level + 1;
            assert(self@.events.drop_last() =~= old(self)@.events);
        }
        Recorded { level: self.level, line }
    }

    /// Records that a computation is left with `outcome`. On an inactive
    /// trace nothing happens. Otherwise the depth shrinks by one and a close
    /// event at the new depth is appended. Where the trace prints and
    /// `silent` is off, the rendered event is handed back for printing.
    ///
    /// An active trace must have something open: an unverified caller asks
    /// [`Trace::close_allowed`] first.
    pub fn close_outcome(
        &mut self,
        context: Option<&'static str>,
        input: &str,
        location: &'static str,
        outcome: Outcome,
        silent: bool,
    ) -> (done: Recorded)
        requires
            old(self)@.accepts_close(),
        ensures
            final(self)@ == old(self)@.closed(label_view(context), input@, location@, outcome@),
            done.level == final(self).level,
            line_view(done.line) == old(self)@.printed(
                old(self)@.close_event(label_view(context), input@, location@, outcome@),
                silent,
            ),
            old(self)@.consistent() ==> final(self)@.consistent(),
    {
        let mut line: Option<String> = None;
        if self.active {
            self.level = self.level - 1;
            let event = TraceEvent {
                level: self.level,
                location,
                context,
                input: String::from_str(input),
                event: outcome.into_event(),
            };
            line = self.record(event, silent);
            assert(self@.events.drop_last() =~= old(self)@.events);
        }
        Recorded { level: self.level, line }
    }

    /// Records that a computation is left with the result of a nom parser.
    /// The result is classified, its payload formatted with `{:?}`, and the
    /// outcome recorded as by [`Trace::close_outcome`]. The recorded kind is
    /// a success exactly where `result` is `Ok`; the payload text is that of
    /// the payload's `Debug` impl.
    pub fn close<I, O: core::fmt::Debug, E: core::fmt::Debug>(
        &mut self,
        context: Option<&'static str>,
        input: &str,
        location: &'static str,
        result: &nom::IResult<I, O, E>,
        silent: bool,
    ) -> (done: Recorded)
        requires
            old(self)@.accepts_close(),
        ensures
            !old(self).active ==> final(self)@ == old(self)@ && done.line is None,
            old(self).active ==> {
                let kind = final(self)@.events.last().event;
                &&& !(kind is Open)
                &&& kind is CloseOk <==> result is Ok
                &&& final(self)@ == old(self)@.closed(
                    label_view(context),
                    input@,
                    location@,
                    kind,
                )
                &&& line_view(done.line) == old(self)@.printed(
                    old(self)@.close_event(label_view(context), input@, location@, kind),
                    silent,
                )
            },
            done.level == final(self).level,
            old(self)@.consistent() ==> final(self)@.consistent(),
    {
        let outcome = describe(result);
        self.close_outcome(context, input, location, outcome, silent)
    }

    /// Sets the depth without recording an event.
    pub fn set_level(&mut self, level: usize)
        ensures
            final(self)@ == (TraceView { level: level as nat, ..old(self)@ }),
    {
        self.level = level;
    }

    /// Renders the log: the line of each event, in stored order.
    pub fn to_string(&self) -> (out: String)
        ensures
            out@ == self@.text(),
    {
        let mut out = String::new();
        let mut i: usize = 0;
        while i < self.events.len()
            invariant
                i <= self.events.len(),
                out@ == trace_text(self@.events.take(i as int), self.color),
            decreases self.events.len() - i,
        {
            let line = self.events[i].render(self.color);
            out.append(line.as_str());
            proof {
                let next = self@.events.take(i + 1);
                assert(next.drop_last() =~= self@.events.take(i as int));
                assert(next.last() == self.events[i as int]@);
            }
            i = i + 1;
        }
        assert(self@.events.take(i as int) =~= self@.events);
        out
    }
}

} // verus!
