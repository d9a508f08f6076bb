//! The events of a trace and their rendering as text.

use vstd::prelude::*;
use vstd::string::StringExecFns;
use crate::ansi;
use crate::text::{decimal, repeat, repeated};

verus! {

/// How much more input an incomplete computation asked for.
#[derive(Clone, Copy, Debug, PartialEq, Eq)]
pub enum Needed {
    /// The amount is not known.
    Unknown,
    /// This many more units; zero stands for an unknown amount.
    Size(usize),
}

/// What happened at an event: a computation was entered, or it was left with
/// one of four outcomes. The text of an outcome is the formatted payload.
#[derive(Clone, Debug)]
pub enum TraceEventType {
    /// The computation was entered.
    Open,
    /// It succeeded; the text describes the value.
    CloseOk(String),
    /// It failed in a way that another branch may recover from.
    CloseError(String),
    /// It failed for good.
    CloseFailure(String),
    /// It ran out of input.
    CloseIncomplete(Needed),
}

/// The mathematical value of a [`TraceEventType`].
pub enum EventKind {
    Open,
    CloseOk(Seq<char>),
    CloseError(Seq<char>),
    CloseFailure(Seq<char>),
    CloseIncomplete(Needed),
}

impl View for TraceEventType {
    type V = EventKind;

    open spec fn view(&self) -> EventKind {
        match self {
            TraceEventType::Open => EventKind::Open,
            TraceEventType::CloseOk(text) => EventKind::CloseOk(text@),
            TraceEventType::CloseError(text) => EventKind::CloseError(text@),
            TraceEventType::CloseFailure(text) => EventKind::CloseFailure(text@),
            TraceEventType::CloseIncomplete(needed) => EventKind::CloseIncomplete(*needed),
        }
    }
}

/// One record of a trace.
#[derive(Clone)]
pub struct TraceEvent {
    /// Nesting depth: for an open the depth before entering, for a close the
    /// depth after leaving, so that a matching pair shares its depth.
    pub level: usize,
    /// Which computation produced the event.
    pub location: &'static str,
    /// Optional annotation of that computation.
    pub context: Option<&'static str>,
    /// The input the computation was given.
    pub input: String,
    /// What happened.
    pub event: TraceEventType,
}

/// The mathematical value of a [`TraceEvent`].
pub struct EventView {
    pub level: nat,
    pub location: Seq<char>,
    pub context: Option<Seq<char>>,
    pub input: Seq<char>,
    pub event: EventKind,
}

impl View for TraceEvent {
    type V = EventView;

    open spec fn view(&self) -> EventView {
        EventView {
            level: self.level as nat,
            location: self.location@,
            context: match self.context {
                Some(c) => Some(c@),
                None => None,
            },
            input: self.input@,
            event: self.event@,
        }
    }
}

/// The text of a [`Needed`]: `Unknown`, or `Size(n)` with `n` in base ten.
pub open spec fn needed_text(needed: Needed) -> Seq<char> {
    match needed {
        Needed::Unknown => "Unknown"@,
        Needed::Size(n) => if n == 0 {
            "Unknown"@
        } else {
            "Size("@ + decimal(n as nat) + ")"@
        },
    }
}

/// The indentation of a line at depth `level`: one marker per level.
pub open spec fn indent_text(level: nat) -> Seq<char> {
    repeated("| "@, level)
}

/// The bracketed context of a line, empty where there is none.
pub open spec fn context_text(context: Option<Seq<char>>) -> Seq<char> {
    match context {
        Some(c) => "["@ + c + "]"@,
        None => Seq::empty(),
    }
}

/// What a plain line says after its indentation and before its context.
pub open spec fn plain_content(e: EventView) -> Seq<char> {
    match e.event {
        EventKind::Open => e.location + "(\""@ + e.input + "\")"@,
        EventKind::CloseOk(text) => "-> Ok("@ + text + ")"@,
        EventKind::CloseError(text) => "-> Error("@ + text + ")"@,
        EventKind::CloseFailure(text) => "-> Failure("@ + text + ")"@,
        EventKind::CloseIncomplete(needed) => "-> Incomplete("@ + needed_text(needed) + ")"@,
    }
}

/// The color of a close line: green for success, red for an error, magenta
/// for a failure, yellow for an incomplete computation.
pub open spec fn outcome_color(kind: EventKind) -> Seq<char> {
    match kind {
        EventKind::Open => Seq::empty(),
        EventKind::CloseOk(_) => ansi::FG_GREEN@,
        EventKind::CloseError(_) => ansi::FG_RED@,
        EventKind::CloseFailure(_) => ansi::FG_MAGENTA@,
        EventKind::CloseIncomplete(_) => ansi::FG_YELLOW@,
    }
}

/// `text` shown in inverse video.
pub open spec fn inverse(text: Seq<char>) -> Seq<char> {
    ansi::TEXT_INVERSE@ + text + ansi::TEXT_INVERSE_RESET@
}

/// What a colored line says after its indentation and before its context.
pub open spec fn colored_content(e: EventView) -> Seq<char> {
    match e.event {
        EventKind::Open => ansi::TEXT_UNDERLINE@ + e.location + ansi::TEXT_UNDERLINE_RESET@
            + "(\""@ + inverse(e.input) + "\")"@,
        EventKind::CloseOk(text) => outcome_color(e.event) + "-> Ok("@ + inverse(text) + ")"@,
        EventKind::CloseError(text) => outcome_color(e.event) + "-> Error("@ + inverse(text)
            + ")"@,
        EventKind::CloseFailure(text) => outcome_color(e.event) + "-> Failure("@ + inverse(text)
            + ")"@,
        EventKind::CloseIncomplete(needed) => outcome_color(e.event) + "-> Incomplete("@
            + inverse(needed_text(needed)) + ")"@,
    }
}

/// The line of one event, newline included.
pub open spec fn event_line(e: EventView, colored: bool) -> Seq<char> {
    if colored {
        indent_text(e.level) + colored_content(e) + ansi::FG_BLACK@ + (ansi::BG_BLUE@
            + context_text(e.context)) + ansi::RESET@ + "\n"@
    } else {
        indent_text(e.level) + plain_content(e) + context_text(e.context) + "\n"@
    }
}

/// Formats a [`Needed`] with the `Debug` impl that nom derives for its own
/// `Needed`, after `nom::Needed::new`, which turns a size of zero into
/// `Unknown`. Trusted: the text is `Unknown`, or `Size(n)` with the size in
/// base ten.
#[verifier::external_body]
fn needed_debug(needed: Needed) -> (out: String)
    ensures
        out@ == needed_text(needed),
{
    let n = match needed {
        Needed::Unknown => nom::Needed::Unknown,
        Needed::Size(size) => nom::Needed::new(size),
    };
    format!("{:?}", n)
}

/// `text` wrapped in the escape sequences for inverse video.
fn inverse_of(text: &str) -> (out: String)
    ensures
        out@ == inverse(text@),
{
    let mut out = String::from_str(ansi::TEXT_INVERSE);
    out.append(text);
    out.append(ansi::TEXT_INVERSE_RESET);
    out
}

impl TraceEvent {
    /// The bracketed context, empty where the event has none.
    fn context_string(&self) -> (out: String)
        ensures
            out@ == context_text(self@.context),
    {
        match self.context {
            Some(c) => {
                let mut out = String::from_str("[");
                out.append(c);
                out.append("]");
                out
            },
            None => String::new(),
        }
    }

    /// The plain text between indentation and context.
    fn plain_string(&self) -> (out: String)
        ensures
            out@ == plain_content(self@),
    {
        match &self.event {
            TraceEventType::Open => {
                let mut out = String::from_str(self.location);
                out.append("(\"");
                out.append(self.input.as_str());
                out.append("\")");
                out
            },
            TraceEventType::CloseOk(text) => {
                let mut out = String::from_str("-> Ok(");
                out.append(text.as_str());
                out.append(")");
                out
            },
            TraceEventType::CloseError(text) => {
                let mut out = String::from_str("-> Error(");
                out.append(text.as_str());
                out.append(")");
                out
            },
            TraceEventType::CloseFailure(text) => {
                let mut out = String::from_str("-> Failure(");
                out.append(text.as_str());
                out.append(")");
                out
            },
            TraceEventType::CloseIncomplete(needed) => {
                let mut out = String::from_str("-> Incomplete(");
                let text = needed_debug(*needed);
                out.append(text.as_str());
                out.append(")");
                out
            },
        }
    }

    /// The colored text between indentation and context.
    fn colored_string(&self) -> (out: String)
        ensures
            out@ == colored_content(self@),
    {
        match &self.event {
            TraceEventType::Open => {
                let mut out = String::from_str(ansi::TEXT_UNDERLINE);
                out.append(self.location);
                out.append(ansi::TEXT_UNDERLINE_RESET);
                out.append("(\"");
                let input = inverse_of(self.input.as_str());
                out.append(input.as_str());
                out.append("\")");
                out
            },
            TraceEventType::CloseOk(text) => {
                let mut out = String::from_str(ansi::FG_GREEN);
                out.append("-> Ok(");
                let payload = inverse_of(text.as_str());
                out.append(payload.as_str());
                out.append(")");
                out
            },
            TraceEventType::CloseError(text) => {
                let mut out = String::from_str(ansi::FG_RED);
                out.append("-> Error(");
                let payload = inverse_of(text.as_str());
                out.append(payload.as_str());
                out.append(")");
                out
            },
            TraceEventType::CloseFailure(text) => {
                let mut out = String::from_str(ansi::FG_MAGENTA);
                out.append("-> Failure(");
                let payload = inverse_of(text.as_str());
                out.append(payload.as_str());
                out.append(")");
                out
            },
            TraceEventType::CloseIncomplete(needed) => {
                let mut out = String::from_str(ansi::FG_YELLOW);
                out.append("-> Incomplete(");
                let text = needed_debug(*needed);
                let payload = inverse_of(text.as_str());
                out.append(payload.as_str());
                out.append(")");
                out
            },
        }
    }

    /// Renders the event as one line, newline included: the indentation of
    /// its depth, what happened, and the context in brackets. With `colored`
    /// the line carries ANSI escape sequences; without, the same information
    /// as plain text.
    pub fn render(&self, colored: bool) -> (out: String)
        ensures
            out@ == event_line(self@, colored),
    {
        let mut out = repeat("| ", self.level);
        if colored {
            let content = self.colored_string();
            out.append(content.as_str());
            out.append(ansi::FG_BLACK);
            let mut ctx = String::from_str(ansi::BG_BLUE);
            let brackets = self.context_string();
            ctx.append(brackets.as_str());
            out.append(ctx.as_str());
            out.append(ansi::RESET);
        } else {
            let content = self.plain_string();
            out.append(content.as_str());
            let ctx = self.context_string();
            out.append(ctx.as_str());
        }
        out.append("\n");
        out
    }

    /// The plain rendering of the event.
    pub fn to_string(&self) -> (out: String)
        ensures
            out@ == event_line(self@, false),
    {
        self.render(false)
    }
}

} // verus!
