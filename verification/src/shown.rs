//! What a rendering shows: the text of a trace holds the line of each of
//! its events, and the line of an event holds what the event records.

use vstd::prelude::*;
use crate::ansi;
use crate::events::{
    colored_content, context_text, event_line, indent_text, inverse, needed_text, outcome_color,
    plain_content, EventKind, EventView,
};
use crate::traces::trace_text;

verus! {

/// `needle` stands in `text` from position `at` on.
pub open spec fn occurs_at(text: Seq<char>, needle: Seq<char>, at: int) -> bool {
    0 <= at && at + needle.len() <= text.len() && text.subrange(at, at + needle.len()) == needle
}

/// `needle` stands somewhere in `text`.
pub open spec fn contains(text: Seq<char>, needle: Seq<char>) -> bool {
    exists|at: int| occurs_at(text, needle, at)
}

/// A text holds what it is put together from.
proof fn lemma_contains_middle(before: Seq<char>, needle: Seq<char>, after: Seq<char>)
    ensures
        contains(before + needle + after, needle),
{
    let text = before + needle + after;
    assert(text.subrange(before.len() as int, (before.len() + needle.len()) as int) =~= needle);
    assert(occurs_at(text, needle, before.len() as int));
}

/// What a text holds, it holds with more text after it.
proof fn lemma_contains_left(text: Seq<char>, after: Seq<char>, needle: Seq<char>)
    requires
        contains(text, needle),
    ensures
        contains(text + after, needle),
{
    let at = choose|at: int| occurs_at(text, needle, at);
    assert((text + after).subrange(at, at + needle.len()) =~= text.subrange(
        at,
        at + needle.len(),
    ));
    assert(occurs_at(text + after, needle, at));
}

/// What a text holds, it holds with more text before it.
proof fn lemma_contains_right(before: Seq<char>, text: Seq<char>, needle: Seq<char>)
    requires
        contains(text, needle),
    ensures
        contains(before + text, needle),
{
    let at = choose|at: int| occurs_at(text, needle, at);
    assert((before + text).subrange(before.len() + at, before.len() + at + needle.len())
        =~= text.subrange(at, at + needle.len()));
    assert(occurs_at(before + text, needle, before.len() + at));
}

/// A text holds itself.
proof fn lemma_contains_itself(text: Seq<char>)
    ensures
        contains(text, text),
{
    assert(text.subrange(0, text.len() as int) =~= text);
    assert(occurs_at(text, text, 0));
}

/// What stands in a part of a text stands in the text.
pub proof fn lemma_contains_trans(text: Seq<char>, part: Seq<char>, needle: Seq<char>)
    requires
        contains(text, part),
        contains(part, needle),
    ensures
        contains(text, needle),
{
    let a = choose|at: int| occurs_at(text, part, at);
    let b = choose|at: int| occurs_at(part, needle, at);
    assert(text.subrange(a + b, a + b + needle.len()) =~= text.subrange(
        a,
        a + part.len(),
    ).subrange(b, b + needle.len()));
    assert(occurs_at(text, needle, a + b));
}

/// The keyword that the line of a close begins with; empty for an open.
pub open spec fn marker(kind: EventKind) -> Seq<char> {
    match kind {
        EventKind::Open => Seq::empty(),
        EventKind::CloseOk(_) => "-> Ok("@,
        EventKind::CloseError(_) => "-> Error("@,
        EventKind::CloseFailure(_) => "-> Failure("@,
        EventKind::CloseIncomplete(_) => "-> Incomplete("@,
    }
}

/// The payload of a close as the line gives it; empty for an open.
pub open spec fn payload(kind: EventKind) -> Seq<char> {
    match kind {
        EventKind::Open => Seq::empty(),
        EventKind::CloseOk(text) => text,
        EventKind::CloseError(text) => text,
        EventKind::CloseFailure(text) => text,
        EventKind::CloseIncomplete(needed) => needed_text(needed),
    }
}

/// `text` shows the event: for an open its location and its input, for a
/// close the keyword of its outcome and its payload, and for both the
/// context where there is one.
pub open spec fn shows(text: Seq<char>, e: EventView) -> bool {
    &&& e.event is Open ==> contains(text, e.location) && contains(text, e.input)
    &&& !(e.event is Open) ==> contains(text, marker(e.event)) && contains(
        text,
        payload(e.event),
    )
    &&& match e.context {
        Some(c) => contains(text, c),
        None => true,
    }
}

/// What stands in a part of a text that shows an event is shown by the
/// text.
proof fn lemma_shows_in(text: Seq<char>, part: Seq<char>, e: EventView)
    requires
        contains(text, part),
        shows(part, e),
    ensures
        shows(text, e),
{
    if e.event is Open {
        lemma_contains_trans(text, part, e.location);
        lemma_contains_trans(text, part, e.input);
    } else {
        lemma_contains_trans(text, part, marker(e.event));
        lemma_contains_trans(text, part, payload(e.event));
    }
    match e.context {
        Some(c) => {
            lemma_contains_trans(text, part, c);
        },
        None => {},
    }
}

/// The plain content of a line holds what the event records.
proof fn lemma_plain_content(e: EventView)
    ensures
        e.event is Open ==> contains(plain_content(e), e.location) && contains(
            plain_content(e),
            e.input,
        ),
        !(e.event is Open) ==> contains(plain_content(e), marker(e.event)) && contains(
            plain_content(e),
            payload(e.event),
        ),
{
    let close = ")"@;
    if e.event is Open {
        let quote = "(\""@;
        let unquote = "\")"@;
        lemma_contains_itself(e.location);
        lemma_contains_left(e.location, quote, e.location);
        lemma_contains_left(e.location + quote, e.input, e.location);
        lemma_contains_left(e.location + quote + e.input, unquote, e.location);
        lemma_contains_middle(e.location + quote, e.input, unquote);
    } else {
        let m = marker(e.event);
        let p = payload(e.event);
        lemma_contains_itself(m);
        lemma_contains_left(m, p, m);
        lemma_contains_left(m + p, close, m);
        lemma_contains_middle(m, p, close);
    }
}

/// Text in inverse video holds the text.
proof fn lemma_inverse(text: Seq<char>)
    ensures
        contains(inverse(text), text),
{
    lemma_contains_middle(ansi::TEXT_INVERSE@, text, ansi::TEXT_INVERSE_RESET@);
}

/// The colored content of a line holds what the event records.
proof fn lemma_colored_content(e: EventView)
    ensures
        e.event is Open ==> contains(colored_content(e), e.location) && contains(
            colored_content(e),
            e.input,
        ),
        !(e.event is Open) ==> contains(colored_content(e), marker(e.event)) && contains(
            colored_content(e),
            payload(e.event),
        ),
{
    let close = ")"@;
    if e.event is Open {
        let under = ansi::TEXT_UNDERLINE@;
        let plain = ansi::TEXT_UNDERLINE_RESET@;
        let quote = "(\""@;
        let unquote = "\")"@;
        let shown = inverse(e.input);
        lemma_contains_middle(under, e.location, plain);
        lemma_contains_left(under + e.location + plain, quote, e.location);
        lemma_contains_left(under + e.location + plain + quote, shown, e.location);
        lemma_contains_left(under + e.location + plain + quote + shown, unquote, e.location);
        lemma_contains_middle(under + e.location + plain + quote, shown, unquote);
        lemma_inverse(e.input);
        lemma_contains_trans(colored_content(e), shown, e.input);
    } else {
        let color = outcome_color(e.event);
        let m = marker(e.event);
        let p = payload(e.event);
        let shown = inverse(p);
        lemma_contains_middle(color, m, shown);
        lemma_contains_left(color + m + shown, close, m);
        lemma_contains_middle(color + m, shown, close);
        lemma_inverse(p);
        lemma_contains_trans(colored_content(e), shown, p);
    }
}

/// The line of an event shows the event.
pub proof fn lemma_line_shows_event(e: EventView, colored: bool)
    ensures
        shows(event_line(e, colored), e),
{
    let line = event_line(e, colored);
    let indent = indent_text(e.level);
    let brackets = context_text(e.context);
    let newline = "\n"@;
    let content = if colored {
        colored_content(e)
    } else {
        plain_content(e)
    };
    if colored {
        let black = ansi::FG_BLACK@;
        let blue = ansi::BG_BLUE@;
        let reset = ansi::RESET@;
        lemma_colored_content(e);
        lemma_contains_middle(indent, content, black);
        lemma_contains_left(indent + content + black, blue + brackets, content);
        lemma_contains_left(indent + content + black + (blue + brackets), reset, content);
        lemma_contains_left(
            indent + content + black + (blue + brackets) + reset,
            newline,
            content,
        );
        lemma_contains_itself(brackets);
        lemma_contains_right(blue, brackets, brackets);
        lemma_contains_middle(indent + content + black, blue + brackets, reset);
        lemma_contains_left(
            indent + content + black + (blue + brackets) + reset,
            newline,
            blue + brackets,
        );
        lemma_contains_trans(line, blue + brackets, brackets);
    } else {
        lemma_plain_content(e);
        lemma_contains_middle(indent, content, brackets);
        lemma_contains_left(indent + content + brackets, newline, content);
        lemma_contains_middle(indent + content, brackets, newline);
    }
    assert(contains(line, content));
    assert(contains(line, brackets));
    if e.event is Open {
        lemma_contains_trans(line, content, e.location);
        lemma_contains_trans(line, content, e.input);
    } else {
        lemma_contains_trans(line, content, marker(e.event));
        lemma_contains_trans(line, content, payload(e.event));
    }
    match e.context {
        Some(c) => {
            lemma_contains_middle("["@, c, "]"@);
            lemma_contains_trans(line, brackets, c);
        },
        None => {},
    }
}

/// The rendering of a log holds the line of each of its events, and so
/// shows each of them: the location and the input of every open, the
/// keyword and the payload of every close, and every context.
pub proof fn lemma_rendering_shows_events(events: Seq<EventView>, colored: bool, k: int)
    requires
        0 <= k < events.len(),
    ensures
        contains(trace_text(events, colored), event_line(events[k], colored)),
        shows(trace_text(events, colored), events[k]),
    decreases events.len(),
{
    let text = trace_text(events, colored);
    let line = event_line(events[k], colored);
    let earlier = trace_text(events.drop_last(), colored);
    if k == events.len() - 1 {
        lemma_contains_itself(line);
        lemma_contains_right(earlier, line, line);
    } else {
        lemma_rendering_shows_events(events.drop_last(), colored, k);
        assert(events.drop_last()[k] == events[k]);
        lemma_contains_left(earlier, event_line(events.last(), colored), line);
    }
    lemma_line_shows_event(events[k], colored);
    lemma_shows_in(text, line, events[k]);
}

} // verus!
