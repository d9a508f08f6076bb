use nom_tracer::ansi;
use nom_tracer::events::{Needed, TraceEvent, TraceEventType};

fn event(level: usize, context: Option<&'static str>, event: TraceEventType) -> TraceEvent {
    TraceEvent {
        level,
        location: "test_location",
        context,
        input: "test_input".to_string(),
        event,
    }
}

#[test]
fn test_display_open() {
    println!(
        "{}",
        TraceEvent {
            level: 2,
            location: "test_location",
            context: Some("test_context"),
            input: "test_input".to_string(),
            event: TraceEventType::Open,
        }
        .to_string()
    );
}

#[test]
fn test_display_close_ok() {
    println!(
        "{}",
        TraceEvent {
            level: 2,
            location: "test_location",
            context: Some("test_context"),
            input: "test_input".to_string(),
            event: TraceEventType::CloseOk("ok".to_string()),
        }
        .to_string()
    );
}

#[test]
fn test_display_close_error() {
    println!(
        "{}",
        TraceEvent {
            level: 2,
            location: "test_location",
            context: Some("test_context"),
            input: "test_input".to_string(),
            event: TraceEventType::CloseError("error".to_string()),
        }
        .to_string()
    );
}

#[test]
fn test_display_close_failure() {
    println!(
        "{}",
        TraceEvent {
            level: 2,
            location: "test_location",
            context: Some("test_context"),
            input: "test_input".to_string(),
            event: TraceEventType::CloseFailure("failure".to_string()),
        }
        .to_string()
    );
}

#[test]
fn test_display_close_incomplete() {
    println!(
        "{}",
        TraceEvent {
            level: 2,
            location: "test_location",
            context: Some("test_context"),
            input: "test_input".to_string(),
            event: TraceEventType::CloseIncomplete(Needed::Size(5)),
        }
        .to_string()
    );
}

#[test]
fn plain_open_line_is_exact() {
    let e = event(2, Some("test_context"), TraceEventType::Open);
    assert_eq!(e.to_string(), "| | test_location(\"test_input\")[test_context]\n");
    assert_eq!(e.render(false), e.to_string());
}

#[test]
fn plain_open_line_without_context_or_indent() {
    let e = event(0, None, TraceEventType::Open);
    assert_eq!(e.to_string(), "test_location(\"test_input\")\n");
}

#[test]
fn plain_close_lines_are_exact() {
    let ok = event(1, None, TraceEventType::CloseOk("ok".to_string()));
    assert_eq!(ok.to_string(), "| -> Ok(ok)\n");
    let error = event(0, Some("c"), TraceEventType::CloseError("error".to_string()));
    assert_eq!(error.to_string(), "-> Error(error)[c]\n");
    let failure = event(3, None, TraceEventType::CloseFailure("failure".to_string()));
    assert_eq!(failure.to_string(), "| | | -> Failure(failure)\n");
    let incomplete = event(1, Some("ctx"), TraceEventType::CloseIncomplete(Needed::Size(5)));
    assert_eq!(incomplete.to_string(), "| -> Incomplete(Size(5))[ctx]\n");
}

#[test]
fn needed_is_written_as_nom_writes_it() {
    let unknown = event(0, None, TraceEventType::CloseIncomplete(Needed::Unknown));
    assert_eq!(unknown.to_string(), "-> Incomplete(Unknown)\n");
    let zero = event(0, None, TraceEventType::CloseIncomplete(Needed::Size(0)));
    assert_eq!(zero.to_string(), "-> Incomplete(Unknown)\n");
    let one = event(0, None, TraceEventType::CloseIncomplete(Needed::Size(1)));
    assert_eq!(one.to_string(), "-> Incomplete(Size(1))\n");
    let many = event(0, None, TraceEventType::CloseIncomplete(Needed::Size(1234567890)));
    assert_eq!(many.to_string(), "-> Incomplete(Size(1234567890))\n");
    let ten = event(0, None, TraceEventType::CloseIncomplete(Needed::Size(10)));
    assert_eq!(ten.to_string(), "-> Incomplete(Size(10))\n");
    assert_eq!(
        format!("{:?}", nom::Needed::new(1234567890)),
        "Size(1234567890)"
    );
}

#[test]
fn colored_open_line_is_exact() {
    let e = event(1, Some("test_context"), TraceEventType::Open);
    assert_eq!(
        e.render(true),
        "| \x1b[4mtest_location\x1b[24m(\"\x1b[7mtest_input\x1b[27m\")\x1b[30m\x1b[44m[test_context]\x1b[0m\n"
    );
}

#[test]
fn colored_close_lines_are_exact() {
    let ok = event(0, None, TraceEventType::CloseOk("ok".to_string()));
    assert_eq!(
        ok.render(true),
        "\x1b[32m-> Ok(\x1b[7mok\x1b[27m)\x1b[30m\x1b[44m\x1b[0m\n"
    );
    let error = event(1, None, TraceEventType::CloseError("e".to_string()));
    assert_eq!(
        error.render(true),
        "| \x1b[31m-> Error(\x1b[7me\x1b[27m)\x1b[30m\x1b[44m\x1b[0m\n"
    );
    let failure = event(0, Some("c"), TraceEventType::CloseFailure("f".to_string()));
    assert_eq!(
        failure.render(true),
        "\x1b[35m-> Failure(\x1b[7mf\x1b[27m)\x1b[30m\x1b[44m[c]\x1b[0m\n"
    );
    let incomplete = event(0, None, TraceEventType::CloseIncomplete(Needed::Size(7)));
    assert_eq!(
        incomplete.render(true),
        "\x1b[33m-> Incomplete(\x1b[7mSize(7)\x1b[27m)\x1b[30m\x1b[44m\x1b[0m\n"
    );
}

#[test]
fn colors_are_the_ansi_codes() {
    assert_eq!(ansi::FG_GREEN, "\x1b[32m");
    assert_eq!(ansi::FG_RED, "\x1b[31m");
    assert_eq!(ansi::FG_MAGENTA, "\x1b[35m");
    assert_eq!(ansi::FG_YELLOW, "\x1b[33m");
    assert_eq!(ansi::FG_BLACK, "\x1b[30m");
    assert_eq!(ansi::BG_BLUE, "\x1b[44m");
    assert_eq!(ansi::RESET, "\x1b[0m");
}

#[test]
fn indentation_has_one_marker_for_each_level() {
    let e = event(5, None, TraceEventType::CloseOk(String::new()));
    assert_eq!(e.to_string(), "| | | | | -> Ok()\n");
    assert_eq!(nom_tracer::text::repeat("| ", 0), "");
    assert_eq!(nom_tracer::text::repeat("ab", 3), "ababab");
}
