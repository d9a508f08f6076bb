use nom::bytes::complete::tag;
use nom_tracer::events::TraceEventType;
use nom_tracer::tags::TraceTags;
use nom_tracer::DEFAULT_TAG;

fn open_or_panic(tags: &mut TraceTags, input: &str, location: &'static str) {
    if !tags.open_allowed(DEFAULT_TAG) {
        let limit = tags.trace(DEFAULT_TAG).and_then(|t| t.panic_on_level);
        panic!("Max level reached: {}", limit.unwrap_or(usize::MAX));
    }
    tags.open(DEFAULT_TAG, None, input, location, false);
}

#[test]
fn test_new() {
    let trace_list = TraceTags::new();
    assert!(trace_list.contains_tag(DEFAULT_TAG));
}

#[test]
fn list_test_reset() {
    let mut trace_list = TraceTags::new();
    trace_list.open(DEFAULT_TAG, None, "input", "location", false);
    trace_list.clear(DEFAULT_TAG);
    assert_eq!(trace_list.trace(DEFAULT_TAG).unwrap().events.len(), 0);
    assert_eq!(trace_list.trace(DEFAULT_TAG).unwrap().level, 0);
}

#[test]
fn list_test_get_trace() {
    let mut trace_list = TraceTags::new();
    trace_list.open(DEFAULT_TAG, None, "input", "location", false);
    trace_list.close::<_, _, nom::error::VerboseError<&str>>(
        DEFAULT_TAG,
        None,
        "input",
        "location",
        &Ok(("", "result")),
        false,
    );

    let trace = trace_list.get_trace(DEFAULT_TAG);
    assert!(trace.is_some());
    let trace_str = trace.unwrap();
    assert!(trace_str.contains("location(\"input\")"));
    assert!(trace_str.contains("-> Ok(\"result\")"));
}

#[test]
fn list_test_get_trace_nonexistent_tag() {
    let trace_list = TraceTags::new();
    let trace = trace_list.get_trace("nonexistent_tag");
    assert!(trace.is_none());
}

#[test]
fn list_test_activate_deactivate() {
    let mut trace_list = TraceTags::new();
    trace_list.deactivate(DEFAULT_TAG);
    assert!(!trace_list.trace(DEFAULT_TAG).unwrap().active);
    trace_list.activate(DEFAULT_TAG);
    assert!(trace_list.trace(DEFAULT_TAG).unwrap().active);
}

#[test]
fn list_test_activate_trace_print() {
    let mut trace_list = TraceTags::new();

    // Initially, print should be false
    assert!(!trace_list.trace(DEFAULT_TAG).unwrap().print);

    trace_list.activate_trace_print(DEFAULT_TAG);
    assert!(trace_list.trace(DEFAULT_TAG).unwrap().print);

    // Test with a custom tag
    let custom_tag = "custom_tag";
    trace_list.activate_trace_print(custom_tag);
    assert!(trace_list.trace(custom_tag).unwrap().print);
}

#[test]
fn list_test_deactivate_trace_print() {
    let mut trace_list = TraceTags::new();

    // Activate print first
    trace_list.activate_trace_print(DEFAULT_TAG);
    assert!(trace_list.trace(DEFAULT_TAG).unwrap().print);

    // Now deactivate
    trace_list.deactivate_trace_print(DEFAULT_TAG);
    assert!(!trace_list.trace(DEFAULT_TAG).unwrap().print);

    // Test with a custom tag
    let custom_tag = "custom_tag";
    trace_list.activate_trace_print(custom_tag);
    trace_list.deactivate_trace_print(custom_tag);
    assert!(!trace_list.trace(custom_tag).unwrap().print);
}

#[test]
fn test_panic_on_level_set() {
    let mut trace_list = TraceTags::new();
    trace_list.panic_on_level(DEFAULT_TAG, Some(5));
    assert_eq!(trace_list.trace(DEFAULT_TAG).unwrap().panic_on_level, Some(5));
}

#[test]
fn test_panic_on_level_remove() {
    let mut trace_list = TraceTags::new();
    trace_list.panic_on_level(DEFAULT_TAG, Some(5));
    trace_list.panic_on_level(DEFAULT_TAG, None);
    assert_eq!(trace_list.trace(DEFAULT_TAG).unwrap().panic_on_level, None);
}

#[test]
#[should_panic(expected = "Max level reached: 3")]
fn list_test_panic_on_level_trigger() {
    let mut trace_list = TraceTags::new();
    trace_list.panic_on_level(DEFAULT_TAG, Some(3));

    // Open traces until we reach the panic level
    open_or_panic(&mut trace_list, "input1", "location1");
    open_or_panic(&mut trace_list, "input2", "location2");
    open_or_panic(&mut trace_list, "input3", "location3");

    // This should trigger a panic
    open_or_panic(&mut trace_list, "input4", "location4");
}

#[test]
fn list_test_panic_on_level_not_triggered() {
    let mut trace_list = TraceTags::new();
    trace_list.panic_on_level(DEFAULT_TAG, Some(5));

    // Open traces but don't exceed the panic level
    trace_list.open(DEFAULT_TAG, None, "input1", "location1", false);
    trace_list.open(DEFAULT_TAG, None, "input2", "location2", false);
    trace_list.open(DEFAULT_TAG, None, "input3", "location3", false);
    trace_list.open(DEFAULT_TAG, None, "input4", "location4", false);
    trace_list.open(DEFAULT_TAG, None, "input5", "location5", false);

    // This should not panic
    assert_eq!(trace_list.trace(DEFAULT_TAG).unwrap().level, 5);
}

#[test]
fn test_open() {
    let mut trace_list = TraceTags::new();
    trace_list.open(DEFAULT_TAG, None, "input", "location", false);

    let trace = trace_list.trace(DEFAULT_TAG).unwrap();
    assert_eq!(trace.level, 1);
    assert_eq!(trace.events.len(), 1);
    assert_eq!(trace.events[0].input, "input");
    assert_eq!(trace.events[0].location, "location");
}

#[test]
fn test_open_with_context() {
    let mut trace_list = TraceTags::new();
    trace_list.open(DEFAULT_TAG, Some("context"), "input", "location", false);

    let trace = trace_list.trace(DEFAULT_TAG).unwrap();
    assert_eq!(trace.events[0].context, Some("context"));
}

#[test]
fn test_close() {
    let mut trace_list = TraceTags::new();
    trace_list.open(DEFAULT_TAG, None, "input", "location", false);
    trace_list.close::<_, _, nom::error::VerboseError<&str>>(
        DEFAULT_TAG,
        None,
        "input",
        "location",
        &Ok(("", "result")),
        false,
    );

    let trace = trace_list.trace(DEFAULT_TAG).unwrap();
    assert_eq!(trace.level, 0);
    assert_eq!(trace.events.len(), 2);

    if let TraceEventType::CloseOk(result) = &trace.events[1].event {
        assert_eq!(result, "\"result\"");
    } else {
        panic!("Expected CloseOk event");
    }
}

#[test]
fn test_nested_open_close() {
    let mut trace_list = TraceTags::new();
    trace_list.open(DEFAULT_TAG, None, "input1", "location1", false);
    trace_list.open(DEFAULT_TAG, None, "input2", "location2", false);
    trace_list.close::<_, _, nom::error::VerboseError<&str>>(
        DEFAULT_TAG,
        None,
        "input2",
        "location2",
        &Ok(("", "result2")),
        false,
    );
    trace_list.close::<_, _, nom::error::VerboseError<&str>>(
        DEFAULT_TAG,
        None,
        "input1",
        "location1",
        &Ok(("", "result1")),
        false,
    );

    let trace = trace_list.trace(DEFAULT_TAG).unwrap();
    assert_eq!(trace.level, 0);
    assert_eq!(trace.events.len(), 4);
    assert_eq!(trace.events[0].level, 0);
    assert_eq!(trace.events[1].level, 1);
    assert_eq!(trace.events[2].level, 1);
    assert_eq!(trace.events[3].level, 0);
}

#[test]
fn list_test_open_close_with_nom_parser() {
    let mut trace_list = TraceTags::new();
    let input = "hello world";
    let parser = tag::<_, _, ()>("hello");

    trace_list.open(DEFAULT_TAG, None, input, "hello_parser", false);
    let result = parser(input);
    trace_list.close(DEFAULT_TAG, None, input, "hello_parser", &result, false);

    let trace = trace_list.get_trace(DEFAULT_TAG).unwrap();
    assert!(trace.contains("hello_parser(\"hello world\")"));
    assert!(trace.contains("-> Ok(\"hello\")"));
}
