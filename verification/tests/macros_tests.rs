use nom::bytes::complete::tag;
use nom::error::ContextError;
use nom::sequence::tuple;
use nom::{IResult, Parser};
use nom_tracer::get_trace_for_tag;
use nom_tracer::tracer::Tracer;
use nom_tracer::DEFAULT_TAG;
use std::cell::RefCell;
use std::fmt::Debug;

fn add_context_to_err<I, O, E>(label: &'static str, input: I, res: IResult<I, O, E>) -> IResult<I, O, E>
where
    E: ContextError<I>,
{
    match res {
        Ok(o) => Ok(o),
        Err(nom::Err::Error(e)) => Err(nom::Err::Error(E::add_context(input, label, e))),
        Err(nom::Err::Failure(e)) => Err(nom::Err::Failure(E::add_context(input, label, e))),
        Err(nom::Err::Incomplete(i)) => Err(nom::Err::Incomplete(i)),
    }
}

fn tr<'t, I, O, E, F>(
    tracer: &'t RefCell<Tracer>,
    tag: &'static str,
    context: Option<&'static str>,
    name: &'static str,
    mut parser: F,
) -> impl FnMut(I) -> IResult<I, O, E> + 't
where
    I: AsRef<str> + Clone,
    F: Parser<I, O, E> + 't,
    O: Debug,
    E: Debug + ContextError<I>,
{
    move |input: I| {
        let shown = input.clone();
        {
            let mut tracer = tracer.borrow_mut();
            if !tracer.tr_open_allowed(tag) {
                panic!("Max level reached");
            }
            tracer.tr_open(tag, context, shown.as_ref(), name);
        }
        let res = parser.parse(input);
        let done = {
            let mut tracer = tracer.borrow_mut();
            if !tracer.tr_close_allowed(tag) {
                panic!("Cannot close at level 0: location=\"{}\"", name);
            }
            tracer.tr_close(tag, context, shown.as_ref(), name, &res)
        };
        match done.breadcrumb {
            Some(label) => add_context_to_err(label, shown, res),
            None => res,
        }
    }
}

fn parse_ab(input: &str) -> IResult<&str, (&str, &str)> {
    tuple((tag("a"), tag("b")))(input)
}

fn get_trace(tracer: &RefCell<Tracer>) -> String {
    get_trace_for_tag(&tracer.borrow(), DEFAULT_TAG)
}

#[test]
fn macros_test_simple_trace() {
    let tracer = RefCell::new(Tracer::new());
    let result = tr(&tracer, DEFAULT_TAG, None, "test_simple_trace", parse_ab)("ab");
    assert!(result.is_ok());

    let trace = get_trace(&tracer);
    assert!(trace.contains("test_simple_trace"));
    assert!(trace.contains("-> Ok"));
}

#[test]
fn macros_test_trace_with_tag() {
    let tracer = RefCell::new(Tracer::new());
    let result = tr(&tracer, "custom_tag", None, "test_trace_with_tag", parse_ab)("ab");
    assert!(result.is_ok());

    let trace = get_trace_for_tag(&tracer.borrow(), "custom_tag");
    assert!(trace.contains("test_trace_with_tag"));
    assert!(trace.contains("-> Ok"));
}

#[test]
fn macros_test_trace_with_context() {
    let tracer = RefCell::new(Tracer::new());
    let result = tr(
        &tracer,
        DEFAULT_TAG,
        Some("custom_context"),
        "test_trace_with_context",
        parse_ab,
    )("ab");
    assert!(result.is_ok());

    let trace = get_trace(&tracer);
    assert!(trace.contains("test_trace_with_context"));
    assert!(trace.contains("custom_context"));
    assert!(trace.contains("-> Ok"));
}

#[test]
fn macros_test_trace_with_tag_and_context() {
    let tracer = RefCell::new(Tracer::new());
    let result = tr(
        &tracer,
        "custom_tag",
        Some("custom_context"),
        "test_trace_with_tag_and_context",
        parse_ab,
    )("ab");
    assert!(result.is_ok());

    let trace = get_trace_for_tag(&tracer.borrow(), "custom_tag");
    assert!(trace.contains("test_trace_with_tag"));
    assert!(trace.contains("custom_context"));
    assert!(trace.contains("-> Ok"));
}

#[test]
fn macros_test_activate_trace() {
    let tracer = RefCell::new(Tracer::new());
    tracer.borrow_mut().deactivate(DEFAULT_TAG);
    let result = tr(&tracer, DEFAULT_TAG, None, "test_activate_trace", parse_ab)("ab");
    assert!(result.is_ok());

    let trace_before = get_trace(&tracer);
    assert!(
        trace_before.is_empty(),
        "Trace should be empty when deactivated"
    );

    tracer.borrow_mut().activate(DEFAULT_TAG);
    let result = tr(&tracer, DEFAULT_TAG, None, "test_activate_trace", parse_ab)("ab");
    assert!(result.is_ok());

    let trace_after = get_trace(&tracer);
    assert!(
        !trace_after.is_empty(),
        "Trace should not be empty after activation"
    );
    assert!(trace_after.contains("test_activate_trace"));
    assert!(trace_after.contains("-> Ok"));
}

#[test]
fn macros_test_activate_trace_with_tag() {
    let tracer = RefCell::new(Tracer::new());
    tracer.borrow_mut().deactivate("custom_tag");
    let result = tr(&tracer, "custom_tag", None, "test_activate_trace_with_tag", parse_ab)("ab");
    assert!(result.is_ok());

    let trace_before = get_trace_for_tag(&tracer.borrow(), "custom_tag");
    assert!(
        trace_before.is_empty(),
        "Trace should be empty when deactivated"
    );

    tracer.borrow_mut().activate("custom_tag");
    let result = tr(&tracer, "custom_tag", None, "test_activate_trace_with_tag", parse_ab)("ab");
    assert!(result.is_ok());

    let trace_after = get_trace_for_tag(&tracer.borrow(), "custom_tag");
    assert!(
        !trace_after.is_empty(),
        "Trace should not be empty after activation"
    );
    assert!(trace_after.contains("test_activate_trace_with_tag"));
    assert!(trace_after.contains("-> Ok"));
}

#[test]
fn macros_test_deactivate_trace() {
    let tracer = RefCell::new(Tracer::new());
    tracer.borrow_mut().activate(DEFAULT_TAG);
    let result = tr(&tracer, DEFAULT_TAG, None, "test_deactivate_trace", parse_ab)("ab");
    assert!(result.is_ok());

    let trace_before = get_trace(&tracer);
    assert!(
        !trace_before.is_empty(),
        "Trace should not be empty when activated"
    );

    tracer.borrow_mut().deactivate(DEFAULT_TAG);
    let result = tr(&tracer, DEFAULT_TAG, None, "test_deactivate_trace", parse_ab)("ab");
    assert!(result.is_ok());

    let trace_after = get_trace(&tracer);
    assert_eq!(
        trace_before, trace_after,
        "Trace should not change after deactivation"
    );
}

#[test]
fn macros_test_deactivate_trace_with_tag() {
    let tracer = RefCell::new(Tracer::new());
    tracer.borrow_mut().activate("custom_tag");
    let result = tr(&tracer, "custom_tag", None, "test_deactivate_trace_with_tag", parse_ab)("ab");
    assert!(result.is_ok());

    let trace_before = get_trace_for_tag(&tracer.borrow(), "custom_tag");
    assert!(
        !trace_before.is_empty(),
        "Trace should not be empty when activated"
    );

    tracer.borrow_mut().deactivate("custom_tag");
    let result = tr(&tracer, "custom_tag", None, "test_deactivate_trace_with_tag", parse_ab)("ab");
    assert!(result.is_ok());

    let trace_after = get_trace_for_tag(&tracer.borrow(), "custom_tag");
    assert_eq!(
        trace_before, trace_after,
        "Trace should not change after deactivation"
    );
}

#[test]
fn macros_test_reset_trace() {
    let tracer = RefCell::new(Tracer::new());
    tracer.borrow_mut().activate(DEFAULT_TAG);
    let result = tr(&tracer, DEFAULT_TAG, None, "test_reset_trace", parse_ab)("ab");
    assert!(result.is_ok());

    let trace_before = get_trace(&tracer);
    assert!(
        !trace_before.is_empty(),
        "Trace should not be empty before reset"
    );

    tracer.borrow_mut().reset(DEFAULT_TAG);
    let trace_after = get_trace(&tracer);
    assert!(trace_after.is_empty(), "Trace should be empty after reset");

    let result = tr(&tracer, DEFAULT_TAG, None, "test_reset_trace", parse_ab)("ab");
    assert!(result.is_ok());

    let trace_final = get_trace(&tracer);
    assert!(
        !trace_final.is_empty(),
        "Trace should not be empty after new parsing"
    );
    assert!(trace_final.contains("test_reset_trace"));
    assert!(trace_final.contains("-> Ok"));
}

#[test]
fn macros_test_reset_trace_with_tag() {
    let tracer = RefCell::new(Tracer::new());
    tracer.borrow_mut().activate("custom_tag");
    let result = tr(&tracer, "custom_tag", None, "test_reset_trace_with_tag", parse_ab)("ab");
    assert!(result.is_ok());

    let trace_before = get_trace_for_tag(&tracer.borrow(), "custom_tag");
    assert!(
        !trace_before.is_empty(),
        "Trace should not be empty before reset"
    );

    tracer.borrow_mut().reset("custom_tag");
    let trace_after = get_trace_for_tag(&tracer.borrow(), "custom_tag");
    assert!(trace_after.is_empty(), "Trace should be empty after reset");

    let result = tr(&tracer, "custom_tag", None, "test_reset_trace_with_tag", parse_ab)("ab");
    assert!(result.is_ok());

    let trace_final = get_trace_for_tag(&tracer.borrow(), "custom_tag");
    assert!(
        !trace_final.is_empty(),
        "Trace should not be empty after new parsing"
    );
    assert!(trace_final.contains("test_reset_trace_with_tag"));
    assert!(trace_final.contains("-> Ok"));
}

#[test]
fn macros_tests_test_simple_trace() {
    let tracer = RefCell::new(Tracer::new());
    let result = tr(&tracer, DEFAULT_TAG, None, "test_simple_trace", parse_ab)("ab");
    assert!(result.is_ok());

    let trace = get_trace(&tracer);
    assert!(trace.contains("test_simple_trace"));
    assert!(trace.contains("-> Ok"));
}

#[test]
fn macros_tests_test_trace_with_tag() {
    let tracer = RefCell::new(Tracer::new());
    let result = tr(&tracer, "custom_tag", None, "test_trace_with_tag", parse_ab)("ab");
    assert!(result.is_ok());

    let trace = get_trace_for_tag(&tracer.borrow(), "custom_tag");
    assert!(trace.contains("test_trace_with_tag"));
    assert!(trace.contains("-> Ok"));
}

#[test]
fn macros_tests_test_trace_with_context() {
    let tracer = RefCell::new(Tracer::new());
    let result = tr(
        &tracer,
        DEFAULT_TAG,
        Some("custom_context"),
        "test_trace_with_context",
        parse_ab,
    )("ab");
    assert!(result.is_ok());

    let trace = get_trace(&tracer);
    assert!(trace.contains("test_trace_with_context"));
    assert!(trace.contains("custom_context"));
    assert!(trace.contains("-> Ok"));
}

#[test]
fn macros_tests_test_trace_with_tag_and_context() {
    let tracer = RefCell::new(Tracer::new());
    let result = tr(
        &tracer,
        "custom_tag",
        Some("custom_context"),
        "test_trace_with_tag_and_context",
        parse_ab,
    )("ab");
    assert!(result.is_ok());

    let trace = get_trace_for_tag(&tracer.borrow(), "custom_tag");
    assert!(trace.contains("test_trace_with_tag"));
    assert!(trace.contains("custom_context"));
    assert!(trace.contains("-> Ok"));
}

#[test]
fn macros_tests_test_activate_trace() {
    let tracer = RefCell::new(Tracer::new());
    tracer.borrow_mut().deactivate(DEFAULT_TAG);
    let result = tr(&tracer, DEFAULT_TAG, None, "test_activate_trace", parse_ab)("ab");
    assert!(result.is_ok());

    let trace_before = get_trace(&tracer);
    assert!(
        trace_before.is_empty(),
        "Trace should be empty when deactivated"
    );

    tracer.borrow_mut().activate(DEFAULT_TAG);
    let result = tr(&tracer, DEFAULT_TAG, None, "test_activate_trace", parse_ab)("ab");
    assert!(result.is_ok());

    let trace_after = get_trace(&tracer);
    assert!(
        !trace_after.is_empty(),
        "Trace should not be empty after activation"
    );
    assert!(trace_after.contains("test_activate_trace"));
    assert!(trace_after.contains("-> Ok"));
}

#[test]
fn macros_tests_test_activate_trace_with_tag() {
    let tracer = RefCell::new(Tracer::new());
    tracer.borrow_mut().deactivate("custom_tag");
    let result = tr(&tracer, "custom_tag", None, "test_activate_trace_with_tag", parse_ab)("ab");
    assert!(result.is_ok());

    let trace_before = get_trace_for_tag(&tracer.borrow(), "custom_tag");
    assert!(
        trace_before.is_empty(),
        "Trace should be empty when deactivated"
    );

    tracer.borrow_mut().activate("custom_tag");
    let result = tr(&tracer, "custom_tag", None, "test_activate_trace_with_tag", parse_ab)("ab");
    assert!(result.is_ok());

    let trace_after = get_trace_for_tag(&tracer.borrow(), "custom_tag");
    assert!(
        !trace_after.is_empty(),
        "Trace should not be empty after activation"
    );
    assert!(trace_after.contains("test_activate_trace_with_tag"));
    assert!(trace_after.contains("-> Ok"));
}

#[test]
fn macros_tests_test_deactivate_trace() {
    let tracer = RefCell::new(Tracer::new());
    tracer.borrow_mut().activate(DEFAULT_TAG);
    let result = tr(&tracer, DEFAULT_TAG, None, "test_deactivate_trace", parse_ab)("ab");
    assert!(result.is_ok());

    let trace_before = get_trace(&tracer);
    assert!(
        !trace_before.is_empty(),
        "Trace should not be empty when activated"
    );

    tracer.borrow_mut().deactivate(DEFAULT_TAG);
    let result = tr(&tracer, DEFAULT_TAG, None, "test_deactivate_trace", parse_ab)("ab");
    assert!(result.is_ok());

    let trace_after = get_trace(&tracer);
    assert_eq!(
        trace_before, trace_after,
        "Trace should not change after deactivation"
    );
}

#[test]
fn macros_tests_test_deactivate_trace_with_tag() {
    let tracer = RefCell::new(Tracer::new());
    tracer.borrow_mut().activate("custom_tag");
    let result = tr(&tracer, "custom_tag", None, "test_deactivate_trace_with_tag", parse_ab)("ab");
    assert!(result.is_ok());

    let trace_before = get_trace_for_tag(&tracer.borrow(), "custom_tag");
    assert!(
        !trace_before.is_empty(),
        "Trace should not be empty when activated"
    );

    tracer.borrow_mut().deactivate("custom_tag");
    let result = tr(&tracer, "custom_tag", None, "test_deactivate_trace_with_tag", parse_ab)("ab");
    assert!(result.is_ok());

    let trace_after = get_trace_for_tag(&tracer.borrow(), "custom_tag");
    assert_eq!(
        trace_before, trace_after,
        "Trace should not change after deactivation"
    );
}

#[test]
fn macros_tests_test_reset_trace() {
    let tracer = RefCell::new(Tracer::new());
    tracer.borrow_mut().activate(DEFAULT_TAG);
    let result = tr(&tracer, DEFAULT_TAG, None, "test_reset_trace", parse_ab)("ab");
    assert!(result.is_ok());

    let trace_before = get_trace(&tracer);
    assert!(
        !trace_before.is_empty(),
        "Trace should not be empty before reset"
    );

    tracer.borrow_mut().reset(DEFAULT_TAG);
    let trace_after = get_trace(&tracer);
    assert!(trace_after.is_empty(), "Trace should be empty after reset");

    let result = tr(&tracer, DEFAULT_TAG, None, "test_reset_trace", parse_ab)("ab");
    assert!(result.is_ok());

    let trace_final = get_trace(&tracer);
    assert!(
        !trace_final.is_empty(),
        "Trace should not be empty after new parsing"
    );
    assert!(trace_final.contains("test_reset_trace"));
    assert!(trace_final.contains("-> Ok"));
}

#[test]
fn macros_tests_test_reset_trace_with_tag() {
    let tracer = RefCell::new(Tracer::new());
    tracer.borrow_mut().activate("custom_tag");
    let result = tr(&tracer, "custom_tag", None, "test_reset_trace_with_tag", parse_ab)("ab");
    assert!(result.is_ok());

    let trace_before = get_trace_for_tag(&tracer.borrow(), "custom_tag");
    assert!(
        !trace_before.is_empty(),
        "Trace should not be empty before reset"
    );

    tracer.borrow_mut().reset("custom_tag");
    let trace_after = get_trace_for_tag(&tracer.borrow(), "custom_tag");
    assert!(trace_after.is_empty(), "Trace should be empty after reset");

    let result = tr(&tracer, "custom_tag", None, "test_reset_trace_with_tag", parse_ab)("ab");
    assert!(result.is_ok());

    let trace_final = get_trace_for_tag(&tracer.borrow(), "custom_tag");
    assert!(
        !trace_final.is_empty(),
        "Trace should not be empty after new parsing"
    );
    assert!(trace_final.contains("test_reset_trace_with_tag"));
    assert!(trace_final.contains("-> Ok"));
}

#[test]
fn macros_tests_test_activate_trace_print() {
    let tracer = RefCell::new(Tracer::new());
    // Ensure trace print is initially deactivated
    assert!(!tracer.borrow().tags.trace(DEFAULT_TAG).unwrap().print);

    // Activate trace print
    tracer.borrow_mut().set_print(DEFAULT_TAG, true);

    // Check if trace print is now activated
    assert!(tracer.borrow().tags.trace(DEFAULT_TAG).unwrap().print);

    // Test with a custom tag
    tracer.borrow_mut().set_print("custom_tag", true);

    assert!(tracer.borrow().tags.trace("custom_tag").unwrap().print);
}

#[test]
fn macros_tests_test_deactivate_trace_print() {
    let tracer = RefCell::new(Tracer::new());
    // First, activate trace print
    tracer.borrow_mut().set_print(DEFAULT_TAG, true);

    // Ensure trace print is initially activated
    assert!(tracer.borrow().tags.trace(DEFAULT_TAG).unwrap().print);

    // Deactivate trace print
    tracer.borrow_mut().set_print(DEFAULT_TAG, false);

    // Check if trace print is now deactivated
    assert!(!tracer.borrow().tags.trace(DEFAULT_TAG).unwrap().print);

    // Test with a custom tag
    tracer.borrow_mut().set_print("custom_tag", true);
    tracer.borrow_mut().set_print("custom_tag", false);

    assert!(!tracer.borrow().tags.trace("custom_tag").unwrap().print);
}

#[test]
fn test_activate_deactivate_trace_print_interaction() {
    let tracer = RefCell::new(Tracer::new());
    // Activate trace print for default tag
    tracer.borrow_mut().set_print(DEFAULT_TAG, true);

    // Activate trace print for custom tag
    tracer.borrow_mut().set_print("custom_tag", true);

    // Verify both are activated
    assert!(tracer.borrow().tags.trace(DEFAULT_TAG).unwrap().print);
    assert!(tracer.borrow().tags.trace("custom_tag").unwrap().print);

    // Deactivate trace print for default tag
    tracer.borrow_mut().set_print(DEFAULT_TAG, false);

    // Verify only custom tag is still activated
    assert!(!tracer.borrow().tags.trace(DEFAULT_TAG).unwrap().print);
    assert!(tracer.borrow().tags.trace("custom_tag").unwrap().print);

    // Deactivate trace print for custom tag
    tracer.borrow_mut().set_print("custom_tag", false);

    // Verify both are deactivated
    assert!(!tracer.borrow().tags.trace(DEFAULT_TAG).unwrap().print);
    assert!(!tracer.borrow().tags.trace("custom_tag").unwrap().print);
}
