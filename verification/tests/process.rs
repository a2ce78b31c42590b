//! Sandboxes, statuses, and the texts that scripts and operators see.

use otter_rt::process::{
    console_line, error_report, error_source, pid_prefixed, render, ErrorClass, JsError, Printable,
    ProcShared, Sandbox, Status,
};
use otter_rt::text::decimal_text;

#[test]
fn intersection_holds_what_both_hold() {
    let on = Sandbox::privileged();
    let off = Sandbox::confined();
    assert!(on.can_spawn_and_kill);
    assert!(!off.can_spawn_and_kill);
    assert_eq!(on.intersect(on), on);
    assert_eq!(on.intersect(off), off);
    assert_eq!(off.intersect(on), off);
    assert_eq!(off.intersect(off), off);
}

#[test]
fn narrowing_never_widens() {
    let on = Sandbox::privileged();
    let off = Sandbox::confined();
    assert_eq!(on.narrow(None), on);
    assert_eq!(on.narrow(Some(true)), on);
    assert_eq!(on.narrow(Some(false)), off);
    assert_eq!(off.narrow(None), off);
    assert_eq!(off.narrow(Some(true)), off);
    assert_eq!(on.narrow(Some(false)).narrow(Some(true)).narrow(None), off);
}

#[test]
fn statuses_have_names() {
    let names: Vec<&str> = [
        Status::Running,
        Status::Waiting,
        Status::Yielding,
        Status::Sleeping,
        Status::Done,
        Status::Failed,
        Status::Killed,
    ]
    .into_iter()
    .map(|s| s.as_str())
    .collect();
    assert_eq!(
        names,
        vec!["running", "waiting", "yielding", "sleeping", "done", "failed", "killed"]
    );
    assert!(Status::Done.is_terminal());
    assert!(Status::Failed.is_terminal());
    assert!(Status::Killed.is_terminal());
    assert!(!Status::Running.is_terminal());
    assert!(!Status::Yielding.is_terminal());
}

#[test]
fn a_kill_is_not_overwritten() {
    let mut p = ProcShared::new(3, "p.js", Sandbox::privileged());
    p.set_status_unless_killed(Status::Waiting);
    assert_eq!(p.status, Status::Waiting);
    p.set_status_unless_killed(Status::Killed);
    p.set_status_unless_killed(Status::Running);
    assert_eq!(p.status, Status::Killed);
    assert_eq!(p.pid, 3);
    assert_eq!(p.name, "p.js");
}

#[test]
fn a_mailbox_is_first_in_first_out() {
    let mut p = ProcShared::new(0, "p.js", Sandbox::confined());
    assert_eq!(p.pop_message(), None);
    p.push_message("1".to_string());
    p.push_message("2".to_string());
    assert_eq!(p.pop_message(), Some("1".to_string()));
    p.push_message("3".to_string());
    assert_eq!(p.pop_message(), Some("2".to_string()));
    assert_eq!(p.pop_message(), Some("3".to_string()));
    assert_eq!(p.pop_message(), None);
}

#[test]
fn errors_carry_class_and_message() {
    let e = JsError::type_error("bad");
    assert_eq!(e.class, ErrorClass::TypeError);
    assert_eq!(e.message, "bad");
    let e = JsError::permission("no");
    assert_eq!(e.class, ErrorClass::PermissionError);
    assert_eq!(e.message, "no");
    let e = JsError::new(ErrorClass::TypeError, "x");
    assert_eq!(e.class.as_str(), "TypeError");
}

#[test]
fn error_sources_construct_the_class() {
    assert_eq!(
        error_source("TypeError", Some("\"unknown pid\"".to_string())),
        "new TypeError(\"unknown pid\")"
    );
    assert_eq!(
        error_source("PermissionError", None),
        "new PermissionError(\"error\")"
    );
}

#[test]
fn thrown_values_are_described() {
    assert_eq!(error_report(false, Some("Error: boom".to_string())), "Error: boom");
    assert_eq!(error_report(false, None), "unknown error");
    assert_eq!(error_report(true, None), "unknown error");
    assert_eq!(error_report(true, Some("null".to_string())), "unknown error");
}

#[test]
fn values_are_rendered() {
    assert_eq!(render(&Printable::Undefined), "undefined");
    assert_eq!(render(&Printable::Text("a \"b\"".to_string())), "a \"b\"");
    assert_eq!(render(&Printable::Json(Some("{\"x\":1}".to_string()))), "{\"x\":1}");
    assert_eq!(render(&Printable::Json(None)), "undefined");
}

#[test]
fn console_lines_are_prefixed() {
    assert_eq!(
        console_line(
            0,
            &vec![
                Printable::Text("hello".to_string()),
                Printable::Json(Some("{\"x\":1}".to_string())),
            ]
        ),
        "[pid 0] hello {\"x\":1}"
    );
    assert_eq!(console_line(12, &vec![]), "[pid 12] ");
    assert_eq!(console_line(7, &vec![Printable::Undefined]), "[pid 7] undefined");
    assert_eq!(pid_prefixed(41, "error: ", "boom"), "[pid 41] error: boom");
}

#[test]
fn numerals_are_decimal() {
    assert_eq!(decimal_text(0), "0");
    assert_eq!(decimal_text(9), "9");
    assert_eq!(decimal_text(10), "10");
    assert_eq!(decimal_text(1_000_000), "1000000");
    assert_eq!(decimal_text(u64::MAX), "18446744073709551615");
}
