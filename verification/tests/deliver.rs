use prompt_scan::deliver::{delivery_failure, select_sink, severity, walk_failure, Failure, Severity, Sink};

#[test]
fn output_goes_to_the_named_file_and_nowhere_else() {
    assert_eq!(select_sink(Some("out.txt".to_string())), Sink::File("out.txt".to_string()));
}

#[test]
fn output_goes_to_the_clipboard_where_no_file_is_named() {
    assert_eq!(select_sink(None), Sink::Clipboard);
}

#[test]
fn a_failed_delivery_is_named_after_its_sink() {
    assert_eq!(delivery_failure(&Sink::File("out.txt".to_string())), Failure::OutputWrite);
    assert_eq!(delivery_failure(&Sink::Clipboard), Failure::Clipboard);
}

#[test]
fn a_walk_error_at_the_root_fails_the_walk() {
    assert_eq!(walk_failure(Some(0)), Failure::Traversal);
}

#[test]
fn a_walk_error_below_the_root_is_one_entry() {
    assert_eq!(walk_failure(Some(1)), Failure::TraversalEntry);
    assert_eq!(walk_failure(Some(17)), Failure::TraversalEntry);
    assert_eq!(walk_failure(None), Failure::TraversalEntry);
}

#[test]
fn failures_of_root_walk_and_output_file_are_fatal() {
    assert_eq!(severity(Failure::RootPath), Severity::Fatal);
    assert_eq!(severity(Failure::Traversal), Severity::Fatal);
    assert_eq!(severity(Failure::OutputWrite), Severity::Fatal);
}

#[test]
fn failures_of_one_entry_one_file_or_the_clipboard_are_reported() {
    assert_eq!(severity(Failure::TraversalEntry), Severity::Reported);
    assert_eq!(severity(Failure::FileRead), Severity::Reported);
    assert_eq!(severity(Failure::Clipboard), Severity::Reported);
}

#[test]
fn a_failed_file_write_ends_the_run_and_a_failed_clipboard_does_not() {
    assert_eq!(severity(delivery_failure(&select_sink(Some("out.txt".to_string())))), Severity::Fatal);
    assert_eq!(severity(delivery_failure(&select_sink(None))), Severity::Reported);
}
