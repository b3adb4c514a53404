use term_test::lifecycle::{
    check_can_spawn, check_can_wait, check_dimensions, counts_as_running, ChildProbe,
};
use term_test::text::{row_label, write_decimal};
use term_test::TermTestError;

#[test]
fn a_terminal_needs_a_row_and_a_column() {
    assert!(check_dimensions(80, 24).is_ok());
    assert!(check_dimensions(1, 1).is_ok());
    assert!(matches!(
        check_dimensions(0, 24),
        Err(TermTestError::InvalidDimensions { width: 0, height: 24 })
    ));
    assert!(matches!(
        check_dimensions(80, 0),
        Err(TermTestError::InvalidDimensions { width: 80, height: 0 })
    ));
    assert!(matches!(
        check_dimensions(0, 0),
        Err(TermTestError::InvalidDimensions { width: 0, height: 0 })
    ));
}

#[test]
fn only_one_process_at_a_time() {
    assert!(check_can_spawn(false).is_ok());
    assert!(matches!(check_can_spawn(true), Err(TermTestError::ProcessAlreadyRunning)));
}

#[test]
fn waiting_needs_a_process() {
    assert!(check_can_wait(true).is_ok());
    assert!(matches!(check_can_wait(false), Err(TermTestError::NoProcessRunning)));
}

#[test]
fn a_process_runs_until_it_is_known_to_have_exited() {
    assert!(!counts_as_running(ChildProbe::NoChild));
    assert!(counts_as_running(ChildProbe::StillRunning));
    assert!(!counts_as_running(ChildProbe::Exited));
    assert!(counts_as_running(ChildProbe::ProbeFailed));
}

#[test]
fn row_labels_are_right_aligned_in_three_columns() {
    assert_eq!(row_label(0), "  0");
    assert_eq!(row_label(7), "  7");
    assert_eq!(row_label(10), " 10");
    assert_eq!(row_label(99), " 99");
    assert_eq!(row_label(100), "100");
    assert_eq!(row_label(1000), "1000");
    assert_eq!(row_label(65535), "65535");
}

#[test]
fn write_decimal_appends_the_digits() {
    let mut out = String::from("n=");
    write_decimal(&mut out, 0);
    write_decimal(&mut out, 40302);
    assert_eq!(out, "n=040302");
}
