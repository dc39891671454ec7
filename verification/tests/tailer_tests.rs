use mtga_stats::tailer::{initial_position, log_was_reset, tail_line, StartPosition, TailLine};

#[test]
fn reading_starts_at_beginning_or_end() {
    assert_eq!(initial_position(&StartPosition::Beginning, 5000), 0);
    assert_eq!(initial_position(&StartPosition::End, 5000), 5000);
}

#[test]
fn shrinking_log_means_reset() {
    assert!(log_was_reset(10, 200));
    assert!(!log_was_reset(200, 200));
    assert!(!log_was_reset(300, 200));
}

#[test]
fn lines_are_classified() {
    assert!(matches!(tail_line("partial"), TailLine::Partial));
    assert!(matches!(tail_line(""), TailLine::Partial));
    assert!(matches!(tail_line("  \r\n"), TailLine::Blank));
    match tail_line("[UnityCrossThreadLogger]hello \r\n") {
        TailLine::Line(s) => assert_eq!(s, "[UnityCrossThreadLogger]hello"),
        other => panic!("unexpected {:?}", other),
    }
}

#[test]
fn tailing_starts_at_the_end_when_mtga_runs() {
    assert_eq!(mtga_stats::tailer::start_position(true), StartPosition::End);
    assert_eq!(mtga_stats::tailer::start_position(false), StartPosition::Beginning);
}
