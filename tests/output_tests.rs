use gitlsf::counter::{CountSummary, FileCount};
use gitlsf::output::{column_width, digit_count, Args, OutputMode};

#[test]
fn test_output_mode_default_is_verbose() {
    let args = Args {
        path: ".".to_string(),
        verbose: false,
        quiet: false,
        summary: false,
    };
    assert_eq!(args.output_mode(), OutputMode::Verbose);
}

#[test]
fn test_output_mode_verbose() {
    let args = Args {
        path: ".".to_string(),
        verbose: true,
        quiet: false,
        summary: false,
    };
    assert_eq!(args.output_mode(), OutputMode::Verbose);
}

#[test]
fn test_output_mode_quiet() {
    let args = Args {
        path: ".".to_string(),
        verbose: false,
        quiet: true,
        summary: false,
    };
    assert_eq!(args.output_mode(), OutputMode::Quiet);
}

#[test]
fn test_output_mode_summary() {
    let args = Args {
        path: ".".to_string(),
        verbose: false,
        quiet: false,
        summary: true,
    };
    assert_eq!(args.output_mode(), OutputMode::Summary);
}

#[test]
fn digit_counts() {
    assert_eq!(digit_count(0), 1);
    assert_eq!(digit_count(9), 1);
    assert_eq!(digit_count(10), 2);
    assert_eq!(digit_count(12345), 5);
    assert_eq!(digit_count(usize::MAX), usize::MAX.to_string().len());
}

#[test]
fn column_width_is_at_least_four() {
    let small = CountSummary::from_counts(vec![FileCount::new("a.rs", 3)]);
    assert_eq!(column_width(&small), 4);
    let big = CountSummary::from_counts(vec![
        FileCount::new("a.rs", 99_999),
        FileCount::new("b.rs", 1),
    ]);
    assert_eq!(column_width(&big), 6);
}
