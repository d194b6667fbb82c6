//! The options of the command line and the layout of its report.
use vstd::prelude::*;

use crate::counter::{CountSummary, FileCount};

verus! {

/// The options that the command line was given.
#[derive(Debug, Clone)]
pub struct Args {
    /// Path to the Git repository.
    pub path: String,
    /// Show each file with its line count (the default).
    pub verbose: bool,
    /// Only show the total line count.
    pub quiet: bool,
    /// Show total lines and file count.
    pub summary: bool,
}

/// Output mode for the line count results.
#[derive(Debug, Clone, Copy, PartialEq, Eq, Structural)]
pub enum OutputMode {
    /// Show each file with its line count.
    Verbose,
    /// Only show the total line count.
    Quiet,
    /// Show total lines and file count.
    Summary,
}

impl Args {
    /// Determines the output mode: quiet wins over summary, and verbose is
    /// the default.
    pub fn output_mode(&self) -> (r: OutputMode)
        ensures
            r == (if self.quiet {
                OutputMode::Quiet
            } else if self.summary {
                OutputMode::Summary
            } else {
                OutputMode::Verbose
            }),
    {
        if self.quiet {
            OutputMode::Quiet
        } else if self.summary {
            OutputMode::Summary
        } else {
            OutputMode::Verbose
        }
    }
}

/// The number of decimal digits of `n`.
pub open spec fn decimal_digits(n: nat) -> nat
    decreases n,
{
    if n < 10 {
        1
    } else {
        1 + decimal_digits(n / 10)
    }
}

proof fn lemma_decimal_digits_bounded(n: nat)
    requires
        n >= 1,
    ensures
        decimal_digits(n) <= n,
    decreases n,
{
    if n >= 10 {
        lemma_decimal_digits_bounded(n / 10);
    }
}

/// The number of decimal digits of `n`.
pub fn digit_count(n: usize) -> (r: usize)
    ensures
        r == decimal_digits(n as nat),
{
    let mut m: usize = n;
    let mut d: usize = 1;
    while m >= 10
        invariant
            d >= 1,
            d + decimal_digits(m as nat) == decimal_digits(n as nat) + 1,
            m <= n,
        decreases m,
    {
        proof {
            lemma_decimal_digits_bounded(n as nat);
            assert(decimal_digits((m / 10) as nat) >= 1);
            assert(decimal_digits(m as nat) >= 2);
        }
        m = m / 10;
        d = d + 1;
    }
    d
}

/// The largest line count among `files`, or 0 where there are none.
pub open spec fn max_lines(files: Seq<FileCount>) -> nat
    decreases files.len(),
{
    if files.len() == 0 {
        0
    } else {
        let m = max_lines(files.drop_last());
        if files.last().lines > m {
            files.last().lines as nat
        } else {
            m
        }
    }
}

/// The width of the count column in the per-file report: wide enough for
/// every count and the total, and at least four characters.
pub open spec fn column_width_of(files: Seq<FileCount>, total: nat) -> nat {
    let widest = if max_lines(files) > total {
        max_lines(files)
    } else {
        total
    };
    if decimal_digits(widest) > 4 {
        decimal_digits(widest)
    } else {
        4
    }
}

/// The width of the count column in the per-file report.
pub fn column_width(summary: &CountSummary) -> (r: usize)
    ensures
        r == column_width_of(summary.files@, summary.total_lines as nat),
{
    let mut widest: usize = 0;
    let mut i: usize = 0;
    while i < summary.files.len()
        invariant
            i <= summary.files@.len(),
            widest == max_lines(summary.files@.take(i as int)),
        decreases summary.files@.len() - i,
    {
        assert(summary.files@.take(i + 1).drop_last() =~= summary.files@.take(i as int));
        if summary.files[i].lines > widest {
            widest = summary.files[i].lines;
        }
        i = i + 1;
    }
    assert(summary.files@.take(i as int) =~= summary.files@);
    if summary.total_lines > widest {
        widest = summary.total_lines;
    }
    let d = digit_count(widest);
    if d > 4 {
        d
    } else {
        4
    }
}

} // verus!
