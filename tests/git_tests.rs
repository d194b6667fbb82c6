use gitlsf::error::GitlsError;
use gitlsf::git::{ls_files_failure, tracked_paths};

#[test]
fn tracked_paths_one_per_line() {
    let paths = tracked_paths("file1.rs\nfile2.txt\n");
    assert_eq!(paths, vec!["file1.rs".to_string(), "file2.txt".to_string()]);
}

#[test]
fn tracked_paths_skip_empty_lines_and_strip_cr() {
    let paths = tracked_paths("a.rs\r\n\n\nsrc/b.rs\nlast");
    assert_eq!(
        paths,
        vec!["a.rs".to_string(), "src/b.rs".to_string(), "last".to_string()]
    );
    assert!(tracked_paths("").is_empty());
    assert!(tracked_paths("\n\n").is_empty());
}

#[test]
fn failure_outside_a_repository() {
    let err = ls_files_failure("fatal: not a git repository (or any of the parent directories): .git\n");
    assert!(matches!(err, GitlsError::NotAGitRepository));
}

#[test]
fn other_failure_quotes_trimmed_output() {
    let err = ls_files_failure("  fatal: something else  \n");
    match &err {
        GitlsError::Git { message, source } => {
            assert_eq!(message, "git ls-files failed: fatal: something else");
            assert!(source.is_none());
        }
        _ => panic!("expected a Git error"),
    }
}
