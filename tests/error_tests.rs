use gitlsf::error::GitlsError;

#[test]
fn test_git_error_display() {
    let err = GitlsError::git("test error");
    assert_eq!(err.to_message(), "Git command failed: test error");
}

#[test]
fn test_not_a_git_repository_display() {
    let err = GitlsError::NotAGitRepository;
    assert_eq!(
        err.to_message(),
        "Not a Git repository (or any parent up to mount point)"
    );
}

#[test]
fn test_io_error_display() {
    let io_err = std::io::Error::new(std::io::ErrorKind::NotFound, "file not found");
    let err = GitlsError::io("/some/path", io_err);
    assert!(err.to_message().contains("/some/path"));
}

#[test]
fn test_utf8_error_display() {
    let invalid_utf8 = vec![0xff, 0xfe];
    let utf8_err = String::from_utf8(invalid_utf8).unwrap_err();
    let err = GitlsError::utf8("git output", utf8_err);
    assert!(err.to_message().contains("git output"));
}

#[test]
fn io_error_message_quotes_path_and_cause() {
    let io_err = std::io::Error::new(std::io::ErrorKind::NotFound, "file not found");
    let err = GitlsError::io("/some/path", io_err);
    assert_eq!(err.to_message(), "Failed to read file '/some/path': file not found");
}

#[test]
fn git_with_source_keeps_message_and_source() {
    let io_err = std::io::Error::new(std::io::ErrorKind::Other, "boom");
    let err = GitlsError::git_with_source("Failed to execute git ls-files", io_err);
    match &err {
        GitlsError::Git { message, source } => {
            assert_eq!(message, "Failed to execute git ls-files");
            assert!(source.is_some());
        }
        _ => panic!("expected a Git error"),
    }
    assert_eq!(err.to_message(), "Git command failed: Failed to execute git ls-files");
}
