//! The error type of the library.
use vstd::prelude::*;

verus! {

#[verifier::external_type_specification]
#[verifier::external_body]
pub struct ExIoError(std::io::Error);

#[verifier::external_type_specification]
#[verifier::external_body]
pub struct ExFromUtf8Error(std::string::FromUtf8Error);

/// The main error type for gitlsf operations.
#[derive(Debug)]
pub enum GitlsError {
    /// Error executing a Git command.
    Git {
        /// Description of what went wrong.
        message: String,
        /// The underlying IO error, if any.
        source: Option<std::io::Error>,
    },
    /// Error reading a file.
    Io {
        /// The path to the file that couldn't be read.
        path: String,
        /// The underlying IO error.
        source: std::io::Error,
    },
    /// Error decoding UTF-8 content.
    Utf8 {
        /// Context describing where the UTF-8 error occurred.
        context: String,
        /// The underlying UTF-8 error.
        source: std::string::FromUtf8Error,
    },
    /// Not a Git repository.
    NotAGitRepository,
}

/// Relies on the `Display` impl of std::io::Error, whose text comes from the
/// operating system; nothing is assumed of it.
#[verifier::external_body]
fn io_error_text(e: &std::io::Error) -> String {
    e.to_string()
}

/// Relies on the `Display` impl of std::string::FromUtf8Error; nothing is
/// assumed of its text.
#[verifier::external_body]
fn utf8_error_text(e: &std::string::FromUtf8Error) -> String {
    e.to_string()
}

impl GitlsError {
    /// Creates a new Git error with a message.
    pub fn git(message: &str) -> (r: Self)
        ensures
            match r {
                GitlsError::Git { message: m, source } => m@ == message@ && source is None,
                _ => false,
            },
    {
        GitlsError::Git { message: message.to_owned(), source: None }
    }

    /// Creates a new Git error with a message and source error.
    pub fn git_with_source(message: &str, source: std::io::Error) -> (r: Self)
        ensures
            match r {
                GitlsError::Git { message: m, source: s } => m@ == message@ && s == Some(source),
                _ => false,
            },
    {
        GitlsError::Git { message: message.to_owned(), source: Some(source) }
    }

    /// Creates a new IO error.
    pub fn io(path: &str, source: std::io::Error) -> (r: Self)
        ensures
            match r {
                GitlsError::Io { path: p, source: s } => p@ == path@ && s == source,
                _ => false,
            },
    {
        GitlsError::Io { path: path.to_owned(), source }
    }

    /// Creates a new UTF-8 error.
    pub fn utf8(context: &str, source: std::string::FromUtf8Error) -> (r: Self)
        ensures
            match r {
                GitlsError::Utf8 { context: c, source: s } => c@ == context@ && s == source,
                _ => false,
            },
    {
        GitlsError::Utf8 { context: context.to_owned(), source }
    }

    /// The message that describes this error.
    pub fn to_message(&self) -> (r: String)
        ensures
            match self {
                GitlsError::Git { message, .. } => r@ == "Git command failed: "@ + message@,
                GitlsError::Io { path, .. } => exists|t: Seq<char>|
                    r@ == "Failed to read file '"@ + path@ + "': "@ + t,
                GitlsError::Utf8 { context, .. } => exists|t: Seq<char>|
                    r@ == "Invalid UTF-8 in '"@ + context@ + "': "@ + t,
                GitlsError::NotAGitRepository => r@
                    == "Not a Git repository (or any parent up to mount point)"@,
            },
    {
        match self {
            GitlsError::Git { message, .. } => {
                let mut r = String::from_str("Git command failed: ");
                r.append(message.as_str());
                r
            },
            GitlsError::Io { path, source } => {
                let t = io_error_text(source);
                let mut r = String::from_str("Failed to read file '");
                r.append(path.as_str());
                r.append("': ");
                r.append(t.as_str());
                assert(r@ == "Failed to read file '"@ + path@ + "': "@ + t@);
                r
            },
            GitlsError::Utf8 { context, source } => {
                let t = utf8_error_text(source);
                let mut r = String::from_str("Invalid UTF-8 in '");
                r.append(context.as_str());
                r.append("': ");
                r.append(t.as_str());
                assert(r@ == "Invalid UTF-8 in '"@ + context@ + "': "@ + t@);
                r
            },
            GitlsError::NotAGitRepository => String::from_str(
                "Not a Git repository (or any parent up to mount point)",
            ),
        }
    }
}

} // verus!
