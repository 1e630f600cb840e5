//! The error type of running a Java snippet.
use vstd::prelude::*;
use crate::std_text::utf8_error_text;

verus! {

/// All errors that running a snippet can give at program runtime (and that
/// compile-time evaluation turns into diagnostics).
#[derive(Debug, PartialEq, Eq, Clone)]
pub enum JavaError {
    /// An I/O error while creating the cache directory, writing the source
    /// file, or spawning `javac`/`java` (e.g. the binary is not on `PATH`).
    Io(String),
    /// `javac` exited with a non-zero status; the field holds its stderr.
    CompilationFailed(String),
    /// The JVM exited with a non-zero status (e.g. an unhandled exception);
    /// the field holds its stderr.
    RuntimeFailed(String),
    /// A `String` produced by Java is not valid UTF-8.
    InvalidUtf8(std::string::FromUtf8Error),
    /// A Java `char` is not a Unicode scalar value (a lone surrogate half).
    InvalidChar,
}

/// Whether `m` is the text of error `e`: a fixed prefix per kind followed by
/// the detail it carries (for invalid UTF-8, the text of the UTF-8 error,
/// which is not stated).
pub open spec fn is_message_of(e: JavaError, m: Seq<char>) -> bool {
    match e {
        JavaError::Io(d) => m == "inline_java: I/O error: "@ + d@,
        JavaError::CompilationFailed(d) => m == "inline_java: javac compilation failed:\n"@ + d@,
        JavaError::RuntimeFailed(d) => m == "inline_java: java runtime failed:\n"@ + d@,
        JavaError::InvalidUtf8(_) => exists|d: Seq<char>|
            m == "inline_java: Java String output is not valid UTF-8: "@ + d,
        JavaError::InvalidChar => m == "inline_java: Java char is not a valid Unicode scalar value"@,
    }
}

impl JavaError {
    /// The error's text, as the error type displays it.
    pub fn message(&self) -> (r: String)
        ensures
            is_message_of(*self, r@),
    {
        match self {
            JavaError::Io(d) => {
                let mut s = "inline_java: I/O error: ".to_owned();
                s.append(d.as_str());
                s
            },
            JavaError::CompilationFailed(d) => {
                let mut s = "inline_java: javac compilation failed:\n".to_owned();
                s.append(d.as_str());
                s
            },
            JavaError::RuntimeFailed(d) => {
                let mut s = "inline_java: java runtime failed:\n".to_owned();
                s.append(d.as_str());
                s
            },
            JavaError::InvalidUtf8(e) => {
                let d = utf8_error_text(e);
                let mut s = "inline_java: Java String output is not valid UTF-8: ".to_owned();
                s.append(d.as_str());
                s
            },
            JavaError::InvalidChar => "inline_java: Java char is not a valid Unicode scalar value".to_owned(),
        }
    }
}

} // verus!
