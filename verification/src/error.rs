//! The failures that the library reports.

use crate::text::{decimal, push_decimal};
use vstd::prelude::*;
use vstd::string::*;

verus! {

/// Why an operation failed.
#[derive(Debug, Clone, PartialEq, Eq)]
pub enum AppError {
    /// No `asdf` executable could be resolved.
    AsdfNotFound(String),
    /// `asdf` ran and reported failure.
    AsdfError { exit_code: i32, stderr: String },
    /// The operating system could not run the process.
    ProcessError(String),
    /// A request was not well formed.
    ParseError(String),
    /// The configuration could not be read or written.
    ConfigError(String),
    /// A file operation failed.
    Io(String),
}

/// What an [`AppError`] holds.
pub enum AppErrorView {
    AsdfNotFound(Seq<char>),
    AsdfError { exit_code: int, stderr: Seq<char> },
    ProcessError(Seq<char>),
    ParseError(Seq<char>),
    ConfigError(Seq<char>),
    Io(Seq<char>),
}

impl DeepView for AppError {
    type V = AppErrorView;

    open spec fn deep_view(&self) -> AppErrorView {
        match self {
            AppError::AsdfNotFound(m) => AppErrorView::AsdfNotFound(m@),
            AppError::AsdfError { exit_code, stderr } => AppErrorView::AsdfError {
                exit_code: *exit_code as int,
                stderr: stderr@,
            },
            AppError::ProcessError(m) => AppErrorView::ProcessError(m@),
            AppError::ParseError(m) => AppErrorView::ParseError(m@),
            AppError::ConfigError(m) => AppErrorView::ConfigError(m@),
            AppError::Io(m) => AppErrorView::Io(m@),
        }
    }
}

/// The message that describes a failure to a person.
pub open spec fn message_of(e: AppErrorView) -> Seq<char> {
    match e {
        AppErrorView::AsdfNotFound(m) => "asdf binary not found: "@ + m,
        AppErrorView::AsdfError { exit_code, stderr } => "asdf command failed (exit "@ + decimal(
            exit_code,
        ) + "): "@ + stderr,
        AppErrorView::ProcessError(m) => "process error: "@ + m,
        AppErrorView::ParseError(m) => "parse error: "@ + m,
        AppErrorView::ConfigError(m) => "config error: "@ + m,
        AppErrorView::Io(m) => m,
    }
}

impl AppError {
    /// The message that describes this failure to a person.
    pub fn message(&self) -> (r: String)
        ensures
            r@ == message_of(self.deep_view()),
    {
        match self {
            AppError::AsdfNotFound(m) => {
                let mut out = "asdf binary not found: ".to_owned();
                out.append(m.as_str());
                out
            },
            AppError::AsdfError { exit_code, stderr } => {
                let mut out = "asdf command failed (exit ".to_owned();
                push_decimal(&mut out, *exit_code);
                out.append("): ");
                out.append(stderr.as_str());
                out
            },
            AppError::ProcessError(m) => {
                let mut out = "process error: ".to_owned();
                out.append(m.as_str());
                out
            },
            AppError::ParseError(m) => {
                let mut out = "parse error: ".to_owned();
                out.append(m.as_str());
                out
            },
            AppError::ConfigError(m) => {
                let mut out = "config error: ".to_owned();
                out.append(m.as_str());
                out
            },
            AppError::Io(m) => m.clone(),
        }
    }
}

} // verus!
