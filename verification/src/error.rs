//! What can stop a run, and how it is reported.

use vstd::prelude::*;
use vstd::string::*;

verus! {

/// The reason for which a run fails.
#[derive(Debug, Clone, PartialEq, Eq)]
pub enum SiteError {
    /// The name of a directory entry is not valid UTF-8.
    InvalidName { path: String },
    /// A text file holds bytes that are not valid UTF-8.
    InvalidEncoding { file: String },
    /// Reading, writing, creating or listing failed at `path`.
    IoFailure { operation: String, path: String, reason: String },
    /// A markdown file could not be converted.
    RenderFailure { file: String },
}

/// A `SiteError` with the texts of its strings.
pub enum Failure {
    InvalidName { path: Seq<char> },
    InvalidEncoding { file: Seq<char> },
    IoFailure { operation: Seq<char>, path: Seq<char>, reason: Seq<char> },
    RenderFailure { file: Seq<char> },
}

impl View for SiteError {
    type V = Failure;

    open spec fn view(&self) -> Failure {
        match self {
            SiteError::InvalidName { path } => Failure::InvalidName { path: path@ },
            SiteError::InvalidEncoding { file } => Failure::InvalidEncoding { file: file@ },
            SiteError::IoFailure { operation, path, reason } => Failure::IoFailure {
                operation: operation@,
                path: path@,
                reason: reason@,
            },
            SiteError::RenderFailure { file } => Failure::RenderFailure { file: file@ },
        }
    }
}

impl Failure {
    /// The sentence that reports the failure: it names what was attempted and
    /// the path or file at which it failed.
    pub open spec fn message(self) -> Seq<char> {
        match self {
            Failure::InvalidName { path } => "expected file '"@ + path
                + "' to have valid utf-8 filename"@,
            Failure::InvalidEncoding { file } => "file '"@ + file + "' contains invalid utf-8"@,
            Failure::IoFailure { operation, path, reason } => "unable to "@ + operation + " '"@
                + path + "': "@ + reason,
            Failure::RenderFailure { file } => "file '"@ + file + "' could not be rendered"@,
        }
    }
}

impl SiteError {
    /// The sentence that reports this failure.
    pub fn message(&self) -> (text: String)
        ensures
            text@ == self@.message(),
    {
        match self {
            SiteError::InvalidName { path } => {
                let mut text = "expected file '".to_owned();
                text.append(path.as_str());
                text.append("' to have valid utf-8 filename");
                text
            },
            SiteError::InvalidEncoding { file } => {
                let mut text = "file '".to_owned();
                text.append(file.as_str());
                text.append("' contains invalid utf-8");
                text
            },
            SiteError::IoFailure { operation, path, reason } => {
                let mut text = "unable to ".to_owned();
                text.append(operation.as_str());
                text.append(" '");
                text.append(path.as_str());
                text.append("': ");
                text.append(reason.as_str());
                text
            },
            SiteError::RenderFailure { file } => {
                let mut text = "file '".to_owned();
                text.append(file.as_str());
                text.append("' could not be rendered");
                text
            },
        }
    }
}

} // verus!
