//! Errors raised while translating paths across the WSL/Windows boundary.
use vstd::prelude::*;
use crate::path_uri::PathConvention;

verus! {

/// Why a path could not be translated.
#[derive(Debug, Clone, PartialEq, Eq)]
pub enum WslPathError {
    /// The text is not a `file://` URI this library can read.
    InvalidUri { uri: String },
    /// The path is not absolute in the convention that was asked for.
    NotAbsolute { path: String, convention: PathConvention },
    /// A Posix path was asked of a URI that names a Windows location.
    NotPosixUri,
    /// A path segment that cannot be appended to a URI.
    InvalidSegment { segment: String },
    /// The path translator itself reported a failure; its message is kept verbatim.
    Translation { message: String },
    /// A sandbox glob whose wildcard part cannot be carried over to Windows.
    AmbiguousGlob { pattern: String },
    /// The path translator wrote something that is not UTF-8.
    NonUtf8Output,
}

/// The human-readable text of an error.
pub open spec fn error_text(e: WslPathError) -> Seq<char> {
    match e {
        WslPathError::InvalidUri { uri } => "invalid file URI: "@ + uri@,
        WslPathError::NotAbsolute { path, convention } => match convention {
            PathConvention::Posix => "not an absolute Posix path: "@ + path@,
            PathConvention::Windows => "not an absolute Windows path: "@ + path@,
        },
        WslPathError::NotPosixUri => "the URI does not name a Posix path"@,
        WslPathError::InvalidSegment { segment } => "invalid path segment: "@ + segment@,
        WslPathError::Translation { message } => message@,
        WslPathError::AmbiguousGlob { pattern } => "cannot safely translate Windows sandbox glob "@
            + pattern@,
        WslPathError::NonUtf8Output => "WSL returned a non-UTF-8 path"@,
    }
}

impl WslPathError {
    /// The human-readable text of the error.
    pub fn message(&self) -> (r: String)
        ensures
            r@ == error_text(*self),
    {
        match self {
            WslPathError::InvalidUri { uri } => {
                let mut m = String::from_str("invalid file URI: ");
                m.append(uri.as_str());
                m
            },
            WslPathError::NotAbsolute { path, convention } => {
                let mut m = match convention {
                    PathConvention::Posix => String::from_str("not an absolute Posix path: "),
                    PathConvention::Windows => String::from_str("not an absolute Windows path: "),
                };
                m.append(path.as_str());
                m
            },
            WslPathError::NotPosixUri => String::from_str("the URI does not name a Posix path"),
            WslPathError::InvalidSegment { segment } => {
                let mut m = String::from_str("invalid path segment: ");
                m.append(segment.as_str());
                m
            },
            WslPathError::Translation { message } => message.clone(),
            WslPathError::AmbiguousGlob { pattern } => {
                let mut m = String::from_str("cannot safely translate Windows sandbox glob ");
                m.append(pattern.as_str());
                m
            },
            WslPathError::NonUtf8Output => String::from_str("WSL returned a non-UTF-8 path"),
        }
    }
}

} // verus!
