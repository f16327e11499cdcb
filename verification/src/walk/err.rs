//! What can go wrong while a traversal is set up or run.

use vstd::prelude::*;

verus! {

/// `glob::PatternError`: where and why a pattern failed to compile. Its
/// contents stay opaque here; the value is only carried to the caller.
#[verifier::external_type_specification]
#[verifier::external_body]
pub struct ExPatternError(glob::PatternError);

#[derive(Debug)]
pub enum Error {
    /// A local I/O operation failed.
    IoError(std::io::Error),
    /// An OS-native path has no UTF-8 form; the text is its lossy rendering.
    PathConversionError(String),
    /// The glob pattern did not compile.
    PatternError(glob::PatternError),
    /// A walk was built without a path.
    NoPathDefined,
    /// The path given to the walker has no UTF-8 form.
    PathFormatError,
}

impl From<std::io::Error> for Error {
    fn from(err: std::io::Error) -> (e: Error) {
        Error::IoError(err)
    }
}

impl vstd::std_specs::convert::FromSpecImpl<std::io::Error> for Error {
    open spec fn obeys_from_spec() -> bool {
        true
    }

    open spec fn from_spec(err: std::io::Error) -> Error {
        Error::IoError(err)
    }
}

impl From<glob::PatternError> for Error {
    fn from(err: glob::PatternError) -> (e: Error) {
        Error::PatternError(err)
    }
}

impl vstd::std_specs::convert::FromSpecImpl<glob::PatternError> for Error {
    open spec fn obeys_from_spec() -> bool {
        true
    }

    open spec fn from_spec(err: glob::PatternError) -> Error {
        Error::PatternError(err)
    }
}

impl Error {
    /// A one-line description of the error.
    pub fn message(&self) -> (s: String)
        ensures
            self is NoPathDefined ==> s@ == "no path defined"@,
            self is PathFormatError ==> s@ == "path is not valid UTF-8"@,
            self matches Error::PathConversionError(p) ==> s@ == "path cannot be converted: "@
                + p@,
    {
        match self {
            Error::IoError(e) => crate::io::describe(e),
            Error::PathConversionError(p) => {
                let mut s = "path cannot be converted: ".to_owned();
                s.append(p.as_str());
                s
            },
            Error::PatternError(e) => describe_pattern_error(e),
            Error::NoPathDefined => "no path defined".to_owned(),
            Error::PathFormatError => "path is not valid UTF-8".to_owned(),
        }
    }
}

/// `<glob::PatternError as Display>::fmt`, through `format!`: the text that
/// the error prints as. Nothing is claimed of the text.
#[verifier::external_body]
fn describe_pattern_error(e: &glob::PatternError) -> String {
    format!("{}", e)
}

} // verus!
