//! The formats a dossier can be compiled to.
use vstd::prelude::*;

use crate::text::{lowercased, owned, to_lowercase};

verus! {

#[derive(Debug)]
pub enum OutputFormatError {
    /// The named format is not supported.
    Unsupported(String),
}

/// The supported formats.
#[derive(Debug, Clone, Copy, PartialEq, Eq, Structural)]
pub enum OutputFormat {
    Html,
}

impl Default for OutputFormat {
    fn default() -> (r: Self)
        ensures
            r == OutputFormat::Html,
    {
        OutputFormat::Html
    }
}

impl OutputFormat {
    /// The file extension of the format.
    pub fn get_extension(&self) -> (r: String)
        ensures
            r@ == "html"@,
    {
        match self {
            OutputFormat::Html => owned("html"),
        }
    }

    /// The format named by `format`, compared in lower case; any other name
    /// is unsupported.
    pub fn from_str(format: &str) -> (r: Result<Self, OutputFormatError>)
        ensures
            lowercased(format@) == "html"@ ==> r matches Ok(OutputFormat::Html),
            lowercased(format@) != "html"@ ==> (r matches Err(OutputFormatError::Unsupported(s))
                && s@ == format@),
    {
        let lower = to_lowercase(format);
        let html = owned("html");
        if lower.eq(&html) {
            Ok(OutputFormat::Html)
        } else {
            Err(OutputFormatError::Unsupported(owned(format)))
        }
    }
}

} // verus!
