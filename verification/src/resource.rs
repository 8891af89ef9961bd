//! Errors about the resources a compilation reads.
use vstd::prelude::*;

use crate::text::{starts_with, starts_with_exec, to_chars};

verus! {

/// Why a resource could not be used.
#[derive(Debug)]
pub enum ResourceError {
    /// The named resource was not found.
    ResourceNotFound(String),
    /// The resource is invalid, for the reason given.
    InvalidResourceVerbose(String),
}

/// Whether a reference names a remote resource: an `http` or `https` URL.
pub open spec fn is_remote(s: Seq<char>) -> bool {
    starts_with(s, "http://"@) || starts_with(s, "https://"@)
}

/// Whether a text is a reference to a remote resource.
pub fn is_valid_remote_resource(s: &str) -> (r: bool)
    ensures
        r == is_remote(s@),
{
    let v = to_chars(s);
    let http = to_chars("http://");
    let https = to_chars("https://");
    starts_with_exec(&v, &http) || starts_with_exec(&v, &https)
}

/// Whether a text can be the path of a file: it is not empty.
pub open spec fn is_file(s: Seq<char>) -> bool {
    s.len() > 0
}

/// Whether a text can be the path of a file.
pub fn is_file_path(s: &str) -> (r: bool)
    ensures
        r == is_file(s@),
{
    !s.is_empty()
}

} // verus!
