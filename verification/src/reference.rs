//! References to resources: URLs, assets of the dossier, and elements of its
//! documents.
use vstd::prelude::*;

use crate::loader::group;
use crate::pattern::{captures, regex_captures, regex_compiles};
use crate::resource::{is_file, is_file_path, is_remote, is_valid_remote_resource};
use crate::text::{
    append_str,
    char_is_alphanumeric,
    contains_exec,
    contains_seq,
    is_alphanumeric,
    owned,
    push_char,
    skip_whitespace,
    string_from_range,
    to_chars,
    trim_start,
    is_whitespace,
};

verus! {

/// What separates the document name from the identifier of an internal
/// reference.
pub const VALUE_SEPARATOR: &'static str = "-";

/// What stands for a space in a built reference.
pub const SPACE_REPLACER: char = '-';

/// The pattern of an internal reference: `document#id`.
pub const INTERNAL_REFERENCE_PATTERN: &'static str = "(.*)?#(.*)";

#[derive(Debug)]
pub enum ReferenceError {
    InvalidUrlReference,
    InvalidAssetReference,
    InvalidInternalReference,
}

#[derive(Debug, Clone, Copy, PartialEq, Eq, Structural)]
pub enum ReferenceType {
    Url,
    Asset,
    Internal,
}

/// A reference: an internal one is a document name and the identifier of an
/// element (heading, image, text) in it; an external one (URL or asset) is
/// taken as it is.
#[derive(Debug)]
pub struct Reference {
    pub value: String,
    pub ref_type: ReferenceType,
}

/// A text without its trailing whitespace.
pub open spec fn trim_end(s: Seq<char>) -> Seq<char>
    decreases s.len(),
{
    if s.len() > 0 && is_whitespace(s.last()) {
        trim_end(s.drop_last())
    } else {
        s
    }
}

/// `str::trim`.
pub open spec fn trimmed(s: Seq<char>) -> Seq<char> {
    trim_end(trim_start(s))
}

/// What an internal reference is made of: the document name (written, or
/// the one given when none is written) and the identifier; none when the
/// text is no internal reference or names no document.
pub open spec fn internal_value(raw: Seq<char>, document_name_if_missed: Option<Seq<char>>) -> Option<
    Seq<char>,
> {
    if !regex_compiles(INTERNAL_REFERENCE_PATTERN@) {
        None
    } else {
        match regex_captures(INTERNAL_REFERENCE_PATTERN@, raw) {
            None => None,
            Some(g) => match group(g, 2) {
                None => None,
                Some(value) => {
                    let written = match group(g, 1) {
                        Some(d) => trimmed(d),
                        None => Seq::empty(),
                    };
                    if written.len() > 0 {
                        Some(written + VALUE_SEPARATOR@ + value)
                    } else {
                        match document_name_if_missed {
                            Some(d) => Some(d + VALUE_SEPARATOR@ + value),
                            None => None,
                        }
                    }
                },
            },
        }
    }
}

/// Each character of a built internal reference: letters and digits stay,
/// anything else becomes `-`.
pub open spec fn reference_char(c: char) -> char {
    if is_alphanumeric(c) {
        c
    } else {
        SPACE_REPLACER
    }
}

pub open spec fn reference_str(s: Seq<char>) -> Seq<char> {
    s.map_values(|c: char| reference_char(c))
}

/// The text without its leading and trailing whitespace.
fn trim(s: &str) -> (r: String)
    ensures
        r@ == trimmed(s@),
{
    let v = to_chars(s);
    let start = skip_whitespace(&v, 0);
    proof {
        assert(v@.skip(0) =~= v@);
        assert(v@.skip(start as int) =~= trim_start(s@));
    }
    let mut end = v.len();
    let ghost t = trim_start(s@);
    proof {
        assert(v@.subrange(start as int, end as int) =~= t);
    }
    while end > start && crate::text::char_is_whitespace(v[end - 1])
        invariant
            start <= end <= v@.len(),
            t == trim_start(s@),
            v@ == s@,
            v@.skip(start as int) == t,
            trim_end(t) == trim_end(v@.subrange(start as int, end as int)),
        decreases end - start,
    {
        proof {
            let u = v@.subrange(start as int, end as int);
            assert(u.last() == v@[end - 1]);
            assert(u.drop_last() =~= v@.subrange(start as int, end - 1));
        }
        end = end - 1;
    }
    proof {
        let u = v@.subrange(start as int, end as int);
        if end > start {
            assert(u.last() == v@[end - 1]);
        }
    }
    string_from_range(&v, start, end)
}

impl Reference {
    pub fn new(value: &str, ref_type: ReferenceType) -> (r: Self)
        ensures
            r.value@ == value@,
            r.ref_type == ref_type,
    {
        Self { value: owned(value), ref_type }
    }

    pub fn value(&self) -> (r: &String)
        ensures
            r@ == self.value@,
    {
        &self.value
    }

    pub fn set_value(&mut self, value: String)
        ensures
            final(self).value == value,
            final(self).ref_type == old(self).ref_type,
    {
        self.value = value;
    }

    /// A URL reference; only a remote resource is one.
    pub fn of_url(raw: &str) -> (r: Result<Self, ReferenceError>)
        ensures
            is_remote(raw@) ==> (r matches Ok(x) && x.value@ == raw@ && x.ref_type == ReferenceType::Url),
            !is_remote(raw@) ==> r matches Err(ReferenceError::InvalidUrlReference),
    {
        if !is_valid_remote_resource(raw) {
            return Err(ReferenceError::InvalidUrlReference);
        }
        Ok(Self::new(raw, ReferenceType::Url))
    }

    /// An asset reference; only a file path is one.
    pub fn of_asset(raw: &str) -> (r: Result<Self, ReferenceError>)
        ensures
            is_file(raw@) ==> (r matches Ok(x) && x.value@ == raw@ && x.ref_type == ReferenceType::Asset),
            !is_file(raw@) ==> r matches Err(ReferenceError::InvalidAssetReference),
    {
        if !is_file_path(raw) {
            return Err(ReferenceError::InvalidAssetReference);
        }
        Ok(Self::new(raw, ReferenceType::Asset))
    }

    /// An internal reference from `document#id` (the document may be left
    /// out, and is then the one given).
    pub fn of_internal(raw: &str, document_name_if_missed: Option<&str>) -> (r: Result<
        Self,
        ReferenceError,
    >)
        ensures
            match internal_value(
                raw@,
                match document_name_if_missed {
                    Some(d) => Some(d@),
                    None => None,
                },
            ) {
                Some(v) => r matches Ok(x) && x.value@ == v && x.ref_type == ReferenceType::Internal,
                None => r matches Err(ReferenceError::InvalidInternalReference),
            },
    {
        let caps = match captures(INTERNAL_REFERENCE_PATTERN, raw) {
            Some(Some(c)) => c,
            _ => {
                return Err(ReferenceError::InvalidInternalReference);
            },
        };
        let value = if caps.len() > 2 {
            match &caps[2] {
                Some(v) => v,
                None => {
                    return Err(ReferenceError::InvalidInternalReference);
                },
            }
        } else {
            return Err(ReferenceError::InvalidInternalReference);
        };
        let written = if caps.len() > 1 {
            match &caps[1] {
                Some(d) => trim(d.as_str()),
                None => String::new(),
            }
        } else {
            String::new()
        };
        if !written.as_str().is_empty() {
            let mut r = written;
            append_str(&mut r, VALUE_SEPARATOR);
            append_str(&mut r, value.as_str());
            return Ok(Self { value: r, ref_type: ReferenceType::Internal });
        }
        match document_name_if_missed {
            Some(d) => {
                let mut r = owned(d);
                append_str(&mut r, VALUE_SEPARATOR);
                append_str(&mut r, value.as_str());
                Ok(Self { value: r, ref_type: ReferenceType::Internal })
            },
            None => Err(ReferenceError::InvalidInternalReference),
        }
    }

    /// An internal reference from `id` alone.
    pub fn of_internal_without_sharp(raw: &str, document_name_if_missed: Option<&str>) -> (r: Result<
        Self,
        ReferenceError,
    >)
        ensures
            match internal_value(
                "#"@ + raw@,
                match document_name_if_missed {
                    Some(d) => Some(d@),
                    None => None,
                },
            ) {
                Some(v) => r matches Ok(x) && x.value@ == v && x.ref_type == ReferenceType::Internal,
                None => r matches Err(ReferenceError::InvalidInternalReference),
            },
    {
        let mut raw_with_sharp = owned("#");
        append_str(&mut raw_with_sharp, raw);
        Self::of_internal(raw_with_sharp.as_str(), document_name_if_missed)
    }

    /// A reference of the kind its text shows: a URL, an internal reference
    /// (it holds `#`), or an asset.
    pub fn of(raw: &str, document_name_if_missed: Option<&str>) -> (r: Result<Self, ReferenceError>)
        ensures
            is_remote(raw@) ==> (r matches Ok(x) && x.value@ == raw@ && x.ref_type == ReferenceType::Url),
            !is_remote(raw@) && contains_seq(raw@, "#"@) ==> match internal_value(
                raw@,
                match document_name_if_missed {
                    Some(d) => Some(d@),
                    None => None,
                },
            ) {
                Some(v) => r matches Ok(x) && x.value@ == v && x.ref_type == ReferenceType::Internal,
                None => r matches Err(ReferenceError::InvalidInternalReference),
            },
            !is_remote(raw@) && !contains_seq(raw@, "#"@) && is_file(raw@) ==> (r matches Ok(x)
                && x.value@ == raw@ && x.ref_type == ReferenceType::Asset),
            !is_remote(raw@) && !contains_seq(raw@, "#"@) && !is_file(raw@) ==> r matches Err(
                ReferenceError::InvalidAssetReference,
            ),
    {
        if is_valid_remote_resource(raw) {
            return Self::of_url(raw);
        }
        let v = to_chars(raw);
        let sharp = to_chars("#");
        if contains_exec(&v, &sharp) {
            Self::of_internal(raw, document_name_if_missed)
        } else {
            Self::of_asset(raw)
        }
    }

    fn parse_str(s: &str) -> (r: String)
        ensures
            r@ == reference_str(s@),
    {
        let v = to_chars(s);
        let mut r = String::new();
        let mut i: usize = 0;
        while i < v.len()
            invariant
                i <= v@.len(),
                v@ == s@,
                r@ == reference_str(v@.take(i as int)),
            decreases v@.len() - i,
        {
            let c = v[i];
            if char_is_alphanumeric(c) {
                push_char(&mut r, c);
            } else {
                push_char(&mut r, SPACE_REPLACER);
            }
            proof {
                assert(reference_str(v@.take(i + 1)) =~= reference_str(v@.take(i as int)).push(
                    reference_char(c),
                ));
            }
            i = i + 1;
        }
        proof {
            assert(v@.take(i as int) =~= v@);
        }
        r
    }

    /// The reference as written in the output: URLs and assets as they are,
    /// internal references as `#` and the identifier.
    pub fn build(&self) -> (r: String)
        ensures
            self.ref_type == ReferenceType::Internal ==> r@ == "#"@ + reference_str(self.value@),
            self.ref_type != ReferenceType::Internal ==> r@ == self.value@,
    {
        match self.ref_type {
            ReferenceType::Url | ReferenceType::Asset => self.value.clone(),
            ReferenceType::Internal => {
                let mut r = owned("#");
                let p = Self::parse_str(self.value.as_str());
                append_str(&mut r, p.as_str());
                r
            },
        }
    }

    /// The reference as written in the output, internal references without
    /// `#`.
    pub fn build_without_internal_sharp(&self) -> (r: String)
        ensures
            self.ref_type == ReferenceType::Internal ==> r@ == reference_str(self.value@),
            self.ref_type != ReferenceType::Internal ==> r@ == self.value@,
    {
        match self.ref_type {
            ReferenceType::Url | ReferenceType::Asset => self.value.clone(),
            ReferenceType::Internal => Self::parse_str(self.value.as_str()),
        }
    }
}

} // verus!
