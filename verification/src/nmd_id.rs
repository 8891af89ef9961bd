//! Identifiers of NMD elements, as they appear in the output.
use vstd::prelude::*;

use crate::text::{append_str, char_is_alphanumeric, is_alphanumeric, owned, push_char, to_chars};

verus! {

/// What separates the prefix of an identifier from its value.
pub const PREFIX_VALUE_SEPARATOR: &'static str = "-";

/// What stands for a space in an identifier.
pub const SPACE_REPLACER: char = '-';

/// A character that an identifier keeps.
pub open spec fn id_char(c: char) -> bool {
    is_alphanumeric(c) || c == '_' || c == '-' || c == ' '
}

/// The identifier made of a text: the letters, digits, `_`, `-` and spaces
/// it holds, in order, each space made a `-`.
pub open spec fn id_of(s: Seq<char>) -> Seq<char>
    decreases s.len(),
{
    if s.len() == 0 {
        Seq::empty()
    } else {
        let r = id_of(s.drop_last());
        let c = s.last();
        if id_char(c) {
            r.push(
                if c == ' ' {
                    SPACE_REPLACER
                } else {
                    c
                },
            )
        } else {
            r
        }
    }
}

/// Law: identifiers hold only letters, digits, `_` and `-`, and making an
/// identifier of an identifier changes nothing.
pub proof fn law_identifier_is_stable(s: Seq<char>)
    ensures
        forall|i: int|
            0 <= i < id_of(s).len() ==> id_char(#[trigger] id_of(s)[i]) && id_of(s)[i] != ' ',
        id_of(id_of(s)) == id_of(s),
    decreases s.len(),
{
    if s.len() > 0 {
        let init = s.drop_last();
        law_identifier_is_stable(init);
        let r = id_of(init);
        let c = s.last();
        if id_char(c) {
            let d = if c == ' ' {
                SPACE_REPLACER
            } else {
                c
            };
            let t = r.push(d);
            assert(t.drop_last() =~= r);
            assert(t.last() == d);
            assert forall|i: int| 0 <= i < t.len() implies id_char(#[trigger] t[i]) && t[i] != ' ' by {
                if i < r.len() {
                    assert(t[i] == r[i]);
                }
            }
            assert(id_of(t) == id_of(r).push(d));
        }
    }
}

/// The identifier made of a text.
pub fn identifier_of(s: &str) -> (r: String)
    ensures
        r@ == id_of(s@),
{
    let v = to_chars(s);
    let mut r = String::new();
    let mut i: usize = 0;
    proof {
        assert(v@.take(0) =~= Seq::<char>::empty());
    }
    while i < v.len()
        invariant
            i <= v@.len(),
            v@ == s@,
            r@ == id_of(v@.take(i as int)),
        decreases v@.len() - i,
    {
        let c = v[i];
        proof {
            let t = v@.take(i + 1);
            assert(t.drop_last() =~= v@.take(i as int));
            assert(t.last() == c);
        }
        if char_is_alphanumeric(c) || c == '_' || c == '-' || c == ' ' {
            if c == ' ' {
                push_char(&mut r, SPACE_REPLACER);
            } else {
                push_char(&mut r, c);
            }
        }
        i = i + 1;
    }
    proof {
        assert(v@.take(v@.len() as int) =~= v@);
    }
    r
}

/// An identifier: a value and, optionally, a prefix.
#[derive(Debug)]
pub struct NmdId {
    pub prefix: Option<String>,
    pub value: String,
}

impl NmdId {
    pub fn new(value: &str) -> (r: Self)
        ensures
            r.prefix is None,
            r.value@ == value@,
    {
        Self { prefix: None, value: owned(value) }
    }

    pub fn new_with_prefix(prefix: &str, value: &str) -> (r: Self)
        ensures
            r.prefix matches Some(p) && p@ == prefix@,
            r.value@ == value@,
    {
        Self { prefix: Some(owned(prefix)), value: owned(value) }
    }

    pub fn prefix(&self) -> (r: &Option<String>)
        ensures
            r == &self.prefix,
    {
        &self.prefix
    }

    pub fn value(&self) -> (r: &String)
        ensures
            r@ == self.value@,
    {
        &self.value
    }

    pub fn set_prefix(&mut self, prefix: Option<String>)
        ensures
            final(self).prefix == prefix,
            final(self).value == old(self).value,
    {
        self.prefix = prefix;
    }

    pub fn set_value(&mut self, value: String)
        ensures
            final(self).value == value,
            final(self).prefix == old(self).prefix,
    {
        self.value = value;
    }

    /// The identifier as written: the prefix's identifier, `-` and the
    /// value's identifier, or the value's identifier alone.
    pub fn build(&self) -> (r: String)
        ensures
            match self.prefix {
                Some(p) => r@ == id_of(p@) + PREFIX_VALUE_SEPARATOR@ + id_of(self.value@),
                None => r@ == id_of(self.value@),
            },
    {
        match &self.prefix {
            Some(p) => {
                let mut r = identifier_of(p.as_str());
                append_str(&mut r, PREFIX_VALUE_SEPARATOR);
                let v = identifier_of(self.value.as_str());
                append_str(&mut r, v.as_str());
                r
            },
            None => identifier_of(self.value.as_str()),
        }
    }
}

} // verus!
