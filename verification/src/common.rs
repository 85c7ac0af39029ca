//! Small helpers shared by the declaration parser: string equality and
//! trimming, the set-at-most-once annotation parameter, and literal readers.

use vstd::prelude::*;
use vstd::string::StrSliceExecFns;

use crate::declaration::{Lit, LitView, VariantDeclaration};
use crate::error::{SchemaError, SchemaErrorView};

verus! {

/// Character-wise equality of two string slices.
pub fn str_eq(a: &str, b: &str) -> (r: bool)
    ensures
        r == (a@ == b@),
{
    let a_len = a.unicode_len();
    let b_len = b.unicode_len();
    if a_len != b_len {
        return false;
    }
    let mut i: usize = 0;
    while i < a_len
        invariant
            i <= a_len,
            a_len == a@.len(),
            b_len == b@.len(),
            a_len == b_len,
            forall|j: int| 0 <= j < i ==> a@[j] == b@[j],
        decreases a_len - i,
    {
        if a.get_char(i) != b.get_char(i) {
            return false;
        }
        i += 1;
    }
    proof {
        assert(a@ =~= b@);
    }
    true
}

/// The whitespace characters that trimming removes.
pub open spec fn is_space_char(c: char) -> bool {
    c == ' ' || c == '\t' || c == '\n' || c == '\r'
}

pub open spec fn trim_start_spec(s: Seq<char>) -> Seq<char>
    decreases s.len(),
{
    if s.len() > 0 && is_space_char(s[0]) {
        trim_start_spec(s.drop_first())
    } else {
        s
    }
}

pub open spec fn trim_end_spec(s: Seq<char>) -> Seq<char>
    decreases s.len(),
{
    if s.len() > 0 && is_space_char(s.last()) {
        trim_end_spec(s.drop_last())
    } else {
        s
    }
}

/// What a string is once leading and trailing whitespace is removed.
pub open spec fn trim_spec(s: Seq<char>) -> Seq<char> {
    trim_end_spec(trim_start_spec(s))
}

fn trim_start_str<'a>(s: &'a str) -> (r: &'a str)
    ensures
        r@ == trim_start_spec(s@),
    decreases s@.len(),
{
    let len = s.unicode_len();
    if len > 0 {
        let c = s.get_char(0);
        if c == ' ' || c == '\t' || c == '\n' || c == '\r' {
            let rest = s.substring_char(1, len);
            proof {
                assert(rest@ =~= s@.drop_first());
            }
            return trim_start_str(rest);
        }
    }
    s
}

fn trim_end_str<'a>(s: &'a str) -> (r: &'a str)
    ensures
        r@ == trim_end_spec(s@),
    decreases s@.len(),
{
    let len = s.unicode_len();
    if len > 0 {
        let c = s.get_char(len - 1);
        if c == ' ' || c == '\t' || c == '\n' || c == '\r' {
            let rest = s.substring_char(0, len - 1);
            proof {
                assert(rest@ =~= s@.drop_last());
            }
            return trim_end_str(rest);
        }
    }
    s
}

/// Remove leading and trailing whitespace.
pub fn trim_str(s: &str) -> (r: String)
    ensures
        r@ == trim_spec(s@),
{
    trim_end_str(trim_start_str(s)).to_owned()
}

/// An annotation parameter that may be provided at most once.
pub struct AttrOption<T> {
    name: &'static str,
    value: Option<T>,
}

impl<T> AttrOption<T> {
    /// The parameter's name, as used in a duplicate diagnostic.
    pub closed spec fn spec_name(&self) -> Seq<char> {
        self.name@
    }

    /// The value provided so far, if any.
    pub closed spec fn spec_value(&self) -> Option<T> {
        self.value
    }

    pub fn new(name: &'static str) -> (r: Self)
        ensures
            r.spec_name() == name@,
            r.spec_value() is None,
    {
        Self { name, value: None }
    }

    /// Record a value, rejecting a second one with a duplicate diagnostic.
    pub fn set(&mut self, value: T) -> (r: Result<(), SchemaError>)
        ensures
            match r {
                Ok(_) => {
                    &&& old(self).spec_value() is None
                    &&& final(self).spec_value() == Some(value)
                    &&& final(self).spec_name() == old(self).spec_name()
                },
                Err(e) => {
                    &&& old(self).spec_value() is Some
                    &&& *final(self) == *old(self)
                    &&& e@ == SchemaErrorView::DuplicateParameter(old(self).spec_name())
                },
            },
    {
        if self.value.is_some() {
            return Err(SchemaError::DuplicateParameter(self.name.to_owned()));
        }
        self.value = Some(value);
        Ok(())
    }

    pub fn value(self) -> (r: Option<T>)
        ensures
            r == self.spec_value(),
    {
        self.value
    }
}

/// Read a string literal, rejecting any other literal.
pub fn get_lit_string(lit: &Lit) -> (r: Result<String, SchemaError>)
    ensures
        match r {
            Ok(s) => lit@ == LitView::Str(s@),
            Err(e) => !(lit@ is Str) && e@ == SchemaErrorView::ExpectedString,
        },
{
    match lit {
        Lit::Str(s) => Ok(s.clone()),
        _ => Err(SchemaError::ExpectedString),
    }
}

/// Read a boolean literal, rejecting any other literal.
pub fn get_lit_boolean(lit: &Lit) -> (r: Result<bool, SchemaError>)
    ensures
        match r {
            Ok(b) => lit@ == LitView::Bool(b),
            Err(e) => !(lit@ is Bool) && e@ == SchemaErrorView::ExpectedBoolean,
        },
{
    match lit {
        Lit::Bool(b) => Ok(*b),
        _ => Err(SchemaError::ExpectedBoolean),
    }
}

/// Insist that a variant wraps exactly one nested declaration.
pub fn ensure_tuple_variant(variant: &VariantDeclaration) -> (r: Result<(), SchemaError>)
    ensures
        match r {
            Ok(_) => variant@.payloads.len() == 1,
            Err(e) => {
                &&& variant@.payloads.len() != 1
                &&& e@ == SchemaErrorView::ExpectedSingleSubCommand(variant@.ident)
            },
        },
{
    proof {
        crate::declaration::lemma_payloads_view(variant.payloads@);
    }
    if variant.payloads.len() == 1 {
        Ok(())
    } else {
        Err(SchemaError::ExpectedSingleSubCommand(variant.ident.clone()))
    }
}

} // verus!
