//! The accessor over validated configuration values.
use vstd::prelude::*;
use vstd::string::*;
use crate::entries::{entries_map, entries_view, find_value};

verus! {

/// Why a typed value could not be had.
#[derive(Clone, Debug, PartialEq, Eq)]
pub enum ParseError {
    /// The key was not among the validated names.
    KeyNotFound { key: String },
    /// The value was found but its text does not parse as the requested type.
    Invalid { key: String, reason: String },
}

/// The text shown for a `ParseError`.
pub open spec fn parse_error_text(e: ParseError) -> Seq<char> {
    match e {
        ParseError::KeyNotFound { key } => "Key '"@ + key@ + "' not found"@,
        ParseError::Invalid { reason, .. } => reason@,
    }
}

impl ParseError {
    /// The key that the failed request was for.
    pub open spec fn key_view(self) -> Seq<char> {
        match self {
            ParseError::KeyNotFound { key } => key@,
            ParseError::Invalid { key, .. } => key@,
        }
    }

    /// A one-line description of the failure.
    pub fn message(&self) -> (r: String)
        ensures
            r@ == parse_error_text(*self),
    {
        proof {
            reveal_strlit("Key '");
            reveal_strlit("' not found");
        }
        match self {
            ParseError::KeyNotFound { key } => {
                String::from_str("Key '").concat(key.as_str()).concat("' not found")
            },
            ParseError::Invalid { reason, .. } => reason.clone(),
        }
    }
}

/// An immutable snapshot of validated variables, by name.
#[derive(Clone, Debug)]
pub struct EnvConfig {
    vars: Vec<(String, String)>,
}

impl View for EnvConfig {
    type V = Map<Seq<char>, Seq<char>>;

    closed spec fn view(&self) -> Map<Seq<char>, Seq<char>> {
        entries_map(entries_view(self.vars@))
    }
}

/// Relies on `str::parse`: converts the text by `T`'s `FromStr` impl, and a
/// failure to the text of its error.
#[verifier::external_body]
fn parse_text<T>(s: &str) -> (r: Result<T, String>)
    where
        T: std::str::FromStr,
        T::Err: std::error::Error + 'static,
{
    match s.parse::<T>() {
        Ok(v) => Ok(v),
        Err(e) => Err(e.to_string()),
    }
}

impl EnvConfig {
    /// The snapshot that looks each name up in `vars`, first match first.
    pub(crate) fn from_entries(vars: Vec<(String, String)>) -> (r: EnvConfig)
        ensures
            r@ == entries_map(entries_view(vars@)),
    {
        EnvConfig { vars }
    }

    /// The value stored under `key`, if `key` was validated.
    pub fn get(&self, key: &str) -> (r: Option<&String>)
        ensures
            r.is_some() == self@.contains_key(key@),
            r.is_some() ==> r.unwrap()@ == self@[key@],
    {
        find_value(self.vars.as_slice(), key)
    }

    /// The value stored under `key`, parsed as a `T`.
    pub fn get_parsed<T>(&self, key: &str) -> (r: Result<T, ParseError>)
        where
            T: std::str::FromStr,
            T::Err: std::error::Error + 'static,
        ensures
            (r matches Err(ParseError::KeyNotFound { .. })) == !self@.contains_key(key@),
            r is Err ==> r->Err_0.key_view() == key@,
    {
        match self.get(key) {
            None => Err(ParseError::KeyNotFound { key: String::from_str(key) }),
            Some(v) => match parse_text::<T>(v.as_str()) {
                Ok(x) => Ok(x),
                Err(reason) => Err(ParseError::Invalid { key: String::from_str(key), reason }),
            },
        }
    }
}

} // verus!
