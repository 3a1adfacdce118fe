//! Cleaning the playgrounds directory: which playgrounds are selected
//! for deletion.
//!
//! The user may pass a regular expression; a playground is deleted when
//! its name matches it case-insensitively, or unconditionally when no
//! expression was given.  The regular-expression engine is the outside
//! `regex` crate, reached through a trusted wrapper; directory listing
//! and deletion are I/O and live in the unverified shell.

use vstd::prelude::*;
use crate::error::ErrorKind;
use regex::Error as RegexError;

verus! {

/// Options for cleaning the playgrounds directory.
#[derive(Debug)]
pub struct CleanOpts {
    /// A regular expression matched against playground names; with
    /// none, every playground is deleted.
    pub matches: Option<String>,
}

/// Whether `pat` is a valid regular expression, as the `regex` crate
/// judges it.
pub uninterp spec fn regex_valid(pat: Seq<char>) -> bool;

/// Whether the regular expression `pat`, compiled case-insensitively,
/// matches somewhere in `text`.
pub uninterp spec fn regex_match_ci(pat: Seq<char>, text: Seq<char>) -> bool;

/// Relies on regex::RegexBuilder::new(pat).case_insensitive(true).build()
/// and regex::Regex::is_match: building succeeds exactly on valid
/// patterns, and matching is a function of the pattern and the text.
#[verifier::external_body]
fn try_match_ci(pat: &str, text: &str) -> (r: Result<bool, regex::Error>)
    ensures
        r is Ok <==> regex_valid(pat@),
        r matches Ok(b) ==> b == regex_match_ci(pat@, text@),
{
    match regex::RegexBuilder::new(pat).case_insensitive(true).build() {
        Ok(re) => Ok(re.is_match(text)),
        Err(e) => Err(e),
    }
}

#[verifier::external_type_specification]
#[verifier::external_body]
pub struct ExRegexError(RegexError);

/// The configuration error reported for an invalid filter expression.
fn invalid_filter_error() -> (e: crate::error::Error)
    ensures
        e.kind() == ErrorKind::InvalidInput,
{
    crate::error::Error::new(
        ErrorKind::InvalidInput,
        String::from_str("the filter is not a valid regular expression"),
    )
}

/// Checks the optional name filter before any deletion starts: an
/// invalid expression is rejected up front, and only an invalid one.
pub fn validate_filter(filter: &Option<String>) -> (r: Result<(), crate::error::Error>)
    ensures
        r is Ok <==> match filter {
            Some(p) => regex_valid(p@),
            None => true,
        },
        r matches Err(e) ==> e.kind() == ErrorKind::InvalidInput,
{
    match filter {
        None => Ok(()),
        Some(p) => match try_match_ci(p.as_str(), "") {
            Ok(_) => Ok(()),
            Err(_) => Err(invalid_filter_error()),
        },
    }
}

/// Decides whether the playground called `name` is cleaned away: yes
/// with no filter, otherwise exactly when the filter matches the name
/// case-insensitively.  An invalid filter is reported, and only an
/// invalid one.
pub fn should_clean(filter: &Option<String>, name: &str) -> (r: Result<bool, crate::error::Error>)
    ensures
        r is Ok <==> match filter {
            Some(p) => regex_valid(p@),
            None => true,
        },
        r matches Ok(b) ==> b == match filter {
            Some(p) => regex_match_ci(p@, name@),
            None => true,
        },
        r matches Err(e) ==> e.kind() == ErrorKind::InvalidInput,
{
    match filter {
        None => Ok(true),
        Some(p) => match try_match_ci(p.as_str(), name) {
            Ok(b) => Ok(b),
            Err(_) => Err(invalid_filter_error()),
        },
    }
}

} // verus!
