//! Paths, and the two operations of the standard library that build them.
//!
//! A path is carried as it is and never looked into. How two parts are joined is a matter of the
//! platform; only that the same parts give the same path is relied on.

use std::path::PathBuf;
use vstd::prelude::*;

verus! {

/// `std::path::PathBuf`, carried as an opaque value.
#[verifier::external_type_specification]
#[verifier::external_body]
pub struct ExPathBuf(PathBuf);

/// What `Path::join` makes of a base path and a string.
pub uninterp spec fn joined(base: PathBuf, part: Seq<char>) -> PathBuf;

/// The path that `PathBuf::from` makes of a string.
pub uninterp spec fn from_text(text: Seq<char>) -> PathBuf;

/// `<PathBuf as Clone>::clone`: the same path again.
pub assume_specification[ <PathBuf as Clone>::clone ](p: &PathBuf) -> (res: PathBuf)
    ensures
        res == *p,
;

/// `Path::join` on a string: its result is a function of the base path and of the string alone.
#[verifier::external_body]
pub(crate) fn join(base: &PathBuf, part: &str) -> (res: PathBuf)
    ensures
        res == joined(*base, part@),
{
    base.join(part)
}

/// `PathBuf::from` on a string: its result is a function of the string alone.
#[verifier::external_body]
pub(crate) fn parse(text: &str) -> (res: PathBuf)
    ensures
        res == from_text(text@),
{
    PathBuf::from(text)
}

} // verus!
