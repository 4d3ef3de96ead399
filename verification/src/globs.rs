//! The one place the pipeline touches the `glob` crate: shell-glob pattern
//! compilation and matching, named at the specification level so contracts
//! can speak about which paths a registered pattern selects.

use vstd::prelude::*;

verus! {

/// Whether `glob::Pattern::new` accepts `pattern` as a well-formed
/// shell-glob pattern; its source decides this from the pattern text alone.
pub uninterp spec fn glob_ok(pattern: Seq<char>) -> bool;

/// Whether the well-formed glob `pattern` matches `path`; what
/// `glob::Pattern::matches` computes, a function of the two texts alone.
/// Path-separator handling is fixed when the crate is compiled for a
/// target, so this names matching as built here, not a runtime dependence.
pub uninterp spec fn glob_match(pattern: Seq<char>, path: Seq<char>) -> bool;

/// Relies on `glob::Pattern::new` and `glob::Pattern::matches`: compilation
/// succeeds or fails on the pattern text alone, and a compiled pattern
/// matches a path as a pure function of pattern text and path text. This is
/// one evaluation step of the walker: compile the pattern, then try it on
/// one qualified path; `None` reports a pattern that does not compile.
#[verifier::external_body]
pub(crate) fn glob_match_path(pattern: &str, path: &str) -> (r: Option<bool>)
    ensures
        r is Some <==> glob_ok(pattern@),
        r is Some ==> r.unwrap() == glob_match(pattern@, path@),
{
    match glob::Pattern::new(pattern) {
        Ok(p) => Some(p.matches(path)),
        Err(_) => None,
    }
}

} // verus!
