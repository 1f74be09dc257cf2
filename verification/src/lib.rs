//! Guard notation: declarative pattern-destructure-or-bail and
//! boolean-test-or-bail clauses over a host token stream, rewritten into
//! equivalent conditional early-exit code, with a lexically scoped,
//! inheritable fallback action (the refute handler) run on failure.
//!
//! The host boundary hands the library a list of [`tokens::Tok`] values and
//! splices the returned list back into the host program; everything between
//! those two steps is verified against the specification functions that
//! define the grammar and the expansion.

use vstd::prelude::*;

pub mod common;
pub mod guard;
pub mod make_guard;
pub mod tokens;

use crate::common::ParseError;
use crate::guard::{sp_body, sp_body_error, sp_default_handler, sp_expand_decls, GuardBody};
use crate::make_guard::{sp_expand_make, sp_make_body, sp_make_body_error, MakeGuardBody};
use crate::tokens::{toks_view, Tok};

verus! {

/// Parses a guard program and expands it under the default ambient refute
/// handler, `return ::core::default::Default::default()`.
pub fn guard(input: &Vec<Tok>) -> (r: Result<Vec<Tok>, ParseError>)
    ensures
        r is Ok <==> sp_body(toks_view(input@), 0) is Some,
        r is Ok ==> toks_view((r->Ok_0)@) == sp_expand_decls(
            sp_body(toks_view(input@), 0)->0,
            sp_default_handler(),
        ),
        r is Err ==> r->Err_0 == sp_body_error(toks_view(input@), 0),
{
    let parsed = match GuardBody::parse(input) {
        Ok(b) => b,
        Err(e) => {
            return Err(e);
        },
    };
    Ok(parsed.expand_default())
}

/// Parses a template body and emits, for each declaration, a `macro_rules`
/// definition that routes invocations through the guard expander with the
/// declared refute handler bound as the ambient handler.
pub fn make_guard(input: &Vec<Tok>) -> (r: Result<Vec<Tok>, ParseError>)
    ensures
        r is Ok <==> sp_make_body(toks_view(input@), 0) is Some,
        r is Ok ==> toks_view((r->Ok_0)@) == sp_expand_make(
            sp_make_body(toks_view(input@), 0)->0,
        ),
        r is Err ==> r->Err_0 == sp_make_body_error(toks_view(input@), 0),
{
    let parsed = match MakeGuardBody::parse(input) {
        Ok(b) => b,
        Err(e) => {
            return Err(e);
        },
    };
    Ok(parsed.expand())
}

} // verus!
