//! Refute handlers and what the grammar shares: the separator scan over a
//! token list, the parse failure type, and the optional, required and
//! inheritable handler forms with their resolution against an ambient
//! handler.

use vstd::prelude::*;

use crate::tokens::{
    copy_range, lemma_toks_view_index, lemma_toks_view_len, lemma_toks_view_push, toks_view,
    Tok, TokM,
};

verus! {

broadcast use lemma_toks_view_len, lemma_toks_view_index, lemma_toks_view_push;

/// Why a guard program failed to parse.
#[derive(Debug, PartialEq, Eq, Structural, Clone, Copy)]
pub enum ParseErrorKind {
    /// neither a destructure nor a boolean test starts at this position
    ExpectedClause,
    /// `=>` is not followed by an expression
    ExpectedHandlerExpr,
    /// an entry ended but neither `,` nor the end of the input follows
    ExpectedCommaOrEnd,
    /// a template entry does not start with an identifier
    ExpectedTemplateName,
    /// a template entry is missing its `=>` handler
    ExpectedHandlerArrow,
}

/// A structured parse failure: what was expected, and the index of the
/// offending token within the token list being parsed at that nesting level.
#[derive(Debug, PartialEq, Eq, Structural, Clone, Copy)]
pub struct ParseError {
    pub kind: ParseErrorKind,
    pub at: usize,
}

/// The tokens that terminate an expression or pattern run at the top level of
/// an entry: `,` and `=>` always end a run; a lone `=` ends it only while
/// looking for the destructure split.
pub open spec fn sp_is_sep(t: TokM, split_eq: bool) -> bool {
    t is Comma || t is FatArrow || (split_eq && t is Eq)
}

/// Index of the first separator at or after `from`; the length if none.
pub open spec fn sp_scan(ts: Seq<TokM>, from: int, split_eq: bool) -> int
    recommends
        0 <= from <= ts.len(),
    decreases ts.len() - from,
{
    if from >= ts.len() {
        ts.len() as int
    } else if sp_is_sep(ts[from], split_eq) {
        from
    } else {
        sp_scan(ts, from + 1, split_eq)
    }
}

pub proof fn lemma_sp_scan(ts: Seq<TokM>, from: int, split_eq: bool)
    requires
        0 <= from <= ts.len(),
    ensures
        from <= sp_scan(ts, from, split_eq) <= ts.len(),
        forall|k: int|
            from <= k < sp_scan(ts, from, split_eq) ==> !sp_is_sep(ts[k], split_eq),
        sp_scan(ts, from, split_eq) < ts.len() ==> sp_is_sep(
            ts[sp_scan(ts, from, split_eq)],
            split_eq,
        ),
    decreases ts.len() - from,
{
    if from < ts.len() && !sp_is_sep(ts[from], split_eq) {
        lemma_sp_scan(ts, from + 1, split_eq);
    }
}

fn is_sep(t: &Tok, split_eq: bool) -> (r: bool)
    ensures
        r == sp_is_sep(t@, split_eq),
{
    match t {
        Tok::Comma => true,
        Tok::FatArrow => true,
        Tok::Eq => split_eq,
        _ => false,
    }
}

/// Finds the first separator at or after `from` at the top level of `toks`.
pub fn scan(toks: &Vec<Tok>, from: usize, split_eq: bool) -> (r: usize)
    requires
        from <= toks@.len(),
    ensures
        r == sp_scan(toks_view(toks@), from as int, split_eq),
        from <= r <= toks@.len(),
{
    let ghost v = toks_view(toks@);
    let mut i: usize = from;
    while i < toks.len()
        invariant
            from <= i <= toks@.len(),
            v == toks_view(toks@),
            sp_scan(v, from as int, split_eq) == sp_scan(v, i as int, split_eq),
        decreases toks@.len() - i,
    {
        if is_sep(&toks[i], split_eq) {
            proof {
                lemma_sp_scan(v, i as int, split_eq);
            }
            return i;
        }
        i = i + 1;
    }
    proof {
        lemma_sp_scan(v, from as int, split_eq);
    }
    i
}

/// Appending a `,` to the token list moves no separator: every scan stops
/// at or before the old end, and a scan that reached the old end stops on
/// the new comma at the same index.
pub proof fn lemma_sp_scan_push_comma(ts: Seq<TokM>, from: int, split_eq: bool)
    requires
        0 <= from <= ts.len(),
    ensures
        sp_scan(ts.push(TokM::Comma), from, split_eq) == sp_scan(ts, from, split_eq),
    decreases ts.len() - from,
{
    let ts2 = ts.push(TokM::Comma);
    if from < ts.len() {
        assert(ts2[from] == ts[from]);
        if !sp_is_sep(ts[from], split_eq) {
            lemma_sp_scan_push_comma(ts, from + 1, split_eq);
        }
    } else {
        assert(ts2[from] is Comma);
    }
}

/// Appending a `,` changes no handler parse that starts within the old
/// tokens.
pub proof fn lemma_sp_handler_push_comma(ts: Seq<TokM>, i: int)
    requires
        0 <= i <= ts.len(),
    ensures
        sp_handler(ts.push(TokM::Comma), i) == sp_handler(ts, i),
        sp_try_handler(ts.push(TokM::Comma), i) == sp_try_handler(ts, i),
        sp_handler_inherit(ts.push(TokM::Comma), i) == sp_handler_inherit(ts, i),
        sp_try_handler_inherit(ts.push(TokM::Comma), i) == sp_try_handler_inherit(ts, i),
{
    let ts2 = ts.push(TokM::Comma);
    if i < ts.len() && ts[i] is FatArrow {
        lemma_sp_scan_push_comma(ts, i + 1, false);
        lemma_sp_scan(ts, i + 1, false);
        let e = sp_scan(ts, i + 1, false);
        if e != i + 1 {
            assert(ts2.subrange(i + 1, e) =~= ts.subrange(i + 1, e));
        }
    }
}

/// An explicit refute handler attached to a single clause: `=>` followed by
/// the expression to run when the clause is refuted.
#[derive(Debug, PartialEq, Eq)]
pub struct RefuteHandler {
    expr: Vec<Tok>,
}

impl View for RefuteHandler {
    type V = Seq<TokM>;

    closed spec fn view(&self) -> Seq<TokM> {
        toks_view(self.expr@)
    }
}

/// A handler required after a group: either an explicit action, or the
/// explicit `_` marker that inherits the ambient handler of the group itself.
#[derive(Debug, PartialEq, Eq)]
pub enum RefuteHandlerInheritable {
    Expr { expr: Vec<Tok> },
    Inherit,
}

/// Mathematical model of a group handler.
#[verifier::ext_equal]
pub ghost enum InheritableM {
    Expr(Seq<TokM>),
    Inherit,
}

impl View for RefuteHandlerInheritable {
    type V = InheritableM;

    open spec fn view(&self) -> InheritableM {
        match self {
            RefuteHandlerInheritable::Expr { expr } => InheritableM::Expr(toks_view(expr@)),
            RefuteHandlerInheritable::Inherit => InheritableM::Inherit,
        }
    }
}

/// Resolves an optional local handler against the ambient handler: a clause
/// without a local handler falls back to the ambient one.
pub open spec fn sp_fallback(local: Option<Seq<TokM>>, ambient: Seq<TokM>) -> Seq<TokM> {
    match local {
        Some(h) => h,
        None => ambient,
    }
}

/// Resolves a group handler against the ambient handler: `Inherit` forwards
/// exactly the ambient handler that reached the group itself.
pub open spec fn sp_fallback_inherit(h: InheritableM, ambient: Seq<TokM>) -> Seq<TokM> {
    match h {
        InheritableM::Expr(e) => e,
        InheritableM::Inherit => ambient,
    }
}

/// Anything that can stand where a refute handler may stand and resolve
/// itself against an ambient handler.
pub trait RefuteHandlerExt {
    spec fn fallback_spec(&self, ambient: Seq<TokM>) -> Seq<TokM>;

    fn fallback<'a>(&'a self, fallback: &'a Vec<Tok>) -> (r: &'a Vec<Tok>)
        ensures
            toks_view(r@) == self.fallback_spec(toks_view(fallback@)),
    ;
}

impl RefuteHandlerExt for Option<RefuteHandler> {
    open spec fn fallback_spec(&self, ambient: Seq<TokM>) -> Seq<TokM> {
        match self {
            Some(h) => h@,
            None => ambient,
        }
    }

    fn fallback<'a>(&'a self, fallback: &'a Vec<Tok>) -> (r: &'a Vec<Tok>) {
        match self {
            Some(handler) => handler.expr(),
            None => fallback,
        }
    }
}

impl RefuteHandlerExt for RefuteHandlerInheritable {
    open spec fn fallback_spec(&self, ambient: Seq<TokM>) -> Seq<TokM> {
        sp_fallback_inherit(self@, ambient)
    }

    fn fallback<'a>(&'a self, fallback: &'a Vec<Tok>) -> (r: &'a Vec<Tok>) {
        match self {
            RefuteHandlerInheritable::Expr { expr } => expr,
            RefuteHandlerInheritable::Inherit => fallback,
        }
    }
}

/// A required handler at `i`: `=>` and a nonempty expression run. `None`
/// when the arrow is missing or the expression after it is empty.
pub open spec fn sp_handler(ts: Seq<TokM>, i: int) -> Option<(Seq<TokM>, int)>
    recommends
        0 <= i <= ts.len(),
{
    if i < ts.len() && ts[i] is FatArrow {
        let e = sp_scan(ts, i + 1, false);
        if e == i + 1 {
            None
        } else {
            Some((ts.subrange(i + 1, e), e))
        }
    } else {
        None
    }
}

/// The diagnostic of a failed required handler at `i`: the missing arrow
/// at `i` itself, or the missing expression right after a present arrow.
pub open spec fn sp_handler_error(ts: Seq<TokM>, i: int) -> ParseError
    recommends
        0 <= i <= ts.len(),
{
    if i < ts.len() && ts[i] is FatArrow {
        ParseError { kind: ParseErrorKind::ExpectedHandlerExpr, at: (i + 1) as usize }
    } else {
        ParseError { kind: ParseErrorKind::ExpectedHandlerArrow, at: i as usize }
    }
}

/// An optional handler at `i`: absence of `=>` means no handler; a present
/// `=>` with an empty expression is a failure, not absence.
pub open spec fn sp_try_handler(ts: Seq<TokM>, i: int) -> Option<(Option<Seq<TokM>>, int)>
    recommends
        0 <= i <= ts.len(),
{
    if i < ts.len() && ts[i] is FatArrow {
        match sp_handler(ts, i) {
            None => None,
            Some((h, e)) => Some((Some(h), e)),
        }
    } else {
        Some((None, i))
    }
}

/// A required inheritable handler at `i`: `=>` then either the explicit `_`
/// inheritance marker or a nonempty expression run.
pub open spec fn sp_handler_inherit(ts: Seq<TokM>, i: int) -> Option<(InheritableM, int)>
    recommends
        0 <= i <= ts.len(),
{
    if i < ts.len() && ts[i] is FatArrow {
        if i + 1 < ts.len() && ts[i + 1] is Underscore {
            Some((InheritableM::Inherit, i + 2))
        } else {
            let e = sp_scan(ts, i + 1, false);
            if e == i + 1 {
                None
            } else {
                Some((InheritableM::Expr(ts.subrange(i + 1, e)), e))
            }
        }
    } else {
        None
    }
}

/// An optional inheritable handler at `i`.
pub open spec fn sp_try_handler_inherit(ts: Seq<TokM>, i: int) -> Option<
    (Option<InheritableM>, int),
>
    recommends
        0 <= i <= ts.len(),
{
    if i < ts.len() && ts[i] is FatArrow {
        match sp_handler_inherit(ts, i) {
            None => None,
            Some((h, e)) => Some((Some(h), e)),
        }
    } else {
        Some((None, i))
    }
}

impl RefuteHandler {
    /// The handler's action expression.
    pub fn expr(&self) -> (r: &Vec<Tok>)
        ensures
            toks_view(r@) == self@,
    {
        &self.expr
    }

    /// Parses a required `=>` handler at `pos`.
    pub fn parse(toks: &Vec<Tok>, pos: usize) -> (r: Result<(RefuteHandler, usize), ParseError>)
        requires
            pos <= toks@.len(),
        ensures
            r is Ok <==> sp_handler(toks_view(toks@), pos as int) is Some,
            r is Ok ==> sp_handler(toks_view(toks@), pos as int) == Some(
                (r->Ok_0.0@, r->Ok_0.1 as int),
            ),
            r is Ok ==> pos < r->Ok_0.1 <= toks@.len(),
            r is Err ==> r->Err_0 == sp_handler_error(toks_view(toks@), pos as int),
    {
        let ghost v = toks_view(toks@);
        if pos < toks.len() && matches!(&toks[pos], Tok::FatArrow) {
            let e = scan(toks, pos + 1, false);
            proof {
                lemma_sp_scan(v, pos + 1, false);
            }
            if e == pos + 1 {
                Err(ParseError { kind: ParseErrorKind::ExpectedHandlerExpr, at: pos + 1 })
            } else {
                let expr = copy_range(toks, pos + 1, e);
                Ok((RefuteHandler { expr }, e))
            }
        } else {
            Err(ParseError { kind: ParseErrorKind::ExpectedHandlerArrow, at: pos })
        }
    }

    /// Parses an optional `=>` handler at `pos`; absence is not an error.
    pub fn try_parse(toks: &Vec<Tok>, pos: usize) -> (r: Result<
        (Option<RefuteHandler>, usize),
        ParseError,
    >)
        requires
            pos <= toks@.len(),
        ensures
            r is Ok <==> sp_try_handler(toks_view(toks@), pos as int) is Some,
            r is Ok ==> sp_try_handler(toks_view(toks@), pos as int) == Some(
                (
                    match r->Ok_0.0 {
                        Some(h) => Some(h@),
                        None => None,
                    },
                    r->Ok_0.1 as int,
                ),
            ),
            r is Ok ==> pos <= r->Ok_0.1 <= toks@.len(),
            r is Err ==> r->Err_0 == (ParseError {
                kind: ParseErrorKind::ExpectedHandlerExpr,
                at: (pos + 1) as usize,
            }),
    {
        if pos < toks.len() && matches!(&toks[pos], Tok::FatArrow) {
            let (h, e) = Self::parse(toks, pos)?;
            Ok((Some(h), e))
        } else {
            Ok((None, pos))
        }
    }
}

impl RefuteHandlerInheritable {
    /// The explicit action if one was given, else the ambient fallback.
    pub fn fallback<'a>(&'a self, fallback: &'a Vec<Tok>) -> (r: &'a Vec<Tok>)
        ensures
            toks_view(r@) == sp_fallback_inherit(self@, toks_view(fallback@)),
    {
        match self {
            RefuteHandlerInheritable::Expr { expr } => expr,
            RefuteHandlerInheritable::Inherit => fallback,
        }
    }

    /// The explicit action, if this handler is not the inheritance marker.
    pub fn expr(&self) -> (r: Option<&Vec<Tok>>)
        ensures
            match r {
                Some(e) => self@ == InheritableM::Expr(toks_view(e@)),
                None => self@ is Inherit,
            },
    {
        match self {
            RefuteHandlerInheritable::Expr { expr } => Some(expr),
            RefuteHandlerInheritable::Inherit => None,
        }
    }

    /// Parses a required inheritable handler (`=>` then `_` or an
    /// expression) at `pos`.
    pub fn parse(toks: &Vec<Tok>, pos: usize) -> (r: Result<
        (RefuteHandlerInheritable, usize),
        ParseError,
    >)
        requires
            pos <= toks@.len(),
        ensures
            r is Ok <==> sp_handler_inherit(toks_view(toks@), pos as int) is Some,
            r is Ok ==> sp_handler_inherit(toks_view(toks@), pos as int) == Some(
                (r->Ok_0.0@, r->Ok_0.1 as int),
            ),
            r is Ok ==> pos < r->Ok_0.1 <= toks@.len(),
            r is Err ==> r->Err_0 == sp_handler_error(toks_view(toks@), pos as int),
    {
        let ghost v = toks_view(toks@);
        if pos < toks.len() && matches!(&toks[pos], Tok::FatArrow) {
            if pos + 1 < toks.len() && matches!(&toks[pos + 1], Tok::Underscore) {
                Ok((RefuteHandlerInheritable::Inherit, pos + 2))
            } else {
                let e = scan(toks, pos + 1, false);
                proof {
                    lemma_sp_scan(v, pos + 1, false);
                }
                if e == pos + 1 {
                    Err(ParseError { kind: ParseErrorKind::ExpectedHandlerExpr, at: pos + 1 })
                } else {
                    let expr = copy_range(toks, pos + 1, e);
                    Ok((RefuteHandlerInheritable::Expr { expr }, e))
                }
            }
        } else {
            Err(ParseError { kind: ParseErrorKind::ExpectedHandlerArrow, at: pos })
        }
    }

    /// Parses an optional inheritable handler at `pos`; absence is not an
    /// error.
    pub fn try_parse(toks: &Vec<Tok>, pos: usize) -> (r: Result<
        (Option<RefuteHandlerInheritable>, usize),
        ParseError,
    >)
        requires
            pos <= toks@.len(),
        ensures
            r is Ok <==> sp_try_handler_inherit(toks_view(toks@), pos as int) is Some,
            r is Ok ==> sp_try_handler_inherit(toks_view(toks@), pos as int) == Some(
                (
                    match r->Ok_0.0 {
                        Some(h) => Some(h@),
                        None => None,
                    },
                    r->Ok_0.1 as int,
                ),
            ),
            r is Ok ==> pos <= r->Ok_0.1 <= toks@.len(),
            r is Err ==> r->Err_0 == (ParseError {
                kind: ParseErrorKind::ExpectedHandlerExpr,
                at: (pos + 1) as usize,
            }),
    {
        if pos < toks.len() && matches!(&toks[pos], Tok::FatArrow) {
            let (h, e) = Self::parse(toks, pos)?;
            Ok((Some(h), e))
        } else {
            Ok((None, pos))
        }
    }
}

} // verus!
