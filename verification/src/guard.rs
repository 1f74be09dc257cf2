//! The guard program itself: the clause and group grammar with its
//! ambiguity resolution, the specification-level parser the executable
//! parser is proved against, the handler-resolving expander, and the laws
//! the expansion obeys.

use vstd::prelude::*;

use crate::common::{
    lemma_sp_scan, scan, sp_fallback, sp_fallback_inherit, sp_handler_error,
    sp_handler_inherit, sp_is_sep, sp_scan, sp_try_handler, InheritableM, ParseError,
    ParseErrorKind, RefuteHandler, RefuteHandlerExt, RefuteHandlerInheritable,
};
use crate::tokens::{
    copy_range, lemma_tokms_size_index, lemma_toks_view_concat, lemma_toks_view_index,
    lemma_toks_view_len, lemma_toks_view_push, tokms_size, toks_clone, toks_view, Tok, TokM,
};
use vstd::string::StringExecFns;

verus! {

broadcast use lemma_toks_view_len, lemma_toks_view_index, lemma_toks_view_push, lemma_toks_view_concat, vstd::seq::axiom_seq_index_decreases, vstd::seq::axiom_seq_subrange_decreases, vstd::std_specs::vec::axiom_vec_decreases_to_view, vstd::std_specs::vec::axiom_vec_index_decreases;

/// A destructuring condition: bind `pat` by matching `expr`, or be refuted.
#[derive(Debug, PartialEq, Eq)]
pub struct LetElseClause {
    pub pat: Vec<Tok>,
    pub expr: Vec<Tok>,
}

/// A boolean condition: `expr` must evaluate to true, or be refuted.
#[derive(Debug, PartialEq, Eq)]
pub struct IfClause {
    pub expr: Vec<Tok>,
}

/// One atomic guard condition.
#[derive(Debug, PartialEq, Eq)]
pub enum GuardClause {
    /// a destructure, expanded to a `let`-`else` statement
    LetElse(LetElseClause),
    /// a boolean test, expanded to an `if` statement
    If(IfClause),
}

/// One entry of a guard program: a nested group with its required handler,
/// or a single clause with an optional local handler.
#[derive(Debug, PartialEq, Eq)]
pub enum GuardDecl {
    Block { flatten: bool, body: GuardBody, handler: RefuteHandlerInheritable },
    Clause { clause: GuardClause, handler: Option<RefuteHandler> },
}

/// An ordered guard program; order is the evaluation and binding order.
#[derive(Debug, PartialEq, Eq)]
pub struct GuardBody {
    pub guards: Vec<GuardDecl>,
}

/// Mathematical model of a clause: its pattern and expression token runs.
#[verifier::ext_equal]
pub ghost enum ClauseM {
    LetElse { pat: Seq<TokM>, expr: Seq<TokM> },
    If { expr: Seq<TokM> },
}

/// Mathematical model of a guard entry.
#[verifier::ext_equal]
pub ghost enum DeclM {
    Block { flatten: bool, body: Seq<DeclM>, handler: InheritableM },
    Clause { clause: ClauseM, handler: Option<Seq<TokM>> },
}

impl View for LetElseClause {
    type V = ClauseM;

    open spec fn view(&self) -> ClauseM {
        ClauseM::LetElse { pat: toks_view(self.pat@), expr: toks_view(self.expr@) }
    }
}

impl View for IfClause {
    type V = ClauseM;

    open spec fn view(&self) -> ClauseM {
        ClauseM::If { expr: toks_view(self.expr@) }
    }
}

impl View for GuardClause {
    type V = ClauseM;

    open spec fn view(&self) -> ClauseM {
        match self {
            GuardClause::LetElse(c) => c@,
            GuardClause::If(c) => c@,
        }
    }
}

pub open spec fn decl_view(d: GuardDecl) -> DeclM
    decreases d,
{
    match d {
        GuardDecl::Block { flatten, body, handler } => DeclM::Block {
            flatten,
            body: decls_view(body.guards@),
            handler: handler@,
        },
        GuardDecl::Clause { clause, handler } => DeclM::Clause {
            clause: clause@,
            handler: match handler {
                Some(h) => Some(h@),
                None => None,
            },
        },
    }
}

pub open spec fn decls_view(ds: Seq<GuardDecl>) -> Seq<DeclM>
    decreases ds,
{
    if ds.len() == 0 {
        Seq::empty()
    } else {
        decls_view(ds.drop_last()).push(decl_view(ds.last()))
    }
}

impl View for GuardDecl {
    type V = DeclM;

    open spec fn view(&self) -> DeclM {
        decl_view(*self)
    }
}

impl View for GuardBody {
    type V = Seq<DeclM>;

    open spec fn view(&self) -> Seq<DeclM> {
        decls_view(self.guards@)
    }
}

pub broadcast proof fn lemma_decls_view_len(ds: Seq<GuardDecl>)
    ensures
        #[trigger] decls_view(ds).len() == ds.len(),
    decreases ds,
{
    if ds.len() > 0 {
        lemma_decls_view_len(ds.drop_last());
    }
}

pub broadcast proof fn lemma_decls_view_index(ds: Seq<GuardDecl>, i: int)
    requires
        0 <= i < ds.len(),
    ensures
        #[trigger] decls_view(ds)[i] == decl_view(ds[i]),
    decreases ds,
{
    lemma_decls_view_len(ds);
    if ds.len() > 0 && i < ds.len() - 1 {
        lemma_decls_view_index(ds.drop_last(), i);
    }
}

pub broadcast proof fn lemma_decls_view_push(ds: Seq<GuardDecl>, d: GuardDecl)
    ensures
        #[trigger] decls_view(ds.push(d)) == decls_view(ds).push(decl_view(d)),
{
    assert(ds.push(d).drop_last() =~= ds);
}

/// One clause at `i`: the destructure form when the run up to the next `,`
/// or `=>` holds a top-level `=` with nonempty token runs on both sides,
/// else the boolean-test form on the whole run. `None` when no clause can
/// be read here.
///
/// Patterns and expressions are delegated to the host grammar and so are
/// opaque token runs here; a top-level lone `=` therefore always reads as
/// the destructure split, even where the host grammar would reject the
/// prefix as a pattern and read the whole run as one expression (an
/// assignment such as `{p} = e`).
pub open spec fn sp_clause(ts: Seq<TokM>, i: int) -> Option<(ClauseM, int)>
    recommends
        0 <= i <= ts.len(),
{
    let ce = sp_scan(ts, i, false);
    if ce == i {
        None
    } else {
        let q = sp_scan(ts, i, true);
        if q < ts.len() && ts[q] is Eq {
            if q == i || q + 1 == ce {
                None
            } else {
                Some(
                    (
                        ClauseM::LetElse {
                            pat: ts.subrange(i, q),
                            expr: ts.subrange(q + 1, ce),
                        },
                        ce,
                    ),
                )
            }
        } else {
            Some((ClauseM::If { expr: ts.subrange(i, ce) }, ce))
        }
    }
}

/// One guard entry at `i`.
///
/// The group trial: when a brace group stands at `i`, optionally preceded by
/// the `*` flatten marker, and `=>` immediately follows the closing brace,
/// the entry is committed to the group form; without that `=>` the same
/// braces are reinterpreted as an ordinary token of a clause.
pub open spec fn sp_decl(ts: Seq<TokM>, i: int) -> Option<(DeclM, int)>
    recommends
        0 <= i <= ts.len(),
    decreases tokms_size(ts), ts.len() - i, 0int,
    when 0 <= i <= ts.len()
    via sp_decl_dec
{
    let flat = i < ts.len() && ts[i] is Star;
    let b: int = if flat { i + 1 } else { i };
    if b < ts.len() && ts[b] is Brace && b + 1 < ts.len() && ts[b + 1] is FatArrow {
        match sp_handler_inherit(ts, b + 1) {
            None => None,
            Some((h, j)) => match sp_body(ts[b]->Brace_0, 0) {
                None => None,
                Some(ds) => Some((DeclM::Block { flatten: flat, body: ds, handler: h }, j)),
            },
        }
    } else {
        match sp_clause(ts, i) {
            None => None,
            Some((c, ce)) => match sp_try_handler(ts, ce) {
                None => None,
                Some((h, j)) => Some((DeclM::Clause { clause: c, handler: h }, j)),
            },
        }
    }
}

#[via_fn]
proof fn sp_decl_dec(ts: Seq<TokM>, i: int) {
    let flat = i < ts.len() && ts[i] is Star;
    let b: int = if flat { i + 1 } else { i };
    if 0 <= b < ts.len() {
        lemma_tokms_size_index(ts, b);
    }
}

/// A guard program from `i` to the end of `ts`: entries separated by `,`,
/// with an optional trailing `,`. The empty suffix is the empty program.
pub open spec fn sp_body(ts: Seq<TokM>, i: int) -> Option<Seq<DeclM>>
    recommends
        0 <= i <= ts.len(),
    decreases tokms_size(ts), ts.len() - i, 1int,
    when 0 <= i <= ts.len()
{
    if i >= ts.len() {
        Some(Seq::empty())
    } else {
        match sp_decl(ts, i) {
            None => None,
            Some((d, n)) => {
                if n >= ts.len() {
                    Some(seq![d])
                } else if ts[n] is Comma {
                    if n + 1 >= ts.len() {
                        Some(seq![d])
                    } else {
                        // an entry always consumes at least one token, so
                        // this bound equals n + 1; it keeps the measure
                        // decreasing without appeal to that fact
                        let next: int = if n + 1 > i + 1 {
                            n + 1
                        } else {
                            i + 1
                        };
                        match sp_body(ts, next) {
                            None => None,
                            Some(ds) => Some(seq![d] + ds),
                        }
                    }
                } else {
                    None
                }
            },
        }
    }
}

/// An entry never stands still: when it parses, it consumes at least one
/// token and never reads past the end.
pub proof fn lemma_sp_decl_bounds(ts: Seq<TokM>, i: int)
    requires
        0 <= i <= ts.len(),
        sp_decl(ts, i) is Some,
    ensures
        i < (sp_decl(ts, i)->0).1 <= ts.len(),
{
    let flat = i < ts.len() && ts[i] is Star;
    let b: int = if flat { i + 1 } else { i };
    if b < ts.len() && ts[b] is Brace && b + 1 < ts.len() && ts[b + 1] is FatArrow {
        lemma_sp_scan(ts, b + 2, false);
    } else {
        lemma_sp_scan(ts, i, false);
        let ce = sp_scan(ts, i, false);
        if ce < ts.len() {
            lemma_sp_scan(ts, ce + 1, false);
        }
    }
}

/// The diagnostic of a failed entry parse at `i`, mirroring `sp_decl`:
/// inside a committed group, the handler's or the interior's own
/// diagnostic (the latter with positions relative to the interior);
/// otherwise the missing clause at the entry start, or the handler
/// diagnostic after the clause. Meaningful only where `sp_decl` is `None`.
pub open spec fn sp_decl_error(ts: Seq<TokM>, i: int) -> ParseError
    recommends
        0 <= i <= ts.len(),
    decreases tokms_size(ts), ts.len() - i, 0int,
    when 0 <= i <= ts.len()
    via sp_decl_error_dec
{
    let flat = i < ts.len() && ts[i] is Star;
    let b: int = if flat { i + 1 } else { i };
    if b < ts.len() && ts[b] is Brace && b + 1 < ts.len() && ts[b + 1] is FatArrow {
        match sp_handler_inherit(ts, b + 1) {
            None => sp_handler_error(ts, b + 1),
            Some((h, j)) => sp_body_error(ts[b]->Brace_0, 0),
        }
    } else {
        match sp_clause(ts, i) {
            None => ParseError { kind: ParseErrorKind::ExpectedClause, at: i as usize },
            Some((c, ce)) => sp_handler_error(ts, ce),
        }
    }
}

#[via_fn]
proof fn sp_decl_error_dec(ts: Seq<TokM>, i: int) {
    let flat = i < ts.len() && ts[i] is Star;
    let b: int = if flat { i + 1 } else { i };
    if 0 <= b < ts.len() {
        lemma_tokms_size_index(ts, b);
    }
}

/// The diagnostic of a failed program parse from `i`, mirroring `sp_body`:
/// the first failing entry's diagnostic, or the missing separator after a
/// complete entry. Meaningful only where `sp_body` is `None`.
pub open spec fn sp_body_error(ts: Seq<TokM>, i: int) -> ParseError
    recommends
        0 <= i <= ts.len(),
    decreases tokms_size(ts), ts.len() - i, 1int,
    when 0 <= i <= ts.len()
{
    if i >= ts.len() {
        ParseError { kind: ParseErrorKind::ExpectedCommaOrEnd, at: i as usize }
    } else {
        match sp_decl(ts, i) {
            None => sp_decl_error(ts, i),
            Some((d, n)) => {
                if n >= ts.len() {
                    ParseError { kind: ParseErrorKind::ExpectedCommaOrEnd, at: n as usize }
                } else if ts[n] is Comma {
                    if n + 1 >= ts.len() {
                        ParseError { kind: ParseErrorKind::ExpectedCommaOrEnd, at: n as usize }
                    } else {
                        let next: int = if n + 1 > i + 1 {
                            n + 1
                        } else {
                            i + 1
                        };
                        sp_body_error(ts, next)
                    }
                } else {
                    ParseError { kind: ParseErrorKind::ExpectedCommaOrEnd, at: n as usize }
                }
            },
        }
    }
}

impl GuardClause {
    /// Parses one clause at `pos`: first the destructure trial, then the
    /// boolean test on the same tokens. A failed trial commits nothing.
    pub fn parse(toks: &Vec<Tok>, pos: usize) -> (r: Result<(GuardClause, usize), ParseError>)
        requires
            pos <= toks@.len(),
        ensures
            ({
                let v = toks_view(toks@);
                &&& (r is Ok <==> sp_clause(v, pos as int) is Some)
                &&& (r is Ok ==> sp_clause(v, pos as int) == Some(
                    ((r->Ok_0.0)@, (r->Ok_0.1) as int),
                ))
                &&& (r is Ok ==> pos < r->Ok_0.1 <= toks@.len())
                &&& (r is Err ==> r->Err_0 == (ParseError {
                    kind: ParseErrorKind::ExpectedClause,
                    at: pos,
                }))
            }),
    {
        let ghost v = toks_view(toks@);
        let ce = scan(toks, pos, false);
        if ce == pos {
            return Err(ParseError { kind: ParseErrorKind::ExpectedClause, at: pos });
        }
        let q = scan(toks, pos, true);
        proof {
            lemma_sp_scan(v, pos as int, false);
            lemma_sp_scan(v, pos as int, true);
        }
        if q < toks.len() && matches!(&toks[q], Tok::Eq) {
            proof {
                assert(v[q as int] is Eq);
                assert(q < ce) by {
                    if ce <= q {
                        assert(sp_is_sep(v[ce as int], false));
                        assert(!sp_is_sep(v[ce as int], true));
                    }
                }
            }
            if q == pos || q + 1 == ce {
                Err(ParseError { kind: ParseErrorKind::ExpectedClause, at: pos })
            } else {
                let pat = copy_range(toks, pos, q);
                let expr = copy_range(toks, q + 1, ce);
                Ok((GuardClause::LetElse(LetElseClause { pat, expr }), ce))
            }
        } else {
            let expr = copy_range(toks, pos, ce);
            Ok((GuardClause::If(IfClause { expr }), ce))
        }
    }
}

impl GuardDecl {
    /// Parses one entry at `pos`. The group interpretation is tried first,
    /// without committing: when no `=>` follows the brace group, parsing
    /// rolls back to `pos` and reads the entry as a clause instead.
    pub fn parse(toks: &Vec<Tok>, pos: usize) -> (r: Result<(GuardDecl, usize), ParseError>)
        requires
            pos <= toks@.len(),
        ensures
            ({
                let v = toks_view(toks@);
                &&& (r is Ok <==> sp_decl(v, pos as int) is Some)
                &&& (r is Ok ==> sp_decl(v, pos as int) == Some(
                    ((r->Ok_0.0)@, (r->Ok_0.1) as int),
                ))
                &&& (r is Ok ==> pos < r->Ok_0.1 <= toks@.len())
                &&& (r is Err ==> r->Err_0 == sp_decl_error(v, pos as int))
            }),
        decreases tokms_size(toks_view(toks@)), 0int,
    {
        let ghost v = toks_view(toks@);
        let flat = pos < toks.len() && matches!(&toks[pos], Tok::Star);
        let b = if flat { pos + 1 } else { pos };
        if b < toks.len() && b + 1 < toks.len() && matches!(&toks[b + 1], Tok::FatArrow) {
            if let Tok::Brace(inner) = &toks[b] {
                let (handler, j) = match RefuteHandlerInheritable::parse(toks, b + 1) {
                    Ok(x) => x,
                    Err(e) => {
                        return Err(e);
                    },
                };
                proof {
                    lemma_tokms_size_index(v, b as int);
                    assert(v[b as int] == TokM::Brace(toks_view(inner@)));
                }
                let body = match GuardBody::parse(inner) {
                    Ok(x) => x,
                    Err(e) => {
                        return Err(e);
                    },
                };
                return Ok((GuardDecl::Block { flatten: flat, body, handler }, j));
            }
        }
        let (clause, ce) = match GuardClause::parse(toks, pos) {
            Ok(x) => x,
            Err(e) => {
                return Err(e);
            },
        };
        let (handler, j) = match RefuteHandler::try_parse(toks, ce) {
            Ok(x) => x,
            Err(e) => {
                return Err(e);
            },
        };
        Ok((GuardDecl::Clause { clause, handler }, j))
    }
}

impl GuardBody {
    /// Parses a whole token list as a guard program.
    pub fn parse(toks: &Vec<Tok>) -> (r: Result<GuardBody, ParseError>)
        ensures
            r is Ok <==> sp_body(toks_view(toks@), 0) is Some,
            r is Ok ==> Some(r->Ok_0@) == sp_body(toks_view(toks@), 0),
            r is Err ==> r->Err_0 == sp_body_error(toks_view(toks@), 0),
        decreases tokms_size(toks_view(toks@)), 1int,
    {
        let ghost v = toks_view(toks@);
        let mut guards: Vec<GuardDecl> = Vec::new();
        let mut i: usize = 0;
        proof {
            if sp_body(v, 0) is Some {
                assert(decls_view(guards@) + (sp_body(v, 0)->0) =~= sp_body(v, 0)->0);
            }
        }
        while i < toks.len()
            invariant
                i <= toks@.len(),
                v == toks_view(toks@),
                sp_body(v, 0) == (match sp_body(v, i as int) {
                    Some(ds) => Some(decls_view(guards@) + ds),
                    None => None,
                }),
                sp_body(v, i as int) is None ==> sp_body_error(v, 0) == sp_body_error(
                    v,
                    i as int,
                ),
            decreases toks@.len() - i,
        {
            let ghost pre = decls_view(guards@);
            let (d, n) = match GuardDecl::parse(toks, i) {
                Ok(x) => x,
                Err(e) => {
                    return Err(e);
                },
            };
            proof {
                lemma_decls_view_push(guards@, d);
            }
            guards.push(d);
            if n == toks.len() {
                proof {
                    assert(sp_body(v, i as int) == Some(seq![d@]));
                    assert(pre + seq![d@] =~= decls_view(guards@));
                }
                i = n;
            } else if matches!(&toks[n], Tok::Comma) {
                proof {
                    assert(v[n as int] is Comma);
                }
                if n + 1 == toks.len() {
                    proof {
                        assert(sp_body(v, i as int) == Some(seq![d@]));
                        assert(pre + seq![d@] =~= decls_view(guards@));
                    }
                } else {
                    proof {
                        assert(sp_body(v, i as int) == (match sp_body(v, n + 1) {
                            Some(ds) => Some(seq![d@] + ds),
                            None => None,
                        }));
                        if sp_body(v, n + 1) is Some {
                            assert(pre + (seq![d@] + (sp_body(v, n + 1)->0)) =~= decls_view(
                                guards@,
                            ) + (sp_body(v, n + 1)->0));
                        }
                    }
                }
                i = n + 1;
            } else {
                return Err(ParseError { kind: ParseErrorKind::ExpectedCommaOrEnd, at: n });
            }
        }
        proof {
            assert(decls_view(guards@) + Seq::<DeclM>::empty() =~= decls_view(guards@));
        }
        Ok(GuardBody { guards })
    }
}


/// The tokens of a `let`-`else` statement: bind `pat` by matching `expr`;
/// on refutation run `h`.
pub open spec fn sp_expand_let_else(pat: Seq<TokM>, expr: Seq<TokM>, h: Seq<TokM>) -> Seq<TokM> {
    seq![TokM::Ident("let"@)] + pat + seq![TokM::Eq] + expr + seq![
        TokM::Ident("else"@),
        TokM::Brace(h),
        TokM::Semi,
    ]
}

/// The tokens of a negated `if` statement: when `expr` is false, run `h`.
pub open spec fn sp_expand_if(expr: Seq<TokM>, h: Seq<TokM>) -> Seq<TokM> {
    seq![TokM::Ident("if"@), TokM::Bang, TokM::Paren(expr), TokM::Brace(h)]
}

pub open spec fn sp_expand_clause(c: ClauseM, h: Seq<TokM>) -> Seq<TokM> {
    match c {
        ClauseM::LetElse { pat, expr } => sp_expand_let_else(pat, expr, h),
        ClauseM::If { expr } => sp_expand_if(expr, h),
    }
}

/// Expansion of one entry under the ambient handler `h`. The handler is
/// resolved before the recursion: a local handler or an explicit group
/// handler takes effect for everything below it, and `Inherit` forwards
/// `h` itself. A flattened group splices its statements into the
/// surrounding sequence; an unflattened group is wrapped in a new brace
/// scope, so its bindings stay inside.
pub open spec fn sp_expand_decl(d: DeclM, h: Seq<TokM>) -> Seq<TokM>
    decreases d,
{
    match d {
        DeclM::Clause { clause, handler } => sp_expand_clause(clause, sp_fallback(handler, h)),
        DeclM::Block { flatten, body, handler } => {
            let s = sp_expand_decls(body, sp_fallback_inherit(handler, h));
            if flatten {
                s
            } else {
                seq![TokM::Brace(s)]
            }
        },
    }
}

/// Expansion of a program: the concatenation of its entries' expansions,
/// in declaration order, all under the same ambient handler.
pub open spec fn sp_expand_decls(ds: Seq<DeclM>, h: Seq<TokM>) -> Seq<TokM>
    decreases ds,
{
    if ds.len() == 0 {
        Seq::empty()
    } else {
        sp_expand_decl(ds[0], h) + sp_expand_decls(ds.drop_first(), h)
    }
}

proof fn lemma_expand_decls_take_snoc(ds: Seq<DeclM>, i: int, h: Seq<TokM>)
    requires
        0 <= i < ds.len(),
    ensures
        sp_expand_decls(ds.take(i + 1), h) == sp_expand_decls(ds.take(i), h) + sp_expand_decl(
            ds[i],
            h,
        ),
    decreases i,
{
    if i == 0 {
        assert(ds.take(1) =~= Seq::empty().push(ds[0]));
        assert(ds.take(1).drop_first() =~= Seq::<DeclM>::empty());
        assert(ds.take(1)[0] == ds[0]);
        assert(sp_expand_decls(ds.take(1).drop_first(), h) =~= Seq::<TokM>::empty());
        assert(sp_expand_decls(ds.take(1), h) == sp_expand_decl(ds.take(1)[0], h)
            + sp_expand_decls(ds.take(1).drop_first(), h));
        assert(sp_expand_decls(ds.take(1), h) =~= sp_expand_decl(ds[0], h));
        assert(sp_expand_decls(ds.take(0), h) + sp_expand_decl(ds[0], h) =~= sp_expand_decl(
            ds[0],
            h,
        ));
    } else {
        lemma_expand_decls_take_snoc(ds.drop_first(), i - 1, h);
        assert(ds.take(i + 1).drop_first() =~= ds.drop_first().take(i));
        assert(ds.take(i).drop_first() =~= ds.drop_first().take(i - 1));
        assert(ds.take(i + 1)[0] == ds[0]);
        assert(ds.take(i)[0] == ds[0]);
        assert(ds.drop_first()[i - 1] == ds[i]);
        assert(sp_expand_decl(ds[0], h) + (sp_expand_decls(ds.drop_first().take(i - 1), h)
            + sp_expand_decl(ds[i], h)) =~= (sp_expand_decl(ds[0], h) + sp_expand_decls(
            ds.drop_first().take(i - 1),
            h,
        )) + sp_expand_decl(ds[i], h));
    }
}

impl LetElseClause {
    /// Emits `let <pat> = <expr> else { <handler> };`.
    pub fn expand(&self, refute_handler: &Vec<Tok>) -> (out: Vec<Tok>)
        ensures
            toks_view(out@) == sp_expand_let_else(
                toks_view(self.pat@),
                toks_view(self.expr@),
                toks_view(refute_handler@),
            ),
    {
        let mut out: Vec<Tok> = Vec::new();
        out.push(Tok::Ident(String::from_str("let")));
        let mut pat = toks_clone(&self.pat);
        out.append(&mut pat);
        out.push(Tok::Eq);
        let mut expr = toks_clone(&self.expr);
        out.append(&mut expr);
        out.push(Tok::Ident(String::from_str("else")));
        out.push(Tok::Brace(toks_clone(refute_handler)));
        out.push(Tok::Semi);
        proof {
            assert(toks_view(out@) =~= sp_expand_let_else(
                toks_view(self.pat@),
                toks_view(self.expr@),
                toks_view(refute_handler@),
            ));
        }
        out
    }
}

impl IfClause {
    /// Emits `if !( <expr> ) { <handler> }`.
    pub fn expand(&self, refute_handler: &Vec<Tok>) -> (out: Vec<Tok>)
        ensures
            toks_view(out@) == sp_expand_if(toks_view(self.expr@), toks_view(refute_handler@)),
    {
        let mut out: Vec<Tok> = Vec::new();
        out.push(Tok::Ident(String::from_str("if")));
        out.push(Tok::Bang);
        out.push(Tok::Paren(toks_clone(&self.expr)));
        out.push(Tok::Brace(toks_clone(refute_handler)));
        proof {
            assert(toks_view(out@) =~= sp_expand_if(
                toks_view(self.expr@),
                toks_view(refute_handler@),
            ));
        }
        out
    }
}

impl GuardClause {
    /// Expands the clause with the refute handler already resolved.
    pub fn expand(&self, refute_handler: &Vec<Tok>) -> (out: Vec<Tok>)
        ensures
            toks_view(out@) == sp_expand_clause(self@, toks_view(refute_handler@)),
    {
        match self {
            GuardClause::LetElse(clause) => clause.expand(refute_handler),
            GuardClause::If(clause) => clause.expand(refute_handler),
        }
    }
}

impl GuardDecl {
    /// Expands one entry under the ambient handler, resolving the entry's
    /// own handler first.
    pub fn expand(&self, refute_handler: &Vec<Tok>) -> (out: Vec<Tok>)
        ensures
            toks_view(out@) == sp_expand_decl(self@, toks_view(refute_handler@)),
        decreases *self,
    {
        match self {
            GuardDecl::Clause { clause, handler } => clause.expand(
                handler.fallback(refute_handler),
            ),
            GuardDecl::Block { flatten, body, handler } => {
                let inner = body.expand(handler.fallback(refute_handler));
                if *flatten {
                    inner
                } else {
                    let mut out: Vec<Tok> = Vec::new();
                    out.push(Tok::Brace(inner));
                    proof {
                        assert(toks_view(out@) =~= seq![toks_view(out@)[0]]);
                    }
                    out
                }
            },
        }
    }
}

impl GuardBody {
    /// Expands the program under the ambient handler: the entries'
    /// expansions, in order.
    pub fn expand(&self, refute_handler: &Vec<Tok>) -> (out: Vec<Tok>)
        ensures
            toks_view(out@) == sp_expand_decls(self@, toks_view(refute_handler@)),
        decreases *self,
    {
        let ghost hm = toks_view(refute_handler@);
        let mut out: Vec<Tok> = Vec::new();
        let mut i: usize = 0;
        proof {
            lemma_decls_view_len(self.guards@);
            assert(self@.take(0) =~= Seq::<DeclM>::empty());
            assert(toks_view(out@) =~= sp_expand_decls(self@.take(0), hm));
        }
        while i < self.guards.len()
            invariant
                i <= self.guards@.len(),
                hm == toks_view(refute_handler@),
                self@.len() == self.guards@.len(),
                toks_view(out@) == sp_expand_decls(self@.take(i as int), hm),
            decreases self.guards@.len() - i,
        {
            let d = &self.guards[i];
            let mut part = d.expand(refute_handler);
            proof {
                lemma_decls_view_len(self.guards@);
                lemma_decls_view_index(self.guards@, i as int);
                lemma_expand_decls_take_snoc(self@, i as int, hm);
            }
            out.append(&mut part);
            i = i + 1;
        }
        proof {
            lemma_decls_view_len(self.guards@);
            assert(self@.take(self@.len() as int) =~= self@);
        }
        out
    }

    /// The ambient handler of a bare invocation: exit the enclosing unit of
    /// execution with its default value,
    /// `return ::core::default::Default::default()`.
    pub fn default_handler() -> (out: Vec<Tok>)
        ensures
            toks_view(out@) == sp_default_handler(),
    {
        let mut out: Vec<Tok> = Vec::new();
        out.push(Tok::Ident(String::from_str("return")));
        out.push(Tok::PathSep);
        out.push(Tok::Ident(String::from_str("core")));
        out.push(Tok::PathSep);
        out.push(Tok::Ident(String::from_str("default")));
        out.push(Tok::PathSep);
        out.push(Tok::Ident(String::from_str("Default")));
        out.push(Tok::PathSep);
        out.push(Tok::Ident(String::from_str("default")));
        out.push(Tok::Paren(Vec::new()));
        proof {
            assert(toks_view(out@) =~= sp_default_handler());
        }
        out
    }

    /// Expands the program under the default ambient handler.
    pub fn expand_default(&self) -> (out: Vec<Tok>)
        ensures
            toks_view(out@) == sp_expand_decls(self@, sp_default_handler()),
    {
        let h = Self::default_handler();
        self.expand(&h)
    }
}

/// Law: a boolean-test leaf with no local handler, under ambient handler
/// `h`, expands to exactly "if the condition is false, run `h`":
/// the tokens `if !( expr ) { h }`.
pub proof fn lemma_test_leaf_expansion(expr: Seq<TokM>, h: Seq<TokM>)
    ensures
        sp_expand_decl(DeclM::Clause { clause: ClauseM::If { expr }, handler: None }, h) == seq![
            TokM::Ident("if"@),
            TokM::Bang,
            TokM::Paren(expr),
            TokM::Brace(h),
        ],
{
}

/// Law: a destructure leaf with no local handler, under ambient handler
/// `h`, expands to exactly "bind `pat` from `expr`, else run `h`":
/// the tokens `let pat = expr else { h } ;`.
pub proof fn lemma_destructure_leaf_expansion(pat: Seq<TokM>, expr: Seq<TokM>, h: Seq<TokM>)
    ensures
        sp_expand_decl(
            DeclM::Clause { clause: ClauseM::LetElse { pat, expr }, handler: None },
            h,
        ) == seq![TokM::Ident("let"@)] + pat + seq![TokM::Eq] + expr + seq![
            TokM::Ident("else"@),
            TokM::Brace(h),
            TokM::Semi,
        ],
{
}

/// Law: a flattened group with the `Inherit` handler, under ambient handler
/// `h`, expands its body under `h` itself, and its expansion is spliced
/// into the surrounding sequence with no new brace scope around it, so the
/// body's bindings stay visible after the group.
pub proof fn lemma_flatten_inherit_group(body: Seq<DeclM>, h: Seq<TokM>)
    ensures
        sp_expand_decl(
            DeclM::Block { flatten: true, body, handler: InheritableM::Inherit },
            h,
        ) == sp_expand_decls(body, h),
{
}

/// Law: a group with an explicit handler expands the same under every
/// ambient handler: the explicit action overrides the ambient one for all
/// descendants that do not set a handler of their own.
pub proof fn lemma_explicit_handler_overrides(
    flatten: bool,
    body: Seq<DeclM>,
    action: Seq<TokM>,
    h1: Seq<TokM>,
    h2: Seq<TokM>,
)
    ensures
        sp_expand_decl(DeclM::Block { flatten, body, handler: InheritableM::Expr(action) }, h1)
            == sp_expand_decl(
            DeclM::Block { flatten, body, handler: InheritableM::Expr(action) },
            h2,
        ),
{
}

/// Law: the empty token list parses to the empty guard program, and the
/// empty guard program expands to the empty statement sequence, whatever
/// the ambient handler.
pub proof fn lemma_empty_program(h: Seq<TokM>)
    ensures
        sp_body(Seq::empty(), 0) == Some(Seq::<DeclM>::empty()),
        sp_expand_decls(Seq::empty(), h) == Seq::<TokM>::empty(),
{
}

proof fn lemma_sp_clause_push_comma(ts: Seq<TokM>, i: int)
    requires
        0 <= i <= ts.len(),
    ensures
        sp_clause(ts.push(TokM::Comma), i) == sp_clause(ts, i),
{
    let ts2 = ts.push(TokM::Comma);
    crate::common::lemma_sp_scan_push_comma(ts, i, false);
    crate::common::lemma_sp_scan_push_comma(ts, i, true);
    lemma_sp_scan(ts, i, false);
    lemma_sp_scan(ts, i, true);
    let ce = sp_scan(ts, i, false);
    let q = sp_scan(ts, i, true);
    if ce != i {
        if q < ts2.len() && ts2[q] is Eq {
            assert(q < ts.len());
            if !(q == i || q + 1 == ce) {
                assert(ts2.subrange(i, q) =~= ts.subrange(i, q));
                assert(ts2.subrange(q + 1, ce) =~= ts.subrange(q + 1, ce));
            }
        } else {
            assert(ts2.subrange(i, ce) =~= ts.subrange(i, ce));
        }
    }
}

proof fn lemma_sp_decl_push_comma(ts: Seq<TokM>, i: int)
    requires
        0 <= i <= ts.len(),
    ensures
        sp_decl(ts.push(TokM::Comma), i) == sp_decl(ts, i),
{
    let ts2 = ts.push(TokM::Comma);
    let flat = i < ts.len() && ts[i] is Star;
    assert(i < ts2.len() ==> ts2[i] == (if i < ts.len() {
        ts[i]
    } else {
        TokM::Comma
    }));
    let b: int = if flat { i + 1 } else { i };
    if b < ts.len() && ts[b] is Brace && b + 1 < ts.len() && ts[b + 1] is FatArrow {
        crate::common::lemma_sp_handler_push_comma(ts, b + 1);
        assert(ts2[b] == ts[b]);
    } else {
        lemma_sp_clause_push_comma(ts, i);
        lemma_sp_scan(ts, i, false);
        if sp_clause(ts, i) is Some {
            let ce = (sp_clause(ts, i)->0).1;
            crate::common::lemma_sp_handler_push_comma(ts, ce);
        }
    }
}

/// Law: a trailing comma after the final entry is accepted and has no
/// semantic effect: a program that parses without it parses to the very
/// same tree with it.
pub proof fn lemma_trailing_comma(ts: Seq<TokM>)
    requires
        ts.len() > 0,
        !(ts.last() is Comma),
        sp_body(ts, 0) is Some,
    ensures
        sp_body(ts.push(TokM::Comma), 0) == sp_body(ts, 0),
{
    lemma_trailing_comma_from(ts, 0);
}

proof fn lemma_trailing_comma_from(ts: Seq<TokM>, i: int)
    requires
        0 <= i < ts.len(),
        !(ts.last() is Comma),
        sp_body(ts, i) is Some,
    ensures
        sp_body(ts.push(TokM::Comma), i) == sp_body(ts, i),
    decreases ts.len() - i,
{
    let ts2 = ts.push(TokM::Comma);
    lemma_sp_decl_push_comma(ts, i);
    lemma_sp_decl_bounds(ts, i);
    let (d, n) = sp_decl(ts, i)->0;
    if n == ts.len() {
        assert(ts2[n] is Comma);
    } else {
        assert(ts[n] is Comma);
        assert(n + 1 < ts.len()) by {
            if n + 1 == ts.len() {
                assert(ts.last() == ts[n]);
            }
        }
        lemma_trailing_comma_from(ts, n + 1);
    }
}

/// The ambient handler tokens a bare invocation supplies:
/// `return ::core::default::Default::default()`.
pub open spec fn sp_default_handler() -> Seq<TokM> {
    seq![
        TokM::Ident("return"@),
        TokM::PathSep,
        TokM::Ident("core"@),
        TokM::PathSep,
        TokM::Ident("default"@),
        TokM::PathSep,
        TokM::Ident("Default"@),
        TokM::PathSep,
        TokM::Ident("default"@),
        TokM::Paren(Seq::empty()),
    ]
}

} // verus!
