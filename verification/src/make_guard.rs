//! The template definer: named, reusable guard transformations, each bound
//! to a fixed default refute handler, emitted as `macro_rules` definitions
//! that route invocations back through the guard expander.

use vstd::prelude::*;

use crate::common::{
    lemma_sp_scan, sp_handler, sp_handler_error, sp_is_sep, InheritableM, ParseError,
    ParseErrorKind, RefuteHandler,
};
use crate::guard::{sp_body, sp_decl, sp_expand_decls, DeclM};
use crate::tokens::{
    lemma_toks_view_index, lemma_toks_view_len, lemma_toks_view_push, toks_clone, toks_view,
    Tok, TokM,
};
use vstd::string::StringExecFns;

verus! {

broadcast use lemma_toks_view_len, lemma_toks_view_index, lemma_toks_view_push, vstd::seq::axiom_seq_index_decreases, vstd::seq::axiom_seq_subrange_decreases, vstd::std_specs::vec::axiom_vec_decreases_to_view, vstd::std_specs::vec::axiom_vec_index_decreases;

/// One template declaration: a name, and the refute handler every
/// invocation of that name is bound to.
#[derive(Debug, PartialEq, Eq)]
pub struct MakeGuardExpr {
    pub ident: String,
    pub refute_handler: RefuteHandler,
}

/// Mathematical model of a template declaration.
#[verifier::ext_equal]
pub ghost struct MakeGuardExprM {
    pub name: Seq<char>,
    pub handler: Seq<TokM>,
}

impl View for MakeGuardExpr {
    type V = MakeGuardExprM;

    open spec fn view(&self) -> MakeGuardExprM {
        MakeGuardExprM { name: self.ident@, handler: self.refute_handler@ }
    }
}

/// An ordered list of template declarations.
#[derive(Debug, PartialEq, Eq)]
pub struct MakeGuardBody {
    pub exprs: Vec<MakeGuardExpr>,
}

pub open spec fn exprs_view(es: Seq<MakeGuardExpr>) -> Seq<MakeGuardExprM>
    decreases es,
{
    if es.len() == 0 {
        Seq::empty()
    } else {
        exprs_view(es.drop_last()).push(es.last()@)
    }
}

impl View for MakeGuardBody {
    type V = Seq<MakeGuardExprM>;

    open spec fn view(&self) -> Seq<MakeGuardExprM> {
        exprs_view(self.exprs@)
    }
}

pub broadcast proof fn lemma_exprs_view_len(es: Seq<MakeGuardExpr>)
    ensures
        #[trigger] exprs_view(es).len() == es.len(),
    decreases es,
{
    if es.len() > 0 {
        lemma_exprs_view_len(es.drop_last());
    }
}

pub broadcast proof fn lemma_exprs_view_index(es: Seq<MakeGuardExpr>, i: int)
    requires
        0 <= i < es.len(),
    ensures
        #[trigger] exprs_view(es)[i] == es[i]@,
    decreases es,
{
    lemma_exprs_view_len(es);
    if es.len() > 0 && i < es.len() - 1 {
        lemma_exprs_view_index(es.drop_last(), i);
    }
}

pub broadcast proof fn lemma_exprs_view_push(es: Seq<MakeGuardExpr>, e: MakeGuardExpr)
    ensures
        #[trigger] exprs_view(es.push(e)) == exprs_view(es).push(e@),
{
    assert(es.push(e).drop_last() =~= es);
}

/// One template declaration at `i`: an identifier, then a required `=>`
/// handler.
pub open spec fn sp_make_expr(ts: Seq<TokM>, i: int) -> Option<(MakeGuardExprM, int)>
    recommends
        0 <= i <= ts.len(),
{
    if i < ts.len() && ts[i] is Ident {
        match sp_handler(ts, i + 1) {
            None => None,
            Some((h, j)) => Some((MakeGuardExprM { name: ts[i]->Ident_0, handler: h }, j)),
        }
    } else {
        None
    }
}

/// A template body from `i` to the end: declarations separated by `,`,
/// with an optional trailing `,`.
pub open spec fn sp_make_body(ts: Seq<TokM>, i: int) -> Option<Seq<MakeGuardExprM>>
    decreases ts.len() - i,
    when 0 <= i <= ts.len()
{
    if i >= ts.len() {
        Some(Seq::empty())
    } else {
        match sp_make_expr(ts, i) {
            None => None,
            Some((m, n)) => {
                if n >= ts.len() {
                    Some(seq![m])
                } else if ts[n] is Comma {
                    if n + 1 >= ts.len() {
                        Some(seq![m])
                    } else {
                        // a declaration always consumes at least one token,
                        // so this bound equals n + 1; it keeps the measure
                        // decreasing without appeal to that fact
                        let next: int = if n + 1 > i + 1 {
                            n + 1
                        } else {
                            i + 1
                        };
                        match sp_make_body(ts, next) {
                            None => None,
                            Some(ms) => Some(seq![m] + ms),
                        }
                    }
                } else {
                    None
                }
            },
        }
    }
}

/// The diagnostic of a failed template declaration at `i`: the missing
/// identifier at `i` itself, or the handler's own diagnostic after it.
/// Meaningful only where `sp_make_expr` is `None`.
pub open spec fn sp_make_expr_error(ts: Seq<TokM>, i: int) -> ParseError
    recommends
        0 <= i <= ts.len(),
{
    if i < ts.len() && ts[i] is Ident {
        sp_handler_error(ts, i + 1)
    } else {
        ParseError { kind: ParseErrorKind::ExpectedTemplateName, at: i as usize }
    }
}

/// The diagnostic of a failed template body parse from `i`: the first
/// failing declaration's diagnostic, or the missing separator after a
/// complete one. Meaningful only where `sp_make_body` is `None`.
pub open spec fn sp_make_body_error(ts: Seq<TokM>, i: int) -> ParseError
    recommends
        0 <= i <= ts.len(),
    decreases ts.len() - i,
    when 0 <= i <= ts.len()
{
    if i >= ts.len() {
        ParseError { kind: ParseErrorKind::ExpectedCommaOrEnd, at: i as usize }
    } else {
        match sp_make_expr(ts, i) {
            None => sp_make_expr_error(ts, i),
            Some((m, n)) => {
                if n >= ts.len() {
                    ParseError { kind: ParseErrorKind::ExpectedCommaOrEnd, at: n as usize }
                } else if ts[n] is Comma {
                    if n + 1 >= ts.len() {
                        ParseError { kind: ParseErrorKind::ExpectedCommaOrEnd, at: n as usize }
                    } else {
                        let next: int = if n + 1 > i + 1 {
                            n + 1
                        } else {
                            i + 1
                        };
                        sp_make_body_error(ts, next)
                    }
                } else {
                    ParseError { kind: ParseErrorKind::ExpectedCommaOrEnd, at: n as usize }
                }
            },
        }
    }
}

/// The emitted definition of one template: a `macro_rules` item that routes
/// every invocation through the guard expander as a single flattened group
/// bound to the template's handler,
/// `macro_rules! <name> { ($($tt:tt)*) => { ::guard_macros::guard!(*{ $($tt)* } => <handler>) } }`.
pub open spec fn sp_expand_make_expr(m: MakeGuardExprM) -> Seq<TokM> {
    seq![
        TokM::Ident("macro_rules"@),
        TokM::Bang,
        TokM::Ident(m.name),
        TokM::Brace(
            seq![
                TokM::Paren(
                    seq![
                        TokM::Dollar,
                        TokM::Paren(
                            seq![TokM::Dollar, TokM::Ident("tt"@), TokM::Colon, TokM::Ident("tt"@)],
                        ),
                        TokM::Star,
                    ],
                ),
                TokM::FatArrow,
                TokM::Brace(
                    seq![
                        TokM::PathSep,
                        TokM::Ident("guard_macros"@),
                        TokM::PathSep,
                        TokM::Ident("guard"@),
                        TokM::Bang,
                        TokM::Paren(
                            seq![
                                TokM::Star,
                                TokM::Brace(
                                    seq![
                                        TokM::Dollar,
                                        TokM::Paren(seq![TokM::Dollar, TokM::Ident("tt"@)]),
                                        TokM::Star,
                                    ],
                                ),
                                TokM::FatArrow,
                            ] + m.handler,
                        ),
                    ],
                ),
            ],
        ),
    ]
}

/// The emitted definitions of a whole template body, in order.
pub open spec fn sp_expand_make(ms: Seq<MakeGuardExprM>) -> Seq<TokM>
    decreases ms,
{
    if ms.len() == 0 {
        Seq::empty()
    } else {
        sp_expand_make_expr(ms[0]) + sp_expand_make(ms.drop_first())
    }
}

proof fn lemma_expand_make_take_snoc(ms: Seq<MakeGuardExprM>, i: int)
    requires
        0 <= i < ms.len(),
    ensures
        sp_expand_make(ms.take(i + 1)) == sp_expand_make(ms.take(i)) + sp_expand_make_expr(ms[i]),
    decreases i,
{
    if i == 0 {
        assert(ms.take(1) =~= Seq::empty().push(ms[0]));
        assert(ms.take(1).drop_first() =~= Seq::<MakeGuardExprM>::empty());
        assert(ms.take(1)[0] == ms[0]);
        assert(sp_expand_make(ms.take(1).drop_first()) =~= Seq::<TokM>::empty());
        assert(sp_expand_make(ms.take(1)) == sp_expand_make_expr(ms.take(1)[0]) + sp_expand_make(
            ms.take(1).drop_first(),
        ));
        assert(sp_expand_make(ms.take(1)) =~= sp_expand_make_expr(ms[0]));
        assert(sp_expand_make(ms.take(0)) + sp_expand_make_expr(ms[0]) =~= sp_expand_make_expr(
            ms[0],
        ));
    } else {
        lemma_expand_make_take_snoc(ms.drop_first(), i - 1);
        assert(ms.take(i + 1).drop_first() =~= ms.drop_first().take(i));
        assert(ms.take(i).drop_first() =~= ms.drop_first().take(i - 1));
        assert(ms.take(i + 1)[0] == ms[0]);
        assert(ms.take(i)[0] == ms[0]);
        assert(ms.drop_first()[i - 1] == ms[i]);
        assert(sp_expand_make_expr(ms[0]) + (sp_expand_make(ms.drop_first().take(i - 1))
            + sp_expand_make_expr(ms[i])) =~= (sp_expand_make_expr(ms[0]) + sp_expand_make(
            ms.drop_first().take(i - 1),
        )) + sp_expand_make_expr(ms[i]));
    }
}

/// Law: defining a template bound to action `a` and then invoking it on
/// entry tokens `e` expands exactly as expanding `e` directly under the
/// ambient handler `a`.
///
/// The emitted macro passes `* { e } => a` to the guard expander, so the
/// invocation's tokens are `call` below. That input parses to a single
/// flattened group whose body is the parse of `e` and whose handler is
/// explicitly `a`; its expansion under any ambient handler `h` is the
/// expansion of `e` under `a`, spliced without a new scope.
///
/// The premises say that `a` is a handler expression as the template body
/// parser produced it: nonempty, free of top-level `,` and `=>`, and not
/// beginning with the `_` inheritance marker.
pub proof fn lemma_template_invocation(e: Seq<TokM>, a: Seq<TokM>, h: Seq<TokM>)
    requires
        sp_body(e, 0) is Some,
        a.len() > 0,
        !(a[0] is Underscore),
        forall|k: int| 0 <= k < a.len() ==> !sp_is_sep(#[trigger] a[k], false),
    ensures
        ({
            let call = seq![TokM::Star, TokM::Brace(e), TokM::FatArrow] + a;
            &&& sp_body(call, 0) == Some(
                seq![
                    DeclM::Block {
                        flatten: true,
                        body: sp_body(e, 0)->0,
                        handler: InheritableM::Expr(a),
                    },
                ],
            )
            &&& sp_expand_decls(sp_body(call, 0)->0, h) == sp_expand_decls(sp_body(e, 0)->0, a)
        }),
{
    let call = seq![TokM::Star, TokM::Brace(e), TokM::FatArrow] + a;
    let n = call.len();
    assert(n == 3 + a.len());
    assert(call[0] is Star);
    assert(call[1] == TokM::Brace(e));
    assert(call[2] is FatArrow);
    assert(forall|k: int| 3 <= k < n ==> call[k] == a[k - 3]);
    assert(!(call[3] is Underscore));
    lemma_sp_scan(call, 3, false);
    let sc = crate::common::sp_scan(call, 3, false);
    assert(sc == n) by {
        if sc < n {
            assert(sp_is_sep(call[sc], false));
            assert(sc >= 3);
            assert(!sp_is_sep(a[sc - 3], false));
        }
    }
    assert(call.subrange(3, n as int) =~= a);
    let block = DeclM::Block {
        flatten: true,
        body: sp_body(e, 0)->0,
        handler: InheritableM::Expr(a),
    };
    assert(sp_decl(call, 0) == Some((block, n as int)));
    assert(sp_body(call, 0) == Some(seq![block]));
    assert(seq![block].drop_first() =~= Seq::<DeclM>::empty());
    assert(seq![block][0] == block);
    assert(sp_expand_decls(seq![block], h) == sp_expand_decls(sp_body(e, 0)->0, a)) by {
        assert(sp_expand_decls(Seq::<DeclM>::empty(), h) =~= Seq::<TokM>::empty());
        assert(crate::guard::sp_expand_decl(block, h) == sp_expand_decls(sp_body(e, 0)->0, a));
        assert(sp_expand_decls(seq![block], h) =~= crate::guard::sp_expand_decl(block, h));
    }
}

impl MakeGuardExpr {
    /// Parses one template declaration at `pos`.
    pub fn parse(toks: &Vec<Tok>, pos: usize) -> (r: Result<(MakeGuardExpr, usize), ParseError>)
        requires
            pos <= toks@.len(),
        ensures
            ({
                let v = toks_view(toks@);
                &&& (r is Ok <==> sp_make_expr(v, pos as int) is Some)
                &&& (r is Ok ==> sp_make_expr(v, pos as int) == Some(
                    ((r->Ok_0.0)@, (r->Ok_0.1) as int),
                ))
                &&& (r is Ok ==> pos < r->Ok_0.1 <= toks@.len())
                &&& (r is Err ==> r->Err_0 == sp_make_expr_error(v, pos as int))
            }),
    {
        let ghost v = toks_view(toks@);
        if pos < toks.len() {
            if let Tok::Ident(name) = &toks[pos] {
                let ident = name.clone();
                let (refute_handler, j) = match RefuteHandler::parse(toks, pos + 1) {
                    Ok(x) => x,
                    Err(e) => {
                        return Err(e);
                    },
                };
                return Ok((MakeGuardExpr { ident, refute_handler }, j));
            }
        }
        Err(ParseError { kind: ParseErrorKind::ExpectedTemplateName, at: pos })
    }

    /// Emits the `macro_rules` definition for this template.
    pub fn expand(&self) -> (out: Vec<Tok>)
        ensures
            toks_view(out@) == sp_expand_make_expr(self@),
    {
        // $tt:tt
        let mut matcher_inner: Vec<Tok> = Vec::new();
        matcher_inner.push(Tok::Dollar);
        matcher_inner.push(Tok::Ident(String::from_str("tt")));
        matcher_inner.push(Tok::Colon);
        matcher_inner.push(Tok::Ident(String::from_str("tt")));
        let ghost g_matcher_inner = toks_view(matcher_inner@);
        // $($tt:tt)*
        let mut matcher: Vec<Tok> = Vec::new();
        matcher.push(Tok::Dollar);
        matcher.push(Tok::Paren(matcher_inner));
        matcher.push(Tok::Star);
        let ghost g_matcher = toks_view(matcher@);
        // $tt
        let mut splice_inner: Vec<Tok> = Vec::new();
        splice_inner.push(Tok::Dollar);
        splice_inner.push(Tok::Ident(String::from_str("tt")));
        let ghost g_splice_inner = toks_view(splice_inner@);
        // $($tt)*
        let mut splice: Vec<Tok> = Vec::new();
        splice.push(Tok::Dollar);
        splice.push(Tok::Paren(splice_inner));
        splice.push(Tok::Star);
        let ghost g_splice = toks_view(splice@);
        // *{ $($tt)* } => <handler>
        let mut call_args: Vec<Tok> = Vec::new();
        call_args.push(Tok::Star);
        call_args.push(Tok::Brace(splice));
        call_args.push(Tok::FatArrow);
        let mut handler = toks_clone(self.refute_handler.expr());
        call_args.append(&mut handler);
        let ghost g_call_args = toks_view(call_args@);
        // ::guard_macros::guard!( ... )
        let mut call_body: Vec<Tok> = Vec::new();
        call_body.push(Tok::PathSep);
        call_body.push(Tok::Ident(String::from_str("guard_macros")));
        call_body.push(Tok::PathSep);
        call_body.push(Tok::Ident(String::from_str("guard")));
        call_body.push(Tok::Bang);
        call_body.push(Tok::Paren(call_args));
        let ghost g_call_body = toks_view(call_body@);
        // ( $($tt:tt)* ) => { ... }
        let mut rules: Vec<Tok> = Vec::new();
        rules.push(Tok::Paren(matcher));
        rules.push(Tok::FatArrow);
        rules.push(Tok::Brace(call_body));
        let ghost g_rules = toks_view(rules@);
        // macro_rules! <name> { ... }
        let mut out: Vec<Tok> = Vec::new();
        out.push(Tok::Ident(String::from_str("macro_rules")));
        out.push(Tok::Bang);
        out.push(Tok::Ident(self.ident.clone()));
        out.push(Tok::Brace(rules));
        proof {
            let m = self@;
            assert(g_matcher_inner =~= seq![
                TokM::Dollar,
                TokM::Ident("tt"@),
                TokM::Colon,
                TokM::Ident("tt"@),
            ]);
            assert(g_matcher =~= seq![
                TokM::Dollar,
                TokM::Paren(g_matcher_inner),
                TokM::Star,
            ]);
            assert(g_splice_inner =~= seq![TokM::Dollar, TokM::Ident("tt"@)]);
            assert(g_splice =~= seq![
                TokM::Dollar,
                TokM::Paren(g_splice_inner),
                TokM::Star,
            ]);
            assert(g_call_args =~= seq![
                TokM::Star,
                TokM::Brace(g_splice),
                TokM::FatArrow,
            ] + m.handler);
            assert(g_call_body =~= seq![
                TokM::PathSep,
                TokM::Ident("guard_macros"@),
                TokM::PathSep,
                TokM::Ident("guard"@),
                TokM::Bang,
                TokM::Paren(g_call_args),
            ]);
            assert(g_rules =~= seq![
                TokM::Paren(g_matcher),
                TokM::FatArrow,
                TokM::Brace(g_call_body),
            ]);
            assert(toks_view(out@) =~= seq![
                TokM::Ident("macro_rules"@),
                TokM::Bang,
                TokM::Ident(m.name),
                TokM::Brace(g_rules),
            ]);
            assert(toks_view(out@) =~= sp_expand_make_expr(m));
        }
        out
    }
}

impl MakeGuardBody {
    /// Parses a whole token list as a template body.
    pub fn parse(toks: &Vec<Tok>) -> (r: Result<MakeGuardBody, ParseError>)
        ensures
            r is Ok <==> sp_make_body(toks_view(toks@), 0) is Some,
            r is Ok ==> Some(r->Ok_0@) == sp_make_body(toks_view(toks@), 0),
            r is Err ==> r->Err_0 == sp_make_body_error(toks_view(toks@), 0),
    {
        let ghost v = toks_view(toks@);
        let mut exprs: Vec<MakeGuardExpr> = Vec::new();
        let mut i: usize = 0;
        proof {
            if sp_make_body(v, 0) is Some {
                assert(exprs_view(exprs@) + (sp_make_body(v, 0)->0) =~= sp_make_body(v, 0)->0);
            }
        }
        while i < toks.len()
            invariant
                i <= toks@.len(),
                v == toks_view(toks@),
                sp_make_body(v, 0) == (match sp_make_body(v, i as int) {
                    Some(ms) => Some(exprs_view(exprs@) + ms),
                    None => None,
                }),
                sp_make_body(v, i as int) is None ==> sp_make_body_error(v, 0)
                    == sp_make_body_error(v, i as int),
            decreases toks@.len() - i,
        {
            let ghost pre = exprs_view(exprs@);
            let (m, n) = match MakeGuardExpr::parse(toks, i) {
                Ok(x) => x,
                Err(e) => {
                    return Err(e);
                },
            };
            proof {
                lemma_exprs_view_push(exprs@, m);
            }
            exprs.push(m);
            if n == toks.len() {
                proof {
                    assert(sp_make_body(v, i as int) == Some(seq![m@]));
                    assert(pre + seq![m@] =~= exprs_view(exprs@));
                }
                i = n;
            } else if matches!(&toks[n], Tok::Comma) {
                proof {
                    assert(v[n as int] is Comma);
                }
                if n + 1 == toks.len() {
                    proof {
                        assert(sp_make_body(v, i as int) == Some(seq![m@]));
                        assert(pre + seq![m@] =~= exprs_view(exprs@));
                    }
                } else {
                    proof {
                        assert(sp_make_body(v, i as int) == (match sp_make_body(v, n + 1) {
                            Some(ms) => Some(seq![m@] + ms),
                            None => None,
                        }));
                        if sp_make_body(v, n + 1) is Some {
                            assert(pre + (seq![m@] + (sp_make_body(v, n + 1)->0)) =~= exprs_view(
                                exprs@,
                            ) + (sp_make_body(v, n + 1)->0));
                        }
                    }
                }
                i = n + 1;
            } else {
                return Err(ParseError { kind: ParseErrorKind::ExpectedCommaOrEnd, at: n });
            }
        }
        proof {
            assert(exprs_view(exprs@) + Seq::<MakeGuardExprM>::empty() =~= exprs_view(exprs@));
        }
        Ok(MakeGuardBody { exprs })
    }

    /// Emits the `macro_rules` definitions of every declared template, in
    /// order.
    pub fn expand(&self) -> (out: Vec<Tok>)
        ensures
            toks_view(out@) == sp_expand_make(self@),
    {
        let mut out: Vec<Tok> = Vec::new();
        let mut i: usize = 0;
        proof {
            lemma_exprs_view_len(self.exprs@);
            assert(self@.take(0) =~= Seq::<MakeGuardExprM>::empty());
            assert(toks_view(out@) =~= sp_expand_make(self@.take(0)));
        }
        while i < self.exprs.len()
            invariant
                i <= self.exprs@.len(),
                self@.len() == self.exprs@.len(),
                toks_view(out@) == sp_expand_make(self@.take(i as int)),
            decreases self.exprs@.len() - i,
        {
            let e = &self.exprs[i];
            let mut part = e.expand();
            proof {
                lemma_exprs_view_len(self.exprs@);
                lemma_exprs_view_index(self.exprs@, i as int);
                lemma_expand_make_take_snoc(self@, i as int);
            }
            out.append(&mut part);
            i = i + 1;
        }
        proof {
            lemma_exprs_view_len(self.exprs@);
            assert(self@.take(self@.len() as int) =~= self@);
        }
        out
    }
}

} // verus!
