//! The token model: the host token stream as the guard grammar sees it,
//! its mathematical view, and the small verified utilities (deep copy,
//! range copy) the parser and expander build on.

use vstd::prelude::*;

verus! {

broadcast use vstd::std_specs::vec::axiom_vec_decreases_to_view, vstd::std_specs::vec::axiom_vec_index_decreases, vstd::seq::axiom_seq_index_decreases, vstd::seq::axiom_seq_subrange_decreases;

/// One host token, at the granularity the guard grammar distinguishes.
///
/// The guard notation only inspects a handful of punctuation tokens and the
/// delimiter structure of the host token stream; every other host token
/// (a literal, a compound operator, a bracketed group) is opaque to it and is
/// carried through unchanged as an `Atom`, identified by a number that the
/// host boundary assigns. Brace and parenthesis groups keep their nested
/// token lists, because the grammar looks inside braces and the expander
/// builds new brace and parenthesis groups.
#[derive(Debug, PartialEq, Eq)]
pub enum Tok {
    /// `,`
    Comma,
    /// a lone `=`
    Eq,
    /// `=>`
    FatArrow,
    /// `*`
    Star,
    /// `_`
    Underscore,
    /// `!`
    Bang,
    /// `;`
    Semi,
    /// `$`
    Dollar,
    /// a lone `:`
    Colon,
    /// `::`
    PathSep,
    /// an identifier or keyword
    Ident(String),
    /// a brace-delimited group holding its interior tokens
    Brace(Vec<Tok>),
    /// a parenthesis-delimited group holding its interior tokens
    Paren(Vec<Tok>),
    /// any other host token, opaque to the grammar
    Atom(u64),
}

/// Mathematical model of a token.
#[verifier::ext_equal]
pub ghost enum TokM {
    Comma,
    Eq,
    FatArrow,
    Star,
    Underscore,
    Bang,
    Semi,
    Dollar,
    Colon,
    PathSep,
    Ident(Seq<char>),
    Brace(Seq<TokM>),
    Paren(Seq<TokM>),
    Atom(u64),
}

pub open spec fn tok_view(t: Tok) -> TokM
    decreases t,
{
    match t {
        Tok::Comma => TokM::Comma,
        Tok::Eq => TokM::Eq,
        Tok::FatArrow => TokM::FatArrow,
        Tok::Star => TokM::Star,
        Tok::Underscore => TokM::Underscore,
        Tok::Bang => TokM::Bang,
        Tok::Semi => TokM::Semi,
        Tok::Dollar => TokM::Dollar,
        Tok::Colon => TokM::Colon,
        Tok::PathSep => TokM::PathSep,
        Tok::Ident(s) => TokM::Ident(s@),
        Tok::Brace(ts) => TokM::Brace(toks_view(ts@)),
        Tok::Paren(ts) => TokM::Paren(toks_view(ts@)),
        Tok::Atom(n) => TokM::Atom(n),
    }
}

pub open spec fn toks_view(ts: Seq<Tok>) -> Seq<TokM>
    decreases ts,
{
    if ts.len() == 0 {
        Seq::empty()
    } else {
        toks_view(ts.drop_last()).push(tok_view(ts.last()))
    }
}

impl View for Tok {
    type V = TokM;

    open spec fn view(&self) -> TokM {
        tok_view(*self)
    }
}

pub broadcast proof fn lemma_toks_view_len(ts: Seq<Tok>)
    ensures
        #[trigger] toks_view(ts).len() == ts.len(),
    decreases ts,
{
    if ts.len() > 0 {
        lemma_toks_view_len(ts.drop_last());
    }
}

pub broadcast proof fn lemma_toks_view_index(ts: Seq<Tok>, i: int)
    requires
        0 <= i < ts.len(),
    ensures
        #[trigger] toks_view(ts)[i] == tok_view(ts[i]),
    decreases ts,
{
    lemma_toks_view_len(ts);
    if ts.len() > 0 && i < ts.len() - 1 {
        lemma_toks_view_index(ts.drop_last(), i);
    }
}

pub broadcast proof fn lemma_toks_view_push(ts: Seq<Tok>, t: Tok)
    ensures
        #[trigger] toks_view(ts.push(t)) == toks_view(ts).push(tok_view(t)),
{
    assert(ts.push(t).drop_last() =~= ts);
}

pub broadcast proof fn lemma_toks_view_concat(a: Seq<Tok>, b: Seq<Tok>)
    ensures
        #[trigger] toks_view(a + b) == toks_view(a) + toks_view(b),
    decreases b,
{
    if b.len() == 0 {
        assert(a + b =~= a);
        assert(toks_view(a) + toks_view(b) =~= toks_view(a));
    } else {
        lemma_toks_view_concat(a, b.drop_last());
        lemma_toks_view_len(a);
        lemma_toks_view_len(b);
        lemma_toks_view_len(a + b);
        assert((a + b).drop_last() =~= a + b.drop_last());
        assert((a + b).last() == b.last());
        assert(toks_view(a) + toks_view(b) =~= (toks_view(a) + toks_view(b.drop_last())).push(
            tok_view(b.last()),
        ));
    }
}

/// Size of a token tree, counting every nested token; at least 1.
pub open spec fn tokm_size(t: TokM) -> nat
    decreases t,
{
    match t {
        TokM::Brace(ts) => 1 + tokms_size(ts),
        TokM::Paren(ts) => 1 + tokms_size(ts),
        _ => 1,
    }
}

pub open spec fn tokms_size(ts: Seq<TokM>) -> nat
    decreases ts,
{
    if ts.len() == 0 {
        0
    } else {
        tokms_size(ts.drop_last()) + tokm_size(ts.last())
    }
}

pub proof fn lemma_tokms_size_index(ts: Seq<TokM>, i: int)
    requires
        0 <= i < ts.len(),
    ensures
        tokm_size(ts[i]) <= tokms_size(ts),
    decreases ts,
{
    if i < ts.len() - 1 {
        lemma_tokms_size_index(ts.drop_last(), i);
    }
}

/// Deep copy of one token; the model is preserved exactly.
pub fn tok_clone(t: &Tok) -> (r: Tok)
    ensures
        r@ == t@,
    decreases *t,
{
    match t {
        Tok::Comma => Tok::Comma,
        Tok::Eq => Tok::Eq,
        Tok::FatArrow => Tok::FatArrow,
        Tok::Star => Tok::Star,
        Tok::Underscore => Tok::Underscore,
        Tok::Bang => Tok::Bang,
        Tok::Semi => Tok::Semi,
        Tok::Dollar => Tok::Dollar,
        Tok::Colon => Tok::Colon,
        Tok::PathSep => Tok::PathSep,
        Tok::Ident(s) => Tok::Ident(s.clone()),
        Tok::Brace(ts) => Tok::Brace(toks_clone(ts)),
        Tok::Paren(ts) => Tok::Paren(toks_clone(ts)),
        Tok::Atom(n) => Tok::Atom(*n),
    }
}

/// Deep copy of a token list; the models are preserved exactly.
pub fn toks_clone(ts: &Vec<Tok>) -> (r: Vec<Tok>)
    ensures
        toks_view(r@) == toks_view(ts@),
    decreases *ts,
{
    let mut r: Vec<Tok> = Vec::new();
    let mut i: usize = 0;
    while i < ts.len()
        invariant
            i <= ts.len(),
            toks_view(r@) =~= toks_view(ts@).subrange(0, i as int),
        decreases ts.len() - i,
    {
        let t = tok_clone(&ts[i]);
        proof {
            lemma_toks_view_push(r@, t);
            lemma_toks_view_index(ts@, i as int);
            lemma_toks_view_len(ts@);
            assert(toks_view(ts@).subrange(0, i + 1) =~= toks_view(ts@).subrange(
                0,
                i as int,
            ).push(toks_view(ts@)[i as int]));
        }
        r.push(t);
        i = i + 1;
    }
    proof {
        lemma_toks_view_len(ts@);
        assert(toks_view(ts@).subrange(0, ts@.len() as int) =~= toks_view(ts@));
    }
    r
}

/// Copies the token range `[from, until)` out of `ts`.
pub fn copy_range(ts: &Vec<Tok>, from: usize, until: usize) -> (r: Vec<Tok>)
    requires
        from <= until <= ts@.len(),
    ensures
        toks_view(r@) == toks_view(ts@).subrange(from as int, until as int),
{
    let mut r: Vec<Tok> = Vec::new();
    let mut i: usize = from;
    proof {
        lemma_toks_view_len(ts@);
    }
    while i < until
        invariant
            from <= i <= until <= ts@.len(),
            toks_view(r@) =~= toks_view(ts@).subrange(from as int, i as int),
        decreases until - i,
    {
        let t = tok_clone(&ts[i]);
        proof {
            lemma_toks_view_push(r@, t);
            lemma_toks_view_index(ts@, i as int);
            lemma_toks_view_len(ts@);
            assert(toks_view(ts@).subrange(from as int, i + 1) =~= toks_view(ts@).subrange(
                from as int,
                i as int,
            ).push(toks_view(ts@)[i as int]));
        }
        r.push(t);
        i = i + 1;
    }
    r
}

} // verus!
