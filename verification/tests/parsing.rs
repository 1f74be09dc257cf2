use guard_macros::guard;
use guard_macros::common::{ParseError, ParseErrorKind, RefuteHandler, RefuteHandlerInheritable};
use guard_macros::tokens::Tok;

fn id(s: &str) -> Tok {
    Tok::Ident(s.to_string())
}

#[test]
fn trailing_comma_is_accepted_and_meaningless() {
    let bare = vec![id("x"), Tok::Eq, id("y")];
    let trailing = vec![id("x"), Tok::Eq, id("y"), Tok::Comma];
    assert_eq!(guard(&bare).unwrap(), guard(&trailing).unwrap());
}

#[test]
fn double_trailing_comma_is_an_error() {
    let input = vec![id("x"), Tok::Comma, Tok::Comma];
    assert!(guard(&input).is_err());
}

#[test]
fn lone_comma_is_an_error() {
    assert!(guard(&vec![Tok::Comma]).is_err());
}

#[test]
fn empty_entry_between_commas_is_an_error() {
    let input = vec![id("a"), Tok::Comma, Tok::Comma, id("b")];
    assert!(guard(&input).is_err());
}

#[test]
fn destructure_with_empty_pattern_is_an_error() {
    // `= b`: neither a destructure nor a boolean test
    let input = vec![Tok::Eq, id("b")];
    let err = guard(&input).unwrap_err();
    assert_eq!(err, ParseError { kind: ParseErrorKind::ExpectedClause, at: 0 });
}

#[test]
fn destructure_with_empty_expression_is_an_error() {
    // `a =` followed by the end of the entry
    let input = vec![id("a"), Tok::Eq];
    assert!(guard(&input).is_err());
}

#[test]
fn handler_arrow_without_expression_is_an_error() {
    // `a =>` with nothing after the arrow
    let input = vec![id("a"), Tok::FatArrow];
    let err = guard(&input).unwrap_err();
    assert_eq!(err.kind, ParseErrorKind::ExpectedHandlerExpr);
}

#[test]
fn group_handler_arrow_without_expression_is_an_error() {
    // `{ a } =>` commits to the group form and then fails on the handler
    let input = vec![Tok::Brace(vec![id("a")]), Tok::FatArrow];
    let err = guard(&input).unwrap_err();
    assert_eq!(err.kind, ParseErrorKind::ExpectedHandlerExpr);
}

#[test]
fn group_with_unparsable_body_is_an_error() {
    // `{ , } => h`: the handler commits the group, whose body fails
    let input = vec![Tok::Brace(vec![Tok::Comma]), Tok::FatArrow, id("h")];
    assert!(guard(&input).is_err());
}

#[test]
fn missing_separator_between_entries_is_an_error() {
    // `a => x => y`: after one full entry a second `=>` follows
    let input = vec![id("a"), Tok::FatArrow, id("x"), Tok::FatArrow, id("y")];
    let err = guard(&input).unwrap_err();
    assert_eq!(err.kind, ParseErrorKind::ExpectedCommaOrEnd);
}

#[test]
fn star_without_brace_is_a_dereference_test() {
    // `*x`: the flatten marker only matters before a brace group
    let out = guard(&vec![Tok::Star, id("x")]).unwrap();
    assert_eq!(
        out,
        vec![
            id("if"),
            Tok::Bang,
            Tok::Paren(vec![Tok::Star, id("x")]),
            Tok::Brace(guard_macros::guard::GuardBody::default_handler()),
        ]
    );
}

#[test]
fn destructure_splits_at_first_top_level_eq() {
    // `a = b = c`: the pattern is `a`, the expression is `b = c`
    let out = guard(&vec![id("a"), Tok::Eq, id("b"), Tok::Eq, id("c")]).unwrap();
    let mut expected = vec![id("let"), id("a"), Tok::Eq, id("b"), Tok::Eq, id("c")];
    expected.push(id("else"));
    expected.push(Tok::Brace(guard_macros::guard::GuardBody::default_handler()));
    expected.push(Tok::Semi);
    assert_eq!(out, expected);
}

#[test]
fn eq_inside_group_does_not_split() {
    // `f({k = v})`: the `=` is nested, so the clause is a boolean test
    let input = vec![
        id("f"),
        Tok::Paren(vec![Tok::Brace(vec![id("k"), Tok::Eq, id("v")])]),
    ];
    let out = guard(&input).unwrap();
    assert!(out[0] == id("if"));
    assert!(out[1] == Tok::Bang);
}

#[test]
fn try_parse_absent_handler_is_not_an_error() {
    let toks = vec![id("a")];
    let (h, next) = RefuteHandler::try_parse(&toks, 1).unwrap();
    assert!(h.is_none());
    assert_eq!(next, 1);
}

#[test]
fn try_parse_present_handler() {
    let toks = vec![id("a"), Tok::FatArrow, id("b"), id("c"), Tok::Comma];
    let (h, next) = RefuteHandler::try_parse(&toks, 1).unwrap();
    assert_eq!(h.unwrap().expr(), &vec![id("b"), id("c")]);
    assert_eq!(next, 4);
}

#[test]
fn inheritable_handler_underscore_means_inherit() {
    let toks = vec![Tok::FatArrow, Tok::Underscore];
    let (h, next) = RefuteHandlerInheritable::parse(&toks, 0).unwrap();
    assert_eq!(h, RefuteHandlerInheritable::Inherit);
    assert_eq!(next, 2);
    assert!(h.expr().is_none());
}

#[test]
fn inheritable_handler_expression() {
    let toks = vec![Tok::FatArrow, id("act"), Tok::Paren(vec![])];
    let (h, next) = RefuteHandlerInheritable::parse(&toks, 0).unwrap();
    assert_eq!(next, 3);
    assert_eq!(h.expr().unwrap(), &vec![id("act"), Tok::Paren(vec![])]);
}

#[test]
fn brace_as_second_token_of_a_clause_stays_a_clause() {
    // `m { a } = z`: the brace group is not at the start of the entry, so
    // the group trial never begins; the entry is a destructure whose
    // pattern is `m { a }`.
    let input = vec![id("m"), Tok::Brace(vec![id("a")]), Tok::Eq, id("z")];
    let out = guard(&input).unwrap();
    assert_eq!(out[0], id("let"));
    assert_eq!(out[1], id("m"));
    assert_eq!(out[2], Tok::Brace(vec![id("a")]));
    assert_eq!(out[3], Tok::Eq);
    assert_eq!(out[4], id("z"));
}

#[test]
fn empty_group_expands_to_an_empty_scope() {
    // `{} => h` -> `{}`
    let input = vec![Tok::Brace(vec![]), Tok::FatArrow, id("h")];
    assert_eq!(guard(&input).unwrap(), vec![Tok::Brace(vec![])]);
}

#[test]
fn empty_flattened_group_expands_to_nothing() {
    // `*{} => h` -> nothing at all
    let input = vec![Tok::Star, Tok::Brace(vec![]), Tok::FatArrow, id("h")];
    assert_eq!(guard(&input).unwrap(), Vec::<Tok>::new());
}

#[test]
fn error_position_is_the_failing_entry() {
    // `a, = b`: the first entry parses; the diagnostic points at the
    // second entry's start.
    let input = vec![id("a"), Tok::Comma, Tok::Eq, id("b")];
    let err = guard(&input).unwrap_err();
    assert_eq!(err, ParseError { kind: ParseErrorKind::ExpectedClause, at: 2 });
}

#[test]
fn error_inside_a_group_is_relative_to_the_interior() {
    // `ok, { x, = b } => h`: the failure lies inside the brace group, and
    // the diagnostic's index counts within the group's own token list.
    let input = vec![
        id("ok"),
        Tok::Comma,
        Tok::Brace(vec![id("x"), Tok::Comma, Tok::Eq, id("b")]),
        Tok::FatArrow,
        id("h"),
    ];
    let err = guard(&input).unwrap_err();
    assert_eq!(err, ParseError { kind: ParseErrorKind::ExpectedClause, at: 2 });
}

#[test]
fn handler_error_positions() {
    // `a => ,`: the missing handler expression is reported right after the
    // arrow.
    let input = vec![id("a"), Tok::FatArrow, Tok::Comma];
    let err = guard(&input).unwrap_err();
    assert_eq!(err, ParseError { kind: ParseErrorKind::ExpectedHandlerExpr, at: 2 });
}
