use guard_macros::make_guard;
use guard_macros::common::ParseErrorKind;
use guard_macros::guard::GuardBody;
use guard_macros::tokens::Tok;

fn id(s: &str) -> Tok {
    Tok::Ident(s.to_string())
}

/// The `macro_rules` definition emitted for one template.
fn template_definition(name: &str, handler: Vec<Tok>) -> Vec<Tok> {
    let matcher = vec![
        Tok::Dollar,
        Tok::Paren(vec![Tok::Dollar, id("tt"), Tok::Colon, id("tt")]),
        Tok::Star,
    ];
    let splice = vec![
        Tok::Dollar,
        Tok::Paren(vec![Tok::Dollar, id("tt")]),
        Tok::Star,
    ];
    let mut call_args = vec![Tok::Star, Tok::Brace(splice), Tok::FatArrow];
    call_args.extend(handler);
    let call_body = vec![
        Tok::PathSep,
        id("guard_macros"),
        Tok::PathSep,
        id("guard"),
        Tok::Bang,
        Tok::Paren(call_args),
    ];
    vec![
        id("macro_rules"),
        Tok::Bang,
        id(name),
        Tok::Brace(vec![
            Tok::Paren(matcher),
            Tok::FatArrow,
            Tok::Brace(call_body),
        ]),
    ]
}

#[test]
fn empty_template_body() {
    assert_eq!(make_guard(&vec![]).unwrap(), Vec::<Tok>::new());
}

#[test]
fn single_template_with_underscore_handler() {
    // `make_guard!(guard => _)` from the original examples: the handler
    // expression is the lone `_` placeholder expression.
    let input = vec![id("guard"), Tok::FatArrow, Tok::Underscore];
    let expected = template_definition("guard", vec![Tok::Underscore]);
    assert_eq!(make_guard(&input).unwrap(), expected);
}

#[test]
fn two_templates_with_different_handlers() {
    let input = vec![
        id("abort_guard"),
        Tok::FatArrow,
        id("abort"),
        Tok::Paren(vec![]),
        Tok::Comma,
        id("bail_guard"),
        Tok::FatArrow,
        id("return"),
        id("None"),
        Tok::Comma,
    ];
    let mut expected = template_definition("abort_guard", vec![id("abort"), Tok::Paren(vec![])]);
    expected.extend(template_definition("bail_guard", vec![id("return"), id("None")]));
    assert_eq!(make_guard(&input).unwrap(), expected);
}

#[test]
fn template_without_handler_is_an_error() {
    let input = vec![id("name")];
    let err = make_guard(&input).unwrap_err();
    assert_eq!(err.kind, ParseErrorKind::ExpectedHandlerArrow);
}

#[test]
fn template_name_must_be_an_identifier() {
    let input = vec![Tok::Atom(5), Tok::FatArrow, id("h")];
    let err = make_guard(&input).unwrap_err();
    assert_eq!(err.kind, ParseErrorKind::ExpectedTemplateName);
}

#[test]
fn template_handler_without_expression_is_an_error() {
    let input = vec![id("name"), Tok::FatArrow, Tok::Comma];
    let err = make_guard(&input).unwrap_err();
    assert_eq!(err.kind, ParseErrorKind::ExpectedHandlerExpr);
}

#[test]
fn invocation_matches_direct_expansion_with_bound_handler() {
    // What the emitted macro passes to the guard expander for an
    // invocation on entries `e` is `*{ e } => handler`; its expansion must
    // equal expanding `e` directly under the bound handler.
    let entries = || vec![id("ok"), Tok::Comma, id("x"), Tok::Eq, id("y")];
    let handler = || vec![id("return"), id("None")];

    let mut invocation = vec![Tok::Star];
    invocation.push(Tok::Brace(entries()));
    invocation.push(Tok::FatArrow);
    invocation.extend(handler());
    let through_template = guard_macros::guard(&invocation).unwrap();

    let direct = GuardBody::parse(&entries()).unwrap().expand(&handler());
    assert_eq!(through_template, direct);
}

#[test]
fn template_error_positions() {
    // `ok => h, name`: the second declaration is missing its arrow, which
    // was expected right after the name.
    let input = vec![id("ok"), Tok::FatArrow, id("h"), Tok::Comma, id("name")];
    let err = make_guard(&input).unwrap_err();
    assert_eq!(err.kind, ParseErrorKind::ExpectedHandlerArrow);
    assert_eq!(err.at, 5);
}
