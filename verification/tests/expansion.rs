use guard_macros::guard;
use guard_macros::guard::GuardBody;
use guard_macros::tokens::{tok_clone, Tok};

fn id(s: &str) -> Tok {
    Tok::Ident(s.to_string())
}

/// `return ::core::default::Default::default()`
fn default_handler() -> Vec<Tok> {
    vec![
        id("return"),
        Tok::PathSep,
        id("core"),
        Tok::PathSep,
        id("default"),
        Tok::PathSep,
        id("Default"),
        Tok::PathSep,
        id("default"),
        Tok::Paren(vec![]),
    ]
}

/// `let <pat> = <expr> else { <h> };`
fn let_else(pat: Vec<Tok>, expr: Vec<Tok>, h: Vec<Tok>) -> Vec<Tok> {
    let mut out = vec![id("let")];
    out.extend(pat);
    out.push(Tok::Eq);
    out.extend(expr);
    out.push(id("else"));
    out.push(Tok::Brace(h));
    out.push(Tok::Semi);
    out
}

/// `if !( <expr> ) { <h> }`
fn if_not(expr: Vec<Tok>, h: Vec<Tok>) -> Vec<Tok> {
    vec![id("if"), Tok::Bang, Tok::Paren(expr), Tok::Brace(h)]
}

#[test]
fn empty_program_expands_to_nothing() {
    let out = guard(&vec![]).unwrap();
    assert_eq!(out, Vec::<Tok>::new());
}

#[test]
fn single_test_clause() {
    // `cond` -> `if !(cond) { return ::core::default::Default::default() }`
    let out = guard(&vec![id("cond")]).unwrap();
    assert_eq!(out, if_not(vec![id("cond")], default_handler()));
}

#[test]
fn single_destructure_clause() {
    // `x = y` -> `let x = y else { ... };`
    let out = guard(&vec![id("x"), Tok::Eq, id("y")]).unwrap();
    assert_eq!(out, let_else(vec![id("x")], vec![id("y")], default_handler()));
}

#[test]
fn local_handler_replaces_ambient() {
    // `cond => bail` -> `if !(cond) { bail }`
    let out = guard(&vec![id("cond"), Tok::FatArrow, id("bail")]).unwrap();
    assert_eq!(out, if_not(vec![id("cond")], vec![id("bail")]));
}

#[test]
fn four_sequential_guards() {
    // `(a,b) = (1,2), Some(c) = Some(3), a <= b, a + b == c` with the
    // default ambient handler: four guards in that exact order, each
    // falling back to the ambient handler on its own failure.
    let input = vec![
        Tok::Paren(vec![id("a"), Tok::Comma, id("b")]),
        Tok::Eq,
        Tok::Paren(vec![Tok::Atom(1), Tok::Comma, Tok::Atom(2)]),
        Tok::Comma,
        id("Some"),
        Tok::Paren(vec![id("c")]),
        Tok::Eq,
        id("Some"),
        Tok::Paren(vec![Tok::Atom(3)]),
        Tok::Comma,
        id("a"),
        Tok::Atom(10), // `<=`
        id("b"),
        Tok::Comma,
        id("a"),
        Tok::Atom(11), // `+`
        id("b"),
        Tok::Atom(12), // `==`
        id("c"),
    ];
    let mut expected = Vec::new();
    expected.extend(let_else(
        vec![Tok::Paren(vec![id("a"), Tok::Comma, id("b")])],
        vec![Tok::Paren(vec![Tok::Atom(1), Tok::Comma, Tok::Atom(2)])],
        default_handler(),
    ));
    expected.extend(let_else(
        vec![id("Some"), Tok::Paren(vec![id("c")])],
        vec![id("Some"), Tok::Paren(vec![Tok::Atom(3)])],
        default_handler(),
    ));
    expected.extend(if_not(
        vec![id("a"), Tok::Atom(10), id("b")],
        default_handler(),
    ));
    expected.extend(if_not(
        vec![id("a"), Tok::Atom(11), id("b"), Tok::Atom(12), id("c")],
        default_handler(),
    ));
    assert_eq!(guard(&input).unwrap(), expected);
}

#[test]
fn flattened_group_inherits_and_splices() {
    // `*{ bar = 2 } => _`: the destructure inherits the ambient handler and
    // is spliced without a new scope, so `bar` stays bound afterwards.
    let input = vec![
        Tok::Star,
        Tok::Brace(vec![id("bar"), Tok::Eq, Tok::Atom(2)]),
        Tok::FatArrow,
        Tok::Underscore,
    ];
    let expected = let_else(vec![id("bar")], vec![Tok::Atom(2)], default_handler());
    assert_eq!(guard(&input).unwrap(), expected);
}

#[test]
fn unflattened_group_opens_a_scope() {
    // `{ x = f() } => panic!("x")`: the destructure is wrapped in a new
    // brace scope, so `x` is not visible outside it.
    let handler = vec![id("panic"), Tok::Bang, Tok::Paren(vec![Tok::Atom(7)])];
    let input = vec![
        Tok::Brace(vec![id("x"), Tok::Eq, id("f"), Tok::Paren(vec![])]),
        Tok::FatArrow,
        id("panic"),
        Tok::Bang,
        Tok::Paren(vec![Tok::Atom(7)]),
    ];
    let expected = vec![Tok::Brace(let_else(
        vec![id("x")],
        vec![id("f"), Tok::Paren(vec![])],
        handler,
    ))];
    assert_eq!(guard(&input).unwrap(), expected);
}

#[test]
fn brace_block_without_handler_is_a_test_clause() {
    // `{ foo() }` with no trailing `=>` is not a group: it is a boolean
    // test whose condition is the brace block itself.
    let block = Tok::Brace(vec![id("foo"), Tok::Paren(vec![])]);
    let input = vec![tok_clone(&block)];
    let expected = if_not(vec![block], default_handler());
    assert_eq!(guard(&input).unwrap(), expected);
}

#[test]
fn explicit_group_handler_reaches_descendants() {
    // `{ x, { y } => _ } => h`: the explicit handler `h` overrides the
    // ambient one for both the clause and the nested inheriting group.
    let input = vec![
        Tok::Brace(vec![
            id("x"),
            Tok::Comma,
            Tok::Brace(vec![id("y")]),
            Tok::FatArrow,
            Tok::Underscore,
        ]),
        Tok::FatArrow,
        id("h"),
    ];
    let mut scope = Vec::new();
    scope.extend(if_not(vec![id("x")], vec![id("h")]));
    scope.push(Tok::Brace(if_not(vec![id("y")], vec![id("h")])));
    let expected = vec![Tok::Brace(scope)];
    assert_eq!(guard(&input).unwrap(), expected);
}

#[test]
fn local_handler_beats_group_handler() {
    // `{ x => own } => h`: a clause with its own handler keeps it even
    // under an explicit group handler.
    let input = vec![
        Tok::Brace(vec![id("x"), Tok::FatArrow, id("own")]),
        Tok::FatArrow,
        id("h"),
    ];
    let expected = vec![Tok::Brace(if_not(vec![id("x")], vec![id("own")]))];
    assert_eq!(guard(&input).unwrap(), expected);
}

#[test]
fn expand_against_custom_ambient_handler() {
    // The parse-then-expand pipeline with an explicit ambient handler.
    let toks = vec![id("ready")];
    let body = GuardBody::parse(&toks).unwrap();
    let ambient = vec![id("continue_with"), Tok::Paren(vec![])];
    let out = body.expand(&ambient);
    assert_eq!(
        out,
        if_not(vec![id("ready")], vec![id("continue_with"), Tok::Paren(vec![])])
    );
}

#[test]
fn default_handler_tokens() {
    assert_eq!(GuardBody::default_handler(), default_handler());
}
