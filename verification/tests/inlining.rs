use hir_expand::ids::{FileId, FileRange};
use hir_expand::inline_call::{
    can_remove_definition, check_inline_call, child_exprs, expr_is_name_ref, get_fn_params,
    param_action, CallInfo, CallableExpr, FileUsages, FnParam, NotApplicable, ParamAction,
    ParamPat, ParamUse,
};
use hir_expand::syntax::{SyntaxNode, SyntaxTree, SyntaxTreeBuilder};
use hir_expand::syntax_kind::SyntaxKind;
use hir_expand::text::TextRange;

/// A piece of a tree to build: a token, a node with its children, or a
/// node that gets a name under which its position is kept.
enum P {
    T(SyntaxKind, &'static str),
    N(SyntaxKind, Vec<P>),
    Named(&'static str, SyntaxKind, Vec<P>),
}

struct Built {
    tree: SyntaxTree,
    names: Vec<(&'static str, usize)>,
}

impl Built {
    fn node(&self, name: &str) -> SyntaxNode {
        let found = self.names.iter().find(|(n, _)| *n == name);
        SyntaxNode(found.expect("a node of that name").1)
    }
}

fn add(b: &mut SyntaxTreeBuilder, p: &P, count: &mut usize, names: &mut Vec<(&'static str, usize)>) {
    match p {
        P::T(kind, text) => {
            b.token(*kind, text);
            *count += 1;
        }
        P::N(kind, children) => {
            b.start_node(*kind);
            *count += 1;
            for c in children {
                add(b, c, count, names);
            }
            b.finish_node();
        }
        P::Named(name, kind, children) => {
            names.push((*name, *count));
            b.start_node(*kind);
            *count += 1;
            for c in children {
                add(b, c, count, names);
            }
            b.finish_node();
        }
    }
}

fn build(root: P) -> Built {
    let mut b = SyntaxTreeBuilder::new();
    let mut names = Vec::new();
    let mut count: usize = 0;
    add(&mut b, &root, &mut count, &mut names);
    assert!(b.is_ok());
    let tree = b.finish().unwrap();
    assert_eq!(tree.len(), count);
    Built { tree, names }
}

fn ws() -> P {
    P::T(SyntaxKind::WHITESPACE, " ")
}

fn name_ref(name: &'static str, text: &'static str) -> P {
    P::Named(name, SyntaxKind::NAME_REF, vec![P::T(SyntaxKind::IDENT, text)])
}

/// The expression that is the single name `text`; the name itself is kept
/// under `name`, the expression under `expr`.
fn path_expr(expr: &'static str, name: &'static str, text: &'static str) -> P {
    P::Named(
        expr,
        SyntaxKind::PATH_EXPR,
        vec![P::N(
            SyntaxKind::PATH,
            vec![P::N(SyntaxKind::PATH_SEGMENT, vec![name_ref(name, text)])],
        )],
    )
}

fn literal(name: &'static str, text: &'static str) -> P {
    P::Named(name, SyntaxKind::LITERAL, vec![P::T(SyntaxKind::INT_NUMBER, text)])
}

/// `foo(1, a)`
fn path_call() -> Built {
    build(P::Named(
        "call",
        SyntaxKind::CALL_EXPR,
        vec![
            path_expr("callee", "foo", "foo"),
            P::Named(
                "args",
                SyntaxKind::ARG_LIST,
                vec![
                    P::T(SyntaxKind::L_PAREN, "("),
                    literal("one", "1"),
                    P::T(SyntaxKind::COMMA, ","),
                    ws(),
                    path_expr("arg_a", "a", "a"),
                    P::T(SyntaxKind::R_PAREN, ")"),
                ],
            ),
        ],
    ))
}

/// `x.bar::<u8>(2)`
fn method_call() -> Built {
    build(P::Named(
        "call",
        SyntaxKind::METHOD_CALL_EXPR,
        vec![
            path_expr("receiver", "x", "x"),
            P::T(SyntaxKind::DOT, "."),
            name_ref("bar", "bar"),
            P::Named(
                "generics",
                SyntaxKind::GENERIC_ARG_LIST,
                vec![
                    P::T(SyntaxKind::COLON2, "::"),
                    P::T(SyntaxKind::L_ANGLE, "<"),
                    P::N(
                        SyntaxKind::TYPE_ARG,
                        vec![P::N(
                            SyntaxKind::PATH_TYPE,
                            vec![P::N(
                                SyntaxKind::PATH,
                                vec![P::N(SyntaxKind::PATH_SEGMENT, vec![name_ref("u8", "u8")])],
                            )],
                        )],
                    ),
                    P::T(SyntaxKind::R_ANGLE, ">"),
                ],
            ),
            P::N(
                SyntaxKind::ARG_LIST,
                vec![
                    P::T(SyntaxKind::L_PAREN, "("),
                    literal("two", "2"),
                    P::T(SyntaxKind::R_PAREN, ")"),
                ],
            ),
        ],
    ))
}

#[test]
fn call_info_of_a_path_call() {
    let b = path_call();
    let info = CallInfo::from_name_ref(&b.tree, b.node("foo")).unwrap();
    assert_eq!(info.node, CallableExpr::Call(b.node("call")));
    assert_eq!(info.arguments, vec![b.node("one"), b.node("arg_a")]);
    assert_eq!(info.generic_arg_list, None);
}

#[test]
fn call_info_of_a_method_call() {
    let b = method_call();
    let info = CallInfo::from_name_ref(&b.tree, b.node("bar")).unwrap();
    assert_eq!(info.node, CallableExpr::MethodCall(b.node("call")));
    assert_eq!(info.arguments, vec![b.node("receiver"), b.node("two")]);
    assert_eq!(info.generic_arg_list, Some(b.node("generics")));
}

#[test]
fn call_info_of_a_name_that_calls_nothing() {
    let b = path_call();
    // `a` is an argument, the path that it ends is not called
    assert_eq!(CallInfo::from_name_ref(&b.tree, b.node("a")), None);
    let m = method_call();
    // `x` is the receiver, `u8` a type
    assert_eq!(CallInfo::from_name_ref(&m.tree, m.node("x")), None);
    assert_eq!(CallInfo::from_name_ref(&m.tree, m.node("u8")), None);
    // the root has no parent
    assert_eq!(CallInfo::from_name_ref(&b.tree, b.tree.root()), None);
}

#[test]
fn call_info_needs_the_list_of_arguments() {
    let b = build(P::N(SyntaxKind::CALL_EXPR, vec![path_expr("callee", "foo", "foo")]));
    assert_eq!(CallInfo::from_name_ref(&b.tree, b.node("foo")), None);
    let m = build(P::N(
        SyntaxKind::METHOD_CALL_EXPR,
        vec![
            P::T(SyntaxKind::DOT, "."),
            name_ref("bar", "bar"),
            P::N(
                SyntaxKind::ARG_LIST,
                vec![P::T(SyntaxKind::L_PAREN, "("), P::T(SyntaxKind::R_PAREN, ")")],
            ),
        ],
    ));
    // no receiver
    assert_eq!(CallInfo::from_name_ref(&m.tree, m.node("bar")), None);
}

#[test]
fn expressions_among_children() {
    let b = path_call();
    assert_eq!(child_exprs(&b.tree, b.node("args")), vec![b.node("one"), b.node("arg_a")]);
    assert_eq!(child_exprs(&b.tree, b.node("call")), vec![b.node("callee")]);
    assert_eq!(child_exprs(&b.tree, b.node("one")), Vec::new());
}

#[test]
fn single_names() {
    let b = path_call();
    assert!(expr_is_name_ref(&b.tree, b.node("arg_a")));
    assert!(expr_is_name_ref(&b.tree, b.node("callee")));
    assert!(!expr_is_name_ref(&b.tree, b.node("one")));
    assert!(!expr_is_name_ref(&b.tree, b.node("call")));
    // `a::b` has a qualifier
    let q = build(P::Named(
        "expr",
        SyntaxKind::PATH_EXPR,
        vec![P::N(
            SyntaxKind::PATH,
            vec![
                P::N(
                    SyntaxKind::PATH,
                    vec![P::N(SyntaxKind::PATH_SEGMENT, vec![name_ref("a", "a")])],
                ),
                P::T(SyntaxKind::COLON2, "::"),
                P::N(SyntaxKind::PATH_SEGMENT, vec![name_ref("b", "b")]),
            ],
        )],
    ));
    assert!(!expr_is_name_ref(&q.tree, q.node("expr")));
    // `self` is no name
    let s = build(P::Named(
        "expr",
        SyntaxKind::PATH_EXPR,
        vec![P::N(
            SyntaxKind::PATH,
            vec![P::N(SyntaxKind::PATH_SEGMENT, vec![P::T(SyntaxKind::SELF_KW, "self")])],
        )],
    ));
    assert!(!expr_is_name_ref(&s.tree, s.node("expr")));
}

fn param(pat: &'static str, ty: Option<&'static str>, text: &'static str) -> P {
    let mut children = vec![P::Named(
        pat,
        SyntaxKind::IDENT_PAT,
        vec![P::N(SyntaxKind::NAME, vec![P::T(SyntaxKind::IDENT, text)])],
    )];
    if let Some(ty) = ty {
        children.push(P::T(SyntaxKind::COLON, ":"));
        children.push(ws());
        children.push(P::Named(
            ty,
            SyntaxKind::PATH_TYPE,
            vec![P::N(
                SyntaxKind::PATH,
                vec![P::N(
                    SyntaxKind::PATH_SEGMENT,
                    vec![P::N(SyntaxKind::NAME_REF, vec![P::T(SyntaxKind::IDENT, "u32")])],
                )],
            )],
        ));
    }
    P::N(SyntaxKind::PARAM, children)
}

/// `(&mut self, a: u32, b)`
fn method_params() -> Built {
    build(P::Named(
        "list",
        SyntaxKind::PARAM_LIST,
        vec![
            P::T(SyntaxKind::L_PAREN, "("),
            P::N(
                SyntaxKind::SELF_PARAM,
                vec![
                    P::T(SyntaxKind::AMP, "&"),
                    P::T(SyntaxKind::MUT_KW, "mut"),
                    ws(),
                    P::N(SyntaxKind::NAME, vec![P::T(SyntaxKind::SELF_KW, "self")]),
                ],
            ),
            P::T(SyntaxKind::COMMA, ","),
            ws(),
            param("a", Some("a_ty"), "a"),
            P::T(SyntaxKind::COMMA, ","),
            ws(),
            param("b", None, "b"),
            P::T(SyntaxKind::R_PAREN, ")"),
        ],
    ))
}

#[test]
fn params_of_a_method() {
    let b = method_params();
    let params = get_fn_params(&b.tree, b.node("list"), 3).unwrap();
    assert_eq!(
        params,
        vec![
            FnParam { pat: ParamPat::This { by_ref: true, is_mut: true }, ty: None, index: 0 },
            FnParam { pat: ParamPat::Pat(b.node("a")), ty: Some(b.node("a_ty")), index: 1 },
            FnParam { pat: ParamPat::Pat(b.node("b")), ty: None, index: 2 },
        ]
    );
    // the analysis may know more parameters than are written
    assert_eq!(get_fn_params(&b.tree, b.node("list"), 5), Some(params));
}

#[test]
fn params_that_the_analysis_does_not_know() {
    let b = method_params();
    assert_eq!(get_fn_params(&b.tree, b.node("list"), 2), None);
    assert_eq!(get_fn_params(&b.tree, b.node("list"), 1), None);
    assert_eq!(get_fn_params(&b.tree, b.node("list"), 0), None);
}

#[test]
fn params_of_a_function() {
    let by_value = build(P::Named(
        "list",
        SyntaxKind::PARAM_LIST,
        vec![
            P::T(SyntaxKind::L_PAREN, "("),
            P::N(
                SyntaxKind::SELF_PARAM,
                vec![P::N(SyntaxKind::NAME, vec![P::T(SyntaxKind::SELF_KW, "self")])],
            ),
            P::T(SyntaxKind::R_PAREN, ")"),
        ],
    ));
    assert_eq!(
        get_fn_params(&by_value.tree, by_value.node("list"), 1),
        Some(vec![FnParam {
            pat: ParamPat::This { by_ref: false, is_mut: false },
            ty: None,
            index: 0
        }])
    );
    let none = build(P::Named(
        "list",
        SyntaxKind::PARAM_LIST,
        vec![P::T(SyntaxKind::L_PAREN, "("), P::T(SyntaxKind::R_PAREN, ")")],
    ));
    assert_eq!(get_fn_params(&none.tree, none.node("list"), 0), Some(Vec::new()));
    // a parameter without a pattern
    let broken = build(P::Named(
        "list",
        SyntaxKind::PARAM_LIST,
        vec![
            P::T(SyntaxKind::L_PAREN, "("),
            P::N(SyntaxKind::PARAM, vec![P::T(SyntaxKind::COLON, ":")]),
            P::T(SyntaxKind::R_PAREN, ")"),
        ],
    ));
    assert_eq!(get_fn_params(&broken.tree, broken.node("list"), 1), None);
}

fn used(usages: usize, arg_kind: SyntaxKind) -> ParamUse {
    ParamUse {
        usages,
        usage_in_expr: true,
        arg_kind,
        arg_is_name_ref: false,
        arg_is_adjusted: false,
        has_type: true,
    }
}

#[test]
fn what_becomes_of_a_parameter() {
    // an argument with side effects, used once or not at all
    let stmt = ParamAction::LetStmt { with_type: false };
    assert_eq!(param_action(used(1, SyntaxKind::CALL_EXPR)), stmt);
    assert_eq!(param_action(used(0, SyntaxKind::CALL_EXPR)), stmt);
    // an expression that the body uses several times
    assert_eq!(param_action(used(3, SyntaxKind::BIN_EXPR)), stmt);
    // a literal
    assert_eq!(param_action(used(1, SyntaxKind::LITERAL)), ParamAction::InlineDirect);
    assert_eq!(param_action(used(2, SyntaxKind::LITERAL)), stmt);
    assert_eq!(param_action(used(0, SyntaxKind::LITERAL)), stmt);
    // a local
    let local = ParamUse { arg_is_name_ref: true, ..used(3, SyntaxKind::PATH_EXPR) };
    assert_eq!(param_action(local), ParamAction::InlineDirect);
    assert_eq!(param_action(ParamUse { usages: 1, ..local }), ParamAction::InlineDirect);
    assert_eq!(param_action(ParamUse { usages: 0, ..local }), stmt);
    // a closure
    assert_eq!(param_action(used(1, SyntaxKind::CLOSURE_EXPR)), ParamAction::InlineClosure);
    assert_eq!(param_action(used(2, SyntaxKind::CLOSURE_EXPR)), stmt);
    let elsewhere = ParamUse { usage_in_expr: false, ..used(1, SyntaxKind::CLOSURE_EXPR) };
    assert_eq!(param_action(elsewhere), stmt);
}

#[test]
fn a_coerced_argument_keeps_the_type() {
    let coerced = ParamUse { arg_is_adjusted: true, ..used(2, SyntaxKind::REF_EXPR) };
    assert_eq!(param_action(coerced), ParamAction::LetStmt { with_type: true });
    let untyped = ParamUse { has_type: false, ..coerced };
    assert_eq!(param_action(untyped), ParamAction::LetStmt { with_type: false });
    // where the argument itself is put in, no type is written
    let literal = ParamUse { arg_is_adjusted: true, ..used(1, SyntaxKind::LITERAL) };
    assert_eq!(param_action(literal), ParamAction::InlineDirect);
}

#[test]
fn calls_that_cannot_be_inlined() {
    let definition = FileRange { file_id: FileId(1), range: TextRange::new(10, 50) };
    assert_eq!(check_inline_call(definition, FileId(1), 60, 2, 2), Ok(()));
    assert_eq!(check_inline_call(definition, FileId(2), 20, 0, 0), Ok(()));
    assert_eq!(
        check_inline_call(definition, FileId(1), 20, 2, 2),
        Err(NotApplicable::Recursive)
    );
    assert_eq!(
        check_inline_call(definition, FileId(1), 10, 2, 3),
        Err(NotApplicable::Recursive)
    );
    // the end of the range is outside
    assert_eq!(check_inline_call(definition, FileId(1), 50, 1, 1), Ok(()));
    assert_eq!(
        check_inline_call(definition, FileId(1), 60, 1, 2),
        Err(NotApplicable::IncorrectNumberOfArguments)
    );
    assert_eq!(
        check_inline_call(definition, FileId(2), 20, 3, 2),
        Err(NotApplicable::IncorrectNumberOfArguments)
    );
}

#[test]
fn removing_the_definition() {
    let all = FileUsages { references: 3, in_use_items: 1, replaced: 2 };
    let some = FileUsages { references: 3, in_use_items: 0, replaced: 2 };
    let unused = FileUsages { references: 0, in_use_items: 0, replaced: 0 };
    assert!(all.all_replaced() && !some.all_replaced() && unused.all_replaced());
    assert_eq!(can_remove_definition(&vec![all], false), Some(true));
    assert_eq!(can_remove_definition(&vec![all, unused, all], false), Some(true));
    assert_eq!(can_remove_definition(&vec![all, some], false), Some(false));
    assert_eq!(can_remove_definition(&vec![some, all], false), Some(false));
    // a function that nothing uses
    assert_eq!(can_remove_definition(&Vec::new(), false), None);
    assert_eq!(can_remove_definition(&vec![unused, unused], false), None);
    // a function that calls itself
    assert_eq!(can_remove_definition(&vec![all], true), None);
}

fn block(name: &'static str, stmts: Vec<P>) -> P {
    let mut children = vec![P::T(SyntaxKind::L_CURLY, "{"), ws()];
    for s in stmts {
        children.push(s);
        children.push(ws());
    }
    children.push(P::T(SyntaxKind::R_CURLY, "}"));
    P::Named(name, SyntaxKind::BLOCK_EXPR, vec![P::N(SyntaxKind::STMT_LIST, children)])
}

#[test]
fn a_body_of_one_expression_is_inlined_without_block() {
    // `{ foo(1, a) }`
    let b = build(block(
        "body",
        vec![P::Named(
            "tail",
            SyntaxKind::CALL_EXPR,
            vec![
                path_expr("callee", "foo", "foo"),
                P::N(
                    SyntaxKind::ARG_LIST,
                    vec![P::T(SyntaxKind::L_PAREN, "("), P::T(SyntaxKind::R_PAREN, ")")],
                ),
            ],
        )],
    ));
    assert_eq!(hir_expand::inline_call::inline(&b.tree, b.node("body"), 0), b.node("tail"));
}

#[test]
fn a_body_with_statements_stays_a_block() {
    // `{ a; b }`
    let b = build(block(
        "body",
        vec![
            P::N(
                SyntaxKind::EXPR_STMT,
                vec![path_expr("first", "a", "a"), P::T(SyntaxKind::SEMICOLON, ";")],
            ),
            path_expr("tail", "b", "b"),
        ],
    ));
    assert_eq!(hir_expand::inline_call::inline(&b.tree, b.node("body"), 0), b.node("body"));
    // `{ let x = 1; }`
    let l = build(block(
        "body",
        vec![P::N(
            SyntaxKind::LET_STMT,
            vec![
                P::T(SyntaxKind::LET_KW, "let"),
                ws(),
                P::N(
                    SyntaxKind::IDENT_PAT,
                    vec![P::N(SyntaxKind::NAME, vec![P::T(SyntaxKind::IDENT, "x")])],
                ),
                P::T(SyntaxKind::EQ, "="),
                literal("one", "1"),
                P::T(SyntaxKind::SEMICOLON, ";"),
            ],
        )],
    ));
    assert_eq!(hir_expand::inline_call::inline(&l.tree, l.node("body"), 0), l.node("body"));
    // an item after the expression
    let i = build(block(
        "body",
        vec![
            literal("one", "1"),
            P::N(SyntaxKind::FN, vec![P::T(SyntaxKind::FN_KW, "fn")]),
        ],
    ));
    assert_eq!(hir_expand::inline_call::inline(&i.tree, i.node("body"), 0), i.node("body"));
}

#[test]
fn an_empty_body_stays_a_block() {
    let b = build(block("body", Vec::new()));
    assert_eq!(hir_expand::inline_call::inline(&b.tree, b.node("body"), 0), b.node("body"));
    // an expression that is no block is its own replacement
    let e = build(literal("one", "1"));
    assert_eq!(hir_expand::inline_call::inline(&e.tree, e.node("one"), 0), e.node("one"));
}

/// The text of the tree, and the text of the fixture without its cursor
/// together with the offset of the cursor.
fn text_of(tree: &SyntaxTree) -> String {
    let mut text = String::new();
    for i in 0..tree.len() {
        if let Some(hir_expand::syntax::SyntaxElement::Token(t)) = tree.element(i) {
            text.push_str(tree.token_text(t));
        }
    }
    text
}

/// Whether the cursor at `offset` touches the node `name`.
fn touches(b: &Built, name: &str, offset: u32) -> bool {
    let range = b.tree.text_range(b.node(name).0);
    range.start() <= offset && offset <= range.end()
}

fn cursor(ra_fixture: &str) -> (String, u32) {
    let offset = ra_fixture.find("$0").expect("a cursor");
    (ra_fixture.replacen("$0", "", 1), offset as u32)
}

fn t(kind: SyntaxKind, text: &'static str) -> P {
    P::T(kind, text)
}

fn nl(text: &'static str) -> P {
    P::T(SyntaxKind::WHITESPACE, text)
}

fn name(text: &'static str) -> P {
    P::N(SyntaxKind::NAME, vec![t(SyntaxKind::IDENT, text)])
}

fn u32_type() -> P {
    P::N(
        SyntaxKind::PATH_TYPE,
        vec![P::N(
            SyntaxKind::PATH,
            vec![P::N(
                SyntaxKind::PATH_SEGMENT,
                vec![P::N(SyntaxKind::NAME_REF, vec![t(SyntaxKind::IDENT, "u32")])],
            )],
        )],
    )
}

fn typed_param(text: &'static str) -> P {
    P::N(
        SyntaxKind::PARAM,
        vec![
            P::N(SyntaxKind::IDENT_PAT, vec![name(text)]),
            t(SyntaxKind::COLON, ":"),
            ws(),
            u32_type(),
        ],
    )
}

fn no_params(list: &'static str) -> P {
    P::Named(
        list,
        SyntaxKind::PARAM_LIST,
        vec![t(SyntaxKind::L_PAREN, "("), t(SyntaxKind::R_PAREN, ")")],
    )
}

/// Whether the assist that inlines the call under the cursor has
/// something to offer: the call is found, the function has its
/// parameters, and the check of the call finds no fault.
fn inline_call_applicable(
    b: &Built,
    offset: u32,
    name_ref: &str,
    definition: &str,
    param_list: &str,
    known: usize,
) -> Result<(), Option<NotApplicable>> {
    let call = CallInfo::from_name_ref(&b.tree, b.node(name_ref)).ok_or(None)?;
    let definition =
        FileRange { file_id: FileId(0), range: b.tree.text_range(b.node(definition).0) };
    let params = get_fn_params(&b.tree, b.node(param_list), known).ok_or(None)?;
    check_inline_call(definition, FileId(0), offset, call.arguments.len(), params.len())
        .map_err(Some)
}

#[test]
fn not_applicable_when_incorrect_number_of_parameters_are_provided() {
    let (text, offset) = cursor(
        r#"
fn add(a: u32, b: u32) -> u32 { a + b }
fn main() { let x = add$0(42); }
"#,
    );
    let b = build(P::N(
        SyntaxKind::SOURCE_FILE,
        vec![
            nl("\n"),
            P::Named(
                "add",
                SyntaxKind::FN,
                vec![
                    t(SyntaxKind::FN_KW, "fn"),
                    ws(),
                    name("add"),
                    P::Named(
                        "params",
                        SyntaxKind::PARAM_LIST,
                        vec![
                            t(SyntaxKind::L_PAREN, "("),
                            typed_param("a"),
                            t(SyntaxKind::COMMA, ","),
                            ws(),
                            typed_param("b"),
                            t(SyntaxKind::R_PAREN, ")"),
                        ],
                    ),
                    ws(),
                    P::N(
                        SyntaxKind::RET_TYPE,
                        vec![t(SyntaxKind::THIN_ARROW, "->"), ws(), u32_type()],
                    ),
                    ws(),
                    block(
                        "body",
                        vec![P::N(
                            SyntaxKind::BIN_EXPR,
                            vec![
                                path_expr("use_a", "a", "a"),
                                ws(),
                                t(SyntaxKind::PLUS, "+"),
                                ws(),
                                path_expr("use_b", "b", "b"),
                            ],
                        )],
                    ),
                ],
            ),
            nl("\n"),
            P::N(
                SyntaxKind::FN,
                vec![
                    t(SyntaxKind::FN_KW, "fn"),
                    ws(),
                    name("main"),
                    no_params("main_params"),
                    ws(),
                    block(
                        "main_body",
                        vec![P::N(
                            SyntaxKind::LET_STMT,
                            vec![
                                t(SyntaxKind::LET_KW, "let"),
                                ws(),
                                P::N(SyntaxKind::IDENT_PAT, vec![name("x")]),
                                ws(),
                                t(SyntaxKind::EQ, "="),
                                ws(),
                                P::Named(
                                    "call",
                                    SyntaxKind::CALL_EXPR,
                                    vec![
                                        path_expr("callee", "callee_name", "add"),
                                        P::N(
                                            SyntaxKind::ARG_LIST,
                                            vec![
                                                t(SyntaxKind::L_PAREN, "("),
                                                literal("arg", "42"),
                                                t(SyntaxKind::R_PAREN, ")"),
                                            ],
                                        ),
                                    ],
                                ),
                                t(SyntaxKind::SEMICOLON, ";"),
                            ],
                        )],
                    ),
                ],
            ),
            nl("\n"),
        ],
    ));
    assert_eq!(text_of(&b.tree), text);
    assert!(touches(&b, "callee_name", offset));
    assert_eq!(
        inline_call_applicable(&b, offset, "callee_name", "add", "params", 2),
        Err(Some(NotApplicable::IncorrectNumberOfArguments))
    );
}

/// `fn foo() {\n    foo();\n}` between two line breaks.
fn calls_itself() -> Built {
    build(P::N(
        SyntaxKind::SOURCE_FILE,
        vec![
            nl("\n"),
            P::Named(
                "foo",
                SyntaxKind::FN,
                vec![
                    t(SyntaxKind::FN_KW, "fn"),
                    ws(),
                    P::Named("foo_name", SyntaxKind::NAME, vec![t(SyntaxKind::IDENT, "foo")]),
                    no_params("params"),
                    ws(),
                    P::Named(
                        "body",
                        SyntaxKind::BLOCK_EXPR,
                        vec![P::N(
                            SyntaxKind::STMT_LIST,
                            vec![
                                t(SyntaxKind::L_CURLY, "{"),
                                nl("\n    "),
                                P::N(
                                    SyntaxKind::EXPR_STMT,
                                    vec![
                                        P::N(
                                            SyntaxKind::CALL_EXPR,
                                            vec![
                                                path_expr("callee", "callee_name", "foo"),
                                                P::N(
                                                    SyntaxKind::ARG_LIST,
                                                    vec![
                                                        t(SyntaxKind::L_PAREN, "("),
                                                        t(SyntaxKind::R_PAREN, ")"),
                                                    ],
                                                ),
                                            ],
                                        ),
                                        t(SyntaxKind::SEMICOLON, ";"),
                                    ],
                                ),
                                nl("\n"),
                                t(SyntaxKind::R_CURLY, "}"),
                            ],
                        )],
                    ),
                ],
            ),
            nl("\n"),
        ],
    ))
}

#[test]
fn inline_call_recursive() {
    let (text, offset) = cursor(
        r#"
fn foo() {
    foo$0();
}
"#,
    );
    let b = calls_itself();
    assert_eq!(text_of(&b.tree), text);
    assert!(touches(&b, "callee_name", offset));
    assert_eq!(
        inline_call_applicable(&b, offset, "callee_name", "foo", "params", 0),
        Err(Some(NotApplicable::Recursive))
    );
}

#[test]
fn inline_callers_recursive() {
    let (text, offset) = cursor(
        r#"
fn foo$0() {
    foo();
}
"#,
    );
    let b = calls_itself();
    assert_eq!(text_of(&b.tree), text);
    assert!(touches(&b, "foo_name", offset));
    assert_eq!(get_fn_params(&b.tree, b.node("params"), 0), Some(Vec::new()));
    // the one reference to the function stands in its own body
    let usage = b.tree.text_range(b.node("callee_name").0);
    let recursive = b.tree.text_range(b.node("body").0).contains_range(usage);
    assert!(recursive);
    let call = CallInfo::from_name_ref(&b.tree, b.node("callee_name"));
    let files = vec![FileUsages {
        references: 1,
        in_use_items: 0,
        replaced: call.iter().count(),
    }];
    assert_eq!(can_remove_definition(&files, recursive), None);
    // were the call elsewhere, it would be replaced and the function could go
    assert_eq!(can_remove_definition(&files, false), Some(true));
}
