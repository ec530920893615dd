use hir_expand::db::{AstDatabase, TokenExpander};
use hir_expand::engine::{assemble_macro_arg, censor_for_macro_input};
use hir_expand::ids::{
    CrateId, ExpandTo, FileAstId, FileId, FileRange, HirFileId, InFile, MacroCallId, MacroFile,
    Origin,
};
use hir_expand::macro_call::{
    BuiltinDeriveExpander, BuiltinFnLikeExpander, EagerCallInfo, EagerExpander, MacroCallKind,
    MacroCallLoc, MacroDefId, MacroDefKind, ProcMacroExpander, ProcMacroKind,
};
use hir_expand::syntax::{SyntaxNode, SyntaxToken, SyntaxTree, SyntaxTreeBuilder};
use hir_expand::syntax_bridge::syntax_node_to_token_tree;
use hir_expand::syntax_kind::SyntaxKind;
use hir_expand::syntax_kind::SyntaxKind::{
    ATTR, BANG, BLOCK_EXPR, CALL_EXPR, EQ, EXPR_STMT, FN, FN_KW, FOR_KW, IDENT, IDENT_PAT, IMPL,
    IMPL_KW, INT_NUMBER, ITEM_LIST, LET_KW, LET_STMT, LITERAL, L_BRACK, L_CURLY, L_PAREN,
    MACRO_CALL, MACRO_ITEMS, MACRO_PAT, MACRO_RULES, MACRO_STMTS, MACRO_TYPE, META, NAME,
    NAME_REF, PARAM_LIST, PATH, PATH_SEGMENT, PATH_TYPE, POUND, RETURN_EXPR, R_BRACK, R_CURLY,
    R_PAREN, SEMICOLON, SOURCE_FILE, STMT_LIST, STRING, STRUCT, STRUCT_KW, TOKEN_TREE, WHITESPACE,
};
use hir_expand::text::TextRange;
use hir_expand::token_map::{Shift, TokenMap};
use hir_expand::tree_sink::{token_tree_to_syntax_node, ParseEvent};
use hir_expand::tt::{
    Delimiter, DelimiterKind, Ident, Leaf, Literal, Punct, Spacing, Subtree, TokenId, TokenTree,
};
use either::Either;
use std::sync::Arc;

enum E {
    N(SyntaxKind, Vec<E>),
    T(SyntaxKind, &'static str),
}
use E::{N, T};

fn emit(b: &mut SyntaxTreeBuilder, e: &E) {
    match e {
        N(kind, children) => {
            b.start_node(*kind);
            for c in children {
                emit(b, c);
            }
            b.finish_node();
        }
        T(kind, text) => b.token(*kind, text),
    }
}

fn tree(e: E) -> SyntaxTree {
    let mut b = SyntaxTreeBuilder::new();
    emit(&mut b, &e);
    b.finish().expect("one syntax tree")
}

fn path(name: &'static str) -> E {
    N(PATH, vec![N(PATH_SEGMENT, vec![N(NAME_REF, vec![T(IDENT, name)])])])
}

/// `name!(arg)` with the semicolon where `semi` says so.
fn macro_call(name: &'static str, arg: &'static str, semi: bool) -> E {
    let mut children = vec![
        path(name),
        T(BANG, "!"),
        N(TOKEN_TREE, vec![T(L_PAREN, "("), T(IDENT, arg), T(R_PAREN, ")")]),
    ];
    if semi {
        children.push(T(SEMICOLON, ";"));
    }
    N(MACRO_CALL, children)
}

fn node_of_kind(tree: &SyntaxTree, kind: SyntaxKind, nth: usize) -> SyntaxNode {
    SyntaxNode(
        (0..tree.len())
            .filter(|&i| !tree.is_token(i) && tree.kind(i) == kind)
            .nth(nth)
            .expect("a node"),
    )
}

fn token_with_text(tree: &SyntaxTree, text: &str, nth: usize) -> SyntaxToken {
    SyntaxToken(
        (0..tree.len())
            .filter(|&i| tree.is_token(i) && tree.token_text(SyntaxToken(i)) == text)
            .nth(nth)
            .expect("a token"),
    )
}

fn ast_id(db: &AstDatabase, file: HirFileId, node: SyntaxNode) -> InFile<FileAstId> {
    let id = db.ast_id_map(file).unwrap().ast_id(node).expect("a named node");
    InFile::new(file, id)
}

fn declarative(def: InFile<FileAstId>) -> MacroDefId {
    MacroDefId { krate: CrateId(0), kind: MacroDefKind::Declarative(def), local_inner: false }
}

fn ident(text: &str, id: u32) -> TokenTree {
    TokenTree::Leaf(Leaf::Ident(Ident { text: text.to_string(), id: TokenId(id) }))
}

fn literal(text: &str, id: u32) -> TokenTree {
    TokenTree::Leaf(Leaf::Literal(Literal { text: text.to_string(), id: TokenId(id) }))
}

fn punct(char: char, id: u32) -> TokenTree {
    TokenTree::Leaf(Leaf::Punct(Punct { char, spacing: Spacing::Alone, id: TokenId(id) }))
}

fn parens(id: u32, token_trees: Vec<TokenTree>) -> TokenTree {
    TokenTree::Subtree(Subtree {
        delimiter: Some(Delimiter { id: TokenId(id), kind: DelimiterKind::Parenthesis }),
        token_trees,
    })
}

fn braces(id: u32, token_trees: Vec<TokenTree>) -> TokenTree {
    TokenTree::Subtree(Subtree {
        delimiter: Some(Delimiter { id: TokenId(id), kind: DelimiterKind::Brace }),
        token_trees,
    })
}

fn start(kind: SyntaxKind) -> ParseEvent {
    ParseEvent::StartNode { kind }
}

fn tok(kind: SyntaxKind) -> ParseEvent {
    ParseEvent::Token { kind, n_tokens: 1 }
}

fn end() -> ParseEvent {
    ParseEvent::FinishNode
}

fn text_of(tree: &SyntaxTree) -> String {
    (0..tree.len())
        .filter(|&i| tree.is_token(i))
        .map(|i| tree.token_text(SyntaxToken(i)).clone())
        .collect()
}

/// Records what came of expanding the call `id`: its input is put together
/// from the syntax, and `expansion` is reparsed as `events` tell.
fn expand(
    db: &mut AstDatabase,
    id: MacroCallId,
    expander: TokenExpander,
    expansion: Subtree,
    events: Vec<ParseEvent>,
) {
    let arg = assemble_macro_arg(db, id).expect("an argument");
    db.set_macro_arg(id, Arc::new(arg));
    assert!(db.set_macro_def(id, Arc::new(expander)));
    let (parse, exp_map) = token_tree_to_syntax_node(&expansion, &events).expect("one tree");
    db.set_expansion(id, parse.tree, Arc::new(exp_map));
}

/// The events for `inner!(x);` parsed as items, or `name!(arg);` alike.
fn macro_call_events(outer: SyntaxKind) -> Vec<ParseEvent> {
    vec![
        start(outer),
        start(MACRO_CALL),
        start(PATH),
        start(PATH_SEGMENT),
        start(NAME_REF),
        tok(IDENT),
        end(),
        end(),
        end(),
        tok(BANG),
        start(TOKEN_TREE),
        tok(L_PAREN),
        tok(IDENT),
        tok(R_PAREN),
        end(),
        tok(SEMICOLON),
        end(),
        end(),
    ]
}

/// File 0: `macro_rules! outer ...` and `macro_rules! inner ...` stand for
/// themselves as bare nodes; then the call `outer!(x);`.
fn nested_declarative() -> (AstDatabase, FileId, MacroCallId, MacroCallId) {
    let mut db = AstDatabase::new();
    let file = db.add_file(tree(N(
        SOURCE_FILE,
        vec![
            N(
                MACRO_RULES,
                vec![
                    T(IDENT, "macro_rules"),
                    T(BANG, "!"),
                    N(NAME, vec![T(IDENT, "outer")]),
                    N(TOKEN_TREE, vec![T(L_CURLY, "{"), T(R_CURLY, "}")]),
                ],
            ),
            T(WHITESPACE, "\n"),
            N(
                MACRO_RULES,
                vec![
                    T(IDENT, "macro_rules"),
                    T(BANG, "!"),
                    N(NAME, vec![T(IDENT, "inner")]),
                    N(TOKEN_TREE, vec![T(L_CURLY, "{"), T(IDENT, "let"), T(R_CURLY, "}")]),
                ],
            ),
            T(WHITESPACE, "\n"),
            macro_call("outer", "x", true),
        ],
    )));
    let hir_file: HirFileId = file.into();
    let source = db.parse_or_expand(hir_file).unwrap();
    let outer_def = ast_id(&db, hir_file, node_of_kind(source, MACRO_RULES, 0));
    let inner_def = ast_id(&db, hir_file, node_of_kind(source, MACRO_RULES, 1));
    let call_node = node_of_kind(source, MACRO_CALL, 0);
    let expand_to = ExpandTo::from_call_site(source, call_node);
    assert_eq!(expand_to, ExpandTo::Items);
    let call_id = ast_id(&db, hir_file, call_node);

    // outer!(x) => inner!(x);
    let outer = declarative(outer_def).as_lazy_macro(
        &mut db,
        CrateId(0),
        MacroCallKind::FnLike { ast_id: call_id, expand_to },
    );
    // the definition holds the ids 0..=9: the ids of the call are moved by 10
    let shift = Shift(10);
    let arg = assemble_macro_arg(&db, outer).unwrap();
    assert_eq!(arg.0, match parens(0, vec![ident("x", 1)]) {
        TokenTree::Subtree(s) => s,
        _ => unreachable!(),
    });
    expand(
        &mut db,
        outer,
        TokenExpander::DeclarativeMacro { shift, def_site_token_map: TokenMap::new() },
        Subtree {
            delimiter: None,
            token_trees: vec![
                ident("inner", 3),
                punct('!', 4),
                parens(5, vec![ident("x", 11)]),
                punct(';', 7),
            ],
        },
        macro_call_events(MACRO_ITEMS),
    );

    // inner!(x) => let x = 0;
    let outer_file = outer.as_file();
    let expanded = db.parse_or_expand(outer_file).unwrap();
    assert_eq!(text_of(expanded), "inner!(x);");
    let inner_call = ast_id(&db, outer_file, node_of_kind(expanded, MACRO_CALL, 0));
    let inner = declarative(inner_def).as_lazy_macro(
        &mut db,
        CrateId(0),
        MacroCallKind::FnLike { ast_id: inner_call, expand_to: ExpandTo::Statements },
    );
    expand(
        &mut db,
        inner,
        TokenExpander::DeclarativeMacro { shift: Shift(20), def_site_token_map: def_site_map() },
        Subtree {
            delimiter: None,
            token_trees: vec![
                ident("let", 2),
                ident("x", 21),
                punct('=', 4),
                literal("0", 5),
                punct(';', 6),
            ],
        },
        vec![
            start(MACRO_STMTS),
            start(LET_STMT),
            tok(LET_KW),
            start(IDENT_PAT),
            start(NAME),
            tok(IDENT),
            end(),
            end(),
            tok(EQ),
            start(LITERAL),
            tok(INT_NUMBER),
            end(),
            tok(SEMICOLON),
            end(),
            end(),
        ],
    );
    (db, file, outer, inner)
}

/// The token map of the definition of `inner`: its token tree is `{let}`.
fn def_site_map() -> TokenMap {
    let mut map = TokenMap::new();
    map.insert(TokenId(2), TextRange::new(1, 4));
    map
}

#[test]
fn nested_declarative_ascends_in_two_steps() {
    let (db, file, outer, inner) = nested_declarative();
    let inner_file = inner.as_file();
    let tree = db.parse_or_expand(inner_file).unwrap();
    assert_eq!(text_of(tree), "letx=0;");

    assert_eq!(HirFileId::from(file).expansion_level(&db), 0);
    assert_eq!(outer.as_file().expansion_level(&db), 1);
    assert_eq!(inner_file.expansion_level(&db), 2);
    assert_eq!(inner_file.original_file(&db), file);
    assert!(inner_file.is_macro());
    assert!(!HirFileId::from(file).is_macro());
    assert_eq!(HirFileId::from(MacroFile { macro_call_id: inner }), inner_file);

    // one step: `x` in `let x = 0;` came from `x` in `inner!(x);`
    let info = inner_file.expansion_info(&db).unwrap();
    let x = InFile::new(inner_file, token_with_text(tree, "x", 0));
    let (up, origin) = info.map_token_up(&db, x).unwrap();
    assert_eq!(origin, Origin::Call);
    assert_eq!(up.file_id, outer.as_file());
    let outer_tree = db.parse_or_expand(outer.as_file()).unwrap();
    assert_eq!(outer_tree.token_text(up.value), "x");
    assert_eq!(outer_tree.text_range(up.value.0), TextRange::new(7, 8));

    // `let` came from the definition
    let kw = InFile::new(inner_file, token_with_text(tree, "let", 0));
    let (def, origin) = info.map_token_up(&db, kw).unwrap();
    assert_eq!(origin, Origin::Def);
    assert_eq!(def.file_id, HirFileId::from(file));
    let source = db.parse_or_expand(file.into()).unwrap();
    assert_eq!(source.token_text(def.value), "let");

    // both steps: the name in the expansion is the `x` that the user wrote
    let source_x = source.text_range(token_with_text(source, "x", 0).0);
    let name = InFile::new(inner_file, node_of_kind(tree, NAME, 0));
    assert_eq!(
        name.original_file_range_opt(&db),
        Some(FileRange { file_id: file, range: source_x })
    );
    assert_eq!(name.original_file_range(&db), FileRange { file_id: file, range: source_x });

    // a node that the definition brought has no origin in the call; what
    // stands for it is the whole outermost call
    let stmt = InFile::new(inner_file, node_of_kind(tree, LITERAL, 0));
    assert_eq!(stmt.original_file_range_opt(&db), None);
    let call_range = source.text_range(node_of_kind(source, MACRO_CALL, 0).0);
    assert_eq!(stmt.original_file_range(&db), FileRange { file_id: file, range: call_range });

    // and down again
    let source_token = InFile::new(file.into(), token_with_text(source, "x", 0));
    let outer_info = outer.as_file().expansion_info(&db).unwrap();
    let down = outer_info.map_token_down(&db, None, source_token).unwrap();
    assert_eq!(down, vec![up]);
    let further = info.map_token_down(&db, None, up).unwrap();
    assert_eq!(further, vec![x]);
}

#[test]
fn ancestors_cross_macro_calls() {
    let (db, file, outer, inner) = nested_declarative();
    let inner_file = inner.as_file();
    let tree = db.parse_or_expand(inner_file).unwrap();
    let name = InFile::new(inner_file, node_of_kind(tree, NAME, 0));
    let ancestors = name.ancestors_with_macros(&db);
    let files: Vec<HirFileId> = ancestors.iter().map(|n| n.file_id).collect();
    let outer_file = outer.as_file();
    let user: HirFileId = file.into();
    assert_eq!(
        files,
        vec![
            inner_file, inner_file, inner_file, inner_file, // NAME IDENT_PAT LET_STMT MACRO_STMTS
            outer_file, outer_file, // MACRO_CALL MACRO_ITEMS
            user, user, // MACRO_CALL SOURCE_FILE
        ]
    );
    let source = db.parse_or_expand(user).unwrap();
    assert_eq!(ancestors[6].value, node_of_kind(source, MACRO_CALL, 0));
    assert_eq!(name.ancestors_with_macros_skip_attr_item(&db), ancestors);
    let x = InFile::new(inner_file, token_with_text(tree, "x", 0));
    assert_eq!(x.ancestors_with_macros(&db), ancestors);

    assert_eq!(inner_file.call_node(&db).unwrap().file_id, outer_file);
    assert_eq!(user.call_node(&db), None);
    let info = inner_file.expansion_info(&db).unwrap();
    assert_eq!(info.call_node(&db), inner_file.call_node(&db));

    let calls = name.nodes_with_attributes(&db, &vec![NAME, MACRO_CALL]);
    assert_eq!(calls.len(), 3);
    assert_eq!(name.node_with_attributes(&db, &vec![NAME, MACRO_CALL]), ancestors[6]);
    assert_eq!(name.node_with_attributes(&db, &vec![NAME]), name);

    let root = InFile::new(user, SyntaxNode(0));
    assert_eq!(root.descendants(&db, MACRO_RULES).len(), 2);
    assert_eq!(root.file_syntax(&db).len(), source.len());
    assert_eq!(*root.syntax().value, SyntaxNode(0));
}

#[test]
fn interning_gives_equal_calls_one_name() {
    let (mut db, file, outer, inner) = nested_declarative();
    let hir_file: HirFileId = file.into();
    let source = db.parse_or_expand(hir_file).unwrap();
    let call_id = ast_id(&db, hir_file, node_of_kind(source, MACRO_CALL, 0));
    let def = db.lookup_intern_macro(outer).def;
    let again = def.as_lazy_macro(
        &mut db,
        CrateId(0),
        MacroCallKind::FnLike { ast_id: call_id, expand_to: ExpandTo::Items },
    );
    assert_eq!(again, outer);
    assert_eq!(again.as_file(), outer.as_file());
    // another place to expand to is another call
    let other = def.as_lazy_macro(
        &mut db,
        CrateId(0),
        MacroCallKind::FnLike { ast_id: call_id, expand_to: ExpandTo::Expr },
    );
    assert_ne!(other, outer);
    assert_ne!(other, inner);
    assert_eq!(db.lookup_intern_macro(other).kind.expand_to(), ExpandTo::Expr);
    assert_eq!(
        db.lookup_intern_macro(other).kind,
        MacroCallKind::FnLike { ast_id: call_id, expand_to: ExpandTo::Expr }
    );
    // a call that has not been expanded has no expansion info
    assert!(other.as_file().expansion_info(&db).is_none());
    assert!(db.parse_or_expand(other.as_file()).is_none());
    assert_eq!(other.as_file().expansion_level(&db), 1);
}

#[test]
fn include_anchors_in_the_included_file() {
    // file 0: include!("foo.rs"), file 1 (foo.rs): fn f(){}
    let mut db = AstDatabase::new();
    let file = db.add_file(tree(N(
        SOURCE_FILE,
        vec![N(
            MACRO_CALL,
            vec![
                path("include"),
                T(BANG, "!"),
                N(TOKEN_TREE, vec![T(L_PAREN, "("), T(STRING, "\"foo.rs\""), T(R_PAREN, ")")]),
            ],
        )],
    )));
    let included = || {
        N(
            SOURCE_FILE,
            vec![N(
                FN,
                vec![
                    T(FN_KW, "fn"),
                    T(WHITESPACE, " "),
                    N(NAME, vec![T(IDENT, "f")]),
                    N(PARAM_LIST, vec![T(L_PAREN, "("), T(R_PAREN, ")")]),
                    N(BLOCK_EXPR, vec![N(STMT_LIST, vec![T(L_CURLY, "{"), T(R_CURLY, "}")])]),
                ],
            )],
        )
    };
    let foo = db.add_file(tree(included()));
    let hir_file: HirFileId = file.into();
    let source = db.parse_or_expand(hir_file).unwrap();
    let call = ast_id(&db, hir_file, node_of_kind(source, MACRO_CALL, 0));
    let def = MacroDefId {
        krate: CrateId(1),
        kind: MacroDefKind::BuiltInEager(EagerExpander::Include, call),
        local_inner: false,
    };
    let id = db.intern_macro(MacroCallLoc {
        def,
        krate: CrateId(0),
        eager: Some(EagerCallInfo {
            arg_or_expansion: Arc::new(Subtree { delimiter: None, token_trees: vec![] }),
            included_file: Some(foo),
        }),
        kind: MacroCallKind::FnLike { ast_id: call, expand_to: ExpandTo::Items },
    });
    db.set_expansion(id, tree(included()), Arc::new(TokenMap::new()));

    let expansion = id.as_file();
    assert_eq!(expansion.original_file(&db), foo);
    assert_eq!(expansion.expansion_level(&db), 1);
    assert!(expansion.is_include_macro(&db));
    assert!(!expansion.is_attr_macro(&db));
    assert!(!hir_file.is_include_macro(&db));
    let tree = db.parse_or_expand(expansion).unwrap();
    let keyword = token_with_text(tree, "fn", 0);
    assert_eq!(tree.text_range(keyword.0), TextRange::new(0, 2));
    // the places in the expansion are the places in the included file
    let item = InFile::new(expansion, node_of_kind(tree, FN, 0));
    assert_eq!(
        item.original_file_range(&db),
        FileRange { file_id: foo, range: TextRange::new(0, 8) }
    );
    let name = InFile::new(expansion, node_of_kind(tree, NAME, 0));
    assert_eq!(
        name.original_file_range_opt(&db),
        Some(FileRange { file_id: foo, range: TextRange::new(3, 4) })
    );
    assert_eq!(def.ast_id(), Either::Left(call));
    assert!(!def.is_proc_macro());
}

/// `#[derive(Clone)] struct S;` or `#[route("/x")] fn h(){}`
fn attributed(attr: &'static str, args: E, item: Vec<E>, kind: SyntaxKind) -> SyntaxTree {
    let mut children = vec![
        N(
            ATTR,
            vec![
                T(POUND, "#"),
                T(L_BRACK, "["),
                N(META, vec![path(attr), N(TOKEN_TREE, vec![T(L_PAREN, "("), args, T(R_PAREN, ")")])]),
                T(R_BRACK, "]"),
            ],
        ),
        T(WHITESPACE, " "),
    ];
    children.extend(item);
    tree(N(SOURCE_FILE, vec![N(kind, children)]))
}

#[test]
fn derive_maps_the_name_down_and_up() {
    let mut db = AstDatabase::new();
    let file = db.add_file(attributed(
        "derive",
        T(IDENT, "Clone"),
        vec![
            T(STRUCT_KW, "struct"),
            T(WHITESPACE, " "),
            N(NAME, vec![T(IDENT, "S")]),
            T(SEMICOLON, ";"),
        ],
        STRUCT,
    ));
    let hir_file: HirFileId = file.into();
    let source = db.parse_or_expand(hir_file).unwrap();
    let item = node_of_kind(source, STRUCT, 0);
    let item_id = ast_id(&db, hir_file, item);
    let kind = MacroCallKind::Derive {
        ast_id: item_id,
        derive_name: "Clone".to_string(),
        derive_attr_index: 0,
    };
    let censor = censor_for_macro_input(source, &kind, item);
    assert!(censor.contains(&node_of_kind(source, ATTR, 0).0));
    assert_eq!(censor.len(), 1);
    let def = MacroDefId {
        krate: CrateId(1),
        kind: MacroDefKind::BuiltInDerive(BuiltinDeriveExpander::Clone, item_id),
        local_inner: false,
    };
    let id = def.as_lazy_macro(&mut db, CrateId(0), kind);
    let arg = assemble_macro_arg(&db, id).unwrap();
    // the derive itself is not part of the input
    assert_eq!(
        arg.0,
        Subtree { delimiter: None, token_trees: vec![ident("struct", 0), ident("S", 1), punct(';', 2)] }
    );
    let u = TokenId::unspecified().0;
    expand(
        &mut db,
        id,
        TokenExpander::BuiltinDerive(BuiltinDeriveExpander::Clone),
        Subtree {
            delimiter: None,
            token_trees: vec![
                ident("impl", u),
                ident("Clone", u),
                ident("for", u),
                ident("S", 1),
                braces(u, vec![ident("S", 1)]),
            ],
        },
        vec![
            start(MACRO_ITEMS),
            start(IMPL),
            tok(IMPL_KW),
            start(PATH_TYPE),
            tok(IDENT),
            end(),
            tok(FOR_KW),
            start(PATH_TYPE),
            tok(IDENT),
            end(),
            start(ITEM_LIST),
            tok(L_CURLY),
            tok(IDENT),
            tok(R_CURLY),
            end(),
            end(),
            end(),
        ],
    );
    let source = db.parse_or_expand(hir_file).unwrap();
    let expansion = id.as_file();
    assert_eq!(expansion.is_builtin_derive(&db), Some(InFile::new(hir_file, item)));
    assert!(!expansion.is_custom_derive(&db));
    assert_eq!(hir_file.is_builtin_derive(&db), None);
    let info = expansion.expansion_info(&db).unwrap();
    let tree = db.parse_or_expand(expansion).unwrap();
    assert_eq!(text_of(tree), "implCloneforS{S}");
    let name = InFile::new(hir_file, token_with_text(source, "S", 0));
    let down = info.map_token_down(&db, None, name).unwrap();
    assert_eq!(down.len(), 2);
    for token in down {
        assert_eq!(token.file_id, expansion);
        assert_eq!(tree.kind(token.value.0), IDENT);
        assert_eq!(tree.token_text(token.value), "S");
        assert_eq!(info.map_token_up(&db, token), Some((name, Origin::Call)));
    }
    // a token that the derive made up came from nowhere
    let made_up = InFile::new(expansion, token_with_text(tree, "Clone", 0));
    assert_eq!(info.map_token_up(&db, made_up), None);
}

#[test]
fn attribute_arguments_and_item_are_told_apart() {
    let mut db = AstDatabase::new();
    let file = db.add_file(attributed(
        "route",
        T(STRING, "\"/x\""),
        vec![
            T(FN_KW, "fn"),
            T(WHITESPACE, " "),
            N(NAME, vec![T(IDENT, "h")]),
            N(PARAM_LIST, vec![T(L_PAREN, "("), T(R_PAREN, ")")]),
            N(BLOCK_EXPR, vec![N(STMT_LIST, vec![T(L_CURLY, "{"), T(R_CURLY, "}")])]),
        ],
        FN,
    ));
    let hir_file: HirFileId = file.into();
    let source = db.parse_or_expand(hir_file).unwrap();
    let item = node_of_kind(source, FN, 0);
    let item_id = ast_id(&db, hir_file, item);
    let attr_args = syntax_node_to_token_tree(source, node_of_kind(source, TOKEN_TREE, 0));
    assert_eq!(attr_args.0.token_trees, vec![literal("\"/x\"", 1)]);
    let def = MacroDefId {
        krate: CrateId(1),
        kind: MacroDefKind::ProcMacro(
            ProcMacroExpander { krate: CrateId(1), proc_macro_id: Some(0) },
            ProcMacroKind::Attr,
            item_id,
        ),
        local_inner: false,
    };
    assert!(def.is_proc_macro());
    assert_eq!(def.ast_id(), Either::Right(item_id));
    let id = def.as_lazy_macro(
        &mut db,
        CrateId(0),
        MacroCallKind::Attr {
            ast_id: item_id,
            attr_name: "route".to_string(),
            attr_args,
            invoc_attr_index: 0,
        },
    );
    let arg = assemble_macro_arg(&db, id).unwrap();
    // fn h () {} : the ids 0..=3
    assert_eq!(Shift::new(&arg.0), Shift(4));
    // the expansion: fn h(){} "/x", the literal with its id moved by 4
    expand(
        &mut db,
        id,
        TokenExpander::ProcMacro(ProcMacroExpander { krate: CrateId(1), proc_macro_id: Some(0) }),
        Subtree {
            delimiter: None,
            token_trees: vec![
                ident("fn", 0),
                ident("h", 1),
                parens(2, vec![]),
                braces(3, vec![]),
                literal("\"/x\"", 5),
            ],
        },
        vec![
            start(MACRO_ITEMS),
            start(FN),
            tok(FN_KW),
            start(NAME),
            tok(IDENT),
            end(),
            tok(L_PAREN),
            tok(R_PAREN),
            tok(L_CURLY),
            tok(R_CURLY),
            tok(STRING),
            end(),
            end(),
        ],
    );
    let source = db.parse_or_expand(hir_file).unwrap();
    let expansion = id.as_file();
    assert!(expansion.is_attr_macro(&db));
    let info = expansion.expansion_info(&db).unwrap();
    assert_eq!(info.macro_arg_shift, Shift(4));
    let tree = db.parse_or_expand(expansion).unwrap();

    // a token of the item maps up without being moved back
    let h = InFile::new(expansion, token_with_text(tree, "h", 0));
    let (up, origin) = info.map_token_up(&db, h).unwrap();
    assert_eq!(origin, Origin::Call);
    assert_eq!(up, InFile::new(hir_file, token_with_text(source, "h", 0)));
    // a token of the arguments is moved back and found in the attribute
    let lit = InFile::new(expansion, token_with_text(tree, "\"/x\"", 0));
    let (up, _) = info.map_token_up(&db, lit).unwrap();
    assert_eq!(up, InFile::new(hir_file, token_with_text(source, "\"/x\"", 0)));

    // down: with the item at hand a token of the attribute is found there
    let source_lit = InFile::new(hir_file, token_with_text(source, "\"/x\"", 0));
    assert_eq!(info.map_token_down(&db, Some(item), source_lit), Some(vec![lit]));
    let source_h = InFile::new(hir_file, token_with_text(source, "h", 0));
    assert_eq!(info.map_token_down(&db, Some(item), source_h), Some(vec![h]));
    assert_eq!(info.map_token_down(&db, None, source_h), Some(vec![h]));

    // above the expansion of an attribute macro the item is skipped
    let root = InFile::new(expansion, SyntaxNode(0));
    let plain = root.ancestors_with_macros(&db);
    assert_eq!(plain.len(), 3);
    assert_eq!(plain[1], InFile::new(hir_file, item));
    let skipping = root.ancestors_with_macros_skip_attr_item(&db);
    assert_eq!(skipping, vec![root, InFile::new(hir_file, SyntaxNode(0))]);
}

#[test]
fn expand_to_from_call_site() {
    let under = |parent: SyntaxKind| {
        let tree = tree(N(SOURCE_FILE, vec![N(parent, vec![macro_call("m", "x", false)])]));
        let call = node_of_kind(&tree, MACRO_CALL, 0);
        ExpandTo::from_call_site(&tree, call)
    };
    assert_eq!(under(STMT_LIST), ExpandTo::Statements);
    assert_eq!(under(EXPR_STMT), ExpandTo::Statements);
    assert_eq!(under(MACRO_STMTS), ExpandTo::Statements);
    assert_eq!(under(CALL_EXPR), ExpandTo::Expr);
    assert_eq!(under(RETURN_EXPR), ExpandTo::Expr);
    assert_eq!(under(SyntaxKind::BIN_EXPR), ExpandTo::Expr);
    assert_eq!(under(LET_STMT), ExpandTo::Expr);
    assert_eq!(under(MACRO_PAT), ExpandTo::Pattern);
    assert_eq!(under(MACRO_TYPE), ExpandTo::Type);
    assert_eq!(under(ITEM_LIST), ExpandTo::Items);
    assert_eq!(under(MACRO_ITEMS), ExpandTo::Items);
    assert_eq!(under(STRUCT), ExpandTo::Items);
    let tree = tree(N(SOURCE_FILE, vec![macro_call("m", "x", false)]));
    assert_eq!(ExpandTo::from_call_site(&tree, node_of_kind(&tree, MACRO_CALL, 0)), ExpandTo::Items);
    let alone = self::tree(macro_call("m", "x", false));
    assert_eq!(ExpandTo::from_call_site(&alone, SyntaxNode(0)), ExpandTo::Statements);
}

#[test]
fn malformed_call_has_no_input() {
    // m!(x   without the closing bracket
    let mut db = AstDatabase::new();
    let file = db.add_file(tree(N(
        SOURCE_FILE,
        vec![N(
            MACRO_CALL,
            vec![path("m"), T(BANG, "!"), N(TOKEN_TREE, vec![T(L_PAREN, "("), T(IDENT, "x")])],
        )],
    )));
    let hir_file: HirFileId = file.into();
    let source = db.parse_or_expand(hir_file).unwrap();
    let call = ast_id(&db, hir_file, node_of_kind(source, MACRO_CALL, 0));
    let def = MacroDefId {
        krate: CrateId(0),
        kind: MacroDefKind::BuiltIn(BuiltinFnLikeExpander::Stringify, call),
        local_inner: false,
    };
    let id = def.as_lazy_macro(
        &mut db,
        CrateId(0),
        MacroCallKind::FnLike { ast_id: call, expand_to: ExpandTo::Expr },
    );
    assert!(assemble_macro_arg(&db, id).is_none());
    assert_eq!(db.lookup_intern_macro(id).kind.arg(&db).map(|n| n.file_id), Some(hir_file));
    assert_eq!(db.lookup_intern_macro(id).kind.to_node(&db).value, SyntaxNode(1));
}

#[test]
fn expander_maps_ids() {
    let mac = TokenExpander::DeclarativeMacro { shift: Shift(10), def_site_token_map: TokenMap::new() };
    assert_eq!(mac.map_id_down(TokenId(3)), Some(TokenId(13)));
    assert_eq!(mac.map_id_up(TokenId(13)), (TokenId(3), Origin::Call));
    assert_eq!(mac.map_id_up(TokenId(9)), (TokenId(9), Origin::Def));
    assert_eq!(mac.map_id_down(TokenId(0xffff_fff9)), None);
    let builtin = TokenExpander::Builtin(BuiltinFnLikeExpander::Line);
    assert_eq!(builtin.map_id_down(TokenId(3)), Some(TokenId(3)));
    assert_eq!(builtin.map_id_up(TokenId(3)), (TokenId(3), Origin::Call));
}

#[test]
fn a_declarative_macro_is_made_of_its_definition() {
    let mut db = AstDatabase::new();
    let file = db.add_file(tree(N(SOURCE_FILE, vec![macro_call("lost", "x", true)])));
    let hir_file: HirFileId = file.into();
    let source = db.parse_or_expand(hir_file).unwrap();
    let call_node = node_of_kind(source, MACRO_CALL, 0);
    let call_id = ast_id(&db, hir_file, call_node);
    // the macro is said to be defined where the call stands: no definition
    // is found there
    let id = declarative(call_id).as_lazy_macro(
        &mut db,
        CrateId(0),
        MacroCallKind::FnLike { ast_id: call_id, expand_to: ExpandTo::Items },
    );
    let mac =
        || TokenExpander::DeclarativeMacro { shift: Shift(1), def_site_token_map: TokenMap::new() };
    assert!(!db.set_macro_def(id, Arc::new(mac())));
    assert!(db.macro_def(id).is_none());
    // an expander that is not made of a definition is recorded
    assert!(db.set_macro_def(id, Arc::new(TokenExpander::Builtin(BuiltinFnLikeExpander::Line))));
    assert!(db.macro_def(id).is_some());
    // with its definition at hand, so is a declarative macro
    let (mut db, _, outer, _) = nested_declarative();
    assert!(db.set_macro_def(outer, Arc::new(mac())));
}
