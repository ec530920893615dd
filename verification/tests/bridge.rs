use hir_expand::convert::{convert_tokens, SrcToken};
use hir_expand::doc_comment::{
    comment_kind, convert_doc_comment, doc_body, doc_literal, quoted, CommentPlacement,
    CommentShape,
};
use hir_expand::syntax::{SyntaxNode, SyntaxTree, SyntaxTreeBuilder};
use hir_expand::syntax_bridge::{
    parse_exprs_with_sep, parse_to_token_tree, syntax_node_to_token_tree,
    syntax_node_to_token_tree_censored, RawToken,
};
use hir_expand::syntax_kind::SyntaxKind;
use hir_expand::text::TextRange;
use hir_expand::token_map::{Shift, TokenMap, TokenTextRange};
use hir_expand::tree_sink::{token_tree_to_syntax_node, ExpandError, ParseEvent};
use hir_expand::tt::{
    Delimiter, DelimiterKind, Ident, Leaf, Literal, Punct, Spacing, Subtree, TokenId, TokenTree,
};
use rustc_hash::FxHashSet;

fn raw(kind: SyntaxKind, text: &str) -> RawToken {
    RawToken { kind, text: text.to_string() }
}

fn ident(text: &str, id: u32) -> TokenTree {
    TokenTree::Leaf(Leaf::Ident(Ident { text: text.to_string(), id: TokenId(id) }))
}

fn literal(text: &str, id: u32) -> TokenTree {
    TokenTree::Leaf(Leaf::Literal(Literal { text: text.to_string(), id: TokenId(id) }))
}

fn punct(char: char, spacing: Spacing, id: u32) -> TokenTree {
    TokenTree::Leaf(Leaf::Punct(Punct { char, spacing, id: TokenId(id) }))
}

fn subtree(kind: Option<(DelimiterKind, u32)>, token_trees: Vec<TokenTree>) -> Subtree {
    Subtree {
        delimiter: kind.map(|(kind, id)| Delimiter { id: TokenId(id), kind }),
        token_trees,
    }
}

fn unspecified() -> u32 {
    TokenId::unspecified().0
}

enum E {
    N(SyntaxKind, Vec<E>),
    T(SyntaxKind, &'static str),
}

fn emit(b: &mut SyntaxTreeBuilder, e: &E) {
    match e {
        E::N(kind, children) => {
            b.start_node(*kind);
            for c in children {
                emit(b, c);
            }
            b.finish_node();
        }
        E::T(kind, text) => b.token(*kind, text),
    }
}

fn tree(e: E) -> SyntaxTree {
    let mut b = SyntaxTreeBuilder::new();
    emit(&mut b, &e);
    b.finish().expect("one syntax tree")
}

#[test]
fn unterminated_tree_is_taken_apart() {
    // foo!( a, b
    let tokens = vec![
        raw(SyntaxKind::IDENT, "foo"),
        raw(SyntaxKind::BANG, "!"),
        raw(SyntaxKind::L_PAREN, "("),
        raw(SyntaxKind::WHITESPACE, " "),
        raw(SyntaxKind::IDENT, "a"),
        raw(SyntaxKind::COMMA, ","),
        raw(SyntaxKind::WHITESPACE, " "),
        raw(SyntaxKind::IDENT, "b"),
    ];
    let (tt, map) = parse_to_token_tree(&tokens, 0).unwrap();
    assert_eq!(
        tt,
        subtree(
            None,
            vec![
                ident("foo", 0),
                punct('!', Spacing::Alone, 1),
                punct('(', Spacing::Alone, 6),
                ident("a", 3),
                punct(',', Spacing::Alone, 4),
                ident("b", 5),
            ]
        )
    );
    // the entry of the unclosed pair is gone, the bracket has the range of a token
    assert_eq!(map.range_by_token(TokenId(2)), None);
    assert_eq!(
        map.range_by_token(TokenId(6)),
        Some(TokenTextRange::Token(TextRange::new(4, 5)))
    );
    assert_eq!(map.token_by_range(TextRange::new(6, 7)), Some(TokenId(3)));
    assert_eq!(map.len(), 6);
}

#[test]
fn lexer_errors_give_no_token_tree() {
    let tokens = vec![raw(SyntaxKind::IDENT, "foo")];
    assert!(parse_to_token_tree(&tokens, 1).is_none());
    assert!(parse_to_token_tree(&tokens, 0).is_some());
}

#[test]
fn single_subtree_is_the_result() {
    // (a)
    let tokens = vec![
        raw(SyntaxKind::L_PAREN, "("),
        raw(SyntaxKind::IDENT, "a"),
        raw(SyntaxKind::R_PAREN, ")"),
    ];
    let (tt, map) = parse_to_token_tree(&tokens, 0).unwrap();
    assert_eq!(tt, subtree(Some((DelimiterKind::Parenthesis, 0)), vec![ident("a", 1)]));
    assert_eq!(
        map.range_by_token(TokenId(0)),
        Some(TokenTextRange::Delimiter(TextRange::new(0, 1), Some(TextRange::new(2, 3))))
    );
    assert_eq!(
        map.first_range_by_token(TokenId(0), SyntaxKind::R_PAREN),
        Some(TextRange::new(2, 3))
    );
    assert_eq!(
        map.first_range_by_token(TokenId(0), SyntaxKind::L_PAREN),
        Some(TextRange::new(0, 1))
    );
    assert_eq!(map.first_range_by_token(TokenId(0), SyntaxKind::IDENT), None);
    assert_eq!(map.token_by_range(TextRange::new(2, 3)), Some(TokenId(0)));
    assert_eq!(map.ranges_by_token(TokenId(1), SyntaxKind::IDENT), vec![TextRange::new(1, 2)]);
}

#[test]
fn unmatched_closer_is_left_out() {
    // a ) b : a closing bracket that closes nothing
    let tokens = vec![
        raw(SyntaxKind::IDENT, "a"),
        raw(SyntaxKind::R_PAREN, ")"),
        raw(SyntaxKind::IDENT, "b"),
    ];
    let (tt, map) = parse_to_token_tree(&tokens, 0).unwrap();
    assert_eq!(tt, subtree(None, vec![ident("a", 0), ident("b", 1)]));
    assert_eq!(map.len(), 2);
    assert_eq!(map.range_by_token(TokenId(1)), Some(TokenTextRange::Token(TextRange::new(2, 3))));
    // ( a ] ) : a closing bracket of another kind than the open one
    let tokens = vec![
        raw(SyntaxKind::L_PAREN, "("),
        raw(SyntaxKind::IDENT, "a"),
        raw(SyntaxKind::R_BRACK, "]"),
        raw(SyntaxKind::R_PAREN, ")"),
    ];
    let (tt, map) = parse_to_token_tree(&tokens, 0).unwrap();
    assert_eq!(tt, subtree(Some((DelimiterKind::Parenthesis, 0)), vec![ident("a", 1)]));
    assert_eq!(
        map.range_by_token(TokenId(0)),
        Some(TokenTextRange::Delimiter(TextRange::new(0, 1), Some(TextRange::new(3, 4))))
    );
}

#[test]
fn punct_spacing() {
    // a += b; -> _
    let tokens = vec![
        raw(SyntaxKind::IDENT, "a"),
        raw(SyntaxKind::WHITESPACE, " "),
        raw(SyntaxKind::PLUS, "+"),
        raw(SyntaxKind::EQ, "="),
        raw(SyntaxKind::WHITESPACE, " "),
        raw(SyntaxKind::IDENT, "b"),
        raw(SyntaxKind::SEMICOLON, ";"),
        raw(SyntaxKind::MINUS, "-"),
        raw(SyntaxKind::R_ANGLE, ">"),
        raw(SyntaxKind::UNDERSCORE, "_"),
        raw(SyntaxKind::BANG, "!"),
        raw(SyntaxKind::L_PAREN, "("),
        raw(SyntaxKind::R_PAREN, ")"),
    ];
    let (tt, _) = parse_to_token_tree(&tokens, 0).unwrap();
    assert_eq!(
        tt,
        subtree(
            None,
            vec![
                ident("a", 0),
                punct('+', Spacing::Joint, 1),
                punct('=', Spacing::Alone, 2),
                ident("b", 3),
                punct(';', Spacing::Joint, 4),
                punct('-', Spacing::Joint, 5),
                // an underscore is a name, not punctuation
                punct('>', Spacing::Alone, 6),
                ident("_", 7),
                // an opening bracket does not join
                punct('!', Spacing::Alone, 8),
                TokenTree::Subtree(subtree(Some((DelimiterKind::Parenthesis, 9)), vec![])),
            ]
        )
    );
}

#[test]
fn lifetime_is_two_tokens() {
    let tokens = vec![raw(SyntaxKind::LIFETIME_IDENT, "'abc"), raw(SyntaxKind::INT_NUMBER, "92")];
    let (tt, map) = parse_to_token_tree(&tokens, 0).unwrap();
    assert_eq!(
        tt,
        subtree(None, vec![punct('\'', Spacing::Joint, 0), ident("abc", 1), literal("92", 2)])
    );
    assert_eq!(map.range_by_token(TokenId(0)), Some(TokenTextRange::Token(TextRange::new(0, 1))));
    assert_eq!(map.range_by_token(TokenId(1)), Some(TokenTextRange::Token(TextRange::new(1, 4))));
    assert_eq!(map.range_by_token(TokenId(2)), Some(TokenTextRange::Token(TextRange::new(4, 6))));
}

#[test]
fn keywords_and_literals() {
    let tokens = vec![
        raw(SyntaxKind::TRUE_KW, "true"),
        raw(SyntaxKind::WHITESPACE, " "),
        raw(SyntaxKind::FN_KW, "fn"),
        raw(SyntaxKind::WHITESPACE, " "),
        raw(SyntaxKind::STRING, "\"s\""),
        raw(SyntaxKind::COMMENT, "// not a doc comment"),
        raw(SyntaxKind::ERROR, "\\"),
    ];
    let (tt, _) = parse_to_token_tree(&tokens, 0).unwrap();
    assert_eq!(tt, subtree(None, vec![ident("true", 0), ident("fn", 1), literal("\"s\"", 2)]));
}

#[test]
fn test_meta_doc_comments() {
    // /// Single Line Doc 1
    let tokens = vec![raw(SyntaxKind::COMMENT, "/// Single Line Doc 1")];
    let (tt, map) = parse_to_token_tree(&tokens, 0).unwrap();
    let u = unspecified();
    assert_eq!(
        tt,
        subtree(
            None,
            vec![
                punct('#', Spacing::Alone, u),
                TokenTree::Subtree(subtree(
                    Some((DelimiterKind::Bracket, u)),
                    vec![
                        ident("doc", u),
                        punct('=', Spacing::Alone, u),
                        literal("\" Single Line Doc 1\"", 0),
                    ]
                )),
            ]
        )
    );
    assert_eq!(map.range_by_token(TokenId(0)), Some(TokenTextRange::Token(TextRange::new(0, 21))));
}

#[test]
fn doc_comment_kinds() {
    let k = comment_kind("/// x");
    assert_eq!((k.shape, k.doc), (CommentShape::Line, Some(CommentPlacement::Outer)));
    let k = comment_kind("//! x");
    assert_eq!((k.shape, k.doc), (CommentShape::Line, Some(CommentPlacement::Inner)));
    let k = comment_kind("/** x */");
    assert_eq!((k.shape, k.doc), (CommentShape::Block, Some(CommentPlacement::Outer)));
    let k = comment_kind("/*! x */");
    assert_eq!((k.shape, k.doc), (CommentShape::Block, Some(CommentPlacement::Inner)));
    for plain in ["// x", "//// x", "/* x */", "/*** x */", "/**/", "/", ""] {
        assert_eq!(comment_kind(plain).doc, None);
    }
    assert_eq!(comment_kind("/**/").shape, CommentShape::Block);
}

#[test]
fn doc_comment_text_is_escaped() {
    // the text of the comment is escaped as a string literal needs it: a
    // test that fails where the text is handed on as it is
    let trees = convert_doc_comment("/** say \"hi\"\t*/", TokenId(7)).unwrap();
    assert_eq!(trees.len(), 2);
    match &trees[1] {
        TokenTree::Subtree(s) => {
            assert_eq!(s.token_trees[2], literal("\" say \\\"hi\\\"\\t\"", 7));
        }
        _ => panic!("a subtree"),
    }
    let trees = convert_doc_comment("//! inner", TokenId(7)).unwrap();
    assert_eq!(trees.len(), 3);
    assert_eq!(trees[1], punct('!', Spacing::Alone, unspecified()));
    assert!(convert_doc_comment("// plain", TokenId(7)).is_none());
}

fn call_tree() -> SyntaxTree {
    // m!(a::b, _)
    tree(E::N(
        SyntaxKind::SOURCE_FILE,
        vec![
            E::T(SyntaxKind::WHITESPACE, "  "),
            E::N(
                SyntaxKind::MACRO_CALL,
                vec![
                    E::N(
                        SyntaxKind::PATH,
                        vec![E::N(
                            SyntaxKind::PATH_SEGMENT,
                            vec![E::N(SyntaxKind::NAME_REF, vec![E::T(SyntaxKind::IDENT, "m")])],
                        )],
                    ),
                    E::T(SyntaxKind::BANG, "!"),
                    E::N(
                        SyntaxKind::TOKEN_TREE,
                        vec![
                            E::T(SyntaxKind::L_PAREN, "("),
                            E::T(SyntaxKind::IDENT, "a"),
                            E::T(SyntaxKind::COLON2, "::"),
                            E::T(SyntaxKind::IDENT, "b"),
                            E::T(SyntaxKind::COMMA, ","),
                            E::T(SyntaxKind::WHITESPACE, " "),
                            E::T(SyntaxKind::UNDERSCORE, "_"),
                            E::T(SyntaxKind::R_PAREN, ")"),
                        ],
                    ),
                ],
            ),
        ],
    ))
}

fn node_of_kind(tree: &SyntaxTree, kind: SyntaxKind) -> SyntaxNode {
    SyntaxNode((0..tree.len()).find(|&i| !tree.is_token(i) && tree.kind(i) == kind).unwrap())
}

#[test]
fn syntax_node_to_token_tree_of_call() {
    let tree = call_tree();
    let tt_node = node_of_kind(&tree, SyntaxKind::TOKEN_TREE);
    assert_eq!(tree.text_range(tt_node.0), TextRange::new(4, 13));
    let (tt, map) = syntax_node_to_token_tree(&tree, tt_node);
    assert_eq!(
        tt,
        subtree(
            Some((DelimiterKind::Parenthesis, 0)),
            vec![
                ident("a", 1),
                // a token of two characters gives two leaves
                punct(':', Spacing::Joint, 2),
                punct(':', Spacing::Alone, 3),
                ident("b", 4),
                punct(',', Spacing::Alone, 5),
                ident("_", 6),
            ]
        )
    );
    // ranges are relative to the start of the node
    assert_eq!(map.token_by_range(TextRange::new(1, 2)), Some(TokenId(1)));
    assert_eq!(map.token_by_range(TextRange::new(2, 3)), Some(TokenId(2)));
    assert_eq!(map.token_by_range(TextRange::new(3, 4)), Some(TokenId(3)));
    assert_eq!(map.token_by_range(TextRange::new(7, 8)), Some(TokenId(6)));
    assert_eq!(map.token_by_range(TextRange::new(0, 1)), Some(TokenId(0)));
    assert_eq!(map.token_by_range(TextRange::new(8, 9)), Some(TokenId(0)));
    assert_eq!(map.token_by_range(TextRange::new(6, 7)), None);
}

#[test]
fn censored_nodes_are_left_out() {
    let tree = call_tree();
    let call = node_of_kind(&tree, SyntaxKind::MACRO_CALL);
    let mut censor = FxHashSet::default();
    censor.insert(node_of_kind(&tree, SyntaxKind::TOKEN_TREE).0);
    let (tt, map) = syntax_node_to_token_tree_censored(&tree, call, &censor);
    assert_eq!(tt, subtree(None, vec![ident("m", 0), punct('!', Spacing::Alone, 1)]));
    assert_eq!(map.len(), 2);
    let (whole, _) = syntax_node_to_token_tree_censored(&tree, call, &FxHashSet::default());
    assert_eq!(whole.token_trees.len(), 3);
}

#[test]
fn convert_tokens_of_nothing() {
    let (tt, map) = convert_tokens(&Vec::<SrcToken>::new());
    assert_eq!(tt, subtree(None, vec![]));
    assert_eq!(map.len(), 0);
}

fn start(kind: SyntaxKind) -> ParseEvent {
    ParseEvent::StartNode { kind }
}

fn token(kind: SyntaxKind, n_tokens: u8) -> ParseEvent {
    ParseEvent::Token { kind, n_tokens }
}

fn text_of(tree: &SyntaxTree) -> String {
    (0..tree.len())
        .filter(|&i| tree.is_token(i))
        .map(|i| tree.token_text(hir_expand::syntax::SyntaxToken(i)).clone())
        .collect()
}

#[test]
fn token_tree_to_syntax_node_of_statement() {
    // let a = (b + - 'c);
    let tt = subtree(
        None,
        vec![
            ident("let", 0),
            ident("a", 1),
            punct('=', Spacing::Alone, 2),
            TokenTree::Subtree(subtree(
                Some((DelimiterKind::Parenthesis, 3)),
                vec![
                    ident("b", 4),
                    punct('+', Spacing::Alone, 5),
                    punct('-', Spacing::Joint, 6),
                    punct('\'', Spacing::Joint, 7),
                    ident("c", 8),
                ],
            )),
            punct(';', Spacing::Alone, 9),
        ],
    );
    let events = vec![
        start(SyntaxKind::MACRO_STMTS),
        start(SyntaxKind::LET_STMT),
        token(SyntaxKind::LET_KW, 1),
        start(SyntaxKind::IDENT_PAT),
        token(SyntaxKind::IDENT, 1),
        ParseEvent::FinishNode,
        token(SyntaxKind::EQ, 1),
        start(SyntaxKind::PAREN_EXPR),
        token(SyntaxKind::L_PAREN, 1),
        token(SyntaxKind::IDENT, 1),
        token(SyntaxKind::PLUS, 1),
        token(SyntaxKind::MINUS, 1),
        token(SyntaxKind::LIFETIME_IDENT, 1),
        token(SyntaxKind::R_PAREN, 1),
        ParseEvent::FinishNode,
        ParseEvent::Error { message: "expected expression".to_string() },
        token(SyntaxKind::SEMICOLON, 1),
        ParseEvent::FinishNode,
        ParseEvent::FinishNode,
    ];
    let (parse, map) = token_tree_to_syntax_node(&tt, &events).unwrap();
    // a blank stands behind punctuation that stands alone before punctuation
    assert_eq!(text_of(&parse.tree), "leta=(b+ -'c);");
    assert_eq!(parse.errors.len(), 1);
    assert_eq!(parse.errors[0].offset, 13);
    assert_eq!(map.first_range_by_token(TokenId(1), SyntaxKind::IDENT), Some(TextRange::new(3, 4)));
    assert_eq!(
        map.range_by_token(TokenId(3)),
        Some(TokenTextRange::Delimiter(TextRange::new(5, 6), Some(TextRange::new(12, 13))))
    );
    assert_eq!(map.token_by_range(TextRange::new(9, 10)), Some(TokenId(6)));
    // the lifetime is one token of the syntax tree, made of two leaves
    let lifetime = (0..parse.tree.len())
        .find(|&i| parse.tree.kind(i) == SyntaxKind::LIFETIME_IDENT)
        .unwrap();
    assert_eq!(parse.tree.text_range(lifetime), TextRange::new(10, 12));
    assert_eq!(map.token_by_range(TextRange::new(10, 11)), Some(TokenId(7)));
    assert_eq!(map.token_by_range(TextRange::new(11, 12)), Some(TokenId(8)));
}

#[test]
fn token_tree_with_delimiters_is_walked_from_its_opening() {
    let tt = subtree(Some((DelimiterKind::Brace, 0)), vec![ident("x", 1)]);
    let events = vec![
        start(SyntaxKind::BLOCK_EXPR),
        token(SyntaxKind::L_CURLY, 1),
        token(SyntaxKind::IDENT, 1),
        token(SyntaxKind::R_CURLY, 1),
        ParseEvent::FinishNode,
    ];
    let (parse, map) = token_tree_to_syntax_node(&tt, &events).unwrap();
    assert_eq!(text_of(&parse.tree), "{x}");
    assert_eq!(
        map.range_by_token(TokenId(0)),
        Some(TokenTextRange::Delimiter(TextRange::new(0, 1), Some(TextRange::new(2, 3))))
    );
}

#[test]
fn two_roots_are_a_conversion_error() {
    let tt = subtree(None, vec![ident("a", 0), ident("b", 1)]);
    let events = vec![
        start(SyntaxKind::NAME),
        token(SyntaxKind::IDENT, 1),
        ParseEvent::FinishNode,
        start(SyntaxKind::NAME),
        token(SyntaxKind::IDENT, 1),
        ParseEvent::FinishNode,
    ];
    assert_eq!(token_tree_to_syntax_node(&tt, &events).err(), Some(ExpandError::ConversionError));
    assert_eq!(token_tree_to_syntax_node(&tt, &vec![]).err(), Some(ExpandError::ConversionError));
    let unfinished = vec![start(SyntaxKind::NAME), token(SyntaxKind::IDENT, 1)];
    assert_eq!(token_tree_to_syntax_node(&tt, &unfinished).err(), Some(ExpandError::ConversionError));
    let too_many = vec![start(SyntaxKind::NAME), ParseEvent::FinishNode, ParseEvent::FinishNode];
    assert_eq!(token_tree_to_syntax_node(&tt, &too_many).err(), Some(ExpandError::ConversionError));
}

#[test]
fn semicolon_takes_no_blank() {
    let tt = subtree(None, vec![punct(';', Spacing::Alone, 0), punct(';', Spacing::Alone, 1)]);
    let events = vec![
        start(SyntaxKind::MACRO_STMTS),
        token(SyntaxKind::SEMICOLON, 1),
        token(SyntaxKind::SEMICOLON, 1),
        ParseEvent::FinishNode,
    ];
    let (parse, _) = token_tree_to_syntax_node(&tt, &events).unwrap();
    assert_eq!(text_of(&parse.tree), ";;");
}

#[test]
fn round_trip_keeps_ranges() {
    // a tree without trivia goes to a token tree and back: the text is the
    // same, and every token has its old range in both token maps
    let tree = tree(E::N(
        SyntaxKind::TOKEN_TREE,
        vec![
            E::T(SyntaxKind::L_PAREN, "("),
            E::T(SyntaxKind::IDENT, "ab"),
            E::T(SyntaxKind::INT_NUMBER, "92"),
            E::T(SyntaxKind::R_PAREN, ")"),
        ],
    ));
    let (tt, down) = syntax_node_to_token_tree(&tree, SyntaxNode(0));
    let events = vec![
        start(SyntaxKind::TOKEN_TREE),
        token(SyntaxKind::L_PAREN, 1),
        token(SyntaxKind::IDENT, 1),
        token(SyntaxKind::INT_NUMBER, 1),
        token(SyntaxKind::R_PAREN, 1),
        ParseEvent::FinishNode,
    ];
    let (parse, up) = token_tree_to_syntax_node(&tt, &events).unwrap();
    assert_eq!(text_of(&parse.tree), text_of(&tree));
    assert_eq!(parse.tree.len(), tree.len());
    for i in 0..tree.len() {
        assert_eq!(parse.tree.kind(i), tree.kind(i));
        assert_eq!(parse.tree.text_range(i), tree.text_range(i));
        if tree.is_token(i) {
            let id = down.token_by_range(tree.text_range(i)).unwrap();
            assert_eq!(up.first_range_by_token(id, tree.kind(i)), Some(tree.text_range(i)));
        }
    }
}

#[test]
fn exprs_are_split_at_separators() {
    // a + b , (c) , d e
    let tt = subtree(
        Some((DelimiterKind::Parenthesis, 0)),
        vec![
            ident("a", 1),
            punct('+', Spacing::Alone, 2),
            ident("b", 3),
            punct(',', Spacing::Alone, 4),
            TokenTree::Subtree(subtree(Some((DelimiterKind::Parenthesis, 5)), vec![ident("c", 6)])),
            punct(',', Spacing::Alone, 7),
            ident("d", 8),
            ident("e", 9),
        ],
    );
    let parts = parse_exprs_with_sep(&tt, ',', &vec![3, 1, 1]);
    assert_eq!(
        parts,
        vec![
            subtree(None, vec![ident("a", 1), punct('+', Spacing::Alone, 2), ident("b", 3)]),
            subtree(Some((DelimiterKind::Parenthesis, 5)), vec![ident("c", 6)]),
            subtree(None, vec![ident("d", 8)]),
            subtree(None, vec![ident("e", 9)]),
        ]
    );
    // no expression where one is expected: what is left is the last piece
    let parts = parse_exprs_with_sep(&tt, ',', &vec![3, 0]);
    assert_eq!(parts.len(), 2);
    assert_eq!(parts[1].token_trees.len(), 4);
    assert_eq!(parse_exprs_with_sep(&subtree(None, vec![]), ',', &vec![1]), vec![]);
    // another separator
    let parts = parse_exprs_with_sep(&tt, ';', &vec![3]);
    assert_eq!(parts.len(), 2);
    assert_eq!(parts[1].token_trees.len(), 5);
}

#[test]
fn shift_keeps_ids_apart() {
    let tt = subtree(
        Some((DelimiterKind::Parenthesis, 9)),
        vec![ident("a", 3), punct('+', Spacing::Alone, 5), literal("1", unspecified())],
    );
    let shift = Shift::new(&tt);
    assert_eq!(shift, Shift(10));
    assert_eq!(Shift::new(&subtree(None, vec![])), Shift(0));
    assert_eq!(Shift::new(&subtree(None, vec![punct('+', Spacing::Alone, 4)])), Shift(5));
    // an id of the tree is no shifted id, and a shifted id comes back
    for own in [3, 5, 9] {
        assert_eq!(shift.unshift(TokenId(own)), None);
    }
    for other in [0, 1, 77] {
        assert_eq!(shift.unshift(shift.shift(TokenId(other))), Some(TokenId(other)));
    }
    assert_eq!(shift.shift(TokenId(2)), TokenId(12));
    assert_eq!(shift.shift(TokenId::unspecified()), TokenId::unspecified());
}

#[test]
fn token_map_entries() {
    let mut map = TokenMap::new();
    map.insert(TokenId(0), TextRange::new(0, 3));
    let idx = map.insert_delim(TokenId(1), TextRange::new(3, 4), None);
    assert_eq!(idx, 1);
    map.insert(TokenId(0), TextRange::new(4, 7));
    assert_eq!(map.first_range_by_token(TokenId(1), SyntaxKind::R_CURLY), None);
    map.update_close_delim(idx, TextRange::new(9, 10));
    assert_eq!(map.first_range_by_token(TokenId(1), SyntaxKind::R_CURLY), Some(TextRange::new(9, 10)));
    assert_eq!(
        map.ranges_by_token(TokenId(0), SyntaxKind::IDENT),
        vec![TextRange::new(0, 3), TextRange::new(4, 7)]
    );
    assert_eq!(map.first_range_by_token(TokenId(0), SyntaxKind::IDENT), Some(TextRange::new(0, 3)));
    assert_eq!(map.token_by_range(TextRange::new(4, 7)), Some(TokenId(0)));
    assert_eq!(map.token_by_range(TextRange::new(4, 6)), None);
    let copy = map.duplicate();
    assert!(copy.same(&map));
    map.remove_delim(idx);
    assert!(!copy.same(&map));
    assert_eq!(map.len(), 2);
    assert_eq!(map.entry(1), (TokenId(0), TokenTextRange::Token(TextRange::new(4, 7))));
    assert_eq!(map.range_by_token(TokenId(1)), None);
}

#[test]
fn doc_literal_is_the_body_between_quotes() {
    assert_eq!(quoted(""), "\"\"");
    assert_eq!(quoted("a b"), "\"a b\"");
    assert_eq!(quoted("\\n"), "\"\\n\"");
    assert_eq!(doc_body("/// text", CommentShape::Line), " text");
    assert_eq!(doc_body("/** text */", CommentShape::Block), " text ");
    assert_eq!(doc_literal("/// text", CommentShape::Line), "\" text\"");
    assert_eq!(doc_literal("//! a\"b", CommentShape::Line), "\" a\\\"b\"");
}
