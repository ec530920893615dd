//! The kinds of tokens and nodes that a syntax tree is made of.

use vstd::prelude::*;

verus! {

/// The kind of one element of a syntax tree: first the tokens (punctuation,
/// keywords, literals and the rest), then the nodes.
#[allow(non_camel_case_types)]
#[derive(Clone, Copy, Debug, PartialEq, Eq, Hash, Structural)]
pub enum SyntaxKind {
    // punctuation
    SEMICOLON,
    COMMA,
    L_PAREN,
    R_PAREN,
    L_CURLY,
    R_CURLY,
    L_BRACK,
    R_BRACK,
    L_ANGLE,
    R_ANGLE,
    AT,
    POUND,
    TILDE,
    QUESTION,
    DOLLAR,
    AMP,
    PIPE,
    PLUS,
    STAR,
    SLASH,
    CARET,
    PERCENT,
    UNDERSCORE,
    DOT,
    DOT2,
    DOT3,
    DOT2EQ,
    COLON,
    COLON2,
    EQ,
    EQ2,
    FAT_ARROW,
    BANG,
    NEQ,
    MINUS,
    THIN_ARROW,
    LTEQ,
    GTEQ,
    PLUSEQ,
    MINUSEQ,
    PIPEEQ,
    AMPEQ,
    CARETEQ,
    SLASHEQ,
    STAREQ,
    PERCENTEQ,
    AMP2,
    PIPE2,
    SHL,
    SHR,
    SHLEQ,
    SHREQ,
    // keywords
    AS_KW,
    ASYNC_KW,
    AWAIT_KW,
    BOX_KW,
    BREAK_KW,
    CONST_KW,
    CONTINUE_KW,
    CRATE_KW,
    DYN_KW,
    ELSE_KW,
    ENUM_KW,
    EXTERN_KW,
    FALSE_KW,
    FN_KW,
    FOR_KW,
    IF_KW,
    IMPL_KW,
    IN_KW,
    LET_KW,
    LOOP_KW,
    MACRO_KW,
    MATCH_KW,
    MOD_KW,
    MOVE_KW,
    MUT_KW,
    PUB_KW,
    REF_KW,
    RETURN_KW,
    SELF_KW,
    STATIC_KW,
    STRUCT_KW,
    SUPER_KW,
    TRAIT_KW,
    TRUE_KW,
    TRY_KW,
    TYPE_KW,
    UNSAFE_KW,
    USE_KW,
    WHERE_KW,
    WHILE_KW,
    YIELD_KW,
    AUTO_KW,
    DEFAULT_KW,
    EXISTENTIAL_KW,
    UNION_KW,
    RAW_KW,
    MACRO_RULES_KW,
    // literals
    INT_NUMBER,
    FLOAT_NUMBER,
    CHAR,
    BYTE,
    STRING,
    BYTE_STRING,
    // other tokens
    ERROR,
    IDENT,
    WHITESPACE,
    LIFETIME_IDENT,
    COMMENT,
    SHEBANG,
    L_DOLLAR,
    R_DOLLAR,
    // nodes
    SOURCE_FILE,
    STRUCT,
    UNION,
    ENUM,
    FN,
    RET_TYPE,
    EXTERN_CRATE,
    MODULE,
    USE,
    STATIC,
    CONST,
    TRAIT,
    IMPL,
    TYPE_ALIAS,
    MACRO_CALL,
    MACRO_RULES,
    MACRO_ARM,
    TOKEN_TREE,
    MACRO_DEF,
    PAREN_TYPE,
    TUPLE_TYPE,
    MACRO_TYPE,
    NEVER_TYPE,
    PATH_TYPE,
    PTR_TYPE,
    ARRAY_TYPE,
    SLICE_TYPE,
    REF_TYPE,
    INFER_TYPE,
    FN_PTR_TYPE,
    FOR_TYPE,
    IMPL_TRAIT_TYPE,
    DYN_TRAIT_TYPE,
    OR_PAT,
    PAREN_PAT,
    REF_PAT,
    BOX_PAT,
    IDENT_PAT,
    WILDCARD_PAT,
    REST_PAT,
    PATH_PAT,
    RECORD_PAT,
    RECORD_PAT_FIELD_LIST,
    RECORD_PAT_FIELD,
    TUPLE_STRUCT_PAT,
    TUPLE_PAT,
    SLICE_PAT,
    RANGE_PAT,
    LITERAL_PAT,
    MACRO_PAT,
    CONST_BLOCK_PAT,
    TUPLE_EXPR,
    ARRAY_EXPR,
    PAREN_EXPR,
    PATH_EXPR,
    CLOSURE_EXPR,
    IF_EXPR,
    WHILE_EXPR,
    CONDITION,
    LOOP_EXPR,
    FOR_EXPR,
    CONTINUE_EXPR,
    BREAK_EXPR,
    LABEL,
    BLOCK_EXPR,
    STMT_LIST,
    RETURN_EXPR,
    YIELD_EXPR,
    MATCH_EXPR,
    MATCH_ARM_LIST,
    MATCH_ARM,
    MATCH_GUARD,
    RECORD_EXPR,
    RECORD_EXPR_FIELD_LIST,
    RECORD_EXPR_FIELD,
    BOX_EXPR,
    CALL_EXPR,
    INDEX_EXPR,
    METHOD_CALL_EXPR,
    FIELD_EXPR,
    AWAIT_EXPR,
    TRY_EXPR,
    CAST_EXPR,
    REF_EXPR,
    PREFIX_EXPR,
    RANGE_EXPR,
    BIN_EXPR,
    EXTERN_BLOCK,
    EXTERN_ITEM_LIST,
    VARIANT,
    RECORD_FIELD_LIST,
    RECORD_FIELD,
    TUPLE_FIELD_LIST,
    TUPLE_FIELD,
    VARIANT_LIST,
    ITEM_LIST,
    ASSOC_ITEM_LIST,
    ATTR,
    META,
    USE_TREE,
    USE_TREE_LIST,
    PATH,
    PATH_SEGMENT,
    LITERAL,
    RENAME,
    VISIBILITY,
    WHERE_CLAUSE,
    WHERE_PRED,
    ABI,
    NAME,
    NAME_REF,
    LET_STMT,
    EXPR_STMT,
    GENERIC_PARAM_LIST,
    GENERIC_PARAM,
    LIFETIME_PARAM,
    TYPE_PARAM,
    CONST_PARAM,
    GENERIC_ARG_LIST,
    LIFETIME,
    LIFETIME_ARG,
    TYPE_ARG,
    ASSOC_TYPE_ARG,
    CONST_ARG,
    PARAM_LIST,
    PARAM,
    SELF_PARAM,
    ARG_LIST,
    TYPE_BOUND,
    TYPE_BOUND_LIST,
    MACRO_ITEMS,
    MACRO_STMTS,
}

impl SyntaxKind {
    /// Punctuation, the underscore included.
    pub open spec fn spec_is_punct(self) -> bool {
        matches!(
            self,
            SyntaxKind::SEMICOLON | SyntaxKind::COMMA | SyntaxKind::L_PAREN |
            SyntaxKind::R_PAREN | SyntaxKind::L_CURLY | SyntaxKind::R_CURLY |
            SyntaxKind::L_BRACK | SyntaxKind::R_BRACK | SyntaxKind::L_ANGLE |
            SyntaxKind::R_ANGLE | SyntaxKind::AT | SyntaxKind::POUND | SyntaxKind::TILDE |
            SyntaxKind::QUESTION | SyntaxKind::DOLLAR | SyntaxKind::AMP | SyntaxKind::PIPE |
            SyntaxKind::PLUS | SyntaxKind::STAR | SyntaxKind::SLASH | SyntaxKind::CARET |
            SyntaxKind::PERCENT | SyntaxKind::UNDERSCORE | SyntaxKind::DOT | SyntaxKind::DOT2 |
            SyntaxKind::DOT3 | SyntaxKind::DOT2EQ | SyntaxKind::COLON | SyntaxKind::COLON2 |
            SyntaxKind::EQ | SyntaxKind::EQ2 | SyntaxKind::FAT_ARROW | SyntaxKind::BANG |
            SyntaxKind::NEQ | SyntaxKind::MINUS | SyntaxKind::THIN_ARROW | SyntaxKind::LTEQ |
            SyntaxKind::GTEQ | SyntaxKind::PLUSEQ | SyntaxKind::MINUSEQ | SyntaxKind::PIPEEQ |
            SyntaxKind::AMPEQ | SyntaxKind::CARETEQ | SyntaxKind::SLASHEQ |
            SyntaxKind::STAREQ | SyntaxKind::PERCENTEQ | SyntaxKind::AMP2 | SyntaxKind::PIPE2 |
            SyntaxKind::SHL | SyntaxKind::SHR | SyntaxKind::SHLEQ | SyntaxKind::SHREQ
        )
    }

    #[verifier::when_used_as_spec(spec_is_punct)]
    pub fn is_punct(self) -> (r: bool)
        ensures
            r == self.spec_is_punct(),
    {
        matches!(
            self,
            SyntaxKind::SEMICOLON | SyntaxKind::COMMA | SyntaxKind::L_PAREN |
            SyntaxKind::R_PAREN | SyntaxKind::L_CURLY | SyntaxKind::R_CURLY |
            SyntaxKind::L_BRACK | SyntaxKind::R_BRACK | SyntaxKind::L_ANGLE |
            SyntaxKind::R_ANGLE | SyntaxKind::AT | SyntaxKind::POUND | SyntaxKind::TILDE |
            SyntaxKind::QUESTION | SyntaxKind::DOLLAR | SyntaxKind::AMP | SyntaxKind::PIPE |
            SyntaxKind::PLUS | SyntaxKind::STAR | SyntaxKind::SLASH | SyntaxKind::CARET |
            SyntaxKind::PERCENT | SyntaxKind::UNDERSCORE | SyntaxKind::DOT | SyntaxKind::DOT2 |
            SyntaxKind::DOT3 | SyntaxKind::DOT2EQ | SyntaxKind::COLON | SyntaxKind::COLON2 |
            SyntaxKind::EQ | SyntaxKind::EQ2 | SyntaxKind::FAT_ARROW | SyntaxKind::BANG |
            SyntaxKind::NEQ | SyntaxKind::MINUS | SyntaxKind::THIN_ARROW | SyntaxKind::LTEQ |
            SyntaxKind::GTEQ | SyntaxKind::PLUSEQ | SyntaxKind::MINUSEQ | SyntaxKind::PIPEEQ |
            SyntaxKind::AMPEQ | SyntaxKind::CARETEQ | SyntaxKind::SLASHEQ |
            SyntaxKind::STAREQ | SyntaxKind::PERCENTEQ | SyntaxKind::AMP2 | SyntaxKind::PIPE2 |
            SyntaxKind::SHL | SyntaxKind::SHR | SyntaxKind::SHLEQ | SyntaxKind::SHREQ
        )
    }

    /// A keyword, strict or contextual.
    pub open spec fn spec_is_keyword(self) -> bool {
        matches!(
            self,
            SyntaxKind::AS_KW | SyntaxKind::ASYNC_KW | SyntaxKind::AWAIT_KW |
            SyntaxKind::BOX_KW | SyntaxKind::BREAK_KW | SyntaxKind::CONST_KW |
            SyntaxKind::CONTINUE_KW | SyntaxKind::CRATE_KW | SyntaxKind::DYN_KW |
            SyntaxKind::ELSE_KW | SyntaxKind::ENUM_KW | SyntaxKind::EXTERN_KW |
            SyntaxKind::FALSE_KW | SyntaxKind::FN_KW | SyntaxKind::FOR_KW | SyntaxKind::IF_KW |
            SyntaxKind::IMPL_KW | SyntaxKind::IN_KW | SyntaxKind::LET_KW |
            SyntaxKind::LOOP_KW | SyntaxKind::MACRO_KW | SyntaxKind::MATCH_KW |
            SyntaxKind::MOD_KW | SyntaxKind::MOVE_KW | SyntaxKind::MUT_KW |
            SyntaxKind::PUB_KW | SyntaxKind::REF_KW | SyntaxKind::RETURN_KW |
            SyntaxKind::SELF_KW | SyntaxKind::STATIC_KW | SyntaxKind::STRUCT_KW |
            SyntaxKind::SUPER_KW | SyntaxKind::TRAIT_KW | SyntaxKind::TRUE_KW |
            SyntaxKind::TRY_KW | SyntaxKind::TYPE_KW | SyntaxKind::UNSAFE_KW |
            SyntaxKind::USE_KW | SyntaxKind::WHERE_KW | SyntaxKind::WHILE_KW |
            SyntaxKind::YIELD_KW | SyntaxKind::AUTO_KW | SyntaxKind::DEFAULT_KW |
            SyntaxKind::EXISTENTIAL_KW | SyntaxKind::UNION_KW | SyntaxKind::RAW_KW |
            SyntaxKind::MACRO_RULES_KW
        )
    }

    #[verifier::when_used_as_spec(spec_is_keyword)]
    pub fn is_keyword(self) -> (r: bool)
        ensures
            r == self.spec_is_keyword(),
    {
        matches!(
            self,
            SyntaxKind::AS_KW | SyntaxKind::ASYNC_KW | SyntaxKind::AWAIT_KW |
            SyntaxKind::BOX_KW | SyntaxKind::BREAK_KW | SyntaxKind::CONST_KW |
            SyntaxKind::CONTINUE_KW | SyntaxKind::CRATE_KW | SyntaxKind::DYN_KW |
            SyntaxKind::ELSE_KW | SyntaxKind::ENUM_KW | SyntaxKind::EXTERN_KW |
            SyntaxKind::FALSE_KW | SyntaxKind::FN_KW | SyntaxKind::FOR_KW | SyntaxKind::IF_KW |
            SyntaxKind::IMPL_KW | SyntaxKind::IN_KW | SyntaxKind::LET_KW |
            SyntaxKind::LOOP_KW | SyntaxKind::MACRO_KW | SyntaxKind::MATCH_KW |
            SyntaxKind::MOD_KW | SyntaxKind::MOVE_KW | SyntaxKind::MUT_KW |
            SyntaxKind::PUB_KW | SyntaxKind::REF_KW | SyntaxKind::RETURN_KW |
            SyntaxKind::SELF_KW | SyntaxKind::STATIC_KW | SyntaxKind::STRUCT_KW |
            SyntaxKind::SUPER_KW | SyntaxKind::TRAIT_KW | SyntaxKind::TRUE_KW |
            SyntaxKind::TRY_KW | SyntaxKind::TYPE_KW | SyntaxKind::UNSAFE_KW |
            SyntaxKind::USE_KW | SyntaxKind::WHERE_KW | SyntaxKind::WHILE_KW |
            SyntaxKind::YIELD_KW | SyntaxKind::AUTO_KW | SyntaxKind::DEFAULT_KW |
            SyntaxKind::EXISTENTIAL_KW | SyntaxKind::UNION_KW | SyntaxKind::RAW_KW |
            SyntaxKind::MACRO_RULES_KW
        )
    }

    /// A literal token: a number, a character or a string.
    pub open spec fn spec_is_literal(self) -> bool {
        matches!(
            self,
            SyntaxKind::INT_NUMBER | SyntaxKind::FLOAT_NUMBER | SyntaxKind::CHAR |
            SyntaxKind::BYTE | SyntaxKind::STRING | SyntaxKind::BYTE_STRING
        )
    }

    #[verifier::when_used_as_spec(spec_is_literal)]
    pub fn is_literal(self) -> (r: bool)
        ensures
            r == self.spec_is_literal(),
    {
        matches!(
            self,
            SyntaxKind::INT_NUMBER | SyntaxKind::FLOAT_NUMBER | SyntaxKind::CHAR |
            SyntaxKind::BYTE | SyntaxKind::STRING | SyntaxKind::BYTE_STRING
        )
    }

    /// Whitespace or a comment.
    pub open spec fn spec_is_trivia(self) -> bool {
        matches!(
            self,
            SyntaxKind::WHITESPACE | SyntaxKind::COMMENT
        )
    }

    #[verifier::when_used_as_spec(spec_is_trivia)]
    pub fn is_trivia(self) -> (r: bool)
        ensures
            r == self.spec_is_trivia(),
    {
        matches!(
            self,
            SyntaxKind::WHITESPACE | SyntaxKind::COMMENT
        )
    }

    /// A kind of token, as opposed to a kind of node.
    pub open spec fn spec_is_token(self) -> bool {
        matches!(
            self,
            SyntaxKind::SEMICOLON | SyntaxKind::COMMA | SyntaxKind::L_PAREN |
            SyntaxKind::R_PAREN | SyntaxKind::L_CURLY | SyntaxKind::R_CURLY |
            SyntaxKind::L_BRACK | SyntaxKind::R_BRACK | SyntaxKind::L_ANGLE |
            SyntaxKind::R_ANGLE | SyntaxKind::AT | SyntaxKind::POUND | SyntaxKind::TILDE |
            SyntaxKind::QUESTION | SyntaxKind::DOLLAR | SyntaxKind::AMP | SyntaxKind::PIPE |
            SyntaxKind::PLUS | SyntaxKind::STAR | SyntaxKind::SLASH | SyntaxKind::CARET |
            SyntaxKind::PERCENT | SyntaxKind::UNDERSCORE | SyntaxKind::DOT | SyntaxKind::DOT2 |
            SyntaxKind::DOT3 | SyntaxKind::DOT2EQ | SyntaxKind::COLON | SyntaxKind::COLON2 |
            SyntaxKind::EQ | SyntaxKind::EQ2 | SyntaxKind::FAT_ARROW | SyntaxKind::BANG |
            SyntaxKind::NEQ | SyntaxKind::MINUS | SyntaxKind::THIN_ARROW | SyntaxKind::LTEQ |
            SyntaxKind::GTEQ | SyntaxKind::PLUSEQ | SyntaxKind::MINUSEQ | SyntaxKind::PIPEEQ |
            SyntaxKind::AMPEQ | SyntaxKind::CARETEQ | SyntaxKind::SLASHEQ |
            SyntaxKind::STAREQ | SyntaxKind::PERCENTEQ | SyntaxKind::AMP2 | SyntaxKind::PIPE2 |
            SyntaxKind::SHL | SyntaxKind::SHR | SyntaxKind::SHLEQ | SyntaxKind::SHREQ |
            SyntaxKind::AS_KW | SyntaxKind::ASYNC_KW | SyntaxKind::AWAIT_KW |
            SyntaxKind::BOX_KW | SyntaxKind::BREAK_KW | SyntaxKind::CONST_KW |
            SyntaxKind::CONTINUE_KW | SyntaxKind::CRATE_KW | SyntaxKind::DYN_KW |
            SyntaxKind::ELSE_KW | SyntaxKind::ENUM_KW | SyntaxKind::EXTERN_KW |
            SyntaxKind::FALSE_KW | SyntaxKind::FN_KW | SyntaxKind::FOR_KW | SyntaxKind::IF_KW |
            SyntaxKind::IMPL_KW | SyntaxKind::IN_KW | SyntaxKind::LET_KW |
            SyntaxKind::LOOP_KW | SyntaxKind::MACRO_KW | SyntaxKind::MATCH_KW |
            SyntaxKind::MOD_KW | SyntaxKind::MOVE_KW | SyntaxKind::MUT_KW |
            SyntaxKind::PUB_KW | SyntaxKind::REF_KW | SyntaxKind::RETURN_KW |
            SyntaxKind::SELF_KW | SyntaxKind::STATIC_KW | SyntaxKind::STRUCT_KW |
            SyntaxKind::SUPER_KW | SyntaxKind::TRAIT_KW | SyntaxKind::TRUE_KW |
            SyntaxKind::TRY_KW | SyntaxKind::TYPE_KW | SyntaxKind::UNSAFE_KW |
            SyntaxKind::USE_KW | SyntaxKind::WHERE_KW | SyntaxKind::WHILE_KW |
            SyntaxKind::YIELD_KW | SyntaxKind::AUTO_KW | SyntaxKind::DEFAULT_KW |
            SyntaxKind::EXISTENTIAL_KW | SyntaxKind::UNION_KW | SyntaxKind::RAW_KW |
            SyntaxKind::MACRO_RULES_KW | SyntaxKind::INT_NUMBER | SyntaxKind::FLOAT_NUMBER |
            SyntaxKind::CHAR | SyntaxKind::BYTE | SyntaxKind::STRING |
            SyntaxKind::BYTE_STRING | SyntaxKind::ERROR | SyntaxKind::IDENT |
            SyntaxKind::WHITESPACE | SyntaxKind::LIFETIME_IDENT | SyntaxKind::COMMENT |
            SyntaxKind::SHEBANG | SyntaxKind::L_DOLLAR | SyntaxKind::R_DOLLAR
        )
    }

    #[verifier::when_used_as_spec(spec_is_token)]
    pub fn is_token(self) -> (r: bool)
        ensures
            r == self.spec_is_token(),
    {
        matches!(
            self,
            SyntaxKind::SEMICOLON | SyntaxKind::COMMA | SyntaxKind::L_PAREN |
            SyntaxKind::R_PAREN | SyntaxKind::L_CURLY | SyntaxKind::R_CURLY |
            SyntaxKind::L_BRACK | SyntaxKind::R_BRACK | SyntaxKind::L_ANGLE |
            SyntaxKind::R_ANGLE | SyntaxKind::AT | SyntaxKind::POUND | SyntaxKind::TILDE |
            SyntaxKind::QUESTION | SyntaxKind::DOLLAR | SyntaxKind::AMP | SyntaxKind::PIPE |
            SyntaxKind::PLUS | SyntaxKind::STAR | SyntaxKind::SLASH | SyntaxKind::CARET |
            SyntaxKind::PERCENT | SyntaxKind::UNDERSCORE | SyntaxKind::DOT | SyntaxKind::DOT2 |
            SyntaxKind::DOT3 | SyntaxKind::DOT2EQ | SyntaxKind::COLON | SyntaxKind::COLON2 |
            SyntaxKind::EQ | SyntaxKind::EQ2 | SyntaxKind::FAT_ARROW | SyntaxKind::BANG |
            SyntaxKind::NEQ | SyntaxKind::MINUS | SyntaxKind::THIN_ARROW | SyntaxKind::LTEQ |
            SyntaxKind::GTEQ | SyntaxKind::PLUSEQ | SyntaxKind::MINUSEQ | SyntaxKind::PIPEEQ |
            SyntaxKind::AMPEQ | SyntaxKind::CARETEQ | SyntaxKind::SLASHEQ |
            SyntaxKind::STAREQ | SyntaxKind::PERCENTEQ | SyntaxKind::AMP2 | SyntaxKind::PIPE2 |
            SyntaxKind::SHL | SyntaxKind::SHR | SyntaxKind::SHLEQ | SyntaxKind::SHREQ |
            SyntaxKind::AS_KW | SyntaxKind::ASYNC_KW | SyntaxKind::AWAIT_KW |
            SyntaxKind::BOX_KW | SyntaxKind::BREAK_KW | SyntaxKind::CONST_KW |
            SyntaxKind::CONTINUE_KW | SyntaxKind::CRATE_KW | SyntaxKind::DYN_KW |
            SyntaxKind::ELSE_KW | SyntaxKind::ENUM_KW | SyntaxKind::EXTERN_KW |
            SyntaxKind::FALSE_KW | SyntaxKind::FN_KW | SyntaxKind::FOR_KW | SyntaxKind::IF_KW |
            SyntaxKind::IMPL_KW | SyntaxKind::IN_KW | SyntaxKind::LET_KW |
            SyntaxKind::LOOP_KW | SyntaxKind::MACRO_KW | SyntaxKind::MATCH_KW |
            SyntaxKind::MOD_KW | SyntaxKind::MOVE_KW | SyntaxKind::MUT_KW |
            SyntaxKind::PUB_KW | SyntaxKind::REF_KW | SyntaxKind::RETURN_KW |
            SyntaxKind::SELF_KW | SyntaxKind::STATIC_KW | SyntaxKind::STRUCT_KW |
            SyntaxKind::SUPER_KW | SyntaxKind::TRAIT_KW | SyntaxKind::TRUE_KW |
            SyntaxKind::TRY_KW | SyntaxKind::TYPE_KW | SyntaxKind::UNSAFE_KW |
            SyntaxKind::USE_KW | SyntaxKind::WHERE_KW | SyntaxKind::WHILE_KW |
            SyntaxKind::YIELD_KW | SyntaxKind::AUTO_KW | SyntaxKind::DEFAULT_KW |
            SyntaxKind::EXISTENTIAL_KW | SyntaxKind::UNION_KW | SyntaxKind::RAW_KW |
            SyntaxKind::MACRO_RULES_KW | SyntaxKind::INT_NUMBER | SyntaxKind::FLOAT_NUMBER |
            SyntaxKind::CHAR | SyntaxKind::BYTE | SyntaxKind::STRING |
            SyntaxKind::BYTE_STRING | SyntaxKind::ERROR | SyntaxKind::IDENT |
            SyntaxKind::WHITESPACE | SyntaxKind::LIFETIME_IDENT | SyntaxKind::COMMENT |
            SyntaxKind::SHEBANG | SyntaxKind::L_DOLLAR | SyntaxKind::R_DOLLAR
        )
    }

}

} // verus!
