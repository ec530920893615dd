use hir_expand::ids::{FileId, FileRange};
use hir_expand::inline_call::{
    can_remove_definition, check_inline_call, get_fn_params, plan_inline, CallInfo, CallableExpr,
    FileUsages, FnParam, InlinePlan, LocalUse, ParamAction, ParamFacts, ParamPat,
};
use hir_expand::syntax::{SyntaxElement, SyntaxNode, SyntaxTree, SyntaxTreeBuilder};
use hir_expand::syntax_kind::SyntaxKind;
use hir_expand::syntax_kind::SyntaxKind::{
    AMP, ARG_LIST, ASSOC_ITEM_LIST, ASYNC_KW, AS_KW, ATTR, AWAIT_EXPR, AWAIT_KW, BANG, BIN_EXPR, BLOCK_EXPR, BREAK_EXPR, BREAK_KW, CALL_EXPR, CAST_EXPR, CLOSURE_EXPR, COLON, COLON2, COMMA, COMMENT, CONDITION, CONST_KW, DOLLAR, DOT, ELSE_KW, EQ, EQ2, ERROR, EXPR_STMT, FALSE_KW, FAT_ARROW, FIELD_EXPR, FN, FN_KW, FN_PTR_TYPE, FOR_EXPR, FOR_KW, GENERIC_ARG_LIST, GENERIC_PARAM_LIST, IDENT, IDENT_PAT, IF_EXPR, IF_KW, IMPL, IMPL_KW, INT_NUMBER, IN_KW, LABEL, LET_KW, LET_STMT, LIFETIME, LIFETIME_IDENT, LITERAL, LITERAL_PAT, LOOP_EXPR, LOOP_KW, L_ANGLE, L_BRACK, L_CURLY, L_PAREN, MACRO_CALL, MACRO_RULES, MATCH_ARM, MATCH_ARM_LIST, MATCH_EXPR, MATCH_KW, META, METHOD_CALL_EXPR, MINUS, MODULE, MOD_KW, MUT_KW, NAME, NAME_REF, NEVER_TYPE, PARAM, PARAM_LIST, PAREN_EXPR, PATH, PATH_EXPR, PATH_SEGMENT, PATH_TYPE, PIPE, PIPE2, PLUS, POUND, PREFIX_EXPR, PTR_TYPE, PUB_KW, QUESTION, RECORD_EXPR, RECORD_EXPR_FIELD, RECORD_EXPR_FIELD_LIST, RECORD_FIELD, RECORD_FIELD_LIST, REF_EXPR, RETURN_EXPR, RETURN_KW, RET_TYPE, R_ANGLE, R_BRACK, R_CURLY, R_PAREN, SELF_KW, SELF_PARAM, SEMICOLON, SLASH, SOURCE_FILE, STAR, STMT_LIST, STRING, STRUCT, STRUCT_KW, THIN_ARROW, TOKEN_TREE, TRUE_KW, TRY_EXPR, TRY_KW, TUPLE_EXPR, TUPLE_FIELD_LIST, TUPLE_TYPE, UNDERSCORE, UNSAFE_KW, USE, USE_KW, USE_TREE, VISIBILITY, WHILE_EXPR, WHILE_KW, WHITESPACE, WILDCARD_PAT
};

// ---------------------------------------------------------------------
// A small lexer and parser for the fixtures below.

fn keyword(text: &str) -> Option<SyntaxKind> {
    Some(match text {
        "as" => AS_KW,
        "async" => ASYNC_KW,
        "await" => AWAIT_KW,
        "break" => BREAK_KW,
        "const" => CONST_KW,
        "else" => ELSE_KW,
        "false" => FALSE_KW,
        "fn" => FN_KW,
        "for" => FOR_KW,
        "if" => IF_KW,
        "impl" => IMPL_KW,
        "in" => IN_KW,
        "let" => LET_KW,
        "loop" => LOOP_KW,
        "match" => MATCH_KW,
        "mod" => MOD_KW,
        "mut" => MUT_KW,
        "pub" => PUB_KW,
        "return" => RETURN_KW,
        "self" => SELF_KW,
        "struct" => STRUCT_KW,
        "true" => TRUE_KW,
        "try" => TRY_KW,
        "unsafe" => UNSAFE_KW,
        "use" => USE_KW,
        "while" => WHILE_KW,
        _ => return None,
    })
}

fn lex(text: &str) -> Vec<(SyntaxKind, String)> {
    let bytes = text.as_bytes();
    let mut out = Vec::new();
    let mut i = 0;
    while i < bytes.len() {
        let c = bytes[i] as char;
        let start = i;
        let kind;
        if c.is_ascii_whitespace() {
            while i < bytes.len() && (bytes[i] as char).is_ascii_whitespace() {
                i += 1;
            }
            kind = WHITESPACE;
        } else if text[i..].starts_with("//") {
            while i < bytes.len() && bytes[i] != b'\n' {
                i += 1;
            }
            kind = COMMENT;
        } else if c.is_ascii_alphabetic() || c == '_' {
            while i < bytes.len() && ((bytes[i] as char).is_ascii_alphanumeric() || bytes[i] == b'_')
            {
                i += 1;
            }
            let word = &text[start..i];
            kind = if word == "_" { UNDERSCORE } else { keyword(word).unwrap_or(IDENT) };
        } else if c.is_ascii_digit() {
            while i < bytes.len() && ((bytes[i] as char).is_ascii_alphanumeric() || bytes[i] == b'_')
            {
                i += 1;
            }
            kind = INT_NUMBER;
        } else if c == '\'' {
            i += 1;
            while i < bytes.len() && ((bytes[i] as char).is_ascii_alphanumeric() || bytes[i] == b'_')
            {
                i += 1;
            }
            kind = LIFETIME_IDENT;
        } else if c == '"' {
            i += 1;
            while i < bytes.len() && bytes[i] != b'"' {
                i += 1;
            }
            i += 1;
            kind = STRING;
        } else {
            let two = if i + 1 < bytes.len() { &text[i..i + 2] } else { "" };
            let (k, n) = match two {
                "->" => (THIN_ARROW, 2),
                "=>" => (FAT_ARROW, 2),
                "::" => (COLON2, 2),
                "==" => (EQ2, 2),
                "||" => (PIPE2, 2),
                _ => (
                    match c {
                        ';' => SEMICOLON,
                        ',' => COMMA,
                        '(' => L_PAREN,
                        ')' => R_PAREN,
                        '{' => L_CURLY,
                        '}' => R_CURLY,
                        '[' => L_BRACK,
                        ']' => R_BRACK,
                        '<' => L_ANGLE,
                        '>' => R_ANGLE,
                        '#' => POUND,
                        '?' => QUESTION,
                        '$' => DOLLAR,
                        '&' => AMP,
                        '|' => PIPE,
                        '+' => PLUS,
                        '*' => STAR,
                        '/' => SLASH,
                        '.' => DOT,
                        ':' => COLON,
                        '=' => EQ,
                        '!' => BANG,
                        '-' => MINUS,
                        _ => ERROR,
                    },
                    1,
                ),
            };
            i += n;
            kind = k;
        }
        out.push((kind, text[start..i].to_string()));
    }
    out
}

struct Parser {
    toks: Vec<(SyntaxKind, String)>,
    pos: usize,
    b: SyntaxTreeBuilder,
}

impl Parser {
    fn skip_trivia_pos(&self, mut p: usize) -> usize {
        while p < self.toks.len() && self.toks[p].0.is_trivia() {
            p += 1;
        }
        p
    }

    fn nth(&self, n: usize) -> SyntaxKind {
        let mut p = self.skip_trivia_pos(self.pos);
        for _ in 0..n {
            if p < self.toks.len() {
                p = self.skip_trivia_pos(p + 1);
            }
        }
        if p < self.toks.len() {
            self.toks[p].0
        } else {
            ERROR
        }
    }

    fn at(&self, kind: SyntaxKind) -> bool {
        self.nth(0) == kind
    }

    fn at_end(&self) -> bool {
        self.skip_trivia_pos(self.pos) >= self.toks.len()
    }

    fn current_text(&self) -> String {
        let p = self.skip_trivia_pos(self.pos);
        if p < self.toks.len() {
            self.toks[p].1.clone()
        } else {
            String::new()
        }
    }

    fn flush_trivia(&mut self) {
        while self.pos < self.toks.len() && self.toks[self.pos].0.is_trivia() {
            let (k, t) = self.toks[self.pos].clone();
            self.b.token(k, &t);
            self.pos += 1;
        }
    }

    fn start(&mut self, kind: SyntaxKind) {
        self.flush_trivia();
        self.b.start_node(kind);
    }

    fn finish(&mut self) {
        self.b.finish_node();
    }

    fn bump(&mut self) {
        self.flush_trivia();
        if self.pos < self.toks.len() {
            let (k, t) = self.toks[self.pos].clone();
            self.b.token(k, &t);
            self.pos += 1;
        }
    }

    fn eat(&mut self, kind: SyntaxKind) -> bool {
        if self.at(kind) {
            self.bump();
            true
        } else {
            false
        }
    }

    // A run of tokens up to the closing bracket that matches the opening
    // one under the cursor, as one TOKEN_TREE.
    fn token_tree(&mut self) {
        self.start(TOKEN_TREE);
        let close = match self.nth(0) {
            L_PAREN => R_PAREN,
            L_CURLY => R_CURLY,
            _ => R_BRACK,
        };
        self.bump();
        while !self.at_end() && !self.at(close) {
            if matches!(self.nth(0), L_PAREN | L_CURLY | L_BRACK) {
                self.token_tree();
            } else {
                self.bump();
            }
        }
        self.bump();
        self.finish();
    }

    fn name(&mut self) {
        self.start(NAME);
        self.bump();
        self.finish();
    }

    fn path(&mut self) {
        // a left-nested path: PATH { PATH { .. } :: PATH_SEGMENT }
        let mut segments = 1;
        let mut p = 1;
        while self.nth(p) == COLON2 && self.nth(p + 1) != L_ANGLE {
            segments += 1;
            p += 2;
        }
        for _ in 0..segments {
            self.start(PATH);
        }
        for i in 0..segments {
            if i > 0 {
                self.bump();
            }
            self.start(PATH_SEGMENT);
            self.start(NAME_REF);
            self.bump();
            self.finish();
            if self.at(COLON2) && self.nth(1) == L_ANGLE {
                self.start(GENERIC_ARG_LIST);
                self.bump();
                self.angles();
                self.finish();
            }
            self.finish();
            self.finish();
        }
    }

    // The tokens from `<` to the `>` that closes it.
    fn angles(&mut self) {
        let mut depth = 0;
        while !self.at_end() {
            let k = self.nth(0);
            self.bump();
            if k == L_ANGLE {
                depth += 1;
            } else if k == R_ANGLE {
                depth -= 1;
                if depth == 0 {
                    break;
                }
            }
        }
    }

    fn type_ref(&mut self) {
        match self.nth(0) {
            FN_KW => {
                self.start(FN_PTR_TYPE);
                self.bump();
                self.start(PARAM_LIST);
                self.bump();
                while !self.at_end() && !self.at(R_PAREN) {
                    self.bump();
                }
                self.bump();
                self.finish();
                self.finish();
            }
            BANG => {
                self.start(NEVER_TYPE);
                self.bump();
                self.finish();
            }
            STAR => {
                self.start(PTR_TYPE);
                self.bump();
                self.eat(CONST_KW);
                self.type_ref();
                self.finish();
            }
            L_PAREN => {
                self.start(TUPLE_TYPE);
                self.bump();
                self.eat(R_PAREN);
                self.finish();
            }
            _ => {
                self.start(PATH_TYPE);
                self.path();
                self.finish();
            }
        }
    }

    fn pattern(&mut self) {
        match self.nth(0) {
            UNDERSCORE => {
                self.start(WILDCARD_PAT);
                self.bump();
                self.finish();
            }
            INT_NUMBER => {
                self.start(LITERAL_PAT);
                self.start(LITERAL);
                self.bump();
                self.finish();
                self.finish();
            }
            _ => {
                self.start(IDENT_PAT);
                self.eat(MUT_KW);
                self.name();
                self.finish();
            }
        }
    }

    fn attrs(&mut self) {
        while self.at(POUND) {
            self.start(ATTR);
            self.bump();
            self.eat(BANG);
            self.bump(); // [
            self.start(META);
            self.path();
            if matches!(self.nth(0), L_PAREN | L_CURLY | L_BRACK) {
                self.token_tree();
            }
            self.finish();
            self.bump(); // ]
            self.finish();
        }
    }

    fn item(&mut self) {
        let mut p = 0;
        // what stands behind attributes and `pub`/`async` tells the kind
        while self.nth(p) == POUND {
            p += 1;
            let mut depth = 0;
            loop {
                let k = self.nth(p);
                p += 1;
                if k == L_BRACK {
                    depth += 1;
                } else if k == R_BRACK {
                    depth -= 1;
                    if depth == 0 {
                        break;
                    }
                } else if k == ERROR {
                    break;
                }
            }
        }
        while matches!(self.nth(p), PUB_KW | ASYNC_KW) {
            p += 1;
        }
        match self.nth(p) {
            FN_KW => {
                self.start(FN);
                self.attrs();
                if self.at(PUB_KW) {
                    self.start(VISIBILITY);
                    self.bump();
                    self.finish();
                }
                self.eat(ASYNC_KW);
                self.bump();
                self.name();
                if self.at(L_ANGLE) {
                    self.start(GENERIC_PARAM_LIST);
                    self.angles();
                    self.finish();
                }
                self.start(PARAM_LIST);
                self.bump();
                while !self.at_end() && !self.at(R_PAREN) {
                    if self.at(SELF_KW)
                        || (self.at(AMP)
                            && (self.nth(1) == SELF_KW
                                || (self.nth(1) == MUT_KW && self.nth(2) == SELF_KW)))
                    {
                        self.start(SELF_PARAM);
                        self.eat(AMP);
                        self.eat(MUT_KW);
                        self.name();
                        self.finish();
                    } else {
                        self.start(PARAM);
                        self.pattern();
                        if self.eat(COLON) {
                            self.type_ref();
                        }
                        self.finish();
                    }
                    self.eat(COMMA);
                }
                self.bump();
                self.finish();
                if self.at(THIN_ARROW) {
                    self.start(RET_TYPE);
                    self.bump();
                    self.type_ref();
                    self.finish();
                }
                self.block();
                self.finish();
            }
            STRUCT_KW => {
                self.start(STRUCT);
                self.attrs();
                self.bump();
                self.name();
                if self.at(L_CURLY) {
                    self.start(RECORD_FIELD_LIST);
                    self.bump();
                    while !self.at_end() && !self.at(R_CURLY) {
                        self.start(RECORD_FIELD);
                        self.name();
                        self.bump();
                        self.type_ref();
                        self.finish();
                        self.eat(COMMA);
                    }
                    self.bump();
                    self.finish();
                } else {
                    if self.at(L_PAREN) {
                        self.start(TUPLE_FIELD_LIST);
                        self.bump();
                        while !self.at_end() && !self.at(R_PAREN) {
                            self.bump();
                        }
                        self.bump();
                        self.finish();
                    }
                    self.eat(SEMICOLON);
                }
                self.finish();
            }
            IMPL_KW => {
                self.start(IMPL);
                self.bump();
                self.type_ref();
                self.start(ASSOC_ITEM_LIST);
                self.bump();
                while !self.at_end() && !self.at(R_CURLY) {
                    self.item();
                }
                self.bump();
                self.finish();
                self.finish();
            }
            USE_KW => {
                self.start(USE);
                self.bump();
                self.start(USE_TREE);
                self.path();
                self.finish();
                self.eat(SEMICOLON);
                self.finish();
            }
            MOD_KW => {
                self.start(MODULE);
                self.bump();
                self.name();
                self.eat(SEMICOLON);
                self.finish();
            }
            IDENT if self.current_text() == "macro_rules" && self.nth(1) == BANG => {
                self.start(MACRO_RULES);
                self.bump();
                self.bump();
                self.name();
                self.token_tree();
                self.finish();
            }
            _ => {
                self.start(MACRO_CALL);
                self.path();
                self.bump();
                self.token_tree();
                self.eat(SEMICOLON);
                self.finish();
            }
        }
    }

    fn at_item(&self) -> bool {
        match self.nth(0) {
            FN_KW | STRUCT_KW | IMPL_KW | USE_KW | MOD_KW | POUND | PUB_KW => true,
            ASYNC_KW => self.nth(1) == FN_KW,
            IDENT => self.current_text() == "macro_rules" && self.nth(1) == BANG,
            _ => false,
        }
    }

    // BLOCK_EXPR { modifiers, STMT_LIST { `{` statements `}` } }; the opening
    // node has been started by the caller where a label or a modifier
    // stands before the block.
    fn block(&mut self) {
        self.start(BLOCK_EXPR);
        self.block_rest();
    }

    fn block_rest(&mut self) {
        self.start(STMT_LIST);
        self.bump();
        while !self.at_end() && !self.at(R_CURLY) {
            if self.at(LET_KW) {
                self.start(LET_STMT);
                self.bump();
                self.pattern();
                if self.eat(COLON) {
                    self.type_ref();
                }
                if self.eat(EQ) {
                    self.expr();
                }
                self.eat(SEMICOLON);
                self.finish();
            } else if self.at_item() {
                self.item();
            } else {
                // an expression: a statement where a semicolon follows or,
                // for a block-like one, where more follows
                let block_like = matches!(
                    self.nth(0),
                    IF_KW | LOOP_KW | WHILE_KW | FOR_KW | MATCH_KW | L_CURLY | UNSAFE_KW
                        | LIFETIME_IDENT
                );
                let checkpoint = self.checkpoint();
                let mut probe = self.fork();
                probe.expr();
                let last = probe.at(R_CURLY);
                let _ = (checkpoint, block_like);
                if !last {
                    self.start(EXPR_STMT);
                    self.expr();
                    self.eat(SEMICOLON);
                    self.finish();
                } else {
                    self.expr();
                }
            }
        }
        self.bump();
        self.finish();
        self.finish();
    }

    fn checkpoint(&self) -> usize {
        self.pos
    }

    fn fork(&self) -> Parser {
        Parser { toks: self.toks.clone(), pos: self.pos, b: SyntaxTreeBuilder::new() }
    }

    fn expr(&mut self) {
        // operators are found by looking ahead: an operand is parsed by a
        // fork first, to learn where it ends
        let mut probe = self.fork();
        probe.b.start_node(SOURCE_FILE);
        probe.postfix_expr();
        if probe.at(AS_KW) {
            self.start(CAST_EXPR);
            self.postfix_expr();
            self.bump();
            self.type_ref();
            self.finish();
        } else if matches!(probe.nth(0), STAR | PLUS | MINUS | EQ | EQ2 | SLASH)
            && !(probe.nth(0) == EQ && probe.nth(1) == R_ANGLE)
        {
            self.start(BIN_EXPR);
            self.postfix_expr();
            self.bump();
            self.expr();
            self.finish();
        } else {
            self.postfix_expr();
        }
    }

    // How many postfix operators follow the operand under the cursor, and
    // which: the nodes around an operand are started before it.
    fn postfix_expr(&mut self) {
        let mut probe = self.fork();
        probe.b.start_node(SOURCE_FILE);
        probe.primary_expr();
        let mut ops = Vec::new();
        loop {
            match probe.nth(0) {
                QUESTION => {
                    ops.push(TRY_EXPR);
                    probe.bump();
                }
                L_PAREN => {
                    ops.push(CALL_EXPR);
                    probe.arg_list();
                }
                DOT if probe.nth(1) == AWAIT_KW => {
                    ops.push(AWAIT_EXPR);
                    probe.bump();
                    probe.bump();
                }
                DOT if probe.nth(2) == L_PAREN => {
                    ops.push(METHOD_CALL_EXPR);
                    probe.bump();
                    probe.bump();
                    probe.arg_list();
                }
                DOT => {
                    ops.push(FIELD_EXPR);
                    probe.bump();
                    probe.bump();
                }
                _ => break,
            }
        }
        for k in ops.iter().rev() {
            self.start(*k);
        }
        self.primary_expr();
        for k in ops {
            match k {
                TRY_EXPR => self.bump(),
                CALL_EXPR => self.arg_list(),
                AWAIT_EXPR => {
                    self.bump();
                    self.bump();
                }
                METHOD_CALL_EXPR => {
                    self.bump();
                    self.start(NAME_REF);
                    self.bump();
                    self.finish();
                    self.arg_list();
                }
                _ => {
                    self.bump();
                    self.start(NAME_REF);
                    self.bump();
                    self.finish();
                }
            }
            self.finish();
        }
    }

    fn arg_list(&mut self) {
        self.start(ARG_LIST);
        self.bump();
        while !self.at_end() && !self.at(R_PAREN) {
            self.expr();
            self.eat(COMMA);
        }
        self.bump();
        self.finish();
    }

    fn label(&mut self) {
        self.start(LABEL);
        self.start(LIFETIME);
        self.bump();
        self.finish();
        self.bump(); // :
        self.finish();
    }

    fn primary_expr(&mut self) {
        let labelled = self.at(LIFETIME_IDENT);
        let head = if labelled { self.nth(2) } else { self.nth(0) };
        match head {
            INT_NUMBER | STRING | TRUE_KW | FALSE_KW => {
                self.start(LITERAL);
                self.bump();
                self.finish();
            }
            L_PAREN => {
                if self.nth(1) == R_PAREN {
                    self.start(TUPLE_EXPR);
                    self.bump();
                    self.bump();
                } else {
                    self.start(PAREN_EXPR);
                    self.bump();
                    self.expr();
                    self.eat(R_PAREN);
                }
                self.finish();
            }
            L_CURLY => {
                self.start(BLOCK_EXPR);
                if labelled {
                    self.label();
                }
                self.block_rest();
            }
            UNSAFE_KW | ASYNC_KW | TRY_KW | CONST_KW => {
                self.start(BLOCK_EXPR);
                self.bump();
                self.block_rest();
            }
            LOOP_KW => {
                self.start(LOOP_EXPR);
                if labelled {
                    self.label();
                }
                self.bump();
                self.block();
                self.finish();
            }
            WHILE_KW => {
                self.start(WHILE_EXPR);
                if labelled {
                    self.label();
                }
                self.bump();
                self.start(CONDITION);
                self.expr();
                self.finish();
                self.block();
                self.finish();
            }
            FOR_KW => {
                self.start(FOR_EXPR);
                if labelled {
                    self.label();
                }
                self.bump();
                self.pattern();
                self.bump(); // in
                self.expr();
                self.block();
                self.finish();
            }
            IF_KW => {
                self.start(IF_EXPR);
                self.bump();
                self.start(CONDITION);
                self.expr();
                self.finish();
                self.block();
                if self.eat(ELSE_KW) {
                    if self.at(IF_KW) {
                        self.primary_expr();
                    } else {
                        self.block();
                    }
                }
                self.finish();
            }
            MATCH_KW => {
                self.start(MATCH_EXPR);
                self.bump();
                self.expr();
                self.start(MATCH_ARM_LIST);
                self.bump();
                while !self.at_end() && !self.at(R_CURLY) {
                    self.start(MATCH_ARM);
                    self.pattern();
                    self.bump(); // =>
                    self.expr();
                    self.eat(COMMA);
                    self.finish();
                }
                self.bump();
                self.finish();
                self.finish();
            }
            RETURN_KW => {
                self.start(RETURN_EXPR);
                self.bump();
                if !matches!(self.nth(0), SEMICOLON | R_CURLY) {
                    self.expr();
                }
                self.finish();
            }
            BREAK_KW => {
                self.start(BREAK_EXPR);
                self.bump();
                if self.at(LIFETIME_IDENT) {
                    self.start(LIFETIME);
                    self.bump();
                    self.finish();
                }
                if !matches!(self.nth(0), SEMICOLON | R_CURLY) {
                    self.expr();
                }
                self.finish();
            }
            PIPE2 | PIPE => {
                self.start(CLOSURE_EXPR);
                self.start(PARAM_LIST);
                if !self.eat(PIPE2) {
                    self.bump();
                    while !self.at_end() && !self.at(PIPE) {
                        self.bump();
                    }
                    self.bump();
                }
                self.finish();
                self.expr();
                self.finish();
            }
            AMP | MINUS => {
                self.start(if head == AMP { REF_EXPR } else { PREFIX_EXPR });
                self.bump();
                self.postfix_expr();
                self.finish();
            }
            _ => {
                if self.nth(1) == BANG && self.nth(2) == L_PAREN {
                    self.start(MACRO_CALL);
                    self.path();
                    self.bump();
                    self.token_tree();
                    self.finish();
                } else if self.nth(1) == L_CURLY
                    && self.current_text().chars().next().map_or(false, |c| c.is_uppercase())
                {
                    self.start(RECORD_EXPR);
                    self.path();
                    self.start(RECORD_EXPR_FIELD_LIST);
                    self.bump();
                    while !self.at_end() && !self.at(R_CURLY) {
                        self.start(RECORD_EXPR_FIELD);
                        if self.nth(1) == COLON {
                            self.start(NAME_REF);
                            self.bump();
                            self.finish();
                            self.bump();
                            self.expr();
                        } else {
                            self.start(PATH_EXPR);
                            self.path();
                            self.finish();
                        }
                        self.finish();
                        self.eat(COMMA);
                    }
                    self.bump();
                    self.finish();
                    self.finish();
                } else {
                    self.start(PATH_EXPR);
                    self.path();
                    self.finish();
                }
            }
        }
    }
}

fn parse(text: &str) -> SyntaxTree {
    let mut p = Parser { toks: lex(text), pos: 0, b: SyntaxTreeBuilder::new() };
    p.b.start_node(SOURCE_FILE);
    while !p.at_end() {
        p.item();
    }
    p.flush_trivia();
    p.b.finish_node();
    assert!(p.b.is_ok());
    p.b.finish().expect("one syntax tree")
}


// ---------------------------------------------------------------------
// Fixtures: files and the cursor `$0`; and what an analysis of names would
// find in them, found here by comparing names.

struct File {
    id: FileId,
    tree: SyntaxTree,
}

struct Fixture {
    files: Vec<File>,
    cursor_file: usize,
    offset: u32,
}

fn fixture(ra_fixture: &str) -> Fixture {
    let mut texts: Vec<String> = Vec::new();
    let mut current = String::new();
    let mut seen_header = false;
    for line in ra_fixture.split_inclusive('\n') {
        if line.starts_with("//- /") {
            if seen_header {
                texts.push(std::mem::take(&mut current));
            } else {
                current.clear();
            }
            seen_header = true;
        } else {
            current.push_str(line);
        }
    }
    texts.push(current);
    let cursor_file = texts.iter().position(|t| t.contains("$0")).expect("a cursor");
    let offset = texts[cursor_file].find("$0").unwrap() as u32;
    let files = texts
        .iter()
        .enumerate()
        .map(|(i, t)| {
            let text = t.replacen("$0", "", 1);
            let tree = parse(&text);
            assert_eq!(text_of(&tree, tree.root()), text);
            File { id: FileId(i as u32), tree }
        })
        .collect();
    Fixture { files, cursor_file, offset }
}

fn text_of(tree: &SyntaxTree, node: SyntaxNode) -> String {
    let mut text = String::new();
    for i in node.0..tree.subtree_end(node.0) {
        if let Some(SyntaxElement::Token(t)) = tree.element(i) {
            text.push_str(tree.token_text(t));
        }
    }
    text
}

fn nodes_of_kind(tree: &SyntaxTree, kind: SyntaxKind) -> Vec<SyntaxNode> {
    (0..tree.len())
        .filter(|i| !tree.is_token(*i) && tree.kind(*i) == kind)
        .map(SyntaxNode)
        .collect()
}

fn child(tree: &SyntaxTree, node: SyntaxNode, kind: SyntaxKind) -> Option<SyntaxNode> {
    let mut c = tree.first_child(node);
    while let Some(i) = c {
        if !tree.is_token(i) && tree.kind(i) == kind {
            return Some(SyntaxNode(i));
        }
        c = tree.next_sibling(i);
    }
    None
}

fn has_ancestor(tree: &SyntaxTree, node: SyntaxNode, kind: SyntaxKind) -> bool {
    tree.ancestors_of(node.0).into_iter().any(|a| tree.kind(a) == kind)
}

/// The node of kind `kind` that the cursor touches.
fn at_cursor(fx: &Fixture, kind: SyntaxKind) -> SyntaxNode {
    let tree = &fx.files[fx.cursor_file].tree;
    nodes_of_kind(tree, kind)
        .into_iter()
        .find(|n| {
            let r = tree.text_range(n.0);
            r.start() <= fx.offset && fx.offset <= r.end()
        })
        .expect("a name under the cursor")
}

/// A function as the analysis knows it: where it stands, its parameters
/// and its body.
struct Function<'a> {
    file: &'a File,
    node: SyntaxNode,
    body: SyntaxNode,
    params: Vec<FnParam>,
}

fn function_named<'a>(fx: &'a Fixture, name: &str) -> Function<'a> {
    for file in &fx.files {
        for f in nodes_of_kind(&file.tree, FN) {
            let named = child(&file.tree, f, NAME).map(|n| text_of(&file.tree, n));
            if named.as_deref() == Some(name) {
                let list = child(&file.tree, f, PARAM_LIST).unwrap();
                let known = nodes_of_kind(&file.tree, PARAM)
                    .into_iter()
                    .chain(nodes_of_kind(&file.tree, SELF_PARAM))
                    .filter(|p| file.tree.parent(p.0) == Some(list))
                    .count();
                return Function {
                    file,
                    node: f,
                    body: child(&file.tree, f, BLOCK_EXPR).unwrap(),
                    params: get_fn_params(&file.tree, list, known).unwrap(),
                };
            }
        }
    }
    panic!("no function {name}")
}

fn param_name(tree: &SyntaxTree, param: &FnParam) -> String {
    match param.pat {
        ParamPat::This { .. } => "self".to_string(),
        ParamPat::Pat(pat) => text_of(tree, child(tree, pat, NAME).unwrap()),
    }
}

/// The names in the body of the function that refer to the parameter.
fn uses(function: &Function, param: &FnParam) -> Vec<LocalUse> {
    let tree = &function.file.tree;
    let name = param_name(tree, param);
    let body = tree.text_range(function.body.0);
    nodes_of_kind(tree, NAME_REF)
        .into_iter()
        .filter(|n| body.contains_range(tree.text_range(n.0)) && text_of(tree, *n) == name)
        .map(|n| LocalUse { range: tree.text_range(n.0), is_name_ref: true })
        .collect()
}

fn plan(function: &Function, call_tree: &SyntaxTree, call: &CallInfo, adjusted: &[&str]) -> String {
    let tree = &function.file.tree;
    let facts: Vec<ParamFacts> = function
        .params
        .iter()
        .map(|p| ParamFacts {
            uses: uses(function, p),
            arg_is_adjusted: adjusted.contains(&param_name(tree, p).as_str()),
        })
        .collect();
    let plan: InlinePlan =
        plan_inline(tree, function.body, call_tree, &function.params, &call.arguments, &facts);
    assert_eq!(plan.actions.len(), function.params.len());
    let mut out = String::new();
    if plan.rename_self {
        out.push_str("self becomes this; ");
    }
    for (k, param) in function.params.iter().enumerate() {
        let what = match plan.actions[k] {
            ParamAction::InlineClosure => "put in place in parentheses",
            ParamAction::InlineDirect => "put in place",
            ParamAction::LetStmt { with_type: false } => "let",
            ParamAction::LetStmt { with_type: true } => "let with type",
        };
        out.push_str(&format!(
            "{} = {}: {} ({}); ",
            param_name(tree, param),
            text_of(call_tree, call.arguments[k]),
            what,
            plan.usages[k].len()
        ));
    }
    let whole = plan.replacement == function.body;
    out.push_str(if whole { "the block" } else { "the expression " });
    if !whole {
        out.push_str(&text_of(tree, plan.replacement));
    }
    out
}

/// What inlining the call under the cursor comes to.
fn inline_call_at_cursor(ra_fixture: &str, adjusted: &[&str]) -> String {
    let fx = fixture(ra_fixture);
    let file = &fx.files[fx.cursor_file];
    let name_ref = at_cursor(&fx, NAME_REF);
    let call = CallInfo::from_name_ref(&file.tree, name_ref).expect("a call");
    let function = function_named(&fx, &text_of(&file.tree, name_ref));
    let definition = FileRange {
        file_id: function.file.id,
        range: function.file.tree.text_range(function.node.0),
    };
    check_inline_call(definition, file.id, fx.offset, call.arguments.len(), function.params.len())
        .expect("a call that can be inlined");
    plan(&function, &file.tree, &call, adjusted)
}

/// What inlining the function under the cursor into all its callers comes
/// to: for each file the calls that are replaced, and whether the imports
/// of the file go; and whether the definition goes.
fn inline_into_callers_at_cursor(ra_fixture: &str) -> (Vec<(Vec<String>, bool)>, Option<bool>) {
    let fx = fixture(ra_fixture);
    let def_tree = &fx.files[fx.cursor_file].tree;
    let name = text_of(def_tree, at_cursor(&fx, NAME));
    let function = function_named(&fx, &name);
    let body = def_tree.text_range(function.body.0);
    let mut recursive = false;
    let mut per_file = Vec::new();
    let mut usages = Vec::new();
    for (i, file) in fx.files.iter().enumerate() {
        let refs: Vec<SyntaxNode> = nodes_of_kind(&file.tree, NAME_REF)
            .into_iter()
            .filter(|n| text_of(&file.tree, *n) == name)
            .collect();
        if refs.is_empty() {
            continue;
        }
        if i == fx.cursor_file {
            recursive |= refs.iter().any(|n| body.contains_range(file.tree.text_range(n.0)));
        }
        let (in_use, others): (Vec<SyntaxNode>, Vec<SyntaxNode>) =
            refs.iter().partition(|n| has_ancestor(&file.tree, **n, USE));
        let calls: Vec<CallInfo> = others
            .iter()
            .filter_map(|n| CallInfo::from_name_ref(&file.tree, *n))
            .collect();
        let usage = FileUsages {
            references: refs.len(),
            in_use_items: in_use.len(),
            replaced: calls.len(),
        };
        let plans =
            calls.iter().map(|call| plan(&function, &file.tree, call, &[])).collect();
        per_file.push((plans, usage.all_replaced()));
        usages.push(usage);
    }
    (per_file, can_remove_definition(&usages, recursive))
}

#[test]
fn no_args_or_return_value_gets_inlined_without_block() {
    // { println!("Hello, World!"); };
    assert_eq!(
        inline_call_at_cursor(
            r#"
fn foo() { println!("Hello, World!"); }
fn main() {
    fo$0o();
}
"#,
            &[],
        ),
        "the block"
    );
}

#[test]
fn args_with_side_effects() {
    // { let name = String::from("Michael"); println!("Hello, {}!", name); };
    assert_eq!(
        inline_call_at_cursor(
            r#"
fn foo(name: String) {
    println!("Hello, {}!", name);
}
fn main() {
    foo$0(String::from("Michael"));
}
"#,
            &[],
        ),
        "name = String::from(\"Michael\"): let (0); the block"
    );
}

#[test]
fn function_with_multiple_statements() {
    // { let b = 2; let x = 1 + b; let y = x - b; x * y }
    assert_eq!(
        inline_call_at_cursor(
            r#"
fn foo(a: u32, b: u32) -> u32 {
    let x = a + b;
    let y = x - b;
    x * y
}
fn main() {
    let x = foo$0(1, 2);
}
"#,
            &[],
        ),
        "a = 1: put in place (1); b = 2: let (2); the block"
    );
}

#[test]
fn function_with_self_param() {
    // { let this = Foo(3); Foo(this.0 + 2) }
    assert_eq!(
        inline_call_at_cursor(
            r#"
struct Foo(u32);
impl Foo {
    fn add(self, a: u32) -> Self {
        Foo(self.0 + a)
    }
}
fn main() {
    let x = Foo::add$0(Foo(3), 2);
}
"#,
            &[],
        ),
        "self becomes this; self = Foo(3): let (1); a = 2: put in place (1); the block"
    );
}

#[test]
fn method_by_val() {
    // { let this = Foo(3); Foo(this.0 + 2) }
    assert_eq!(
        inline_call_at_cursor(
            r#"
struct Foo(u32);
impl Foo {
    fn add(self, a: u32) -> Self {
        Foo(self.0 + a)
    }
}
fn main() {
    let x = Foo(3).add$0(2);
}
"#,
            &[],
        ),
        "self becomes this; self = Foo(3): let (1); a = 2: put in place (1); the block"
    );
}

#[test]
fn method_by_ref() {
    // { let ref this = Foo(3); Foo(this.0 + 2) }
    assert_eq!(
        inline_call_at_cursor(
            r#"
struct Foo(u32);
impl Foo {
    fn add(&self, a: u32) -> Self {
        Foo(self.0 + a)
    }
}
fn main() {
    let x = Foo(3).add$0(2);
}
"#,
            &[],
        ),
        "self becomes this; self = Foo(3): let (0); a = 2: put in place (1); the block"
    );
}

#[test]
fn method_by_ref_mut() {
    // { let ref mut this = foo; this.0 = 0; };
    assert_eq!(
        inline_call_at_cursor(
            r#"
struct Foo(u32);
impl Foo {
    fn clear(&mut self) {
        self.0 = 0;
    }
}
fn main() {
    let mut foo = Foo(3);
    foo.clear$0();
}
"#,
            &[],
        ),
        "self becomes this; self = foo: let (0); the block"
    );
}

#[test]
fn function_multi_use_expr_in_param() {
    // { let x = 10 + x; x * x }
    assert_eq!(
        inline_call_at_cursor(
            r#"
fn square(x: u32) -> u32 {
    x * x
}
fn main() {
    let x = 51;
    let y = square$0(10 + x);
}
"#,
            &[],
        ),
        "x = 10 + x: let (2); the block"
    );
}

#[test]
fn function_use_local_in_param() {
    // local * local
    assert_eq!(
        inline_call_at_cursor(
            r#"
fn square(x: u32) -> u32 {
    x * x
}
fn main() {
    let local = 51;
    let y = square$0(local);
}
"#,
            &[],
        ),
        "x = local: put in place (2); the expression x * x"
    );
}

#[test]
fn method_in_impl() {
    // { let ref this = self; this; this; };
    assert_eq!(
        inline_call_at_cursor(
            r#"
struct Foo;
impl Foo {
    fn foo(&self) {
        self;
        self;
    }
    fn bar(&self) {
        self.foo$0();
    }
}
"#,
            &[],
        ),
        "self becomes this; self = self: let (0); the block"
    );
}

#[test]
fn wraps_closure_in_paren() {
    // { (|| {})(); }
    assert_eq!(
        inline_call_at_cursor(
            r#"
fn foo(x: fn()) {
    x();
}
fn main() {
    foo$0(|| {})
}
"#,
            &[],
        ),
        "x = || {}: put in place in parentheses (1); the block"
    );
    // { main(); }
    assert_eq!(
        inline_call_at_cursor(
            r#"
fn foo(x: fn()) {
    x();
}
fn main() {
    foo$0(main)
}
"#,
            &[],
        ),
        "x = main: put in place (1); the block"
    );
}

#[test]
fn inline_single_literal_expr() {
    // 222;
    assert_eq!(
        inline_call_at_cursor(
            r#"
fn foo(x: u32) -> u32{
    x
}
fn main() {
    foo$0(222);
}
"#,
            &[],
        ),
        "x = 222: put in place (1); the expression x"
    );
}

#[test]
fn inline_emits_type_for_coercion() {
    // { let x: *const u32 = &222; x as u32 };
    assert_eq!(
        inline_call_at_cursor(
            r#"
fn foo(x: *const u32) -> u32 {
    x as u32
}
fn main() {
    foo$0(&222);
}
"#,
            &["x"],
        ),
        "x = &222: let with type (1); the block"
    );
}

#[test]
fn inline_substitutes_generics() {
    // bar::<usize, N>();
    let ra_fixture = r#"
fn foo<T, const N: usize>() {
    bar::<T, N>()
}
fn bar<U, const M: usize>() {}
fn main() {
    foo$0::<usize, {0}>();
}
"#;
    assert_eq!(inline_call_at_cursor(ra_fixture, &[]), "the expression bar::<T, N>()");
    let fx = fixture(ra_fixture);
    let tree = &fx.files[0].tree;
    let call = CallInfo::from_name_ref(tree, at_cursor(&fx, NAME_REF)).unwrap();
    let generics = call.generic_arg_list.expect("the generic arguments of the call");
    assert_eq!(text_of(tree, generics), "::<usize, {0}>");
    assert!(matches!(call.node, CallableExpr::Call(_)));
}

fn the_math(argument: &str) -> String {
    format!("b = {argument}: put in place (1); the block")
}

#[test]
fn inline_callers() {
    // both calls become blocks, and the function goes
    assert_eq!(
        inline_into_callers_at_cursor(
            r#"
fn do_the_math$0(b: u32) -> u32 {
    let foo = 10;
    foo * b + foo
}
fn foo() {
    do_the_math(0);
    let bar = 10;
    do_the_math(bar);
}
"#
        ),
        (vec![(vec![the_math("0"), the_math("bar")], true)], Some(true))
    );
}

#[test]
fn inline_callers_across_files() {
    // the calls become blocks, the import and the function go
    assert_eq!(
        inline_into_callers_at_cursor(
            r#"
//- /lib.rs
mod foo;
fn do_the_math$0(b: u32) -> u32 {
    let foo = 10;
    foo * b + foo
}
//- /foo.rs
use super::do_the_math;
fn foo() {
    do_the_math(0);
    let bar = 10;
    do_the_math(bar);
}
"#
        ),
        (vec![(vec![the_math("0"), the_math("bar")], true)], Some(true))
    );
}

#[test]
fn inline_callers_across_files_with_def_file() {
    // the calls in both files become blocks, the import and the function go
    assert_eq!(
        inline_into_callers_at_cursor(
            r#"
//- /lib.rs
mod foo;
fn do_the_math$0(b: u32) -> u32 {
    let foo = 10;
    foo * b + foo
}
fn bar(a: u32, b: u32) -> u32 {
    do_the_math(0);
}
//- /foo.rs
use super::do_the_math;
fn foo() {
    do_the_math(0);
}
"#
        ),
        (vec![(vec![the_math("0")], true), (vec![the_math("0")], true)], Some(true))
    );
}

#[test]
fn inline_call_field_shorthand() {
    // Foo { field: bar, field1: 0, field2: baz, field3: 0 }
    assert_eq!(
        inline_call_at_cursor(
            r#"
struct Foo {
    field: u32,
    field1: u32,
    field2: u32,
    field3: u32,
}
fn foo(field: u32, field1: u32, val2: u32, val3: u32) -> Foo {
    Foo {
        field,
        field1,
        field2: val2,
        field3: val3,
    }
}
fn main() {
    let bar = 0;
    let baz = 0;
    foo$0(bar, 0, baz, 0);
}
"#,
            &[],
        ),
        "field = bar: put in place (1); field1 = 0: put in place (1); val2 = baz: put in place (1); \
         val3 = 0: put in place (1); the expression Foo {\n        field,\n        field1,\n        \
         field2: val2,\n        field3: val3,\n    }"
    );
}
