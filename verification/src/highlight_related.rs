//! Highlights what is related to the thing under the cursor: the
//! references to a name, the points at which a function is left, the points
//! at which a loop is left, and the points at which asynchronous code may
//! yield.

use crate::ast::{
    child_in_class, child_node, child_token, is_expr, is_generic_arg, nth_child_node,
    spec_child_in_class, spec_child_node, spec_child_token, spec_is_expr, spec_is_generic_arg,
    spec_nth_child_node, NodeClass,
};
use crate::collections::{positions, positions_contains};
use crate::db::{is_item, spec_is_item};
use crate::ids::FileId;
use crate::syntax::{SyntaxNode, SyntaxToken, SyntaxTree};
use crate::syntax_kind::SyntaxKind;
use crate::text::TextRange;
use rustc_hash::FxHashSet;
use vstd::prelude::*;

verus! {

broadcast use crate::text::TextRange::lemma_spec_new;

/// Whether a reference reads or writes what it refers to.
#[derive(Clone, Copy, Debug, PartialEq, Eq, Hash, Structural)]
pub enum ReferenceCategory {
    Write,
    Read,
}

/// A range of text to highlight; for a reference, with what the
/// reference does.
#[derive(Clone, Copy, Debug, PartialEq, Eq, Hash)]
pub struct HighlightedRange {
    pub range: TextRange,
    pub category: Option<ReferenceCategory>,
}

/// What to highlight.
#[derive(Clone, Copy, Debug)]
pub struct HighlightRelatedConfig {
    pub references: bool,
    pub exit_points: bool,
    pub break_points: bool,
    pub yield_points: bool,
}

impl Default for HighlightRelatedConfig {
    fn default() -> (r: Self)
        ensures
            !r.references && !r.exit_points && !r.break_points && !r.yield_points,
    {
        HighlightRelatedConfig {
            references: false,
            exit_points: false,
            break_points: false,
            yield_points: false,
        }
    }
}

/// A place in a file of the user.
#[derive(Clone, Copy, Debug, PartialEq, Eq, Hash, Structural)]
pub struct FilePosition {
    pub file_id: FileId,
    pub offset: u32,
}

/// A reference to the thing under the cursor, in the file of the cursor.
#[derive(Clone, Copy, Debug, PartialEq, Eq, Hash)]
pub struct FileReference {
    pub range: TextRange,
    pub category: Option<ReferenceCategory>,
}

/// The place where the thing under the cursor is declared: the file, the
/// range of the name where there is one, and whether the thing is a local
/// variable or a field.
#[derive(Clone, Copy, Debug, PartialEq, Eq, Hash)]
pub struct Declaration {
    pub file_id: FileId,
    pub focus_range: Option<TextRange>,
    pub local_or_field: bool,
}

/// What the analysis of names and types found for the thing under the
/// cursor: the references to it in the file of the cursor, the places
/// where it is declared, and the calls in that file that never return.
pub struct Semantics {
    pub references: Vec<FileReference>,
    pub declarations: Vec<Declaration>,
    pub never_exprs: FxHashSet<usize>,
}

/// The smallest range that holds both ranges, where both are there; the
/// one that is there otherwise.
pub fn cover_range(r0: Option<TextRange>, r1: Option<TextRange>) -> (r: Option<TextRange>)
    ensures
        r == spec_cover_range(r0, r1),
{
    match (r0, r1) {
        (Some(r0), Some(r1)) => Some(r0.cover(r1)),
        (Some(range), None) => Some(range),
        (None, Some(range)) => Some(range),
        (None, None) => None,
    }
}

/// Whether the token at position `i` of `tree` has text and touches the
/// offset `offset`.
pub open spec fn touches(tree: &SyntaxTree, i: int, offset: u32) -> bool {
    tree.token_at(i) && tree.range_start(i) < tree.range_end(i) && tree.range_start(i) <= offset
        <= tree.range_end(i)
}

/// The first token at a position in `from..` that touches `offset`.
pub open spec fn spec_touching_from(tree: &SyntaxTree, offset: u32, from: int) -> Option<int>
    decreases tree.spec_len() - from,
{
    if from < 0 || from >= tree.spec_len() {
        None
    } else if touches(tree, from, offset) {
        Some(from)
    } else {
        spec_touching_from(tree, offset, from + 1)
    }
}

/// The first token at a position in `from..` that touches `offset`.
fn touching_from(tree: &SyntaxTree, offset: u32, from: usize) -> (r: Option<SyntaxToken>)
    requires
        tree.wf(),
    ensures
        spec_touching_from(tree, offset, from as int) == match r {
            Some(t) => Some(t.0 as int),
            None => None,
        },
        r matches Some(t) ==> tree.has_token(t) && from <= t.0,
{
    let n = tree.len();
    let mut j = from;
    while j < n
        invariant
            tree.wf(),
            n == tree.spec_len(),
            from <= j,
            spec_touching_from(tree, offset, from as int) == spec_touching_from(
                tree,
                offset,
                j as int,
            ),
        decreases n - j,
    {
        if tree.is_token(j) {
            let r = tree.text_range(j);
            if r.start() < r.end() && r.start() <= offset && offset <= r.end() {
                return Some(SyntaxToken(j));
            }
        }
        j += 1;
    }
    None
}

/// The tokens at the offset `offset`: the token that holds the offset or
/// ends there, and the token that begins there where another one ends
/// there.
pub fn token_at_offset(tree: &SyntaxTree, offset: u32) -> (r: (
    Option<SyntaxToken>,
    Option<SyntaxToken>,
))
    requires
        tree.wf(),
    ensures
        spec_token_at_offset(tree, offset) == (
            match r.0 {
                Some(t) => Some(t.0 as int),
                None => None,
            },
            match r.1 {
                Some(t) => Some(t.0 as int),
                None => None,
            },
        ),
        r.0 matches Some(left) ==> tree.has_token(left),
        r.1 matches Some(right) ==> tree.has_token(right),
{
    match touching_from(tree, offset, 0) {
        Some(left) => {
            let right = if left.0 < tree.len() - 1 {
                touching_from(tree, offset, left.0 + 1)
            } else {
                None
            };
            (Some(left), right)
        },
        None => (None, None),
    }
}

/// How much a token of kind `kind` under the cursor counts: a question
/// mark most, then an arrow, then a keyword, then a name.
pub open spec fn spec_precedence(kind: SyntaxKind) -> int {
    if kind == SyntaxKind::QUESTION {
        4
    } else if kind == SyntaxKind::THIN_ARROW {
        3
    } else if kind.is_keyword() {
        2
    } else if kind == SyntaxKind::IDENT {
        1
    } else {
        0
    }
}

fn precedence(kind: SyntaxKind) -> (r: u8)
    ensures
        r == spec_precedence(kind),
{
    if kind == SyntaxKind::QUESTION {
        4
    } else if kind == SyntaxKind::THIN_ARROW {
        3
    } else if kind.is_keyword() {
        2
    } else if kind == SyntaxKind::IDENT {
        1
    } else {
        0
    }
}

/// Of the tokens at the cursor the one that counts most; the right one
/// where both count the same.
pub fn pick_best_token(tree: &SyntaxTree, tokens: (Option<SyntaxToken>, Option<SyntaxToken>)) -> (r:
    Option<SyntaxToken>)
    requires
        tokens.0 matches Some(t) ==> tree.has_token(t),
        tokens.1 matches Some(t) ==> tree.has_token(t),
    ensures
        r == match tokens {
            (Some(left), Some(right)) => if spec_precedence(tree.kind_at(right.0 as int))
                >= spec_precedence(tree.kind_at(left.0 as int)) {
                Some(right)
            } else {
                Some(left)
            },
            (Some(left), None) => Some(left),
            (None, right) => right,
        },
{
    match tokens {
        (Some(left), Some(right)) => {
            if precedence(tree.kind(right.0)) >= precedence(tree.kind(left.0)) {
                Some(right)
            } else {
                Some(left)
            }
        },
        (Some(left), None) => Some(left),
        (None, right) => right,
    }
}

/// The highlight of the element at position `i`, which says nothing of
/// what a reference does.
pub open spec fn hl(tree: &SyntaxTree, i: int) -> HighlightedRange {
    HighlightedRange { range: tree.spec_range(i), category: None }
}

/// The highlight of the child token of kind `kind` of the node `n`, where
/// it has one.
pub open spec fn hl_token(tree: &SyntaxTree, n: int, kind: SyntaxKind) -> Seq<HighlightedRange> {
    match spec_child_token(tree, n, kind) {
        Some(t) => seq![hl(tree, t)],
        None => Seq::empty(),
    }
}

/// Adds the highlight of the child token of kind `kind` of the node `n`.
fn push_token(tree: &SyntaxTree, n: SyntaxNode, kind: SyntaxKind, out: &mut Vec<HighlightedRange>)
    requires
        tree.wf(),
        tree.has_node(n),
    ensures
        final(out)@ == old(out)@ + hl_token(tree, n.0 as int, kind),
{
    match child_token(tree, n, kind) {
        Some(t) => {
            out.push(HighlightedRange { category: None, range: tree.text_range(t.0) });
            proof {
                assert(out@ =~= old(out)@ + hl_token(tree, n.0 as int, kind));
            }
        },
        None => {
            proof {
                assert(out@ =~= old(out)@ + hl_token(tree, n.0 as int, kind));
            }
        },
    }
}

/// Adds the highlight of the element at position `i`.
fn push_range(tree: &SyntaxTree, i: usize, out: &mut Vec<HighlightedRange>)
    requires
        tree.wf(),
        i < tree.spec_len(),
    ensures
        final(out)@ == old(out)@.push(hl(tree, i as int)),
{
    out.push(HighlightedRange { category: None, range: tree.text_range(i) });
}

/// Whether the block at position `block` is an `async`, `try` or `const`
/// block; an `unsafe` block is none even where such a word stands in it.
pub open spec fn spec_other_context(tree: &SyntaxTree, block: int) -> bool {
    if spec_child_token(tree, block, SyntaxKind::ASYNC_KW).is_some() {
        true
    } else if spec_child_token(tree, block, SyntaxKind::UNSAFE_KW).is_some() {
        false
    } else {
        spec_child_token(tree, block, SyntaxKind::TRY_KW).is_some() || spec_child_token(
            tree,
            block,
            SyntaxKind::CONST_KW,
        ).is_some()
    }
}

/// Whether the block `block` is an `async`, `try` or `const` block.
fn starts_other_context(tree: &SyntaxTree, block: SyntaxNode) -> (r: bool)
    requires
        tree.wf(),
        tree.has_node(block),
    ensures
        r == spec_other_context(tree, block.0 as int),
{
    if child_token(tree, block, SyntaxKind::ASYNC_KW).is_some() {
        true
    } else if child_token(tree, block, SyntaxKind::UNSAFE_KW).is_some() {
        false
    } else {
        child_token(tree, block, SyntaxKind::TRY_KW).is_some() || child_token(
            tree,
            block,
            SyntaxKind::CONST_KW,
        ).is_some()
    }
}

/// The lifetime of the label of the node at position `n`.
pub open spec fn spec_label_lifetime(tree: &SyntaxTree, n: int) -> Option<int> {
    match spec_child_node(tree, n, SyntaxKind::LABEL) {
        Some(label) => spec_child_node(tree, label, SyntaxKind::LIFETIME),
        None => None,
    }
}

/// The lifetime of the label of the node `n`.
fn label_lifetime(tree: &SyntaxTree, n: SyntaxNode) -> (r: Option<SyntaxNode>)
    requires
        tree.wf(),
        tree.has_node(n),
    ensures
        spec_label_lifetime(tree, n.0 as int) == as_position(r),
        r matches Some(c) ==> tree.has_node(c),
{
    match child_node(tree, n, SyntaxKind::LABEL) {
        Some(label) => child_node(tree, label, SyntaxKind::LIFETIME),
        None => None,
    }
}

/// The position of the node, where there is one.
pub open spec fn as_position(n: Option<SyntaxNode>) -> Option<int> {
    match n {
        Some(n) => Some(n.0 as int),
        None => None,
    }
}

/// Whether the two lifetimes are there and have the same name.
pub open spec fn spec_eq_label(tree: &SyntaxTree, a: Option<int>, b: Option<int>) -> bool {
    match (a, b) {
        (Some(a), Some(b)) => match (tree.spec_first_token(a), tree.spec_first_token(b)) {
            (Some(x), Some(y)) => tree.text_at(x) == tree.text_at(y),
            _ => false,
        },
        _ => false,
    }
}

/// Whether the two lifetimes are there and have the same name.
fn eq_label(tree: &SyntaxTree, a: Option<SyntaxNode>, b: Option<SyntaxNode>) -> (r: bool)
    requires
        tree.wf(),
        a matches Some(n) ==> tree.has_node(n),
        b matches Some(n) ==> tree.has_node(n),
    ensures
        r == spec_eq_label(tree, as_position(a), as_position(b)),
{
    match (a, b) {
        (Some(a), Some(b)) => match (tree.first_token(a), tree.first_token(b)) {
            (Some(x), Some(y)) => *tree.token_text(x) == *tree.token_text(y),
            _ => false,
        },
        _ => false,
    }
}

/// What of an expression counts: a point of exit, or a point of yielding.
#[derive(Clone, Copy, Debug, PartialEq, Eq, Hash, Structural)]
pub enum Walk {
    Exit,
    Yield,
}

/// The highlight of the expression at position `e` where it is a point of
/// the kind looked for: a `return`, a `?` and a call that never returns
/// are points of exit, an `await` is a point of yielding.
pub open spec fn spec_visit(tree: &SyntaxTree, never: Set<usize>, mode: Walk, e: int) -> Seq<
    HighlightedRange,
> {
    let kind = tree.kind_at(e);
    match mode {
        Walk::Exit => if kind == SyntaxKind::RETURN_EXPR {
            hl_token(tree, e, SyntaxKind::RETURN_KW)
        } else if kind == SyntaxKind::TRY_EXPR {
            hl_token(tree, e, SyntaxKind::QUESTION)
        } else if (kind == SyntaxKind::METHOD_CALL_EXPR || kind == SyntaxKind::CALL_EXPR || kind
            == SyntaxKind::MACRO_CALL) && never.contains(e as usize) {
            seq![hl(tree, e)]
        } else {
            Seq::empty()
        },
        Walk::Yield => if kind == SyntaxKind::AWAIT_EXPR {
            hl_token(tree, e, SyntaxKind::AWAIT_KW)
        } else {
            Seq::empty()
        },
    }
}

fn visit_expr(
    tree: &SyntaxTree,
    never: &FxHashSet<usize>,
    mode: Walk,
    e: SyntaxNode,
    out: &mut Vec<HighlightedRange>,
)
    requires
        tree.wf(),
        tree.has_node(e),
    ensures
        final(out)@ == old(out)@ + spec_visit(tree, positions(*never), mode, e.0 as int),
{
    let kind = tree.kind(e.0);
    proof {
        assert(old(out)@ + Seq::<HighlightedRange>::empty() =~= old(out)@);
    }
    match mode {
        Walk::Exit => {
            if kind == SyntaxKind::RETURN_EXPR {
                push_token(tree, e, SyntaxKind::RETURN_KW, out);
            } else if kind == SyntaxKind::TRY_EXPR {
                push_token(tree, e, SyntaxKind::QUESTION, out);
            } else if kind == SyntaxKind::METHOD_CALL_EXPR || kind == SyntaxKind::CALL_EXPR || kind
                == SyntaxKind::MACRO_CALL {
                if positions_contains(never, e.0) {
                    push_range(tree, e.0, out);
                    proof {
                        assert(out@ =~= old(out)@ + seq![hl(tree, e.0 as int)]);
                    }
                }
            }
        },
        Walk::Yield => {
            if kind == SyntaxKind::AWAIT_EXPR {
                push_token(tree, e, SyntaxKind::AWAIT_KW, out);
            }
        },
    }
}

/// The points of the kind looked for among the expressions inside the
/// expression `start`, from position `j` on, in document order. Items,
/// closures and `async`, `try` and `const` blocks inside are other
/// contexts: they are not walked into. Of a `let` statement, the
/// initializer is walked.
pub open spec fn spec_walk_from(
    tree: &SyntaxTree,
    never: Set<usize>,
    mode: Walk,
    start: int,
    j: int,
) -> Seq<HighlightedRange>
    decreases tree.spec_len() - start, tree.end_at(start) - j,
{
    let end = tree.end_at(start);
    if start < 0 || j < start || j >= end || end > tree.spec_len() {
        Seq::empty()
    } else if tree.token_at(j) {
        spec_walk_from(tree, never, mode, start, j + 1)
    } else {
        let kind = tree.kind_at(j);
        let past = if j < tree.end_at(j) <= end {
            tree.end_at(j)
        } else {
            end
        };
        if kind == SyntaxKind::LET_STMT {
            (match spec_child_in_class(tree, j, NodeClass::Expr) {
                Some(init) => if j < init < tree.spec_len() {
                    spec_walk_from(tree, never, mode, init, init)
                } else {
                    Seq::empty()
                },
                None => Seq::empty(),
            }) + spec_walk_from(tree, never, mode, start, past)
        } else if kind == SyntaxKind::EXPR_STMT {
            spec_walk_from(tree, never, mode, start, j + 1)
        } else if spec_is_item(kind) {
            (if kind == SyntaxKind::MACRO_CALL {
                spec_visit(tree, never, mode, j)
            } else {
                Seq::empty()
            }) + spec_walk_from(tree, never, mode, start, past)
        } else if spec_is_generic_arg(kind) {
            spec_walk_from(tree, never, mode, start, past)
        } else if spec_is_expr(kind) {
            spec_visit(tree, never, mode, j) + spec_walk_from(
                tree,
                never,
                mode,
                start,
                if j != start && (kind == SyntaxKind::CLOSURE_EXPR || (kind == SyntaxKind::BLOCK_EXPR
                    && spec_other_context(tree, j))) {
                    past
                } else {
                    j + 1
                },
            )
        } else {
            spec_walk_from(tree, never, mode, start, j + 1)
        }
    }
}

/// The points of the kind looked for inside the expression `start`.
pub open spec fn spec_walk(tree: &SyntaxTree, never: Set<usize>, mode: Walk, start: int) -> Seq<
    HighlightedRange,
> {
    spec_walk_from(tree, never, mode, start, start)
}

fn walk_expr(
    tree: &SyntaxTree,
    never: &FxHashSet<usize>,
    mode: Walk,
    start: SyntaxNode,
    out: &mut Vec<HighlightedRange>,
)
    requires
        tree.wf(),
        tree.has_node(start),
    ensures
        final(out)@ == old(out)@ + spec_walk(tree, positions(*never), mode, start.0 as int),
    decreases tree.spec_len() - start.0,
{
    let end = tree.subtree_end(start.0);
    let ghost set = positions(*never);
    let ghost all = old(out)@ + spec_walk(tree, set, mode, start.0 as int);
    let mut j = start.0;
    while j < end
        invariant
            tree.wf(),
            tree.has_node(start),
            end == tree.end_at(start.0 as int),
            start.0 <= j <= end <= tree.spec_len(),
            set == positions(*never),
            out@ + spec_walk_from(tree, set, mode, start.0 as int, j as int) == all,
        decreases end - j,
    {
        let ghost before = out@;
        let ghost rest = spec_walk_from(tree, set, mode, start.0 as int, j as int);
        if tree.is_token(j) {
            j += 1;
            continue ;
        }
        let kind = tree.kind(j);
        let past = tree.subtree_end(j);
        let past = if past <= end {
            past
        } else {
            end
        };
        let ghost after = spec_walk_from(tree, set, mode, start.0 as int, past as int);
        let ghost next = spec_walk_from(tree, set, mode, start.0 as int, j + 1);
        if kind == SyntaxKind::LET_STMT {
            match child_in_class(tree, SyntaxNode(j), NodeClass::Expr) {
                Some(init) => {
                    walk_expr(tree, never, mode, init, out);
                    proof {
                        let inner = spec_walk(tree, set, mode, init.0 as int);
                        assert((before + inner) + after =~= before + (inner + after));
                    }
                },
                None => {
                    proof {
                        assert(before + (Seq::<HighlightedRange>::empty() + after) =~= before
                            + after);
                    }
                },
            }
            j = past;
        } else if kind == SyntaxKind::EXPR_STMT {
            j += 1;
        } else if is_item(kind) {
            if kind == SyntaxKind::MACRO_CALL {
                visit_expr(tree, never, mode, SyntaxNode(j), out);
                proof {
                    let v = spec_visit(tree, set, mode, j as int);
                    assert((before + v) + after =~= before + (v + after));
                }
            } else {
                proof {
                    assert(before + (Seq::<HighlightedRange>::empty() + after) =~= before + after);
                }
            }
            j = past;
        } else if is_generic_arg(kind) {
            j = past;
        } else if is_expr(kind) {
            let other_context = j != start.0 && (kind == SyntaxKind::CLOSURE_EXPR || (kind
                == SyntaxKind::BLOCK_EXPR && starts_other_context(tree, SyntaxNode(j))));
            visit_expr(tree, never, mode, SyntaxNode(j), out);
            proof {
                let v = spec_visit(tree, set, mode, j as int);
                assert((before + v) + after =~= before + (v + after));
                assert((before + v) + next =~= before + (v + next));
            }
            if other_context {
                j = past;
            } else {
                j += 1;
            }
        } else {
            j += 1;
        }
    }
    proof {
        assert(out@ + Seq::<HighlightedRange>::empty() =~= out@);
    }
}

/// How a `break` is highlighted: with its label as a point at which a loop
/// is left, by its keyword alone as a point at which a function is left.
#[derive(Clone, Copy, Debug, PartialEq, Eq, Hash, Structural)]
pub enum BreakStyle {
    WithLabel,
    Keyword,
}

/// The range of the element at position `i`, where there is one.
pub open spec fn range_of(tree: &SyntaxTree, i: Option<int>) -> Option<TextRange> {
    match i {
        Some(i) => Some(tree.spec_range(i)),
        None => None,
    }
}

/// The smallest range that holds both ranges, where both are there; the
/// one that is there otherwise.
pub open spec fn spec_cover_range(r0: Option<TextRange>, r1: Option<TextRange>) -> Option<TextRange> {
    match (r0, r1) {
        (Some(r0), Some(r1)) => Some(r0.spec_cover(r1)),
        (Some(range), None) => Some(range),
        (None, Some(range)) => Some(range),
        (None, None) => None,
    }
}

/// The highlight of the `break` expression at position `b`: its keyword,
/// or the whole expression where the keyword is missing; with the style
/// `WithLabel`, the keyword together with the label.
pub open spec fn spec_break_hl(tree: &SyntaxTree, style: BreakStyle, b: int) -> Seq<HighlightedRange> {
    let keyword = spec_child_token(tree, b, SyntaxKind::BREAK_KW);
    match style {
        BreakStyle::Keyword => match keyword {
            Some(t) => seq![hl(tree, t)],
            None => seq![hl(tree, b)],
        },
        BreakStyle::WithLabel => match spec_cover_range(
            range_of(tree, keyword),
            range_of(tree, spec_child_node(tree, b, SyntaxKind::LIFETIME)),
        ) {
            Some(range) => seq![HighlightedRange { range, category: None }],
            None => Seq::empty(),
        },
    }
}

fn push_break(tree: &SyntaxTree, style: BreakStyle, b: SyntaxNode, out: &mut Vec<HighlightedRange>)
    requires
        tree.wf(),
        tree.has_node(b),
    ensures
        final(out)@ == old(out)@ + spec_break_hl(tree, style, b.0 as int),
{
    let keyword = child_token(tree, b, SyntaxKind::BREAK_KW);
    proof {
        assert(old(out)@ + Seq::<HighlightedRange>::empty() =~= old(out)@);
    }
    match style {
        BreakStyle::Keyword => {
            match keyword {
                Some(t) => push_range(tree, t.0, out),
                None => push_range(tree, b.0, out),
            }
            proof {
                assert(out@ =~= old(out)@ + spec_break_hl(tree, style, b.0 as int));
            }
        },
        BreakStyle::WithLabel => {
            let lifetime = child_node(tree, b, SyntaxKind::LIFETIME);
            let range = cover_range(
                match keyword {
                    Some(t) => Some(tree.text_range(t.0)),
                    None => None,
                },
                match lifetime {
                    Some(l) => Some(tree.text_range(l.0)),
                    None => None,
                },
            );
            match range {
                Some(range) => {
                    out.push(HighlightedRange { category: None, range });
                    proof {
                        assert(out@ =~= old(out)@ + spec_break_hl(tree, style, b.0 as int));
                    }
                },
                None => {},
            }
        },
    }
}

/// The loops and labelled blocks that still go on at position `j`: those
/// of `inside` without the innermost ones that end at or before `j`.
pub open spec fn spec_still_inside(inside: Seq<usize>, j: int) -> Seq<usize>
    decreases inside.len(),
{
    if inside.len() > 0 && inside.last() <= j {
        spec_still_inside(inside.drop_last(), j)
    } else {
        inside
    }
}

/// Whether a `break` at position `j` leaves what the label `label`
/// names: it does where it has that label, and where it has no label and
/// stands in no loop or labelled block inside.
pub open spec fn spec_break_applies(
    tree: &SyntaxTree,
    label: Option<int>,
    j: int,
    inside: Seq<usize>,
) -> bool {
    let lifetime = spec_child_node(tree, j, SyntaxKind::LIFETIME);
    (inside.len() == 0 && lifetime.is_none()) || spec_eq_label(tree, lifetime, label)
}

/// The highlights of the `break`s at the positions `j..end` that leave
/// what the label `label` names, where `inside` holds the ends of the
/// loops and labelled blocks around position `j`.
pub open spec fn spec_breaks_from(
    tree: &SyntaxTree,
    label: Option<int>,
    style: BreakStyle,
    end: int,
    j: int,
    inside: Seq<usize>,
) -> Seq<HighlightedRange>
    decreases end - j,
{
    if j < 0 || j >= end {
        Seq::empty()
    } else {
        let inside = spec_still_inside(inside, j);
        if tree.token_at(j) {
            spec_breaks_from(tree, label, style, end, j + 1, inside)
        } else {
            let kind = tree.kind_at(j);
            if kind == SyntaxKind::LOOP_EXPR || kind == SyntaxKind::WHILE_EXPR || kind
                == SyntaxKind::FOR_EXPR || (kind == SyntaxKind::BLOCK_EXPR && spec_child_node(
                tree,
                j,
                SyntaxKind::LABEL,
            ).is_some()) {
                spec_breaks_from(
                    tree,
                    label,
                    style,
                    end,
                    j + 1,
                    inside.push(tree.end_at(j) as usize),
                )
            } else if kind == SyntaxKind::BREAK_EXPR && spec_break_applies(tree, label, j, inside) {
                spec_break_hl(tree, style, j) + spec_breaks_from(
                    tree,
                    label,
                    style,
                    end,
                    j + 1,
                    inside,
                )
            } else {
                spec_breaks_from(tree, label, style, end, j + 1, inside)
            }
        }
    }
}

/// The highlights of the `break`s inside `body` that leave the loop or
/// block with the label `label`.
pub open spec fn spec_breaks(
    tree: &SyntaxTree,
    label: Option<int>,
    body: Option<int>,
    style: BreakStyle,
) -> Seq<HighlightedRange> {
    match body {
        Some(b) => spec_breaks_from(tree, label, style, tree.end_at(b), b, Seq::empty()),
        None => Seq::empty(),
    }
}

fn for_each_break_expr(
    tree: &SyntaxTree,
    label: Option<SyntaxNode>,
    body: Option<SyntaxNode>,
    style: BreakStyle,
    out: &mut Vec<HighlightedRange>,
)
    requires
        tree.wf(),
        label matches Some(n) ==> tree.has_node(n),
        body matches Some(n) ==> tree.has_node(n),
    ensures
        final(out)@ == old(out)@ + spec_breaks(tree, as_position(label), as_position(body), style),
{
    let body = match body {
        Some(b) => b,
        None => {
            proof {
                assert(out@ + Seq::<HighlightedRange>::empty() =~= out@);
            }
            return ;
        },
    };
    let end = tree.subtree_end(body.0);
    let ghost lbl = as_position(label);
    let ghost all = old(out)@ + spec_breaks(tree, lbl, Some(body.0 as int), style);
    let mut inside: Vec<usize> = Vec::new();
    let mut j = body.0;
    while j < end
        invariant
            tree.wf(),
            j <= end <= tree.spec_len(),
            label matches Some(n) ==> tree.has_node(n),
            lbl == as_position(label),
            out@ + spec_breaks_from(tree, lbl, style, end as int, j as int, inside@) == all,
        decreases end - j,
    {
        let ghost before = out@;
        let ghost entered = inside@;
        while inside.len() > 0 && inside[inside.len() - 1] <= j
            invariant
                spec_still_inside(inside@, j as int) == spec_still_inside(entered, j as int),
            decreases inside.len(),
        {
            inside.pop();
        }
        proof {
            assert(inside@ == spec_still_inside(entered, j as int));
        }
        let ghost rest = spec_breaks_from(tree, lbl, style, end as int, j + 1, inside@);
        if !tree.is_token(j) {
            let kind = tree.kind(j);
            if kind == SyntaxKind::LOOP_EXPR || kind == SyntaxKind::WHILE_EXPR || kind
                == SyntaxKind::FOR_EXPR {
                inside.push(tree.subtree_end(j));
            } else if kind == SyntaxKind::BLOCK_EXPR {
                if child_node(tree, SyntaxNode(j), SyntaxKind::LABEL).is_some() {
                    inside.push(tree.subtree_end(j));
                }
            } else if kind == SyntaxKind::BREAK_EXPR {
                let lifetime = child_node(tree, SyntaxNode(j), SyntaxKind::LIFETIME);
                if (inside.len() == 0 && lifetime.is_none()) || eq_label(tree, lifetime, label) {
                    push_break(tree, style, SyntaxNode(j), out);
                    proof {
                        let b = spec_break_hl(tree, style, j as int);
                        assert((before + b) + rest =~= before + (b + rest));
                    }
                }
            }
        }
        j += 1;
    }
    proof {
        assert(out@ + Seq::<HighlightedRange>::empty() =~= out@);
    }
}

/// The list of statements of the block at position `block`.
pub open spec fn spec_stmt_list(tree: &SyntaxTree, block: Option<int>) -> Option<int> {
    match block {
        Some(b) => spec_child_node(tree, b, SyntaxKind::STMT_LIST),
        None => None,
    }
}

fn stmt_list(tree: &SyntaxTree, block: Option<SyntaxNode>) -> (r: Option<SyntaxNode>)
    requires
        tree.wf(),
        block matches Some(n) ==> tree.has_node(n),
    ensures
        spec_stmt_list(tree, as_position(block)) == as_position(r),
        r matches Some(c) ==> tree.has_node(c) && block.is_some() && block.unwrap().0 < c.0,
{
    match block {
        Some(b) => child_node(tree, b, SyntaxKind::STMT_LIST),
        None => None,
    }
}

/// The last expression of the block at position `block`: the first
/// expression that stands among its statements.
pub open spec fn spec_block_tail(tree: &SyntaxTree, block: int) -> Option<int> {
    match spec_child_node(tree, block, SyntaxKind::STMT_LIST) {
        Some(list) => spec_child_in_class(tree, list, NodeClass::Expr),
        None => None,
    }
}

fn block_tail(tree: &SyntaxTree, block: SyntaxNode) -> (r: Option<SyntaxNode>)
    requires
        tree.wf(),
        tree.has_node(block),
    ensures
        spec_block_tail(tree, block.0 as int) == as_position(r),
        r matches Some(c) ==> tree.has_node(c) && block.0 < c.0,
{
    match child_node(tree, block, SyntaxKind::STMT_LIST) {
        Some(list) => child_in_class(tree, list, NodeClass::Expr),
        None => None,
    }
}

/// The highlights of the expressions inside the expression at position
/// `expr` whose value is the value of `expr`: the last expression of a
/// block, of each branch of an `if` and of each arm of a `match`, and the
/// `break`s that leave a loop or a labelled block. An `async`, `try` or
/// `const` block counts as a whole.
pub open spec fn spec_tail(tree: &SyntaxTree, expr: int) -> Seq<HighlightedRange>
    decreases tree.spec_len() - expr, 2int,
{
    let kind = tree.kind_at(expr);
    if expr < 0 || expr >= tree.spec_len() {
        Seq::empty()
    } else if kind == SyntaxKind::BLOCK_EXPR {
        if spec_child_token(tree, expr, SyntaxKind::ASYNC_KW).is_some() {
            seq![hl(tree, expr)]
        } else {
            let unsafe_block = spec_child_token(tree, expr, SyntaxKind::UNSAFE_KW).is_some();
            if !unsafe_block && (spec_child_token(tree, expr, SyntaxKind::TRY_KW).is_some()
                || spec_child_token(tree, expr, SyntaxKind::CONST_KW).is_some()) {
                seq![hl(tree, expr)]
            } else {
                (if !unsafe_block && spec_child_node(tree, expr, SyntaxKind::LABEL).is_some() {
                    spec_breaks(
                        tree,
                        spec_label_lifetime(tree, expr),
                        spec_stmt_list(tree, Some(expr)),
                        BreakStyle::Keyword,
                    )
                } else {
                    Seq::empty()
                }) + (match spec_block_tail(tree, expr) {
                    Some(tail) => if expr < tail < tree.spec_len() {
                        spec_tail(tree, tail)
                    } else {
                        Seq::empty()
                    },
                    None => Seq::empty(),
                })
            }
        }
    } else if kind == SyntaxKind::IF_EXPR {
        spec_tail_if(tree, expr)
    } else if kind == SyntaxKind::LOOP_EXPR {
        spec_breaks(
            tree,
            spec_label_lifetime(tree, expr),
            spec_stmt_list(tree, spec_child_node(tree, expr, SyntaxKind::BLOCK_EXPR)),
            BreakStyle::Keyword,
        )
    } else if kind == SyntaxKind::MATCH_EXPR {
        match spec_child_node(tree, expr, SyntaxKind::MATCH_ARM_LIST) {
            Some(arms) => if expr < arms < tree.spec_len() {
                spec_tail_arms(tree, arms + 1, tree.end_at(arms))
            } else {
                Seq::empty()
            },
            None => Seq::empty(),
        }
    } else if kind == SyntaxKind::BREAK_EXPR {
        spec_break_hl(tree, BreakStyle::Keyword, expr)
    } else {
        seq![hl(tree, expr)]
    }
}

/// The highlights for the `if` expression at position `cur`: for its
/// first block, and for its second block or the `if` that follows `else`.
pub open spec fn spec_tail_if(tree: &SyntaxTree, cur: int) -> Seq<HighlightedRange>
    decreases tree.spec_len() - cur, 1int,
{
    if cur < 0 || cur >= tree.spec_len() {
        Seq::empty()
    } else {
        (match spec_nth_child_node(tree, cur, SyntaxKind::BLOCK_EXPR, 0) {
            Some(block) => if cur < block < tree.spec_len() {
                spec_tail(tree, block)
            } else {
                Seq::empty()
            },
            None => Seq::empty(),
        }) + (match spec_nth_child_node(tree, cur, SyntaxKind::BLOCK_EXPR, 1) {
            Some(block) => if cur < block < tree.spec_len() {
                spec_tail(tree, block)
            } else {
                Seq::empty()
            },
            None => match spec_child_node(tree, cur, SyntaxKind::IF_EXPR) {
                Some(next) => if cur < next < tree.spec_len() {
                    spec_tail_if(tree, next)
                } else {
                    Seq::empty()
                },
                None => Seq::empty(),
            },
        })
    }
}

/// The highlights for the arms of a `match` from position `c` on: for the
/// expression of each arm.
pub open spec fn spec_tail_arms(tree: &SyntaxTree, c: int, end: int) -> Seq<HighlightedRange>
    decreases tree.spec_len() - c, 0int,
{
    if c < 0 || c >= end || end > tree.spec_len() || tree.end_at(c) <= c || tree.end_at(c) > end {
        Seq::empty()
    } else {
        (if !tree.token_at(c) && tree.kind_at(c) == SyntaxKind::MATCH_ARM {
            match spec_child_in_class(tree, c, NodeClass::Expr) {
                Some(e) => if c < e < tree.spec_len() {
                    spec_tail(tree, e)
                } else {
                    Seq::empty()
                },
                None => Seq::empty(),
            }
        } else {
            Seq::empty()
        }) + spec_tail_arms(tree, tree.end_at(c), end)
    }
}

fn for_each_tail_expr(tree: &SyntaxTree, expr: SyntaxNode, out: &mut Vec<HighlightedRange>)
    requires
        tree.wf(),
        tree.has_node(expr),
    ensures
        final(out)@ == old(out)@ + spec_tail(tree, expr.0 as int),
    decreases tree.spec_len() - expr.0, 2int,
{
    let kind = tree.kind(expr.0);
    let ghost start = out@;
    proof {
        assert(start + Seq::<HighlightedRange>::empty() =~= start);
    }
    if kind == SyntaxKind::BLOCK_EXPR {
        if child_token(tree, expr, SyntaxKind::ASYNC_KW).is_some() {
            push_range(tree, expr.0, out);
            proof {
                assert(out@ =~= start + seq![hl(tree, expr.0 as int)]);
            }
            return ;
        }
        let unsafe_block = child_token(tree, expr, SyntaxKind::UNSAFE_KW).is_some();
        if !unsafe_block && (child_token(tree, expr, SyntaxKind::TRY_KW).is_some() || child_token(
            tree,
            expr,
            SyntaxKind::CONST_KW,
        ).is_some()) {
            push_range(tree, expr.0, out);
            proof {
                assert(out@ =~= start + seq![hl(tree, expr.0 as int)]);
            }
            return ;
        }
        if !unsafe_block && child_node(tree, expr, SyntaxKind::LABEL).is_some() {
            for_each_break_expr(
                tree,
                label_lifetime(tree, expr),
                stmt_list(tree, Some(expr)),
                BreakStyle::Keyword,
                out,
            );
        }
        let ghost mid = out@;
        match block_tail(tree, expr) {
            Some(tail) => {
                for_each_tail_expr(tree, tail, out);
                proof {
                    let first = mid.subrange(start.len() as int, mid.len() as int);
                    assert(mid =~= start + first);
                    assert(out@ =~= start + (first + spec_tail(tree, tail.0 as int)));
                }
            },
            None => {
                proof {
                    let first = mid.subrange(start.len() as int, mid.len() as int);
                    assert(mid =~= start + first);
                    assert(out@ =~= start + (first + Seq::<HighlightedRange>::empty()));
                }
            },
        }
    } else if kind == SyntaxKind::IF_EXPR {
        tail_if(tree, expr, out);
    } else if kind == SyntaxKind::LOOP_EXPR {
        for_each_break_expr(
            tree,
            label_lifetime(tree, expr),
            stmt_list(tree, child_node(tree, expr, SyntaxKind::BLOCK_EXPR)),
            BreakStyle::Keyword,
            out,
        );
    } else if kind == SyntaxKind::MATCH_EXPR {
        match child_node(tree, expr, SyntaxKind::MATCH_ARM_LIST) {
            Some(arms) => {
                let end = tree.subtree_end(arms.0);
                tail_arms(tree, arms.0 + 1, end, out);
            },
            None => {},
        }
    } else if kind == SyntaxKind::BREAK_EXPR {
        push_break(tree, BreakStyle::Keyword, expr, out);
    } else {
        push_range(tree, expr.0, out);
        proof {
            assert(out@ =~= start + seq![hl(tree, expr.0 as int)]);
        }
    }
}

fn tail_if(tree: &SyntaxTree, cur: SyntaxNode, out: &mut Vec<HighlightedRange>)
    requires
        tree.wf(),
        tree.has_node(cur),
    ensures
        final(out)@ == old(out)@ + spec_tail_if(tree, cur.0 as int),
    decreases tree.spec_len() - cur.0, 1int,
{
    let ghost start = out@;
    proof {
        assert(start + Seq::<HighlightedRange>::empty() =~= start);
    }
    match nth_child_node(tree, cur, SyntaxKind::BLOCK_EXPR, 0) {
        Some(block) => for_each_tail_expr(tree, block, out),
        None => {},
    }
    let ghost mid = out@;
    let ghost first = mid.subrange(start.len() as int, mid.len() as int);
    proof {
        assert(mid =~= start + first);
    }
    match nth_child_node(tree, cur, SyntaxKind::BLOCK_EXPR, 1) {
        Some(block) => {
            for_each_tail_expr(tree, block, out);
            proof {
                assert(out@ =~= start + (first + spec_tail(tree, block.0 as int)));
            }
        },
        None => match child_node(tree, cur, SyntaxKind::IF_EXPR) {
            Some(next) => {
                tail_if(tree, next, out);
                proof {
                    assert(out@ =~= start + (first + spec_tail_if(tree, next.0 as int)));
                }
            },
            None => {
                proof {
                    assert(out@ =~= start + (first + Seq::<HighlightedRange>::empty()));
                }
            },
        },
    }
}

fn tail_arms(tree: &SyntaxTree, c: usize, end: usize, out: &mut Vec<HighlightedRange>)
    requires
        tree.wf(),
        end <= tree.spec_len(),
    ensures
        final(out)@ == old(out)@ + spec_tail_arms(tree, c as int, end as int),
    decreases tree.spec_len() - c, 0int,
{
    let ghost start = out@;
    proof {
        assert(start + Seq::<HighlightedRange>::empty() =~= start);
    }
    if c >= end {
        return ;
    }
    let next = tree.subtree_end(c);
    if next > end {
        return ;
    }
    if !tree.is_token(c) && tree.kind(c) == SyntaxKind::MATCH_ARM {
        match child_in_class(tree, SyntaxNode(c), NodeClass::Expr) {
            Some(e) => for_each_tail_expr(tree, e, out),
            None => {},
        }
    }
    let ghost mid = out@;
    let ghost first = mid.subrange(start.len() as int, mid.len() as int);
    proof {
        assert(mid =~= start + first);
    }
    tail_arms(tree, next, end, out);
    proof {
        assert(out@ =~= start + (first + spec_tail_arms(tree, next as int, end as int)));
    }
}

/// What is left of a function, closure or block: nothing (`None`) where
/// the node at position `anc` is none of them; else its body, where it has
/// one.
pub open spec fn spec_exit_context(tree: &SyntaxTree, anc: int) -> Option<Option<int>> {
    let kind = tree.kind_at(anc);
    if kind == SyntaxKind::FN {
        Some(spec_child_node(tree, anc, SyntaxKind::BLOCK_EXPR))
    } else if kind == SyntaxKind::CLOSURE_EXPR {
        Some(spec_child_in_class(tree, anc, NodeClass::Expr))
    } else if kind == SyntaxKind::BLOCK_EXPR && spec_other_context(tree, anc) {
        Some(Some(anc))
    } else {
        None
    }
}

/// The points at which the body at position `body` is left: each
/// `return`, each `?`, each call that never returns, and each expression
/// whose value is the value of the body.
pub open spec fn spec_exits_of(tree: &SyntaxTree, never: Set<usize>, body: int) -> Seq<
    HighlightedRange,
> {
    let tail = if tree.kind_at(body) == SyntaxKind::BLOCK_EXPR {
        spec_block_tail(tree, body)
    } else {
        Some(body)
    };
    spec_walk(tree, never, Walk::Exit, body) + (match tail {
        Some(tail) => spec_tail(tree, tail),
        None => Seq::empty(),
    })
}

/// The points of exit for the innermost function, closure or `async`,
/// `try` or `const` block among the nodes `ancestors` from number `k` on.
pub open spec fn spec_exit_points_from(
    tree: &SyntaxTree,
    never: Set<usize>,
    ancestors: Seq<int>,
    k: int,
) -> Option<Seq<HighlightedRange>>
    decreases ancestors.len() - k,
{
    if k < 0 || k >= ancestors.len() {
        None
    } else {
        match spec_exit_context(tree, ancestors[k]) {
            Some(Some(body)) => Some(spec_exits_of(tree, never, body)),
            Some(None) => None,
            None => spec_exit_points_from(tree, never, ancestors, k + 1),
        }
    }
}

/// The points at which the function, closure or block around the token at
/// position `token` is left.
pub open spec fn spec_exit_points(tree: &SyntaxTree, never: Set<usize>, token: int) -> Option<
    Seq<HighlightedRange>,
> {
    spec_exit_points_from(tree, never, tree.ancestors(token), 1)
}

/// What a list of highlights is, where there is one.
pub open spec fn as_seq(r: Option<Vec<HighlightedRange>>) -> Option<Seq<HighlightedRange>> {
    match r {
        Some(v) => Some(v@),
        None => None,
    }
}

/// The points at which the function, closure or block around `token` is
/// left: each `return`, each `?`, each call that never returns, and each
/// expression whose value is the value of the body. There are none where
/// the token stands in no function, closure, or `async`, `try` or `const`
/// block, or where that has no body.
pub fn highlight_exit_points(tree: &SyntaxTree, never: &FxHashSet<usize>, token: SyntaxToken) -> (r:
    Option<Vec<HighlightedRange>>)
    requires
        tree.wf(),
        tree.has_token(token),
    ensures
        as_seq(r) == spec_exit_points(tree, positions(*never), token.0 as int),
{
    let ancestors = tree.ancestors_of(token.0);
    let ghost list = tree.ancestors(token.0 as int);
    let ghost set = positions(*never);
    let mut k: usize = 1;
    while k < ancestors.len()
        invariant
            tree.wf(),
            1 <= k,
            list == tree.ancestors(token.0 as int),
            list.len() == ancestors@.len(),
            forall|i: int| 0 <= i < list.len() ==> list[i] == ancestors@[i] as int,
            set == positions(*never),
            forall|i: int| 0 <= i < ancestors@.len() ==> ancestors@[i] < tree.spec_len(),
            forall|i: int| 1 <= i < ancestors@.len() ==> !tree.token_at(#[trigger] ancestors@[i] as int),
            spec_exit_points_from(tree, set, list, k as int) == spec_exit_points_from(
                tree,
                set,
                list,
                1,
            ),
        decreases ancestors@.len() - k,
    {
        let anc = SyntaxNode(ancestors[k]);
        let kind = tree.kind(anc.0);
        let body = if kind == SyntaxKind::FN {
            Some(child_node(tree, anc, SyntaxKind::BLOCK_EXPR))
        } else if kind == SyntaxKind::CLOSURE_EXPR {
            Some(child_in_class(tree, anc, NodeClass::Expr))
        } else if kind == SyntaxKind::BLOCK_EXPR && starts_other_context(tree, anc) {
            Some(Some(anc))
        } else {
            None
        };
        match body {
            Some(body) => {
                let body = match body {
                    Some(body) => body,
                    None => {
                        return None;
                    },
                };
                let mut highlights: Vec<HighlightedRange> = Vec::new();
                walk_expr(tree, never, Walk::Exit, body, &mut highlights);
                let tail = if tree.kind(body.0) == SyntaxKind::BLOCK_EXPR {
                    block_tail(tree, body)
                } else {
                    Some(body)
                };
                let ghost walked = highlights@;
                match tail {
                    Some(tail) => for_each_tail_expr(tree, tail, &mut highlights),
                    None => {},
                }
                proof {
                    let w = spec_walk(tree, set, Walk::Exit, body.0 as int);
                    assert(walked =~= w);
                    assert(highlights@ =~= spec_exits_of(tree, set, body.0 as int));
                }
                return Some(highlights);
            },
            None => {},
        }
        k += 1;
    }
    None
}

/// The label that the token at a node of kind `parent_kind` points at: the
/// outer `None` where the token is of no loop, labelled block or `break`.
pub open spec fn spec_pointed_label(tree: &SyntaxTree, parent: int) -> Option<Option<int>> {
    let kind = tree.kind_at(parent);
    if kind == SyntaxKind::BREAK_EXPR {
        Some(spec_child_node(tree, parent, SyntaxKind::LIFETIME))
    } else if kind == SyntaxKind::LOOP_EXPR || kind == SyntaxKind::FOR_EXPR || kind
        == SyntaxKind::WHILE_EXPR {
        Some(spec_label_lifetime(tree, parent))
    } else if kind == SyntaxKind::BLOCK_EXPR && spec_label_lifetime(tree, parent).is_some() {
        Some(spec_label_lifetime(tree, parent))
    } else {
        None
    }
}

/// Whether the node at position `anc` is a loop or a labelled block that
/// the label `lbl` names; every one is named where there is no label.
pub open spec fn spec_is_break_target(tree: &SyntaxTree, lbl: Option<int>, anc: int) -> bool {
    let kind = tree.kind_at(anc);
    let loop_like = kind == SyntaxKind::LOOP_EXPR || kind == SyntaxKind::FOR_EXPR || kind
        == SyntaxKind::WHILE_EXPR;
    let labelled_block = kind == SyntaxKind::BLOCK_EXPR && spec_child_node(
        tree,
        anc,
        SyntaxKind::LABEL,
    ).is_some();
    (loop_like || labelled_block) && (lbl.is_none() || spec_eq_label(
        tree,
        lbl,
        spec_label_lifetime(tree, anc),
    ))
}

/// The highlights for the loop or labelled block at position `anc`: its
/// keyword with its label, and each `break` that leaves it.
pub open spec fn spec_breaks_of(tree: &SyntaxTree, anc: int) -> Seq<HighlightedRange> {
    let kind = tree.kind_at(anc);
    let keyword = if kind == SyntaxKind::LOOP_EXPR {
        spec_child_token(tree, anc, SyntaxKind::LOOP_KW)
    } else if kind == SyntaxKind::FOR_EXPR {
        spec_child_token(tree, anc, SyntaxKind::FOR_KW)
    } else if kind == SyntaxKind::WHILE_EXPR {
        spec_child_token(tree, anc, SyntaxKind::WHILE_KW)
    } else {
        None
    };
    let body = if kind == SyntaxKind::BLOCK_EXPR {
        spec_stmt_list(tree, Some(anc))
    } else {
        spec_stmt_list(tree, spec_child_node(tree, anc, SyntaxKind::BLOCK_EXPR))
    };
    (match spec_cover_range(
        range_of(tree, keyword),
        range_of(tree, spec_child_node(tree, anc, SyntaxKind::LABEL)),
    ) {
        Some(range) => seq![HighlightedRange { range, category: None }],
        None => Seq::empty(),
    }) + spec_breaks(tree, spec_label_lifetime(tree, anc), body, BreakStyle::WithLabel)
}

/// The highlights for the innermost loop or labelled block among the
/// nodes `ancestors` from number `k` on that the label `lbl` names.
pub open spec fn spec_break_points_from(
    tree: &SyntaxTree,
    lbl: Option<int>,
    ancestors: Seq<int>,
    k: int,
) -> Option<Seq<HighlightedRange>>
    decreases ancestors.len() - k,
{
    if k < 0 || k >= ancestors.len() {
        None
    } else if spec_is_break_target(tree, lbl, ancestors[k]) {
        Some(spec_breaks_of(tree, ancestors[k]))
    } else {
        spec_break_points_from(tree, lbl, ancestors, k + 1)
    }
}

/// The points at which the loop or labelled block that the token at
/// position `token` belongs to is left.
pub open spec fn spec_break_points(tree: &SyntaxTree, token: int) -> Option<Seq<HighlightedRange>> {
    if token == 0 {
        None
    } else {
        match spec_pointed_label(tree, tree.parent_at(token)) {
            None => None,
            Some(lbl) => spec_break_points_from(tree, lbl, tree.ancestors(token), 1),
        }
    }
}

/// The points at which the loop or labelled block that `token` belongs to
/// is left: the keyword of the loop with its label, and each `break` that
/// leaves it. The token belongs to the loop or labelled block around it
/// that has the label that stands at the token, and to the innermost one
/// where no label stands there.
pub fn highlight_break_points(tree: &SyntaxTree, token: SyntaxToken) -> (r: Option<
    Vec<HighlightedRange>,
>)
    requires
        tree.wf(),
        tree.has_token(token),
    ensures
        as_seq(r) == spec_break_points(tree, token.0 as int),
{
    let parent = match tree.parent(token.0) {
        Some(p) => p,
        None => {
            return None;
        },
    };
    let parent_kind = tree.kind(parent.0);
    let lbl = if parent_kind == SyntaxKind::BREAK_EXPR {
        child_node(tree, parent, SyntaxKind::LIFETIME)
    } else if parent_kind == SyntaxKind::LOOP_EXPR || parent_kind == SyntaxKind::FOR_EXPR
        || parent_kind == SyntaxKind::WHILE_EXPR {
        label_lifetime(tree, parent)
    } else if parent_kind == SyntaxKind::BLOCK_EXPR {
        match label_lifetime(tree, parent) {
            Some(l) => Some(l),
            None => {
                return None;
            },
        }
    } else {
        return None;
    };
    let ancestors = tree.ancestors_of(token.0);
    let ghost list = tree.ancestors(token.0 as int);
    let ghost label = as_position(lbl);
    let mut k: usize = 1;
    while k < ancestors.len()
        invariant
            tree.wf(),
            1 <= k,
            lbl matches Some(n) ==> tree.has_node(n),
            label == as_position(lbl),
            list == tree.ancestors(token.0 as int),
            token.0 != 0,
            spec_pointed_label(tree, tree.parent_at(token.0 as int)) == Some(label),
            list.len() == ancestors@.len(),
            forall|i: int| 0 <= i < list.len() ==> list[i] == ancestors@[i] as int,
            forall|i: int| 0 <= i < ancestors@.len() ==> ancestors@[i] < tree.spec_len(),
            forall|i: int| 1 <= i < ancestors@.len() ==> !tree.token_at(#[trigger] ancestors@[i] as int),
            spec_break_points_from(tree, label, list, k as int) == spec_break_points_from(
                tree,
                label,
                list,
                1,
            ),
        decreases ancestors@.len() - k,
    {
        let anc = SyntaxNode(ancestors[k]);
        let kind = tree.kind(anc.0);
        let loop_like = kind == SyntaxKind::LOOP_EXPR || kind == SyntaxKind::FOR_EXPR || kind
            == SyntaxKind::WHILE_EXPR;
        let label_node = child_node(tree, anc, SyntaxKind::LABEL);
        let labelled_block = kind == SyntaxKind::BLOCK_EXPR && label_node.is_some();
        if loop_like || labelled_block {
            let def_lbl = label_lifetime(tree, anc);
            let label_matches = match lbl {
                Some(_) => eq_label(tree, lbl, def_lbl),
                None => true,
            };
            if label_matches {
                let keyword = if kind == SyntaxKind::LOOP_EXPR {
                    child_token(tree, anc, SyntaxKind::LOOP_KW)
                } else if kind == SyntaxKind::FOR_EXPR {
                    child_token(tree, anc, SyntaxKind::FOR_KW)
                } else if kind == SyntaxKind::WHILE_EXPR {
                    child_token(tree, anc, SyntaxKind::WHILE_KW)
                } else {
                    None
                };
                let body = if loop_like {
                    stmt_list(tree, child_node(tree, anc, SyntaxKind::BLOCK_EXPR))
                } else {
                    stmt_list(tree, Some(anc))
                };
                let mut highlights: Vec<HighlightedRange> = Vec::new();
                let range = cover_range(
                    match keyword {
                        Some(t) => Some(tree.text_range(t.0)),
                        None => None,
                    },
                    match label_node {
                        Some(l) => Some(tree.text_range(l.0)),
                        None => None,
                    },
                );
                match range {
                    Some(range) => highlights.push(HighlightedRange { category: None, range }),
                    None => {},
                }
                let ghost first = highlights@;
                for_each_break_expr(tree, def_lbl, body, BreakStyle::WithLabel, &mut highlights);
                proof {
                    assert(highlights@ =~= spec_breaks_of(tree, anc.0 as int));
                }
                return Some(highlights);
            }
        }
        k += 1;
    }
    None
}

/// What may yield: nothing (`None`) where the node at position `anc` is
/// no function, closure or `async` block; else its body, where it has one.
pub open spec fn spec_yield_context(tree: &SyntaxTree, anc: int) -> Option<Option<int>> {
    let kind = tree.kind_at(anc);
    if kind == SyntaxKind::FN {
        Some(spec_child_node(tree, anc, SyntaxKind::BLOCK_EXPR))
    } else if kind == SyntaxKind::BLOCK_EXPR {
        if spec_child_token(tree, anc, SyntaxKind::ASYNC_KW).is_some() {
            Some(Some(anc))
        } else {
            None
        }
    } else if kind == SyntaxKind::CLOSURE_EXPR {
        Some(spec_child_in_class(tree, anc, NodeClass::Expr))
    } else {
        None
    }
}

/// The points of yielding for the innermost function, closure or `async`
/// block among the nodes `ancestors` from number `k` on: none where that
/// is not asynchronous.
pub open spec fn spec_yield_points_from(tree: &SyntaxTree, ancestors: Seq<int>, k: int) -> Option<
    Seq<HighlightedRange>,
>
    decreases ancestors.len() - k,
{
    if k < 0 || k >= ancestors.len() {
        None
    } else {
        match spec_yield_context(tree, ancestors[k]) {
            Some(body) => match spec_child_token(tree, ancestors[k], SyntaxKind::ASYNC_KW) {
                Some(keyword) => Some(
                    seq![hl(tree, keyword)] + (match body {
                        Some(body) => spec_walk(tree, Set::empty(), Walk::Yield, body),
                        None => Seq::empty(),
                    }),
                ),
                None => None,
            },
            None => spec_yield_points_from(tree, ancestors, k + 1),
        }
    }
}

/// The points at which the asynchronous function, block or closure around
/// the token at position `token` may yield.
pub open spec fn spec_yield_points(tree: &SyntaxTree, token: int) -> Option<Seq<HighlightedRange>> {
    spec_yield_points_from(tree, tree.ancestors(token), 1)
}

/// The points at which the asynchronous function, block or closure around
/// `token` may yield: its `async` keyword and each `await` inside it.
/// There are none where the token stands in no function, closure or
/// `async` block, or where the innermost of those is not asynchronous.
pub fn highlight_yield_points(tree: &SyntaxTree, token: SyntaxToken) -> (r: Option<
    Vec<HighlightedRange>,
>)
    requires
        tree.wf(),
        tree.has_token(token),
    ensures
        as_seq(r) == spec_yield_points(tree, token.0 as int),
{
    let ancestors = tree.ancestors_of(token.0);
    let ghost list = tree.ancestors(token.0 as int);
    let mut k: usize = 1;
    while k < ancestors.len()
        invariant
            tree.wf(),
            1 <= k,
            list == tree.ancestors(token.0 as int),
            list.len() == ancestors@.len(),
            forall|i: int| 0 <= i < list.len() ==> list[i] == ancestors@[i] as int,
            forall|i: int| 0 <= i < ancestors@.len() ==> ancestors@[i] < tree.spec_len(),
            forall|i: int| 1 <= i < ancestors@.len() ==> !tree.token_at(#[trigger] ancestors@[i] as int),
            spec_yield_points_from(tree, list, k as int) == spec_yield_points_from(tree, list, 1),
        decreases ancestors@.len() - k,
    {
        let anc = SyntaxNode(ancestors[k]);
        let kind = tree.kind(anc.0);
        let async_token = child_token(tree, anc, SyntaxKind::ASYNC_KW);
        let found = if kind == SyntaxKind::FN {
            Some(child_node(tree, anc, SyntaxKind::BLOCK_EXPR))
        } else if kind == SyntaxKind::BLOCK_EXPR {
            if async_token.is_none() {
                None
            } else {
                Some(Some(anc))
            }
        } else if kind == SyntaxKind::CLOSURE_EXPR {
            Some(child_in_class(tree, anc, NodeClass::Expr))
        } else {
            None
        };
        match found {
            Some(body) => {
                let async_token = match async_token {
                    Some(t) => t,
                    None => {
                        return None;
                    },
                };
                let mut highlights: Vec<HighlightedRange> = Vec::new();
                push_range(tree, async_token.0, &mut highlights);
                match body {
                    Some(body) => {
                        let never = crate::collections::positions_new();
                        walk_expr(tree, &never, Walk::Yield, body, &mut highlights);
                    },
                    None => {},
                }
                proof {
                    let want = spec_yield_points_from(tree, list, k as int);
                    assert(highlights@ =~= want.unwrap());
                }
                return Some(highlights);
            },
            None => {},
        }
        k += 1;
    }
    None
}

/// The innermost `let` statement among the nodes `ancestors` from number
/// `k` on.
pub open spec fn spec_let_stmt_from(tree: &SyntaxTree, ancestors: Seq<int>, k: int) -> Option<int>
    decreases ancestors.len() - k,
{
    if k < 0 || k >= ancestors.len() {
        None
    } else if tree.kind_at(ancestors[k]) == SyntaxKind::LET_STMT {
        Some(ancestors[k])
    } else {
        spec_let_stmt_from(tree, ancestors, k + 1)
    }
}

/// The innermost `let` statement around the token at position `token`.
pub open spec fn spec_let_stmt_around(tree: &SyntaxTree, token: Option<int>) -> Option<int> {
    match token {
        Some(t) => spec_let_stmt_from(tree, tree.ancestors(t), 1),
        None => None,
    }
}

fn let_stmt_around(tree: &SyntaxTree, token: Option<SyntaxToken>) -> (r: Option<SyntaxNode>)
    requires
        tree.wf(),
        token matches Some(t) ==> tree.has_token(t),
    ensures
        spec_let_stmt_around(
            tree,
            match token {
                Some(t) => Some(t.0 as int),
                None => None,
            },
        ) == as_position(r),
        r matches Some(n) ==> tree.has_node(n) && tree.kind_at(n.0 as int) == SyntaxKind::LET_STMT,
{
    let start = match token {
        Some(t) => t,
        None => {
            return None;
        },
    };
    let ancestors = tree.ancestors_of(start.0);
    let ghost list = tree.ancestors(start.0 as int);
    let mut k: usize = 1;
    while k < ancestors.len()
        invariant
            tree.wf(),
            1 <= k,
            token == Some(start),
            list == tree.ancestors(start.0 as int),
            list.len() == ancestors@.len(),
            forall|i: int| 0 <= i < list.len() ==> list[i] == ancestors@[i] as int,
            forall|i: int| 0 <= i < ancestors@.len() ==> ancestors@[i] < tree.spec_len(),
            forall|i: int| 1 <= i < ancestors@.len() ==> !tree.token_at(#[trigger] ancestors@[i] as int),
            spec_let_stmt_from(tree, list, k as int) == spec_let_stmt_from(tree, list, 1),
        decreases ancestors@.len() - k,
    {
        if tree.kind(ancestors[k]) == SyntaxKind::LET_STMT {
            return Some(SyntaxNode(ancestors[k]));
        }
        k += 1;
    }
    None
}

/// The tokens at the offset `offset`: the first that touches it, and the
/// next one that does.
pub open spec fn spec_token_at_offset(tree: &SyntaxTree, offset: u32) -> (Option<int>, Option<int>) {
    match spec_touching_from(tree, offset, 0) {
        Some(left) => (Some(left), spec_touching_from(tree, offset, left + 1)),
        None => (None, None),
    }
}

/// Whether the declaration at `range` makes the thing that it declares
/// mutable: it does where the thing is a local variable or a field and
/// the innermost `let` statement at the start of the range has an
/// initializer and a pattern that is a name with `mut`. Of two `let`
/// statements that meet there, the shorter one counts.
pub open spec fn spec_decl_mutability(local_or_field: bool, tree: &SyntaxTree, range: TextRange) -> bool {
    let tokens = spec_token_at_offset(tree, range.spec_start());
    let left = spec_let_stmt_around(tree, tokens.0);
    let right = spec_let_stmt_around(tree, tokens.1);
    let stmt = match (left, right) {
        (Some(l), Some(r)) => if tree.spec_range(r).spec_len() < tree.spec_range(l).spec_len() {
            Some(r)
        } else {
            Some(l)
        },
        (Some(l), None) => Some(l),
        (None, r) => r,
    };
    local_or_field && match stmt {
        Some(stmt) => spec_child_in_class(tree, stmt, NodeClass::Expr).is_some() && match spec_child_in_class(
            tree,
            stmt,
            NodeClass::Pat,
        ) {
            Some(pat) => tree.kind_at(pat) == SyntaxKind::IDENT_PAT && spec_child_token(
                tree,
                pat,
                SyntaxKind::MUT_KW,
            ).is_some(),
            None => false,
        },
        None => false,
    }
}

/// Whether the declaration at `range` makes the thing that it declares
/// mutable.
pub fn decl_mutability(local_or_field: bool, tree: &SyntaxTree, range: TextRange) -> (r: bool)
    requires
        tree.wf(),
    ensures
        r == spec_decl_mutability(local_or_field, tree, range),
{
    if !local_or_field {
        return false;
    }
    let tokens = token_at_offset(tree, range.start());
    let left = let_stmt_around(tree, tokens.0);
    let right = let_stmt_around(tree, tokens.1);
    let stmt = match (left, right) {
        (Some(l), Some(r)) => {
            if tree.text_range(r.0).len() < tree.text_range(l.0).len() {
                r
            } else {
                l
            }
        },
        (Some(l), None) => l,
        (None, Some(r)) => r,
        (None, None) => {
            return false;
        },
    };
    if child_in_class(tree, stmt, NodeClass::Expr).is_none() {
        return false;
    }
    match child_in_class(tree, stmt, NodeClass::Pat) {
        Some(pat) => tree.kind(pat.0) == SyntaxKind::IDENT_PAT && child_token(
            tree,
            pat,
            SyntaxKind::MUT_KW,
        ).is_some(),
        None => false,
    }
}

/// Whether the two highlights are the same.
fn same_highlight(a: &HighlightedRange, b: &HighlightedRange) -> (r: bool)
    ensures
        r == (*a == *b),
{
    a.range == b.range && match (a.category, b.category) {
        (Some(x), Some(y)) => x == y,
        (None, None) => true,
        _ => false,
    }
}

/// Whether no highlight stands twice in `highlights`.
pub open spec fn distinct(highlights: Seq<HighlightedRange>) -> bool {
    forall|i: int, j: int|
        0 <= i < j < highlights.len() ==> #[trigger] highlights[i] != #[trigger] highlights[j]
}

/// The highlights with `hl` behind them where it is not among them.
pub open spec fn spec_push_unique(highlights: Seq<HighlightedRange>, hl: HighlightedRange) -> Seq<
    HighlightedRange,
> {
    if highlights.contains(hl) {
        highlights
    } else {
        highlights.push(hl)
    }
}

fn push_unique(out: &mut Vec<HighlightedRange>, hl: HighlightedRange)
    ensures
        final(out)@ == spec_push_unique(old(out)@, hl),
{
    let mut i: usize = 0;
    while i < out.len()
        invariant
            i <= out@.len(),
            out@ == old(out)@,
            forall|k: int| 0 <= k < i ==> out@[k] != hl,
        decreases out@.len() - i,
    {
        if same_highlight(&out[i], &hl) {
            proof {
                assert(out@[i as int] == hl);
            }
            return ;
        }
        i += 1;
    }
    proof {
        if out@.contains(hl) {
            let k = choose|k: int| 0 <= k < out@.len() && out@[k] == hl;
            assert(out@[k] != hl);
        }
    }
    out.push(hl);
}

/// A list without repetitions stays one when a highlight is added that is
/// not in it.
pub proof fn lemma_push_unique_distinct(highlights: Seq<HighlightedRange>, hl: HighlightedRange)
    requires
        distinct(highlights),
    ensures
        distinct(spec_push_unique(highlights, hl)),
        spec_push_unique(highlights, hl).contains(hl),
        forall|other: HighlightedRange|
            highlights.contains(other) ==> spec_push_unique(highlights, hl).contains(other),
{
    let after = spec_push_unique(highlights, hl);
    if !highlights.contains(hl) {
        assert(after[highlights.len() as int] == hl);
        assert forall|i: int, j: int| 0 <= i < j < after.len() implies #[trigger] after[i]
            != #[trigger] after[j] by {
            assert(after[i] == highlights[i]);
            if j < highlights.len() {
                assert(after[j] == highlights[j]);
            }
        }
    }
    assert forall|other: HighlightedRange| highlights.contains(other) implies after.contains(
        other,
    ) by {
        let k = choose|k: int| 0 <= k < highlights.len() && highlights[k] == other;
        assert(after[k] == other);
    }
}

/// The highlight that the declaration `decl` gives in the file `file`:
/// the range of its name, marked as written where the declaration makes
/// the thing mutable. A declaration in another file gives none, nor one
/// without a name.
pub open spec fn spec_declared(tree: &SyntaxTree, decl: Declaration, file: FileId) -> Option<
    HighlightedRange,
> {
    if decl.file_id != file {
        None
    } else {
        match decl.focus_range {
            Some(range) => Some(
                HighlightedRange {
                    range,
                    category: if spec_decl_mutability(decl.local_or_field, tree, range) {
                        Some(ReferenceCategory::Write)
                    } else {
                        None
                    },
                },
            ),
            None => None,
        }
    }
}

/// The highlights of the first `n` declarations, each once.
pub open spec fn spec_declarations(tree: &SyntaxTree, decls: Seq<Declaration>, file: FileId, n: int) -> Seq<
    HighlightedRange,
>
    decreases n,
{
    if n <= 0 || n > decls.len() {
        Seq::empty()
    } else {
        let before = spec_declarations(tree, decls, file, n - 1);
        match spec_declared(tree, decls[n - 1], file) {
            Some(hl) => spec_push_unique(before, hl),
            None => before,
        }
    }
}

/// The highlights `acc` and behind them those of the first `n` references,
/// each once.
pub open spec fn spec_with_references(
    acc: Seq<HighlightedRange>,
    refs: Seq<FileReference>,
    n: int,
) -> Seq<HighlightedRange>
    decreases n,
{
    if n <= 0 || n > refs.len() {
        acc
    } else {
        spec_push_unique(
            spec_with_references(acc, refs, n - 1),
            HighlightedRange { range: refs[n - 1].range, category: refs[n - 1].category },
        )
    }
}

/// The references to the thing under the cursor and the places where it is
/// declared, each once: the declarations in the file of the cursor first,
/// the references after them. Nothing where there are none.
pub open spec fn spec_references(
    tree: &SyntaxTree,
    decls: Seq<Declaration>,
    refs: Seq<FileReference>,
    file: FileId,
) -> Option<Seq<HighlightedRange>> {
    let all = spec_with_references(
        spec_declarations(tree, decls, file, decls.len() as int),
        refs,
        refs.len() as int,
    );
    if all.len() == 0 {
        None
    } else {
        Some(all)
    }
}

/// No highlight stands twice among the highlighted references.
pub proof fn lemma_references_distinct(
    tree: &SyntaxTree,
    decls: Seq<Declaration>,
    refs: Seq<FileReference>,
    file: FileId,
)
    ensures
        spec_references(tree, decls, refs, file) matches Some(all) ==> distinct(all),
{
    lemma_declarations_distinct(tree, decls, file, decls.len() as int);
    lemma_with_references_distinct(
        spec_declarations(tree, decls, file, decls.len() as int),
        refs,
        refs.len() as int,
    );
}

proof fn lemma_declarations_distinct(tree: &SyntaxTree, decls: Seq<Declaration>, file: FileId, n: int)
    ensures
        distinct(spec_declarations(tree, decls, file, n)),
    decreases n,
{
    if 0 < n <= decls.len() {
        lemma_declarations_distinct(tree, decls, file, n - 1);
        match spec_declared(tree, decls[n - 1], file) {
            Some(hl) => lemma_push_unique_distinct(spec_declarations(tree, decls, file, n - 1), hl),
            None => {},
        }
    }
}

proof fn lemma_with_references_distinct(acc: Seq<HighlightedRange>, refs: Seq<FileReference>, n: int)
    requires
        distinct(acc),
    ensures
        distinct(spec_with_references(acc, refs, n)),
    decreases n,
{
    if 0 < n <= refs.len() {
        lemma_with_references_distinct(acc, refs, n - 1);
        lemma_push_unique_distinct(
            spec_with_references(acc, refs, n - 1),
            HighlightedRange { range: refs[n - 1].range, category: refs[n - 1].category },
        );
    }
}

/// The references to the thing under the cursor and the places where it is
/// declared, each once: the declarations in the file of the cursor first,
/// the references after them. Nothing where there are none.
pub fn highlight_references(tree: &SyntaxTree, sema: &Semantics, position: FilePosition) -> (r:
    Option<Vec<HighlightedRange>>)
    requires
        tree.wf(),
    ensures
        as_seq(r) == spec_references(
            tree,
            sema.declarations@,
            sema.references@,
            position.file_id,
        ),
{
    let mut res: Vec<HighlightedRange> = Vec::new();
    let mut d: usize = 0;
    while d < sema.declarations.len()
        invariant
            tree.wf(),
            d <= sema.declarations@.len(),
            res@ == spec_declarations(tree, sema.declarations@, position.file_id, d as int),
        decreases sema.declarations@.len() - d,
    {
        let decl = sema.declarations[d];
        if decl.file_id == position.file_id {
            match decl.focus_range {
                Some(range) => {
                    let mutable = decl_mutability(decl.local_or_field, tree, range);
                    let category = if mutable {
                        Some(ReferenceCategory::Write)
                    } else {
                        None
                    };
                    push_unique(&mut res, HighlightedRange { range, category });
                },
                None => {},
            }
        }
        d += 1;
    }
    let ghost declared = res@;
    let mut u: usize = 0;
    while u < sema.references.len()
        invariant
            u <= sema.references@.len(),
            res@ == spec_with_references(declared, sema.references@, u as int),
        decreases sema.references@.len() - u,
    {
        let reference = sema.references[u];
        push_unique(
            &mut res,
            HighlightedRange { range: reference.range, category: reference.category },
        );
        u += 1;
    }
    if res.len() == 0 {
        None
    } else {
        Some(res)
    }
}

/// The token under the cursor that counts most.
pub open spec fn spec_best_token(tree: &SyntaxTree, offset: u32) -> Option<int> {
    match spec_token_at_offset(tree, offset) {
        (Some(left), Some(right)) => if spec_precedence(tree.kind_at(right)) >= spec_precedence(
            tree.kind_at(left),
        ) {
            Some(right)
        } else {
            Some(left)
        },
        (Some(left), None) => Some(left),
        (None, right) => right,
    }
}

/// What the cursor at `position` asks to highlight, told by the token
/// under it: the points of exit for a `?`, a `fn`, a `return` or an arrow;
/// the points of yielding for `async` and `await`; the points at which a
/// loop is left for `for`, `loop`, `while` and `break`; and the
/// references to a name otherwise. Nothing is highlighted where the
/// configuration switches that off, nor where no token is under the
/// cursor.
pub open spec fn spec_highlight_related(
    tree: &SyntaxTree,
    never: Set<usize>,
    decls: Seq<Declaration>,
    refs: Seq<FileReference>,
    config: HighlightRelatedConfig,
    position: FilePosition,
) -> Option<Seq<HighlightedRange>> {
    match spec_best_token(tree, position.offset) {
        None => None,
        Some(token) => {
            let kind = tree.kind_at(token);
            let parent_kind = if token == 0 {
                None
            } else {
                Some(tree.kind_at(tree.parent_at(token)))
            };
            if kind == SyntaxKind::QUESTION && config.exit_points && parent_kind == Some(
                SyntaxKind::TRY_EXPR,
            ) {
                spec_exit_points(tree, never, token)
            } else if (kind == SyntaxKind::FN_KW || kind == SyntaxKind::RETURN_KW || kind
                == SyntaxKind::THIN_ARROW) && config.exit_points {
                spec_exit_points(tree, never, token)
            } else if (kind == SyntaxKind::AWAIT_KW || kind == SyntaxKind::ASYNC_KW)
                && config.yield_points {
                spec_yield_points(tree, token)
            } else if kind == SyntaxKind::FOR_KW && config.break_points && parent_kind == Some(
                SyntaxKind::FOR_EXPR,
            ) {
                spec_break_points(tree, token)
            } else if (kind == SyntaxKind::BREAK_KW || kind == SyntaxKind::LOOP_KW || kind
                == SyntaxKind::WHILE_KW) && config.break_points {
                spec_break_points(tree, token)
            } else if config.references {
                spec_references(tree, decls, refs, position.file_id)
            } else {
                None
            }
        },
    }
}

/// With everything switched off nothing is highlighted.
pub proof fn lemma_nothing_configured(
    tree: &SyntaxTree,
    never: Set<usize>,
    decls: Seq<Declaration>,
    refs: Seq<FileReference>,
    config: HighlightRelatedConfig,
    position: FilePosition,
)
    requires
        !config.references && !config.exit_points && !config.break_points && !config.yield_points,
    ensures
        spec_highlight_related(tree, never, decls, refs, config, position).is_none(),
{
}

/// Highlights what is related to the thing under the cursor at `position`.
pub fn highlight_related(
    tree: &SyntaxTree,
    sema: &Semantics,
    config: HighlightRelatedConfig,
    position: FilePosition,
) -> (r: Option<Vec<HighlightedRange>>)
    requires
        tree.wf(),
    ensures
        as_seq(r) == spec_highlight_related(
            tree,
            positions(sema.never_exprs),
            sema.declarations@,
            sema.references@,
            config,
            position,
        ),
{
    let token = match pick_best_token(tree, token_at_offset(tree, position.offset)) {
        Some(token) => token,
        None => {
            return None;
        },
    };
    let kind = tree.kind(token.0);
    let parent_kind = match tree.parent(token.0) {
        Some(p) => Some(tree.kind(p.0)),
        None => None,
    };
    if kind == SyntaxKind::QUESTION && config.exit_points && parent_kind == Some(
        SyntaxKind::TRY_EXPR,
    ) {
        highlight_exit_points(tree, &sema.never_exprs, token)
    } else if (kind == SyntaxKind::FN_KW || kind == SyntaxKind::RETURN_KW || kind
        == SyntaxKind::THIN_ARROW) && config.exit_points {
        highlight_exit_points(tree, &sema.never_exprs, token)
    } else if (kind == SyntaxKind::AWAIT_KW || kind == SyntaxKind::ASYNC_KW) && config.yield_points {
        highlight_yield_points(tree, token)
    } else if kind == SyntaxKind::FOR_KW && config.break_points && parent_kind == Some(
        SyntaxKind::FOR_EXPR,
    ) {
        highlight_break_points(tree, token)
    } else if (kind == SyntaxKind::BREAK_KW || kind == SyntaxKind::LOOP_KW || kind
        == SyntaxKind::WHILE_KW) && config.break_points {
        highlight_break_points(tree, token)
    } else if config.references {
        highlight_references(tree, sema, position)
    } else {
        None
    }
}

} // verus!
