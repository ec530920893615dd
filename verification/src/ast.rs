//! Where the parts of a piece of syntax stand in the syntax tree: the token
//! tree of a macro call, the attributes of an item, and the like.

use crate::syntax::{SyntaxNode, SyntaxToken, SyntaxTree};
use crate::syntax_kind::SyntaxKind;
use vstd::prelude::*;

verus! {

/// The first child of node `n` that has kind `kind`, where that child is a
/// node.
pub open spec fn spec_child_node(tree: &SyntaxTree, n: int, kind: SyntaxKind) -> Option<int> {
    match tree.spec_child_of_kind(n, kind) {
        Some(c) => if 0 <= c < tree.spec_len() && !tree.token_at(c) {
            Some(c)
        } else {
            None
        },
        None => None,
    }
}

/// The first child of node `n` that has kind `kind`, where that child is a
/// token.
pub open spec fn spec_child_token(tree: &SyntaxTree, n: int, kind: SyntaxKind) -> Option<int> {
    match tree.spec_child_of_kind(n, kind) {
        Some(c) => if 0 <= c < tree.spec_len() && tree.token_at(c) {
            Some(c)
        } else {
            None
        },
        None => None,
    }
}

/// The last child of node `n` that has kind `kind`, where that child is a
/// node.
pub open spec fn spec_last_child_node(tree: &SyntaxTree, n: int, kind: SyntaxKind) -> Option<int> {
    match tree.spec_last_child_of_kind(n, kind) {
        Some(c) => if 0 <= c < tree.spec_len() && !tree.token_at(c) {
            Some(c)
        } else {
            None
        },
        None => None,
    }
}

/// The attribute number `nth`, counting from 0, of the item `item`.
pub open spec fn spec_nth_attr(tree: &SyntaxTree, item: int, nth: int) -> Option<int> {
    match tree.spec_nth_child_of_kind(item, SyntaxKind::ATTR, nth) {
        Some(c) => if 0 <= c < tree.spec_len() && !tree.token_at(c) {
            Some(c)
        } else {
            None
        },
        None => None,
    }
}

/// The token tree with the arguments of the attribute `attr`.
pub open spec fn spec_attr_token_tree(tree: &SyntaxTree, attr: int) -> Option<int> {
    match spec_child_node(tree, attr, SyntaxKind::META) {
        Some(meta) => spec_child_node(tree, meta, SyntaxKind::TOKEN_TREE),
        None => None,
    }
}

/// The bracket that opens the token tree `tt`: its first child, where that
/// is an opening bracket.
pub open spec fn spec_left_delimiter(tree: &SyntaxTree, tt: int) -> Option<int> {
    let first = tt + 1;
    if tree.end_at(tt) > first && tree.token_at(first) && (tree.kind_at(first)
        == SyntaxKind::L_PAREN || tree.kind_at(first) == SyntaxKind::L_CURLY || tree.kind_at(first)
        == SyntaxKind::L_BRACK) {
        Some(tt + 1)
    } else {
        None
    }
}

/// The first child of `n` that has kind `kind`, where that child is a node.
pub fn child_node(tree: &SyntaxTree, n: SyntaxNode, kind: SyntaxKind) -> (r: Option<SyntaxNode>)
    requires
        tree.wf(),
        tree.has_node(n),
    ensures
        spec_child_node(tree, n.0 as int, kind) == match r {
            Some(c) => Some(c.0 as int),
            None => None,
        },
        r matches Some(c) ==> tree.has_node(c) && n.0 < c.0 < tree.end_at(n.0 as int)
            && tree.kind_at(c.0 as int) == kind,
{
    proof {
        tree.lemma_element(n.0 as int);
    }
    match tree.child_of_kind(n, kind) {
        Some(c) => if !tree.is_token(c) {
            Some(SyntaxNode(c))
        } else {
            None
        },
        None => None,
    }
}

/// The first child of `n` that has kind `kind`, where that child is a
/// token.
pub fn child_token(tree: &SyntaxTree, n: SyntaxNode, kind: SyntaxKind) -> (r: Option<SyntaxToken>)
    requires
        tree.wf(),
        tree.has_node(n),
    ensures
        spec_child_token(tree, n.0 as int, kind) == match r {
            Some(c) => Some(c.0 as int),
            None => None,
        },
        r matches Some(c) ==> tree.has_token(c) && n.0 < c.0 < tree.end_at(n.0 as int)
            && tree.kind_at(c.0 as int) == kind,
{
    proof {
        tree.lemma_element(n.0 as int);
    }
    match tree.child_of_kind(n, kind) {
        Some(c) => if tree.is_token(c) {
            Some(SyntaxToken(c))
        } else {
            None
        },
        None => None,
    }
}

/// The last child of `n` that has kind `kind`, where that child is a node.
pub fn last_child_node(tree: &SyntaxTree, n: SyntaxNode, kind: SyntaxKind) -> (r: Option<
    SyntaxNode,
>)
    requires
        tree.wf(),
        tree.has_node(n),
    ensures
        spec_last_child_node(tree, n.0 as int, kind) == match r {
            Some(c) => Some(c.0 as int),
            None => None,
        },
        r matches Some(c) ==> tree.has_node(c) && n.0 < c.0 < tree.end_at(n.0 as int)
            && tree.kind_at(c.0 as int) == kind,
{
    proof {
        tree.lemma_element(n.0 as int);
    }
    match tree.last_child_of_kind(n, kind) {
        Some(c) => if !tree.is_token(c) {
            Some(SyntaxNode(c))
        } else {
            None
        },
        None => None,
    }
}

/// The attribute number `nth`, counting from 0, of the item `item`.
pub fn nth_attr(tree: &SyntaxTree, item: SyntaxNode, nth: u32) -> (r: Option<SyntaxNode>)
    requires
        tree.wf(),
        tree.has_node(item),
    ensures
        spec_nth_attr(tree, item.0 as int, nth as int) == match r {
            Some(c) => Some(c.0 as int),
            None => None,
        },
        r matches Some(c) ==> tree.has_node(c),
{
    proof {
        tree.lemma_element(item.0 as int);
    }
    match tree.nth_child_of_kind(item, SyntaxKind::ATTR, nth as usize) {
        Some(c) => if !tree.is_token(c) {
            Some(SyntaxNode(c))
        } else {
            None
        },
        None => None,
    }
}

/// The token tree with the arguments of the attribute `attr`.
pub fn attr_token_tree(tree: &SyntaxTree, attr: SyntaxNode) -> (r: Option<SyntaxNode>)
    requires
        tree.wf(),
        tree.has_node(attr),
    ensures
        spec_attr_token_tree(tree, attr.0 as int) == match r {
            Some(c) => Some(c.0 as int),
            None => None,
        },
        r matches Some(c) ==> tree.has_node(c),
{
    match child_node(tree, attr, SyntaxKind::META) {
        Some(meta) => child_node(tree, meta, SyntaxKind::TOKEN_TREE),
        None => None,
    }
}

/// The bracket that opens the token tree `tt`.
pub fn left_delimiter_token(tree: &SyntaxTree, tt: SyntaxNode) -> (r: Option<SyntaxToken>)
    requires
        tree.wf(),
        tree.has_node(tt),
    ensures
        spec_left_delimiter(tree, tt.0 as int) == match r {
            Some(c) => Some(c.0 as int),
            None => None,
        },
        r matches Some(c) ==> tree.has_token(c),
{
    match tree.first_child(tt) {
        Some(c) => {
            if tree.is_token(c) && matches!(
                tree.kind(c),
                SyntaxKind::L_PAREN | SyntaxKind::L_CURLY | SyntaxKind::L_BRACK
            ) {
                Some(SyntaxToken(c))
            } else {
                None
            }
        },
        None => None,
    }
}

/// Whether nodes of kind `kind` are expressions.
pub open spec fn spec_is_expr(kind: SyntaxKind) -> bool {
    matches!(
        kind,
        SyntaxKind::ARRAY_EXPR | SyntaxKind::AWAIT_EXPR | SyntaxKind::BIN_EXPR |
            SyntaxKind::BLOCK_EXPR | SyntaxKind::BOX_EXPR | SyntaxKind::BREAK_EXPR |
            SyntaxKind::CALL_EXPR | SyntaxKind::CAST_EXPR | SyntaxKind::CLOSURE_EXPR |
            SyntaxKind::CONTINUE_EXPR | SyntaxKind::FIELD_EXPR | SyntaxKind::FOR_EXPR |
            SyntaxKind::IF_EXPR | SyntaxKind::INDEX_EXPR | SyntaxKind::LITERAL |
            SyntaxKind::LOOP_EXPR | SyntaxKind::MACRO_CALL | SyntaxKind::MACRO_STMTS |
            SyntaxKind::MATCH_EXPR | SyntaxKind::METHOD_CALL_EXPR | SyntaxKind::PAREN_EXPR |
            SyntaxKind::PATH_EXPR | SyntaxKind::PREFIX_EXPR | SyntaxKind::RANGE_EXPR |
            SyntaxKind::RECORD_EXPR | SyntaxKind::REF_EXPR | SyntaxKind::RETURN_EXPR |
            SyntaxKind::TRY_EXPR | SyntaxKind::TUPLE_EXPR | SyntaxKind::WHILE_EXPR |
            SyntaxKind::YIELD_EXPR
    )
}

#[verifier::when_used_as_spec(spec_is_expr)]
pub fn is_expr(kind: SyntaxKind) -> (r: bool)
    ensures
        r == spec_is_expr(kind),
{
    matches!(
        kind,
        SyntaxKind::ARRAY_EXPR | SyntaxKind::AWAIT_EXPR | SyntaxKind::BIN_EXPR |
            SyntaxKind::BLOCK_EXPR | SyntaxKind::BOX_EXPR | SyntaxKind::BREAK_EXPR |
            SyntaxKind::CALL_EXPR | SyntaxKind::CAST_EXPR | SyntaxKind::CLOSURE_EXPR |
            SyntaxKind::CONTINUE_EXPR | SyntaxKind::FIELD_EXPR | SyntaxKind::FOR_EXPR |
            SyntaxKind::IF_EXPR | SyntaxKind::INDEX_EXPR | SyntaxKind::LITERAL |
            SyntaxKind::LOOP_EXPR | SyntaxKind::MACRO_CALL | SyntaxKind::MACRO_STMTS |
            SyntaxKind::MATCH_EXPR | SyntaxKind::METHOD_CALL_EXPR | SyntaxKind::PAREN_EXPR |
            SyntaxKind::PATH_EXPR | SyntaxKind::PREFIX_EXPR | SyntaxKind::RANGE_EXPR |
            SyntaxKind::RECORD_EXPR | SyntaxKind::REF_EXPR | SyntaxKind::RETURN_EXPR |
            SyntaxKind::TRY_EXPR | SyntaxKind::TUPLE_EXPR | SyntaxKind::WHILE_EXPR |
            SyntaxKind::YIELD_EXPR
    )
}

/// Whether nodes of kind `kind` are patterns.
pub open spec fn spec_is_pat(kind: SyntaxKind) -> bool {
    matches!(
        kind,
        SyntaxKind::IDENT_PAT | SyntaxKind::BOX_PAT | SyntaxKind::REST_PAT |
            SyntaxKind::LITERAL_PAT | SyntaxKind::MACRO_PAT | SyntaxKind::OR_PAT |
            SyntaxKind::PAREN_PAT | SyntaxKind::PATH_PAT | SyntaxKind::WILDCARD_PAT |
            SyntaxKind::RANGE_PAT | SyntaxKind::RECORD_PAT | SyntaxKind::REF_PAT |
            SyntaxKind::SLICE_PAT | SyntaxKind::TUPLE_PAT | SyntaxKind::TUPLE_STRUCT_PAT |
            SyntaxKind::CONST_BLOCK_PAT
    )
}

#[verifier::when_used_as_spec(spec_is_pat)]
pub fn is_pat(kind: SyntaxKind) -> (r: bool)
    ensures
        r == spec_is_pat(kind),
{
    matches!(
        kind,
        SyntaxKind::IDENT_PAT | SyntaxKind::BOX_PAT | SyntaxKind::REST_PAT |
            SyntaxKind::LITERAL_PAT | SyntaxKind::MACRO_PAT | SyntaxKind::OR_PAT |
            SyntaxKind::PAREN_PAT | SyntaxKind::PATH_PAT | SyntaxKind::WILDCARD_PAT |
            SyntaxKind::RANGE_PAT | SyntaxKind::RECORD_PAT | SyntaxKind::REF_PAT |
            SyntaxKind::SLICE_PAT | SyntaxKind::TUPLE_PAT | SyntaxKind::TUPLE_STRUCT_PAT |
            SyntaxKind::CONST_BLOCK_PAT
    )
}

/// Whether nodes of kind `kind` are types.
pub open spec fn spec_is_type(kind: SyntaxKind) -> bool {
    matches!(
        kind,
        SyntaxKind::ARRAY_TYPE | SyntaxKind::DYN_TRAIT_TYPE | SyntaxKind::FN_PTR_TYPE |
            SyntaxKind::FOR_TYPE | SyntaxKind::IMPL_TRAIT_TYPE | SyntaxKind::INFER_TYPE |
            SyntaxKind::MACRO_TYPE | SyntaxKind::NEVER_TYPE | SyntaxKind::PAREN_TYPE |
            SyntaxKind::PATH_TYPE | SyntaxKind::PTR_TYPE | SyntaxKind::REF_TYPE |
            SyntaxKind::SLICE_TYPE | SyntaxKind::TUPLE_TYPE
    )
}

#[verifier::when_used_as_spec(spec_is_type)]
pub fn is_type(kind: SyntaxKind) -> (r: bool)
    ensures
        r == spec_is_type(kind),
{
    matches!(
        kind,
        SyntaxKind::ARRAY_TYPE | SyntaxKind::DYN_TRAIT_TYPE | SyntaxKind::FN_PTR_TYPE |
            SyntaxKind::FOR_TYPE | SyntaxKind::IMPL_TRAIT_TYPE | SyntaxKind::INFER_TYPE |
            SyntaxKind::MACRO_TYPE | SyntaxKind::NEVER_TYPE | SyntaxKind::PAREN_TYPE |
            SyntaxKind::PATH_TYPE | SyntaxKind::PTR_TYPE | SyntaxKind::REF_TYPE |
            SyntaxKind::SLICE_TYPE | SyntaxKind::TUPLE_TYPE
    )
}

/// Whether nodes of kind `kind` are arguments for generic parameters.
pub open spec fn spec_is_generic_arg(kind: SyntaxKind) -> bool {
    matches!(
        kind,
        SyntaxKind::TYPE_ARG | SyntaxKind::ASSOC_TYPE_ARG | SyntaxKind::LIFETIME_ARG |
            SyntaxKind::CONST_ARG
    )
}

#[verifier::when_used_as_spec(spec_is_generic_arg)]
pub fn is_generic_arg(kind: SyntaxKind) -> (r: bool)
    ensures
        r == spec_is_generic_arg(kind),
{
    matches!(
        kind,
        SyntaxKind::TYPE_ARG | SyntaxKind::ASSOC_TYPE_ARG | SyntaxKind::LIFETIME_ARG |
            SyntaxKind::CONST_ARG
    )
}

/// A class of nodes: the expressions, the patterns, or the types.
#[derive(Clone, Copy, Debug, PartialEq, Eq, Hash, Structural)]
pub enum NodeClass {
    Expr,
    Pat,
    Type,
}

/// Whether nodes of kind `kind` belong to the class `class`.
pub open spec fn spec_in_class(kind: SyntaxKind, class: NodeClass) -> bool {
    match class {
        NodeClass::Expr => spec_is_expr(kind),
        NodeClass::Pat => spec_is_pat(kind),
        NodeClass::Type => spec_is_type(kind),
    }
}

#[verifier::when_used_as_spec(spec_in_class)]
pub fn in_class(kind: SyntaxKind, class: NodeClass) -> (r: bool)
    ensures
        r == spec_in_class(kind, class),
{
    match class {
        NodeClass::Expr => is_expr(kind),
        NodeClass::Pat => is_pat(kind),
        NodeClass::Type => is_type(kind),
    }
}

/// The first child from position `c` on that is a node of the class
/// `class`.
pub open spec fn spec_in_class_from(tree: &SyntaxTree, c: int, end: int, class: NodeClass) -> Option<
    int,
>
    decreases end - c,
{
    if c >= end || c < 0 || tree.end_at(c) <= c || tree.end_at(c) > end {
        None
    } else if !tree.token_at(c) && spec_in_class(tree.kind_at(c), class) {
        Some(c)
    } else {
        spec_in_class_from(tree, tree.end_at(c), end, class)
    }
}

/// The first child of the node `n` that is a node of the class `class`.
pub open spec fn spec_child_in_class(tree: &SyntaxTree, n: int, class: NodeClass) -> Option<int> {
    spec_in_class_from(tree, n + 1, tree.end_at(n), class)
}

/// The first child of the node `n` that is a node of the class `class`.
pub fn child_in_class(tree: &SyntaxTree, n: SyntaxNode, class: NodeClass) -> (r: Option<SyntaxNode>)
    requires
        tree.wf(),
        tree.has_node(n),
    ensures
        spec_child_in_class(tree, n.0 as int, class) == match r {
            Some(c) => Some(c.0 as int),
            None => None,
        },
        r matches Some(c) ==> tree.has_node(c) && n.0 < c.0 < tree.end_at(n.0 as int)
            && spec_in_class(tree.kind_at(c.0 as int), class),
{
    let end = tree.subtree_end(n.0);
    let mut c = n.0 + 1;
    while c < end
        invariant
            tree.wf(),
            n.0 < c,
            end == tree.end_at(n.0 as int),
            end <= tree.spec_len(),
            spec_child_in_class(tree, n.0 as int, class) == spec_in_class_from(
                tree,
                c as int,
                end as int,
                class,
            ),
        decreases end - c,
    {
        let next = tree.subtree_end(c);
        if next > end {
            return None;
        }
        if !tree.is_token(c) && in_class(tree.kind(c), class) {
            return Some(SyntaxNode(c));
        }
        c = next;
    }
    None
}

/// The child number `nth`, counting from 0, among the children of the node
/// `n` that have kind `kind`, where that child is a node.
pub open spec fn spec_nth_child_node(tree: &SyntaxTree, n: int, kind: SyntaxKind, nth: int) -> Option<
    int,
> {
    match tree.spec_nth_child_of_kind(n, kind, nth) {
        Some(c) => if 0 <= c < tree.spec_len() && !tree.token_at(c) {
            Some(c)
        } else {
            None
        },
        None => None,
    }
}

/// The child number `nth`, counting from 0, among the children of `n` that
/// have kind `kind`, where that child is a node.
pub fn nth_child_node(tree: &SyntaxTree, n: SyntaxNode, kind: SyntaxKind, nth: usize) -> (r: Option<
    SyntaxNode,
>)
    requires
        tree.wf(),
        tree.has_node(n),
    ensures
        spec_nth_child_node(tree, n.0 as int, kind, nth as int) == match r {
            Some(c) => Some(c.0 as int),
            None => None,
        },
        r matches Some(c) ==> tree.has_node(c) && n.0 < c.0 < tree.end_at(n.0 as int)
            && tree.kind_at(c.0 as int) == kind,
{
    proof {
        tree.lemma_element(n.0 as int);
    }
    match tree.nth_child_of_kind(n, kind, nth) {
        Some(c) => if !tree.is_token(c) {
            Some(SyntaxNode(c))
        } else {
            None
        },
        None => None,
    }
}

} // verus!
