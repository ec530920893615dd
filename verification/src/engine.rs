//! The first step of an expansion: the input of the macro, put together
//! from the syntax of the call. What expands the input, and what parses the
//! output, is not part of this crate.

use crate::ast::{child_node, nth_attr, spec_child_node, spec_nth_attr};
use crate::collections::{positions, positions_insert, positions_new};
use crate::convert::{converted_map, converted_tree};
use crate::db::{is_item, spec_is_item, AstDatabase};
use crate::expansion::spec_arg;
use crate::ids::MacroCallId;
use crate::macro_call::{MacroCallKind, MacroCallKindView};
use crate::syntax::{SyntaxNode, SyntaxTree};
use crate::syntax_kind::SyntaxKind;
use crate::syntax_bridge::{node_src_tokens, syntax_node_to_token_tree_censored};
use crate::token_map::{Entries, TokenMap};
use crate::tt::{lemma_subtree_view, Subtree, SubtreeView};
use rustc_hash::FxHashSet;
use vstd::prelude::*;

verus! {

/// The name of the attribute `attr` where its path is a single name: the
/// text of the first token of the only segment of the path.
pub open spec fn spec_simple_name(tree: &SyntaxTree, attr: int) -> Option<Seq<char>> {
    match spec_child_node(tree, attr, SyntaxKind::META) {
        None => None,
        Some(meta) => match spec_child_node(tree, meta, SyntaxKind::PATH) {
            None => None,
            Some(path) => match (
                spec_child_node(tree, path, SyntaxKind::PATH_SEGMENT),
                spec_child_node(tree, path, SyntaxKind::PATH),
            ) {
                (Some(segment), None) => match tree.spec_first_token(segment) {
                    Some(t) => Some(tree.text_at(t)),
                    None => None,
                },
                _ => None,
            },
        },
    }
}

/// The name of the attribute `attr` where its path is a single name.
fn simple_name<'a>(tree: &'a SyntaxTree, attr: SyntaxNode) -> (r: Option<&'a String>)
    requires
        tree.wf(),
        tree.has_node(attr),
    ensures
        spec_simple_name(tree, attr.0 as int) == match r {
            Some(name) => Some(name@),
            None => None,
        },
{
    let meta = match child_node(tree, attr, SyntaxKind::META) {
        Some(m) => m,
        None => {
            return None;
        },
    };
    let path = match child_node(tree, meta, SyntaxKind::PATH) {
        Some(p) => p,
        None => {
            return None;
        },
    };
    let segment = child_node(tree, path, SyntaxKind::PATH_SEGMENT);
    let qualifier = child_node(tree, path, SyntaxKind::PATH);
    match (segment, qualifier) {
        (Some(segment), None) => match tree.first_token(segment) {
            Some(t) => Some(tree.token_text(t)),
            None => None,
        },
        _ => None,
    }
}

/// The `derive` attributes among the first `count` attributes of the item
/// `item`.
pub open spec fn spec_derive_attrs(tree: &SyntaxTree, item: int, count: int) -> Set<usize>
    decreases count,
{
    if count <= 0 {
        Set::empty()
    } else {
        let before = spec_derive_attrs(tree, item, count - 1);
        match spec_nth_attr(tree, item, count - 1) {
            Some(attr) => if spec_simple_name(tree, attr) == Some("derive"@) {
                before.insert(attr as usize)
            } else {
                before
            },
            None => before,
        }
    }
}

/// The nodes that are left out when the node `node` becomes the input of
/// the macro call `kind`: none for a function-like call; for a derive, the
/// `derive` attributes up to the one that made the call; for an attribute
/// macro, the attribute that made the call. None where `node` is no item.
pub open spec fn spec_censor(tree: &SyntaxTree, kind: MacroCallKindView, node: int) -> Set<usize> {
    match kind {
        MacroCallKindView::FnLike { .. } => Set::empty(),
        MacroCallKindView::Derive { derive_attr_index, .. } => if spec_is_item(tree.kind_at(node)) {
            spec_derive_attrs(tree, node, derive_attr_index + 1)
        } else {
            Set::empty()
        },
        MacroCallKindView::Attr { invoc_attr_index, .. } => if spec_is_item(tree.kind_at(node)) {
            match spec_nth_attr(tree, node, invoc_attr_index as int) {
                Some(attr) => Set::empty().insert(attr as usize),
                None => Set::empty(),
            }
        } else {
            Set::empty()
        },
    }
}

/// The nodes that are left out when the node `node` becomes the input of
/// the macro call `kind`.
pub fn censor_for_macro_input(tree: &SyntaxTree, kind: &MacroCallKind, node: SyntaxNode) -> (r:
    FxHashSet<usize>)
    requires
        tree.wf(),
        tree.has_node(node),
    ensures
        positions(r) == spec_censor(tree, kind@, node.0 as int),
{
    let mut censor = positions_new();
    match kind {
        MacroCallKind::FnLike { .. } => {},
        MacroCallKind::Derive { derive_attr_index, .. } => {
            if is_item(tree.kind(node.0)) {
                let mut i: u32 = 0;
                loop
                    invariant_except_break
                        i <= *derive_attr_index,
                        positions(censor) == spec_derive_attrs(tree, node.0 as int, i as int),
                    invariant
                        tree.wf(),
                        tree.has_node(node),
                    ensures
                        positions(censor) == spec_derive_attrs(
                            tree,
                            node.0 as int,
                            derive_attr_index + 1,
                        ),
                    decreases derive_attr_index - i,
                {
                    match nth_attr(tree, node, i) {
                        Some(attr) => {
                            let is_derive = match simple_name(tree, attr) {
                                Some(name) => {
                                    let derive = String::from_str("derive");
                                    *name == derive
                                },
                                None => false,
                            };
                            if is_derive {
                                positions_insert(&mut censor, attr.0);
                            }
                        },
                        None => {},
                    }
                    if i == *derive_attr_index {
                        break ;
                    }
                    i += 1;
                }
            }
        },
        MacroCallKind::Attr { invoc_attr_index, .. } => {
            if is_item(tree.kind(node.0)) {
                match nth_attr(tree, node, *invoc_attr_index) {
                    Some(attr) => {
                        positions_insert(&mut censor, attr.0);
                    },
                    None => {},
                }
            }
        },
    }
    censor
}

/// The last child of the node `n`.
pub open spec fn spec_last_child_from(tree: &SyntaxTree, c: int, end: int) -> int
    decreases end - c,
{
    if c >= end || tree.end_at(c) <= c || tree.end_at(c) >= end {
        c
    } else {
        spec_last_child_from(tree, tree.end_at(c), end)
    }
}

/// Whether the node `arg` begins with an opening bracket and ends with the
/// closing bracket of the same kind.
pub open spec fn spec_well_formed_tt(tree: &SyntaxTree, arg: int) -> bool {
    if tree.end_at(arg) <= arg + 1 {
        false
    } else {
        let first = tree.kind_at(arg + 1);
        let last = tree.kind_at(spec_last_child_from(tree, arg + 1, tree.end_at(arg)));
        (first == SyntaxKind::L_PAREN && last == SyntaxKind::R_PAREN) || (first
            == SyntaxKind::L_BRACK && last == SyntaxKind::R_BRACK) || (first == SyntaxKind::L_CURLY
            && last == SyntaxKind::R_CURLY)
    }
}

/// Whether the node `arg` begins with an opening bracket and ends with the
/// closing bracket of the same kind.
fn well_formed_tt(tree: &SyntaxTree, arg: SyntaxNode) -> (r: bool)
    requires
        tree.wf(),
        tree.has_node(arg),
    ensures
        r == spec_well_formed_tt(tree, arg.0 as int),
{
    let end = tree.subtree_end(arg.0);
    if end <= arg.0 + 1 {
        return false;
    }
    let first = tree.kind(arg.0 + 1);
    let mut c = arg.0 + 1;
    loop
        invariant
            tree.wf(),
            arg.0 < c < end <= tree.spec_len(),
            spec_last_child_from(tree, arg.0 + 1, end as int) == spec_last_child_from(
                tree,
                c as int,
                end as int,
            ),
        ensures
            arg.0 < c < end,
            spec_last_child_from(tree, arg.0 + 1, end as int) == c,
        decreases end - c,
    {
        let next = tree.subtree_end(c);
        if next >= end {
            break ;
        }
        c = next;
    }
    let last = tree.kind(c);
    (first == SyntaxKind::L_PAREN && last == SyntaxKind::R_PAREN) || (first == SyntaxKind::L_BRACK
        && last == SyntaxKind::R_BRACK) || (first == SyntaxKind::L_CURLY && last
        == SyntaxKind::R_CURLY)
}

/// The input of the macro call `id`: the argument of the call as a token
/// tree, without what is left out, and its token map. A function-like call
/// has none where its argument does not stand between matching brackets.
/// A procedural macro takes its input without the outer delimiters.
pub open spec fn spec_assemble(db: &AstDatabase, id: MacroCallId) -> Option<(SubtreeView, Entries)> {
    let loc = db.spec_loc(id)@;
    match spec_arg(db, id) {
        None => None,
        Some(arg) => {
            let tree = db.spec_tree(arg.file_id);
            if loc.kind is FnLike && !spec_well_formed_tt(&tree, arg.value.0 as int) {
                None
            } else {
                let tokens = node_src_tokens(
                    &tree,
                    arg.value,
                    spec_censor(&tree, loc.kind, arg.value.0 as int),
                );
                let tt = converted_tree(tokens);
                Some(
                    (
                        if loc.def.spec_is_proc_macro() {
                            SubtreeView { delimiter: None, ..tt }
                        } else {
                            tt
                        },
                        converted_map(tokens),
                    ),
                )
            }
        },
    }
}

/// Puts the input of the macro call `id` together.
pub fn assemble_macro_arg(db: &AstDatabase, id: MacroCallId) -> (r: Option<(Subtree, TokenMap)>)
    requires
        db.wf(),
        db.has_call(id),
    ensures
        match r {
            Some(pair) => spec_assemble(db, id) == Some((pair.0@, pair.1@)),
            None => spec_assemble(db, id).is_none(),
        },
{
    let loc = db.lookup_intern_macro(id);
    proof {
        db.lemma_call(id);
    }
    let arg = match loc.kind.arg(db) {
        Some(arg) => arg,
        None => {
            return None;
        },
    };
    let tree = db.parse_or_expand(arg.file_id).unwrap();
    let fn_like = match loc.kind {
        MacroCallKind::FnLike { .. } => true,
        _ => false,
    };
    if fn_like && !well_formed_tt(tree, arg.value) {
        return None;
    }
    let censor = censor_for_macro_input(tree, &loc.kind, arg.value);
    let (tt, map) = syntax_node_to_token_tree_censored(tree, arg.value, &censor);
    if loc.def.is_proc_macro() {
        let Subtree { delimiter, token_trees } = tt;
        let bare = Subtree { delimiter: None, token_trees };
        proof {
            lemma_subtree_view(&tt);
            lemma_subtree_view(&bare);
        }
        Some((bare, map))
    } else {
        Some((tt, map))
    }
}

} // verus!
