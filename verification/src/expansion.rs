//! What an expansion has to do with the call that made it: the way of a
//! token down from the call into the expansion, and up again.

use crate::ast::{
    attr_token_tree, child_node, last_child_node, left_delimiter_token, nth_attr,
    spec_attr_token_tree, spec_child_node, spec_last_child_node, spec_left_delimiter,
    spec_nth_attr,
};
use crate::db::{AstDatabase, TokenExpander};
use crate::ids::{HirFileId, HirFileIdRepr, InFile, MacroCallId, Origin};
use crate::macro_call::{MacroCallKind, MacroCallKindView, MacroDefKind};
use crate::syntax::{SyntaxElement, SyntaxNode, SyntaxToken, SyntaxTree};
use crate::syntax_kind::SyntaxKind;
use crate::text::TextRange;
use crate::token_map::{first_covering, ranges_of, Entries, Shift, TokenMap};
use crate::tt::{Subtree, TokenId};
use std::sync::Arc;
use vstd::prelude::*;

verus! {

broadcast use crate::text::TextRange::lemma_spec_new;

/// What is known of one expansion: the root of the expanded tree; the node
/// that was the argument of the call; the token tree of the macro
/// definition or of the attribute, where there is one; what expanded the
/// call; the argument as a token tree with its token map; the offset that
/// keeps the ids of an attribute's arguments apart from those of the item;
/// and the token map of the expansion.
pub struct ExpansionInfo {
    pub expanded: InFile<SyntaxNode>,
    pub arg: InFile<SyntaxNode>,
    pub attr_input_or_mac_def: Option<InFile<SyntaxNode>>,
    pub macro_def: Arc<TokenExpander>,
    pub macro_arg: Arc<(Subtree, TokenMap)>,
    pub macro_arg_shift: Shift,
    pub exp_map: Arc<TokenMap>,
}

/// The node `n` of the file `file`, where there is one.
pub open spec fn in_file(file: HirFileId, n: Option<int>) -> Option<InFile<SyntaxNode>> {
    match n {
        Some(n) => Some(InFile { file_id: file, value: SyntaxNode(n as usize) }),
        None => None,
    }
}

/// The node with the argument of the call `id`: the token tree of a
/// function-like call, the item that carries the attribute otherwise.
pub open spec fn spec_arg(db: &AstDatabase, id: MacroCallId) -> Option<InFile<SyntaxNode>> {
    let kind = db.spec_loc(id)@.kind;
    let node = db.spec_to_node(kind.ast_id());
    match kind {
        MacroCallKindView::FnLike { .. } => in_file(
            node.file_id,
            spec_child_node(
                &db.spec_tree(node.file_id),
                node.value.0 as int,
                SyntaxKind::TOKEN_TREE,
            ),
        ),
        _ => Some(node),
    }
}

/// The token tree that defines the macro of the call `id`: that of a
/// `macro_rules` definition, or the body of a `macro` definition. There is
/// none for a procedural macro, nor where the definition is not at hand.
pub open spec fn spec_def_site(db: &AstDatabase, id: MacroCallId) -> Option<InFile<SyntaxNode>> {
    let def = db.spec_loc(id)@.def;
    let def_id = def.spec_ast_id();
    if def.spec_is_proc_macro() || !db.resolves(def_id) {
        None
    } else {
        let node = db.spec_to_node(def_id);
        let tree = db.spec_tree(node.file_id);
        let kind = tree.kind_at(node.value.0 as int);
        if kind == SyntaxKind::MACRO_RULES {
            in_file(node.file_id, spec_child_node(&tree, node.value.0 as int, SyntaxKind::TOKEN_TREE))
        } else if kind == SyntaxKind::MACRO_DEF {
            in_file(
                node.file_id,
                spec_last_child_node(&tree, node.value.0 as int, SyntaxKind::TOKEN_TREE),
            )
        } else {
            None
        }
    }
}

/// The token tree with the arguments of the attribute that the call `id`
/// is, where it is the call of an attribute macro.
pub open spec fn spec_attr_input(db: &AstDatabase, id: MacroCallId) -> Option<InFile<SyntaxNode>> {
    match db.spec_loc(id)@.kind {
        MacroCallKindView::Attr { ast_id, invoc_attr_index, .. } => {
            let node = db.spec_to_node(ast_id);
            let tree = db.spec_tree(node.file_id);
            match spec_nth_attr(&tree, node.value.0 as int, invoc_attr_index as int) {
                Some(attr) => in_file(node.file_id, spec_attr_token_tree(&tree, attr)),
                None => None,
            }
        },
        _ => None,
    }
}

/// What is known of the expansion that made the file `file`: nothing for a
/// file of the user, and nothing as long as the call has no argument, no
/// expander, or no expansion.
pub open spec fn spec_expansion_info(db: &AstDatabase, file: HirFileId) -> Option<ExpansionInfo> {
    match file.0 {
        HirFileIdRepr::FileId(_) => None,
        HirFileIdRepr::MacroFile(m) => {
            let id = m.macro_call_id;
            if spec_arg(db, id).is_some() && db.spec_macro_def(id).is_some() && db.has_tree(file)
                && db.spec_exp_map(id).is_some() && db.spec_macro_arg(id).is_some() {
                Some(
                    ExpansionInfo {
                        expanded: InFile { file_id: file, value: SyntaxNode(0) },
                        arg: spec_arg(db, id).unwrap(),
                        attr_input_or_mac_def: if spec_def_site(db, id).is_some() {
                            spec_def_site(db, id)
                        } else {
                            spec_attr_input(db, id)
                        },
                        macro_def: db.spec_macro_def(id).unwrap(),
                        macro_arg: db.spec_macro_arg(id).unwrap(),
                        macro_arg_shift: Shift::spec_new((*db.spec_macro_arg(id).unwrap()).0@),
                        exp_map: db.spec_exp_map(id).unwrap(),
                    },
                )
            } else {
                None
            }
        },
    }
}

impl ExpansionInfo {
    /// The nodes that the record names are nodes of syntax trees that `db`
    /// holds; the expanded tree is that of a macro call, and the argument
    /// stands in the file of that call.
    pub open spec fn wf(&self, db: &AstDatabase) -> bool {
        &&& db.wf()
        &&& self.expanded.file_id.spec_is_macro()
        &&& db.knows(self.expanded.file_id)
        &&& db.has_tree(self.expanded.file_id)
        &&& self.expanded.value == SyntaxNode(0)
        &&& db.has_tree(self.arg.file_id)
        &&& db.spec_tree(self.arg.file_id).has_node(self.arg.value)
        &&& self.arg.file_id == db.parent_file(self.expanded.file_id)
        &&& self.attr_input_or_mac_def matches Some(tt) ==> db.has_tree(tt.file_id) && db.spec_tree(
            tt.file_id,
        ).has_node(tt.value)
    }
}

impl MacroCallKind {
    /// The node with the argument of the call.
    pub fn arg(&self, db: &AstDatabase) -> (r: Option<InFile<SyntaxNode>>)
        requires
            db.wf(),
            db.resolves(self@.ast_id()),
        ensures
            r == match self@ {
                MacroCallKindView::FnLike { .. } => in_file(
                    self@.ast_id().file_id,
                    spec_child_node(
                        &db.spec_tree(self@.ast_id().file_id),
                        db.spec_to_node(self@.ast_id()).value.0 as int,
                        SyntaxKind::TOKEN_TREE,
                    ),
                ),
                _ => Some(db.spec_to_node(self@.ast_id())),
            },
            r matches Some(node) ==> node.file_id == self@.ast_id().file_id && db.spec_tree(
                node.file_id,
            ).has_node(node.value),
    {
        let node = db.to_node(self.ast_id());
        match self {
            MacroCallKind::FnLike { .. } => {
                let tree = db.parse_or_expand(node.file_id).unwrap();
                match child_node(tree, node.value, SyntaxKind::TOKEN_TREE) {
                    Some(tt) => Some(InFile { file_id: node.file_id, value: tt }),
                    None => None,
                }
            },
            _ => Some(node),
        }
    }
}

/// The token tree that defines the macro of the call `id`.
pub fn def_site(db: &AstDatabase, id: MacroCallId) -> (r: Option<InFile<SyntaxNode>>)
    requires
        db.wf(),
        db.has_call(id),
    ensures
        r == spec_def_site(db, id),
        r matches Some(tt) ==> db.has_tree(tt.file_id) && db.spec_tree(tt.file_id).has_node(
            tt.value,
        ),
{
    let loc = db.lookup_intern_macro(id);
    if loc.def.is_proc_macro() {
        return None;
    }
    let def_id = match loc.def.kind {
        MacroDefKind::ProcMacro(_, _, d) => d,
        MacroDefKind::Declarative(d) => d,
        MacroDefKind::BuiltIn(_, d) => d,
        MacroDefKind::BuiltInAttr(_, d) => d,
        MacroDefKind::BuiltInDerive(_, d) => d,
        MacroDefKind::BuiltInEager(_, d) => d,
    };
    let tree = match db.parse_or_expand(def_id.file_id) {
        Some(tree) => tree,
        None => {
            return None;
        },
    };
    let map = db.ast_id_map(def_id.file_id).unwrap();
    if def_id.value.raw as usize >= map.len() {
        return None;
    }
    let node = db.to_node(def_id);
    let kind = tree.kind(node.value.0);
    let found = if kind == SyntaxKind::MACRO_RULES {
        child_node(tree, node.value, SyntaxKind::TOKEN_TREE)
    } else if kind == SyntaxKind::MACRO_DEF {
        last_child_node(tree, node.value, SyntaxKind::TOKEN_TREE)
    } else {
        None
    };
    match found {
        Some(tt) => Some(InFile { file_id: node.file_id, value: tt }),
        None => None,
    }
}

/// The token tree with the arguments of the attribute that the call `id`
/// is.
fn attr_input(db: &AstDatabase, id: MacroCallId) -> (r: Option<InFile<SyntaxNode>>)
    requires
        db.wf(),
        db.has_call(id),
    ensures
        r == spec_attr_input(db, id),
        r matches Some(tt) ==> db.has_tree(tt.file_id) && db.spec_tree(tt.file_id).has_node(
            tt.value,
        ),
{
    let loc = db.lookup_intern_macro(id);
    proof {
        db.lemma_call(id);
    }
    match &loc.kind {
        MacroCallKind::Attr { ast_id, invoc_attr_index, .. } => {
            let node = db.to_node(*ast_id);
            let tree = db.parse_or_expand(node.file_id).unwrap();
            match nth_attr(tree, node.value, *invoc_attr_index) {
                Some(attr) => match attr_token_tree(tree, attr) {
                    Some(tt) => Some(InFile { file_id: node.file_id, value: tt }),
                    None => None,
                },
                None => None,
            }
        },
        _ => None,
    }
}

impl HirFileId {
    /// What is known of the expansion that made this file.
    pub fn expansion_info(self, db: &AstDatabase) -> (r: Option<ExpansionInfo>)
        requires
            db.wf(),
            db.knows(self),
        ensures
            r == spec_expansion_info(db, self),
            r matches Some(info) ==> info.wf(db) && info.def_at_hand(db) && info.expanded.file_id
                == self,
    {
        match self.0 {
            HirFileIdRepr::FileId(_) => None,
            HirFileIdRepr::MacroFile(macro_file) => {
                let id = macro_file.macro_call_id;
                let loc = db.lookup_intern_macro(id);
                proof {
                    db.lemma_call(id);
                    db.lemma_parent(self);
                }
                let arg_tt = match loc.kind.arg(db) {
                    Some(arg) => arg,
                    None => {
                        return None;
                    },
                };
                let def = def_site(db, id);
                let attr_input_or_mac_def = match def {
                    Some(d) => Some(d),
                    None => attr_input(db, id),
                };
                let macro_def = match db.macro_def(id) {
                    Some(def) => def,
                    None => {
                        return None;
                    },
                };
                let exp_map = match db.parse_macro_expansion(macro_file) {
                    Some(pair) => pair.1,
                    None => {
                        return None;
                    },
                };
                let macro_arg = match db.macro_arg(id) {
                    Some(arg) => arg,
                    None => {
                        return None;
                    },
                };
                let macro_arg_shift = Shift::new(&(*macro_arg).0);
                proof {
                    db.lemma_tree(self);
                    if crate::db::is_declarative(db.spec_macro_def(id)) {
                        db.lemma_declarative(id);
                    }
                }
                Some(
                    ExpansionInfo {
                        expanded: InFile { file_id: self, value: SyntaxNode(0) },
                        arg: arg_tt,
                        attr_input_or_mac_def,
                        macro_arg_shift,
                        macro_arg,
                        macro_def,
                        exp_map,
                    },
                )
            },
        }
    }
}

impl ExpansionInfo {
    /// The node of the macro call: the parent of the argument.
    pub fn call_node(&self, db: &AstDatabase) -> (r: Option<InFile<SyntaxNode>>)
        requires
            self.wf(db),
        ensures
            r == if self.arg.value.0 == 0 {
                None
            } else {
                Some(
                    InFile {
                        file_id: self.arg.file_id,
                        value: SyntaxNode(
                            db.spec_tree(self.arg.file_id).parent_at(self.arg.value.0 as int) as usize,
                        ),
                    },
                )
            },
            r matches Some(node) ==> db.spec_tree(node.file_id).has_node(node.value),
    {
        let tree = db.parse_or_expand(self.arg.file_id).unwrap();
        match tree.parent(self.arg.value.0) {
            Some(p) => Some(InFile { file_id: self.arg.file_id, value: p }),
            None => None,
        }
    }
}

/// The token that covers `range` in the node `node` of `tree`, where it is
/// a token that covers it.
pub open spec fn spec_token_at_range(tree: &SyntaxTree, node: int, range: TextRange) -> Option<int> {
    let e = tree.covering_from(node, range);
    if 0 <= e < tree.spec_len() && tree.token_at(e) {
        Some(e)
    } else {
        None
    }
}

/// The tokens of the node `node` of `tree` that cover the first `n` of
/// `ranges`, one for each range that a token covers.
pub open spec fn spec_tokens_at_ranges(
    tree: &SyntaxTree,
    file: HirFileId,
    node: int,
    ranges: Seq<TextRange>,
    n: int,
) -> Seq<InFile<SyntaxToken>>
    decreases n,
{
    if n <= 0 || n > ranges.len() {
        Seq::empty()
    } else {
        let before = spec_tokens_at_ranges(tree, file, node, ranges, n - 1);
        match spec_token_at_range(tree, node, ranges[n - 1]) {
            Some(t) => before.push(InFile { file_id: file, value: SyntaxToken(t as usize) }),
            None => before,
        }
    }
}

/// What came of looking for the id of a token among the arguments of an
/// attribute: the search makes the mapping fail, or the token is none of
/// the attribute, or it has the id.
pub enum AttrLookup {
    Fail,
    NotInAttr,
    Found(TokenId),
}

impl ExpansionInfo {
    /// The id, moved by the offset of this expansion, of the token `token`
    /// among the arguments of the attribute that the call is, where `item`
    /// is the item with the attribute. A token outside those arguments is
    /// none of the attribute; the mapping fails where the attribute or its
    /// opening bracket is not found, or the token has no id.
    pub open spec fn spec_attr_lookup(
        &self,
        db: &AstDatabase,
        item: Option<SyntaxNode>,
        token: InFile<SyntaxToken>,
    ) -> AttrLookup {
        let tree = db.spec_tree(self.arg.file_id);
        match (item, self.expanded.file_id.0) {
            (None, _) => AttrLookup::NotInAttr,
            (Some(_), HirFileIdRepr::FileId(_)) => AttrLookup::Fail,
            (Some(item), HirFileIdRepr::MacroFile(m)) => match db.spec_loc(m.macro_call_id)@.kind {
                MacroCallKindView::Attr { attr_args, invoc_attr_index, .. } => match spec_nth_attr(
                    &tree,
                    item.0 as int,
                    invoc_attr_index as int,
                ) {
                    None => AttrLookup::Fail,
                    Some(attr) => match spec_attr_token_tree(&tree, attr) {
                        None => AttrLookup::NotInAttr,
                        Some(tt) => if !tree.spec_range(tt).spec_contains_range(
                            tree.spec_range(token.value.0 as int),
                        ) {
                            AttrLookup::NotInAttr
                        } else {
                            match spec_left_delimiter(&tree, tt) {
                                None => AttrLookup::Fail,
                                Some(open) => match tree.spec_range(
                                    token.value.0 as int,
                                ).spec_checked_sub(tree.range_start(open)) {
                                    None => AttrLookup::Fail,
                                    Some(range) => match first_covering(attr_args.1, range, 0) {
                                        None => AttrLookup::Fail,
                                        Some(id) => if id != TokenId::spec_unspecified() && id.0
                                            + self.macro_arg_shift.0 > u32::MAX {
                                            AttrLookup::Fail
                                        } else {
                                            AttrLookup::Found(self.macro_arg_shift.spec_shift(id))
                                        },
                                    },
                                },
                            }
                        },
                    },
                },
                _ => AttrLookup::NotInAttr,
            },
        }
    }

    /// The id that the token `token` of the call has in the expansion.
    pub open spec fn spec_down_id(
        &self,
        db: &AstDatabase,
        item: Option<SyntaxNode>,
        token: InFile<SyntaxToken>,
    ) -> Option<TokenId> {
        let tree = db.spec_tree(self.arg.file_id);
        match self.spec_attr_lookup(db, item, token) {
            AttrLookup::Fail => None,
            AttrLookup::Found(id) => Some(id),
            AttrLookup::NotInAttr => match tree.spec_range(token.value.0 as int).spec_checked_sub(
                tree.range_start(self.arg.value.0 as int),
            ) {
                None => None,
                Some(range) => match first_covering((*self.macro_arg).1@, range, 0) {
                    None => None,
                    Some(id) => (*self.macro_def).spec_map_id_down(id),
                },
            },
        }
    }

    /// The tokens of the expansion that the token `token` of the call
    /// became: those that carry its id and are of its kind.
    pub open spec fn spec_map_token_down(
        &self,
        db: &AstDatabase,
        item: Option<SyntaxNode>,
        token: InFile<SyntaxToken>,
    ) -> Option<Seq<InFile<SyntaxToken>>> {
        match self.spec_down_id(db, item, token) {
            None => None,
            Some(id) => {
                let ranges = ranges_of(
                    (*self.exp_map)@,
                    id,
                    db.spec_tree(self.arg.file_id).kind_at(token.value.0 as int),
                    (*self.exp_map)@.len() as int,
                );
                Some(
                    spec_tokens_at_ranges(
                        &db.spec_tree(self.expanded.file_id),
                        self.expanded.file_id,
                        self.expanded.value.0 as int,
                        ranges,
                        ranges.len() as int,
                    ),
                )
            },
        }
    }

    /// The token map to look the id of a token of the expansion up in, the
    /// node that the ranges of that map are relative to, and the id to look
    /// up. For the call of an attribute macro, an id that was moved by the
    /// offset belongs to the arguments of the attribute, another one to the
    /// item. For another call, a token from the call belongs to the
    /// argument, one from the definition to the definition of a declarative
    /// macro.
    pub open spec fn spec_up_site(&self, db: &AstDatabase, token_id: TokenId) -> Option<
        (Entries, InFile<SyntaxNode>, TokenId),
    > {
        let (up, origin) = (*self.macro_def).spec_map_id_up(token_id);
        match self.expanded.file_id.0 {
            HirFileIdRepr::FileId(_) => None,
            HirFileIdRepr::MacroFile(m) => match db.spec_loc(m.macro_call_id)@.kind {
                MacroCallKindView::Attr { attr_args, .. } => match self.macro_arg_shift.spec_unshift(
                    up,
                ) {
                    Some(unshifted) => match self.attr_input_or_mac_def {
                        Some(tt) => Some((attr_args.1, tt, unshifted)),
                        None => None,
                    },
                    None => Some(((*self.macro_arg).1@, self.arg, up)),
                },
                _ => match origin {
                    Origin::Call => Some(((*self.macro_arg).1@, self.arg, up)),
                    Origin::Def => match (*self.macro_def, self.attr_input_or_mac_def) {
                        (
                            TokenExpander::DeclarativeMacro { def_site_token_map, .. },
                            Some(tt),
                        ) => Some((def_site_token_map@, tt, up)),
                        _ => None,
                    },
                },
            },
        }
    }

    /// The token that the token `token` of the expansion came from, and
    /// whether that is a token of the call or of the definition.
    pub open spec fn spec_map_token_up(&self, db: &AstDatabase, token: InFile<SyntaxToken>) -> Option<
        (InFile<SyntaxToken>, Origin),
    > {
        let exp_tree = db.spec_tree(self.expanded.file_id);
        match first_covering((*self.exp_map)@, exp_tree.spec_range(token.value.0 as int), 0) {
            None => None,
            Some(token_id) => match self.spec_up_site(db, token_id) {
                None => None,
                Some((map, tt, id)) => {
                    let ranges = ranges_of(
                        map,
                        id,
                        exp_tree.kind_at(token.value.0 as int),
                        map.len() as int,
                    );
                    let tree = db.spec_tree(tt.file_id);
                    if ranges.len() == 0 {
                        None
                    } else {
                        match ranges[0].spec_checked_add(tree.range_start(tt.value.0 as int)) {
                            None => None,
                            Some(range) => match spec_token_at_range(&tree, tt.value.0 as int, range) {
                                Some(t) => Some(
                                    (
                                        InFile { file_id: tt.file_id, value: SyntaxToken(t as usize) },
                                        (*self.macro_def).spec_map_id_up(token_id).1,
                                    ),
                                ),
                                None => None,
                            },
                        }
                    }
                },
            },
        }
    }

    /// Whether the definition of the macro is at hand where it may be asked
    /// for: a declarative macro that is not called as an attribute has the
    /// token tree of its definition.
    pub open spec fn def_at_hand(&self, db: &AstDatabase) -> bool {
        *self.macro_def is DeclarativeMacro && !self.of_attr(db)
            ==> self.attr_input_or_mac_def.is_some()
    }

    /// Whether the token `token` of the expansion came from the definition
    /// of the macro while that definition is not at hand: there is then
    /// nowhere to look the token up.
    pub open spec fn spec_def_missing(&self, db: &AstDatabase, token: InFile<SyntaxToken>) -> bool {
        match first_covering(
            (*self.exp_map)@,
            db.spec_tree(self.expanded.file_id).spec_range(token.value.0 as int),
            0,
        ) {
            None => false,
            Some(id) => !self.of_attr(db) && (*self.macro_def).spec_map_id_up(id).1 == Origin::Def
                && !(*self.macro_def is DeclarativeMacro && self.attr_input_or_mac_def.is_some()),
        }
    }

    /// Where the definition of the macro is at hand, no token misses it.
    pub proof fn lemma_def_at_hand(&self, db: &AstDatabase, token: InFile<SyntaxToken>)
        requires
            self.def_at_hand(db),
        ensures
            !self.spec_def_missing(db, token),
    {
    }

    /// A token that came from the definition came from the definition of a
    /// declarative macro: no other expander makes such tokens.
    pub proof fn lemma_def_origin(&self, db: &AstDatabase, token: InFile<SyntaxToken>)
        ensures
            self.spec_map_token_up(db, token) matches Some(pair) && pair.1 == Origin::Def
                ==> *self.macro_def is DeclarativeMacro,
    {
    }

    /// Whether the record is that of the call of an attribute.
    pub open spec fn of_attr(&self, db: &AstDatabase) -> bool {
        match self.expanded.file_id.0 {
            HirFileIdRepr::FileId(_) => false,
            HirFileIdRepr::MacroFile(m) => db.spec_loc(m.macro_call_id)@.kind is Attr,
        }
    }

    /// A token that came from the call stands in the file of the call: in
    /// the argument or, for an attribute, in the input of the attribute.
    pub proof fn lemma_call_origin(&self, db: &AstDatabase, token: InFile<SyntaxToken>)
        ensures
            match self.spec_map_token_up(db, token) {
                Some((up, Origin::Call)) => up.file_id == self.arg.file_id || (self.of_attr(db)
                    && match self.attr_input_or_mac_def {
                    Some(tt) => up.file_id == tt.file_id,
                    None => false,
                }),
                _ => true,
            },
    {
    }

    fn attr_lookup(&self, db: &AstDatabase, item: Option<SyntaxNode>, token: InFile<SyntaxToken>) -> (r:
        AttrLookup)
        requires
            self.wf(db),
            token.file_id == self.arg.file_id,
            db.spec_tree(token.file_id).has_token(token.value),
            item matches Some(i) ==> db.spec_tree(token.file_id).has_node(i),
        ensures
            r == self.spec_attr_lookup(db, item, token),
    {
        let item = match item {
            Some(item) => item,
            None => {
                return AttrLookup::NotInAttr;
            },
        };
        let call_id = match self.expanded.file_id.0 {
            HirFileIdRepr::FileId(_) => {
                return AttrLookup::Fail;
            },
            HirFileIdRepr::MacroFile(m) => m.macro_call_id,
        };
        let loc = db.lookup_intern_macro(call_id);
        let tree = db.parse_or_expand(self.arg.file_id).unwrap();
        let token_range = tree.text_range(token.value.0);
        match &loc.kind {
            MacroCallKind::Attr { attr_args, invoc_attr_index, .. } => {
                let attr = match nth_attr(tree, item, *invoc_attr_index) {
                    Some(attr) => attr,
                    None => {
                        return AttrLookup::Fail;
                    },
                };
                match attr_token_tree(tree, attr) {
                    Some(tt) => {
                        let tt_range = tree.text_range(tt.0);
                        if !tt_range.contains_range(token_range) {
                            return AttrLookup::NotInAttr;
                        }
                        let open = match left_delimiter_token(tree, tt) {
                            Some(open) => open,
                            None => {
                                return AttrLookup::Fail;
                            },
                        };
                        let start = tree.text_range(open.0).start();
                        let range = match token_range.checked_sub(start) {
                            Some(range) => range,
                            None => {
                                return AttrLookup::Fail;
                            },
                        };
                        let id = match attr_args.1.token_by_range(range) {
                            Some(id) => id,
                            None => {
                                return AttrLookup::Fail;
                            },
                        };
                        if id.0 != 0xffff_ffff && id.0 > u32::MAX - self.macro_arg_shift.0 {
                            return AttrLookup::Fail;
                        }
                        AttrLookup::Found(self.macro_arg_shift.shift(id))
                    },
                    None => AttrLookup::NotInAttr,
                }
            },
            _ => AttrLookup::NotInAttr,
        }
    }

    /// The tokens of the expansion that the token `token` of the call
    /// became. `item` is the item that carries the attribute, for a token
    /// that may stand among the arguments of an attribute.
    pub fn map_token_down(
        &self,
        db: &AstDatabase,
        item: Option<SyntaxNode>,
        token: InFile<SyntaxToken>,
    ) -> (r: Option<Vec<InFile<SyntaxToken>>>)
        requires
            self.wf(db),
            token.file_id == self.arg.file_id,
            db.spec_tree(token.file_id).has_token(token.value),
            item matches Some(i) ==> db.spec_tree(token.file_id).has_node(i),
        ensures
            match r {
                Some(tokens) => self.spec_map_token_down(db, item, token) == Some(tokens@),
                None => self.spec_map_token_down(db, item, token).is_none(),
            },
            r matches Some(tokens) ==> forall|k: int|
                0 <= k < tokens@.len() ==> (#[trigger] tokens@[k]).file_id
                    == self.expanded.file_id && db.spec_tree(self.expanded.file_id).has_token(
                    tokens@[k].value,
                ),
    {
        let tree = db.parse_or_expand(self.arg.file_id).unwrap();
        let token_range = tree.text_range(token.value.0);
        let token_id = match self.attr_lookup(db, item, token) {
            AttrLookup::Fail => {
                return None;
            },
            AttrLookup::Found(id) => id,
            AttrLookup::NotInAttr => {
                let start = tree.text_range(self.arg.value.0).start();
                let range = match token_range.checked_sub(start) {
                    Some(range) => range,
                    None => {
                        return None;
                    },
                };
                let id = match (*self.macro_arg).1.token_by_range(range) {
                    Some(id) => id,
                    None => {
                        return None;
                    },
                };
                match (*self.macro_def).map_id_down(id) {
                    Some(id) => id,
                    None => {
                        return None;
                    },
                }
            },
        };
        let kind = tree.kind(token.value.0);
        let ranges = (*self.exp_map).ranges_by_token(token_id, kind);
        let exp_tree = db.parse_or_expand(self.expanded.file_id).unwrap();
        let mut out: Vec<InFile<SyntaxToken>> = Vec::new();
        let mut i: usize = 0;
        while i < ranges.len()
            invariant
                i <= ranges@.len(),
                exp_tree.wf(),
                *exp_tree == db.spec_tree(self.expanded.file_id),
                exp_tree.has_node(self.expanded.value),
                out@ == spec_tokens_at_ranges(
                    exp_tree,
                    self.expanded.file_id,
                    self.expanded.value.0 as int,
                    ranges@,
                    i as int,
                ),
                forall|k: int|
                    0 <= k < out@.len() ==> (#[trigger] out@[k]).file_id == self.expanded.file_id
                        && exp_tree.has_token(out@[k].value),
            decreases ranges@.len() - i,
        {
            match exp_tree.covering_element(self.expanded.value, ranges[i]) {
                SyntaxElement::Token(t) => {
                    out.push(InFile { file_id: self.expanded.file_id, value: t });
                },
                SyntaxElement::Node(_) => {},
            }
            i += 1;
        }
        Some(out)
    }

    /// The token that the token `token` of the expansion came from, and
    /// whether that is a token of the call or of the definition. A token
    /// from the definition is looked up in the definition of the
    /// declarative macro, which has to be at hand.
    pub fn map_token_up(&self, db: &AstDatabase, token: InFile<SyntaxToken>) -> (r: Option<
        (InFile<SyntaxToken>, Origin),
    >)
        requires
            self.wf(db),
            db.spec_tree(self.expanded.file_id).has_token(token.value),
            !self.spec_def_missing(db, token),
        ensures
            r == self.spec_map_token_up(db, token),
            r matches Some(pair) ==> db.has_tree(pair.0.file_id) && db.spec_tree(
                pair.0.file_id,
            ).has_token(pair.0.value),
    {
        let exp_tree = db.parse_or_expand(self.expanded.file_id).unwrap();
        let token_range = exp_tree.text_range(token.value.0);
        let token_id = match (*self.exp_map).token_by_range(token_range) {
            Some(id) => id,
            None => {
                return None;
            },
        };
        let (up, origin) = (*self.macro_def).map_id_up(token_id);
        let call_id = match self.expanded.file_id.0 {
            HirFileIdRepr::FileId(_) => {
                return None;
            },
            HirFileIdRepr::MacroFile(m) => m.macro_call_id,
        };
        let loc = db.lookup_intern_macro(call_id);
        let kind = exp_tree.kind(token.value.0);
        let (range, tt) = match &loc.kind {
            MacroCallKind::Attr { attr_args, .. } => match self.macro_arg_shift.unshift(up) {
                Some(unshifted) => match self.attr_input_or_mac_def {
                    Some(tt) => (attr_args.1.first_range_by_token(unshifted, kind), tt),
                    None => {
                        return None;
                    },
                },
                None => ((*self.macro_arg).1.first_range_by_token(up, kind), self.arg),
            },
            _ => match origin {
                Origin::Call => ((*self.macro_arg).1.first_range_by_token(up, kind), self.arg),
                Origin::Def => match (&*self.macro_def, self.attr_input_or_mac_def) {
                    (TokenExpander::DeclarativeMacro { def_site_token_map, .. }, Some(tt)) => (
                        def_site_token_map.first_range_by_token(up, kind),
                        tt,
                    ),
                    _ => {
                        return None;
                    },
                },
            },
        };
        let range = match range {
            Some(range) => range,
            None => {
                return None;
            },
        };
        let tree = db.parse_or_expand(tt.file_id).unwrap();
        let start = tree.text_range(tt.value.0).start();
        let range = match range.checked_add(start) {
            Some(range) => range,
            None => {
                return None;
            },
        };
        match tree.covering_element(tt.value, range) {
            SyntaxElement::Token(t) => Some((InFile { file_id: tt.file_id, value: t }, origin)),
            SyntaxElement::Node(_) => None,
        }
    }
}

/// A token of the call becomes at most as many tokens of the expansion as
/// the token map of the expansion holds ranges for its id.
pub proof fn lemma_tokens_at_ranges_len(
    tree: &SyntaxTree,
    file: HirFileId,
    node: int,
    ranges: Seq<TextRange>,
    n: int,
)
    requires
        tree.wf(),
        0 <= n <= ranges.len(),
    ensures
        spec_tokens_at_ranges(tree, file, node, ranges, n).len() <= n,
        forall|k: int|
            0 <= k < spec_tokens_at_ranges(tree, file, node, ranges, n).len() ==> (
            #[trigger] spec_tokens_at_ranges(tree, file, node, ranges, n)[k]).file_id == file
                && tree.token_at(spec_tokens_at_ranges(tree, file, node, ranges, n)[k].value.0 as int),
    decreases n,
{
    if n > 0 {
        lemma_tokens_at_ranges_len(tree, file, node, ranges, n - 1);
        let before = spec_tokens_at_ranges(tree, file, node, ranges, n - 1);
        let now = spec_tokens_at_ranges(tree, file, node, ranges, n);
        assert forall|k: int| 0 <= k < now.len() implies (#[trigger] now[k]).file_id == file
            && tree.token_at(now[k].value.0 as int) by {
            if k < before.len() {
                assert(now[k] == before[k]);
            }
        }
    }
}

} // verus!
