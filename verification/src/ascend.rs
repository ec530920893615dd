//! The way from a place in an expansion back to the text that a user wrote:
//! up through the macro calls, one after the other, to a file of the user.

use crate::db::AstDatabase;
use crate::expansion::{spec_expansion_info, ExpansionInfo};
use crate::ids::{ExpandTo, FileId, FileRange, HirFileId, HirFileIdRepr, InFile, Origin};
use crate::syntax::{Direction, SyntaxNode, SyntaxToken, SyntaxTree};
use crate::syntax_kind::SyntaxKind;
use crate::text::TextRange;
use vstd::prelude::*;

verus! {

broadcast use crate::text::TextRange::lemma_spec_new;

/// The token of the call that the token `token` of the expansion `info`
/// came from, followed up through the calls around that call as far as
/// they have expansions. There is none for a token that the definition of
/// a macro brought.
pub open spec fn spec_ascend(db: &AstDatabase, info: ExpansionInfo, token: InFile<SyntaxToken>) -> Option<
    InFile<SyntaxToken>,
>
    decreases token.file_id.rank(),
{
    match info.spec_map_token_up(db, token) {
        None => None,
        Some((mapped, origin)) => if origin != Origin::Call {
            None
        } else {
            match spec_expansion_info(db, mapped.file_id) {
                Some(up) => if 0 <= mapped.file_id.rank() < token.file_id.rank() {
                    spec_ascend(db, up, mapped)
                } else {
                    None
                },
                None => Some(mapped),
            }
        },
    }
}

/// The first token of the node `n` that is neither whitespace nor a
/// comment.
pub open spec fn first_solid(tree: &SyntaxTree, n: int) -> Option<int> {
    match tree.spec_first_token(n) {
        Some(t) => tree.spec_skip_trivia(t, Direction::Next),
        None => None,
    }
}

/// The last token of the node `n` that is neither whitespace nor a
/// comment.
pub open spec fn last_solid(tree: &SyntaxTree, n: int) -> Option<int> {
    match tree.spec_last_token(n) {
        Some(t) => tree.spec_skip_trivia(t, Direction::Prev),
        None => None,
    }
}

/// The token `t` of the file `file`, where there is one.
pub open spec fn token_in(file: HirFileId, t: Option<int>) -> Option<InFile<SyntaxToken>> {
    match t {
        Some(t) => Some(InFile { file_id: file, value: SyntaxToken(t as usize) }),
        None => None,
    }
}

/// The range of text that the node `n` of the expansion `info` came from:
/// the range from where its first token came from to where its last token
/// came from. There is none where one of the two has no origin in a call,
/// where they came from different files, or where they came from one and
/// the same token although the node `n` is not `single`.
pub open spec fn spec_node_origin(
    db: &AstDatabase,
    info: ExpansionInfo,
    file: HirFileId,
    single: bool,
    n: int,
) -> Option<InFile<TextRange>> {
    let tree = db.spec_tree(file);
    match (token_in(file, first_solid(&tree, n)), token_in(file, last_solid(&tree, n))) {
        (Some(first), Some(last)) => match (spec_ascend(db, info, first), spec_ascend(db, info, last)) {
            (Some(first), Some(last)) => if (!single && first == last) || first.file_id
                != last.file_id {
                None
            } else {
                Some(
                    InFile {
                        file_id: first.file_id,
                        value: db.spec_tree(first.file_id).spec_range(
                            first.value.0 as int,
                        ).spec_cover(db.spec_tree(last.file_id).spec_range(last.value.0 as int)),
                    },
                )
            },
            _ => None,
        },
        _ => None,
    }
}

/// The origin of the first node at a position in `from..to` that has one.
pub open spec fn spec_find_origin(
    db: &AstDatabase,
    info: ExpansionInfo,
    file: HirFileId,
    single: bool,
    from: int,
    to: int,
) -> Option<InFile<TextRange>>
    decreases to - from,
{
    if from >= to {
        None
    } else if !db.spec_tree(file).token_at(from) && spec_node_origin(
        db,
        info,
        file,
        single,
        from,
    ).is_some() {
        spec_node_origin(db, info, file, single, from)
    } else {
        spec_find_origin(db, info, file, single, from + 1, to)
    }
}

/// The range, in the file of the call or further up, that the node `node`
/// of an expansion came from: that of the node itself or else of the first
/// of its descendants that has one.
pub open spec fn spec_original_range(db: &AstDatabase, node: InFile<SyntaxNode>) -> Option<
    InFile<TextRange>,
> {
    let tree = db.spec_tree(node.file_id);
    let n = node.value.0 as int;
    match (spec_expansion_info(db, node.file_id), first_solid(&tree, n), last_solid(&tree, n)) {
        (Some(info), Some(first), Some(last)) => spec_find_origin(
            db,
            info,
            node.file_id,
            first == last,
            n,
            tree.end_at(n),
        ),
        _ => None,
    }
}

/// The range in a file of the user that the node `node` came from: the
/// range of the node itself where it stands in such a file or in the file
/// of a call that includes a file; else what its tokens lead back to.
pub open spec fn spec_original_file_range_opt(db: &AstDatabase, node: InFile<SyntaxNode>) -> Option<
    FileRange,
> {
    let own = db.spec_tree(node.file_id).spec_range(node.value.0 as int);
    match node.file_id.0 {
        HirFileIdRepr::FileId(f) => Some(FileRange { file_id: f, range: own }),
        HirFileIdRepr::MacroFile(m) => match db.spec_loc(m.macro_call_id)@.included_file() {
            Some(f) => Some(FileRange { file_id: f, range: own }),
            None => match spec_original_range(db, node) {
                Some(range) => Some(
                    FileRange { file_id: db.spec_original_file(range.file_id), range: range.value },
                ),
                None => None,
            },
        },
    }
}

/// The node of the outermost macro call around the node `node`: the node
/// itself where it stands in a file of the user.
pub open spec fn spec_outermost_call(db: &AstDatabase, node: InFile<SyntaxNode>) -> InFile<
    SyntaxNode,
>
    decreases node.file_id.rank(),
{
    match db.spec_call_node(node.file_id) {
        Some(call) => if 0 <= call.file_id.rank() < node.file_id.rank() {
            spec_outermost_call(db, call)
        } else {
            node
        },
        None => node,
    }
}

/// The range in a file of the user that stands for the node `node`: what
/// the node came from where that is known, and the range of the outermost
/// macro call around it otherwise.
pub open spec fn spec_original_file_range(db: &AstDatabase, node: InFile<SyntaxNode>) -> FileRange {
    match spec_original_file_range_opt(db, node) {
        Some(range) => range,
        None => {
            let call = spec_outermost_call(db, node);
            FileRange {
                file_id: db.spec_original_file(call.file_id),
                range: db.spec_tree(call.file_id).spec_range(call.value.0 as int),
            }
        },
    }
}

/// Follows the token `token` of the expansion `expansion` up to the call,
/// and on through the calls around it.
pub fn ascend_call_token(db: &AstDatabase, expansion: &ExpansionInfo, token: InFile<SyntaxToken>) -> (r:
    Option<InFile<SyntaxToken>>)
    requires
        expansion.wf(db),
        expansion.def_at_hand(db),
        token.file_id == expansion.expanded.file_id,
        db.spec_tree(token.file_id).has_token(token.value),
    ensures
        r == spec_ascend(db, *expansion, token),
        r matches Some(t) ==> db.has_tree(t.file_id) && db.knows(t.file_id) && db.spec_tree(
            t.file_id,
        ).has_token(t.value),
    decreases token.file_id.rank(),
{
    proof {
        expansion.lemma_def_at_hand(db, token);
    }
    let (mapped, origin) = match expansion.map_token_up(db, token) {
        Some(pair) => pair,
        None => {
            return None;
        },
    };
    match origin {
        Origin::Call => {},
        Origin::Def => {
            return None;
        },
    }
    proof {
        db.lemma_tree(mapped.file_id);
    }
    match mapped.file_id.expansion_info(db) {
        Some(info) => {
            if !rank_below(mapped.file_id, token.file_id) {
                return None;
            }
            ascend_call_token(db, &info, mapped)
        },
        None => Some(mapped),
    }
}

/// Whether the file `a` lies nearer to the files of the user than the file
/// `b`.
fn rank_below(a: HirFileId, b: HirFileId) -> (r: bool)
    ensures
        r == (a.rank() < b.rank()),
{
    match (a.0, b.0) {
        (HirFileIdRepr::FileId(_), HirFileIdRepr::FileId(_)) => false,
        (HirFileIdRepr::FileId(_), HirFileIdRepr::MacroFile(_)) => true,
        (HirFileIdRepr::MacroFile(_), HirFileIdRepr::FileId(_)) => false,
        (HirFileIdRepr::MacroFile(x), HirFileIdRepr::MacroFile(y)) => x.macro_call_id.0
            < y.macro_call_id.0,
    }
}

/// The first token of the node `n` that is neither whitespace nor a comment.
fn first_solid_token(tree: &SyntaxTree, n: SyntaxNode) -> (r: Option<SyntaxToken>)
    requires
        tree.wf(),
        tree.has_node(n),
    ensures
        first_solid(tree, n.0 as int) == match r {
            Some(t) => Some(t.0 as int),
            None => None,
        },
        r matches Some(t) ==> tree.has_token(t),
{
    match tree.first_token(n) {
        Some(t) => tree.skip_trivia_token(t, Direction::Next),
        None => None,
    }
}

/// The last token of the node `n` that is neither whitespace nor a comment.
fn last_solid_token(tree: &SyntaxTree, n: SyntaxNode) -> (r: Option<SyntaxToken>)
    requires
        tree.wf(),
        tree.has_node(n),
    ensures
        last_solid(tree, n.0 as int) == match r {
            Some(t) => Some(t.0 as int),
            None => None,
        },
        r matches Some(t) ==> tree.has_token(t),
{
    match tree.last_token(n) {
        Some(t) => tree.skip_trivia_token(t, Direction::Prev),
        None => None,
    }
}

/// The range that the node `n` of the expansion came from.
fn node_origin(
    db: &AstDatabase,
    expansion: &ExpansionInfo,
    tree: &SyntaxTree,
    single: bool,
    n: SyntaxNode,
) -> (r: Option<InFile<TextRange>>)
    requires
        expansion.wf(db),
        expansion.def_at_hand(db),
        *tree == db.spec_tree(expansion.expanded.file_id),
        tree.wf(),
        tree.has_node(n),
    ensures
        r == spec_node_origin(db, *expansion, expansion.expanded.file_id, single, n.0 as int),
        r matches Some(range) ==> db.knows(range.file_id),
{
    let file = expansion.expanded.file_id;
    let first = match first_solid_token(tree, n) {
        Some(t) => t,
        None => {
            return None;
        },
    };
    let first = match ascend_call_token(db, expansion, InFile { file_id: file, value: first }) {
        Some(t) => t,
        None => {
            return None;
        },
    };
    let last = match last_solid_token(tree, n) {
        Some(t) => t,
        None => {
            return None;
        },
    };
    let last = match ascend_call_token(db, expansion, InFile { file_id: file, value: last }) {
        Some(t) => t,
        None => {
            return None;
        },
    };
    let same = first.file_id == last.file_id && first.value == last.value;
    if (!single && same) || first.file_id != last.file_id {
        return None;
    }
    let first_tree = db.parse_or_expand(first.file_id).unwrap();
    let last_tree = db.parse_or_expand(last.file_id).unwrap();
    let a = first_tree.text_range(first.value.0);
    let b = last_tree.text_range(last.value.0);
    Some(InFile { file_id: first.file_id, value: a.cover(b) })
}

/// The range, in the file of the call or further up, that the node `node`
/// of an expansion came from.
pub fn original_range_opt(db: &AstDatabase, node: InFile<SyntaxNode>) -> (r: Option<
    InFile<TextRange>,
>)
    requires
        db.wf(),
        db.knows(node.file_id),
        db.has_tree(node.file_id),
        db.spec_tree(node.file_id).has_node(node.value),
    ensures
        r == spec_original_range(db, node),
        r matches Some(range) ==> db.knows(range.file_id),
{
    let expansion = match node.file_id.expansion_info(db) {
        Some(info) => info,
        None => {
            return None;
        },
    };
    let tree = db.parse_or_expand(node.file_id).unwrap();
    let first = match first_solid_token(tree, node.value) {
        Some(t) => t,
        None => {
            return None;
        },
    };
    let last = match last_solid_token(tree, node.value) {
        Some(t) => t,
        None => {
            return None;
        },
    };
    let single = first == last;
    let end = tree.subtree_end(node.value.0);
    let mut j = node.value.0;
    while j < end
        invariant
            expansion.wf(db),
            expansion.def_at_hand(db),
            expansion.expanded.file_id == node.file_id,
            *tree == db.spec_tree(node.file_id),
            tree.wf(),
            end <= tree.spec_len(),
            spec_find_origin(db, expansion, node.file_id, single, j as int, end as int)
                == spec_original_range(db, node),
        decreases end - j,
    {
        if !tree.is_token(j) {
            match node_origin(db, &expansion, tree, single, SyntaxNode(j)) {
                Some(range) => {
                    return Some(range);
                },
                None => {},
            }
        }
        j += 1;
    }
    None
}

impl InFile<SyntaxNode> {
    /// The syntax tree of the file that the node stands in.
    pub fn file_syntax<'a>(&self, db: &'a AstDatabase) -> (r: &'a SyntaxTree)
        requires
            db.wf(),
            db.has_tree(self.file_id),
        ensures
            *r == db.spec_tree(self.file_id),
            r.wf(),
    {
        db.parse_or_expand(self.file_id).unwrap()
    }

    /// The node itself.
    pub fn syntax(&self) -> (r: InFile<&SyntaxNode>)
        ensures
            r == (InFile { file_id: self.file_id, value: &self.value }),
    {
        InFile { file_id: self.file_id, value: &self.value }
    }

    /// The range in a file of the user that the node came from, where that
    /// is known. A node in the expansion of a call that includes a file
    /// stands for itself in the included file: its own range there is
    /// given, as for a node in a file of the user, and its tokens are not
    /// followed up to the call.
    pub fn original_file_range_opt(self, db: &AstDatabase) -> (r: Option<FileRange>)
        requires
            db.wf(),
            db.knows(self.file_id),
            db.has_tree(self.file_id),
            db.spec_tree(self.file_id).has_node(self.value),
        ensures
            r == spec_original_file_range_opt(db, self),
    {
        let tree = db.parse_or_expand(self.file_id).unwrap();
        let own = tree.text_range(self.value.0);
        match self.file_id.0 {
            HirFileIdRepr::FileId(f) => Some(FileRange { file_id: f, range: own }),
            HirFileIdRepr::MacroFile(m) => {
                let loc = db.lookup_intern_macro(m.macro_call_id);
                match loc.included_file() {
                    Some(f) => Some(FileRange { file_id: f, range: own }),
                    None => match original_range_opt(db, self) {
                        Some(range) => Some(
                            FileRange {
                                file_id: range.file_id.original_file(db),
                                range: range.value,
                            },
                        ),
                        None => None,
                    },
                }
            },
        }
    }

    /// The range in a file of the user that stands for the node: what the
    /// node came from where that is known, and the range of the outermost
    /// macro call around it otherwise.
    pub fn original_file_range(self, db: &AstDatabase) -> (r: FileRange)
        requires
            db.wf(),
            db.knows(self.file_id),
            db.has_tree(self.file_id),
            db.spec_tree(self.file_id).has_node(self.value),
        ensures
            r == spec_original_file_range(db, self),
    {
        match self.original_file_range_opt(db) {
            Some(range) => {
                return range;
            },
            None => {},
        }
        let mut node = self;
        loop
            invariant
                db.wf(),
                db.knows(node.file_id),
                db.has_tree(node.file_id),
                db.spec_tree(node.file_id).has_node(node.value),
                spec_outermost_call(db, node) == spec_outermost_call(db, self),
            ensures
                spec_outermost_call(db, self) == node,
            decreases node.file_id.rank(),
        {
            match node.file_id.call_node(db) {
                Some(call) => {
                    node = call;
                },
                None => {
                    break ;
                },
            }
        }
        let tree = db.parse_or_expand(node.file_id).unwrap();
        let range = tree.text_range(node.value.0);
        FileRange { file_id: node.file_id.original_file(db), range }
    }
}

impl ExpandTo {
    /// What the expansion of a macro call at a place below a node of kind
    /// `parent` is parsed as; `None` stands for a call that has no parent.
    pub open spec fn spec_for_parent(parent: Option<SyntaxKind>) -> ExpandTo {
        match parent {
            None => ExpandTo::Statements,
            Some(kind) => match kind {
                SyntaxKind::MACRO_ITEMS | SyntaxKind::SOURCE_FILE | SyntaxKind::ITEM_LIST => ExpandTo::Items,
                SyntaxKind::MACRO_STMTS | SyntaxKind::EXPR_STMT | SyntaxKind::STMT_LIST => ExpandTo::Statements,
                SyntaxKind::MACRO_PAT => ExpandTo::Pattern,
                SyntaxKind::MACRO_TYPE => ExpandTo::Type,
                SyntaxKind::ARG_LIST
                | SyntaxKind::TRY_EXPR
                | SyntaxKind::TUPLE_EXPR
                | SyntaxKind::PAREN_EXPR
                | SyntaxKind::ARRAY_EXPR
                | SyntaxKind::FOR_EXPR
                | SyntaxKind::PATH_EXPR
                | SyntaxKind::CLOSURE_EXPR
                | SyntaxKind::CONDITION
                | SyntaxKind::BREAK_EXPR
                | SyntaxKind::RETURN_EXPR
                | SyntaxKind::MATCH_EXPR
                | SyntaxKind::MATCH_ARM
                | SyntaxKind::MATCH_GUARD
                | SyntaxKind::RECORD_EXPR_FIELD
                | SyntaxKind::CALL_EXPR
                | SyntaxKind::INDEX_EXPR
                | SyntaxKind::METHOD_CALL_EXPR
                | SyntaxKind::FIELD_EXPR
                | SyntaxKind::AWAIT_EXPR
                | SyntaxKind::CAST_EXPR
                | SyntaxKind::REF_EXPR
                | SyntaxKind::PREFIX_EXPR
                | SyntaxKind::RANGE_EXPR
                | SyntaxKind::BIN_EXPR
                | SyntaxKind::LET_STMT => ExpandTo::Expr,
                _ => ExpandTo::Items,
            },
        }
    }

    /// What the expansion of a macro call is parsed as, told by the kind of
    /// the node around the call: items in a file or a list of items,
    /// statements in a list of statements, a pattern or a type where the
    /// call stands for one, an expression inside an expression; and items
    /// where the place tells nothing.
    pub fn from_call_site(tree: &SyntaxTree, call: SyntaxNode) -> (r: ExpandTo)
        requires
            tree.wf(),
            tree.has_node(call),
        ensures
            r == ExpandTo::spec_for_parent(
                if call.0 == 0 {
                    None
                } else {
                    Some(tree.kind_at(tree.parent_at(call.0 as int)))
                },
            ),
    {
        let parent = match tree.parent(call.0) {
            Some(it) => it,
            None => {
                return ExpandTo::Statements;
            },
        };
        match tree.kind(parent.0) {
            SyntaxKind::MACRO_ITEMS | SyntaxKind::SOURCE_FILE | SyntaxKind::ITEM_LIST => ExpandTo::Items,
            SyntaxKind::MACRO_STMTS | SyntaxKind::EXPR_STMT | SyntaxKind::STMT_LIST => ExpandTo::Statements,
            SyntaxKind::MACRO_PAT => ExpandTo::Pattern,
            SyntaxKind::MACRO_TYPE => ExpandTo::Type,
            SyntaxKind::ARG_LIST
            | SyntaxKind::TRY_EXPR
            | SyntaxKind::TUPLE_EXPR
            | SyntaxKind::PAREN_EXPR
            | SyntaxKind::ARRAY_EXPR
            | SyntaxKind::FOR_EXPR
            | SyntaxKind::PATH_EXPR
            | SyntaxKind::CLOSURE_EXPR
            | SyntaxKind::CONDITION
            | SyntaxKind::BREAK_EXPR
            | SyntaxKind::RETURN_EXPR
            | SyntaxKind::MATCH_EXPR
            | SyntaxKind::MATCH_ARM
            | SyntaxKind::MATCH_GUARD
            | SyntaxKind::RECORD_EXPR_FIELD
            | SyntaxKind::CALL_EXPR
            | SyntaxKind::INDEX_EXPR
            | SyntaxKind::METHOD_CALL_EXPR
            | SyntaxKind::FIELD_EXPR
            | SyntaxKind::AWAIT_EXPR
            | SyntaxKind::CAST_EXPR
            | SyntaxKind::REF_EXPR
            | SyntaxKind::PREFIX_EXPR
            | SyntaxKind::RANGE_EXPR
            | SyntaxKind::BIN_EXPR
            | SyntaxKind::LET_STMT => ExpandTo::Expr,
            _ => ExpandTo::Items,
        }
    }
}

/// The node above the node `node`: its parent or, above the root of an
/// expansion, the node of the macro call. With `skip_attr_item`, what
/// stands above the root of the expansion of an attribute macro is not the
/// item with the attribute but the parent of that item.
pub open spec fn spec_node_above(db: &AstDatabase, node: InFile<SyntaxNode>, skip_attr_item: bool) -> Option<
    InFile<SyntaxNode>,
> {
    if node.value.0 != 0 {
        Some(
            InFile {
                file_id: node.file_id,
                value: SyntaxNode(
                    db.spec_tree(node.file_id).parent_at(node.value.0 as int) as usize,
                ),
            },
        )
    } else {
        match db.spec_call_node(node.file_id) {
            None => None,
            Some(call) => if skip_attr_item && (node.file_id.0 matches HirFileIdRepr::MacroFile(m)
                && db.spec_loc(m.macro_call_id)@.kind is Attr) {
                if call.value.0 != 0 {
                    Some(
                        InFile {
                            file_id: call.file_id,
                            value: SyntaxNode(
                                db.spec_tree(call.file_id).parent_at(call.value.0 as int) as usize,
                            ),
                        },
                    )
                } else {
                    None
                }
            } else {
                Some(call)
            },
        }
    }
}

/// The node `node` and the nodes above it, through the macro calls, up to
/// the root of a file of the user.
pub open spec fn spec_ancestors_with_macros(
    db: &AstDatabase,
    node: InFile<SyntaxNode>,
    skip_attr_item: bool,
) -> Seq<InFile<SyntaxNode>>
    decreases node.file_id.rank(), node.value.0,
{
    match spec_node_above(db, node, skip_attr_item) {
        None => seq![node],
        Some(above) => if 0 <= above.file_id.rank() && (above.file_id.rank() < node.file_id.rank()
            || (above.file_id.rank() == node.file_id.rank() && above.value.0 < node.value.0)) {
            seq![node] + spec_ancestors_with_macros(db, above, skip_attr_item)
        } else {
            seq![node]
        },
    }
}

/// The node above the node `node`.
fn node_above(db: &AstDatabase, node: InFile<SyntaxNode>, skip_attr_item: bool) -> (r: Option<
    InFile<SyntaxNode>,
>)
    requires
        db.wf(),
        db.knows(node.file_id),
        db.has_tree(node.file_id),
        db.spec_tree(node.file_id).has_node(node.value),
    ensures
        r == spec_node_above(db, node, skip_attr_item),
        r matches Some(above) ==> db.knows(above.file_id) && db.has_tree(above.file_id)
            && db.spec_tree(above.file_id).has_node(above.value) && 0 <= above.file_id.rank() && (
        above.file_id.rank() < node.file_id.rank() || (above.file_id == node.file_id
            && above.value.0 < node.value.0)),
{
    let tree = db.parse_or_expand(node.file_id).unwrap();
    match tree.parent(node.value.0) {
        Some(parent) => Some(InFile { file_id: node.file_id, value: parent }),
        None => {
            let call = match node.file_id.call_node(db) {
                Some(call) => call,
                None => {
                    return None;
                },
            };
            if skip_attr_item && node.file_id.is_attr_macro(db) {
                let call_tree = db.parse_or_expand(call.file_id).unwrap();
                match call_tree.parent(call.value.0) {
                    Some(parent) => Some(InFile { file_id: call.file_id, value: parent }),
                    None => None,
                }
            } else {
                Some(call)
            }
        },
    }
}

/// The node `start` and the nodes above it, nearest first.
fn ancestors_above(db: &AstDatabase, start: InFile<SyntaxNode>, skip_attr_item: bool) -> (r: Vec<
    InFile<SyntaxNode>,
>)
    requires
        db.wf(),
        db.knows(start.file_id),
        db.has_tree(start.file_id),
        db.spec_tree(start.file_id).has_node(start.value),
    ensures
        r@ == spec_ancestors_with_macros(db, start, skip_attr_item),
        forall|k: int|
            0 <= k < r@.len() ==> db.has_tree((#[trigger] r@[k]).file_id) && db.spec_tree(
                r@[k].file_id,
            ).has_node(r@[k].value),
{
    let mut out: Vec<InFile<SyntaxNode>> = Vec::new();
    let mut cur = start;
    loop
        invariant_except_break
            out@ + spec_ancestors_with_macros(db, cur, skip_attr_item)
                == spec_ancestors_with_macros(db, start, skip_attr_item),
        invariant
            db.wf(),
            db.knows(cur.file_id),
            db.has_tree(cur.file_id),
            db.spec_tree(cur.file_id).has_node(cur.value),
            forall|k: int|
                0 <= k < out@.len() ==> db.has_tree((#[trigger] out@[k]).file_id) && db.spec_tree(
                    out@[k].file_id,
                ).has_node(out@[k].value),
        ensures
            out@ == spec_ancestors_with_macros(db, start, skip_attr_item),
            forall|k: int|
                0 <= k < out@.len() ==> db.has_tree((#[trigger] out@[k]).file_id) && db.spec_tree(
                    out@[k].file_id,
                ).has_node(out@[k].value),
        decreases cur.file_id.rank(), cur.value.0,
    {
        let ghost before = out@;
        out.push(cur);
        match node_above(db, cur, skip_attr_item) {
            Some(above) => {
                proof {
                    assert(before.push(cur) + spec_ancestors_with_macros(db, above, skip_attr_item)
                        =~= before + (seq![cur] + spec_ancestors_with_macros(
                        db,
                        above,
                        skip_attr_item,
                    )));
                }
                cur = above;
            },
            None => {
                proof {
                    assert(before.push(cur) =~= before + seq![cur]);
                }
                break ;
            },
        }
    }
    out
}

impl InFile<SyntaxNode> {
    /// The node and the nodes above it, nearest first: in its file up to
    /// the root, from there to the node of the macro call that made the
    /// file, and so on up to the root of a file of the user.
    pub fn ancestors_with_macros(self, db: &AstDatabase) -> (r: Vec<InFile<SyntaxNode>>)
        requires
            db.wf(),
            db.knows(self.file_id),
            db.has_tree(self.file_id),
            db.spec_tree(self.file_id).has_node(self.value),
        ensures
            r@ == spec_ancestors_with_macros(db, self, false),
            r@.len() >= 1,
            r@[0] == self,
    {
        ancestors_above(db, self, false)
    }

    /// The node and the nodes above it as `ancestors_with_macros` gives
    /// them, but without the item that carries the attribute where the way
    /// leads out of the expansion of an attribute macro: the item is what
    /// the expansion stands for.
    pub fn ancestors_with_macros_skip_attr_item(self, db: &AstDatabase) -> (r: Vec<
        InFile<SyntaxNode>,
    >)
        requires
            db.wf(),
            db.knows(self.file_id),
            db.has_tree(self.file_id),
            db.spec_tree(self.file_id).has_node(self.value),
        ensures
            r@ == spec_ancestors_with_macros(db, self, true),
            r@.len() >= 1,
            r@[0] == self,
    {
        ancestors_above(db, self, true)
    }

    /// The descendants of the node that have the kind `kind`, the node
    /// itself among them, in document order.
    pub fn descendants(self, db: &AstDatabase, kind: SyntaxKind) -> (r: Vec<InFile<SyntaxNode>>)
        requires
            db.wf(),
            db.has_tree(self.file_id),
            db.spec_tree(self.file_id).has_node(self.value),
        ensures
            r@ == spec_descendants(
                &db.spec_tree(self.file_id),
                self.file_id,
                kind,
                self.value.0 as int,
                db.spec_tree(self.file_id).end_at(self.value.0 as int),
            ),
    {
        let tree = db.parse_or_expand(self.file_id).unwrap();
        let end = tree.subtree_end(self.value.0);
        let mut out: Vec<InFile<SyntaxNode>> = Vec::new();
        let mut j = self.value.0;
        while j < end
            invariant
                tree.wf(),
                self.value.0 <= j <= end <= tree.spec_len(),
                out@ == spec_descendants(tree, self.file_id, kind, self.value.0 as int, j as int),
            decreases end - j,
        {
            if !tree.is_token(j) && tree.kind(j) == kind {
                out.push(InFile { file_id: self.file_id, value: SyntaxNode(j) });
            }
            j += 1;
        }
        out
    }

    /// The node, the node of the macro call that made its file, the node
    /// of the call that made the file of that call, and so on, as long as
    /// the nodes have a kind among `kinds`.
    pub fn nodes_with_attributes(self, db: &AstDatabase, kinds: &Vec<SyntaxKind>) -> (r: Vec<
        InFile<SyntaxNode>,
    >)
        requires
            db.wf(),
            db.knows(self.file_id),
        ensures
            r@ == spec_nodes_with_attributes(db, self, kinds@),
            r@.len() >= 1,
            r@[0] == self,
    {
        let mut out: Vec<InFile<SyntaxNode>> = Vec::new();
        let mut cur = self;
        loop
            invariant_except_break
                out@ + spec_nodes_with_attributes(db, cur, kinds@) == spec_nodes_with_attributes(
                    db,
                    self,
                    kinds@,
                ),
            invariant
                db.wf(),
                db.knows(cur.file_id),
                out@.len() > 0 ==> out@[0] == self,
                out@.len() == 0 ==> cur == self,
            ensures
                out@ == spec_nodes_with_attributes(db, self, kinds@),
                out@.len() >= 1,
                out@[0] == self,
            decreases cur.file_id.rank(),
        {
            let ghost before = out@;
            out.push(cur);
            let next = match cur.file_id.call_node(db) {
                Some(call) => {
                    let tree = db.parse_or_expand(call.file_id).unwrap();
                    if has_kind(kinds, tree.kind(call.value.0)) {
                        Some(call)
                    } else {
                        None
                    }
                },
                None => None,
            };
            match next {
                Some(call) => {
                    proof {
                        assert(before.push(cur) + spec_nodes_with_attributes(db, call, kinds@)
                            =~= before + (seq![cur] + spec_nodes_with_attributes(
                            db,
                            call,
                            kinds@,
                        )));
                    }
                    cur = call;
                },
                None => {
                    proof {
                        assert(before.push(cur) =~= before + seq![cur]);
                    }
                    break ;
                },
            }
        }
        out
    }

    /// The last of the nodes that `nodes_with_attributes` gives: the
    /// outermost node that the node came of.
    pub fn node_with_attributes(self, db: &AstDatabase, kinds: &Vec<SyntaxKind>) -> (r: InFile<
        SyntaxNode,
    >)
        requires
            db.wf(),
            db.knows(self.file_id),
        ensures
            r == spec_nodes_with_attributes(db, self, kinds@).last(),
    {
        let nodes = self.nodes_with_attributes(db, kinds);
        nodes[nodes.len() - 1]
    }
}

/// Whether `kind` is one of `kinds`.
fn has_kind(kinds: &Vec<SyntaxKind>, kind: SyntaxKind) -> (r: bool)
    ensures
        r == kinds@.contains(kind),
{
    let mut i: usize = 0;
    while i < kinds.len()
        invariant
            i <= kinds@.len(),
            forall|k: int| 0 <= k < i ==> kinds@[k] != kind,
        decreases kinds@.len() - i,
    {
        if kinds[i] == kind {
            return true;
        }
        i += 1;
    }
    false
}

/// The nodes of kind `kind` at the positions `from..to` of `tree`.
pub open spec fn spec_descendants(
    tree: &SyntaxTree,
    file: HirFileId,
    kind: SyntaxKind,
    from: int,
    to: int,
) -> Seq<InFile<SyntaxNode>>
    decreases to - from,
{
    if to <= from {
        Seq::empty()
    } else if !tree.token_at(to - 1) && tree.kind_at(to - 1) == kind {
        spec_descendants(tree, file, kind, from, to - 1).push(
            InFile { file_id: file, value: SyntaxNode((to - 1) as usize) },
        )
    } else {
        spec_descendants(tree, file, kind, from, to - 1)
    }
}

/// The node `node`, then the node of the macro call that made its file
/// where that has a kind among `kinds`, and so on.
pub open spec fn spec_nodes_with_attributes(
    db: &AstDatabase,
    node: InFile<SyntaxNode>,
    kinds: Seq<SyntaxKind>,
) -> Seq<InFile<SyntaxNode>>
    decreases node.file_id.rank(),
{
    match db.spec_call_node(node.file_id) {
        Some(call) => if 0 <= call.file_id.rank() < node.file_id.rank() && kinds.contains(
            db.spec_tree(call.file_id).kind_at(call.value.0 as int),
        ) {
            seq![node] + spec_nodes_with_attributes(db, call, kinds)
        } else {
            seq![node]
        },
        None => seq![node],
    }
}

impl InFile<SyntaxToken> {
    /// The nodes above the token, nearest first, through the macro calls
    /// up to the root of a file of the user.
    pub fn ancestors_with_macros(self, db: &AstDatabase) -> (r: Vec<InFile<SyntaxNode>>)
        requires
            db.wf(),
            db.knows(self.file_id),
            db.has_tree(self.file_id),
            db.spec_tree(self.file_id).has_token(self.value),
        ensures
            r@ == spec_ancestors_with_macros(
                db,
                InFile {
                    file_id: self.file_id,
                    value: SyntaxNode(
                        db.spec_tree(self.file_id).parent_at(self.value.0 as int) as usize,
                    ),
                },
                false,
            ),
    {
        let tree = db.parse_or_expand(self.file_id).unwrap();
        match tree.parent(self.value.0) {
            Some(parent) => ancestors_above(db, InFile { file_id: self.file_id, value: parent }, false),
            None => {
                proof {
                    assert(false);
                }
                Vec::new()
            },
        }
    }
}

/// A node of several tokens whose first and last token came from one and
/// the same token of the call has no range of its own there: the expansion
/// made one token of the whole node.
pub proof fn lemma_collapsed_node_has_no_origin(
    db: &AstDatabase,
    info: ExpansionInfo,
    file: HirFileId,
    n: int,
)
    requires
        first_solid(&db.spec_tree(file), n).is_some(),
        last_solid(&db.spec_tree(file), n).is_some(),
        spec_ascend(db, info, token_in(file, first_solid(&db.spec_tree(file), n)).unwrap())
            == spec_ascend(db, info, token_in(file, last_solid(&db.spec_tree(file), n)).unwrap()),
    ensures
        spec_node_origin(db, info, file, false, n).is_none(),
{
}

/// A node in a file of the user stands for itself.
pub proof fn lemma_real_file_range(db: &AstDatabase, node: InFile<SyntaxNode>, f: FileId)
    requires
        node.file_id == HirFileId::of_file(f),
    ensures
        spec_original_file_range(db, node) == (FileRange {
            file_id: f,
            range: db.spec_tree(node.file_id).spec_range(node.value.0 as int),
        }),
{
}

} // verus!
