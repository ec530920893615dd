//! What an analysis knows of files and macro calls: the syntax trees of
//! the files, the macro calls that were interned, and for each call what
//! came of expanding it.

use crate::ids::{AstId, FileAstId, FileId, HirFileId, HirFileIdRepr, InFile, MacroCallId, MacroFile, Origin};
use crate::macro_call::{
    BuiltinAttrExpander, BuiltinDeriveExpander, BuiltinFnLikeExpander, MacroCallLoc, MacroCallLocView, MacroDefKind, ProcMacroExpander, ProcMacroKind,
};
use crate::syntax::{SyntaxNode, SyntaxTree};
use crate::syntax_kind::SyntaxKind;
use crate::token_map::{Shift, TokenMap};
use crate::tt::{Subtree, TokenId};
use std::sync::Arc;
use vstd::prelude::*;

verus! {

/// Whether nodes of kind `kind` get names that stay good when a file is
/// parsed again: items do, and blocks.
pub open spec fn spec_has_ast_id(kind: SyntaxKind) -> bool {
    matches!(
        kind,
        SyntaxKind::CONST | SyntaxKind::ENUM | SyntaxKind::EXTERN_BLOCK | SyntaxKind::EXTERN_CRATE
            | SyntaxKind::FN | SyntaxKind::IMPL | SyntaxKind::MACRO_CALL | SyntaxKind::MACRO_RULES
            | SyntaxKind::MACRO_DEF | SyntaxKind::MODULE | SyntaxKind::STATIC | SyntaxKind::STRUCT
            | SyntaxKind::TRAIT | SyntaxKind::TYPE_ALIAS | SyntaxKind::UNION | SyntaxKind::USE
            | SyntaxKind::BLOCK_EXPR
    )
}

#[verifier::when_used_as_spec(spec_has_ast_id)]
pub fn has_ast_id(kind: SyntaxKind) -> (r: bool)
    ensures
        r == spec_has_ast_id(kind),
{
    matches!(
        kind,
        SyntaxKind::CONST | SyntaxKind::ENUM | SyntaxKind::EXTERN_BLOCK | SyntaxKind::EXTERN_CRATE
            | SyntaxKind::FN | SyntaxKind::IMPL | SyntaxKind::MACRO_CALL | SyntaxKind::MACRO_RULES
            | SyntaxKind::MACRO_DEF | SyntaxKind::MODULE | SyntaxKind::STATIC | SyntaxKind::STRUCT
            | SyntaxKind::TRAIT | SyntaxKind::TYPE_ALIAS | SyntaxKind::UNION | SyntaxKind::USE
            | SyntaxKind::BLOCK_EXPR
    )
}

/// The positions, among the first `n` elements of `tree`, of the nodes that
/// get names, in document order.
pub open spec fn named_nodes(tree: &SyntaxTree, n: int) -> Seq<usize>
    decreases n,
{
    if n <= 0 || n > tree.spec_len() {
        Seq::empty()
    } else if !tree.token_at(n - 1) && spec_has_ast_id(tree.kind_at(n - 1)) {
        named_nodes(tree, n - 1).push((n - 1) as usize)
    } else {
        named_nodes(tree, n - 1)
    }
}

/// Every named node is a node of the tree, and a later one stands later.
pub proof fn lemma_named_nodes(tree: &SyntaxTree, n: int)
    requires
        0 <= n <= tree.spec_len() <= usize::MAX,
    ensures
        forall|k: int|
            0 <= k < named_nodes(tree, n).len() ==> (#[trigger] named_nodes(tree, n)[k]) < n
                && !tree.token_at(named_nodes(tree, n)[k] as int),
        forall|k: int, l: int|
            0 <= k < l < named_nodes(tree, n).len() ==> (#[trigger] named_nodes(tree, n)[k]) < (
            #[trigger] named_nodes(tree, n)[l]),
        named_nodes(tree, n).len() <= n,
    decreases n,
{
    if n > 0 {
        lemma_named_nodes(tree, n - 1);
        let prev = named_nodes(tree, n - 1);
        let cur = named_nodes(tree, n);
        assert forall|k: int| 0 <= k < cur.len() implies (#[trigger] cur[k]) < n && !tree.token_at(
            cur[k] as int,
        ) by {
            if k < prev.len() {
                assert(cur[k] == prev[k]);
            }
        }
        assert forall|k: int, l: int| 0 <= k < l < cur.len() implies (#[trigger] cur[k]) < (
        #[trigger] cur[l]) by {
            assert(cur[k] == prev[k]);
            if l < prev.len() {
                assert(cur[l] == prev[l]);
            }
        }
    }
}

/// Whether the two trees have the same shape: the same elements of the
/// same kinds with the same descendants, whatever their text.
pub open spec fn same_shape(a: &SyntaxTree, b: &SyntaxTree) -> bool {
    &&& a.spec_len() == b.spec_len()
    &&& forall|i: int|
        0 <= i < a.spec_len() ==> #[trigger] a.kind_at(i) == b.kind_at(i) && a.token_at(i)
            == b.token_at(i) && a.end_at(i) == b.end_at(i)
}

/// Names outlive a change of the text: in two trees of the same shape the
/// same nodes have the same names.
pub proof fn lemma_names_stable(a: &SyntaxTree, b: &SyntaxTree, n: int)
    requires
        same_shape(a, b),
    ensures
        named_nodes(a, n) == named_nodes(b, n),
    decreases n,
{
    if 0 < n <= a.spec_len() {
        lemma_names_stable(a, b, n - 1);
        assert(a.kind_at(n - 1) == b.kind_at(n - 1));
    }
}

/// The nodes of one file that have names, in the order of their names.
pub struct AstIdMap {
    nodes: Vec<usize>,
}

impl View for AstIdMap {
    type V = Seq<usize>;

    closed spec fn view(&self) -> Seq<usize> {
        self.nodes@
    }
}

impl AstIdMap {
    /// The names for the nodes of `tree`: the items and blocks, in document
    /// order.
    pub fn from_source(tree: &SyntaxTree) -> (r: AstIdMap)
        ensures
            r@ == named_nodes(tree, tree.spec_len()),
    {
        let mut nodes: Vec<usize> = Vec::new();
        let mut i: usize = 0;
        let n = tree.len();
        while i < n
            invariant
                i <= n,
                n == tree.spec_len(),
                nodes@ == named_nodes(tree, i as int),
            decreases n - i,
        {
            if !tree.is_token(i) && has_ast_id(tree.kind(i)) {
                nodes.push(i);
            }
            i += 1;
        }
        AstIdMap { nodes }
    }

    /// The number of named nodes.
    pub fn len(&self) -> (r: usize)
        ensures
            r == self@.len(),
    {
        self.nodes.len()
    }

    /// The node with the name `id`.
    pub fn get(&self, id: FileAstId) -> (r: SyntaxNode)
        requires
            id.raw < self@.len(),
        ensures
            r == SyntaxNode(self@[id.raw as int]),
    {
        SyntaxNode(self.nodes[id.raw as usize])
    }

    /// The name of the node `node`, if it has one.
    pub fn ast_id(&self, node: SyntaxNode) -> (r: Option<FileAstId>)
        ensures
            match r {
                Some(id) => id.raw < self@.len() && self@[id.raw as int] == node.0 && forall|
                    k: int,
                | 0 <= k < id.raw ==> self@[k] != node.0,
                None => forall|k: int| 0 <= k < self@.len() && k <= u32::MAX ==> self@[k] != node.0,
            },
    {
        let mut i: usize = 0;
        while i < self.nodes.len() && i <= u32::MAX as usize
            invariant
                i <= self.nodes@.len(),
                forall|k: int| 0 <= k < i ==> self.nodes@[k] != node.0,
            decreases self.nodes@.len() - i,
        {
            if self.nodes[i] == node.0 {
                return Some(FileAstId { raw: i as u32 });
            }
            i += 1;
        }
        None
    }
}

/// What expands the calls of one macro, as far as the mapping of token ids
/// between call and expansion goes. A declarative macro moves the ids of
/// the call by an offset, which keeps them apart from the ids of its own
/// definition; the other expanders leave ids as they are.
#[derive(Debug, PartialEq, Eq)]
pub enum TokenExpander {
    DeclarativeMacro { shift: Shift, def_site_token_map: TokenMap },
    Builtin(BuiltinFnLikeExpander),
    BuiltinAttr(BuiltinAttrExpander),
    BuiltinDerive(BuiltinDeriveExpander),
    ProcMacro(ProcMacroExpander),
}

impl TokenExpander {
    /// The id that the token `id` of the call has in the expansion; nothing
    /// where that id would pass the largest number.
    pub open spec fn spec_map_id_down(&self, id: TokenId) -> Option<TokenId> {
        match self {
            TokenExpander::DeclarativeMacro { shift, .. } => if id == TokenId::spec_unspecified()
                || id.0 + shift.0 <= u32::MAX {
                Some(shift.spec_shift(id))
            } else {
                None
            },
            _ => Some(id),
        }
    }

    /// The id that the token `id` of the expansion had where it came from,
    /// and whether it came from the call or from the definition.
    pub open spec fn spec_map_id_up(&self, id: TokenId) -> (TokenId, Origin) {
        match self {
            TokenExpander::DeclarativeMacro { shift, .. } => match shift.spec_unshift(id) {
                Some(up) => (up, Origin::Call),
                None => (id, Origin::Def),
            },
            _ => (id, Origin::Call),
        }
    }

    #[verifier::when_used_as_spec(spec_map_id_down)]
    pub fn map_id_down(&self, id: TokenId) -> (r: Option<TokenId>)
        ensures
            r == self.spec_map_id_down(id),
    {
        match self {
            TokenExpander::DeclarativeMacro { shift, .. } => {
                if id.0 == 0xffff_ffff || id.0 <= u32::MAX - shift.0 {
                    Some(shift.shift(id))
                } else {
                    None
                }
            },
            _ => Some(id),
        }
    }

    #[verifier::when_used_as_spec(spec_map_id_up)]
    pub fn map_id_up(&self, id: TokenId) -> (r: (TokenId, Origin))
        ensures
            r == self.spec_map_id_up(id),
    {
        match self {
            TokenExpander::DeclarativeMacro { shift, .. } => match shift.unshift(id) {
                Some(up) => (up, Origin::Call),
                None => (id, Origin::Def),
            },
            _ => (id, Origin::Call),
        }
    }

    /// Only a declarative macro ever says that a token came from the
    /// definition.
    pub proof fn lemma_def_origin(&self, id: TokenId)
        ensures
            self.spec_map_id_up(id).1 == Origin::Def ==> self is DeclarativeMacro,
    {
    }

    /// The way down and the way up undo one another for a token of the
    /// call.
    pub proof fn lemma_up_down(&self, id: TokenId)
        requires
            id != TokenId::spec_unspecified(),
            self.spec_map_id_down(id) matches Some(down) && down != TokenId::spec_unspecified(),
        ensures
            self.spec_map_id_up(self.spec_map_id_down(id).unwrap()) == (id, Origin::Call),
    {
    }
}

/// The syntax tree of a file with the names of its nodes.
struct Parsed {
    tree: SyntaxTree,
    ast_ids: AstIdMap,
}

/// Whether what expands a call is known and is a declarative macro.
pub open spec fn is_declarative(def: Option<Arc<TokenExpander>>) -> bool {
    match def {
        Some(d) => *d is DeclarativeMacro,
        None => false,
    }
}

/// The files of the user and the macro calls, each named by the order in
/// which it came; and for each call, as far as it is known, what expands
/// it, its argument, and its expansion.
pub struct AstDatabase {
    files: Vec<Parsed>,
    calls: Vec<MacroCallLoc>,
    macro_defs: Vec<Option<Arc<TokenExpander>>>,
    macro_args: Vec<Option<Arc<(Subtree, TokenMap)>>>,
    expansions: Vec<Option<(Parsed, Arc<TokenMap>)>>,
}

impl AstDatabase {
    /// The number of files of the user.
    pub closed spec fn file_count(&self) -> int {
        self.files@.len() as int
    }

    /// The number of macro calls.
    pub closed spec fn call_count(&self) -> int {
        self.calls@.len() as int
    }

    /// Whether the call `id` has been interned.
    pub open spec fn has_call(&self, id: MacroCallId) -> bool {
        id.0 < self.call_count()
    }

    /// The call with the name `id`.
    pub closed spec fn spec_loc(&self, id: MacroCallId) -> MacroCallLoc {
        self.calls@[id.0 as int]
    }

    /// What expands the call `id`, where that is known.
    pub closed spec fn spec_macro_def(&self, id: MacroCallId) -> Option<Arc<TokenExpander>> {
        self.macro_defs@[id.0 as int]
    }

    /// The argument of the call `id` as a token tree with its token map,
    /// where that is known.
    pub closed spec fn spec_macro_arg(&self, id: MacroCallId) -> Option<Arc<(Subtree, TokenMap)>> {
        self.macro_args@[id.0 as int]
    }

    /// The token map of the expansion of the call `id`, where the call has
    /// been expanded.
    pub closed spec fn spec_exp_map(&self, id: MacroCallId) -> Option<Arc<TokenMap>> {
        match self.expansions@[id.0 as int] {
            Some(e) => Some(e.1),
            None => None,
        }
    }

    /// Whether the syntax tree of the file `file` is known: a file of the
    /// user must be there, a macro call must have been expanded.
    pub closed spec fn has_tree(&self, file: HirFileId) -> bool {
        match file.0 {
            HirFileIdRepr::FileId(f) => f.0 < self.files@.len(),
            HirFileIdRepr::MacroFile(m) => m.macro_call_id.0 < self.calls@.len()
                && self.expansions@[m.macro_call_id.0 as int].is_some(),
        }
    }

    /// The syntax tree of the file `file`.
    pub closed spec fn spec_tree(&self, file: HirFileId) -> SyntaxTree {
        match file.0 {
            HirFileIdRepr::FileId(f) => self.files@[f.0 as int].tree,
            HirFileIdRepr::MacroFile(m) => self.expansions@[m.macro_call_id.0 as int].unwrap().0.tree,
        }
    }

    /// The named nodes of the file `file`.
    pub closed spec fn spec_ast_ids(&self, file: HirFileId) -> Seq<usize> {
        match file.0 {
            HirFileIdRepr::FileId(f) => self.files@[f.0 as int].ast_ids@,
            HirFileIdRepr::MacroFile(m) => self.expansions@[m.macro_call_id.0 as int].unwrap().0.ast_ids@,
        }
    }

    /// Whether `id` names a node of a file whose syntax tree is known.
    pub open spec fn resolves(&self, id: AstId) -> bool {
        self.has_tree(id.file_id) && id.value.raw < self.spec_ast_ids(id.file_id).len()
    }

    /// The node that `id` names.
    pub open spec fn spec_to_node(&self, id: AstId) -> InFile<SyntaxNode> {
        InFile {
            file_id: id.file_id,
            value: SyntaxNode(self.spec_ast_ids(id.file_id)[id.value.raw as int]),
        }
    }

    spec fn parsed_wf(p: Parsed) -> bool {
        p.tree.wf() && p.ast_ids@ == named_nodes(&p.tree, p.tree.spec_len())
    }

    /// Every syntax tree is well formed and has its nodes named; every
    /// macro call stands at a named node of a file whose tree is known, and
    /// that file came before the call.
    pub closed spec fn wf(&self) -> bool {
        &&& self.files@.len() <= u32::MAX
        &&& self.calls@.len() < u32::MAX
        &&& self.macro_defs@.len() == self.calls@.len()
        &&& self.macro_args@.len() == self.calls@.len()
        &&& self.expansions@.len() == self.calls@.len()
        &&& forall|f: int| 0 <= f < self.files@.len() ==> Self::parsed_wf(#[trigger] self.files@[f])
        &&& forall|c: int|
            0 <= c < self.calls@.len() && (#[trigger] self.expansions@[c]).is_some()
                ==> Self::parsed_wf(self.expansions@[c].unwrap().0)
        &&& forall|c: int|
            0 <= c < self.calls@.len() ==> self.resolves((#[trigger] self.calls@[c])@.kind.ast_id())
                && self.calls@[c]@.kind.file_id().rank() <= c
        &&& forall|a: int, b: int|
            0 <= a < b < self.calls@.len() ==> (#[trigger] self.calls@[a])@ != (
            #[trigger] self.calls@[b])@
        &&& forall|c: int|
            0 <= c < self.calls@.len() && is_declarative(#[trigger] self.macro_defs@[c])
                ==> crate::expansion::spec_def_site(self, MacroCallId(c as u32)).is_some()
    }

    /// A call that a declarative macro expands has the definition of the
    /// macro at hand: such an expander is made of that definition.
    pub proof fn lemma_declarative(&self, id: MacroCallId)
        requires
            self.wf(),
            self.has_call(id),
            is_declarative(self.spec_macro_def(id)),
        ensures
            crate::expansion::spec_def_site(self, id).is_some(),
    {
        assert(is_declarative(self.macro_defs@[id.0 as int]));
    }

    /// A definition that is at hand stays at hand, and stays the same, when
    /// the database comes to know more.
    pub proof fn lemma_def_site_kept(&self, before: &AstDatabase, id: MacroCallId)
        requires
            before.has_call(id),
            forall|other: MacroCallId| #[trigger]
                before.has_call(other) ==> self.spec_loc(other) == before.spec_loc(other),
            forall|file: HirFileId| #[trigger]
                before.has_tree(file) ==> self.has_tree(file) && self.spec_tree(file)
                    == before.spec_tree(file) && self.spec_ast_ids(file) == before.spec_ast_ids(
                    file,
                ),
            crate::expansion::spec_def_site(before, id).is_some(),
        ensures
            crate::expansion::spec_def_site(self, id) == crate::expansion::spec_def_site(before, id),
    {
        let def_id = before.spec_loc(id)@.def.spec_ast_id();
        assert(before.has_call(id));
        assert(before.resolves(def_id));
        assert(before.has_tree(def_id.file_id));
    }

    /// A call has one name: two names of the same call are the same name.
    pub proof fn lemma_one_name(&self, a: MacroCallId, b: MacroCallId)
        requires
            self.wf(),
            self.has_call(a),
            self.has_call(b),
            self.spec_loc(a)@ == self.spec_loc(b)@,
        ensures
            a == b,
            HirFileId::of_call(a) == HirFileId::of_call(b),
    {
        if a.0 < b.0 {
            assert(self.calls@[a.0 as int]@ != self.calls@[b.0 as int]@);
        } else if b.0 < a.0 {
            assert(self.calls@[b.0 as int]@ != self.calls@[a.0 as int]@);
        }
    }

    /// What well-formedness says of the call `id`.
    pub proof fn lemma_call(&self, id: MacroCallId)
        requires
            self.wf(),
            self.has_call(id),
        ensures
            self.resolves(self.spec_loc(id)@.kind.ast_id()),
            self.spec_loc(id)@.kind.file_id().rank() < HirFileId::of_call(id).rank(),
            self.has_tree(self.spec_loc(id)@.kind.file_id()),
    {
        assert(self.resolves(self.calls@[id.0 as int]@.kind.ast_id()));
    }

    /// What well-formedness says of a file whose tree is known.
    pub proof fn lemma_tree(&self, file: HirFileId)
        requires
            self.wf(),
            self.has_tree(file),
        ensures
            self.spec_tree(file).wf(),
            self.spec_ast_ids(file) == named_nodes(
                &self.spec_tree(file),
                self.spec_tree(file).spec_len(),
            ),
            forall|k: int|
                0 <= k < self.spec_ast_ids(file).len() ==> self.spec_tree(file).has_node(
                    SyntaxNode(#[trigger] self.spec_ast_ids(file)[k]),
                ),
            file.0 matches HirFileIdRepr::MacroFile(m) ==> self.has_call(m.macro_call_id),
    {
        match file.0 {
            HirFileIdRepr::FileId(f) => {
                assert(Self::parsed_wf(self.files@[f.0 as int]));
            },
            HirFileIdRepr::MacroFile(m) => {
                assert(Self::parsed_wf(self.expansions@[m.macro_call_id.0 as int].unwrap().0));
            },
        }
        lemma_named_nodes(&self.spec_tree(file), self.spec_tree(file).spec_len());
    }

    /// A database that knows nothing yet: it holds no file and no call, and
    /// so the syntax tree of no file.
    pub fn new() -> (r: AstDatabase)
        ensures
            r.wf(),
            r.file_count() == 0,
            r.call_count() == 0,
            forall|file: HirFileId| !#[trigger] r.has_tree(file),
    {
        AstDatabase {
            files: Vec::new(),
            calls: Vec::new(),
            macro_defs: Vec::new(),
            macro_args: Vec::new(),
            expansions: Vec::new(),
        }
    }

    /// Whether the database is unchanged for all the files and calls that
    /// `before` knew.
    pub open spec fn extends(&self, before: &AstDatabase) -> bool {
        &&& before.file_count() <= self.file_count()
        &&& before.call_count() <= self.call_count()
        &&& forall|file: HirFileId| #[trigger]
            before.has_tree(file) ==> self.has_tree(file) && self.spec_tree(file)
                == before.spec_tree(file) && self.spec_ast_ids(file) == before.spec_ast_ids(file)
        &&& forall|id: MacroCallId| #[trigger]
            before.has_call(id) ==> self.spec_loc(id) == before.spec_loc(id)
    }

    /// Adds a file of the user with the syntax tree `tree`.
    pub fn add_file(&mut self, tree: SyntaxTree) -> (r: FileId)
        requires
            old(self).wf(),
            tree.wf(),
            old(self).file_count() < u32::MAX,
        ensures
            final(self).wf(),
            r.0 == old(self).file_count(),
            final(self).file_count() == old(self).file_count() + 1,
            final(self).call_count() == old(self).call_count(),
            final(self).has_tree(HirFileId::of_file(r)),
            final(self).spec_tree(HirFileId::of_file(r)) == tree,
            final(self).extends(old(self)),
            forall|id: MacroCallId| #[trigger]
                old(self).has_call(id) ==> final(self).spec_macro_def(id)
                    == old(self).spec_macro_def(id)
                    && final(self).spec_macro_arg(id) == old(self).spec_macro_arg(id)
                    && final(self).spec_exp_map(id) == old(self).spec_exp_map(id),
    {
        let ast_ids = AstIdMap::from_source(&tree);
        let r = FileId(self.files.len() as u32);
        self.files.push(Parsed { tree, ast_ids });
        proof {
            let pre = old(self);
            assert forall|f: int| 0 <= f < self.files@.len() implies Self::parsed_wf(
                #[trigger] self.files@[f],
            ) by {
                if f < pre.files@.len() {
                    assert(Self::parsed_wf(pre.files@[f]));
                }
            }
            assert forall|file: HirFileId| #[trigger] pre.has_tree(file) implies self.has_tree(file)
                && self.spec_tree(file) == pre.spec_tree(file) && self.spec_ast_ids(file)
                == pre.spec_ast_ids(file) by {}
            assert forall|c: int| 0 <= c < self.calls@.len() implies self.resolves(
                (#[trigger] self.calls@[c])@.kind.ast_id(),
            ) && self.calls@[c]@.kind.file_id().rank() <= c by {
                assert(pre.resolves(pre.calls@[c]@.kind.ast_id()));
                assert(pre.has_tree(pre.calls@[c]@.kind.ast_id().file_id));
            }
            assert forall|c: int|
                0 <= c < self.calls@.len() && is_declarative(
                    #[trigger] self.macro_defs@[c],
                ) implies crate::expansion::spec_def_site(self, MacroCallId(c as u32)).is_some() by {
                assert(is_declarative(pre.macro_defs@[c]));
                assert(pre.has_call(MacroCallId(c as u32)));
                self.lemma_def_site_kept(pre, MacroCallId(c as u32));
            }
        }
        r
    }

    /// The call with the name `id`.
    pub fn lookup_intern_macro(&self, id: MacroCallId) -> (r: &MacroCallLoc)
        requires
            self.has_call(id),
        ensures
            *r == self.spec_loc(id),
    {
        &self.calls[id.0 as usize]
    }

    /// The name of a call that is the same as `loc`, if one has been
    /// interned: the first of them.
    fn find_call(&self, loc: &MacroCallLoc) -> (r: Option<MacroCallId>)
        requires
            self.wf(),
        ensures
            match r {
                Some(id) => self.has_call(id) && self.spec_loc(id)@ == loc@ && forall|
                    other: MacroCallId,
                | other.0 < id.0 ==> self.spec_loc(other)@ != loc@,
                None => forall|other: MacroCallId| #[trigger]
                    self.has_call(other) ==> self.spec_loc(other)@ != loc@,
            },
    {
        let mut i: usize = 0;
        while i < self.calls.len()
            invariant
                self.wf(),
                i <= self.calls@.len(),
                forall|k: int| 0 <= k < i ==> (#[trigger] self.calls@[k])@ != loc@,
            decreases self.calls@.len() - i,
        {
            if self.calls[i].same(loc) {
                proof {
                    assert forall|other: MacroCallId| other.0 < i implies self.spec_loc(other)@
                        != loc@ by {
                        assert(self.calls@[other.0 as int]@ != loc@);
                    }
                }
                return Some(MacroCallId(i as u32));
            }
            i += 1;
        }
        proof {
            assert forall|other: MacroCallId| #[trigger] self.has_call(other) implies self.spec_loc(
                other,
            )@ != loc@ by {
                assert(self.calls@[other.0 as int]@ != loc@);
            }
        }
        None
    }

    /// Whether one more call can be interned: the names of calls are
    /// 32-bit numbers.
    pub open spec fn has_room(&self) -> bool {
        self.call_count() < u32::MAX - 1
    }

    /// Gives the call `loc` its name: the name that the same call got
    /// before, or a new one. The same call gets the same name, and the name
    /// leads back to the call.
    pub fn intern_macro(&mut self, loc: MacroCallLoc) -> (r: MacroCallId)
        requires
            old(self).wf(),
            old(self).resolves(loc@.kind.ast_id()),
            old(self).has_room(),
        ensures
            final(self).wf(),
            final(self).has_call(r),
            final(self).spec_loc(r)@ == loc@,
            final(self).extends(old(self)),
            final(self).file_count() == old(self).file_count(),
            (exists|id: MacroCallId| old(self).has_call(id) && old(self).spec_loc(id)@ == loc@)
                ==> old(self).has_call(r) && *final(self) == *old(self) && forall|
                other: MacroCallId,
            | other.0 < r.0 ==> old(self).spec_loc(other)@ != loc@,
            !(exists|id: MacroCallId| old(self).has_call(id) && old(self).spec_loc(id)@ == loc@)
                ==> r.0 == old(self).call_count()
                && final(self).call_count() == old(self).call_count() + 1
                && final(self).spec_macro_def(r).is_none()
                && final(self).spec_macro_arg(r).is_none()
                && !final(self).has_tree(HirFileId::of_call(r)),
            forall|id: MacroCallId| #[trigger]
                old(self).has_call(id) ==> final(self).spec_macro_def(id)
                    == old(self).spec_macro_def(id)
                    && final(self).spec_macro_arg(id) == old(self).spec_macro_arg(id)
                    && final(self).spec_exp_map(id) == old(self).spec_exp_map(id),
    {
        match self.find_call(&loc) {
            Some(id) => {
                proof {
                    assert(old(self).has_call(id) && old(self).spec_loc(id)@ == loc@);
                }
                id
            },
            None => {
                let r = MacroCallId(self.calls.len() as u32);
                let ghost file = loc@.kind.ast_id().file_id;
                proof {
                    assert(self.has_tree(file));
                    if file.0 is MacroFile {
                        assert(file.rank() <= self.calls@.len());
                    }
                }
                self.calls.push(loc);
                self.macro_defs.push(None);
                self.macro_args.push(None);
                self.expansions.push(None);
                proof {
                    let pre = old(self);
                    assert forall|file: HirFileId| #[trigger] pre.has_tree(file) implies self.has_tree(
                        file,
                    ) && self.spec_tree(file) == pre.spec_tree(file) && self.spec_ast_ids(file)
                        == pre.spec_ast_ids(file) by {}
                    assert forall|c: int|
                        0 <= c < self.calls@.len() && (
                        #[trigger] self.expansions@[c]).is_some() implies Self::parsed_wf(
                        self.expansions@[c].unwrap().0,
                    ) by {
                        assert(pre.expansions@[c].is_some());
                    }
                    assert forall|c: int| 0 <= c < self.calls@.len() implies self.resolves(
                        (#[trigger] self.calls@[c])@.kind.ast_id(),
                    ) && self.calls@[c]@.kind.file_id().rank() <= c by {
                        if c < pre.calls@.len() {
                            assert(pre.resolves(pre.calls@[c]@.kind.ast_id()));
                            assert(pre.has_tree(pre.calls@[c]@.kind.ast_id().file_id));
                        } else {
                            assert(pre.has_tree(file));
                        }
                    }
                    assert forall|a: int, b: int| 0 <= a < b < self.calls@.len() implies (
                    #[trigger] self.calls@[a])@ != (#[trigger] self.calls@[b])@ by {
                        if b < pre.calls@.len() {
                            assert(pre.calls@[a]@ != pre.calls@[b]@);
                        } else {
                            assert(pre.has_call(MacroCallId(a as u32)));
                            assert(pre.spec_loc(MacroCallId(a as u32))@ != loc@);
                        }
                    }
                    assert forall|c: int|
                        0 <= c < self.calls@.len() && is_declarative(
                            #[trigger] self.macro_defs@[c],
                        ) implies crate::expansion::spec_def_site(
                        self,
                        MacroCallId(c as u32),
                    ).is_some() by {
                        if c < pre.calls@.len() {
                            assert(is_declarative(pre.macro_defs@[c]));
                            assert(pre.has_call(MacroCallId(c as u32)));
                            self.lemma_def_site_kept(pre, MacroCallId(c as u32));
                        }
                    }
                }
                r
            },
        }
    }

    /// The syntax tree of the file `file`: what the user wrote parsed, or
    /// the expansion of the macro call; nothing where it is not known.
    pub fn parse_or_expand(&self, file: HirFileId) -> (r: Option<&SyntaxTree>)
        requires
            self.wf(),
        ensures
            r.is_some() == self.has_tree(file),
            r matches Some(tree) ==> *tree == self.spec_tree(file) && tree.wf(),
    {
        proof {
            if self.has_tree(file) {
                self.lemma_tree(file);
            }
        }
        match file.0 {
            HirFileIdRepr::FileId(f) => {
                if (f.0 as usize) < self.files.len() {
                    Some(&self.files[f.0 as usize].tree)
                } else {
                    None
                }
            },
            HirFileIdRepr::MacroFile(m) => {
                let c = m.macro_call_id.0 as usize;
                if c < self.expansions.len() {
                    match &self.expansions[c] {
                        Some(e) => Some(&e.0.tree),
                        None => None,
                    }
                } else {
                    None
                }
            },
        }
    }

    /// The named nodes of the file `file`; nothing where its syntax tree is
    /// not known.
    pub fn ast_id_map(&self, file: HirFileId) -> (r: Option<&AstIdMap>)
        requires
            self.wf(),
        ensures
            r.is_some() == self.has_tree(file),
            r matches Some(map) ==> map@ == self.spec_ast_ids(file),
    {
        match file.0 {
            HirFileIdRepr::FileId(f) => {
                if (f.0 as usize) < self.files.len() {
                    Some(&self.files[f.0 as usize].ast_ids)
                } else {
                    None
                }
            },
            HirFileIdRepr::MacroFile(m) => {
                let c = m.macro_call_id.0 as usize;
                if c < self.expansions.len() {
                    match &self.expansions[c] {
                        Some(e) => Some(&e.0.ast_ids),
                        None => None,
                    }
                } else {
                    None
                }
            },
        }
    }

    /// The node that `id` names, in its file.
    pub fn to_node(&self, id: AstId) -> (r: InFile<SyntaxNode>)
        requires
            self.wf(),
            self.resolves(id),
        ensures
            r == self.spec_to_node(id),
            self.spec_tree(id.file_id).has_node(r.value),
    {
        proof {
            self.lemma_tree(id.file_id);
        }
        let map = self.ast_id_map(id.file_id).unwrap();
        InFile { file_id: id.file_id, value: map.get(id.value) }
    }

    /// What expands the call `id`, where that is known.
    pub fn macro_def(&self, id: MacroCallId) -> (r: Option<Arc<TokenExpander>>)
        requires
            self.wf(),
            self.has_call(id),
        ensures
            r == self.spec_macro_def(id),
    {
        match &self.macro_defs[id.0 as usize] {
            Some(def) => Some(def.clone()),
            None => None,
        }
    }

    /// The argument of the call `id` as a token tree with its token map,
    /// where that is known.
    pub fn macro_arg(&self, id: MacroCallId) -> (r: Option<Arc<(Subtree, TokenMap)>>)
        requires
            self.wf(),
            self.has_call(id),
        ensures
            r == self.spec_macro_arg(id),
    {
        match &self.macro_args[id.0 as usize] {
            Some(arg) => Some(arg.clone()),
            None => None,
        }
    }

    /// The expansion of the macro call behind `file`: its syntax tree and
    /// its token map, where the call has been expanded.
    pub fn parse_macro_expansion(&self, file: MacroFile) -> (r: Option<(&SyntaxTree, Arc<TokenMap>)>)
        requires
            self.wf(),
            self.has_call(file.macro_call_id),
        ensures
            r.is_some() == self.has_tree(HirFileId::of_call(file.macro_call_id)),
            r matches Some(pair) ==> *pair.0 == self.spec_tree(
                HirFileId::of_call(file.macro_call_id),
            ) && pair.0.wf() && Some(pair.1) == self.spec_exp_map(file.macro_call_id),
    {
        proof {
            if self.has_tree(HirFileId::of_call(file.macro_call_id)) {
                self.lemma_tree(HirFileId::of_call(file.macro_call_id));
            }
        }
        match &self.expansions[file.macro_call_id.0 as usize] {
            Some(e) => Some((&e.0.tree, e.1.clone())),
            None => None,
        }
    }
}

impl AstDatabase {
    /// Whether nothing but what is known of the call `id` differs from
    /// `before`.
    pub open spec fn same_but_call(&self, before: &AstDatabase, id: MacroCallId) -> bool {
        &&& self.file_count() == before.file_count()
        &&& self.call_count() == before.call_count()
        &&& forall|other: MacroCallId| #[trigger]
            before.has_call(other) ==> self.spec_loc(other) == before.spec_loc(other)
        &&& forall|other: MacroCallId| #[trigger]
            before.has_call(other) && other != id ==> self.spec_macro_def(other)
                == before.spec_macro_def(other) && self.spec_macro_arg(other)
                == before.spec_macro_arg(other) && self.spec_exp_map(other) == before.spec_exp_map(
                other,
            )
        &&& forall|file: HirFileId| #[trigger]
            before.has_tree(file) ==> self.has_tree(file) && self.spec_tree(file)
                == before.spec_tree(file) && self.spec_ast_ids(file) == before.spec_ast_ids(file)
        &&& forall|file: HirFileId| #[trigger]
            self.has_tree(file) && file != HirFileId::of_call(id) ==> before.has_tree(file)
    }

    /// Records what expands the call `id`, and says whether it did. A
    /// declarative macro is made of its definition: it is not recorded for
    /// a call whose macro has no definition at hand, and the database then
    /// stays as it is.
    pub fn set_macro_def(&mut self, id: MacroCallId, def: Arc<TokenExpander>) -> (recorded: bool)
        requires
            old(self).wf(),
            old(self).has_call(id),
        ensures
            final(self).wf(),
            recorded == !(*def is DeclarativeMacro && crate::expansion::spec_def_site(
                old(self),
                id,
            ).is_none()),
            !recorded ==> *final(self) == *old(self),
            final(self).same_but_call(old(self), id),
            recorded ==> final(self).spec_macro_def(id) == Some(def),
            final(self).spec_macro_arg(id) == old(self).spec_macro_arg(id),
            final(self).spec_exp_map(id) == old(self).spec_exp_map(id),
            final(self).has_tree(HirFileId::of_call(id)) == old(self).has_tree(HirFileId::of_call(id)),
    {
        let declarative = match &*def {
            TokenExpander::DeclarativeMacro { .. } => true,
            _ => false,
        };
        if declarative && crate::expansion::def_site(self, id).is_none() {
            return false;
        }
        self.macro_defs.set(id.0 as usize, Some(def));
        proof {
            let pre = old(self);
            assert forall|c: int| 0 <= c < self.calls@.len() implies self.resolves(
                (#[trigger] self.calls@[c])@.kind.ast_id(),
            ) && self.calls@[c]@.kind.file_id().rank() <= c by {
                assert(pre.resolves(pre.calls@[c]@.kind.ast_id()));
            }
            assert forall|c: int|
                0 <= c < self.calls@.len() && is_declarative(
                    #[trigger] self.macro_defs@[c],
                ) implies crate::expansion::spec_def_site(self, MacroCallId(c as u32)).is_some() by {
                if c != id.0 {
                    assert(is_declarative(pre.macro_defs@[c]));
                }
                assert(pre.has_call(MacroCallId(c as u32)));
                self.lemma_def_site_kept(pre, MacroCallId(c as u32));
            }
        }
        true
    }

    /// Records the argument of the call `id`.
    pub fn set_macro_arg(&mut self, id: MacroCallId, arg: Arc<(Subtree, TokenMap)>)
        requires
            old(self).wf(),
            old(self).has_call(id),
        ensures
            final(self).wf(),
            final(self).same_but_call(old(self), id),
            final(self).spec_macro_arg(id) == Some(arg),
            final(self).spec_macro_def(id) == old(self).spec_macro_def(id),
            final(self).spec_exp_map(id) == old(self).spec_exp_map(id),
            final(self).has_tree(HirFileId::of_call(id)) == old(self).has_tree(HirFileId::of_call(id)),
    {
        self.macro_args.set(id.0 as usize, Some(arg));
        proof {
            let pre = old(self);
            assert forall|c: int| 0 <= c < self.calls@.len() implies self.resolves(
                (#[trigger] self.calls@[c])@.kind.ast_id(),
            ) && self.calls@[c]@.kind.file_id().rank() <= c by {
                assert(pre.resolves(pre.calls@[c]@.kind.ast_id()));
            }
            assert forall|c: int|
                0 <= c < self.calls@.len() && is_declarative(
                    #[trigger] self.macro_defs@[c],
                ) implies crate::expansion::spec_def_site(self, MacroCallId(c as u32)).is_some() by {
                assert(is_declarative(pre.macro_defs@[c]));
                assert(pre.has_call(MacroCallId(c as u32)));
                self.lemma_def_site_kept(pre, MacroCallId(c as u32));
            }
        }
    }

    /// Records the expansion of the call `id`: its syntax tree and its
    /// token map. A call is expanded once.
    pub fn set_expansion(&mut self, id: MacroCallId, tree: SyntaxTree, exp_map: Arc<TokenMap>)
        requires
            old(self).wf(),
            old(self).has_call(id),
            !old(self).has_tree(HirFileId::of_call(id)),
            tree.wf(),
        ensures
            final(self).wf(),
            final(self).same_but_call(old(self), id),
            final(self).has_tree(HirFileId::of_call(id)),
            final(self).spec_tree(HirFileId::of_call(id)) == tree,
            final(self).spec_exp_map(id) == Some(exp_map),
            final(self).spec_macro_def(id) == old(self).spec_macro_def(id),
            final(self).spec_macro_arg(id) == old(self).spec_macro_arg(id),
    {
        let ast_ids = AstIdMap::from_source(&tree);
        self.expansions.set(id.0 as usize, Some((Parsed { tree, ast_ids }, exp_map)));
        proof {
            let pre = old(self);
            assert forall|file: HirFileId| #[trigger] pre.has_tree(file) implies self.has_tree(file)
                && self.spec_tree(file) == pre.spec_tree(file) && self.spec_ast_ids(file)
                == pre.spec_ast_ids(file) by {}
            assert forall|c: int|
                0 <= c < self.calls@.len() && (
                #[trigger] self.expansions@[c]).is_some() implies Self::parsed_wf(
                self.expansions@[c].unwrap().0,
            ) by {
                if c != id.0 {
                    assert(pre.expansions@[c].is_some());
                }
            }
            assert forall|c: int| 0 <= c < self.calls@.len() implies self.resolves(
                (#[trigger] self.calls@[c])@.kind.ast_id(),
            ) && self.calls@[c]@.kind.file_id().rank() <= c by {
                assert(pre.resolves(pre.calls@[c]@.kind.ast_id()));
                assert(pre.has_tree(pre.calls@[c]@.kind.ast_id().file_id));
            }
            assert forall|c: int|
                0 <= c < self.calls@.len() && is_declarative(
                    #[trigger] self.macro_defs@[c],
                ) implies crate::expansion::spec_def_site(self, MacroCallId(c as u32)).is_some() by {
                assert(is_declarative(pre.macro_defs@[c]));
                assert(pre.has_call(MacroCallId(c as u32)));
                self.lemma_def_site_kept(pre, MacroCallId(c as u32));
            }
        }
    }

    /// Whether `file` is a file of the user or the file of a call that has
    /// been interned.
    pub open spec fn knows(&self, file: HirFileId) -> bool {
        match file.0 {
            HirFileIdRepr::FileId(_) => true,
            HirFileIdRepr::MacroFile(m) => self.has_call(m.macro_call_id),
        }
    }

    /// The file that the call behind `file` stands in; `file` itself for a
    /// file of the user.
    pub open spec fn parent_file(&self, file: HirFileId) -> HirFileId {
        match file.0 {
            HirFileIdRepr::FileId(_) => file,
            HirFileIdRepr::MacroFile(m) => self.spec_loc(m.macro_call_id)@.kind.file_id(),
        }
    }

    /// The file of the user that `file` goes back to: the file itself, or
    /// the file that the call behind it includes, or what the file that the
    /// call stands in goes back to.
    pub open spec fn spec_original_file(&self, file: HirFileId) -> FileId
        decreases file.rank(),
    {
        match file.0 {
            HirFileIdRepr::FileId(f) => f,
            HirFileIdRepr::MacroFile(m) => match self.spec_loc(m.macro_call_id)@.included_file() {
                Some(f) => f,
                None => if 0 <= self.parent_file(file).rank() < file.rank() {
                    self.spec_original_file(self.parent_file(file))
                } else {
                    FileId(0)
                },
            },
        }
    }

    /// How many macro calls lie between `file` and a file of the user.
    pub open spec fn spec_expansion_level(&self, file: HirFileId) -> int
        decreases file.rank(),
    {
        match file.0 {
            HirFileIdRepr::FileId(_) => 0,
            HirFileIdRepr::MacroFile(_) => if 0 <= self.parent_file(file).rank() < file.rank() {
                1 + self.spec_expansion_level(self.parent_file(file))
            } else {
                1
            },
        }
    }

    /// The node of the call behind `file`, in the file that the call stands
    /// in; nothing for a file of the user.
    pub open spec fn spec_call_node(&self, file: HirFileId) -> Option<InFile<SyntaxNode>> {
        match file.0 {
            HirFileIdRepr::FileId(_) => None,
            HirFileIdRepr::MacroFile(m) => Some(
                self.spec_to_node(self.spec_loc(m.macro_call_id)@.kind.ast_id()),
            ),
        }
    }

    /// The file that a call stands in is known, and lies nearer to the
    /// files of the user than the file of the call.
    pub proof fn lemma_parent(&self, file: HirFileId)
        requires
            self.wf(),
            self.knows(file),
            file.spec_is_macro(),
        ensures
            self.knows(self.parent_file(file)),
            self.has_tree(self.parent_file(file)),
            0 <= self.parent_file(file).rank() < file.rank(),
            self.spec_call_node(file) matches Some(node) && node.file_id == self.parent_file(file)
                && self.spec_tree(node.file_id).has_node(node.value),
    {
        let m = file.0->MacroFile_0;
        self.lemma_call(m.macro_call_id);
        self.lemma_tree(self.parent_file(file));
    }

    /// A file of the user is no level away from itself, and the file of a
    /// macro call is one level further than the file that the call stands
    /// in.
    pub proof fn lemma_expansion_level(&self, file: HirFileId)
        requires
            self.wf(),
            self.knows(file),
        ensures
            !file.spec_is_macro() ==> self.spec_expansion_level(file) == 0,
            file.spec_is_macro() ==> self.spec_expansion_level(file) == 1
                + self.spec_expansion_level(self.parent_file(file)),
            0 <= self.spec_expansion_level(file) <= file.rank(),
        decreases file.rank(),
    {
        if file.spec_is_macro() {
            self.lemma_parent(file);
            self.lemma_expansion_level(self.parent_file(file));
        }
    }
}

/// Whether nodes of kind `kind` are items.
pub open spec fn spec_is_item(kind: SyntaxKind) -> bool {
    matches!(
        kind,
        SyntaxKind::CONST | SyntaxKind::ENUM | SyntaxKind::EXTERN_BLOCK | SyntaxKind::EXTERN_CRATE
            | SyntaxKind::FN | SyntaxKind::IMPL | SyntaxKind::MACRO_CALL | SyntaxKind::MACRO_RULES
            | SyntaxKind::MACRO_DEF | SyntaxKind::MODULE | SyntaxKind::STATIC | SyntaxKind::STRUCT
            | SyntaxKind::TRAIT | SyntaxKind::TYPE_ALIAS | SyntaxKind::UNION | SyntaxKind::USE
    )
}

#[verifier::when_used_as_spec(spec_is_item)]
pub fn is_item(kind: SyntaxKind) -> (r: bool)
    ensures
        r == spec_is_item(kind),
{
    matches!(
        kind,
        SyntaxKind::CONST | SyntaxKind::ENUM | SyntaxKind::EXTERN_BLOCK | SyntaxKind::EXTERN_CRATE
            | SyntaxKind::FN | SyntaxKind::IMPL | SyntaxKind::MACRO_CALL | SyntaxKind::MACRO_RULES
            | SyntaxKind::MACRO_DEF | SyntaxKind::MODULE | SyntaxKind::STATIC | SyntaxKind::STRUCT
            | SyntaxKind::TRAIT | SyntaxKind::TYPE_ALIAS | SyntaxKind::UNION | SyntaxKind::USE
    )
}

impl HirFileId {
    /// The file of the user that this file goes back to. For the file of a
    /// call that includes a file it is the included file.
    pub fn original_file(self, db: &AstDatabase) -> (r: FileId)
        requires
            db.wf(),
            db.knows(self),
        ensures
            r == db.spec_original_file(self),
    {
        let mut cur = self;
        loop
            invariant
                db.wf(),
                db.knows(cur),
                db.spec_original_file(cur) == db.spec_original_file(self),
            decreases cur.rank(),
        {
            match cur.0 {
                HirFileIdRepr::FileId(f) => {
                    return f;
                },
                HirFileIdRepr::MacroFile(m) => {
                    let loc = db.lookup_intern_macro(m.macro_call_id);
                    match loc.included_file() {
                        Some(f) => {
                            return f;
                        },
                        None => {
                            proof {
                                db.lemma_parent(cur);
                            }
                            cur = loc.kind.file_id();
                        },
                    }
                },
            }
        }
    }

    /// How many macro calls lie between this file and a file of the user.
    pub fn expansion_level(self, db: &AstDatabase) -> (r: u32)
        requires
            db.wf(),
            db.knows(self),
        ensures
            r == db.spec_expansion_level(self),
    {
        let mut level: u32 = 0;
        let mut cur = self;
        proof {
            db.lemma_expansion_level(self);
            db.lemma_rank_bound(self);
        }
        loop
            invariant
                db.wf(),
                db.knows(cur),
                level + db.spec_expansion_level(cur) == db.spec_expansion_level(self),
                db.spec_expansion_level(self) <= u32::MAX,
                0 <= db.spec_expansion_level(cur),
            decreases cur.rank(),
        {
            match cur.0 {
                HirFileIdRepr::FileId(_) => {
                    return level;
                },
                HirFileIdRepr::MacroFile(m) => {
                    let loc = db.lookup_intern_macro(m.macro_call_id);
                    proof {
                        db.lemma_parent(cur);
                        db.lemma_expansion_level(cur);
                        db.lemma_expansion_level(db.parent_file(cur));
                    }
                    level = level + 1;
                    cur = loc.kind.file_id();
                },
            }
        }
    }

    /// The node of the macro call that produced this file, in the file
    /// that the call stands in; nothing for a file of the user.
    pub fn call_node(self, db: &AstDatabase) -> (r: Option<InFile<SyntaxNode>>)
        requires
            db.wf(),
            db.knows(self),
        ensures
            r == db.spec_call_node(self),
            r matches Some(node) ==> db.has_tree(node.file_id) && db.spec_tree(
                node.file_id,
            ).has_node(node.value) && node.file_id == db.parent_file(self) && node.file_id.rank()
                < self.rank() && db.knows(node.file_id),
    {
        match self.0 {
            HirFileIdRepr::FileId(_) => None,
            HirFileIdRepr::MacroFile(m) => {
                let loc = db.lookup_intern_macro(m.macro_call_id);
                proof {
                    db.lemma_parent(self);
                }
                Some(db.to_node(loc.kind.ast_id()))
            },
        }
    }

    /// The item that carries the `derive` attribute, where this file came
    /// of a derive macro of the compiler.
    pub fn is_builtin_derive(&self, db: &AstDatabase) -> (r: Option<InFile<SyntaxNode>>)
        requires
            db.wf(),
            db.knows(*self),
        ensures
            r == match self.0 {
                HirFileIdRepr::FileId(_) => None,
                HirFileIdRepr::MacroFile(m) => {
                    let loc = db.spec_loc(m.macro_call_id)@;
                    let item = db.spec_to_node(loc.kind.ast_id());
                    if loc.def.kind is BuiltInDerive && spec_is_item(
                        db.spec_tree(item.file_id).kind_at(item.value.0 as int),
                    ) {
                        Some(item)
                    } else {
                        None
                    }
                },
            },
    {
        match self.0 {
            HirFileIdRepr::FileId(_) => None,
            HirFileIdRepr::MacroFile(m) => {
                let loc = db.lookup_intern_macro(m.macro_call_id);
                proof {
                    db.lemma_parent(*self);
                }
                match loc.def.kind {
                    MacroDefKind::BuiltInDerive(_, _) => {
                        let item = db.to_node(loc.kind.ast_id());
                        let tree = db.parse_or_expand(item.file_id).unwrap();
                        if is_item(tree.kind(item.value.0)) {
                            Some(item)
                        } else {
                            None
                        }
                    },
                    _ => None,
                }
            },
        }
    }

    /// Whether this file came of a procedural derive macro.
    pub fn is_custom_derive(&self, db: &AstDatabase) -> (r: bool)
        requires
            db.knows(*self),
        ensures
            r == match self.0 {
                HirFileIdRepr::FileId(_) => false,
                HirFileIdRepr::MacroFile(m) => db.spec_loc(m.macro_call_id)@.def.kind matches MacroDefKind::ProcMacro(
                    _,
                    ProcMacroKind::CustomDerive,
                    _,
                ),
            },
    {
        match self.0 {
            HirFileIdRepr::FileId(_) => false,
            HirFileIdRepr::MacroFile(m) => {
                let loc = db.lookup_intern_macro(m.macro_call_id);
                match loc.def.kind {
                    MacroDefKind::ProcMacro(_, ProcMacroKind::CustomDerive, _) => true,
                    _ => false,
                }
            },
        }
    }

    /// Whether this file came of a macro call that includes a file.
    pub fn is_include_macro(&self, db: &AstDatabase) -> (r: bool)
        requires
            db.knows(*self),
        ensures
            r == match self.0 {
                HirFileIdRepr::FileId(_) => false,
                HirFileIdRepr::MacroFile(m) => db.spec_loc(m.macro_call_id)@.included_file().is_some(),
            },
    {
        match self.0 {
            HirFileIdRepr::MacroFile(m) => {
                let loc = db.lookup_intern_macro(m.macro_call_id);
                loc.included_file().is_some()
            },
            HirFileIdRepr::FileId(_) => false,
        }
    }

    /// Whether this file came of an attribute macro.
    pub fn is_attr_macro(&self, db: &AstDatabase) -> (r: bool)
        requires
            db.knows(*self),
        ensures
            r == match self.0 {
                HirFileIdRepr::FileId(_) => false,
                HirFileIdRepr::MacroFile(m) => db.spec_loc(m.macro_call_id)@.kind is Attr,
            },
    {
        match self.0 {
            HirFileIdRepr::MacroFile(m) => {
                let loc = db.lookup_intern_macro(m.macro_call_id);
                match loc.kind {
                    crate::macro_call::MacroCallKind::Attr { .. } => true,
                    _ => false,
                }
            },
            HirFileIdRepr::FileId(_) => false,
        }
    }
}

impl AstDatabase {
    /// A file is never further from the files of the user than there are
    /// names for calls.
    pub proof fn lemma_rank_bound(&self, file: HirFileId)
        requires
            self.wf(),
            self.knows(file),
        ensures
            file.rank() <= u32::MAX,
    {
    }
}

impl crate::macro_call::MacroCallKind {
    /// The node that the call stands at, in its file.
    pub fn to_node(&self, db: &AstDatabase) -> (r: InFile<SyntaxNode>)
        requires
            db.wf(),
            db.resolves(self@.ast_id()),
        ensures
            r == db.spec_to_node(self@.ast_id()),
            db.spec_tree(r.file_id).has_node(r.value),
    {
        db.to_node(self.ast_id())
    }
}

/// The call of the macro `def` from the crate `krate` that `kind` tells
/// of, with nothing expanded ahead of it.
pub open spec fn lazy_loc(
    def: crate::macro_call::MacroDefId,
    krate: crate::ids::CrateId,
    kind: crate::macro_call::MacroCallKindView,
) -> MacroCallLocView {
    MacroCallLocView { def, krate, eager: None, kind }
}

impl crate::macro_call::MacroDefId {
    /// Interns the call of this macro from the crate `krate` that `kind`
    /// tells of, and gives the name of the call: the name that the same
    /// call got before, or a new one, for which nothing is known yet. What
    /// the database knew before stays as it was.
    pub fn as_lazy_macro(
        self,
        db: &mut AstDatabase,
        krate: crate::ids::CrateId,
        kind: crate::macro_call::MacroCallKind,
    ) -> (r: MacroCallId)
        requires
            old(db).wf(),
            old(db).resolves(kind@.ast_id()),
            old(db).has_room(),
        ensures
            final(db).wf(),
            final(db).has_call(r),
            final(db).spec_loc(r)@ == lazy_loc(self, krate, kind@),
            final(db).extends(old(db)),
            final(db).file_count() == old(db).file_count(),
            (exists|id: MacroCallId|
                old(db).has_call(id) && old(db).spec_loc(id)@ == lazy_loc(self, krate, kind@))
                ==> old(db).has_call(r) && *final(db) == *old(db) && forall|other: MacroCallId|
                other.0 < r.0 ==> old(db).spec_loc(other)@ != lazy_loc(self, krate, kind@),
            !(exists|id: MacroCallId|
                old(db).has_call(id) && old(db).spec_loc(id)@ == lazy_loc(self, krate, kind@))
                ==> r.0 == old(db).call_count()
                && final(db).call_count() == old(db).call_count() + 1
                && final(db).spec_macro_def(r).is_none()
                && final(db).spec_macro_arg(r).is_none()
                && !final(db).has_tree(HirFileId::of_call(r)),
            forall|id: MacroCallId| #[trigger]
                old(db).has_call(id) ==> final(db).spec_macro_def(id)
                    == old(db).spec_macro_def(id)
                    && final(db).spec_macro_arg(id) == old(db).spec_macro_arg(id)
                    && final(db).spec_exp_map(id) == old(db).spec_exp_map(id),
    {
        db.intern_macro(MacroCallLoc { def: self, krate, eager: None, kind })
    }
}

} // verus!
