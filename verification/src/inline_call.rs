//! Inlining a call of a function: what of the call and of the function is
//! found in the syntax, and what is decided from it. The text that replaces
//! the call is put together by the caller.

use crate::ast::{
    child_in_class, child_node, child_token, is_expr, spec_child_in_class, spec_child_node,
    spec_child_token, spec_is_expr, NodeClass,
};
use crate::db::is_item;
use crate::ids::{FileId, FileRange};
use crate::syntax::{SyntaxElement, SyntaxNode, SyntaxTree};
use crate::text::TextRange;
use crate::syntax_kind::SyntaxKind;
use vstd::prelude::*;

verus! {

/// The call that is inlined: a call of a path, or a method call.
#[derive(Clone, Copy, Debug, PartialEq, Eq, Hash, Structural)]
pub enum CallableExpr {
    Call(SyntaxNode),
    MethodCall(SyntaxNode),
}

/// What the syntax tells of a call: the call itself, its arguments (for a
/// method call the receiver first), and the generic arguments where some
/// are given.
#[derive(Debug, PartialEq, Eq)]
pub struct CallInfo {
    pub node: CallableExpr,
    pub arguments: Vec<SyntaxNode>,
    pub generic_arg_list: Option<SyntaxNode>,
}

/// The children of a node from position `c` on that are expressions.
pub open spec fn spec_exprs_from(tree: &SyntaxTree, c: int, end: int) -> Seq<SyntaxNode>
    decreases end - c,
{
    if c >= end || c < 0 || tree.end_at(c) <= c || tree.end_at(c) > end {
        Seq::empty()
    } else if !tree.token_at(c) && spec_is_expr(tree.kind_at(c)) {
        seq![SyntaxNode(c as usize)] + spec_exprs_from(tree, tree.end_at(c), end)
    } else {
        spec_exprs_from(tree, tree.end_at(c), end)
    }
}

/// The children of the node `n` that are expressions.
pub open spec fn spec_child_exprs(tree: &SyntaxTree, n: int) -> Seq<SyntaxNode> {
    spec_exprs_from(tree, n + 1, tree.end_at(n))
}

/// The children of the node `n` that are expressions.
pub fn child_exprs(tree: &SyntaxTree, n: SyntaxNode) -> (r: Vec<SyntaxNode>)
    requires
        tree.wf(),
        tree.has_node(n),
    ensures
        r@ == spec_child_exprs(tree, n.0 as int),
        forall|k: int| 0 <= k < r@.len() ==> tree.has_node(#[trigger] r@[k]) && n.0 < r@[k].0,
{
    let end = tree.subtree_end(n.0);
    let mut out: Vec<SyntaxNode> = Vec::new();
    let mut c = n.0 + 1;
    proof {
        assert(out@ + spec_exprs_from(tree, c as int, end as int) =~= spec_child_exprs(
            tree,
            n.0 as int,
        ));
    }
    while c < end
        invariant_except_break
            out@ + spec_exprs_from(tree, c as int, end as int) == spec_child_exprs(tree, n.0 as int),
        invariant
            tree.wf(),
            n.0 < c,
            end == tree.end_at(n.0 as int),
            end <= tree.spec_len(),
            forall|k: int|
                0 <= k < out@.len() ==> tree.has_node(#[trigger] out@[k]) && n.0 < out@[k].0,
        ensures
            out@ == spec_child_exprs(tree, n.0 as int),
            forall|k: int|
                0 <= k < out@.len() ==> tree.has_node(#[trigger] out@[k]) && n.0 < out@[k].0,
        decreases end - c,
    {
        let next = tree.subtree_end(c);
        if next > end {
            proof {
                assert(out@ + Seq::<SyntaxNode>::empty() =~= out@);
            }
            break ;
        }
        let ghost before = out@;
        let ghost rest = spec_exprs_from(tree, next as int, end as int);
        if !tree.is_token(c) && is_expr(tree.kind(c)) {
            out.push(SyntaxNode(c));
            proof {
                assert(before.push(SyntaxNode(c)) + rest =~= before + (seq![SyntaxNode(c)] + rest));
            }
        }
        c = next;
    }
    proof {
        if c >= end {
            assert(out@ + Seq::<SyntaxNode>::empty() =~= out@);
        }
    }
    out
}

/// What a [`CallInfo`] is.
pub struct CallInfoView {
    pub node: CallableExpr,
    pub arguments: Seq<SyntaxNode>,
    pub generic_arg_list: Option<SyntaxNode>,
}

/// The node with the position `n`, where there is one.
pub open spec fn node_at(n: Option<int>) -> Option<SyntaxNode> {
    match n {
        Some(n) => Some(SyntaxNode(n as usize)),
        None => None,
    }
}

/// The parent of the node `n` where it has the kind `kind`.
pub open spec fn spec_parent_of_kind(tree: &SyntaxTree, n: int, kind: SyntaxKind) -> Option<int> {
    if n != 0 && tree.kind_at(tree.parent_at(n)) == kind {
        Some(tree.parent_at(n))
    } else {
        None
    }
}

/// The call that the name at position `name_ref` is the name of.
pub open spec fn spec_from_name_ref(tree: &SyntaxTree, name_ref: int) -> Option<CallInfoView> {
    if name_ref == 0 {
        None
    } else {
        let parent = tree.parent_at(name_ref);
        if tree.kind_at(parent) == SyntaxKind::METHOD_CALL_EXPR {
            let exprs = spec_child_exprs(tree, parent);
            match spec_child_node(tree, parent, SyntaxKind::ARG_LIST) {
                Some(args) => if exprs.len() == 0 {
                    None
                } else {
                    Some(
                        CallInfoView {
                            node: CallableExpr::MethodCall(SyntaxNode(parent as usize)),
                            arguments: seq![exprs[0]] + spec_child_exprs(tree, args),
                            generic_arg_list: node_at(
                                spec_child_node(tree, parent, SyntaxKind::GENERIC_ARG_LIST),
                            ),
                        },
                    )
                },
                None => None,
            }
        } else if tree.kind_at(parent) == SyntaxKind::PATH_SEGMENT {
            match spec_parent_of_kind(tree, parent, SyntaxKind::PATH) {
                None => None,
                Some(path) => match spec_parent_of_kind(tree, path, SyntaxKind::PATH_EXPR) {
                    None => None,
                    Some(path_expr) => match spec_parent_of_kind(
                        tree,
                        path_expr,
                        SyntaxKind::CALL_EXPR,
                    ) {
                        None => None,
                        Some(call) => match spec_child_node(tree, call, SyntaxKind::ARG_LIST) {
                            None => None,
                            Some(args) => Some(
                                CallInfoView {
                                    node: CallableExpr::Call(SyntaxNode(call as usize)),
                                    arguments: spec_child_exprs(tree, args),
                                    generic_arg_list: node_at(
                                        spec_child_node(tree, parent, SyntaxKind::GENERIC_ARG_LIST),
                                    ),
                                },
                            ),
                        },
                    },
                },
            }
        } else {
            None
        }
    }
}

impl CallInfo {
    /// The call that the name `name_ref` is the name of: a method call
    /// whose method it names, or a call of the path that it ends. There is
    /// none where the name stands elsewhere, where a method call has no
    /// receiver, or where the list of arguments is missing.
    pub fn from_name_ref(tree: &SyntaxTree, name_ref: SyntaxNode) -> (r: Option<CallInfo>)
        requires
            tree.wf(),
            tree.has_node(name_ref),
        ensures
            match r {
                Some(info) => spec_from_name_ref(tree, name_ref.0 as int) == Some(
                    CallInfoView {
                        node: info.node,
                        arguments: info.arguments@,
                        generic_arg_list: info.generic_arg_list,
                    },
                ),
                None => spec_from_name_ref(tree, name_ref.0 as int).is_none(),
            },
            r matches Some(info) ==> forall|k: int|
                0 <= k < info.arguments@.len() ==> tree.has_node(#[trigger] info.arguments@[k]),
    {
        let parent = match tree.parent(name_ref.0) {
            Some(p) => p,
            None => {
                return None;
            },
        };
        let kind = tree.kind(parent.0);
        if kind == SyntaxKind::METHOD_CALL_EXPR {
            let exprs = child_exprs(tree, parent);
            if exprs.len() == 0 {
                return None;
            }
            let receiver = exprs[0];
            let args = match child_node(tree, parent, SyntaxKind::ARG_LIST) {
                Some(a) => a,
                None => {
                    return None;
                },
            };
            let mut arguments: Vec<SyntaxNode> = Vec::new();
            arguments.push(receiver);
            let mut rest = child_exprs(tree, args);
            arguments.append(&mut rest);
            Some(
                CallInfo {
                    generic_arg_list: child_node(tree, parent, SyntaxKind::GENERIC_ARG_LIST),
                    node: CallableExpr::MethodCall(parent),
                    arguments,
                },
            )
        } else if kind == SyntaxKind::PATH_SEGMENT {
            let path = match parent_of_kind(tree, parent, SyntaxKind::PATH) {
                Some(p) => p,
                None => {
                    return None;
                },
            };
            let path_expr = match parent_of_kind(tree, path, SyntaxKind::PATH_EXPR) {
                Some(p) => p,
                None => {
                    return None;
                },
            };
            let call = match parent_of_kind(tree, path_expr, SyntaxKind::CALL_EXPR) {
                Some(p) => p,
                None => {
                    return None;
                },
            };
            let args = match child_node(tree, call, SyntaxKind::ARG_LIST) {
                Some(a) => a,
                None => {
                    return None;
                },
            };
            Some(
                CallInfo {
                    arguments: child_exprs(tree, args),
                    node: CallableExpr::Call(call),
                    generic_arg_list: child_node(tree, parent, SyntaxKind::GENERIC_ARG_LIST),
                },
            )
        } else {
            None
        }
    }
}

/// The parent of the node `n` where it has the kind `kind`.
fn parent_of_kind(tree: &SyntaxTree, n: SyntaxNode, kind: SyntaxKind) -> (r: Option<SyntaxNode>)
    requires
        tree.wf(),
        tree.has_node(n),
    ensures
        spec_parent_of_kind(tree, n.0 as int, kind) == match r {
            Some(p) => Some(p.0 as int),
            None => None,
        },
        r matches Some(p) ==> tree.has_node(p),
{
    match tree.parent(n.0) {
        Some(p) => if tree.kind(p.0) == kind {
            Some(p)
        } else {
            None
        },
        None => None,
    }
}

/// The pattern of a parameter: that of the `self` parameter, told by
/// whether it is taken by reference and whether mutably, or a pattern of
/// the syntax tree.
#[derive(Clone, Copy, Debug, PartialEq, Eq, Hash, Structural)]
pub enum ParamPat {
    This { by_ref: bool, is_mut: bool },
    Pat(SyntaxNode),
}

/// A parameter of the function that is inlined: its pattern, its type
/// where one is written, and its number among the parameters that the
/// analysis of the function knows.
#[derive(Clone, Copy, Debug, PartialEq, Eq, Hash)]
pub struct FnParam {
    pub pat: ParamPat,
    pub ty: Option<SyntaxNode>,
    pub index: usize,
}

/// The parameters from position `c` of the list on, behind the
/// parameters `acc` that were found before.
pub open spec fn spec_params_from(
    tree: &SyntaxTree,
    c: int,
    end: int,
    acc: Seq<FnParam>,
    known: int,
) -> Option<Seq<FnParam>>
    decreases end - c,
{
    if c >= end || c < 0 || tree.end_at(c) <= c || tree.end_at(c) > end {
        Some(acc)
    } else if !tree.token_at(c) && tree.kind_at(c) == SyntaxKind::PARAM {
        match spec_child_in_class(tree, c, NodeClass::Pat) {
            None => None,
            Some(pat) => if acc.len() >= known {
                None
            } else {
                spec_params_from(
                    tree,
                    tree.end_at(c),
                    end,
                    acc.push(
                        FnParam {
                            pat: ParamPat::Pat(SyntaxNode(pat as usize)),
                            ty: node_at(spec_child_in_class(tree, c, NodeClass::Type)),
                            index: acc.len() as usize,
                        },
                    ),
                    known,
                )
            },
        }
    } else {
        spec_params_from(tree, tree.end_at(c), end, acc, known)
    }
}

/// The parameters of the function with the list of parameters at position
/// `list`, of which the analysis knows `known`.
pub open spec fn spec_fn_params(tree: &SyntaxTree, list: int, known: int) -> Option<Seq<FnParam>> {
    match spec_child_node(tree, list, SyntaxKind::SELF_PARAM) {
        Some(self_param) => if known == 0 {
            None
        } else {
            spec_params_from(
                tree,
                list + 1,
                tree.end_at(list),
                seq![
                    FnParam {
                        pat: ParamPat::This {
                            by_ref: spec_child_token(tree, self_param, SyntaxKind::AMP).is_some(),
                            is_mut: spec_child_token(tree, self_param, SyntaxKind::MUT_KW).is_some(),
                        },
                        ty: None,
                        index: 0,
                    },
                ],
                known,
            )
        },
        None => spec_params_from(tree, list + 1, tree.end_at(list), Seq::empty(), known),
    }
}

/// The parameters of the function with the list of parameters
/// `param_list`, each with its number among the `known` parameters that
/// the analysis of the function knows: the `self` parameter first, under
/// the name `this`. There are none where a parameter has no pattern or the
/// analysis knows fewer parameters than the list holds.
pub fn get_fn_params(tree: &SyntaxTree, param_list: SyntaxNode, known: usize) -> (r: Option<
    Vec<FnParam>,
>)
    requires
        tree.wf(),
        tree.has_node(param_list),
    ensures
        match r {
            Some(params) => spec_fn_params(tree, param_list.0 as int, known as int) == Some(
                params@,
            ),
            None => spec_fn_params(tree, param_list.0 as int, known as int).is_none(),
        },
{
    let mut params: Vec<FnParam> = Vec::new();
    match child_node(tree, param_list, SyntaxKind::SELF_PARAM) {
        Some(self_param) => {
            if known == 0 {
                return None;
            }
            params.push(
                FnParam {
                    pat: ParamPat::This {
                        by_ref: child_token(tree, self_param, SyntaxKind::AMP).is_some(),
                        is_mut: child_token(tree, self_param, SyntaxKind::MUT_KW).is_some(),
                    },
                    ty: None,
                    index: 0,
                },
            );
        },
        None => {},
    }
    let end = tree.subtree_end(param_list.0);
    let mut c = param_list.0 + 1;
    while c < end
        invariant
            tree.wf(),
            param_list.0 < c,
            end == tree.end_at(param_list.0 as int),
            end <= tree.spec_len(),
            spec_fn_params(tree, param_list.0 as int, known as int) == spec_params_from(
                tree,
                c as int,
                end as int,
                params@,
                known as int,
            ),
        decreases end - c,
    {
        let next = tree.subtree_end(c);
        if next > end {
            return Some(params);
        }
        if !tree.is_token(c) && tree.kind(c) == SyntaxKind::PARAM {
            let pat = match child_in_class(tree, SyntaxNode(c), NodeClass::Pat) {
                Some(p) => p,
                None => {
                    return None;
                },
            };
            if params.len() >= known {
                return None;
            }
            let index = params.len();
            params.push(
                FnParam {
                    pat: ParamPat::Pat(pat),
                    ty: child_in_class(tree, SyntaxNode(c), NodeClass::Type),
                    index,
                },
            );
        }
        c = next;
    }
    Some(params)
}

/// What becomes of a parameter when the body of the function stands in
/// place of the call.
#[derive(Clone, Copy, Debug, PartialEq, Eq, Hash, Structural)]
pub enum ParamAction {
    /// The argument, a closure, stands in parentheses where the parameter
    /// is used.
    InlineClosure,
    /// The argument stands where the parameter is used.
    InlineDirect,
    /// The parameter becomes a `let` statement at the start of the body,
    /// with the type of the parameter where `with_type` says so.
    LetStmt { with_type: bool },
}

/// What is known of a parameter and its argument: how often the body uses
/// the parameter (0 for a parameter that is no plain name), whether its
/// one use stands where an expression stands, the kind of the argument,
/// whether the argument is a single name, whether the argument is adjusted
/// to the type of the parameter, and whether that type is written down.
#[derive(Clone, Copy, Debug, PartialEq, Eq, Hash, Structural)]
pub struct ParamUse {
    pub usages: usize,
    pub usage_in_expr: bool,
    pub arg_kind: SyntaxKind,
    pub arg_is_name_ref: bool,
    pub arg_is_adjusted: bool,
    pub has_type: bool,
}

/// What becomes of the parameter: a closure that is used once, where an
/// expression stands, is put there in parentheses; a literal that is used
/// once is put there; an argument that is a single name is put wherever
/// the parameter is used; everything else becomes a `let` statement, with
/// a type where the argument is adjusted and the parameter has a type.
pub open spec fn spec_param_action(p: ParamUse) -> ParamAction {
    if p.usages == 1 && p.arg_kind == SyntaxKind::CLOSURE_EXPR && p.usage_in_expr {
        ParamAction::InlineClosure
    } else if p.usages == 1 && p.arg_kind == SyntaxKind::LITERAL {
        ParamAction::InlineDirect
    } else if p.usages >= 1 && p.arg_is_name_ref {
        ParamAction::InlineDirect
    } else {
        ParamAction::LetStmt { with_type: p.arg_is_adjusted && p.has_type }
    }
}

#[verifier::when_used_as_spec(spec_param_action)]
pub fn param_action(p: ParamUse) -> (r: ParamAction)
    ensures
        r == spec_param_action(p),
{
    if p.usages == 1 && p.arg_kind == SyntaxKind::CLOSURE_EXPR && p.usage_in_expr {
        ParamAction::InlineClosure
    } else if p.usages == 1 && p.arg_kind == SyntaxKind::LITERAL {
        ParamAction::InlineDirect
    } else if p.usages >= 1 && p.arg_is_name_ref {
        ParamAction::InlineDirect
    } else {
        ParamAction::LetStmt { with_type: p.arg_is_adjusted && p.has_type }
    }
}

/// Whether the expression at position `expr` is a single name.
pub open spec fn spec_expr_is_name_ref(tree: &SyntaxTree, expr: int) -> bool {
    tree.kind_at(expr) == SyntaxKind::PATH_EXPR && match spec_child_node(
        tree,
        expr,
        SyntaxKind::PATH,
    ) {
        Some(path) => spec_child_node(tree, path, SyntaxKind::PATH).is_none() && match spec_child_node(
            tree,
            path,
            SyntaxKind::PATH_SEGMENT,
        ) {
            Some(segment) => spec_child_node(tree, segment, SyntaxKind::NAME_REF).is_some(),
            None => false,
        },
        None => false,
    }
}

/// Whether the expression `expr` is a single name: a path without
/// qualifier whose segment is a name.
pub fn expr_is_name_ref(tree: &SyntaxTree, expr: SyntaxNode) -> (r: bool)
    requires
        tree.wf(),
        tree.has_node(expr),
    ensures
        r == spec_expr_is_name_ref(tree, expr.0 as int),
{
    if tree.kind(expr.0) != SyntaxKind::PATH_EXPR {
        return false;
    }
    let path = match child_node(tree, expr, SyntaxKind::PATH) {
        Some(p) => p,
        None => {
            return false;
        },
    };
    if child_node(tree, path, SyntaxKind::PATH).is_some() {
        return false;
    }
    match child_node(tree, path, SyntaxKind::PATH_SEGMENT) {
        Some(segment) => child_node(tree, segment, SyntaxKind::NAME_REF).is_some(),
        None => false,
    }
}

/// Why a call cannot be inlined.
#[derive(Clone, Copy, Debug, PartialEq, Eq, Hash, Structural)]
pub enum NotApplicable {
    /// The call stands in the body of the function that it calls.
    Recursive,
    /// The call has not as many arguments as the function has parameters.
    IncorrectNumberOfArguments,
}

/// Whether the call at `offset` in the file `file`, with `arguments`
/// arguments, of the function that stands at `definition` and has `params`
/// parameters, can be inlined: not inside the function itself, and only
/// with one argument for each parameter.
pub fn check_inline_call(
    definition: FileRange,
    file: FileId,
    offset: u32,
    arguments: usize,
    params: usize,
) -> (r: Result<(), NotApplicable>)
    ensures
        r == if definition.file_id == file && definition.range.spec_contains(offset) {
            Err::<(), NotApplicable>(NotApplicable::Recursive)
        } else if arguments != params {
            Err::<(), NotApplicable>(NotApplicable::IncorrectNumberOfArguments)
        } else {
            Ok::<(), NotApplicable>(())
        },
{
    if definition.file_id == file && definition.range.contains(offset) {
        Err(NotApplicable::Recursive)
    } else if arguments != params {
        Err(NotApplicable::IncorrectNumberOfArguments)
    } else {
        Ok(())
    }
}

/// What of one file the inlining into all callers found: how many
/// references to the function the file holds, how many of them stand in
/// `use` items, and how many calls were replaced.
#[derive(Clone, Copy, Debug, PartialEq, Eq, Hash, Structural)]
pub struct FileUsages {
    pub references: usize,
    pub in_use_items: usize,
    pub replaced: usize,
}

impl FileUsages {
    /// Whether every reference of the file is gone once the calls are
    /// replaced and the imports are taken out.
    pub open spec fn spec_all_replaced(self) -> bool {
        self.replaced + self.in_use_items == self.references
    }

    #[verifier::when_used_as_spec(spec_all_replaced)]
    pub fn all_replaced(self) -> (r: bool)
        ensures
            r == self.spec_all_replaced(),
    {
        self.replaced <= self.references && self.references - self.replaced == self.in_use_items
    }
}

/// Whether the definition of a function can go once it has been inlined
/// into its callers: where every reference in every file is gone. There
/// is nothing to inline and nothing to remove where the function is not
/// used at all, or where it calls itself.
pub fn can_remove_definition(files: &Vec<FileUsages>, recursive: bool) -> (r: Option<bool>)
    ensures
        r == if recursive || forall|k: int| 0 <= k < files@.len() ==> (#[trigger] files@[k]).references == 0 {
            None
        } else {
            Some(forall|k: int| 0 <= k < files@.len() ==> (#[trigger] files@[k]).spec_all_replaced())
        },
{
    let mut any = false;
    let mut remove_def = true;
    let mut i: usize = 0;
    while i < files.len()
        invariant
            i <= files@.len(),
            any == exists|k: int| 0 <= k < i && (#[trigger] files@[k]).references != 0,
            remove_def == forall|k: int| 0 <= k < i ==> (#[trigger] files@[k]).spec_all_replaced(),
        decreases files@.len() - i,
    {
        if files[i].references != 0 {
            any = true;
        }
        if !files[i].all_replaced() {
            remove_def = false;
        }
        i += 1;
    }
    if recursive || !any {
        None
    } else {
        Some(remove_def)
    }
}

/// Whether nodes of kind `kind` are statements.
pub open spec fn spec_is_stmt(kind: SyntaxKind) -> bool {
    kind == SyntaxKind::LET_STMT || kind == SyntaxKind::EXPR_STMT || crate::db::spec_is_item(kind)
}

/// The first expression among the children from position `c` on where no
/// statement stands among them; `tail` is the first expression found
/// before. The outer `None` stands for a statement that was found.
pub open spec fn spec_tail_from(tree: &SyntaxTree, c: int, end: int, tail: Option<int>) -> Option<
    Option<int>,
>
    decreases end - c,
{
    if c >= end || c < 0 || tree.end_at(c) <= c || tree.end_at(c) > end {
        Some(tail)
    } else if !tree.token_at(c) && spec_is_stmt(tree.kind_at(c)) {
        None
    } else if !tree.token_at(c) && spec_is_expr(tree.kind_at(c)) && tail.is_none() {
        spec_tail_from(tree, tree.end_at(c), end, Some(c))
    } else {
        spec_tail_from(tree, tree.end_at(c), end, tail)
    }
}

/// What stands in place of the call of a function with the body `body`,
/// as long as nothing is added to the body: the last expression of the body
/// where the body holds nothing but that expression, the whole body
/// otherwise.
pub open spec fn spec_inline(tree: &SyntaxTree, body: int) -> int {
    match spec_child_node(tree, body, SyntaxKind::STMT_LIST) {
        None => body,
        Some(list) => match spec_tail_from(tree, list + 1, tree.end_at(list), None) {
            Some(Some(tail)) => tail,
            _ => body,
        },
    }
}

/// What stands in place of the call once `lets` parameters have become
/// `let` statements at the start of the body: the whole body where there is
/// such a statement, since the body then holds more than an expression;
/// else the last expression of the body where the body holds nothing but
/// that expression, and the whole body otherwise. A body without a list of
/// statements takes no `let` statement.
pub open spec fn spec_replacement(tree: &SyntaxTree, body: int, lets: int) -> int {
    if lets > 0 && spec_child_node(tree, body, SyntaxKind::STMT_LIST).is_some() {
        body
    } else {
        spec_inline(tree, body)
    }
}

/// What stands in place of the call once `lets` parameters have become
/// `let` statements at the start of the body: the last expression of the
/// body where the body is nothing but that expression, the whole body
/// otherwise.
pub fn inline(tree: &SyntaxTree, body: SyntaxNode, lets: usize) -> (r: SyntaxNode)
    requires
        tree.wf(),
        tree.has_node(body),
    ensures
        r.0 == spec_replacement(tree, body.0 as int, lets as int),
        tree.has_node(r),
{
    let list = match child_node(tree, body, SyntaxKind::STMT_LIST) {
        Some(l) => l,
        None => {
            return body;
        },
    };
    if lets > 0 {
        return body;
    }
    let end = tree.subtree_end(list.0);
    let mut tail: Option<SyntaxNode> = None;
    let mut c = list.0 + 1;
    while c < end
        invariant
            tree.wf(),
            tree.has_node(body),
            lets == 0,
            list.0 < c,
            end == tree.end_at(list.0 as int),
            end <= tree.spec_len(),
            spec_child_node(tree, body.0 as int, SyntaxKind::STMT_LIST) == Some(list.0 as int),
            tail matches Some(t) ==> tree.has_node(t),
            spec_tail_from(tree, list.0 + 1, end as int, None) == spec_tail_from(
                tree,
                c as int,
                end as int,
                match tail {
                    Some(t) => Some(t.0 as int),
                    None => None,
                },
            ),
        decreases end - c,
    {
        let next = tree.subtree_end(c);
        if next > end {
            return match tail {
                Some(t) => t,
                None => body,
            };
        }
        if !tree.is_token(c) {
            let kind = tree.kind(c);
            if kind == SyntaxKind::LET_STMT || kind == SyntaxKind::EXPR_STMT || is_item(kind) {
                return body;
            }
            if is_expr(kind) && tail.is_none() {
                tail = Some(SyntaxNode(c));
            }
        }
        c = next;
    }
    match tail {
        Some(t) => t,
        None => body,
    }
}

/// A use of a parameter that the analysis of names found in the file of
/// the function: its range, and whether it is a name that refers to the
/// parameter.
#[derive(Clone, Copy, Debug, PartialEq, Eq, Hash)]
pub struct LocalUse {
    pub range: TextRange,
    pub is_name_ref: bool,
}

/// What the analysis of names and types knows of one parameter and its
/// argument: the uses of the parameter in the file of the function, and
/// whether the argument is adjusted to the type of the parameter.
#[derive(Debug, PartialEq, Eq)]
pub struct ParamFacts {
    pub uses: Vec<LocalUse>,
    pub arg_is_adjusted: bool,
}

/// The element that stands `k` parents above the element at position `i`.
pub open spec fn spec_nth_parent(tree: &SyntaxTree, i: int, k: nat) -> Option<int>
    decreases k,
{
    if k == 0 {
        Some(i)
    } else if i <= 0 || i >= tree.spec_len() {
        None
    } else {
        spec_nth_parent(tree, tree.parent_at(i), (k - 1) as nat)
    }
}

/// The element that stands `k` parents above the element at position `i`.
fn nth_parent(tree: &SyntaxTree, i: usize, k: usize) -> (r: Option<usize>)
    requires
        tree.wf(),
        i < tree.spec_len(),
    ensures
        spec_nth_parent(tree, i as int, k as nat) == match r {
            Some(p) => Some(p as int),
            None => None,
        },
        r matches Some(p) ==> p < tree.spec_len() && (k > 0 ==> !tree.token_at(p as int)),
{
    let mut cur = i;
    let mut left = k;
    while left > 0
        invariant
            tree.wf(),
            cur < tree.spec_len(),
            left <= k,
            left < k ==> !tree.token_at(cur as int),
            spec_nth_parent(tree, cur as int, left as nat) == spec_nth_parent(
                tree,
                i as int,
                k as nat,
            ),
        decreases left,
    {
        match tree.parent(cur) {
            Some(p) => {
                cur = p.0;
            },
            None => {
                return None;
            },
        }
        left -= 1;
    }
    Some(cur)
}

/// The expression that the use `u` of a parameter is, in the body at
/// position `body`: the path expression around the name, three levels
/// above it. There is none where the use is no name that refers to the
/// parameter, or where it stands in no such expression.
pub open spec fn spec_usage_expr(tree: &SyntaxTree, body: int, u: LocalUse) -> Option<int> {
    let e = tree.covering_from(body, u.range);
    let levels: nat = if tree.token_at(e) {
        4
    } else {
        3
    };
    if !u.is_name_ref {
        None
    } else {
        match spec_nth_parent(tree, e, levels) {
            Some(p) => if tree.kind_at(p) == SyntaxKind::PATH_EXPR {
                Some(p)
            } else {
                None
            },
            None => None,
        }
    }
}

/// The expressions that the first `n` of the uses `uses` are: none at all
/// where one of them is no expression.
pub open spec fn spec_usage_exprs(tree: &SyntaxTree, body: int, uses: Seq<LocalUse>, n: int) -> Option<
    Seq<SyntaxNode>,
>
    decreases n,
{
    if n <= 0 || n > uses.len() {
        Some(Seq::empty())
    } else {
        match (spec_usage_exprs(tree, body, uses, n - 1), spec_usage_expr(tree, body, uses[n - 1])) {
            (Some(before), Some(p)) => Some(before.push(SyntaxNode(p as usize))),
            _ => None,
        }
    }
}

/// Whether the pattern of a parameter is a plain name: a name without
/// `ref`, `mut` or `@`. The parameter `self` is one where it is taken by
/// value.
pub open spec fn spec_is_simple_ident(tree: &SyntaxTree, pat: ParamPat) -> bool {
    match pat {
        ParamPat::This { by_ref, is_mut } => !by_ref && !is_mut,
        ParamPat::Pat(p) => tree.has_node(p) && tree.kind_at(p.0 as int) == SyntaxKind::IDENT_PAT
            && spec_child_token(tree, p.0 as int, SyntaxKind::AT).is_none() && spec_child_token(
            tree,
            p.0 as int,
            SyntaxKind::MUT_KW,
        ).is_none() && spec_child_token(tree, p.0 as int, SyntaxKind::REF_KW).is_none()
            && spec_child_in_class(tree, p.0 as int, NodeClass::Pat).is_none(),
    }
}

/// Whether the pattern of a parameter is a plain name.
pub fn is_simple_ident(tree: &SyntaxTree, pat: ParamPat) -> (r: bool)
    requires
        tree.wf(),
    ensures
        r == spec_is_simple_ident(tree, pat),
{
    match pat {
        ParamPat::This { by_ref, is_mut } => !by_ref && !is_mut,
        ParamPat::Pat(p) => {
            if p.0 >= tree.len() || tree.is_token(p.0) {
                return false;
            }
            tree.kind(p.0) == SyntaxKind::IDENT_PAT && child_token(tree, p, SyntaxKind::AT).is_none()
                && child_token(tree, p, SyntaxKind::MUT_KW).is_none() && child_token(
                tree,
                p,
                SyntaxKind::REF_KW,
            ).is_none() && child_in_class(tree, p, NodeClass::Pat).is_none()
        },
    }
}

/// The expressions of the body that use a parameter with the pattern
/// `pat`: none for a parameter that is no plain name, and none where one
/// of the uses is no expression.
pub open spec fn spec_param_usages(tree: &SyntaxTree, body: int, pat: ParamPat, uses: Seq<LocalUse>) -> Seq<
    SyntaxNode,
> {
    if !spec_is_simple_ident(tree, pat) {
        Seq::empty()
    } else {
        match spec_usage_exprs(tree, body, uses, uses.len() as int) {
            Some(exprs) => exprs,
            None => Seq::empty(),
        }
    }
}

/// The expressions of the body `body` that use a parameter with the
/// pattern `pat`, of which the analysis found the uses `uses`.
pub fn param_usages(tree: &SyntaxTree, body: SyntaxNode, pat: ParamPat, uses: &Vec<LocalUse>) -> (r:
    Vec<SyntaxNode>)
    requires
        tree.wf(),
        tree.has_node(body),
    ensures
        r@ == spec_param_usages(tree, body.0 as int, pat, uses@),
        forall|k: int| 0 <= k < r@.len() ==> tree.has_node(#[trigger] r@[k]),
{
    if !is_simple_ident(tree, pat) {
        return Vec::new();
    }
    let mut out: Vec<SyntaxNode> = Vec::new();
    let mut i: usize = 0;
    while i < uses.len()
        invariant
            tree.wf(),
            tree.has_node(body),
            i <= uses@.len(),
            spec_usage_exprs(tree, body.0 as int, uses@, i as int) == Some(out@),
            forall|k: int| 0 <= k < out@.len() ==> tree.has_node(#[trigger] out@[k]),
        decreases uses@.len() - i,
    {
        let u = uses[i];
        if !u.is_name_ref {
            proof {
                lemma_usage_exprs_fail(tree, body.0 as int, uses@, i as int + 1, uses@.len() as int);
            }
            return Vec::new();
        }
        let e = tree.covering_element(body, u.range);
        let (at, levels) = match e {
            SyntaxElement::Token(t) => (t.0, 4usize),
            SyntaxElement::Node(n) => (n.0, 3usize),
        };
        let found = match nth_parent(tree, at, levels) {
            Some(p) => if tree.kind(p) == SyntaxKind::PATH_EXPR {
                Some(p)
            } else {
                None
            },
            None => None,
        };
        match found {
            Some(p) => {
                out.push(SyntaxNode(p));
            },
            None => {
                proof {
                    lemma_usage_exprs_fail(
                        tree,
                        body.0 as int,
                        uses@,
                        i as int + 1,
                        uses@.len() as int,
                    );
                }
                return Vec::new();
            },
        }
        i += 1;
    }
    out
}

/// Once one use is no expression, there are no expressions for more uses
/// either.
proof fn lemma_usage_exprs_fail(tree: &SyntaxTree, body: int, uses: Seq<LocalUse>, n: int, m: int)
    requires
        0 < n <= m <= uses.len(),
        spec_usage_exprs(tree, body, uses, n).is_none(),
    ensures
        spec_usage_exprs(tree, body, uses, m).is_none(),
    decreases m - n,
{
    if n < m {
        lemma_usage_exprs_fail(tree, body, uses, n + 1, m);
    }
}

/// What is known of the parameter `param` and the argument at position
/// `arg` of the tree of the call, where `usages` are the expressions of
/// the body that use the parameter: a single use stands where an
/// expression stands if its parent is an expression.
pub open spec fn spec_param_use(
    fn_tree: &SyntaxTree,
    call_tree: &SyntaxTree,
    param: FnParam,
    usages: Seq<SyntaxNode>,
    arg: int,
    arg_is_adjusted: bool,
) -> ParamUse {
    ParamUse {
        usages: usages.len() as usize,
        usage_in_expr: usages.len() == 1 && usages[0].0 != 0 && spec_is_expr(
            fn_tree.kind_at(fn_tree.parent_at(usages[0].0 as int)),
        ),
        arg_kind: call_tree.kind_at(arg),
        arg_is_name_ref: spec_expr_is_name_ref(call_tree, arg),
        arg_is_adjusted,
        has_type: param.ty.is_some(),
    }
}

/// How many of the first `n` parameters become `let` statements.
pub open spec fn spec_let_count(actions: Seq<ParamAction>, n: int) -> int
    decreases n,
{
    if n <= 0 || n > actions.len() {
        0
    } else {
        spec_let_count(actions, n - 1) + if actions[n - 1] is LetStmt {
            1int
        } else {
            0int
        }
    }
}

/// What inlining a call does: whether `self` becomes `this` throughout
/// the body; for each parameter the expressions of the body that use it
/// and what becomes of it; and the node of the body that stands in place
/// of the call afterwards.
#[derive(Debug, PartialEq, Eq)]
pub struct InlinePlan {
    pub rename_self: bool,
    pub usages: Vec<Vec<SyntaxNode>>,
    pub actions: Vec<ParamAction>,
    pub replacement: SyntaxNode,
}

/// The number of parameters that are inlined: those that have an argument
/// and of which the analysis tells.
pub open spec fn spec_planned(params: Seq<FnParam>, arguments: Seq<SyntaxNode>, facts: Seq<ParamFacts>) -> int {
    if params.len() <= arguments.len() && params.len() <= facts.len() {
        params.len() as int
    } else if arguments.len() <= facts.len() {
        arguments.len() as int
    } else {
        facts.len() as int
    }
}

/// Plans the inlining of a call of the function with the body `body` and
/// the parameters `params`, with the arguments `arguments` of the tree of
/// the call. Each parameter with a plain name is used where the analysis
/// found it used; what becomes of it is told by its uses and its
/// argument. A parameter that cannot be put in place becomes a `let`
/// statement at the start of the body, and the body then stands in place
/// of the call as a block.
pub fn plan_inline(
    fn_tree: &SyntaxTree,
    body: SyntaxNode,
    call_tree: &SyntaxTree,
    params: &Vec<FnParam>,
    arguments: &Vec<SyntaxNode>,
    facts: &Vec<ParamFacts>,
) -> (r: InlinePlan)
    requires
        fn_tree.wf(),
        fn_tree.has_node(body),
        call_tree.wf(),
        forall|k: int| 0 <= k < arguments@.len() ==> call_tree.has_node(#[trigger] arguments@[k]),
    ensures
        r.rename_self == (params@.len() > 0 && params@[0].pat is This),
        r.actions@.len() == spec_planned(params@, arguments@, facts@),
        r.usages@.len() == r.actions@.len(),
        forall|k: int|
            0 <= k < r.actions@.len() ==> (#[trigger] r.usages@[k])@ == spec_param_usages(
                fn_tree,
                body.0 as int,
                params@[k].pat,
                facts@[k].uses@,
            ),
        forall|k: int|
            0 <= k < r.actions@.len() ==> #[trigger] r.actions@[k] == spec_param_action(
                spec_param_use(
                    fn_tree,
                    call_tree,
                    params@[k],
                    r.usages@[k]@,
                    arguments@[k].0 as int,
                    facts@[k].arg_is_adjusted,
                ),
            ),
        forall|k: int, j: int|
            0 <= k < r.usages@.len() && 0 <= j < r.usages@[k]@.len() ==> fn_tree.has_node(
                #[trigger] r.usages@[k]@[j],
            ),
        r.replacement.0 == spec_replacement(
            fn_tree,
            body.0 as int,
            spec_let_count(r.actions@, r.actions@.len() as int),
        ),
        fn_tree.has_node(r.replacement),
{
    let mut n = params.len();
    if arguments.len() < n {
        n = arguments.len();
    }
    if facts.len() < n {
        n = facts.len();
    }
    let rename_self = params.len() > 0 && match params[0].pat {
        ParamPat::This { .. } => true,
        ParamPat::Pat(_) => false,
    };
    let mut usages: Vec<Vec<SyntaxNode>> = Vec::new();
    let mut actions: Vec<ParamAction> = Vec::new();
    let mut lets: usize = 0;
    let mut k: usize = 0;
    while k < n
        invariant
            fn_tree.wf(),
            fn_tree.has_node(body),
            call_tree.wf(),
            forall|i: int| 0 <= i < arguments@.len() ==> call_tree.has_node(#[trigger] arguments@[i]),
            k <= n,
            n == spec_planned(params@, arguments@, facts@),
            n <= params@.len() && n <= arguments@.len() && n <= facts@.len(),
            usages@.len() == k,
            actions@.len() == k,
            lets == spec_let_count(actions@, k as int),
            lets <= k,
            forall|i: int|
                0 <= i < k ==> (#[trigger] usages@[i])@ == spec_param_usages(
                    fn_tree,
                    body.0 as int,
                    params@[i].pat,
                    facts@[i].uses@,
                ),
            forall|i: int|
                0 <= i < k ==> #[trigger] actions@[i] == spec_param_action(
                    spec_param_use(
                        fn_tree,
                        call_tree,
                        params@[i],
                        usages@[i]@,
                        arguments@[i].0 as int,
                        facts@[i].arg_is_adjusted,
                    ),
                ),
            forall|i: int, j: int|
                0 <= i < usages@.len() && 0 <= j < usages@[i]@.len() ==> fn_tree.has_node(
                    #[trigger] usages@[i]@[j],
                ),
        decreases n - k,
    {
        let param = params[k];
        let argument = arguments[k];
        let found = param_usages(fn_tree, body, param.pat, &facts[k].uses);
        let usage_in_expr = found.len() == 1 && match fn_tree.parent(found[0].0) {
            Some(parent) => is_expr(fn_tree.kind(parent.0)),
            None => false,
        };
        let action = param_action(
            ParamUse {
                usages: found.len(),
                usage_in_expr,
                arg_kind: call_tree.kind(argument.0),
                arg_is_name_ref: expr_is_name_ref(call_tree, argument),
                arg_is_adjusted: facts[k].arg_is_adjusted,
                has_type: param.ty.is_some(),
            },
        );
        let ghost before_actions = actions@;
        let ghost before_usages = usages@;
        match action {
            ParamAction::LetStmt { .. } => {
                lets += 1;
            },
            _ => {},
        }
        usages.push(found);
        actions.push(action);
        proof {
            assert(actions@.drop_last() =~= before_actions);
            lemma_let_count_prefix(actions@, before_actions, k as int);
            assert forall|i: int| 0 <= i < k + 1 implies (#[trigger] usages@[i])@
                == spec_param_usages(fn_tree, body.0 as int, params@[i].pat, facts@[i].uses@) by {
                if i < k {
                    assert(usages@[i] == before_usages[i]);
                }
            }
            assert forall|i: int| 0 <= i < k + 1 implies #[trigger] actions@[i] == spec_param_action(
                spec_param_use(
                    fn_tree,
                    call_tree,
                    params@[i],
                    usages@[i]@,
                    arguments@[i].0 as int,
                    facts@[i].arg_is_adjusted,
                ),
            ) by {
                if i < k {
                    assert(actions@[i] == before_actions[i]);
                    assert(usages@[i] == before_usages[i]);
                }
            }
            assert forall|i: int, j: int|
                0 <= i < usages@.len() && 0 <= j < usages@[i]@.len() implies fn_tree.has_node(
                #[trigger] usages@[i]@[j],
            ) by {
                if i < k {
                    assert(usages@[i] == before_usages[i]);
                }
            }
        }
        k += 1;
    }
    let replacement = inline(fn_tree, body, lets);
    InlinePlan { rename_self, usages, actions, replacement }
}

/// The count over a list and over a longer list that begins with it agree.
proof fn lemma_let_count_prefix(longer: Seq<ParamAction>, shorter: Seq<ParamAction>, n: int)
    requires
        0 <= n <= shorter.len() <= longer.len(),
        forall|i: int| 0 <= i < shorter.len() ==> longer[i] == shorter[i],
    ensures
        spec_let_count(longer, n) == spec_let_count(shorter, n),
    decreases n,
{
    if n > 0 {
        lemma_let_count_prefix(longer, shorter, n - 1);
    }
}

} // verus!
