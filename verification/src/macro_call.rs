//! What is known of a macro call before it is expanded: which macro is
//! called, where the call stands, and of which kind it is.

use crate::ids::{AstId, CrateId, ExpandTo, FileId, HirFileId};
use crate::token_map::{Entries, TokenMap};
use crate::tree_sink::ExpandError;
use crate::tt::{Subtree, SubtreeView};
use either::Either;
use std::sync::Arc;
use vstd::prelude::*;

verus! {

/// A function-like macro that the compiler brings along.
#[derive(Clone, Copy, Debug, PartialEq, Eq, Hash, Structural)]
pub enum BuiltinFnLikeExpander {
    Column,
    File,
    Line,
    ModulePath,
    Assert,
    Stringify,
    FormatArgs,
    Asm,
    Cfg,
    CorePanic,
    StdPanic,
}

/// A macro of the compiler that sees its arguments expanded.
#[derive(Clone, Copy, Debug, PartialEq, Eq, Hash, Structural)]
pub enum EagerExpander {
    CompileError,
    Concat,
    ConcatIdents,
    Include,
    IncludeBytes,
    IncludeStr,
    Env,
    OptionEnv,
}

/// An attribute macro that the compiler brings along.
#[derive(Clone, Copy, Debug, PartialEq, Eq, Hash, Structural)]
pub enum BuiltinAttrExpander {
    Bench,
    CfgAccessible,
    CfgEval,
    Derive,
    GlobalAllocator,
    Test,
    TestCase,
}

/// A derive macro that the compiler brings along.
#[derive(Clone, Copy, Debug, PartialEq, Eq, Hash, Structural)]
pub enum BuiltinDeriveExpander {
    Copy,
    Clone,
    Default,
    Debug,
    Hash,
    Ord,
    PartialOrd,
    Eq,
    PartialEq,
}

/// Names a procedural macro: the crate that defines it and, where it has
/// been found there, its number.
#[derive(Clone, Copy, Debug, PartialEq, Eq, Hash, Structural)]
pub struct ProcMacroExpander {
    pub krate: CrateId,
    pub proc_macro_id: Option<u32>,
}

impl ProcMacroExpander {
    /// The expander of a macro that was not found in the crate.
    pub fn dummy(krate: CrateId) -> (r: ProcMacroExpander)
        ensures
            r == (ProcMacroExpander { krate, proc_macro_id: None }),
    {
        ProcMacroExpander { krate, proc_macro_id: None }
    }

    /// Whether the macro was not found in the crate.
    pub fn is_dummy(&self) -> (r: bool)
        ensures
            r == self.proc_macro_id.is_none(),
    {
        self.proc_macro_id.is_none()
    }

    /// The number of the macro in its crate. A macro that was not found
    /// there cannot be expanded.
    pub fn resolve(&self) -> (r: Result<u32, ExpandError>)
        ensures
            r == match self.proc_macro_id {
                Some(id) => Ok::<u32, ExpandError>(id),
                None => Err::<u32, ExpandError>(ExpandError::UnresolvedProcMacro),
            },
    {
        match self.proc_macro_id {
            Some(id) => Ok(id),
            None => Err(ExpandError::UnresolvedProcMacro),
        }
    }
}

/// What a procedural macro is written as.
#[derive(Clone, Copy, Debug, PartialEq, Eq, Hash, Structural)]
pub enum ProcMacroKind {
    CustomDerive,
    FuncLike,
    Attr,
}

/// The kind of a macro definition, with the name of the syntax node that
/// defines it: a macro for all but a procedural macro, a function for that.
#[derive(Clone, Copy, Debug, PartialEq, Eq, Hash, Structural)]
pub enum MacroDefKind {
    Declarative(AstId),
    BuiltIn(BuiltinFnLikeExpander, AstId),
    BuiltInAttr(BuiltinAttrExpander, AstId),
    BuiltInDerive(BuiltinDeriveExpander, AstId),
    BuiltInEager(EagerExpander, AstId),
    ProcMacro(ProcMacroExpander, ProcMacroKind, AstId),
}

/// Names a macro definition.
#[derive(Clone, Copy, Debug, PartialEq, Eq, Hash, Structural)]
pub struct MacroDefId {
    pub krate: CrateId,
    pub kind: MacroDefKind,
    pub local_inner: bool,
}

/// What a call of a macro that sees its arguments expanded carries: its
/// argument or, later, its expansion; and the file that it includes, if it
/// includes one.
#[derive(Debug, PartialEq, Eq, Hash)]
pub struct EagerCallInfo {
    pub arg_or_expansion: Arc<Subtree>,
    pub included_file: Option<FileId>,
}

/// The kind of a macro call, with the name of the syntax node that it stands
/// at: the call itself for a function-like macro, the item with the
/// attribute for a derive or an attribute macro.
#[derive(Debug, PartialEq, Eq, Hash)]
pub enum MacroCallKind {
    FnLike { ast_id: AstId, expand_to: ExpandTo },
    Derive {
        ast_id: AstId,
        derive_name: String,
        /// The number of the `derive` attribute among the attributes of the
        /// item, outer attributes first.
        derive_attr_index: u32,
    },
    Attr {
        ast_id: AstId,
        attr_name: String,
        /// The arguments of the attribute as a token tree, with their token
        /// map.
        attr_args: (Subtree, TokenMap),
        /// The number of the attribute among the attributes of the item,
        /// outer attributes first.
        invoc_attr_index: u32,
    },
}

/// A macro call: the macro, the crate that calls it, and the call.
#[derive(Debug, PartialEq, Eq, Hash)]
pub struct MacroCallLoc {
    pub def: MacroDefId,
    pub krate: CrateId,
    pub eager: Option<EagerCallInfo>,
    pub kind: MacroCallKind,
}

/// What a [`MacroCallKind`] is.
pub enum MacroCallKindView {
    FnLike { ast_id: AstId, expand_to: ExpandTo },
    Derive { ast_id: AstId, derive_name: Seq<char>, derive_attr_index: u32 },
    Attr {
        ast_id: AstId,
        attr_name: Seq<char>,
        attr_args: (SubtreeView, Entries),
        invoc_attr_index: u32,
    },
}

/// What a [`MacroCallLoc`] is.
pub struct MacroCallLocView {
    pub def: MacroDefId,
    pub krate: CrateId,
    pub eager: Option<(SubtreeView, Option<FileId>)>,
    pub kind: MacroCallKindView,
}

impl View for MacroCallKind {
    type V = MacroCallKindView;

    open spec fn view(&self) -> MacroCallKindView {
        match self {
            MacroCallKind::FnLike { ast_id, expand_to } => MacroCallKindView::FnLike {
                ast_id: *ast_id,
                expand_to: *expand_to,
            },
            MacroCallKind::Derive {
                ast_id,
                derive_name,
                derive_attr_index,
            } => MacroCallKindView::Derive {
                ast_id: *ast_id,
                derive_name: derive_name@,
                derive_attr_index: *derive_attr_index,
            },
            MacroCallKind::Attr {
                ast_id,
                attr_name,
                attr_args,
                invoc_attr_index,
            } => MacroCallKindView::Attr {
                ast_id: *ast_id,
                attr_name: attr_name@,
                attr_args: (attr_args.0@, attr_args.1@),
                invoc_attr_index: *invoc_attr_index,
            },
        }
    }
}

impl View for MacroCallLoc {
    type V = MacroCallLocView;

    open spec fn view(&self) -> MacroCallLocView {
        MacroCallLocView {
            def: self.def,
            krate: self.krate,
            eager: match self.eager {
                Some(info) => Some(((*info.arg_or_expansion)@, info.included_file)),
                None => None,
            },
            kind: self.kind@,
        }
    }
}

impl MacroCallKindView {
    /// The name of the syntax node that the call stands at.
    pub open spec fn ast_id(self) -> AstId {
        match self {
            MacroCallKindView::FnLike { ast_id, .. } => ast_id,
            MacroCallKindView::Derive { ast_id, .. } => ast_id,
            MacroCallKindView::Attr { ast_id, .. } => ast_id,
        }
    }

    /// The file that the call stands in.
    pub open spec fn file_id(self) -> HirFileId {
        self.ast_id().file_id
    }
}

impl MacroCallLocView {
    /// The file that the call includes, if it includes one.
    pub open spec fn included_file(self) -> Option<FileId> {
        match self.eager {
            Some(info) => info.1,
            None => None,
        }
    }
}

impl MacroDefId {
    /// The name of the node that defines the macro.
    pub open spec fn spec_ast_id(&self) -> AstId {
        match self.kind {
            MacroDefKind::ProcMacro(_, _, id) => id,
            MacroDefKind::Declarative(id) => id,
            MacroDefKind::BuiltIn(_, id) => id,
            MacroDefKind::BuiltInAttr(_, id) => id,
            MacroDefKind::BuiltInDerive(_, id) => id,
            MacroDefKind::BuiltInEager(_, id) => id,
        }
    }

    /// Whether the macro is a procedural macro.
    pub open spec fn spec_is_proc_macro(&self) -> bool {
        self.kind is ProcMacro
    }

    /// The name of the node that defines the macro: on the left that of a
    /// macro definition, on the right that of the function that defines a
    /// procedural macro.
    pub fn ast_id(&self) -> (r: Either<AstId, AstId>)
        ensures
            r == if self.spec_is_proc_macro() {
                Either::<AstId, AstId>::Right(self.spec_ast_id())
            } else {
                Either::<AstId, AstId>::Left(self.spec_ast_id())
            },
    {
        match self.kind {
            MacroDefKind::ProcMacro(_, _, id) => Either::Right(id),
            MacroDefKind::Declarative(id) => Either::Left(id),
            MacroDefKind::BuiltIn(_, id) => Either::Left(id),
            MacroDefKind::BuiltInAttr(_, id) => Either::Left(id),
            MacroDefKind::BuiltInDerive(_, id) => Either::Left(id),
            MacroDefKind::BuiltInEager(_, id) => Either::Left(id),
        }
    }

    #[verifier::when_used_as_spec(spec_is_proc_macro)]
    pub fn is_proc_macro(&self) -> (r: bool)
        ensures
            r == self.spec_is_proc_macro(),
    {
        match self.kind {
            MacroDefKind::ProcMacro(_, _, _) => true,
            _ => false,
        }
    }
}

/// The type of `either` that holds one of two values. It is declared with
/// its two variants as they stand in that crate.
#[verifier::external_type_specification]
#[verifier::reject_recursive_types(L)]
#[verifier::reject_recursive_types(R)]
pub struct ExEither<L, R>(Either<L, R>);

impl MacroCallKind {
    /// The name of the syntax node that the call stands at.
    pub fn ast_id(&self) -> (r: AstId)
        ensures
            r == self@.ast_id(),
    {
        match self {
            MacroCallKind::FnLike { ast_id, .. } => *ast_id,
            MacroCallKind::Derive { ast_id, .. } => *ast_id,
            MacroCallKind::Attr { ast_id, .. } => *ast_id,
        }
    }

    /// The file that the call stands in.
    pub fn file_id(&self) -> (r: HirFileId)
        ensures
            r == self@.file_id(),
    {
        self.ast_id().file_id
    }

    /// What the expansion of the call is parsed as: what the place of the
    /// call says for a function-like macro, items otherwise.
    pub fn expand_to(&self) -> (r: ExpandTo)
        ensures
            r == match self@ {
                MacroCallKindView::FnLike { expand_to, .. } => expand_to,
                _ => ExpandTo::Items,
            },
    {
        match self {
            MacroCallKind::FnLike { expand_to, .. } => *expand_to,
            MacroCallKind::Derive { .. } => ExpandTo::Items,
            MacroCallKind::Attr { .. } => ExpandTo::Items,
        }
    }

    /// Whether the two kinds are the same.
    pub fn same(&self, other: &MacroCallKind) -> (r: bool)
        ensures
            r == (self@ == other@),
    {
        match (self, other) {
            (
                MacroCallKind::FnLike { ast_id: a, expand_to: x },
                MacroCallKind::FnLike { ast_id: b, expand_to: y },
            ) => *a == *b && *x == *y,
            (
                MacroCallKind::Derive { ast_id: a, derive_name: an, derive_attr_index: ai },
                MacroCallKind::Derive { ast_id: b, derive_name: bn, derive_attr_index: bi },
            ) => *a == *b && *ai == *bi && *an == *bn,
            (
                MacroCallKind::Attr {
                    ast_id: a,
                    attr_name: an,
                    attr_args: aa,
                    invoc_attr_index: ai,
                },
                MacroCallKind::Attr {
                    ast_id: b,
                    attr_name: bn,
                    attr_args: ba,
                    invoc_attr_index: bi,
                },
            ) => *a == *b && *ai == *bi && *an == *bn && aa.0.same(&ba.0) && aa.1.same(&ba.1),
            _ => false,
        }
    }
}

impl MacroCallLoc {
    /// Whether the two calls are the same.
    pub fn same(&self, other: &MacroCallLoc) -> (r: bool)
        ensures
            r == (self@ == other@),
    {
        let eager = match (&self.eager, &other.eager) {
            (Some(a), Some(b)) => a.included_file == b.included_file && (
            *a.arg_or_expansion).same(&*b.arg_or_expansion),
            (None, None) => true,
            _ => false,
        };
        eager && self.def == other.def && self.krate == other.krate && self.kind.same(&other.kind)
    }

    /// The file that the call includes, if it includes one.
    pub fn included_file(&self) -> (r: Option<FileId>)
        ensures
            r == self@.included_file(),
    {
        match &self.eager {
            Some(info) => info.included_file,
            None => None,
        }
    }
}

} // verus!
