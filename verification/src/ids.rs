//! The names of files and of places in them: files that a user wrote and
//! files that a macro call produced.

use crate::text::TextRange;
use vstd::prelude::*;
use vstd::std_specs::convert::FromSpecImpl;

verus! {

/// Names a file that a user wrote.
#[derive(Clone, Copy, Debug, PartialEq, Eq, Hash, Structural)]
pub struct FileId(pub u32);

/// Names a crate.
#[derive(Clone, Copy, Debug, PartialEq, Eq, Hash, Structural)]
pub struct CrateId(pub u32);

/// Names one call of a macro, once the call has been interned.
#[derive(Clone, Copy, Debug, PartialEq, Eq, Hash, Structural)]
pub struct MacroCallId(pub u32);

/// The file that a macro call produced.
#[derive(Clone, Copy, Debug, PartialEq, Eq, Hash, Structural)]
pub struct MacroFile {
    pub macro_call_id: MacroCallId,
}

#[derive(Clone, Copy, Debug, PartialEq, Eq, Hash, Structural)]
pub enum HirFileIdRepr {
    FileId(FileId),
    MacroFile(MacroFile),
}

/// Names a file: one that a user wrote, or the one that a macro call
/// produced. The call of the latter stands in a file again, so that each
/// file has a chain of files behind it that ends in a file of the user.
#[derive(Clone, Copy, Debug, PartialEq, Eq, Hash, Structural)]
pub struct HirFileId(pub HirFileIdRepr);

impl From<FileId> for HirFileId {
    fn from(id: FileId) -> (r: Self) {
        HirFileId(HirFileIdRepr::FileId(id))
    }
}

impl FromSpecImpl<FileId> for HirFileId {
    open spec fn obeys_from_spec() -> bool {
        true
    }

    open spec fn from_spec(id: FileId) -> Self {
        HirFileId(HirFileIdRepr::FileId(id))
    }
}

impl From<MacroFile> for HirFileId {
    fn from(id: MacroFile) -> (r: Self) {
        HirFileId(HirFileIdRepr::MacroFile(id))
    }
}

impl FromSpecImpl<MacroFile> for HirFileId {
    open spec fn obeys_from_spec() -> bool {
        true
    }

    open spec fn from_spec(id: MacroFile) -> Self {
        HirFileId(HirFileIdRepr::MacroFile(id))
    }
}

impl HirFileId {
    /// Whether the file was produced by a macro call.
    pub open spec fn spec_is_macro(self) -> bool {
        self.0 is MacroFile
    }

    #[verifier::when_used_as_spec(spec_is_macro)]
    pub fn is_macro(self) -> (r: bool)
        ensures
            r == self.spec_is_macro(),
    {
        match self.0 {
            HirFileIdRepr::MacroFile(_) => true,
            HirFileIdRepr::FileId(_) => false,
        }
    }

    /// The file of the user with the name `id`.
    pub open spec fn of_file(id: FileId) -> HirFileId {
        HirFileId(HirFileIdRepr::FileId(id))
    }

    /// The file that the macro call `id` produced.
    pub open spec fn of_call(id: MacroCallId) -> HirFileId {
        HirFileId(HirFileIdRepr::MacroFile(MacroFile { macro_call_id: id }))
    }

    /// How far the file is from the files of the user at most: 0 for such a
    /// file, and more for the file of a later macro call.
    pub open spec fn rank(self) -> int {
        match self.0 {
            HirFileIdRepr::FileId(_) => 0,
            HirFileIdRepr::MacroFile(m) => m.macro_call_id.0 + 1,
        }
    }
}

impl MacroCallId {
    /// The file that the call produced.
    pub fn as_file(self) -> (r: HirFileId)
        ensures
            r == HirFileId::of_call(self),
    {
        HirFileId(HirFileIdRepr::MacroFile(MacroFile { macro_call_id: self }))
    }
}

/// Names a syntax node of one file in a way that stays good when the file
/// is parsed again: by the node's place among the nodes that have such
/// names.
#[derive(Clone, Copy, Debug, PartialEq, Eq, Hash, Structural)]
pub struct FileAstId {
    pub raw: u32,
}

/// A value together with the file that it belongs to.
#[derive(Clone, Copy, Debug, PartialEq, Eq, Hash, Structural)]
pub struct InFile<T> {
    pub file_id: HirFileId,
    pub value: T,
}

/// Names a syntax node of any file.
pub type AstId = InFile<FileAstId>;

impl<T> InFile<T> {
    pub fn new(file_id: HirFileId, value: T) -> (r: InFile<T>)
        ensures
            r == (InFile { file_id, value }),
    {
        InFile { file_id, value }
    }

    /// Another value for the same file.
    pub fn with_value<U>(&self, value: U) -> (r: InFile<U>)
        ensures
            r == (InFile { file_id: self.file_id, value }),
    {
        InFile { file_id: self.file_id, value }
    }

    /// The value that `f` makes of this one, for the same file.
    pub fn map<F: FnOnce(T) -> U, U>(self, f: F) -> (r: InFile<U>)
        requires
            f.requires((self.value,)),
        ensures
            r.file_id == self.file_id,
            f.ensures((self.value,), r.value),
    {
        InFile { file_id: self.file_id, value: f(self.value) }
    }

    pub fn as_ref(&self) -> (r: InFile<&T>)
        ensures
            r == (InFile { file_id: self.file_id, value: &self.value }),
    {
        InFile { file_id: self.file_id, value: &self.value }
    }
}

impl<T: Copy> InFile<&T> {
    /// The value itself in place of a reference to it.
    pub fn cloned(&self) -> (r: InFile<T>)
        ensures
            r == (InFile { file_id: self.file_id, value: *self.value }),
    {
        InFile { file_id: self.file_id, value: *self.value }
    }
}

impl<T> InFile<Option<T>> {
    /// The value with its file, where there is a value.
    pub fn transpose(self) -> (r: Option<InFile<T>>)
        ensures
            r == match self.value {
                Some(value) => Some(InFile { file_id: self.file_id, value }),
                None => None,
            },
    {
        match self.value {
            Some(value) => Some(InFile { file_id: self.file_id, value }),
            None => None,
        }
    }
}

/// A range of text in a file of the user.
#[derive(Clone, Copy, Debug, PartialEq, Eq, Hash, Structural)]
pub struct FileRange {
    pub file_id: FileId,
    pub range: TextRange,
}

/// Whether a token of an expansion came from the call of the macro or from
/// its definition.
#[derive(Clone, Copy, Debug, PartialEq, Eq, Hash, Structural)]
pub enum Origin {
    Def,
    Call,
}

/// What the tokens that a macro call expands to are parsed as. It is the
/// place of the call that tells, not the macro.
#[derive(Clone, Copy, Debug, PartialEq, Eq, Hash, Structural)]
pub enum ExpandTo {
    Statements,
    Items,
    Pattern,
    Type,
    Expr,
}

} // verus!
