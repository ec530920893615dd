//! Macro expansion for a syntax-tree based analyzer: files that macro calls
//! produce, the bridge between syntax trees and token trees, and the mapping
//! of tokens and ranges between an expansion and the text it came from.

pub mod text;
pub mod syntax_kind;
pub mod syntax;
pub mod tt;
pub mod token_map;
pub mod doc_comment;
pub mod convert;
pub mod collections;
pub mod syntax_bridge;
pub mod tree_sink;
pub mod ids;
pub mod macro_call;
pub mod db;
pub mod ast;
pub mod expansion;
pub mod ascend;
pub mod proc_macro;
pub mod highlight_related;
pub mod engine;
pub mod inline_call;
