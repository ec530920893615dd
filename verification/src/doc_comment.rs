//! Comments that document an item: which comments do, and the attribute
//! tokens that stand for one in a token tree.

use crate::tt::{
    lemma_subtree_view, views, Delimiter, DelimiterKind,
    Ident, Leaf, LeafView, Literal, Punct, Spacing, Subtree, SubtreeView, TokenId, TokenTree,
    TokenTreeView,
};
use vstd::prelude::*;

verus! {

broadcast use vstd::string::group_string_axioms;

/// Whether a documenting comment belongs to the item that follows it
/// (`Outer`) or to the item that it stands in (`Inner`).
#[derive(Clone, Copy, Debug, PartialEq, Eq, Hash, Structural)]
pub enum CommentPlacement {
    Inner,
    Outer,
}

#[derive(Clone, Copy, Debug, PartialEq, Eq, Hash, Structural)]
pub enum CommentShape {
    Line,
    Block,
}

#[derive(Clone, Copy, Debug, PartialEq, Eq, Hash, Structural)]
pub struct CommentKind {
    pub shape: CommentShape,
    pub doc: Option<CommentPlacement>,
}

/// The character at position `i` of `text`, or a blank where the text is
/// shorter.
pub open spec fn char_at(text: Seq<char>, i: int) -> char {
    if 0 <= i < text.len() {
        text[i]
    } else {
        ' '
    }
}

/// The kind of the comment `text`, told by how it begins: `///` and `/**`
/// document what follows, `//!` and `/*!` what they stand in; four slashes,
/// `/***` and `/**/` document nothing.
pub open spec fn spec_comment_kind(text: Seq<char>) -> CommentKind {
    let a = char_at(text, 0);
    let b = char_at(text, 1);
    let c = char_at(text, 2);
    let d = char_at(text, 3);
    let shape = if a == '/' && b == '*' {
        CommentShape::Block
    } else {
        CommentShape::Line
    };
    let doc = if a != '/' {
        None
    } else if b == '/' {
        if c == '/' && d != '/' {
            Some(CommentPlacement::Outer)
        } else if c == '!' {
            Some(CommentPlacement::Inner)
        } else {
            None
        }
    } else if b == '*' {
        if c == '*' && d != '*' && d != '/' {
            Some(CommentPlacement::Outer)
        } else if c == '!' {
            Some(CommentPlacement::Inner)
        } else {
            None
        }
    } else {
        None
    };
    CommentKind { shape, doc }
}

/// What a documenting comment says: its text without the three characters
/// that begin it and, for a block comment, without the two that end it.
pub open spec fn spec_doc_body(text: Seq<char>, shape: CommentShape) -> Seq<char> {
    let rest = if text.len() >= 3 {
        text.subrange(3, text.len() as int)
    } else {
        Seq::empty()
    };
    if shape == CommentShape::Block && rest.len() >= 2 {
        rest.subrange(0, rest.len() - 2)
    } else {
        rest
    }
}

/// The text of `text` in which every character that a string literal cannot
/// hold as it is has been replaced by its escape sequence, as
/// `str::escape_debug` does it.
pub uninterp spec fn escape_debug(text: Seq<char>) -> Seq<char>;

/// Calls `str::escape_debug` and collects what it yields: the text with its
/// characters escaped. Nothing more is claimed than that the result depends
/// on the text alone.
#[verifier::external_body]
fn str_escape_debug(text: &str) -> (r: String)
    ensures
        r@ == escape_debug(text@),
{
    text.escape_debug().to_string()
}

/// The string literal that holds what a documenting comment says.
pub open spec fn spec_doc_literal(text: Seq<char>, shape: CommentShape) -> Seq<char> {
    seq!['"'] + escape_debug(spec_doc_body(text, shape)) + seq!['"']
}

/// A punctuation leaf that stands alone and has the id of no token.
pub open spec fn plain_punct(c: char) -> TokenTreeView {
    TokenTreeView::Leaf(
        LeafView::Punct(Punct { char: c, spacing: Spacing::Alone, id: TokenId::spec_unspecified() }),
    )
}

/// The token trees of the attribute `#[doc = literal]` (for an inner
/// comment `#![doc = literal]`), where the literal has the id `id` and all
/// the other tokens have the id of no token.
pub open spec fn spec_doc_tokens(
    placement: CommentPlacement,
    literal: Seq<char>,
    id: TokenId,
) -> Seq<TokenTreeView> {
    let meta = seq![
        TokenTreeView::Leaf(
            LeafView::Ident { text: seq!['d', 'o', 'c'], id: TokenId::spec_unspecified() },
        ),
        plain_punct('='),
        TokenTreeView::Leaf(LeafView::Literal { text: literal, id }),
    ];
    let attr = TokenTreeView::Subtree(
        SubtreeView {
            delimiter: Some(
                Delimiter { id: TokenId::spec_unspecified(), kind: DelimiterKind::Bracket },
            ),
            token_trees: meta,
        },
    );
    match placement {
        CommentPlacement::Outer => seq![plain_punct('#'), attr],
        CommentPlacement::Inner => seq![plain_punct('#'), plain_punct('!'), attr],
    }
}

/// The token trees that stand for the comment `text` in a token tree: those
/// of a `doc` attribute where the comment documents something, nothing
/// otherwise.
pub open spec fn spec_convert_doc_comment(text: Seq<char>, id: TokenId) -> Option<
    Seq<TokenTreeView>,
> {
    let kind = spec_comment_kind(text);
    match kind.doc {
        Some(placement) => Some(spec_doc_tokens(placement, spec_doc_literal(text, kind.shape), id)),
        None => None,
    }
}

/// The kind of the comment `text`.
pub fn comment_kind(text: &str) -> (r: CommentKind)
    ensures
        r == spec_comment_kind(text@),
{
    let n = text.unicode_len();
    let a = if n > 0 {
        text.get_char(0)
    } else {
        ' '
    };
    let b = if n > 1 {
        text.get_char(1)
    } else {
        ' '
    };
    let c = if n > 2 {
        text.get_char(2)
    } else {
        ' '
    };
    let d = if n > 3 {
        text.get_char(3)
    } else {
        ' '
    };
    let shape = if a == '/' && b == '*' {
        CommentShape::Block
    } else {
        CommentShape::Line
    };
    let doc = if a != '/' {
        None
    } else if b == '/' {
        if c == '/' && d != '/' {
            Some(CommentPlacement::Outer)
        } else if c == '!' {
            Some(CommentPlacement::Inner)
        } else {
            None
        }
    } else if b == '*' {
        if c == '*' && d != '*' && d != '/' {
            Some(CommentPlacement::Outer)
        } else if c == '!' {
            Some(CommentPlacement::Inner)
        } else {
            None
        }
    } else {
        None
    };
    CommentKind { shape, doc }
}

/// What the documenting comment `text` says.
pub fn doc_body<'a>(text: &'a str, shape: CommentShape) -> (r: &'a str)
    ensures
        r@ == spec_doc_body(text@, shape),
{
    let n = text.unicode_len();
    if n < 3 {
        let r = text.substring_char(0, 0);
        proof {
            assert(r@ =~= Seq::<char>::empty());
        }
        return r;
    }
    let block = match shape {
        CommentShape::Block => true,
        CommentShape::Line => false,
    };
    if block && n - 3 >= 2 {
        let r = text.substring_char(3, n - 2);
        proof {
            assert(r@ =~= text@.subrange(3, n as int).subrange(0, n - 3 - 2));
        }
        r
    } else {
        text.substring_char(3, n)
    }
}

fn mk_punct(c: char) -> (r: TokenTree)
    ensures
        r@ == plain_punct(c),
{
    TokenTree::Leaf(Leaf::Punct(Punct { char: c, spacing: Spacing::Alone, id: TokenId::unspecified() }))
}

/// The token trees of the attribute `#[doc = literal]`, or `#![doc =
/// literal]` for an inner comment, where the literal has the id `id`.
pub fn doc_tokens(placement: CommentPlacement, literal: String, id: TokenId) -> (r: Vec<TokenTree>)
    ensures
        views(r@) == spec_doc_tokens(placement, literal@, id),
{
    let name = String::from_str("doc");
    proof {
        reveal_strlit("doc");
        assert(name@ =~= seq!['d', 'o', 'c']);
    }
    let ghost literal_text = literal@;
    let mut meta: Vec<TokenTree> = Vec::new();
    meta.push(TokenTree::Leaf(Leaf::Ident(Ident { text: name, id: TokenId::unspecified() })));
    meta.push(mk_punct('='));
    meta.push(TokenTree::Leaf(Leaf::Literal(Literal { text: literal, id })));
    let attr = Subtree {
        delimiter: Some(Delimiter { id: TokenId::unspecified(), kind: DelimiterKind::Bracket }),
        token_trees: meta,
    };
    proof {
        lemma_subtree_view(&attr);
        assert(views(attr.token_trees@) =~= seq![
            TokenTreeView::Leaf(
                LeafView::Ident { text: seq!['d', 'o', 'c'], id: TokenId::spec_unspecified() },
            ),
            plain_punct('='),
            TokenTreeView::Leaf(LeafView::Literal { text: literal_text, id }),
        ]);
    }
    let mut out: Vec<TokenTree> = Vec::new();
    out.push(mk_punct('#'));
    match placement {
        CommentPlacement::Inner => {
            out.push(mk_punct('!'));
        },
        CommentPlacement::Outer => {},
    }
    out.push(TokenTree::Subtree(attr));
    proof {
        assert(views(out@) =~= spec_doc_tokens(placement, literal_text, id));
    }
    out
}

/// The string literal that holds the text `escaped`, which has its
/// characters escaped already: the text between double quotes.
pub fn quoted(escaped: &str) -> (r: String)
    ensures
        r@ == seq!['"'] + escaped@ + seq!['"'],
{
    let quote = String::from_str("\"");
    proof {
        reveal_strlit("\"");
        assert(quote@ =~= seq!['"']);
    }
    quote.concat(escaped).concat("\"")
}

/// The string literal that holds what the documenting comment `text` says.
pub fn doc_literal(text: &str, shape: CommentShape) -> (r: String)
    ensures
        r@ == spec_doc_literal(text@, shape),
{
    let body = doc_body(text, shape);
    let escaped = str_escape_debug(body);
    quoted(escaped.as_str())
}

/// The token trees that stand for the comment `text` in a token tree, with
/// the id `id` on the literal; nothing for a comment that documents nothing.
pub fn convert_doc_comment(text: &str, id: TokenId) -> (r: Option<Vec<TokenTree>>)
    ensures
        match r {
            Some(trees) => spec_convert_doc_comment(text@, id) == Some(views(trees@)),
            None => spec_convert_doc_comment(text@, id).is_none(),
        },
{
    let kind = comment_kind(text);
    match kind.doc {
        Some(placement) => {
            let literal = doc_literal(text, kind.shape);
            Some(doc_tokens(placement, literal, id))
        },
        None => None,
    }
}

} // verus!
