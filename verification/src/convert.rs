//! The conversion of a run of source tokens into a token tree and its token
//! map. Delimiters group what stands between them; what is left unclosed at
//! the end is taken apart again.

use crate::doc_comment::{convert_doc_comment, spec_convert_doc_comment};
use crate::syntax_kind::SyntaxKind;
use crate::text::TextRange;
use crate::token_map::{distinct_ids, first_with_id, Entries, TokenMap, TokenTextRange};
use crate::tt::{
    lemma_subtree_view, lemma_views_concat, lemma_views_empty, lemma_views_push, views, Delimiter,
    DelimiterKind, Ident, Leaf, LeafView, Literal, Punct, Spacing, Subtree, SubtreeView, TokenId,
    TokenTree, TokenTreeView,
};
use vstd::prelude::*;

verus! {

broadcast use {crate::text::TextRange::lemma_spec_new, vstd::string::group_string_axioms};

/// A token as the conversion takes it: its kind, its text, and the range of
/// its text relative to the start of the text that is converted. A
/// punctuation token of several characters comes as one token for each
/// character, all with the kind of the whole.
#[derive(Debug, PartialEq, Eq, Hash)]
pub struct SrcToken {
    pub kind: SyntaxKind,
    pub text: String,
    pub range: TextRange,
}

/// What a [`SrcToken`] is.
pub struct SrcTokenView {
    pub kind: SyntaxKind,
    pub text: Seq<char>,
    pub range: TextRange,
}

impl View for SrcToken {
    type V = SrcTokenView;

    open spec fn view(&self) -> SrcTokenView {
        SrcTokenView { kind: self.kind, text: self.text@, range: self.range }
    }
}

/// What a run of source tokens is.
pub open spec fn src_views(tokens: Seq<SrcToken>) -> Seq<SrcTokenView> {
    Seq::new(tokens.len(), |i: int| tokens[i]@)
}

/// A subtree that is being filled: its delimiter (the outermost one has
/// none), the token trees it holds so far, the position of its entry in the
/// token map, and the range of its opening delimiter.
pub struct Frame {
    pub delimiter: Option<Delimiter>,
    pub trees: Seq<TokenTreeView>,
    pub idx: int,
    pub open_range: TextRange,
}

/// The state of a conversion: the subtrees that are being filled, outermost
/// first; the entries of the token map; and the next id to give out.
pub struct Conv {
    pub frames: Seq<Frame>,
    pub entries: Entries,
    pub next_id: int,
}

/// The kind of delimiter that a token of kind `k` opens.
pub open spec fn spec_opening(k: SyntaxKind) -> Option<DelimiterKind> {
    match k {
        SyntaxKind::L_PAREN => Some(DelimiterKind::Parenthesis),
        SyntaxKind::L_CURLY => Some(DelimiterKind::Brace),
        SyntaxKind::L_BRACK => Some(DelimiterKind::Bracket),
        _ => None,
    }
}

/// The kind of the token that closes a delimiter of kind `d`.
pub open spec fn spec_closing(d: DelimiterKind) -> SyntaxKind {
    match d {
        DelimiterKind::Parenthesis => SyntaxKind::R_PAREN,
        DelimiterKind::Brace => SyntaxKind::R_CURLY,
        DelimiterKind::Bracket => SyntaxKind::R_BRACK,
    }
}

/// Whether a token of kind `k` is a closing bracket.
pub open spec fn spec_is_closer(k: SyntaxKind) -> bool {
    k == SyntaxKind::R_PAREN || k == SyntaxKind::R_CURLY || k == SyntaxKind::R_BRACK
}

/// How a punctuation character stands to the token that follows it: joint
/// where punctuation other than an opening bracket or an underscore follows
/// at once, alone otherwise.
pub open spec fn spec_spacing(next: Option<SyntaxKind>) -> Spacing {
    match next {
        Some(k) => if k.is_trivia() || k == SyntaxKind::L_BRACK || k == SyntaxKind::L_CURLY || k
            == SyntaxKind::L_PAREN {
            Spacing::Alone
        } else if k.is_punct() && k != SyntaxKind::UNDERSCORE {
            Spacing::Joint
        } else {
            Spacing::Alone
        },
        None => Spacing::Alone,
    }
}

impl Conv {
    /// The state before the first token.
    pub open spec fn start() -> Conv {
        Conv {
            frames: seq![
                Frame {
                    delimiter: None,
                    trees: Seq::empty(),
                    idx: 0,
                    open_range: TextRange::spec_new(1, 1),
                },
            ],
            entries: Seq::empty(),
            next_id: 0,
        }
    }

    /// Every subtree that is being filled has its entry in the token map,
    /// and an inner one has a later entry than an outer one.
    pub open spec fn wf(self) -> bool {
        &&& self.frames.len() >= 1
        &&& 0 <= self.next_id <= 0xffff_ffff
        &&& forall|k: int|
            1 <= k < self.frames.len() ==> 0 <= (#[trigger] self.frames[k]).idx
                < self.entries.len()
        &&& forall|k: int, l: int|
            1 <= k < l < self.frames.len() ==> (#[trigger] self.frames[k]).idx < (
            #[trigger] self.frames[l]).idx
    }

    /// The id that is given out next. Once every id has been given out
    /// it is the id of no token.
    pub open spec fn fresh(self) -> TokenId {
        TokenId(self.next_id as u32)
    }

    /// The number of the id that follows the next one.
    pub open spec fn following(self) -> int {
        if self.next_id < 0xffff_ffff {
            self.next_id + 1
        } else {
            self.next_id
        }
    }

    /// The state after a token with the range `range` got the next id.
    pub open spec fn assign(self, range: TextRange) -> Conv {
        Conv {
            entries: self.entries.push((self.fresh(), TokenTextRange::Token(range))),
            next_id: self.following(),
            ..self
        }
    }

    /// The state after `tree` was added to the innermost subtree.
    pub open spec fn push(self, tree: TokenTreeView) -> Conv {
        let last = self.frames.len() - 1;
        let top = self.frames[last];
        Conv { frames: self.frames.update(last, Frame { trees: top.trees.push(tree), ..top }), ..self }
    }

    /// The state after `trees` were added to the innermost subtree.
    pub open spec fn extend(self, trees: Seq<TokenTreeView>) -> Conv {
        let last = self.frames.len() - 1;
        let top = self.frames[last];
        Conv { frames: self.frames.update(last, Frame { trees: top.trees + trees, ..top }), ..self }
    }

    /// The state after a delimiter of kind `kind` with the range `range`
    /// opened a new innermost subtree.
    pub open spec fn open(self, kind: DelimiterKind, range: TextRange) -> Conv {
        Conv {
            frames: self.frames.push(
                Frame {
                    delimiter: Some(Delimiter { id: self.fresh(), kind }),
                    trees: Seq::empty(),
                    idx: self.entries.len() as int,
                    open_range: range,
                },
            ),
            entries: self.entries.push((self.fresh(), TokenTextRange::Delimiter(range, None))),
            next_id: self.following(),
        }
    }

    /// The state after the closing delimiter with the range `range` ended
    /// the innermost subtree, which then stands in the one around it.
    pub open spec fn close(self, range: TextRange) -> Conv {
        let last = self.frames.len() - 1;
        let top = self.frames[last];
        let done = TokenTreeView::Subtree(
            SubtreeView { delimiter: top.delimiter, token_trees: top.trees },
        );
        let entries = match self.entries[top.idx].1 {
            TokenTextRange::Delimiter(open, _) => self.entries.update(
                top.idx,
                (self.entries[top.idx].0, TokenTextRange::Delimiter(open, Some(range))),
            ),
            TokenTextRange::Token(_) => self.entries,
        };
        Conv { frames: self.frames.drop_last(), entries, next_id: self.next_id }.push(done)
    }

    /// The state after the innermost subtree, whose closing delimiter never
    /// came, was taken apart: its entry leaves the token map, its opening
    /// delimiter becomes a punctuation leaf with a new id, and the leaf and
    /// what the subtree held stand in the subtree around it.
    pub open spec fn dissolve(self) -> Conv {
        let last = self.frames.len() - 1;
        let top = self.frames[last];
        let without = Conv {
            frames: self.frames.drop_last(),
            entries: self.entries.remove(top.idx),
            next_id: self.next_id,
        };
        let leaf = TokenTreeView::Leaf(
            LeafView::Punct(
                Punct {
                    char: match top.delimiter {
                        Some(d) => d.kind.spec_open_char(),
                        None => '(',
                    },
                    spacing: Spacing::Alone,
                    id: without.fresh(),
                },
            ),
        );
        without.assign(top.open_range).push(leaf).extend(top.trees)
    }

    /// The state after the token `tok`, which the kind `next` follows.
    pub open spec fn step(self, tok: SrcTokenView, next: Option<SyntaxKind>) -> Conv {
        let k = tok.kind;
        let top = self.frames[self.frames.len() - 1];
        if k == SyntaxKind::COMMENT {
            match spec_convert_doc_comment(tok.text, self.fresh()) {
                Some(trees) => self.assign(tok.range).extend(trees),
                None => self,
            }
        } else if k.is_punct() && k != SyntaxKind::UNDERSCORE {
            if self.frames.len() > 1 && top.delimiter.is_some() && k == spec_closing(
                top.delimiter.unwrap().kind,
            ) {
                self.close(tok.range)
            } else if spec_opening(k).is_some() {
                self.open(spec_opening(k).unwrap(), tok.range)
            } else if spec_is_closer(k) || tok.text.len() == 0 {
                self
            } else {
                self.assign(tok.range).push(
                    TokenTreeView::Leaf(
                        LeafView::Punct(
                            Punct { char: tok.text[0], spacing: spec_spacing(next), id: self.fresh() },
                        ),
                    ),
                )
            }
        } else if k == SyntaxKind::IDENT || k == SyntaxKind::UNDERSCORE || k.is_keyword() {
            self.assign(tok.range).push(
                TokenTreeView::Leaf(LeafView::Ident { text: tok.text, id: self.fresh() }),
            )
        } else if k.is_literal() {
            self.assign(tok.range).push(
                TokenTreeView::Leaf(LeafView::Literal { text: tok.text, id: self.fresh() }),
            )
        } else if k == SyntaxKind::LIFETIME_IDENT {
            if tok.range.spec_len() == 0 || tok.text.len() == 0 {
                self
            } else {
                let quote = self.assign(TextRange::spec_at(tok.range.spec_start(), 1)).push(
                    TokenTreeView::Leaf(
                        LeafView::Punct(
                            Punct { char: '\'', spacing: Spacing::Joint, id: self.fresh() },
                        ),
                    ),
                );
                quote.assign(
                    TextRange::spec_new((tok.range.spec_start() + 1) as u32, tok.range.spec_end()),
                ).push(
                    TokenTreeView::Leaf(
                        LeafView::Ident {
                            text: tok.text.subrange(1, tok.text.len() as int),
                            id: quote.fresh(),
                        },
                    ),
                )
            }
        } else {
            self
        }
    }

    /// The state after the first `n` of `tokens`.
    pub open spec fn run(tokens: Seq<SrcTokenView>, n: int) -> Conv
        decreases n,
    {
        if n <= 0 || n > tokens.len() {
            Conv::start()
        } else {
            Conv::run(tokens, n - 1).step(
                tokens[n - 1],
                if n < tokens.len() {
                    Some(tokens[n].kind)
                } else {
                    None
                },
            )
        }
    }

    /// The state after every unclosed subtree was taken apart, innermost
    /// first.
    pub open spec fn unwind(self) -> Conv
        decreases self.frames.len(),
    {
        if self.frames.len() <= 1 {
            self
        } else if self.dissolve().frames.len() < self.frames.len() {
            self.dissolve().unwind()
        } else {
            self
        }
    }

    /// The token tree that the outermost subtree of the state makes: the
    /// subtree itself or, where all it holds is one subtree, that one.
    pub open spec fn result(self) -> SubtreeView {
        let root = self.frames[0];
        if root.trees.len() == 1 && root.trees[0] is Subtree {
            root.trees[0]->Subtree_0
        } else {
            SubtreeView { delimiter: root.delimiter, token_trees: root.trees }
        }
    }
}

/// The token tree that `tokens` convert to.
pub open spec fn converted_tree(tokens: Seq<SrcTokenView>) -> SubtreeView {
    Conv::run(tokens, tokens.len() as int).unwind().result()
}

/// The token map that goes with the token tree that `tokens` convert to.
pub open spec fn converted_map(tokens: Seq<SrcTokenView>) -> Entries {
    Conv::run(tokens, tokens.len() as int).unwind().entries
}

/// A subtree that is being filled.
struct StackEntry {
    delimiter: Option<Delimiter>,
    trees: Vec<TokenTree>,
    idx: usize,
    open_range: TextRange,
}

impl View for StackEntry {
    type V = Frame;

    closed spec fn view(&self) -> Frame {
        Frame {
            delimiter: self.delimiter,
            trees: views(self.trees@),
            idx: self.idx as int,
            open_range: self.open_range,
        }
    }
}

/// The running conversion: the subtree that is filled now, those around it
/// (outermost first), the token map and the next id.
struct Converter {
    stack: Vec<StackEntry>,
    cur: StackEntry,
    map: TokenMap,
    next_id: u32,
}

impl View for Converter {
    type V = Conv;

    closed spec fn view(&self) -> Conv {
        Conv {
            frames: Seq::new(
                self.stack@.len() + 1,
                |i: int|
                    if i < self.stack@.len() {
                        self.stack@[i]@
                    } else {
                        self.cur@
                    },
            ),
            entries: self.map@,
            next_id: self.next_id as int,
        }
    }
}

impl Converter {
    fn new() -> (r: Converter)
        ensures
            r@ == Conv::start(),
            r@.wf(),
    {
        let r = Converter {
            stack: Vec::new(),
            cur: StackEntry {
                delimiter: None,
                trees: Vec::new(),
                idx: 0,
                open_range: TextRange::empty(1),
            },
            map: TokenMap::new(),
            next_id: 0,
        };
        proof {
            lemma_views_empty();
            assert(r@.frames =~= Conv::start().frames);
        }
        r
    }

    fn assign(&mut self, range: TextRange) -> (id: TokenId)
        requires
            old(self)@.wf(),
        ensures
            final(self)@ == old(self)@.assign(range),
            final(self)@.wf(),
            id == old(self)@.fresh(),
            final(self).stack@.len() == old(self).stack@.len(),
    {
        let id = TokenId(self.next_id);
        if self.next_id < u32::MAX {
            self.next_id = self.next_id + 1;
        }
        self.map.insert(id, range);
        proof {
            assert(self@.frames =~= old(self)@.frames);
            assert forall|k: int| 1 <= k < self@.frames.len() implies 0 <= (
            #[trigger] self@.frames[k]).idx < self@.entries.len() by {
                assert(old(self)@.frames[k].idx < old(self)@.entries.len());
            }
        }
        id
    }

    fn push(&mut self, tree: TokenTree)
        requires
            old(self)@.wf(),
        ensures
            final(self)@ == old(self)@.push(tree@),
            final(self)@.wf(),
            final(self).stack@.len() == old(self).stack@.len(),
    {
        let ghost t = tree@;
        self.cur.trees.push(tree);
        proof {
            lemma_views_push(old(self).cur.trees@, tree);
            assert(self@.frames =~= old(self)@.push(t).frames);
            assert forall|k: int| 1 <= k < self@.frames.len() implies 0 <= (
            #[trigger] self@.frames[k]).idx < self@.entries.len() by {
                assert(old(self)@.frames[k].idx < old(self)@.entries.len());
            }
            assert forall|k: int, l: int| 1 <= k < l < self@.frames.len() implies (
            #[trigger] self@.frames[k]).idx < (#[trigger] self@.frames[l]).idx by {
                assert(old(self)@.frames[k].idx < old(self)@.frames[l].idx);
            }
        }
    }

    fn extend(&mut self, trees: Vec<TokenTree>)
        requires
            old(self)@.wf(),
        ensures
            final(self)@ == old(self)@.extend(views(trees@)),
            final(self)@.wf(),
            final(self).stack@.len() == old(self).stack@.len(),
    {
        let mut trees = trees;
        let ghost added = trees@;
        self.cur.trees.append(&mut trees);
        proof {
            lemma_views_concat(old(self).cur.trees@, added);
            assert(self@.frames =~= old(self)@.extend(views(added)).frames);
            assert forall|k: int| 1 <= k < self@.frames.len() implies 0 <= (
            #[trigger] self@.frames[k]).idx < self@.entries.len() by {
                assert(old(self)@.frames[k].idx < old(self)@.entries.len());
            }
            assert forall|k: int, l: int| 1 <= k < l < self@.frames.len() implies (
            #[trigger] self@.frames[k]).idx < (#[trigger] self@.frames[l]).idx by {
                assert(old(self)@.frames[k].idx < old(self)@.frames[l].idx);
            }
        }
    }

    fn open(&mut self, kind: DelimiterKind, range: TextRange)
        requires
            old(self)@.wf(),
        ensures
            final(self)@ == old(self)@.open(kind, range),
            final(self)@.wf(),
            final(self).stack@.len() == old(self).stack@.len() + 1,
    {
        let id = TokenId(self.next_id);
        if self.next_id < u32::MAX {
            self.next_id = self.next_id + 1;
        }
        let idx = self.map.insert_delim(id, range, None);
        let mut entry = StackEntry {
            delimiter: Some(Delimiter { id, kind }),
            trees: Vec::new(),
            idx,
            open_range: range,
        };
        proof {
            lemma_views_empty();
        }
        std::mem::swap(&mut self.cur, &mut entry);
        self.stack.push(entry);
        proof {
            let post = self@;
            let want = old(self)@.open(kind, range);
            assert(post.frames.len() == want.frames.len());
            assert forall|i: int| 0 <= i < post.frames.len() implies post.frames[i]
                == want.frames[i] by {
                if i < old(self).stack@.len() {
                    assert(self.stack@[i] == old(self).stack@[i]);
                }
            }
            assert(post.frames =~= want.frames);
            assert forall|k: int| 1 <= k < post.frames.len() implies 0 <= (
            #[trigger] post.frames[k]).idx < post.entries.len() by {
                if k < post.frames.len() - 1 {
                    assert(old(self)@.frames[k].idx < old(self)@.entries.len());
                }
            }
            assert forall|k: int, l: int| 1 <= k < l < post.frames.len() implies (
            #[trigger] post.frames[k]).idx < (#[trigger] post.frames[l]).idx by {
                if l < post.frames.len() - 1 {
                    assert(old(self)@.frames[k].idx < old(self)@.frames[l].idx);
                } else {
                    assert(old(self)@.frames[k].idx < old(self)@.entries.len());
                }
            }
        }
    }

    /// Takes the innermost subtree off and makes the one around it the
    /// innermost.
    fn pop(&mut self) -> (done: StackEntry)
        requires
            old(self)@.wf(),
            old(self).stack@.len() > 0,
        ensures
            done@ == old(self)@.frames.last(),
            final(self)@.frames == old(self)@.frames.drop_last(),
            final(self)@.entries == old(self)@.entries,
            final(self).map == old(self).map,
            final(self)@.next_id == old(self)@.next_id,
            final(self).stack@.len() == old(self).stack@.len() - 1,
    {
        let mut entry = self.stack.pop().unwrap();
        std::mem::swap(&mut self.cur, &mut entry);
        proof {
            let post = self@;
            let want = old(self)@.frames.drop_last();
            assert(post.frames.len() == want.len());
            assert forall|i: int| 0 <= i < post.frames.len() implies post.frames[i] == want[i] by {
                if i < self.stack@.len() {
                    assert(self.stack@[i] == old(self).stack@[i]);
                }
            }
            assert(post.frames =~= want);
        }
        entry
    }

    fn close(&mut self, range: TextRange)
        requires
            old(self)@.wf(),
            old(self).stack@.len() > 0,
        ensures
            final(self)@ == old(self)@.close(range),
            final(self)@.wf(),
            final(self).stack@.len() == old(self).stack@.len() - 1,
    {
        let ghost pre = self@;
        assert(0 <= pre.frames[pre.frames.len() - 1].idx < pre.entries.len());
        let done = self.pop();
        self.map.update_close_delim(done.idx, range);
        let subtree = Subtree { delimiter: done.delimiter, token_trees: done.trees };
        proof {
            lemma_subtree_view(&subtree);
            let mid = self@;
            assert(mid.frames.len() >= 1);
            assert forall|k: int| 1 <= k < mid.frames.len() implies 0 <= (
            #[trigger] mid.frames[k]).idx < mid.entries.len() by {
                assert(pre.frames[k].idx < pre.entries.len());
            }
            assert forall|k: int, l: int| 1 <= k < l < mid.frames.len() implies (
            #[trigger] mid.frames[k]).idx < (#[trigger] mid.frames[l]).idx by {
                assert(pre.frames[k].idx < pre.frames[l].idx);
            }
        }
        self.push(TokenTree::Subtree(subtree));
    }

    fn dissolve(&mut self)
        requires
            old(self)@.wf(),
            old(self).stack@.len() > 0,
        ensures
            final(self)@ == old(self)@.dissolve(),
            final(self)@.wf(),
            final(self).stack@.len() == old(self).stack@.len() - 1,
    {
        let ghost pre = self@;
        assert(0 <= pre.frames[pre.frames.len() - 1].idx < pre.entries.len());
        let done = self.pop();
        self.map.remove_delim(done.idx);
        proof {
            let mid = self@;
            assert forall|k: int| 1 <= k < mid.frames.len() implies 0 <= (
            #[trigger] mid.frames[k]).idx < mid.entries.len() by {
                assert(pre.frames[k].idx < pre.frames[pre.frames.len() - 1].idx);
            }
            assert forall|k: int, l: int| 1 <= k < l < mid.frames.len() implies (
            #[trigger] mid.frames[k]).idx < (#[trigger] mid.frames[l]).idx by {
                assert(pre.frames[k].idx < pre.frames[l].idx);
            }
        }
        let id = self.assign(done.open_range);
        let c = match done.delimiter {
            Some(d) => d.kind.open_char(),
            None => '(',
        };
        self.push(TokenTree::Leaf(Leaf::Punct(Punct { char: c, spacing: Spacing::Alone, id })));
        self.extend(done.trees);
    }

    fn finish(self) -> (r: (Subtree, TokenMap))
        requires
            self@.wf(),
            self.stack@.len() == 0,
        ensures
            r.0@ == self@.result(),
            r.1@ == self@.entries,
    {
        let Converter { stack, cur, map, next_id } = self;
        let StackEntry { delimiter, trees, idx, open_range } = cur;
        let mut trees = trees;
        let ghost all = trees@;
        proof {
            assert(self@.frames[0] == cur@);
        }
        let single = trees.len() == 1 && match &trees[0] {
            TokenTree::Subtree(_) => true,
            TokenTree::Leaf(_) => false,
        };
        if single {
            match trees.pop().unwrap() {
                TokenTree::Subtree(s) => {
                    proof {
                        assert(views(all)[0] == all[0]@);
                    }
                    return (s, map);
                },
                TokenTree::Leaf(_) => {
                    proof {
                        assert(false);
                    }
                    return (Subtree { delimiter, token_trees: trees }, map);
                },
            }
        }
        let root = Subtree { delimiter, token_trees: trees };
        proof {
            lemma_subtree_view(&root);
            if all.len() == 1 {
                assert(views(all)[0] == all[0]@);
            }
        }
        (root, map)
    }
}

/// The kind of delimiter that a token of kind `k` opens.
fn opening(k: SyntaxKind) -> (r: Option<DelimiterKind>)
    ensures
        r == spec_opening(k),
{
    match k {
        SyntaxKind::L_PAREN => Some(DelimiterKind::Parenthesis),
        SyntaxKind::L_CURLY => Some(DelimiterKind::Brace),
        SyntaxKind::L_BRACK => Some(DelimiterKind::Bracket),
        _ => None,
    }
}

/// The kind of the token that closes a delimiter of kind `d`.
fn closing(d: DelimiterKind) -> (r: SyntaxKind)
    ensures
        r == spec_closing(d),
{
    match d {
        DelimiterKind::Parenthesis => SyntaxKind::R_PAREN,
        DelimiterKind::Brace => SyntaxKind::R_CURLY,
        DelimiterKind::Bracket => SyntaxKind::R_BRACK,
    }
}

/// Whether a token of kind `k` is a closing bracket.
fn is_closer(k: SyntaxKind) -> (r: bool)
    ensures
        r == spec_is_closer(k),
{
    k == SyntaxKind::R_PAREN || k == SyntaxKind::R_CURLY || k == SyntaxKind::R_BRACK
}

/// How a punctuation character stands to the token of kind `next` that
/// follows it.
fn spacing(next: Option<SyntaxKind>) -> (r: Spacing)
    ensures
        r == spec_spacing(next),
{
    match next {
        Some(k) => if k.is_trivia() || k == SyntaxKind::L_BRACK || k == SyntaxKind::L_CURLY || k
            == SyntaxKind::L_PAREN {
            Spacing::Alone
        } else if k.is_punct() && k != SyntaxKind::UNDERSCORE {
            Spacing::Joint
        } else {
            Spacing::Alone
        },
        None => Spacing::Alone,
    }
}

impl Converter {
    fn step(&mut self, tok: &SrcToken, next: Option<SyntaxKind>)
        requires
            old(self)@.wf(),
        ensures
            final(self)@ == old(self)@.step(tok@, next),
            final(self)@.wf(),
    {
        let k = tok.kind;
        let ghost pre = self@;
        proof {
            assert(pre.frames[pre.frames.len() - 1] == self.cur@);
        }
        if k == SyntaxKind::COMMENT {
            let fresh = TokenId(self.next_id);
            match convert_doc_comment(tok.text.as_str(), fresh) {
                Some(trees) => {
                    self.assign(tok.range);
                    self.extend(trees);
                },
                None => {},
            }
        } else if k.is_punct() && k != SyntaxKind::UNDERSCORE {
            let closes = self.stack.len() > 0 && match self.cur.delimiter {
                Some(d) => k == closing(d.kind),
                None => false,
            };
            if closes {
                self.close(tok.range);
            } else {
                match opening(k) {
                    Some(kind) => {
                        self.open(kind, tok.range);
                    },
                    None => {
                        if !is_closer(k) && tok.text.as_str().unicode_len() > 0 {
                            let c = tok.text.as_str().get_char(0);
                            let id = self.assign(tok.range);
                            self.push(
                                TokenTree::Leaf(
                                    Leaf::Punct(Punct { char: c, spacing: spacing(next), id }),
                                ),
                            );
                        }
                    },
                }
            }
        } else if k == SyntaxKind::IDENT || k == SyntaxKind::UNDERSCORE || k.is_keyword() {
            let id = self.assign(tok.range);
            self.push(TokenTree::Leaf(Leaf::Ident(Ident { text: tok.text.clone(), id })));
        } else if k.is_literal() {
            let id = self.assign(tok.range);
            self.push(TokenTree::Leaf(Leaf::Literal(Literal { text: tok.text.clone(), id })));
        } else if k == SyntaxKind::LIFETIME_IDENT {
            let n = tok.text.as_str().unicode_len();
            if tok.range.len() > 0 && n > 0 {
                let start = tok.range.start();
                let id = self.assign(TextRange::at(start, 1));
                self.push(
                    TokenTree::Leaf(Leaf::Punct(Punct { char: '\'', spacing: Spacing::Joint, id })),
                );
                let id = self.assign(TextRange::new(start + 1, tok.range.end()));
                let name = String::from_str(tok.text.as_str().substring_char(1, n));
                self.push(TokenTree::Leaf(Leaf::Ident(Ident { text: name, id })));
            }
        }
    }
}

/// Converts a run of source tokens into a token tree and its token map.
/// Comments that document something become `doc` attributes, other
/// comments and whitespace are left out; a lifetime becomes a quote and a
/// name; brackets group what stands between them. A closing bracket that
/// closes nothing is left out; an opening bracket that is never closed
/// becomes a punctuation leaf, and what followed it stands beside it.
pub fn convert_tokens(tokens: &Vec<SrcToken>) -> (r: (Subtree, TokenMap))
    ensures
        r.0@ == converted_tree(src_views(tokens@)),
        r.1@ == converted_map(src_views(tokens@)),
{
    let ghost toks = src_views(tokens@);
    let mut conv = Converter::new();
    let mut i: usize = 0;
    while i < tokens.len()
        invariant
            i <= tokens@.len(),
            toks == src_views(tokens@),
            conv@.wf(),
            conv@ == Conv::run(toks, i as int),
        decreases tokens@.len() - i,
    {
        let next = if i < tokens.len() - 1 {
            Some(tokens[i + 1].kind)
        } else {
            None
        };
        conv.step(&tokens[i], next);
        i += 1;
    }
    while conv.stack.len() > 0
        invariant
            conv@.wf(),
            conv@.unwind() == Conv::run(toks, tokens@.len() as int).unwind(),
        decreases conv.stack@.len(),
    {
        conv.dissolve();
    }
    conv.finish()
}

impl Conv {
    /// Every id in the token map has been given out, and none twice.
    pub open spec fn ids_fresh(self) -> bool {
        &&& self.wf()
        &&& distinct_ids(self.entries)
        &&& forall|i: int| 0 <= i < self.entries.len() ==> (#[trigger] self.entries[i]).0.0 < self.next_id
    }

    proof fn lemma_assign(self, range: TextRange)
        requires
            self.ids_fresh(),
            self.next_id < 0xffff_ffff,
        ensures
            self.assign(range).ids_fresh(),
            self.assign(range).next_id == self.next_id + 1,
            self.assign(range).frames == self.frames,
    {
        let after = self.assign(range);
        assert forall|i: int| 0 <= i < after.entries.len() implies (
        #[trigger] after.entries[i]).0.0 < after.next_id by {
            if i < self.entries.len() {
                assert(after.entries[i] == self.entries[i]);
            }
        }
        assert forall|i: int, j: int| 0 <= i < j < after.entries.len() implies (
        #[trigger] after.entries[i]).0 != (#[trigger] after.entries[j]).0 by {
            assert(after.entries[i] == self.entries[i]);
            if j < self.entries.len() {
                assert(after.entries[j] == self.entries[j]);
            }
        }
        assert forall|k: int| 1 <= k < after.frames.len() implies 0 <= (
        #[trigger] after.frames[k]).idx < after.entries.len() by {
            assert(self.frames[k].idx < self.entries.len());
        }
    }

    proof fn lemma_push(self, tree: TokenTreeView)
        requires
            self.ids_fresh(),
        ensures
            self.push(tree).ids_fresh(),
            self.push(tree).next_id == self.next_id,
            self.push(tree).frames.len() == self.frames.len(),
    {
        let after = self.push(tree);
        assert forall|k: int| 1 <= k < after.frames.len() implies 0 <= (
        #[trigger] after.frames[k]).idx < after.entries.len() by {
            assert(self.frames[k].idx < self.entries.len());
        }
        assert forall|k: int, l: int| 1 <= k < l < after.frames.len() implies (
        #[trigger] after.frames[k]).idx < (#[trigger] after.frames[l]).idx by {
            assert(self.frames[k].idx < self.frames[l].idx);
        }
    }

    proof fn lemma_extend(self, trees: Seq<TokenTreeView>)
        requires
            self.ids_fresh(),
        ensures
            self.extend(trees).ids_fresh(),
            self.extend(trees).next_id == self.next_id,
            self.extend(trees).frames.len() == self.frames.len(),
    {
        let after = self.extend(trees);
        assert forall|k: int| 1 <= k < after.frames.len() implies 0 <= (
        #[trigger] after.frames[k]).idx < after.entries.len() by {
            assert(self.frames[k].idx < self.entries.len());
        }
        assert forall|k: int, l: int| 1 <= k < l < after.frames.len() implies (
        #[trigger] after.frames[k]).idx < (#[trigger] after.frames[l]).idx by {
            assert(self.frames[k].idx < self.frames[l].idx);
        }
    }

    proof fn lemma_open(self, kind: DelimiterKind, range: TextRange)
        requires
            self.ids_fresh(),
            self.next_id < 0xffff_ffff,
        ensures
            self.open(kind, range).ids_fresh(),
            self.open(kind, range).next_id == self.next_id + 1,
            self.open(kind, range).frames.len() == self.frames.len() + 1,
    {
        let after = self.open(kind, range);
        assert forall|i: int| 0 <= i < after.entries.len() implies (
        #[trigger] after.entries[i]).0.0 < after.next_id by {
            if i < self.entries.len() {
                assert(after.entries[i] == self.entries[i]);
            }
        }
        assert forall|i: int, j: int| 0 <= i < j < after.entries.len() implies (
        #[trigger] after.entries[i]).0 != (#[trigger] after.entries[j]).0 by {
            assert(after.entries[i] == self.entries[i]);
            if j < self.entries.len() {
                assert(after.entries[j] == self.entries[j]);
            }
        }
        assert forall|k: int| 1 <= k < after.frames.len() implies 0 <= (
        #[trigger] after.frames[k]).idx < after.entries.len() by {
            if k < self.frames.len() {
                assert(self.frames[k].idx < self.entries.len());
            }
        }
        assert forall|k: int, l: int| 1 <= k < l < after.frames.len() implies (
        #[trigger] after.frames[k]).idx < (#[trigger] after.frames[l]).idx by {
            assert(self.frames[k].idx < self.entries.len());
            if l < self.frames.len() {
                assert(self.frames[k].idx < self.frames[l].idx);
            }
        }
    }

    proof fn lemma_close(self, range: TextRange)
        requires
            self.ids_fresh(),
            self.frames.len() > 1,
        ensures
            self.close(range).ids_fresh(),
            self.close(range).next_id == self.next_id,
            self.close(range).frames.len() == self.frames.len() - 1,
    {
        let last = self.frames.len() - 1;
        let top = self.frames[last];
        assert(0 <= top.idx < self.entries.len());
        let entries = match self.entries[top.idx].1 {
            TokenTextRange::Delimiter(open, _) => self.entries.update(
                top.idx,
                (self.entries[top.idx].0, TokenTextRange::Delimiter(open, Some(range))),
            ),
            TokenTextRange::Token(_) => self.entries,
        };
        let mid = Conv { frames: self.frames.drop_last(), entries, next_id: self.next_id };
        assert forall|i: int| 0 <= i < mid.entries.len() implies (#[trigger] mid.entries[i]).0
            == self.entries[i].0 by {}
        assert forall|i: int, j: int| 0 <= i < j < mid.entries.len() implies (
        #[trigger] mid.entries[i]).0 != (#[trigger] mid.entries[j]).0 by {
            assert(self.entries[i].0 != self.entries[j].0);
        }
        assert forall|k: int| 1 <= k < mid.frames.len() implies 0 <= (
        #[trigger] mid.frames[k]).idx < mid.entries.len() by {
            assert(self.frames[k].idx < self.entries.len());
        }
        assert forall|k: int, l: int| 1 <= k < l < mid.frames.len() implies (
        #[trigger] mid.frames[k]).idx < (#[trigger] mid.frames[l]).idx by {
            assert(self.frames[k].idx < self.frames[l].idx);
        }
        mid.lemma_push(
            TokenTreeView::Subtree(SubtreeView { delimiter: top.delimiter, token_trees: top.trees }),
        );
    }

    proof fn lemma_dissolve(self)
        requires
            self.ids_fresh(),
            self.frames.len() > 1,
            self.next_id < 0xffff_ffff,
        ensures
            self.dissolve().ids_fresh(),
            self.dissolve().next_id == self.next_id + 1,
            self.dissolve().frames.len() == self.frames.len() - 1,
    {
        let last = self.frames.len() - 1;
        let top = self.frames[last];
        assert(0 <= top.idx < self.entries.len());
        let without = Conv {
            frames: self.frames.drop_last(),
            entries: self.entries.remove(top.idx),
            next_id: self.next_id,
        };
        assert forall|i: int| 0 <= i < without.entries.len() implies (
        #[trigger] without.entries[i]).0.0 < without.next_id by {
            if i < top.idx {
                assert(without.entries[i] == self.entries[i]);
            } else {
                assert(without.entries[i] == self.entries[i + 1]);
            }
        }
        assert forall|i: int, j: int| 0 <= i < j < without.entries.len() implies (
        #[trigger] without.entries[i]).0 != (#[trigger] without.entries[j]).0 by {
            let a = if i < top.idx {
                i
            } else {
                i + 1
            };
            let b = if j < top.idx {
                j
            } else {
                j + 1
            };
            assert(without.entries[i] == self.entries[a]);
            assert(without.entries[j] == self.entries[b]);
            assert(self.entries[a].0 != self.entries[b].0);
        }
        assert forall|k: int| 1 <= k < without.frames.len() implies 0 <= (
        #[trigger] without.frames[k]).idx < without.entries.len() by {
            assert(self.frames[k].idx < self.frames[last].idx);
        }
        assert forall|k: int, l: int| 1 <= k < l < without.frames.len() implies (
        #[trigger] without.frames[k]).idx < (#[trigger] without.frames[l]).idx by {
            assert(self.frames[k].idx < self.frames[l].idx);
        }
        without.lemma_assign(top.open_range);
        let leaf = TokenTreeView::Leaf(
            LeafView::Punct(
                Punct {
                    char: match top.delimiter {
                        Some(d) => d.kind.spec_open_char(),
                        None => '(',
                    },
                    spacing: Spacing::Alone,
                    id: without.fresh(),
                },
            ),
        );
        without.assign(top.open_range).lemma_push(leaf);
        without.assign(top.open_range).push(leaf).lemma_extend(top.trees);
    }

    proof fn lemma_step(self, tok: SrcTokenView, next: Option<SyntaxKind>)
        requires
            self.ids_fresh(),
            self.next_id + 2 <= 0xffff_ffff,
        ensures
            self.step(tok, next).ids_fresh(),
            self.next_id <= self.step(tok, next).next_id <= self.next_id + 2,
            self.step(tok, next).frames.len() <= self.frames.len() + 1,
    {
        let k = tok.kind;
        let top = self.frames[self.frames.len() - 1];
        if k == SyntaxKind::COMMENT {
            match spec_convert_doc_comment(tok.text, self.fresh()) {
                Some(trees) => {
                    self.lemma_assign(tok.range);
                    self.assign(tok.range).lemma_extend(trees);
                },
                None => {},
            }
        } else if k.is_punct() && k != SyntaxKind::UNDERSCORE {
            if self.frames.len() > 1 && top.delimiter.is_some() && k == spec_closing(
                top.delimiter.unwrap().kind,
            ) {
                self.lemma_close(tok.range);
            } else if spec_opening(k).is_some() {
                self.lemma_open(spec_opening(k).unwrap(), tok.range);
            } else if spec_is_closer(k) || tok.text.len() == 0 {
            } else {
                self.lemma_assign(tok.range);
                self.assign(tok.range).lemma_push(
                    TokenTreeView::Leaf(
                        LeafView::Punct(
                            Punct { char: tok.text[0], spacing: spec_spacing(next), id: self.fresh() },
                        ),
                    ),
                );
            }
        } else if k == SyntaxKind::IDENT || k == SyntaxKind::UNDERSCORE || k.is_keyword() {
            self.lemma_assign(tok.range);
            self.assign(tok.range).lemma_push(
                TokenTreeView::Leaf(LeafView::Ident { text: tok.text, id: self.fresh() }),
            );
        } else if k.is_literal() {
            self.lemma_assign(tok.range);
            self.assign(tok.range).lemma_push(
                TokenTreeView::Leaf(LeafView::Literal { text: tok.text, id: self.fresh() }),
            );
        } else if k == SyntaxKind::LIFETIME_IDENT {
            if tok.range.spec_len() == 0 || tok.text.len() == 0 {
            } else {
                let r1 = TextRange::spec_at(tok.range.spec_start(), 1);
                self.lemma_assign(r1);
                let leaf = TokenTreeView::Leaf(
                    LeafView::Punct(Punct { char: '\'', spacing: Spacing::Joint, id: self.fresh() }),
                );
                self.assign(r1).lemma_push(leaf);
                let quote = self.assign(r1).push(leaf);
                let r2 = TextRange::spec_new(
                    (tok.range.spec_start() + 1) as u32,
                    tok.range.spec_end(),
                );
                quote.lemma_assign(r2);
                quote.assign(r2).lemma_push(
                    TokenTreeView::Leaf(
                        LeafView::Ident {
                            text: tok.text.subrange(1, tok.text.len() as int),
                            id: quote.fresh(),
                        },
                    ),
                );
            }
        }
    }

    proof fn lemma_run(tokens: Seq<SrcTokenView>, n: int)
        requires
            0 <= n <= tokens.len(),
            2 * n <= 0xffff_ffff,
        ensures
            Conv::run(tokens, n).ids_fresh(),
            Conv::run(tokens, n).next_id <= 2 * n,
            Conv::run(tokens, n).frames.len() <= n + 1,
        decreases n,
    {
        if n > 0 {
            Conv::lemma_run(tokens, n - 1);
            Conv::run(tokens, n - 1).lemma_step(
                tokens[n - 1],
                if n < tokens.len() {
                    Some(tokens[n].kind)
                } else {
                    None
                },
            );
        }
    }

    proof fn lemma_unwind(self)
        requires
            self.ids_fresh(),
            self.next_id + self.frames.len() <= 0xffff_ffff,
        ensures
            self.unwind().ids_fresh(),
        decreases self.frames.len(),
    {
        if self.frames.len() > 1 {
            self.lemma_dissolve();
            self.dissolve().lemma_unwind();
        }
    }
}

/// Whether the token tree `t` holds the leaf `leaf`.
pub open spec fn tree_has_leaf(t: TokenTreeView, leaf: LeafView) -> bool
    decreases t,
{
    match t {
        TokenTreeView::Leaf(l) => l == leaf,
        TokenTreeView::Subtree(s) => subtree_has_leaf(s, leaf),
    }
}

/// Whether the subtree `s` holds the leaf `leaf` anywhere inside.
pub open spec fn subtree_has_leaf(s: SubtreeView, leaf: LeafView) -> bool
    decreases s,
{
    exists|i: int|
        #![trigger s.token_trees[i]]
        0 <= i < s.token_trees.len() && tree_has_leaf(s.token_trees[i], leaf)
}

/// Whether one of the token trees `trees` holds the leaf `leaf`.
pub open spec fn trees_have_leaf(trees: Seq<TokenTreeView>, leaf: LeafView) -> bool {
    subtree_has_leaf(SubtreeView { delimiter: None, token_trees: trees }, leaf)
}

/// Whether the token map `entries` holds the range `range` for the token
/// with the id `id`.
pub open spec fn holds_token(entries: Entries, id: TokenId, range: TextRange) -> bool {
    exists|e: int|
        0 <= e < entries.len() && #[trigger] entries[e] == (id, TokenTextRange::Token(range))
}

/// The leaf that the token `tok` becomes by itself, with the id `id`,
/// where the kind `next` follows it: a name, a keyword, a literal, or a
/// punctuation character that is no bracket. Comments, brackets,
/// lifetimes and whitespace become no leaf, or more than one.
pub open spec fn spec_leaf_of(tok: SrcTokenView, next: Option<SyntaxKind>, id: TokenId) -> Option<
    LeafView,
> {
    let k = tok.kind;
    if k == SyntaxKind::COMMENT {
        None
    } else if k.is_punct() && k != SyntaxKind::UNDERSCORE {
        if spec_opening(k).is_some() || spec_is_closer(k) || tok.text.len() == 0 {
            None
        } else {
            Some(LeafView::Punct(Punct { char: tok.text[0], spacing: spec_spacing(next), id }))
        }
    } else if k == SyntaxKind::IDENT || k == SyntaxKind::UNDERSCORE || k.is_keyword() {
        Some(LeafView::Ident { text: tok.text, id })
    } else if k.is_literal() {
        Some(LeafView::Literal { text: tok.text, id })
    } else {
        None
    }
}

proof fn lemma_has_leaf_at(trees: Seq<TokenTreeView>, i: int, leaf: LeafView)
    requires
        0 <= i < trees.len(),
        tree_has_leaf(trees[i], leaf),
    ensures
        trees_have_leaf(trees, leaf),
{
    let s = SubtreeView { delimiter: None, token_trees: trees };
    assert(tree_has_leaf(s.token_trees[i], leaf));
}

proof fn lemma_has_leaf_index(trees: Seq<TokenTreeView>, leaf: LeafView) -> (i: int)
    requires
        trees_have_leaf(trees, leaf),
    ensures
        0 <= i < trees.len(),
        tree_has_leaf(trees[i], leaf),
{
    let s = SubtreeView { delimiter: None, token_trees: trees };
    choose|i: int|
        #![trigger s.token_trees[i]]
        0 <= i < s.token_trees.len() && tree_has_leaf(s.token_trees[i], leaf)
}

/// With distinct ids, an entry is the first with its id.
proof fn lemma_first_with_id(entries: Entries, e: int, from: int)
    requires
        distinct_ids(entries),
        0 <= from <= e < entries.len(),
    ensures
        first_with_id(entries, entries[e].0, from) == Some(entries[e].1),
    decreases e - from,
{
    if from < e {
        assert(entries[from].0 != entries[e].0);
        lemma_first_with_id(entries, e, from + 1);
    }
}

impl Conv {
    /// Whether one of the subtrees that are being filled holds the leaf
    /// `leaf`.
    pub open spec fn has_leaf(self, leaf: LeafView) -> bool {
        exists|k: int|
            0 <= k < self.frames.len() && trees_have_leaf((#[trigger] self.frames[k]).trees, leaf)
    }

    /// Whether the entry of every subtree that is being filled is that of
    /// a pair of delimiters.
    pub open spec fn delimited(self) -> bool {
        forall|k: int|
            1 <= k < self.frames.len() ==> self.entries[(#[trigger] self.frames[k]).idx].1 is Delimiter
    }

    /// Whether the state is sound: ids are given out once, and subtrees
    /// have the entries of delimiters.
    pub open spec fn sound(self) -> bool {
        self.ids_fresh() && self.delimited()
    }

    /// Whether the state holds the leaf `leaf` and the range `range` for it.
    pub open spec fn keeps(self, leaf: LeafView, range: TextRange) -> bool {
        self.has_leaf(leaf) && holds_token(self.entries, leaf.id(), range)
    }

    proof fn lemma_assign_keeps(self, range: TextRange)
        requires
            self.sound(),
            self.next_id < 0xffff_ffff,
        ensures
            self.assign(range).sound(),
            holds_token(self.assign(range).entries, self.fresh(), range),
            forall|leaf: LeafView, r: TextRange| #[trigger]
                self.keeps(leaf, r) ==> self.assign(range).keeps(leaf, r),
    {
        let after = self.assign(range);
        self.lemma_assign(range);
        assert forall|k: int| 1 <= k < after.frames.len() implies after.entries[(
        #[trigger] after.frames[k]).idx].1 is Delimiter by {
            assert(0 <= self.frames[k].idx < self.entries.len());
            assert(after.entries[self.frames[k].idx] == self.entries[self.frames[k].idx]);
        }
        assert(after.entries[self.entries.len() as int] == (
            self.fresh(),
            TokenTextRange::Token(range),
        ));
        assert forall|leaf: LeafView, r: TextRange| #[trigger] self.keeps(leaf, r) implies after.keeps(
            leaf,
            r,
        ) by {
            let k = choose|k: int|
                0 <= k < self.frames.len() && trees_have_leaf(
                    (#[trigger] self.frames[k]).trees,
                    leaf,
                );
            assert(trees_have_leaf(after.frames[k].trees, leaf));
            let e = choose|e: int|
                0 <= e < self.entries.len() && #[trigger] self.entries[e] == (
                    leaf.id(),
                    TokenTextRange::Token(r),
                );
            assert(after.entries[e] == self.entries[e]);
        }
    }

    proof fn lemma_extend_keeps(self, trees: Seq<TokenTreeView>)
        requires
            self.sound(),
        ensures
            self.extend(trees).sound(),
            forall|leaf: LeafView, r: TextRange| #[trigger]
                self.keeps(leaf, r) ==> self.extend(trees).keeps(leaf, r),
            forall|leaf: LeafView|
                trees_have_leaf(trees, leaf) ==> #[trigger] self.extend(trees).has_leaf(leaf),
    {
        let after = self.extend(trees);
        let last = self.frames.len() - 1;
        self.lemma_extend(trees);
        assert forall|k: int| 1 <= k < after.frames.len() implies after.entries[(
        #[trigger] after.frames[k]).idx].1 is Delimiter by {
            assert(after.frames[k].idx == self.frames[k].idx);
        }
        assert forall|leaf: LeafView, r: TextRange| #[trigger] self.keeps(leaf, r) implies after.keeps(
            leaf,
            r,
        ) by {
            let k = choose|k: int|
                0 <= k < self.frames.len() && trees_have_leaf(
                    (#[trigger] self.frames[k]).trees,
                    leaf,
                );
            let i = lemma_has_leaf_index(self.frames[k].trees, leaf);
            if k == last {
                assert(after.frames[k].trees[i] == self.frames[k].trees[i]);
            }
            lemma_has_leaf_at(after.frames[k].trees, i, leaf);
        }
        assert forall|leaf: LeafView| trees_have_leaf(trees, leaf) implies #[trigger] after.has_leaf(
            leaf,
        ) by {
            let i = lemma_has_leaf_index(trees, leaf);
            let at = self.frames[last].trees.len() + i;
            assert(after.frames[last].trees[at] == trees[i]);
            lemma_has_leaf_at(after.frames[last].trees, at, leaf);
        }
    }

    proof fn lemma_push_keeps(self, tree: TokenTreeView)
        requires
            self.sound(),
        ensures
            self.push(tree).sound(),
            forall|leaf: LeafView, r: TextRange| #[trigger]
                self.keeps(leaf, r) ==> self.push(tree).keeps(leaf, r),
            forall|leaf: LeafView|
                tree_has_leaf(tree, leaf) ==> #[trigger] self.push(tree).has_leaf(leaf),
    {
        let after = self.push(tree);
        let last = self.frames.len() - 1;
        self.lemma_push(tree);
        assert forall|k: int| 1 <= k < after.frames.len() implies after.entries[(
        #[trigger] after.frames[k]).idx].1 is Delimiter by {
            assert(after.frames[k].idx == self.frames[k].idx);
        }
        assert forall|leaf: LeafView, r: TextRange| #[trigger] self.keeps(leaf, r) implies after.keeps(
            leaf,
            r,
        ) by {
            let k = choose|k: int|
                0 <= k < self.frames.len() && trees_have_leaf(
                    (#[trigger] self.frames[k]).trees,
                    leaf,
                );
            let i = lemma_has_leaf_index(self.frames[k].trees, leaf);
            if k == last {
                assert(after.frames[k].trees[i] == self.frames[k].trees[i]);
            }
            lemma_has_leaf_at(after.frames[k].trees, i, leaf);
        }
        assert forall|leaf: LeafView| tree_has_leaf(tree, leaf) implies #[trigger] after.has_leaf(
            leaf,
        ) by {
            let at = self.frames[last].trees.len() as int;
            assert(after.frames[last].trees[at] == tree);
            lemma_has_leaf_at(after.frames[last].trees, at, leaf);
        }
    }

    proof fn lemma_open_keeps(self, kind: DelimiterKind, range: TextRange)
        requires
            self.sound(),
            self.next_id < 0xffff_ffff,
        ensures
            self.open(kind, range).sound(),
            forall|leaf: LeafView, r: TextRange| #[trigger]
                self.keeps(leaf, r) ==> self.open(kind, range).keeps(leaf, r),
    {
        let after = self.open(kind, range);
        self.lemma_open(kind, range);
        assert forall|k: int| 1 <= k < after.frames.len() implies after.entries[(
        #[trigger] after.frames[k]).idx].1 is Delimiter by {
            if k < self.frames.len() {
                assert(after.frames[k] == self.frames[k]);
                assert(0 <= self.frames[k].idx < self.entries.len());
                assert(after.entries[self.frames[k].idx] == self.entries[self.frames[k].idx]);
            }
        }
        assert forall|leaf: LeafView, r: TextRange| #[trigger] self.keeps(leaf, r) implies after.keeps(
            leaf,
            r,
        ) by {
            let k = choose|k: int|
                0 <= k < self.frames.len() && trees_have_leaf(
                    (#[trigger] self.frames[k]).trees,
                    leaf,
                );
            assert(after.frames[k] == self.frames[k]);
            let e = choose|e: int|
                0 <= e < self.entries.len() && #[trigger] self.entries[e] == (
                    leaf.id(),
                    TokenTextRange::Token(r),
                );
            assert(after.entries[e] == self.entries[e]);
        }
    }

    proof fn lemma_close_keeps(self, range: TextRange)
        requires
            self.sound(),
            self.frames.len() > 1,
        ensures
            self.close(range).sound(),
            forall|leaf: LeafView, r: TextRange| #[trigger]
                self.keeps(leaf, r) ==> self.close(range).keeps(leaf, r),
    {
        let last = self.frames.len() - 1;
        let top = self.frames[last];
        assert(0 <= top.idx < self.entries.len());
        assert(self.entries[top.idx].1 is Delimiter);
        let entries = match self.entries[top.idx].1 {
            TokenTextRange::Delimiter(open, _) => self.entries.update(
                top.idx,
                (self.entries[top.idx].0, TokenTextRange::Delimiter(open, Some(range))),
            ),
            TokenTextRange::Token(_) => self.entries,
        };
        let mid = Conv { frames: self.frames.drop_last(), entries, next_id: self.next_id };
        let done = TokenTreeView::Subtree(
            SubtreeView { delimiter: top.delimiter, token_trees: top.trees },
        );
        self.lemma_close(range);
        // the state without the innermost subtree is sound
        assert forall|i: int| 0 <= i < mid.entries.len() implies (#[trigger] mid.entries[i]).0
            == self.entries[i].0 by {}
        assert forall|i: int, j: int| 0 <= i < j < mid.entries.len() implies (
        #[trigger] mid.entries[i]).0 != (#[trigger] mid.entries[j]).0 by {
            assert(self.entries[i].0 != self.entries[j].0);
        }
        assert forall|k: int| 1 <= k < mid.frames.len() implies 0 <= (
        #[trigger] mid.frames[k]).idx < mid.entries.len() by {
            assert(self.frames[k].idx < self.entries.len());
        }
        assert forall|k: int, l: int| 1 <= k < l < mid.frames.len() implies (
        #[trigger] mid.frames[k]).idx < (#[trigger] mid.frames[l]).idx by {
            assert(self.frames[k].idx < self.frames[l].idx);
        }
        assert forall|k: int| 1 <= k < mid.frames.len() implies mid.entries[(
        #[trigger] mid.frames[k]).idx].1 is Delimiter by {
            assert(mid.frames[k] == self.frames[k]);
            assert(self.entries[self.frames[k].idx].1 is Delimiter);
            assert(self.frames[k].idx < self.frames[last].idx);
        }
        assert(mid.sound());
        mid.lemma_push_keeps(done);
        assert forall|leaf: LeafView, r: TextRange| #[trigger] self.keeps(leaf, r) implies self.close(
            range,
        ).keeps(leaf, r) by {
            let k = choose|k: int|
                0 <= k < self.frames.len() && trees_have_leaf(
                    (#[trigger] self.frames[k]).trees,
                    leaf,
                );
            let e = choose|e: int|
                0 <= e < self.entries.len() && #[trigger] self.entries[e] == (
                    leaf.id(),
                    TokenTextRange::Token(r),
                );
            assert(e != top.idx);
            assert(mid.entries[e] == self.entries[e]);
            assert(holds_token(mid.entries, leaf.id(), r));
            if k == last {
                assert(subtree_has_leaf(
                    SubtreeView { delimiter: top.delimiter, token_trees: top.trees },
                    leaf,
                )) by {
                    let i = lemma_has_leaf_index(top.trees, leaf);
                    let s = SubtreeView { delimiter: top.delimiter, token_trees: top.trees };
                    assert(tree_has_leaf(s.token_trees[i], leaf));
                }
                assert(tree_has_leaf(done, leaf));
                assert(mid.push(done).has_leaf(leaf));
            } else {
                assert(mid.frames[k] == self.frames[k]);
                assert(mid.keeps(leaf, r));
            }
        }
    }

    proof fn lemma_dissolve_keeps(self)
        requires
            self.sound(),
            self.frames.len() > 1,
            self.next_id < 0xffff_ffff,
        ensures
            self.dissolve().sound(),
            forall|leaf: LeafView, r: TextRange| #[trigger]
                self.keeps(leaf, r) ==> self.dissolve().keeps(leaf, r),
    {
        let last = self.frames.len() - 1;
        let top = self.frames[last];
        assert(0 <= top.idx < self.entries.len());
        assert(self.entries[top.idx].1 is Delimiter);
        let without = Conv {
            frames: self.frames.drop_last(),
            entries: self.entries.remove(top.idx),
            next_id: self.next_id,
        };
        self.lemma_dissolve();
        assert forall|i: int| 0 <= i < without.entries.len() implies (
        #[trigger] without.entries[i]).0.0 < without.next_id by {
            if i < top.idx {
                assert(without.entries[i] == self.entries[i]);
            } else {
                assert(without.entries[i] == self.entries[i + 1]);
            }
        }
        assert forall|i: int, j: int| 0 <= i < j < without.entries.len() implies (
        #[trigger] without.entries[i]).0 != (#[trigger] without.entries[j]).0 by {
            let a = if i < top.idx {
                i
            } else {
                i + 1
            };
            let b = if j < top.idx {
                j
            } else {
                j + 1
            };
            assert(without.entries[i] == self.entries[a]);
            assert(without.entries[j] == self.entries[b]);
            assert(self.entries[a].0 != self.entries[b].0);
        }
        assert forall|k: int| 1 <= k < without.frames.len() implies 0 <= (
        #[trigger] without.frames[k]).idx < without.entries.len() by {
            assert(self.frames[k].idx < self.frames[last].idx);
        }
        assert forall|k: int, l: int| 1 <= k < l < without.frames.len() implies (
        #[trigger] without.frames[k]).idx < (#[trigger] without.frames[l]).idx by {
            assert(self.frames[k].idx < self.frames[l].idx);
        }
        assert forall|k: int| 1 <= k < without.frames.len() implies without.entries[(
        #[trigger] without.frames[k]).idx].1 is Delimiter by {
            assert(without.frames[k] == self.frames[k]);
            assert(self.entries[self.frames[k].idx].1 is Delimiter);
            assert(self.frames[k].idx < self.frames[last].idx);
            assert(without.entries[self.frames[k].idx] == self.entries[self.frames[k].idx]);
        }
        assert(without.sound());
        let leaf0 = TokenTreeView::Leaf(
            LeafView::Punct(
                Punct {
                    char: match top.delimiter {
                        Some(d) => d.kind.spec_open_char(),
                        None => '(',
                    },
                    spacing: Spacing::Alone,
                    id: without.fresh(),
                },
            ),
        );
        without.lemma_assign_keeps(top.open_range);
        let a = without.assign(top.open_range);
        a.lemma_push_keeps(leaf0);
        let p = a.push(leaf0);
        p.lemma_extend_keeps(top.trees);
        assert forall|leaf: LeafView, r: TextRange| #[trigger] self.keeps(leaf, r) implies self.dissolve().keeps(
            leaf,
            r,
        ) by {
            let k = choose|k: int|
                0 <= k < self.frames.len() && trees_have_leaf(
                    (#[trigger] self.frames[k]).trees,
                    leaf,
                );
            let e = choose|e: int|
                0 <= e < self.entries.len() && #[trigger] self.entries[e] == (
                    leaf.id(),
                    TokenTextRange::Token(r),
                );
            assert(e != top.idx);
            let e2 = if e < top.idx {
                e
            } else {
                e - 1
            };
            assert(without.entries[e2] == self.entries[e]);
            assert(holds_token(without.entries, leaf.id(), r));
            let e3 = choose|e3: int|
                0 <= e3 < without.entries.len() && #[trigger] without.entries[e3] == (
                    leaf.id(),
                    TokenTextRange::Token(r),
                );
            assert(a.entries[e3] == without.entries[e3]);
            assert(holds_token(p.entries, leaf.id(), r));
            assert(p.extend(top.trees).entries == p.entries);
            if k == last {
                assert(p.extend(top.trees).has_leaf(leaf));
            } else {
                assert(without.frames[k] == self.frames[k]);
                assert(without.keeps(leaf, r));
                assert(a.keeps(leaf, r));
                assert(p.keeps(leaf, r));
            }
        }
    }

    proof fn lemma_step_keeps(self, tok: SrcTokenView, next: Option<SyntaxKind>)
        requires
            self.sound(),
            self.next_id + 2 <= 0xffff_ffff,
        ensures
            self.step(tok, next).sound(),
            forall|leaf: LeafView, r: TextRange| #[trigger]
                self.keeps(leaf, r) ==> self.step(tok, next).keeps(leaf, r),
            spec_leaf_of(tok, next, self.fresh()) matches Some(leaf) ==> self.step(tok, next).keeps(
                leaf,
                tok.range,
            ),
    {
        let k = tok.kind;
        let top = self.frames[self.frames.len() - 1];
        self.lemma_step(tok, next);
        if k == SyntaxKind::COMMENT {
            match spec_convert_doc_comment(tok.text, self.fresh()) {
                Some(trees) => {
                    self.lemma_assign_keeps(tok.range);
                    self.assign(tok.range).lemma_extend_keeps(trees);
                },
                None => {},
            }
        } else if k.is_punct() && k != SyntaxKind::UNDERSCORE {
            if self.frames.len() > 1 && top.delimiter.is_some() && k == spec_closing(
                top.delimiter.unwrap().kind,
            ) {
                self.lemma_close_keeps(tok.range);
            } else if spec_opening(k).is_some() {
                self.lemma_open_keeps(spec_opening(k).unwrap(), tok.range);
            } else if spec_is_closer(k) || tok.text.len() == 0 {
            } else {
                let leaf = LeafView::Punct(
                    Punct { char: tok.text[0], spacing: spec_spacing(next), id: self.fresh() },
                );
                self.lemma_assign_keeps(tok.range);
                self.assign(tok.range).lemma_push_keeps(TokenTreeView::Leaf(leaf));
                assert(tree_has_leaf(TokenTreeView::Leaf(leaf), leaf));
                assert(self.step(tok, next).has_leaf(leaf));
                assert(self.step(tok, next).entries == self.assign(tok.range).entries);
            }
        } else if k == SyntaxKind::IDENT || k == SyntaxKind::UNDERSCORE || k.is_keyword() {
            let leaf = LeafView::Ident { text: tok.text, id: self.fresh() };
            self.lemma_assign_keeps(tok.range);
            self.assign(tok.range).lemma_push_keeps(TokenTreeView::Leaf(leaf));
            assert(tree_has_leaf(TokenTreeView::Leaf(leaf), leaf));
            assert(self.step(tok, next).has_leaf(leaf));
            assert(self.step(tok, next).entries == self.assign(tok.range).entries);
        } else if k.is_literal() {
            let leaf = LeafView::Literal { text: tok.text, id: self.fresh() };
            self.lemma_assign_keeps(tok.range);
            self.assign(tok.range).lemma_push_keeps(TokenTreeView::Leaf(leaf));
            assert(tree_has_leaf(TokenTreeView::Leaf(leaf), leaf));
            assert(self.step(tok, next).has_leaf(leaf));
            assert(self.step(tok, next).entries == self.assign(tok.range).entries);
        } else if k == SyntaxKind::LIFETIME_IDENT {
            if tok.range.spec_len() == 0 || tok.text.len() == 0 {
            } else {
                let r1 = TextRange::spec_at(tok.range.spec_start(), 1);
                self.lemma_assign_keeps(r1);
                let leaf = TokenTreeView::Leaf(
                    LeafView::Punct(Punct { char: '\'', spacing: Spacing::Joint, id: self.fresh() }),
                );
                self.assign(r1).lemma_push_keeps(leaf);
                let quote = self.assign(r1).push(leaf);
                let r2 = TextRange::spec_new(
                    (tok.range.spec_start() + 1) as u32,
                    tok.range.spec_end(),
                );
                self.lemma_assign(r1);
                self.assign(r1).lemma_push(leaf);
                quote.lemma_assign_keeps(r2);
                quote.assign(r2).lemma_push_keeps(
                    TokenTreeView::Leaf(
                        LeafView::Ident {
                            text: tok.text.subrange(1, tok.text.len() as int),
                            id: quote.fresh(),
                        },
                    ),
                );
            }
        }
    }

    /// The leaf that the token number `i` of `tokens` becomes by itself.
    pub open spec fn leaf_at(tokens: Seq<SrcTokenView>, i: int) -> Option<LeafView> {
        spec_leaf_of(
            tokens[i],
            if i + 1 < tokens.len() {
                Some(tokens[i + 1].kind)
            } else {
                None
            },
            Conv::run(tokens, i).fresh(),
        )
    }

    proof fn lemma_run_keeps(tokens: Seq<SrcTokenView>, n: int, i: int)
        requires
            0 <= i < n <= tokens.len(),
            2 * n <= 0xffff_ffff,
            Conv::leaf_at(tokens, i).is_some(),
        ensures
            Conv::run(tokens, n).sound(),
            Conv::run(tokens, n).keeps(Conv::leaf_at(tokens, i).unwrap(), tokens[i].range),
        decreases n,
    {
        Conv::lemma_run_sound(tokens, n - 1);
        Conv::lemma_run(tokens, n - 1);
        let next = if n < tokens.len() {
            Some(tokens[n].kind)
        } else {
            None
        };
        Conv::run(tokens, n - 1).lemma_step_keeps(tokens[n - 1], next);
        if i < n - 1 {
            Conv::lemma_run_keeps(tokens, n - 1, i);
        }
    }

    proof fn lemma_run_sound(tokens: Seq<SrcTokenView>, n: int)
        requires
            0 <= n <= tokens.len(),
            2 * n <= 0xffff_ffff,
        ensures
            Conv::run(tokens, n).sound(),
        decreases n,
    {
        if n > 0 {
            Conv::lemma_run_sound(tokens, n - 1);
            Conv::lemma_run(tokens, n - 1);
            Conv::run(tokens, n - 1).lemma_step_keeps(
                tokens[n - 1],
                if n < tokens.len() {
                    Some(tokens[n].kind)
                } else {
                    None
                },
            );
        }
    }

    proof fn lemma_unwind_keeps(self, leaf: LeafView, range: TextRange)
        requires
            self.sound(),
            self.next_id + self.frames.len() <= 0xffff_ffff,
            self.keeps(leaf, range),
        ensures
            self.unwind().sound(),
            self.unwind().keeps(leaf, range),
            self.unwind().frames.len() == 1,
        decreases self.frames.len(),
    {
        if self.frames.len() > 1 {
            self.lemma_dissolve();
            self.lemma_dissolve_keeps();
            self.dissolve().lemma_unwind_keeps(leaf, range);
        }
    }
}

/// Ranges survive the conversion: a token that becomes a leaf by itself
/// stands in the token tree as that leaf, and the token map gives the id of
/// the leaf the range of the token, as long as the ids do not run out.
pub proof fn lemma_converted_leaf_range(tokens: Seq<SrcTokenView>, i: int)
    requires
        3 * tokens.len() + 1 <= 0xffff_ffff,
        0 <= i < tokens.len(),
        Conv::leaf_at(tokens, i).is_some(),
    ensures
        subtree_has_leaf(converted_tree(tokens), Conv::leaf_at(tokens, i).unwrap()),
        first_with_id(converted_map(tokens), Conv::leaf_at(tokens, i).unwrap().id(), 0) == Some(
            TokenTextRange::Token(tokens[i].range),
        ),
{
    let leaf = Conv::leaf_at(tokens, i).unwrap();
    let range = tokens[i].range;
    let n = tokens.len() as int;
    Conv::lemma_run(tokens, n);
    Conv::lemma_run_keeps(tokens, n, i);
    let ran = Conv::run(tokens, n);
    ran.lemma_unwind_keeps(leaf, range);
    let done = ran.unwind();
    let e = choose|e: int|
        0 <= e < done.entries.len() && #[trigger] done.entries[e] == (
            leaf.id(),
            TokenTextRange::Token(range),
        );
    lemma_first_with_id(done.entries, e, 0);
    let root = done.frames[0];
    let at = lemma_has_leaf_index(root.trees, leaf);
    if root.trees.len() == 1 && root.trees[0] is Subtree {
        assert(tree_has_leaf(root.trees[0], leaf));
    } else {
        let s = SubtreeView { delimiter: root.delimiter, token_trees: root.trees };
        assert(tree_has_leaf(s.token_trees[at], leaf));
    }
}

/// No two entries of the token map of a conversion have the same id, as
/// long as the ids do not run out: each token and each pair of delimiters
/// has an id of its own.
pub proof fn lemma_converted_ids_distinct(tokens: Seq<SrcTokenView>)
    requires
        3 * tokens.len() + 1 <= 0xffff_ffff,
    ensures
        distinct_ids(converted_map(tokens)),
{
    Conv::lemma_run(tokens, tokens.len() as int);
    Conv::run(tokens, tokens.len() as int).lemma_unwind();
}

} // verus!
