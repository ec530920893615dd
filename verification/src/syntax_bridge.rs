//! Conversions between syntax trees and token trees.

use crate::collections::{positions, positions_contains, positions_new};
use crate::convert::{
    convert_tokens, converted_map, converted_tree, src_views, SrcToken, SrcTokenView,
};
use crate::syntax::{SyntaxNode, SyntaxTree};
use crate::syntax_kind::SyntaxKind;
use crate::text::{byte_len, text_len, TextRange};
use crate::token_map::TokenMap;
use crate::tt::{
    lemma_subtree_view, lemma_views_empty, lemma_views_push, views, Leaf,
    LeafView, Subtree, SubtreeView, TokenTree, TokenTreeView,
};
use rustc_hash::FxHashSet;
use vstd::prelude::*;

verus! {

broadcast use {crate::text::TextRange::lemma_spec_new, vstd::string::group_string_axioms};

/// The source tokens that one token of a syntax tree gives: the token
/// itself, or, for punctuation, one token for each of its characters, as
/// far as its range has room for them. `start` and `end` are the ends of
/// the token's range, relative to the text that is converted.
pub open spec fn token_pieces(kind: SyntaxKind, text: Seq<char>, start: u32, end: u32) -> Seq<
    SrcTokenView,
> {
    if kind.is_punct() {
        Seq::new(
            if text.len() <= end - start {
                text.len()
            } else {
                (end - start) as nat
            },
            |i: int|
                SrcTokenView {
                    kind,
                    text: text.subrange(i, i + 1),
                    range: TextRange::spec_at((start + i) as u32, 1),
                },
        )
    } else {
        seq![SrcTokenView { kind, text, range: TextRange::spec_new(start, end) }]
    }
}

/// The source tokens of the elements of `tree` at the positions `from..to`,
/// for a conversion of the text in `first..last`: the tokens in document
/// order, without those inside a node whose position is in `censor`. A
/// token that is not inside `first..last` ends the run.
pub open spec fn src_tokens_from(
    tree: &SyntaxTree,
    from: int,
    to: int,
    censor: Set<usize>,
    first: u32,
    last: u32,
) -> Seq<SrcTokenView>
    decreases to - from,
{
    if from >= to || from < 0 {
        Seq::empty()
    } else if !tree.token_at(from) {
        if censor.contains(from as usize) {
            if from < tree.end_at(from) <= to {
                src_tokens_from(tree, tree.end_at(from), to, censor, first, last)
            } else {
                Seq::empty()
            }
        } else {
            src_tokens_from(tree, from + 1, to, censor, first, last)
        }
    } else if first <= tree.range_start(from) && tree.range_end(from) <= last {
        token_pieces(
            tree.kind_at(from),
            tree.text_at(from),
            (tree.range_start(from) - first) as u32,
            (tree.range_end(from) - first) as u32,
        ) + src_tokens_from(tree, from + 1, to, censor, first, last)
    } else {
        Seq::empty()
    }
}

/// The source tokens of the node `node` of `tree`, without what `censor`
/// leaves out, with ranges relative to where the node begins.
pub open spec fn node_src_tokens(tree: &SyntaxTree, node: SyntaxNode, censor: Set<usize>) -> Seq<
    SrcTokenView,
> {
    src_tokens_from(
        tree,
        node.0 as int,
        tree.end_at(node.0 as int),
        censor,
        tree.range_start(node.0 as int),
        tree.range_end(node.0 as int),
    )
}

/// Adds to `out` the source tokens of one token of a syntax tree.
fn push_pieces(out: &mut Vec<SrcToken>, kind: SyntaxKind, text: &String, start: u32, end: u32)
    requires
        start <= end,
    ensures
        src_views(final(out)@) == src_views(old(out)@) + token_pieces(kind, text@, start, end),
{
    let ghost before = src_views(out@);
    if kind.is_punct() {
        let chars = text.as_str().unicode_len();
        let room = (end - start) as usize;
        let n = if chars <= room {
            chars
        } else {
            room
        };
        let ghost want = token_pieces(kind, text@, start, end);
        let mut i: usize = 0;
        while i < n
            invariant
                i <= n,
                n <= text@.len(),
                n <= end - start,
                start <= end,
                want.len() == n,
                want == token_pieces(kind, text@, start, end),
                kind.is_punct(),
                src_views(out@) == before + want.subrange(0, i as int),
            decreases n - i,
        {
            let piece = String::from_str(text.as_str().substring_char(i, i + 1));
            let ghost prev = out@;
            out.push(SrcToken { kind, text: piece, range: TextRange::at(start + i as u32, 1) });
            proof {
                assert(src_views(out@) =~= src_views(prev).push(out@[out@.len() - 1]@));
                assert(before + want.subrange(0, i + 1) =~= (before + want.subrange(
                    0,
                    i as int,
                )).push(want[i as int]));
            }
            i += 1;
        }
        proof {
            assert(want.subrange(0, n as int) =~= want);
        }
    } else {
        let ghost prev = out@;
        out.push(SrcToken { kind, text: text.clone(), range: TextRange::new(start, end) });
        proof {
            assert(src_views(out@) =~= src_views(prev).push(out@[out@.len() - 1]@));
            assert(before + token_pieces(kind, text@, start, end) =~= before.push(
                out@[out@.len() - 1]@,
            ));
        }
    }
}

/// The source tokens of the node `node` of `tree`, without those inside a
/// node whose position is in `censor`, with ranges relative to where the
/// node begins.
pub fn collect_src_tokens(tree: &SyntaxTree, node: SyntaxNode, censor: &FxHashSet<usize>) -> (r:
    Vec<SrcToken>)
    requires
        tree.wf(),
        tree.has_node(node),
    ensures
        src_views(r@) == node_src_tokens(tree, node, positions(*censor)),
{
    let range = tree.text_range(node.0);
    let first = range.start();
    let last = range.end();
    let to = tree.subtree_end(node.0);
    let mut out: Vec<SrcToken> = Vec::new();
    let mut j = node.0;
    proof {
        assert(src_views(out@) =~= Seq::<SrcTokenView>::empty());
    }
    while j < to
        invariant
            tree.wf(),
            to <= tree.spec_len(),
            first <= last,
            node_src_tokens(tree, node, positions(*censor)) == src_views(out@) + src_tokens_from(
                tree,
                j as int,
                to as int,
                positions(*censor),
                first,
                last,
            ),
            first == tree.range_start(node.0 as int),
            last == tree.range_end(node.0 as int),
            to == tree.end_at(node.0 as int),
        decreases to - j,
    {
        let ghost rest = src_tokens_from(
            tree,
            j as int,
            to as int,
            positions(*censor),
            first,
            last,
        );
        if !tree.is_token(j) {
            if positions_contains(censor, j) {
                let next = tree.subtree_end(j);
                if next > to {
                    proof {
                        assert(rest =~= Seq::<SrcTokenView>::empty());
                        assert(src_views(out@) + rest =~= src_views(out@));
                    }
                    return out;
                }
                j = next;
            } else {
                j += 1;
            }
        } else {
            let r = tree.text_range(j);
            if first <= r.start() && r.end() <= last {
                let ghost before = src_views(out@);
                let ghost pieces = token_pieces(
                    tree.kind_at(j as int),
                    tree.text_at(j as int),
                    (r.start() - first) as u32,
                    (r.end() - first) as u32,
                );
                push_pieces(
                    &mut out,
                    tree.kind(j),
                    tree.token_text(crate::syntax::SyntaxToken(j)),
                    r.start() - first,
                    r.end() - first,
                );
                proof {
                    let tail = src_tokens_from(
                        tree,
                        j + 1,
                        to as int,
                        positions(*censor),
                        first,
                        last,
                    );
                    assert(rest == pieces + tail);
                    assert(before + (pieces + tail) =~= (before + pieces) + tail);
                }
                j += 1;
            } else {
                proof {
                    assert(rest =~= Seq::<SrcTokenView>::empty());
                    assert(src_views(out@) + rest =~= src_views(out@));
                }
                return out;
            }
        }
    }
    proof {
        assert(src_tokens_from(tree, j as int, to as int, positions(*censor), first, last)
            =~= Seq::<SrcTokenView>::empty());
        assert(src_views(out@) + Seq::<SrcTokenView>::empty() =~= src_views(out@));
    }
    out
}

/// Converts the node `node` of `tree` into a token tree, as a macro takes
/// it, and the token map that tells where each token of it came from.
pub fn syntax_node_to_token_tree(tree: &SyntaxTree, node: SyntaxNode) -> (r: (Subtree, TokenMap))
    requires
        tree.wf(),
        tree.has_node(node),
    ensures
        r.0@ == converted_tree(node_src_tokens(tree, node, Set::empty())),
        r.1@ == converted_map(node_src_tokens(tree, node, Set::empty())),
{
    let censor = positions_new();
    syntax_node_to_token_tree_censored(tree, node, &censor)
}

/// Converts the node `node` of `tree` into a token tree and its token map,
/// leaving out every node whose position is in `censor`.
pub fn syntax_node_to_token_tree_censored(
    tree: &SyntaxTree,
    node: SyntaxNode,
    censor: &FxHashSet<usize>,
) -> (r: (Subtree, TokenMap))
    requires
        tree.wf(),
        tree.has_node(node),
    ensures
        r.0@ == converted_tree(node_src_tokens(tree, node, positions(*censor))),
        r.1@ == converted_map(node_src_tokens(tree, node, positions(*censor))),
{
    let tokens = collect_src_tokens(tree, node, censor);
    convert_tokens(&tokens)
}

/// A token as a lexer gives it: its kind and its text.
#[derive(Debug, PartialEq, Eq, Hash)]
pub struct RawToken {
    pub kind: SyntaxKind,
    pub text: String,
}

/// What a [`RawToken`] is.
pub struct RawTokenView {
    pub kind: SyntaxKind,
    pub text: Seq<char>,
}

impl View for RawToken {
    type V = RawTokenView;

    open spec fn view(&self) -> RawTokenView {
        RawTokenView { kind: self.kind, text: self.text@ }
    }
}

/// What a run of lexed tokens is.
pub open spec fn raw_views(tokens: Seq<RawToken>) -> Seq<RawTokenView> {
    Seq::new(tokens.len(), |i: int| tokens[i]@)
}

/// The number of bytes that the texts of the first `n` tokens take.
pub open spec fn raw_len(tokens: Seq<RawTokenView>, n: int) -> int
    decreases n,
{
    if n <= 0 || n > tokens.len() {
        0
    } else {
        raw_len(tokens, n - 1) + byte_len(tokens[n - 1].text)
    }
}

/// The source tokens of the first `n` lexed tokens: each token with the
/// range that its text has where the texts follow one another from offset 0.
pub open spec fn raw_src_tokens(tokens: Seq<RawTokenView>, n: int) -> Seq<SrcTokenView>
    decreases n,
{
    if n <= 0 || n > tokens.len() {
        Seq::empty()
    } else {
        raw_src_tokens(tokens, n - 1).push(
            SrcTokenView {
                kind: tokens[n - 1].kind,
                text: tokens[n - 1].text,
                range: TextRange::spec_new(
                    raw_len(tokens, n - 1) as u32,
                    raw_len(tokens, n) as u32,
                ),
            },
        )
    }
}

/// Converts a text that a lexer has cut into `tokens` into a token tree
/// and its token map. Nothing comes of a text in which the lexer found an
/// error, nor of one too long for 32-bit offsets.
pub fn parse_to_token_tree(tokens: &Vec<RawToken>, lex_errors: usize) -> (r: Option<
    (Subtree, TokenMap),
>)
    ensures
        r.is_some() <==> lex_errors == 0 && raw_len(raw_views(tokens@), tokens@.len() as int)
            <= u32::MAX,
        r matches Some(pair) ==> pair.0@ == converted_tree(
            raw_src_tokens(raw_views(tokens@), tokens@.len() as int),
        ) && pair.1@ == converted_map(raw_src_tokens(raw_views(tokens@), tokens@.len() as int)),
{
    if lex_errors != 0 {
        return None;
    }
    let ghost raw = raw_views(tokens@);
    let mut src: Vec<SrcToken> = Vec::new();
    let mut offset: u32 = 0;
    let mut i: usize = 0;
    proof {
        assert(src_views(src@) =~= Seq::<SrcTokenView>::empty());
    }
    while i < tokens.len()
        invariant
            i <= tokens@.len(),
            raw == raw_views(tokens@),
            offset == raw_len(raw, i as int),
            src_views(src@) == raw_src_tokens(raw, i as int),
        decreases tokens@.len() - i,
    {
        let len = text_len(tokens[i].text.as_str());
        if len > (u32::MAX - offset) as usize {
            proof {
                lemma_raw_len_grows(raw, i + 1, tokens@.len() as int);
            }
            return None;
        }
        let end = offset + len as u32;
        let ghost prev = src@;
        src.push(
            SrcToken {
                kind: tokens[i].kind,
                text: tokens[i].text.clone(),
                range: TextRange::new(offset, end),
            },
        );
        proof {
            assert(src_views(src@) =~= src_views(prev).push(src@[src@.len() - 1]@));
        }
        offset = end;
        i += 1;
    }
    Some(convert_tokens(&src))
}

/// The texts of more tokens take no fewer bytes.
pub proof fn lemma_raw_len_grows(tokens: Seq<RawTokenView>, n: int, m: int)
    requires
        0 <= n <= m <= tokens.len(),
    ensures
        raw_len(tokens, n) <= raw_len(tokens, m),
    decreases m - n,
{
    if n < m {
        lemma_raw_len_grows(tokens, n, m - 1);
    }
}

/// The subtree without delimiters that holds `trees`.
pub open spec fn bare(trees: Seq<TokenTreeView>) -> SubtreeView {
    SubtreeView { delimiter: None, token_trees: trees }
}

/// The expression that the `n` token trees from position `pos` on make: a
/// single subtree as it is, anything else as a subtree without delimiters.
pub open spec fn fragment(trees: Seq<TokenTreeView>, pos: int, n: int) -> SubtreeView {
    if n == 1 {
        match trees[pos] {
            TokenTreeView::Subtree(s) => s,
            leaf => bare(seq![leaf]),
        }
    } else {
        bare(trees.subrange(pos, pos + n))
    }
}

/// Whether a punctuation leaf with the character `sep` stands at position
/// `pos`.
pub open spec fn separator_at(trees: Seq<TokenTreeView>, pos: int, sep: char) -> bool {
    0 <= pos < trees.len() && (trees[pos] matches TokenTreeView::Leaf(LeafView::Punct(p)) && p.char
        == sep)
}

/// The expressions that `trees` split into from position `pos` on, where
/// `lens[k]` tells over how many token trees the expression number `k`
/// goes: expressions and separators take turns; where an expression is
/// missing or no separator follows one, what is left makes the last piece.
pub open spec fn split_exprs(
    trees: Seq<TokenTreeView>,
    sep: char,
    lens: Seq<usize>,
    pos: int,
    k: int,
) -> Seq<SubtreeView>
    decreases trees.len() - pos,
{
    if pos < 0 || pos >= trees.len() {
        Seq::empty()
    } else {
        let n = if 0 <= k < lens.len() {
            lens[k] as int
        } else {
            0
        };
        if n <= 0 || pos + n > trees.len() {
            seq![bare(trees.subrange(pos, trees.len() as int))]
        } else {
            let after = pos + n;
            if separator_at(trees, after, sep) {
                seq![fragment(trees, pos, n)] + split_exprs(trees, sep, lens, after + 1, k + 1)
            } else if after < trees.len() {
                seq![fragment(trees, pos, n), bare(trees.subrange(after, trees.len() as int))]
            } else {
                seq![fragment(trees, pos, n)]
            }
        }
    }
}

/// What a run of subtrees is.
pub open spec fn subtree_views(list: Seq<Subtree>) -> Seq<SubtreeView> {
    Seq::new(list.len(), |i: int| list[i]@)
}

/// A copy of the token trees at the positions `from..to`, as a subtree
/// without delimiters.
fn copy_range(trees: &Vec<TokenTree>, from: usize, to: usize) -> (r: Subtree)
    requires
        from <= to <= trees@.len(),
    ensures
        r@ == bare(views(trees@).subrange(from as int, to as int)),
{
    let mut out: Vec<TokenTree> = Vec::new();
    let mut i = from;
    proof {
        lemma_views_empty();
        assert(views(trees@).subrange(from as int, from as int) =~= Seq::empty());
    }
    while i < to
        invariant
            from <= i <= to <= trees@.len(),
            views(out@) == views(trees@).subrange(from as int, i as int),
        decreases to - i,
    {
        let copy = trees[i].duplicate();
        proof {
            lemma_views_push(out@, copy);
            assert(views(trees@).subrange(from as int, i + 1) =~= views(trees@).subrange(
                from as int,
                i as int,
            ).push(views(trees@)[i as int]));
        }
        out.push(copy);
        i += 1;
    }
    let r = Subtree { delimiter: None, token_trees: out };
    proof {
        lemma_subtree_view(&r);
    }
    r
}

/// Splits the token trees of `tt` into expressions that the character
/// `sep` separates. Where an expression begins and ends is for a parser
/// to say: `expr_lens` holds, for one expression after the other, over how
/// many token trees it goes.
pub fn parse_exprs_with_sep(tt: &Subtree, sep: char, expr_lens: &Vec<usize>) -> (r: Vec<Subtree>)
    ensures
        subtree_views(r@) == split_exprs(tt@.token_trees, sep, expr_lens@, 0, 0),
{
    let trees = &tt.token_trees;
    let ghost all = tt@.token_trees;
    proof {
        lemma_subtree_view(tt);
    }
    let mut res: Vec<Subtree> = Vec::new();
    let mut pos: usize = 0;
    let mut k: usize = 0;
    proof {
        assert(subtree_views(res@) =~= Seq::<SubtreeView>::empty());
    }
    while pos < trees.len()
        invariant_except_break
            subtree_views(res@) + split_exprs(all, sep, expr_lens@, pos as int, k as int)
                == split_exprs(all, sep, expr_lens@, 0, 0),
        invariant
            pos <= trees@.len(),
            all == views(trees@),
            all == tt@.token_trees,
        ensures
            subtree_views(res@) == split_exprs(all, sep, expr_lens@, 0, 0),
        decreases trees@.len() - pos,
    {
        let ghost before = subtree_views(res@);
        let ghost rest = split_exprs(all, sep, expr_lens@, pos as int, k as int);
        let n = if k < expr_lens.len() {
            expr_lens[k]
        } else {
            0
        };
        if n == 0 || n > trees.len() - pos {
            let last = copy_range(trees, pos, trees.len());
            let ghost prev = res@;
            res.push(last);
            proof {
                assert(subtree_views(res@) =~= subtree_views(prev).push(res@[res@.len() - 1]@));
                assert(before + rest =~= before.push(res@[res@.len() - 1]@));
            }
            break ;
        }
        let piece = if n == 1 {
            match &trees[pos] {
                TokenTree::Subtree(s) => s.duplicate(),
                TokenTree::Leaf(_) => copy_range(trees, pos, pos + 1),
            }
        } else {
            copy_range(trees, pos, pos + n)
        };
        proof {
            assert(all[pos as int] == trees@[pos as int]@);
            if n == 1 {
                assert(all.subrange(pos as int, pos + 1) =~= seq![all[pos as int]]);
            }
            assert(piece@ == fragment(all, pos as int, n as int));
        }
        let after = pos + n;
        let ghost prev = res@;
        res.push(piece);
        proof {
            assert(subtree_views(res@) =~= subtree_views(prev).push(res@[res@.len() - 1]@));
        }
        let separated = after < trees.len() && match &trees[after] {
            TokenTree::Leaf(Leaf::Punct(p)) => p.char == sep,
            _ => false,
        };
        proof {
            if after < trees@.len() {
                assert(all[after as int] == trees@[after as int]@);
            }
            assert(separated == separator_at(all, after as int, sep));
        }
        if separated {
            proof {
                assert(before.push(piece@) + split_exprs(all, sep, expr_lens@, after + 1, k + 1)
                    =~= before + rest);
            }
            pos = after + 1;
            k = k + 1;
        } else {
            if after < trees.len() {
                let last = copy_range(trees, after, trees.len());
                let ghost prev2 = res@;
                res.push(last);
                proof {
                    assert(subtree_views(res@) =~= subtree_views(prev2).push(
                        res@[res@.len() - 1]@,
                    ));
                    assert(before + rest =~= before.push(piece@).push(res@[res@.len() - 1]@));
                }
            } else {
                proof {
                    assert(before + rest =~= before.push(piece@));
                }
            }
            break ;
        }
    }
    res
}

} // verus!
