//! Token trees: the form in which macros take their input and give their
//! output. A token tree is a leaf (identifier, literal or punctuation) or a
//! subtree, a run of token trees that may stand between two delimiters.

use vstd::prelude::*;

verus! {

/// Names a token of a token tree, or a pair of delimiters. What the number
/// stands for is told by the token map that was made along with the tree.
#[derive(Clone, Copy, Debug, PartialEq, Eq, Hash, Structural)]
pub struct TokenId(pub u32);

impl TokenId {
    /// The id of a token that no token map knows.
    pub open spec fn spec_unspecified() -> TokenId {
        TokenId(0xffff_ffff)
    }

    #[verifier::when_used_as_spec(spec_unspecified)]
    pub fn unspecified() -> (r: TokenId)
        ensures
            r == TokenId::spec_unspecified(),
    {
        TokenId(0xffff_ffff)
    }
}

#[derive(Clone, Copy, Debug, PartialEq, Eq, Hash, Structural)]
pub enum DelimiterKind {
    Parenthesis,
    Brace,
    Bracket,
}

#[derive(Clone, Copy, Debug, PartialEq, Eq, Hash, Structural)]
pub struct Delimiter {
    pub id: TokenId,
    pub kind: DelimiterKind,
}

/// Whether a punctuation character is followed at once by another one.
#[derive(Clone, Copy, Debug, PartialEq, Eq, Hash, Structural)]
pub enum Spacing {
    Alone,
    Joint,
}

#[derive(Clone, Copy, Debug, PartialEq, Eq, Hash, Structural)]
pub struct Punct {
    pub char: char,
    pub spacing: Spacing,
    pub id: TokenId,
}

#[derive(Clone, Debug, PartialEq, Eq, Hash)]
pub struct Literal {
    pub text: String,
    pub id: TokenId,
}

#[derive(Clone, Debug, PartialEq, Eq, Hash)]
pub struct Ident {
    pub text: String,
    pub id: TokenId,
}

#[derive(Clone, Debug, PartialEq, Eq, Hash)]
pub enum Leaf {
    Literal(Literal),
    Punct(Punct),
    Ident(Ident),
}

#[derive(Debug, PartialEq, Eq, Hash)]
pub enum TokenTree {
    Leaf(Leaf),
    Subtree(Subtree),
}

#[derive(Debug, PartialEq, Eq, Hash)]
pub struct Subtree {
    pub delimiter: Option<Delimiter>,
    pub token_trees: Vec<TokenTree>,
}

/// What a [`Leaf`] is, with its text as a sequence of characters.
pub enum LeafView {
    Literal { text: Seq<char>, id: TokenId },
    Punct(Punct),
    Ident { text: Seq<char>, id: TokenId },
}

/// What a [`TokenTree`] is.
pub enum TokenTreeView {
    Leaf(LeafView),
    Subtree(SubtreeView),
}

/// What a [`Subtree`] is.
pub struct SubtreeView {
    pub delimiter: Option<Delimiter>,
    pub token_trees: Seq<TokenTreeView>,
}

impl View for Leaf {
    type V = LeafView;

    open spec fn view(&self) -> LeafView {
        match self {
            Leaf::Literal(l) => LeafView::Literal { text: l.text@, id: l.id },
            Leaf::Punct(p) => LeafView::Punct(*p),
            Leaf::Ident(i) => LeafView::Ident { text: i.text@, id: i.id },
        }
    }
}

/// What the token tree `t` is.
pub open spec fn tree_view(t: TokenTree) -> TokenTreeView
    decreases t,
{
    match t {
        TokenTree::Leaf(l) => TokenTreeView::Leaf(l@),
        TokenTree::Subtree(s) => TokenTreeView::Subtree(subtree_view(s)),
    }
}

/// What the subtree `s` is.
pub open spec fn subtree_view(s: Subtree) -> SubtreeView
    decreases s,
{
    SubtreeView {
        delimiter: s.delimiter,
        token_trees: Seq::new(
            s.token_trees.len() as nat,
            |i: int|
                if 0 <= i < s.token_trees.len() {
                    tree_view(s.token_trees[i])
                } else {
                    arbitrary()
                },
        ),
    }
}

impl View for TokenTree {
    type V = TokenTreeView;

    open spec fn view(&self) -> TokenTreeView {
        tree_view(*self)
    }
}

impl View for Subtree {
    type V = SubtreeView;

    open spec fn view(&self) -> SubtreeView {
        subtree_view(*self)
    }
}

/// What a run of token trees is.
pub open spec fn views(trees: Seq<TokenTree>) -> Seq<TokenTreeView> {
    Seq::new(trees.len(), |i: int| trees[i]@)
}

/// A subtree is its delimiter and what its token trees are.
pub proof fn lemma_subtree_view(s: &Subtree)
    ensures
        s@.delimiter == s.delimiter,
        s@.token_trees == views(s.token_trees@),
        s@.token_trees.len() == s.token_trees@.len(),
{
    assert(s@.token_trees =~= views(s.token_trees@));
}

pub proof fn lemma_views_push(trees: Seq<TokenTree>, t: TokenTree)
    ensures
        views(trees.push(t)) == views(trees).push(t@),
{
    assert(views(trees.push(t)) =~= views(trees).push(t@));
}

pub proof fn lemma_views_concat(a: Seq<TokenTree>, b: Seq<TokenTree>)
    ensures
        views(a + b) == views(a) + views(b),
{
    assert(views(a + b) =~= views(a) + views(b));
}

pub proof fn lemma_views_empty()
    ensures
        views(Seq::<TokenTree>::empty()) == Seq::<TokenTreeView>::empty(),
{
    assert(views(Seq::<TokenTree>::empty()) =~= Seq::<TokenTreeView>::empty());
}

impl DelimiterKind {
    /// The character that opens a pair of this kind.
    pub open spec fn spec_open_char(self) -> char {
        match self {
            DelimiterKind::Parenthesis => '(',
            DelimiterKind::Brace => '{',
            DelimiterKind::Bracket => '[',
        }
    }

    /// The character that closes a pair of this kind.
    pub open spec fn spec_close_char(self) -> char {
        match self {
            DelimiterKind::Parenthesis => ')',
            DelimiterKind::Brace => '}',
            DelimiterKind::Bracket => ']',
        }
    }

    #[verifier::when_used_as_spec(spec_open_char)]
    pub fn open_char(self) -> (r: char)
        ensures
            r == self.spec_open_char(),
    {
        match self {
            DelimiterKind::Parenthesis => '(',
            DelimiterKind::Brace => '{',
            DelimiterKind::Bracket => '[',
        }
    }

    #[verifier::when_used_as_spec(spec_close_char)]
    pub fn close_char(self) -> (r: char)
        ensures
            r == self.spec_close_char(),
    {
        match self {
            DelimiterKind::Parenthesis => ')',
            DelimiterKind::Brace => '}',
            DelimiterKind::Bracket => ']',
        }
    }
}

impl Leaf {
    /// The id of the leaf.
    pub open spec fn spec_id(&self) -> TokenId {
        match self {
            Leaf::Literal(l) => l.id,
            Leaf::Punct(p) => p.id,
            Leaf::Ident(i) => i.id,
        }
    }

    #[verifier::when_used_as_spec(spec_id)]
    pub fn id(&self) -> (r: TokenId)
        ensures
            r == self.spec_id(),
    {
        match self {
            Leaf::Literal(l) => l.id,
            Leaf::Punct(p) => p.id,
            Leaf::Ident(i) => i.id,
        }
    }
}

impl LeafView {
    /// The id of the leaf.
    pub open spec fn id(self) -> TokenId {
        match self {
            LeafView::Literal { id, .. } => id,
            LeafView::Punct(p) => p.id,
            LeafView::Ident { id, .. } => id,
        }
    }
}

impl Subtree {
    /// A subtree without delimiters that holds nothing.
    pub fn empty() -> (r: Subtree)
        ensures
            r@ == (SubtreeView { delimiter: None, token_trees: Seq::empty() }),
    {
        let r = Subtree { delimiter: None, token_trees: Vec::new() };
        proof {
            lemma_subtree_view(&r);
            lemma_views_empty();
        }
        r
    }

    /// The kind of the delimiters, where the subtree has them.
    pub fn delimiter_kind(&self) -> (r: Option<DelimiterKind>)
        ensures
            r == match self@.delimiter {
                Some(d) => Some(d.kind),
                None => None,
            },
    {
        match self.delimiter {
            Some(d) => Some(d.kind),
            None => None,
        }
    }
}

/// Calls `String::from` on a character: the string that holds just this
/// character.
#[verifier::external_body]
pub(crate) fn char_to_string(c: char) -> (r: String)
    ensures
        r@ == seq![c],
{
    String::from(c)
}

impl LeafView {
    /// The text of the leaf; for punctuation, its one character.
    pub open spec fn text(self) -> Seq<char> {
        match self {
            LeafView::Literal { text, .. } => text,
            LeafView::Punct(p) => seq![p.char],
            LeafView::Ident { text, .. } => text,
        }
    }
}

impl Leaf {
    /// A copy of the leaf.
    pub fn duplicate(&self) -> (r: Leaf)
        ensures
            r@ == self@,
    {
        match self {
            Leaf::Literal(l) => Leaf::Literal(Literal { text: l.text.clone(), id: l.id }),
            Leaf::Punct(p) => Leaf::Punct(*p),
            Leaf::Ident(i) => Leaf::Ident(Ident { text: i.text.clone(), id: i.id }),
        }
    }

    /// The text of the leaf; for punctuation, its one character.
    pub fn text(&self) -> (r: String)
        ensures
            r@ == self@.text(),
    {
        match self {
            Leaf::Literal(l) => l.text.clone(),
            Leaf::Punct(p) => char_to_string(p.char),
            Leaf::Ident(i) => i.text.clone(),
        }
    }
}

/// A copy of a run of token trees.
pub fn duplicate_trees(trees: &Vec<TokenTree>) -> (r: Vec<TokenTree>)
    ensures
        views(r@) == views(trees@),
    decreases trees,
{
    let mut out: Vec<TokenTree> = Vec::new();
    let mut i: usize = 0;
    proof {
        lemma_views_empty();
        assert(views(trees@.subrange(0, 0)) =~= Seq::<TokenTreeView>::empty());
    }
    while i < trees.len()
        invariant
            i <= trees@.len(),
            views(out@) == views(trees@.subrange(0, i as int)),
        decreases trees@.len() - i,
    {
        let copy = match &trees[i] {
            TokenTree::Leaf(l) => TokenTree::Leaf(l.duplicate()),
            TokenTree::Subtree(s) => {
                let inner = Subtree {
                    delimiter: s.delimiter,
                    token_trees: duplicate_trees(&s.token_trees),
                };
                proof {
                    lemma_subtree_view(s);
                    lemma_subtree_view(&inner);
                }
                TokenTree::Subtree(inner)
            },
        };
        proof {
            lemma_views_push(out@, copy);
            lemma_views_push(trees@.subrange(0, i as int), trees@[i as int]);
            assert(trees@.subrange(0, i + 1) =~= trees@.subrange(0, i as int).push(
                trees@[i as int],
            ));
        }
        out.push(copy);
        i += 1;
    }
    proof {
        assert(trees@.subrange(0, i as int) =~= trees@);
    }
    out
}

impl Subtree {
    /// A copy of the subtree.
    pub fn duplicate(&self) -> (r: Subtree)
        ensures
            r@ == self@,
    {
        let r = Subtree { delimiter: self.delimiter, token_trees: duplicate_trees(&self.token_trees) };
        proof {
            lemma_subtree_view(self);
            lemma_subtree_view(&r);
        }
        r
    }
}

impl TokenTree {
    /// A copy of the token tree.
    pub fn duplicate(&self) -> (r: TokenTree)
        ensures
            r@ == self@,
    {
        match self {
            TokenTree::Leaf(l) => TokenTree::Leaf(l.duplicate()),
            TokenTree::Subtree(s) => TokenTree::Subtree(s.duplicate()),
        }
    }
}

impl Leaf {
    /// Whether the two leaves are the same.
    pub fn same(&self, other: &Leaf) -> (r: bool)
        ensures
            r == (self@ == other@),
    {
        match (self, other) {
            (Leaf::Literal(a), Leaf::Literal(b)) => a.id == b.id && a.text == b.text,
            (Leaf::Punct(a), Leaf::Punct(b)) => *a == *b,
            (Leaf::Ident(a), Leaf::Ident(b)) => a.id == b.id && a.text == b.text,
            _ => false,
        }
    }
}

/// Whether the two runs of token trees are the same.
pub fn same_trees(a: &Vec<TokenTree>, b: &Vec<TokenTree>) -> (r: bool)
    ensures
        r == (views(a@) == views(b@)),
    decreases a,
{
    if a.len() != b.len() {
        proof {
            assert(views(a@).len() != views(b@).len());
        }
        return false;
    }
    let mut i: usize = 0;
    while i < a.len()
        invariant
            i <= a@.len(),
            a@.len() == b@.len(),
            forall|k: int| 0 <= k < i ==> (#[trigger] a@[k])@ == b@[k]@,
        decreases a@.len() - i,
    {
        let same = match (&a[i], &b[i]) {
            (TokenTree::Leaf(x), TokenTree::Leaf(y)) => x.same(y),
            (TokenTree::Subtree(x), TokenTree::Subtree(y)) => {
                proof {
                    lemma_subtree_view(x);
                    lemma_subtree_view(y);
                }
                x.delimiter == y.delimiter && same_trees(&x.token_trees, &y.token_trees)
            },
            _ => false,
        };
        if !same {
            proof {
                assert(views(a@)[i as int] == a@[i as int]@);
                assert(views(b@)[i as int] == b@[i as int]@);
            }
            return false;
        }
        i += 1;
    }
    proof {
        assert forall|k: int| 0 <= k < a@.len() implies views(a@)[k] == views(b@)[k] by {
            assert(a@[k]@ == b@[k]@);
        }
        assert(views(a@) =~= views(b@));
    }
    true
}

impl Subtree {
    /// Whether the two subtrees are the same.
    pub fn same(&self, other: &Subtree) -> (r: bool)
        ensures
            r == (self@ == other@),
    {
        proof {
            lemma_subtree_view(self);
            lemma_subtree_view(other);
        }
        self.delimiter == other.delimiter && same_trees(&self.token_trees, &other.token_trees)
    }
}

} // verus!
