//! The token map of a token tree: for each token id the range of text that
//! the token came from, and for each pair of delimiters the ranges of both.

use crate::syntax_kind::SyntaxKind;
use crate::text::TextRange;
use crate::tt::{Subtree, SubtreeView, TokenId, TokenTree, TokenTreeView};
use vstd::prelude::*;

verus! {

/// What a token map holds for one id: the range of a token, or the ranges of
/// an opening delimiter and, once it is known, of the closing one.
#[derive(Clone, Copy, Debug, PartialEq, Eq, Hash)]
pub enum TokenTextRange {
    Token(TextRange),
    Delimiter(TextRange, Option<TextRange>),
}

impl TokenTextRange {
    /// The range that stands for a token of kind `kind`: a token's range
    /// whatever the kind, the opening range for an opening bracket, the
    /// closing range for a closing bracket.
    pub open spec fn spec_by_kind(self, kind: SyntaxKind) -> Option<TextRange> {
        match self {
            TokenTextRange::Token(range) => Some(range),
            TokenTextRange::Delimiter(open, close) => match kind {
                SyntaxKind::L_CURLY | SyntaxKind::L_PAREN | SyntaxKind::L_BRACK => Some(open),
                SyntaxKind::R_CURLY | SyntaxKind::R_PAREN | SyntaxKind::R_BRACK => close,
                _ => None,
            },
        }
    }

    /// Whether `range` is the range of the token, or one of the two ranges
    /// of the delimiters.
    pub open spec fn spec_covers(self, range: TextRange) -> bool {
        match self {
            TokenTextRange::Token(it) => it == range,
            TokenTextRange::Delimiter(open, close) => open == range || close == Some(range),
        }
    }

    #[verifier::when_used_as_spec(spec_by_kind)]
    pub fn by_kind(self, kind: SyntaxKind) -> (r: Option<TextRange>)
        ensures
            r == self.spec_by_kind(kind),
    {
        match self {
            TokenTextRange::Token(range) => Some(range),
            TokenTextRange::Delimiter(open, close) => match kind {
                SyntaxKind::L_CURLY | SyntaxKind::L_PAREN | SyntaxKind::L_BRACK => Some(open),
                SyntaxKind::R_CURLY | SyntaxKind::R_PAREN | SyntaxKind::R_BRACK => close,
                _ => None,
            },
        }
    }

    #[verifier::when_used_as_spec(spec_covers)]
    pub fn covers(self, range: TextRange) -> (r: bool)
        ensures
            r == self.spec_covers(range),
    {
        match self {
            TokenTextRange::Token(it) => it == range,
            TokenTextRange::Delimiter(open, close) => {
                open == range || match close {
                    Some(c) => c == range,
                    None => false,
                }
            },
        }
    }
}

/// The entries of a token map, oldest first.
pub type Entries = Seq<(TokenId, TokenTextRange)>;

/// The id of the first entry from position `from` on that covers `range`.
pub open spec fn first_covering(entries: Entries, range: TextRange, from: int) -> Option<TokenId>
    decreases entries.len() - from,
{
    if from < 0 || from >= entries.len() {
        None
    } else if entries[from].1.spec_covers(range) {
        Some(entries[from].0)
    } else {
        first_covering(entries, range, from + 1)
    }
}

/// What the first entry from position `from` on with the id `id` holds.
pub open spec fn first_with_id(entries: Entries, id: TokenId, from: int) -> Option<TokenTextRange>
    decreases entries.len() - from,
{
    if from < 0 || from >= entries.len() {
        None
    } else if entries[from].0 == id {
        Some(entries[from].1)
    } else {
        first_with_id(entries, id, from + 1)
    }
}

/// The ranges that the first `upto` entries give for the id `id` and a token
/// of kind `kind`, in the order of the entries.
pub open spec fn ranges_of(entries: Entries, id: TokenId, kind: SyntaxKind, upto: int) -> Seq<
    TextRange,
>
    decreases upto,
{
    if upto <= 0 || upto > entries.len() {
        Seq::empty()
    } else {
        let before = ranges_of(entries, id, kind, upto - 1);
        let last = entries[upto - 1];
        if last.0 == id && last.1.spec_by_kind(kind).is_some() {
            before.push(last.1.spec_by_kind(kind).unwrap())
        } else {
            before
        }
    }
}

/// Whether no two entries have the same id.
pub open spec fn distinct_ids(entries: Entries) -> bool {
    forall|i: int, j: int|
        0 <= i < j < entries.len() ==> (#[trigger] entries[i]).0 != (#[trigger] entries[j]).0
}

/// Maps the ids of a token tree to ranges of text, relative to where the
/// text that the tree was made from begins.
#[derive(Debug, PartialEq, Eq, Hash)]
pub struct TokenMap {
    entries: Vec<(TokenId, TokenTextRange)>,
}

impl View for TokenMap {
    type V = Entries;

    closed spec fn view(&self) -> Entries {
        self.entries@
    }
}

impl TokenMap {
    /// A token map without entries.
    pub fn new() -> (r: TokenMap)
        ensures
            r@ == Entries::empty(),
    {
        TokenMap { entries: Vec::new() }
    }

    /// The number of entries.
    pub fn len(&self) -> (r: usize)
        ensures
            r == self@.len(),
    {
        self.entries.len()
    }

    /// The entry at position `idx`.
    pub fn entry(&self, idx: usize) -> (r: (TokenId, TokenTextRange))
        requires
            idx < self@.len(),
        ensures
            r == self@[idx as int],
    {
        self.entries[idx]
    }

    /// A copy of the map.
    pub fn duplicate(&self) -> (r: TokenMap)
        ensures
            r@ == self@,
    {
        let mut entries: Vec<(TokenId, TokenTextRange)> = Vec::new();
        let mut i: usize = 0;
        while i < self.entries.len()
            invariant
                i <= self.entries@.len(),
                entries@ == self.entries@.subrange(0, i as int),
            decreases self.entries@.len() - i,
        {
            entries.push(self.entries[i]);
            proof {
                assert(entries@ =~= self.entries@.subrange(0, i + 1));
            }
            i += 1;
        }
        proof {
            assert(entries@ =~= self.entries@);
        }
        TokenMap { entries }
    }

    /// Whether the two maps hold the same entries in the same order.
    pub fn same(&self, other: &TokenMap) -> (r: bool)
        ensures
            r == (self@ == other@),
    {
        if self.entries.len() != other.entries.len() {
            return false;
        }
        let mut i: usize = 0;
        while i < self.entries.len()
            invariant
                i <= self.entries@.len(),
                self.entries@.len() == other.entries@.len(),
                forall|k: int| 0 <= k < i ==> self.entries@[k] == other.entries@[k],
            decreases self.entries@.len() - i,
        {
            let (a_id, a) = self.entries[i];
            let (b_id, b) = other.entries[i];
            let same = a_id == b_id && match (a, b) {
                (TokenTextRange::Token(x), TokenTextRange::Token(y)) => x == y,
                (TokenTextRange::Delimiter(xo, xc), TokenTextRange::Delimiter(yo, yc)) => xo == yo
                    && match (xc, yc) {
                    (Some(p), Some(q)) => p == q,
                    (None, None) => true,
                    _ => false,
                },
                _ => false,
            };
            if !same {
                return false;
            }
            i += 1;
        }
        proof {
            assert(self.entries@ =~= other.entries@);
        }
        true
    }

    /// The id of the token, or of the pair of delimiters, whose range is
    /// `relative_range`: that of the oldest such entry.
    pub fn token_by_range(&self, relative_range: TextRange) -> (r: Option<TokenId>)
        ensures
            r == first_covering(self@, relative_range, 0),
    {
        let mut i: usize = 0;
        while i < self.entries.len()
            invariant
                i <= self.entries@.len(),
                first_covering(self@, relative_range, 0) == first_covering(
                    self@,
                    relative_range,
                    i as int,
                ),
            decreases self.entries@.len() - i,
        {
            let (id, range) = self.entries[i];
            if range.covers(relative_range) {
                return Some(id);
            }
            i += 1;
        }
        None
    }

    /// What the oldest entry with the id `token_id` holds.
    pub fn range_by_token(&self, token_id: TokenId) -> (r: Option<TokenTextRange>)
        ensures
            r == first_with_id(self@, token_id, 0),
    {
        let mut i: usize = 0;
        while i < self.entries.len()
            invariant
                i <= self.entries@.len(),
                first_with_id(self@, token_id, 0) == first_with_id(self@, token_id, i as int),
            decreases self.entries@.len() - i,
        {
            let (id, range) = self.entries[i];
            if id == token_id {
                return Some(range);
            }
            i += 1;
        }
        None
    }

    /// All the ranges that the map holds for the id `token_id` and a token
    /// of kind `kind`, oldest entry first.
    pub fn ranges_by_token(&self, token_id: TokenId, kind: SyntaxKind) -> (r: Vec<TextRange>)
        ensures
            r@ == ranges_of(self@, token_id, kind, self@.len() as int),
    {
        let mut out: Vec<TextRange> = Vec::new();
        let mut i: usize = 0;
        while i < self.entries.len()
            invariant
                i <= self.entries@.len(),
                out@ == ranges_of(self@, token_id, kind, i as int),
            decreases self.entries@.len() - i,
        {
            let (id, range) = self.entries[i];
            if id == token_id {
                match range.by_kind(kind) {
                    Some(r) => {
                        out.push(r);
                    },
                    None => {},
                }
            }
            i += 1;
        }
        out
    }

    /// The first of the ranges that the map holds for the id `token_id` and
    /// a token of kind `kind`.
    pub fn first_range_by_token(&self, token_id: TokenId, kind: SyntaxKind) -> (r: Option<
        TextRange,
    >)
        ensures
            r == if ranges_of(self@, token_id, kind, self@.len() as int).len() > 0 {
                Some(ranges_of(self@, token_id, kind, self@.len() as int)[0])
            } else {
                None
            },
    {
        let ranges = self.ranges_by_token(token_id, kind);
        if ranges.len() > 0 {
            Some(ranges[0])
        } else {
            None
        }
    }

    /// Adds an entry for a token.
    pub fn insert(&mut self, token_id: TokenId, relative_range: TextRange)
        ensures
            final(self)@ == old(self)@.push((token_id, TokenTextRange::Token(relative_range))),
    {
        self.entries.push((token_id, TokenTextRange::Token(relative_range)));
    }

    /// Adds an entry for a pair of delimiters and returns its position.
    pub fn insert_delim(
        &mut self,
        token_id: TokenId,
        open_relative_range: TextRange,
        close_relative_range: Option<TextRange>,
    ) -> (r: usize)
        ensures
            r == old(self)@.len(),
            final(self)@ == old(self)@.push(
                (token_id, TokenTextRange::Delimiter(open_relative_range, close_relative_range)),
            ),
    {
        let res = self.entries.len();
        self.entries.push(
            (token_id, TokenTextRange::Delimiter(open_relative_range, close_relative_range)),
        );
        res
    }

    /// Records the closing range of the pair of delimiters at position
    /// `idx`. An entry for a token is left as it is.
    pub fn update_close_delim(&mut self, idx: usize, close_relative_range: TextRange)
        requires
            idx < old(self)@.len(),
        ensures
            final(self)@ == match old(self)@[idx as int].1 {
                TokenTextRange::Delimiter(open, _) => old(self)@.update(
                    idx as int,
                    (
                        old(self)@[idx as int].0,
                        TokenTextRange::Delimiter(open, Some(close_relative_range)),
                    ),
                ),
                TokenTextRange::Token(_) => old(self)@,
            },
    {
        let (id, range) = self.entries[idx];
        match range {
            TokenTextRange::Delimiter(open, _) => {
                self.entries.set(
                    idx,
                    (id, TokenTextRange::Delimiter(open, Some(close_relative_range))),
                );
            },
            TokenTextRange::Token(_) => {},
        }
    }

    /// Takes out the entry at position `idx`; the entries after it move up.
    pub fn remove_delim(&mut self, idx: usize)
        requires
            idx < old(self)@.len(),
        ensures
            final(self)@ == old(self)@.remove(idx as int),
    {
        self.entries.remove(idx);
    }
}

/// Whether the token tree `t` holds the id `id`, on a leaf or on a delimiter.
pub open spec fn tree_has_id(t: TokenTreeView, id: TokenId) -> bool
    decreases t,
{
    match t {
        TokenTreeView::Leaf(leaf) => leaf.id() == id,
        TokenTreeView::Subtree(s) => subtree_has_id(s, id),
    }
}

/// Whether the subtree `s` holds the id `id`, on its own delimiter or
/// anywhere inside.
pub open spec fn subtree_has_id(s: SubtreeView, id: TokenId) -> bool
    decreases s,
{
    (match s.delimiter {
        Some(d) => d.id == id,
        None => false,
    }) || (exists|i: int|
        #![trigger s.token_trees[i]]
        0 <= i < s.token_trees.len() && tree_has_id(s.token_trees[i], id))
}

/// An offset by which the ids of one token tree are moved, so that they stay
/// apart from the ids of another.
#[derive(Clone, Copy, Debug, PartialEq, Eq, Hash, Structural)]
pub struct Shift(pub u32);

impl Shift {
    /// The id `id` moved by the offset. The id of no token stays as it is.
    pub open spec fn spec_shift(self, id: TokenId) -> TokenId {
        if id == TokenId::spec_unspecified() {
            id
        } else {
            TokenId((id.0 + self.0) as u32)
        }
    }

    /// The id that the offset moved to `id`, if there is one.
    pub open spec fn spec_unshift(self, id: TokenId) -> Option<TokenId> {
        if id.0 >= self.0 {
            Some(TokenId((id.0 - self.0) as u32))
        } else {
            None
        }
    }

    /// Whether the offset lies above every id that the subtree holds, and
    /// just above the largest of them.
    pub open spec fn fits(self, s: SubtreeView) -> bool {
        &&& forall|id: TokenId|
            id != TokenId::spec_unspecified() && subtree_has_id(s, id) ==> id.0 < self.0
        &&& self.0 > 0 ==> subtree_has_id(s, TokenId((self.0 - 1) as u32))
    }

    /// The offset that fits the subtree `s`.
    pub open spec fn spec_new(s: SubtreeView) -> Shift {
        choose|shift: Shift| shift.fits(s)
    }

    /// Only one offset fits a subtree.
    pub proof fn lemma_fits_one(self, other: Shift, s: SubtreeView)
        requires
            self.fits(s),
            other.fits(s),
        ensures
            self == other,
    {
        if self.0 < other.0 {
            assert(subtree_has_id(s, TokenId((other.0 - 1) as u32)));
        } else if other.0 < self.0 {
            assert(subtree_has_id(s, TokenId((self.0 - 1) as u32)));
        }
    }

    #[verifier::when_used_as_spec(spec_shift)]
    pub fn shift(self, id: TokenId) -> (r: TokenId)
        requires
            id != TokenId::spec_unspecified() ==> id.0 + self.0 <= u32::MAX,
        ensures
            r == self.spec_shift(id),
    {
        if id == TokenId::unspecified() {
            return id;
        }
        TokenId(id.0 + self.0)
    }

    #[verifier::when_used_as_spec(spec_unshift)]
    pub fn unshift(self, id: TokenId) -> (r: Option<TokenId>)
        ensures
            r == self.spec_unshift(id),
    {
        if id.0 >= self.0 {
            Some(TokenId(id.0 - self.0))
        } else {
            None
        }
    }

    /// Moving an id and moving it back gives the id again, where the moved
    /// id is the id of a token.
    pub proof fn lemma_unshift_shift(self, id: TokenId)
        requires
            id != TokenId::spec_unspecified(),
            id.0 + self.0 < u32::MAX,
        ensures
            self.spec_unshift(self.spec_shift(id)) == Some(id),
            self.spec_shift(id) != TokenId::spec_unspecified(),
    {
    }

    /// An id of the tree that the offset was made for is not a moved id.
    pub proof fn lemma_unshift_own(self, s: SubtreeView, id: TokenId)
        requires
            self.fits(s),
            id != TokenId::spec_unspecified(),
            subtree_has_id(s, id),
        ensures
            self.spec_unshift(id).is_none(),
    {
    }

    /// Moved ids and the ids of the tree that the offset was made for never
    /// meet.
    pub proof fn lemma_shift_apart(self, s: SubtreeView, own: TokenId, other: TokenId)
        requires
            self.fits(s),
            own != TokenId::spec_unspecified(),
            subtree_has_id(s, own),
            other != TokenId::spec_unspecified(),
            other.0 + self.0 < u32::MAX,
        ensures
            self.spec_shift(other) != own,
    {
    }
}

/// A subtree holds an id on its own delimiter or in one of its token trees.
pub proof fn lemma_subtree_has_id(s: &Subtree, id: TokenId)
    ensures
        subtree_has_id(s@, id) <==> (s.delimiter matches Some(d) && d.id == id) || exists|i: int|
            0 <= i < s.token_trees@.len() && #[trigger] tree_has_id(s.token_trees@[i]@, id),
{
    crate::tt::lemma_subtree_view(s);
    let sv = s@;
    if subtree_has_id(sv, id) {
        if !(s.delimiter matches Some(d) && d.id == id) {
            let k = choose|k: int|
                #![trigger sv.token_trees[k]]
                0 <= k < sv.token_trees.len() && tree_has_id(sv.token_trees[k], id);
            assert(sv.token_trees[k] == s.token_trees@[k]@);
            assert(tree_has_id(s.token_trees@[k]@, id));
        }
    }
    if exists|i: int|
        0 <= i < s.token_trees@.len() && #[trigger] tree_has_id(s.token_trees@[i]@, id) {
        let k = choose|k: int|
            0 <= k < s.token_trees@.len() && #[trigger] tree_has_id(s.token_trees@[k]@, id);
        assert(sv.token_trees[k] == s.token_trees@[k]@);
        assert(tree_has_id(sv.token_trees[k], id));
    }
}

/// The larger of two numbers of which either may be absent.
fn larger(a: Option<u32>, b: Option<u32>) -> (r: Option<u32>)
    ensures
        r == match (a, b) {
            (Some(x), Some(y)) => Some(if x >= y {
                x
            } else {
                y
            }),
            (Some(x), None) => Some(x),
            (None, y) => y,
        },
{
    match (a, b) {
        (Some(x), Some(y)) => Some(if x >= y {
            x
        } else {
            y
        }),
        (Some(x), None) => Some(x),
        (None, y) => y,
    }
}

/// The id of the delimiter, where there is one and it is the id of a token.
fn delimiter_id(s: &Subtree) -> (r: Option<u32>)
    ensures
        r == match s.delimiter {
            Some(d) => if d.id != TokenId::spec_unspecified() {
                Some(d.id.0)
            } else {
                None
            },
            None => None,
        },
{
    match s.delimiter {
        Some(d) => if d.id.0 != 0xffff_ffff {
            Some(d.id.0)
        } else {
            None
        },
        None => None,
    }
}

/// Whether `m` is the largest id of a token in one of `trees`, or nothing
/// where none of them holds the id of a token.
pub open spec fn is_max_id(trees: Seq<TokenTree>, m: Option<u32>) -> bool {
    &&& forall|id: TokenId, i: int|
        0 <= i < trees.len() && id != TokenId::spec_unspecified() && #[trigger] tree_has_id(
            trees[i]@,
            id,
        ) ==> m.is_some() && id.0 <= m.unwrap()
    &&& m.is_some() ==> m.unwrap() != 0xffff_ffffu32 && exists|i: int|
        0 <= i < trees.len() && #[trigger] tree_has_id(trees[i]@, TokenId(m.unwrap()))
}

/// The largest id of a token among `trees`, or nothing where none has the id
/// of a token.
fn max_id(trees: &Vec<TokenTree>) -> (r: Option<u32>)
    ensures
        is_max_id(trees@, r),
    decreases trees,
{
    let mut best: Option<u32> = None;
    let mut i: usize = 0;
    while i < trees.len()
        invariant
            i <= trees@.len(),
            is_max_id(trees@.subrange(0, i as int), best),
        decreases trees@.len() - i,
    {
        let ghost before = best;
        let ghost done = trees@.subrange(0, i as int);
        let ghost next = trees@.subrange(0, i + 1);
        let here: Option<u32> = match &trees[i] {
            TokenTree::Leaf(leaf) => {
                let id = leaf.id();
                if id.0 != 0xffff_ffff {
                    Some(id.0)
                } else {
                    None
                }
            },
            TokenTree::Subtree(s) => {
                let inner = max_id(&s.token_trees);
                let both = larger(inner, delimiter_id(s));
                proof {
                    assert forall|id: TokenId|
                        id != TokenId::spec_unspecified() && tree_has_id(
                            trees@[i as int]@,
                            id,
                        ) implies both.is_some() && id.0 <= both.unwrap() by {
                        lemma_subtree_has_id(s, id);
                    }
                    if both.is_some() {
                        lemma_subtree_has_id(s, TokenId(both.unwrap()));
                    }
                }
                both
            },
        };
        assert(forall|id: TokenId|
            id != TokenId::spec_unspecified() && tree_has_id(trees@[i as int]@, id)
                ==> here.is_some() && id.0 <= here.unwrap());
        assert(here.is_some() ==> here.unwrap() != 0xffff_ffffu32 && tree_has_id(
            trees@[i as int]@,
            TokenId(here.unwrap()),
        ));
        best = larger(best, here);
        proof {
            assert forall|id: TokenId, k: int|
                0 <= k < next.len() && id != TokenId::spec_unspecified() && #[trigger] tree_has_id(
                    next[k]@,
                    id,
                ) implies best.is_some() && id.0 <= best.unwrap() by {
                if k < i {
                    assert(done[k] == next[k]);
                    assert(tree_has_id(done[k]@, id));
                }
            }
            if best.is_some() {
                let m = best.unwrap();
                if before == Some(m) {
                    let k = choose|k: int|
                        0 <= k < done.len() && #[trigger] tree_has_id(done[k]@, TokenId(m));
                    assert(done[k] == next[k]);
                    assert(tree_has_id(next[k]@, TokenId(m)));
                } else {
                    assert(tree_has_id(next[i as int]@, TokenId(m)));
                }
            }
        }
        i += 1;
    }
    proof {
        assert(trees@.subrange(0, i as int) =~= trees@);
    }
    best
}

impl Shift {
    /// The offset for ids that are to stay apart from those of `tt`: one
    /// more than the largest id that `tt` holds, and 0 where it holds none.
    pub fn new(tt: &Subtree) -> (r: Shift)
        ensures
            r.fits(tt@),
            r == Shift::spec_new(tt@),
    {
        let inner = max_id(&tt.token_trees);
        let both = larger(inner, delimiter_id(tt));
        let r = match both {
            Some(m) => Shift(m + 1),
            None => Shift(0),
        };
        proof {
            assert forall|id: TokenId|
                id != TokenId::spec_unspecified() && subtree_has_id(tt@, id) implies id.0
                < r.0 by {
                lemma_subtree_has_id(tt, id);
            }
            if both.is_some() {
                lemma_subtree_has_id(tt, TokenId(both.unwrap()));
            }
            assert(r.fits(tt@));
            r.lemma_fits_one(Shift::spec_new(tt@), tt@);
        }
        r
    }
}

} // verus!
