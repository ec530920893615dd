//! Syntax trees: every element of a tree (node or token) is stored once, in
//! document order, and is named by its position in that order.

use crate::syntax_kind::SyntaxKind;
use crate::text::{byte_len, text_len, TextRange};
use vstd::prelude::*;

verus! {

/// A node of a [`SyntaxTree`], named by its position in document order.
#[derive(Clone, Copy, Debug, PartialEq, Eq, Hash, Structural)]
pub struct SyntaxNode(pub usize);

/// A token of a [`SyntaxTree`], named by its position in document order.
#[derive(Clone, Copy, Debug, PartialEq, Eq, Hash, Structural)]
pub struct SyntaxToken(pub usize);

/// A node or a token.
#[derive(Clone, Copy, Debug, PartialEq, Eq, Hash, Structural)]
pub enum SyntaxElement {
    Node(SyntaxNode),
    Token(SyntaxToken),
}

impl SyntaxElement {
    /// The position of the element in document order.
    pub open spec fn spec_index(self) -> usize {
        match self {
            SyntaxElement::Node(n) => n.0,
            SyntaxElement::Token(t) => t.0,
        }
    }

    #[verifier::when_used_as_spec(spec_index)]
    pub fn index(self) -> (r: usize)
        ensures
            r == self.spec_index(),
    {
        match self {
            SyntaxElement::Node(n) => n.0,
            SyntaxElement::Token(t) => t.0,
        }
    }

    /// The token, when the element is one.
    pub fn into_token(self) -> (r: Option<SyntaxToken>)
        ensures
            r == match self {
                SyntaxElement::Node(_) => None::<SyntaxToken>,
                SyntaxElement::Token(t) => Some(t),
            },
    {
        match self {
            SyntaxElement::Node(_) => None,
            SyntaxElement::Token(t) => Some(t),
        }
    }
}

/// The way in which a walk over the tokens of a tree proceeds.
#[derive(Clone, Copy, Debug, PartialEq, Eq, Hash, Structural)]
pub enum Direction {
    Next,
    Prev,
}

/// One stored element. `parent` is the position of the enclosing node (the
/// root names itself), `subtree_end` the position just past the element's
/// last descendant.
pub struct Element {
    pub kind: SyntaxKind,
    pub is_token: bool,
    pub parent: usize,
    pub subtree_end: usize,
    pub start: u32,
    pub end: u32,
    pub text: String,
}

/// A syntax tree with its text. Element 0 is the root node.
pub struct SyntaxTree {
    elems: Vec<Element>,
}

/// What a stored element is: `parent` and `subtree_end` as positions, the
/// text as a sequence of characters.
pub struct ElementView {
    pub kind: SyntaxKind,
    pub is_token: bool,
    pub parent: int,
    pub subtree_end: int,
    pub start: u32,
    pub end: u32,
    pub text: Seq<char>,
}

impl View for Element {
    type V = ElementView;

    open spec fn view(&self) -> ElementView {
        ElementView {
            kind: self.kind,
            is_token: self.is_token,
            parent: self.parent as int,
            subtree_end: self.subtree_end as int,
            start: self.start,
            end: self.end,
            text: self.text@,
        }
    }
}

impl View for SyntaxTree {
    type V = Seq<ElementView>;

    closed spec fn view(&self) -> Seq<ElementView> {
        self.elems@.map_values(|e: Element| e@)
    }
}

impl SyntaxTree {
    /// The number of elements, nodes and tokens together.
    pub open spec fn spec_len(&self) -> int {
        self@.len() as int
    }

    pub open spec fn kind_at(&self, i: int) -> SyntaxKind {
        self@[i].kind
    }

    pub open spec fn token_at(&self, i: int) -> bool {
        self@[i].is_token
    }

    pub open spec fn parent_at(&self, i: int) -> int {
        self@[i].parent
    }

    /// The position just past the last descendant of element `i`.
    pub open spec fn end_at(&self, i: int) -> int {
        self@[i].subtree_end
    }

    pub open spec fn range_start(&self, i: int) -> u32 {
        self@[i].start
    }

    pub open spec fn range_end(&self, i: int) -> u32 {
        self@[i].end
    }

    pub open spec fn text_at(&self, i: int) -> Seq<char> {
        self@[i].text
    }

    /// The range of text that the element at position `i` covers.
    pub open spec fn spec_range(&self, i: int) -> TextRange {
        TextRange::spec_new(self.range_start(i), self.range_end(i))
    }

    /// The elements are laid out in document order: a node is followed by
    /// its descendants, every element but the root lies inside its parent,
    /// and the parent is the nearest node that encloses it.
    pub open spec fn wf(&self) -> bool {
        &&& 1 <= self.spec_len() <= usize::MAX
        &&& !self.token_at(0)
        &&& self.parent_at(0) == 0
        &&& self.end_at(0) == self.spec_len()
        &&& forall|i: int|
            0 <= i && i < self.spec_len() ==> i < (#[trigger] self.end_at(i)) && self.end_at(i)
                <= self.spec_len()
        &&& forall|i: int|
            0 <= i && i < self.spec_len() && (#[trigger] self.token_at(i)) ==> self.end_at(i) == i
                + 1
        &&& forall|i: int|
            0 < i && i < self.spec_len() ==> 0 <= (#[trigger] self.parent_at(i)) && self.parent_at(i)
                < i && !self.token_at(self.parent_at(i)) && self.end_at(i) <= self.end_at(
                self.parent_at(i),
            )
        &&& forall|i: int, j: int|
            0 < i && i < self.spec_len() && (#[trigger] self.parent_at(i)) < j && j < i ==> (
            #[trigger] self.end_at(j)) <= i
        &&& forall|i: int, j: int|
            0 <= i && i < j && j < self.spec_len() && j < (#[trigger] self.end_at(i)) ==> (
            #[trigger] self.end_at(j)) <= self.end_at(i)
        &&& forall|i: int|
            0 <= i && i < self.spec_len() ==> (#[trigger] self.range_start(i)) <= self.range_end(i)
    }

    pub open spec fn has_node(&self, n: SyntaxNode) -> bool {
        n.0 < self.spec_len() && !self.token_at(n.0 as int)
    }

    pub open spec fn has_token(&self, t: SyntaxToken) -> bool {
        t.0 < self.spec_len() && self.token_at(t.0 as int)
    }

    pub open spec fn has_element(&self, e: SyntaxElement) -> bool {
        match e {
            SyntaxElement::Node(n) => self.has_node(n),
            SyntaxElement::Token(t) => self.has_token(t),
        }
    }

    /// The element at position `i`, as a node or as a token.
    pub open spec fn element_at(&self, i: int) -> SyntaxElement {
        if self.token_at(i) {
            SyntaxElement::Token(SyntaxToken(i as usize))
        } else {
            SyntaxElement::Node(SyntaxNode(i as usize))
        }
    }

    /// The first token at a position in `from..to`.
    pub open spec fn token_from(&self, from: int, to: int) -> Option<int>
        decreases to - from,
    {
        if from >= to {
            None
        } else if self.token_at(from) {
            Some(from)
        } else {
            self.token_from(from + 1, to)
        }
    }

    /// The last token at a position in `from..to`.
    pub open spec fn token_back(&self, from: int, to: int) -> Option<int>
        decreases to - from,
    {
        if from >= to {
            None
        } else if self.token_at(to - 1) {
            Some(to - 1)
        } else {
            self.token_back(from, to - 1)
        }
    }

    /// The first token inside node `n`.
    pub open spec fn spec_first_token(&self, n: int) -> Option<int> {
        self.token_from(n, self.end_at(n))
    }

    /// The last token inside node `n`.
    pub open spec fn spec_last_token(&self, n: int) -> Option<int> {
        self.token_back(n, self.end_at(n))
    }

    /// The token that follows token `t` in the text.
    pub open spec fn spec_next_token(&self, t: int) -> Option<int> {
        self.token_from(t + 1, self.spec_len())
    }

    /// The token that precedes token `t` in the text.
    pub open spec fn spec_prev_token(&self, t: int) -> Option<int> {
        self.token_back(0, t)
    }

    /// The first token at or after `t` that is neither whitespace nor a comment.
    pub open spec fn skip_trivia_next(&self, t: int) -> Option<int>
        decreases self.spec_len() - t,
    {
        if t < 0 || t >= self.spec_len() {
            None
        } else if !self.kind_at(t).is_trivia() {
            Some(t)
        } else {
            match self.token_from(t + 1, self.spec_len()) {
                None => None,
                Some(u) => if t < u < self.spec_len() {
                    self.skip_trivia_next(u)
                } else {
                    None
                },
            }
        }
    }

    /// The last token at or before `t` that is neither whitespace nor a comment.
    pub open spec fn skip_trivia_prev(&self, t: int) -> Option<int>
        decreases t,
    {
        if t < 0 || t >= self.spec_len() {
            None
        } else if !self.kind_at(t).is_trivia() {
            Some(t)
        } else {
            match self.token_back(0, t) {
                None => None,
                Some(u) => if 0 <= u < t {
                    self.skip_trivia_prev(u)
                } else {
                    None
                },
            }
        }
    }

    pub open spec fn spec_skip_trivia(&self, t: int, direction: Direction) -> Option<int> {
        match direction {
            Direction::Next => self.skip_trivia_next(t),
            Direction::Prev => self.skip_trivia_prev(t),
        }
    }

    /// The children of a node from position `c` on, where `end` is the
    /// position just past the node's last descendant.
    pub open spec fn siblings_from(&self, c: int, end: int) -> Seq<int>
        decreases end - c,
    {
        if c >= end || self.end_at(c) <= c || self.end_at(c) > end {
            Seq::empty()
        } else {
            seq![c] + self.siblings_from(self.end_at(c), end)
        }
    }

    /// The children of node `n`, nodes and tokens, in document order.
    pub open spec fn children(&self, n: int) -> Seq<int> {
        self.siblings_from(n + 1, self.end_at(n))
    }

    /// The first child of kind `kind` among the children from position `c` on.
    pub open spec fn child_of_kind_from(&self, c: int, end: int, kind: SyntaxKind) -> Option<int>
        decreases end - c,
    {
        if c >= end || self.end_at(c) <= c || self.end_at(c) > end {
            None
        } else if self.kind_at(c) == kind {
            Some(c)
        } else {
            self.child_of_kind_from(self.end_at(c), end, kind)
        }
    }

    /// The first child of node `n` that has kind `kind`.
    pub open spec fn spec_child_of_kind(&self, n: int, kind: SyntaxKind) -> Option<int> {
        self.child_of_kind_from(n + 1, self.end_at(n), kind)
    }

    /// The child number `nth`, counting from 0, among the children of kind
    /// `kind` from position `c` on.
    pub open spec fn nth_of_kind_from(&self, c: int, end: int, kind: SyntaxKind, nth: int) -> Option<
        int,
    >
        decreases end - c,
    {
        if c >= end || self.end_at(c) <= c || self.end_at(c) > end {
            None
        } else if self.kind_at(c) == kind {
            if nth == 0 {
                Some(c)
            } else {
                self.nth_of_kind_from(self.end_at(c), end, kind, nth - 1)
            }
        } else {
            self.nth_of_kind_from(self.end_at(c), end, kind, nth)
        }
    }

    /// The child number `nth`, counting from 0, among the children of node
    /// `n` that have kind `kind`.
    pub open spec fn spec_nth_child_of_kind(&self, n: int, kind: SyntaxKind, nth: int) -> Option<
        int,
    > {
        self.nth_of_kind_from(n + 1, self.end_at(n), kind, nth)
    }

    /// The last child of kind `kind` among the children from position `c`
    /// on, or `found` where there is none.
    pub open spec fn last_of_kind_from(
        &self,
        c: int,
        end: int,
        kind: SyntaxKind,
        found: Option<int>,
    ) -> Option<int>
        decreases end - c,
    {
        if c >= end || self.end_at(c) <= c || self.end_at(c) > end {
            found
        } else if self.kind_at(c) == kind {
            self.last_of_kind_from(self.end_at(c), end, kind, Some(c))
        } else {
            self.last_of_kind_from(self.end_at(c), end, kind, found)
        }
    }

    /// The last child of node `n` that has kind `kind`.
    pub open spec fn spec_last_child_of_kind(&self, n: int, kind: SyntaxKind) -> Option<int> {
        self.last_of_kind_from(n + 1, self.end_at(n), kind, None)
    }

    /// Whether `range` lies inside the range of element `c` and shares more
    /// than an end point with it.
    pub open spec fn holds_range(&self, c: int, range: TextRange) -> bool {
        &&& self.range_start(c) <= range.spec_start()
        &&& range.spec_end() <= self.range_end(c)
        &&& range.spec_start() < self.range_end(c)
        &&& self.range_start(c) < range.spec_end()
    }

    /// The first child from position `c` on whose range holds `range`.
    pub open spec fn child_at_range_from(&self, c: int, end: int, range: TextRange) -> Option<int>
        decreases end - c,
    {
        if c >= end || self.end_at(c) <= c || self.end_at(c) > end {
            None
        } else if self.holds_range(c, range) {
            Some(c)
        } else {
            self.child_at_range_from(self.end_at(c), end, range)
        }
    }

    /// The deepest element below `e` that is reached by stepping, from `e`
    /// down, into the child whose range holds `range`.
    pub open spec fn covering_from(&self, e: int, range: TextRange) -> int
        decreases self.spec_len() - e,
    {
        if e < 0 || e >= self.spec_len() || self.token_at(e) {
            e
        } else {
            match self.child_at_range_from(e + 1, self.end_at(e), range) {
                None => e,
                Some(c) => if e < c < self.spec_len() {
                    self.covering_from(c, range)
                } else {
                    e
                },
            }
        }
    }

    /// The ancestors of element `i`, the element itself first, the root last.
    pub open spec fn ancestors(&self, i: int) -> Seq<int>
        decreases i,
    {
        if i <= 0 || self.parent_at(i) >= i || self.parent_at(i) < 0 {
            seq![i]
        } else {
            seq![i] + self.ancestors(self.parent_at(i))
        }
    }

    /// What well-formedness says of the single element `i`.
    pub proof fn lemma_element(&self, i: int)
        requires
            self.wf(),
            0 <= i < self.spec_len(),
        ensures
            i < self.end_at(i) <= self.spec_len(),
            self.token_at(i) ==> self.end_at(i) == i + 1,
            self.range_start(i) <= self.range_end(i),
            i > 0 ==> 0 <= self.parent_at(i) < i && !self.token_at(self.parent_at(i))
                && self.end_at(i) <= self.end_at(self.parent_at(i)),
            i == 0 ==> self.parent_at(i) == 0,
    {
    }

    /// The element that follows a node with descendants is its first child.
    pub proof fn lemma_first_child(&self, n: int)
        requires
            self.wf(),
            0 <= n < self.spec_len(),
            self.end_at(n) > n + 1,
        ensures
            self.parent_at(n + 1) == n,
    {
        self.lemma_element(n);
        self.lemma_element(n + 1);
        let p = self.parent_at(n + 1);
        if p < n {
            assert(self.end_at(n) <= n + 1);
        }
    }

    /// Where the descendants of `c` end before those of its parent do, the
    /// element that follows them is the next child of that parent.
    pub proof fn lemma_next_sibling(&self, c: int)
        requires
            self.wf(),
            0 < c < self.spec_len(),
            self.end_at(c) < self.end_at(self.parent_at(c)),
        ensures
            c < self.end_at(c) < self.spec_len(),
            self.parent_at(self.end_at(c)) == self.parent_at(c),
    {
        self.lemma_element(c);
        let p = self.parent_at(c);
        self.lemma_element(p);
        let s = self.end_at(c);
        self.lemma_element(s);
        let q = self.parent_at(s);
        if q > p {
            if q == c {
            } else if q > c {
                assert(self.end_at(q) <= self.end_at(c));
            } else {
                assert(self.end_at(q) <= c);
            }
            self.lemma_element(q);
            assert(false);
        } else if q < p {
            assert(self.end_at(p) <= s);
        }
    }

    /// What `token_from` finds is a token in the range searched, and the
    /// first one there.
    pub proof fn lemma_token_from(&self, from: int, to: int)
        ensures
            match self.token_from(from, to) {
                Some(k) => from <= k < to && self.token_at(k) && forall|j: int|
                    from <= j < k ==> !self.token_at(j),
                None => forall|j: int| from <= j < to ==> !self.token_at(j),
            },
        decreases to - from,
    {
        if from < to && !self.token_at(from) {
            self.lemma_token_from(from + 1, to);
        }
    }

    /// What `token_back` finds is a token in the range searched, and the
    /// last one there.
    pub proof fn lemma_token_back(&self, from: int, to: int)
        ensures
            match self.token_back(from, to) {
                Some(k) => from <= k < to && self.token_at(k) && forall|j: int|
                    k < j < to ==> !self.token_at(j),
                None => forall|j: int| from <= j < to ==> !self.token_at(j),
            },
        decreases to - from,
    {
        if from < to && !self.token_at(to - 1) {
            self.lemma_token_back(from, to - 1);
        }
    }

    /// A child found by kind lies inside the node and has that kind.
    pub proof fn lemma_child_of_kind_from(&self, c: int, end: int, kind: SyntaxKind)
        requires
            self.wf(),
            0 <= c,
            end <= self.spec_len(),
        ensures
            self.child_of_kind_from(c, end, kind) matches Some(k) ==> c <= k < end && self.kind_at(
                k,
            ) == kind,
        decreases end - c,
    {
        if c < end && self.end_at(c) > c && self.end_at(c) <= end && self.kind_at(c) != kind {
            self.lemma_child_of_kind_from(self.end_at(c), end, kind);
        }
    }

    /// The number of elements, nodes and tokens together.
    pub fn len(&self) -> (r: usize)
        ensures
            r == self.spec_len(),
    {
        self.elems.len()
    }

    /// The root node.
    pub fn root(&self) -> (r: SyntaxNode)
        requires
            self.wf(),
        ensures
            r == SyntaxNode(0),
            self.has_node(r),
    {
        SyntaxNode(0)
    }

    /// Whether the element at position `i` is a token.
    pub fn is_token(&self, i: usize) -> (r: bool)
        requires
            i < self.spec_len(),
        ensures
            r == self.token_at(i as int),
    {
        self.elems[i].is_token
    }

    /// The element at position `i`, or nothing when the tree is shorter.
    pub fn element(&self, i: usize) -> (r: Option<SyntaxElement>)
        ensures
            r == if i < self.spec_len() {
                Some(self.element_at(i as int))
            } else {
                None
            },
            r matches Some(e) ==> self.has_element(e),
    {
        if i < self.elems.len() {
            if self.elems[i].is_token {
                Some(SyntaxElement::Token(SyntaxToken(i)))
            } else {
                Some(SyntaxElement::Node(SyntaxNode(i)))
            }
        } else {
            None
        }
    }

    /// The kind of the element at position `i`.
    pub fn kind(&self, i: usize) -> (r: SyntaxKind)
        requires
            i < self.spec_len(),
        ensures
            r == self.kind_at(i as int),
    {
        self.elems[i].kind
    }

    /// The position just past the last descendant of the element at `i`.
    pub fn subtree_end(&self, i: usize) -> (r: usize)
        requires
            self.wf(),
            i < self.spec_len(),
        ensures
            r == self.end_at(i as int),
            i < r <= self.spec_len(),
    {
        proof {
            self.lemma_element(i as int);
        }
        self.elems[i].subtree_end
    }

    /// The text of a token.
    pub fn token_text(&self, t: SyntaxToken) -> (r: &String)
        requires
            self.has_token(t),
        ensures
            r@ == self.text_at(t.0 as int),
    {
        &self.elems[t.0].text
    }

    /// The range of text that the element at position `i` covers.
    pub fn text_range(&self, i: usize) -> (r: TextRange)
        requires
            self.wf(),
            i < self.spec_len(),
        ensures
            r == self.spec_range(i as int),
            r.spec_start() == self.range_start(i as int),
            r.spec_end() == self.range_end(i as int),
    {
        proof {
            self.lemma_element(i as int);
        }
        TextRange::new(self.elems[i].start, self.elems[i].end)
    }

    /// The node that encloses the element at position `i`; the root has none.
    pub fn parent(&self, i: usize) -> (r: Option<SyntaxNode>)
        requires
            self.wf(),
            i < self.spec_len(),
        ensures
            r == if i == 0 {
                None
            } else {
                Some(SyntaxNode(self.parent_at(i as int) as usize))
            },
            r matches Some(p) ==> self.has_node(p) && p.0 < i,
    {
        proof {
            self.lemma_element(i as int);
        }
        if i == 0 {
            None
        } else {
            Some(SyntaxNode(self.elems[i].parent))
        }
    }

    /// The first child of node `n`, if it has children.
    pub fn first_child(&self, n: SyntaxNode) -> (r: Option<usize>)
        requires
            self.wf(),
            self.has_node(n),
        ensures
            r == if self.end_at(n.0 as int) > n.0 + 1 {
                Some((n.0 + 1) as usize)
            } else {
                None
            },
            r matches Some(c) ==> c < self.spec_len() && self.parent_at(c as int) == n.0,
    {
        proof {
            self.lemma_element(n.0 as int);
            if self.end_at(n.0 as int) > n.0 + 1 {
                self.lemma_first_child(n.0 as int);
            }
        }
        if self.elems[n.0].subtree_end > n.0 + 1 {
            Some(n.0 + 1)
        } else {
            None
        }
    }

    /// The element that follows the element at `c` among the children of
    /// its parent.
    pub fn next_sibling(&self, c: usize) -> (r: Option<usize>)
        requires
            self.wf(),
            c < self.spec_len(),
        ensures
            r == if c > 0 && self.end_at(c as int) < self.end_at(self.parent_at(c as int)) {
                Some(self.end_at(c as int) as usize)
            } else {
                None
            },
            r matches Some(s) ==> c < s < self.spec_len() && self.parent_at(s as int)
                == self.parent_at(c as int),
    {
        if c == 0 {
            return None;
        }
        proof {
            self.lemma_element(c as int);
            self.lemma_element(self.parent_at(c as int));
        }
        let p = self.elems[c].parent;
        let s = self.elems[c].subtree_end;
        if s < self.elems[p].subtree_end {
            proof {
                self.lemma_next_sibling(c as int);
            }
            Some(s)
        } else {
            None
        }
    }

    /// The first token inside node `n`.
    pub fn first_token(&self, n: SyntaxNode) -> (r: Option<SyntaxToken>)
        requires
            self.wf(),
            self.has_node(n),
        ensures
            self.spec_first_token(n.0 as int) == match r {
                Some(t) => Some(t.0 as int),
                None => None,
            },
            r matches Some(t) ==> self.has_token(t) && n.0 < t.0 < self.end_at(n.0 as int),
    {
        proof {
            self.lemma_element(n.0 as int);
        }
        let end = self.elems[n.0].subtree_end;
        self.find_token(n.0, end)
    }

    /// The first token at a position in `from..to`.
    fn find_token(&self, from: usize, to: usize) -> (r: Option<SyntaxToken>)
        requires
            to <= self.spec_len(),
        ensures
            self.token_from(from as int, to as int) == match r {
                Some(t) => Some(t.0 as int),
                None => None,
            },
            r matches Some(t) ==> self.has_token(t) && from <= t.0 < to,
    {
        let mut j = from;
        while j < to
            invariant
                from <= j,
                to <= self.spec_len(),
                self.token_from(from as int, to as int) == self.token_from(j as int, to as int),
            decreases to - j,
        {
            if self.elems[j].is_token {
                return Some(SyntaxToken(j));
            }
            j += 1;
        }
        None
    }

    /// The last token at a position in `from..to`.
    fn find_token_back(&self, from: usize, to: usize) -> (r: Option<SyntaxToken>)
        requires
            to <= self.spec_len(),
        ensures
            self.token_back(from as int, to as int) == match r {
                Some(t) => Some(t.0 as int),
                None => None,
            },
            r matches Some(t) ==> self.has_token(t) && from <= t.0 < to,
    {
        let mut j = to;
        while j > from
            invariant
                j <= to,
                to <= self.spec_len(),
                self.token_back(from as int, to as int) == self.token_back(from as int, j as int),
            decreases j,
        {
            if self.elems[j - 1].is_token {
                return Some(SyntaxToken(j - 1));
            }
            j -= 1;
        }
        None
    }

    /// The last token inside node `n`.
    pub fn last_token(&self, n: SyntaxNode) -> (r: Option<SyntaxToken>)
        requires
            self.wf(),
            self.has_node(n),
        ensures
            self.spec_last_token(n.0 as int) == match r {
                Some(t) => Some(t.0 as int),
                None => None,
            },
            r matches Some(t) ==> self.has_token(t) && n.0 < t.0 < self.end_at(n.0 as int),
    {
        proof {
            self.lemma_element(n.0 as int);
        }
        let end = self.elems[n.0].subtree_end;
        self.find_token_back(n.0, end)
    }

    /// The token that follows `t` in the text.
    pub fn next_token(&self, t: SyntaxToken) -> (r: Option<SyntaxToken>)
        requires
            self.has_token(t),
        ensures
            self.spec_next_token(t.0 as int) == match r {
                Some(t) => Some(t.0 as int),
                None => None,
            },
            r matches Some(u) ==> self.has_token(u) && t.0 < u.0,
    {
        let len = self.elems.len();
        self.find_token(t.0 + 1, len)
    }

    /// The token that precedes `t` in the text.
    pub fn prev_token(&self, t: SyntaxToken) -> (r: Option<SyntaxToken>)
        requires
            self.has_token(t),
        ensures
            self.spec_prev_token(t.0 as int) == match r {
                Some(t) => Some(t.0 as int),
                None => None,
            },
            r matches Some(u) ==> self.has_token(u) && u.0 < t.0,
    {
        self.find_token_back(0, t.0)
    }

    /// Starting at `token`, walks in the given direction to the first token
    /// that is neither whitespace nor a comment.
    pub fn skip_trivia_token(&self, token: SyntaxToken, direction: Direction) -> (r: Option<
        SyntaxToken,
    >)
        requires
            self.has_token(token),
        ensures
            self.spec_skip_trivia(token.0 as int, direction) == match r {
                Some(t) => Some(t.0 as int),
                None => None,
            },
            r matches Some(t) ==> self.has_token(t) && !self.kind_at(t.0 as int).is_trivia(),
    {
        let mut cur = token;
        while self.elems[cur.0].kind.is_trivia()
            invariant
                self.has_token(cur),
                self.spec_skip_trivia(cur.0 as int, direction) == self.spec_skip_trivia(
                    token.0 as int,
                    direction,
                ),
            decreases
                    match direction {
                        Direction::Next => self.spec_len() - cur.0,
                        Direction::Prev => cur.0 as int,
                    },
        {
            let next = match direction {
                Direction::Next => self.next_token(cur),
                Direction::Prev => self.prev_token(cur),
            };
            proof {
                let t0 = cur.0 as int;
                match direction {
                    Direction::Next => {
                        assert(self.skip_trivia_next(t0) == match self.token_from(
                            t0 + 1,
                            self.spec_len(),
                        ) {
                            None => None,
                            Some(u) => if t0 < u < self.spec_len() {
                                self.skip_trivia_next(u)
                            } else {
                                None
                            },
                        });
                    },
                    Direction::Prev => {
                        assert(self.skip_trivia_prev(t0) == match self.token_back(0, t0) {
                            None => None,
                            Some(u) => if 0 <= u < t0 {
                                self.skip_trivia_prev(u)
                            } else {
                                None
                            },
                        });
                    },
                }
            }
            match next {
                None => {
                    return None;
                },
                Some(t) => {
                    cur = t;
                },
            }
        }
        Some(cur)
    }

    /// The first child of node `n` that has kind `kind`.
    pub fn child_of_kind(&self, n: SyntaxNode, kind: SyntaxKind) -> (r: Option<usize>)
        requires
            self.wf(),
            self.has_node(n),
        ensures
            self.spec_child_of_kind(n.0 as int, kind) == match r {
                Some(c) => Some(c as int),
                None => None,
            },
            r matches Some(c) ==> n.0 < c < self.end_at(n.0 as int) && self.kind_at(c as int)
                == kind,
    {
        let end = self.elems[n.0].subtree_end;
        let mut c = n.0 + 1;
        while c < end
            invariant
                self.wf(),
                n.0 < c,
                end == self.end_at(n.0 as int),
                end <= self.spec_len(),
                self.spec_child_of_kind(n.0 as int, kind) == self.child_of_kind_from(
                    c as int,
                    end as int,
                    kind,
                ),
            decreases end - c,
        {
            if self.elems[c].kind == kind {
                return Some(c);
            }
            c = self.elems[c].subtree_end;
        }
        None
    }

    /// The child number `nth`, counting from 0, among the children of node
    /// `n` that have kind `kind`.
    pub fn nth_child_of_kind(&self, n: SyntaxNode, kind: SyntaxKind, nth: usize) -> (r: Option<
        usize,
    >)
        requires
            self.wf(),
            self.has_node(n),
        ensures
            self.spec_nth_child_of_kind(n.0 as int, kind, nth as int) == match r {
                Some(c) => Some(c as int),
                None => None,
            },
            r matches Some(c) ==> n.0 < c < self.end_at(n.0 as int) && self.kind_at(c as int)
                == kind,
    {
        let end = self.elems[n.0].subtree_end;
        let mut c = n.0 + 1;
        let mut left = nth;
        while c < end
            invariant
                self.wf(),
                n.0 < c,
                end == self.end_at(n.0 as int),
                end <= self.spec_len(),
                self.spec_nth_child_of_kind(n.0 as int, kind, nth as int) == self.nth_of_kind_from(
                    c as int,
                    end as int,
                    kind,
                    left as int,
                ),
            decreases end - c,
        {
            if self.elems[c].kind == kind {
                if left == 0 {
                    return Some(c);
                }
                left -= 1;
            }
            c = self.elems[c].subtree_end;
        }
        None
    }

    /// The last child of node `n` that has kind `kind`.
    pub fn last_child_of_kind(&self, n: SyntaxNode, kind: SyntaxKind) -> (r: Option<usize>)
        requires
            self.wf(),
            self.has_node(n),
        ensures
            self.spec_last_child_of_kind(n.0 as int, kind) == match r {
                Some(c) => Some(c as int),
                None => None,
            },
            r matches Some(c) ==> n.0 < c < self.end_at(n.0 as int) && self.kind_at(c as int)
                == kind,
    {
        proof {
            self.lemma_element(n.0 as int);
        }
        let end = self.elems[n.0].subtree_end;
        let mut c = n.0 + 1;
        let mut found: Option<usize> = None;
        while c < end
            invariant
                self.wf(),
                n.0 < c,
                end == self.end_at(n.0 as int),
                end <= self.spec_len(),
                found matches Some(f) ==> n.0 < f < end && self.kind_at(f as int) == kind,
                self.spec_last_child_of_kind(n.0 as int, kind) == self.last_of_kind_from(
                    c as int,
                    end as int,
                    kind,
                    match found {
                        Some(f) => Some(f as int),
                        None => None,
                    },
                ),
            decreases end - c,
        {
            proof {
                self.lemma_element(c as int);
            }
            let next = self.elems[c].subtree_end;
            if next > end {
                return found;
            }
            if self.elems[c].kind == kind {
                found = Some(c);
            }
            c = next;
        }
        found
    }

    /// The first child of node `n` whose range holds `range`.
    fn child_at_range(&self, n: usize, range: TextRange) -> (r: Option<usize>)
        requires
            self.wf(),
            n < self.spec_len(),
        ensures
            self.child_at_range_from(n + 1, self.end_at(n as int), range) == match r {
                Some(c) => Some(c as int),
                None => None,
            },
            r matches Some(c) ==> n < c < self.end_at(n as int),
    {
        let end = self.elems[n].subtree_end;
        let mut c = n + 1;
        while c < end
            invariant
                self.wf(),
                n < c,
                end == self.end_at(n as int),
                end <= self.spec_len(),
                self.child_at_range_from(n + 1, end as int, range) == self.child_at_range_from(
                    c as int,
                    end as int,
                    range,
                ),
            decreases end - c,
        {
            let e = &self.elems[c];
            if e.start <= range.start() && range.end() <= e.end && range.start() < e.end && e.start
                < range.end() {
                return Some(c);
            }
            c = self.elems[c].subtree_end;
        }
        None
    }

    /// The deepest element of node `n` that is reached by stepping, from `n`
    /// down, into the child whose range holds `range`: a token whose text
    /// covers the range, or the smallest node that does.
    pub fn covering_element(&self, n: SyntaxNode, range: TextRange) -> (r: SyntaxElement)
        requires
            self.wf(),
            self.has_node(n),
        ensures
            r == self.element_at(self.covering_from(n.0 as int, range)),
            r.spec_index() as int == self.covering_from(n.0 as int, range),
            self.has_element(r),
            n.0 <= r.spec_index() < self.end_at(n.0 as int),
    {
        let mut e = n.0;
        loop
            invariant
                self.wf(),
                n.0 <= e < self.end_at(n.0 as int),
                e < self.spec_len(),
                self.covering_from(n.0 as int, range) == self.covering_from(e as int, range),
            ensures
                self.covering_from(n.0 as int, range) == e,
                n.0 <= e < self.end_at(n.0 as int),
                e < self.spec_len(),
            decreases self.spec_len() - e,
        {
            if self.elems[e].is_token {
                break ;
            }
            match self.child_at_range(e, range) {
                None => {
                    break ;
                },
                Some(c) => {
                    proof {
                        self.lemma_element(e as int);
                        if e > n.0 {
                            assert(self.end_at(e as int) <= self.end_at(n.0 as int));
                        }
                        assert(self.covering_from(e as int, range) == self.covering_from(
                            c as int,
                            range,
                        ));
                    }
                    e = c;
                },
            }
        }
        if self.elems[e].is_token {
            SyntaxElement::Token(SyntaxToken(e))
        } else {
            SyntaxElement::Node(SyntaxNode(e))
        }
    }

    /// The ancestors of the element at position `i`, the element itself
    /// first, the root last.
    pub fn ancestors_of(&self, i: usize) -> (r: Vec<usize>)
        requires
            self.wf(),
            i < self.spec_len(),
        ensures
            r@.map_values(|x: usize| x as int) == self.ancestors(i as int),
            forall|k: int| 0 <= k < r.len() ==> r[k] < self.spec_len(),
            forall|k: int| 1 <= k < r.len() ==> !self.token_at(#[trigger] r[k] as int),
            r.len() >= 1,
            r[0] == i,
    {
        let mut out: Vec<usize> = Vec::new();
        let mut cur = i;
        out.push(cur);
        while cur > 0
            invariant
                self.wf(),
                cur < self.spec_len(),
                out.len() >= 1,
                out[0] == i,
                forall|k: int| 0 <= k < out.len() ==> out[k] < self.spec_len(),
                forall|k: int| 1 <= k < out.len() ==> !self.token_at(#[trigger] out[k] as int),
                self.ancestors(i as int) == out@.map_values(|x: usize| x as int).drop_last()
                    + self.ancestors(cur as int),
                out[out.len() - 1] == cur,
            decreases cur,
        {
            let ghost before = out@.map_values(|x: usize| x as int);
            cur = self.elems[cur].parent;
            out.push(cur);
            proof {
                let after = out@.map_values(|x: usize| x as int);
                assert(after.drop_last() =~= before);
                assert(before =~= before.drop_last() + seq![before.last()]);
                assert(self.ancestors(before.last()) =~= seq![before.last()] + self.ancestors(
                    cur as int,
                ));
                assert(self.ancestors(i as int) =~= after.drop_last() + self.ancestors(cur as int));
            }
        }
        proof {
            let m = out@.map_values(|x: usize| x as int);
            assert(self.ancestors(0) =~= seq![0int]);
            assert(m =~= m.drop_last() + seq![0int]);
        }
        out
    }
}

/// Builds a [`SyntaxTree`] from the events of a parse: a node is started,
/// its children follow, and the node is finished.
pub struct SyntaxTreeBuilder {
    state: Pending,
    ok: bool,
}

/// The elements stored so far, the nodes that are started and not finished
/// (outermost first), and the offset that the text has reached.
struct Pending {
    elems: Vec<Element>,
    open: Vec<usize>,
    pos: u32,
}

impl Pending {
    spec fn count(&self) -> int {
        self.elems@.len() as int
    }

    /// Whether node `i` has been started and not finished yet.
    spec fn unfinished(&self, i: int) -> bool {
        self.elems@[i].subtree_end == 0
    }

    /// Where the descendants of element `i` end, as far as they are known.
    spec fn reach(&self, i: int) -> int {
        if self.elems@[i].subtree_end == 0 {
            self.count()
        } else {
            self.elems@[i].subtree_end as int
        }
    }

    spec fn up(&self, i: int) -> int {
        self.elems@[i].parent as int
    }

    spec fn element_inv(&self, i: int) -> bool {
        &&& i < self.reach(i) <= self.count()
        &&& self.elems@[i].is_token ==> self.elems@[i].subtree_end == i + 1
        &&& self.elems@[i].start <= self.pos
        &&& !self.unfinished(i) ==> self.elems@[i].start <= self.elems@[i].end <= self.pos
        &&& i == 0 ==> !self.elems@[i].is_token && self.up(i) == 0
        &&& i > 0 ==> 0 <= self.up(i) < i && !self.elems@[self.up(i)].is_token && self.reach(i)
            <= self.reach(self.up(i))
        &&& i > 0 && self.unfinished(i) ==> self.unfinished(self.up(i))
    }

    spec fn stack_inv(&self) -> bool {
        &&& forall|k: int|
            0 <= k < self.open@.len() ==> (#[trigger] self.open@[k]) < self.count()
                && self.unfinished(self.open@[k] as int)
        &&& forall|k: int, l: int|
            0 <= k < l < self.open@.len() ==> (#[trigger] self.open@[k]) < (
            #[trigger] self.open@[l])
        &&& self.open@.len() > 0 ==> self.open@[0] == 0
        &&& self.open@.len() > 0 ==> forall|i: int|
            self.open@[self.open@.len() - 1] < i < self.count() ==> !(#[trigger] self.unfinished(i))
        &&& forall|k: int, l: int, i: int|
            0 <= k && l == k + 1 && l < self.open@.len() && (#[trigger] self.open@[k]) < i && i < (
            #[trigger] self.open@[l]) ==> !(#[trigger] self.unfinished(i))
        &&& self.open@.len() == 0 ==> forall|i: int|
            0 <= i < self.count() ==> !(#[trigger] self.unfinished(i))
        &&& self.open@.len() == 0 && self.count() > 0 ==> self.elems@[0].subtree_end
            == self.count()
    }

    /// What holds of the elements stored so far.
    spec fn inv(&self) -> bool {
        &&& self.stack_inv()
        &&& forall|i: int| 0 <= i < self.count() ==> #[trigger] self.element_inv(i)
        &&& forall|i: int, j: int|
            0 < i < self.count() && (#[trigger] self.up(i)) < j < i ==> (#[trigger] self.reach(j))
                <= i
        &&& forall|i: int, j: int|
            0 <= i < j < self.count() && j < (#[trigger] self.reach(i)) ==> (#[trigger] self.reach(
                j,
            )) <= self.reach(i)
        &&& forall|i: int, j: int|
            0 <= i < j < self.count() && !self.unfinished(i) && (#[trigger] self.unfinished(j))
                ==> (#[trigger] self.reach(i)) <= j
    }

    /// A token added to the node that was started last keeps what holds of
    /// the elements stored.
    proof fn lemma_token_pushed(pre: &Pending, post: &Pending)
        requires
            pre.inv(),
            pre.open@.len() > 0,
            post.open@ == pre.open@,
            post.elems@.len() == pre.elems@.len() + 1,
            forall|i: int| 0 <= i < pre.elems@.len() ==> post.elems@[i] == pre.elems@[i],
            post.elems@.last().is_token,
            post.elems@.last().parent == pre.open@.last(),
            post.elems@.last().subtree_end == pre.elems@.len() + 1,
            post.elems@.last().start == pre.pos,
            post.elems@.last().end == post.pos,
            pre.pos <= post.pos,
        ensures
            post.inv(),
    {
        let n = pre.elems@.len() as int;
        let depth = pre.open@.len() as int;
        assert(pre.element_inv(pre.open@[depth - 1] as int));

            
            assert(post.open@ == pre.open@);
            assert forall|i: int| 0 <= i < post.count() implies #[trigger] post.element_inv(i) by {
                if i < n {
                    assert(pre.element_inv(i));
                    if i > 0 {
                        assert(pre.element_inv(pre.up(i)));
                    }
                }
            }
            assert forall|i: int, j: int|
                0 < i < post.count() && (#[trigger] post.up(i)) < j < i implies (
            #[trigger] post.reach(j)) <= i by {
                if i < n {
                    assert(pre.up(i) < j < i);
                    assert(pre.reach(j) <= i);
                } else {
                    assert(pre.element_inv(j));
                    assert(!pre.unfinished(j));
                }
            }
            assert forall|i: int, j: int|
                0 <= i < j < post.count() && j < (#[trigger] post.reach(i)) implies (
            #[trigger] post.reach(j)) <= post.reach(i) by {
                assert(post.element_inv(i));
                assert(post.element_inv(j));
                if j < n {
                    assert(pre.element_inv(i));
                    assert(pre.element_inv(j));
                    if !pre.unfinished(i) {
                        assert(pre.reach(j) <= pre.reach(i));
                        if pre.unfinished(j) {
                            assert(pre.reach(i) <= j);
                        }
                    }
                }
            }
            assert forall|i: int, j: int|
                0 <= i < j < post.count() && !post.unfinished(i) && (#[trigger] post.unfinished(
                    j,
                )) implies (#[trigger] post.reach(i)) <= j by {
                assert(pre.element_inv(i));
                assert(pre.unfinished(j));
                assert(pre.reach(i) <= j);
            }
            assert(post.stack_inv()) by {
                assert forall|i: int|
                    post.open@[post.open@.len() - 1] < i < post.count() implies !(
                #[trigger] post.unfinished(i)) by {
                    if i < n {
                        assert(!pre.unfinished(i));
                    }
                }
                assert forall|k: int, l: int, i: int|
                    0 <= k && l == k + 1 && l < post.open@.len() && (#[trigger] post.open@[k]) < i
                        && i < (#[trigger] post.open@[l]) implies !(#[trigger] post.unfinished(
                    i,
                )) by {
                    assert(pre.open@[l] < n);
                    assert(!pre.unfinished(i));
                }
            }
    }

}

/// What a [`SyntaxTreeBuilder`] holds: the elements stored so far (a node
/// that is not finished has 0 as its `subtree_end`), the nodes that are
/// started and not finished (outermost first), the offset that the text has
/// reached, and whether every event so far was in order.
pub struct BuilderView {
    pub elems: Seq<ElementView>,
    pub open: Seq<int>,
    pub pos: u32,
    pub ok: bool,
}

impl BuilderView {
    /// A builder that holds nothing yet.
    pub open spec fn start() -> BuilderView {
        BuilderView { elems: Seq::empty(), open: Seq::empty(), pos: 0, ok: true }
    }

    /// Whether the events so far make up one whole tree.
    pub open spec fn complete(self) -> bool {
        self.ok && self.open.len() == 0 && self.elems.len() > 0
    }

    /// After a node of kind `kind` was started. A second root is out of
    /// order.
    pub open spec fn start_node(self, kind: SyntaxKind) -> BuilderView {
        if !self.ok || (self.open.len() == 0 && self.elems.len() > 0) {
            BuilderView { ok: false, ..self }
        } else {
            BuilderView {
                elems: self.elems.push(
                    ElementView {
                        kind,
                        is_token: false,
                        parent: if self.open.len() == 0 {
                            0
                        } else {
                            self.open.last()
                        },
                        subtree_end: 0,
                        start: self.pos,
                        end: self.pos,
                        text: Seq::empty(),
                    },
                ),
                open: self.open.push(self.elems.len() as int),
                ..self
            }
        }
    }

    /// After a token of kind `kind` with the text `text` was added to the
    /// node that was started last. A token outside every node is out of
    /// order, and so is one whose end or position cannot be addressed.
    pub open spec fn token(self, kind: SyntaxKind, text: Seq<char>) -> BuilderView {
        if !self.ok || self.open.len() == 0 || self.pos + byte_len(text) > u32::MAX
            || self.elems.len() >= usize::MAX {
            BuilderView { ok: false, ..self }
        } else {
            BuilderView {
                elems: self.elems.push(
                    ElementView {
                        kind,
                        is_token: true,
                        parent: self.open.last(),
                        subtree_end: self.elems.len() as int + 1,
                        start: self.pos,
                        end: (self.pos + byte_len(text)) as u32,
                        text,
                    },
                ),
                pos: (self.pos + byte_len(text)) as u32,
                ..self
            }
        }
    }

    /// After the node that was started last was finished: its descendants
    /// end where the elements end, its text where the text has got to. With
    /// no node started this is out of order.
    pub open spec fn finish_node(self) -> BuilderView {
        if !self.ok || self.open.len() == 0 {
            BuilderView { ok: false, ..self }
        } else {
            let t = self.open.last();
            BuilderView {
                elems: self.elems.update(
                    t,
                    ElementView {
                        subtree_end: self.elems.len() as int,
                        end: self.pos,
                        ..self.elems[t]
                    },
                ),
                open: self.open.drop_last(),
                ..self
            }
        }
    }
}

impl View for SyntaxTreeBuilder {
    type V = BuilderView;

    closed spec fn view(&self) -> BuilderView {
        BuilderView {
            elems: self.state.elems@.map_values(|e: Element| e@),
            open: self.state.open@.map_values(|x: usize| x as int),
            pos: self.state.pos,
            ok: self.ok,
        }
    }
}

impl SyntaxTreeBuilder {
    /// What holds of the elements stored so far, whatever the events were.
    pub closed spec fn inv(&self) -> bool {
        self.state.inv()
    }

    /// A builder that holds nothing yet.
    pub fn new() -> (r: SyntaxTreeBuilder)
        ensures
            r.inv(),
            r@ == BuilderView::start(),
    {
        let r = SyntaxTreeBuilder {
            state: Pending { elems: Vec::new(), open: Vec::new(), pos: 0 },
            ok: true,
        };
        proof {
            assert(r@.elems =~= Seq::<ElementView>::empty());
            assert(r@.open =~= Seq::<int>::empty());
        }
        r
    }

    /// Whether every event so far was in order.
    pub fn is_ok(&self) -> (r: bool)
        ensures
            r == self@.ok,
    {
        self.ok
    }

    /// The offset in the text that the next token will begin at.
    pub fn pos(&self) -> (r: u32)
        ensures
            r == self@.pos,
    {
        self.state.pos
    }

    /// Starts a node of kind `kind`. A second root is out of order.
    pub fn start_node(&mut self, kind: SyntaxKind)
        requires
            old(self).inv(),
        ensures
            final(self).inv(),
            final(self)@ == old(self)@.start_node(kind),
    {
        let n = self.state.elems.len();
        let depth = self.state.open.len();
        if !self.ok || (depth == 0 && n > 0) {
            self.ok = false;
            return ;
        }
        let parent = if depth == 0 {
            0
        } else {
            self.state.open[depth - 1]
        };
        proof {
            if depth > 0 {
                assert(self.state.element_inv(parent as int));
            }
        }
        self.state.elems.push(
            Element {
                kind,
                is_token: false,
                parent,
                subtree_end: 0,
                start: self.state.pos,
                end: self.state.pos,
                text: String::new(),
            },
        );
        self.state.open.push(n);
        proof {
            assert(self@.elems =~= old(self)@.start_node(kind).elems);
            assert(self@.open =~= old(self)@.start_node(kind).open);
            let pre = old(self).state;
            assert forall|i: int| 0 <= i < self.state.count() implies #[trigger] self.state.element_inv(i) by {
                if i < n {
                    assert(pre.element_inv(i));
                    if i > 0 {
                        assert(pre.element_inv(pre.up(i)));
                    }
                }
            }
            assert forall|i: int, j: int|
                0 < i < self.state.count() && (#[trigger] self.state.up(i)) < j < i implies (
            #[trigger] self.state.reach(j)) <= i by {
                if i < n {
                    assert(pre.up(i) < j < i);
                    assert(pre.reach(j) <= i);
                } else {
                    assert(pre.element_inv(j));
                    assert(!pre.unfinished(j));
                }
            }
            assert forall|i: int, j: int|
                0 <= i < j < self.state.count() && j < (#[trigger] self.state.reach(i)) implies (
            #[trigger] self.state.reach(j)) <= self.state.reach(i) by {
                assert(self.state.element_inv(i));
                assert(self.state.element_inv(j));
                if j < n {
                    assert(pre.element_inv(i));
                    assert(pre.element_inv(j));
                    if !pre.unfinished(i) {
                        assert(pre.reach(j) <= pre.reach(i));
                        if pre.unfinished(j) {
                            assert(pre.reach(i) <= j);
                        }
                    }
                }
            }
            assert forall|i: int, j: int|
                0 <= i < j < self.state.count() && !self.state.unfinished(i) && (#[trigger] self.state.unfinished(
                    j,
                )) implies (#[trigger] self.state.reach(i)) <= j by {
                assert(pre.element_inv(i));
                if j < n {
                    assert(pre.unfinished(j));
                    assert(pre.reach(i) <= j);
                }
            }
            assert(self.state.stack_inv()) by {
                assert forall|k: int, l: int, i: int|
                    0 <= k && l == k + 1 && l < self.state.open@.len() && (
                    #[trigger] self.state.open@[k]) < i && i < (
                    #[trigger] self.state.open@[l]) implies !(#[trigger] self.state.unfinished(
                    i,
                )) by {
                    assert(pre.open@[k] == self.state.open@[k]);
                    if l < depth {
                        assert(pre.open@[l] == self.state.open@[l]);
                    }
                    assert(!pre.unfinished(i));
                }
                assert forall|k: int, l: int| 0 <= k < l < self.state.open@.len() implies (
                #[trigger] self.state.open@[k]) < (#[trigger] self.state.open@[l]) by {
                    if l < depth {
                        assert(pre.open@[k] < pre.open@[l]);
                    } else {
                        assert(pre.open@[k] < n);
                    }
                }
            }
        }
    }

    /// Adds a token of kind `kind` with the text `text` to the node that was
    /// started last. A token outside every node is out of order, and so is
    /// one whose end cannot be addressed.
    pub fn token(&mut self, kind: SyntaxKind, text: &str)
        requires
            old(self).inv(),
        ensures
            final(self).inv(),
            final(self)@ == old(self)@.token(kind, text@),
    {
        let n = self.state.elems.len();
        let depth = self.state.open.len();
        let len = text_len(text);
        if !self.ok || depth == 0 || len > (u32::MAX - self.state.pos) as usize || n == usize::MAX {
            self.ok = false;
            return ;
        }
        let parent = self.state.open[depth - 1];
        let end = self.state.pos + len as u32;
        proof {
            assert(self.state.element_inv(parent as int));
        }
        self.state.elems.push(
            Element {
                kind,
                is_token: true,
                parent,
                subtree_end: n + 1,
                start: self.state.pos,
                end,
                text: text.to_owned(),
            },
        );
        self.state.pos = end;
        proof {
            assert(self@.elems =~= old(self)@.token(kind, text@).elems);
            assert(self@.open =~= old(self)@.open);
            Pending::lemma_token_pushed(&old(self).state, &self.state);
        }
    }

    /// Finishes the node that was started last. With no node started this
    /// is out of order.
    pub fn finish_node(&mut self)
        requires
            old(self).inv(),
        ensures
            final(self).inv(),
            final(self)@ == old(self)@.finish_node(),
    {
        let depth = self.state.open.len();
        if !self.ok || depth == 0 {
            self.ok = false;
            return ;
        }
        let n = self.state.elems.len();
        let t = self.state.open[depth - 1];
        proof {
            assert(self.state.element_inv(t as int));
        }
        let kind = self.state.elems[t].kind;
        let parent = self.state.elems[t].parent;
        let start = self.state.elems[t].start;
        let text = self.state.elems[t].text.clone();
        self.state.open.pop();
        self.state.elems.set(
            t,
            Element {
                kind,
                is_token: false,
                parent,
                subtree_end: n,
                start,
                end: self.state.pos,
                text,
            },
        );
        proof {
            assert(self@.elems =~= old(self)@.finish_node().elems);
            assert(self@.open =~= old(self)@.finish_node().open);
            let pre = old(self).state;
            assert forall|i: int| 0 <= i < self.state.count() implies self.state.reach(i) == pre.reach(i)
                && self.state.up(i) == pre.up(i) by {}
            assert forall|i: int| 0 <= i < self.state.count() && i != t implies self.state.unfinished(i)
                == pre.unfinished(i) by {}
            assert forall|i: int| t < i < self.state.count() implies !pre.unfinished(i) by {
                assert(pre.open@[depth - 1] == t);
            }
            assert forall|i: int| 0 <= i < self.state.count() implies #[trigger] self.state.element_inv(i) by {
                assert(pre.element_inv(i));
                if i > 0 {
                    assert(pre.element_inv(pre.up(i)));
                    assert(self.state.reach(pre.up(i)) == pre.reach(pre.up(i)));
                }
            }
            assert forall|i: int, j: int|
                0 < i < self.state.count() && (#[trigger] self.state.up(i)) < j < i implies (
            #[trigger] self.state.reach(j)) <= i by {
                assert(pre.up(i) < j < i);
                assert(pre.reach(j) <= i);
            }
            assert forall|i: int, j: int|
                0 <= i < j < self.state.count() && j < (#[trigger] self.state.reach(i)) implies (
            #[trigger] self.state.reach(j)) <= self.state.reach(i) by {
                assert(j < pre.reach(i));
                assert(pre.reach(j) <= pre.reach(i));
            }
            assert forall|i: int, j: int|
                0 <= i < j < self.state.count() && !self.state.unfinished(i) && (#[trigger] self.state.unfinished(
                    j,
                )) implies (#[trigger] self.state.reach(i)) <= j by {
                if i != t {
                    assert(pre.unfinished(j));
                    assert(pre.reach(i) <= j);
                } else {
                    assert(pre.open@[depth - 1] == t);
                    assert(!pre.unfinished(j));
                }
            }
            assert(self.state.stack_inv()) by {
                assert forall|k: int|
                    0 <= k < self.state.open@.len() implies (#[trigger] self.state.open@[k]) < self.state.count()
                    && self.state.unfinished(self.state.open@[k] as int) by {
                    assert(pre.open@[k] == self.state.open@[k]);
                    assert(pre.open@[k] < pre.open@[depth - 1]);
                }
                assert forall|k: int, l: int| 0 <= k < l < self.state.open@.len() implies (
                #[trigger] self.state.open@[k]) < (#[trigger] self.state.open@[l]) by {
                    assert(pre.open@[k] < pre.open@[l]);
                }
                if self.state.open@.len() > 0 {
                    assert forall|i: int|
                        self.state.open@[self.state.open@.len() - 1] < i
                            < self.state.count() implies !(#[trigger] self.state.unfinished(
                        i,
                    )) by {
                        assert(pre.open@[depth - 2] == self.state.open@[depth - 2]);
                        assert(pre.open@[depth - 1] == t);
                        if i < t {
                            assert(!pre.unfinished(i));
                        }
                    }
                }
                assert forall|k: int, l: int, i: int|
                    0 <= k && l == k + 1 && l < self.state.open@.len() && (
                    #[trigger] self.state.open@[k]) < i && i < (
                    #[trigger] self.state.open@[l]) implies !(#[trigger] self.state.unfinished(
                    i,
                )) by {
                    assert(pre.open@[k] == self.state.open@[k]);
                    assert(pre.open@[l] == self.state.open@[l]);
                    assert(!pre.unfinished(i));
                    assert(pre.open@[l] < pre.open@[depth - 1]);
                }
                if self.state.open@.len() == 0 {
                    assert(pre.open@[0] == 0);
                    assert(t == 0);
                }
            }
        }
    }

    /// The tree, where the events made up one whole tree; nothing where
    /// some event was out of order or a node is still unfinished.
    pub fn finish(self) -> (r: Option<SyntaxTree>)
        requires
            self.inv(),
        ensures
            r.is_some() == self@.complete(),
            r matches Some(tree) ==> tree.wf() && tree@ == self@.elems,
    {
        if !self.ok || self.state.open.len() != 0 || self.state.elems.len() == 0 {
            return None;
        }
        let tree = SyntaxTree { elems: self.state.elems };
        proof {
            assert(tree@ =~= self@.elems);
            assert forall|i: int| 0 <= i < tree.spec_len() implies !self.state.unfinished(i)
                && tree.end_at(i) == self.state.reach(i) && tree.parent_at(i) == self.state.up(i)
                && self.state.element_inv(i) by {}
            assert(self.state.element_inv(0));
            assert forall|i: int| 0 <= i && i < tree.spec_len() implies (
            #[trigger] tree.range_start(i)) <= tree.range_end(i) by {
                assert(self.state.element_inv(i));
            }
            assert forall|i: int| 0 < i && i < tree.spec_len() implies 0 <= (
            #[trigger] tree.parent_at(i)) && tree.parent_at(i) < i && !tree.token_at(
                tree.parent_at(i),
            ) && tree.end_at(i) <= tree.end_at(tree.parent_at(i)) by {
                assert(self.state.element_inv(i));
                assert(self.state.element_inv(self.state.up(i)));
            }
            assert forall|i: int, j: int|
                0 < i && i < tree.spec_len() && (#[trigger] tree.parent_at(i)) < j && j
                    < i implies (#[trigger] tree.end_at(j)) <= i by {
                assert(self.state.element_inv(i));
                assert(self.state.up(i) < j < i);
                assert(self.state.reach(j) <= i);
            }
            assert forall|i: int, j: int|
                0 <= i && i < j && j < tree.spec_len() && j < (
                #[trigger] tree.end_at(i)) implies (#[trigger] tree.end_at(j)) <= tree.end_at(
                i,
            ) by {
                assert(j < self.state.reach(i));
                assert(self.state.reach(j) <= self.state.reach(i));
            }
        }
        Some(tree)
    }
}

} // verus!
