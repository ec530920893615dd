//! The way back from a token tree to a syntax tree: a parser reads the
//! tokens of the tree and reports what it makes of them, event by event;
//! the events are turned into a syntax tree with its text and into the
//! token map that tells where in that text each token of the tree stands.

use crate::collections::{
    counters, counters_len, counters_new, counters_pop, counters_push, offsets, offsets_get,
    offsets_insert, offsets_new, Counters,
};
use crate::syntax::{BuilderView, SyntaxTree, SyntaxTreeBuilder};
use crate::syntax_kind::SyntaxKind;
use crate::text::{byte_len, text_len, TextRange};
use crate::token_map::{Entries, TokenMap, TokenTextRange};
use crate::tt::{
    lemma_subtree_view, views, Delimiter, DelimiterKind, Leaf, LeafView, Spacing, Subtree,
    SubtreeView, TokenTree, TokenTreeView,
};
use rustc_hash::FxHashMap;
use vstd::prelude::*;

verus! {

broadcast use {crate::text::TextRange::lemma_spec_new, vstd::string::group_string_axioms};

/// Why an expansion failed.
#[derive(Debug, PartialEq, Eq, Hash)]
pub enum ExpandError {
    /// The token tree that an expander gave does not make one syntax tree.
    ConversionError,
    /// The procedural macro that was called is not at hand.
    UnresolvedProcMacro,
    /// What an expander reported.
    Other(String),
}

/// One entry of a token tree laid out flat: a leaf, the opening of a
/// subtree (with the number of entries between it and its closing), or the
/// closing of a subtree.
pub enum FlatEntry {
    Leaf(Leaf),
    Open { delimiter: Option<Delimiter>, inner_len: usize },
    Close { delimiter: Option<Delimiter> },
}

/// What a [`FlatEntry`] is.
pub enum FlatView {
    Leaf(LeafView),
    Open { delimiter: Option<Delimiter>, inner_len: int },
    Close { delimiter: Option<Delimiter> },
}

impl View for FlatEntry {
    type V = FlatView;

    open spec fn view(&self) -> FlatView {
        match self {
            FlatEntry::Leaf(l) => FlatView::Leaf(l@),
            FlatEntry::Open { delimiter, inner_len } => FlatView::Open {
                delimiter: *delimiter,
                inner_len: *inner_len as int,
            },
            FlatEntry::Close { delimiter } => FlatView::Close { delimiter: *delimiter },
        }
    }
}

/// What a run of flat entries is.
pub open spec fn flat_views(entries: Seq<FlatEntry>) -> Seq<FlatView> {
    Seq::new(entries.len(), |i: int| entries[i]@)
}

/// The token tree `t` laid out flat.
pub open spec fn flat_tree(t: TokenTreeView) -> Seq<FlatView>
    decreases t, 0int,
{
    match t {
        TokenTreeView::Leaf(l) => seq![FlatView::Leaf(l)],
        TokenTreeView::Subtree(s) => flat_subtree(s),
    }
}

/// The subtree `s` laid out flat: its opening, what it holds, its closing.
pub open spec fn flat_subtree(s: SubtreeView) -> Seq<FlatView>
    decreases s, 0int,
{
    let inner = flat_trees(s.token_trees, s.token_trees.len() as int);
    seq![FlatView::Open { delimiter: s.delimiter, inner_len: inner.len() as int }] + inner + seq![
        FlatView::Close { delimiter: s.delimiter },
    ]
}

/// The first `n` of `trees` laid out flat, one after the other.
pub open spec fn flat_trees(trees: Seq<TokenTreeView>, n: int) -> Seq<FlatView>
    decreases trees, n,
{
    if n <= 0 || n > trees.len() {
        Seq::empty()
    } else {
        flat_trees(trees, n - 1) + flat_tree(trees[n - 1])
    }
}

/// The entries that a parser walks over for the token tree `tt`: the tree
/// laid out flat, without the opening and the closing of a tree that has
/// no delimiters.
pub open spec fn buffer_of(tt: SubtreeView) -> Seq<FlatView> {
    if tt.delimiter.is_none() {
        flat_trees(tt.token_trees, tt.token_trees.len() as int)
    } else {
        flat_subtree(tt)
    }
}

/// Lays `trees` out flat behind what `out` holds.
fn flatten_trees(trees: &Vec<TokenTree>, out: &mut Vec<FlatEntry>)
    ensures
        flat_views(final(out)@) == flat_views(old(out)@) + flat_trees(
            views(trees@),
            trees@.len() as int,
        ),
    decreases trees,
{
    let ghost start = flat_views(out@);
    let ghost all = views(trees@);
    let mut i: usize = 0;
    proof {
        assert(start + flat_trees(all, 0) =~= start);
    }
    while i < trees.len()
        invariant
            i <= trees@.len(),
            all == views(trees@),
            flat_views(out@) == start + flat_trees(all, i as int),
        decreases trees@.len() - i,
    {
        let ghost before = flat_views(out@);
        match &trees[i] {
            TokenTree::Leaf(l) => {
                let ghost prev = out@;
                out.push(FlatEntry::Leaf(l.duplicate()));
                proof {
                    assert(flat_views(out@) =~= flat_views(prev).push(FlatView::Leaf(l@)));
                    assert(flat_tree(all[i as int]) =~= seq![FlatView::Leaf(l@)]);
                    assert(before.push(FlatView::Leaf(l@)) =~= start + (flat_trees(all, i as int)
                        + flat_tree(all[i as int])));
                }
            },
            TokenTree::Subtree(s) => {
                flatten_subtree(s, out);
                proof {
                    assert(flat_tree(all[i as int]) == flat_subtree(s@));
                    assert(before + flat_subtree(s@) =~= start + (flat_trees(all, i as int)
                        + flat_tree(all[i as int])));
                }
            },
        }
        i += 1;
    }
}

/// Lays the subtree `s` out flat behind what `out` holds.
fn flatten_subtree(s: &Subtree, out: &mut Vec<FlatEntry>)
    ensures
        flat_views(final(out)@) == flat_views(old(out)@) + flat_subtree(s@),
    decreases s,
{
    let ghost start = flat_views(out@);
    let idx = out.len();
    out.push(FlatEntry::Open { delimiter: s.delimiter, inner_len: 0 });
    let ghost opened = out@;
    flatten_trees(&s.token_trees, out);
    let ghost filled = out@;
    proof {
        assert(flat_views(opened).len() == opened.len());
        assert(flat_views(filled).len() == filled.len());
    }
    let inner_len = out.len() - idx - 1;
    out.set(idx, FlatEntry::Open { delimiter: s.delimiter, inner_len });
    let ghost patched = out@;
    out.push(FlatEntry::Close { delimiter: s.delimiter });
    proof {
        lemma_subtree_view(s);
        let inner = flat_trees(views(s.token_trees@), s.token_trees@.len() as int);
        assert(flat_views(opened).len() == idx + 1);
        assert(flat_views(filled) == flat_views(opened) + inner);
        assert(inner.len() == inner_len);
        let want = start + flat_subtree(s@);
        let got = flat_views(out@);
        assert(got.len() == want.len());
        assert forall|k: int| 0 <= k < got.len() implies got[k] == want[k] by {
            if k < idx {
                assert(out@[k] == filled[k]);
                assert(flat_views(filled)[k] == flat_views(opened)[k]);
                assert(flat_views(opened)[k] == start[k]);
            } else if k == idx {
            } else if k < idx + 1 + inner_len {
                assert(out@[k] == filled[k]);
                assert(flat_views(filled)[k] == inner[k - idx - 1]);
            } else {
            }
        }
        assert(got =~= want);
    }
}

/// The entries that a parser walks over for the token tree `tt`.
pub fn token_buffer(tt: &Subtree) -> (r: Vec<FlatEntry>)
    ensures
        flat_views(r@) == buffer_of(tt@),
{
    let mut out: Vec<FlatEntry> = Vec::new();
    proof {
        lemma_subtree_view(tt);
        assert(flat_views(out@) =~= Seq::<FlatView>::empty());
    }
    if tt.delimiter.is_none() {
        flatten_trees(&tt.token_trees, &mut out);
        proof {
            assert(Seq::<FlatView>::empty() + buffer_of(tt@) =~= buffer_of(tt@));
        }
    } else {
        flatten_subtree(tt, &mut out);
        proof {
            assert(Seq::<FlatView>::empty() + buffer_of(tt@) =~= buffer_of(tt@));
        }
    }
    out
}

/// What a parser reports while it reads tokens: that some of them make a
/// token of a kind, that a node begins or ends, or that something is wrong.
#[derive(Debug, PartialEq, Eq, Hash)]
pub enum ParseEvent {
    Token { kind: SyntaxKind, n_tokens: u8 },
    StartNode { kind: SyntaxKind },
    FinishNode,
    Error { message: String },
}

/// What a [`ParseEvent`] is.
pub enum ParseEventView {
    Token { kind: SyntaxKind, n_tokens: u8 },
    StartNode { kind: SyntaxKind },
    FinishNode,
    Error { message: Seq<char> },
}

impl View for ParseEvent {
    type V = ParseEventView;

    open spec fn view(&self) -> ParseEventView {
        match self {
            ParseEvent::Token { kind, n_tokens } => ParseEventView::Token {
                kind: *kind,
                n_tokens: *n_tokens,
            },
            ParseEvent::StartNode { kind } => ParseEventView::StartNode { kind: *kind },
            ParseEvent::FinishNode => ParseEventView::FinishNode,
            ParseEvent::Error { message } => ParseEventView::Error { message: message@ },
        }
    }
}

/// What a run of events is.
pub open spec fn event_views(events: Seq<ParseEvent>) -> Seq<ParseEventView> {
    Seq::new(events.len(), |i: int| events[i]@)
}

/// An error that a parser reported, with the offset in the text that had
/// been reached.
#[derive(Debug, PartialEq, Eq, Hash)]
pub struct SyntaxError {
    pub message: String,
    pub offset: u32,
}

impl View for SyntaxError {
    type V = (Seq<char>, u32);

    open spec fn view(&self) -> (Seq<char>, u32) {
        (self.message@, self.offset)
    }
}

/// What a run of errors is.
pub open spec fn error_views(errors: Seq<SyntaxError>) -> Seq<(Seq<char>, u32)> {
    Seq::new(errors.len(), |i: int| errors[i]@)
}

/// A syntax tree together with the errors that the parser reported.
pub struct Parse {
    pub tree: SyntaxTree,
    pub errors: Vec<SyntaxError>,
}

/// The text of a delimiter: the opening or the closing character of its
/// kind, and nothing where there is no delimiter.
pub open spec fn spec_delim_text(d: Option<Delimiter>, closing: bool) -> Seq<char> {
    match d {
        Some(d) => if closing {
            seq![d.kind.spec_close_char()]
        } else {
            seq![d.kind.spec_open_char()]
        },
        None => Seq::empty(),
    }
}

/// Where a walk over `entries` stands after it passed the entry at `p` and,
/// for the opening of a subtree, all that the subtree holds.
pub open spec fn spec_bump(entries: Seq<FlatView>, p: int) -> int {
    if p < 0 || p >= entries.len() {
        p
    } else {
        match entries[p] {
            FlatView::Open { inner_len, .. } => if p + inner_len + 2 <= entries.len() {
                p + inner_len + 2
            } else {
                entries.len() as int
            },
            _ => p + 1,
        }
    }
}

/// The state of the conversion: where the walk over the token tree stands,
/// the offset that the text has reached, the syntax tree as far as it is
/// built, the token map, where each delimiter that is open was opened, how
/// many nodes are unfinished below each root, the errors reported, and
/// whether something made the conversion fail.
pub struct SinkState {
    pub cursor: int,
    pub text_pos: u32,
    pub builder: BuilderView,
    pub map: Entries,
    pub open_delims: Map<u32, u32>,
    pub roots: Seq<usize>,
    pub errors: Seq<(Seq<char>, u32)>,
    pub failed: bool,
}

impl SinkState {
    pub open spec fn start() -> SinkState {
        SinkState {
            cursor: 0,
            text_pos: 0,
            builder: BuilderView::start(),
            map: Seq::empty(),
            open_delims: Map::empty(),
            roots: Seq::empty(),
            errors: Seq::empty(),
            failed: false,
        }
    }

    /// The state after the entry at the cursor was taken, and the text that
    /// the entry adds to the token that is being put together. A leaf gets
    /// its range in the token map; an opening delimiter is remembered with
    /// the offset reached; a closing one gets, with the offset of its
    /// opening, its pair of ranges in the token map. A text that would pass
    /// the largest offset makes the conversion fail and is left out.
    pub open spec fn take(self, entries: Seq<FlatView>) -> (SinkState, Seq<char>) {
        let p = self.cursor;
        let text = match entries[p] {
            FlatView::Leaf(leaf) => leaf.text(),
            FlatView::Open { delimiter, .. } => spec_delim_text(delimiter, false),
            FlatView::Close { delimiter } => spec_delim_text(delimiter, true),
        };
        let moved = SinkState { cursor: p + 1, ..self };
        if self.text_pos + byte_len(text) > u32::MAX {
            (SinkState { failed: true, ..moved }, Seq::empty())
        } else {
            let end = (self.text_pos + byte_len(text)) as u32;
            let noted = match entries[p] {
                FlatView::Leaf(leaf) => SinkState {
                    map: self.map.push(
                        (leaf.id(), TokenTextRange::Token(TextRange::spec_new(self.text_pos, end))),
                    ),
                    ..moved
                },
                FlatView::Open { delimiter, .. } => match delimiter {
                    Some(d) => SinkState {
                        open_delims: self.open_delims.insert(d.id.0, self.text_pos),
                        ..moved
                    },
                    None => moved,
                },
                FlatView::Close { delimiter } => match delimiter {
                    Some(d) => if self.open_delims.contains_key(d.id.0) && self.open_delims[d.id.0]
                        < u32::MAX && self.text_pos < u32::MAX {
                        SinkState {
                            map: self.map.push(
                                (
                                    d.id,
                                    TokenTextRange::Delimiter(
                                        TextRange::spec_at(self.open_delims[d.id.0], 1),
                                        Some(TextRange::spec_at(self.text_pos, 1)),
                                    ),
                                ),
                            ),
                            ..moved
                        }
                    } else {
                        moved
                    },
                    None => moved,
                },
            };
            (SinkState { text_pos: end, ..noted }, text)
        }
    }

    /// The state after up to `n` entries were taken, the text that they
    /// add to `buf`, and the position of the entry that was taken last
    /// (`last` where none was).
    pub open spec fn eat(self, entries: Seq<FlatView>, buf: Seq<char>, last: int, n: int) -> (
        SinkState,
        Seq<char>,
        int,
    )
        decreases n,
    {
        if n <= 0 || self.cursor < 0 || self.cursor >= entries.len() {
            (self, buf, last)
        } else {
            let (next, text) = self.take(entries);
            next.eat(entries, buf + text, self.cursor, n - 1)
        }
    }

    /// Whether a blank follows the token whose last entry stands at `last`:
    /// it does between two punctuation leaves of which the first stands
    /// alone and is no semicolon.
    pub open spec fn blank_after(entries: Seq<FlatView>, last: int) -> bool {
        let next = spec_bump(entries, last);
        &&& 0 <= last < entries.len()
        &&& 0 <= next < entries.len()
        &&& entries[last] matches FlatView::Leaf(LeafView::Punct(curr))
        &&& entries[next] matches FlatView::Leaf(LeafView::Punct(_))
        &&& curr.spacing == Spacing::Alone
        &&& curr.char != ';'
    }

    /// The state after the parser reported a token of kind `kind` made of
    /// `n_tokens` entries.
    pub open spec fn on_token(self, entries: Seq<FlatView>, kind: SyntaxKind, n_tokens: u8) -> SinkState {
        if kind == SyntaxKind::L_DOLLAR || kind == SyntaxKind::R_DOLLAR {
            if 0 <= self.cursor < entries.len() {
                SinkState { cursor: self.cursor + 1, ..self }
            } else {
                self
            }
        } else {
            let n = if kind == SyntaxKind::LIFETIME_IDENT {
                2
            } else {
                n_tokens as int
            };
            let (eaten, buf, last) = self.eat(entries, Seq::empty(), self.cursor, n);
            let told = SinkState { builder: eaten.builder.token(kind, buf), ..eaten };
            if SinkState::blank_after(entries, last) {
                if told.text_pos < u32::MAX {
                    SinkState {
                        builder: told.builder.token(SyntaxKind::WHITESPACE, seq![' ']),
                        text_pos: (told.text_pos + 1) as u32,
                        ..told
                    }
                } else {
                    SinkState { failed: true, ..told }
                }
            } else {
                told
            }
        }
    }

    /// The state after the parser reported the start of a node.
    pub open spec fn on_start_node(self, kind: SyntaxKind) -> SinkState {
        let built = SinkState { builder: self.builder.start_node(kind), ..self };
        if self.roots.len() == 0 || self.roots.last() == 0 {
            SinkState { roots: self.roots.push(1), ..built }
        } else if self.roots.last() == usize::MAX {
            SinkState { failed: true, ..built }
        } else {
            SinkState {
                roots: self.roots.drop_last().push((self.roots.last() + 1) as usize),
                ..built
            }
        }
    }

    /// The state after the parser reported the end of a node.
    pub open spec fn on_finish_node(self) -> SinkState {
        let built = SinkState { builder: self.builder.finish_node(), ..self };
        if self.roots.len() == 0 || self.roots.last() == 0 {
            SinkState { failed: true, ..built }
        } else {
            SinkState {
                roots: self.roots.drop_last().push((self.roots.last() - 1) as usize),
                ..built
            }
        }
    }

    /// The state after the parser reported an error.
    pub open spec fn on_error(self, message: Seq<char>) -> SinkState {
        SinkState { errors: self.errors.push((message, self.text_pos)), ..self }
    }

    /// The state after the event `event`.
    pub open spec fn on_event(self, entries: Seq<FlatView>, event: ParseEventView) -> SinkState {
        match event {
            ParseEventView::Token { kind, n_tokens } => self.on_token(entries, kind, n_tokens),
            ParseEventView::StartNode { kind } => self.on_start_node(kind),
            ParseEventView::FinishNode => self.on_finish_node(),
            ParseEventView::Error { message } => self.on_error(message),
        }
    }

    /// The state after the first `n` of `events`.
    pub open spec fn run(entries: Seq<FlatView>, events: Seq<ParseEventView>, n: int) -> SinkState
        decreases n,
    {
        if n <= 0 || n > events.len() {
            SinkState::start()
        } else {
            SinkState::run(entries, events, n - 1).on_event(entries, events[n - 1])
        }
    }

    /// Whether the events made one whole syntax tree.
    pub open spec fn succeeded(self) -> bool {
        !self.failed && self.roots.len() == 1 && self.builder.complete()
    }
}

/// The state that the events `events` lead to for the token tree `tt`.
pub open spec fn sink_outcome(tt: SubtreeView, events: Seq<ParseEventView>) -> SinkState {
    SinkState::run(buffer_of(tt), events, events.len() as int)
}

/// Turns what a parser reported into a syntax tree and a token map.
struct TtTreeSink {
    cursor: usize,
    text_pos: u32,
    inner: SyntaxTreeBuilder,
    token_map: TokenMap,
    open_delims: FxHashMap<u32, u32>,
    roots: Counters,
    errors: Vec<SyntaxError>,
    failed: bool,
}

impl View for TtTreeSink {
    type V = SinkState;

    closed spec fn view(&self) -> SinkState {
        SinkState {
            cursor: self.cursor as int,
            text_pos: self.text_pos,
            builder: self.inner@,
            map: self.token_map@,
            open_delims: offsets(self.open_delims),
            roots: counters(self.roots),
            errors: error_views(self.errors@),
            failed: self.failed,
        }
    }
}

/// The text of a delimiter.
fn delim_to_str(d: Option<Delimiter>, closing: bool) -> (r: &'static str)
    ensures
        r@ == spec_delim_text(d, closing),
{
    proof {
        reveal_strlit("(");
        reveal_strlit(")");
        reveal_strlit("{");
        reveal_strlit("}");
        reveal_strlit("[");
        reveal_strlit("]");
        reveal_strlit("");
    }
    let r = match d {
        Some(d) => match d.kind {
            DelimiterKind::Parenthesis => if closing {
                ")"
            } else {
                "("
            },
            DelimiterKind::Brace => if closing {
                "}"
            } else {
                "{"
            },
            DelimiterKind::Bracket => if closing {
                "]"
            } else {
                "["
            },
        },
        None => "",
    };
    proof {
        assert(r@ =~= spec_delim_text(d, closing));
    }
    r
}

/// Where a walk over `entries` stands after it passed the entry at `p`.
fn bump(entries: &Vec<FlatEntry>, p: usize) -> (r: usize)
    ensures
        r == spec_bump(flat_views(entries@), p as int),
{
    if p >= entries.len() {
        return p;
    }
    match &entries[p] {
        FlatEntry::Open { inner_len, .. } => {
            let room = entries.len() - p;
            if room >= 2 && *inner_len <= room - 2 {
                p + *inner_len + 2
            } else {
                entries.len()
            }
        },
        _ => p + 1,
    }
}

impl TtTreeSink {
    fn new() -> (r: TtTreeSink)
        ensures
            r@ == SinkState::start(),
            r.inner.inv(),
    {
        let r = TtTreeSink {
            cursor: 0,
            text_pos: 0,
            inner: SyntaxTreeBuilder::new(),
            token_map: TokenMap::new(),
            open_delims: offsets_new(),
            roots: counters_new(),
            errors: Vec::new(),
            failed: false,
        };
        proof {
            assert(error_views(r.errors@) =~= Seq::<(Seq<char>, u32)>::empty());
            assert(offsets(r.open_delims) =~= Map::<u32, u32>::empty());
        }
        r
    }

    /// Takes the entry at the cursor and adds its text to `buf`.
    fn take(&mut self, entries: &Vec<FlatEntry>, buf: &mut String)
        requires
            old(self).cursor < entries@.len(),
            old(self).inner.inv(),
        ensures
            final(self)@ == old(self)@.take(flat_views(entries@)).0,
            final(buf)@ == old(buf)@ + old(self)@.take(flat_views(entries@)).1,
            final(self).inner.inv(),
            final(self).cursor == old(self).cursor + 1,
    {
        let p = self.cursor;
        let ghost flat = flat_views(entries@);
        proof {
            assert(flat[p as int] == entries@[p as int]@);
        }
        let count = entries.len();
        self.cursor = p + 1;
        match &entries[p] {
            FlatEntry::Leaf(leaf) => {
                let text = leaf.text();
                let len = text_len(text.as_str());
                if len > (u32::MAX - self.text_pos) as usize {
                    self.failed = true;
                    proof {
                        assert(buf@ + Seq::<char>::empty() =~= buf@);
                    }
                } else {
                    let end = self.text_pos + len as u32;
                    self.token_map.insert(leaf.id(), TextRange::new(self.text_pos, end));
                    self.text_pos = end;
                    buf.append(text.as_str());
                }
            },
            FlatEntry::Open { delimiter, .. } => {
                let text = delim_to_str(*delimiter, false);
                let len = text_len(text);
                if len > (u32::MAX - self.text_pos) as usize {
                    self.failed = true;
                    proof {
                        assert(buf@ + Seq::<char>::empty() =~= buf@);
                    }
                } else {
                    match delimiter {
                        Some(d) => {
                            offsets_insert(&mut self.open_delims, d.id.0, self.text_pos);
                        },
                        None => {},
                    }
                    self.text_pos = self.text_pos + len as u32;
                    buf.append(text);
                }
            },
            FlatEntry::Close { delimiter } => {
                let text = delim_to_str(*delimiter, true);
                let len = text_len(text);
                if len > (u32::MAX - self.text_pos) as usize {
                    self.failed = true;
                    proof {
                        assert(buf@ + Seq::<char>::empty() =~= buf@);
                    }
                } else {
                    match delimiter {
                        Some(d) => {
                            match offsets_get(&self.open_delims, d.id.0) {
                                Some(open) => {
                                    if open < u32::MAX && self.text_pos < u32::MAX {
                                        self.token_map.insert_delim(
                                            d.id,
                                            TextRange::at(open, 1),
                                            Some(TextRange::at(self.text_pos, 1)),
                                        );
                                    }
                                },
                                None => {},
                            }
                        },
                        None => {},
                    }
                    self.text_pos = self.text_pos + len as u32;
                    buf.append(text);
                }
            },
        }
    }

    fn token(&mut self, entries: &Vec<FlatEntry>, kind: SyntaxKind, n_tokens: u8)
        requires
            old(self).inner.inv(),
        ensures
            final(self)@ == old(self)@.on_token(flat_views(entries@), kind, n_tokens),
            final(self).inner.inv(),
    {
        let ghost flat = flat_views(entries@);
        if kind == SyntaxKind::L_DOLLAR || kind == SyntaxKind::R_DOLLAR {
            if self.cursor < entries.len() {
                self.cursor = self.cursor + 1;
            }
            return ;
        }
        let n: u8 = if kind == SyntaxKind::LIFETIME_IDENT {
            2
        } else {
            n_tokens
        };
        let mut buf = String::new();
        let mut last = self.cursor;
        let mut left = n;
        let ghost want = old(self)@.eat(flat, Seq::empty(), old(self)@.cursor, n as int);
        while left > 0 && self.cursor < entries.len()
            invariant
                flat == flat_views(entries@),
                self.inner.inv(),
                self@.eat(flat, buf@, last as int, left as int) == want,
            decreases left,
        {
            last = self.cursor;
            self.take(entries, &mut buf);
            left = left - 1;
        }
        self.inner.token(kind, buf.as_str());
        let next = bump(entries, last);
        let blank = last < entries.len() && next < entries.len() && match (
            &entries[last],
            &entries[next],
        ) {
            (FlatEntry::Leaf(Leaf::Punct(curr)), FlatEntry::Leaf(Leaf::Punct(_))) => {
                let alone = match curr.spacing {
                    Spacing::Alone => true,
                    Spacing::Joint => false,
                };
                alone && curr.char != ';'
            },
            _ => false,
        };
        proof {
            if last < entries@.len() {
                assert(flat[last as int] == entries@[last as int]@);
            }
            if next < entries@.len() {
                assert(flat[next as int] == entries@[next as int]@);
            }
            assert(blank == SinkState::blank_after(flat, last as int));
        }
        if blank {
            if self.text_pos < u32::MAX {
                proof {
                    reveal_strlit(" ");
                    assert(" "@ =~= seq![' ']);
                }
                self.inner.token(SyntaxKind::WHITESPACE, " ");
                self.text_pos = self.text_pos + 1;
            } else {
                self.failed = true;
            }
        }
    }

    fn start_node(&mut self, kind: SyntaxKind)
        requires
            old(self).inner.inv(),
        ensures
            final(self)@ == old(self)@.on_start_node(kind),
            final(self).inner.inv(),
    {
        self.inner.start_node(kind);
        match counters_pop(&mut self.roots) {
            None => {
                counters_push(&mut self.roots, 1);
            },
            Some(n) => {
                if n == 0 {
                    counters_push(&mut self.roots, 0);
                    counters_push(&mut self.roots, 1);
                    proof {
                        let before = counters(old(self).roots);
                        assert(before.drop_last().push(0usize).push(1usize) =~= before.push(
                            1usize,
                        ));
                    }
                } else if n == usize::MAX {
                    counters_push(&mut self.roots, n);
                    self.failed = true;
                    proof {
                        let before = counters(old(self).roots);
                        assert(before.drop_last().push(n) =~= before);
                    }
                } else {
                    counters_push(&mut self.roots, n + 1);
                }
            },
        }
    }

    fn finish_node(&mut self)
        requires
            old(self).inner.inv(),
        ensures
            final(self)@ == old(self)@.on_finish_node(),
            final(self).inner.inv(),
    {
        self.inner.finish_node();
        match counters_pop(&mut self.roots) {
            None => {
                self.failed = true;
            },
            Some(n) => {
                if n == 0 {
                    counters_push(&mut self.roots, 0);
                    self.failed = true;
                    proof {
                        let before = counters(old(self).roots);
                        assert(before.drop_last().push(0usize) =~= before);
                    }
                } else {
                    counters_push(&mut self.roots, n - 1);
                }
            },
        }
    }

    fn error(&mut self, message: &String)
        requires
            old(self).inner.inv(),
        ensures
            final(self)@ == old(self)@.on_error(message@),
            final(self).inner.inv(),
    {
        let ghost prev = self.errors@;
        self.errors.push(SyntaxError { message: message.clone(), offset: self.text_pos });
        proof {
            assert(error_views(self.errors@) =~= error_views(prev).push((message@, self.text_pos)));
        }
    }

    fn finish(self) -> (r: Result<(Parse, TokenMap), ExpandError>)
        requires
            self.inner.inv(),
        ensures
            r.is_ok() == self@.succeeded(),
            r matches Ok(pair) ==> pair.0.tree.wf() && pair.0.tree@ == self@.builder.elems
                && error_views(pair.0.errors@) == self@.errors && pair.1@ == self@.map,
            r matches Err(e) ==> e == ExpandError::ConversionError,
    {
        if self.failed || counters_len(&self.roots) != 1 {
            return Err(ExpandError::ConversionError);
        }
        let TtTreeSink { inner, token_map, errors, .. } = self;
        match inner.finish() {
            Some(tree) => Ok((Parse { tree, errors }, token_map)),
            None => Err(ExpandError::ConversionError),
        }
    }
}

/// Makes a syntax tree, with its text, of the token tree `tt`, following
/// the events that a parser reported when it read the tokens of `tt`; and
/// with it the token map that tells where in the text each token stands.
/// Fails where the events do not make exactly one whole tree.
pub fn token_tree_to_syntax_node(tt: &Subtree, events: &Vec<ParseEvent>) -> (r: Result<
    (Parse, TokenMap),
    ExpandError,
>)
    ensures
        r.is_ok() == sink_outcome(tt@, event_views(events@)).succeeded(),
        r matches Ok(pair) ==> pair.0.tree.wf() && pair.0.tree@ == sink_outcome(
            tt@,
            event_views(events@),
        ).builder.elems && error_views(pair.0.errors@) == sink_outcome(
            tt@,
            event_views(events@),
        ).errors && pair.1@ == sink_outcome(tt@, event_views(events@)).map,
        r matches Err(e) ==> e == ExpandError::ConversionError,
{
    let buffer = token_buffer(tt);
    let ghost flat = flat_views(buffer@);
    let ghost evs = event_views(events@);
    let mut sink = TtTreeSink::new();
    let mut i: usize = 0;
    while i < events.len()
        invariant
            i <= events@.len(),
            flat == flat_views(buffer@),
            flat == buffer_of(tt@),
            evs == event_views(events@),
            sink.inner.inv(),
            sink@ == SinkState::run(flat, evs, i as int),
        decreases events@.len() - i,
    {
        proof {
            assert(evs[i as int] == events@[i as int]@);
        }
        match &events[i] {
            ParseEvent::Token { kind, n_tokens } => {
                sink.token(&buffer, *kind, *n_tokens);
            },
            ParseEvent::StartNode { kind } => {
                sink.start_node(*kind);
            },
            ParseEvent::FinishNode => {
                sink.finish_node();
            },
            ParseEvent::Error { message } => {
                sink.error(message);
            },
        }
        i += 1;
    }
    sink.finish()
}

} // verus!
