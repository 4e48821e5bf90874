//! Route patterns and tokenized request paths.
//!
//! A registered route is a list of literal (static) segments and a list of
//! named (dynamic) segments, each tagged with its zero-based position in the
//! path. An incoming path is cut at its slashes into positioned tokens.

use vstd::prelude::*;
use vstd::string::StrSliceExecFns;

verus! {

broadcast use vstd::string::group_string_axioms;

/// A literal path component, as plain values.
pub struct StaticSegmentView {
    pub value: Seq<char>,
    pub position: nat,
}

/// A named capture, as plain values.
pub struct DynamicSegmentView {
    pub name: Seq<char>,
    pub position: nat,
}

/// One token of an incoming path, as plain values.
pub struct RawSegmentView {
    pub value: Seq<char>,
    pub position: nat,
}

/// A route as plain values: its two segment lists and the attached handler.
#[verifier::ext_equal]
pub struct RouteView<H> {
    pub static_segments: Seq<StaticSegmentView>,
    pub dynamic_segments: Seq<DynamicSegmentView>,
    pub handler: Option<H>,
}

/// A literal path component: the token at `position` must equal `value`.
#[derive(Debug, PartialEq, Eq)]
pub struct StaticSegment {
    pub value: String,
    pub position: usize,
}

/// A named capture: any token at `position` matches and is stored under `name`.
#[derive(Debug, PartialEq, Eq)]
pub struct DynamicSegment {
    pub name: String,
    pub position: usize,
}

/// One token of an incoming path together with its zero-based index.
#[derive(Debug, PartialEq, Eq)]
pub struct RawSegment {
    pub value: String,
    pub position: usize,
}

/// The tokens of one incoming request path, in order.
#[derive(Debug)]
pub struct RawRoute {
    pub raw_segments: Vec<RawSegment>,
}

/// A registered pattern and, once registered, its handler.
#[derive(Debug)]
pub struct Route<H> {
    pub static_segments: Vec<StaticSegment>,
    pub dynamic_segments: Vec<DynamicSegment>,
    pub handler: Option<H>,
}

impl View for StaticSegment {
    type V = StaticSegmentView;

    open spec fn view(&self) -> StaticSegmentView {
        StaticSegmentView { value: self.value@, position: self.position as nat }
    }
}

impl View for DynamicSegment {
    type V = DynamicSegmentView;

    open spec fn view(&self) -> DynamicSegmentView {
        DynamicSegmentView { name: self.name@, position: self.position as nat }
    }
}

impl View for RawSegment {
    type V = RawSegmentView;

    open spec fn view(&self) -> RawSegmentView {
        RawSegmentView { value: self.value@, position: self.position as nat }
    }
}

impl View for RawRoute {
    type V = Seq<RawSegmentView>;

    open spec fn view(&self) -> Seq<RawSegmentView> {
        Seq::new(self.raw_segments@.len(), |i: int| self.raw_segments@[i]@)
    }
}

impl<H> View for Route<H> {
    type V = RouteView<H>;

    open spec fn view(&self) -> RouteView<H> {
        RouteView {
            static_segments: Seq::new(
                self.static_segments@.len(),
                |i: int| self.static_segments@[i]@,
            ),
            dynamic_segments: Seq::new(
                self.dynamic_segments@.len(),
                |i: int| self.dynamic_segments@[i]@,
            ),
            handler: self.handler,
        }
    }
}

/// A route is well formed when its segments occupy the positions
/// `0..n` once each, `n` being the number of its segments: every position is
/// in range and no two segments, static or dynamic, share one.
pub open spec fn well_formed<H>(route: RouteView<H>) -> bool {
    let n = route.static_segments.len() + route.dynamic_segments.len();
    &&& forall|i: int|
        0 <= i < route.static_segments.len() ==> (#[trigger] route.static_segments[i]).position < n
    &&& forall|i: int|
        0 <= i < route.dynamic_segments.len() ==> (#[trigger] route.dynamic_segments[i]).position
            < n
    &&& forall|i: int, j: int|
        0 <= i < j < route.static_segments.len() ==> (#[trigger] route.static_segments[i]).position
            != (#[trigger] route.static_segments[j]).position
    &&& forall|i: int, j: int|
        0 <= i < j < route.dynamic_segments.len() ==> (
        #[trigger] route.dynamic_segments[i]).position
            != (#[trigger] route.dynamic_segments[j]).position
    &&& forall|i: int, j: int|
        0 <= i < route.static_segments.len() && 0 <= j < route.dynamic_segments.len() ==> (
        #[trigger] route.static_segments[i]).position
            != (#[trigger] route.dynamic_segments[j]).position
}

/// A static segment matches a token when both the position and the text agree.
pub open spec fn static_matches(segment: StaticSegmentView, token: RawSegmentView) -> bool {
    token.position == segment.position && token.value == segment.value
}

/// A dynamic segment matches a token by position alone.
pub open spec fn dynamic_matches(segment: DynamicSegmentView, token: RawSegmentView) -> bool {
    token.position == segment.position
}

/// The pieces of `s` between its slashes, in order. A string without a slash
/// is one piece; every slash ends one piece and begins the next, so there is
/// always one piece more than there are slashes.
pub open spec fn split_slash(s: Seq<char>) -> Seq<Seq<char>>
    decreases s.len(),
{
    if s.len() == 0 {
        seq![Seq::<char>::empty()]
    } else {
        let before = split_slash(s.drop_last());
        if s.last() == '/' {
            before.push(Seq::<char>::empty())
        } else {
            before.update(before.len() - 1, before.last().push(s.last()))
        }
    }
}

/// The tokens of a path: its pieces without the first one (the empty piece in
/// front of the leading slash), numbered from zero.
pub open spec fn path_tokens(path: Seq<char>) -> Seq<RawSegmentView> {
    Seq::new(
        (split_slash(path).len() - 1) as nat,
        |i: int| RawSegmentView { value: split_slash(path)[i + 1], position: i as nat },
    )
}

/// The pieces put together again, with a slash between neighbours.
pub open spec fn join_slash(pieces: Seq<Seq<char>>) -> Seq<char>
    decreases pieces.len(),
{
    if pieces.len() == 0 {
        Seq::empty()
    } else if pieces.len() == 1 {
        pieces[0]
    } else {
        join_slash(pieces.drop_last()).push('/') + pieces.last()
    }
}

/// `split_slash` always yields at least one piece.
pub proof fn lemma_split_slash_nonempty(s: Seq<char>)
    ensures
        split_slash(s).len() >= 1,
    decreases s.len(),
{
    if s.len() > 0 {
        lemma_split_slash_nonempty(s.drop_last());
    }
}

/// No piece holds a slash.
pub proof fn lemma_pieces_hold_no_slash(s: Seq<char>)
    ensures
        forall|k: int, j: int|
            0 <= k < split_slash(s).len() && 0 <= j < split_slash(s)[k].len() ==> split_slash(
                s,
            )[k][j] != '/',
    decreases s.len(),
{
    if s.len() > 0 {
        lemma_pieces_hold_no_slash(s.drop_last());
        lemma_split_slash_nonempty(s.drop_last());
    }
}

/// Nothing is lost in splitting: the pieces, joined by slashes, are the
/// string that was split.
pub proof fn lemma_join_split(s: Seq<char>)
    ensures
        join_slash(split_slash(s)) == s,
    decreases s.len(),
{
    if s.len() > 0 {
        let front = s.drop_last();
        let before = split_slash(front);
        lemma_join_split(front);
        lemma_split_slash_nonempty(front);
        if s.last() == '/' {
            let pieces = before.push(Seq::<char>::empty());
            assert(pieces.drop_last() == before);
        } else {
            let pieces = before.update(before.len() - 1, before.last().push(s.last()));
            if before.len() > 1 {
                assert(pieces.drop_last() == before.drop_last());
            }
        }
        assert(front.push(s.last()) == s);
    }
}

/// The empty path has no tokens.
pub proof fn lemma_empty_path_has_no_tokens()
    ensures
        path_tokens(Seq::<char>::empty()).len() == 0,
{
}

/// Every token of a path is free of slashes and sits at its own index.
pub proof fn lemma_tokens_of_path(path: Seq<char>)
    ensures
        forall|i: int|
            0 <= i < path_tokens(path).len() ==> (#[trigger] path_tokens(path)[i]).position == i,
        forall|i: int, j: int|
            0 <= i < path_tokens(path).len() && 0 <= j < path_tokens(path)[i].value.len()
                ==> path_tokens(path)[i].value[j] != '/',
{
    lemma_pieces_hold_no_slash(path);
    lemma_split_slash_nonempty(path);
}

impl StaticSegment {
    /// Whether this segment accepts `token`.
    pub fn matches(&self, token: &RawSegment) -> (hit: bool)
        ensures
            hit == static_matches(self@, token@),
    {
        self.position == token.position && self.value == token.value
    }
}

impl DynamicSegment {
    /// Whether this segment accepts `token`.
    pub fn matches(&self, token: &RawSegment) -> (hit: bool)
        ensures
            hit == dynamic_matches(self@, token@),
    {
        self.position == token.position
    }
}

impl RawSegment {
    /// Whether `segment` accepts this token; the same relation as
    /// `StaticSegment::matches`, read from the token's side.
    pub fn matches_static(&self, segment: &StaticSegment) -> (hit: bool)
        ensures
            hit == static_matches(segment@, self@),
    {
        segment.matches(self)
    }

    /// Whether `segment` accepts this token; the same relation as
    /// `DynamicSegment::matches`, read from the token's side.
    pub fn matches_dynamic(&self, segment: &DynamicSegment) -> (hit: bool)
        ensures
            hit == dynamic_matches(segment@, self@),
    {
        segment.matches(self)
    }
}

impl RawRoute {
    /// Cut `path` at every `/`, drop the piece in front of the first slash,
    /// and number the remaining pieces from zero. The empty path has no tokens.
    pub fn from_path(path: &str) -> (raw: RawRoute)
        ensures
            raw@ == path_tokens(path@),
    {
        let n = path.unicode_len();
        let mut raw_segments: Vec<RawSegment> = Vec::new();
        let mut start: usize = 0;
        let mut i: usize = 0;
        let mut pieces: usize = 0;
        for c in chars: path.chars()
            invariant
                chars.seq() == path@,
                i == chars.index(),
                n == path@.len(),
                start <= i <= n,
                pieces <= i,
                split_slash(path@.take(i as int)).len() == pieces + 1,
                split_slash(path@.take(i as int)).last() == path@.subrange(start as int, i as int),
                pieces == 0 ==> raw_segments@.len() == 0,
                pieces > 0 ==> raw_segments@.len() == pieces - 1,
                forall|k: int|
                    0 <= k < raw_segments@.len() ==> (#[trigger] raw_segments@[k])@
                        == (RawSegmentView {
                        value: split_slash(path@.take(i as int))[k + 1],
                        position: k as nat,
                    }),
        {
            proof {
                assert(path@.take(i + 1).drop_last() == path@.take(i as int));
            }
            if c == '/' {
                if pieces > 0 {
                    let value = path.substring_char(start, i).to_owned();
                    raw_segments.push(RawSegment { value, position: pieces - 1 });
                }
                pieces = pieces + 1;
                start = i + 1;
            }
            i = i + 1;
        }
        proof {
            assert(path@.take(n as int) == path@);
        }
        if pieces > 0 {
            let value = path.substring_char(start, n).to_owned();
            raw_segments.push(RawSegment { value, position: pieces - 1 });
        }
        RawRoute { raw_segments }
    }
}

} // verus!
