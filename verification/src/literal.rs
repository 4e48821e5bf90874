//! Route literals: the textual form of a route pattern.
//!
//! A literal begins with `/`. Between slashes stands either a quoted text,
//! which becomes a static segment, or an identifier, which becomes a dynamic
//! segment named by it: `/"users"/user_id/"me"`. Empty pieces (a doubled or
//! trailing slash) stand for nothing. Quoted text is taken as it stands:
//! there are no escapes, so it holds neither a double quote nor a slash.

use crate::route::lemma_split_slash_nonempty;
use crate::route::path_tokens;
use crate::route::split_slash;
use crate::route::well_formed;
use crate::route::DynamicSegment;
use crate::route::DynamicSegmentView;
use crate::route::RawRoute;
use crate::route::Route;
use crate::route::RouteView;
use crate::route::StaticSegment;
use crate::route::StaticSegmentView;
use vstd::prelude::*;
use vstd::string::StrSliceExecFns;

verus! {

broadcast use vstd::string::group_string_axioms;

/// What one piece of a literal stands for.
pub enum Piece {
    /// The empty piece: nothing.
    Skip,
    /// A quoted text: a static segment with this value.
    Static(Seq<char>),
    /// An identifier: a dynamic segment with this name.
    Dynamic(Seq<char>),
    /// Anything else.
    Bad,
}

/// Why a literal is not a route.
#[derive(Clone, Copy, Debug, PartialEq, Eq, Structural)]
pub enum RouteError {
    /// The literal does not begin with `/`.
    MissingSlash,
    /// The piece with this index, counting from zero behind the leading
    /// slash, is neither a quoted text nor an identifier. It is the first
    /// such piece.
    BadSegment { index: usize },
}

/// The characters an identifier may begin with.
pub open spec fn is_name_start(c: char) -> bool {
    ('a' <= c && c <= 'z') || ('A' <= c && c <= 'Z') || c == '_'
}

/// The characters an identifier may continue with.
pub open spec fn is_name_char(c: char) -> bool {
    is_name_start(c) || ('0' <= c && c <= '9')
}

/// An identifier: a letter or underscore, then letters, digits, underscores.
pub open spec fn is_name(piece: Seq<char>) -> bool {
    &&& piece.len() > 0
    &&& is_name_start(piece[0])
    &&& forall|i: int| 0 <= i < piece.len() ==> is_name_char(#[trigger] piece[i])
}

/// A quoted text: a double quote, any characters but double quotes, a
/// double quote.
pub open spec fn is_quoted(piece: Seq<char>) -> bool {
    &&& piece.len() >= 2
    &&& piece[0] == '"'
    &&& piece.last() == '"'
    &&& forall|i: int| 0 < i < piece.len() - 1 ==> #[trigger] piece[i] != '"'
}

/// What a piece stands for.
pub open spec fn classify(piece: Seq<char>) -> Piece {
    if piece.len() == 0 {
        Piece::Skip
    } else if is_quoted(piece) {
        Piece::Static(piece.subrange(1, piece.len() - 1))
    } else if is_name(piece) {
        Piece::Dynamic(piece)
    } else {
        Piece::Bad
    }
}

/// The route that a list of pieces stands for, bad pieces counting for
/// nothing: each quoted text and each identifier is a segment, and a
/// segment's position is the number of segments in front of it.
pub open spec fn collect<H>(pieces: Seq<Seq<char>>) -> RouteView<H>
    decreases pieces.len(),
{
    if pieces.len() == 0 {
        RouteView { static_segments: Seq::empty(), dynamic_segments: Seq::empty(), handler: None }
    } else {
        let front = collect::<H>(pieces.drop_last());
        let position = front.static_segments.len() + front.dynamic_segments.len();
        match classify(pieces.last()) {
            Piece::Static(value) => RouteView {
                static_segments: front.static_segments.push(StaticSegmentView { value, position }),
                ..front
            },
            Piece::Dynamic(name) => RouteView {
                dynamic_segments: front.dynamic_segments.push(DynamicSegmentView { name, position }),
                ..front
            },
            _ => front,
        }
    }
}

/// The pieces of a literal behind its leading slash.
pub open spec fn pieces_of(literal: Seq<char>) -> Seq<Seq<char>> {
    split_slash(literal).skip(1)
}

/// `index` is the first bad piece.
pub open spec fn is_first_bad(pieces: Seq<Seq<char>>, index: int) -> bool {
    &&& 0 <= index < pieces.len()
    &&& classify(pieces[index]) is Bad
    &&& forall|j: int| 0 <= j < index ==> !(classify(#[trigger] pieces[j]) is Bad)
}

/// The route a literal stands for, or why it stands for none.
pub open spec fn parse<H>(literal: Seq<char>) -> Result<RouteView<H>, RouteError> {
    if literal.len() == 0 || literal[0] != '/' {
        Err(RouteError::MissingSlash)
    } else if exists|i: int| is_first_bad(pieces_of(literal), i) {
        Err(
            RouteError::BadSegment {
                index: (choose|i: int| is_first_bad(pieces_of(literal), i)) as usize,
            },
        )
    } else {
        Ok(collect(pieces_of(literal)))
    }
}

/// The plain-value form of a parse result.
pub open spec fn parse_view<H>(out: Result<Route<H>, RouteError>) -> Result<
    RouteView<H>,
    RouteError,
> {
    match out {
        Ok(route) => Ok(route@),
        Err(error) => Err(error),
    }
}

/// Whatever the pieces, the segments collected from them occupy the
/// positions `0..n` once each, in the order of the pieces.
pub proof fn lemma_collect_well_formed<H>(pieces: Seq<Seq<char>>)
    ensures
        well_formed(collect::<H>(pieces)),
        collect::<H>(pieces).handler is None,
    decreases pieces.len(),
{
    if pieces.len() > 0 {
        lemma_collect_well_formed::<H>(pieces.drop_last());
    }
}

/// A route parsed from a literal is well formed and has no handler yet.
pub proof fn lemma_parsed_is_well_formed<H>(literal: Seq<char>)
    requires
        parse::<H>(literal) is Ok,
    ensures
        well_formed(parse::<H>(literal)->Ok_0),
        parse::<H>(literal)->Ok_0.handler is None,
{
    lemma_collect_well_formed::<H>(pieces_of(literal));
}

fn is_name_start_char(c: char) -> (yes: bool)
    ensures
        yes == is_name_start(c),
{
    (c >= 'a' && c <= 'z') || (c >= 'A' && c <= 'Z') || c == '_'
}

/// The condition that `is_name` puts on the character at `index`.
spec fn name_char_at(piece: Seq<char>, index: int) -> bool {
    if index == 0 {
        is_name_start(piece[index])
    } else {
        is_name_char(piece[index])
    }
}

/// The condition that `is_quoted` puts on the character at `index`.
spec fn quoted_char_at(piece: Seq<char>, index: int) -> bool {
    if index == 0 || index == piece.len() - 1 {
        piece[index] == '"'
    } else {
        piece[index] != '"'
    }
}

fn is_name_piece(piece: &str) -> (yes: bool)
    ensures
        yes == is_name(piece@),
{
    let n = piece.unicode_len();
    let mut yes = n > 0;
    let mut i: usize = 0;
    for c in chars: piece.chars()
        invariant
            chars.seq() == piece@,
            i == chars.index(),
            n == piece@.len(),
            yes == (n > 0 && forall|j: int| 0 <= j < i ==> name_char_at(piece@, j)),
    {
        let fits = if i == 0 {
            is_name_start_char(c)
        } else {
            is_name_start_char(c) || (c >= '0' && c <= '9')
        };
        assert(fits == name_char_at(piece@, i as int));
        yes = yes && fits;
        i = i + 1;
    }
    proof {
        if yes {
            assert(name_char_at(piece@, 0));
            assert forall|j: int| 0 <= j < piece@.len() implies is_name_char(
                #[trigger] piece@[j],
            ) by {
                assert(name_char_at(piece@, j));
            }
        } else if is_name(piece@) {
            assert(forall|j: int| 0 <= j < piece@.len() ==> name_char_at(piece@, j));
        }
    }
    yes
}

fn is_quoted_piece(piece: &str) -> (yes: bool)
    ensures
        yes == is_quoted(piece@),
{
    let n = piece.unicode_len();
    let mut yes = n >= 2;
    let mut i: usize = 0;
    for c in chars: piece.chars()
        invariant
            chars.seq() == piece@,
            i == chars.index(),
            n == piece@.len(),
            yes == (n >= 2 && forall|j: int| 0 <= j < i ==> quoted_char_at(piece@, j)),
    {
        let fits = if i == 0 || i == n - 1 {
            c == '"'
        } else {
            c != '"'
        };
        assert(fits == quoted_char_at(piece@, i as int));
        yes = yes && fits;
        i = i + 1;
    }
    proof {
        if yes {
            assert(quoted_char_at(piece@, 0));
            assert(quoted_char_at(piece@, piece@.len() - 1));
            assert forall|j: int| 0 < j < piece@.len() - 1 implies #[trigger] piece@[j]
                != '"' by {
                assert(quoted_char_at(piece@, j));
            }
        } else if is_quoted(piece@) {
            assert(forall|j: int| 0 <= j < piece@.len() ==> quoted_char_at(piece@, j));
        }
    }
    yes
}

/// Parse a route literal such as `/"users"/user_id/"me"`. The route comes
/// without a handler; registration attaches one.
pub fn route<H>(literal: &str) -> (out: Result<Route<H>, RouteError>)
    ensures
        parse_view(out) == parse::<H>(literal@),
{
    if literal.unicode_len() == 0 || literal.get_char(0) != '/' {
        return Err(RouteError::MissingSlash);
    }
    let raw = RawRoute::from_path(literal);
    let ghost pieces = pieces_of(literal@);
    proof {
        lemma_split_slash_nonempty(literal@);
        assert(pieces.len() == raw@.len());
        assert forall|k: int| 0 <= k < pieces.len() implies #[trigger] pieces[k]
            == raw.raw_segments@[k].value@ by {
            assert(raw@[k] == path_tokens(literal@)[k]);
        }
    }
    let mut static_segments: Vec<StaticSegment> = Vec::new();
    let mut dynamic_segments: Vec<DynamicSegment> = Vec::new();
    let mut i: usize = 0;
    while i < raw.raw_segments.len()
        invariant
            i <= raw.raw_segments@.len(),
            literal@.len() > 0,
            literal@[0] == '/',
            pieces == pieces_of(literal@),
            pieces.len() == raw.raw_segments@.len(),
            forall|k: int|
                0 <= k < pieces.len() ==> #[trigger] pieces[k] == raw.raw_segments@[k].value@,
            forall|j: int| 0 <= j < i ==> !(classify(#[trigger] pieces[j]) is Bad),
            static_segments@.len() + dynamic_segments@.len() <= i,
            (Route::<H> { static_segments, dynamic_segments, handler: None })@ == collect::<H>(
                pieces.take(i as int),
            ),
        decreases raw.raw_segments@.len() - i,
    {
        let piece = raw.raw_segments[i].value.as_str();
        let position = static_segments.len() + dynamic_segments.len();
        proof {
            assert(pieces.take(i + 1).drop_last() == pieces.take(i as int));
        }
        if piece.unicode_len() == 0 {
            // an empty piece stands for nothing
        } else if is_quoted_piece(piece) {
            let value = piece.substring_char(1, piece.unicode_len() - 1).to_owned();
            static_segments.push(StaticSegment { value, position });
            assert((Route::<H> { static_segments, dynamic_segments, handler: None })@
                =~= collect::<H>(pieces.take(i + 1)));
        } else if is_name_piece(piece) {
            let name = piece.to_owned();
            dynamic_segments.push(DynamicSegment { name, position });
            assert((Route::<H> { static_segments, dynamic_segments, handler: None })@
                =~= collect::<H>(pieces.take(i + 1)));
        } else {
            assert(is_first_bad(pieces, i as int));
            return Err(RouteError::BadSegment { index: i });
        }
        i = i + 1;
    }
    proof {
        assert(pieces.take(i as int) == pieces);
    }
    Ok(Route { static_segments, dynamic_segments, handler: None })
}

} // verus!
