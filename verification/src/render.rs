//! The renderer: folds a stream of highlight events into markup.

use vstd::prelude::*;
use vstd::string::{StringExecFns, StringSliceAdditionalSpecFns};
use vstd::utf8::{decode_utf8, encode_utf8, is_char_boundary, valid_utf8};
use crate::escape::{
    class_letter, class_name, dashed, escape, escape_html, harmless, lemma_dashed_letters,
    lemma_escape_concat, lemma_escape_harmless,
};
use crate::vocabulary::{highlights, lemma_scope_names_plain, name_views, scope_names};

verus! {

/// One step of a highlighted document.
#[derive(Clone, Copy, Debug, PartialEq, Eq, Structural)]
pub enum Event {
    /// A scope opens; the number is its index in the vocabulary.
    ScopeStart(usize),
    /// The scope opened last closes.
    ScopeEnd,
    /// The bytes of the code from `start` up to `end` stand here.
    Source { start: usize, end: usize },
    /// Matching failed at this point; nothing is emitted for it.
    Failed,
}

/// Why a stream of events cannot be rendered.
#[derive(Clone, Copy, Debug, PartialEq, Eq, Structural)]
pub enum RenderError {
    /// A source span does not lie in the code or cuts through a character.
    InvalidSpan { start: usize, end: usize },
    /// Text stands under a scope whose index the vocabulary does not have.
    UnknownScope { scope: usize },
}

impl RenderError {
    /// What went wrong, in words.
    pub open spec fn text(self) -> Seq<char> {
        match self {
            RenderError::InvalidSpan { .. } => "source span outside the code"@,
            RenderError::UnknownScope { .. } => "scope outside the vocabulary"@,
        }
    }

    /// What went wrong, in words.
    pub fn describe(&self) -> (r: &'static str)
        ensures
            r@ == self.text(),
    {
        match self {
            RenderError::InvalidSpan { .. } => "source span outside the code",
            RenderError::UnknownScope { .. } => "scope outside the vocabulary",
        }
    }
}

/// The open scopes, innermost last, and the markup written so far.
pub ghost struct Progress {
    pub stack: Seq<usize>,
    pub out: Seq<char>,
}

/// Whether `start..end` is a range of whole characters of `code`, in bytes.
pub open spec fn span_ok(code: Seq<char>, start: usize, end: usize) -> bool {
    let bytes = encode_utf8(code);
    &&& start <= end
    &&& end <= bytes.len()
    &&& is_char_boundary(bytes, start as int)
    &&& is_char_boundary(bytes, end as int)
}

/// The characters of `code` that the bytes `start..end` encode.
pub open spec fn span_text(code: Seq<char>, start: usize, end: usize) -> Seq<char> {
    decode_utf8(encode_utf8(code).subrange(start as int, end as int))
}

/// The tag that opens a span of the scope `name`: its class is `ts-` and the
/// dashed scope name.
pub open spec fn opening(name: Seq<char>) -> Seq<char> {
    "<span class=\"ts-"@ + dashed(name) + "\">"@
}

/// The tag that closes a span.
pub open spec fn closing() -> Seq<char> {
    "</span>"@
}

/// A span of markup: the escaped text between the tags of the scope `name`.
pub open spec fn span_markup(name: Seq<char>, text: Seq<char>) -> Seq<char> {
    opening(name) + escape(text) + closing()
}

/// What one event does to the open scopes and the markup.
pub open spec fn step(code: Seq<char>, at: Progress, event: Event) -> Result<
    Progress,
    RenderError,
> {
    match event {
        Event::ScopeStart(scope) => Ok(Progress { stack: at.stack.push(scope), out: at.out }),
        Event::ScopeEnd => Ok(
            Progress {
                stack: if at.stack.len() > 0 {
                    at.stack.drop_last()
                } else {
                    at.stack
                },
                out: at.out,
            },
        ),
        Event::Failed => Ok(at),
        Event::Source { start, end } => {
            if !span_ok(code, start, end) {
                Err(RenderError::InvalidSpan { start, end })
            } else if start == end {
                Ok(at)
            } else if at.stack.len() == 0 {
                Ok(Progress { stack: at.stack, out: at.out + escape(span_text(code, start, end)) })
            } else if at.stack.last() >= scope_names().len() {
                Err(RenderError::UnknownScope { scope: at.stack.last() })
            } else {
                Ok(
                    Progress {
                        stack: at.stack,
                        out: at.out + span_markup(
                            scope_names()[at.stack.last() as int],
                            span_text(code, start, end),
                        ),
                    },
                )
            }
        },
    }
}

/// The state after the first `n` events, or the first error among them.
pub open spec fn progress(code: Seq<char>, events: Seq<Event>, n: nat) -> Result<
    Progress,
    RenderError,
>
    decreases n,
{
    if n == 0 {
        Ok(Progress { stack: Seq::empty(), out: Seq::empty() })
    } else {
        match progress(code, events, (n - 1) as nat) {
            Ok(at) => step(code, at, events[n - 1]),
            Err(e) => Err(e),
        }
    }
}

/// The markup of the whole stream, or the first error in it.
pub open spec fn rendered(code: Seq<char>, events: Seq<Event>) -> Result<Seq<char>, RenderError> {
    match progress(code, events, events.len()) {
        Ok(at) => Ok(at.out),
        Err(e) => Err(e),
    }
}

/// An error, once met, is the result of every longer prefix.
pub proof fn lemma_error_stays(code: Seq<char>, events: Seq<Event>, n: nat, m: nat)
    requires
        n <= m,
        progress(code, events, n) is Err,
    ensures
        progress(code, events, m) == progress(code, events, n),
    decreases m,
{
    if n < m {
        lemma_error_stays(code, events, n, (m - 1) as nat);
    }
}

/// The texts of the source spans of `events`, in order.
pub open spec fn source_text(code: Seq<char>, events: Seq<Event>) -> Seq<char>
    decreases events.len(),
{
    if events.len() == 0 {
        Seq::empty()
    } else {
        source_text(code, events.drop_last()) + (match events.last() {
            Event::Source { start, end } => span_text(code, start, end),
            _ => Seq::empty(),
        })
    }
}

/// Whether the source spans of `events` follow one another from byte `from`
/// to byte `to`, with no gap and no overlap.
pub open spec fn tiles(events: Seq<Event>, from: int, to: int) -> bool
    decreases events.len(),
{
    if events.len() == 0 {
        from == to
    } else {
        match events.last() {
            Event::Source { start, end } => start <= end && end == to && tiles(
                events.drop_last(),
                from,
                start as int,
            ),
            _ => tiles(events.drop_last(), from, to),
        }
    }
}

/// Whether every source span of `events` is a range of whole characters of
/// `code`.
pub open spec fn spans_ok(code: Seq<char>, events: Seq<Event>) -> bool {
    forall|i: int|
        0 <= i < events.len() ==> match #[trigger] events[i] {
            Event::Source { start, end } => span_ok(code, start, end),
            _ => true,
        }
}

/// Whether no event of `events` opens a scope.
pub open spec fn unscoped(events: Seq<Event>) -> bool {
    forall|i: int| 0 <= i < events.len() ==> !(#[trigger] events[i] is ScopeStart)
}

/// Two spans that meet make one: the text of the whole is the two texts one
/// after the other.
pub proof fn lemma_span_text_joins(code: Seq<char>, start: usize, mid: usize, end: usize)
    requires
        span_ok(code, start, mid),
        span_ok(code, mid, end),
    ensures
        span_ok(code, start, end),
        span_text(code, start, end) == span_text(code, start, mid) + span_text(code, mid, end),
{
    broadcast use vstd::utf8::group_utf8_lib;

    let bytes = encode_utf8(code);
    let front = bytes.subrange(0, end as int);
    let part = front.subrange(start as int, end as int);
    assert(valid_utf8(front));
    if start < end {
        assert(front[start as int] == bytes[start as int]);
        vstd::utf8::is_char_boundary_iff_not_is_continuation_byte(bytes, start as int);
        vstd::utf8::is_char_boundary_iff_not_is_continuation_byte(front, start as int);
    }
    assert(is_char_boundary(front, start as int));
    assert(valid_utf8(part));
    assert(part =~= bytes.subrange(start as int, end as int));
    let at = mid - start;
    if 0 < at && mid < end {
        assert(part[at] == bytes[mid as int]);
        vstd::utf8::is_char_boundary_iff_not_is_continuation_byte(bytes, mid as int);
        vstd::utf8::is_char_boundary_iff_not_is_continuation_byte(part, at);
    }
    assert(is_char_boundary(part, at));
    vstd::utf8::decode_utf8_split(part, at);
    assert(part.subrange(0, at) =~= bytes.subrange(start as int, mid as int));
    assert(part.subrange(at, part.len() as int) =~= bytes.subrange(mid as int, end as int));
}

/// Where the source spans tile the bytes from 0 to `to`, their texts in
/// order are the text of the code up to `to`.
pub proof fn lemma_tiling_prefix(code: Seq<char>, events: Seq<Event>, to: usize)
    requires
        spans_ok(code, events),
        tiles(events, 0, to as int),
    ensures
        span_ok(code, 0, to),
        source_text(code, events) == span_text(code, 0, to),
    decreases events.len(),
{
    broadcast use vstd::utf8::group_utf8_lib;

    let bytes = encode_utf8(code);
    if events.len() == 0 {
        assert(bytes.subrange(0, 0) =~= Seq::<u8>::empty());
        assert(span_text(code, 0, to) =~= Seq::<char>::empty());
    } else {
        let rest = events.drop_last();
        assert(events[events.len() - 1] == events.last());
        assert(spans_ok(code, rest)) by {
            assert forall|i: int| 0 <= i < rest.len() implies match #[trigger] rest[i] {
                Event::Source { start, end } => span_ok(code, start, end),
                _ => true,
            } by {
                assert(rest[i] == events[i]);
            }
        }
        match events.last() {
            Event::Source { start, end } => {
                lemma_tiling_prefix(code, rest, start);
                lemma_span_text_joins(code, 0, start, end);
            },
            _ => {
                lemma_tiling_prefix(code, rest, to);
                assert(source_text(code, events) =~= source_text(code, rest));
            },
        }
    }
}

/// Where the source spans of the events tile the whole code, their texts in
/// order are the code: nothing is missing and nothing stands twice.
pub proof fn lemma_tiling_reconstructs(code: Seq<char>, events: Seq<Event>)
    requires
        spans_ok(code, events),
        encode_utf8(code).len() <= usize::MAX,
        tiles(events, 0, encode_utf8(code).len() as int),
    ensures
        source_text(code, events) == code,
{
    broadcast use vstd::utf8::group_utf8_lib;

    let bytes = encode_utf8(code);
    lemma_tiling_prefix(code, events, bytes.len() as usize);
    assert(bytes.subrange(0, bytes.len() as int) =~= bytes);
}

/// Where the source spans end: the end of the last one, 0 where there is
/// none.
pub open spec fn reach(events: Seq<Event>) -> int
    decreases events.len(),
{
    if events.len() == 0 {
        0
    } else {
        match events.last() {
            Event::Source { start, end } => end as int,
            _ => reach(events.drop_last()),
        }
    }
}

/// Events that can be rendered have source spans of whole characters of the
/// code.
pub proof fn lemma_rendered_spans_ok(code: Seq<char>, events: Seq<Event>)
    requires
        rendered(code, events) is Ok,
    ensures
        spans_ok(code, events),
{
    assert forall|i: int| 0 <= i < events.len() implies match #[trigger] events[i] {
        Event::Source { start, end } => span_ok(code, start, end),
        _ => true,
    } by {
        if progress(code, events, (i + 1) as nat) is Err {
            lemma_error_stays(code, events, (i + 1) as nat, events.len());
        }
    }
}

/// Source spans that follow one another from 0 and reach the end of the
/// code are the code: their texts in order give every character once.
pub proof fn lemma_covering(code: Seq<char>, events: Seq<Event>)
    requires
        spans_ok(code, events),
        tiles(events, 0, reach(events)),
        reach(events) >= encode_utf8(code).len(),
    ensures
        source_text(code, events) == code,
{
    lemma_reach_within(code, events);
    lemma_tiling_reconstructs(code, events);
}

/// Spans of whole characters of the code do not reach beyond it.
proof fn lemma_reach_within(code: Seq<char>, events: Seq<Event>)
    requires
        spans_ok(code, events),
    ensures
        0 <= reach(events) <= encode_utf8(code).len(),
        reach(events) <= usize::MAX,
    decreases events.len(),
{
    if events.len() > 0 {
        let rest = events.drop_last();
        assert(events[events.len() - 1] == events.last());
        assert forall|i: int| 0 <= i < rest.len() implies match #[trigger] rest[i] {
            Event::Source { start, end } => span_ok(code, start, end),
            _ => true,
        } by {
            assert(rest[i] == events[i]);
        }
        lemma_reach_within(code, rest);
    }
}

/// A piece of markup: a tag that the renderer wrote, or escaped text of the
/// code.
pub ghost enum Piece {
    Tag(Seq<char>),
    Text(Seq<char>),
}

impl Piece {
    /// The characters of the piece.
    pub open spec fn chars(self) -> Seq<char> {
        match self {
            Piece::Tag(tag) => tag,
            Piece::Text(text) => text,
        }
    }

    /// The characters of the piece where it is text, nothing where it is a
    /// tag.
    pub open spec fn text(self) -> Seq<char> {
        match self {
            Piece::Tag(_) => Seq::empty(),
            Piece::Text(text) => text,
        }
    }

    /// Whether the piece, where it is a tag, closes a span or opens one of a
    /// scope of the vocabulary.
    pub open spec fn known(self) -> bool {
        match self {
            Piece::Tag(tag) => tag == closing() || exists|i: int|
                0 <= i < scope_names().len() && tag == opening(#[trigger] scope_names()[i]),
            Piece::Text(_) => true,
        }
    }
}

/// The pieces that one event adds to the markup.
pub open spec fn step_pieces(code: Seq<char>, at: Progress, event: Event) -> Seq<Piece> {
    match event {
        Event::Source { start, end } => {
            if !span_ok(code, start, end) || start == end {
                Seq::empty()
            } else if at.stack.len() == 0 {
                seq![Piece::Text(escape(span_text(code, start, end)))]
            } else if at.stack.last() >= scope_names().len() {
                Seq::empty()
            } else {
                seq![
                    Piece::Tag(opening(scope_names()[at.stack.last() as int])),
                    Piece::Text(escape(span_text(code, start, end))),
                    Piece::Tag(closing()),
                ]
            }
        },
        _ => Seq::empty(),
    }
}

/// The pieces of the markup after the first `n` events.
pub open spec fn pieces(code: Seq<char>, events: Seq<Event>, n: nat) -> Seq<Piece>
    decreases n,
{
    if n == 0 {
        Seq::empty()
    } else {
        match progress(code, events, (n - 1) as nat) {
            Ok(at) => pieces(code, events, (n - 1) as nat) + step_pieces(code, at, events[n - 1]),
            Err(_) => pieces(code, events, (n - 1) as nat),
        }
    }
}

/// The pieces one after the other.
pub open spec fn whole(parts: Seq<Piece>) -> Seq<char>
    decreases parts.len(),
{
    if parts.len() == 0 {
        Seq::empty()
    } else {
        whole(parts.drop_last()) + parts.last().chars()
    }
}

/// The pieces one after the other, the tags left out.
pub open spec fn untagged(parts: Seq<Piece>) -> Seq<char>
    decreases parts.len(),
{
    if parts.len() == 0 {
        Seq::empty()
    } else {
        untagged(parts.drop_last()) + parts.last().text()
    }
}

/// Whether every tag among the pieces is one that the renderer writes.
pub open spec fn tags_known(parts: Seq<Piece>) -> bool {
    forall|k: int| 0 <= k < parts.len() ==> (#[trigger] parts[k]).known()
}

/// Joining pieces goes through concatenation, with and without the tags.
proof fn lemma_pieces_concat(a: Seq<Piece>, b: Seq<Piece>)
    ensures
        whole(a + b) == whole(a) + whole(b),
        untagged(a + b) == untagged(a) + untagged(b),
    decreases b.len(),
{
    if b.len() == 0 {
        assert(a + b =~= a);
        assert(whole(a) + whole(b) =~= whole(a));
        assert(untagged(a) + untagged(b) =~= untagged(a));
    } else {
        lemma_pieces_concat(a, b.drop_last());
        assert((a + b).drop_last() =~= a + b.drop_last());
        assert((a + b).last() == b.last());
        assert(whole(a + b) =~= whole(a) + whole(b));
        assert(untagged(a + b) =~= untagged(a) + untagged(b));
    }
}

/// What the pieces of one step come to, with and without the tags.
proof fn lemma_step_pieces(code: Seq<char>, at: Progress, event: Event)
    ensures
        step(code, at, event) is Ok ==> step(code, at, event)->Ok_0.out == at.out + whole(
            step_pieces(code, at, event),
        ),
        step(code, at, event) is Ok ==> untagged(step_pieces(code, at, event)) == escape(
            match event {
                Event::Source { start, end } => span_text(code, start, end),
                _ => Seq::empty(),
            },
        ),
        tags_known(step_pieces(code, at, event)),
{
    broadcast use vstd::utf8::group_utf8_lib;

    let parts = step_pieces(code, at, event);
    if parts.len() == 0 {
        assert(at.out + whole(parts) =~= at.out);
        match event {
            Event::Source { start, end } => {
                if span_ok(code, start, end) && start == end {
                    assert(encode_utf8(code).subrange(start as int, end as int) =~= Seq::<
                        u8,
                    >::empty());
                    assert(span_text(code, start, end) =~= Seq::<char>::empty());
                }
            },
            _ => {},
        }
    } else if parts.len() == 1 {
        lemma_one_piece(parts[0]);
        assert(parts =~= seq![parts[0]]);
    } else {
        lemma_one_piece(parts[0]);
        lemma_one_piece(parts[1]);
        lemma_one_piece(parts[2]);
        lemma_pieces_concat(seq![parts[0]], seq![parts[1]]);
        lemma_pieces_concat(seq![parts[0]] + seq![parts[1]], seq![parts[2]]);
        assert(parts =~= seq![parts[0]] + seq![parts[1]] + seq![parts[2]]);
        assert(untagged(parts) =~= parts[1].text());
        assert(parts[2].known());
        assert(parts[0].known());
    }
}

/// One piece alone is its characters, and its text with the tags left out.
proof fn lemma_one_piece(piece: Piece)
    ensures
        whole(seq![piece]) == piece.chars(),
        untagged(seq![piece]) == piece.text(),
{
    let one = seq![piece];
    let none = Seq::<Piece>::empty();
    assert(one.drop_last() =~= none);
    assert(whole(none) =~= Seq::<char>::empty());
    assert(untagged(none) =~= Seq::<char>::empty());
    assert(whole(one) =~= piece.chars());
    assert(untagged(one) =~= piece.text());
}

/// The markup after the first `n` events is its pieces one after the other;
/// with the tags left out it is the escaped text of the source spans; and
/// every tag is one that the renderer writes.
proof fn lemma_progress_pieces(code: Seq<char>, events: Seq<Event>, n: nat)
    requires
        n <= events.len(),
        progress(code, events, n) is Ok,
    ensures
        progress(code, events, n)->Ok_0.out == whole(pieces(code, events, n)),
        untagged(pieces(code, events, n)) == escape(source_text(code, events.take(n as int))),
        tags_known(pieces(code, events, n)),
    decreases n,
{
    if n == 0 {
        assert(events.take(0) =~= Seq::<Event>::empty());
    } else {
        let m = (n - 1) as nat;
        if progress(code, events, m) is Err {
            lemma_error_stays(code, events, m, n);
        }
        lemma_progress_pieces(code, events, m);
        let at = progress(code, events, m)->Ok_0;
        let event = events[n - 1];
        let before = pieces(code, events, m);
        let added = step_pieces(code, at, event);
        lemma_step_pieces(code, at, event);
        lemma_pieces_concat(before, added);
        let upto = events.take(n as int);
        assert(upto.drop_last() =~= events.take(m as int));
        assert(upto.last() == event);
        let text = match event {
            Event::Source { start, end } => span_text(code, start, end),
            _ => Seq::<char>::empty(),
        };
        lemma_escape_concat(source_text(code, events.take(m as int)), text);
        assert(at.out + whole(added) =~= whole(before) + whole(added));
        assert forall|k: int| 0 <= k < (before + added).len() implies (#[trigger] (before
            + added)[k]).known() by {
            if k < before.len() {
                assert((before + added)[k] == before[k]);
            } else {
                assert((before + added)[k] == added[k - before.len()]);
            }
        }
    }
}

/// Markup is made of tags that the renderer writes and of escaped text.
/// With the tags left out, it is the escaped text of the source spans, which
/// is harmless.
pub proof fn lemma_markup_escaped(code: Seq<char>, events: Seq<Event>)
    requires
        rendered(code, events) is Ok,
    ensures
        rendered(code, events)->Ok_0 == whole(pieces(code, events, events.len())),
        tags_known(pieces(code, events, events.len())),
        untagged(pieces(code, events, events.len())) == escape(source_text(code, events)),
        harmless(untagged(pieces(code, events, events.len()))),
{
    lemma_progress_pieces(code, events, events.len());
    assert(events.take(events.len() as int) =~= events);
    lemma_escape_harmless(source_text(code, events));
}

/// The class of every scope of the vocabulary holds small letters and dashes
/// alone.
pub proof fn lemma_class_letters(scope: int)
    requires
        0 <= scope < scope_names().len(),
    ensures
        forall|i: int|
            0 <= i < dashed(scope_names()[scope]).len() ==> class_letter(
                #[trigger] dashed(scope_names()[scope])[i],
            ),
{
    lemma_scope_names_plain(scope);
    lemma_dashed_letters(scope_names()[scope]);
}

/// Whether every scope that `events` open has an index below `n`.
pub open spec fn scopes_below(events: Seq<Event>, n: nat) -> bool {
    forall|k: int|
        0 <= k < events.len() ==> match #[trigger] events[k] {
            Event::ScopeStart(scope) => scope < n,
            _ => true,
        }
}

/// Where every scope opened is one of the vocabulary, rendering fails only
/// on a source span, never on a scope.
pub proof fn lemma_scopes_known(code: Seq<char>, events: Seq<Event>)
    requires
        scopes_below(events, scope_names().len()),
    ensures
        rendered(code, events) is Err ==> rendered(code, events)->Err_0 is InvalidSpan,
{
    lemma_scopes_known_progress(code, events, events.len());
}

proof fn lemma_scopes_known_progress(code: Seq<char>, events: Seq<Event>, n: nat)
    requires
        scopes_below(events, scope_names().len()),
        n <= events.len(),
    ensures
        progress(code, events, n) is Err ==> progress(code, events, n)->Err_0 is InvalidSpan,
        progress(code, events, n) is Ok ==> forall|j: int|
            0 <= j < progress(code, events, n)->Ok_0.stack.len() ==> #[trigger] progress(
                code,
                events,
                n,
            )->Ok_0.stack[j] < scope_names().len(),
    decreases n,
{
    if n > 0 {
        lemma_scopes_known_progress(code, events, (n - 1) as nat);
        let before = progress(code, events, (n - 1) as nat);
        if before is Ok {
            let at = before->Ok_0;
            let event = events[n - 1];
            match event {
                Event::Source { start, end } => {
                    if at.stack.len() > 0 {
                        assert(at.stack.last() == at.stack[at.stack.len() - 1]);
                    }
                },
                _ => {},
            }
        }
    }
}

/// With no scope opened, the markup is the escaped text of the source spans.
pub proof fn lemma_unscoped_markup(code: Seq<char>, events: Seq<Event>)
    requires
        spans_ok(code, events),
        unscoped(events),
    ensures
        rendered(code, events) == Ok::<Seq<char>, RenderError>(
            escape(source_text(code, events)),
        ),
{
    lemma_unscoped_progress(code, events, events.len());
    assert(events.take(events.len() as int) =~= events);
}

proof fn lemma_unscoped_progress(code: Seq<char>, events: Seq<Event>, n: nat)
    requires
        spans_ok(code, events),
        unscoped(events),
        n <= events.len(),
    ensures
        progress(code, events, n) == Ok::<Progress, RenderError>(
            Progress {
                stack: Seq::empty(),
                out: escape(source_text(code, events.take(n as int))),
            },
        ),
    decreases n,
{
    broadcast use vstd::utf8::group_utf8_lib;

    if n == 0 {
        assert(events.take(0) =~= Seq::<Event>::empty());
    } else {
        lemma_unscoped_progress(code, events, (n - 1) as nat);
        let upto = events.take(n as int);
        assert(upto.drop_last() =~= events.take(n - 1));
        assert(upto.last() == events[n - 1]);
        let before = source_text(code, events.take(n - 1));
        match events[n - 1] {
            Event::Source { start, end } => {
                let text = span_text(code, start, end);
                lemma_escape_concat(before, text);
                if start == end {
                    assert(encode_utf8(code).subrange(start as int, end as int) =~= Seq::<
                        u8,
                    >::empty());
                    assert(text =~= Seq::<char>::empty());
                    assert(before + text =~= before);
                }
            },
            _ => {
                assert(before + Seq::<char>::empty() =~= before);
            },
        }
    }
}

/// Events over the empty code give no markup: where they can be rendered,
/// the result is empty.
pub proof fn lemma_empty_code_empty_markup(code: Seq<char>, events: Seq<Event>)
    requires
        code.len() == 0,
    ensures
        rendered(code, events) is Ok ==> rendered(code, events)->Ok_0.len() == 0,
{
    lemma_empty_code_progress(code, events, events.len());
}

proof fn lemma_empty_code_progress(code: Seq<char>, events: Seq<Event>, n: nat)
    requires
        code.len() == 0,
    ensures
        progress(code, events, n) is Ok ==> progress(code, events, n)->Ok_0.out.len() == 0,
    decreases n,
{
    if n > 0 {
        lemma_empty_code_progress(code, events, (n - 1) as nat);
        assert(encode_utf8(code).len() == 0);
    }
}

/// The part of `code` that the bytes `start..end` hold.
fn slice<'a>(code: &'a str, start: usize, end: usize) -> (text: &'a str)
    requires
        span_ok(code@, start, end),
        start < end,
    ensures
        text@ == span_text(code@, start, end),
{
    broadcast use vstd::utf8::group_utf8_lib;

    let (head, _) = code.split_at(end);
    proof {
        let bytes = encode_utf8(code@);
        let front = encode_utf8(head@);
        assert(front =~= bytes.subrange(0, end as int));
        assert(front[start as int] == bytes[start as int]);
        vstd::utf8::is_char_boundary_iff_not_is_continuation_byte(bytes, start as int);
        vstd::utf8::is_char_boundary_iff_not_is_continuation_byte(front, start as int);
    }
    let (_, text) = head.split_at(start);
    proof {
        let bytes = encode_utf8(code@);
        assert(encode_utf8(text@) =~= bytes.subrange(start as int, end as int));
    }
    text
}

/// Renders `events` over `code`. Scope events open and close scopes. A source
/// span that is not empty is escaped and, where a scope is open, wrapped in a
/// tag with the class of the innermost one. The result is the markup of all
/// spans in order, or the first error met.
pub fn render(code: &str, events: &[Event]) -> (r: Result<String, RenderError>)
    ensures
        match r {
            Ok(markup) => rendered(code@, events@) == Ok::<Seq<char>, RenderError>(markup@),
            Err(e) => rendered(code@, events@) == Err::<Seq<char>, RenderError>(e),
        },
{
    let names = highlights();
    let len = code.as_bytes().len();
    let mut out = String::new();
    let mut stack: Vec<usize> = Vec::new();
    let mut i: usize = 0;
    while i < events.len()
        invariant
            i <= events.len(),
            len == code.spec_bytes().len(),
            name_views(names@) == scope_names(),
            progress(code@, events@, i as nat) == Ok::<Progress, RenderError>(
                Progress { stack: stack@, out: out@ },
            ),
        decreases events.len() - i,
    {
        let ghost before = Progress { stack: stack@, out: out@ };
        assert(progress(code@, events@, (i + 1) as nat) == step(code@, before, events@[i as int]));
        match events[i] {
            Event::ScopeStart(scope) => {
                stack.push(scope);
            },
            Event::ScopeEnd => {
                if stack.len() > 0 {
                    stack.pop();
                }
            },
            Event::Failed => {},
            Event::Source { start, end } => {
                if !(start <= end && end <= len && code.is_char_boundary(start)
                    && code.is_char_boundary(end)) {
                    proof {
                        lemma_error_stays(code@, events@, (i + 1) as nat, events@.len());
                    }
                    return Err(RenderError::InvalidSpan { start, end });
                }
                if start < end {
                    let text = slice(code, start, end);
                    let escaped = escape_html(text);
                    if stack.len() == 0 {
                        out.append(escaped.as_str());
                    } else {
                        let scope = stack[stack.len() - 1];
                        if scope >= names.len() {
                            proof {
                                lemma_error_stays(code@, events@, (i + 1) as nat, events@.len());
                            }
                            return Err(RenderError::UnknownScope { scope });
                        }
                        assert(names@[scope as int]@ == name_views(names@)[scope as int]);
                        let class = class_name(names[scope]);
                        out.append("<span class=\"ts-");
                        out.append(class.as_str());
                        out.append("\">");
                        out.append(escaped.as_str());
                        out.append("</span>");
                        assert(out@ =~= before.out + span_markup(
                            scope_names()[scope as int],
                            span_text(code@, start, end),
                        ));
                    }
                }
            },
        }
        i += 1;
    }
    Ok(out)
}

} // verus!
