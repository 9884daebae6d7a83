//! The order of the blocks of a reply: they are numbered one after the other, texts and tool calls
//! take turns, each block is closed before the next one opens, and nothing is added to a block
//! that is not open.
use crate::anthropic::AnthropicMapper;
use crate::delta::{
    call_args, call_frames, call_name, deltas, entered, final_frames, fits, initial_frames, left,
    lemma_tag_sizes, text_frame, text_start_frame, text_stop_frame, CLOSE_TAG, OPEN_TAG,
};
use crate::engine::{after_delta, after_end, fresh, silence_error};
use crate::frames::{
    is_legible, lemma_events, lemma_first_block, lemma_read_text, lemma_read_text_start,
    lemma_read_text_stop, lemma_read_tool_input, lemma_read_tool_start, lemma_read_tool_stop,
};
use crate::json::{json_number, json_parse, json_text, JsonTree};
use crate::laws::{all_frames, concatenated, lemma_streamed_silence, streamed, takes_all};
use crate::mapper::{ChunkView, MapState};
use crate::text::{position, trimmed};
use vstd::prelude::*;

verus! {

// ---- The order ----------------------------------------------------------------------------

/// The data of every frame is read as it was written; reading it shows it.
pub open spec fn all_legible(frames: Seq<ChunkView>) -> bool {
    forall|i: int| 0 <= i < frames.len() ==> is_legible(#[trigger] frames[i])
}

/// The frame is of the kind `event` and bears the number `number`.
pub open spec fn concerns(f: ChunkView, event: Seq<char>, number: int) -> bool {
    &&& f.event == Some(event)
    &&& 0 <= number <= u32::MAX
    &&& json_parse(f.data) matches Some(tree)
    &&& tree.member("index"@) == Some(JsonTree::Number(json_number(number as u32)))
}

/// What the block `number` is: the even ones are text, and the odd ones call tools.
pub open spec fn block_kind(number: int) -> Seq<char> {
    if number % 2 == 0 {
        "text"@
    } else {
        "tool_use"@
    }
}

/// The frame opens the block `number` as what it is.
pub open spec fn opens(f: ChunkView, number: int) -> bool {
    &&& concerns(f, "content_block_start"@, number)
    &&& json_parse(f.data) matches Some(tree)
    &&& tree.member("content_block"@) matches Some(block)
    &&& block.member_text("type"@) == Some(block_kind(number))
}

/// The frame adds to the block `number`.
pub open spec fn extends(f: ChunkView, number: int) -> bool {
    concerns(f, "content_block_delta"@, number)
}

/// The frame closes the block `number`.
pub open spec fn closes(f: ChunkView, number: int) -> bool {
    concerns(f, "content_block_stop"@, number)
}

/// The block that came last, and whether it is open.
pub struct Place {
    pub number: int,
    pub open: bool,
}

/// The frames lead from one place to another: to add to a block or to close it, it must be open,
/// and to open the next one, it must be closed.
pub open spec fn lead(frames: Seq<ChunkView>, from: Place, to: Place) -> bool
    decreases frames.len(),
{
    if frames.len() == 0 {
        from == to
    } else {
        let f = frames[0];
        let rest = frames.skip(1);
        ||| from.open && extends(f, from.number) && lead(rest, from, to)
        ||| from.open && closes(f, from.number) && lead(rest, Place { open: false, ..from }, to)
        ||| !from.open && opens(f, from.number + 1) && lead(
            rest,
            Place { number: from.number + 1, open: true },
            to,
        )
    }
}

/// The frames of the kind `event`.
pub open spec fn with_event(frames: Seq<ChunkView>, event: Seq<char>) -> Seq<ChunkView>
    decreases frames.len(),
{
    if frames.len() == 0 {
        Seq::empty()
    } else {
        (if frames[0].event == Some(event) {
            seq![frames[0]]
        } else {
            Seq::empty()
        }) + with_event(frames.skip(1), event)
    }
}

/// The frames of a whole message keep the order of its blocks, of which `last` is the last one:
/// after the frame that starts the message come those of the blocks, from the first one on until
/// the last one is closed, and two that end the message. Each block is opened once and closed
/// once.
pub open spec fn in_order(frames: Seq<ChunkView>, last: int) -> bool {
    let middle = frames.subrange(1, frames.len() - 2);
    let starts = with_event(middle, "content_block_start"@);
    let stops = with_event(middle, "content_block_stop"@);
    &&& frames.len() >= 3
    &&& frames[0].event == Some("message_start"@)
    &&& lead(middle, Place { number: -1, open: false }, Place { number: last, open: false })
    &&& starts.len() == last + 1
    &&& forall|i: int| 0 <= i <= last ==> opens(#[trigger] starts[i], i)
    &&& stops.len() == last + 1
    &&& forall|i: int| 0 <= i <= last ==> closes(#[trigger] stops[i], i)
    &&& frames[frames.len() - 2].event == Some("message_delta"@)
    &&& frames.last().event == Some("message_stop"@)
}

/// The place of a mapper: outside a tool call a text block is open.
pub open spec fn place(state: MapState) -> Place {
    Place { number: 2 * state.index as int, open: !state.in_call }
}

/// Every tool call that `text` completes is JSON.
pub open spec fn all_read(state: MapState, text: Seq<char>) -> bool
    decreases text.len(),
    via all_read_decreases
{
    if text.len() == 0 {
        true
    } else if !state.in_call {
        match position(text, OPEN_TAG@) {
            Some(k) => all_read(entered(state), text.skip(k + OPEN_TAG@.len())),
            None => true,
        }
    } else {
        match position(text, CLOSE_TAG@) {
            Some(k) => {
                let body = trimmed(state.buffer + text.take(k));
                &&& body.len() > 0
                &&& json_parse(body) is Some
                &&& all_read(left(state, body), text.skip(k + CLOSE_TAG@.len()))
            },
            None => true,
        }
    }
}

#[via_fn]
proof fn all_read_decreases(state: MapState, text: Seq<char>) {
    lemma_tag_sizes(text);
}

proof fn lemma_lead_concat(a: Seq<ChunkView>, b: Seq<ChunkView>, x: Place, y: Place, z: Place)
    requires
        lead(a, x, y),
        lead(b, y, z),
    ensures
        lead(a + b, x, z),
    decreases a.len(),
{
    if a.len() == 0 {
        assert(a + b =~= b);
    } else {
        let rest = a.skip(1);
        assert((a + b)[0] == a[0]);
        assert((a + b).skip(1) =~= rest + b);
        if x.open && extends(a[0], x.number) && lead(rest, x, y) {
            lemma_lead_concat(rest, b, x, y, z);
        } else if x.open {
            lemma_lead_concat(rest, b, Place { open: false, ..x }, y, z);
        } else {
            lemma_lead_concat(rest, b, Place { number: x.number + 1, open: true }, y, z);
        }
    }
}

/// The first block that is closed from a place on.
spec fn first_closed(place: Place) -> int {
    if place.open {
        place.number
    } else {
        place.number + 1
    }
}

proof fn lemma_lead_once(frames: Seq<ChunkView>, x: Place, y: Place)
    requires
        lead(frames, x, y),
    ensures
        with_event(frames, "content_block_start"@).len() == y.number - x.number,
        forall|i: int|
            0 <= i < y.number - x.number ==> opens(
                #[trigger] with_event(frames, "content_block_start"@)[i],
                x.number + 1 + i,
            ),
        with_event(frames, "content_block_stop"@).len() == first_closed(y) - first_closed(x),
        forall|i: int|
            0 <= i < first_closed(y) - first_closed(x) ==> closes(
                #[trigger] with_event(frames, "content_block_stop"@)[i],
                first_closed(x) + i,
            ),
    decreases frames.len(),
{
    lemma_events();
    if frames.len() > 0 {
        let f = frames[0];
        let rest = frames.skip(1);
        let starts = with_event(rest, "content_block_start"@);
        let stops = with_event(rest, "content_block_stop"@);
        if x.open && extends(f, x.number) && lead(rest, x, y) {
            lemma_lead_once(rest, x, y);
            assert(with_event(frames, "content_block_start"@) =~= starts);
            assert(with_event(frames, "content_block_stop"@) =~= stops);
        } else if x.open {
            lemma_lead_once(rest, Place { open: false, ..x }, y);
            assert(with_event(frames, "content_block_start"@) =~= starts);
            let all = with_event(frames, "content_block_stop"@);
            assert(all =~= seq![f] + stops);
            assert forall|i: int| 0 <= i < first_closed(y) - first_closed(x) implies closes(
                #[trigger] all[i],
                first_closed(x) + i,
            ) by {
                if i > 0 {
                    assert(all[i] == stops[i - 1]);
                }
            }
        } else {
            lemma_lead_once(rest, Place { number: x.number + 1, open: true }, y);
            assert(with_event(frames, "content_block_stop"@) =~= stops);
            let all = with_event(frames, "content_block_start"@);
            assert(all =~= seq![f] + starts);
            assert forall|i: int| 0 <= i < y.number - x.number implies opens(
                #[trigger] all[i],
                x.number + 1 + i,
            ) by {
                if i > 0 {
                    assert(all[i] == starts[i - 1]);
                }
            }
        }
    }
}

proof fn lemma_legible_split(a: Seq<ChunkView>, b: Seq<ChunkView>)
    requires
        all_legible(a + b),
    ensures
        all_legible(a),
        all_legible(b),
{
    assert forall|i: int| 0 <= i < a.len() implies is_legible(#[trigger] a[i]) by {
        assert((a + b)[i] == a[i]);
    }
    assert forall|i: int| 0 <= i < b.len() implies is_legible(#[trigger] b[i]) by {
        assert((a + b)[a.len() + i] == b[i]);
    }
}

proof fn lemma_lead_delta(f: ChunkView, x: Place)
    requires
        x.open,
        extends(f, x.number),
    ensures
        lead(seq![f], x, x),
{
    assert(seq![f].skip(1) =~= Seq::empty());
    assert(lead(Seq::empty(), x, x));
}

proof fn lemma_lead_stop(f: ChunkView, x: Place)
    requires
        x.open,
        closes(f, x.number),
    ensures
        lead(seq![f], x, (Place { open: false, ..x })),
{
    let y = Place { open: false, ..x };
    assert(seq![f].skip(1) =~= Seq::empty());
    assert(lead(Seq::empty(), y, y));
}

proof fn lemma_lead_start(f: ChunkView, x: Place)
    requires
        !x.open,
        opens(f, x.number + 1),
    ensures
        lead(seq![f], x, (Place { number: x.number + 1, open: true })),
{
    let y = Place { number: x.number + 1, open: true };
    assert(seq![f].skip(1) =~= Seq::empty());
    assert(lead(Seq::empty(), y, y));
}

proof fn lemma_call_in_order(index: nat, body: Seq<char>, call: JsonTree)
    requires
        body.len() > 0,
        2 * index + 2 <= u32::MAX,
        all_legible(call_frames(index, body, Some(call)) + seq![text_start_frame(2 * index + 2)]),
    ensures
        lead(
            call_frames(index, body, Some(call)) + seq![text_start_frame(2 * index + 2)],
            Place { number: 2 * index as int, open: false },
            Place { number: (2 * index + 2) as int, open: true },
        ),
{
    let block = (2 * index + 1) as int;
    let frames = call_frames(index, body, Some(call));
    let start = frames[0];
    let input = frames[1];
    let stop = frames[2];
    let next = text_start_frame(2 * index + 2);
    let a = seq![start];
    let b = seq![input];
    let c = seq![stop];
    let d = seq![next];
    assert(frames =~= a + b + c);
    lemma_legible_split(frames, d);
    assert(is_legible(frames[0]) && is_legible(frames[1]) && is_legible(frames[2]));
    assert(is_legible(d[0]));
    lemma_read_tool_start(start, block, index, call_name(call));
    lemma_read_tool_input(input, block, json_text(call_args(call)));
    lemma_read_tool_stop(stop, block);
    lemma_read_text_start(2 * index + 2);
    let before = Place { number: 2 * index as int, open: false };
    let within = Place { number: block, open: true };
    let behind = Place { number: block, open: false };
    let after = Place { number: (2 * index + 2) as int, open: true };
    lemma_lead_start(start, before);
    lemma_lead_delta(input, within);
    lemma_lead_stop(stop, within);
    lemma_lead_start(next, behind);
    lemma_lead_concat(a, b, before, within, within);
    lemma_lead_concat(a + b, c, before, within, behind);
    lemma_lead_concat(frames, d, before, behind, after);
}

// ---- The laws -----------------------------------------------------------------------------

/// The frames of a piece of text keep the order of the blocks, as long as every tool call that it
/// completes is JSON.
pub proof fn law_piece_in_order(state: MapState, text: Seq<char>)
    requires
        fits(state, text),
        all_read(state, text),
        all_legible(deltas(state, text).1),
    ensures
        lead(deltas(state, text).1, place(state), place(deltas(state, text).0)),
    decreases text.len(),
{
    lemma_tag_sizes(text);
    let frames = deltas(state, text).1;
    let here = place(state);
    let block = 2 * state.index;
    if text.len() == 0 {
    } else if !state.in_call {
        match position(text, OPEN_TAG@) {
            Some(k) => {
                let rest_text = text.skip(k + 11);
                let rest = deltas(entered(state), rest_text);
                let before = if k > 0 {
                    seq![text_frame(block as int, text.take(k))]
                } else {
                    Seq::empty()
                };
                let stop = seq![text_stop_frame(block)];
                assert(frames == before + stop + rest.1);
                lemma_legible_split(before + stop, rest.1);
                lemma_legible_split(before, stop);
                if k > 0 {
                    assert(is_legible(before[0]));
                    lemma_read_text(block as int, text.take(k));
                    lemma_lead_delta(before[0], here);
                }
                assert(is_legible(stop[0]));
                lemma_read_text_stop(block);
                lemma_lead_stop(stop[0], here);
                let closed = place(entered(state));
                lemma_lead_concat(before, stop, here, here, closed);
                law_piece_in_order(entered(state), rest_text);
                lemma_lead_concat(before + stop, rest.1, here, closed, place(rest.0));
            },
            None => {
                assert(is_legible(frames[0]));
                lemma_read_text(block as int, text);
                lemma_lead_delta(frames[0], here);
            },
        }
    } else {
        match position(text, CLOSE_TAG@) {
            Some(k) => {
                let body = trimmed(state.buffer + text.take(k));
                let rest_text = text.skip(k + 12);
                let next = left(state, body);
                let rest = deltas(next, rest_text);
                let call = call_frames(state.index, body, json_parse(body));
                let start = seq![text_start_frame(block + 2)];
                assert(frames == call + start + rest.1);
                lemma_legible_split(call + start, rest.1);
                lemma_call_in_order(state.index, body, json_parse(body)->0);
                law_piece_in_order(next, rest_text);
                lemma_lead_concat(call + start, rest.1, here, place(next), place(rest.0));
            },
            None => {},
        }
    }
}

proof fn lemma_number_fits(state: MapState, text: Seq<char>)
    requires
        fits(state, text),
        2 * state.index <= u32::MAX,
    ensures
        2 * deltas(state, text).0.index <= u32::MAX,
    decreases text.len(),
{
    lemma_tag_sizes(text);
    if text.len() > 0 {
        if !state.in_call {
            if let Some(k) = position(text, OPEN_TAG@) {
                lemma_number_fits(entered(state), text.skip(k + 11));
            }
        } else if let Some(k) = position(text, CLOSE_TAG@) {
            let body = trimmed(state.buffer + text.take(k));
            lemma_number_fits(left(state, body), text.skip(k + 12));
        }
    }
}

/// Every tool call that the pieces complete is JSON.
pub open spec fn all_read_in(model: Seq<char>, pieces: Seq<Seq<char>>) -> bool
    decreases pieces.len(),
{
    pieces.len() > 0 ==> {
        &&& all_read_in(model, pieces.drop_last())
        &&& all_read(streamed(model, pieces.drop_last()).0.state, pieces.last())
    }
}

proof fn lemma_streamed_in_order(model: Seq<char>, pieces: Seq<Seq<char>>)
    requires
        takes_all(model, pieces),
        all_read_in(model, pieces),
        all_legible(streamed(model, pieces).1),
    ensures
        lead(
            streamed(model, pieces).1,
            Place { number: 0, open: true },
            place(streamed(model, pieces).0.state),
        ),
        2 * streamed(model, pieces).0.state.index <= u32::MAX,
    decreases pieces.len(),
{
    if pieces.len() > 0 {
        let before = streamed(model, pieces.drop_last());
        let step = after_delta::<AnthropicMapper>(before.0, pieces.last());
        lemma_legible_split(before.1, step.frames);
        lemma_streamed_in_order(model, pieces.drop_last());
        law_piece_in_order(before.0.state, pieces.last());
        lemma_number_fits(before.0.state, pieces.last());
        lemma_lead_concat(
            before.1,
            step.frames,
            Place { number: 0, open: true },
            place(before.0.state),
            place(step.transcript.state),
        );
    }
}

/// The frames of a message of which these are the pieces: those that start it, those of the
/// pieces, and those that end it.
pub open spec fn message_frames(model: Seq<char>, pieces: Seq<Seq<char>>) -> Seq<ChunkView> {
    initial_frames(model) + streamed(model, pieces).1 + final_frames(
        streamed(model, pieces).0.state.index,
    )
}

/// The frames of a message keep the order of its blocks, whatever the pieces of its text, if any.
/// So it is where every tool call is JSON and the text does not end within one.
pub proof fn law_blocks_in_order(model: Seq<char>, pieces: Seq<Seq<char>>)
    requires
        takes_all(model, pieces),
        all_read_in(model, pieces),
        !streamed(model, pieces).0.state.in_call,
        all_legible(message_frames(model, pieces)),
    ensures
        in_order(
            message_frames(model, pieces),
            2 * streamed(model, pieces).0.state.index as int,
        ),
{
    let frames = message_frames(model, pieces);
    let middle = streamed(model, pieces);
    let calls = middle.0.state.index;
    let start = initial_frames(model);
    let end = final_frames(calls);
    lemma_legible_split(start + middle.1, end);
    lemma_legible_split(start, middle.1);
    lemma_streamed_in_order(model, pieces);
    let first = seq![text_start_frame(0)];
    lemma_first_block(model);
    assert(is_legible(start[1]));
    lemma_read_text_start(0);
    let none = Place { number: -1, open: false };
    let zero = Place { number: 0, open: true };
    let last = Place { number: 2 * calls as int, open: false };
    lemma_lead_start(first[0], none);
    lemma_lead_concat(first, middle.1, none, zero, place(middle.0.state));
    let stop = seq![text_stop_frame(2 * calls)];
    assert(is_legible(end[0]));
    lemma_read_text_stop(2 * calls);
    lemma_lead_stop(stop[0], place(middle.0.state));
    lemma_lead_concat(first + middle.1, stop, none, place(middle.0.state), last);
    assert(frames.subrange(1, frames.len() - 2) =~= first + middle.1 + stop);
    lemma_lead_once(first + middle.1 + stop, none, last);
}

/// What the client is told: the pieces of the backend's text, or the error where it said nothing.
pub open spec fn told(pieces: Seq<Seq<char>>, last_error: Option<Seq<char>>) -> Seq<Seq<char>> {
    match silence_error(concatenated(pieces), last_error) {
        Some(error) => seq![error],
        None => pieces,
    }
}

proof fn lemma_content(model: Seq<char>, pieces: Seq<Seq<char>>)
    ensures
        streamed(model, pieces).0.content == concatenated(pieces),
        streamed(model, pieces).0.model == model,
    decreases pieces.len(),
{
    if pieces.len() > 0 {
        lemma_content(model, pieces.drop_last());
    }
}

/// A reply to the end is the message of which the pieces are what the client is told, so that its
/// frames keep the order of the blocks, too.
pub proof fn law_reply_in_order(
    model: Seq<char>,
    pieces: Seq<Seq<char>>,
    last_error: Option<Seq<char>>,
)
    ensures
        all_frames(model, pieces, last_error) == message_frames(model, told(pieces, last_error)),
        ({
            let said = told(pieces, last_error);
            &&& takes_all(model, said)
            &&& all_read_in(model, said)
            &&& !streamed(model, said).0.state.in_call
            &&& all_legible(all_frames(model, pieces, last_error))
        }) ==> in_order(
            all_frames(model, pieces, last_error),
            2 * streamed(model, told(pieces, last_error)).0.state.index as int,
        ),
{
    let said = told(pieces, last_error);
    let t = streamed(model, pieces).0;
    lemma_content(model, pieces);
    if let Some(error) = silence_error(concatenated(pieces), last_error) {
        lemma_streamed_silence(model, pieces);
        assert(said.drop_last() =~= Seq::empty());
        assert(streamed(model, said.drop_last()) == (fresh(model), Seq::<ChunkView>::empty()));
        let step = after_delta::<AnthropicMapper>(fresh(model), error);
        assert(streamed(model, said).1 =~= step.frames);
        assert(all_frames(model, pieces, last_error) =~= message_frames(model, said));
    } else {
        assert(after_end::<AnthropicMapper>(t, last_error).frames =~= final_frames(t.state.index));
    }
    if takes_all(model, said) && all_read_in(model, said) && !streamed(model, said).0.state.in_call
        && all_legible(message_frames(model, said)) {
        law_blocks_in_order(model, said);
    }
}

} // verus!
