//! What holds of a whole reply: the message that is collected from its frames says what the
//! backend said, and calls the tools that it called.
use crate::anthropic::AnthropicMapper;
use crate::delta::{
    call_args, call_frames, call_name, deltas, entered, final_frames, fits, frame,
    initial_frames, left, lemma_tag_sizes, stop_reason, tagged, text_frame, text_start_frame, text_stop_frame,
    tool_input_tree, tool_start_tree, tool_stop_tree, CLOSE_TAG, OPEN_TAG,
};
use crate::engine::{
    after_delta, after_end, after_error, can_tell, fresh, silence_error, TranscriptView,
    SILENT_BACKEND,
};
use crate::frames::{
    lemma_events, lemma_first_block, lemma_keys, lemma_read_text, lemma_read_text_start,
    lemma_read_tool_input, lemma_read_tool_start,
};
use crate::json::{json_parse, json_text, reads_as_written, reads_back, JsonTree};
use crate::mapper::{ChunkView, MapState, ProtocolMapper};
use crate::pieces::{lemma_position_second, uncut};
use crate::reply::{
    absorbed, are_calls, collected, content_blocks, is_read, is_tool_use, legible,
    message_stop_reason, nothing, only_calls, ReplyView,
};
use crate::text::{
    has_text, lemma_first_is_position, lemma_position, occurs_at, position, trimmed,
};
use vstd::prelude::*;

verus! {

// ---- What a reply says --------------------------------------------------------------------

/// What the client reads of `text`: all of it but the tool calls; a tool call that is not JSON
/// is read as it stands.
pub open spec fn said(state: MapState, text: Seq<char>) -> Seq<char>
    decreases text.len(),
    via said_decreases
{
    if text.len() == 0 {
        Seq::empty()
    } else if !state.in_call {
        match position(text, OPEN_TAG@) {
            Some(k) => text.take(k) + said(entered(state), text.skip(k + OPEN_TAG@.len())),
            None => text,
        }
    } else {
        match position(text, CLOSE_TAG@) {
            Some(k) => {
                let body = trimmed(state.buffer + text.take(k));
                (if body.len() > 0 && json_parse(body) is None {
                    tagged(body)
                } else {
                    Seq::empty()
                }) + said(left(state, body), text.skip(k + CLOSE_TAG@.len()))
            },
            None => Seq::empty(),
        }
    }
}

/// The block that calls the tool of `call`, after `index` other calls.
pub open spec fn call_block(index: nat, call: JsonTree) -> JsonTree {
    tool_start_tree((2 * index + 1) as int, index, call_name(call)).member("content_block"@)->0
}

/// The blocks that call the tools that `text` calls.
pub open spec fn called(state: MapState, text: Seq<char>) -> Seq<JsonTree>
    decreases text.len(),
    via called_decreases
{
    if text.len() == 0 {
        Seq::empty()
    } else if !state.in_call {
        match position(text, OPEN_TAG@) {
            Some(k) => called(entered(state), text.skip(k + OPEN_TAG@.len())),
            None => Seq::empty(),
        }
    } else {
        match position(text, CLOSE_TAG@) {
            Some(k) => {
                let body = trimmed(state.buffer + text.take(k));
                (if body.len() > 0 && json_parse(body) is Some {
                    seq![call_block(state.index, json_parse(body)->0)]
                } else {
                    Seq::empty()
                }) + called(left(state, body), text.skip(k + CLOSE_TAG@.len()))
            },
            None => Seq::empty(),
        }
    }
}

#[via_fn]
proof fn said_decreases(state: MapState, text: Seq<char>) {
    lemma_tag_sizes(text);
}

#[via_fn]
proof fn called_decreases(state: MapState, text: Seq<char>) {
    lemma_tag_sizes(text);
}

proof fn lemma_collected_concat(reply: ReplyView, a: Seq<ChunkView>, b: Seq<ChunkView>)
    ensures
        collected(reply, a + b) == collected(collected(reply, a), b),
    decreases b.len(),
{
    if b.len() == 0 {
        assert(a + b =~= a);
    } else {
        lemma_collected_concat(reply, a, b.drop_last());
        assert((a + b).drop_last() =~= a + b.drop_last());
    }
}

proof fn lemma_legible_parts(a: Seq<ChunkView>, b: Seq<ChunkView>)
    requires
        legible(a + b),
    ensures
        legible(a),
        legible(b),
{
    assert forall|i: int| 0 <= i < a.len() && is_read(a[i].event) implies reads_as_written(
        (#[trigger] a[i]).data,
        json_parse(a[i].data),
    ) by {
        assert((a + b)[i] == a[i]);
    }
    assert forall|i: int| 0 <= i < b.len() && is_read(b[i].event) implies reads_as_written(
        (#[trigger] b[i]).data,
        json_parse(b[i].data),
    ) by {
        assert((a + b)[a.len() + i] == b[i]);
    }
}

proof fn lemma_collected_one(reply: ReplyView, f: ChunkView)
    ensures
        collected(reply, seq![f]) == absorbed(reply, f.event, json_parse(f.data)),
{
    assert(seq![f].drop_last() =~= Seq::empty());
    assert(collected(reply, Seq::empty()) == reply);
}

// ---- The frames, read ---------------------------------------------------------------------

proof fn lemma_text_frame(reply: ReplyView, index: int, text: Seq<char>)
    requires
        legible(seq![text_frame(index, text)]),
    ensures
        collected(reply, seq![text_frame(index, text)]) == (ReplyView {
            text: reply.text + text,
            ..reply
        }),
{
    let f = text_frame(index, text);
    lemma_collected_one(reply, f);
    lemma_events();
    assert(seq![f][0] == f);
    lemma_read_text(index, text);
}

proof fn lemma_unread_frame(reply: ReplyView, f: ChunkView)
    requires
        !is_read(f.event),
    ensures
        collected(reply, seq![f]) == reply,
{
    lemma_collected_one(reply, f);
}

proof fn lemma_tool_start_frame(reply: ReplyView, index: nat, call: JsonTree)
    requires
        legible(
            seq![
                frame(
                    "content_block_start"@,
                    json_text(tool_start_tree((2 * index + 1) as int, index, call_name(call))),
                ),
            ],
        ),
    ensures
        collected(
            reply,
            seq![
                frame(
                    "content_block_start"@,
                    json_text(tool_start_tree((2 * index + 1) as int, index, call_name(call))),
                ),
            ],
        ) == (ReplyView { calls: reply.calls.push(call_block(index, call)), ..reply }),
{
    let block = (2 * index + 1) as int;
    let f = frame("content_block_start"@, json_text(tool_start_tree(block, index, call_name(call))));
    lemma_collected_one(reply, f);
    lemma_events();
    assert(seq![f][0] == f);
    lemma_read_tool_start(f, block, index, call_name(call));
}

proof fn lemma_tool_input_frame(reply: ReplyView, index: int, args: Seq<char>)
    requires
        legible(seq![frame("content_block_delta"@, json_text(tool_input_tree(index, args)))]),
    ensures
        collected(
            reply,
            seq![frame("content_block_delta"@, json_text(tool_input_tree(index, args)))],
        ) == reply,
{
    let f = frame("content_block_delta"@, json_text(tool_input_tree(index, args)));
    lemma_collected_one(reply, f);
    lemma_events();
    assert(seq![f][0] == f);
    lemma_read_tool_input(f, index, args);
}

proof fn lemma_text_start_frame(reply: ReplyView, index: nat)
    requires
        index <= u32::MAX,
        legible(seq![text_start_frame(index)]),
    ensures
        collected(reply, seq![text_start_frame(index)]) == reply,
{
    let f = text_start_frame(index);
    lemma_collected_one(reply, f);
    lemma_events();
    assert(seq![f][0] == f);
    lemma_read_text_start(index);
    reveal_strlit("text");
    reveal_strlit("tool_use");
    assert("text"@.len() != "tool_use"@.len());
}

proof fn lemma_call_frames(reply: ReplyView, index: nat, body: Seq<char>, parsed: Option<JsonTree>)
    requires
        legible(call_frames(index, body, parsed)),
    ensures
        collected(reply, call_frames(index, body, parsed)) == (ReplyView {
            text: reply.text + (if body.len() > 0 && parsed is None {
                tagged(body)
            } else {
                Seq::empty()
            }),
            calls: reply.calls + (if body.len() > 0 && parsed is Some {
                seq![call_block(index, parsed->0)]
            } else {
                Seq::empty()
            }),
        }),
{
    let frames = call_frames(index, body, parsed);
    assert(reply.text + Seq::empty() =~= reply.text);
    assert(reply.calls + Seq::empty() =~= reply.calls);
    if body.len() > 0 {
        let block = (2 * index + 1) as int;
        match parsed {
            Some(call) => {
                let start = seq![
                    frame(
                        "content_block_start"@,
                        json_text(tool_start_tree(block, index, call_name(call))),
                    ),
                ];
                let input = seq![
                    frame(
                        "content_block_delta"@,
                        json_text(tool_input_tree(block, json_text(call_args(call)))),
                    ),
                ];
                let stop = seq![frame("content_block_stop"@, json_text(tool_stop_tree(block)))];
                assert(frames =~= start + input + stop);
                lemma_legible_parts(start + input, stop);
                lemma_legible_parts(start, input);
                lemma_collected_concat(reply, start + input, stop);
                lemma_collected_concat(reply, start, input);
                lemma_tool_start_frame(reply, index, call);
                let with_call = collected(reply, start);
                lemma_tool_input_frame(with_call, block, json_text(call_args(call)));
                lemma_events();
                lemma_unread_frame(with_call, stop[0]);
                assert(reply.calls.push(call_block(index, call)) =~= reply.calls + seq![
                    call_block(index, call),
                ]);
            },
            None => {
                lemma_text_frame(reply, block, tagged(body));
            },
        }
    }
}

/// The message collected from the frames of a piece of text says what the text says and calls the
/// tools that it calls.
pub proof fn law_collected_piece(reply: ReplyView, state: MapState, text: Seq<char>)
    requires
        fits(state, text),
        legible(deltas(state, text).1),
    ensures
        collected(reply, deltas(state, text).1) == (ReplyView {
            text: reply.text + said(state, text),
            calls: reply.calls + called(state, text),
        }),
        deltas(state, text).0.index == state.index + called(state, text).len(),
    decreases text.len(),
{
    lemma_tag_sizes(text);
    lemma_events();
    let frames = deltas(state, text).1;
    let block = 2 * state.index;
    if text.len() == 0 {
        assert(collected(reply, frames) == reply);
        assert(reply.text + said(state, text) =~= reply.text);
        assert(reply.calls + called(state, text) =~= reply.calls);
    } else if !state.in_call {
        match position(text, OPEN_TAG@) {
            Some(k) => {
                let rest_text = text.skip(k + 11);
                let rest = deltas(entered(state), rest_text);
                let before = if k > 0 {
                    seq![text_frame(block as int, text.take(k))]
                } else {
                    Seq::empty()
                };
                let stop = seq![text_stop_frame(block)];
                assert(frames == before + stop + rest.1);
                lemma_legible_parts(before + stop, rest.1);
                lemma_legible_parts(before, stop);
                lemma_collected_concat(reply, before + stop, rest.1);
                lemma_collected_concat(reply, before, stop);
                let first = collected(reply, before);
                if k > 0 {
                    lemma_text_frame(reply, block as int, text.take(k));
                } else {
                    assert(reply.text + text.take(k) =~= reply.text);
                }
                assert(first == (ReplyView { text: reply.text + text.take(k), ..reply }));
                lemma_unread_frame(first, stop[0]);
                law_collected_piece(first, entered(state), rest_text);
                assert(reply.text + said(state, text) =~= reply.text + text.take(k) + said(
                    entered(state),
                    rest_text,
                ));
            },
            None => {
                lemma_text_frame(reply, block as int, text);
                assert(reply.calls + called(state, text) =~= reply.calls);
            },
        }
    } else {
        match position(text, CLOSE_TAG@) {
            Some(k) => {
                let body = trimmed(state.buffer + text.take(k));
                let rest_text = text.skip(k + 12);
                let next = left(state, body);
                let rest = deltas(next, rest_text);
                let call = call_frames(state.index, body, json_parse(body));
                let start = seq![text_start_frame(block + 2)];
                assert(frames == call + start + rest.1);
                lemma_legible_parts(call + start, rest.1);
                lemma_legible_parts(call, start);
                lemma_collected_concat(reply, call + start, rest.1);
                lemma_collected_concat(reply, call, start);
                lemma_call_frames(reply, state.index, body, json_parse(body));
                let first = collected(reply, call);
                lemma_text_start_frame(first, block + 2);
                law_collected_piece(first, next, rest_text);
                assert(reply.text + said(state, text) =~= first.text + said(next, rest_text));
                assert(reply.calls + called(state, text) =~= first.calls + called(
                    next,
                    rest_text,
                ));
            },
            None => {
                assert(collected(reply, frames) == reply);
                assert(reply.text + said(state, text) =~= reply.text);
                assert(reply.calls + called(state, text) =~= reply.calls);
            },
        }
    }
}

// ---- A whole reply ------------------------------------------------------------------------

/// The transcript and the frames after `pieces` of the backend's text.
pub open spec fn streamed(model: Seq<char>, pieces: Seq<Seq<char>>) -> (
    TranscriptView,
    Seq<ChunkView>,
)
    decreases pieces.len(),
{
    if pieces.len() == 0 {
        (fresh(model), Seq::empty())
    } else {
        let before = streamed(model, pieces.drop_last());
        let step = after_delta::<AnthropicMapper>(before.0, pieces.last());
        (step.transcript, before.1 + step.frames)
    }
}

/// The engine takes each of the pieces.
pub open spec fn takes_all(model: Seq<char>, pieces: Seq<Seq<char>>) -> bool
    decreases pieces.len(),
{
    pieces.len() > 0 ==> {
        &&& takes_all(model, pieces.drop_last())
        &&& <AnthropicMapper as ProtocolMapper>::accepts(
            streamed(model, pieces.drop_last()).0.state,
            pieces.last(),
            false,
        )
    }
}

/// What the client reads of the pieces.
pub open spec fn said_in_all(model: Seq<char>, pieces: Seq<Seq<char>>) -> Seq<char>
    decreases pieces.len(),
{
    if pieces.len() == 0 {
        Seq::empty()
    } else {
        said_in_all(model, pieces.drop_last()) + said(
            streamed(model, pieces.drop_last()).0.state,
            pieces.last(),
        )
    }
}

/// The blocks that call the tools that the pieces call.
pub open spec fn called_in_all(model: Seq<char>, pieces: Seq<Seq<char>>) -> Seq<JsonTree>
    decreases pieces.len(),
{
    if pieces.len() == 0 {
        Seq::empty()
    } else {
        called_in_all(model, pieces.drop_last()) + called(
            streamed(model, pieces.drop_last()).0.state,
            pieces.last(),
        )
    }
}

/// The pieces, one after the other.
pub open spec fn concatenated(pieces: Seq<Seq<char>>) -> Seq<char>
    decreases pieces.len(),
{
    if pieces.len() == 0 {
        Seq::empty()
    } else {
        concatenated(pieces.drop_last()) + pieces.last()
    }
}

proof fn lemma_streamed(model: Seq<char>, pieces: Seq<Seq<char>>)
    requires
        takes_all(model, pieces),
        legible(streamed(model, pieces).1),
    ensures
        collected(nothing(), streamed(model, pieces).1) == (ReplyView {
            text: said_in_all(model, pieces),
            calls: called_in_all(model, pieces),
        }),
        streamed(model, pieces).0.state.index == called_in_all(model, pieces).len(),
        streamed(model, pieces).0.content == concatenated(pieces),
        streamed(model, pieces).0.model == model,
    decreases pieces.len(),
{
    if pieces.len() > 0 {
        let front = pieces.drop_last();
        let before = streamed(model, front);
        let step = after_delta::<AnthropicMapper>(before.0, pieces.last());
        lemma_legible_parts(before.1, step.frames);
        lemma_streamed(model, front);
        lemma_collected_concat(nothing(), before.1, step.frames);
        law_collected_piece(
            collected(nothing(), before.1),
            before.0.state,
            pieces.last(),
        );
    }
}

proof fn lemma_initial_frames(model: Seq<char>)
    requires
        legible(initial_frames(model)),
    ensures
        collected(nothing(), initial_frames(model)) == nothing(),
{
    let frames = initial_frames(model);
    let start = seq![frames[0]];
    let block = seq![frames[1]];
    assert(frames =~= start + block);
    lemma_legible_parts(start, block);
    lemma_collected_concat(nothing(), start, block);
    lemma_events();
    lemma_unread_frame(nothing(), frames[0]);
    lemma_first_block(model);
    lemma_text_start_frame(nothing(), 0);
}

proof fn lemma_final_frames(reply: ReplyView, index: nat)
    ensures
        collected(reply, final_frames(index)) == reply,
{
    let frames = final_frames(index);
    lemma_events();
    let a = seq![frames[0]];
    let b = seq![frames[1]];
    let c = seq![frames[2]];
    assert(frames =~= a + b + c);
    lemma_collected_concat(reply, a + b, c);
    lemma_collected_concat(reply, a, b);
    lemma_unread_frame(reply, frames[0]);
    lemma_unread_frame(reply, frames[1]);
    lemma_unread_frame(reply, frames[2]);
}

proof fn lemma_call_block(index: nat, call: JsonTree)
    ensures
        is_tool_use(call_block(index, call)),
{
    lemma_keys();
}

proof fn lemma_calls_concat(a: Seq<JsonTree>, b: Seq<JsonTree>)
    requires
        are_calls(a),
        are_calls(b),
    ensures
        are_calls(a + b),
{
    assert forall|i: int| 0 <= i < (a + b).len() implies is_tool_use(#[trigger] (a + b)[i]) by {
        if i < a.len() {
            assert((a + b)[i] == a[i]);
        } else {
            assert((a + b)[i] == b[i - a.len()]);
        }
    }
}

proof fn lemma_called_are_calls(state: MapState, text: Seq<char>)
    ensures
        are_calls(called(state, text)),
    decreases text.len(),
{
    lemma_tag_sizes(text);
    if text.len() > 0 {
        if !state.in_call {
            if let Some(k) = position(text, OPEN_TAG@) {
                lemma_called_are_calls(entered(state), text.skip(k + 11));
            }
        } else if let Some(k) = position(text, CLOSE_TAG@) {
            let body = trimmed(state.buffer + text.take(k));
            lemma_called_are_calls(left(state, body), text.skip(k + 12));
            let own = if body.len() > 0 && json_parse(body) is Some {
                seq![call_block(state.index, json_parse(body)->0)]
            } else {
                Seq::empty()
            };
            if json_parse(body) is Some {
                lemma_call_block(state.index, json_parse(body)->0);
            }
            lemma_calls_concat(own, called(left(state, body), text.skip(k + 12)));
        }
    }
}

proof fn lemma_all_called_are_calls(model: Seq<char>, pieces: Seq<Seq<char>>)
    ensures
        are_calls(called_in_all(model, pieces)),
    decreases pieces.len(),
{
    if pieces.len() > 0 {
        lemma_all_called_are_calls(model, pieces.drop_last());
        let state = streamed(model, pieces.drop_last()).0.state;
        lemma_called_are_calls(state, pieces.last());
        lemma_calls_concat(
            called_in_all(model, pieces.drop_last()),
            called(state, pieces.last()),
        );
    }
}

/// A message ends for a tool exactly where it calls one.
pub proof fn law_stop_reason(reply: ReplyView)
    requires
        only_calls(reply),
    ensures
        message_stop_reason(content_blocks(reply)) == stop_reason(reply.calls.len()),
{
    let content = content_blocks(reply);
    if reply.calls.len() > 0 {
        let i = content.len() - reply.calls.len();
        assert(content[i] == reply.calls[0]);
        assert(is_tool_use(content[i]));
    } else if reply.text.len() > 0 {
        assert(content.len() == 1);
        reveal_strlit("text");
        reveal_strlit("tool_use");
        lemma_keys();
        assert(content[0].member_text("type"@) == Some("text"@));
        assert("text"@.len() != "tool_use"@.len());
    }
}

/// The frames of a reply to the end: those that start it, those of the pieces of the backend's
/// text, and those that end it.
pub open spec fn all_frames(
    model: Seq<char>,
    pieces: Seq<Seq<char>>,
    last_error: Option<Seq<char>>,
) -> Seq<ChunkView> {
    initial_frames(model) + streamed(model, pieces).1 + after_end::<AnthropicMapper>(
        streamed(model, pieces).0,
        last_error,
    ).frames
}

/// A reply that is given as one message says what the streamed one says, calls the tools that it
/// calls, and ends for the same reason.
pub proof fn law_message_equals_stream(
    model: Seq<char>,
    pieces: Seq<Seq<char>>,
    last_error: Option<Seq<char>>,
)
    requires
        takes_all(model, pieces),
        concatenated(pieces).len() > 0,
        legible(all_frames(model, pieces, last_error)),
    ensures
        collected(nothing(), all_frames(model, pieces, last_error)) == (ReplyView {
            text: said_in_all(model, pieces),
            calls: called_in_all(model, pieces),
        }),
        message_stop_reason(
            content_blocks(collected(nothing(), all_frames(model, pieces, last_error))),
        ) == stop_reason(streamed(model, pieces).0.state.index),
        after_end::<AnthropicMapper>(streamed(model, pieces).0, last_error).frames == final_frames(
            streamed(model, pieces).0.state.index,
        ),
        streamed(model, pieces).0.content == concatenated(pieces),
{
    let start = initial_frames(model);
    let middle = streamed(model, pieces);
    let end = after_end::<AnthropicMapper>(middle.0, last_error).frames;
    lemma_legible_parts(start + middle.1, end);
    lemma_legible_parts(start, middle.1);
    lemma_initial_frames(model);
    lemma_streamed(model, pieces);
    assert(end =~= final_frames(middle.0.state.index));
    lemma_collected_concat(nothing(), start + middle.1, end);
    lemma_collected_concat(nothing(), start, middle.1);
    lemma_final_frames(collected(nothing(), middle.1), middle.0.state.index);
    lemma_all_called_are_calls(model, pieces);
    law_stop_reason(collected(nothing(), middle.1));
}

pub(crate) proof fn lemma_streamed_silence(model: Seq<char>, pieces: Seq<Seq<char>>)
    requires
        concatenated(pieces).len() == 0,
    ensures
        streamed(model, pieces) == (fresh(model), Seq::<ChunkView>::empty()),
    decreases pieces.len(),
{
    if pieces.len() > 0 {
        lemma_streamed_silence(model, pieces.drop_last());
        let step = after_delta::<AnthropicMapper>(fresh(model), pieces.last());
        assert(deltas(fresh(model).state, pieces.last()) == (
            fresh(model).state,
            Seq::<ChunkView>::empty(),
        ));
        assert(step.transcript.content =~= Seq::empty());
        assert(streamed(model, pieces).1 =~= Seq::empty());
    }
}

/// A client is never left without a word: where the backend said nothing, the client reads the
/// error, as long as it holds no tool call of its own.
pub proof fn law_silence_is_told(
    model: Seq<char>,
    pieces: Seq<Seq<char>>,
    last_error: Option<Seq<char>>,
)
    requires
        concatenated(pieces).len() == 0,
        legible(all_frames(model, pieces, last_error)),
        !has_text(silence_error(Seq::empty(), last_error)->0, OPEN_TAG@),
    ensures
        collected(nothing(), all_frames(model, pieces, last_error)) == (ReplyView {
            text: silence_error(Seq::empty(), last_error)->0,
            calls: Seq::empty(),
        }),
        last_error is None ==> silence_error(Seq::empty(), last_error)->0 == SILENT_BACKEND@,
        last_error matches Some(e) ==> silence_error(Seq::empty(), last_error)->0 == e,
{
    let error = silence_error(Seq::empty(), last_error)->0;
    let t = fresh(model);
    let start = initial_frames(model);
    let told = after_error::<AnthropicMapper>(t, error);
    let end = final_frames(told.transcript.state.index);
    lemma_streamed_silence(model, pieces);
    assert(all_frames(model, pieces, last_error) =~= start + told.frames + end);
    lemma_legible_parts(start + told.frames, end);
    lemma_legible_parts(start, told.frames);
    lemma_initial_frames(model);
    lemma_collected_concat(nothing(), start + told.frames, end);
    lemma_collected_concat(nothing(), start, told.frames);
    lemma_position(error, OPEN_TAG@);
    assert(fits(t.state, error));
    law_collected_piece(nothing(), t.state, error);
    assert(said(t.state, error) =~= error);
    assert(called(t.state, error) =~= Seq::empty());
    assert(nothing().text + error =~= error);
    assert(nothing().calls + Seq::<JsonTree>::empty() =~= Seq::empty());
    lemma_final_frames(collected(nothing(), told.frames), told.transcript.state.index);
}

/// Whatever has come before, an error reaches the client as text: a tool call that is not complete
/// is given up, and the text block that it interrupted is opened again. So it is for every error
/// that holds no tool call of its own.
pub proof fn law_error_is_told(t: TranscriptView, error: Seq<char>)
    requires
        error.len() > 0,
        !has_text(error, OPEN_TAG@),
    ensures
        ({
            let step = after_error::<AnthropicMapper>(t, error);
            let block = 2 * t.state.index;
            &&& step.frames == if t.state.in_call {
                seq![text_start_frame(block), text_frame(block as int, error)]
            } else {
                seq![text_frame(block as int, error)]
            }
            &&& !step.transcript.state.in_call
            &&& t.state.in_call ==> step.transcript.state.buffer.len() == 0
            &&& step.transcript.state.index == t.state.index
            &&& step.transcript.content == t.content
            &&& can_tell::<AnthropicMapper>(t.state, error) <==> block <= u32::MAX
        }),
        forall|reply: ReplyView|
            2 * t.state.index <= u32::MAX && legible(
                after_error::<AnthropicMapper>(t, error).frames,
            ) ==> #[trigger] collected(reply, after_error::<AnthropicMapper>(t, error).frames) == (
            ReplyView { text: reply.text + error, ..reply }),
{
    let step = after_error::<AnthropicMapper>(t, error);
    let block = 2 * t.state.index;
    let told = seq![text_frame(block as int, error)];
    let start = seq![text_start_frame(block)];
    lemma_position(error, OPEN_TAG@);
    assert(start + told =~= seq![text_start_frame(block), text_frame(block as int, error)]);
    if block <= u32::MAX && legible(step.frames) {
        assert forall|reply: ReplyView| #[trigger] collected(reply, step.frames) == (ReplyView {
            text: reply.text + error,
            ..reply
        }) by {
            if t.state.in_call {
                lemma_legible_parts(start, told);
                lemma_collected_concat(reply, start, told);
                lemma_text_start_frame(reply, block);
            }
            lemma_text_frame(reply, block as int, error);
        }
    }
}

// ---- Pieces -------------------------------------------------------------------------------

/// Outside a tool call nothing is held back, and the number of calls never falls.
pub proof fn law_nothing_held_back(state: MapState, text: Seq<char>)
    requires
        !state.in_call ==> state.buffer.len() == 0,
    ensures
        !deltas(state, text).0.in_call ==> deltas(state, text).0.buffer.len() == 0,
        deltas(state, text).0.index >= state.index,
    decreases text.len(),
{
    lemma_tag_sizes(text);
    if text.len() > 0 {
        if !state.in_call {
            if let Some(k) = position(text, OPEN_TAG@) {
                law_nothing_held_back(entered(state), text.skip(k + 11));
            }
        } else if let Some(k) = position(text, CLOSE_TAG@) {
            let body = trimmed(state.buffer + text.take(k));
            law_nothing_held_back(left(state, body), text.skip(k + 12));
        }
    }
}

/// Text without a tag goes on at once and as it is, in the block that is open.
pub proof fn law_plain_text(state: MapState, text: Seq<char>)
    requires
        !state.in_call,
        text.len() > 0,
        !has_text(text, OPEN_TAG@),
    ensures
        deltas(state, text) == (state, seq![text_frame(2 * state.index as int, text)]),
        said(state, text) == text,
        called(state, text) == Seq::<JsonTree>::empty(),
{
    lemma_position(text, OPEN_TAG@);
}

/// The closing tag does not overlap itself.
proof fn lemma_close_tag_apart(body: Seq<char>)
    ensures
        uncut(body, CLOSE_TAG@, CLOSE_TAG@),
{
    reveal_strlit("</tool_call>");
    let whole = body + CLOSE_TAG@;
    assert forall|i: int| #[trigger] occurs_at(whole, CLOSE_TAG@, i) implies i + CLOSE_TAG@.len()
        <= body.len() || body.len() <= i by {
        let at = whole.subrange(i, i + CLOSE_TAG@.len());
        let j = body.len() - i;
        if 0 < j < 12 {
            assert(at[j] == whole[body.len() as int]);
            assert(whole[body.len() as int] == CLOSE_TAG@[0]);
            assert(CLOSE_TAG@[j] == CLOSE_TAG@[0]);
        }
    }
}

/// A tool call between its tags becomes a block of its own: the text block before it ends, and one
/// after it starts.
pub proof fn law_tool_call(state: MapState, body: Seq<char>)
    requires
        !state.in_call,
        state.buffer.len() == 0,
        !has_text(body, CLOSE_TAG@),
    ensures
        deltas(state, tagged(body)) == (
            left(entered(state), trimmed(body)),
            seq![text_stop_frame(2 * state.index)] + call_frames(
                state.index,
                trimmed(body),
                json_parse(trimmed(body)),
            ) + seq![text_start_frame(2 * state.index + 2)],
        ),
{
    let text = tagged(body);
    let inner = body + CLOSE_TAG@;
    lemma_tag_sizes(text);
    lemma_tag_sizes(inner);
    assert(text.subrange(0, 0 + OPEN_TAG@.len() as int) =~= OPEN_TAG@);
    assert(occurs_at(text, OPEN_TAG@, 0));
    lemma_first_is_position(text, OPEN_TAG@, 0);
    assert(text.skip(11) =~= inner);
    lemma_position(body, CLOSE_TAG@);
    lemma_close_tag_apart(body);
    lemma_position_second(body, CLOSE_TAG@, CLOSE_TAG@);
    assert(CLOSE_TAG@.subrange(0, 0 + CLOSE_TAG@.len() as int) =~= CLOSE_TAG@);
    lemma_first_is_position(CLOSE_TAG@, CLOSE_TAG@, 0);
    assert(position(inner, CLOSE_TAG@) == Some(body.len() as int));
    let inside = entered(state);
    assert(inside.buffer + inner.take(body.len() as int) =~= body);
    assert(inner.skip(body.len() as int + 12) =~= Seq::empty());
    let after = left(inside, trimmed(body));
    assert(deltas(after, Seq::empty()) == (after, Seq::<ChunkView>::empty()));
    let call = call_frames(state.index, trimmed(body), json_parse(trimmed(body)));
    let start = seq![text_start_frame(2 * state.index + 2)];
    assert(deltas(inside, inner).1 =~= call + start);
    assert(deltas(state, text).1 =~= seq![text_stop_frame(2 * state.index)] + call + start);
}

/// The arguments that a frame brings for a tool call, as text.
pub open spec fn arguments_in(f: ChunkView) -> Option<Seq<char>> {
    match json_parse(f.data) {
        Some(tree) => match tree.member("delta"@) {
            Some(delta) => delta.member_text("partial_json"@),
            None => None,
        },
        None => None,
    }
}

/// A client that puts the arguments of a tool call together and reads them has what the backend
/// wrote, where that reads back.
pub proof fn law_arguments_come_through(index: nat, body: Seq<char>, call: JsonTree)
    requires
        body.len() > 0,
        legible(call_frames(index, body, Some(call))),
        reads_back(call_args(call), 127),
        reads_as_written(json_text(call_args(call)), json_parse(json_text(call_args(call)))),
    ensures
        arguments_in(call_frames(index, body, Some(call))[1]) matches Some(text) && json_parse(text)
            == Some(call_args(call)),
{
    let block = (2 * index + 1) as int;
    let args = json_text(call_args(call));
    let f = call_frames(index, body, Some(call))[1];
    lemma_events();
    lemma_read_tool_input(f, block, args);
    assert(arguments_in(f) == Some(args));
}

// ---- Whole replies, piece by piece --------------------------------------------------------

/// A reply goes on piece by piece: its frames are those before and those that the protocol makes
/// of the piece, what the client reads and the calls likewise, and its text is all that was said.
pub proof fn law_reply_goes_on(model: Seq<char>, pieces: Seq<Seq<char>>, piece: Seq<char>)
    ensures
        streamed(model, Seq::empty()).1.len() == 0,
        streamed(model, Seq::empty()).0.state == (MapState {
            buffer: Seq::empty(),
            in_call: false,
            index: 0,
        }),
        said_in_all(model, Seq::empty()).len() == 0,
        called_in_all(model, Seq::empty()).len() == 0,
        ({
            let before = streamed(model, pieces);
            let m = <AnthropicMapper as ProtocolMapper>::mapped(model, before.0.state, piece, false);
            let whole = streamed(model, pieces.push(piece));
            &&& m.frames matches Ok(frames) && whole.1 == before.1 + frames
            &&& whole.0.state == m.state
            &&& whole.0.content == before.0.content + piece
            &&& said_in_all(model, pieces.push(piece)) == said_in_all(model, pieces) + said(
                before.0.state,
                piece,
            )
            &&& called_in_all(model, pieces.push(piece)) == called_in_all(model, pieces) + called(
                before.0.state,
                piece,
            )
        }),
{
    assert(pieces.push(piece).drop_last() =~= pieces);
}

/// The message of a whole reply holds all that the backend said: the text that the client reads, in
/// one block, and behind it every tool call that the backend made, in its order.
pub proof fn law_message_is_complete(
    model: Seq<char>,
    pieces: Seq<Seq<char>>,
    last_error: Option<Seq<char>>,
)
    requires
        takes_all(model, pieces),
        concatenated(pieces).len() > 0,
        legible(all_frames(model, pieces, last_error)),
    ensures
        ({
            let content = content_blocks(collected(nothing(), all_frames(model, pieces, last_error)));
            let text = said_in_all(model, pieces);
            let calls = called_in_all(model, pieces);
            let texts: int = if text.len() > 0 {
                1
            } else {
                0
            };
            &&& content.len() == texts + calls.len()
            &&& text.len() > 0 ==> content[0] == JsonTree::Object(
                map!["type"@ => JsonTree::Str("text"@), "text"@ => JsonTree::Str(text)],
            )
            &&& forall|i: int| 0 <= i < calls.len() ==> content[texts + i] == #[trigger] calls[i]
        }),
{
    law_message_equals_stream(model, pieces, last_error);
}

} // verus!
