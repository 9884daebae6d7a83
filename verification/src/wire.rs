//! What goes over the wire: the frames of the Anthropic protocol, word for word. Any text of the
//! backend's is made of plain text, tool calls, and the start of a call at its end; the laws say
//! what becomes of each, and how the rest of the text goes on behind it.
use crate::anthropic::{AnthropicMapper, AnthropicMessageRequest};
use crate::delta::{
    call_args, call_frames, call_name, deltas, fits, initial_frames, left, lemma_tag_sizes,
    text_frame, text_start_frame, text_stop_frame, CLOSE_TAG, OPEN_TAG,
};
use crate::json::{json_number, json_parse, json_text, JsonTree};
use crate::laws::{called, said};
use crate::mapper::{ChunkView, MapState, Mapped, ProtocolMapper};
use crate::prompt::prompt_text;
use crate::text::{
    all_white, decimal, has_text, is_white, law_trimmed, lemma_found_behind, lemma_position,
    position, trimmed,
};
use vstd::prelude::*;

verus! {

proof fn lemma_tags_stand_apart()
    ensures
        "<tool_call>"@.len() == 11,
        forall|i: int| 0 < i < 11 ==> #[trigger] "<tool_call>"@[i] != "<tool_call>"@[0],
        "</tool_call>"@.len() == 12,
        forall|i: int| 0 < i < 12 ==> #[trigger] "</tool_call>"@[i] != "</tool_call>"@[0],
{
    reveal_strlit("<tool_call>");
    reveal_strlit("</tool_call>");
}

/// No text, no frames.
pub proof fn law_nothing_said(model: Seq<char>, state: MapState)
    ensures
        <AnthropicMapper as ProtocolMapper>::mapped(model, state, Seq::empty(), false) == (Mapped {
            state,
            frames: Ok(Seq::empty()),
        }),
        said(state, Seq::empty()) == Seq::<char>::empty(),
        called(state, Seq::empty()) == Seq::<JsonTree>::empty(),
{
}

/// Text outside a tool call goes on at once: one frame adds it, as it is, to the text block that
/// is open, whose number is twice that of the calls so far.
pub proof fn law_text_goes_on(model: Seq<char>, state: MapState, text: Seq<char>)
    requires
        !state.in_call,
        text.len() > 0,
        !has_text(text, "<tool_call>"@),
    ensures
        <AnthropicMapper as ProtocolMapper>::mapped(model, state, text, false) == (Mapped {
            state,
            frames: Ok(
                seq![
                    ChunkView {
                        event: Some("content_block_delta"@),
                        data: json_text(
                            JsonTree::Object(
                                map![
                                    "type"@ => JsonTree::Str("content_block_delta"@),
                                    "index"@ => JsonTree::Number(json_number((2 * state.index) as u32)),
                                    "delta"@ => JsonTree::Object(
                                        map![
                                            "type"@ => JsonTree::Str("text_delta"@),
                                            "text"@ => JsonTree::Str(text),
                                        ],
                                    ),
                                ],
                            ),
                        ),
                    },
                ],
            ),
        }),
        said(state, text) == text,
        called(state, text) == Seq::<JsonTree>::empty(),
{
    lemma_position(text, OPEN_TAG@);
}

/// Where a tool call opens, the text before it goes on as text, the text block is closed, and
/// what follows is within the call.
pub proof fn law_call_opens(
    model: Seq<char>,
    state: MapState,
    before: Seq<char>,
    rest: Seq<char>,
    behind: Mapped,
    frames: Seq<ChunkView>,
)
    requires
        !state.in_call,
        !has_text(before, "<tool_call>"@),
        behind == <AnthropicMapper as ProtocolMapper>::mapped(
            model,
            MapState { in_call: true, ..state },
            rest,
            false,
        ),
        behind.frames == Ok::<Seq<ChunkView>, Seq<char>>(frames),
    ensures
        <AnthropicMapper as ProtocolMapper>::mapped(
            model,
            state,
            before + "<tool_call>"@ + rest,
            false,
        ) == (Mapped {
            state: behind.state,
            frames: Ok(
                (if before.len() > 0 {
                    seq![
                        ChunkView {
                            event: Some("content_block_delta"@),
                            data: json_text(
                                JsonTree::Object(
                                    map![
                                        "type"@ => JsonTree::Str("content_block_delta"@),
                                        "index"@ => JsonTree::Number(
                                            json_number((2 * state.index) as u32),
                                        ),
                                        "delta"@ => JsonTree::Object(
                                            map![
                                                "type"@ => JsonTree::Str("text_delta"@),
                                                "text"@ => JsonTree::Str(before),
                                            ],
                                        ),
                                    ],
                                ),
                            ),
                        },
                    ]
                } else {
                    Seq::empty()
                }) + seq![
                    ChunkView {
                        event: Some("content_block_stop"@),
                        data: "{\"type\":\"content_block_stop\",\"index\":"@ + decimal(
                            2 * state.index,
                        ) + "}"@,
                    },
                ] + frames,
            ),
        }),
        said(state, before + "<tool_call>"@ + rest) == before + said(
            MapState { in_call: true, ..state },
            rest,
        ),
        called(state, before + "<tool_call>"@ + rest) == called(
            MapState { in_call: true, ..state },
            rest,
        ),
{
    let text = before + "<tool_call>"@ + rest;
    lemma_tags_stand_apart();
    lemma_found_behind(before, "<tool_call>"@, rest);
    assert(text.take(before.len() as int) =~= before);
    assert(text.skip((before.len() + 11) as int) =~= rest);
    assert(deltas(MapState { in_call: true, ..state }, rest).1 == frames);
}

/// Within a tool call the text is held back until the call is closed.
pub proof fn law_call_is_held(model: Seq<char>, state: MapState, text: Seq<char>)
    requires
        state.in_call,
        !has_text(text, "</tool_call>"@),
    ensures
        <AnthropicMapper as ProtocolMapper>::mapped(model, state, text, false) == (Mapped {
            state: MapState { buffer: state.buffer + text, ..state },
            frames: Ok(Seq::empty()),
        }),
        said(state, text) == Seq::<char>::empty(),
        called(state, text) == Seq::<JsonTree>::empty(),
{
    lemma_position(text, CLOSE_TAG@);
    if text.len() == 0 {
        assert(state.buffer + text =~= state.buffer);
    }
}

proof fn lemma_call_closes(
    state: MapState,
    inside: Seq<char>,
    rest: Seq<char>,
    lead: Seq<char>,
    body: Seq<char>,
    trail: Seq<char>,
)
    requires
        state.in_call,
        !has_text(inside, "</tool_call>"@),
        state.buffer + inside == lead + body + trail,
        all_white(lead),
        all_white(trail),
        body.len() > 0 ==> !is_white(body[0]) && !is_white(body.last()),
    ensures
        ({
            let text = inside + "</tool_call>"@ + rest;
            &&& text.len() > 0
            &&& position(text, CLOSE_TAG@) == Some(inside.len() as int)
            &&& trimmed(state.buffer + text.take(inside.len() as int)) == body
            &&& text.skip((inside.len() + CLOSE_TAG@.len()) as int) == rest
        }),
{
    let text = inside + "</tool_call>"@ + rest;
    lemma_tags_stand_apart();
    lemma_found_behind(inside, "</tool_call>"@, rest);
    assert(text.take(inside.len() as int) =~= inside);
    assert(text.skip((inside.len() + 12) as int) =~= rest);
    law_trimmed(lead, body, trail);
}

/// A tool call that is JSON becomes a block of its own. The block names the tool that the call
/// names, as it stands there, or an unknown one where it names none; it is numbered one behind the
/// text before it; its arguments are those of the call, or none; and the next text block follows.
/// `call` is what was between the tags, without the whitespace at either end.
pub proof fn law_call_is_passed_on(
    model: Seq<char>,
    state: MapState,
    inside: Seq<char>,
    rest: Seq<char>,
    lead: Seq<char>,
    body: Seq<char>,
    trail: Seq<char>,
    call: JsonTree,
    name: Seq<char>,
    args: JsonTree,
    behind: Mapped,
    frames: Seq<ChunkView>,
)
    requires
        state.in_call,
        !has_text(inside, "</tool_call>"@),
        state.buffer + inside == lead + body + trail,
        all_white(lead),
        all_white(trail),
        body.len() > 0,
        !is_white(body[0]) && !is_white(body.last()),
        json_parse(body) == Some(call),
        (call matches JsonTree::Object(m) && m.contains_key("name"@) && m["name"@] is Str) ==> call->Object_0["name"@]
            == JsonTree::Str(name),
        !(call matches JsonTree::Object(m) && m.contains_key("name"@) && m["name"@] is Str) ==> name
            == "unknown_tool"@,
        (call matches JsonTree::Object(m) && m.contains_key("arguments"@)) ==> args
            == call->Object_0["arguments"@],
        !(call matches JsonTree::Object(m) && m.contains_key("arguments"@)) ==> args
            == JsonTree::Object(Map::empty()),
        behind == <AnthropicMapper as ProtocolMapper>::mapped(
            model,
            MapState { buffer: Seq::empty(), in_call: false, index: state.index + 1 },
            rest,
            false,
        ),
        behind.frames == Ok::<Seq<ChunkView>, Seq<char>>(frames),
    ensures
        <AnthropicMapper as ProtocolMapper>::mapped(
            model,
            state,
            inside + "</tool_call>"@ + rest,
            false,
        ) == (Mapped {
            state: behind.state,
            frames: Ok(
                seq![
                    ChunkView {
                        event: Some("content_block_start"@),
                        data: json_text(
                            JsonTree::Object(
                                map![
                                    "type"@ => JsonTree::Str("content_block_start"@),
                                    "index"@ => JsonTree::Number(
                                        json_number((2 * state.index + 1) as u32),
                                    ),
                                    "content_block"@ => JsonTree::Object(
                                        map![
                                            "type"@ => JsonTree::Str("tool_use"@),
                                            "id"@ => JsonTree::Str(
                                                "toolu_cascade_"@ + decimal(state.index),
                                            ),
                                            "name"@ => JsonTree::Str(name),
                                            "input"@ => JsonTree::Object(Map::empty()),
                                        ],
                                    ),
                                ],
                            ),
                        ),
                    },
                    ChunkView {
                        event: Some("content_block_delta"@),
                        data: json_text(
                            JsonTree::Object(
                                map![
                                    "type"@ => JsonTree::Str("content_block_delta"@),
                                    "index"@ => JsonTree::Number(
                                        json_number((2 * state.index + 1) as u32),
                                    ),
                                    "delta"@ => JsonTree::Object(
                                        map![
                                            "type"@ => JsonTree::Str("input_json_delta"@),
                                            "partial_json"@ => JsonTree::Str(json_text(args)),
                                        ],
                                    ),
                                ],
                            ),
                        ),
                    },
                    ChunkView {
                        event: Some("content_block_stop"@),
                        data: json_text(
                            JsonTree::Object(
                                map![
                                    "type"@ => JsonTree::Str("content_block_stop"@),
                                    "index"@ => JsonTree::Number(
                                        json_number((2 * state.index + 1) as u32),
                                    ),
                                ],
                            ),
                        ),
                    },
                    ChunkView {
                        event: Some("content_block_start"@),
                        data: "{\"type\":\"content_block_start\",\"index\":"@ + decimal(
                            2 * state.index + 2,
                        ) + ",\"content_block\":{\"type\":\"text\",\"text\":\"\"}}"@,
                    },
                ] + frames,
            ),
        }),
        said(state, inside + "</tool_call>"@ + rest) == said(
            MapState { buffer: Seq::empty(), in_call: false, index: state.index + 1 },
            rest,
        ),
        called(state, inside + "</tool_call>"@ + rest) == seq![
            JsonTree::Object(
                map![
                    "type"@ => JsonTree::Str("tool_use"@),
                    "id"@ => JsonTree::Str("toolu_cascade_"@ + decimal(state.index)),
                    "name"@ => JsonTree::Str(name),
                    "input"@ => JsonTree::Object(Map::empty()),
                ],
            ),
        ] + called(
            MapState { buffer: Seq::empty(), in_call: false, index: state.index + 1 },
            rest,
        ),
{
    let text = inside + "</tool_call>"@ + rest;
    let next = MapState { buffer: Seq::empty(), in_call: false, index: state.index + 1 };
    lemma_call_closes(state, inside, rest, lead, body, trail);
    assert(call_name(call) == name);
    assert(call_args(call) == args);
    assert(deltas(next, rest).1 == frames);
    let own = call_frames(state.index, body, Some(call));
    assert(own.len() == 3);
    assert(deltas(state, text).1 =~= seq![own[0], own[1], own[2], deltas(state, text).1[3]] + frames);
    assert(said(state, text) =~= said(next, rest));
}

/// A tool call that is not JSON goes on as the text that it is, between its tags and without the
/// whitespace at either end; it counts as no call.
pub proof fn law_bad_call_is_text(
    model: Seq<char>,
    state: MapState,
    inside: Seq<char>,
    rest: Seq<char>,
    lead: Seq<char>,
    body: Seq<char>,
    trail: Seq<char>,
    behind: Mapped,
    frames: Seq<ChunkView>,
)
    requires
        state.in_call,
        !has_text(inside, "</tool_call>"@),
        state.buffer + inside == lead + body + trail,
        all_white(lead),
        all_white(trail),
        body.len() > 0,
        !is_white(body[0]) && !is_white(body.last()),
        json_parse(body) is None,
        behind == <AnthropicMapper as ProtocolMapper>::mapped(
            model,
            MapState { buffer: Seq::empty(), in_call: false, ..state },
            rest,
            false,
        ),
        behind.frames == Ok::<Seq<ChunkView>, Seq<char>>(frames),
    ensures
        <AnthropicMapper as ProtocolMapper>::mapped(
            model,
            state,
            inside + "</tool_call>"@ + rest,
            false,
        ) == (Mapped {
            state: behind.state,
            frames: Ok(
                seq![
                    ChunkView {
                        event: Some("content_block_delta"@),
                        data: json_text(
                            JsonTree::Object(
                                map![
                                    "type"@ => JsonTree::Str("content_block_delta"@),
                                    "index"@ => JsonTree::Number(
                                        json_number((2 * state.index + 1) as u32),
                                    ),
                                    "delta"@ => JsonTree::Object(
                                        map![
                                            "type"@ => JsonTree::Str("text_delta"@),
                                            "text"@ => JsonTree::Str(
                                                "<tool_call>"@ + body + "</tool_call>"@,
                                            ),
                                        ],
                                    ),
                                ],
                            ),
                        ),
                    },
                    ChunkView {
                        event: Some("content_block_start"@),
                        data: "{\"type\":\"content_block_start\",\"index\":"@ + decimal(
                            2 * state.index + 2,
                        ) + ",\"content_block\":{\"type\":\"text\",\"text\":\"\"}}"@,
                    },
                ] + frames,
            ),
        }),
        said(state, inside + "</tool_call>"@ + rest) == "<tool_call>"@ + body + "</tool_call>"@ + said(
            MapState { buffer: Seq::empty(), in_call: false, ..state },
            rest,
        ),
        called(state, inside + "</tool_call>"@ + rest) == called(
            MapState { buffer: Seq::empty(), in_call: false, ..state },
            rest,
        ),
{
    let text = inside + "</tool_call>"@ + rest;
    let next = MapState { buffer: Seq::empty(), in_call: false, ..state };
    lemma_call_closes(state, inside, rest, lead, body, trail);
    assert(deltas(next, rest).1 == frames);
    let all = deltas(state, text).1;
    assert(all =~= seq![all[0], all[1]] + frames);
    assert(called(state, text) =~= called(next, rest));
}

/// A tool call of nothing but whitespace is left out.
pub proof fn law_blank_call_is_left_out(
    model: Seq<char>,
    state: MapState,
    inside: Seq<char>,
    rest: Seq<char>,
    behind: Mapped,
    frames: Seq<ChunkView>,
)
    requires
        state.in_call,
        !has_text(inside, "</tool_call>"@),
        all_white(state.buffer + inside),
        behind == <AnthropicMapper as ProtocolMapper>::mapped(
            model,
            MapState { buffer: Seq::empty(), in_call: false, ..state },
            rest,
            false,
        ),
        behind.frames == Ok::<Seq<ChunkView>, Seq<char>>(frames),
    ensures
        <AnthropicMapper as ProtocolMapper>::mapped(
            model,
            state,
            inside + "</tool_call>"@ + rest,
            false,
        ) == (Mapped {
            state: behind.state,
            frames: Ok(
                seq![
                    ChunkView {
                        event: Some("content_block_start"@),
                        data: "{\"type\":\"content_block_start\",\"index\":"@ + decimal(
                            2 * state.index + 2,
                        ) + ",\"content_block\":{\"type\":\"text\",\"text\":\"\"}}"@,
                    },
                ] + frames,
            ),
        }),
        said(state, inside + "</tool_call>"@ + rest) == said(
            MapState { buffer: Seq::empty(), in_call: false, ..state },
            rest,
        ),
        called(state, inside + "</tool_call>"@ + rest) == called(
            MapState { buffer: Seq::empty(), in_call: false, ..state },
            rest,
        ),
{
    let text = inside + "</tool_call>"@ + rest;
    let held = state.buffer + inside;
    let next = MapState { buffer: Seq::empty(), in_call: false, ..state };
    assert(held =~= held + Seq::empty() + Seq::empty());
    lemma_call_closes(state, inside, rest, held, Seq::empty(), Seq::empty());
    assert(deltas(next, rest).1 == frames);
    let all = deltas(state, text).1;
    assert(all =~= seq![all[0]] + frames);
    assert(said(state, text) =~= said(next, rest));
    assert(called(state, text) =~= called(next, rest));
}

/// The frames that add text to a block, open a text block and close it, whatever its number.
pub proof fn law_text_block(index: nat, text: Seq<char>)
    ensures
        text_frame(index as int, text) == (ChunkView {
            event: Some("content_block_delta"@),
            data: json_text(
                JsonTree::Object(
                    map![
                        "type"@ => JsonTree::Str("content_block_delta"@),
                        "index"@ => JsonTree::Number(json_number(index as u32)),
                        "delta"@ => JsonTree::Object(
                            map![
                                "type"@ => JsonTree::Str("text_delta"@),
                                "text"@ => JsonTree::Str(text),
                            ],
                        ),
                    ],
                ),
            ),
        }),
        text_start_frame(index) == (ChunkView {
            event: Some("content_block_start"@),
            data: "{\"type\":\"content_block_start\",\"index\":"@ + decimal(index)
                + ",\"content_block\":{\"type\":\"text\",\"text\":\"\"}}"@,
        }),
        text_stop_frame(index) == (ChunkView {
            event: Some("content_block_stop"@),
            data: "{\"type\":\"content_block_stop\",\"index\":"@ + decimal(index) + "}"@,
        }),
{
}

/// The frames of a tool call: three where it was read, one where it was not, none where there is
/// nothing of it. Those of a call that was read bear one number and, in this order, the name of
/// the tool, the arguments, and the end.
pub proof fn law_call_block(
    index: nat,
    body: Seq<char>,
    call: JsonTree,
    name: Seq<char>,
    args: JsonTree,
)
    requires
        body.len() > 0,
        (call matches JsonTree::Object(m) && m.contains_key("name"@) && m["name"@] is Str)
            ==> call->Object_0["name"@] == JsonTree::Str(name),
        !(call matches JsonTree::Object(m) && m.contains_key("name"@) && m["name"@] is Str) ==> name
            == "unknown_tool"@,
        (call matches JsonTree::Object(m) && m.contains_key("arguments"@)) ==> args
            == call->Object_0["arguments"@],
        !(call matches JsonTree::Object(m) && m.contains_key("arguments"@)) ==> args
            == JsonTree::Object(Map::empty()),
    ensures
        call_frames(index, Seq::empty(), Some(call)) == Seq::<ChunkView>::empty(),
        call_frames(index, Seq::empty(), None) == Seq::<ChunkView>::empty(),
        call_frames(index, body, None) == seq![
            text_frame((2 * index + 1) as int, "<tool_call>"@ + body + "</tool_call>"@),
        ],
        ({
            let frames = call_frames(index, body, Some(call));
            let number = JsonTree::Number(json_number((2 * index + 1) as u32));
            &&& frames.len() == 3
            &&& frames[0].event == Some("content_block_start"@)
            &&& frames[0].data == json_text(
                JsonTree::Object(
                    map![
                        "type"@ => JsonTree::Str("content_block_start"@),
                        "index"@ => number,
                        "content_block"@ => JsonTree::Object(
                            map![
                                "type"@ => JsonTree::Str("tool_use"@),
                                "id"@ => JsonTree::Str("toolu_cascade_"@ + decimal(index)),
                                "name"@ => JsonTree::Str(name),
                                "input"@ => JsonTree::Object(Map::empty()),
                            ],
                        ),
                    ],
                ),
            )
            &&& frames[1].event == Some("content_block_delta"@)
            &&& frames[1].data == json_text(
                JsonTree::Object(
                    map![
                        "type"@ => JsonTree::Str("content_block_delta"@),
                        "index"@ => number,
                        "delta"@ => JsonTree::Object(
                            map![
                                "type"@ => JsonTree::Str("input_json_delta"@),
                                "partial_json"@ => JsonTree::Str(json_text(args)),
                            ],
                        ),
                    ],
                ),
            )
            &&& frames[2].event == Some("content_block_stop"@)
            &&& frames[2].data == json_text(
                JsonTree::Object(
                    map!["type"@ => JsonTree::Str("content_block_stop"@), "index"@ => number],
                ),
            )
        }),
{
    assert(call_name(call) == name);
    assert(call_args(call) == args);
}

/// A message ends with the frame that closes the last text block, the one that says why it ended,
/// and the last one. It ended for a tool exactly where a call was passed on.
pub proof fn law_message_ends(model: Seq<char>, state: MapState, delta: Seq<char>)
    ensures
        <AnthropicMapper as ProtocolMapper>::mapped(model, state, delta, true) == (Mapped {
            state,
            frames: Ok(
                seq![
                    ChunkView {
                        event: Some("content_block_stop"@),
                        data: "{\"type\":\"content_block_stop\",\"index\":"@ + decimal(
                            2 * state.index,
                        ) + "}"@,
                    },
                    ChunkView {
                        event: Some("message_delta"@),
                        data: "{\"type\":\"message_delta\",\"delta\":{\"stop_reason\":\""@ + (
                        if state.index > 0 {
                            "tool_use"@
                        } else {
                            "end_turn"@
                        })
                            + "\",\"stop_sequence\":null},\"usage\":{\"output_tokens\":0,\"cache_creation_input_tokens\":0,\"cache_read_input_tokens\":0}}"@,
                    },
                    ChunkView {
                        event: Some("message_stop"@),
                        data: "{\"type\":\"message_stop\"}"@,
                    },
                ],
            ),
        }),
{
}

/// A message starts with the frame that names its model and the one that opens its first text
/// block.
pub proof fn law_message_starts(model: Seq<char>)
    ensures
        initial_frames(model) == seq![
            ChunkView {
                event: Some("message_start"@),
                data: "{\"type\":\"message_start\",\"message\":{\"id\":\"msg_cascade\",\"type\":\"message\",\"role\":\"assistant\",\"model\":\""@
                    + model
                    + "\",\"content\":[],\"usage\":{\"input_tokens\":0,\"output_tokens\":0,\"cache_creation_input_tokens\":0,\"cache_read_input_tokens\":0}}}"@,
            },
            ChunkView {
                event: Some("content_block_start"@),
                data: "{\"type\":\"content_block_start\",\"index\":0,\"content_block\":{\"type\":\"text\",\"text\":\"\"}}"@,
            },
        ],
{
}

/// Where a tool call is given up, the text block before it is opened again.
pub proof fn law_text_resumes(index: nat)
    ensures
        <AnthropicMapper as ProtocolMapper>::resumed(index) == seq![
            ChunkView {
                event: Some("content_block_start"@),
                data: "{\"type\":\"content_block_start\",\"index\":"@ + decimal(2 * index)
                    + ",\"content_block\":{\"type\":\"text\",\"text\":\"\"}}"@,
            },
        ],
        <AnthropicMapper as ProtocolMapper>::can_resume(index) <==> 2 * index <= u32::MAX,
{
}

/// Text is taken as long as the numbers of its blocks are far from the end of their range, and the
/// end of a message as long as its last number is in it.
pub proof fn law_text_is_taken(state: MapState, text: Seq<char>)
    ensures
        2 * state.index + text.len() <= u32::MAX ==> <AnthropicMapper as ProtocolMapper>::accepts(
            state,
            text,
            false,
        ),
        <AnthropicMapper as ProtocolMapper>::accepts(state, text, true) <==> 2 * state.index
            <= u32::MAX,
{
    if 2 * state.index + text.len() <= u32::MAX {
        lemma_fits(state, text);
    }
}

proof fn lemma_fits(state: MapState, text: Seq<char>)
    requires
        2 * state.index + text.len() <= u32::MAX,
    ensures
        fits(state, text),
    decreases text.len(),
{
    lemma_tag_sizes(text);
    if text.len() > 0 {
        if !state.in_call {
            if let Some(k) = position(text, OPEN_TAG@) {
                lemma_fits(MapState { in_call: true, ..state }, text.skip(k + 11));
            }
        } else if let Some(k) = position(text, CLOSE_TAG@) {
            let body = trimmed(state.buffer + text.take(k));
            let next = left(state, body);
            lemma_fits(next, text.skip(k + 12));
        }
    }
}

/// The protocol is called by its name, the model is the one that the request names, its prompt can
/// always be built, and what it says of tools is handed on: each tool by its name, its description
/// and its parameters, which are an empty object where it gives none.
pub proof fn law_request_is_read(req: AnthropicMessageRequest, tool_prompt: Seq<char>)
    ensures
        <AnthropicMapper as ProtocolMapper>::prompt_of(req, tool_prompt) == Ok::<
            Seq<char>,
            Seq<char>,
        >(prompt_text(req, tool_prompt)),
        <AnthropicMapper as ProtocolMapper>::protocol() == "anthropic"@,
        <AnthropicMapper as ProtocolMapper>::model_of(req) == req.model@,
        req.tools is None <==> <AnthropicMapper as ProtocolMapper>::tools_of(req) is None,
        req.tools matches Some(tools) ==> {
            let views = <AnthropicMapper as ProtocolMapper>::tools_of(req)->0;
            &&& views.len() == tools@.len()
            &&& forall|i: int|
                0 <= i < tools@.len() ==> {
                    &&& (#[trigger] views[i]).name == tools@[i].name@
                    &&& tools@[i].description is None ==> views[i].description is None
                    &&& tools@[i].description matches Some(d) ==> views[i].description == Some(d@)
                    &&& tools@[i].input_schema is None ==> views[i].parameters
                        == JsonTree::Object(Map::empty())
                    &&& tools@[i].input_schema matches Some(s) ==> views[i].parameters == s@
                }
        },
{
}

} // verus!
