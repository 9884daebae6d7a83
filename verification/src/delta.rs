//! The backend's text as frames of the Anthropic protocol. Text and tool calls take turns: the
//! text blocks have the even indices, and the tool call between two of them has the odd one.
use crate::json::{
    add_member, json_number, json_parse, json_text, number, parse, string, Json, JsonTree,
};
use crate::mapper::{chunk_views, state_of, ChunkView, MapState, MapperChunk};
use crate::text::{
    decimal, decimal_text, find, lemma_position, part, position, trim, trimmed,
};
use vstd::prelude::*;
use vstd::string::*;

verus! {

/// What opens a tool call in the backend's text.
pub const OPEN_TAG: &'static str = "<tool_call>";

/// What closes a tool call in the backend's text.
pub const CLOSE_TAG: &'static str = "</tool_call>";

// ---- The frames ---------------------------------------------------------------------------

/// A frame of the kind `event`.
pub open spec fn frame(event: Seq<char>, data: Seq<char>) -> ChunkView {
    ChunkView { event: Some(event), data }
}

/// More text for the block `index`.
pub open spec fn text_delta_tree(index: int, text: Seq<char>) -> JsonTree {
    JsonTree::Object(
        map![
            "type"@ => JsonTree::Str("content_block_delta"@),
            "index"@ => JsonTree::Number(json_number(index as u32)),
            "delta"@ => JsonTree::Object(
                map!["type"@ => JsonTree::Str("text_delta"@), "text"@ => JsonTree::Str(text)],
            ),
        ],
    )
}

/// The start of the block `index`, which calls the tool `name` for the `call`-th time.
pub open spec fn tool_start_tree(index: int, call: nat, name: Seq<char>) -> JsonTree {
    JsonTree::Object(
        map![
            "type"@ => JsonTree::Str("content_block_start"@),
            "index"@ => JsonTree::Number(json_number(index as u32)),
            "content_block"@ => JsonTree::Object(
                map![
                    "type"@ => JsonTree::Str("tool_use"@),
                    "id"@ => JsonTree::Str("toolu_cascade_"@ + decimal(call)),
                    "name"@ => JsonTree::Str(name),
                    "input"@ => JsonTree::Object(Map::empty()),
                ],
            ),
        ],
    )
}

/// The arguments of the tool call in the block `index`.
pub open spec fn tool_input_tree(index: int, args: Seq<char>) -> JsonTree {
    JsonTree::Object(
        map![
            "type"@ => JsonTree::Str("content_block_delta"@),
            "index"@ => JsonTree::Number(json_number(index as u32)),
            "delta"@ => JsonTree::Object(
                map![
                    "type"@ => JsonTree::Str("input_json_delta"@),
                    "partial_json"@ => JsonTree::Str(args),
                ],
            ),
        ],
    )
}

/// The end of the tool call in the block `index`.
pub open spec fn tool_stop_tree(index: int) -> JsonTree {
    JsonTree::Object(
        map![
            "type"@ => JsonTree::Str("content_block_stop"@),
            "index"@ => JsonTree::Number(json_number(index as u32)),
        ],
    )
}

/// More text for the block `index`.
pub fn text_delta_json(index: u32, text: &str) -> (r: Json)
    ensures
        r@ == text_delta_tree(index as int, text@),
{
    let mut delta: Vec<(String, Json)> = Vec::new();
    add_member(&mut delta, "type", string("text_delta"));
    add_member(&mut delta, "text", string(text));
    let mut members: Vec<(String, Json)> = Vec::new();
    add_member(&mut members, "type", string("content_block_delta"));
    add_member(&mut members, "index", number(index));
    add_member(&mut members, "delta", Json::Object(delta));
    Json::Object(members)
}

/// The start of the block `index`, which calls the tool `name` for the `call`-th time.
pub fn tool_start_json(index: u32, call: u32, name: &str) -> (r: Json)
    ensures
        r@ == tool_start_tree(index as int, call as nat, name@),
{
    let mut id: String = "toolu_cascade_".to_owned();
    id.append(decimal_text(call).as_str());
    let mut block: Vec<(String, Json)> = Vec::new();
    add_member(&mut block, "type", string("tool_use"));
    add_member(&mut block, "id", Json::Str(id));
    add_member(&mut block, "name", string(name));
    add_member(&mut block, "input", Json::Object(Vec::new()));
    let mut members: Vec<(String, Json)> = Vec::new();
    add_member(&mut members, "type", string("content_block_start"));
    add_member(&mut members, "index", number(index));
    add_member(&mut members, "content_block", Json::Object(block));
    Json::Object(members)
}

/// The arguments of the tool call in the block `index`.
pub fn tool_input_json(index: u32, args: &str) -> (r: Json)
    ensures
        r@ == tool_input_tree(index as int, args@),
{
    let mut delta: Vec<(String, Json)> = Vec::new();
    add_member(&mut delta, "type", string("input_json_delta"));
    add_member(&mut delta, "partial_json", string(args));
    let mut members: Vec<(String, Json)> = Vec::new();
    add_member(&mut members, "type", string("content_block_delta"));
    add_member(&mut members, "index", number(index));
    add_member(&mut members, "delta", Json::Object(delta));
    Json::Object(members)
}

/// The end of the tool call in the block `index`.
pub fn tool_stop_json(index: u32) -> (r: Json)
    ensures
        r@ == tool_stop_tree(index as int),
{
    let mut members: Vec<(String, Json)> = Vec::new();
    add_member(&mut members, "type", string("content_block_stop"));
    add_member(&mut members, "index", number(index));
    Json::Object(members)
}

/// The data of the frame that starts the text block `index`.
pub open spec fn text_start_data(index: nat) -> Seq<char> {
    "{\"type\":\"content_block_start\",\"index\":"@ + decimal(index)
        + ",\"content_block\":{\"type\":\"text\",\"text\":\"\"}}"@
}

/// The data of the frame that ends the text block `index`.
pub open spec fn text_stop_data(index: nat) -> Seq<char> {
    "{\"type\":\"content_block_stop\",\"index\":"@ + decimal(index) + "}"@
}

/// The data of the frame that says why the message ended.
pub open spec fn message_delta_data(stop_reason: Seq<char>) -> Seq<char> {
    "{\"type\":\"message_delta\",\"delta\":{\"stop_reason\":\""@ + stop_reason
        + "\",\"stop_sequence\":null},\"usage\":{\"output_tokens\":0,\"cache_creation_input_tokens\":0,\"cache_read_input_tokens\":0}}"@
}

/// More text for the block `index`.
pub open spec fn text_frame(index: int, text: Seq<char>) -> ChunkView {
    frame("content_block_delta"@, json_text(text_delta_tree(index, text)))
}

/// The start of the text block `index`.
pub open spec fn text_start_frame(index: nat) -> ChunkView {
    frame("content_block_start"@, text_start_data(index))
}

/// The end of the text block `index`.
pub open spec fn text_stop_frame(index: nat) -> ChunkView {
    frame("content_block_stop"@, text_stop_data(index))
}

fn chunk(event: &str, data: String) -> (r: MapperChunk)
    ensures
        r@ == frame(event@, data@),
{
    MapperChunk { event: Some(event.to_owned()), data }
}

/// More text for the block `index`.
pub fn text_chunk(index: u32, text: &str) -> (r: MapperChunk)
    ensures
        r@ == text_frame(index as int, text@),
{
    chunk("content_block_delta", text_delta_json(index, text).render())
}

/// The start of the text block `index`.
pub fn text_start_chunk(index: u32) -> (r: MapperChunk)
    ensures
        r@ == text_start_frame(index as nat),
{
    let mut data: String = "{\"type\":\"content_block_start\",\"index\":".to_owned();
    data.append(decimal_text(index).as_str());
    data.append(",\"content_block\":{\"type\":\"text\",\"text\":\"\"}}");
    chunk("content_block_start", data)
}

/// The end of the text block `index`.
pub fn text_stop_chunk(index: u32) -> (r: MapperChunk)
    ensures
        r@ == text_stop_frame(index as nat),
{
    let mut data: String = "{\"type\":\"content_block_stop\",\"index\":".to_owned();
    data.append(decimal_text(index).as_str());
    data.append("}");
    chunk("content_block_stop", data)
}

// ---- A tool call --------------------------------------------------------------------------

/// The tool that a call names.
pub open spec fn call_name(call: JsonTree) -> Seq<char> {
    match call.member_text("name"@) {
        Some(name) => name,
        None => "unknown_tool"@,
    }
}

/// The arguments of a call.
pub open spec fn call_args(call: JsonTree) -> JsonTree {
    match call.member("arguments"@) {
        Some(args) => args,
        None => JsonTree::Object(Map::empty()),
    }
}

/// A tool call as text.
pub open spec fn tagged(body: Seq<char>) -> Seq<char> {
    OPEN_TAG@ + body + CLOSE_TAG@
}

/// The frames for the tool call `body`, which was read as `parsed`, after `index` others: a call
/// that was not read goes on as text, and an empty one is left out.
pub open spec fn call_frames(index: nat, body: Seq<char>, parsed: Option<JsonTree>) -> Seq<
    ChunkView,
> {
    let block = (2 * index + 1) as int;
    if body.len() == 0 {
        Seq::empty()
    } else {
        match parsed {
            Some(call) => seq![
                frame(
                    "content_block_start"@,
                    json_text(tool_start_tree(block, index, call_name(call))),
                ),
                frame(
                    "content_block_delta"@,
                    json_text(tool_input_tree(block, json_text(call_args(call)))),
                ),
                frame("content_block_stop"@, json_text(tool_stop_tree(block))),
            ],
            None => seq![text_frame(block, tagged(body))],
        }
    }
}

/// How many tool calls have been passed on after the call `body`.
pub open spec fn calls_after(index: nat, body: Seq<char>, parsed: Option<JsonTree>) -> nat {
    if body.len() > 0 && parsed is Some {
        index + 1
    } else {
        index
    }
}

/// The frames for the tool call `body`, which was read as `parsed`, after `index` others.
pub fn call_chunks(index: u32, body: &str, parsed: &Option<Json>) -> (r: Vec<MapperChunk>)
    requires
        2 * index + 1 <= u32::MAX,
    ensures
        chunk_views(r@) == call_frames(
            index as nat,
            body@,
            match parsed {
                Some(call) => Some(call@),
                None => None,
            },
        ),
{
    let block: u32 = index * 2 + 1;
    let mut out: Vec<MapperChunk> = Vec::new();
    if !body.is_empty() {
        match parsed {
            Some(call) => {
                let name: &str = match call.get_str("name") {
                    Some(name) => name,
                    None => "unknown_tool",
                };
                let args: String = match call.get("arguments") {
                    Some(args) => args.render(),
                    None => Json::Object(Vec::new()).render(),
                };
                out.push(
                    chunk("content_block_start", tool_start_json(block, index, name).render()),
                );
                out.push(
                    chunk("content_block_delta", tool_input_json(block, args.as_str()).render()),
                );
                out.push(chunk("content_block_stop", tool_stop_json(block).render()));
            },
            None => {
                let mut fallback: String = OPEN_TAG.to_owned();
                fallback.append(body);
                fallback.append(CLOSE_TAG);
                out.push(text_chunk(block, fallback.as_str()));
            },
        }
    }
    assert(chunk_views(out@) =~= call_frames(
        index as nat,
        body@,
        match parsed {
            Some(call) => Some(call@),
            None => None,
        },
    ));
    out
}

// ---- The text -----------------------------------------------------------------------------

/// The state within a tool call.
pub open spec fn entered(state: MapState) -> MapState {
    MapState { in_call: true, ..state }
}

/// The state behind the tool call `body`.
pub open spec fn left(state: MapState, body: Seq<char>) -> MapState {
    MapState {
        buffer: Seq::empty(),
        in_call: false,
        index: calls_after(state.index, body, json_parse(body)),
    }
}

/// The state and the frames that `text` leads to.
pub open spec fn deltas(state: MapState, text: Seq<char>) -> (MapState, Seq<ChunkView>)
    decreases text.len(),
    via deltas_decreases
{
    let block = 2 * state.index;
    if text.len() == 0 {
        (state, Seq::empty())
    } else if !state.in_call {
        match position(text, OPEN_TAG@) {
            Some(k) => {
                let rest = deltas(entered(state), text.skip(k + OPEN_TAG@.len()));
                let before = if k > 0 {
                    seq![text_frame(block as int, text.take(k))]
                } else {
                    Seq::empty()
                };
                (rest.0, before + seq![text_stop_frame(block)] + rest.1)
            },
            None => (state, seq![text_frame(block as int, text)]),
        }
    } else {
        match position(text, CLOSE_TAG@) {
            Some(k) => {
                let body = trimmed(state.buffer + text.take(k));
                let rest = deltas(left(state, body), text.skip(k + CLOSE_TAG@.len()));
                (
                    rest.0,
                    call_frames(state.index, body, json_parse(body)) + seq![
                        text_start_frame(block + 2),
                    ] + rest.1,
                )
            },
            None => (MapState { buffer: state.buffer + text, ..state }, Seq::empty()),
        }
    }
}

/// Every block index that `text` leads to is a `u32`.
pub open spec fn fits(state: MapState, text: Seq<char>) -> bool
    decreases text.len(),
    via fits_decreases
{
    let block = 2 * state.index;
    if text.len() == 0 {
        true
    } else if !state.in_call {
        block <= u32::MAX && match position(text, OPEN_TAG@) {
            Some(k) => fits(entered(state), text.skip(k + OPEN_TAG@.len())),
            None => true,
        }
    } else {
        match position(text, CLOSE_TAG@) {
            Some(k) => block + 2 <= u32::MAX && fits(
                left(state, trimmed(state.buffer + text.take(k))),
                text.skip(k + CLOSE_TAG@.len()),
            ),
            None => true,
        }
    }
}

#[via_fn]
proof fn deltas_decreases(state: MapState, text: Seq<char>) {
    lemma_tag_sizes(text);
}

#[via_fn]
proof fn fits_decreases(state: MapState, text: Seq<char>) {
    lemma_tag_sizes(text);
}

pub(crate) proof fn lemma_tag_sizes(text: Seq<char>)
    ensures
        OPEN_TAG@.len() == 11,
        CLOSE_TAG@.len() == 12,
        position(text, OPEN_TAG@) matches Some(k) ==> 0 <= k && k + 11 <= text.len(),
        position(text, CLOSE_TAG@) matches Some(k) ==> 0 <= k && k + 12 <= text.len(),
{
    reveal_strlit("<tool_call>");
    reveal_strlit("</tool_call>");
    lemma_position(text, OPEN_TAG@);
    lemma_position(text, CLOSE_TAG@);
}

/// Follows the backend's text: the frames for `delta`, or `None` where a block index would not be
/// a `u32`; then nothing changes.
pub fn map_text(
    delta: &str,
    tool_call_buffer: &mut String,
    in_tool_call: &mut bool,
    tool_call_index: &mut u32,
) -> (r: Option<Vec<MapperChunk>>)
    ensures
        r is Some <==> fits(
            state_of(*old(tool_call_buffer), *old(in_tool_call), *old(tool_call_index)),
            delta@,
        ),
        r is None ==> state_of(
            *final(tool_call_buffer),
            *final(in_tool_call),
            *final(tool_call_index),
        ) == state_of(*old(tool_call_buffer), *old(in_tool_call), *old(tool_call_index)),
        r matches Some(chunks) ==> deltas(
            state_of(*old(tool_call_buffer), *old(in_tool_call), *old(tool_call_index)),
            delta@,
        ) == (
            state_of(*final(tool_call_buffer), *final(in_tool_call), *final(tool_call_index)),
            chunk_views(chunks@),
        ),
{
    let ghost start = state_of(*tool_call_buffer, *in_tool_call, *tool_call_index);
    let mut buffer: String = tool_call_buffer.clone();
    let mut in_call: bool = *in_tool_call;
    let mut index: u32 = *tool_call_index;
    let mut pending: String = delta.to_owned();
    let mut out: Vec<MapperChunk> = Vec::new();
    assert(chunk_views(out@) =~= Seq::empty());
    assert(chunk_views(out@) + deltas(start, delta@).1 =~= deltas(start, delta@).1);
    while !pending.as_str().is_empty()
        invariant
            fits(start, delta@) == fits(state_of(buffer, in_call, index), pending@),
            deltas(start, delta@).0 == deltas(state_of(buffer, in_call, index), pending@).0,
            deltas(start, delta@).1 == chunk_views(out@) + deltas(
                state_of(buffer, in_call, index),
                pending@,
            ).1,
            start == state_of(*old(tool_call_buffer), *old(in_tool_call), *old(tool_call_index)),
            state_of(*tool_call_buffer, *in_tool_call, *tool_call_index) == start,
        decreases pending@.len(),
    {
        let ghost state = state_of(buffer, in_call, index);
        let ghost text = pending@;
        let ghost said = chunk_views(out@);
        proof {
            lemma_tag_sizes(text);
        }
        let size: usize = pending.as_str().unicode_len();
        if !in_call {
            if index > u32::MAX / 2 {
                return None;
            }
            let block: u32 = index * 2;
            match find(pending.as_str(), OPEN_TAG) {
                Some(k) => {
                    if k > 0 {
                        out.push(text_chunk(block, part(pending.as_str(), 0, k).as_str()));
                        assert(text.subrange(0, k as int) == text.take(k as int));
                    }
                    out.push(text_stop_chunk(block));
                    in_call = true;
                    pending = part(pending.as_str(), k + 11, size);
                    assert(pending@ == text.skip(k + 11));
                    assert(deltas(start, delta@).1 =~= chunk_views(out@) + deltas(
                        state_of(buffer, in_call, index),
                        pending@,
                    ).1);
                },
                None => {
                    out.push(text_chunk(block, pending.as_str()));
                    pending = String::new();
                    assert(deltas(start, delta@).1 =~= chunk_views(out@) + deltas(
                        state_of(buffer, in_call, index),
                        pending@,
                    ).1);
                },
            }
        } else {
            match find(pending.as_str(), CLOSE_TAG) {
                Some(k) => {
                    if index > (u32::MAX - 2) / 2 {
                        return None;
                    }
                    let next_block: u32 = index * 2 + 2;
                    buffer.append(part(pending.as_str(), 0, k).as_str());
                    assert(text.subrange(0, k as int) == text.take(k as int));
                    let body: String = trim(buffer.as_str());
                    let mut parsed: Option<Json> = None;
                    if !body.as_str().is_empty() {
                        parsed = parse(body.as_str());
                    }
                    let mut chunks = call_chunks(index, body.as_str(), &parsed);
                    let ghost called = chunk_views(chunks@);
                    if parsed.is_some() {
                        index += 1;
                    }
                    out.append(&mut chunks);
                    out.push(text_start_chunk(next_block));
                    assert(chunk_views(out@) =~= said + called + seq![
                        text_start_frame(next_block as nat),
                    ]);
                    buffer = String::new();
                    in_call = false;
                    pending = part(pending.as_str(), k + 12, size);
                    assert(pending@ == text.skip(k + 12));
                    assert(deltas(start, delta@).1 =~= chunk_views(out@) + deltas(
                        state_of(buffer, in_call, index),
                        pending@,
                    ).1);
                },
                None => {
                    buffer.append(pending.as_str());
                    pending = String::new();
                },
            }
        }
    }
    assert(deltas(start, delta@).1 =~= chunk_views(out@));
    *tool_call_buffer = buffer;
    *in_tool_call = in_call;
    *tool_call_index = index;
    Some(out)
}

// ---- The ends of a stream -----------------------------------------------------------------

/// Why the message ended, after `index` tool calls.
pub open spec fn stop_reason(index: nat) -> Seq<char> {
    if index > 0 {
        "tool_use"@
    } else {
        "end_turn"@
    }
}

/// The frames that end a message, after `index` tool calls.
pub open spec fn final_frames(index: nat) -> Seq<ChunkView> {
    seq![
        text_stop_frame(2 * index),
        frame("message_delta"@, message_delta_data(stop_reason(index))),
        frame("message_stop"@, "{\"type\":\"message_stop\"}"@),
    ]
}

/// The data of the frame that starts a message of `model`.
pub open spec fn message_start_data(model: Seq<char>) -> Seq<char> {
    "{\"type\":\"message_start\",\"message\":{\"id\":\"msg_cascade\",\"type\":\"message\",\"role\":\"assistant\",\"model\":\""@
        + model
        + "\",\"content\":[],\"usage\":{\"input_tokens\":0,\"output_tokens\":0,\"cache_creation_input_tokens\":0,\"cache_read_input_tokens\":0}}}"@
}

/// The frames that start a message of `model`.
pub open spec fn initial_frames(model: Seq<char>) -> Seq<ChunkView> {
    seq![
        frame("message_start"@, message_start_data(model)),
        frame(
            "content_block_start"@,
            "{\"type\":\"content_block_start\",\"index\":0,\"content_block\":{\"type\":\"text\",\"text\":\"\"}}"@,
        ),
    ]
}

/// The frames that end a message, after `index` tool calls.
pub fn final_chunks(index: u32) -> (r: Vec<MapperChunk>)
    requires
        2 * index <= u32::MAX,
    ensures
        chunk_views(r@) == final_frames(index as nat),
{
    let mut out: Vec<MapperChunk> = Vec::new();
    out.push(text_stop_chunk(index * 2));
    let mut data: String =
        "{\"type\":\"message_delta\",\"delta\":{\"stop_reason\":\"".to_owned();
    data.append(
        if index > 0 {
            "tool_use"
        } else {
            "end_turn"
        },
    );
    data.append(
        "\",\"stop_sequence\":null},\"usage\":{\"output_tokens\":0,\"cache_creation_input_tokens\":0,\"cache_read_input_tokens\":0}}",
    );
    out.push(chunk("message_delta", data));
    out.push(chunk("message_stop", "{\"type\":\"message_stop\"}".to_owned()));
    assert(chunk_views(out@) =~= final_frames(index as nat));
    out
}

/// The frames that start a message of `model`.
pub fn start_chunks(model: &str) -> (r: Vec<MapperChunk>)
    ensures
        chunk_views(r@) == initial_frames(model@),
{
    let mut data: String =
        "{\"type\":\"message_start\",\"message\":{\"id\":\"msg_cascade\",\"type\":\"message\",\"role\":\"assistant\",\"model\":\"".to_owned();
    data.append(model);
    data.append(
        "\",\"content\":[],\"usage\":{\"input_tokens\":0,\"output_tokens\":0,\"cache_creation_input_tokens\":0,\"cache_read_input_tokens\":0}}}",
    );
    let mut out: Vec<MapperChunk> = Vec::new();
    out.push(chunk("message_start", data));
    out.push(
        chunk(
            "content_block_start",
            "{\"type\":\"content_block_start\",\"index\":0,\"content_block\":{\"type\":\"text\",\"text\":\"\"}}".to_owned(),
        ),
    );
    assert(chunk_views(out@) =~= initial_frames(model@));
    out
}

} // verus!
