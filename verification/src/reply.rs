//! A reply that is collected from its frames and given as one message.
use crate::json::{
    add_member, items_of, json_number, json_parse, number, parse, reads_as_written, string, Json,
    JsonTree,
};
use crate::mapper::{chunk_views, text_view, ChunkView, MapperChunk};
use crate::text::same;
use vstd::prelude::*;
use vstd::string::*;

verus! {

/// What has been collected of a reply: its text, and the blocks that call tools.
#[derive(Debug)]
pub struct Reply {
    pub text: String,
    pub tool_calls: Vec<Json>,
}

/// What has been collected of a reply.
pub struct ReplyView {
    pub text: Seq<char>,
    pub calls: Seq<JsonTree>,
}

impl View for Reply {
    type V = ReplyView;

    open spec fn view(&self) -> ReplyView {
        ReplyView { text: self.text@, calls: items_of(self.tool_calls@) }
    }
}

/// A block that calls a tool.
pub open spec fn is_tool_use(block: JsonTree) -> bool {
    block.member_text("type"@) == Some("tool_use"@)
}

/// The text that a frame adds to a block.
pub open spec fn added_text(frame: JsonTree) -> Option<Seq<char>> {
    match frame.member("delta"@) {
        Some(delta) => delta.member_text("text"@),
        None => None,
    }
}

/// What has been collected once a frame of the kind `event` has come, which was read as `read`.
pub open spec fn absorbed(
    reply: ReplyView,
    event: Option<Seq<char>>,
    read: Option<JsonTree>,
) -> ReplyView {
    match read {
        Some(frame) => if event == Some("content_block_delta"@) {
            match added_text(frame) {
                Some(text) => ReplyView { text: reply.text + text, ..reply },
                None => reply,
            }
        } else if event == Some("content_block_start"@) {
            match frame.member("content_block"@) {
                Some(block) => if is_tool_use(block) {
                    ReplyView { calls: reply.calls.push(block), ..reply }
                } else {
                    reply
                },
                None => reply,
            }
        } else {
            reply
        },
        None => reply,
    }
}

/// A frame whose data is read.
pub open spec fn is_read(event: Option<Seq<char>>) -> bool {
    event == Some("content_block_delta"@) || event == Some("content_block_start"@)
}

/// What has been collected after `frames`.
pub open spec fn collected(reply: ReplyView, frames: Seq<ChunkView>) -> ReplyView
    decreases frames.len(),
{
    if frames.len() == 0 {
        reply
    } else {
        absorbed(
            collected(reply, frames.drop_last()),
            frames.last().event,
            json_parse(frames.last().data),
        )
    }
}

/// The data of the frames that are read is read as it was written; taking a frame shows it.
pub open spec fn legible(frames: Seq<ChunkView>) -> bool {
    forall|i: int|
        0 <= i < frames.len() && is_read(frames[i].event) ==> reads_as_written(
            (#[trigger] frames[i]).data,
            json_parse(frames[i].data),
        )
}

/// A reply of which nothing has come yet.
pub open spec fn nothing() -> ReplyView {
    ReplyView { text: Seq::empty(), calls: Seq::empty() }
}

fn is_event(event: &Option<String>, name: &str) -> (r: bool)
    ensures
        r == (text_view(*event) == Some(name@)),
{
    match event {
        Some(e) => same(e.as_str(), name),
        None => false,
    }
}

/// Every block of a list calls a tool.
pub open spec fn are_calls(blocks: Seq<JsonTree>) -> bool {
    forall|i: int| 0 <= i < blocks.len() ==> is_tool_use(#[trigger] blocks[i])
}

/// Every block that was collected calls a tool.
pub open spec fn only_calls(reply: ReplyView) -> bool {
    are_calls(reply.calls)
}

proof fn lemma_items_push(items: Seq<Json>, item: Json)
    ensures
        items_of(items.push(item)) == items_of(items).push(item@),
{
    assert(items_of(items.push(item)) =~= items_of(items).push(item@));
}

impl Reply {
    /// A reply of which nothing has come yet.
    pub fn new() -> (r: Reply)
        ensures
            r@ == nothing(),
    {
        let r = Reply { text: String::new(), tool_calls: Vec::new() };
        assert(r@.calls =~= Seq::empty());
        r
    }

    /// Takes a frame of the kind `event`, whose data was read as `read`.
    pub fn absorb_read(&mut self, event: &Option<String>, read: Option<Json>)
        ensures
            final(self)@ == absorbed(
                old(self)@,
                text_view(*event),
                match read {
                    Some(frame) => Some(frame@),
                    None => None,
                },
            ),
            only_calls(old(self)@) ==> only_calls(final(self)@),
    {
        proof {
            reveal_strlit("content_block_delta");
            reveal_strlit("content_block_start");
            assert("content_block_delta"@[14] != "content_block_start"@[14]);
        }
        if let Some(frame) = read {
            if is_event(event, "content_block_delta") {
                if let Some(delta) = frame.get("delta") {
                    if let Some(text) = delta.get_str("text") {
                        self.text.append(text);
                    }
                }
            } else if is_event(event, "content_block_start") {
                if let Some(block) = frame.get("content_block") {
                    let is_call: bool = match block.get_str("type") {
                        Some(kind) => same(kind, "tool_use"),
                        None => false,
                    };
                    if is_call {
                        let call: Json = block.clone();
                        proof {
                            lemma_items_push(self.tool_calls@, call);
                        }
                        self.tool_calls.push(call);
                    }
                }
            }
        }
    }

    /// Takes the next frame of the reply.
    pub fn absorb(&mut self, chunk: &MapperChunk)
        ensures
            final(self)@ == absorbed(old(self)@, chunk@.event, json_parse(chunk@.data)),
            only_calls(old(self)@) ==> only_calls(final(self)@),
            is_read(chunk@.event) ==> reads_as_written(chunk@.data, json_parse(chunk@.data)),
    {
        if is_event(&chunk.event, "content_block_delta") || is_event(
            &chunk.event,
            "content_block_start",
        ) {
            let read = parse(chunk.data.as_str());
            self.absorb_read(&chunk.event, read);
        }
    }
}

/// Collects a reply from its frames.
pub fn collect(chunks: &Vec<MapperChunk>) -> (r: Reply)
    ensures
        r@ == collected(nothing(), chunk_views(chunks@)),
        only_calls(r@),
        legible(chunk_views(chunks@)),
{
    let ghost frames = chunk_views(chunks@);
    let mut reply = Reply::new();
    let mut i: usize = 0;
    assert(frames.take(0) =~= Seq::empty());
    while i < chunks.len()
        invariant
            i <= chunks@.len(),
            frames == chunk_views(chunks@),
            reply@ == collected(nothing(), frames.take(i as int)),
            only_calls(reply@),
            forall|k: int|
                0 <= k < i && is_read(frames[k].event) ==> reads_as_written(
                    (#[trigger] frames[k]).data,
                    json_parse(frames[k].data),
                ),
        decreases chunks@.len() - i,
    {
        reply.absorb(&chunks[i]);
        assert(frames[i as int] == chunks@[i as int]@);
        assert(frames.take(i + 1).drop_last() =~= frames.take(i as int));
        i += 1;
    }
    assert(frames.take(frames.len() as int) =~= frames);
    reply
}

// ---- The message --------------------------------------------------------------------------

/// The content of the message: the text, where there is any, and the tool calls.
pub open spec fn content_blocks(reply: ReplyView) -> Seq<JsonTree> {
    if reply.text.len() > 0 {
        seq![
            JsonTree::Object(
                map!["type"@ => JsonTree::Str("text"@), "text"@ => JsonTree::Str(reply.text)],
            ),
        ] + reply.calls
    } else {
        reply.calls
    }
}

/// Why the message ended: for a tool, where its content calls one.
pub open spec fn message_stop_reason(content: Seq<JsonTree>) -> Seq<char> {
    if exists|i: int| 0 <= i < content.len() && is_tool_use(#[trigger] content[i]) {
        "tool_use"@
    } else {
        "end_turn"@
    }
}

/// The message.
pub open spec fn message_tree(id: Seq<char>, model: Seq<char>, content: Seq<JsonTree>) -> JsonTree {
    JsonTree::Object(
        map![
            "id"@ => JsonTree::Str(id),
            "type"@ => JsonTree::Str("message"@),
            "role"@ => JsonTree::Str("assistant"@),
            "model"@ => JsonTree::Str(model),
            "content"@ => JsonTree::Array(content),
            "stop_reason"@ => JsonTree::Str(message_stop_reason(content)),
            "stop_sequence"@ => JsonTree::Null,
            "usage"@ => JsonTree::Object(
                map![
                    "input_tokens"@ => JsonTree::Number(json_number(0)),
                    "output_tokens"@ => JsonTree::Number(json_number(0)),
                ],
            ),
        ],
    )
}

/// Why a message with this content ended.
pub fn stop_reason_of(content: &Vec<Json>) -> (r: &'static str)
    ensures
        r@ == message_stop_reason(items_of(content@)),
{
    let ghost trees = items_of(content@);
    let mut i: usize = 0;
    while i < content.len()
        invariant
            i <= content@.len(),
            trees == items_of(content@),
            forall|k: int| 0 <= k < i ==> !is_tool_use(#[trigger] trees[k]),
        decreases content@.len() - i,
    {
        assert(trees[i as int] == content@[i as int].tree());
        let is_call: bool = match content[i].get_str("type") {
            Some(kind) => same(kind, "tool_use"),
            None => false,
        };
        if is_call {
            assert(is_tool_use(trees[i as int]));
            return "tool_use";
        }
        i += 1;
    }
    "end_turn"
}

impl Reply {
    /// The content of the message.
    pub fn content(self) -> (r: Vec<Json>)
        ensures
            items_of(r@) == content_blocks(self@),
    {
        let ghost view = self@;
        let Reply { text, mut tool_calls } = self;
        let ghost calls = tool_calls@;
        let mut out: Vec<Json> = Vec::new();
        if !text.as_str().is_empty() {
            let mut block: Vec<(String, Json)> = Vec::new();
            add_member(&mut block, "type", string("text"));
            add_member(&mut block, "text", Json::Str(text));
            out.push(Json::Object(block));
        }
        let ghost head = out@;
        out.append(&mut tool_calls);
        assert(items_of(out@) =~= items_of(head) + items_of(calls));
        assert(items_of(out@) =~= content_blocks(view));
        out
    }

    /// The whole message, under the identifier `id`.
    pub fn message(self, id: &str, model: &str) -> (r: Json)
        ensures
            r@ == message_tree(id@, model@, content_blocks(self@)),
    {
        let content: Vec<Json> = self.content();
        let reason: &'static str = stop_reason_of(&content);
        let mut usage: Vec<(String, Json)> = Vec::new();
        add_member(&mut usage, "input_tokens", number(0));
        add_member(&mut usage, "output_tokens", number(0));
        let mut members: Vec<(String, Json)> = Vec::new();
        add_member(&mut members, "id", string(id));
        add_member(&mut members, "type", string("message"));
        add_member(&mut members, "role", string("assistant"));
        add_member(&mut members, "model", string(model));
        add_member(&mut members, "content", Json::Array(content));
        add_member(&mut members, "stop_reason", string(reason));
        add_member(&mut members, "stop_sequence", Json::Null);
        add_member(&mut members, "usage", Json::Object(usage));
        Json::Object(members)
    }
}

/// The answer to the question how many tokens a request has: none are counted.
pub fn token_count_body() -> (r: Json)
    ensures
        r@ == JsonTree::Object(map!["input_tokens"@ => JsonTree::Number(json_number(0))]),
{
    let mut members: Vec<(String, Json)> = Vec::new();
    add_member(&mut members, "input_tokens", number(0));
    Json::Object(members)
}

// ---- Laws ---------------------------------------------------------------------------------

/// The content of the message is all that was collected and nothing else: the text, where there is
/// any, in one block, and behind it every call, in its order.
pub proof fn law_content_is_complete(reply: ReplyView)
    ensures
        ({
            let content = content_blocks(reply);
            let texts: int = if reply.text.len() > 0 {
                1
            } else {
                0
            };
            &&& content.len() == texts + reply.calls.len()
            &&& reply.text.len() > 0 ==> content[0] == JsonTree::Object(
                map!["type"@ => JsonTree::Str("text"@), "text"@ => JsonTree::Str(reply.text)],
            )
            &&& forall|i: int| 0 <= i < reply.calls.len() ==> content[texts + i] == #[trigger] reply.calls[i]
        }),
{
}

/// The message bears the identifier and the model that it is given, holds the content, and says
/// that it ended for a tool exactly where a block of its content calls one.
pub proof fn law_message(id: Seq<char>, model: Seq<char>, content: Seq<JsonTree>)
    ensures
        message_tree(id, model, content) == JsonTree::Object(
            map![
                "id"@ => JsonTree::Str(id),
                "type"@ => JsonTree::Str("message"@),
                "role"@ => JsonTree::Str("assistant"@),
                "model"@ => JsonTree::Str(model),
                "content"@ => JsonTree::Array(content),
                "stop_reason"@ => JsonTree::Str(
                    if exists|i: int|
                        0 <= i < content.len() && (#[trigger] content[i] matches JsonTree::Object(m)
                            && m.contains_key("type"@) && m["type"@] == JsonTree::Str("tool_use"@)) {
                        "tool_use"@
                    } else {
                        "end_turn"@
                    },
                ),
                "stop_sequence"@ => JsonTree::Null,
                "usage"@ => JsonTree::Object(
                    map![
                        "input_tokens"@ => JsonTree::Number(json_number(0)),
                        "output_tokens"@ => JsonTree::Number(json_number(0)),
                    ],
                ),
            ],
        ),
{
    let direct = exists|i: int|
        0 <= i < content.len() && (#[trigger] content[i] matches JsonTree::Object(m)
            && m.contains_key("type"@) && m["type"@] == JsonTree::Str("tool_use"@));
    let named = exists|i: int| 0 <= i < content.len() && is_tool_use(#[trigger] content[i]);
    assert(direct == named) by {
        if direct {
            let i = choose|i: int|
                0 <= i < content.len() && (#[trigger] content[i] matches JsonTree::Object(m)
                    && m.contains_key("type"@) && m["type"@] == JsonTree::Str("tool_use"@));
            assert(is_tool_use(content[i]));
        }
    }
}

/// A frame that adds text to a block adds it to what was collected.
pub proof fn law_text_is_collected(
    reply: ReplyView,
    frames: Seq<ChunkView>,
    f: ChunkView,
    m: Map<Seq<char>, JsonTree>,
    d: Map<Seq<char>, JsonTree>,
    text: Seq<char>,
)
    requires
        f.event == Some("content_block_delta"@),
        json_parse(f.data) == Some(JsonTree::Object(m)),
        m.contains_key("delta"@) && m["delta"@] == JsonTree::Object(d),
        d.contains_key("text"@) && d["text"@] == JsonTree::Str(text),
    ensures
        collected(reply, frames.push(f)).text == collected(reply, frames).text + text,
        collected(reply, frames.push(f)).calls == collected(reply, frames).calls,
{
    assert(frames.push(f).drop_last() =~= frames);
}

/// A frame that opens a block that calls a tool adds that block to the calls, as it is.
pub proof fn law_call_is_collected(
    reply: ReplyView,
    frames: Seq<ChunkView>,
    f: ChunkView,
    m: Map<Seq<char>, JsonTree>,
    b: Map<Seq<char>, JsonTree>,
)
    requires
        f.event == Some("content_block_start"@),
        json_parse(f.data) == Some(JsonTree::Object(m)),
        m.contains_key("content_block"@) && m["content_block"@] == JsonTree::Object(b),
        b.contains_key("type"@) && b["type"@] == JsonTree::Str("tool_use"@),
    ensures
        collected(reply, frames.push(f)).calls == collected(reply, frames).calls.push(
            JsonTree::Object(b),
        ),
        collected(reply, frames.push(f)).text == collected(reply, frames).text,
{
    assert(frames.push(f).drop_last() =~= frames);
    lemma_event_names();
}

/// Any other frame adds nothing.
pub proof fn law_other_frame_adds_nothing(reply: ReplyView, frames: Seq<ChunkView>, f: ChunkView)
    requires
        !(f.event == Some("content_block_delta"@) && (json_parse(f.data) matches Some(
            JsonTree::Object(m),
        ) && m.contains_key("delta"@) && (m["delta"@] matches JsonTree::Object(d)
            && d.contains_key("text"@) && d["text"@] is Str))),
        !(f.event == Some("content_block_start"@) && (json_parse(f.data) matches Some(
            JsonTree::Object(m),
        ) && m.contains_key("content_block"@) && (m["content_block"@] matches JsonTree::Object(b)
            && b.contains_key("type"@) && b["type"@] == JsonTree::Str("tool_use"@)))),
    ensures
        collected(reply, frames.push(f)) == collected(reply, frames),
        collected(reply, Seq::empty()) == reply,
{
    assert(frames.push(f).drop_last() =~= frames);
    lemma_event_names();
}

proof fn lemma_event_names()
    ensures
        "content_block_delta"@ != "content_block_start"@,
{
    reveal_strlit("content_block_delta");
    reveal_strlit("content_block_start");
    assert("content_block_delta"@[14] != "content_block_start"@[14]);
}

/// Nothing that was collected is lost in what it says, and nothing is collected at first.
pub proof fn law_reply_view(reply: Reply, i: int)
    ensures
        reply@.text == reply.text@,
        reply@.calls.len() == reply.tool_calls@.len(),
        0 <= i < reply.tool_calls@.len() ==> reply@.calls[i] == reply.tool_calls@[i]@,
        nothing().text.len() == 0,
        nothing().calls.len() == 0,
{
}

} // verus!
