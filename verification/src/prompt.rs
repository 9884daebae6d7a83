//! The prompt for the backend, built of an Anthropic request.
use crate::anthropic::{AnthropicMessage, AnthropicMessageRequest};
use crate::json::{items_of, json_text, Json, JsonTree};
use crate::text::same;
use vstd::prelude::*;
use vstd::string::*;

verus! {

/// How the backend is told to call tools.
pub const TOOL_RULE: &'static str =
    "IMPORTANT: If you need to use any of the tools above, you MUST output a <tool_call> XML tag containing the tool name and arguments in JSON format. For example:\n<tool_call>{\"name\": \"tool_name\", \"arguments\": {\"arg1\": \"val1\"}}</tool_call>\nAfter outputting the tag, you should stop generating and wait for the result.\n\n";

/// The texts of `items`, one after the other, as `write` puts them.
pub open spec fn joined(items: Seq<JsonTree>, write: spec_fn(JsonTree) -> Seq<char>) -> Seq<char>
    decreases items.len(),
{
    if items.len() == 0 {
        Seq::empty()
    } else {
        joined(items.drop_last(), write) + write(items.last())
    }
}

/// The text of an optional string, empty where there is none.
pub open spec fn or_empty(t: Option<Seq<char>>) -> Seq<char> {
    match t {
        Some(s) => s,
        None => Seq::empty(),
    }
}

/// The part of the prompt that speaks of tools.
pub open spec fn tool_part(offers_tools: bool, tool_prompt: Seq<char>) -> Seq<char> {
    if offers_tools && tool_prompt.len() > 0 {
        tool_prompt + "\n\n"@ + TOOL_RULE@
    } else {
        Seq::empty()
    }
}

/// One block of the system text.
pub open spec fn system_block(block: JsonTree) -> Seq<char> {
    match block.member_text("text"@) {
        Some(t) => t + "\n"@,
        None => Seq::empty(),
    }
}

/// The part of the prompt that holds the system text.
pub open spec fn system_part(system: Option<JsonTree>) -> Seq<char> {
    match system {
        Some(JsonTree::Str(s)) => s + "\n\n"@,
        Some(JsonTree::Array(blocks)) => joined(blocks, |b: JsonTree| system_block(b)) + "\n"@,
        _ => Seq::empty(),
    }
}

/// The line that tells of the call of the tool `name`.
pub open spec fn tool_use_text(name: Seq<char>, args: Seq<char>) -> Seq<char> {
    "\n[Assistant Decided to Call Tool '"@ + name + "' with args '"@ + args + "']\n"@
}

/// One block of a tool's result: its text, where it is a text block.
pub open spec fn result_block(block: JsonTree) -> Seq<char> {
    if block.member_text("type"@) == Some("text"@) {
        or_empty(block.member_text("text"@))
    } else {
        Seq::empty()
    }
}

/// What a tool gave back.
pub open spec fn result_text(content: Option<JsonTree>) -> Seq<char> {
    match content {
        Some(JsonTree::Str(s)) => s,
        Some(JsonTree::Array(blocks)) => joined(blocks, |b: JsonTree| result_block(b)),
        Some(other) => json_text(other),
        None => Seq::empty(),
    }
}

/// One block of a message.
pub open spec fn message_block(block: JsonTree) -> Seq<char> {
    match block.member_text("type"@) {
        Some(kind) => if kind == "text"@ {
            or_empty(block.member_text("text"@))
        } else if kind == "tool_use"@ {
            match block.member_text("name"@) {
                Some(name) => tool_use_text(
                    name,
                    match block.member("input"@) {
                        Some(input) => json_text(input),
                        None => Seq::empty(),
                    },
                ),
                None => Seq::empty(),
            }
        } else if kind == "tool_result"@ {
            "\n[Tool Execution Result]\n"@ + result_text(block.member("content"@)) + "\n"@
        } else {
            Seq::empty()
        },
        None => Seq::empty(),
    }
}

/// The content of a message.
pub open spec fn content_text(content: JsonTree) -> Seq<char> {
    match content {
        JsonTree::Str(s) => s,
        JsonTree::Array(blocks) => joined(blocks, |b: JsonTree| message_block(b)),
        _ => Seq::empty(),
    }
}

/// One message.
pub open spec fn message_text(message: AnthropicMessage) -> Seq<char> {
    message.role@ + ": "@ + content_text(message.content@) + "\n"@
}

/// The messages, one after the other.
pub open spec fn messages_text(messages: Seq<AnthropicMessage>) -> Seq<char>
    decreases messages.len(),
{
    if messages.len() == 0 {
        Seq::empty()
    } else {
        messages_text(messages.drop_last()) + message_text(messages.last())
    }
}

/// The system value of a request.
pub open spec fn system_tree(system: Option<Json>) -> Option<JsonTree> {
    match system {
        Some(s) => Some(s@),
        None => None,
    }
}

/// The whole prompt: the tools, the system text, and the messages in their order.
pub open spec fn prompt_text(req: AnthropicMessageRequest, tool_prompt: Seq<char>) -> Seq<char> {
    tool_part(req.tools is Some, tool_prompt) + system_part(system_tree(req.system))
        + messages_text(req.messages@)
}

proof fn lemma_joined_step(items: Seq<Json>, i: int, write: spec_fn(JsonTree) -> Seq<char>)
    requires
        0 <= i < items.len(),
    ensures
        joined(items_of(items).take(i + 1), write) == joined(items_of(items).take(i), write)
            + write(items[i]@),
{
    let trees = items_of(items);
    assert(trees.take(i + 1).drop_last() == trees.take(i));
    assert(trees.take(i + 1).last() == items[i].tree());
}

/// Adds the system text to a prompt.
pub fn push_system(prompt: &mut String, system: &Json)
    ensures
        final(prompt)@ == old(prompt)@ + system_part(Some(system@)),
{
    let ghost start = prompt@;
    if let Some(s) = system.as_str() {
        prompt.append(s);
        prompt.append("\n\n");
        assert(prompt@ =~= start + (s@ + "\n\n"@));
    } else if let Some(blocks) = system.as_array() {
        let ghost write = |b: JsonTree| system_block(b);
        let mut i: usize = 0;
        assert(prompt@ =~= start + joined(items_of(blocks@).take(0), write));
        while i < blocks.len()
            invariant
                i <= blocks@.len(),
                write == (|b: JsonTree| system_block(b)),
                prompt@ == start + joined(items_of(blocks@).take(i as int), write),
            decreases blocks@.len() - i,
        {
            proof {
                lemma_joined_step(blocks@, i as int, write);
            }
            if let Some(t) = blocks[i].get_str("text") {
                prompt.append(t);
                prompt.append("\n");
            }
            assert(prompt@ =~= start + joined(items_of(blocks@).take(i + 1), write));
            i += 1;
        }
        prompt.append("\n");
        assert(items_of(blocks@).take(blocks@.len() as int) =~= items_of(blocks@));
        assert(prompt@ =~= start + (joined(items_of(blocks@), write) + "\n"@));
    } else {
        assert(prompt@ =~= start + system_part(Some(system@)));
    }
}

/// Adds the line that tells of a tool call to a prompt.
pub fn push_tool_use(prompt: &mut String, name: &str, args: &str)
    ensures
        final(prompt)@ == old(prompt)@ + tool_use_text(name@, args@),
{
    prompt.append("\n[Assistant Decided to Call Tool '");
    prompt.append(name);
    prompt.append("' with args '");
    prompt.append(args);
    prompt.append("']\n");
    assert(prompt@ =~= old(prompt)@ + tool_use_text(name@, args@));
}

fn has_type(block: &Json, kind: &str) -> (r: bool)
    ensures
        r == (block@.member_text("type"@) == Some(kind@)),
{
    match block.get_str("type") {
        Some(t) => same(t, kind),
        None => false,
    }
}

/// Adds what a tool gave back to a prompt.
pub fn push_result(prompt: &mut String, content: &Json)
    ensures
        final(prompt)@ == old(prompt)@ + result_text(Some(content@)),
{
    let ghost start = prompt@;
    if let Some(s) = content.as_str() {
        prompt.append(s);
    } else if let Some(blocks) = content.as_array() {
        let ghost write = |b: JsonTree| result_block(b);
        let mut i: usize = 0;
        assert(prompt@ =~= start + joined(items_of(blocks@).take(0), write));
        while i < blocks.len()
            invariant
                i <= blocks@.len(),
                write == (|b: JsonTree| result_block(b)),
                prompt@ == start + joined(items_of(blocks@).take(i as int), write),
            decreases blocks@.len() - i,
        {
            proof {
                lemma_joined_step(blocks@, i as int, write);
            }
            if has_type(&blocks[i], "text") {
                if let Some(t) = blocks[i].get_str("text") {
                    prompt.append(t);
                }
            }
            assert(prompt@ =~= start + joined(items_of(blocks@).take(i + 1), write));
            i += 1;
        }
        assert(items_of(blocks@).take(blocks@.len() as int) =~= items_of(blocks@));
    } else {
        prompt.append(content.render().as_str());
    }
}

/// Adds one block of a message to a prompt.
pub fn push_block(prompt: &mut String, block: &Json)
    ensures
        final(prompt)@ == old(prompt)@ + message_block(block@),
{
    let ghost start = prompt@;
    proof {
        reveal_strlit("text");
        reveal_strlit("tool_use");
        reveal_strlit("tool_result");
    }
    if has_type(block, "text") {
        if let Some(t) = block.get_str("text") {
            prompt.append(t);
        }
        assert(prompt@ =~= start + message_block(block@));
    } else if has_type(block, "tool_use") {
        if let Some(name) = block.get_str("name") {
            let args: String = match block.get("input") {
                Some(input) => input.render(),
                None => String::new(),
            };
            push_tool_use(prompt, name, args.as_str());
        }
        assert(prompt@ =~= start + message_block(block@));
    } else if has_type(block, "tool_result") {
        prompt.append("\n[Tool Execution Result]\n");
        if let Some(content) = block.get("content") {
            push_result(prompt, content);
        }
        prompt.append("\n");
        assert(prompt@ =~= start + message_block(block@));
    } else {
        assert(prompt@ =~= start + message_block(block@));
    }
}

/// Adds the content of a message to a prompt.
pub fn push_content(prompt: &mut String, content: &Json)
    ensures
        final(prompt)@ == old(prompt)@ + content_text(content@),
{
    let ghost start = prompt@;
    if let Some(s) = content.as_str() {
        prompt.append(s);
    } else if let Some(blocks) = content.as_array() {
        let ghost write = |b: JsonTree| message_block(b);
        let mut i: usize = 0;
        assert(prompt@ =~= start + joined(items_of(blocks@).take(0), write));
        while i < blocks.len()
            invariant
                i <= blocks@.len(),
                write == (|b: JsonTree| message_block(b)),
                prompt@ == start + joined(items_of(blocks@).take(i as int), write),
            decreases blocks@.len() - i,
        {
            proof {
                lemma_joined_step(blocks@, i as int, write);
            }
            push_block(prompt, &blocks[i]);
            assert(prompt@ =~= start + joined(items_of(blocks@).take(i + 1), write));
            i += 1;
        }
        assert(items_of(blocks@).take(blocks@.len() as int) =~= items_of(blocks@));
    } else {
        assert(prompt@ =~= start + content_text(content@));
    }
}

/// The prompt for a request; `tool_prompt` describes the tools that it offers.
pub fn prompt(req: &AnthropicMessageRequest, tool_prompt: &str) -> (r: String)
    ensures
        r@ == prompt_text(*req, tool_prompt@),
{
    let mut out: String = String::new();
    if req.tools.is_some() {
        if !tool_prompt.is_empty() {
            out.append(tool_prompt);
            out.append("\n\n");
            out.append(TOOL_RULE);
        }
    }
    assert(out@ =~= tool_part(req.tools is Some, tool_prompt@));
    if let Some(system) = &req.system {
        push_system(&mut out, system);
    }
    let ghost head = tool_part(req.tools is Some, tool_prompt@) + system_part(
        system_tree(req.system),
    );
    assert(out@ =~= head);
    let mut i: usize = 0;
    assert(out@ =~= head + messages_text(req.messages@.take(0)));
    while i < req.messages.len()
        invariant
            i <= req.messages@.len(),
            out@ == head + messages_text(req.messages@.take(i as int)),
        decreases req.messages@.len() - i,
    {
        let message = &req.messages[i];
        out.append(message.role.as_str());
        out.append(": ");
        push_content(&mut out, &message.content);
        out.append("\n");
        assert(req.messages@.take(i + 1).drop_last() == req.messages@.take(i as int));
        assert(req.messages@.take(i + 1).last() == *message);
        assert(out@ =~= head + messages_text(req.messages@.take(i + 1)));
        i += 1;
    }
    assert(req.messages@.take(req.messages@.len() as int) == req.messages@);
    out
}

/// A prompt grows at its end: what is said later in a conversation changes nothing of what the
/// backend is told of what was said before.
pub proof fn law_prompt_extends(
    req: AnthropicMessageRequest,
    longer: AnthropicMessageRequest,
    message: AnthropicMessage,
    tool_prompt: Seq<char>,
)
    requires
        longer.tools == req.tools,
        longer.system == req.system,
        longer.messages@ == req.messages@.push(message),
    ensures
        prompt_text(longer, tool_prompt) == prompt_text(req, tool_prompt) + message_text(message),
{
    assert(longer.messages@.drop_last() == req.messages@);
    assert(prompt_text(longer, tool_prompt) =~= prompt_text(req, tool_prompt) + message_text(
        message,
    ));
}

/// A request that offers no tools has a prompt without a word on tools, whatever describes them.
pub proof fn law_prompt_without_tools(
    req: AnthropicMessageRequest,
    tool_prompt: Seq<char>,
    other: Seq<char>,
)
    requires
        req.tools is None,
    ensures
        prompt_text(req, tool_prompt) == prompt_text(req, other),
        prompt_text(req, tool_prompt) == system_part(system_tree(req.system)) + messages_text(
            req.messages@,
        ),
{
    assert(prompt_text(req, tool_prompt) =~= system_part(system_tree(req.system)) + messages_text(
        req.messages@,
    ));
}

// ---- What each part adds ------------------------------------------------------------------

/// A request without messages has the prompt that its tools and its system text make. Tools are
/// spoken of where the request offers them and something describes them: by that description, a
/// blank line, and the rule how to call them.
pub proof fn law_prompt_begins(req: AnthropicMessageRequest, tool_prompt: Seq<char>)
    requires
        req.messages@.len() == 0,
    ensures
        (req.tools is None || tool_prompt.len() == 0) ==> prompt_text(req, tool_prompt)
            == system_part(
            match req.system {
                Some(s) => Some(s@),
                None => None,
            },
        ),
        (req.tools is Some && tool_prompt.len() > 0) ==> prompt_text(req, tool_prompt) == tool_prompt
            + "\n\n"@
            + "IMPORTANT: If you need to use any of the tools above, you MUST output a <tool_call> XML tag containing the tool name and arguments in JSON format. For example:\n<tool_call>{\"name\": \"tool_name\", \"arguments\": {\"arg1\": \"val1\"}}</tool_call>\nAfter outputting the tag, you should stop generating and wait for the result.\n\n"@
            + system_part(
            match req.system {
                Some(s) => Some(s@),
                None => None,
            },
        ),
{
    let system = system_part(system_tree(req.system));
    assert(Seq::<char>::empty() + system + Seq::<char>::empty() =~= system);
    assert(prompt_text(req, tool_prompt) =~= tool_part(req.tools is Some, tool_prompt) + system);
}

/// The system text stands in the prompt as it is, with a blank line behind it; one of blocks with
/// each of their texts on a line of its own and an empty line behind them; anything else does not.
pub proof fn law_system_text(
    s: Seq<char>,
    blocks: Seq<JsonTree>,
    block: JsonTree,
    other: JsonTree,
)
    ensures
        system_part(None) == Seq::<char>::empty(),
        !(other is Str || other is Array) ==> system_part(Some(other)) == Seq::<char>::empty(),
        system_part(Some(JsonTree::Str(s))) == s + "\n\n"@,
        system_part(Some(JsonTree::Array(Seq::empty()))) == "\n"@,
        exists|above: Seq<char>| #[trigger]
            (above + "\n"@) == system_part(Some(JsonTree::Array(blocks))) && system_part(
                Some(JsonTree::Array(blocks.push(block))),
            ) == (if block matches JsonTree::Object(m) && m.contains_key("text"@) && m["text"@] is Str {
                above + block->Object_0["text"@]->Str_0 + "\n"@ + "\n"@
            } else {
                above + "\n"@
            }),
{
    let write = |b: JsonTree| system_block(b);
    let above = joined(blocks, write);
    let more = blocks.push(block);
    assert(more.drop_last() =~= blocks);
    assert(joined(more, write) == above + system_block(block));
    assert(joined(Seq::empty(), write) + "\n"@ =~= "\n"@);
    assert(above + Seq::<char>::empty() =~= above);
    if block matches JsonTree::Object(m) && m.contains_key("text"@) && m["text"@] is Str {
        let t = block->Object_0["text"@]->Str_0;
        assert(system_block(block) == t + "\n"@);
        assert(above + (t + "\n"@) + "\n"@ =~= above + t + "\n"@ + "\n"@);
    } else {
        assert(system_block(block) == Seq::<char>::empty());
    }
    assert(above + "\n"@ == system_part(Some(JsonTree::Array(blocks))));
}

/// Every message adds a line of its own at the end of the prompt: its own role, a colon, and its
/// content, whatever the content is.
pub proof fn law_message_is_added(
    req: AnthropicMessageRequest,
    longer: AnthropicMessageRequest,
    message: AnthropicMessage,
    tool_prompt: Seq<char>,
)
    requires
        longer.tools == req.tools,
        longer.system == req.system,
        longer.messages@ == req.messages@.push(message),
    ensures
        prompt_text(longer, tool_prompt) == prompt_text(req, tool_prompt) + message.role@ + ": "@
            + content_text(message.content@) + "\n"@,
{
    law_prompt_extends(req, longer, message, tool_prompt);
    assert(prompt_text(req, tool_prompt) + (message.role@ + ": "@ + content_text(message.content@)
        + "\n"@) =~= prompt_text(req, tool_prompt) + message.role@ + ": "@ + content_text(
        message.content@,
    ) + "\n"@);
}

/// The content of a message that is a text is that text; one of blocks is what the blocks add, in
/// their order; anything else is nothing.
pub proof fn law_content(s: Seq<char>, other: JsonTree)
    ensures
        content_text(JsonTree::Str(s)) == s,
        content_text(JsonTree::Array(Seq::empty())) == Seq::<char>::empty(),
        !(other is Str || other is Array) ==> content_text(other) == Seq::<char>::empty(),
{
}

proof fn lemma_content_push(blocks: Seq<JsonTree>, block: JsonTree)
    ensures
        content_text(JsonTree::Array(blocks.push(block))) == content_text(JsonTree::Array(blocks))
            + message_block(block),
{
    assert(blocks.push(block).drop_last() =~= blocks);
}

/// A block of text adds its text.
pub proof fn law_text_block_is_added(
    blocks: Seq<JsonTree>,
    m: Map<Seq<char>, JsonTree>,
    text: Seq<char>,
)
    requires
        m.contains_key("type"@),
        m["type"@] == JsonTree::Str("text"@),
    ensures
        (m.contains_key("text"@) && m["text"@] == JsonTree::Str(text)) ==> content_text(
            JsonTree::Array(blocks.push(JsonTree::Object(m))),
        ) == content_text(JsonTree::Array(blocks)) + text,
        !(m.contains_key("text"@) && m["text"@] is Str) ==> content_text(
            JsonTree::Array(blocks.push(JsonTree::Object(m))),
        ) == content_text(JsonTree::Array(blocks)),
{
    let before = content_text(JsonTree::Array(blocks));
    lemma_content_push(blocks, JsonTree::Object(m));
    assert(before + Seq::<char>::empty() =~= before);
}

/// A block that calls a tool adds a line that names the tool and gives its arguments as JSON; one
/// that names no tool adds nothing.
pub proof fn law_tool_use_is_added(
    blocks: Seq<JsonTree>,
    m: Map<Seq<char>, JsonTree>,
    name: Seq<char>,
    args: Seq<char>,
)
    requires
        m.contains_key("type"@),
        m["type"@] == JsonTree::Str("tool_use"@),
        m.contains_key("input"@) ==> args == json_text(m["input"@]),
        !m.contains_key("input"@) ==> args.len() == 0,
    ensures
        (m.contains_key("name"@) && m["name"@] == JsonTree::Str(name)) ==> content_text(
            JsonTree::Array(blocks.push(JsonTree::Object(m))),
        ) == content_text(JsonTree::Array(blocks)) + "\n[Assistant Decided to Call Tool '"@ + name
            + "' with args '"@ + args + "']\n"@,
        !(m.contains_key("name"@) && m["name"@] is Str) ==> content_text(
            JsonTree::Array(blocks.push(JsonTree::Object(m))),
        ) == content_text(JsonTree::Array(blocks)),
{
    let before = content_text(JsonTree::Array(blocks));
    lemma_content_push(blocks, JsonTree::Object(m));
    lemma_kinds();
    assert(before + Seq::<char>::empty() =~= before);
    if m.contains_key("name"@) && m["name"@] == JsonTree::Str(name) {
        assert(args =~= if m.contains_key("input"@) {
            json_text(m["input"@])
        } else {
            Seq::empty()
        });
        assert(before + tool_use_text(name, args) =~= before
            + "\n[Assistant Decided to Call Tool '"@ + name + "' with args '"@ + args + "']\n"@);
    }
}

/// A block with the result of a tool adds a heading and the result, each on lines of their own. A
/// result that is a text is given as it is, and one that is neither text nor blocks as JSON.
pub proof fn law_tool_result_is_added(blocks: Seq<JsonTree>, m: Map<Seq<char>, JsonTree>)
    requires
        m.contains_key("type"@),
        m["type"@] == JsonTree::Str("tool_result"@),
    ensures
        content_text(JsonTree::Array(blocks.push(JsonTree::Object(m)))) == content_text(
            JsonTree::Array(blocks),
        ) + "\n[Tool Execution Result]\n"@ + (if !m.contains_key("content"@) {
            Seq::empty()
        } else if m["content"@] is Str {
            m["content"@]->Str_0
        } else if m["content"@] is Array {
            result_text(Some(m["content"@]))
        } else {
            json_text(m["content"@])
        }) + "\n"@,
{
    let before = content_text(JsonTree::Array(blocks));
    lemma_content_push(blocks, JsonTree::Object(m));
    lemma_kinds();
    let result = result_text(JsonTree::Object(m).member("content"@));
    assert(before + ("\n[Tool Execution Result]\n"@ + result + "\n"@) =~= before
        + "\n[Tool Execution Result]\n"@ + result + "\n"@);
}

/// Of a result of blocks the texts of its text blocks are given, one after the other.
pub proof fn law_result_of_blocks(blocks: Seq<JsonTree>, block: JsonTree)
    ensures
        result_text(Some(JsonTree::Array(Seq::empty()))) == Seq::<char>::empty(),
        result_text(Some(JsonTree::Array(blocks.push(block)))) == result_text(
            Some(JsonTree::Array(blocks)),
        ) + (if block matches JsonTree::Object(m) && m.contains_key("type"@) && m["type"@]
            == JsonTree::Str("text"@) && m.contains_key("text"@) && m["text"@] is Str {
            block->Object_0["text"@]->Str_0
        } else {
            Seq::empty()
        }),
{
    assert(blocks.push(block).drop_last() =~= blocks);
    let write = |b: JsonTree| result_block(b);
    assert(joined(blocks.push(block), write) == joined(blocks, write) + result_block(block));
}

/// Any other block adds nothing.
pub proof fn law_other_block_is_left_out(blocks: Seq<JsonTree>, block: JsonTree)
    requires
        !(block matches JsonTree::Object(m) && m.contains_key("type"@) && (m["type"@]
            == JsonTree::Str("text"@) || m["type"@] == JsonTree::Str("tool_use"@) || m["type"@]
            == JsonTree::Str("tool_result"@))),
    ensures
        content_text(JsonTree::Array(blocks.push(block))) == content_text(JsonTree::Array(blocks)),
{
    let before = content_text(JsonTree::Array(blocks));
    lemma_content_push(blocks, block);
    assert(message_block(block) == Seq::<char>::empty());
    assert(before + Seq::<char>::empty() =~= before);
}

proof fn lemma_kinds()
    ensures
        "text"@ != "tool_use"@,
        "text"@ != "tool_result"@,
        "tool_use"@ != "tool_result"@,
{
    reveal_strlit("text");
    reveal_strlit("tool_use");
    reveal_strlit("tool_result");
    assert("text"@.len() == 4);
    assert("tool_use"@.len() == 8);
    assert("tool_result"@.len() == 11);
}

} // verus!
