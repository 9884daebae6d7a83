use transcoder_core::anthropic::{AnthropicMapper, AnthropicMessage, AnthropicMessageRequest, AnthropicTool};
use transcoder_core::json::{parse, string, Json};
use transcoder_core::mapper::{MapperChunk, ProtocolMapper};
use transcoder_core::workspace::directory_in_line;

struct State {
    buffer: String,
    in_call: bool,
    index: u32,
}

fn fresh() -> State {
    State { buffer: String::new(), in_call: false, index: 0 }
}

fn feed(s: &mut State, delta: &str) -> Vec<(String, String)> {
    shown(AnthropicMapper::map_delta("m", delta.to_string(), false, &mut s.buffer, &mut s.in_call, &mut s.index).unwrap())
}

fn finish(s: &mut State) -> Vec<(String, String)> {
    shown(AnthropicMapper::map_delta("m", String::new(), true, &mut s.buffer, &mut s.in_call, &mut s.index).unwrap())
}

fn shown(chunks: Vec<MapperChunk>) -> Vec<(String, String)> {
    chunks.into_iter().map(|c| (c.event.unwrap(), c.data)).collect()
}

fn pair(event: &str, data: &str) -> (String, String) {
    (event.to_string(), data.to_string())
}

fn request(system: Option<Json>, messages: Vec<(&str, Json)>, tools: Option<Vec<AnthropicTool>>) -> AnthropicMessageRequest {
    AnthropicMessageRequest {
        model: "model-a".to_string(),
        messages: messages.into_iter().map(|(role, content)| AnthropicMessage { role: role.to_string(), content }).collect(),
        system,
        tools,
        stream: true,
    }
}

fn tool(name: &str, schema: Option<Json>) -> AnthropicTool {
    AnthropicTool { name: name.to_string(), description: Some("what it does".to_string()), input_schema: schema }
}

#[test]
fn protocol_and_model() {
    assert_eq!(AnthropicMapper::get_protocol(), "anthropic");
    assert_eq!(AnthropicMapper::get_model(&request(None, vec![], None)), "model-a");
}

#[test]
fn the_first_frames() {
    assert_eq!(
        shown(AnthropicMapper::initial_chunks("model-a")),
        vec![
            pair("message_start", "{\"type\":\"message_start\",\"message\":{\"id\":\"msg_cascade\",\"type\":\"message\",\"role\":\"assistant\",\"model\":\"model-a\",\"content\":[],\"usage\":{\"input_tokens\":0,\"output_tokens\":0,\"cache_creation_input_tokens\":0,\"cache_read_input_tokens\":0}}}"),
            pair("content_block_start", "{\"type\":\"content_block_start\",\"index\":0,\"content_block\":{\"type\":\"text\",\"text\":\"\"}}"),
        ]
    );
}

#[test]
fn plain_text_is_one_frame() {
    let mut s = fresh();
    assert_eq!(
        feed(&mut s, "he said \"hi\"\n"),
        vec![pair("content_block_delta", "{\"delta\":{\"text\":\"he said \\\"hi\\\"\\n\",\"type\":\"text_delta\"},\"index\":0,\"type\":\"content_block_delta\"}")]
    );
    assert!(!s.in_call && s.buffer.is_empty() && s.index == 0);
    assert!(feed(&mut s, "").is_empty());
}

#[test]
fn a_tool_call_is_a_block_of_its_own() {
    let mut s = fresh();
    assert_eq!(
        feed(&mut s, "before<tool_call> {\"name\": \"ls\", \"arguments\": {\"z\": 1, \"a\": \"/\"}}\n</tool_call>after"),
        vec![
            pair("content_block_delta", "{\"delta\":{\"text\":\"before\",\"type\":\"text_delta\"},\"index\":0,\"type\":\"content_block_delta\"}"),
            pair("content_block_stop", "{\"type\":\"content_block_stop\",\"index\":0}"),
            pair("content_block_start", "{\"content_block\":{\"id\":\"toolu_cascade_0\",\"input\":{},\"name\":\"ls\",\"type\":\"tool_use\"},\"index\":1,\"type\":\"content_block_start\"}"),
            pair("content_block_delta", "{\"delta\":{\"partial_json\":\"{\\\"a\\\":\\\"/\\\",\\\"z\\\":1}\",\"type\":\"input_json_delta\"},\"index\":1,\"type\":\"content_block_delta\"}"),
            pair("content_block_stop", "{\"index\":1,\"type\":\"content_block_stop\"}"),
            pair("content_block_start", "{\"type\":\"content_block_start\",\"index\":2,\"content_block\":{\"type\":\"text\",\"text\":\"\"}}"),
            pair("content_block_delta", "{\"delta\":{\"text\":\"after\",\"type\":\"text_delta\"},\"index\":2,\"type\":\"content_block_delta\"}"),
        ]
    );
    assert_eq!(s.index, 1);
    assert_eq!(
        finish(&mut s),
        vec![
            pair("content_block_stop", "{\"type\":\"content_block_stop\",\"index\":2}"),
            pair("message_delta", "{\"type\":\"message_delta\",\"delta\":{\"stop_reason\":\"tool_use\",\"stop_sequence\":null},\"usage\":{\"output_tokens\":0,\"cache_creation_input_tokens\":0,\"cache_read_input_tokens\":0}}"),
            pair("message_stop", "{\"type\":\"message_stop\"}"),
        ]
    );
}

#[test]
fn a_reply_without_tools_ends_its_turn() {
    let mut s = fresh();
    feed(&mut s, "x");
    assert_eq!(
        finish(&mut s)[1].1,
        "{\"type\":\"message_delta\",\"delta\":{\"stop_reason\":\"end_turn\",\"stop_sequence\":null},\"usage\":{\"output_tokens\":0,\"cache_creation_input_tokens\":0,\"cache_read_input_tokens\":0}}"
    );
}

#[test]
fn a_call_may_come_in_pieces() {
    let mut s = fresh();
    assert_eq!(feed(&mut s, "<tool_call>{\"na").len(), 1);
    assert!(s.in_call);
    assert!(feed(&mut s, "me\":\"ls").is_empty());
    assert_eq!(s.buffer, "{\"name\":\"ls");
    let frames = feed(&mut s, "\"}</tool_call>");
    assert_eq!(frames.len(), 4);
    assert_eq!(frames[1].1, "{\"delta\":{\"partial_json\":\"{}\",\"type\":\"input_json_delta\"},\"index\":1,\"type\":\"content_block_delta\"}");
    assert!(!s.in_call && s.buffer.is_empty() && s.index == 1);
}

#[test]
fn a_cut_tag_is_plain_text() {
    let mut s = fresh();
    assert_eq!(feed(&mut s, "<tool_").len(), 1);
    assert_eq!(feed(&mut s, "call>x").len(), 1);
    assert!(!s.in_call);
}

#[test]
fn a_call_that_is_not_json_is_text() {
    let mut s = fresh();
    let frames = feed(&mut s, "<tool_call>\n not json \n</tool_call>");
    assert_eq!(frames.len(), 3);
    assert_eq!(frames[1], pair("content_block_delta", "{\"delta\":{\"text\":\"<tool_call>not json</tool_call>\",\"type\":\"text_delta\"},\"index\":1,\"type\":\"content_block_delta\"}"));
    assert_eq!(frames[2].1, "{\"type\":\"content_block_start\",\"index\":2,\"content_block\":{\"type\":\"text\",\"text\":\"\"}}");
    assert_eq!(s.index, 0);
}

#[test]
fn an_empty_call_is_left_out() {
    let mut s = fresh();
    let frames = feed(&mut s, "<tool_call>  </tool_call>");
    assert_eq!(frames.len(), 2);
    assert_eq!(s.index, 0);
}

#[test]
fn a_call_without_a_name() {
    let mut s = fresh();
    let frames = feed(&mut s, "<tool_call>[1]</tool_call>");
    assert!(frames[1].1.contains("\"name\":\"unknown_tool\""));
    assert!(frames[2].1.contains("\"partial_json\":\"{}\""));
    let frames = feed(&mut s, "<tool_call>{\"name\":3,\"arguments\":null}</tool_call>");
    assert_eq!(frames[1].1, "{\"content_block\":{\"id\":\"toolu_cascade_1\",\"input\":{},\"name\":\"unknown_tool\",\"type\":\"tool_use\"},\"index\":3,\"type\":\"content_block_start\"}");
    assert!(frames[2].1.contains("\"partial_json\":\"null\""));
    assert_eq!(s.index, 2);
}

#[test]
fn block_indices_stay_in_range() {
    let mut s = State { buffer: String::new(), in_call: false, index: 0x8000_0000 };
    let r = AnthropicMapper::try_map_delta("m", "x".to_string(), false, &mut s.buffer, &mut s.in_call, &mut s.index);
    assert!(r.is_none());
    let r = AnthropicMapper::try_map_delta("m", String::new(), true, &mut s.buffer, &mut s.in_call, &mut s.index);
    assert!(r.is_none());
    assert_eq!(s.index, 0x8000_0000);
    s.index = 0x7fff_ffff;
    let r = AnthropicMapper::try_map_delta("m", "x".to_string(), false, &mut s.buffer, &mut s.in_call, &mut s.index);
    assert!(r.unwrap().unwrap()[0].data.contains("\"index\":4294967294"));
    let r = AnthropicMapper::try_map_delta("m", "<tool_call>{}</tool_call>".to_string(), false, &mut s.buffer, &mut s.in_call, &mut s.index);
    assert!(r.is_none());
    assert!(!s.in_call && s.buffer.is_empty());
}

#[test]
fn tools_are_unified() {
    let req = request(None, vec![], Some(vec![tool("ls", None), tool("cat", Some(parse("{\"type\":\"object\"}").unwrap()))]));
    let tools = AnthropicMapper::tool_definitions(&req).unwrap();
    assert_eq!(tools.len(), 2);
    assert_eq!(tools[0].name, "ls");
    assert_eq!(tools[0].description.as_deref(), Some("what it does"));
    assert_eq!(tools[0].parameters.render(), "{}");
    assert_eq!(tools[1].parameters.render(), "{\"type\":\"object\"}");
    assert!(AnthropicMapper::tool_definitions(&request(None, vec![], None)).is_none());
}

#[test]
fn a_prompt_of_texts() {
    let req = request(Some(string("be brief")), vec![("user", string("hi")), ("assistant", string("yes?"))], None);
    assert_eq!(AnthropicMapper::build_prompt(&req, "ignored").unwrap(), "be brief\n\nuser: hi\nassistant: yes?\n");
    let req = request(None, vec![("user", parse("7").unwrap())], None);
    assert_eq!(AnthropicMapper::build_prompt(&req, "").unwrap(), "user: \n");
    let req = request(Some(parse("{}").unwrap()), vec![], None);
    assert_eq!(AnthropicMapper::build_prompt(&req, "").unwrap(), "");
}

#[test]
fn a_prompt_with_tools() {
    let req = request(None, vec![("user", string("hi"))], Some(vec![tool("ls", None)]));
    assert_eq!(
        AnthropicMapper::build_prompt(&req, "TOOLS").unwrap(),
        "TOOLS\n\nIMPORTANT: If you need to use any of the tools above, you MUST output a <tool_call> XML tag containing the tool name and arguments in JSON format. For example:\n<tool_call>{\"name\": \"tool_name\", \"arguments\": {\"arg1\": \"val1\"}}</tool_call>\nAfter outputting the tag, you should stop generating and wait for the result.\n\nuser: hi\n"
    );
    assert_eq!(AnthropicMapper::build_prompt(&req, "").unwrap(), "user: hi\n");
}

#[test]
fn a_prompt_of_blocks() {
    let system = parse("[{\"type\":\"text\",\"text\":\"one\"},{\"no\":1},{\"text\":\"two\"}]").unwrap();
    let content = parse(
        "[{\"type\":\"text\",\"text\":\"see\"},{\"text\":\"untyped\"},{\"type\":\"image\",\"text\":\"no\"},\
         {\"type\":\"tool_use\",\"name\":\"ls\",\"input\":{\"b\":1,\"a\":2}},{\"type\":\"tool_use\",\"name\":\"pwd\"},{\"type\":\"tool_use\"}]",
    )
    .unwrap();
    let req = request(Some(system), vec![("user", content)], None);
    assert_eq!(
        AnthropicMapper::build_prompt(&req, "").unwrap(),
        "one\ntwo\n\nuser: see\n[Assistant Decided to Call Tool 'ls' with args '{\"a\":2,\"b\":1}']\n\n[Assistant Decided to Call Tool 'pwd' with args '']\n\n"
    );
}

#[test]
fn a_prompt_of_tool_results() {
    let prompt = |block: &str| {
        let req = request(None, vec![("user", parse(&format!("[{}]", block)).unwrap())], None);
        AnthropicMapper::build_prompt(&req, "").unwrap()
    };
    let wrapped = |result: &str| format!("user: \n[Tool Execution Result]\n{}\n\n", result);
    assert_eq!(prompt("{\"type\":\"tool_result\",\"content\":\"done\"}"), wrapped("done"));
    assert_eq!(
        prompt("{\"type\":\"tool_result\",\"content\":[{\"type\":\"text\",\"text\":\"a\"},{\"text\":\"b\"},{\"type\":\"text\",\"text\":\"c\"}]}"),
        wrapped("ac")
    );
    assert_eq!(prompt("{\"type\":\"tool_result\",\"content\":{\"k\":[true]}}"), wrapped("{\"k\":[true]}"));
    assert_eq!(prompt("{\"type\":\"tool_result\"}"), wrapped(""));
}

#[test]
fn a_longer_conversation_extends_the_prompt() {
    let short = request(Some(string("s")), vec![("user", string("a"))], None);
    let long = request(Some(string("s")), vec![("user", string("a")), ("assistant", string("b"))], None);
    let p = AnthropicMapper::build_prompt(&short, "").unwrap();
    assert_eq!(AnthropicMapper::build_prompt(&long, "").unwrap(), p + "assistant: b\n");
}

#[test]
fn the_working_directory() {
    let dir = |system: Json| AnthropicMapper::extract_workspace(&request(Some(system), vec![], None));
    assert_eq!(dir(string("Hello.\nWorking Directory: /home/me/x.\n/other")), Some("/home/me/x".to_string()));
    assert_eq!(dir(string("CWD is '/a b'")), Some("/a".to_string()));
    assert_eq!(dir(string("the current directory\r\ncwd=/p/q',\"")), Some("/p/q".to_string()));
    assert_eq!(dir(string("path /a\nno keyword")), None);
    assert_eq!(dir(string("cwd: none")), None);
    assert_eq!(dir(string("")), None);
    assert_eq!(dir(parse("[{\"text\":\"x\"},{\"n\":1},{\"text\":\"cwd /first\"},{\"text\":\"cwd /second\"}]").unwrap()), Some("/first".to_string()));
    assert_eq!(dir(parse("5").unwrap()), None);
    assert_eq!(AnthropicMapper::extract_workspace(&request(None, vec![], None)), None);
    assert_eq!(directory_in_line("In Ordner /tmp,", "cwd"), Some("/tmp".to_string()));
}
