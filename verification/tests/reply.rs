use transcoder_core::anthropic::AnthropicMapper;
use transcoder_core::engine::{Frame, Transcript};
use transcoder_core::json::{parse, string};
use transcoder_core::mapper::MapperChunk;
use transcoder_core::reply::{collect, stop_reason_of, token_count_body, Reply};

fn chunk(event: &str, data: &str) -> MapperChunk {
    MapperChunk { event: Some(event.to_string()), data: data.to_string() }
}

/// The frames of a whole reply that came in these pieces.
fn stream(pieces: &[&str]) -> Vec<MapperChunk> {
    let mut t = Transcript::new("m".to_string());
    let mut out = t.opening::<AnthropicMapper>();
    for piece in pieces {
        out.extend(t.take::<AnthropicMapper>(Frame::Delta(piece.to_string()), None).unwrap().chunks);
    }
    out.extend(t.take::<AnthropicMapper>(Frame::Ended, None).unwrap().chunks);
    out
}

fn reason_in(frames: &[MapperChunk]) -> String {
    let f = frames.iter().find(|c| c.event.as_deref() == Some("message_delta")).unwrap();
    parse(&f.data).unwrap().get("delta").unwrap().get_str("stop_reason").unwrap().to_string()
}

#[test]
fn text_and_calls_are_collected() {
    let reply = collect(&vec![
        chunk("content_block_start", "{\"content_block\":{\"type\":\"text\",\"text\":\"no\"}}"),
        chunk("content_block_delta", "{\"delta\":{\"text\":\"a\"}}"),
        chunk("content_block_delta", "{\"delta\":{\"partial_json\":\"b\"}}"),
        chunk("content_block_delta", "not json"),
        chunk("content_block_start", "{\"content_block\":{\"type\":\"tool_use\",\"name\":\"ls\"}}"),
        chunk("content_block_start", "{\"block\":1}"),
        chunk("message_delta", "{\"delta\":{\"text\":\"c\"}}"),
        MapperChunk { event: None, data: "{\"delta\":{\"text\":\"d\"}}".to_string() },
        chunk("content_block_delta", "{\"delta\":{\"text\":\"e\"}}"),
    ]);
    assert_eq!(reply.text, "ae");
    assert_eq!(reply.tool_calls.len(), 1);
    assert_eq!(reply.tool_calls[0].render(), "{\"name\":\"ls\",\"type\":\"tool_use\"}");
}

#[test]
fn a_frame_that_was_read_already() {
    let mut reply = Reply::new();
    reply.absorb_read(&Some("content_block_delta".to_string()), parse("{\"delta\":{\"text\":\"x\"}}"));
    reply.absorb_read(&Some("content_block_delta".to_string()), None);
    reply.absorb_read(&None, parse("{\"delta\":{\"text\":\"y\"}}"));
    assert_eq!(reply.text, "x");
    assert!(reply.tool_calls.is_empty());
}

#[test]
fn a_message_of_text() {
    let message = collect(&stream(&["hello ", "world"])).message("msg_1", "m");
    assert_eq!(
        message.render(),
        "{\"content\":[{\"text\":\"hello world\",\"type\":\"text\"}],\"id\":\"msg_1\",\"model\":\"m\",\"role\":\"assistant\",\"stop_reason\":\"end_turn\",\"stop_sequence\":null,\"type\":\"message\",\"usage\":{\"input_tokens\":0,\"output_tokens\":0}}"
    );
}

#[test]
fn a_message_with_calls() {
    let frames = stream(&["look<tool_call>{\"name\":\"ls\",\"arguments\":{\"a\":1}}</tool_call>"]);
    let message = collect(&frames).message("msg_1", "m");
    assert_eq!(
        message.get("content").unwrap().render(),
        "[{\"text\":\"look\",\"type\":\"text\"},{\"id\":\"toolu_cascade_0\",\"input\":{},\"name\":\"ls\",\"type\":\"tool_use\"}]"
    );
    assert_eq!(message.get_str("stop_reason"), Some("tool_use"));
}

#[test]
fn an_empty_message() {
    let message = Reply::new().message("i", "m");
    assert_eq!(message.get("content").unwrap().render(), "[]");
    assert_eq!(message.get_str("stop_reason"), Some("end_turn"));
}

#[test]
fn the_stop_reason_follows_the_content() {
    assert_eq!(stop_reason_of(&vec![]), "end_turn");
    assert_eq!(stop_reason_of(&vec![parse("{\"type\":\"text\"}").unwrap(), string("tool_use")]), "end_turn");
    assert_eq!(stop_reason_of(&vec![parse("{\"type\":\"text\"}").unwrap(), parse("{\"type\":\"tool_use\"}").unwrap()]), "tool_use");
}

#[test]
fn no_tokens_are_counted() {
    assert_eq!(token_count_body().render(), "{\"input_tokens\":0}");
}

#[test]
fn the_message_stops_as_the_stream_does() {
    for pieces in [
        vec!["plain"],
        vec!["a<tool_call>{}</tool_call>"],
        vec!["a<tool_call>bad</tool_call>"],
        vec!["a<tool_call>{}</tool_call>b", "<tool_call>[]</tool_call>"],
    ] {
        let frames = stream(&pieces);
        assert_eq!(collect(&frames).message("i", "m").get_str("stop_reason").unwrap(), reason_in(&frames));
    }
}

#[test]
fn plain_text_comes_through_unchanged() {
    for text in ["x", "he said \"hi\"\n\t\u{1}", "中文 \u{1f600}", "a < b </tool_call> c"] {
        let reply = collect(&stream(&[text]));
        assert_eq!(reply.text, text);
        assert!(reply.tool_calls.is_empty());
    }
}

#[test]
fn where_the_text_is_cut_does_not_matter() {
    let whole = "one<tool_call> {\"name\":\"ls\"} </tool_call>two<tool_call>bad</tool_call>three";
    let at_once = collect(&stream(&[whole]));
    let in_pieces = collect(&stream(&[
        "on",
        "e<tool_call> {\"na",
        "me\":\"l",
        "s\"} </tool_call>tw",
        "o<tool_call>b",
        "ad</tool_call>",
        "three",
    ]));
    assert_eq!(at_once.text, in_pieces.text);
    assert_eq!(at_once.text, "onetwo<tool_call>bad</tool_call>three");
    assert_eq!(at_once.tool_calls.len(), 1);
    assert_eq!(at_once.tool_calls[0].render(), in_pieces.tool_calls[0].render());
    let cut_tag = collect(&stream(&["<tool_", "call>{}</tool_call>"]));
    assert_eq!(cut_tag.text, "<tool_call>{}</tool_call>");
    assert!(cut_tag.tool_calls.is_empty());
}

#[test]
fn calls_are_numbered_in_their_order() {
    let reply = collect(&stream(&["<tool_call>{\"name\":\"a\"}</tool_call><tool_call>{\"name\":\"b\"}</tool_call>"]));
    let ids: Vec<&str> = reply.tool_calls.iter().map(|c| c.get_str("id").unwrap()).collect();
    let names: Vec<&str> = reply.tool_calls.iter().map(|c| c.get_str("name").unwrap()).collect();
    assert_eq!(ids, vec!["toolu_cascade_0", "toolu_cascade_1"]);
    assert_eq!(names, vec!["a", "b"]);
}

#[test]
fn what_is_not_within_a_call_is_not_held_back() {
    let mut t = Transcript::new("m".to_string());
    let step = t.take::<AnthropicMapper>(Frame::Delta("a<tool_call>{}</tool_call>b<tool_call>{".to_string()), None).unwrap();
    let reply = collect(&step.chunks);
    assert_eq!(reply.text, "ab");
    assert_eq!(t.tool_call_buffer, "{");
}

#[test]
fn the_blocks_of_a_reply_are_in_order() {
    let frames = stream(&["a<tool_call>{\"name\":\"x\"}</tool_call>", "b<tool_call>[1", "]</tool_call>c"]);
    assert_eq!(frames[0].event.as_deref(), Some("message_start"));
    let n = frames.len();
    assert_eq!(frames[n - 2].event.as_deref(), Some("message_delta"));
    assert_eq!(frames[n - 1].event.as_deref(), Some("message_stop"));
    let mut last: Option<u32> = None;
    let mut open = false;
    for f in &frames[1..n - 2] {
        let number: u32 = parse(&f.data).unwrap().get("index").unwrap().render().parse().unwrap();
        match f.event.as_deref() {
            Some("content_block_start") => {
                let kind = if number % 2 == 0 { "text" } else { "tool_use" };
                assert_eq!(parse(&f.data).unwrap().get("content_block").unwrap().get_str("type"), Some(kind));
                assert!(!open);
                assert_eq!(number, last.map_or(0, |l| l + 1));
                last = Some(number);
                open = true;
            }
            Some("content_block_delta") => assert!(open && last == Some(number)),
            Some("content_block_stop") => {
                assert!(open && last == Some(number));
                open = false;
            }
            other => panic!("{:?}", other),
        }
    }
    assert!(!open);
    assert_eq!(last, Some(4));
}

#[test]
fn the_arguments_of_a_call_come_through() {
    let frames = stream(&["<tool_call>{\"name\":\"x\",\"arguments\":{\"p\":[\"\\\"/\",{\"n\":7}]}}</tool_call>"]);
    let texts: Vec<String> = frames
        .iter()
        .filter_map(|f| parse(&f.data).unwrap().get("delta").and_then(|d| d.get_str("partial_json").map(|s| s.to_string())))
        .collect();
    assert_eq!(texts.len(), 1);
    for n in ["-9223372036854775808", "18446744073709551615", "0", "-1"] {
        let frames = stream(&[&format!("<tool_call>{{\"arguments\":{}}}</tool_call>", n)]);
        let data = &frames.iter().find(|f| f.data.contains("partial_json")).unwrap().data;
        let read = parse(data).unwrap();
        assert_eq!(read.get("delta").unwrap().get_str("partial_json"), Some(n));
        assert_eq!(parse(n).unwrap().render(), n);
    }
    assert_eq!(parse(&texts[0]).unwrap().render(), "{\"p\":[\"\\\"/\",{\"n\":7}]}");
}

/// The frames, with adjacent texts of one block put together.
fn merged(frames: &[MapperChunk]) -> Vec<(String, String, Option<String>)> {
    let mut out: Vec<(String, String, Option<String>)> = Vec::new();
    for f in frames {
        let event = f.event.clone().unwrap();
        let read = parse(&f.data).unwrap();
        let index = read.get("index").map_or(String::new(), |i| i.render());
        match read.get("delta").and_then(|d| d.get_str("text")) {
            Some(text) => match out.last_mut() {
                Some((e, i, Some(t))) if *e == event && *i == index => t.push_str(text),
                _ => out.push((event, index, Some(text.to_string()))),
            },
            None => out.push((event, f.data.clone(), None)),
        }
    }
    out
}

#[test]
fn the_frames_are_the_same_however_the_text_is_cut() {
    let whole = stream(&["one<tool_call>{}</tool_call>two<tool_call>bad</tool_call>three"]);
    let cut = stream(&["o", "n", "e", "<tool_call>{", "}</tool_call>", "tw", "o<tool_call>ba", "d</tool_call>th", "ree"]);
    assert_ne!(whole.len(), cut.len());
    assert_eq!(merged(&whole), merged(&cut));
}

#[test]
fn a_message_without_text_has_its_blocks_in_order() {
    let mut t = Transcript::new("m".to_string());
    let mut frames = t.opening::<AnthropicMapper>();
    frames.extend(t.take::<AnthropicMapper>(Frame::Ended, Some("err".to_string())).unwrap().chunks);
    let events: Vec<&str> = frames.iter().map(|f| f.event.as_deref().unwrap()).collect();
    assert_eq!(
        events,
        vec!["message_start", "content_block_start", "content_block_delta", "content_block_stop", "message_delta", "message_stop"]
    );
    assert_eq!(stream(&["<tool_call>{}</tool_call>"]).len(), 2 + 1 + 3 + 1 + 3);
}
