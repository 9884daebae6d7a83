use transcoder_core::anthropic::{AnthropicMapper, AnthropicMessageRequest};
use transcoder_core::engine::{
    failed_metadata, first_refusal, is_permission_error, resolve_workspace, status_message, stream_metadata,
    surfaced_error, tokens, usage_account, Frame, GrpcStatus, Next, Refusal, Step, Transcript,
    SILENT_BACKEND,
};
use transcoder_core::json::{parse, string};
use transcoder_core::mapper::StreamMetadata;

fn failed(code: i32, message: &str) -> Frame {
    Frame::Failed(GrpcStatus { code, message: message.to_string() })
}

/// The texts that the frames of a step add.
fn texts(step: &Step) -> Vec<String> {
    step.chunks
        .iter()
        .filter(|c| c.event.as_deref() == Some("content_block_delta"))
        .map(|c| parse(&c.data).unwrap().get("delta").unwrap().get_str("text").unwrap().to_string())
        .collect()
}

fn request(system: Option<&str>) -> AnthropicMessageRequest {
    AnthropicMessageRequest {
        model: "m".to_string(),
        messages: vec![],
        system: system.map(string),
        tools: None,
        stream: true,
    }
}

#[test]
fn permission_errors_are_known_by_their_words() {
    assert!(is_permission_error("rpc: PERMISSION_DENIED (7)"));
    assert!(is_permission_error("Verify your account to go on"));
    assert!(!is_permission_error("permission denied"));
    assert!(!is_permission_error("verify your account"));
    assert!(!is_permission_error(""));
}

fn shown(refusal: Refusal) -> (String, bool) {
    (refusal.message, refusal.denied)
}

#[test]
fn the_telling_error_is_surfaced() {
    let surfaced = |e: &str, last: Option<&str>| shown(surfaced_error(e.to_string(), last.map(|s| s.to_string())));
    assert_eq!(surfaced("transport", None), ("transport".to_string(), false));
    assert_eq!(surfaced("transport", Some("noise")), ("transport".to_string(), false));
    assert_eq!(surfaced("transport", Some("x PERMISSION_DENIED")), ("x PERMISSION_DENIED".to_string(), true));
    assert_eq!(surfaced("Verify your account", Some("noise")), ("Verify your account".to_string(), true));
    assert_eq!(shown(Refusal::new("other".to_string())), ("other".to_string(), false));
    assert_eq!(shown(Refusal::new("PERMISSION_DENIED".to_string())), ("PERMISSION_DENIED".to_string(), true));
}

#[test]
fn the_first_frame_may_refuse() {
    let denied = Some("Verify your account".to_string());
    let refused = |frame: Frame, last: Option<String>| first_refusal(&frame, last).map(shown);
    assert_eq!(refused(failed(7, "account blocked"), None), Some(("account blocked".to_string(), true)));
    assert_eq!(refused(failed(7, ""), denied.clone()), Some((String::new(), true)));
    assert_eq!(refused(failed(14, "PERMISSION_DENIED"), denied.clone()), None);
    assert_eq!(refused(Frame::Ended, denied.clone()), Some(("Verify your account".to_string(), true)));
    assert_eq!(refused(Frame::Ended, Some("noise".to_string())), None);
    assert_eq!(refused(Frame::Ended, None), None);
    assert_eq!(refused(Frame::Delta("hi".to_string()), denied), None);
}

#[test]
fn a_status_is_told_with_what_its_code_means() {
    let told = |code: i32| status_message(&GrpcStatus { code, message: "m".to_string() });
    assert_eq!(told(7), "gRPC 错误 [The caller does not have permission to execute the specified operation]: m");
    for code in -1..20 {
        assert_eq!(told(code), format!("gRPC 错误 [{}]: m", tonic::Code::from_i32(code)));
    }
}

#[test]
fn the_given_directory_goes_first() {
    let req = request(Some("cwd: /from/prompt"));
    assert_eq!(resolve_workspace::<AnthropicMapper>(Some("/given".to_string()), &req), Some("/given".to_string()));
    assert_eq!(resolve_workspace::<AnthropicMapper>(None, &req), Some("/from/prompt".to_string()));
    assert_eq!(resolve_workspace::<AnthropicMapper>(None, &request(None)), None);
}

#[test]
fn usage_is_recorded_under_a_name() {
    assert_eq!(usage_account(Some("a@b".to_string())), "a@b");
    assert_eq!(usage_account(None), "anonymous");
}

#[test]
fn tokens_are_quarters_of_bytes() {
    assert_eq!(tokens(""), 1);
    assert_eq!(tokens("seven77"), 1);
    assert_eq!(tokens("eight888"), 2);
    assert_eq!(tokens("中文中文"), 3);
    assert_eq!(tokens(&"x".repeat(4003)), 1000);
    let m = stream_metadata("12345678", "123456789012");
    assert_eq!((m.input_tokens, m.output_tokens), (2, 3));
    assert!(m.error.is_none());
    let none = StreamMetadata::default();
    assert_eq!((none.input_tokens, none.output_tokens), (0, 0));
    assert!(none.error.is_none());
}

#[test]
fn a_stream_from_start_to_end() {
    let mut t = Transcript::new("m".to_string());
    assert_eq!(t.opening::<AnthropicMapper>().len(), 2);
    let step = t.take::<AnthropicMapper>(Frame::Delta("hello ".to_string()), None).unwrap();
    assert!(matches!(step.next, Next::Continue));
    assert_eq!(step.chunks.len(), 1);
    t.take::<AnthropicMapper>(Frame::Delta("world".to_string()), None).unwrap();
    assert_eq!(t.content, "hello world");
    let step = t.take::<AnthropicMapper>(Frame::Ended, Some("noise".to_string())).unwrap();
    assert!(matches!(step.next, Next::Finished));
    assert_eq!(step.chunks.len(), 3);
    assert_eq!(t.content, "hello world");
}

#[test]
fn a_failure_is_told_and_ends_the_stream() {
    let mut t = Transcript::new("m".to_string());
    let step = t.take::<AnthropicMapper>(failed(13, "broken"), None).unwrap();
    assert_eq!(step.chunks.len(), 1);
    assert!(step.chunks[0].data.contains("gRPC 错误 [Internal error]: broken"));
    assert!(matches!(step.next, Next::Failed(e) if e == "gRPC 错误 [Internal error]: broken"));
    assert_eq!(t.content, "");
}

#[test]
fn a_failure_within_a_tool_call_is_told() {
    let mut t = Transcript::new("m".to_string());
    t.take::<AnthropicMapper>(Frame::Delta("a<tool_call>{}</tool_call>b<tool_call>{\"na".to_string()), None).unwrap();
    assert!(t.in_tool_call);
    let step = t.take::<AnthropicMapper>(failed(14, "gone"), None).unwrap();
    let error = "gRPC 错误 [The service is currently unavailable]: gone";
    assert_eq!(step.chunks.len(), 2);
    assert_eq!(step.chunks[0].event.as_deref(), Some("content_block_start"));
    assert_eq!(step.chunks[0].data, "{\"type\":\"content_block_start\",\"index\":2,\"content_block\":{\"type\":\"text\",\"text\":\"\"}}");
    assert_eq!(texts(&step), vec![error.to_string()]);
    assert_eq!(parse(&step.chunks[1].data).unwrap().get("index").unwrap().render(), "2");
    assert!(matches!(step.next, Next::Failed(e) if e == error));
    assert!(!t.in_tool_call && t.tool_call_buffer.is_empty());
    assert_eq!(t.tool_call_index, 1);
}

#[test]
fn an_error_is_told_in_any_state() {
    for said in ["", "text", "text<tool_call>", "<tool_call>{}</tool_call>", "<tool_call>bad</tool_call>x<tool_call>y"] {
        let mut t = Transcript::new("m".to_string());
        t.take::<AnthropicMapper>(Frame::Delta(said.to_string()), None).unwrap();
        let step = t.tell_error::<AnthropicMapper>("raw </tool_call> error".to_string()).unwrap();
        assert_eq!(texts(&step), vec!["raw </tool_call> error".to_string()]);
        assert!(!t.in_tool_call && t.tool_call_buffer.is_empty());
        assert_eq!(t.content, said);
    }
}

#[test]
fn a_failed_stream_has_metadata() {
    let m = failed_metadata("12345678", "123456789012", "cut".to_string());
    assert_eq!((m.input_tokens, m.output_tokens, m.error.as_deref()), (2, 3, Some("cut")));
}

#[test]
fn silence_is_told() {
    let mut t = Transcript::new("m".to_string());
    let step = t.take::<AnthropicMapper>(Frame::Ended, None).unwrap();
    assert_eq!(texts(&step), vec![SILENT_BACKEND.to_string()]);
    assert_eq!(step.chunks.len(), 4);
    assert!(matches!(step.next, Next::Finished));
    let mut t = Transcript::new("m".to_string());
    let step = t.take::<AnthropicMapper>(Frame::Ended, Some("stderr".to_string())).unwrap();
    assert_eq!(texts(&step), vec!["stderr".to_string()]);
    let mut t = Transcript::new("m".to_string());
    t.take::<AnthropicMapper>(Frame::Delta("x".to_string()), None).unwrap();
    let step = t.take::<AnthropicMapper>(Frame::Ended, Some("stderr".to_string())).unwrap();
    assert!(texts(&step).is_empty());
    assert_eq!(step.chunks.len(), 3);
}

#[test]
fn what_cannot_be_numbered_changes_nothing() {
    let mut t = Transcript::new("m".to_string());
    t.tool_call_index = 0x7fff_ffff;
    assert!(t.take::<AnthropicMapper>(Frame::Delta("<tool_call>{}</tool_call>".to_string()), None).is_none());
    assert_eq!((t.tool_call_index, t.in_tool_call, t.content.as_str()), (0x7fff_ffff, false, ""));
    t.tool_call_index = 0x8000_0000;
    assert!(t.take::<AnthropicMapper>(Frame::Ended, None).is_none());
    assert!(t.take::<AnthropicMapper>(failed(1, "x"), None).is_none());
    t.in_tool_call = true;
    t.tool_call_buffer = "held".to_string();
    assert!(t.take::<AnthropicMapper>(failed(1, "x"), None).is_none());
    assert!(t.in_tool_call && t.tool_call_buffer == "held");
    assert_eq!(t.tool_call_index, 0x8000_0000);
}
