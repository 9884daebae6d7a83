use transcoder_core::anthropic::{AnthropicMapper, AnthropicMessage, AnthropicMessageRequest};
use transcoder_core::engine::{end_reply, Frame, GrpcStatus, Next, Refusal, Transcript};
use transcoder_core::exchange::Connection;
use transcoder_core::json::string;
use transcoder_core::opening::{
    build, client_metadata, csrf_to_send, BackendError, Opening, OpeningAction, OpeningEvent,
    OpeningStage, RuntimeConfig,
};

fn request() -> AnthropicMessageRequest {
    AnthropicMessageRequest {
        model: "m".to_string(),
        messages: vec![AnthropicMessage { role: "user".to_string(), content: string("hi") }],
        system: Some(string("cwd: /from/prompt")),
        tools: None,
        stream: true,
    }
}

fn config() -> RuntimeConfig {
    RuntimeConfig {
        ide_name: "ide".to_string(),
        version: "1.2".to_string(),
        extension_name: "ext".to_string(),
    }
}

fn begin(csrf: Option<&str>, workspace: Option<&str>) -> Opening {
    let connection = Connection {
        grpc_addr: "addr".to_string(),
        csrf_token: csrf.map(|s| s.to_string()),
        access_token: "at".to_string(),
        resolved_model_id: 42,
        account_email: None,
        workspace_dir: workspace.map(|s| s.to_string()),
    };
    Opening::new::<AnthropicMapper>(&request(), connection, config())
}

/// An opening that awaits an event of this stage.
fn at(stage: OpeningStage) -> Opening {
    let mut o = begin(None, None);
    if stage != OpeningStage::Prompting {
        o.step(build::<AnthropicMapper>(&request(), ""));
    }
    if stage == OpeningStage::Requesting || stage == OpeningStage::Receiving {
        o.step(OpeningEvent::Connected(Ok(())));
    }
    if stage == OpeningStage::Receiving {
        o.step(OpeningEvent::Requested(Ok(())));
    }
    assert_eq!(o.stage, stage);
    o
}

fn failed(message: &str, last_error: Option<&str>) -> Result<(), BackendError> {
    Err(BackendError { message: message.to_string(), last_error: last_error.map(|s| s.to_string()) })
}

fn refusal(action: OpeningAction) -> (String, bool) {
    match action {
        OpeningAction::Refuse(Refusal { message, denied }) => (message, denied),
        other => panic!("{:?}", other),
    }
}

#[test]
fn a_missing_token_is_sent_as_an_empty_one() {
    assert_eq!(csrf_to_send(None), "");
    assert_eq!(csrf_to_send(Some("t".to_string())), "t");
}

#[test]
fn the_client_is_described_by_its_configuration() {
    let m = client_metadata(config());
    assert_eq!((m.ide_name.as_str(), m.ide_version.as_str()), ("ide", "1.2"));
    assert_eq!((m.extension_name.as_str(), m.extension_version.as_str()), ("ext", "1.2"));
}

#[test]
fn a_stream_is_opened_step_by_step() {
    for (csrf, sent, given, workspace) in
        [(None, "", None, "/from/prompt"), (Some("c"), "c", Some("/given"), "/given"), (None, "", Some(""), "")]
    {
        let mut o = begin(csrf, given);
        assert_eq!(o.model_name, "m");
        match o.step(build::<AnthropicMapper>(&request(), "")) {
            OpeningAction::Connect { grpc_addr, metadata, csrf_token, workspace: w } => {
                assert_eq!((grpc_addr.as_str(), csrf_token.as_str()), ("addr", sent));
                assert_eq!(w.as_deref(), Some(workspace));
                assert_eq!(metadata.extension_version, "1.2");
            }
            other => panic!("{:?}", other),
        }
        match o.step(OpeningEvent::Connected(Ok(()))) {
            OpeningAction::Request { prompt, model_id } => {
                assert_eq!((prompt.as_str(), model_id), ("cwd: /from/prompt\n\nuser: hi\n", 42));
            }
            other => panic!("{:?}", other),
        }
        assert!(matches!(o.step(OpeningEvent::Requested(Ok(()))), OpeningAction::Receive));
        let first = Frame::Delta("x".to_string());
        let action = o.step(OpeningEvent::Received { first, last_error: None });
        assert!(matches!(action, OpeningAction::Relay(Frame::Delta(d)) if d == "x"));
        assert_eq!(o.stage, OpeningStage::Closed);
    }
}

#[test]
fn a_prompt_that_cannot_be_built_is_refused_at_once() {
    let mut o = at(OpeningStage::Prompting);
    assert_eq!(refusal(o.step(OpeningEvent::Prompted(Err("bad".to_string())))), ("bad".to_string(), false));
    assert_eq!(o.stage, OpeningStage::Closed);
    assert!(matches!(o.step(OpeningEvent::Connected(Ok(()))), OpeningAction::Wait));
}

#[test]
fn errors_of_the_backend_are_surfaced() {
    let mut o = at(OpeningStage::Connecting);
    assert_eq!(refusal(o.step(OpeningEvent::Connected(failed("down", Some("noise"))))), ("down".to_string(), false));
    let mut o = at(OpeningStage::Connecting);
    let raw = "PERMISSION_DENIED: x";
    assert_eq!(refusal(o.step(OpeningEvent::Connected(failed("down", Some(raw))))), (raw.to_string(), true));
    let mut o = at(OpeningStage::Requesting);
    assert_eq!(refusal(o.step(OpeningEvent::Requested(failed("down", Some(raw))))), (raw.to_string(), true));
    let mut o = at(OpeningStage::Requesting);
    assert_eq!(refusal(o.step(OpeningEvent::Requested(failed("down", None)))), ("down".to_string(), false));
}

#[test]
fn the_first_frame_decides() {
    let receive = |first: Frame, last_error: Option<&str>| {
        at(OpeningStage::Receiving).step(OpeningEvent::Received { first, last_error: last_error.map(|s| s.to_string()) })
    };
    let status = |code: i32| Frame::Failed(GrpcStatus { code, message: "blocked".to_string() });
    assert_eq!(refusal(receive(status(7), None)), ("blocked".to_string(), true));
    assert_eq!(refusal(receive(Frame::Ended, Some("Verify your account"))), ("Verify your account".to_string(), true));
    assert!(matches!(receive(status(14), None), OpeningAction::Relay(Frame::Failed(_))));
    assert!(matches!(receive(Frame::Ended, None), OpeningAction::Relay(Frame::Ended)));
}

#[test]
fn a_step_out_of_turn_changes_nothing() {
    let mut o = at(OpeningStage::Connecting);
    assert!(matches!(o.step(OpeningEvent::Requested(Ok(()))), OpeningAction::Wait));
    assert!(matches!(o.step(OpeningEvent::Prompted(Ok("p".to_string()))), OpeningAction::Wait));
    assert_eq!(o.stage, OpeningStage::Connecting);
    assert_eq!(o.prompt, "cwd: /from/prompt\n\nuser: hi\n");
}

#[test]
fn a_reply_begins_with_its_opening_frames() {
    let mut t = Transcript::new("m".to_string());
    let step = t.begin::<AnthropicMapper>(Frame::Delta("x".to_string()), None).unwrap();
    let events: Vec<&str> = step.chunks.iter().map(|c| c.event.as_deref().unwrap()).collect();
    assert_eq!(events, vec!["message_start", "content_block_start", "content_block_delta"]);
    assert!(matches!(step.next, Next::Continue));
    assert_eq!(t.content, "x");
}

#[test]
fn usage_is_recorded_for_a_complete_reply_alone() {
    let mut t = Transcript::new("m".to_string());
    t.begin::<AnthropicMapper>(Frame::Delta("123456789012".to_string()), None).unwrap();
    let ending = end_reply("12345678", &t, Some("e@x".to_string()), Ok(()));
    assert_eq!((ending.metadata.input_tokens, ending.metadata.output_tokens), (2, 3));
    assert!(ending.metadata.error.is_none());
    let usage = ending.usage.unwrap();
    assert_eq!((usage.account.as_str(), usage.model.as_str()), ("e@x", "m"));
    assert_eq!((usage.input_tokens, usage.output_tokens), (2, 3));
    let anonymous = end_reply("", &t, None, Ok(()));
    assert_eq!(anonymous.usage.unwrap().account, "anonymous");
    let cut = end_reply("12345678", &t, None, Err("cut".to_string()));
    assert!(cut.usage.is_none());
    assert_eq!((cut.metadata.error.as_deref(), cut.metadata.output_tokens), (Some("cut"), 3));
}
