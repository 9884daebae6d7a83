use transcoder_core::engine::{failed_metadata, first_refusal, Frame, GrpcStatus, Refusal};
use transcoder_core::exchange::{
    delivery_for, status_for, Action, Delivery, Event, Exchange, Instance, Route, Stage, TrafficLog,
};
use transcoder_core::mapper::StreamMetadata;

fn begin(delivery: Delivery, slot: Option<&str>) -> Exchange {
    Exchange::new(
        delivery,
        "anthropic".to_string(),
        "m".to_string(),
        slot.map(|s| s.to_string()),
        Some("/w".to_string()),
    )
}

fn route(account: Option<&str>) -> Route {
    Route {
        refresh_token: "1//r".to_string(),
        account_id: account.map(|s| s.to_string()),
        model_id: -42,
        email: "e@x".to_string(),
    }
}

fn instance() -> Instance {
    Instance { grpc_addr: "addr".to_string(), csrf_token: Some("csrf".to_string()) }
}

fn reply(action: Action) -> (u16, String) {
    match action {
        Action::Reply(r) => (r.status, r.message),
        other => panic!("{:?}", other),
    }
}

/// An exchange that awaits the backend's stream.
fn opening(delivery: Delivery, account: Option<&str>) -> Exchange {
    let mut x = begin(delivery, None);
    assert!(matches!(x.step(Event::Routed(Ok(route(account)))), Action::Refresh(t) if t == "1//r"));
    assert!(matches!(x.step(Event::Refreshed(Ok("at".to_string()))), Action::FindProvider));
    match x.step(Event::Provider(true)) {
        Action::Acquire { email, refresh_token, slot_id } => {
            assert_eq!((email.as_str(), refresh_token.as_str(), slot_id.as_deref()), ("e@x", "1//r", account));
        }
        other => panic!("{:?}", other),
    }
    match x.step(Event::Acquired(Ok(instance()))) {
        Action::Open(c) => {
            assert_eq!(c.grpc_addr, "addr");
            assert_eq!(c.csrf_token.as_deref(), Some("csrf"));
            assert_eq!(c.access_token, "at");
            assert_eq!(c.resolved_model_id, -42);
            assert_eq!(c.account_email.as_deref(), Some("e@x"));
            assert_eq!(c.workspace_dir.as_deref(), Some("/w"));
        }
        other => panic!("{:?}", other),
    }
    x
}

fn assert_logs(log: &TrafficLog, x: &Exchange, url: &str) {
    assert_eq!(log.id, x.trace_id);
    assert_eq!((log.method.as_str(), log.url.as_str()), ("POST", url));
    assert_eq!(log.duration, 17);
    assert_eq!(log.model.as_deref(), Some("m"));
    assert_eq!(log.mapped_model.as_deref(), Some("-42"));
    assert_eq!(log.account_email.as_deref(), Some("e@x"));
    assert_eq!(log.client_ip.as_deref(), Some("127.0.0.1"));
    assert_eq!(log.protocol, "anthropic");
    assert!(log.timestamp > 1_600_000_000_000);
}

fn refuse(x: &mut Exchange, error: &str) -> (u16, String, Option<String>, TrafficLog) {
    refuse_with(x, Refusal::new(error.to_string()))
}

fn refuse_with(x: &mut Exchange, refusal: Refusal) -> (u16, String, Option<String>, TrafficLog) {
    match x.step(Event::Opened { outcome: Err(refusal), duration: 17 }) {
        Action::Refuse { reply, forbidden, log } => (reply.status, reply.message, forbidden, log),
        other => panic!("{:?}", other),
    }
}

fn end(x: &mut Exchange, metadata: Option<StreamMetadata>) -> TrafficLog {
    assert!(matches!(x.step(Event::Opened { outcome: Ok(()), duration: 3 }), Action::Relay));
    match x.step(Event::Ended { metadata, duration: 17 }) {
        Action::Record(log) => log,
        other => panic!("{:?}", other),
    }
}

#[test]
fn a_client_chooses_the_delivery() {
    assert_eq!(delivery_for(true), Delivery::Streamed);
    assert_eq!(delivery_for(false), Delivery::Collected);
}

#[test]
fn the_slot_that_was_asked_for_goes_first() {
    let mut x = begin(Delivery::Streamed, Some("slot"));
    x.step(Event::Routed(Ok(route(Some("acc")))));
    x.step(Event::Refreshed(Ok("at".to_string())));
    assert!(matches!(x.step(Event::Provider(true)), Action::Acquire { slot_id: Some(s), .. } if s == "slot"));
}

#[test]
fn errors_before_the_stream() {
    let mut x = begin(Delivery::Streamed, None);
    assert_eq!(reply(x.step(Event::Routed(Err("none".to_string())))), (503, "none".to_string()));
    assert!(matches!(x.stage, Stage::Closed));

    let mut x = begin(Delivery::Streamed, None);
    x.step(Event::Routed(Ok(route(None))));
    assert_eq!(reply(x.step(Event::Refreshed(Err("bad".to_string())))), (401, "Token 刷新失败: bad".to_string()));

    let mut x = begin(Delivery::Collected, None);
    x.step(Event::Routed(Ok(route(None))));
    x.step(Event::Refreshed(Ok("at".to_string())));
    assert_eq!(reply(x.step(Event::Provider(false))), (503, "核心内核正在后台引导中，请稍候片刻...".to_string()));

    for (delivery, message) in [(Delivery::Streamed, "LS拉起失败: dead"), (Delivery::Collected, "dead")] {
        let mut x = begin(delivery, None);
        x.step(Event::Routed(Ok(route(None))));
        x.step(Event::Refreshed(Ok("at".to_string())));
        x.step(Event::Provider(true));
        assert_eq!(reply(x.step(Event::Acquired(Err("dead".to_string())))), (500, message.to_string()));
        assert!(matches!(x.stage, Stage::Closed));
    }
}

#[test]
fn a_denied_permission_marks_the_account() {
    let mut x = opening(Delivery::Streamed, Some("acc"));
    let (status, message, forbidden, log) = refuse(&mut x, "PERMISSION_DENIED: x");
    assert_eq!((status, message.as_str(), forbidden.as_deref()), (403, "PERMISSION_DENIED: x", Some("acc")));
    assert_logs(&log, &x, "/v1/chat/completions");
    assert_eq!((log.status, log.error.as_deref()), (403, Some("PERMISSION_DENIED: x")));
    assert_eq!((log.input_tokens, log.output_tokens), (Some(0), Some(0)));
    let (status, _, forbidden, _) = refuse(&mut opening(Delivery::Streamed, None), "Verify your account");
    assert_eq!((status, forbidden), (403, None));
}

#[test]
fn a_first_frame_that_denies_permission_is_answered_so() {
    let first = Frame::Failed(GrpcStatus { code: 7, message: "account blocked".to_string() });
    let mut x = opening(Delivery::Streamed, Some("acc"));
    let (status, message, forbidden, log) = refuse_with(&mut x, first_refusal(&first, None).unwrap());
    assert_eq!((status, message.as_str(), forbidden.as_deref()), (403, "account blocked", Some("acc")));
    assert_logs(&log, &x, "/v1/chat/completions");
    assert_eq!((log.status, log.error.as_deref()), (403, Some("account blocked")));
}

#[test]
fn another_refusal_marks_nothing() {
    let mut x = opening(Delivery::Collected, Some("acc"));
    let (status, message, forbidden, log) = refuse(&mut x, "timeout");
    assert_eq!((status, message.as_str(), forbidden), (500, "timeout", None));
    assert_logs(&log, &x, "/v1/messages");
    assert_eq!((log.status, log.error.as_deref()), (500, Some("timeout")));
    assert_eq!(status_for(&Refusal { message: "x".to_string(), denied: false }), 500);
    assert_eq!(status_for(&Refusal { message: "x".to_string(), denied: true }), 403);
}

#[test]
fn a_reply_is_logged() {
    let mut x = opening(Delivery::Streamed, None);
    let log = end(&mut x, Some(StreamMetadata { input_tokens: 3, output_tokens: 4, error: None }));
    assert_logs(&log, &x, "/v1/chat/completions");
    assert_eq!((log.status, log.error.as_deref(), log.input_tokens, log.output_tokens), (200, None, Some(3), Some(4)));

    let mut x = opening(Delivery::Collected, None);
    let log = end(&mut x, Some(StreamMetadata { input_tokens: 1, output_tokens: 1, error: Some("cut".to_string()) }));
    assert_logs(&log, &x, "/v1/messages");
    assert_eq!((log.status, log.error.as_deref()), (500, Some("cut")));

    let mut x = opening(Delivery::Streamed, None);
    let log = end(&mut x, Some(failed_metadata("12345678", "", "gRPC".to_string())));
    assert_eq!((log.status, log.error.as_deref(), log.input_tokens, log.output_tokens), (500, Some("gRPC"), Some(2), Some(1)));

    let log = end(&mut opening(Delivery::Collected, None), None);
    assert_eq!((log.status, log.error.as_deref(), log.input_tokens, log.output_tokens), (200, None, Some(0), Some(0)));
}

#[test]
fn an_event_out_of_turn_changes_nothing() {
    let mut x = begin(Delivery::Streamed, None);
    assert!(matches!(x.step(Event::Provider(true)), Action::Wait));
    assert!(matches!(x.step(Event::Ended { metadata: None, duration: 0 }), Action::Wait));
    assert!(matches!(x.stage, Stage::Routing));
    x.step(Event::Routed(Err("none".to_string())));
    assert!(matches!(x.step(Event::Routed(Ok(route(None)))), Action::Wait));
    assert!(matches!(x.stage, Stage::Closed));
}

#[test]
fn every_exchange_has_its_own_identifier() {
    let (a, b) = (begin(Delivery::Streamed, None), begin(Delivery::Streamed, None));
    assert!(a.trace_id.starts_with("tr-") && a.trace_id.len() == 35);
    assert_ne!(a.trace_id, b.trace_id);
}
