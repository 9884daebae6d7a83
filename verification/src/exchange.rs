//! One exchange with a client, from the credential to the log. Each step is a decision: it takes
//! what the step before brought and says what to do next.
use crate::engine::{
    denies_permission, refusal_of, refused_at_first, surfaced, Frame, GrpcStatus, Refusal,
    PERMISSION_DENIED,
};
use crate::ids::{is_tagged_id, new_trace_id, now_millis};
use crate::mapper::StreamMetadata;
use crate::text::{signed_decimal, signed_decimal_text};
use vstd::prelude::*;
use vstd::string::*;

verus! {

/// How a reply is given.
#[derive(Debug, Clone, Copy, PartialEq, Eq, Structural)]
pub enum Delivery {
    /// Frame by frame, as it comes.
    Streamed,
    /// As one message, when it is complete.
    Collected,
}

/// How a reply is given to a client that asked for a stream, or did not.
pub fn delivery_for(stream: bool) -> (r: Delivery)
    ensures
        r == (if stream {
            Delivery::Streamed
        } else {
            Delivery::Collected
        }),
{
    if stream {
        Delivery::Streamed
    } else {
        Delivery::Collected
    }
}

/// What answers a request: with which token, from which account, by which model of the backend,
/// and under which name.
#[derive(Debug)]
pub struct Route {
    pub refresh_token: String,
    pub account_id: Option<String>,
    pub model_id: i32,
    pub email: String,
}

/// An answer that is an error.
#[derive(Debug)]
pub struct ErrorReply {
    pub status: u16,
    pub message: String,
}

/// What is logged of an exchange.
#[derive(Debug)]
pub struct TrafficLog {
    pub id: String,
    pub timestamp: i64,
    pub method: String,
    pub url: String,
    pub status: u16,
    pub duration: u64,
    pub model: Option<String>,
    pub mapped_model: Option<String>,
    pub account_email: Option<String>,
    pub client_ip: Option<String>,
    pub error: Option<String>,
    pub input_tokens: Option<u32>,
    pub output_tokens: Option<u32>,
    pub protocol: String,
}

/// Where the backend is reached.
#[derive(Debug)]
pub struct Instance {
    pub grpc_addr: String,
    pub csrf_token: Option<String>,
}

/// What the engine needs to reach the backend.
#[derive(Debug)]
pub struct Connection {
    pub grpc_addr: String,
    pub csrf_token: Option<String>,
    pub access_token: String,
    pub resolved_model_id: i32,
    pub account_email: Option<String>,
    pub workspace_dir: Option<String>,
}

/// How far an exchange has come.
#[derive(Debug)]
pub enum Stage {
    /// It awaits its route.
    Routing,
    /// It awaits an access token.
    Refreshing(Route),
    /// It awaits the backend's provider.
    Booting(Route, String),
    /// It awaits an instance of the backend.
    Acquiring(Route, String),
    /// It awaits the backend's stream.
    Opening(Route),
    /// It awaits the end of the reply.
    Replying(Route),
    /// It is over.
    Closed,
}

/// What a step brought.
#[derive(Debug)]
pub enum Event {
    Routed(Result<Route, String>),
    Refreshed(Result<String, String>),
    Provider(bool),
    Acquired(Result<Instance, String>),
    /// The stream is open, or was refused; `duration` is the time in milliseconds since the
    /// exchange began.
    Opened { outcome: Result<(), Refusal>, duration: u64 },
    /// The reply is complete; the engine may have left without a word on it.
    Ended { metadata: Option<StreamMetadata>, duration: u64 },
}

/// What to do next.
#[derive(Debug)]
pub enum Action {
    /// Get an access token for this refresh token.
    Refresh(String),
    /// Look for the backend's provider.
    FindProvider,
    /// Get an instance of the backend.
    Acquire { email: String, refresh_token: String, slot_id: Option<String> },
    /// Open the backend's stream.
    Open(Connection),
    /// Give the reply.
    Relay,
    /// Answer with an error.
    Reply(ErrorReply),
    /// Answer with an error and log it; where an account is named, mark it as forbidden.
    Refuse { reply: ErrorReply, forbidden: Option<String>, log: TrafficLog },
    /// Log the exchange.
    Record(TrafficLog),
    /// Nothing: the event does not belong to this stage.
    Wait,
}

/// One exchange with a client.
#[derive(Debug)]
pub struct Exchange {
    pub delivery: Delivery,
    pub trace_id: String,
    pub protocol: String,
    pub model_name: String,
    pub slot_id: Option<String>,
    pub workspace_dir: Option<String>,
    pub stage: Stage,
}

// ---- The answers --------------------------------------------------------------------------

/// The HTTP status for a refusal of the backend's.
pub open spec fn refusal_status(refusal: Refusal) -> u16 {
    if refusal.denied {
        403
    } else {
        500
    }
}

/// The message for an access token that could not be got.
pub open spec fn refresh_error(error: Seq<char>) -> Seq<char> {
    "Token 刷新失败: "@ + error
}

/// The message while the backend's provider is not there yet.
pub const BOOTING: &'static str = "核心内核正在后台引导中，请稍候片刻...";

/// The message for an instance that could not be got.
pub open spec fn acquire_error(delivery: Delivery, error: Seq<char>) -> Seq<char> {
    match delivery {
        Delivery::Streamed => "LS拉起失败: "@ + error,
        Delivery::Collected => error,
    }
}

/// The path under which an exchange is logged.
pub open spec fn logged_url(delivery: Delivery) -> Seq<char> {
    match delivery {
        Delivery::Streamed => "/v1/chat/completions"@,
        Delivery::Collected => "/v1/messages"@,
    }
}

fn with_prefix(prefix: &str, rest: &str) -> (r: String)
    ensures
        r@ == prefix@ + rest@,
{
    let mut out: String = prefix.to_owned();
    out.append(rest);
    out
}

/// The HTTP status for a refusal of the backend's.
pub fn status_for(refusal: &Refusal) -> (r: u16)
    ensures
        r == refusal_status(*refusal),
{
    if refusal.denied {
        403
    } else {
        500
    }
}

// ---- The log ------------------------------------------------------------------------------

/// What a log says of an exchange, whatever came of it.
pub open spec fn logs_exchange(log: TrafficLog, exchange: Exchange, route: Route, duration: u64) -> bool {
    &&& log.id == exchange.trace_id
    &&& log.method@ == "POST"@
    &&& log.url@ == logged_url(exchange.delivery)
    &&& log.duration == duration
    &&& log.model == Some(exchange.model_name)
    &&& (log.mapped_model matches Some(m) && m@ == signed_decimal(route.model_id as int))
    &&& log.account_email == Some(route.email)
    &&& (log.client_ip matches Some(ip) && ip@ == "127.0.0.1"@)
    &&& log.protocol == exchange.protocol
}

/// What a log says of a refused exchange.
pub open spec fn logs_refusal(
    log: TrafficLog,
    exchange: Exchange,
    route: Route,
    refusal: Refusal,
    duration: u64,
) -> bool {
    &&& logs_exchange(log, exchange, route, duration)
    &&& log.status == refusal_status(refusal)
    &&& log.error == Some(refusal.message)
    &&& log.input_tokens == Some(0u32)
    &&& log.output_tokens == Some(0u32)
}

/// What a log says of a complete exchange: where the engine left without a word, it counts as a
/// success with nothing used.
pub open spec fn logs_reply(
    log: TrafficLog,
    exchange: Exchange,
    route: Route,
    metadata: Option<StreamMetadata>,
    duration: u64,
) -> bool {
    &&& logs_exchange(log, exchange, route, duration)
    &&& match metadata {
        Some(m) => {
            &&& log.status == if m.error is None {
                200u16
            } else {
                500u16
            }
            &&& log.error == m.error
            &&& log.input_tokens == Some(m.input_tokens)
            &&& log.output_tokens == Some(m.output_tokens)
        },
        None => {
            &&& log.status == 200
            &&& log.error is None
            &&& log.input_tokens == Some(0u32)
            &&& log.output_tokens == Some(0u32)
        },
    }
}

impl Exchange {
    fn log(
        &self,
        route: &Route,
        timestamp: i64,
        duration: u64,
        status: u16,
        error: Option<String>,
        input_tokens: u32,
        output_tokens: u32,
    ) -> (r: TrafficLog)
        ensures
            logs_exchange(r, *self, *route, duration),
            r.timestamp == timestamp,
            r.status == status,
            r.error == error,
            r.input_tokens == Some(input_tokens),
            r.output_tokens == Some(output_tokens),
    {
        TrafficLog {
            id: self.trace_id.clone(),
            timestamp,
            method: "POST".to_owned(),
            url: match self.delivery {
                Delivery::Streamed => "/v1/chat/completions".to_owned(),
                Delivery::Collected => "/v1/messages".to_owned(),
            },
            status,
            duration,
            model: Some(self.model_name.clone()),
            mapped_model: Some(signed_decimal_text(route.model_id)),
            account_email: Some(route.email.clone()),
            client_ip: Some("127.0.0.1".to_owned()),
            error,
            input_tokens: Some(input_tokens),
            output_tokens: Some(output_tokens),
            protocol: self.protocol.clone(),
        }
    }

    /// The log of an exchange that was refused, written at `timestamp`.
    pub fn refusal_log(&self, route: &Route, refusal: &Refusal, timestamp: i64, duration: u64) -> (r:
        TrafficLog)
        ensures
            logs_refusal(r, *self, *route, *refusal, duration),
            r.timestamp == timestamp,
    {
        let status: u16 = status_for(refusal);
        self.log(route, timestamp, duration, status, Some(refusal.message.clone()), 0, 0)
    }

    /// The log of a complete exchange, written at `timestamp`.
    pub fn reply_log(
        &self,
        route: &Route,
        metadata: Option<StreamMetadata>,
        timestamp: i64,
        duration: u64,
    ) -> (r: TrafficLog)
        ensures
            logs_reply(r, *self, *route, metadata, duration),
            r.timestamp == timestamp,
    {
        let m: StreamMetadata = match metadata {
            Some(m) => m,
            None => StreamMetadata::default(),
        };
        let status: u16 = if m.error.is_none() {
            200
        } else {
            500
        };
        self.log(route, timestamp, duration, status, m.error, m.input_tokens, m.output_tokens)
    }
}

// ---- The steps ----------------------------------------------------------------------------

/// What stays the same throughout an exchange.
pub open spec fn same_exchange(a: Exchange, b: Exchange) -> bool {
    &&& a.delivery == b.delivery
    &&& a.trace_id == b.trace_id
    &&& a.protocol == b.protocol
    &&& a.model_name == b.model_name
    &&& a.slot_id == b.slot_id
    &&& a.workspace_dir == b.workspace_dir
}

/// The event belongs to the stage.
pub open spec fn is_awaited(stage: Stage, event: Event) -> bool {
    match stage {
        Stage::Routing => event is Routed,
        Stage::Refreshing(_) => event is Refreshed,
        Stage::Booting(_, _) => event is Provider,
        Stage::Acquiring(_, _) => event is Acquired,
        Stage::Opening(_) => event is Opened,
        Stage::Replying(_) => event is Ended,
        Stage::Closed => false,
    }
}

/// `action` answers with this error.
pub open spec fn replies(action: Action, status: u16, message: Seq<char>) -> bool {
    action matches Action::Reply(reply) && reply.status == status && reply.message@ == message
}

/// The slot of an instance: the one that the client asked for, and else the account's.
pub open spec fn slot_of(exchange: Exchange, route: Route) -> Option<String> {
    match exchange.slot_id {
        Some(slot) => Some(slot),
        None => route.account_id,
    }
}

/// An event leads from the exchange `before` to the exchange `after` and to `action`.
pub open spec fn leads_to(before: Exchange, event: Event, after: Exchange, action: Action) -> bool {
    &&& same_exchange(before, after)
    &&& match (before.stage, event) {
        (Stage::Routing, Event::Routed(Ok(route))) => {
            &&& after.stage == Stage::Refreshing(route)
            &&& action == Action::Refresh(route.refresh_token)
        },
        (Stage::Routing, Event::Routed(Err(error))) => {
            &&& after.stage == Stage::Closed
            &&& replies(action, 503, error@)
        },
        (Stage::Refreshing(route), Event::Refreshed(Ok(token))) => {
            &&& after.stage == Stage::Booting(route, token)
            &&& action == Action::FindProvider
        },
        (Stage::Refreshing(_), Event::Refreshed(Err(error))) => {
            &&& after.stage == Stage::Closed
            &&& replies(action, 401, refresh_error(error@))
        },
        (Stage::Booting(route, token), Event::Provider(true)) => {
            &&& after.stage == Stage::Acquiring(route, token)
            &&& action == Action::Acquire {
                email: route.email,
                refresh_token: route.refresh_token,
                slot_id: slot_of(before, route),
            }
        },
        (Stage::Booting(_, _), Event::Provider(false)) => {
            &&& after.stage == Stage::Closed
            &&& replies(action, 503, BOOTING@)
        },
        (Stage::Acquiring(route, token), Event::Acquired(Ok(instance))) => {
            &&& after.stage == Stage::Opening(route)
            &&& action == Action::Open(
                Connection {
                    grpc_addr: instance.grpc_addr,
                    csrf_token: instance.csrf_token,
                    access_token: token,
                    resolved_model_id: route.model_id,
                    account_email: Some(route.email),
                    workspace_dir: before.workspace_dir,
                },
            )
        },
        (Stage::Acquiring(_, _), Event::Acquired(Err(error))) => {
            &&& after.stage == Stage::Closed
            &&& replies(action, 500, acquire_error(before.delivery, error@))
        },
        (Stage::Opening(route), Event::Opened { outcome: Ok(_), duration: _ }) => {
            &&& after.stage == Stage::Replying(route)
            &&& action == Action::Relay
        },
        (Stage::Opening(route), Event::Opened { outcome: Err(refusal), duration }) => {
            &&& after.stage == Stage::Closed
            &&& action matches Action::Refuse { reply, forbidden, log }
            &&& reply.status == refusal_status(refusal)
            &&& reply.message == refusal.message
            &&& forbidden == if refusal.denied {
                route.account_id
            } else {
                None
            }
            &&& logs_refusal(log, before, route, refusal, duration)
        },
        (Stage::Replying(route), Event::Ended { metadata, duration }) => {
            &&& after.stage == Stage::Closed
            &&& action matches Action::Record(log)
            &&& logs_reply(log, before, route, metadata, duration)
        },
        _ => {
            &&& after.stage == before.stage
            &&& action == Action::Wait
        },
    }
}

fn error_reply(status: u16, message: String) -> (r: Action)
    ensures
        replies(r, status, message@),
{
    Action::Reply(ErrorReply { status, message })
}

fn copy_text(t: &Option<String>) -> (r: Option<String>)
    ensures
        r == *t,
{
    match t {
        Some(s) => Some(s.clone()),
        None => None,
    }
}

impl Exchange {
    /// An exchange that begins, under a new identifier.
    pub fn new(
        delivery: Delivery,
        protocol: String,
        model_name: String,
        slot_id: Option<String>,
        workspace_dir: Option<String>,
    ) -> (r: Exchange)
        ensures
            is_tagged_id(r.trace_id@, "tr-"@),
            r.delivery == delivery,
            r.protocol == protocol,
            r.model_name == model_name,
            r.slot_id == slot_id,
            r.workspace_dir == workspace_dir,
            r.stage == Stage::Routing,
    {
        Exchange {
            delivery,
            trace_id: new_trace_id(),
            protocol,
            model_name,
            slot_id,
            workspace_dir,
            stage: Stage::Routing,
        }
    }

    /// Takes what a step brought and says what to do next.
    pub fn step(&mut self, event: Event) -> (r: Action)
        ensures
            leads_to(*old(self), event, *final(self), r),
    {
        let mut stage = Stage::Closed;
        std::mem::swap(&mut stage, &mut self.stage);
        match (stage, event) {
            (Stage::Routing, Event::Routed(Ok(route))) => {
                let token: String = route.refresh_token.clone();
                self.stage = Stage::Refreshing(route);
                Action::Refresh(token)
            },
            (Stage::Routing, Event::Routed(Err(error))) => error_reply(503, error),
            (Stage::Refreshing(route), Event::Refreshed(Ok(token))) => {
                self.stage = Stage::Booting(route, token);
                Action::FindProvider
            },
            (Stage::Refreshing(_), Event::Refreshed(Err(error))) => error_reply(
                401,
                with_prefix("Token 刷新失败: ", error.as_str()),
            ),
            (Stage::Booting(route, token), Event::Provider(true)) => {
                let email: String = route.email.clone();
                let refresh_token: String = route.refresh_token.clone();
                let slot_id: Option<String> = if self.slot_id.is_some() {
                    copy_text(&self.slot_id)
                } else {
                    copy_text(&route.account_id)
                };
                self.stage = Stage::Acquiring(route, token);
                Action::Acquire { email, refresh_token, slot_id }
            },
            (Stage::Booting(_, _), Event::Provider(false)) => error_reply(503, BOOTING.to_owned()),
            (Stage::Acquiring(route, token), Event::Acquired(Ok(instance))) => {
                let connection = Connection {
                    grpc_addr: instance.grpc_addr,
                    csrf_token: instance.csrf_token,
                    access_token: token,
                    resolved_model_id: route.model_id,
                    account_email: Some(route.email.clone()),
                    workspace_dir: copy_text(&self.workspace_dir),
                };
                self.stage = Stage::Opening(route);
                Action::Open(connection)
            },
            (Stage::Acquiring(_, _), Event::Acquired(Err(error))) => {
                let message: String = match self.delivery {
                    Delivery::Streamed => with_prefix("LS拉起失败: ", error.as_str()),
                    Delivery::Collected => error,
                };
                error_reply(500, message)
            },
            (Stage::Opening(route), Event::Opened { outcome: Ok(_), duration: _ }) => {
                self.stage = Stage::Replying(route);
                Action::Relay
            },
            (Stage::Opening(route), Event::Opened { outcome: Err(refusal), duration }) => {
                let log = self.refusal_log(&route, &refusal, now_millis(), duration);
                let forbidden: Option<String> = if refusal.denied {
                    route.account_id
                } else {
                    None
                };
                let status: u16 = status_for(&refusal);
                let reply = ErrorReply { status, message: refusal.message };
                Action::Refuse { reply, forbidden, log }
            },
            (Stage::Replying(route), Event::Ended { metadata, duration }) => {
                Action::Record(self.reply_log(&route, metadata, now_millis(), duration))
            },
            (stage, _) => {
                self.stage = stage;
                Action::Wait
            },
        }
    }
}

// ---- Laws ---------------------------------------------------------------------------------

/// A refusal of the backend's is logged as it is answered, and an account is marked as forbidden
/// exactly where the answer is that permission is denied and the account is known.
pub proof fn law_refusal(
    before: Exchange,
    route: Route,
    refusal: Refusal,
    duration: u64,
    after: Exchange,
    action: Action,
)
    requires
        before.stage == Stage::Opening(route),
        leads_to(before, Event::Opened { outcome: Err(refusal), duration }, after, action),
    ensures
        action matches Action::Refuse { reply, forbidden, log } && {
            &&& log.status == reply.status
            &&& log.error == Some(reply.message)
            &&& reply.status == 403 <==> refusal.denied
            &&& forbidden is Some <==> reply.status == 403 && route.account_id is Some
            &&& forbidden is Some ==> forbidden == route.account_id
        },
{
}

/// A denied permission is answered as such. The backend denies it with the status of the first
/// frame, whatever the message, or with the last error that it wrote, whether it could not be
/// reached, did not take the request, or said nothing.
pub proof fn law_denied_permission_is_answered(
    error: String,
    raw: String,
    status: GrpcStatus,
    last_error: Option<String>,
)
    requires
        denies_permission(raw@),
        status.code == PERMISSION_DENIED,
    ensures
        refusal_status(refusal_of(surfaced(error, Some(raw)))) == 403,
        refused_at_first(Frame::Ended, Some(raw)) matches Some(refusal) && refusal_status(refusal)
            == 403 && refusal.message == raw,
        refused_at_first(Frame::Failed(status), last_error) matches Some(refusal)
            && refusal_status(refusal) == 403 && refusal.message == status.message,
{
}

/// An exchange that awaits an event goes on with it; any other event changes nothing, and nothing
/// follows the end.
pub proof fn law_progress(before: Exchange, event: Event, after: Exchange, action: Action)
    requires
        leads_to(before, event, after, action),
    ensures
        is_awaited(before.stage, event) <==> action != Action::Wait,
        !is_awaited(before.stage, event) ==> after.stage == before.stage,
        is_awaited(before.stage, event) ==> after.stage != before.stage,
        before.stage == Stage::Closed ==> after.stage == Stage::Closed && action == Action::Wait,
{
}

/// An exchange is answered with an error exactly where it ends before the reply.
pub proof fn law_error_ends(before: Exchange, event: Event, after: Exchange, action: Action)
    requires
        leads_to(before, event, after, action),
    ensures
        action is Reply || action is Refuse <==> before.stage != Stage::Closed && after.stage
            == Stage::Closed && !(before.stage is Replying),
        action is Record ==> before.stage is Replying && after.stage == Stage::Closed,
{
}

/// What an exchange is answered with before there is a stream: each failure with its own status
/// and words. Nothing of it is logged.
pub proof fn law_early_answers(
    before: Exchange,
    after: Exchange,
    action: Action,
    route: Route,
    token: String,
    error: String,
)
    ensures
        before.stage == Stage::Routing && leads_to(
            before,
            Event::Routed(Err(error)),
            after,
            action,
        ) ==> after.stage == Stage::Closed && (action matches Action::Reply(r) && r.status == 503
            && r.message@ == error@),
        before.stage == Stage::Refreshing(route) && leads_to(
            before,
            Event::Refreshed(Err(error)),
            after,
            action,
        ) ==> after.stage == Stage::Closed && (action matches Action::Reply(r) && r.status == 401
            && r.message@ == "Token 刷新失败: "@ + error@),
        before.stage == Stage::Booting(route, token) && leads_to(
            before,
            Event::Provider(false),
            after,
            action,
        ) ==> after.stage == Stage::Closed && (action matches Action::Reply(r) && r.status == 503
            && r.message@ == "核心内核正在后台引导中，请稍候片刻..."@),
        before.stage == Stage::Acquiring(route, token) && leads_to(
            before,
            Event::Acquired(Err(error)),
            after,
            action,
        ) ==> after.stage == Stage::Closed && (action matches Action::Reply(r) && r.status == 500
            && r.message@ == if before.delivery == Delivery::Streamed {
            "LS拉起失败: "@ + error@
        } else {
            error@
        }),
{
}

/// What an exchange does next where a step succeeds: it refreshes the token of its route, looks for
/// the provider, gets an instance for the account of its route in the slot that was asked for or
/// else that of the account, and opens the stream with what it has.
pub proof fn law_steps(
    before: Exchange,
    after: Exchange,
    action: Action,
    route: Route,
    token: String,
    instance: Instance,
    duration: u64,
)
    ensures
        before.stage == Stage::Routing && leads_to(before, Event::Routed(Ok(route)), after, action)
            ==> after.stage == Stage::Refreshing(route) && action == Action::Refresh(
            route.refresh_token,
        ),
        before.stage == Stage::Refreshing(route) && leads_to(
            before,
            Event::Refreshed(Ok(token)),
            after,
            action,
        ) ==> after.stage == Stage::Booting(route, token) && action == Action::FindProvider,
        before.stage == Stage::Booting(route, token) && leads_to(
            before,
            Event::Provider(true),
            after,
            action,
        ) ==> after.stage == Stage::Acquiring(route, token) && (action matches Action::Acquire {
            email,
            refresh_token,
            slot_id,
        } && email == route.email && refresh_token == route.refresh_token && slot_id
            == if before.slot_id is Some {
            before.slot_id
        } else {
            route.account_id
        }),
        before.stage == Stage::Acquiring(route, token) && leads_to(
            before,
            Event::Acquired(Ok(instance)),
            after,
            action,
        ) ==> after.stage == Stage::Opening(route) && (action matches Action::Open(c) && c.grpc_addr
            == instance.grpc_addr && c.csrf_token == instance.csrf_token && c.access_token == token
            && c.resolved_model_id == route.model_id && c.account_email == Some(route.email)
            && c.workspace_dir == before.workspace_dir),
        before.stage == Stage::Opening(route) && leads_to(
            before,
            Event::Opened { outcome: Ok(()), duration },
            after,
            action,
        ) ==> after.stage == Stage::Replying(route) && action == Action::Relay,
{
}

/// Nothing of an exchange changes on its way but its stage.
pub proof fn law_exchange_stays_the_same(
    before: Exchange,
    event: Event,
    after: Exchange,
    action: Action,
)
    requires
        leads_to(before, event, after, action),
    ensures
        after.delivery == before.delivery,
        after.trace_id == before.trace_id,
        after.protocol == before.protocol,
        after.model_name == before.model_name,
        after.slot_id == before.slot_id,
        after.workspace_dir == before.workspace_dir,
{
}

/// A refusal of the backend's is answered with its own message, as forbidden where permission was
/// denied and as a failure else, and logged so with nothing used.
pub proof fn law_refusal_is_logged(
    before: Exchange,
    after: Exchange,
    action: Action,
    route: Route,
    refusal: Refusal,
    duration: u64,
)
    requires
        before.stage == Stage::Opening(route),
        leads_to(before, Event::Opened { outcome: Err(refusal), duration }, after, action),
    ensures
        after.stage == Stage::Closed,
        action matches Action::Refuse { reply, forbidden, log } && {
            let status: u16 = if refusal.denied {
                403
            } else {
                500
            };
            &&& reply.status == status
            &&& reply.message == refusal.message
            &&& refusal.denied ==> forbidden == route.account_id
            &&& !refusal.denied ==> forbidden is None
            &&& log.status == status
            &&& log.error == Some(refusal.message)
            &&& log.input_tokens == Some(0u32)
            &&& log.output_tokens == Some(0u32)
            &&& log.duration == duration
            &&& log.id == before.trace_id
            &&& log.method@ == "POST"@
            &&& log.url@ == if before.delivery == Delivery::Streamed {
                "/v1/chat/completions"@
            } else {
                "/v1/messages"@
            }
            &&& log.model == Some(before.model_name)
            &&& log.mapped_model matches Some(m) && m@ == signed_decimal(route.model_id as int)
            &&& log.account_email == Some(route.email)
            &&& log.client_ip matches Some(ip) && ip@ == "127.0.0.1"@
            &&& log.protocol == before.protocol
        },
{
}

/// A reply is logged with what was used and with its error, as a failure where it has one and as a
/// success else; where nothing is known of it, as a success with nothing used.
pub proof fn law_reply_is_logged(
    before: Exchange,
    after: Exchange,
    action: Action,
    route: Route,
    metadata: Option<StreamMetadata>,
    duration: u64,
)
    requires
        before.stage == Stage::Replying(route),
        leads_to(before, Event::Ended { metadata, duration }, after, action),
    ensures
        after.stage == Stage::Closed,
        action matches Action::Record(log) && {
            &&& metadata is None ==> log.status == 200 && log.error is None && log.input_tokens
                == Some(0u32) && log.output_tokens == Some(0u32)
            &&& metadata matches Some(m) ==> log.error == m.error && log.input_tokens == Some(
                m.input_tokens,
            ) && log.output_tokens == Some(m.output_tokens)
            &&& metadata matches Some(m) ==> (m.error is None ==> log.status == 200)
            &&& metadata matches Some(m) ==> (m.error is Some ==> log.status == 500)
            &&& log.duration == duration
            &&& log.id == before.trace_id
            &&& log.method@ == "POST"@
            &&& log.url@ == if before.delivery == Delivery::Streamed {
                "/v1/chat/completions"@
            } else {
                "/v1/messages"@
            }
            &&& log.model == Some(before.model_name)
            &&& log.mapped_model matches Some(m) && m@ == signed_decimal(route.model_id as int)
            &&& log.account_email == Some(route.email)
            &&& log.client_ip matches Some(ip) && ip@ == "127.0.0.1"@
            &&& log.protocol == before.protocol
        },
{
}

} // verus!
