//! How the backend's stream is opened: the prompt is built, the backend is reached, the request is
//! made, and the first frame is awaited. Each step is a decision: it takes what the step before
//! brought and says what to do next, or refuses the request.
use crate::engine::{
    denies_permission, first_refusal, refusal_of, refused_at_first, resolve_workspace, surfaced,
    surfaced_error, Frame, Refusal, PERMISSION_DENIED,
};
use crate::exchange::Connection;
use crate::mapper::ProtocolMapper;
use vstd::prelude::*;
use vstd::string::*;

verus! {

/// What the gateway is configured to call itself.
#[derive(Debug)]
pub struct RuntimeConfig {
    pub ide_name: String,
    pub version: String,
    pub extension_name: String,
}

/// What the backend is told of its client.
#[derive(Debug)]
pub struct ClientMetadata {
    pub ide_name: String,
    pub ide_version: String,
    pub extension_name: String,
    pub extension_version: String,
}

/// What the backend is told of a client that is so configured.
pub open spec fn metadata_of(config: RuntimeConfig) -> ClientMetadata {
    ClientMetadata {
        ide_name: config.ide_name,
        ide_version: config.version,
        extension_name: config.extension_name,
        extension_version: config.version,
    }
}

/// What the backend is told of a client that is so configured.
pub fn client_metadata(config: RuntimeConfig) -> (r: ClientMetadata)
    ensures
        r == metadata_of(config),
{
    ClientMetadata {
        ide_name: config.ide_name,
        ide_version: config.version.clone(),
        extension_name: config.extension_name,
        extension_version: config.version,
    }
}

/// The token against forged requests that is sent: the one that the backend gave out, or nothing.
pub fn csrf_to_send(token: Option<String>) -> (r: String)
    ensures
        token matches Some(t) ==> r == t,
        token is None ==> r@.len() == 0,
{
    match token {
        Some(t) => t,
        None => String::new(),
    }
}

/// Why a call of the backend failed, and the last error that the backend wrote.
#[derive(Debug)]
pub struct BackendError {
    pub message: String,
    pub last_error: Option<String>,
}

/// How far the opening has come.
#[derive(Debug, Clone, Copy, PartialEq, Eq, Structural)]
pub enum OpeningStage {
    /// It awaits the prompt.
    Prompting,
    /// It awaits the connection to the backend.
    Connecting,
    /// It awaits the answer to the request.
    Requesting,
    /// It awaits the first frame.
    Receiving,
    /// It is over.
    Closed,
}

/// What a step brought.
#[derive(Debug)]
pub enum OpeningEvent {
    Prompted(Result<String, String>),
    Connected(Result<(), BackendError>),
    Requested(Result<(), BackendError>),
    /// The first frame, and the last error that the backend wrote.
    Received { first: Frame, last_error: Option<String> },
}

/// What to do next.
#[derive(Debug)]
pub enum OpeningAction {
    /// Connect to the backend.
    Connect {
        grpc_addr: String,
        metadata: ClientMetadata,
        csrf_token: String,
        workspace: Option<String>,
    },
    /// Make the request.
    Request { prompt: String, model_id: i32 },
    /// Wait for the first frame.
    Receive,
    /// Pass the stream on, from its first frame.
    Relay(Frame),
    /// Refuse the request.
    Refuse(Refusal),
    /// Nothing: the event does not belong to this stage.
    Wait,
}

/// A stream that is being opened.
#[derive(Debug)]
pub struct Opening {
    pub model_name: String,
    pub connection: Connection,
    pub metadata: ClientMetadata,
    pub workspace: Option<String>,
    /// The prompt, once it is built.
    pub prompt: String,
    pub stage: OpeningStage,
}

/// What the attempt to build the prompt of a request brings.
pub open spec fn prompted<M: ProtocolMapper>(
    req: M::Request,
    tool_prompt: Seq<char>,
    event: OpeningEvent,
) -> bool {
    match event {
        OpeningEvent::Prompted(Ok(prompt)) => M::prompt_of(req, tool_prompt) == Ok::<
            Seq<char>,
            Seq<char>,
        >(prompt@),
        OpeningEvent::Prompted(Err(error)) => M::prompt_of(req, tool_prompt) == Err::<
            Seq<char>,
            Seq<char>,
        >(error@),
        _ => false,
    }
}

/// Builds the prompt of a request; `tool_prompt` describes the tools that the request offers.
pub fn build<M: ProtocolMapper>(req: &M::Request, tool_prompt: &str) -> (r: OpeningEvent)
    ensures
        prompted::<M>(*req, tool_prompt@, r),
{
    match M::build_prompt(req, tool_prompt) {
        Ok(prompt) => OpeningEvent::Prompted(Ok(prompt)),
        Err(e) => OpeningEvent::Prompted(Err(e.message)),
    }
}

/// What stays the same throughout an opening.
pub open spec fn same_opening(a: Opening, b: Opening) -> bool {
    &&& a.model_name == b.model_name
    &&& a.connection == b.connection
    &&& a.metadata == b.metadata
    &&& a.workspace == b.workspace
}

/// The event belongs to the stage.
pub open spec fn is_due(stage: OpeningStage, event: OpeningEvent) -> bool {
    match stage {
        OpeningStage::Prompting => event is Prompted,
        OpeningStage::Connecting => event is Connected,
        OpeningStage::Requesting => event is Requested,
        OpeningStage::Receiving => event is Received,
        OpeningStage::Closed => false,
    }
}

/// `action` connects to the backend as the opening `o` says: a token that the backend did not give
/// out is sent as an empty one.
pub open spec fn connects(o: Opening, action: OpeningAction) -> bool {
    &&& action matches OpeningAction::Connect { grpc_addr, metadata, csrf_token, workspace }
    &&& grpc_addr == o.connection.grpc_addr
    &&& metadata == o.metadata
    &&& csrf_token@ == match o.connection.csrf_token {
        Some(token) => token@,
        None => Seq::empty(),
    }
    &&& workspace == o.workspace
}

/// An event leads from the opening `before` to the opening `after` and to `action`.
pub open spec fn opening_leads_to(
    before: Opening,
    event: OpeningEvent,
    after: Opening,
    action: OpeningAction,
) -> bool {
    &&& same_opening(before, after)
    &&& match (before.stage, event) {
        (OpeningStage::Prompting, OpeningEvent::Prompted(Ok(prompt))) => {
            &&& after.stage == OpeningStage::Connecting
            &&& after.prompt == prompt
            &&& connects(before, action)
        },
        (OpeningStage::Prompting, OpeningEvent::Prompted(Err(error))) => {
            &&& after.stage == OpeningStage::Closed
            &&& after.prompt == before.prompt
            &&& action == OpeningAction::Refuse(refusal_of(error))
        },
        (OpeningStage::Connecting, OpeningEvent::Connected(Ok(_))) => {
            &&& after.stage == OpeningStage::Requesting
            &&& after.prompt == before.prompt
            &&& action == OpeningAction::Request {
                prompt: before.prompt,
                model_id: before.connection.resolved_model_id,
            }
        },
        (OpeningStage::Connecting, OpeningEvent::Connected(Err(e))) => {
            &&& after.stage == OpeningStage::Closed
            &&& after.prompt == before.prompt
            &&& action == OpeningAction::Refuse(refusal_of(surfaced(e.message, e.last_error)))
        },
        (OpeningStage::Requesting, OpeningEvent::Requested(Ok(_))) => {
            &&& after.stage == OpeningStage::Receiving
            &&& after.prompt == before.prompt
            &&& action == OpeningAction::Receive
        },
        (OpeningStage::Requesting, OpeningEvent::Requested(Err(e))) => {
            &&& after.stage == OpeningStage::Closed
            &&& after.prompt == before.prompt
            &&& action == OpeningAction::Refuse(refusal_of(surfaced(e.message, e.last_error)))
        },
        (OpeningStage::Receiving, OpeningEvent::Received { first, last_error }) => {
            &&& after.stage == OpeningStage::Closed
            &&& after.prompt == before.prompt
            &&& action == match refused_at_first(first, last_error) {
                Some(refusal) => OpeningAction::Refuse(refusal),
                None => OpeningAction::Relay(first),
            }
        },
        _ => {
            &&& after.stage == before.stage
            &&& after.prompt == before.prompt
            &&& action == OpeningAction::Wait
        },
    }
}

impl Opening {
    /// The opening of a stream for a request.
    pub fn new<M: ProtocolMapper>(
        req: &M::Request,
        connection: Connection,
        config: RuntimeConfig,
    ) -> (r: Opening)
        ensures
            r.model_name@ == M::model_of(*req),
            r.connection == connection,
            r.metadata == metadata_of(config),
            connection.workspace_dir is Some ==> r.workspace == connection.workspace_dir,
            connection.workspace_dir is None ==> call_ensures(
                M::extract_workspace,
                (req,),
                r.workspace,
            ),
            r.prompt@.len() == 0,
            r.stage == OpeningStage::Prompting,
    {
        let given: Option<String> = match &connection.workspace_dir {
            Some(dir) => Some(dir.clone()),
            None => None,
        };
        Opening {
            model_name: M::get_model(req).to_owned(),
            workspace: resolve_workspace::<M>(given, req),
            connection,
            metadata: client_metadata(config),
            prompt: String::new(),
            stage: OpeningStage::Prompting,
        }
    }

    fn connect(&self) -> (r: OpeningAction)
        ensures
            connects(*self, r),
    {
        let token: Option<String> = match &self.connection.csrf_token {
            Some(t) => Some(t.clone()),
            None => None,
        };
        let csrf_token: String = csrf_to_send(token);
        assert(token is None ==> csrf_token@ =~= Seq::empty());
        OpeningAction::Connect {
            grpc_addr: self.connection.grpc_addr.clone(),
            metadata: ClientMetadata {
                ide_name: self.metadata.ide_name.clone(),
                ide_version: self.metadata.ide_version.clone(),
                extension_name: self.metadata.extension_name.clone(),
                extension_version: self.metadata.extension_version.clone(),
            },
            csrf_token,
            workspace: match &self.workspace {
                Some(dir) => Some(dir.clone()),
                None => None,
            },
        }
    }

    /// Takes what a step brought and says what to do next.
    pub fn step(&mut self, event: OpeningEvent) -> (r: OpeningAction)
        ensures
            opening_leads_to(*old(self), event, *final(self), r),
    {
        match (self.stage, event) {
            (OpeningStage::Prompting, OpeningEvent::Prompted(outcome)) => match outcome {
                Ok(prompt) => {
                    self.prompt = prompt;
                    self.stage = OpeningStage::Connecting;
                    self.connect()
                },
                Err(error) => {
                    self.stage = OpeningStage::Closed;
                    OpeningAction::Refuse(Refusal::new(error))
                },
            },
            (OpeningStage::Connecting, OpeningEvent::Connected(outcome)) => match outcome {
                Ok(_) => {
                    self.stage = OpeningStage::Requesting;
                    OpeningAction::Request {
                        prompt: self.prompt.clone(),
                        model_id: self.connection.resolved_model_id,
                    }
                },
                Err(e) => {
                    self.stage = OpeningStage::Closed;
                    OpeningAction::Refuse(surfaced_error(e.message, e.last_error))
                },
            },
            (OpeningStage::Requesting, OpeningEvent::Requested(outcome)) => match outcome {
                Ok(_) => {
                    self.stage = OpeningStage::Receiving;
                    OpeningAction::Receive
                },
                Err(e) => {
                    self.stage = OpeningStage::Closed;
                    OpeningAction::Refuse(surfaced_error(e.message, e.last_error))
                },
            },
            (OpeningStage::Receiving, OpeningEvent::Received { first, last_error }) => {
                self.stage = OpeningStage::Closed;
                match first_refusal(&first, last_error) {
                    Some(refusal) => OpeningAction::Refuse(refusal),
                    None => OpeningAction::Relay(first),
                }
            },
            _ => OpeningAction::Wait,
        }
    }
}

// ---- Laws ---------------------------------------------------------------------------------

/// A request whose prompt cannot be built is refused, with the reason for it, before the backend
/// is reached; the backend is reached only with a prompt.
pub proof fn law_prompt_comes_first(
    before: Opening,
    event: OpeningEvent,
    after: Opening,
    action: OpeningAction,
)
    requires
        opening_leads_to(before, event, after, action),
    ensures
        action is Connect ==> before.stage == OpeningStage::Prompting && (event matches
            OpeningEvent::Prompted(Ok(prompt)) && after.prompt == prompt),
        before.stage == OpeningStage::Prompting ==> (event matches OpeningEvent::Prompted(
            Err(error),
        ) ==> (action matches OpeningAction::Refuse(refusal) && refusal.message == error)
            && after.stage == OpeningStage::Closed),
        action matches OpeningAction::Request { prompt, model_id } ==> prompt == before.prompt,
{
}

/// An opening that awaits an event goes on with it or ends; any other event changes nothing, and
/// nothing follows the end. It ends exactly where the stream is passed on or the request refused.
pub proof fn law_opening_progress(
    before: Opening,
    event: OpeningEvent,
    after: Opening,
    action: OpeningAction,
)
    requires
        opening_leads_to(before, event, after, action),
    ensures
        is_due(before.stage, event) <==> action != OpeningAction::Wait,
        !is_due(before.stage, event) ==> after.stage == before.stage && after.prompt
            == before.prompt,
        is_due(before.stage, event) ==> after.stage != before.stage,
        is_due(before.stage, event) ==> (after.stage == OpeningStage::Closed <==> action is Relay
            || action is Refuse),
{
}

/// Permission that the backend denies while the stream is opened is a refusal that says so:
/// whether the last error that it wrote denies it, at whatever step, or the status of the first
/// frame does.
pub proof fn law_denial_is_refused(
    before: Opening,
    event: OpeningEvent,
    after: Opening,
    action: OpeningAction,
)
    requires
        opening_leads_to(before, event, after, action),
        is_due(before.stage, event),
        match event {
            OpeningEvent::Connected(Err(e)) => e.last_error matches Some(raw)
                && denies_permission(raw@),
            OpeningEvent::Requested(Err(e)) => e.last_error matches Some(raw)
                && denies_permission(raw@),
            OpeningEvent::Received { first: Frame::Ended, last_error } => last_error matches Some(
                raw,
            ) && denies_permission(raw@),
            OpeningEvent::Received { first: Frame::Failed(status), last_error: _ } => status.code
                == PERMISSION_DENIED,
            _ => false,
        },
    ensures
        action matches OpeningAction::Refuse(refusal) && refusal.denied,
        after.stage == OpeningStage::Closed,
{
}

/// With a prompt the backend is reached, as the connection, the configuration and the working
/// directory say; a token that is missing is sent as an empty one. Over the connection the request
/// is made with that prompt, and its answer is the stream.
pub proof fn law_opening_steps(
    before: Opening,
    after: Opening,
    action: OpeningAction,
    prompt: String,
)
    ensures
        before.stage == OpeningStage::Prompting && opening_leads_to(
            before,
            OpeningEvent::Prompted(Ok(prompt)),
            after,
            action,
        ) ==> after.stage == OpeningStage::Connecting && after.prompt == prompt && (action matches
            OpeningAction::Connect { grpc_addr, metadata, csrf_token, workspace } && grpc_addr
            == before.connection.grpc_addr && metadata == before.metadata && workspace
            == before.workspace && (before.connection.csrf_token matches Some(t) ==> csrf_token@ == t@)
            && (before.connection.csrf_token is None ==> csrf_token@.len() == 0)),
        before.stage == OpeningStage::Connecting && opening_leads_to(
            before,
            OpeningEvent::Connected(Ok(())),
            after,
            action,
        ) ==> after.stage == OpeningStage::Requesting && action == (OpeningAction::Request {
            prompt: before.prompt,
            model_id: before.connection.resolved_model_id,
        }),
        before.stage == OpeningStage::Requesting && opening_leads_to(
            before,
            OpeningEvent::Requested(Ok(())),
            after,
            action,
        ) ==> after.stage == OpeningStage::Receiving && action == OpeningAction::Receive,
{
}

/// A failure of the backend refuses the request, with the error that came or with the last one that
/// the backend wrote, where that one denies permission; so does a prompt that cannot be built.
pub proof fn law_opening_fails(
    before: Opening,
    after: Opening,
    action: OpeningAction,
    e: BackendError,
    error: String,
)
    ensures
        before.stage == OpeningStage::Prompting && opening_leads_to(
            before,
            OpeningEvent::Prompted(Err(error)),
            after,
            action,
        ) ==> after.stage == OpeningStage::Closed && (action matches OpeningAction::Refuse(r)
            && r.message == error && (r.denied <==> denies_permission(error@))),
        (before.stage == OpeningStage::Connecting && opening_leads_to(
            before,
            OpeningEvent::Connected(Err(e)),
            after,
            action,
        )) || (before.stage == OpeningStage::Requesting && opening_leads_to(
            before,
            OpeningEvent::Requested(Err(e)),
            after,
            action,
        )) ==> after.stage == OpeningStage::Closed && (action matches OpeningAction::Refuse(r) && {
            let raw = e.last_error matches Some(raw) && denies_permission(raw@);
            &&& raw ==> Some(r.message) == e.last_error && r.denied
            &&& !raw ==> r.message == e.message && (r.denied <==> denies_permission(e.message@))
        }),
{
}

/// A stream whose first frame is text, a status other than a denied permission, or its end without
/// an error that denies permission is passed on from that frame.
pub proof fn law_stream_is_passed_on(
    before: Opening,
    after: Opening,
    action: OpeningAction,
    first: Frame,
    last_error: Option<String>,
)
    requires
        before.stage == OpeningStage::Receiving,
        opening_leads_to(before, OpeningEvent::Received { first, last_error }, after, action),
    ensures
        after.stage == OpeningStage::Closed,
        ({
            let refused = match first {
                Frame::Delta(_) => false,
                Frame::Failed(status) => status.code == 7,
                Frame::Ended => last_error matches Some(raw) && denies_permission(raw@),
            };
            &&& !refused ==> action == OpeningAction::Relay(first)
            &&& refused ==> (action matches OpeningAction::Refuse(r) && r.denied && match first {
                Frame::Failed(status) => r.message == status.message,
                _ => Some(r.message) == last_error,
            })
        }),
{
}

/// The backend is told the names of the gateway, and its version twice.
pub proof fn law_client_metadata(config: RuntimeConfig)
    ensures
        metadata_of(config).ide_name == config.ide_name,
        metadata_of(config).ide_version == config.version,
        metadata_of(config).extension_name == config.extension_name,
        metadata_of(config).extension_version == config.version,
{
}

/// What the attempt to build a prompt brings is the prompt, or why there is none.
pub proof fn law_prompt_is_built<M: ProtocolMapper>(
    req: M::Request,
    tool_prompt: Seq<char>,
    event: OpeningEvent,
)
    requires
        prompted::<M>(req, tool_prompt, event),
    ensures
        M::prompt_of(req, tool_prompt) matches Ok(prompt) ==> (event matches OpeningEvent::Prompted(
            Ok(p),
        ) && p@ == prompt),
        M::prompt_of(req, tool_prompt) matches Err(error) ==> (event matches OpeningEvent::Prompted(
            Err(e),
        ) && e@ == error),
{
}

} // verus!
