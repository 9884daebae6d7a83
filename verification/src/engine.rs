//! The transcoding engine: what becomes of a request on its way to the backend, and of the
//! backend's stream on its way to the client.
use crate::mapper::{
    chunk_views, state_of, text_view, ChunkView, MapState, MapperChunk, ProtocolMapper,
    StreamMetadata,
};
use crate::text::{byte_len, contains, has_text};
use vstd::prelude::*;
use vstd::string::*;
use vstd::utf8::encode_utf8;

verus! {

// ---- Errors of the backend ----------------------------------------------------------------

/// An error that says that the account may not use the backend.
pub open spec fn denies_permission(message: Seq<char>) -> bool {
    has_text(message, "PERMISSION_DENIED"@) || has_text(message, "Verify your account"@)
}

/// Whether an error says that the account may not use the backend.
pub fn is_permission_error(message: &str) -> (r: bool)
    ensures
        r == denies_permission(message@),
{
    contains(message, "PERMISSION_DENIED") || contains(message, "Verify your account")
}

/// Why the backend's stream was refused: the message, and whether permission was denied.
#[derive(Debug)]
pub struct Refusal {
    pub message: String,
    pub denied: bool,
}

/// The refusal that a message stands for, which denies permission where its words do.
pub open spec fn refusal_of(message: String) -> Refusal {
    Refusal { message, denied: denies_permission(message@) }
}

impl Refusal {
    /// The refusal that a message stands for.
    pub fn new(message: String) -> (r: Refusal)
        ensures
            r == refusal_of(message),
    {
        let denied: bool = is_permission_error(message.as_str());
        Refusal { message, denied }
    }
}

/// The error to report for `error`: the last one that the backend wrote, where that one denies
/// permission, and else `error` itself.
pub open spec fn surfaced(error: String, last_error: Option<String>) -> String {
    match last_error {
        Some(raw) => if denies_permission(raw@) {
            raw
        } else {
            error
        },
        None => error,
    }
}

/// The refusal to report for `error`, where `last_error` is the last one that the backend wrote.
pub fn surfaced_error(error: String, last_error: Option<String>) -> (r: Refusal)
    ensures
        r == refusal_of(surfaced(error, last_error)),
{
    match last_error {
        Some(raw) => if is_permission_error(raw.as_str()) {
            Refusal { message: raw, denied: true }
        } else {
            Refusal::new(error)
        },
        None => Refusal::new(error),
    }
}

/// The status that ended a stream: its gRPC code and message.
#[derive(Debug, Clone)]
pub struct GrpcStatus {
    pub code: i32,
    pub message: String,
}

/// The gRPC code of a denied permission.
pub const PERMISSION_DENIED: i32 = 7;

/// What a gRPC code means.
pub open spec fn code_meaning(code: i32) -> Seq<char> {
    match code {
        0 => "The operation completed successfully"@,
        1 => "The operation was cancelled"@,
        3 => "Client specified an invalid argument"@,
        4 => "Deadline expired before operation could complete"@,
        5 => "Some requested entity was not found"@,
        6 => "Some entity that we attempted to create already exists"@,
        7 => "The caller does not have permission to execute the specified operation"@,
        8 => "Some resource has been exhausted"@,
        9 => "The system is not in a state required for the operation's execution"@,
        10 => "The operation was aborted"@,
        11 => "Operation was attempted past the valid range"@,
        12 => "Operation is not implemented or not supported"@,
        13 => "Internal error"@,
        14 => "The service is currently unavailable"@,
        15 => "Unrecoverable data loss or corruption"@,
        16 => "The request does not have valid authentication credentials"@,
        _ => "Unknown error"@,
    }
}

/// `to_string` of the `tonic::Code` that `tonic::Code::from_i32` makes of a number says what that
/// gRPC code means; a number that is no code stands for an unknown error.
#[verifier::external_body]
fn describe_code(code: i32) -> (r: String)
    ensures
        r@ == code_meaning(code),
{
    tonic::Code::from_i32(code).to_string()
}

/// The message for a status that ended a stream.
pub open spec fn status_text(status: GrpcStatus) -> Seq<char> {
    "gRPC 错误 ["@ + code_meaning(status.code) + "]: "@ + status.message@
}

/// The message for a status that ended a stream.
pub fn status_message(status: &GrpcStatus) -> (r: String)
    ensures
        r@ == status_text(*status),
{
    let mut out: String = "gRPC 错误 [".to_owned();
    out.append(describe_code(status.code).as_str());
    out.append("]: ");
    out.append(status.message.as_str());
    out
}

/// What the backend's stream brings: a piece of text, a status that ends it, or its end.
#[derive(Debug)]
pub enum Frame {
    Delta(String),
    Failed(GrpcStatus),
    Ended,
}

/// Whether the first frame refuses the request: a denied permission does, with the message of the
/// status, and so does a stream that ends at once, where the backend's last error denies
/// permission.
pub open spec fn refused_at_first(first: Frame, last_error: Option<String>) -> Option<Refusal> {
    match first {
        Frame::Failed(status) => if status.code == PERMISSION_DENIED {
            Some(Refusal { message: status.message, denied: true })
        } else {
            None
        },
        Frame::Ended => match last_error {
            Some(raw) => if denies_permission(raw@) {
                Some(Refusal { message: raw, denied: true })
            } else {
                None
            },
            None => None,
        },
        Frame::Delta(_) => None,
    }
}

/// Whether the first frame refuses the request.
pub fn first_refusal(first: &Frame, last_error: Option<String>) -> (r: Option<Refusal>)
    ensures
        r == refused_at_first(*first, last_error),
{
    match first {
        Frame::Failed(status) => if status.code == PERMISSION_DENIED {
            Some(Refusal { message: status.message.clone(), denied: true })
        } else {
            None
        },
        Frame::Ended => match last_error {
            Some(raw) => if is_permission_error(raw.as_str()) {
                Some(Refusal { message: raw, denied: true })
            } else {
                None
            },
            None => None,
        },
        Frame::Delta(_) => None,
    }
}

/// The working directory of a request: the one that came with the connection, and else the one
/// that the request speaks of.
pub fn resolve_workspace<M: ProtocolMapper>(given: Option<String>, req: &M::Request) -> (r: Option<
    String,
>)
    ensures
        given is Some ==> r == given,
        given is None ==> call_ensures(M::extract_workspace, (req,), r),
{
    match given {
        Some(dir) => Some(dir),
        None => M::extract_workspace(req),
    }
}

/// The account under which usage is recorded.
pub fn usage_account(email: Option<String>) -> (r: String)
    ensures
        email matches Some(e) ==> r == e,
        email is None ==> r@ == "anonymous"@,
{
    match email {
        Some(e) => e,
        None => "anonymous".to_owned(),
    }
}

// ---- The stream ---------------------------------------------------------------------------

/// What the client is told where the backend said nothing at all and left no error.
pub const SILENT_BACKEND: &'static str =
    "内核返回内容为空，且未抓取到具体报错。请检查账号状态。";

/// One reply on its way through the engine.
#[derive(Debug)]
pub struct Transcript {
    pub model_name: String,
    pub tool_call_buffer: String,
    pub in_tool_call: bool,
    pub tool_call_index: u32,
    pub content: String,
}

/// What a transcript holds.
pub struct TranscriptView {
    pub model: Seq<char>,
    pub state: MapState,
    pub content: Seq<char>,
}

impl View for Transcript {
    type V = TranscriptView;

    open spec fn view(&self) -> TranscriptView {
        TranscriptView {
            model: self.model_name@,
            state: state_of(self.tool_call_buffer, self.in_tool_call, self.tool_call_index),
            content: self.content@,
        }
    }
}

/// What follows a frame.
#[derive(Debug)]
pub enum Next {
    /// The next frame is awaited.
    Continue,
    /// The stream is given up with this error.
    Failed(String),
    /// The reply is complete.
    Finished,
}

/// What follows a frame.
pub enum NextView {
    Continue,
    Failed(Seq<char>),
    Finished,
}

impl View for Next {
    type V = NextView;

    open spec fn view(&self) -> NextView {
        match self {
            Next::Continue => NextView::Continue,
            Next::Failed(e) => NextView::Failed(e@),
            Next::Finished => NextView::Finished,
        }
    }
}

/// What the engine does upon a frame: it sends chunks to the client, and goes on or ends.
#[derive(Debug)]
pub struct Step {
    pub chunks: Vec<MapperChunk>,
    pub next: Next,
}

/// Where a frame leads.
pub struct StepView {
    pub transcript: TranscriptView,
    pub frames: Seq<ChunkView>,
    pub next: NextView,
}

/// The frames that a mapper gave, none where it gave up.
pub open spec fn frames_or_none(frames: Result<Seq<ChunkView>, Seq<char>>) -> Seq<ChunkView> {
    match frames {
        Ok(f) => f,
        Err(_) => Seq::empty(),
    }
}

/// The transcript at the start of a reply of `model`.
pub open spec fn fresh(model: Seq<char>) -> TranscriptView {
    TranscriptView {
        model,
        state: MapState { buffer: Seq::empty(), in_call: false, index: 0 },
        content: Seq::empty(),
    }
}

/// Where a piece of text leads.
pub open spec fn after_delta<M: ProtocolMapper>(t: TranscriptView, delta: Seq<char>) -> StepView {
    let m = M::mapped(t.model, t.state, delta, false);
    StepView {
        transcript: TranscriptView { state: m.state, content: t.content + delta, ..t },
        frames: frames_or_none(m.frames),
        next: match m.frames {
            Ok(_) => NextView::Continue,
            Err(e) => NextView::Failed(e),
        },
    }
}

/// The state in which an error is told: a tool call that is not complete is given up.
pub open spec fn abandoned(state: MapState) -> MapState {
    if state.in_call {
        MapState { buffer: Seq::empty(), in_call: false, ..state }
    } else {
        state
    }
}

/// Where an error leads: a tool call that is not complete is given up, and the client is told the
/// error as if the backend had said it.
pub open spec fn after_error<M: ProtocolMapper>(t: TranscriptView, error: Seq<char>) -> StepView {
    let m = M::mapped(t.model, abandoned(t.state), error, false);
    let told = frames_or_none(m.frames);
    StepView {
        transcript: TranscriptView { state: m.state, ..t },
        frames: if t.state.in_call {
            M::resumed(t.state.index) + told
        } else {
            told
        },
        next: NextView::Failed(error),
    }
}

/// The protocol can number what an error brings.
pub open spec fn can_tell<M: ProtocolMapper>(state: MapState, error: Seq<char>) -> bool {
    &&& state.in_call ==> M::can_resume(state.index)
    &&& M::accepts(abandoned(state), error, false)
}

/// What the client is told at the end of a stream, beside the closing frames: nothing, unless the
/// backend said nothing at all.
pub open spec fn silence_error(content: Seq<char>, last_error: Option<Seq<char>>) -> Option<
    Seq<char>,
> {
    if content.len() == 0 {
        match last_error {
            Some(raw) => Some(raw),
            None => Some(SILENT_BACKEND@),
        }
    } else {
        None
    }
}

/// Where the end of a stream leads.
pub open spec fn after_end<M: ProtocolMapper>(
    t: TranscriptView,
    last_error: Option<Seq<char>>,
) -> StepView {
    let told = match silence_error(t.content, last_error) {
        Some(error) => after_error::<M>(t, error),
        None => StepView { transcript: t, frames: Seq::empty(), next: NextView::Continue },
    };
    let m = M::mapped(t.model, told.transcript.state, Seq::empty(), true);
    StepView {
        transcript: TranscriptView { state: m.state, ..told.transcript },
        frames: told.frames + frames_or_none(m.frames),
        next: match m.frames {
            Ok(_) => NextView::Finished,
            Err(e) => NextView::Failed(e),
        },
    }
}

/// Where a frame leads.
pub open spec fn after<M: ProtocolMapper>(
    t: TranscriptView,
    frame: Frame,
    last_error: Option<Seq<char>>,
) -> StepView {
    match frame {
        Frame::Delta(delta) => after_delta::<M>(t, delta@),
        Frame::Failed(status) => after_error::<M>(t, status_text(status)),
        Frame::Ended => after_end::<M>(t, last_error),
    }
}

/// The protocol can number what a frame brings.
pub open spec fn admits<M: ProtocolMapper>(
    t: TranscriptView,
    frame: Frame,
    last_error: Option<Seq<char>>,
) -> bool {
    match frame {
        Frame::Delta(delta) => M::accepts(t.state, delta@, false),
        Frame::Failed(status) => can_tell::<M>(t.state, status_text(status)),
        Frame::Ended => match silence_error(t.content, last_error) {
            Some(error) => can_tell::<M>(t.state, error) && M::accepts(
                after_error::<M>(t, error).transcript.state,
                Seq::empty(),
                true,
            ),
            None => M::accepts(t.state, Seq::empty(), true),
        },
    }
}

/// What a step leads to.
pub open spec fn step_view(t: Transcript, step: Step) -> StepView {
    StepView { transcript: t@, frames: chunk_views(step.chunks@), next: step.next@ }
}

impl Transcript {
    /// A reply of `model` at its start.
    pub fn new(model_name: String) -> (r: Transcript)
        ensures
            r@ == fresh(model_name@),
    {
        Transcript {
            model_name,
            tool_call_buffer: String::new(),
            in_tool_call: false,
            tool_call_index: 0,
            content: String::new(),
        }
    }

    /// The chunks that come before any text.
    pub fn opening<M: ProtocolMapper>(&self) -> (r: Vec<MapperChunk>)
        ensures
            exists|model: &str|
                model@ == self@.model && #[trigger] call_ensures(M::initial_chunks, (model,), r),
    {
        let model: &str = self.model_name.as_str();
        let r = M::initial_chunks(model);
        assert(call_ensures(M::initial_chunks, (model,), r));
        r
    }

    /// Starts the reply: the chunks that come before any text, and those of the first frame.
    /// `None` where the protocol cannot number what the frame brings, and then nothing changes.
    pub fn begin<M: ProtocolMapper>(&mut self, first: Frame, last_error: Option<String>) -> (r:
        Option<Step>)
        ensures
            r is Some <==> admits::<M>(old(self)@, first, text_view(last_error)),
            r is None ==> final(self)@ == old(self)@,
            r matches Some(step) ==> {
                let there = after::<M>(old(self)@, first, text_view(last_error));
                &&& final(self)@ == there.transcript
                &&& step.next@ == there.next
                &&& exists|model: &str, opening: Vec<MapperChunk>|
                    model@ == old(self)@.model && #[trigger] call_ensures(
                        M::initial_chunks,
                        (model,),
                        opening,
                    ) && chunk_views(step.chunks@) == chunk_views(opening@) + there.frames
            },
    {
        let mut chunks: Vec<MapperChunk> = self.opening::<M>();
        let ghost opening = chunks;
        match self.take::<M>(first, last_error) {
            Some(step) => {
                let Step { chunks: mut more, next } = step;
                let ghost told = chunk_views(more@);
                chunks.append(&mut more);
                assert(chunk_views(chunks@) =~= chunk_views(opening@) + told);
                Some(Step { chunks, next })
            },
            None => None,
        }
    }

    /// Takes a piece of text; `None` where the protocol cannot number what it brings, and then
    /// nothing changes.
    pub fn take_delta<M: ProtocolMapper>(&mut self, delta: String) -> (r: Option<Step>)
        ensures
            r is Some <==> M::accepts(old(self)@.state, delta@, false),
            r is None ==> final(self)@ == old(self)@,
            r matches Some(step) ==> step_view(*final(self), step) == after_delta::<M>(
                old(self)@,
                delta@,
            ),
    {
        let said: String = delta.clone();
        match M::try_map_delta(
            self.model_name.as_str(),
            delta,
            false,
            &mut self.tool_call_buffer,
            &mut self.in_tool_call,
            &mut self.tool_call_index,
        ) {
            Some(Ok(chunks)) => {
                self.content.append(said.as_str());
                Some(Step { chunks, next: Next::Continue })
            },
            Some(Err(e)) => {
                self.content.append(said.as_str());
                let chunks: Vec<MapperChunk> = Vec::new();
                assert(chunk_views(chunks@) =~= Seq::empty());
                Some(Step { chunks, next: Next::Failed(e.message) })
            },
            None => None,
        }
    }

    fn restore(&mut self, buffer: String, in_call: bool, index: u32)
        ensures
            final(self)@ == (TranscriptView { state: state_of(buffer, in_call, index), ..old(self)@ }),
    {
        self.tool_call_buffer = buffer;
        self.in_tool_call = in_call;
        self.tool_call_index = index;
    }

    /// Tells the client of an error, as if the backend had said it; a tool call that is not
    /// complete is given up. `None` where the protocol cannot number what the error brings, and
    /// then nothing changes.
    pub fn tell_error<M: ProtocolMapper>(&mut self, error: String) -> (r: Option<Step>)
        ensures
            r is Some <==> can_tell::<M>(old(self)@.state, error@),
            r is None ==> final(self)@ == old(self)@,
            r matches Some(step) ==> step_view(*final(self), step) == after_error::<M>(
                old(self)@,
                error@,
            ),
    {
        let buffer: String = self.tool_call_buffer.clone();
        let in_call: bool = self.in_tool_call;
        let index: u32 = self.tool_call_index;
        let mut out: Vec<MapperChunk> = Vec::new();
        assert(chunk_views(out@) =~= Seq::empty());
        if in_call {
            match M::resume_chunks(index) {
                Some(chunks) => {
                    out = chunks;
                },
                None => {
                    return None;
                },
            }
            self.tool_call_buffer = String::new();
            self.in_tool_call = false;
        }
        let ghost resumed = chunk_views(out@);
        assert(self@ == (TranscriptView { state: abandoned(old(self)@.state), ..old(self)@ }));
        let told: String = error.clone();
        match M::try_map_delta(
            self.model_name.as_str(),
            told,
            false,
            &mut self.tool_call_buffer,
            &mut self.in_tool_call,
            &mut self.tool_call_index,
        ) {
            Some(Ok(mut chunks)) => {
                let ghost said = chunk_views(chunks@);
                out.append(&mut chunks);
                assert(chunk_views(out@) =~= resumed + said);
                assert(Seq::empty() + said =~= said);
                Some(Step { chunks: out, next: Next::Failed(error) })
            },
            Some(Err(_)) => {
                assert(resumed + Seq::empty() =~= resumed);
                Some(Step { chunks: out, next: Next::Failed(error) })
            },
            None => {
                self.restore(buffer, in_call, index);
                None
            },
        }
    }

    /// Ends the reply; `last_error` is the last error that the backend wrote.
    pub fn take_end<M: ProtocolMapper>(&mut self, last_error: Option<String>) -> (r: Option<Step>)
        ensures
            r is Some <==> admits::<M>(old(self)@, Frame::Ended, text_view(last_error)),
            r is None ==> final(self)@ == old(self)@,
            r matches Some(step) ==> step_view(*final(self), step) == after_end::<M>(
                old(self)@,
                text_view(last_error),
            ),
    {
        let buffer: String = self.tool_call_buffer.clone();
        let in_call: bool = self.in_tool_call;
        let index: u32 = self.tool_call_index;
        let mut out: Vec<MapperChunk> = Vec::new();
        assert(chunk_views(out@) =~= Seq::empty());
        if self.content.as_str().is_empty() {
            let error: String = match last_error {
                Some(raw) => raw,
                None => SILENT_BACKEND.to_owned(),
            };
            match self.tell_error::<M>(error) {
                Some(step) => {
                    out = step.chunks;
                },
                None => {
                    return None;
                },
            }
        }
        let ghost told = chunk_views(out@);
        match M::try_map_delta(
            self.model_name.as_str(),
            String::new(),
            true,
            &mut self.tool_call_buffer,
            &mut self.in_tool_call,
            &mut self.tool_call_index,
        ) {
            Some(Ok(mut chunks)) => {
                let ghost closing = chunk_views(chunks@);
                out.append(&mut chunks);
                assert(chunk_views(out@) =~= told + closing);
                Some(Step { chunks: out, next: Next::Finished })
            },
            Some(Err(e)) => {
                assert(told + Seq::empty() =~= told);
                Some(Step { chunks: out, next: Next::Failed(e.message) })
            },
            None => {
                self.restore(buffer, in_call, index);
                None
            },
        }
    }

    /// Takes the next frame of the backend's stream; `last_error` is the last error that the
    /// backend wrote. `None` where the protocol cannot number what the frame brings, and then
    /// nothing changes.
    pub fn take<M: ProtocolMapper>(&mut self, frame: Frame, last_error: Option<String>) -> (r:
        Option<Step>)
        ensures
            r is Some <==> admits::<M>(old(self)@, frame, text_view(last_error)),
            r is None ==> final(self)@ == old(self)@,
            r matches Some(step) ==> step_view(*final(self), step) == after::<M>(
                old(self)@,
                frame,
                text_view(last_error),
            ),
    {
        match frame {
            Frame::Delta(delta) => self.take_delta::<M>(delta),
            Frame::Failed(status) => {
                let error: String = status_message(&status);
                self.tell_error::<M>(error)
            },
            Frame::Ended => self.take_end::<M>(last_error),
        }
    }
}

// ---- Usage --------------------------------------------------------------------------------

/// The number of tokens that a text counts for: one for every four bytes, and at least one. The
/// count is kept in 32 bits.
pub open spec fn token_count(bytes: nat) -> nat {
    (if bytes / 4 > 1 {
        bytes / 4
    } else {
        1
    }) % 0x1_0000_0000
}

/// The number of tokens that a text counts for.
pub fn tokens(text: &str) -> (r: u32)
    ensures
        r == token_count(text.spec_bytes().len()),
{
    let quarter: usize = byte_len(text) / 4;
    let count: u64 = if quarter > 1 {
        quarter as u64
    } else {
        1
    };
    let r: u64 = count % 0x1_0000_0000;
    r as u32
}

/// What is known of a reply that was given up with `error`.
pub fn failed_metadata(prompt: &str, content: &str, error: String) -> (r: StreamMetadata)
    ensures
        r.input_tokens == token_count(prompt.spec_bytes().len()),
        r.output_tokens == token_count(content.spec_bytes().len()),
        r.error == Some(error),
{
    StreamMetadata {
        input_tokens: tokens(prompt),
        output_tokens: tokens(content),
        error: Some(error),
    }
}

/// What is known of a reply when it is complete.
pub fn stream_metadata(prompt: &str, content: &str) -> (r: StreamMetadata)
    ensures
        r.input_tokens == token_count(prompt.spec_bytes().len()),
        r.output_tokens == token_count(content.spec_bytes().len()),
        r.error is None,
{
    StreamMetadata { input_tokens: tokens(prompt), output_tokens: tokens(content), error: None }
}

/// What is recorded of the use of the backend.
#[derive(Debug)]
pub struct Usage {
    pub account: String,
    pub model: String,
    pub input_tokens: u32,
    pub output_tokens: u32,
}

/// What follows the end of a reply: what is known of it, and the usage to record, if any.
#[derive(Debug)]
pub struct Ending {
    pub metadata: StreamMetadata,
    pub usage: Option<Usage>,
}

/// The account under which usage is recorded.
pub open spec fn account_name(email: Option<String>) -> Seq<char> {
    match email {
        Some(e) => e@,
        None => "anonymous"@,
    }
}

/// Ends a reply to `prompt`, which is complete or was given up with an error: usage is recorded
/// for a complete one alone.
pub fn end_reply(
    prompt: &str,
    transcript: &Transcript,
    email: Option<String>,
    outcome: Result<(), String>,
) -> (r: Ending)
    ensures
        r.metadata.input_tokens == token_count(encode_utf8(prompt@).len()),
        r.metadata.output_tokens == token_count(encode_utf8(transcript.content@).len()),
        outcome is Ok ==> r.metadata.error is None,
        outcome matches Err(e) ==> r.metadata.error == Some(e),
        r.usage is Some <==> outcome is Ok,
        r.usage matches Some(u) ==> {
            &&& u.account@ == account_name(email)
            &&& email matches Some(e) ==> u.account == e
            &&& email is None ==> u.account@ == "anonymous"@
            &&& u.model == transcript.model_name
            &&& u.input_tokens == r.metadata.input_tokens
            &&& u.output_tokens == r.metadata.output_tokens
        },
{
    let content: &str = transcript.content.as_str();
    match outcome {
        Ok(_) => {
            let metadata = stream_metadata(prompt, content);
            let usage = Usage {
                account: usage_account(email),
                model: transcript.model_name.clone(),
                input_tokens: metadata.input_tokens,
                output_tokens: metadata.output_tokens,
            };
            Ending { metadata, usage: Some(usage) }
        },
        Err(e) => Ending { metadata: failed_metadata(prompt, content, e), usage: None },
    }
}

// ---- Laws ---------------------------------------------------------------------------------

/// An error denies permission exactly where it holds one of two phrases. The error to report is the
/// one that came, unless the last one that the backend wrote denies permission; it denies it where
/// its words do.
pub proof fn law_error_to_report(error: String, last_error: Option<String>)
    ensures
        denies_permission(error@) <==> has_text(error@, "PERMISSION_DENIED"@) || has_text(
            error@,
            "Verify your account"@,
        ),
        last_error is None ==> surfaced(error, last_error) == error,
        last_error matches Some(raw) ==> surfaced(error, last_error) == if has_text(
            raw@,
            "PERMISSION_DENIED"@,
        ) || has_text(raw@, "Verify your account"@) {
            raw
        } else {
            error
        },
        refusal_of(error).message == error,
        refusal_of(error).denied <==> has_text(error@, "PERMISSION_DENIED"@) || has_text(
            error@,
            "Verify your account"@,
        ),
{
}

/// A first frame of text refuses nothing, one with a status does where its code is that of a denied
/// permission, and the end of the stream does where the last error that the backend wrote denies
/// permission.
pub proof fn law_first_frame(
    delta: String,
    status: GrpcStatus,
    raw: String,
    last_error: Option<String>,
)
    ensures
        refused_at_first(Frame::Delta(delta), last_error) is None,
        refused_at_first(Frame::Failed(status), last_error) == if status.code == 7 {
            Some(Refusal { message: status.message, denied: true })
        } else {
            None
        },
        refused_at_first(Frame::Ended, None) is None,
        refused_at_first(Frame::Ended, Some(raw)) == if has_text(raw@, "PERMISSION_DENIED"@)
            || has_text(raw@, "Verify your account"@) {
            Some(Refusal { message: raw, denied: true })
        } else {
            None
        },
{
}

/// A reply starts with nothing said, outside a tool call, and with no call made.
pub proof fn law_fresh(model: Seq<char>)
    ensures
        fresh(model).model == model,
        fresh(model).content.len() == 0,
        fresh(model).state == (MapState { buffer: Seq::empty(), in_call: false, index: 0 }),
{
}

/// A piece of text is kept, and the client gets what the protocol makes of it; where the protocol
/// gives up, so does the reply.
pub proof fn law_text_is_kept<M: ProtocolMapper>(
    t: TranscriptView,
    delta: String,
    last_error: Option<Seq<char>>,
)
    ensures
        ({
            let m = M::mapped(t.model, t.state, delta@, false);
            let step = after::<M>(t, Frame::Delta(delta), last_error);
            &&& step.transcript == (TranscriptView {
                model: t.model,
                state: m.state,
                content: t.content + delta@,
            })
            &&& m.frames matches Ok(frames) ==> step.frames == frames && step.next
                == NextView::Continue
            &&& m.frames matches Err(e) ==> step.frames.len() == 0 && step.next
                == NextView::Failed(e)
        }),
        admits::<M>(t, Frame::Delta(delta), last_error) <==> M::accepts(t.state, delta@, false),
        after_delta::<M>(t, delta@) == after::<M>(t, Frame::Delta(delta), last_error),
{
}

/// A status that ends the stream is told to the client in words, and the reply is given up with
/// the same words. A tool call that is not complete is given up first; nothing is kept as said.
pub proof fn law_failure_is_told<M: ProtocolMapper>(
    t: TranscriptView,
    status: GrpcStatus,
    last_error: Option<Seq<char>>,
)
    ensures
        ({
            let error = "gRPC 错误 ["@ + code_meaning(status.code) + "]: "@ + status.message@;
            let outside = MapState {
                buffer: if t.state.in_call {
                    Seq::empty()
                } else {
                    t.state.buffer
                },
                in_call: false,
                index: t.state.index,
            };
            let m = M::mapped(t.model, outside, error, false);
            let step = after::<M>(t, Frame::Failed(status), last_error);
            let told = match m.frames {
                Ok(frames) => frames,
                Err(_) => Seq::empty(),
            };
            &&& step.next == NextView::Failed(error)
            &&& step.transcript == (TranscriptView {
                model: t.model,
                state: m.state,
                content: t.content,
            })
            &&& step.frames == if t.state.in_call {
                M::resumed(t.state.index) + told
            } else {
                told
            }
            &&& step == after_error::<M>(t, error)
            &&& admits::<M>(t, Frame::Failed(status), last_error) <==> (t.state.in_call
                ==> M::can_resume(t.state.index)) && M::accepts(outside, error, false)
        }),
{
}

/// At the end of a stream that said something the client gets the frames that end the message.
pub proof fn law_end<M: ProtocolMapper>(t: TranscriptView, last_error: Option<Seq<char>>)
    requires
        t.content.len() > 0,
    ensures
        ({
            let m = M::mapped(t.model, t.state, Seq::empty(), true);
            let step = after::<M>(t, Frame::Ended, last_error);
            &&& step.transcript == (TranscriptView { state: m.state, ..t })
            &&& m.frames matches Ok(frames) ==> step.frames == frames && step.next
                == NextView::Finished
            &&& m.frames matches Err(e) ==> step.frames.len() == 0 && step.next
                == NextView::Failed(e)
        }),
        admits::<M>(t, Frame::Ended, last_error) <==> M::accepts(t.state, Seq::empty(), true),
        after_end::<M>(t, last_error) == after::<M>(t, Frame::Ended, last_error),
{
    let m = M::mapped(t.model, t.state, Seq::empty(), true);
    assert(Seq::<ChunkView>::empty() + frames_or_none(m.frames) =~= frames_or_none(m.frames));
}

/// An error is told to the client as if the backend had said it, and the reply is given up with it.
/// A tool call that is not complete is given up first; nothing is kept as said.
pub proof fn law_error_step<M: ProtocolMapper>(t: TranscriptView, error: Seq<char>, outside: MapState)
    requires
        !outside.in_call,
        outside.index == t.state.index,
        t.state.in_call ==> outside.buffer == Seq::<char>::empty(),
        !t.state.in_call ==> outside.buffer == t.state.buffer,
    ensures
        ({
            let m = M::mapped(t.model, outside, error, false);
            let step = after_error::<M>(t, error);
            let told = match m.frames {
                Ok(frames) => frames,
                Err(_) => Seq::empty(),
            };
            &&& step.next == NextView::Failed(error)
            &&& step.transcript == (TranscriptView { state: m.state, ..t })
            &&& step.frames == if t.state.in_call {
                M::resumed(t.state.index) + told
            } else {
                told
            }
        }),
        can_tell::<M>(t.state, error) <==> (t.state.in_call ==> M::can_resume(t.state.index))
            && M::accepts(outside, error, false),
{
    assert(abandoned(t.state) == outside);
}

/// At the end of a stream that said nothing the client is told the last error that the backend
/// wrote, or that there is none, and gets the frames that end the message behind it.
pub proof fn law_silent_end<M: ProtocolMapper>(
    t: TranscriptView,
    last_error: Option<Seq<char>>,
    error: Seq<char>,
    outside: MapState,
)
    requires
        t.content.len() == 0,
        !outside.in_call,
        outside.index == t.state.index,
        t.state.in_call ==> outside.buffer == Seq::<char>::empty(),
        !t.state.in_call ==> outside.buffer == t.state.buffer,
        last_error is None ==> error
            == "内核返回内容为空，且未抓取到具体报错。请检查账号状态。"@,
        last_error matches Some(raw) ==> error == raw,
    ensures
        ({
            let first = M::mapped(t.model, outside, error, false);
            let m = M::mapped(t.model, first.state, Seq::empty(), true);
            let step = after::<M>(t, Frame::Ended, last_error);
            let said = match first.frames {
                Ok(frames) => frames,
                Err(_) => Seq::empty(),
            };
            let told = if t.state.in_call {
                M::resumed(t.state.index) + said
            } else {
                said
            };
            &&& step.transcript == (TranscriptView { state: m.state, ..t })
            &&& m.frames matches Ok(frames) ==> step.frames == told + frames && step.next
                == NextView::Finished
            &&& m.frames matches Err(e) ==> step.frames == told && step.next == NextView::Failed(e)
            &&& after_end::<M>(t, last_error) == step
            &&& admits::<M>(t, Frame::Ended, last_error) <==> (t.state.in_call ==> M::can_resume(
                t.state.index,
            )) && M::accepts(outside, error, false) && M::accepts(first.state, Seq::empty(), true)
        }),
{
    law_error_step::<M>(t, error, outside);
    let told = after_error::<M>(t, error).frames;
    assert(told + Seq::<ChunkView>::empty() =~= told);
}

/// Nothing of a transcript or a step is lost in what it says.
pub proof fn law_step_views(t: Transcript, step: Step, e: String)
    ensures
        t@.model == t.model_name@,
        t@.content == t.content@,
        t@.state.buffer == t.tool_call_buffer@,
        t@.state.in_call == t.in_tool_call,
        t@.state.index == t.tool_call_index,
        Next::Continue@ == NextView::Continue,
        Next::Finished@ == NextView::Finished,
        Next::Failed(e)@ == NextView::Failed(e@),
        step_view(t, step).transcript == t@,
        step_view(t, step).frames == chunk_views(step.chunks@),
        step_view(t, step).next == step.next@,
{
}

/// A text counts for as many tokens as it has whole fours of bytes, and for one where it has none.
/// The count is kept in 32 bits.
pub proof fn law_tokens(bytes: nat, fours: nat, left: nat)
    requires
        bytes == 4 * fours + left,
        left < 4,
    ensures
        fours == 0 ==> token_count(bytes) == 1,
        0 < fours <= u32::MAX ==> token_count(bytes) == fours,
        fours > u32::MAX ==> token_count(bytes) == fours % 0x1_0000_0000,
{
    assert(bytes / 4 == fours);
}

} // verus!
