//! What a protocol mapper is: how requests of one chat protocol become prompts, and how the
//! backend's text becomes the frames of that protocol.
use crate::json::{Json, JsonTree};
use vstd::prelude::*;

verus! {

/// One frame of a streamed reply.
#[derive(Debug, Clone)]
pub struct MapperChunk {
    pub event: Option<String>,
    pub data: String,
}

/// What a frame says.
pub struct ChunkView {
    pub event: Option<Seq<char>>,
    pub data: Seq<char>,
}

impl View for MapperChunk {
    type V = ChunkView;

    open spec fn view(&self) -> ChunkView {
        ChunkView {
            event: match self.event {
                Some(e) => Some(e@),
                None => None,
            },
            data: self.data@,
        }
    }
}

/// What a list of frames says.
pub open spec fn chunk_views(chunks: Seq<MapperChunk>) -> Seq<ChunkView> {
    chunks.map_values(|c: MapperChunk| c@)
}

/// What is known of a stream when it has ended.
#[derive(Debug, Clone)]
pub struct StreamMetadata {
    pub input_tokens: u32,
    pub output_tokens: u32,
    pub error: Option<String>,
}

impl Default for StreamMetadata {
    fn default() -> (r: Self)
        ensures
            r.input_tokens == 0,
            r.output_tokens == 0,
            r.error is None,
    {
        StreamMetadata { input_tokens: 0, output_tokens: 0, error: None }
    }
}

/// Why a mapper gave up.
#[derive(Debug, Clone)]
pub struct MapperError {
    pub message: String,
}

/// A tool as the prompt describes it, whatever protocol named it.
#[derive(Debug)]
pub struct UnifiedToolDefinition {
    pub name: String,
    pub description: Option<String>,
    pub parameters: Json,
}

/// What a tool definition says.
pub struct ToolView {
    pub name: Seq<char>,
    pub description: Option<Seq<char>>,
    pub parameters: JsonTree,
}

/// The view of an optional text.
pub open spec fn text_view(t: Option<String>) -> Option<Seq<char>> {
    match t {
        Some(s) => Some(s@),
        None => None,
    }
}

impl View for UnifiedToolDefinition {
    type V = ToolView;

    open spec fn view(&self) -> ToolView {
        ToolView {
            name: self.name@,
            description: text_view(self.description),
            parameters: self.parameters@,
        }
    }
}

/// Where a mapper stands in the backend's text: the part of a tool call that has come so far,
/// whether it is within one, and how many it has passed on.
pub struct MapState {
    pub buffer: Seq<char>,
    pub in_call: bool,
    pub index: nat,
}

/// The state that the three variables of a mapper hold.
pub open spec fn state_of(buffer: String, in_call: bool, index: u32) -> MapState {
    MapState { buffer: buffer@, in_call, index: index as nat }
}

/// What a mapper makes of a piece of text.
pub struct Mapped {
    pub state: MapState,
    pub frames: Result<Seq<ChunkView>, Seq<char>>,
}

/// What a mapper's answer says.
pub open spec fn frames_view(r: Result<Vec<MapperChunk>, MapperError>) -> Result<
    Seq<ChunkView>,
    Seq<char>,
> {
    match r {
        Ok(chunks) => Ok(chunk_views(chunks@)),
        Err(e) => Err(e.message@),
    }
}

/// A chat protocol, seen from the backend.
pub trait ProtocolMapper {
    /// A request of the protocol.
    type Request;

    spec fn protocol() -> Seq<char>;

    spec fn model_of(req: Self::Request) -> Seq<char>;

    spec fn tools_of(req: Self::Request) -> Option<Seq<ToolView>>;

    spec fn prompt_of(req: Self::Request, tool_prompt: Seq<char>) -> Result<Seq<char>, Seq<char>>;

    /// The protocol can number what `delta` brings.
    spec fn accepts(state: MapState, delta: Seq<char>, is_final: bool) -> bool;

    spec fn mapped(model: Seq<char>, state: MapState, delta: Seq<char>, is_final: bool) -> Mapped;

    /// The protocol can number the block in which text goes on after `index` tool calls.
    spec fn can_resume(index: nat) -> bool;

    /// The frames with which text goes on where a tool call is given up after `index` others.
    spec fn resumed(index: nat) -> Seq<ChunkView>;

    /// The name of the protocol.
    fn get_protocol() -> (r: String)
        ensures
            r@ == Self::protocol(),
    ;

    /// The model that a request names.
    fn get_model(req: &Self::Request) -> (r: &str)
        ensures
            r@ == Self::model_of(*req),
    ;

    /// The tools that a request offers, `None` where it does not speak of tools.
    fn tool_definitions(req: &Self::Request) -> (r: Option<Vec<UnifiedToolDefinition>>)
        ensures
            r is Some <==> Self::tools_of(*req) is Some,
            r matches Some(tools) ==> Self::tools_of(*req) == Some(
                tools@.map_values(|t: UnifiedToolDefinition| t@),
            ),
    ;

    /// The prompt for the backend; `tool_prompt` describes the tools that the request offers.
    fn build_prompt(req: &Self::Request, tool_prompt: &str) -> (r: Result<String, MapperError>)
        ensures
            r is Ok <==> Self::prompt_of(*req, tool_prompt@) is Ok,
            r matches Ok(p) ==> Self::prompt_of(*req, tool_prompt@) == Ok::<Seq<char>, Seq<char>>(
                p@,
            ),
            r matches Err(e) ==> Self::prompt_of(*req, tool_prompt@) == Err::<
                Seq<char>,
                Seq<char>,
            >(e.message@),
    ;

    /// The frames for a piece of the backend's text, or for its end.
    fn map_delta(
        model: &str,
        delta: String,
        is_final: bool,
        tool_call_buffer: &mut String,
        in_tool_call: &mut bool,
        tool_call_index: &mut u32,
    ) -> (r: Result<Vec<MapperChunk>, MapperError>)
        requires
            Self::accepts(
                state_of(*old(tool_call_buffer), *old(in_tool_call), *old(tool_call_index)),
                delta@,
                is_final,
            ),
        ensures
            Self::mapped(
                model@,
                state_of(*old(tool_call_buffer), *old(in_tool_call), *old(tool_call_index)),
                delta@,
                is_final,
            ) == (Mapped {
                state: state_of(
                    *final(tool_call_buffer),
                    *final(in_tool_call),
                    *final(tool_call_index),
                ),
                frames: frames_view(r),
            }),
    ;

    /// The same where the protocol can number what comes, and `None` where it cannot; then
    /// nothing changes.
    fn try_map_delta(
        model: &str,
        delta: String,
        is_final: bool,
        tool_call_buffer: &mut String,
        in_tool_call: &mut bool,
        tool_call_index: &mut u32,
    ) -> (r: Option<Result<Vec<MapperChunk>, MapperError>>)
        ensures
            r is Some <==> Self::accepts(
                state_of(*old(tool_call_buffer), *old(in_tool_call), *old(tool_call_index)),
                delta@,
                is_final,
            ),
            r is None ==> state_of(
                *final(tool_call_buffer),
                *final(in_tool_call),
                *final(tool_call_index),
            ) == state_of(*old(tool_call_buffer), *old(in_tool_call), *old(tool_call_index)),
            r matches Some(frames) ==> Self::mapped(
                model@,
                state_of(*old(tool_call_buffer), *old(in_tool_call), *old(tool_call_index)),
                delta@,
                is_final,
            ) == (Mapped {
                state: state_of(
                    *final(tool_call_buffer),
                    *final(in_tool_call),
                    *final(tool_call_index),
                ),
                frames: frames_view(frames),
            }),
    ;

    /// The frames with which text goes on where a tool call is given up after `tool_call_index`
    /// others; `None` where the protocol cannot number what comes.
    fn resume_chunks(tool_call_index: u32) -> (r: Option<Vec<MapperChunk>>)
        ensures
            r is Some <==> Self::can_resume(tool_call_index as nat),
            r matches Some(chunks) ==> chunk_views(chunks@) == Self::resumed(
                tool_call_index as nat,
            ),
    ;

    /// The frames that come before any text.
    fn initial_chunks(model_name: &str) -> (r: Vec<MapperChunk>)
        default_ensures
            r@.len() == 0,
    {
        Vec::new()
    }

    /// The working directory that a request speaks of.
    fn extract_workspace(req: &Self::Request) -> (r: Option<String>)
        default_ensures
            r is None,
    {
        None
    }
}

/// Nothing of a frame, a tool or a state is lost in what it says.
pub proof fn law_views(
    chunks: Seq<MapperChunk>,
    i: int,
    tool: UnifiedToolDefinition,
    buffer: String,
    in_call: bool,
    index: u32,
    text: Option<String>,
)
    ensures
        chunk_views(chunks).len() == chunks.len(),
        0 <= i < chunks.len() ==> {
            let said = chunk_views(chunks)[i];
            &&& said.data == chunks[i].data@
            &&& chunks[i].event is None <==> said.event is None
            &&& chunks[i].event matches Some(e) ==> said.event == Some(e@)
        },
        tool@.name == tool.name@,
        tool.description is None <==> tool@.description is None,
        tool.description matches Some(d) ==> tool@.description == Some(d@),
        tool@.parameters == tool.parameters@,
        state_of(buffer, in_call, index).buffer == buffer@,
        state_of(buffer, in_call, index).in_call == in_call,
        state_of(buffer, in_call, index).index == index,
        text is None <==> text_view(text) is None,
        text matches Some(t) ==> text_view(text) == Some(t@),
{
}

/// What a mapper answers says its frames, or why it gave up.
pub proof fn law_answer(chunks: Vec<MapperChunk>, e: MapperError)
    ensures
        frames_view(Ok(chunks)) == Ok::<Seq<ChunkView>, Seq<char>>(chunk_views(chunks@)),
        frames_view(Err(e)) == Err::<Seq<ChunkView>, Seq<char>>(e.message@),
{
}

} // verus!
