//! The Anthropic Messages protocol.
use crate::delta::{
    deltas, final_chunks, final_frames, fits, initial_frames, map_text, start_chunks,
    text_start_chunk, text_start_frame,
};
use crate::json::{Json, JsonTree};
use crate::mapper::{
    chunk_views, text_view, ChunkView, MapState, Mapped, MapperChunk, MapperError, ProtocolMapper, ToolView,
    UnifiedToolDefinition,
};
use crate::prompt::{prompt, prompt_text, system_tree};
use crate::text::lines_of;
use crate::workspace::{directory_in_text, first_directory, system_lines, system_text};
use vstd::prelude::*;
use vstd::string::*;

verus! {

/// One message of a conversation; its content is a text or an array of blocks.
#[derive(Debug)]
pub struct AnthropicMessage {
    pub role: String,
    pub content: Json,
}

/// A tool that a request offers.
#[derive(Debug)]
pub struct AnthropicTool {
    pub name: String,
    pub description: Option<String>,
    pub input_schema: Option<Json>,
}

/// A request of the Messages protocol.
#[derive(Debug)]
pub struct AnthropicMessageRequest {
    pub model: String,
    pub messages: Vec<AnthropicMessage>,
    pub system: Option<Json>,
    pub tools: Option<Vec<AnthropicTool>>,
    pub stream: bool,
}

/// The parameters of a tool, an empty object where the request gives none.
pub open spec fn parameters_of(tool: AnthropicTool) -> JsonTree {
    match tool.input_schema {
        Some(schema) => schema@,
        None => JsonTree::Object(Map::empty()),
    }
}

/// A tool of a request as the prompt describes it.
pub open spec fn tool_view(tool: AnthropicTool) -> ToolView {
    ToolView {
        name: tool.name@,
        description: text_view(tool.description),
        parameters: parameters_of(tool),
    }
}

fn unified_tool(tool: &AnthropicTool) -> (r: UnifiedToolDefinition)
    ensures
        r@ == tool_view(*tool),
{
    UnifiedToolDefinition {
        name: tool.name.clone(),
        description: match &tool.description {
            Some(d) => Some(d.clone()),
            None => None,
        },
        parameters: match &tool.input_schema {
            Some(schema) => schema.clone(),
            None => Json::Object(Vec::new()),
        },
    }
}

/// The Anthropic Messages protocol.
pub struct AnthropicMapper;

impl ProtocolMapper for AnthropicMapper {
    type Request = AnthropicMessageRequest;

    open spec fn protocol() -> Seq<char> {
        "anthropic"@
    }

    open spec fn model_of(req: AnthropicMessageRequest) -> Seq<char> {
        req.model@
    }

    open spec fn tools_of(req: AnthropicMessageRequest) -> Option<Seq<ToolView>> {
        match req.tools {
            Some(tools) => Some(tools@.map_values(|t: AnthropicTool| tool_view(t))),
            None => None,
        }
    }

    open spec fn prompt_of(req: AnthropicMessageRequest, tool_prompt: Seq<char>) -> Result<
        Seq<char>,
        Seq<char>,
    > {
        Ok(prompt_text(req, tool_prompt))
    }

    open spec fn accepts(state: MapState, delta: Seq<char>, is_final: bool) -> bool {
        if is_final {
            2 * state.index <= u32::MAX
        } else {
            fits(state, delta)
        }
    }

    open spec fn mapped(model: Seq<char>, state: MapState, delta: Seq<char>, is_final: bool) -> Mapped {
        if is_final {
            Mapped { state, frames: Ok(final_frames(state.index)) }
        } else {
            Mapped { state: deltas(state, delta).0, frames: Ok(deltas(state, delta).1) }
        }
    }

    open spec fn can_resume(index: nat) -> bool {
        2 * index <= u32::MAX
    }

    open spec fn resumed(index: nat) -> Seq<ChunkView> {
        seq![text_start_frame(2 * index)]
    }

    fn get_protocol() -> String {
        "anthropic".to_owned()
    }

    fn get_model(req: &AnthropicMessageRequest) -> &str {
        req.model.as_str()
    }

    fn tool_definitions(req: &AnthropicMessageRequest) -> Option<Vec<UnifiedToolDefinition>> {
        match &req.tools {
            Some(tools) => {
                let mut out: Vec<UnifiedToolDefinition> = Vec::new();
                let mut i: usize = 0;
                while i < tools.len()
                    invariant
                        i <= tools@.len(),
                        out@.len() == i,
                        forall|k: int| 0 <= k < i ==> (#[trigger] out@[k])@ == tool_view(tools@[k]),
                    decreases tools@.len() - i,
                {
                    out.push(unified_tool(&tools[i]));
                    i += 1;
                }
                assert(out@.map_values(|t: UnifiedToolDefinition| t@) =~= tools@.map_values(
                    |t: AnthropicTool| tool_view(t),
                ));
                Some(out)
            },
            None => None,
        }
    }

    fn build_prompt(req: &AnthropicMessageRequest, tool_prompt: &str) -> Result<
        String,
        MapperError,
    > {
        Ok(prompt(req, tool_prompt))
    }

    fn map_delta(
        model: &str,
        delta: String,
        is_final: bool,
        tool_call_buffer: &mut String,
        in_tool_call: &mut bool,
        tool_call_index: &mut u32,
    ) -> Result<Vec<MapperChunk>, MapperError> {
        if is_final {
            return Ok(final_chunks(*tool_call_index));
        }
        Ok(map_text(delta.as_str(), tool_call_buffer, in_tool_call, tool_call_index).unwrap())
    }

    fn try_map_delta(
        model: &str,
        delta: String,
        is_final: bool,
        tool_call_buffer: &mut String,
        in_tool_call: &mut bool,
        tool_call_index: &mut u32,
    ) -> Option<Result<Vec<MapperChunk>, MapperError>> {
        if is_final {
            if *tool_call_index > u32::MAX / 2 {
                return None;
            }
            return Some(Ok(final_chunks(*tool_call_index)));
        }
        match map_text(delta.as_str(), tool_call_buffer, in_tool_call, tool_call_index) {
            Some(chunks) => Some(Ok(chunks)),
            None => None,
        }
    }

    fn resume_chunks(tool_call_index: u32) -> Option<Vec<MapperChunk>> {
        if tool_call_index > u32::MAX / 2 {
            return None;
        }
        let mut out: Vec<MapperChunk> = Vec::new();
        out.push(text_start_chunk(tool_call_index * 2));
        assert(chunk_views(out@) =~= Self::resumed(tool_call_index as nat));
        Some(out)
    }

    fn initial_chunks(model_name: &str) -> (r: Vec<MapperChunk>)
        ensures
            chunk_views(r@) == initial_frames(model_name@),
    {
        start_chunks(model_name)
    }

    fn extract_workspace(req: &AnthropicMessageRequest) -> (r: Option<String>)
        ensures
            r is Some <==> workspace_of(*req) is Some,
            r matches Some(path) ==> workspace_of(*req) == Some(path@),
    {
        match system_text(&req.system) {
            Some(text) => directory_in_text(text.as_str()),
            None => None,
        }
    }
}

/// The working directory that a request speaks of.
pub open spec fn workspace_of(req: AnthropicMessageRequest) -> Option<Seq<char>> {
    match system_lines(system_tree(req.system)) {
        Some(text) => first_directory(lines_of(text)),
        None => None,
    }
}

/// The working directory of a request is the one that the lines of its system text name.
pub proof fn law_workspace(req: AnthropicMessageRequest)
    ensures
        req.system is None ==> workspace_of(req) is None,
        req.system matches Some(s) ==> workspace_of(req) == (match system_lines(Some(s@)) {
            Some(text) => first_directory(lines_of(text)),
            None => None,
        }),
{
}

} // verus!
