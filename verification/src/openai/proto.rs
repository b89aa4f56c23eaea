//! The chat-completions wire protocol, as plain data: the chunk types the
//! service streams back, the request types sent to it, and the conversion
//! from a model request. The host serializes these to JSON and back; the
//! shapes and the conversion logic live here.

use vstd::prelude::*;

use crate::model::{MessageView, ModelMessage, ModelRequest, ModelTool};
use crate::openai::config::OpenAIConfig;

verus! {

// ------------------------------
// Types received from the server
// ------------------------------

/// A fragment of a function call, possibly split over several chunks.
#[derive(Debug, PartialEq, Eq)]
pub struct FunctionToolCall {
    /// A fragment of the tool name.
    pub name: Option<String>,
    /// A fragment of the argument text.
    pub arguments: Option<String>,
}

/// Mathematical view of a [`FunctionToolCall`].
#[verifier::ext_equal]
pub struct FunctionToolCallView {
    pub name: Option<Seq<char>>,
    pub arguments: Option<Seq<char>>,
}

impl View for FunctionToolCall {
    type V = FunctionToolCallView;

    open spec fn view(&self) -> FunctionToolCallView {
        FunctionToolCallView { name: self.name.deep_view(), arguments: self.arguments.deep_view() }
    }
}

impl DeepView for FunctionToolCall {
    type V = FunctionToolCallView;

    open spec fn deep_view(&self) -> FunctionToolCallView {
        self.view()
    }
}

impl Clone for FunctionToolCall {
    fn clone(&self) -> (r: Self)
        ensures
            r == *self,
    {
        FunctionToolCall { name: clone_opt_string(&self.name), arguments: clone_opt_string(&self.arguments) }
    }
}

/// A tool call fragment of a streamed chunk. The wire field `type` is
/// carried here as `call_type`.
#[derive(Debug, PartialEq, Eq)]
pub struct ToolCall {
    /// Which call of the turn this fragment patches.
    pub index: Option<u32>,
    /// A fragment of the call id.
    pub id: Option<String>,
    /// A fragment of the wire `type` field.
    pub call_type: Option<String>,
    /// A fragment of the function call.
    pub function: Option<FunctionToolCall>,
}

/// Mathematical view of a [`ToolCall`].
#[verifier::ext_equal]
pub struct ToolCallView {
    pub index: Option<u32>,
    pub id: Option<Seq<char>>,
    pub call_type: Option<Seq<char>>,
    pub function: Option<FunctionToolCallView>,
}

impl View for ToolCall {
    type V = ToolCallView;

    open spec fn view(&self) -> ToolCallView {
        ToolCallView {
            index: self.index,
            id: self.id.deep_view(),
            call_type: self.call_type.deep_view(),
            function: match &self.function {
                Some(f) => Some(f@),
                None => None,
            },
        }
    }
}

impl DeepView for ToolCall {
    type V = ToolCallView;

    open spec fn deep_view(&self) -> ToolCallView {
        self.view()
    }
}

impl Clone for ToolCall {
    fn clone(&self) -> (r: Self)
        ensures
            r == *self,
    {
        ToolCall {
            index: self.index,
            id: clone_opt_string(&self.id),
            call_type: clone_opt_string(&self.call_type),
            function: match &self.function {
                Some(f) => Some(f.clone()),
                None => None,
            },
        }
    }
}

/// Copies an optional string.
fn clone_opt_string(s: &Option<String>) -> (r: Option<String>)
    ensures
        r == *s,
{
    match s {
        Some(x) => Some(x.clone()),
        None => None,
    }
}

/// One streamed chunk of a chat completion.
#[derive(Debug, PartialEq, Eq)]
pub struct ChatCompletionChunk {
    /// The id of the completion every chunk must repeat.
    pub id: String,
    /// The choices of the chunk.
    pub choices: Vec<Choice>,
}

/// One choice of a streamed chunk.
#[derive(Debug, PartialEq, Eq)]
pub struct Choice {
    /// The incremental payload.
    pub delta: Delta,
    /// The finish reason, on the closing chunk.
    pub finish_reason: Option<String>,
}

/// The incremental payload of a chunk.
#[derive(Debug, PartialEq, Eq)]
pub struct Delta {
    /// A fragment of assistant text.
    pub content: Option<String>,
    /// Tool call fragments.
    pub tool_calls: Option<Vec<ToolCall>>,
    /// A fragment of reasoning text.
    pub reasoning_content: Option<String>,
}

// ------------------------
// Types sent to the server
// ------------------------

/// A tool offered to the model.
#[derive(Debug, PartialEq, Eq)]
pub struct FunctionTool {
    /// Name of the tool.
    pub name: String,
    /// Description of the tool.
    pub description: String,
    /// The JSON schema of the tool's input, as raw JSON text.
    pub parameters: String,
}

/// A tool entry of a request; the wire field `type` is carried as
/// `tool_type` and always holds `function`.
#[derive(Debug, PartialEq, Eq)]
pub struct Tool {
    /// The wire `type` field.
    pub tool_type: String,
    /// The function description.
    pub function: FunctionTool,
}

/// A request message. An assistant message may carry the tool calls and
/// reasoning text of the turn it records.
#[derive(Debug, PartialEq, Eq)]
pub enum Message {
    System { content: String },
    User { content: String },
    Assistant {
        content: Option<String>,
        tool_calls: Option<Vec<ToolCall>>,
        reasoning_content: Option<String>,
    },
    Tool { tool_call_id: String, content: String },
}

impl Clone for Message {
    fn clone(&self) -> (r: Self) {
        match self {
            Message::System { content } => Message::System { content: content.clone() },
            Message::User { content } => Message::User { content: content.clone() },
            Message::Assistant { content, tool_calls, reasoning_content } => {
                let calls: Option<Vec<ToolCall>> = match tool_calls {
                    Some(cs) => {
                        let mut out: Vec<ToolCall> = Vec::new();
                        let mut i: usize = 0;
                        while i < cs.len()
                            invariant
                                i <= cs.len(),
                                out@.len() == i,
                                forall|j: int| 0 <= j < i ==> #[trigger] out@[j] == cs@[j],
                            decreases cs.len() - i,
                        {
                            out.push(cs[i].clone());
                            i = i + 1;
                        }
                        Some(out)
                    },
                    None => None,
                };
                Message::Assistant {
                    content: clone_opt_string(content),
                    tool_calls: calls,
                    reasoning_content: clone_opt_string(reasoning_content),
                }
            },
            Message::Tool { tool_call_id, content } => Message::Tool {
                tool_call_id: tool_call_id.clone(),
                content: content.clone(),
            },
        }
    }
}

/// A chat-completions request, always streamed.
#[derive(Debug, PartialEq, Eq)]
pub struct ChatCompletionRequest {
    /// The model asked for.
    pub model: String,
    /// The conversation, oldest message first.
    pub messages: Vec<Message>,
    /// The tools offered to the model.
    pub tools: Vec<Tool>,
    /// Stream options; always asks for usage.
    pub stream_options: Option<StreamOptions>,
    /// Whether to stream; always true.
    pub stream: bool,
}

/// Options of a streamed request.
#[derive(Debug, PartialEq, Eq)]
pub struct StreamOptions {
    /// Whether usage is reported with the stream.
    pub include_usage: bool,
}

// -----------
// Conversions
// -----------

/// Whether the request message faithfully renders the model message: a
/// one-to-one rendering for the plain variants. An opaque message carries
/// the provider's own request message, which the mathematical view of the
/// conversation does not see into; any message is an acceptable rendering
/// of it (the provider stored it, and gets it back by downcast, or an
/// empty assistant message when the payload is foreign).
pub open spec fn renders_message(m: MessageView, r: Message) -> bool {
    match m {
        MessageView::System(c) => r matches Message::System { content } && content@ == c,
        MessageView::User(c) => r matches Message::User { content } && content@ == c,
        MessageView::Assistant(c) => r matches Message::Assistant {
            content: Some(content),
            tool_calls: None,
            reasoning_content: None,
        } && content@ == c,
        MessageView::Tool(t) => r matches Message::Tool { tool_call_id, content }
            && tool_call_id@ == t.id && content@ == t.content,
        MessageView::Opaque(_) => true,
    }
}

/// Converts one conversation message to a request message. An opaque
/// message is unwrapped to the request message the provider stored in it,
/// or downgraded to an empty assistant message when its payload is not one
/// of this provider's.
pub fn create_message(msg: &ModelMessage) -> (r: Message)
    ensures
        renders_message(msg@, r),
{
    match msg {
        ModelMessage::System(content) => Message::System { content: content.clone() },
        ModelMessage::User(content) => Message::User { content: content.clone() },
        ModelMessage::Assistant(content) => Message::Assistant {
            content: Some(content.clone()),
            tool_calls: None,
            reasoning_content: None,
        },
        ModelMessage::Tool(result) => Message::Tool {
            tool_call_id: result.id.clone(),
            content: result.content.clone(),
        },
        ModelMessage::Opaque(opaque_message) => {
            match opaque_message.to_raw::<Message>() {
                Some(m) => m.clone(),
                None => Message::Assistant {
                    content: None,
                    tool_calls: None,
                    reasoning_content: None,
                },
            }
        },
    }
}

/// Converts one tool definition to a request tool entry.
pub fn create_tool(tool: &ModelTool) -> (r: Tool)
    ensures
        r.tool_type@ == "function"@,
        r.function.name@ == tool@.name,
        r.function.description@ == tool@.description,
        r.function.parameters@ == tool@.parameters,
{
    Tool {
        tool_type: String::from_str("function"),
        function: FunctionTool {
            name: tool.name.clone(),
            description: tool.description.clone(),
            parameters: tool.parameters.clone(),
        },
    }
}

/// Builds the wire request for a model request: every message rendered in
/// order, every tool offered, streaming on and usage asked for.
pub fn create_request(req: &ModelRequest, config: &OpenAIConfig) -> (r: ChatCompletionRequest)
    ensures
        r.model@ == config@.model,
        r.stream == true,
        r.stream_options matches Some(o) && o.include_usage == true,
        r.messages@.len() == req@.messages.len(),
        forall|i: int|
            0 <= i < req@.messages.len() ==> renders_message(
                req@.messages[i],
                #[trigger] r.messages@[i],
            ),
        r.tools@.len() == req@.tools.len(),
        forall|i: int|
            0 <= i < req@.tools.len() ==> {
                &&& (#[trigger] r.tools@[i]).tool_type@ == "function"@
                &&& r.tools@[i].function.name@ == req@.tools[i].name
                &&& r.tools@[i].function.description@ == req@.tools[i].description
                &&& r.tools@[i].function.parameters@ == req@.tools[i].parameters
            },
{
    let mut messages: Vec<Message> = Vec::new();
    let mut i: usize = 0;
    while i < req.messages.len()
        invariant
            i <= req.messages.len(),
            messages@.len() == i,
            forall|j: int|
                0 <= j < i ==> renders_message(req@.messages[j], #[trigger] messages@[j]),
        decreases req.messages.len() - i,
    {
        let m = create_message(&req.messages[i]);
        proof {
            assert(renders_message(req@.messages[i as int], m));
        }
        messages.push(m);
        i = i + 1;
    }
    let mut tools: Vec<Tool> = Vec::new();
    let mut k: usize = 0;
    while k < req.tools.len()
        invariant
            k <= req.tools.len(),
            tools@.len() == k,
            forall|j: int|
                0 <= j < k ==> {
                    &&& (#[trigger] tools@[j]).tool_type@ == "function"@
                    &&& tools@[j].function.name@ == req@.tools[j].name
                    &&& tools@[j].function.description@ == req@.tools[j].description
                    &&& tools@[j].function.parameters@ == req@.tools[j].parameters
                },
        decreases req.tools.len() - k,
    {
        let t = create_tool(&req.tools[k]);
        tools.push(t);
        k = k + 1;
    }
    ChatCompletionRequest {
        model: config.model.clone(),
        messages,
        tools,
        stream_options: Some(StreamOptions { include_usage: true }),
        stream: true,
    }
}

} // verus!
