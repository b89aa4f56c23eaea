use vstd::prelude::*;

use crate::opaque::OpaqueMessage;

verus! {

/// The kind of error a model provider can report.
#[derive(Clone, Copy, Debug, PartialEq, Eq, Hash, Structural)]
pub enum ErrorKind {
    /// The content is moderated.
    Moderated,
    /// The model provider is rate limited.
    RateLimitExceeded,
    /// Any other errors.
    Other,
}

/// The error type for a model provider.
pub trait ModelProviderError {
    /// Returns the kind of this error.
    fn kind(&self) -> ErrorKind;
}

/// A concrete provider error, as the agent observes it: a kind and a
/// human-readable message.
#[derive(Debug)]
pub struct ProviderError {
    /// The kind of this error.
    pub kind: ErrorKind,
    /// A human-readable description.
    pub message: String,
}

/// Mathematical view of a [`ProviderError`].
#[verifier::ext_equal]
pub struct ProviderErrorView {
    pub kind: ErrorKind,
    pub message: Seq<char>,
}

impl View for ProviderError {
    type V = ProviderErrorView;

    open spec fn view(&self) -> ProviderErrorView {
        ProviderErrorView { kind: self.kind, message: self.message@ }
    }
}

impl DeepView for ProviderError {
    type V = ProviderErrorView;

    open spec fn deep_view(&self) -> ProviderErrorView {
        self.view()
    }
}

impl ModelProviderError for ProviderError {
    fn kind(&self) -> (k: ErrorKind)
        ensures
            k == self.kind,
    {
        self.kind
    }
}

impl Clone for ProviderError {
    fn clone(&self) -> (r: Self)
        ensures
            r@ == self@,
    {
        ProviderError { kind: self.kind, message: self.message.clone() }
    }
}

/// The result of calling a tool, fed back to the model.
#[derive(Debug)]
pub struct ToolCallResult {
    /// The unique identifier of the tool call request this answers.
    pub id: String,
    /// The result of the tool call.
    pub content: String,
}

/// Mathematical view of a [`ToolCallResult`].
#[verifier::ext_equal]
pub struct ToolCallResultView {
    pub id: Seq<char>,
    pub content: Seq<char>,
}

impl View for ToolCallResult {
    type V = ToolCallResultView;

    open spec fn view(&self) -> ToolCallResultView {
        ToolCallResultView { id: self.id@, content: self.content@ }
    }
}

impl DeepView for ToolCallResult {
    type V = ToolCallResultView;

    open spec fn deep_view(&self) -> ToolCallResultView {
        self.view()
    }
}

impl Clone for ToolCallResult {
    fn clone(&self) -> (r: Self)
        ensures
            r@ == self@,
    {
        ToolCallResult { id: self.id.clone(), content: self.content.clone() }
    }
}

/// A complete message of the conversation, as the model sees it.
pub enum ModelMessage {
    /// The system instructions.
    System(String),
    /// A user input text.
    User(String),
    /// An assistant text.
    Assistant(String),
    /// A tool call result.
    Tool(ToolCallResult),
    /// An opaque message, usually a provider's own record of a past turn.
    Opaque(OpaqueMessage),
}

/// Mathematical view of a [`ModelMessage`]. An opaque message is viewed
/// as its id alone.
#[verifier::ext_equal]
pub enum MessageView {
    System(Seq<char>),
    User(Seq<char>),
    Assistant(Seq<char>),
    Tool(ToolCallResultView),
    Opaque(Seq<char>),
}

impl View for ModelMessage {
    type V = MessageView;

    open spec fn view(&self) -> MessageView {
        match self {
            ModelMessage::System(s) => MessageView::System(s@),
            ModelMessage::User(s) => MessageView::User(s@),
            ModelMessage::Assistant(s) => MessageView::Assistant(s@),
            ModelMessage::Tool(r) => MessageView::Tool(r@),
            ModelMessage::Opaque(o) => MessageView::Opaque(o@),
        }
    }
}

impl DeepView for ModelMessage {
    type V = MessageView;

    open spec fn deep_view(&self) -> MessageView {
        self.view()
    }
}

impl Clone for ModelMessage {
    fn clone(&self) -> (r: Self)
        ensures
            r@ == self@,
    {
        match self {
            ModelMessage::System(s) => ModelMessage::System(s.clone()),
            ModelMessage::User(s) => ModelMessage::User(s.clone()),
            ModelMessage::Assistant(s) => ModelMessage::Assistant(s.clone()),
            ModelMessage::Tool(r) => ModelMessage::Tool(r.clone()),
            ModelMessage::Opaque(o) => ModelMessage::Opaque(o.clone()),
        }
    }
}

/// Describes a tool that can be used by the model.
///
/// `parameters` holds the JSON schema of the tool's input, as raw JSON text.
#[derive(Debug)]
pub struct ModelTool {
    /// Name of the tool.
    pub name: String,
    /// Description of the tool.
    pub description: String,
    /// Parameters definition of the tool, as raw JSON text.
    pub parameters: String,
}

/// Mathematical view of a [`ModelTool`].
#[verifier::ext_equal]
pub struct ModelToolView {
    pub name: Seq<char>,
    pub description: Seq<char>,
    pub parameters: Seq<char>,
}

impl View for ModelTool {
    type V = ModelToolView;

    open spec fn view(&self) -> ModelToolView {
        ModelToolView {
            name: self.name@,
            description: self.description@,
            parameters: self.parameters@,
        }
    }
}

impl DeepView for ModelTool {
    type V = ModelToolView;

    open spec fn deep_view(&self) -> ModelToolView {
        self.view()
    }
}

impl Clone for ModelTool {
    fn clone(&self) -> (r: Self)
        ensures
            r@ == self@,
    {
        ModelTool {
            name: self.name.clone(),
            description: self.description.clone(),
            parameters: self.parameters.clone(),
        }
    }
}

/// A request to be sent to the model provider.
pub struct ModelRequest {
    /// The input messages.
    pub messages: Vec<ModelMessage>,
    /// Tools that are available to the model.
    pub tools: Vec<ModelTool>,
}

/// Mathematical view of a [`ModelRequest`].
#[verifier::ext_equal]
pub struct ModelRequestView {
    pub messages: Seq<MessageView>,
    pub tools: Seq<ModelToolView>,
}

impl View for ModelRequest {
    type V = ModelRequestView;

    open spec fn view(&self) -> ModelRequestView {
        ModelRequestView { messages: self.messages.deep_view(), tools: self.tools.deep_view() }
    }
}

impl DeepView for ModelRequest {
    type V = ModelRequestView;

    open spec fn deep_view(&self) -> ModelRequestView {
        self.view()
    }
}

/// The reason why a model response has finished.
#[derive(Clone, Copy, Debug, PartialEq, Eq, Hash, Structural)]
pub enum ModelFinishReason {
    /// The model needs to call a tool.
    ToolCalls,
    /// The model has finished generating text.
    Stop,
}

/// Describes a tool call request from the model.
///
/// `arguments` holds the input of the call as raw JSON text.
#[derive(Debug)]
pub struct ToolCallRequest {
    /// The unique identifier for the tool call request.
    pub id: String,
    /// The name of the tool to call.
    pub name: String,
    /// The arguments to pass to the tool, as raw JSON text.
    pub arguments: String,
}

/// Mathematical view of a [`ToolCallRequest`].
#[verifier::ext_equal]
pub struct ToolCallRequestView {
    pub id: Seq<char>,
    pub name: Seq<char>,
    pub arguments: Seq<char>,
}

impl View for ToolCallRequest {
    type V = ToolCallRequestView;

    open spec fn view(&self) -> ToolCallRequestView {
        ToolCallRequestView { id: self.id@, name: self.name@, arguments: self.arguments@ }
    }
}

impl DeepView for ToolCallRequest {
    type V = ToolCallRequestView;

    open spec fn deep_view(&self) -> ToolCallRequestView {
        self.view()
    }
}

impl Clone for ToolCallRequest {
    fn clone(&self) -> (r: Self)
        ensures
            r@ == self@,
    {
        ToolCallRequest {
            id: self.id.clone(),
            name: self.name.clone(),
            arguments: self.arguments.clone(),
        }
    }
}

/// The event from a model response.
#[derive(Debug)]
pub enum ModelResponseEvent {
    /// The response has been completed.
    Completed(ModelFinishReason),
    /// Received a message delta.
    MessageDelta(String),
    /// Received a tool call request.
    ToolCall(ToolCallRequest),
}

/// Mathematical view of a [`ModelResponseEvent`].
#[verifier::ext_equal]
pub enum ResponseEventView {
    Completed(ModelFinishReason),
    MessageDelta(Seq<char>),
    ToolCall(ToolCallRequestView),
}

impl View for ModelResponseEvent {
    type V = ResponseEventView;

    open spec fn view(&self) -> ResponseEventView {
        match self {
            ModelResponseEvent::Completed(r) => ResponseEventView::Completed(*r),
            ModelResponseEvent::MessageDelta(s) => ResponseEventView::MessageDelta(s@),
            ModelResponseEvent::ToolCall(t) => ResponseEventView::ToolCall(t@),
        }
    }
}

impl DeepView for ModelResponseEvent {
    type V = ResponseEventView;

    open spec fn deep_view(&self) -> ResponseEventView {
        self.view()
    }
}

impl Clone for ModelResponseEvent {
    fn clone(&self) -> (r: Self)
        ensures
            r@ == self@,
    {
        match self {
            ModelResponseEvent::Completed(reason) => ModelResponseEvent::Completed(*reason),
            ModelResponseEvent::MessageDelta(s) => ModelResponseEvent::MessageDelta(s.clone()),
            ModelResponseEvent::ToolCall(t) => ModelResponseEvent::ToolCall(t.clone()),
        }
    }
}

} // verus!
