//! A runtime for conversational agents that talk to a large-language-model
//! provider, optionally invoke external tools under a human-approval gate,
//! and expose a simple "send a message, get notified when idle" interface.
//!
//! The crate verifies the orchestration logic of such an agent: the stage
//! state machine that interleaves user input with an in-flight model call
//! and a set of individually approved tool calls, the drain of a streaming
//! model response, the tool registry and approval gate, and a scripted test
//! provider. Anything that performs I/O — the async runtime, the HTTP
//! transport, the concrete tools — lives outside the library and drives the
//! state machine through plain events and effects.

pub mod agent;
pub mod agent_props;
pub mod conversation;
pub mod model;
pub mod model_client;
pub mod opaque;
pub mod openai;
pub mod sse;
pub mod test_model;
pub mod tool;

pub use agent::{AgentBuilder, AgentCore, AgentEffect, AgentStage, EnqueueUserInput};
pub use conversation::{Conversation, Item, TranscriptSource};
pub use model::{
    ModelFinishReason, ModelMessage, ModelProviderError, ModelRequest, ModelResponseEvent,
    ModelTool, ProviderError, ToolCallRequest, ToolCallResult,
};
pub use model_client::ModelClientResponse;
pub use opaque::OpaqueMessage;
