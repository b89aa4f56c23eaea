//! Unit tests of the library's data types and small functions.

use std::collections::HashSet;

use little_agent::model::{ModelMessage, ModelRequest, ModelTool};
use little_agent::openai::config::OpenAIConfigBuilder;
use little_agent::openai::proto::{
    create_request, ChatCompletionRequest, FunctionTool, Message, StreamOptions, Tool,
};
use little_agent::test_model::u64_to_string;
use little_agent::tool::{Approval, Error as ToolError, ErrorKind, Executor};
use little_agent::TranscriptSource;
use little_agent::agent::{AgentBuilder, AgentEffect, EnqueueUserInput};
use little_agent::OpaqueMessage;
use little_agent::ToolCallRequest;

#[derive(Clone)]
struct RawMessage(String);

#[test]
fn test_convert_between() {
    let raw = RawMessage("Hello".to_string());
    let opaque = OpaqueMessage::new("msg:0", raw);
    let raw_back = opaque.to_raw::<RawMessage>().unwrap();
    assert_eq!(raw_back.0, "Hello");
}

#[test]
fn test_common_traits() {
    let raw_0 = RawMessage("Hello".to_string());
    let opaque_0 = OpaqueMessage::new("msg:0", raw_0);
    let raw_1 = RawMessage("Bye".to_string());
    let opaque_1 = OpaqueMessage::new("msg:1", raw_1);

    let opaque_0_clone = opaque_0.clone();
    assert!(opaque_0 == opaque_0_clone);
    assert!(opaque_0 != opaque_1);

    let mut set = HashSet::new();
    set.insert(opaque_0);
    set.insert(opaque_0_clone);
    set.insert(opaque_1);
    assert_eq!(set.len(), 2);
}

fn request(id: &str, name: &str) -> ToolCallRequest {
    ToolCallRequest { id: id.to_string(), name: name.to_string(), arguments: "{}".to_string() }
}

fn tool_def(name: &str, description: &str) -> ModelTool {
    ModelTool {
        name: name.to_string(),
        description: description.to_string(),
        parameters: "{}".to_string(),
    }
}

#[test]
fn executor_test_handle_requests() {
    let executor = Executor::with_tools(vec![tool_def("test_tool", "A test tool")]);

    let requests = vec![request("tool:1", "test_tool")];
    let (known, unknown) = executor.handle_requests(&requests);
    assert_eq!(known.len(), 1);
    assert_eq!(known[0].id, "tool:1");
    assert!(unknown.is_empty());

    // With a non-existent tool, nothing is spawned.
    let requests = vec![request("tool:1", "read_tool")];
    let (known, unknown) = executor.handle_requests(&requests);
    assert!(known.is_empty());
    assert_eq!(unknown.len(), 1);
}

#[test]
fn manager_test_handle_requests() {
    let mut manager = Executor::new();
    manager.add_tool(tool_def("test_tool", "A test tool"));

    let requests = vec![request("tool:1", "test_tool")];
    let (known, _) = manager.handle_requests(&requests);
    assert_eq!(known.len(), 1);
    assert_eq!(known[0].id, "tool:1");

    let requests = vec![request("tool:1", "read_tool")];
    let (known, _) = manager.handle_requests(&requests);
    assert!(known.is_empty());
}

#[test]
fn registering_a_name_twice_keeps_the_later_definition() {
    let mut executor = Executor::new();
    executor.add_tool(tool_def("shell", "first"));
    executor.add_tool(tool_def("shell", "second"));
    let defs = executor.definitions();
    assert_eq!(defs.len(), 1);
    assert_eq!(defs[0].description, "second");
}

#[test]
fn tool_error_reason_prefers_the_attached_text() {
    let err = ToolError::execution_error().with_reason("boom".to_string());
    assert_eq!(err.reason(), "boom");
    assert_eq!(err.kind(), ErrorKind::ExecutionError);
}

#[test]
fn tool_error_reason_falls_back_to_the_kind() {
    assert_eq!(ToolError::invalid_input().reason(), "Invalid input");
    assert_eq!(ToolError::execution_error().reason(), "Execution error");
    assert_eq!(ToolError::permission_denied().reason(), "Permission denied");
}

#[test]
fn approval_resolves_exactly_once() {
    let approval = Approval::new("ls -la", "Agent wants to run a command");
    assert_eq!(approval.what(), "ls -la");
    assert_eq!(approval.justification(), "Agent wants to run a command");
    let result = approval.approve();
    assert!(result.approved);
    assert!(result.why.is_none());
    // `approve` consumed the approval; resolving again cannot compile.

    let rejected = Approval::new("rm -rf", "Agent wants to run a command")
        .reject(Some("too dangerous".to_string()));
    assert!(!rejected.approved);
    assert_eq!(rejected.why.as_deref(), Some("too dangerous"));
}

#[test]
fn config_builder_fills_in_defaults() {
    let config = OpenAIConfigBuilder::with_api_key("test-key").build();
    assert_eq!(config.model, "gpt-5.2");
    assert_eq!(config.base_url, "https://api.openai.com/v1");
    assert_eq!(config.api_key, "test-key");
}

#[test]
fn test_create_request() {
    let request = ModelRequest {
        messages: vec![
            ModelMessage::System("You are a helpful assistant.".to_owned()),
            ModelMessage::User("Hello".to_owned()),
        ],
        tools: vec![ModelTool {
            name: "shell".to_owned(),
            description: "Runs shell commands.".to_owned(),
            parameters: "{\"type\":\"string\",\"description\":\"The command line.\"}".to_owned(),
        }],
    };
    let config = OpenAIConfigBuilder::with_api_key("xxx").with_model("custom").build();
    let expected = ChatCompletionRequest {
        model: "custom".to_owned(),
        messages: vec![
            Message::System { content: "You are a helpful assistant.".to_owned() },
            Message::User { content: "Hello".to_owned() },
        ],
        tools: vec![Tool {
            tool_type: "function".to_owned(),
            function: FunctionTool {
                name: "shell".to_owned(),
                description: "Runs shell commands.".to_owned(),
                parameters: "{\"type\":\"string\",\"description\":\"The command line.\"}"
                    .to_owned(),
            },
        }],
        stream_options: Some(StreamOptions { include_usage: true }),
        stream: true,
    };
    assert_eq!(create_request(&request, &config), expected);
}

#[test]
fn numbers_render_in_decimal() {
    assert_eq!(u64_to_string(0), "0");
    assert_eq!(u64_to_string(7), "7");
    assert_eq!(u64_to_string(10), "10");
    assert_eq!(u64_to_string(90217), "90217");
    assert_eq!(u64_to_string(u64::MAX), "18446744073709551615");
}

#[test]
fn transcript_source_tells_the_speaker() {
    assert!(TranscriptSource::Assistant.is_assistant());
    assert!(!TranscriptSource::User.is_assistant());
}

#[test]
fn enqueue_message_starts_a_turn_when_idle() {
    let mut agent = AgentBuilder::new().build();
    let effects = EnqueueUserInput("Hello".to_string()).handle(&mut agent);
    assert_eq!(effects.len(), 2);
    assert!(matches!(&effects[0], AgentEffect::Transcript(text, _) if text == "Hello"));
    assert!(matches!(&effects[1], AgentEffect::StartModelCall(_, _)));
}
