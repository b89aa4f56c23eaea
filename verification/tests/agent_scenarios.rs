//! End-to-end scenarios: a host loop drives the agent state machine with a
//! scripted model, performing each returned effect, exactly as the async
//! runtime around the library would.

use std::collections::VecDeque;

use little_agent::agent::{AgentBuilder, AgentCore, AgentEffect};
use little_agent::model::{ModelTool, ProviderError};
use little_agent::model_client::ModelClientResponse;
use little_agent::test_model::{PresetEvent, PresetResponse, TestModelProvider};
use little_agent::tool::{Approval, Error as ToolError, ToolResult};
use little_agent::ToolCallRequest;
use little_agent::TranscriptSource;

/// What the host observed while driving the agent.
#[derive(Default)]
struct Observed {
    transcripts: Vec<(String, TranscriptSource)>,
    approvals_seen: Vec<String>,
    errors: Vec<ProviderError>,
    idle_count: usize,
    dropped: Vec<String>,
}

/// How the driver resolves an approval request.
enum ApprovalPolicy {
    Approve,
    Reject(Option<String>),
}

/// A driver standing in for the async host: it performs each effect in
/// order — answering model calls from the scripted provider, running a
/// small fixed toolset, resolving approvals by the given policy — and
/// feeds the outcomes back into the agent until no effect is left.
fn drive(
    agent: &mut AgentCore,
    provider: &mut TestModelProvider,
    initial: Vec<AgentEffect>,
    policy: &ApprovalPolicy,
    obs: &mut Observed,
) {
    let mut queue: VecDeque<AgentEffect> = initial.into_iter().collect();
    while let Some(effect) = queue.pop_front() {
        match effect {
            AgentEffect::Transcript(text, source) => {
                obs.transcripts.push((text, source));
            }
            AgentEffect::StartModelCall(task_id, request) => {
                let outcome = match provider.send_request(&request) {
                    Ok(mut response) => {
                        let mut events = Vec::new();
                        while let Some(ev) = response.next_event() {
                            events.push(ev);
                        }
                        let opaque = response.make_opaque_message();
                        Ok(ModelClientResponse::from_events(&events, Some(opaque)))
                    }
                    Err(e) => Err(ProviderError { kind: e.kind, message: e.message }),
                };
                for eff in agent.handle_model_finished(outcome) {
                    queue.push_back(eff);
                }
                assert!(agent.handle_task_ended(task_id));
            }
            AgentEffect::RequestApproval(request) => {
                let approval = Approval::new(&describe_tool(&request.name), "");
                obs.approvals_seen.push(approval.what().to_string());
                let result = match policy {
                    ApprovalPolicy::Approve => approval.approve(),
                    ApprovalPolicy::Reject(why) => approval.reject(why.clone()),
                };
                for eff in agent.handle_approval_resolved(request.id.clone(), result) {
                    queue.push_back(eff);
                }
            }
            AgentEffect::StartToolCall(task_id, request) => {
                let result = run_tool(&request);
                for eff in agent.handle_tool_finished(request.id.clone(), result) {
                    queue.push_back(eff);
                }
                assert!(agent.handle_task_ended(task_id));
            }
            AgentEffect::DropToolCall(request) => {
                obs.dropped.push(request.name.clone());
            }
            AgentEffect::ReportError(error) => {
                obs.errors.push(error);
            }
            AgentEffect::NotifyIdle => {
                obs.idle_count += 1;
            }
        }
    }
}

fn describe_tool(name: &str) -> String {
    match name {
        "list_todos" => "Lists all todos".to_string(),
        "list_calendar_events" => "Lists all calendar events".to_string(),
        other => other.to_string(),
    }
}

fn run_tool(request: &ToolCallRequest) -> ToolResult {
    match request.name.as_str() {
        "list_todos" => Ok("Found 0 todos".to_string()),
        "list_calendar_events" => Err(ToolError::execution_error()),
        _ => Err(ToolError::invalid_input()),
    }
}

fn list_todos_def() -> ModelTool {
    ModelTool {
        name: "list_todos".to_string(),
        description: "Lists all todos".to_string(),
        parameters: "null".to_string(),
    }
}

fn list_calendar_events_def() -> ModelTool {
    ModelTool {
        name: "list_calendar_events".to_string(),
        description: "Lists all calendar events".to_string(),
        parameters: "null".to_string(),
    }
}

#[test]
fn test_simple_message() {
    let mut model_provider = TestModelProvider::new();
    model_provider.add_user_input_step();
    model_provider.add_assistant_response_step(PresetResponse::with_events(vec![
        PresetEvent::MessageDelta("Hi, ".to_owned()),
        PresetEvent::MessageDelta("what can I do for you?".to_owned()),
    ]));

    let mut agent = AgentBuilder::new().build();
    let mut obs = Observed::default();
    let effects = agent.enqueue_user_input("Hello".to_string());
    drive(&mut agent, &mut model_provider, effects, &ApprovalPolicy::Approve, &mut obs);

    assert!(obs.idle_count >= 1);
    let transcripts: Vec<&str> = obs.transcripts.iter().map(|(t, _)| t.as_str()).collect();
    assert_eq!(transcripts.len(), 3);
    assert_eq!(transcripts[0], "Hello");
    assert_eq!(transcripts[1], "Hi, ");
    assert_eq!(transcripts[2], "what can I do for you?");
}

#[test]
fn test_tool_call() {
    let mut model_provider = TestModelProvider::new();
    model_provider.add_user_input_step();
    model_provider.add_assistant_response_step(PresetResponse::with_events(vec![
        PresetEvent::MessageDelta("Hi, ".to_owned()),
        PresetEvent::MessageDelta("let me check your todo.".to_owned()),
        PresetEvent::ToolCall(ToolCallRequest {
            id: "tool:1".to_owned(),
            name: "list_todos".to_owned(),
            arguments: "{}".to_owned(),
        }),
        PresetEvent::ToolCall(ToolCallRequest {
            id: "tool:2".to_owned(),
            name: "list_calendar_events".to_owned(),
            arguments: "{}".to_owned(),
        }),
    ]));
    model_provider.add_user_input_step();
    model_provider.add_user_input_step();
    model_provider.add_assistant_response_step(PresetResponse::with_events(vec![
        PresetEvent::MessageDelta("Your todo is clean, good job!".to_owned()),
    ]));

    let mut agent = AgentBuilder::new()
        .with_tool(list_todos_def())
        .with_tool(list_calendar_events_def())
        .with_approval_gate()
        .build();
    let mut obs = Observed::default();
    let effects = agent.enqueue_user_input("Hello".to_string());
    drive(&mut agent, &mut model_provider, effects, &ApprovalPolicy::Approve, &mut obs);

    assert!(obs.idle_count >= 1);
    assert_eq!(obs.approvals_seen.len(), 2);
    assert_eq!(obs.approvals_seen[0], "Lists all todos");
    assert_eq!(obs.approvals_seen[1], "Lists all calendar events");
}

#[test]
fn test_retry() {
    let mut model_provider = TestModelProvider::new();
    model_provider.add_user_input_step();
    model_provider.add_assistant_response_step(
        PresetResponse::with_events(vec![PresetEvent::MessageDelta("Hi".to_owned())])
            .with_failures(3),
    );

    let mut agent = AgentBuilder::new().build();
    let mut obs = Observed::default();
    let effects = agent.enqueue_user_input("Hello".to_string());
    drive(&mut agent, &mut model_provider, effects, &ApprovalPolicy::Approve, &mut obs);

    let assistant_text: String = obs
        .transcripts
        .iter()
        .filter(|(_, s)| s.is_assistant())
        .map(|(t, _)| t.as_str())
        .collect();
    assert_eq!(assistant_text, "Hi");
    assert_eq!(obs.errors.is_empty(), false);
}

#[test]
fn retry_reports_each_failure_then_idles_once() {
    // A provider that fails three times and then succeeds: the error
    // observer fires exactly three times, the final transcript is the
    // successful attempt's text, and idle fires exactly once.
    let mut model_provider = TestModelProvider::new();
    model_provider.add_user_input_step();
    model_provider.add_assistant_response_step(
        PresetResponse::with_events(vec![PresetEvent::MessageDelta("Hi".to_owned())])
            .with_failures(3),
    );

    let mut agent = AgentBuilder::new().build();
    let mut obs = Observed::default();
    let effects = agent.enqueue_user_input("Hello".to_string());
    drive(&mut agent, &mut model_provider, effects, &ApprovalPolicy::Approve, &mut obs);

    assert_eq!(obs.errors.len(), 3);
    let assistant: Vec<&str> = obs
        .transcripts
        .iter()
        .filter(|(_, s)| s.is_assistant())
        .map(|(t, _)| t.as_str())
        .collect();
    assert_eq!(assistant, vec!["Hi"]);
    assert_eq!(obs.idle_count, 1);
}

#[test]
fn exhausted_retries_abandon_the_turn() {
    // A step that always fails: the default retry bound gives up after
    // three retries (four attempts), reports each failure, and goes idle.
    let mut model_provider = TestModelProvider::new();
    model_provider.add_user_input_step();
    model_provider.add_assistant_response_step(
        PresetResponse::with_events(vec![PresetEvent::MessageDelta("never".to_owned())])
            .with_failures(0),
    );

    let mut agent = AgentBuilder::new().build();
    let mut obs = Observed::default();
    let effects = agent.enqueue_user_input("Hello".to_string());
    drive(&mut agent, &mut model_provider, effects, &ApprovalPolicy::Approve, &mut obs);

    assert_eq!(obs.errors.len(), 4);
    assert_eq!(obs.idle_count, 1);
    assert!(obs.transcripts.iter().all(|(_, s)| !s.is_assistant()));
}

#[test]
fn tool_turn_records_one_item_per_call() {
    // A turn with two approved tool calls appends exactly two Tool
    // conversation items and triggers exactly one follow-up model call:
    // the conversation ends with user, assistant, two tool items, and the
    // final assistant answer.
    let mut model_provider = TestModelProvider::new();
    model_provider.add_user_input_step();
    model_provider.add_assistant_response_step(PresetResponse::with_events(vec![
        PresetEvent::MessageDelta("Checking.".to_owned()),
        PresetEvent::ToolCall(ToolCallRequest {
            id: "tool:1".to_owned(),
            name: "list_todos".to_owned(),
            arguments: "{}".to_owned(),
        }),
        PresetEvent::ToolCall(ToolCallRequest {
            id: "tool:2".to_owned(),
            name: "list_calendar_events".to_owned(),
            arguments: "{}".to_owned(),
        }),
    ]));
    model_provider.add_user_input_step();
    model_provider.add_user_input_step();
    model_provider.add_assistant_response_step(PresetResponse::with_events(vec![
        PresetEvent::MessageDelta("All done.".to_owned()),
    ]));

    let mut agent = AgentBuilder::new()
        .with_tool(list_todos_def())
        .with_tool(list_calendar_events_def())
        .build();
    let mut obs = Observed::default();
    let effects = agent.enqueue_user_input("Hello".to_string());
    drive(&mut agent, &mut model_provider, effects, &ApprovalPolicy::Approve, &mut obs);

    assert_eq!(obs.idle_count, 1);
    // user, assistant, tool, tool, assistant
    assert_eq!(agent.conversation.len(), 5);
    assert_eq!(agent.conversation.items[2].transcript(), "Ran a tool");
    assert_eq!(agent.conversation.items[3].transcript(), "Failed to run tool");
}

#[test]
fn rejected_approval_becomes_permission_denied_item() {
    // Rejecting the only approval of a turn: the tool never runs, and the
    // model sees a tool result carrying the PermissionDenied-derived
    // message.
    let mut model_provider = TestModelProvider::new();
    model_provider.add_user_input_step();
    model_provider.add_assistant_response_step(PresetResponse::with_events(vec![
        PresetEvent::MessageDelta("Let me check.".to_owned()),
        PresetEvent::ToolCall(ToolCallRequest {
            id: "tool:1".to_owned(),
            name: "list_todos".to_owned(),
            arguments: "{}".to_owned(),
        }),
    ]));
    model_provider.add_user_input_step();
    model_provider.add_assistant_response_step(PresetResponse::with_events(vec![
        PresetEvent::MessageDelta("Understood.".to_owned()),
    ]));

    let mut agent = AgentBuilder::new()
        .with_tool(list_todos_def())
        .with_approval_gate()
        .build();
    let mut obs = Observed::default();
    let effects = agent.enqueue_user_input("Hello".to_string());
    drive(
        &mut agent,
        &mut model_provider,
        effects,
        &ApprovalPolicy::Reject(Some("not today".to_string())),
        &mut obs,
    );

    assert_eq!(obs.idle_count, 1);
    assert_eq!(obs.approvals_seen.len(), 1);
    // user, assistant, tool (the rejection), assistant
    assert_eq!(agent.conversation.len(), 4);
    assert_eq!(agent.conversation.items[2].transcript(), "Failed to run tool");
    match &agent.conversation.items[2].msg {
        little_agent::ModelMessage::Tool(result) => {
            assert_eq!(result.id, "tool:1");
            assert_eq!(result.content, "not today");
        }
        _ => panic!("expected a tool result item"),
    }
}

#[test]
fn unknown_tool_calls_are_dropped() {
    // A call whose name resolves to no registered tool is dropped with a
    // warning and never occupies a pending slot; the turn goes straight to
    // the next model call.
    let mut model_provider = TestModelProvider::new();
    model_provider.add_user_input_step();
    model_provider.add_assistant_response_step(PresetResponse::with_events(vec![
        PresetEvent::ToolCall(ToolCallRequest {
            id: "tool:1".to_owned(),
            name: "no_such_tool".to_owned(),
            arguments: "{}".to_owned(),
        }),
    ]));
    model_provider.add_assistant_response_step(PresetResponse::with_events(vec![
        PresetEvent::MessageDelta("Nothing to call.".to_owned()),
    ]));

    let mut agent = AgentBuilder::new().with_tool(list_todos_def()).build();
    let mut obs = Observed::default();
    let effects = agent.enqueue_user_input("Hello".to_string());
    drive(&mut agent, &mut model_provider, effects, &ApprovalPolicy::Approve, &mut obs);

    assert_eq!(obs.dropped, vec!["no_such_tool".to_string()]);
    assert_eq!(obs.idle_count, 1);
    // user, assistant (the tool-call turn), assistant (the follow-up)
    assert_eq!(agent.conversation.len(), 3);
}

#[test]
fn inputs_enqueued_while_busy_run_fifo() {
    // Inputs enqueued while the agent is thinking are processed only after
    // it returns to idle, in FIFO order, and idle fires once the queue is
    // drained.
    let mut model_provider = TestModelProvider::new();
    for answer in ["one", "two", "three"] {
        model_provider.add_user_input_step();
        model_provider.add_assistant_response_step(PresetResponse::with_events(vec![
            PresetEvent::MessageDelta(answer.to_owned()),
        ]));
    }

    let mut agent = AgentBuilder::new().build();
    let mut obs = Observed::default();
    // Enqueue the first input, and two more while the first is in flight.
    let mut effects = agent.enqueue_user_input("first".to_string());
    let more = agent.enqueue_user_input("second".to_string());
    assert!(more.is_empty());
    let more = agent.enqueue_user_input("third".to_string());
    assert!(more.is_empty());
    drive(&mut agent, &mut model_provider, effects, &ApprovalPolicy::Approve, &mut obs);

    let texts: Vec<&str> = obs.transcripts.iter().map(|(t, _)| t.as_str()).collect();
    assert_eq!(texts, vec!["first", "one", "second", "two", "third", "three"]);
    assert_eq!(obs.idle_count, 1);
}
