//! Tests of the streaming pieces: the drained model response, the scripted
//! model's event stream, and the server-sent-events parser.

use little_agent::model::{ModelFinishReason, ModelMessage, ModelRequest, ModelResponseEvent, ModelTool};
use little_agent::model_client::ModelClientResponse;
use little_agent::sse::{Error as SseError, Sse};
use little_agent::test_model::{PresetEvent, PresetResponse, TestModelProvider, TestModelResponse};
use little_agent::OpaqueMessage;
use little_agent::ToolCallRequest;

fn drain(response: &mut TestModelResponse) -> Vec<ModelResponseEvent> {
    let mut events = Vec::new();
    while let Some(ev) = response.next_event() {
        events.push(ev);
    }
    events
}

#[test]
fn model_client_test_send_request() {
    let mut model_provider = TestModelProvider::new();
    model_provider.add_user_input_step();
    model_provider.add_assistant_response_step(PresetResponse::with_events(vec![
        PresetEvent::MessageDelta("How ".to_owned()),
        PresetEvent::MessageDelta("are ".to_owned()),
        PresetEvent::MessageDelta("you?".to_owned()),
    ]));

    for _ in 0..3 {
        let request = ModelRequest {
            messages: vec![ModelMessage::User("Hi".to_owned())],
            tools: vec![],
        };
        let mut response = model_provider.send_request(&request).unwrap();
        let events = drain(&mut response);
        let opaque = response.make_opaque_message();
        let resp = ModelClientResponse::from_events(&events, Some(opaque));
        assert_eq!(resp.transcript, "How are you?");
        assert!(resp.opaque_msg.is_some());
    }
}

#[test]
fn test_error_handling() {
    let mut model_provider = TestModelProvider::new();
    let request = ModelRequest {
        messages: vec![ModelMessage::User("Hi".to_owned())],
        tools: vec![],
    };
    let resp_or_err = model_provider.send_request(&request);
    assert!(matches!(resp_or_err, Err(_)));
}

#[test]
fn lib_test_send_request() {
    let mut provider = TestModelProvider::new();
    provider.add_user_input_step();
    provider.add_assistant_response_step(PresetResponse::with_events(vec![
        PresetEvent::MessageDelta("Hello, ".to_owned()),
        PresetEvent::MessageDelta("world!".to_owned()),
    ]));
    provider.add_user_input_step();
    provider.add_assistant_response_step(PresetResponse::with_events(vec![
        PresetEvent::MessageDelta("Sure, ".to_owned()),
        PresetEvent::MessageDelta("let me take a ".to_owned()),
        PresetEvent::MessageDelta("look.".to_owned()),
        PresetEvent::ToolCall(ToolCallRequest {
            id: "tool:1".to_owned(),
            name: "read_file".to_owned(),
            arguments: "{ \"filename\": \"todo.txt\" }".to_owned(),
        }),
    ]));

    let mut req = ModelRequest {
        messages: vec![ModelMessage::User("Hi".to_owned())],
        tools: vec![ModelTool {
            name: "read_file".to_owned(),
            description: "Reads a file".to_owned(),
            parameters: "{\"type\":\"object\",\"properties\":{\"filename\":{\"type\":\"string\",\"description\":\"The name of the file to read\"}}}".to_owned(),
        }],
    };
    let mut response = provider.send_request(&req).unwrap();
    let (msg, _, opaque_msg) = collect_response(&mut response);
    assert_eq!(msg, "Hello, world!");

    req.messages.push(ModelMessage::Opaque(opaque_msg));
    req.messages.push(ModelMessage::User("Check my todo".to_owned()));
    let mut response = provider.send_request(&req).unwrap();
    let (msg, tool_call, _) = collect_response(&mut response);
    assert_eq!(msg, "Sure, let me take a look.");
    let tool_call = tool_call.unwrap();
    assert_eq!(tool_call.name, "read_file");
    assert_eq!(tool_call.arguments, "{ \"filename\": \"todo.txt\" }");
}

fn collect_response(
    response: &mut TestModelResponse,
) -> (String, Option<ToolCallRequest>, OpaqueMessage) {
    let mut msg = String::new();
    let mut tool_call = None;
    loop {
        let event = response.next_event().unwrap();
        match event {
            ModelResponseEvent::Completed(_) => break,
            ModelResponseEvent::MessageDelta(delta) => msg.push_str(&delta),
            ModelResponseEvent::ToolCall(req) => tool_call = Some(req),
        }
    }
    (msg, tool_call, response.make_opaque_message())
}

#[test]
fn responses_complete_with_the_right_reason() {
    // A step without a tool call completes with Stop, one with a tool
    // call completes with ToolCalls, and asking again after completion
    // keeps returning nothing.
    let mut provider = TestModelProvider::new();
    provider.add_assistant_response_step(PresetResponse::with_events(vec![
        PresetEvent::MessageDelta("plain".to_owned()),
    ]));
    let req = ModelRequest { messages: vec![], tools: vec![] };
    let mut response = provider.send_request(&req).unwrap();
    let events = drain(&mut response);
    assert!(matches!(
        events.last().unwrap(),
        ModelResponseEvent::Completed(ModelFinishReason::Stop)
    ));
    assert!(response.next_event().is_none());
    assert!(response.next_event().is_none());

    let mut provider = TestModelProvider::new();
    provider.add_assistant_response_step(PresetResponse::with_events(vec![
        PresetEvent::ToolCall(ToolCallRequest {
            id: "tool:1".to_owned(),
            name: "shell".to_owned(),
            arguments: "{}".to_owned(),
        }),
    ]));
    let mut response = provider.send_request(&req).unwrap();
    let events = drain(&mut response);
    assert!(matches!(
        events.last().unwrap(),
        ModelResponseEvent::Completed(ModelFinishReason::ToolCalls)
    ));
}

#[test]
fn opaque_message_carries_the_step_id() {
    let mut provider = TestModelProvider::new();
    provider.add_assistant_response_step(PresetResponse::with_events(vec![]));
    let req = ModelRequest { messages: vec![], tools: vec![] };
    let mut response = provider.send_request(&req).unwrap();
    drain(&mut response);
    let opaque = response.make_opaque_message();
    assert_eq!(opaque.id(), "msg:0");
    assert_eq!(opaque.to_raw::<String>().unwrap(), "msg:0");
}

#[test]
fn drained_response_accumulates_in_order() {
    let events = vec![
        ModelResponseEvent::MessageDelta("a".to_owned()),
        ModelResponseEvent::ToolCall(ToolCallRequest {
            id: "1".to_owned(),
            name: "x".to_owned(),
            arguments: "{}".to_owned(),
        }),
        ModelResponseEvent::MessageDelta("b".to_owned()),
        ModelResponseEvent::ToolCall(ToolCallRequest {
            id: "2".to_owned(),
            name: "y".to_owned(),
            arguments: "{}".to_owned(),
        }),
        ModelResponseEvent::Completed(ModelFinishReason::ToolCalls),
    ];
    let resp = ModelClientResponse::from_events(&events, None);
    assert_eq!(resp.transcript, "ab");
    assert_eq!(resp.tool_calls.len(), 2);
    assert_eq!(resp.tool_calls[0].id, "1");
    assert_eq!(resp.tool_calls[1].id, "2");
    assert_eq!(resp.finish_reason, Some(ModelFinishReason::ToolCalls));
    assert!(resp.opaque_msg.is_none());

    let empty: Vec<ModelResponseEvent> = vec![];
    let resp = ModelClientResponse::from_events(&empty, None);
    assert_eq!(resp.transcript, "");
    assert!(resp.tool_calls.is_empty());
    assert_eq!(resp.finish_reason, None);
}

#[test]
fn test_normal_events() {
    let mut sse = Sse::new();
    sse.push_chunk(b"data: hello\n\n");
    sse.push_chunk(b"data: bye\n\n");
    assert_eq!(sse.try_parse_event().unwrap().unwrap(), b"hello".to_vec());
    assert_eq!(sse.try_parse_event().unwrap().unwrap(), b"bye".to_vec());
    assert_eq!(sse.try_parse_event().unwrap(), None);
}

#[test]
fn test_quirk_streaming() {
    let mut sse = Sse::new();
    sse.push_chunk(b"data:");
    assert_eq!(sse.try_parse_event().unwrap(), None);
    sse.push_chunk(b" hello\n");
    assert_eq!(sse.try_parse_event().unwrap(), None);
    sse.push_chunk(b"\n");
    assert_eq!(sse.try_parse_event().unwrap().unwrap(), b"hello".to_vec());
    assert_eq!(sse.try_parse_event().unwrap(), None);
}

#[test]
fn test_invalid_data() {
    let mut sse = Sse::new();
    sse.push_chunk(b"xxxxxx\n\n");
    assert_eq!(sse.try_parse_event().unwrap_err(), SseError::InvalidPayload);

    let mut sse = Sse::new();
    sse.push_chunk(b"xxxxxx\n");
    assert_eq!(sse.try_parse_event().unwrap(), None);

    let mut sse = Sse::new();
    sse.push_chunk(b"data: hello\n");
    sse.push_chunk(b"data: bye\n");
    assert_eq!(sse.try_parse_event().unwrap(), None);
}

#[test]
fn sse_data_stops_at_a_second_separator() {
    // Only the text between the first ": " and the next one is the data.
    let mut sse = Sse::new();
    sse.push_chunk(b"data: a: b\n\n");
    assert_eq!(sse.try_parse_event().unwrap().unwrap(), b"a".to_vec());
}

#[test]
fn preset_failures_exhaust_then_succeed() {
    let preset = PresetResponse::with_events(vec![PresetEvent::MessageDelta("ok".to_owned())])
        .with_failures(2);
    let mut provider = TestModelProvider::new();
    provider.add_assistant_response_step(preset);
    let req = ModelRequest { messages: vec![], tools: vec![] };
    assert!(provider.send_request(&req).is_err());
    assert!(provider.send_request(&req).is_err());
    assert!(provider.send_request(&req).is_ok());
    assert!(provider.send_request(&req).is_ok());
}

use little_agent::openai::proto::{ChatCompletionChunk, Choice, Delta, FunctionToolCall, ToolCall};
use little_agent::openai::response::ChunkAssembler;

fn delta_chunk(id: &str, content: Option<&str>, tool_calls: Option<Vec<ToolCall>>) -> ChatCompletionChunk {
    ChatCompletionChunk {
        id: id.to_string(),
        choices: vec![Choice {
            delta: Delta {
                content: content.map(str::to_string),
                tool_calls,
                reasoning_content: None,
            },
            finish_reason: None,
        }],
    }
}

fn finish_chunk(id: &str, reason: &str) -> ChatCompletionChunk {
    ChatCompletionChunk {
        id: id.to_string(),
        choices: vec![Choice {
            delta: Delta { content: None, tool_calls: None, reasoning_content: None },
            finish_reason: Some(reason.to_string()),
        }],
    }
}

fn fragment(
    index: u32,
    id: Option<&str>,
    name: Option<&str>,
    arguments: Option<&str>,
) -> ToolCall {
    ToolCall {
        index: Some(index),
        id: id.map(str::to_string),
        call_type: None,
        function: Some(FunctionToolCall {
            name: name.map(str::to_string),
            arguments: arguments.map(str::to_string),
        }),
    }
}

#[test]
fn assembler_patches_fragmented_tool_calls() {
    // A tool call arrives split over three chunks and is surfaced as one
    // complete record, after the message deltas and before the completion.
    let mut assembler = ChunkAssembler::new();

    let delta = assembler
        .apply_chunk(delta_chunk("c1", Some("Let me "), None))
        .unwrap();
    assert_eq!(delta.as_deref(), Some("Let me "));
    let delta = assembler.apply_chunk(delta_chunk("c1", Some("check."), None)).unwrap();
    assert_eq!(delta.as_deref(), Some("check."));

    assembler
        .apply_chunk(delta_chunk(
            "c1",
            None,
            Some(vec![fragment(0, Some("tool:1"), Some("read_"), Some("{\"file\":"))]),
        ))
        .unwrap();
    assembler
        .apply_chunk(delta_chunk(
            "c1",
            None,
            Some(vec![fragment(0, None, Some("file"), Some("\"a.txt\"}"))]),
        ))
        .unwrap();
    assembler.apply_chunk(finish_chunk("c1", "tool_calls")).unwrap();

    match assembler.next_emission() {
        Some(little_agent::ModelResponseEvent::ToolCall(call)) => {
            assert_eq!(call.id, "tool:1");
            assert_eq!(call.name, "read_file");
            assert_eq!(call.arguments, "{\"file\":\"a.txt\"}");
        }
        other => panic!("expected a tool call, got {:?}", other),
    }
    match assembler.next_emission() {
        Some(little_agent::ModelResponseEvent::Completed(reason)) => {
            assert_eq!(reason, little_agent::ModelFinishReason::ToolCalls);
        }
        other => panic!("expected the completion, got {:?}", other),
    }
    assert!(assembler.next_emission().is_none());

    let (id, _message) = assembler.finish().unwrap();
    assert_eq!(id, "c1");
}

#[test]
fn assembler_rejects_a_changed_stream_id() {
    let mut assembler = ChunkAssembler::new();
    assembler.apply_chunk(delta_chunk("c1", Some("hi"), None)).unwrap();
    assert!(assembler.apply_chunk(delta_chunk("c2", Some("oops"), None)).is_err());
}

#[test]
fn assembler_replaces_malformed_arguments_with_null() {
    let mut assembler = ChunkAssembler::new();
    assembler
        .apply_chunk(delta_chunk(
            "c1",
            None,
            Some(vec![fragment(0, Some("tool:1"), Some("shell"), Some("{not json"))]),
        ))
        .unwrap();
    match assembler.next_emission() {
        Some(little_agent::ModelResponseEvent::ToolCall(call)) => {
            assert_eq!(call.arguments, "null");
        }
        other => panic!("expected a tool call, got {:?}", other),
    }
}

#[test]
fn assembler_maps_other_finish_reasons_to_stop() {
    let mut assembler = ChunkAssembler::new();
    assembler.apply_chunk(finish_chunk("c1", "stop")).unwrap();
    match assembler.next_emission() {
        Some(little_agent::ModelResponseEvent::Completed(reason)) => {
            assert_eq!(reason, little_agent::ModelFinishReason::Stop);
        }
        other => panic!("expected the completion, got {:?}", other),
    }
}
