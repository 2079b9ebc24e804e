use cutlass_ai::provider::{Message, ToolCall};
use cutlass_ai::responses::{replay_matches, replay_output_positions};
use cutlass_ai::responses::{plan_responses_input, responses_instructions, InputStep};
use cutlass_ai::provider::ImagePart;
use cutlass_ai::responses::{
    after_response, responses_input, responses_request_body, tool_output_input,
    tool_output_with_attachments,
};
use cutlass_ai::schema::Json;
use cutlass_ai::compat::ToolDecl;
use cutlass_ai::compat::{sse_data, UsageCounts, SSE_DONE};
use cutlass_ai::provider::{FinishReason, ProviderError};
use cutlass_ai::responses::{
    RawOutput, ContentPart, EventStep, ResponseEnvelope, ResponseItem, ResponsesEvent, ResponsesStream,
    ResponsesTurn, StreamDelta,
};

fn json_u64(v: &serde_json::Value) -> u64 {
    v.as_u64()
        .or_else(|| v.as_f64().filter(|f| f.is_finite() && *f >= 0.0).map(|f| f.round() as u64))
        .unwrap_or(0)
}

fn text_of(v: &serde_json::Value) -> Option<String> {
    v.as_str().map(str::to_string)
}

fn parts_of(v: &serde_json::Value) -> Vec<ContentPart> {
    v.as_array()
        .map(|parts| {
            parts
                .iter()
                .map(|p| ContentPart { kind: text_of(&p["type"]), text: text_of(&p["text"]) })
                .collect()
        })
        .unwrap_or_default()
}

fn item_of(v: &serde_json::Value) -> ResponseItem {
    ResponseItem {
        kind: text_of(&v["type"]),
        call_id: text_of(&v["call_id"]),
        id: text_of(&v["id"]),
        name: text_of(&v["name"]),
        arguments: text_of(&v["arguments"]),
        content: parts_of(&v["content"]),
        summary: parts_of(&v["summary"]),
    }
}

fn envelope_of(v: &serde_json::Value) -> ResponseEnvelope {
    let usage = &v["usage"];
    ResponseEnvelope {
        output: v["output"].as_array().map(|items| items.iter().map(item_of).collect()).unwrap_or_default(),
        error_message: v.get("error").filter(|e| e.is_object()).map(|e| text_of(&e["message"]).unwrap_or_default()),
        incomplete_reason: v
            .get("incomplete_details")
            .filter(|d| d.is_object())
            .map(|d| text_of(&d["reason"]).unwrap_or_default()),
        usage: if usage.is_object() {
            Some(UsageCounts {
                input_tokens: json_u64(&usage["input_tokens"]),
                cached_input_tokens: json_u64(&usage["input_tokens_details"]["cached_tokens"]),
                output_tokens: json_u64(&usage["output_tokens"]),
                cost_bits: None,
            })
        } else {
            None
        },
    }
}

fn event_of(data: &str) -> Result<ResponsesEvent, ProviderError> {
    let bad = |why: &str| ProviderError::Protocol(format!("bad Responses SSE event: {why}: {data}"));
    let v: serde_json::Value = serde_json::from_str(data).map_err(|e| bad(&e.to_string()))?;
    let kind = v["type"].as_str().ok_or_else(|| bad("missing type"))?;
    let string = |field: &str| text_of(&v[field]).ok_or_else(|| bad(field));
    let index = |field: &str| v[field].as_u64().map(|i| i as usize).ok_or_else(|| bad(field));
    Ok(match kind {
        "response.output_text.delta" => ResponsesEvent::OutputTextDelta(string("delta")?),
        "response.reasoning_summary_text.delta" => {
            ResponsesEvent::ReasoningSummaryTextDelta(string("delta")?)
        }
        "response.output_item.added" | "response.output_item.done" => ResponsesEvent::OutputItem {
            output_index: index("output_index")?,
            item: item_of(&v["item"]),
        },
        "response.function_call_arguments.delta" => ResponsesEvent::FunctionCallArgumentsDelta {
            output_index: index("output_index")?,
            delta: string("delta")?,
        },
        "response.function_call_arguments.done" => ResponsesEvent::FunctionCallArgumentsDone {
            output_index: index("output_index")?,
            arguments: string("arguments")?,
        },
        "response.completed" => ResponsesEvent::Completed(envelope_of(&v["response"])),
        "response.incomplete" => ResponsesEvent::Incomplete(envelope_of(&v["response"])),
        "response.failed" => ResponsesEvent::Failed(envelope_of(&v["response"])),
        "error" => ResponsesEvent::Error(string("message")?),
        _ => ResponsesEvent::Other,
    })
}

fn consume(fixture: &str) -> (Result<ResponsesTurn, ProviderError>, String, String) {
    let mut stream = ResponsesStream::new();
    let mut text = String::new();
    let mut reasoning = String::new();
    let forward = |delta: StreamDelta, text: &mut String, reasoning: &mut String| match delta {
        StreamDelta::Text(d) => text.push_str(&d),
        StreamDelta::ReasoningSummary(d) => reasoning.push_str(&d),
    };
    for line in fixture.lines() {
        let Some(data) = sse_data(line) else {
            continue;
        };
        if data.is_empty() {
            continue;
        }
        if data == SSE_DONE {
            break;
        }
        let event = match event_of(&data) {
            Ok(event) => event,
            Err(e) => return (Err(e), text, reasoning),
        };
        match stream.apply_event(event) {
            EventStep::Continue(Some(delta)) => forward(delta, &mut text, &mut reasoning),
            EventStep::Continue(None) => {}
            EventStep::Terminal => break,
            EventStep::Failed(e) => return (Err(e), text, reasoning),
        }
    }
    let outcome = stream.finish();
    for delta in outcome.deltas {
        forward(delta, &mut text, &mut reasoning);
    }
    (outcome.result, text, reasoning)
}

fn run(fixture: &str) -> (ResponsesTurn, String, String) {
    let (result, text, reasoning) = consume(fixture);
    (result.expect("fixture parses"), text, reasoning)
}

fn arguments(turn: &ResponsesTurn, i: usize) -> serde_json::Value {
    serde_json::from_str(&turn.tool_calls[i].arguments).expect("arguments are JSON")
}

fn protocol_message(err: ProviderError) -> String {
    match err {
        ProviderError::Protocol(message) => message,
        other => panic!("expected protocol error, got {other:?}"),
    }
}

#[test]
fn text_and_reasoning_summary_streams_stay_separate() {
    let fixture = [
        "data: {\"type\":\"response.reasoning_summary_text.delta\",\"delta\":\"I checked \"}\n",
        "data: {\"type\":\"response.reasoning_summary_text.delta\",\"delta\":\"the cuts.\"}\n",
        "data: {\"type\":\"response.output_text.delta\",\"delta\":\"Done\"}\n",
        "data: {\"type\":\"response.output_text.delta\",\"delta\":\".\"}\n",
        "data: {\"type\":\"response.completed\",\"response\":{\"output\":[",
        "{\"type\":\"reasoning\",\"encrypted_content\":\"enc\",\"summary\":[{\"type\":\"summary_text\",\"text\":\"I checked the cuts.\"}]},",
        "{\"type\":\"message\",\"content\":[{\"type\":\"output_text\",\"text\":\"Done.\"}]}",
        "]}}\n",
    ]
    .concat();
    let (turn, streamed, reasoning) = run(&fixture);
    assert_eq!(streamed, "Done.");
    assert_eq!(reasoning, "I checked the cuts.");
    assert_eq!(turn.text, "Done.");
    assert_eq!(turn.reasoning_summary, "I checked the cuts.");
    assert_eq!(turn.finish, FinishReason::Stop);
    assert!(turn.tool_calls.is_empty());
    assert!(turn.usage.is_none());
    assert!(turn.from_envelope);
}

#[test]
fn completed_event_parses_token_usage() {
    let fixture = [
        "data: {\"type\":\"response.output_text.delta\",\"delta\":\"ok\"}\n",
        "data: {\"type\":\"response.completed\",\"response\":{",
        "\"usage\":{\"input_tokens\":200,\"output_tokens\":12,\"input_tokens_details\":{\"cached_tokens\":50}},",
        "\"output\":[{\"type\":\"message\",\"content\":[{\"type\":\"output_text\",\"text\":\"ok\"}]}]",
        "}}\n",
    ]
    .concat();
    let (turn, _, _) = run(&fixture);
    assert_eq!(
        turn.usage,
        Some(UsageCounts {
            input_tokens: 200,
            cached_input_tokens: 50,
            output_tokens: 12,
            cost_bits: None,
        })
    );
}

#[test]
fn incomplete_event_parses_token_usage() {
    let fixture = [
        "data: {\"type\":\"response.output_text.delta\",\"delta\":\"partial\"}\n",
        "data: {\"type\":\"response.incomplete\",\"response\":{",
        "\"incomplete_details\":{\"reason\":\"max_output_tokens\"},",
        "\"usage\":{\"input_tokens\":200,\"output_tokens\":64,\"input_tokens_details\":{\"cached_tokens\":50}},",
        "\"output\":[{\"type\":\"message\",\"content\":[{\"type\":\"output_text\",\"text\":\"partial\"}]}]",
        "}}\n",
    ]
    .concat();
    let (turn, _, _) = run(&fixture);
    assert_eq!(turn.finish, FinishReason::Length);
    assert_eq!(turn.text, "partial");
    assert_eq!(
        turn.usage,
        Some(UsageCounts {
            input_tokens: 200,
            cached_input_tokens: 50,
            output_tokens: 64,
            cost_bits: None,
        })
    );
}

#[test]
fn completed_output_parses_parallel_function_calls() {
    let fixture = [
        "data: {\"type\":\"response.function_call_arguments.delta\",\"output_index\":0,\"delta\":\"{\\\"clip\\\":\"}\n",
        "data: {\"type\":\"response.function_call_arguments.done\",\"output_index\":0,\"arguments\":\"{\\\"clip\\\":1}\"}\n",
        "data: {\"type\":\"response.completed\",\"response\":{\"output\":[",
        "{\"type\":\"function_call\",\"id\":\"fc_a\",\"call_id\":\"call_a\",\"name\":\"remove_clip\",\"arguments\":\"{\\\"clip\\\":1}\"},",
        "{\"type\":\"function_call\",\"id\":\"fc_b\",\"call_id\":\"call_b\",\"name\":\"remove_clip\",\"arguments\":\"{\\\"clip\\\":2}\"}",
        "]}}\n",
    ]
    .concat();
    let (turn, streamed, reasoning) = run(&fixture);
    assert!(streamed.is_empty());
    assert!(reasoning.is_empty());
    assert_eq!(turn.finish, FinishReason::ToolCalls);
    assert_eq!(turn.tool_calls.len(), 2);
    assert_eq!(turn.tool_calls[0].id, "call_a");
    assert_eq!(arguments(&turn, 0)["clip"], 1);
    assert_eq!(turn.tool_calls[1].id, "call_b");
    assert_eq!(arguments(&turn, 1)["clip"], 2);
}

#[test]
fn output_item_events_are_a_terminal_output_fallback() {
    let fixture = [
        "data: {\"type\":\"response.output_item.added\",\"output_index\":0,\"item\":{\"type\":\"function_call\",\"call_id\":\"call_1\",\"name\":\"remove_clip\",\"arguments\":\"\"}}\n",
        "data: {\"type\":\"response.function_call_arguments.delta\",\"output_index\":0,\"delta\":\"{\\\"clip\\\":3}\"}\n",
        "data: {\"type\":\"response.completed\",\"response\":{\"output\":[]}}\n",
    ]
    .concat();
    let (turn, _, _) = run(&fixture);
    assert_eq!(turn.tool_calls.len(), 1);
    assert_eq!(arguments(&turn, 0)["clip"], 3);
}

#[test]
fn fallback_items_come_out_in_output_index_order() {
    let fixture = [
        "data: {\"type\":\"response.output_item.done\",\"output_index\":2,\"item\":{\"type\":\"message\",\"content\":[{\"type\":\"output_text\",\"text\":\"B\"}]}}\n",
        "data: {\"type\":\"response.output_item.done\",\"output_index\":0,\"item\":{\"type\":\"message\",\"content\":[{\"type\":\"output_text\",\"text\":\"A\"}]}}\n",
        "data: {\"type\":\"response.function_call_arguments.done\",\"output_index\":1,\"arguments\":\"{}\"}\n",
        "data: {\"type\":\"response.completed\",\"response\":{\"output\":[]}}\n",
    ]
    .concat();
    let (result, streamed, _) = consume(&fixture);
    assert_eq!(streamed, "AB");
    assert_eq!(
        protocol_message(result.unwrap_err()),
        "Responses function call is missing call_id"
    );
}

#[test]
fn terminal_display_events_are_forwarded_when_deltas_are_absent() {
    let fixture = [
        "data: {\"type\":\"response.completed\",\"response\":{\"output\":[",
        "{\"type\":\"reasoning\",\"summary\":[{\"type\":\"summary_text\",\"text\":\"Checked the result.\"}]},",
        "{\"type\":\"message\",\"content\":[{\"type\":\"output_text\",\"text\":\"Complete answer\"}]}",
        "]}}\n",
    ]
    .concat();
    let (turn, streamed, reasoning) = run(&fixture);
    assert_eq!(streamed, "Complete answer");
    assert_eq!(reasoning, "Checked the result.");
    assert_eq!(turn.text, streamed);
    assert_eq!(turn.reasoning_summary, reasoning);
}

#[test]
fn malformed_events_arguments_and_missing_terminal_are_errors() {
    let (malformed, _, _) = consume("data: {not json}\n");
    assert!(matches!(malformed.unwrap_err(), ProviderError::Protocol(_)));

    let bad_arguments = [
        "data: {\"type\":\"response.completed\",\"response\":{\"output\":[",
        "{\"type\":\"function_call\",\"call_id\":\"call_1\",\"name\":\"trim_clip\",\"arguments\":\"{oops\"}",
        "]}}\n",
    ]
    .concat();
    let (error, _, _) = consume(&bad_arguments);
    let message = protocol_message(error.unwrap_err());
    assert!(message.contains("trim_clip"), "{message}");

    let (no_terminal, _, _) =
        consume("data: {\"type\":\"response.output_text.delta\",\"delta\":\"partial\"}\n");
    let message = protocol_message(no_terminal.unwrap_err());
    assert!(message.contains("terminal event"), "{message}");
}

#[test]
fn incomplete_for_tokens_finishes_for_length() {
    let fixture = [
        "data: {\"type\":\"response.output_text.delta\",\"delta\":\"Partial\"}\n",
        "data: {\"type\":\"response.incomplete\",\"response\":{\"incomplete_details\":{\"reason\":\"max_output_tokens\"},\"output\":[]}}\n",
    ]
    .concat();
    let (turn, streamed, reasoning) = run(&fixture);
    assert_eq!(streamed, "Partial");
    assert!(reasoning.is_empty());
    assert_eq!(turn.finish, FinishReason::Length);
    assert!(turn.tool_calls.is_empty());
}

#[test]
fn failed_and_unknown_incomplete_responses_report_provider_details() {
    let (stream_error, _, _) = consume(
        "data: {\"type\":\"error\",\"code\":\"server_error\",\"message\":\"stream broke\",\"param\":null}\n",
    );
    let message = protocol_message(stream_error.unwrap_err());
    assert!(message.contains("stream broke"), "{message}");

    let (failed, _, _) = consume(
        "data: {\"type\":\"response.failed\",\"response\":{\"error\":{\"message\":\"model unavailable\"}}}\n",
    );
    let message = protocol_message(failed.unwrap_err());
    assert!(message.contains("model unavailable"), "{message}");

    let (incomplete, _, _) = consume(
        "data: {\"type\":\"response.incomplete\",\"response\":{\"incomplete_details\":{\"reason\":\"content_filter\"},\"output\":[]}}\n",
    );
    let message = protocol_message(incomplete.unwrap_err());
    assert!(message.contains("content_filter"), "{message}");
}

#[test]
fn failed_response_without_message_names_an_unknown_error() {
    let (failed, _, _) = consume("data: {\"type\":\"response.failed\",\"response\":{}}\n");
    assert_eq!(
        protocol_message(failed.unwrap_err()),
        "Responses request failed: unknown provider error"
    );
}

#[test]
fn function_calls_need_an_id_and_a_name() {
    let no_name = [
        "data: {\"type\":\"response.completed\",\"response\":{\"output\":[",
        "{\"type\":\"function_call\",\"id\":\"fc_1\",\"arguments\":\"\"}",
        "]}}\n",
    ]
    .concat();
    let (result, _, _) = consume(&no_name);
    assert_eq!(
        protocol_message(result.unwrap_err()),
        "Responses function call fc_1 is missing a name"
    );
}

#[test]
fn replay_matches_only_the_recorded_round() {
    let call = |id: &str| ToolCall { id: id.into(), name: "remove_clip".into(), arguments: "{}".into() };
    let messages = vec![
        Message::user("go"),
        Message::Assistant { content: String::new(), tool_calls: vec![call("a"), call("b")] },
        Message::tool_result("a", "ok"),
        Message::tool_result("x", "ok"),
        Message::tool_result("b", "ok"),
    ];
    let ids = vec!["a".to_string(), "b".to_string()];
    assert!(replay_matches(1, &ids, &messages));
    assert_eq!(replay_output_positions(1, &ids, &messages), vec![2, 4]);
    assert!(!replay_matches(0, &ids, &messages), "position 0 is not an assistant turn");
    assert!(!replay_matches(9, &ids, &messages));
    assert!(!replay_matches(1, &vec!["a".to_string()], &messages), "b was not recorded");
    let unanswered = vec![
        Message::Assistant { content: String::new(), tool_calls: vec![call("a")] },
        Message::tool_result("z", "ok"),
    ];
    assert!(!replay_matches(0, &vec!["a".to_string()], &unanswered));
}

#[test]
fn responses_input_skips_system_and_empty_assistant_text() {
    let messages = vec![
        Message::system("rules"),
        Message::user("go"),
        Message::Assistant {
            content: String::new(),
            tool_calls: vec![ToolCall { id: "a".into(), name: "n".into(), arguments: "{}".into() }],
        },
        Message::tool_result("a", "ok"),
        Message::assistant_text("done"),
        Message::system("more"),
    ];
    assert_eq!(
        plan_responses_input(&messages, messages.len()),
        vec![
            InputStep::User(1),
            InputStep::FunctionCall(2, 0),
            InputStep::ToolOutput(3),
            InputStep::AssistantText(4),
        ]
    );
    assert_eq!(plan_responses_input(&messages, 2), vec![InputStep::User(1)]);
    assert_eq!(responses_instructions(&messages), "rules\n\nmore");
}

#[test]
fn tool_outputs_with_images_name_their_attachments() {
    let images = vec![ImagePart::png(vec![1], "a"), ImagePart::jpeg(vec![2], "b")];
    assert_eq!(tool_output_with_attachments("shot", &images), "shot\n[attachments: a, b]");
}

/// The value under `key` in a JSON object.
fn json_field<'a>(value: &'a Json, key: &str) -> &'a Json {
    match value {
        Json::Object(entries) => &entries.iter().find(|(k, _)| k == key).expect("key present").1,
        other => panic!("not an object: {other:?}"),
    }
}

fn json_text(value: &Json) -> &str {
    match value {
        Json::Str(s) => s,
        other => panic!("not a string: {other:?}"),
    }
}

fn json_items(value: &Json) -> &Vec<Json> {
    match value {
        Json::Array(items) => items,
        other => panic!("not an array: {other:?}"),
    }
}

#[test]
fn tool_calls_and_outputs_become_native_items() {
    let messages = vec![
        Message::user("make a montage"),
        Message::Assistant {
            content: String::new(),
            tool_calls: vec![ToolCall { id: "call_a".into(), name: "media_asset_strip".into(), arguments: "{\"media_id\":1}".into() }],
        },
        Message::ToolResult {
            call_id: "call_a".into(),
            content: "strip ready".into(),
            images: vec![ImagePart::jpeg(vec![9, 8], "source strip")],
        },
        Message::tool_result("call_b", "project state"),
    ];
    let input = responses_input(&messages, messages.len());
    assert_eq!(input.len(), 4);
    assert_eq!(json_text(json_field(&input[1], "type")), "function_call");
    assert_eq!(json_text(json_field(&input[1], "call_id")), "call_a");
    assert_eq!(json_text(json_field(&input[1], "arguments")), "{\"media_id\":1}");
    assert_eq!(json_text(json_field(&input[2], "type")), "function_call_output");
    let output = json_items(json_field(&input[2], "output"));
    assert_eq!(json_text(json_field(&output[0], "text")), "strip ready\n[attachments: source strip]");
    assert_eq!(json_text(json_field(&output[1], "type")), "input_image");
    assert_eq!(json_text(json_field(&input[3], "output")), "project state");
    assert_eq!(tool_output_input(&messages[3]), input[3]);
    assert_eq!(tool_output_input(&messages[0]), Json::Null);
}

/// A JSON document as the library holds it.
fn parse(text: &str) -> Json {
    fn convert(value: serde_json::Value) -> Json {
        match value {
            serde_json::Value::Null => Json::Null,
            serde_json::Value::Bool(b) => Json::Bool(b),
            serde_json::Value::Number(n) => Json::Number(n.to_string()),
            serde_json::Value::String(s) => Json::Str(s),
            serde_json::Value::Array(items) => Json::Array(items.into_iter().map(convert).collect()),
            serde_json::Value::Object(map) => Json::Object(map.into_iter().map(|(k, v)| (k, convert(v))).collect()),
        }
    }
    convert(serde_json::from_str(text).expect("test JSON parses"))
}

fn input_of(body: &Json) -> &Vec<Json> {
    json_items(json_field(body, "input"))
}

fn mentions(value: &Json, needle: &str) -> bool {
    match value {
        Json::Str(s) | Json::Number(s) => s.contains(needle),
        Json::Array(items) => items.iter().any(|v| mentions(v, needle)),
        Json::Object(entries) => entries.iter().any(|(k, v)| k.contains(needle) || mentions(v, needle)),
        _ => false,
    }
}

fn call(id: &str, name: &str, arguments: &str) -> ToolCall {
    ToolCall { id: id.into(), name: name.into(), arguments: arguments.into() }
}

#[test]
fn encrypted_reasoning_and_parallel_calls_replay_with_native_outputs() {
    let output = vec![
        parse(r#"{"type":"reasoning","id":"rs_1","encrypted_content":"encrypted-private-state","summary":[{"type":"summary_text","text":"I inspected both clips."}]}"#),
        parse(r#"{"type":"function_call","id":"fc_1","call_id":"call_a","name":"media_asset_strip","arguments":"{\"media_id\":1}"}"#),
        parse(r#"{"type":"function_call","id":"fc_2","call_id":"call_b","name":"describe_project","arguments":"{}"}"#),
    ];
    let tool_calls = vec![
        call("call_a", "media_asset_strip", "{\"media_id\":1}"),
        call("call_b", "describe_project", "{}"),
    ];
    let base_messages = vec![Message::system("system"), Message::user("make a montage")];
    let state = after_response(None, &base_messages, true, vec!["call_a".into(), "call_b".into()], output);

    let mut messages = base_messages;
    messages.extend([
        Message::Assistant { content: String::new(), tool_calls },
        Message::ToolResult {
            call_id: "call_a".into(),
            content: "strip ready".into(),
            images: vec![ImagePart::jpeg(vec![9, 8], "source strip")],
        },
        Message::tool_result("call_b", "project state"),
    ]);
    let body = responses_request_body("gpt-reasoning", &messages, vec![], true, &state);
    let input = input_of(&body);
    assert_eq!(input.len(), 6);
    assert_eq!(json_text(json_field(&input[0], "role")), "user");
    assert_eq!(json_text(json_field(&input[1], "type")), "reasoning");
    assert_eq!(json_text(json_field(&input[1], "encrypted_content")), "encrypted-private-state");
    assert_eq!(json_text(json_field(&input[2], "call_id")), "call_a");
    assert_eq!(json_text(json_field(&input[3], "call_id")), "call_b");
    assert_eq!(json_text(json_field(&input[4], "type")), "function_call_output");
    assert_eq!(json_text(json_field(&input[4], "call_id")), "call_a");
    assert_eq!(json_text(json_field(&json_items(json_field(&input[4], "output"))[1], "type")), "input_image");
    assert_eq!(json_text(json_field(&input[5], "call_id")), "call_b");
}

#[test]
fn unrelated_request_does_not_replay_stale_output() {
    let state = after_response(
        None,
        &vec![Message::system("old"), Message::user("old prompt")],
        true,
        vec!["old_call".into()],
        vec![parse(r#"{"type":"reasoning","encrypted_content":"must-not-leak"}"#)],
    );
    let messages = vec![Message::system("new"), Message::user("new prompt")];
    let body = responses_request_body("gpt-reasoning", &messages, vec![], true, &state);
    assert_eq!(input_of(&body).len(), 1);
    assert!(!mentions(&body, "must-not-leak"));
}

#[test]
fn consecutive_tool_rounds_preserve_every_exact_item_since_the_user() {
    let mut messages = vec![Message::system("system"), Message::user("edit this")];
    let state = after_response(
        None,
        &messages,
        true,
        vec!["call_1".into()],
        vec![
            parse(r#"{"type":"reasoning","encrypted_content":"encrypted-round-1","summary":[]}"#),
            parse(r#"{"type":"function_call","call_id":"call_1","name":"describe_project","arguments":"{}"}"#),
        ],
    );
    messages.push(Message::Assistant { content: String::new(), tool_calls: vec![call("call_1", "describe_project", "{}")] });
    messages.push(Message::tool_result("call_1", "round one result"));

    let state = after_response(
        state,
        &messages,
        true,
        vec!["call_2".into()],
        vec![
            parse(r#"{"type":"reasoning","encrypted_content":"encrypted-round-2","summary":[]}"#),
            parse(r#"{"type":"function_call","call_id":"call_2","name":"remove_clip","arguments":"{\"clip\":7}"}"#),
        ],
    );
    messages.push(Message::Assistant { content: String::new(), tool_calls: vec![call("call_2", "remove_clip", "{\"clip\":7}")] });
    messages.push(Message::tool_result("call_2", "round two result"));

    let body = responses_request_body("gpt-reasoning", &messages, vec![], true, &state);
    let input = input_of(&body);
    assert_eq!(input.len(), 7);
    assert_eq!(json_text(json_field(&input[0], "role")), "user");
    assert_eq!(json_text(json_field(&input[1], "encrypted_content")), "encrypted-round-1");
    assert_eq!(json_text(json_field(&input[2], "call_id")), "call_1");
    assert_eq!(json_text(json_field(&input[3], "call_id")), "call_1");
    assert_eq!(json_text(json_field(&input[3], "output")), "round one result");
    assert_eq!(json_text(json_field(&input[4], "encrypted_content")), "encrypted-round-2");
    assert_eq!(json_text(json_field(&input[5], "call_id")), "call_2");
    assert_eq!(json_text(json_field(&input[6], "call_id")), "call_2");
    assert_eq!(json_text(json_field(&input[6], "output")), "round two result");
}

#[test]
fn request_maps_instructions_multimodal_input_and_native_tools() {
    let messages = vec![
        Message::system("Fresh project snapshot."),
        Message::User {
            content: "Inspect this frame.".into(),
            images: vec![ImagePart::png(vec![1, 2, 3], "preview")],
        },
    ];
    let tools = vec![ToolDecl { name: "trim_clip".into(), description: "Trim a clip".into(), parameters: parse(r#"{"type":"object"}"#) }];
    let body = responses_request_body("gpt-reasoning", &messages, tools, true, &None);
    assert_eq!(json_text(json_field(&body, "model")), "gpt-reasoning");
    assert_eq!(json_field(&body, "stream"), &Json::Bool(true));
    assert_eq!(json_field(&body, "store"), &Json::Bool(false));
    assert_eq!(json_text(json_field(&body, "instructions")), "Fresh project snapshot.");
    assert_eq!(json_text(&json_items(json_field(&body, "include"))[0]), "reasoning.encrypted_content");
    assert_eq!(json_text(json_field(json_field(&body, "reasoning"), "summary")), "auto");
    let input = input_of(&body);
    assert_eq!(input.len(), 1);
    assert_eq!(json_text(json_field(&input[0], "role")), "user");
    let content = json_items(json_field(&input[0], "content"));
    assert_eq!(json_text(json_field(&content[0], "type")), "input_text");
    assert_eq!(json_text(json_field(&content[1], "type")), "input_image");
    assert!(json_text(json_field(&content[1], "image_url")).starts_with("data:image/png;base64,"));
    let tool = &json_items(json_field(&body, "tools"))[0];
    assert_eq!(json_text(json_field(tool, "type")), "function");
    assert_eq!(json_text(json_field(tool, "name")), "trim_clip");
    assert_eq!(json_field(tool, "strict"), &Json::Bool(false));
    assert!(match tool { Json::Object(entries) => entries.iter().all(|(k, _)| k != "function"), _ => false });
}

#[test]
fn mixed_history_uses_role_specific_content_parts_and_summary_off() {
    let messages = vec![
        Message::system("system"),
        Message::user("Prior question"),
        Message::assistant_text("Prior answer"),
        Message::user("Current question"),
    ];
    let body = responses_request_body("gpt-reasoning", &messages, vec![], false, &None);
    let keys: Vec<&str> = match &body {
        Json::Object(entries) => entries.iter().map(|(k, _)| k.as_str()).collect(),
        _ => vec![],
    };
    assert!(!keys.contains(&"reasoning"));
    assert!(!keys.contains(&"tools"));
    assert_eq!(json_field(&body, "store"), &Json::Bool(false));
    let input = input_of(&body);
    assert_eq!(json_text(json_field(&input[0], "role")), "user");
    let first = json_items(json_field(&input[0], "content"));
    assert_eq!(json_text(json_field(&first[0], "type")), "input_text");
    assert_eq!(json_text(json_field(&first[0], "text")), "Prior question");
    assert_eq!(json_text(json_field(&input[1], "role")), "assistant");
    let second = json_items(json_field(&input[1], "content"));
    assert_eq!(json_text(json_field(&second[0], "type")), "output_text");
    assert_eq!(json_text(json_field(&second[0], "text")), "Prior answer");
    assert_eq!(json_text(json_field(&input[2], "role")), "user");
    let third = json_items(json_field(&input[2], "content"));
    assert_eq!(json_text(json_field(&third[0], "type")), "input_text");
    assert_eq!(json_text(json_field(&third[0], "text")), "Current question");
}

#[test]
fn a_text_answer_clears_the_replay_state() {
    let messages = vec![Message::user("hi")];
    assert!(after_response(None, &messages, false, vec![], vec![]).is_none());
}

fn member<'a>(value: &'a Json, key: &str) -> Option<&'a Json> {
    match value {
        Json::Object(entries) => entries.iter().find(|(k, _)| k == key).map(|(_, v)| v),
        _ => None,
    }
}

#[test]
fn raw_output_items_keep_provider_fields_and_stream_arguments() {
    let mut raw = RawOutput::new();
    raw.put(
        3,
        Json::Object(vec![
            ("type".to_string(), Json::Str("reasoning".to_string())),
            ("encrypted_content".to_string(), Json::Str("opaque".to_string())),
        ]),
    );
    raw.put(
        1,
        Json::Object(vec![
            ("type".to_string(), Json::Str("function_call".to_string())),
            ("arguments".to_string(), Json::Str("{\"a\"".to_string())),
        ]),
    );
    raw.append_arguments(1, ":1}");
    raw.append_arguments(7, "{}");
    raw.set_arguments(9, "{\"b\":2}");
    let items = raw.into_items();
    assert_eq!(items.len(), 4);
    assert_eq!(member(&items[0], "arguments"), Some(&Json::Str("{\"a\":1}".to_string())));
    assert_eq!(member(&items[1], "encrypted_content"), Some(&Json::Str("opaque".to_string())));
    assert_eq!(member(&items[2], "type"), Some(&Json::Str("function_call".to_string())));
    assert_eq!(member(&items[2], "arguments"), Some(&Json::Str("{}".to_string())));
    assert_eq!(member(&items[3], "arguments"), Some(&Json::Str("{\"b\":2}".to_string())));
}
