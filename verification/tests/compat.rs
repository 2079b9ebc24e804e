use cutlass_ai::compat::{
    attachments_intro, chat_messages, chat_request_body, image_data_url, plan_openai_messages, ToolDecl,
    WireStep,
};
use cutlass_ai::schema::Json;
use cutlass_ai::provider::{ImagePart, Message, ToolCall};
use cutlass_ai::compat::{
    chat_error_message, is_stream_options_rejection, openrouter_compat_extras, retry_delay,
    retryable_status, sse_data, truncate, CompatChunk, CompatStream, OpenAiCompatExtras,
    StreamedTurn, ToolFragment, UsageCounts, SSE_DONE,
};
use cutlass_ai::provider::{FinishReason, ProviderError};

fn json_u64(v: &serde_json::Value) -> u64 {
    v.as_u64()
        .or_else(|| v.as_f64().filter(|f| f.is_finite() && *f >= 0.0).map(|f| f.round() as u64))
        .unwrap_or(0)
}

fn chunk_of(value: &serde_json::Value) -> CompatChunk {
    let usage_json = &value["usage"];
    let usage = if usage_json.is_object() {
        Some(UsageCounts {
            input_tokens: json_u64(&usage_json["prompt_tokens"]),
            cached_input_tokens: json_u64(&usage_json["prompt_tokens_details"]["cached_tokens"]),
            output_tokens: json_u64(&usage_json["completion_tokens"]),
            cost_bits: usage_json["cost"].as_f64().map(f64::to_bits),
        })
    } else {
        None
    };
    let choice = value["choices"].get(0);
    let mut chunk = CompatChunk {
        usage,
        has_choice: choice.is_some(),
        finish_reason: None,
        content: None,
        tool_calls: Vec::new(),
    };
    if let Some(choice) = choice {
        chunk.finish_reason = choice["finish_reason"].as_str().map(str::to_string);
        let delta = &choice["delta"];
        chunk.content = delta["content"].as_str().map(str::to_string);
        if let Some(fragments) = delta["tool_calls"].as_array() {
            for fragment in fragments {
                chunk.tool_calls.push(ToolFragment {
                    index: fragment["index"].as_u64(),
                    id: fragment["id"].as_str().map(str::to_string),
                    name: fragment["function"]["name"].as_str().map(str::to_string),
                    arguments: fragment["function"]["arguments"].as_str().map(str::to_string),
                });
            }
        }
    }
    chunk
}

fn consume(fixture: &str) -> Result<(StreamedTurn, String), ProviderError> {
    let mut stream = CompatStream::new();
    let mut streamed = String::new();
    for line in fixture.lines() {
        let Some(data) = sse_data(line) else {
            continue;
        };
        if data == SSE_DONE {
            break;
        }
        let value: serde_json::Value = serde_json::from_str(&data)
            .map_err(|e| ProviderError::Protocol(format!("bad SSE chunk: {e}: {data}")))?;
        if let Some(delta) = stream.apply_chunk(&chunk_of(&value)) {
            streamed.push_str(&delta);
        }
    }
    Ok((stream.finish_turn()?, streamed))
}

fn run(fixture: &str) -> (StreamedTurn, String) {
    consume(&fixture).expect("fixture parses")
}

fn arguments(turn: &StreamedTurn, i: usize) -> serde_json::Value {
    serde_json::from_str(&turn.tool_calls[i].arguments).expect("arguments are JSON")
}

#[test]
fn text_only_stream() {
    let fixture = [
        "data: {\"choices\":[{\"delta\":{\"role\":\"assistant\",\"content\":\"\"}}]}\n",
        "data: {\"choices\":[{\"delta\":{\"content\":\"The timeline \"}}]}\n",
        "\n",
        "data: {\"choices\":[{\"delta\":{\"content\":\"is 12s long.\"}}]}\n",
        "data: {\"choices\":[{\"delta\":{},\"finish_reason\":\"stop\"}]}\n",
        "data: [DONE]\n",
    ].concat();
    let (turn, streamed) = run(&fixture);
    assert_eq!(turn.text, "The timeline is 12s long.");
    assert_eq!(streamed, turn.text);
    assert_eq!(turn.finish, FinishReason::Stop);
    assert!(turn.tool_calls.is_empty());
    assert!(turn.usage.is_none());
}

#[test]
fn usage_only_final_chunk_is_parsed() {
    let fixture = [
        "data: {\"choices\":[{\"delta\":{\"content\":\"hi\"}}]}\n",
        "data: {\"choices\":[{\"delta\":{},\"finish_reason\":\"stop\"}]}\n",
        "data: {\"choices\":[],\"usage\":{\"prompt_tokens\":120,\"completion_tokens\":8,\"prompt_tokens_details\":{\"cached_tokens\":100},\"cost\":0.0042}}\n",
        "data: [DONE]\n",
    ].concat();
    let (turn, _) = run(&fixture);
    assert_eq!(
        turn.usage,
        Some(UsageCounts {
            input_tokens: 120,
            cached_input_tokens: 100,
            output_tokens: 8,
            cost_bits: Some(0.0042f64.to_bits()),
        })
    );
}

#[test]
fn trailing_empty_usage_does_not_clobber() {
    let fixture = [
        "data: {\"choices\":[],\"usage\":{\"prompt_tokens\":5,\"completion_tokens\":1}}\n",
        "data: {\"choices\":[],\"usage\":{}}\n",
        "data: [DONE]\n",
    ].concat();
    let (turn, _) = run(&fixture);
    assert_eq!(turn.usage.map(|u| u.input_tokens), Some(5));
}

#[test]
fn tool_call_assembles_from_fragments() {
    let fixture = [
        "data: {\"choices\":[{\"delta\":{\"tool_calls\":[{\"index\":0,\"id\":\"call_1\",\"function\":{\"name\":\"trim_clip\",\"arguments\":\"\"}}]}}]}\n",
        "data: {\"choices\":[{\"delta\":{\"tool_calls\":[{\"index\":0,\"function\":{\"arguments\":\"{\\\"clip\\\": 12,\"}}]}}]}\n",
        "data: {\"choices\":[{\"delta\":{\"tool_calls\":[{\"index\":0,\"function\":{\"arguments\":\" \\\"start\\\": 14.0, \\\"duration\\\": 4.0}\"}}]}}]}\n",
        "data: {\"choices\":[{\"delta\":{},\"finish_reason\":\"tool_calls\"}]}\n",
        "data: [DONE]\n",
    ].concat();
    let (turn, _) = run(&fixture);
    assert_eq!(turn.finish, FinishReason::ToolCalls);
    assert_eq!(turn.tool_calls.len(), 1);
    let call = &turn.tool_calls[0];
    assert_eq!(call.id, "call_1");
    assert_eq!(call.name, "trim_clip");
    assert_eq!(
        arguments(&turn, 0),
        serde_json::from_str::<serde_json::Value>("{ \"clip\": 12, \"start\": 14.0, \"duration\": 4.0 }").unwrap()
    );
}

#[test]
fn parallel_tool_calls_keep_their_indices() {
    let fixture = [
        "data: {\"choices\":[{\"delta\":{\"tool_calls\":[{\"index\":0,\"id\":\"a\",\"function\":{\"name\":\"remove_clip\",\"arguments\":\"{\\\"clip\\\":1}\"}}]}}]}\n",
        "data: {\"choices\":[{\"delta\":{\"tool_calls\":[{\"index\":1,\"id\":\"b\",\"function\":{\"name\":\"remove_clip\",\"arguments\":\"{\\\"clip\\\":2}\"}}]}}]}\n",
        "data: {\"choices\":[{\"delta\":{},\"finish_reason\":\"tool_calls\"}]}\n",
        "data: [DONE]\n",
    ].concat();
    let (turn, _) = run(&fixture);
    assert_eq!(turn.tool_calls.len(), 2);
    assert_eq!(arguments(&turn, 0)["clip"], 1);
    assert_eq!(arguments(&turn, 1)["clip"], 2);
}

#[test]
fn calls_without_finish_reason_finish_for_tools_and_blank_arguments_read_as_empty_object() {
    let fixture = [
        "data: {\"choices\":[{\"delta\":{\"tool_calls\":[{\"index\":1,\"id\":\"b\",\"function\":{\"name\":\"describe_project\",\"arguments\":\"  \"}}]}}]}\n",
        "data: [DONE]\n",
    ].concat();
    let (turn, _) = run(&fixture);
    assert_eq!(turn.finish, FinishReason::ToolCalls);
    assert_eq!(turn.tool_calls.len(), 2, "index 1 grows the list past an empty slot 0");
    assert_eq!(turn.tool_calls[0].arguments, "{}");
    assert_eq!(turn.tool_calls[1].id, "b");
    assert_eq!(turn.tool_calls[1].arguments, "{}");
}

#[test]
fn malformed_chunks_and_arguments_are_protocol_errors() {
    let err = consume("data: {not json}\n").unwrap_err();
    assert!(matches!(err, ProviderError::Protocol(_)));

    let fixture = [
        "data: {\"choices\":[{\"delta\":{\"tool_calls\":[{\"index\":0,\"id\":\"x\",\"function\":{\"name\":\"trim_clip\",\"arguments\":\"{oops\"}}]}}]}\n",
        "data: [DONE]\n",
    ].concat();
    let err = consume(&fixture).unwrap_err();
    match err {
        ProviderError::Protocol(msg) => assert!(msg.contains("trim_clip"), "{msg}"),
        other => panic!("expected protocol error, got {other:?}"),
    }
}

#[test]
fn sse_lines_carry_trimmed_data_only_after_the_prefix() {
    assert_eq!(sse_data("data:  {\"a\":1} ").as_deref(), Some("{\"a\":1}"));
    assert_eq!(sse_data("data:[DONE]").as_deref(), Some("[DONE]"));
    assert_eq!(sse_data(": keep-alive"), None);
    assert_eq!(sse_data("event: ping"), None);
    assert_eq!(sse_data(""), None);
}

#[test]
fn retry_backoff_is_two_attempts_then_give_up() {
    assert_eq!(retry_delay(0), Some(300));
    assert_eq!(retry_delay(1), Some(900));
    assert_eq!(retry_delay(2), None);
    assert_eq!(retry_delay(99), None);
}

#[test]
fn only_transient_http_statuses_retry() {
    for status in [408, 429, 500, 502, 599] {
        assert!(retryable_status(status), "{status}");
    }
    for status in [400, 401, 402, 403, 404, 422, 600] {
        assert!(!retryable_status(status), "{status}");
    }
}

#[test]
fn reasoning_tool_compatibility_errors_point_to_responses_setting() {
    let message = chat_error_message(
        400,
        "reasoning_effort is not supported when function tools are present",
    );
    assert!(
        message.contains("choose the Responses API protocol"),
        "{message}"
    );

    let unrelated = chat_error_message(400, "invalid JSON schema");
    assert!(!unrelated.contains("Responses API protocol"), "{unrelated}");
}

#[test]
fn reasoning_note_needs_status_400() {
    let message = chat_error_message(500, "Reasoning Effort conflicts with tools");
    assert_eq!(message, "Reasoning Effort conflicts with tools");
    let upper = chat_error_message(400, "Reasoning Effort conflicts with TOOLS");
    assert!(upper.ends_with("choose the Responses API protocol."));
}

#[test]
fn stream_options_rejections_are_recognised_case_insensitively() {
    assert!(is_stream_options_rejection(400, "Unknown field STREAM_OPTIONS"));
    assert!(!is_stream_options_rejection(422, "stream_options"));
    assert!(!is_stream_options_rejection(400, "bad request"));
}

#[test]
fn truncate_cuts_at_a_character_boundary() {
    assert_eq!(truncate("hello", 5), "hello");
    assert_eq!(truncate("hello", 3), "hel…");
    assert_eq!(truncate("héllo", 2), "h…");
    assert_eq!(truncate("héllo", 3), "hé…");
    assert_eq!(truncate("", 0), "");
}

#[test]
fn openrouter_extras_pin_open_weight_models() {
    let pinned = openrouter_compat_extras("openai/gpt-oss-120b");
    assert!(pinned.openrouter_headers && pinned.usage_accounting && pinned.prompt_caching);
    assert!(pinned.provider_order.as_ref().is_some_and(|o| !o.is_empty()));

    let plain = openrouter_compat_extras("not/a-model");
    assert!(plain.openrouter_headers);
    assert_eq!(plain.provider_order, None);
    assert!(!plain.allow_fallbacks);

    let defaults = OpenAiCompatExtras::default();
    assert!(!defaults.openrouter_headers && defaults.provider_order.is_none());
}

#[test]
fn usage_counts_add_saturating_and_report_emptiness() {
    let mut total = UsageCounts {
        input_tokens: 0,
        cached_input_tokens: 0,
        output_tokens: 0,
        cost_bits: None,
    };
    assert!(total.is_empty());
    total.add_counts(&UsageCounts {
        input_tokens: 10,
        cached_input_tokens: 4,
        output_tokens: 2,
        cost_bits: None,
    });
    assert!(!total.is_empty());
    assert_eq!((total.input_tokens, total.cached_input_tokens, total.output_tokens), (10, 4, 2));
    total.add_counts(&UsageCounts {
        input_tokens: u64::MAX,
        cached_input_tokens: 1,
        output_tokens: 3,
        cost_bits: None,
    });
    assert_eq!(total.input_tokens, u64::MAX);
    assert_eq!(total.output_tokens, 5);
}

#[test]
fn parallel_tool_results_all_precede_hoisted_images() {
    let messages = vec![
        Message::Assistant {
            content: String::new(),
            tool_calls: vec![
                ToolCall {
                    id: "call_a".into(),
                    name: "media_preview_frame".into(),
                    arguments: "{}".into(),
                },
                ToolCall {
                    id: "call_b".into(),
                    name: "describe_project".into(),
                    arguments: "{}".into(),
                },
            ],
        },
        Message::ToolResult {
            call_id: "call_a".into(),
            content: "frame ready".into(),
            images: vec![ImagePart::png(vec![1, 2], "preview frame")],
        },
        Message::tool_result("call_b", "project summary"),
    ];
    // Roles on the wire: assistant, tool (call_a), tool (call_b), then one
    // user message carrying the hoisted images.
    assert_eq!(
        plan_openai_messages(&messages),
        vec![
            WireStep::Message(0),
            WireStep::ToolResponse(1),
            WireStep::ToolResponse(2),
            WireStep::Attachments { start: 1, end: 3 },
        ]
    );
    assert!(attachments_intro(&messages, 1, 3).contains("call_a: preview frame"));
}

#[test]
fn tool_result_images_hoist_into_a_synthetic_user_message() {
    let with_images = vec![Message::ToolResult {
        call_id: "call_1".into(),
        content: "screenshot taken".into(),
        images: vec![ImagePart::jpeg(vec![1, 2, 3], "preview at 3.00s")],
    }];
    assert_eq!(
        plan_openai_messages(&with_images),
        vec![WireStep::ToolResponse(0), WireStep::Attachments { start: 0, end: 1 }]
    );
    assert!(attachments_intro(&with_images, 0, 1).contains("preview at 3.00s"));
    assert!(image_data_url(&ImagePart::jpeg(vec![1, 2, 3], "x")).starts_with("data:image/jpeg;base64,"));

    let wire = chat_messages(&with_images);
    assert_eq!(wire.len(), 2);
    assert_eq!(text(field(&wire[0], "role")), "tool");
    assert_eq!(text(field(&wire[0], "tool_call_id")), "call_1");
    // The tool role carries only the text content.
    assert_eq!(text(field(&wire[0], "content")), "screenshot taken");
    assert_eq!(text(field(&wire[1], "role")), "user");
    let parts = items(field(&wire[1], "content"));
    assert_eq!(text(field(&parts[0], "type")), "text");
    assert!(text(field(&parts[0], "text")).contains("preview at 3.00s"));
    assert_eq!(text(field(&parts[1], "type")), "image_url");
    assert!(text(field(field(&parts[1], "image_url"), "url")).starts_with("data:image/jpeg;base64,"));

    let without = vec![Message::tool_result("call_2", "removed clip 3")];
    assert_eq!(plan_openai_messages(&without).len(), 1);
    assert_eq!(chat_messages(&without).len(), 1);
}

#[test]
fn user_message_without_images_keeps_plain_string_content() {
    let plan = plan_openai_messages(&vec![Message::user("split the clip")]);
    assert_eq!(plan, vec![WireStep::Message(0)]);
    let wire = chat_messages(&vec![Message::user("split the clip")]);
    assert_eq!(wire.len(), 1);
    // A plain string, not a parts array, so array-less servers keep working.
    assert_eq!(field(&wire[0], "content"), &Json::Str("split the clip".into()));
}

/// The value under `key` in a JSON object.
fn field<'a>(value: &'a Json, key: &str) -> &'a Json {
    match value {
        Json::Object(entries) => &entries.iter().find(|(k, _)| k == key).expect("key present").1,
        other => panic!("not an object: {other:?}"),
    }
}

fn text(value: &Json) -> &str {
    match value {
        Json::Str(s) => s,
        other => panic!("not a string: {other:?}"),
    }
}

fn items(value: &Json) -> &Vec<Json> {
    match value {
        Json::Array(items) => items,
        other => panic!("not an array: {other:?}"),
    }
}

#[test]
fn user_message_with_image_becomes_content_parts() {
    let bytes = vec![0x89, b'P', b'N', b'G', 0x0d, 0x0a];
    let message = Message::User {
        content: "what's on the timeline?".into(),
        images: vec![ImagePart::png(bytes.clone(), "timeline at 12.40s")],
    };
    let wire = chat_messages(&vec![message]);
    assert_eq!(wire.len(), 1);
    assert_eq!(text(field(&wire[0], "role")), "user");
    let parts = items(field(&wire[0], "content"));
    assert_eq!(parts.len(), 2);
    assert_eq!(text(field(&parts[0], "type")), "text");
    assert_eq!(text(field(&parts[0], "text")), "what's on the timeline?");
    assert_eq!(text(field(&parts[1], "type")), "image_url");
    let url = text(field(field(&parts[1], "image_url"), "url"));
    assert_eq!(url, "data:image/png;base64,iVBORw0K");
}

#[test]
fn assistant_turns_list_their_tool_calls_and_tool_results_answer_them() {
    let messages = vec![
        Message::Assistant {
            content: String::new(),
            tool_calls: vec![ToolCall { id: "call_1".into(), name: "remove_clip".into(), arguments: "{\"clip\":3}".into() }],
        },
        Message::tool_result("call_1", "removed clip 3"),
        Message::assistant_text("Done."),
    ];
    let wire = chat_messages(&messages);
    assert_eq!(wire.len(), 3);
    assert_eq!(text(field(&wire[0], "role")), "assistant");
    let calls = items(field(&wire[0], "tool_calls"));
    assert_eq!(text(field(&calls[0], "id")), "call_1");
    assert_eq!(text(field(&calls[0], "type")), "function");
    assert_eq!(text(field(field(&calls[0], "function"), "name")), "remove_clip");
    assert_eq!(text(field(field(&calls[0], "function"), "arguments")), "{\"clip\":3}");
    assert_eq!(text(field(&wire[1], "role")), "tool");
    assert_eq!(text(field(&wire[1], "tool_call_id")), "call_1");
    assert_eq!(text(field(&wire[1], "content")), "removed clip 3");
    // A text-only assistant turn carries no tool_calls key at all.
    assert_eq!(wire[2], Json::Object(vec![
        ("role".to_string(), Json::Str("assistant".into())),
        ("content".to_string(), Json::Str("Done.".into())),
    ]));
}

#[test]
fn hoisted_images_follow_each_run_of_tool_results() {
    let messages = vec![
        Message::system("s"),
        Message::user("look"),
        Message::ToolResult {
            call_id: "call_1".into(),
            content: "one".into(),
            images: vec![ImagePart::png(vec![1], "first")],
        },
        Message::tool_result("call_2", "two"),
        Message::ToolResult {
            call_id: "call_3".into(),
            content: "three".into(),
            images: vec![ImagePart::png(vec![2], "a"), ImagePart::png(vec![3], "b")],
        },
        Message::user("next"),
        Message::tool_result("call_4", "plain"),
    ];
    assert_eq!(
        plan_openai_messages(&messages),
        vec![
            WireStep::Message(0),
            WireStep::Message(1),
            WireStep::ToolResponse(2),
            WireStep::ToolResponse(3),
            WireStep::ToolResponse(4),
            WireStep::Attachments { start: 2, end: 5 },
            WireStep::Message(5),
            WireStep::ToolResponse(6),
        ]
    );
    assert_eq!(
        attachments_intro(&messages, 2, 5),
        "[tool attachments: call_1: first; call_3: a, b]"
    );
}

#[test]
fn images_travel_as_base64_data_urls() {
    let png = ImagePart::png(vec![1, 2, 3], "frame");
    assert_eq!(image_data_url(&png), "data:image/png;base64,AQID");
    let jpeg = ImagePart::jpeg(b"hello".to_vec(), "still");
    assert_eq!(image_data_url(&jpeg), "data:image/jpeg;base64,aGVsbG8=");
}

#[test]
fn request_body_includes_history_tools_and_stream_options() {
    let messages = vec![
        Message::system("You edit video timelines."),
        Message::Assistant {
            content: String::new(),
            tool_calls: vec![ToolCall { id: "call_1".into(), name: "remove_clip".into(), arguments: "{\"clip\":3}".into() }],
        },
        Message::tool_result("call_1", "removed clip 3"),
    ];
    let tools = vec![
        ToolDecl { name: "add_track".into(), description: "Add a track.".into(), parameters: Json::Object(vec![]) },
        ToolDecl { name: "remove_clip".into(), description: "Remove a clip.".into(), parameters: Json::Null },
    ];
    let body = chat_request_body("qwen3", &messages, tools, &OpenAiCompatExtras::default(), None, true);
    assert_eq!(text(field(&body, "model")), "qwen3");
    assert_eq!(field(&body, "stream"), &Json::Bool(true));
    let wire = items(field(&body, "messages"));
    assert_eq!(text(field(&wire[0], "role")), "system");
    let call = &items(field(&wire[1], "tool_calls"))[0];
    assert_eq!(text(field(field(call, "function"), "arguments")), "{\"clip\":3}");
    assert_eq!(text(field(&wire[2], "role")), "tool");
    assert_eq!(text(field(&wire[2], "tool_call_id")), "call_1");
    let offered = items(field(&body, "tools"));
    assert_eq!(offered.len(), 2);
    assert_eq!(text(field(field(&offered[0], "function"), "name")), "add_track");
    assert_eq!(field(field(&body, "stream_options"), "include_usage"), &Json::Bool(true));
    let keys: Vec<&str> = match &body {
        Json::Object(entries) => entries.iter().map(|(k, _)| k.as_str()).collect(),
        _ => vec![],
    };
    // usage.include, caching and the provider pin are OpenRouter-only.
    assert_eq!(keys, ["model", "stream", "messages", "stream_options", "tools"]);

    let retry = chat_request_body("qwen3", &vec![], vec![], &OpenAiCompatExtras::default(), None, false);
    assert_eq!(retry, Json::Object(vec![
        ("model".to_string(), Json::Str("qwen3".into())),
        ("stream".to_string(), Json::Bool(true)),
        ("messages".to_string(), Json::Array(vec![])),
    ]));
}

#[test]
fn request_body_includes_openrouter_provider_pin() {
    let extras = OpenAiCompatExtras {
        provider_order: Some(vec!["groq".into()]),
        allow_fallbacks: false,
        openrouter_headers: true,
        usage_accounting: true,
        prompt_caching: false,
    };
    let body = chat_request_body("openai/gpt-oss-120b", &vec![], vec![], &extras, None, true);
    assert_eq!(text(&items(field(field(&body, "provider"), "order"))[0]), "groq");
    assert_eq!(field(field(&body, "provider"), "allow_fallbacks"), &Json::Bool(false));
    assert_eq!(field(field(&body, "stream_options"), "include_usage"), &Json::Bool(true));
    assert_eq!(field(field(&body, "usage"), "include"), &Json::Bool(true));
}

#[test]
fn request_body_usage_accounting_only_for_openrouter_extras() {
    let default_body = chat_request_body("qwen3", &vec![], vec![], &OpenAiCompatExtras::default(), None, true);
    assert_eq!(field(field(&default_body, "stream_options"), "include_usage"), &Json::Bool(true));
    assert!(!has_key(&default_body, "usage"));

    let extras = openrouter_compat_extras("openai/gpt-oss-120b");
    let openrouter_body = chat_request_body("openai/gpt-oss-120b", &vec![], vec![], &extras, Some("session-7"), true);
    assert_eq!(field(field(&openrouter_body, "stream_options"), "include_usage"), &Json::Bool(true));
    assert_eq!(field(field(&openrouter_body, "usage"), "include"), &Json::Bool(true));
    assert_eq!(text(field(field(&openrouter_body, "cache_control"), "type")), "ephemeral");
    assert_eq!(text(field(&openrouter_body, "session_id")), "session-7");
}

fn has_key(value: &Json, key: &str) -> bool {
    match value {
        Json::Object(entries) => entries.iter().any(|(k, _)| k == key),
        _ => false,
    }
}
