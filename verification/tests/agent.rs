use cutlass_ai::agent::{
    admit_tools, custom_instructions, edit_result_text, engine_sense_rules, host_action_summary,
    on_reply, provider_abort_reason, read_skill_result, reconcile_failure, rejected, route_call,
    system_prompt_text, tool_output_text, turn_cap_abort, AgentConfig, CallRoute, PromptRun,
    PromptStatus, ReplyStep, Skill, TurnEnd, HOUSE_RULES, STATE_INTRO,
};
use cutlass_ai::agent::{group_action, GroupAction, GroupEvent};
use cutlass_ai::provider::{FinishReason, ProviderError};
use cutlass_ai::provider::{ImagePart, Message};
use cutlass_ai::transcript::{
    collect_turn_messages, enforce_image_budget, enforce_tool_output_image_budget, image_count,
    strip_images,
};

fn labels(images: &[ImagePart]) -> Vec<&str> {
    images.iter().map(|image| image.label.as_str()).collect()
}

#[test]
fn engine_sense_rules_make_open_ended_creative_work_actionable() {
    let rules = engine_sense_rules(&vec![
        "media_pool_sheet".to_string(),
        "media_asset_strip".to_string(),
    ]);

    assert!(rules.contains("complete current project snapshot"));
    assert!(rules.contains("freestyle edits"));
    assert!(rules.contains("media_pool_sheet"));
    assert!(rules.contains("media_asset_strip"));
    assert!(rules.contains("rather than declining"));
    assert!(rules.contains("create the required tracks with add_track"));
    assert!(rules.contains("build the sequence with add_clip"));
}

#[test]
fn engine_sense_rules_name_the_senses_in_order() {
    let rules = engine_sense_rules(&vec!["a_one".to_string(), "b_two".to_string()]);
    assert!(rules.starts_with("\n\nRehearsal senses (a_one, b_two) inspect"));
    assert!(rules.ends_with("Never claim a check succeeded if a sense failed."));
}

#[test]
fn image_budget_drops_oldest_and_leaves_labeled_placeholders() {
    let mut messages = vec![
        Message::system("s"),
        Message::User {
            content: "look at these".into(),
            images: vec![
                ImagePart::png(vec![1], "timeline at 2.00s"),
                ImagePart::png(vec![2], "timeline at 5.00s"),
            ],
        },
        Message::ToolResult {
            call_id: "call_1".into(),
            content: "screenshot taken".into(),
            images: vec![ImagePart::jpeg(vec![3], "preview at 8.00s")],
        },
    ];

    enforce_image_budget(&mut messages, 1, usize::MAX);

    match &messages[1] {
        Message::User { content, images } => {
            assert!(images.is_empty(), "both older images dropped");
            assert!(content.contains("no longer attached: timeline at 2.00s"));
            assert!(content.contains("no longer attached: timeline at 5.00s"));
        }
        other => panic!("unexpected {other:?}"),
    }
    match &messages[2] {
        Message::ToolResult {
            content, images, ..
        } => {
            assert_eq!(images.len(), 1, "the newest image survives");
            assert_eq!(images[0].label, "preview at 8.00s");
            assert!(!content.contains("no longer attached"));
        }
        other => panic!("unexpected {other:?}"),
    }

    let mut under = vec![Message::User {
        content: "one".into(),
        images: vec![ImagePart::png(vec![1], "a")],
    }];
    enforce_image_budget(&mut under, 8, usize::MAX);
    assert_eq!(image_count(&under[0]), 1);
}

#[test]
fn image_byte_budget_keeps_the_newest_payload_that_fits() {
    let mut messages = vec![
        Message::User {
            content: "old".into(),
            images: vec![ImagePart::png(vec![1; 6], "old six bytes")],
        },
        Message::ToolResult {
            call_id: "call_1".into(),
            content: "new".into(),
            images: vec![
                ImagePart::png(vec![2; 4], "new four bytes"),
                ImagePart::png(vec![3; 5], "newest five bytes"),
            ],
        },
    ];

    enforce_image_budget(&mut messages, 8, 9);

    let Message::User { content, images } = &messages[0] else {
        panic!("user message");
    };
    assert!(images.is_empty());
    assert!(content.contains("old six bytes"));
    let Message::ToolResult {
        content, images, ..
    } = &messages[1]
    else {
        panic!("tool result");
    };
    assert_eq!(labels(images), vec!["new four bytes", "newest five bytes"]);
    assert!(!content.contains("no longer attached"));

    enforce_image_budget(&mut messages, 8, 3);
    let Message::ToolResult {
        content, images, ..
    } = &messages[1]
    else {
        panic!("tool result");
    };
    assert!(
        images.is_empty(),
        "an individually oversized newest image drops"
    );
    assert!(content.contains("new four bytes"));
    assert!(content.contains("newest five bytes"));
}

#[test]
fn image_budget_placeholder_text_is_exact() {
    let mut messages = vec![Message::User {
        content: "x".into(),
        images: vec![
            ImagePart::png(vec![1], "first"),
            ImagePart::png(vec![2], "second"),
        ],
    }];
    enforce_image_budget(&mut messages, 1, usize::MAX);
    let Message::User { content, images } = &messages[0] else {
        panic!("user message");
    };
    assert_eq!(content, "x\n[image no longer attached: first]");
    assert_eq!(labels(images), vec!["second"]);
}

#[test]
fn tool_output_budget_drops_before_transcript_delivery() {
    let mut content = "frames ready".to_string();
    let mut images = vec![
        ImagePart::png(vec![1; 5], "old"),
        ImagePart::png(vec![2; 4], "middle"),
        ImagePart::png(vec![3; 3], "new"),
    ];

    enforce_tool_output_image_budget(&mut content, &mut images, 2, 7);

    assert_eq!(labels(&images), vec!["middle", "new"]);
    assert!(content.contains("request budget: old"), "{content}");
}

#[test]
fn tool_output_budget_under_limits_keeps_everything() {
    let mut content = "ok".to_string();
    let mut images = vec![ImagePart::png(vec![1; 5], "a"), ImagePart::png(vec![2; 4], "b")];
    enforce_tool_output_image_budget(&mut content, &mut images, 2, 9);
    assert_eq!(labels(&images), vec!["a", "b"]);
    assert_eq!(content, "ok");

    enforce_tool_output_image_budget(&mut content, &mut images, 0, usize::MAX);
    assert!(images.is_empty());
    assert_eq!(
        content,
        "ok\n[image not attached because it exceeded the request budget: a]\n[image not attached because it exceeded the request budget: b]"
    );
}

#[test]
fn turn_messages_strip_images_to_labels() {
    let messages = vec![
        Message::system("s"),
        Message::User {
            content: "what's here?".into(),
            images: vec![ImagePart::png(vec![1], "frame at 0.00s")],
        },
        Message::Assistant {
            content: String::new(),
            tool_calls: Vec::new(),
        },
        Message::ToolResult {
            call_id: "call_1".into(),
            content: "took the shot".into(),
            images: vec![ImagePart::jpeg(vec![2], "preview at 3.00s")],
        },
    ];

    let turn = collect_turn_messages(messages, 1, &Vec::new(), "done");

    for message in &turn {
        assert_eq!(image_count(message), 0, "history is text-only: {message:?}");
    }
    match &turn[0] {
        Message::User { content, .. } => {
            assert!(content.contains("[image: frame at 0.00s]"), "{content}");
        }
        other => panic!("unexpected {other:?}"),
    }
    match &turn[2] {
        Message::ToolResult { content, .. } => {
            assert!(content.contains("[image: preview at 3.00s]"), "{content}");
        }
        other => panic!("unexpected {other:?}"),
    }
    assert_eq!(
        turn.last(),
        Some(&Message::assistant_text("done")),
        "the final answer is appended"
    );
}

#[test]
fn turn_messages_collapse_describe_results_and_skip_empty_answers() {
    let messages = vec![
        Message::user("hi"),
        Message::tool_result("call_d", "{\"project\": {}}"),
        Message::tool_result("call_x", "kept"),
    ];
    let turn = collect_turn_messages(messages, 0, &vec!["call_d".to_string()], "");
    assert_eq!(turn.len(), 3);
    assert_eq!(
        turn[1],
        Message::tool_result(
            "call_d",
            "(project state omitted — see the current state in the system message)"
        )
    );
    assert_eq!(turn[2], Message::tool_result("call_x", "kept"));

    let past_end = collect_turn_messages(vec![Message::user("a")], 5, &Vec::new(), "");
    assert!(past_end.is_empty());
}

#[test]
fn strip_images_leaves_labels() {
    let mut content = "c".to_string();
    let mut images = vec![ImagePart::png(vec![9], "shot")];
    strip_images(&mut content, &mut images);
    assert!(images.is_empty());
    assert_eq!(content, "c\n[image: shot]");
}

#[test]
fn host_action_summary_keeps_the_first_line_capped() {
    assert_eq!(host_action_summary("saved\ndetails follow"), "saved");
    let long = "x".repeat(200);
    let summary = host_action_summary(&long);
    assert_eq!(summary.chars().count(), 121, "120 chars + ellipsis");
    assert!(summary.ends_with('…'));
}

#[test]
fn host_action_summary_trims_and_handles_empty_text() {
    assert_eq!(host_action_summary(""), "");
    assert_eq!(host_action_summary("  padded \r\nnext"), "padded");
    let exact = "y".repeat(120);
    assert_eq!(host_action_summary(&exact), exact);
}

#[test]
fn read_skill_returns_body_or_lists_available() {
    let skills = vec![Skill {
        id: "podcast-cleanup".into(),
        name: "Podcast cleanup".into(),
        description: "d".into(),
        body: "Step 1: denoise.".into(),
    }];
    let ok = read_skill_result(&skills, "podcast-cleanup");
    assert!(ok.contains("Step 1: denoise."));
    assert_eq!(ok, "# Podcast cleanup (podcast-cleanup)\n\nStep 1: denoise.");
    let missing = read_skill_result(&skills, "nope");
    assert!(missing.starts_with("rejected: unknown skill 'nope'"));
    assert!(missing.contains("podcast-cleanup"));
}

#[test]
fn default_config_matches_the_guardrails() {
    let config = AgentConfig::default();
    assert_eq!(config.max_tool_calls, 1000);
    assert_eq!(config.max_host_calls, 200);
    assert_eq!(config.max_turns, 200);
    assert_eq!(config.max_images, 25);
    assert_eq!(config.max_image_bytes, 24 * 1024 * 1024);
    assert!(!config.dry_run);
    assert_eq!(PromptStatus::Aborted("x".into()), PromptStatus::Aborted("x".into()));
}

#[test]
fn commit_progress_records_only_new_phases() {
    let mut run = PromptRun::new(&AgentConfig::default());
    assert_eq!(run.commit_progress(), "nothing new to commit — make edits first");
    run.record_action();
    run.record_action();
    assert_eq!(run.commit_progress(), "ok: committed phase 1 (2 edits)");
    assert_eq!(run.commit_progress(), "nothing new to commit — make edits first");
    run.record_action();
    assert_eq!(run.commit_progress(), "ok: committed phase 2 (1 edits)");
    assert_eq!(run.phase_breaks, vec![2, 3]);
}

#[test]
fn edit_cap_refuses_further_edits_and_keeps_applied_ones() {
    let config = AgentConfig {
        max_tool_calls: 1,
        ..AgentConfig::default()
    };
    let mut run = PromptRun::new(&config);
    assert_eq!(run.charge_edit_call(), None);
    run.record_action();
    assert_eq!(run.edit_cap_final_text(), None);
    assert_eq!(
        run.charge_edit_call().as_deref(),
        Some("rejected: reached the 1-edit cap for one prompt; the edits already applied are kept")
    );
    assert!(run.edit_cap_tripped);
    assert_eq!(
        run.edit_cap_final_text().as_deref(),
        Some("Reached the 1-edit cap for one prompt; kept the 1 edit already applied.")
    );
    run.record_action();
    assert_eq!(
        run.edit_cap_final_text().as_deref(),
        Some("Reached the 1-edit cap for one prompt; kept the 2 edits already applied.")
    );
}

#[test]
fn host_cap_aborts_past_the_limit() {
    let config = AgentConfig {
        max_host_calls: 2,
        ..AgentConfig::default()
    };
    let mut run = PromptRun::new(&config);
    assert_eq!(run.charge_host_call(), None);
    assert_eq!(run.charge_host_call(), None);
    assert_eq!(
        run.charge_host_call().as_deref(),
        Some("exceeded the 2-host-call cap for one prompt")
    );
    assert_eq!(run.host_calls, 2);
}

#[test]
fn turn_cap_aborts_on_the_last_turn_only() {
    assert_eq!(turn_cap_abort(0, 3), None);
    assert_eq!(turn_cap_abort(1, 3), None);
    assert_eq!(
        turn_cap_abort(2, 3).as_deref(),
        Some("exceeded the 3-turn cap for one prompt")
    );
}

#[test]
fn calls_route_by_exact_name() {
    let senses = vec!["media_pool_sheet".to_string()];
    let hosts = vec!["app_open".to_string(), "app_open".to_string()];
    assert_eq!(route_call("describe_project", false, &senses, &hosts), CallRoute::DescribeProject);
    assert_eq!(route_call("read_skill", true, &senses, &hosts), CallRoute::ReadSkill);
    assert_eq!(route_call("read_skill", false, &senses, &hosts), CallRoute::Edit);
    assert_eq!(route_call("commit_progress", false, &senses, &hosts), CallRoute::CommitProgress);
    assert_eq!(route_call("media_pool_sheet", false, &senses, &hosts), CallRoute::Sense(0));
    assert_eq!(route_call("app_open", false, &senses, &hosts), CallRoute::Host(0));
    assert_eq!(route_call("split_clip", false, &senses, &hosts), CallRoute::Edit);
}

#[test]
fn built_in_names_win_and_duplicates_drop() {
    let taken = vec!["split_clip".to_string(), "read_skill".to_string()];
    let names = vec![
        "media_a".to_string(),
        "split_clip".to_string(),
        "media_a".to_string(),
        "read_skill".to_string(),
        "media_b".to_string(),
        "media_c".to_string(),
    ];
    let eligible = vec![true, true, true, true, true, false];
    assert_eq!(admit_tools(&taken, &names, &eligible, true), vec![0, 4]);
    let no_skills = vec!["split_clip".to_string()];
    assert_eq!(admit_tools(&no_skills, &names, &eligible, true), vec![0, 4]);
    assert_eq!(admit_tools(&no_skills, &names, &eligible, false), vec![0, 3, 4]);
}

#[test]
fn result_texts_read_as_the_loop_sends_them() {
    assert_eq!(tool_output_text(String::new()), "ok");
    assert_eq!(tool_output_text("shot".to_string()), "shot");
    assert_eq!(rejected("no such clip"), "rejected: no such clip");
    assert_eq!(edit_result_text(false, "removed clip 4"), "ok: removed clip 4");
    assert_eq!(
        edit_result_text(true, "removed clip 4"),
        "validated (dry run, not yet applied): removed clip 4"
    );
    assert_eq!(
        reconcile_failure("app_save", "disk full"),
        "host tool 'app_save' was dispatched, but reconciliation failed: disk full; host effects may already have occurred"
    );
}

/// The send-time state as the embedder serializes it for a project named
/// `demo` with clip 12 selected and the playhead at 3.5 s.
const DEMO_STATE: &str = r#"{"editor":{"playhead_seconds":3.5,"selected_clips":[12]},"project":{"canvas":null,"duration_seconds":10.0,"frame_rate_fps":24.0,"markers":[],"media":[],"name":"demo","tracks":[]}}"#;

#[test]
fn system_prompt_carries_state_and_trim_rule() {
    let prompt = system_prompt_text("", &vec![], DEMO_STATE);
    assert!(prompt.contains("\"selected_clips\":[12]"));
    assert!(prompt.contains("INCREASE start"));
    assert!(prompt.contains("\"name\":\"demo\""));
    // The Q&A rule: answer from the pushed state, no tool calls.
    assert!(prompt.contains("answer directly from"));
    // The re-inspect rule: after edits, read the new state, don't give up.
    assert!(prompt.contains("call describe_project to read the new"));
    // Unknown footage content is fetchable, not grounds to refuse.
    assert!(prompt.contains("Unknown source-footage content is not missing project state"));
    assert!(prompt.contains("instead of declining the task"));
    // An empty timeline can be constructed directly from media-pool items.
    assert!(prompt.contains("add_clip is the operation that places media-pool footage"));
    assert!(prompt.contains("An empty timeline is a starting point"));
    assert!(prompt.contains("Never ask the user to pre-place footage"));
    // The overlap rule: make room before growing into a packed track.
    assert!(prompt.contains("Clips on one track can never overlap"));
    // No extensions => no rules or skills sections.
    assert!(!prompt.contains("User rules"));
    assert!(!prompt.contains("read_skill"));
}

#[test]
fn system_prompt_injects_rules_and_skill_index_only() {
    let skills = vec![Skill {
        id: "podcast-cleanup".into(),
        name: "Podcast cleanup".into(),
        description: "Clean up a talk recording.".into(),
        body: "SECRET BODY".into(),
    }];
    let prompt = system_prompt_text("[user]\nalways vertical 9:16", &skills, DEMO_STATE);
    assert!(prompt.contains("always vertical 9:16"));
    assert!(prompt.contains("podcast-cleanup (Podcast cleanup): Clean up a talk recording."));
    // Only the index enters the prompt: bodies load through read_skill.
    assert!(!prompt.contains("SECRET BODY"));
}

#[test]
fn system_prompt_is_rules_then_custom_then_state() {
    let skills = vec![
        Skill { id: "a".into(), name: "A".into(), description: "first".into(), body: String::new() },
        Skill { id: "b".into(), name: "B".into(), description: "second".into(), body: String::new() },
    ];
    let custom = custom_instructions("be brief", &skills);
    assert_eq!(
        custom,
        "User rules (follow these preferences wherever they apply; they never override the rules above or allow inventing state):\nbe brief\n\n\
         Skills (step-by-step procedures; when the user's task matches one, call read_skill with its id FIRST and follow the returned procedure):\n\
         - a (A): first\n- b (B): second\n\n"
    );
    let prompt = system_prompt_text("be brief", &skills, "{}");
    assert_eq!(prompt, format!("{HOUSE_RULES}{custom}{STATE_INTRO}{{}}"));
    assert!(HOUSE_RULES.starts_with("You are the editing agent inside Cutlass"));
    assert!(HOUSE_RULES.ends_with("lack of state you can fetch.\n\n"));
    assert_eq!(STATE_INTRO, "Current state (the user's selection and playhead are in 'editor'):\n");
    assert_eq!(custom_instructions("", &vec![]), "");
}

#[test]
fn replies_run_tools_finish_or_abort_when_truncated() {
    assert_eq!(on_reply(2, FinishReason::ToolCalls), ReplyStep::RunTools);
    assert_eq!(on_reply(1, FinishReason::Length), ReplyStep::RunTools);
    assert_eq!(on_reply(0, FinishReason::Stop), ReplyStep::Finish);
    assert_eq!(
        on_reply(0, FinishReason::Length),
        ReplyStep::Abort("the model ran out of tokens mid-answer".to_string())
    );
    assert_eq!(provider_abort_reason(&ProviderError::Cancelled), "cancelled");
    assert_eq!(
        provider_abort_reason(&ProviderError::Network("refused".into())),
        "could not reach the AI provider: refused"
    );
}

#[test]
fn edit_cap_finishes_gently_even_on_the_last_turn() {
    let config = AgentConfig { max_tool_calls: 1, max_turns: 3, ..AgentConfig::default() };
    let mut run = PromptRun::new(&config);
    assert_eq!(run.after_tools(0, 3), TurnEnd::Continue);
    assert_eq!(
        run.after_tools(2, 3),
        TurnEnd::Abort("exceeded the 3-turn cap for one prompt".to_string())
    );
    assert_eq!(run.charge_edit_call(), None);
    run.record_action();
    assert!(run.charge_edit_call().is_some());
    assert_eq!(
        run.after_tools(2, 3),
        TurnEnd::Finish("Reached the 1-edit cap for one prompt; kept the 1 edit already applied.".to_string())
    );
}

#[test]
fn one_prompt_is_one_history_group() {
    assert_eq!(group_action(false, GroupEvent::Started), GroupAction::Begin);
    assert_eq!(group_action(false, GroupEvent::Finished), GroupAction::End);
    assert_eq!(group_action(false, GroupEvent::Aborted), GroupAction::Rollback);
    for event in [GroupEvent::Started, GroupEvent::Finished, GroupEvent::Aborted] {
        assert_eq!(group_action(true, event), GroupAction::Nothing);
    }
}

#[test]
fn outcome_breaks_are_the_run_breaks_unless_aborted() {
    let mut run = PromptRun::new(&AgentConfig::default());
    run.record_action();
    run.record_action();
    run.commit_progress();
    run.record_action();
    run.commit_progress();
    assert_eq!(run.outcome_breaks(false), vec![2, 3]);
    assert!(run.outcome_breaks(true).is_empty());
}
