use cutlass_ai::validate::{
    check_clip_param, check_easing_target, check_keyframe_param, check_timed, param_value_shape,
    speed_fraction, ClipParamRef, EffectChainFacts, EffectParamFacts, LaneFit, ParamKind,
    SourceRange, TimedCommand, TimedProblem, ValueShape,
};
use cutlass_ai::wire::{WireClipParam, WireLookParam, WireShapeParam, WireStyleParam};
use cutlass_ai::validate::{
    canvas_settings, check_plain, find_media, kind_name, ClipFacts, LaneKind, MediaFacts,
    ProjectFacts, TrackFacts, UNLINK_NOTHING_LINKED,
};
use cutlass_ai::wire::{
    AddEffect, AddTransition, ExtractAudio, LinkClips, MoveEffect, PlainCommand, RemoveClip,
    RemoveEffect, RemoveMarker, RemoveTrack, RemoveTransition, SetAudioRole, SetCanvas,
    SetClipBlendMode, SetClipPitch, SetClipStabilize, SetDenoise, SetSpeedCurve, UnlinkClips,
    WireAudioRole, WireBlendMode, WireCanvasAspect, MAX_MULTI_CLIP_REFS,
};

fn track(id: u64, kind: LaneKind) -> TrackFacts {
    TrackFacts { id, kind, locked: false, main: false }
}

fn clip(id: u64, track: u64, media: Option<u64>, start: i64, duration: i64) -> ClipFacts {
    ClipFacts {
        id,
        track: Some(track),
        media,
        link: None,
        start,
        duration,
        effects: 0,
        transition: false,
        right_neighbor: false,
        own_audio: true,
        detached: false,
        fits: LaneFit { video: true, audio: true, text: true, sticker: true, effect: true, filter: true, adjustment: true },
    }
}

/// 24 fps project: one video track with a 10 s media clip at 0 s, one
/// text track with a title from 2 s to 5 s, and a 60 s media source.
fn fixture() -> (ProjectFacts, u64, u64, u64, u64, u64) {
    let (media, video, text, clip_id, title) = (1, 1, 2, 1, 2);
    let mut main = track(video, LaneKind::Video);
    main.main = true;
    let project = ProjectFacts {
        tracks: vec![main, track(text, LaneKind::Text)],
        clips: vec![clip(clip_id, video, Some(media), 0, 240), clip(title, text, None, 48, 72)],
        media: vec![MediaFacts { id: media, video: true, image: false, has_audio: true, duration: 1440 }],
        markers: vec![],
        effect_ids: vec!["gaussian_blur".to_string(), "glitch".to_string(), "vignette".to_string()],
        transition_ids: vec!["crossfade".to_string(), "dip_to_black".to_string()],
        canvas_aspect: WireCanvasAspect::Auto,
        canvas_background: [0, 0, 0],
        effect_chains: vec![],
    };
    (project, media, video, text, clip_id, title)
}

fn reject(project: &ProjectFacts, command: PlainCommand) -> String {
    check_plain(&command, project).expect_err("command should be rejected").message
}

fn accept(project: &ProjectFacts, command: PlainCommand) {
    check_plain(&command, project).expect("command should validate");
}

fn add_audio_track(project: &mut ProjectFacts, id: u64) {
    project.tracks.push(track(id, LaneKind::Audio));
}

fn clip_mut(project: &mut ProjectFacts, id: u64) -> &mut ClipFacts {
    project.clips.iter_mut().find(|c| c.id == id).unwrap()
}

#[test]
fn add_transition_rejects_canvas_pass_lanes() {
    let (mut project, ..) = fixture();
    project.tracks.push(track(3, LaneKind::Adjustment));
    let mut left = clip(10, 3, None, 0, 24);
    left.right_neighbor = true;
    project.clips.push(left);
    project.clips.push(clip(11, 3, None, 24, 24));

    let msg = reject(
        &project,
        PlainCommand::AddTransition(AddTransition { clip: 10, transition: "crossfade".into() }),
    );
    assert!(msg.contains("Adjustment lane"), "message should name the lane kind: {msg}");
}

#[test]
fn unknown_ids_list_existing_ones() {
    let (project, _, video, text, clip, title) = fixture();

    let msg = reject(&project, PlainCommand::RemoveClip(RemoveClip { clip: 999 }));
    assert!(msg.contains("clip 999 does not exist"), "{msg}");
    assert!(msg.contains(&clip.to_string()), "{msg}");
    assert!(msg.contains(&title.to_string()), "{msg}");

    let msg = reject(&project, PlainCommand::RemoveTrack(RemoveTrack { track: 999 }));
    assert!(msg.contains("track 999 does not exist"), "{msg}");
    assert!(msg.contains(&video.to_string()), "{msg}");
    assert!(msg.contains(&text.to_string()), "{msg}");

    let msg = find_media(&project, 999).unwrap_err();
    assert!(msg.contains("media 999 does not exist"), "{msg}");
}

#[test]
fn remove_track_rejects_the_main_track() {
    let (mut project, _, video, text, _, _) = fixture();

    let msg = reject(&project, PlainCommand::RemoveTrack(RemoveTrack { track: video }));
    assert!(msg.contains("main track"), "{msg}");

    // Non-main lanes stay removable.
    project.tracks.push(track(3, LaneKind::Video));
    accept(&project, PlainCommand::RemoveTrack(RemoveTrack { track: 3 }));
    accept(&project, PlainCommand::RemoveTrack(RemoveTrack { track: text }));
}

#[test]
fn move_effect_lowers_and_reports_invalid_requests() {
    let (mut project, _, _, _, clip, _) = fixture();
    clip_mut(&mut project, clip).effects = 3;

    accept(&project, PlainCommand::MoveEffect(MoveEffect { clip, from_index: 0, to_index: 2 }));

    for command in [
        MoveEffect { clip, from_index: 3, to_index: 0 },
        MoveEffect { clip, from_index: 0, to_index: 3 },
    ] {
        let msg = reject(&project, PlainCommand::MoveEffect(command));
        assert!(msg.contains("chain length 3"), "{msg}");
    }

    let msg = reject(&project, PlainCommand::MoveEffect(MoveEffect { clip, from_index: 1, to_index: 1 }));
    assert!(msg.contains("would make no change"), "{msg}");
}

#[test]
fn clip_pitch_lowers_and_rejects_generated() {
    let (project, _, _, _, clip, title) = fixture();

    accept(&project, PlainCommand::SetClipPitch(SetClipPitch { clip, preserve_pitch: false }));

    // Generated clips have no footage to stretch, so pitch is meaningless.
    let msg = reject(&project, PlainCommand::SetClipPitch(SetClipPitch { clip: title, preserve_pitch: true }));
    assert!(msg.contains("generated clip"), "{msg}");
}

#[test]
fn set_clip_blend_mode_lowers_and_guards() {
    let (mut project, media, _, _, clip_id, _) = fixture();
    accept(
        &project,
        PlainCommand::SetClipBlendMode(SetClipBlendMode { clip: clip_id, mode: WireBlendMode::Multiply }),
    );

    add_audio_track(&mut project, 3);
    project.clips.push(clip(10, 3, Some(media), 0, 240));
    let msg = reject(
        &project,
        PlainCommand::SetClipBlendMode(SetClipBlendMode { clip: 10, mode: WireBlendMode::Screen }),
    );
    assert!(msg.contains("visual frame"), "{msg}");
}

#[test]
fn extract_audio_lowers_to_explicit_target_and_preflights_failures() {
    let (mut project, media, video_track, _text, video_clip, title) = fixture();
    let audio = 3;
    add_audio_track(&mut project, audio);
    accept(&project, PlainCommand::ExtractAudio(ExtractAudio { clip: video_clip, track: audio }));

    let msg = reject(&project, PlainCommand::ExtractAudio(ExtractAudio { clip: title, track: audio }));
    assert!(msg.contains("generated"), "{msg}");

    project.tracks[0].locked = true;
    assert_eq!(project.tracks[0].id, video_track);
    let msg = reject(&project, PlainCommand::ExtractAudio(ExtractAudio { clip: video_clip, track: audio }));
    assert!(msg.contains("video track"), "{msg}");
    assert!(msg.contains("locked"), "{msg}");
    project.tracks[0].locked = false;

    project.tracks[2].locked = true;
    let msg = reject(&project, PlainCommand::ExtractAudio(ExtractAudio { clip: video_clip, track: audio }));
    assert!(msg.contains("locked"), "{msg}");
    project.tracks[2].locked = false;

    project.clips.push(clip(10, audio, Some(media), 0, 240));
    let msg = reject(&project, PlainCommand::ExtractAudio(ExtractAudio { clip: video_clip, track: audio }));
    assert!(msg.contains("exact timeline range"), "{msg}");
    assert!(msg.contains("choose or add a free audio track"), "{msg}");
}

#[test]
fn extract_audio_rejections_tell_the_model_how_to_recover() {
    let (mut project, _media, _video, _text, video_clip, title) = fixture();
    add_audio_track(&mut project, 3);
    for raw in [video_clip, title] {
        clip_mut(&mut project, raw).link = Some(7);
    }
    let msg = reject(&project, PlainCommand::ExtractAudio(ExtractAudio { clip: video_clip, track: 3 }));
    assert!(msg.contains("unlink_clips first"), "{msg}");
    assert!(msg.contains(&title.to_string()), "{msg}");

    let (mut project, media, _video, _text, video_clip, _) = fixture();
    add_audio_track(&mut project, 3);
    project.clips.push(clip(10, 3, Some(media), 0, 240));
    for raw in [video_clip, 10] {
        clip_mut(&mut project, raw).link = Some(7);
    }
    clip_mut(&mut project, video_clip).detached = true;
    let msg = reject(&project, PlainCommand::ExtractAudio(ExtractAudio { clip: video_clip, track: 3 }));
    assert!(msg.contains("already has extracted audio"), "{msg}");

    let (mut project, _media, _video, _text, video_clip, _) = fixture();
    project.media[0].image = true;
    project.media[0].video = false;
    add_audio_track(&mut project, 3);
    let msg = reject(&project, PlainCommand::ExtractAudio(ExtractAudio { clip: video_clip, track: 3 }));
    assert!(msg.contains("video media"), "{msg}");

    let (mut project, _media, _video, _text, video_clip, _) = fixture();
    project.media[0].has_audio = false;
    add_audio_track(&mut project, 3);
    let msg = reject(&project, PlainCommand::ExtractAudio(ExtractAudio { clip: video_clip, track: 3 }));
    assert!(msg.contains("no audio stream"), "{msg}");
}

#[test]
fn set_denoise_lowers_steers_and_rejects_generated() {
    let (mut project, media, _, _, video_clip, title) = fixture();
    // An audio lane carrying the linked companion of the video clip.
    add_audio_track(&mut project, 3);
    project.clips.push(clip(10, 3, Some(media), 0, 240));
    for raw in [video_clip, 10] {
        clip_mut(&mut project, raw).link = Some(7);
    }
    clip_mut(&mut project, video_clip).own_audio = false;

    // An audio-lane target lowers straight through.
    accept(&project, PlainCommand::SetDenoise(SetDenoise { clip: 10, denoise: true }));

    // A video-lane target is steered to its linked audio companion.
    let msg = reject(&project, PlainCommand::SetDenoise(SetDenoise { clip: video_clip, denoise: true }));
    assert!(msg.contains(&format!("linked clip {}", 10)), "{msg}");

    // A generated clip has no footage to clean.
    let msg = reject(&project, PlainCommand::SetDenoise(SetDenoise { clip: title, denoise: true }));
    assert!(msg.contains("generated clip"), "{msg}");
}

#[test]
fn shift_rejects_sub_frame_delta_and_link_lists_are_bounded() {
    let (project, _, _, _, clip, _) = fixture();

    let msg = reject(&project, PlainCommand::LinkClips(LinkClips { clips: vec![clip] }));
    assert!(msg.contains("at least two"), "{msg}");

    let msg = reject(
        &project,
        PlainCommand::LinkClips(LinkClips { clips: vec![clip; MAX_MULTI_CLIP_REFS + 1] }),
    );
    assert!(msg.contains("at most 64"), "{msg}");
}

#[test]
fn unlink_one_member_lowers_to_the_complete_group_command() {
    let (mut project, _, _, _, clip, title) = fixture();
    for id in [clip, title] {
        clip_mut(&mut project, id).link = Some(7);
    }
    accept(&project, PlainCommand::UnlinkClips(UnlinkClips { clips: vec![title] }));
    assert_eq!(project.clips[0].link, Some(7));
    assert_eq!(project.clips[1].link, Some(7));
}

#[test]
fn unlink_rejects_invalid_lists_before_mutation() {
    let (project, _, _, _, clip, title) = fixture();

    let msg = reject(&project, PlainCommand::UnlinkClips(UnlinkClips { clips: vec![] }));
    assert!(msg.contains("at least one"), "{msg}");

    let msg = reject(&project, PlainCommand::UnlinkClips(UnlinkClips { clips: vec![clip, clip] }));
    assert!(msg.contains("duplicate clip id"), "{msg}");
    assert!(msg.contains(&clip.to_string()), "{msg}");

    let msg = reject(&project, PlainCommand::UnlinkClips(UnlinkClips { clips: vec![clip, 999] }));
    assert!(msg.contains("clip 999 does not exist"), "{msg}");

    let msg = reject(&project, PlainCommand::UnlinkClips(UnlinkClips { clips: vec![clip, title] }));
    assert!(msg.contains("all referenced clips are already unlinked"), "{msg}");

    let msg = reject(
        &project,
        PlainCommand::UnlinkClips(UnlinkClips { clips: vec![clip; MAX_MULTI_CLIP_REFS + 1] }),
    );
    assert!(msg.contains("at most 64"), "{msg}");

    assert_eq!(project.clips[0].link, None);
    assert_eq!(project.clips[1].link, None);
}

#[test]
fn marker_commands_lower_to_engine() {
    let (mut project, ..) = fixture();
    project.markers.push(5);
    accept(&project, PlainCommand::RemoveMarker(RemoveMarker { marker: 5 }));
    let msg = reject(&project, PlainCommand::RemoveMarker(RemoveMarker { marker: 404 }));
    assert!(msg.contains("marker 404 does not exist"), "{msg}");
    assert!(msg.contains(&5.to_string()), "{msg}");
}

#[test]
fn set_canvas_lowers_and_keeps_omitted_fields() {
    let (mut project, ..) = fixture();
    let both = SetCanvas { aspect: Some(WireCanvasAspect::Tall9x16), background: Some([20, 20, 28]) };
    accept(&project, PlainCommand::SetCanvas(both));
    assert_eq!(canvas_settings(&both, &project), (WireCanvasAspect::Tall9x16, [20, 20, 28]));

    // Omitted fields keep the project's current canvas settings.
    project.canvas_aspect = WireCanvasAspect::Square1x1;
    project.canvas_background = [255, 0, 0];
    let keep_aspect = SetCanvas { aspect: None, background: Some([0, 0, 0]) };
    assert_eq!(canvas_settings(&keep_aspect, &project), (WireCanvasAspect::Square1x1, [0, 0, 0]));
    let keep_background = SetCanvas { aspect: Some(WireCanvasAspect::Auto), background: None };
    assert_eq!(canvas_settings(&keep_background, &project), (WireCanvasAspect::Auto, [255, 0, 0]));
}

#[test]
fn missing_reference_lists_every_existing_id_in_order() {
    let (project, ..) = fixture();
    let msg = reject(&project, PlainCommand::RemoveClip(RemoveClip { clip: 999 }));
    assert_eq!(msg, "clip 999 does not exist; existing clip ids: 1, 2");
    let empty = ProjectFacts { markers: vec![], ..project };
    let msg = reject(&empty, PlainCommand::RemoveMarker(RemoveMarker { marker: 3 }));
    assert_eq!(msg, "marker 3 does not exist; existing marker ids: none");
}

#[test]
fn effects_and_transitions_follow_the_catalogs() {
    let (mut project, _, _, _, clip_id, title) = fixture();
    accept(&project, PlainCommand::AddEffect(AddEffect { clip: clip_id, effect: "glitch".into() }));
    let msg = reject(&project, PlainCommand::AddEffect(AddEffect { clip: clip_id, effect: "sparkle".into() }));
    assert_eq!(msg, "unknown effect 'sparkle'; available effects: gaussian_blur, glitch, vignette");

    let msg = reject(
        &project,
        PlainCommand::AddTransition(AddTransition { clip: clip_id, transition: "crossfade".into() }),
    );
    assert_eq!(msg, "clip 1 has no clip butting against its right edge to transition into");
    clip_mut(&mut project, clip_id).right_neighbor = true;
    accept(&project, PlainCommand::AddTransition(AddTransition { clip: clip_id, transition: "crossfade".into() }));
    let msg = reject(&project, PlainCommand::AddTransition(AddTransition { clip: clip_id, transition: "wipe".into() }));
    assert_eq!(msg, "unknown transition 'wipe'; available transitions: crossfade, dip_to_black");

    let msg = reject(&project, PlainCommand::RemoveTransition(RemoveTransition { clip: title }));
    assert_eq!(msg, "clip 2 has no transition at its right cut");

    let msg = reject(&project, PlainCommand::RemoveEffect(RemoveEffect { clip: clip_id, index: 0 }));
    assert_eq!(msg, "effect index 0 is out of range for clip 1 (chain length 0)");
}

#[test]
fn media_only_commands_refuse_generated_clips_and_name_the_tool() {
    let (mut project, _, _, _, clip_id, title) = fixture();
    let msg = reject(&project, PlainCommand::SetSpeedCurve(SetSpeedCurve { clip: title, preset: None }));
    assert_eq!(
        msg,
        "clip 2 is a generated clip; set_speed_curve only works on media clips (footage with a source file)"
    );
    accept(&project, PlainCommand::SetSpeedCurve(SetSpeedCurve { clip: clip_id, preset: Some("hero".into()) }));
    let msg = reject(&project, PlainCommand::SetSpeedCurve(SetSpeedCurve { clip: clip_id, preset: Some("warp".into()) }));
    assert!(msg.contains("unknown speed ramp preset 'warp'"), "{msg}");

    let msg = reject(&project, PlainCommand::SetClipStabilize(SetClipStabilize { clip: title, level: None }));
    assert!(msg.contains("set_clip_stabilize only works on media clips"), "{msg}");
    project.media[0].image = true;
    let msg = reject(&project, PlainCommand::SetClipStabilize(SetClipStabilize { clip: clip_id, level: None }));
    assert_eq!(msg, "clip 1 is a still image; stabilization requires video");
}

#[test]
fn audio_role_needs_an_audio_lane() {
    let (mut project, media, _, _, clip_id, _) = fixture();
    let msg = reject(
        &project,
        PlainCommand::SetAudioRole(SetAudioRole { clip: clip_id, role: Some(WireAudioRole::Music) }),
    );
    assert_eq!(msg, "clip 1 is not on an audio lane; set_audio_role only works on audio clips");
    add_audio_track(&mut project, 3);
    project.clips.push(clip(10, 3, Some(media), 0, 240));
    accept(&project, PlainCommand::SetAudioRole(SetAudioRole { clip: 10, role: Some(WireAudioRole::Music) }));
}

#[test]
fn denoise_without_companion_says_nothing_is_audible() {
    let (mut project, _, _, _, clip_id, _) = fixture();
    clip_mut(&mut project, clip_id).own_audio = false;
    let msg = reject(&project, PlainCommand::SetDenoise(SetDenoise { clip: clip_id, denoise: true }));
    assert_eq!(
        msg,
        "clip 1 is not on an audio lane and has no linked audio companion; there is nothing audible to clean"
    );
}

#[test]
fn lane_kinds_are_named_for_the_model() {
    assert_eq!(kind_name(LaneKind::Video), "Video");
    assert_eq!(kind_name(LaneKind::Adjustment), "Adjustment");
    assert_eq!(UNLINK_NOTHING_LINKED, "unlink_clips found no linked clips; all referenced clips are already unlinked");
}

#[test]
fn split_must_fall_strictly_inside_its_clip() {
    let (project, _, _, _, _, title) = fixture();
    // The title spans ticks 48..120.
    assert_eq!(check_timed(&TimedCommand::SplitClip { clip: title, at: 60 }, &project), Ok(()));
    assert_eq!(check_timed(&TimedCommand::SplitClip { clip: title, at: 119 }, &project), Ok(()));
    for at in [48, 120, 0, 500] {
        assert_eq!(
            check_timed(&TimedCommand::SplitClip { clip: title, at }, &project),
            Err(TimedProblem::SplitOutside { start: 48, duration: 72 })
        );
    }
    match check_timed(&TimedCommand::SplitClip { clip: 99, at: 60 }, &project) {
        Err(TimedProblem::Refused(message)) => assert!(message.contains("clip 99 does not exist"), "{message}"),
        other => panic!("unexpected {other:?}"),
    }
}

#[test]
fn timed_edits_check_their_references() {
    let (mut project, _, video, _, clip_id, title) = fixture();
    project.markers.push(7);
    assert_eq!(check_timed(&TimedCommand::TrimClip { clip: clip_id }, &project), Ok(()));
    assert!(matches!(check_timed(&TimedCommand::TrimClip { clip: 42 }, &project), Err(TimedProblem::Refused(_))));
    assert_eq!(check_timed(&TimedCommand::SetMarker { marker: 7 }, &project), Ok(()));
    match check_timed(&TimedCommand::SetMarker { marker: 8 }, &project) {
        Err(TimedProblem::Refused(message)) => assert!(message.contains("marker 8 does not exist"), "{message}"),
        other => panic!("unexpected {other:?}"),
    }
    assert_eq!(check_timed(&TimedCommand::ShiftClips { track: video, delta: 24 }, &project), Ok(()));
    assert_eq!(check_timed(&TimedCommand::ShiftClips { track: video, delta: -24 }, &project), Ok(()));
    assert_eq!(
        check_timed(&TimedCommand::ShiftClips { track: video, delta: 0 }, &project),
        Err(TimedProblem::ZeroShift)
    );
    assert!(matches!(
        check_timed(&TimedCommand::ShiftClips { track: 9, delta: 0 }, &project),
        Err(TimedProblem::Refused(_))
    ));
    match check_timed(&TimedCommand::SetTransition { clip: title }, &project) {
        Err(TimedProblem::Refused(message)) => {
            assert_eq!(message, format!("clip {title} has no transition at its right cut"))
        }
        other => panic!("unexpected {other:?}"),
    }
    clip_mut(&mut project, title).transition = true;
    assert_eq!(check_timed(&TimedCommand::SetTransition { clip: title }, &project), Ok(()));
}

#[test]
fn moved_and_duplicated_clips_need_a_compatible_lane() {
    let (mut project, _, video, text, clip_id, title) = fixture();
    clip_mut(&mut project, title).fits = LaneFit {
        video: false, audio: false, text: true, sticker: false, effect: false, filter: false, adjustment: false,
    };
    assert_eq!(check_timed(&TimedCommand::MoveClip { clip: title, to_track: text }, &project), Ok(()));
    match check_timed(&TimedCommand::MoveClip { clip: title, to_track: video }, &project) {
        Err(TimedProblem::Refused(message)) => {
            assert_eq!(message, format!("clip {title} cannot live on track {video} (Video lane)"))
        }
        other => panic!("unexpected {other:?}"),
    }
    match check_timed(&TimedCommand::DuplicateClip { clip: title, to_track: video, start: None }, &project) {
        Err(TimedProblem::Refused(message)) => assert_eq!(
            message,
            format!(
                "clip {title} cannot be duplicated onto track {video} (Video lane); choose a track \
                 compatible with the source clip's content"
            )
        ),
        other => panic!("unexpected {other:?}"),
    }
    // The title spans ticks 48..120 on the text track; a copy must not overlap it.
    assert_eq!(
        check_timed(&TimedCommand::DuplicateClip { clip: title, to_track: text, start: Some(100) }, &project),
        Err(TimedProblem::DuplicateOverlap { start: 100, duration: 72 })
    );
    assert_eq!(
        check_timed(&TimedCommand::DuplicateClip { clip: title, to_track: text, start: Some(120) }, &project),
        Ok(())
    );
    project.tracks.iter_mut().find(|t| t.id == text).unwrap().locked = true;
    match check_timed(&TimedCommand::DuplicateClip { clip: title, to_track: text, start: None }, &project) {
        Err(TimedProblem::Refused(message)) => assert_eq!(
            message,
            format!("destination track {text} is locked; unlock it or choose another compatible track")
        ),
        other => panic!("unexpected {other:?}"),
    }
    let _ = clip_id;
}

fn with_blur(project: &mut ProjectFacts, clip: u64) {
    clip_mut(project, clip).effects = 1;
    project.effect_chains.push(EffectChainFacts {
        clip,
        effects: vec![vec![
            EffectParamFacts { name: "radius".to_string(), kind: ParamKind::Scalar },
            EffectParamFacts { name: "center".to_string(), kind: ParamKind::Vec2 },
            EffectParamFacts { name: "tint".to_string(), kind: ParamKind::Color },
        ]],
    });
}

fn effect(index: u32, name: &str) -> WireClipParam {
    WireClipParam::Effect { index, param: name.to_string() }
}

#[test]
fn effect_params_resolve_to_their_slot() {
    let (mut project, _, _, _, clip_id, _) = fixture();
    with_blur(&mut project, clip_id);
    assert_eq!(
        check_clip_param(&effect(0, "center"), clip_id, &project),
        Ok(ClipParamRef::Effect { effect: 0, slot: 1 })
    );
    assert_eq!(check_clip_param(&WireClipParam::Opacity, clip_id, &project), Ok(ClipParamRef::Plain));
    assert_eq!(
        check_clip_param(&effect(0, "gain"), clip_id, &project).unwrap_err().message,
        format!("effect 0 on clip {clip_id} has no param 'gain'; its params: radius, center, tint")
    );
    assert_eq!(
        check_clip_param(&effect(2, "radius"), clip_id, &project).unwrap_err().message,
        format!("effect index 2 is out of range for clip {clip_id} (chain length 1)")
    );
}

#[test]
fn effect_params_take_the_value_their_kind_names() {
    let (mut project, _, _, _, clip_id, _) = fixture();
    with_blur(&mut project, clip_id);
    let shape = |param: &WireClipParam, value: bool, position: bool, rgba: bool| {
        param_value_shape(param, clip_id, &project, value, position, rgba, None)
    };
    assert_eq!(shape(&effect(0, "tint"), false, false, true), Ok(ValueShape::Color));
    assert_eq!(shape(&effect(0, "center"), false, true, false), Ok(ValueShape::Vec2));
    assert_eq!(shape(&effect(0, "radius"), true, false, false), Ok(ValueShape::Scalar));
    assert_eq!(
        shape(&effect(0, "tint"), true, false, false).unwrap_err().message,
        "effect param 'tint' is a color; pass 'rgba' as [red, green, blue, alpha]"
    );
    assert_eq!(
        shape(&effect(0, "center"), true, false, false).unwrap_err().message,
        "effect param 'center' is a vec2; pass 'position' as [x, y]"
    );
}

#[test]
fn value_shapes_follow_the_parameter() {
    let (project, _, _, _, clip_id, _) = fixture();
    let shape = |param: WireClipParam, value: bool, position: bool, rgba: bool| {
        param_value_shape(&param, clip_id, &project, value, position, rgba, None)
    };
    assert_eq!(shape(WireClipParam::Scale, true, true, false), Ok(ValueShape::Vec2));
    assert_eq!(shape(WireClipParam::Scale, true, false, false), Ok(ValueShape::Scalar));
    assert_eq!(
        shape(WireClipParam::Scale, false, false, false).unwrap_err().message,
        "scale param needs 'value' (uniform number) or 'position' as [x, y]"
    );
    assert_eq!(shape(WireClipParam::Look { param: WireLookParam::MaskCenter }, false, true, false), Ok(ValueShape::Vec2));
    assert_eq!(
        shape(WireClipParam::Shape { param: WireShapeParam::Width }, false, false, true).unwrap_err().message,
        "param 'shape { param: width }' needs the 'value' argument (a number)"
    );
    assert_eq!(
        shape(WireClipParam::Style { param: WireStyleParam::GlowColor }, true, false, false).unwrap_err().message,
        "param 'style { param: glowcolor }' needs the 'rgba' argument as [red, green, blue, alpha]"
    );
    assert_eq!(
        param_value_shape(&WireClipParam::Crop, clip_id, &project, false, false, false, None).unwrap_err().message,
        "crop param needs the 'rect' argument as [x, y, w, h]"
    );
    assert_eq!(
        param_value_shape(&WireClipParam::Crop, clip_id, &project, false, false, false, Some(None)),
        Ok(ValueShape::Rect)
    );
}

#[test]
fn keyframes_stay_inside_their_clip_and_speed_is_not_keyframed() {
    let (project, _, _, _, _, title) = fixture();
    assert_eq!(check_timed(&TimedCommand::KeyframeAt { clip: title, at: 48 }, &project), Ok(()));
    assert_eq!(
        check_timed(&TimedCommand::KeyframeAt { clip: title, at: 120 }, &project),
        Err(TimedProblem::KeyframeOutside { start: 48, duration: 72 })
    );
    assert!(check_keyframe_param(&WireClipParam::Speed).unwrap_err().message.contains("set_clip_speed"));
    assert_eq!(check_keyframe_param(&WireClipParam::Pan), Ok(()));
    assert!(check_easing_target(&WireClipParam::Crop).is_err());
    assert_eq!(
        check_easing_target(&WireClipParam::Style { param: WireStyleParam::OutlineColor }).unwrap_err().message,
        "apply_easing_preset does not support color parameters"
    );
    assert_eq!(check_easing_target(&WireClipParam::Position), Ok(()));
}

#[test]
fn speeds_in_hundredths_reduce_to_exact_fractions() {
    assert_eq!(speed_fraction(200), (2, 1));
    assert_eq!(speed_fraction(50), (1, 2));
    assert_eq!(speed_fraction(33), (33, 100));
    let (project, _, _, _, clip_id, title) = fixture();
    assert_eq!(check_timed(&TimedCommand::SetClipSpeed { clip: clip_id }, &project), Ok(()));
    assert!(matches!(check_timed(&TimedCommand::SetClipSpeed { clip: title }, &project), Err(TimedProblem::Refused(_))));
}

#[test]
fn media_placement_checks_lane_and_extent() {
    let (project, media, video, text, _, _) = fixture();
    let place = |track: u64, source: Option<SourceRange>| {
        check_timed(&TimedCommand::PlaceMedia { track, media, source }, &project)
    };
    assert_eq!(place(video, Some(SourceRange { start: 0, duration: 1440 })), Ok(()));
    assert_eq!(place(video, Some(SourceRange { start: 24, duration: 1440 })), Err(TimedProblem::MediaExtent { duration: 1440 }));
    match place(text, None) {
        Err(TimedProblem::Refused(message)) => {
            assert_eq!(message, format!("track {text} is a Text lane; media clips go on video or audio tracks"))
        }
        other => panic!("unexpected {other:?}"),
    }
}
