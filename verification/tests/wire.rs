use std::collections::HashMap;

use cutlass_ai::action_log::{
    describe_plain, param_name, push_outcome, rgba, ActionOutcome,
};
use cutlass_ai::describe::{canvas_size, even_pixels, largest_frame, ratio_to_pixels};
use cutlass_ai::validate::{check_link_list, check_unlink_list, gcd, UNLINK_NOTHING_LINKED};
use cutlass_ai::wire::{
    argument_hint, remap_id, AddEffect, AddTrack, ExtractAudio, LinkClips, MoveEffect,
    PlainCommand, RemoveMarker, SetAudioRole, SetCanvas, SetClipBlendMode, SetClipPitch,
    SetClipStabilize, SetDenoise, SetSpeedCurve, SetTrackEnabled, SetTrackLocked, SetTrackMuted,
    UnlinkClips, WireAudioRole, WireBlendMode, WireCanvasAspect, WireClipParam, WireLookParam,
    WireShapeParam, WireStabilizeLevel, WireTrackKind, MAX_MULTI_CLIP_REFS,
};

#[test]
fn plain_action_lines_read_like_an_edit_log() {
    let move_effect = PlainCommand::MoveEffect(MoveEffect {
        clip: 7,
        from_index: 0,
        to_index: 2,
    });
    assert_eq!(describe_plain(&move_effect, None), "moved effect 0 to 2 on clip 7");

    let extract = PlainCommand::ExtractAudio(ExtractAudio { clip: 7, track: 3 });
    assert_eq!(
        describe_plain(&extract, Some(ActionOutcome::Created(22))),
        "extracted audio from clip 7 onto track 3 (new clip 22)"
    );

    let track = PlainCommand::AddTrack(AddTrack {
        kind: WireTrackKind::Video,
        name: "B-Roll".into(),
        index: None,
    });
    assert_eq!(
        describe_plain(&track, Some(ActionOutcome::CreatedTrack(4))),
        "added video track 'b-roll' (track 4)"
    );
}

#[test]
fn plain_commands_describe_every_shape() {
    let cases: Vec<(PlainCommand, &str)> = vec![
        (
            PlainCommand::AddEffect(AddEffect { clip: 1, effect: "vignette".into() }),
            "added vignette effect to clip 1",
        ),
        (
            PlainCommand::SetSpeedCurve(SetSpeedCurve { clip: 2, preset: Some("hero".into()) }),
            "applied hero speed ramp to clip 2",
        ),
        (
            PlainCommand::SetSpeedCurve(SetSpeedCurve { clip: 2, preset: None }),
            "cleared speed ramp on clip 2",
        ),
        (
            PlainCommand::SetClipPitch(SetClipPitch { clip: 3, preserve_pitch: false }),
            "set clip 3 pitch to follow speed",
        ),
        (
            PlainCommand::SetDenoise(SetDenoise { clip: 3, denoise: true }),
            "turned noise reduction on on clip 3",
        ),
        (
            PlainCommand::SetClipStabilize(SetClipStabilize {
                clip: 5,
                level: Some(WireStabilizeLevel::MaxSmooth),
            }),
            "set max smooth stabilization on clip 5",
        ),
        (
            PlainCommand::SetClipBlendMode(SetClipBlendMode { clip: 6, mode: WireBlendMode::SoftLight }),
            "set clip 6 blend mode to soft_light",
        ),
        (
            PlainCommand::SetAudioRole(SetAudioRole { clip: 8, role: Some(WireAudioRole::Voiceover) }),
            "tagged clip 8 as voiceover",
        ),
        (
            PlainCommand::SetAudioRole(SetAudioRole { clip: 8, role: None }),
            "cleared audio role on clip 8",
        ),
        (PlainCommand::SetTrackEnabled(SetTrackEnabled { track: 2, enabled: false }), "hid track 2"),
        (PlainCommand::SetTrackMuted(SetTrackMuted { track: 2, muted: true }), "muted track 2"),
        (PlainCommand::SetTrackLocked(SetTrackLocked { track: 2, locked: false }), "unlocked track 2"),
        (
            PlainCommand::LinkClips(LinkClips { clips: vec![1, 2, 3] }),
            "linked clips 1, 2, 3",
        ),
        (
            PlainCommand::UnlinkClips(UnlinkClips { clips: vec![9] }),
            "unlinked complete groups touched by clips 9",
        ),
        (PlainCommand::RemoveMarker(RemoveMarker { marker: 11 }), "removed marker 11"),
        (
            PlainCommand::SetCanvas(SetCanvas { aspect: None, background: None }),
            "set canvas unchanged",
        ),
        (
            PlainCommand::SetCanvas(SetCanvas {
                aspect: Some(WireCanvasAspect::Tall9x16),
                background: Some([1, 2, 3]),
            }),
            "set canvas aspect 9:16, background rgb(1, 2, 3)",
        ),
    ];
    for (command, expected) in cases {
        assert_eq!(describe_plain(&command, None), expected);
    }
}

#[test]
fn outcome_suffix_names_what_was_created() {
    let mut line = "split clip 7".to_string();
    push_outcome(&mut line, Some(ActionOutcome::CreatedMarker(3)));
    assert_eq!(line, "split clip 7 (marker 3)");
    let mut plain = "x".to_string();
    push_outcome(&mut plain, Some(ActionOutcome::Applied));
    push_outcome(&mut plain, None);
    assert_eq!(plain, "x");
}

#[test]
fn colors_and_params_read_like_the_editor() {
    assert_eq!(rgba([255, 0, 16, 128]), "#ff001080");
    assert_eq!(param_name(&WireClipParam::AnchorPoint), "anchor point");
    assert_eq!(
        param_name(&WireClipParam::Effect { index: 2, param: "radius".into() }),
        "effect 2 radius"
    );
    assert_eq!(
        param_name(&WireClipParam::Shape { param: WireShapeParam::CornerRadius }),
        "shape cornerradius"
    );
    assert_eq!(
        param_name(&WireClipParam::Look { param: WireLookParam::MaskCenter }),
        "look maskcenter"
    );
}

#[test]
fn canvas_aspect_names_round_trip_to_wire_tokens() {
    assert_eq!(WireCanvasAspect::Auto.name(), "auto");
    assert_eq!(WireCanvasAspect::Wide16x9.name(), "16:9");
    assert_eq!(WireCanvasAspect::Cinema21x9.name(), "21:9");
}

#[test]
fn generator_tools_get_an_argument_hint() {
    assert!(argument_hint("add_generated").unwrap().contains("tagged object"));
    assert_eq!(argument_hint("add_generated"), argument_hint("set_generator"));
    assert_eq!(argument_hint("split_clip"), None);
    assert_eq!(MAX_MULTI_CLIP_REFS, 64);
}

#[test]
fn remapping_follows_the_maps_and_passes_unknown_ids_through() {
    let mut clips = HashMap::new();
    clips.insert(7u64, 70u64);
    let mut tracks = HashMap::new();
    tracks.insert(3u64, 30u64);
    let markers: HashMap<u64, u64> = HashMap::new();
    assert_eq!(remap_id(&clips, 7), 70);
    assert_eq!(remap_id(&clips, 8), 8);

    let mut extract = PlainCommand::ExtractAudio(ExtractAudio { clip: 7, track: 3 });
    extract.remap_ids(&clips, &tracks, &markers);
    assert_eq!(extract, PlainCommand::ExtractAudio(ExtractAudio { clip: 70, track: 30 }));

    let mut link = PlainCommand::LinkClips(LinkClips { clips: vec![7, 9] });
    link.remap_ids(&clips, &tracks, &markers);
    assert_eq!(link, PlainCommand::LinkClips(LinkClips { clips: vec![70, 9] }));

    let mut marker = PlainCommand::RemoveMarker(RemoveMarker { marker: 7 });
    marker.remap_ids(&clips, &tracks, &markers);
    assert_eq!(marker, PlainCommand::RemoveMarker(RemoveMarker { marker: 7 }));
}

#[test]
fn ratio_presets_resolve_to_even_pixel_sizes() {
    assert_eq!(ratio_to_pixels(16, 9), (1920, 1080));
    assert_eq!(ratio_to_pixels(9, 16), (1080, 1920));
    assert_eq!(ratio_to_pixels(1, 1), (1080, 1080));
    assert_eq!(ratio_to_pixels(4, 5), (1080, 1350));
    assert_eq!(ratio_to_pixels(21, 9), (2520, 1080));
    assert_eq!(canvas_size(None, &Vec::new()), (1920, 1080));
    assert_eq!(canvas_size(None, &vec![(1281, 721), (641, 361)]), (1280, 720));
    assert_eq!(canvas_size(Some((16, 9)), &vec![(3840, 2160)]), (1920, 1080));
}

#[test]
fn even_pixels_rounds_down_and_keeps_two() {
    assert_eq!(even_pixels(0), 2);
    assert_eq!(even_pixels(1), 2);
    assert_eq!(even_pixels(7), 6);
    assert_eq!(even_pixels(8), 8);
    assert_eq!(largest_frame(&vec![(2, 2), (1, 4), (3, 1)]), Some((2, 2)));
}

#[test]
fn gcd_reduces_speed_fractions() {
    assert_eq!(gcd(200, 100), 100);
    assert_eq!(gcd(33, 100), 1);
    assert_eq!(gcd(50, 100), 50);
    assert_eq!(gcd(0, 0), 1);
    // Rust's remainder keeps the dividend's sign; a negative result reads as 1.
    assert_eq!(gcd(-4, 6), 2);
    assert_eq!(gcd(-6, -4), 1);
    assert_eq!(gcd(i32::MIN, 2), 2);
}

#[test]
fn link_lists_are_bounded() {
    assert_eq!(check_link_list(&vec![1]), Err("link_clips needs at least two clip ids".to_string()));
    assert_eq!(check_link_list(&vec![1, 2]), Ok(()));
    let too_many: Vec<u64> = (0..65).collect();
    assert_eq!(
        check_link_list(&too_many),
        Err("link_clips accepts at most 64 clip ids (got 65)".to_string())
    );
    assert_eq!(
        check_unlink_list(&too_many),
        Err("unlink_clips accepts at most 64 clip ids (got 65)".to_string())
    );
}

#[test]
fn unlink_lists_are_preflighted() {
    assert_eq!(
        check_unlink_list(&Vec::new()),
        Err("unlink_clips needs at least one clip id".to_string())
    );
    assert_eq!(
        check_unlink_list(&vec![4, 5, 4, 5]),
        Err("unlink_clips contains duplicate clip id 4; list each clip once".to_string())
    );
    assert_eq!(check_unlink_list(&vec![4, 5]), Ok(()));
    assert!(UNLINK_NOTHING_LINKED.starts_with("unlink_clips found no linked clips"));
}

#[test]
fn remapping_twice_equals_remapping_through_the_composed_maps() {
    let first: HashMap<u64, u64> = [(1, 10), (2, 20)].into_iter().collect();
    let second: HashMap<u64, u64> = [(10, 100), (3, 30)].into_iter().collect();
    // `first` then `second`, written out: 1→10→100, 2→20, 3→30.
    let composed: HashMap<u64, u64> = [(1, 100), (2, 20), (3, 30), (10, 100)].into_iter().collect();
    let empty: HashMap<u64, u64> = HashMap::new();

    let mut twice = PlainCommand::LinkClips(LinkClips { clips: vec![1, 2, 3, 4] });
    twice.remap_ids(&first, &empty, &empty);
    twice.remap_ids(&second, &empty, &empty);
    let mut once = PlainCommand::LinkClips(LinkClips { clips: vec![1, 2, 3, 4] });
    once.remap_ids(&composed, &empty, &empty);
    assert_eq!(twice, once);
    assert_eq!(once, PlainCommand::LinkClips(LinkClips { clips: vec![100, 20, 30, 4] }));

    let mut twice = PlainCommand::ExtractAudio(ExtractAudio { clip: 1, track: 3 });
    twice.remap_ids(&first, &first, &empty);
    twice.remap_ids(&second, &second, &empty);
    let mut once = PlainCommand::ExtractAudio(ExtractAudio { clip: 1, track: 3 });
    once.remap_ids(&composed, &composed, &empty);
    assert_eq!(twice, once);
    assert_eq!(once, PlainCommand::ExtractAudio(ExtractAudio { clip: 100, track: 30 }));
}
