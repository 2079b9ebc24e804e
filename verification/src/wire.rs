//! The agent-facing wire vocabulary: the argument types of the edit tools
//! the model calls, with times-free commands held as plain integers and
//! closed enums, plus the tool-name catalog and its model-readable
//! rejection messages.

use vstd::prelude::*;
use std::collections::HashMap;

verus! {

/// Model-facing clip lists stay small enough for deterministic validation and
/// useful rejection messages while covering realistic linked groups.
pub const MAX_MULTI_CLIP_REFS: usize = 64;

/// Track lane categories the agent may create or target.
#[derive(Debug, Clone, Copy, PartialEq, Eq, Structural)]
pub enum WireTrackKind {
    /// Footage and other imported picture media.
    Video,
    /// Imported sound media.
    Audio,
    /// Titles and captions.
    Text,
    /// Graphic overlays: solid colors and shapes.
    Sticker,
}

/// Geometry of a generated shape clip.
#[derive(Debug, Clone, Copy, PartialEq, Eq, Structural)]
pub enum WireShape {
    Rectangle,
    Ellipse,
}

/// Add a track to the timeline stack.
#[derive(Debug, Clone, PartialEq, Eq)]
pub struct AddTrack {
    pub kind: WireTrackKind,
    /// Display name, e.g. "V2" or "Music".
    pub name: String,
    /// Stack position (0 = bottom layer). `None` adds on top of the stack.
    pub index: Option<u32>,
}

/// Detach a video clip's embedded sound onto an explicit audio track.
#[derive(Debug, Clone, Copy, PartialEq, Eq, Structural)]
pub struct ExtractAudio {
    /// Source media clip on a video track.
    pub clip: u64,
    /// Target unlocked audio track.
    pub track: u64,
}

/// Append a visual effect to a clip's chain (catalog id, e.g. gaussian_blur).
#[derive(Debug, Clone, PartialEq, Eq)]
pub struct AddEffect {
    pub clip: u64,
    /// Effect catalog id (e.g. `gaussian_blur`, `vignette`).
    pub effect: String,
}

/// Remove an effect by chain index (0 = first).
#[derive(Debug, Clone, Copy, PartialEq, Eq, Structural)]
pub struct RemoveEffect {
    pub clip: u64,
    pub index: u32,
}

/// Reorder an effect; both indices address the pre-move chain.
#[derive(Debug, Clone, Copy, PartialEq, Eq, Structural)]
pub struct MoveEffect {
    pub clip: u64,
    pub from_index: u32,
    pub to_index: u32,
}

/// Add a transition where `clip` abuts the next clip on its track.
#[derive(Debug, Clone, PartialEq, Eq)]
pub struct AddTransition {
    pub clip: u64,
    /// Transition catalog id (e.g. `crossfade`, `dip_to_black`).
    pub transition: String,
}

/// Remove the transition at `clip`'s right cut.
#[derive(Debug, Clone, Copy, PartialEq, Eq, Structural)]
pub struct RemoveTransition {
    pub clip: u64,
}

/// Animatable properties of a generated shape clip.
#[derive(Debug, Clone, Copy, PartialEq, Eq, Structural)]
pub enum WireShapeParam {
    Width,
    Height,
    CornerRadius,
    InnerRatio,
    Fill,
    StrokeColor,
    StrokeWidth,
}

/// Animatable visual-style properties of a generated text clip.
#[derive(Debug, Clone, Copy, PartialEq, Eq, Structural)]
pub enum WireTextParam {
    Size,
    Fill,
    LetterSpacing,
    LineSpacing,
    StrokeWidth,
    StrokeColor,
    ShadowBlur,
    ShadowDistance,
    ShadowColor,
    BackgroundColor,
    BackgroundRadius,
}

/// Animatable look/mask params (`mask_center`/`mask_size` = vec2; else scalar).
#[derive(Debug, Clone, Copy, PartialEq, Eq, Structural)]
pub enum WireLookParam {
    FilterIntensity,
    LutIntensity,
    AdjustBrightness,
    AdjustContrast,
    AdjustSaturation,
    AdjustExposure,
    AdjustTemperature,
    AdjustTint,
    AdjustHue,
    AdjustHighlights,
    AdjustShadows,
    AdjustSharpness,
    AdjustVignette,
    MaskFeather,
    MaskCenter,
    MaskSize,
    MaskRotation,
    MaskRoundness,
    ChromaStrength,
    ChromaShadow,
}

/// Animatable properties of a clip's layer-quad styles.
#[derive(Debug, Clone, Copy, PartialEq, Eq, Structural)]
pub enum WireStyleParam {
    ShadowColor,
    ShadowOffset,
    ShadowBlur,
    GlowColor,
    GlowRadius,
    GlowIntensity,
    OutlineColor,
    OutlineWidth,
    BackgroundColor,
    BackgroundPadding,
    BackgroundRadius,
}

/// An animatable clip property the keyframe commands can address.
#[derive(Debug, Clone, PartialEq, Eq)]
pub enum WireClipParam {
    Position,
    AnchorPoint,
    Scale,
    Rotation,
    Opacity,
    Crop,
    Volume,
    Pan,
    Speed,
    Effect { index: u32, param: String },
    Shape { param: WireShapeParam },
    Text { param: WireTextParam },
    Look { param: WireLookParam },
    Style { param: WireStyleParam },
}

/// Multi-keyframe easing preset applied to the outgoing segment.
#[derive(Debug, Clone, Copy, PartialEq, Eq, Structural)]
pub enum WireEasingPreset {
    BounceOut,
    ElasticOut,
    BackOut,
}

/// Apply or clear a speed ramp preset on a media clip.
#[derive(Debug, Clone, PartialEq, Eq)]
pub struct SetSpeedCurve {
    pub clip: u64,
    /// Preset: ramp_up, ramp_down, montage, hero, bullet. `None` clears to
    /// constant speed.
    pub preset: Option<String>,
}

/// Lock or unlock pitch on a retimed media clip.
#[derive(Debug, Clone, Copy, PartialEq, Eq, Structural)]
pub struct SetClipPitch {
    pub clip: u64,
    /// true = keep pitch while time-stretching; false = pitch follows speed.
    pub preserve_pitch: bool,
}

/// Enable/disable speech-preserving noise reduction on a media clip.
#[derive(Debug, Clone, Copy, PartialEq, Eq, Structural)]
pub struct SetDenoise {
    pub clip: u64,
    pub denoise: bool,
}

/// Mask shape kinds (CapCut mask presets).
#[derive(Debug, Clone, Copy, PartialEq, Eq, Structural)]
pub enum WireMaskKind {
    Linear,
    Mirror,
    Circle,
    Rectangle,
    Heart,
    Star,
}

/// Stabilization strength presets (CapCut stabilize).
#[derive(Debug, Clone, Copy, PartialEq, Eq, Structural)]
pub enum WireStabilizeLevel {
    Recommended,
    Smooth,
    MaxSmooth,
}

/// Set (or clear) video stabilization on a media-backed video clip.
#[derive(Debug, Clone, Copy, PartialEq, Eq, Structural)]
pub struct SetClipStabilize {
    pub clip: u64,
    /// Stabilization preset. `None` clears stabilization.
    pub level: Option<WireStabilizeLevel>,
}

/// How a visual clip composites over the stack below (CapCut "Blend").
#[derive(Debug, Clone, Copy, PartialEq, Eq, Structural)]
pub enum WireBlendMode {
    Normal,
    Darken,
    Multiply,
    ColorBurn,
    Lighten,
    Screen,
    ColorDodge,
    Add,
    Overlay,
    SoftLight,
    HardLight,
    Difference,
    Exclusion,
}

/// Set how a clip composites over the stack below.
#[derive(Debug, Clone, Copy, PartialEq, Eq, Structural)]
pub struct SetClipBlendMode {
    pub clip: u64,
    pub mode: WireBlendMode,
}

/// Animation slot (CapCut In / Out / Combo tabs).
#[derive(Debug, Clone, Copy, PartialEq, Eq, Structural)]
pub enum WireAnimationSlot {
    In,
    Out,
    Combo,
}

/// Audio role tags for clips on audio tracks.
#[derive(Debug, Clone, Copy, PartialEq, Eq, Structural)]
pub enum WireAudioRole {
    Music,
    Sfx,
    Voiceover,
    Extracted,
}

/// Tag (or untag) what an audio-lane clip is.
#[derive(Debug, Clone, Copy, PartialEq, Eq, Structural)]
pub struct SetAudioRole {
    pub clip: u64,
    /// Role to apply. `None` clears the tag.
    pub role: Option<WireAudioRole>,
}

/// Remove a clip, leaving a gap where it sat.
#[derive(Debug, Clone, Copy, PartialEq, Eq, Structural)]
pub struct RemoveClip {
    pub clip: u64,
}

/// Remove a track and any clips still on it.
#[derive(Debug, Clone, Copy, PartialEq, Eq, Structural)]
pub struct RemoveTrack {
    pub track: u64,
}

/// Toggle whether a visual track contributes to the composite.
#[derive(Debug, Clone, Copy, PartialEq, Eq, Structural)]
pub struct SetTrackEnabled {
    pub track: u64,
    pub enabled: bool,
}

/// Toggle whether an audio track is silenced.
#[derive(Debug, Clone, Copy, PartialEq, Eq, Structural)]
pub struct SetTrackMuted {
    pub track: u64,
    pub muted: bool,
}

/// Toggle whether a track's clips are editable.
#[derive(Debug, Clone, Copy, PartialEq, Eq, Structural)]
pub struct SetTrackLocked {
    pub track: u64,
    pub locked: bool,
}

/// Remove a clip and slide later clips on its track left to close the gap.
#[derive(Debug, Clone, Copy, PartialEq, Eq, Structural)]
pub struct RippleDelete {
    pub clip: u64,
}

/// Put two or more clips into one link group.
#[derive(Debug, Clone, PartialEq, Eq)]
pub struct LinkClips {
    /// Ids of the clips to link (at least two).
    pub clips: Vec<u64>,
}

/// Dissolve every link group touched by one or more clips.
#[derive(Debug, Clone, PartialEq, Eq)]
pub struct UnlinkClips {
    /// Ids of linked clips whose complete groups should be dissolved.
    pub clips: Vec<u64>,
}

/// Marker flag colors (the editor's fixed palette).
#[derive(Debug, Clone, Copy, PartialEq, Eq, Structural)]
pub enum WireMarkerColor {
    Teal,
    Blue,
    Purple,
    Pink,
    Red,
    Orange,
    Yellow,
    Green,
}

/// Remove a timeline marker.
#[derive(Debug, Clone, Copy, PartialEq, Eq, Structural)]
pub struct RemoveMarker {
    pub marker: u64,
}

/// Canvas aspect-ratio presets the agent may pick.
#[derive(Debug, Clone, Copy, PartialEq, Eq, Structural)]
pub enum WireCanvasAspect {
    /// Follow the footage (the default).
    Auto,
    Wide16x9,
    Tall9x16,
    Square1x1,
    Portrait4x5,
    Cinema21x9,
}

/// The serialized name of each canvas aspect preset.
pub open spec fn aspect_name(a: WireCanvasAspect) -> Seq<char> {
    match a {
        WireCanvasAspect::Auto => "auto"@,
        WireCanvasAspect::Wide16x9 => "16:9"@,
        WireCanvasAspect::Tall9x16 => "9:16"@,
        WireCanvasAspect::Square1x1 => "1:1"@,
        WireCanvasAspect::Portrait4x5 => "4:5"@,
        WireCanvasAspect::Cinema21x9 => "21:9"@,
    }
}

impl WireCanvasAspect {
    /// The serialized name (`"auto"`, `"16:9"`, …), for transcripts.
    pub fn name(self) -> (r: &'static str)
        ensures
            r@ == aspect_name(self),
    {
        match self {
            WireCanvasAspect::Auto => "auto",
            WireCanvasAspect::Wide16x9 => "16:9",
            WireCanvasAspect::Tall9x16 => "9:16",
            WireCanvasAspect::Square1x1 => "1:1",
            WireCanvasAspect::Portrait4x5 => "4:5",
            WireCanvasAspect::Cinema21x9 => "21:9",
        }
    }
}

/// Set the project canvas: aspect preset and/or background color. `None`
/// fields keep their current value.
#[derive(Debug, Clone, Copy, PartialEq, Eq)]
pub struct SetCanvas {
    pub aspect: Option<WireCanvasAspect>,
    /// Background as `[red, green, blue]`, each 0-255.
    pub background: Option<[u8; 3]>,
}

/// The corrective example for the tools whose nested `generator` shape
/// models most often get wrong.
pub open spec fn generator_hint() -> Seq<char> {
    "'generator' must be a tagged object: {\"type\": \"text\", \"content\": \"Hello\"} or {\"type\": \"solid\", \"rgba\": [0, 0, 0, 255]} or {\"type\": \"shape\", \"shape\": \"ellipse\", \"rgba\": [255, 0, 0, 255]}"@
}

/// A corrective example appended to argument-decode rejections, for the
/// tools whose nested shapes models most often get wrong.
pub fn argument_hint(tool: &str) -> (r: Option<&'static str>)
    ensures
        (tool@ == "add_generated"@ || tool@ == "set_generator"@) ==> (r matches Some(h) && h@ == generator_hint()),
        !(tool@ == "add_generated"@ || tool@ == "set_generator"@) ==> r is None,
{
    if crate::text::str_eq(tool, "add_generated") || crate::text::str_eq(tool, "set_generator") {
        Some("'generator' must be a tagged object: {\"type\": \"text\", \"content\": \"Hello\"} or {\"type\": \"solid\", \"rgba\": [0, 0, 0, 255]} or {\"type\": \"shape\", \"shape\": \"ellipse\", \"rgba\": [255, 0, 0, 255]}")
    } else {
        None
    }
}

/// `id` rewritten through `map`: the mapped id where `map` has one, else
/// `id` itself.
pub open spec fn remapped(map: Map<u64, u64>, id: u64) -> u64 {
    if map.contains_key(id) { map[id] } else { id }
}

/// Rewrite one id through `map` (ids absent from the map pass through).
pub fn remap_id(map: &HashMap<u64, u64>, id: u64) -> (r: u64)
    ensures
        r == remapped(map@, id),
{
    broadcast use vstd::std_specs::hash::group_hash_axioms;
    match map.get(&id) {
        Some(mapped) => *mapped,
        None => id,
    }
}

/// Rewrite every id of a clip list through `map`, in place.
pub fn remap_ids_in(ids: &mut Vec<u64>, map: &HashMap<u64, u64>)
    ensures
        final(ids)@.len() == old(ids)@.len(),
        forall|i: int| 0 <= i < old(ids)@.len() ==> #[trigger] final(ids)@[i] == remapped(map@, old(ids)@[i]),
{
    let mut i: usize = 0;
    while i < ids.len()
        invariant
            ids@.len() == old(ids)@.len(),
            i <= ids@.len(),
            forall|j: int| 0 <= j < i ==> #[trigger] ids@[j] == remapped(map@, old(ids)@[j]),
            forall|j: int| i <= j < ids@.len() ==> #[trigger] ids@[j] == old(ids)@[j],
        decreases ids@.len() - i,
    {
        let mapped = remap_id(map, ids[i]);
        ids.set(i, mapped);
        i += 1;
    }
}

/// The edit commands whose arguments are ids, indices, flags and names
/// only (the timed and numeric commands carry fractional values and stay
/// with the embedder).
#[derive(Debug, Clone, PartialEq, Eq)]
pub enum PlainCommand {
    AddTrack(AddTrack),
    ExtractAudio(ExtractAudio),
    AddEffect(AddEffect),
    RemoveEffect(RemoveEffect),
    MoveEffect(MoveEffect),
    AddTransition(AddTransition),
    RemoveTransition(RemoveTransition),
    SetSpeedCurve(SetSpeedCurve),
    SetClipPitch(SetClipPitch),
    SetDenoise(SetDenoise),
    SetClipStabilize(SetClipStabilize),
    SetClipBlendMode(SetClipBlendMode),
    SetAudioRole(SetAudioRole),
    RemoveClip(RemoveClip),
    RemoveTrack(RemoveTrack),
    SetTrackEnabled(SetTrackEnabled),
    SetTrackMuted(SetTrackMuted),
    SetTrackLocked(SetTrackLocked),
    RippleDelete(RippleDelete),
    LinkClips(LinkClips),
    UnlinkClips(UnlinkClips),
    RemoveMarker(RemoveMarker),
    SetCanvas(SetCanvas),
}

/// `c` with its clip, track and marker references rewritten through the
/// three maps (ids absent from a map pass through unchanged).
pub open spec fn remapped_command(
    c: PlainCommand,
    clips: Map<u64, u64>,
    tracks: Map<u64, u64>,
    markers: Map<u64, u64>,
) -> PlainCommand {
    match c {
        PlainCommand::AddTrack(a) => PlainCommand::AddTrack(a),
        PlainCommand::ExtractAudio(a) => PlainCommand::ExtractAudio(ExtractAudio { clip: remapped(clips, a.clip), track: remapped(tracks, a.track) }),
        PlainCommand::AddEffect(a) => PlainCommand::AddEffect(AddEffect { clip: remapped(clips, a.clip), ..a }),
        PlainCommand::RemoveEffect(a) => PlainCommand::RemoveEffect(RemoveEffect { clip: remapped(clips, a.clip), ..a }),
        PlainCommand::MoveEffect(a) => PlainCommand::MoveEffect(MoveEffect { clip: remapped(clips, a.clip), ..a }),
        PlainCommand::AddTransition(a) => PlainCommand::AddTransition(AddTransition { clip: remapped(clips, a.clip), ..a }),
        PlainCommand::RemoveTransition(a) => PlainCommand::RemoveTransition(RemoveTransition { clip: remapped(clips, a.clip) }),
        PlainCommand::SetSpeedCurve(a) => PlainCommand::SetSpeedCurve(SetSpeedCurve { clip: remapped(clips, a.clip), ..a }),
        PlainCommand::SetClipPitch(a) => PlainCommand::SetClipPitch(SetClipPitch { clip: remapped(clips, a.clip), ..a }),
        PlainCommand::SetDenoise(a) => PlainCommand::SetDenoise(SetDenoise { clip: remapped(clips, a.clip), ..a }),
        PlainCommand::SetClipStabilize(a) => PlainCommand::SetClipStabilize(SetClipStabilize { clip: remapped(clips, a.clip), ..a }),
        PlainCommand::SetClipBlendMode(a) => PlainCommand::SetClipBlendMode(SetClipBlendMode { clip: remapped(clips, a.clip), ..a }),
        PlainCommand::SetAudioRole(a) => PlainCommand::SetAudioRole(SetAudioRole { clip: remapped(clips, a.clip), ..a }),
        PlainCommand::RemoveClip(a) => PlainCommand::RemoveClip(RemoveClip { clip: remapped(clips, a.clip) }),
        PlainCommand::RemoveTrack(a) => PlainCommand::RemoveTrack(RemoveTrack { track: remapped(tracks, a.track) }),
        PlainCommand::SetTrackEnabled(a) => PlainCommand::SetTrackEnabled(SetTrackEnabled { track: remapped(tracks, a.track), ..a }),
        PlainCommand::SetTrackMuted(a) => PlainCommand::SetTrackMuted(SetTrackMuted { track: remapped(tracks, a.track), ..a }),
        PlainCommand::SetTrackLocked(a) => PlainCommand::SetTrackLocked(SetTrackLocked { track: remapped(tracks, a.track), ..a }),
        PlainCommand::RippleDelete(a) => PlainCommand::RippleDelete(RippleDelete { clip: remapped(clips, a.clip) }),
        PlainCommand::LinkClips(a) => PlainCommand::LinkClips(a),
        PlainCommand::UnlinkClips(a) => PlainCommand::UnlinkClips(a),
        PlainCommand::RemoveMarker(a) => PlainCommand::RemoveMarker(RemoveMarker { marker: remapped(markers, a.marker) }),
        PlainCommand::SetCanvas(a) => PlainCommand::SetCanvas(a),
    }
}

/// Every id of `ids` rewritten through `map`.
pub open spec fn remapped_ids(ids: Seq<u64>, map: Map<u64, u64>) -> Seq<u64> {
    ids.map_values(|id: u64| remapped(map, id))
}

impl PlainCommand {
    /// Rewrite clip/track/marker references through the given maps (ids
    /// absent from a map pass through unchanged). This is what makes plan
    /// replay work: entities a plan created in the sandbox get fresh ids
    /// live, and later steps must follow them.
    pub fn remap_ids(
        &mut self,
        clip_map: &HashMap<u64, u64>,
        track_map: &HashMap<u64, u64>,
        marker_map: &HashMap<u64, u64>,
    )
        ensures
            match *old(self) {
                PlainCommand::LinkClips(a) => *final(self) matches PlainCommand::LinkClips(b)
                    && b.clips@ == remapped_ids(a.clips@, clip_map@),
                PlainCommand::UnlinkClips(a) => *final(self) matches PlainCommand::UnlinkClips(b)
                    && b.clips@ == remapped_ids(a.clips@, clip_map@),
                _ => *final(self) == remapped_command(*old(self), clip_map@, track_map@, marker_map@),
            },
    {
        match self {
            PlainCommand::AddTrack(_) => {},
            PlainCommand::ExtractAudio(a) => {
                a.clip = remap_id(clip_map, a.clip);
                a.track = remap_id(track_map, a.track);
            },
            PlainCommand::AddEffect(a) => { a.clip = remap_id(clip_map, a.clip); },
            PlainCommand::RemoveEffect(a) => { a.clip = remap_id(clip_map, a.clip); },
            PlainCommand::MoveEffect(a) => { a.clip = remap_id(clip_map, a.clip); },
            PlainCommand::AddTransition(a) => { a.clip = remap_id(clip_map, a.clip); },
            PlainCommand::RemoveTransition(a) => { a.clip = remap_id(clip_map, a.clip); },
            PlainCommand::SetSpeedCurve(a) => { a.clip = remap_id(clip_map, a.clip); },
            PlainCommand::SetClipPitch(a) => { a.clip = remap_id(clip_map, a.clip); },
            PlainCommand::SetDenoise(a) => { a.clip = remap_id(clip_map, a.clip); },
            PlainCommand::SetClipStabilize(a) => { a.clip = remap_id(clip_map, a.clip); },
            PlainCommand::SetClipBlendMode(a) => { a.clip = remap_id(clip_map, a.clip); },
            PlainCommand::SetAudioRole(a) => { a.clip = remap_id(clip_map, a.clip); },
            PlainCommand::RemoveClip(a) => { a.clip = remap_id(clip_map, a.clip); },
            PlainCommand::RemoveTrack(a) => { a.track = remap_id(track_map, a.track); },
            PlainCommand::SetTrackEnabled(a) => { a.track = remap_id(track_map, a.track); },
            PlainCommand::SetTrackMuted(a) => { a.track = remap_id(track_map, a.track); },
            PlainCommand::SetTrackLocked(a) => { a.track = remap_id(track_map, a.track); },
            PlainCommand::RippleDelete(a) => { a.clip = remap_id(clip_map, a.clip); },
            PlainCommand::LinkClips(a) => {
                remap_ids_in(&mut a.clips, clip_map);
                assert(a.clips@ =~= remapped_ids(old(self)->LinkClips_0.clips@, clip_map@));
            },
            PlainCommand::UnlinkClips(a) => {
                remap_ids_in(&mut a.clips, clip_map);
                assert(a.clips@ =~= remapped_ids(old(self)->UnlinkClips_0.clips@, clip_map@));
            },
            PlainCommand::RemoveMarker(a) => { a.marker = remap_id(marker_map, a.marker); },
            PlainCommand::SetCanvas(_) => {},
        }
    }
}

/// The clip ids a command names, in field order.
pub open spec fn clip_refs(c: PlainCommand) -> Seq<u64> {
    match c {
        PlainCommand::ExtractAudio(a) => seq![a.clip],
        PlainCommand::AddEffect(a) => seq![a.clip],
        PlainCommand::RemoveEffect(a) => seq![a.clip],
        PlainCommand::MoveEffect(a) => seq![a.clip],
        PlainCommand::AddTransition(a) => seq![a.clip],
        PlainCommand::RemoveTransition(a) => seq![a.clip],
        PlainCommand::SetSpeedCurve(a) => seq![a.clip],
        PlainCommand::SetClipPitch(a) => seq![a.clip],
        PlainCommand::SetDenoise(a) => seq![a.clip],
        PlainCommand::SetClipStabilize(a) => seq![a.clip],
        PlainCommand::SetClipBlendMode(a) => seq![a.clip],
        PlainCommand::SetAudioRole(a) => seq![a.clip],
        PlainCommand::RemoveClip(a) => seq![a.clip],
        PlainCommand::RippleDelete(a) => seq![a.clip],
        PlainCommand::LinkClips(a) => a.clips@,
        PlainCommand::UnlinkClips(a) => a.clips@,
        _ => Seq::empty(),
    }
}

/// The track ids a command names.
pub open spec fn track_refs(c: PlainCommand) -> Seq<u64> {
    match c {
        PlainCommand::ExtractAudio(a) => seq![a.track],
        PlainCommand::RemoveTrack(a) => seq![a.track],
        PlainCommand::SetTrackEnabled(a) => seq![a.track],
        PlainCommand::SetTrackMuted(a) => seq![a.track],
        PlainCommand::SetTrackLocked(a) => seq![a.track],
        _ => Seq::empty(),
    }
}

/// The marker ids a command names.
pub open spec fn marker_refs(c: PlainCommand) -> Seq<u64> {
    match c {
        PlainCommand::RemoveMarker(a) => seq![a.marker],
        _ => Seq::empty(),
    }
}

/// A command with every single id field set to 0: what remains is its
/// kind and its other arguments.
pub open spec fn without_ids(c: PlainCommand) -> PlainCommand {
    match c {
        PlainCommand::ExtractAudio(a) => PlainCommand::ExtractAudio(ExtractAudio { clip: 0, track: 0 }),
        PlainCommand::AddEffect(a) => PlainCommand::AddEffect(AddEffect { clip: 0, ..a }),
        PlainCommand::RemoveEffect(a) => PlainCommand::RemoveEffect(RemoveEffect { clip: 0, ..a }),
        PlainCommand::MoveEffect(a) => PlainCommand::MoveEffect(MoveEffect { clip: 0, ..a }),
        PlainCommand::AddTransition(a) => PlainCommand::AddTransition(AddTransition { clip: 0, ..a }),
        PlainCommand::RemoveTransition(a) => PlainCommand::RemoveTransition(RemoveTransition { clip: 0 }),
        PlainCommand::SetSpeedCurve(a) => PlainCommand::SetSpeedCurve(SetSpeedCurve { clip: 0, ..a }),
        PlainCommand::SetClipPitch(a) => PlainCommand::SetClipPitch(SetClipPitch { clip: 0, ..a }),
        PlainCommand::SetDenoise(a) => PlainCommand::SetDenoise(SetDenoise { clip: 0, ..a }),
        PlainCommand::SetClipStabilize(a) => PlainCommand::SetClipStabilize(SetClipStabilize { clip: 0, ..a }),
        PlainCommand::SetClipBlendMode(a) => PlainCommand::SetClipBlendMode(SetClipBlendMode { clip: 0, ..a }),
        PlainCommand::SetAudioRole(a) => PlainCommand::SetAudioRole(SetAudioRole { clip: 0, ..a }),
        PlainCommand::RemoveClip(a) => PlainCommand::RemoveClip(RemoveClip { clip: 0 }),
        PlainCommand::RemoveTrack(a) => PlainCommand::RemoveTrack(RemoveTrack { track: 0 }),
        PlainCommand::SetTrackEnabled(a) => PlainCommand::SetTrackEnabled(SetTrackEnabled { track: 0, ..a }),
        PlainCommand::SetTrackMuted(a) => PlainCommand::SetTrackMuted(SetTrackMuted { track: 0, ..a }),
        PlainCommand::SetTrackLocked(a) => PlainCommand::SetTrackLocked(SetTrackLocked { track: 0, ..a }),
        PlainCommand::RippleDelete(a) => PlainCommand::RippleDelete(RippleDelete { clip: 0 }),
        PlainCommand::RemoveMarker(a) => PlainCommand::RemoveMarker(RemoveMarker { marker: 0 }),
        _ => c,
    }
}

/// Whether `new` is `old` rewritten through `map`, position by position:
/// an id the map holds becomes its entry, any other id stays.
pub open spec fn rewritten(old: Seq<u64>, new: Seq<u64>, map: Map<u64, u64>) -> bool {
    &&& new.len() == old.len()
    &&& forall|i: int| 0 <= i < old.len() ==> #[trigger] new[i] == (if map.contains_key(old[i]) { map[old[i]] } else { old[i] })
}

/// Remap law: replaying a command rewrites every clip, track and marker id
/// it names through its own map (an entry `k -> v` turns a named `k` into
/// `v`; an id the map lacks stays) and changes nothing else.
pub proof fn remapping_rewrites_every_reference(
    c: PlainCommand,
    clips: Map<u64, u64>,
    tracks: Map<u64, u64>,
    markers: Map<u64, u64>,
)
    requires
        !(c is LinkClips) && !(c is UnlinkClips),
    ensures
        rewritten(clip_refs(c), clip_refs(remapped_command(c, clips, tracks, markers)), clips),
        rewritten(track_refs(c), track_refs(remapped_command(c, clips, tracks, markers)), tracks),
        rewritten(marker_refs(c), marker_refs(remapped_command(c, clips, tracks, markers)), markers),
        without_ids(remapped_command(c, clips, tracks, markers)) == without_ids(c),
{
}

/// Remap law for clip lists: `link_clips` and `unlink_clips` replay with
/// every listed clip rewritten through the clip map, in order.
pub proof fn remapping_rewrites_clip_lists(ids: Seq<u64>, clips: Map<u64, u64>)
    ensures
        rewritten(ids, remapped_ids(ids, clips), clips),
{
}

/// Remap law: with empty maps every id passes through, so a command
/// replays unchanged.
pub proof fn remapping_through_empty_maps_changes_nothing(c: PlainCommand)
    ensures
        remapped_command(c, Map::empty(), Map::empty(), Map::empty()) == c,
        forall|ids: Seq<u64>| #[trigger] remapped_ids(ids, Map::empty()) == ids,
{
    assert forall|ids: Seq<u64>| #[trigger] remapped_ids(ids, Map::empty()) == ids by {
        assert(remapped_ids(ids, Map::empty()) =~= ids);
    }
}

/// `first` then `second`: each id goes through `first`, then through
/// `second` (ids absent from both pass through).
pub open spec fn then(first: Map<u64, u64>, second: Map<u64, u64>) -> Map<u64, u64> {
    Map::new(
        |k: u64| first.contains_key(k) || second.contains_key(k),
        |k: u64| remapped(second, remapped(first, k)),
    )
}

proof fn lemma_then_id(first: Map<u64, u64>, second: Map<u64, u64>, id: u64)
    ensures
        remapped(second, remapped(first, id)) == remapped(then(first, second), id),
{
}

/// Remap law: replaying through two rounds of fresh ids is one replay
/// through the composed maps, for every command and every id list.
pub proof fn remapping_twice_composes(
    c: PlainCommand,
    clips1: Map<u64, u64>,
    tracks1: Map<u64, u64>,
    markers1: Map<u64, u64>,
    clips2: Map<u64, u64>,
    tracks2: Map<u64, u64>,
    markers2: Map<u64, u64>,
)
    ensures
        remapped_command(remapped_command(c, clips1, tracks1, markers1), clips2, tracks2, markers2)
            == remapped_command(c, then(clips1, clips2), then(tracks1, tracks2), then(markers1, markers2)),
        forall|ids: Seq<u64>| #[trigger] remapped_ids(remapped_ids(ids, clips1), clips2)
            == remapped_ids(ids, then(clips1, clips2)),
{
    assert forall|id: u64| #[trigger] remapped(then(clips1, clips2), id) == remapped(clips2, remapped(clips1, id)) by {
        lemma_then_id(clips1, clips2, id);
    }
    assert forall|id: u64| #[trigger] remapped(then(tracks1, tracks2), id) == remapped(tracks2, remapped(tracks1, id)) by {
        lemma_then_id(tracks1, tracks2, id);
    }
    assert forall|id: u64| #[trigger] remapped(then(markers1, markers2), id) == remapped(markers2, remapped(markers1, id)) by {
        lemma_then_id(markers1, markers2, id);
    }
    assert forall|ids: Seq<u64>| #[trigger] remapped_ids(remapped_ids(ids, clips1), clips2)
        == remapped_ids(ids, then(clips1, clips2)) by {
        assert(remapped_ids(remapped_ids(ids, clips1), clips2) =~= remapped_ids(ids, then(clips1, clips2)));
    }
}

} // verus!
