//! The action log: one transcript line per applied edit, in editor
//! language ("moved effect 0 to 2 on clip 7"), with the id of whatever the
//! edit created.

use vstd::prelude::*;
use crate::text::{dec, join, owned, push_char, push_dec};
use crate::wire::{
    PlainCommand, WireAnimationSlot, WireAudioRole, WireBlendMode, WireCanvasAspect,
    WireClipParam, WireEasingPreset, WireLookParam, WireMarkerColor, WireMaskKind, WireShape,
    WireShapeParam, WireStabilizeLevel, WireStyleParam, WireTextParam, WireTrackKind,
    aspect_name,
};

verus! {

/// The lowercase hexadecimal digit of `d < 16`.
pub open spec fn hex_digit(d: nat) -> char {
    if d < 10 { ((d + 48) as u32) as char } else { ((d + 87) as u32) as char }
}

/// A byte as two lowercase hexadecimal digits.
pub open spec fn hex2(b: u8) -> Seq<char> {
    seq![hex_digit((b / 16) as nat), hex_digit((b % 16) as nat)]
}

/// A color as `#rrggbbaa`.
pub open spec fn rgba_text(c: [u8; 4]) -> Seq<char> {
    "#"@ + hex2(c[0]) + hex2(c[1]) + hex2(c[2]) + hex2(c[3])
}

fn push_hex2(s: &mut String, b: u8)
    ensures
        final(s)@ == old(s)@ + hex2(b),
{
    let hi = b / 16;
    let lo = b % 16;
    let h = if hi < 10 { (hi + 48) as char } else { (hi + 87) as char };
    let l = if lo < 10 { (lo + 48) as char } else { (lo + 87) as char };
    push_char(s, h);
    push_char(s, l);
    proof {
        assert(h == hex_digit(hi as nat));
        assert(l == hex_digit(lo as nat));
        assert(old(s)@.push(h).push(l) =~= old(s)@ + hex2(b));
    }
}

/// A color as `#rrggbbaa`.
pub fn rgba(c: [u8; 4]) -> (r: String)
    ensures
        r@ == rgba_text(c),
{
    let mut r = owned("#");
    push_hex2(&mut r, c[0]);
    push_hex2(&mut r, c[1]);
    push_hex2(&mut r, c[2]);
    push_hex2(&mut r, c[3]);
    r
}

/// What `str::to_lowercase` (full Unicode lowercase mapping) makes of a
/// string.
pub uninterp spec fn unicode_lower(s: Seq<char>) -> Seq<char>;

/// `str::to_lowercase`. The contract names the result; it claims nothing
/// of the Unicode case mapping itself.
#[verifier::external_body]
fn to_lowercase(s: &str) -> (r: String)
    ensures
        r@ == unicode_lower(s@),
{
    s.to_lowercase()
}

/// A shape parameter's name as its lowercased `Debug` form.
pub open spec fn shape_param_word(p: WireShapeParam) -> Seq<char> {
    match p {
        WireShapeParam::Width => "width"@,
        WireShapeParam::Height => "height"@,
        WireShapeParam::CornerRadius => "cornerradius"@,
        WireShapeParam::InnerRatio => "innerratio"@,
        WireShapeParam::Fill => "fill"@,
        WireShapeParam::StrokeColor => "strokecolor"@,
        WireShapeParam::StrokeWidth => "strokewidth"@,
    }
}

pub(crate) fn shape_param_str(p: WireShapeParam) -> (r: &'static str)
    ensures
        r@ == shape_param_word(p),
{
    match p {
        WireShapeParam::Width => "width",
        WireShapeParam::Height => "height",
        WireShapeParam::CornerRadius => "cornerradius",
        WireShapeParam::InnerRatio => "innerratio",
        WireShapeParam::Fill => "fill",
        WireShapeParam::StrokeColor => "strokecolor",
        WireShapeParam::StrokeWidth => "strokewidth",
    }
}

/// A text parameter's name as its lowercased `Debug` form.
pub open spec fn text_param_word(p: WireTextParam) -> Seq<char> {
    match p {
        WireTextParam::Size => "size"@,
        WireTextParam::Fill => "fill"@,
        WireTextParam::LetterSpacing => "letterspacing"@,
        WireTextParam::LineSpacing => "linespacing"@,
        WireTextParam::StrokeWidth => "strokewidth"@,
        WireTextParam::StrokeColor => "strokecolor"@,
        WireTextParam::ShadowBlur => "shadowblur"@,
        WireTextParam::ShadowDistance => "shadowdistance"@,
        WireTextParam::ShadowColor => "shadowcolor"@,
        WireTextParam::BackgroundColor => "backgroundcolor"@,
        WireTextParam::BackgroundRadius => "backgroundradius"@,
    }
}

pub(crate) fn text_param_str(p: WireTextParam) -> (r: &'static str)
    ensures
        r@ == text_param_word(p),
{
    match p {
        WireTextParam::Size => "size",
        WireTextParam::Fill => "fill",
        WireTextParam::LetterSpacing => "letterspacing",
        WireTextParam::LineSpacing => "linespacing",
        WireTextParam::StrokeWidth => "strokewidth",
        WireTextParam::StrokeColor => "strokecolor",
        WireTextParam::ShadowBlur => "shadowblur",
        WireTextParam::ShadowDistance => "shadowdistance",
        WireTextParam::ShadowColor => "shadowcolor",
        WireTextParam::BackgroundColor => "backgroundcolor",
        WireTextParam::BackgroundRadius => "backgroundradius",
    }
}

/// A look parameter's name as its lowercased `Debug` form.
pub open spec fn look_param_word(p: WireLookParam) -> Seq<char> {
    match p {
        WireLookParam::FilterIntensity => "filterintensity"@,
        WireLookParam::LutIntensity => "lutintensity"@,
        WireLookParam::AdjustBrightness => "adjustbrightness"@,
        WireLookParam::AdjustContrast => "adjustcontrast"@,
        WireLookParam::AdjustSaturation => "adjustsaturation"@,
        WireLookParam::AdjustExposure => "adjustexposure"@,
        WireLookParam::AdjustTemperature => "adjusttemperature"@,
        WireLookParam::AdjustTint => "adjusttint"@,
        WireLookParam::AdjustHue => "adjusthue"@,
        WireLookParam::AdjustHighlights => "adjusthighlights"@,
        WireLookParam::AdjustShadows => "adjustshadows"@,
        WireLookParam::AdjustSharpness => "adjustsharpness"@,
        WireLookParam::AdjustVignette => "adjustvignette"@,
        WireLookParam::MaskFeather => "maskfeather"@,
        WireLookParam::MaskCenter => "maskcenter"@,
        WireLookParam::MaskSize => "masksize"@,
        WireLookParam::MaskRotation => "maskrotation"@,
        WireLookParam::MaskRoundness => "maskroundness"@,
        WireLookParam::ChromaStrength => "chromastrength"@,
        WireLookParam::ChromaShadow => "chromashadow"@,
    }
}

pub(crate) fn look_param_str(p: WireLookParam) -> (r: &'static str)
    ensures
        r@ == look_param_word(p),
{
    match p {
        WireLookParam::FilterIntensity => "filterintensity",
        WireLookParam::LutIntensity => "lutintensity",
        WireLookParam::AdjustBrightness => "adjustbrightness",
        WireLookParam::AdjustContrast => "adjustcontrast",
        WireLookParam::AdjustSaturation => "adjustsaturation",
        WireLookParam::AdjustExposure => "adjustexposure",
        WireLookParam::AdjustTemperature => "adjusttemperature",
        WireLookParam::AdjustTint => "adjusttint",
        WireLookParam::AdjustHue => "adjusthue",
        WireLookParam::AdjustHighlights => "adjusthighlights",
        WireLookParam::AdjustShadows => "adjustshadows",
        WireLookParam::AdjustSharpness => "adjustsharpness",
        WireLookParam::AdjustVignette => "adjustvignette",
        WireLookParam::MaskFeather => "maskfeather",
        WireLookParam::MaskCenter => "maskcenter",
        WireLookParam::MaskSize => "masksize",
        WireLookParam::MaskRotation => "maskrotation",
        WireLookParam::MaskRoundness => "maskroundness",
        WireLookParam::ChromaStrength => "chromastrength",
        WireLookParam::ChromaShadow => "chromashadow",
    }
}

/// A style parameter's name as its lowercased `Debug` form.
pub open spec fn style_param_word(p: WireStyleParam) -> Seq<char> {
    match p {
        WireStyleParam::ShadowColor => "shadowcolor"@,
        WireStyleParam::ShadowOffset => "shadowoffset"@,
        WireStyleParam::ShadowBlur => "shadowblur"@,
        WireStyleParam::GlowColor => "glowcolor"@,
        WireStyleParam::GlowRadius => "glowradius"@,
        WireStyleParam::GlowIntensity => "glowintensity"@,
        WireStyleParam::OutlineColor => "outlinecolor"@,
        WireStyleParam::OutlineWidth => "outlinewidth"@,
        WireStyleParam::BackgroundColor => "backgroundcolor"@,
        WireStyleParam::BackgroundPadding => "backgroundpadding"@,
        WireStyleParam::BackgroundRadius => "backgroundradius"@,
    }
}

pub(crate) fn style_param_str(p: WireStyleParam) -> (r: &'static str)
    ensures
        r@ == style_param_word(p),
{
    match p {
        WireStyleParam::ShadowColor => "shadowcolor",
        WireStyleParam::ShadowOffset => "shadowoffset",
        WireStyleParam::ShadowBlur => "shadowblur",
        WireStyleParam::GlowColor => "glowcolor",
        WireStyleParam::GlowRadius => "glowradius",
        WireStyleParam::GlowIntensity => "glowintensity",
        WireStyleParam::OutlineColor => "outlinecolor",
        WireStyleParam::OutlineWidth => "outlinewidth",
        WireStyleParam::BackgroundColor => "backgroundcolor",
        WireStyleParam::BackgroundPadding => "backgroundpadding",
        WireStyleParam::BackgroundRadius => "backgroundradius",
    }
}

/// How the log names an animatable clip property.
pub open spec fn param_label(p: WireClipParam) -> Seq<char> {
    match p {
        WireClipParam::Position => "position"@,
        WireClipParam::AnchorPoint => "anchor point"@,
        WireClipParam::Scale => "scale"@,
        WireClipParam::Rotation => "rotation"@,
        WireClipParam::Opacity => "opacity"@,
        WireClipParam::Crop => "crop"@,
        WireClipParam::Volume => "volume"@,
        WireClipParam::Pan => "pan"@,
        WireClipParam::Speed => "speed"@,
        WireClipParam::Effect { index, param } => "effect "@ + dec(index as nat) + " "@ + param@,
        WireClipParam::Shape { param } => "shape "@ + shape_param_word(param),
        WireClipParam::Text { param } => "text "@ + text_param_word(param),
        WireClipParam::Look { param } => "look "@ + look_param_word(param),
        WireClipParam::Style { param } => "style "@ + style_param_word(param),
    }
}

/// How the log names an animatable clip property.
pub fn param_name(param: &WireClipParam) -> (r: String)
    ensures
        r@ == param_label(*param),
{
    match param {
        WireClipParam::Position => owned("position"),
        WireClipParam::AnchorPoint => owned("anchor point"),
        WireClipParam::Scale => owned("scale"),
        WireClipParam::Rotation => owned("rotation"),
        WireClipParam::Opacity => owned("opacity"),
        WireClipParam::Crop => owned("crop"),
        WireClipParam::Volume => owned("volume"),
        WireClipParam::Pan => owned("pan"),
        WireClipParam::Speed => owned("speed"),
        WireClipParam::Effect { index, param } => {
            let mut r = owned("effect ");
            push_dec(&mut r, *index as u64);
            r.append(" ");
            r.append(param.as_str());
            r
        },
        WireClipParam::Shape { param } => {
            let mut r = owned("shape ");
            r.append(shape_param_str(*param));
            r
        },
        WireClipParam::Text { param } => {
            let mut r = owned("text ");
            r.append(text_param_str(*param));
            r
        },
        WireClipParam::Look { param } => {
            let mut r = owned("look ");
            r.append(look_param_str(*param));
            r
        },
        WireClipParam::Style { param } => {
            let mut r = owned("style ");
            r.append(style_param_str(*param));
            r
        },
    }
}

/// The log's word for a generated shape.
pub fn shape_name(s: WireShape) -> (r: &'static str)
    ensures
        r@ == (match s {
            WireShape::Rectangle => "rectangle"@,
            WireShape::Ellipse => "ellipse"@,
        }),
{
    match s {
        WireShape::Rectangle => "rectangle",
        WireShape::Ellipse => "ellipse",
    }
}

/// The log's word for an easing preset.
pub fn easing_preset_name(p: WireEasingPreset) -> (r: &'static str)
    ensures
        r@ == (match p {
            WireEasingPreset::BounceOut => "bounce_out"@,
            WireEasingPreset::ElasticOut => "elastic_out"@,
            WireEasingPreset::BackOut => "back_out"@,
        }),
{
    match p {
        WireEasingPreset::BounceOut => "bounce_out",
        WireEasingPreset::ElasticOut => "elastic_out",
        WireEasingPreset::BackOut => "back_out",
    }
}

/// The log's word for a mask kind.
pub fn mask_kind_name(k: WireMaskKind) -> (r: &'static str)
    ensures
        r@ == (match k {
            WireMaskKind::Linear => "linear"@,
            WireMaskKind::Mirror => "mirror"@,
            WireMaskKind::Circle => "circle"@,
            WireMaskKind::Rectangle => "rectangle"@,
            WireMaskKind::Heart => "heart"@,
            WireMaskKind::Star => "star"@,
        }),
{
    match k {
        WireMaskKind::Linear => "linear",
        WireMaskKind::Mirror => "mirror",
        WireMaskKind::Circle => "circle",
        WireMaskKind::Rectangle => "rectangle",
        WireMaskKind::Heart => "heart",
        WireMaskKind::Star => "star",
    }
}

/// The log's words for a stabilization level.
pub open spec fn stabilize_word(l: WireStabilizeLevel) -> Seq<char> {
    match l {
        WireStabilizeLevel::Recommended => "recommended"@,
        WireStabilizeLevel::Smooth => "smooth"@,
        WireStabilizeLevel::MaxSmooth => "max smooth"@,
    }
}

fn stabilize_str(l: WireStabilizeLevel) -> (r: &'static str)
    ensures
        r@ == stabilize_word(l),
{
    match l {
        WireStabilizeLevel::Recommended => "recommended",
        WireStabilizeLevel::Smooth => "smooth",
        WireStabilizeLevel::MaxSmooth => "max smooth",
    }
}

/// The log's word (the wire id) for a blend mode.
pub open spec fn blend_word(m: WireBlendMode) -> Seq<char> {
    match m {
        WireBlendMode::Normal => "normal"@,
        WireBlendMode::Darken => "darken"@,
        WireBlendMode::Multiply => "multiply"@,
        WireBlendMode::ColorBurn => "color_burn"@,
        WireBlendMode::Lighten => "lighten"@,
        WireBlendMode::Screen => "screen"@,
        WireBlendMode::ColorDodge => "color_dodge"@,
        WireBlendMode::Add => "add"@,
        WireBlendMode::Overlay => "overlay"@,
        WireBlendMode::SoftLight => "soft_light"@,
        WireBlendMode::HardLight => "hard_light"@,
        WireBlendMode::Difference => "difference"@,
        WireBlendMode::Exclusion => "exclusion"@,
    }
}

fn blend_str(m: WireBlendMode) -> (r: &'static str)
    ensures
        r@ == blend_word(m),
{
    match m {
        WireBlendMode::Normal => "normal",
        WireBlendMode::Darken => "darken",
        WireBlendMode::Multiply => "multiply",
        WireBlendMode::ColorBurn => "color_burn",
        WireBlendMode::Lighten => "lighten",
        WireBlendMode::Screen => "screen",
        WireBlendMode::ColorDodge => "color_dodge",
        WireBlendMode::Add => "add",
        WireBlendMode::Overlay => "overlay",
        WireBlendMode::SoftLight => "soft_light",
        WireBlendMode::HardLight => "hard_light",
        WireBlendMode::Difference => "difference",
        WireBlendMode::Exclusion => "exclusion",
    }
}

/// The log's word for an animation slot.
pub fn animation_slot_name(s: WireAnimationSlot) -> (r: &'static str)
    ensures
        r@ == (match s {
            WireAnimationSlot::In => "in"@,
            WireAnimationSlot::Out => "out"@,
            WireAnimationSlot::Combo => "combo"@,
        }),
{
    match s {
        WireAnimationSlot::In => "in",
        WireAnimationSlot::Out => "out",
        WireAnimationSlot::Combo => "combo",
    }
}

/// The log's word for an audio role.
pub open spec fn role_word(r: WireAudioRole) -> Seq<char> {
    match r {
        WireAudioRole::Music => "music"@,
        WireAudioRole::Sfx => "sfx"@,
        WireAudioRole::Voiceover => "voiceover"@,
        WireAudioRole::Extracted => "extracted"@,
    }
}

fn role_str(r: WireAudioRole) -> (s: &'static str)
    ensures
        s@ == role_word(r),
{
    match r {
        WireAudioRole::Music => "music",
        WireAudioRole::Sfx => "sfx",
        WireAudioRole::Voiceover => "voiceover",
        WireAudioRole::Extracted => "extracted",
    }
}

/// A marker color's name (its lowercased `Debug` form).
pub fn marker_color_name(c: WireMarkerColor) -> (r: &'static str)
    ensures
        r@ == (match c {
            WireMarkerColor::Teal => "teal"@,
            WireMarkerColor::Blue => "blue"@,
            WireMarkerColor::Purple => "purple"@,
            WireMarkerColor::Pink => "pink"@,
            WireMarkerColor::Red => "red"@,
            WireMarkerColor::Orange => "orange"@,
            WireMarkerColor::Yellow => "yellow"@,
            WireMarkerColor::Green => "green"@,
        }),
{
    match c {
        WireMarkerColor::Teal => "teal",
        WireMarkerColor::Blue => "blue",
        WireMarkerColor::Purple => "purple",
        WireMarkerColor::Pink => "pink",
        WireMarkerColor::Red => "red",
        WireMarkerColor::Orange => "orange",
        WireMarkerColor::Yellow => "yellow",
        WireMarkerColor::Green => "green",
    }
}

/// A track kind's `Debug` form.
pub open spec fn track_kind_debug(k: WireTrackKind) -> Seq<char> {
    match k {
        WireTrackKind::Video => "Video"@,
        WireTrackKind::Audio => "Audio"@,
        WireTrackKind::Text => "Text"@,
        WireTrackKind::Sticker => "Sticker"@,
    }
}

fn track_kind_str(k: WireTrackKind) -> (r: &'static str)
    ensures
        r@ == track_kind_debug(k),
{
    match k {
        WireTrackKind::Video => "Video",
        WireTrackKind::Audio => "Audio",
        WireTrackKind::Text => "Text",
        WireTrackKind::Sticker => "Sticker",
    }
}

/// What an applied edit created, for the log line's suffix.
#[derive(Debug, Clone, Copy, PartialEq, Eq, Structural)]
pub enum ActionOutcome {
    /// A new clip with this id.
    Created(u64),
    /// A new track with this id.
    CreatedTrack(u64),
    /// A new marker with this id.
    CreatedMarker(u64),
    /// Nothing new to name.
    Applied,
}

/// The log line's suffix naming what the edit created (none in dry run).
pub open spec fn outcome_suffix(outcome: Option<ActionOutcome>) -> Seq<char> {
    match outcome {
        Some(ActionOutcome::Created(id)) => " (new clip "@ + dec(id as nat) + ")"@,
        Some(ActionOutcome::CreatedTrack(id)) => " (track "@ + dec(id as nat) + ")"@,
        Some(ActionOutcome::CreatedMarker(id)) => " (marker "@ + dec(id as nat) + ")"@,
        _ => Seq::empty(),
    }
}

/// Appends the suffix naming what the edit created.
pub fn push_outcome(line: &mut String, outcome: Option<ActionOutcome>)
    ensures
        final(line)@ == old(line)@ + outcome_suffix(outcome),
{
    match outcome {
        Some(ActionOutcome::Created(id)) => {
            line.append(" (new clip ");
            push_dec(line, id);
            line.append(")");
        },
        Some(ActionOutcome::CreatedTrack(id)) => {
            line.append(" (track ");
            push_dec(line, id);
            line.append(")");
        },
        Some(ActionOutcome::CreatedMarker(id)) => {
            line.append(" (marker ");
            push_dec(line, id);
            line.append(")");
        },
        _ => {},
    }
}

/// Ids written out and separated by `, `.
pub open spec fn ids_text(ids: Seq<u64>) -> Seq<char> {
    join(ids.map_values(|x: u64| dec(x as nat)), ", "@)
}

fn push_ids(s: &mut String, ids: &Vec<u64>)
    ensures
        final(s)@ == old(s)@ + ids_text(ids@),
{
    let mut i: usize = 0;
    while i < ids.len()
        invariant
            i <= ids.len(),
            s@ == old(s)@ + ids_text(ids@.take(i as int)),
        decreases ids.len() - i,
    {
        proof {
            let m = ids@.take(i + 1).map_values(|x: u64| dec(x as nat));
            assert(m.drop_last() =~= ids@.take(i as int).map_values(|x: u64| dec(x as nat)));
            assert(m.last() == dec(ids@[i as int] as nat));
            if i == 0 {
                assert(ids@.take(0).map_values(|x: u64| dec(x as nat)) =~= Seq::<Seq<char>>::empty());
                assert(m =~= seq![dec(ids@[0] as nat)]);
            }
        }
        if i > 0 {
            s.append(", ");
        }
        push_dec(s, ids[i]);
        i += 1;
    }
    assert(ids@.take(ids.len() as int) =~= ids@);
}

/// The log line of a plain command.
pub open spec fn plain_description(c: PlainCommand) -> Seq<char> {
    match c {
        PlainCommand::AddTrack(a) => unicode_lower("added "@ + track_kind_debug(a.kind) + " track '"@ + a.name@ + "'"@),
        PlainCommand::ExtractAudio(a) => "extracted audio from clip "@ + dec(a.clip as nat) + " onto track "@ + dec(a.track as nat),
        PlainCommand::AddEffect(a) => "added "@ + a.effect@ + " effect to clip "@ + dec(a.clip as nat),
        PlainCommand::RemoveEffect(a) => "removed effect "@ + dec(a.index as nat) + " from clip "@ + dec(a.clip as nat),
        PlainCommand::MoveEffect(a) => "moved effect "@ + dec(a.from_index as nat) + " to "@ + dec(a.to_index as nat) + " on clip "@ + dec(a.clip as nat),
        PlainCommand::AddTransition(a) => "added "@ + a.transition@ + " transition after clip "@ + dec(a.clip as nat),
        PlainCommand::RemoveTransition(a) => "removed transition after clip "@ + dec(a.clip as nat),
        PlainCommand::SetSpeedCurve(a) => match a.preset {
            Some(p) => "applied "@ + p@ + " speed ramp to clip "@ + dec(a.clip as nat),
            None => "cleared speed ramp on clip "@ + dec(a.clip as nat),
        },
        PlainCommand::SetClipPitch(a) => "set clip "@ + dec(a.clip as nat) + " pitch to "@
            + if a.preserve_pitch { "preserved"@ } else { "follow speed"@ },
        PlainCommand::SetDenoise(a) => "turned noise reduction "@ + (if a.denoise { "on"@ } else { "off"@ })
            + " on clip "@ + dec(a.clip as nat),
        PlainCommand::SetClipStabilize(a) => match a.level {
            Some(l) => "set "@ + stabilize_word(l) + " stabilization on clip "@ + dec(a.clip as nat),
            None => "cleared stabilization on clip "@ + dec(a.clip as nat),
        },
        PlainCommand::SetClipBlendMode(a) => "set clip "@ + dec(a.clip as nat) + " blend mode to "@ + blend_word(a.mode),
        PlainCommand::SetAudioRole(a) => match a.role {
            Some(r) => "tagged clip "@ + dec(a.clip as nat) + " as "@ + role_word(r),
            None => "cleared audio role on clip "@ + dec(a.clip as nat),
        },
        PlainCommand::RemoveClip(a) => "removed clip "@ + dec(a.clip as nat),
        PlainCommand::RemoveTrack(a) => "removed track "@ + dec(a.track as nat),
        PlainCommand::SetTrackEnabled(a) => (if a.enabled { "showed"@ } else { "hid"@ }) + " track "@ + dec(a.track as nat),
        PlainCommand::SetTrackMuted(a) => (if a.muted { "muted"@ } else { "unmuted"@ }) + " track "@ + dec(a.track as nat),
        PlainCommand::SetTrackLocked(a) => (if a.locked { "locked"@ } else { "unlocked"@ }) + " track "@ + dec(a.track as nat),
        PlainCommand::RippleDelete(a) => "ripple-deleted clip "@ + dec(a.clip as nat) + " (later clips closed the gap)"@,
        PlainCommand::LinkClips(a) => "linked clips "@ + ids_text(a.clips@),
        PlainCommand::UnlinkClips(a) => "unlinked complete groups touched by clips "@ + ids_text(a.clips@),
        PlainCommand::RemoveMarker(a) => "removed marker "@ + dec(a.marker as nat),
        PlainCommand::SetCanvas(a) => "set canvas "@ + canvas_parts(a.aspect, a.background),
    }
}

/// The parts of a `set_canvas` line: the aspect and background it sets,
/// or `unchanged`.
pub open spec fn canvas_parts(aspect: Option<WireCanvasAspect>, background: Option<[u8; 3]>) -> Seq<char> {
    match (aspect, background) {
        (None, None) => "unchanged"@,
        (Some(a), None) => "aspect "@ + aspect_name(a),
        (None, Some(b)) => background_text(b),
        (Some(a), Some(b)) => "aspect "@ + aspect_name(a) + ", "@ + background_text(b),
    }
}

/// A canvas background as `background rgb(r, g, b)`.
pub open spec fn background_text(b: [u8; 3]) -> Seq<char> {
    "background rgb("@ + dec(b[0] as nat) + ", "@ + dec(b[1] as nat) + ", "@ + dec(b[2] as nat) + ")"@
}

fn push_background(s: &mut String, b: [u8; 3])
    ensures
        final(s)@ == old(s)@ + background_text(b),
{
    s.append("background rgb(");
    push_dec(s, b[0] as u64);
    s.append(", ");
    push_dec(s, b[1] as u64);
    s.append(", ");
    push_dec(s, b[2] as u64);
    s.append(")");
}

fn id_line(prefix: &str, id: u64) -> (r: String)
    ensures
        r@ == prefix@ + dec(id as nat),
{
    let mut r = owned(prefix);
    push_dec(&mut r, id);
    r
}

fn clip_line(prefix: &str, clip: u64, suffix: &str) -> (r: String)
    ensures
        r@ == prefix@ + dec(clip as nat) + suffix@,
{
    let mut r = owned(prefix);
    push_dec(&mut r, clip);
    r.append(suffix);
    r
}

/// One transcript line for a plain command, with what the edit created
/// (`outcome` is `None` for dry run: planned, not applied).
#[verifier::spinoff_prover]
pub fn describe_plain(command: &PlainCommand, outcome: Option<ActionOutcome>) -> (r: String)
    ensures
        r@ == plain_description(*command) + outcome_suffix(outcome),
{
    let mut line = match command {
        PlainCommand::AddTrack(a) => {
            let mut raw = owned("added ");
            raw.append(track_kind_str(a.kind));
            raw.append(" track '");
            raw.append(a.name.as_str());
            raw.append("'");
            to_lowercase(raw.as_str())
        },
        PlainCommand::ExtractAudio(a) => {
            let mut r = clip_line("extracted audio from clip ", a.clip, " onto track ");
            push_dec(&mut r, a.track);
            r
        },
        PlainCommand::AddEffect(a) => {
            let mut r = owned("added ");
            r.append(a.effect.as_str());
            r.append(" effect to clip ");
            push_dec(&mut r, a.clip);
            r
        },
        PlainCommand::RemoveEffect(a) => {
            let mut r = owned("removed effect ");
            push_dec(&mut r, a.index as u64);
            r.append(" from clip ");
            push_dec(&mut r, a.clip);
            r
        },
        PlainCommand::MoveEffect(a) => {
            let mut r = owned("moved effect ");
            push_dec(&mut r, a.from_index as u64);
            r.append(" to ");
            push_dec(&mut r, a.to_index as u64);
            r.append(" on clip ");
            push_dec(&mut r, a.clip);
            r
        },
        PlainCommand::AddTransition(a) => {
            let mut r = owned("added ");
            r.append(a.transition.as_str());
            r.append(" transition after clip ");
            push_dec(&mut r, a.clip);
            r
        },
        PlainCommand::RemoveTransition(a) => id_line("removed transition after clip ", a.clip),
        PlainCommand::SetSpeedCurve(a) => match &a.preset {
            Some(p) => {
                let mut r = owned("applied ");
                r.append(p.as_str());
                r.append(" speed ramp to clip ");
                push_dec(&mut r, a.clip);
                r
            },
            None => id_line("cleared speed ramp on clip ", a.clip),
        },
        PlainCommand::SetClipPitch(a) => {
            let mut r = clip_line("set clip ", a.clip, " pitch to ");
            r.append(if a.preserve_pitch { "preserved" } else { "follow speed" });
            r
        },
        PlainCommand::SetDenoise(a) => {
            let mut r = owned("turned noise reduction ");
            r.append(if a.denoise { "on" } else { "off" });
            r.append(" on clip ");
            push_dec(&mut r, a.clip);
            r
        },
        PlainCommand::SetClipStabilize(a) => match a.level {
            Some(l) => {
                let mut r = owned("set ");
                r.append(stabilize_str(l));
                r.append(" stabilization on clip ");
                push_dec(&mut r, a.clip);
                r
            },
            None => id_line("cleared stabilization on clip ", a.clip),
        },
        PlainCommand::SetClipBlendMode(a) => {
            let mut r = clip_line("set clip ", a.clip, " blend mode to ");
            r.append(blend_str(a.mode));
            r
        },
        PlainCommand::SetAudioRole(a) => match a.role {
            Some(role) => {
                let mut r = clip_line("tagged clip ", a.clip, " as ");
                r.append(role_str(role));
                r
            },
            None => id_line("cleared audio role on clip ", a.clip),
        },
        PlainCommand::RemoveClip(a) => id_line("removed clip ", a.clip),
        PlainCommand::RemoveTrack(a) => id_line("removed track ", a.track),
        PlainCommand::SetTrackEnabled(a) => {
            let mut r = owned(if a.enabled { "showed" } else { "hid" });
            r.append(" track ");
            push_dec(&mut r, a.track);
            r
        },
        PlainCommand::SetTrackMuted(a) => {
            let mut r = owned(if a.muted { "muted" } else { "unmuted" });
            r.append(" track ");
            push_dec(&mut r, a.track);
            r
        },
        PlainCommand::SetTrackLocked(a) => {
            let mut r = owned(if a.locked { "locked" } else { "unlocked" });
            r.append(" track ");
            push_dec(&mut r, a.track);
            r
        },
        PlainCommand::RippleDelete(a) => clip_line("ripple-deleted clip ", a.clip, " (later clips closed the gap)"),
        PlainCommand::LinkClips(a) => {
            let mut r = owned("linked clips ");
            push_ids(&mut r, &a.clips);
            r
        },
        PlainCommand::UnlinkClips(a) => {
            let mut r = owned("unlinked complete groups touched by clips ");
            push_ids(&mut r, &a.clips);
            r
        },
        PlainCommand::RemoveMarker(a) => id_line("removed marker ", a.marker),
        PlainCommand::SetCanvas(a) => {
            let mut r = owned("set canvas ");
            match (a.aspect, a.background) {
                (None, None) => r.append("unchanged"),
                (Some(asp), None) => {
                    r.append("aspect ");
                    r.append(asp.name());
                },
                (None, Some(b)) => push_background(&mut r, b),
                (Some(asp), Some(b)) => {
                    r.append("aspect ");
                    r.append(asp.name());
                    r.append(", ");
                    push_background(&mut r, b);
                },
            }
            r
        },
    };
    push_outcome(&mut line, outcome);
    line
}

} // verus!
