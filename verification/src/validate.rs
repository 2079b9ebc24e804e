//! Command validation: every edit the model asks for is checked against
//! the project before the engine sees it, and each refusal is phrased so
//! the model can correct course. The project is read through
//! [`ProjectFacts`], a plain snapshot of what the checks look at (lanes,
//! clips with their placement and links, media, markers, the effect and
//! transition catalogs). Timed commands arrive with their seconds already
//! turned into timeline ticks ([`TimedCommand`]); refusals that quote
//! times come back as ticks for the caller to word in seconds.

use vstd::prelude::*;
use crate::text::{dec, dec_string, join, owned, push_dec, push_joined, str_eq, views};
use crate::action_log::{look_param_word, shape_param_word, style_param_word, text_param_word};
use crate::wire::{WireClipParam, WireLookParam, WireShapeParam, WireStyleParam, WireTextParam};
use crate::wire::{
    AddEffect, AddTransition, ExtractAudio, MAX_MULTI_CLIP_REFS, MoveEffect, PlainCommand,
    RemoveEffect, SetCanvas, SetDenoise, SetSpeedCurve, WireCanvasAspect,
};

verus! {

/// The magnitude of `x`.
pub open spec fn magnitude(x: int) -> int {
    if x < 0 { -x } else { x }
}

/// Rust's `%` on integers: the remainder of division truncated toward
/// zero, carrying the sign of the dividend.
pub open spec fn trunc_rem(a: int, b: int) -> int {
    if a >= 0 { a % magnitude(b) } else { -((-a) % magnitude(b)) }
}

/// Euclid's algorithm with Rust's remainder: `(a, b)` becomes
/// `(b, a % b)` until `b` is 0, leaving `a`.
pub open spec fn euclid(a: int, b: int) -> int
    decreases magnitude(b),
{
    if b == 0 {
        a
    } else {
        euclid(b, trunc_rem(a, b))
    }
}

/// Whether every remainder Euclid's algorithm takes from `(a, b)` fits an
/// `i32` (`i32::MIN % -1` overflows).
pub open spec fn remainders_fit(a: int, b: int) -> bool
    decreases magnitude(b),
{
    if b == 0 {
        true
    } else {
        !(a == i32::MIN && b == -1) && remainders_fit(b, trunc_rem(a, b))
    }
}

/// The divisor that reduces a fraction: what Euclid's algorithm leaves,
/// and at least 1 (so `0/0` and negative results divide by 1).
pub open spec fn gcd_at_least_one(a: int, b: int) -> int {
    if euclid(a, b) >= 1 { euclid(a, b) } else { 1 }
}

/// From two non-negative numbers every remainder is non-negative, so none
/// overflows.
proof fn lemma_remainders_fit_positive(a: int, b: int)
    requires
        a >= 0,
        b >= 0,
    ensures
        remainders_fit(a, b),
    decreases b,
{
    if b != 0 {
        lemma_remainders_fit_positive(b, trunc_rem(a, b));
    }
}

/// `x % y` on `i32`, computed over magnitudes (the result takes the
/// dividend's sign).
fn rem_i32(x: i32, y: i32) -> (r: i32)
    requires
        y != 0,
    ensures
        r == trunc_rem(x as int, y as int),
        magnitude(r as int) < magnitude(y as int),
{
    let xa: i64 = if x < 0 { -(x as i64) } else { x as i64 };
    let ya: i64 = if y < 0 { -(y as i64) } else { y as i64 };
    let m = xa % ya;
    if x < 0 { (-m) as i32 } else { m as i32 }
}

/// Whether `d` divides `x`.
pub open spec fn divides(d: int, x: int) -> bool {
    exists|k: int| #[trigger] (d * k) == x
}

proof fn lemma_divides_step(a: int, b: int, d: int)
    requires
        a >= 0,
        b > 0,
    ensures
        (divides(d, a) && divides(d, b)) <==> (divides(d, b) && divides(d, a % b)),
{
    let q = a / b;
    let r = a % b;
    assert(a == b * q + r) by (nonlinear_arith)
        requires
            b > 0,
            q == a / b,
            r == a % b,
    ;
    if divides(d, a) && divides(d, b) {
        let i = choose|k: int| #[trigger] (d * k) == a;
        let j = choose|k: int| #[trigger] (d * k) == b;
        assert(d * (i - j * q) == r) by (nonlinear_arith)
            requires
                d * i == a,
                d * j == b,
                a == b * q + r,
        ;
    }
    if divides(d, b) && divides(d, r) {
        let j = choose|k: int| #[trigger] (d * k) == b;
        let m = choose|k: int| #[trigger] (d * k) == r;
        assert(d * (j * q + m) == a) by (nonlinear_arith)
            requires
                d * j == b,
                d * m == r,
                a == b * q + r,
        ;
    }
}

/// On non-negative inputs Euclid's algorithm ends in the greatest common
/// divisor: its divisors are exactly the common divisors of the inputs.
proof fn lemma_euclid_divisors(a: int, b: int)
    requires
        a >= 0,
        b >= 0,
    ensures
        euclid(a, b) >= 0,
        a != 0 || b != 0 ==> euclid(a, b) > 0,
        forall|d: int| (divides(d, a) && divides(d, b)) <==> #[trigger] divides(d, euclid(a, b)),
    decreases b,
{
    if b == 0 {
        assert forall|d: int| (divides(d, a) && divides(d, b)) <==> #[trigger] divides(d, euclid(a, b)) by {
            assert(d * 0 == 0);
        }
    } else {
        assert(trunc_rem(a, b) == a % b);
        lemma_euclid_divisors(b, a % b);
        assert forall|d: int| (divides(d, a) && divides(d, b)) <==> #[trigger] divides(d, euclid(a, b)) by {
            lemma_divides_step(a, b, d);
        }
    }
}

/// The greatest common divisor by Euclid's algorithm, at least 1 so it can
/// divide.
#[verifier::spinoff_prover]
pub fn gcd(a: i32, b: i32) -> (r: i32)
    requires
        remainders_fit(a as int, b as int),
    ensures
        r == gcd_at_least_one(a as int, b as int),
        a >= 0 && b >= 0 && (a != 0 || b != 0) ==> {
            &&& divides(r as int, a as int) && divides(r as int, b as int)
            &&& forall|d: int| divides(d, a as int) && divides(d, b as int) ==> #[trigger] divides(d, r as int)
        },
{
    proof {
        if a >= 0 && b >= 0 && (a != 0 || b != 0) {
            lemma_euclid_divisors(a as int, b as int);
            let g = euclid(a as int, b as int);
            assert(g * 1 == g);
            assert(divides(g, g));
        }
    }
    let mut x = a;
    let mut y = b;
    while y != 0
        invariant
            euclid(x as int, y as int) == euclid(a as int, b as int),
            remainders_fit(x as int, y as int),
        decreases magnitude(y as int),
    {
        let r = rem_i32(x, y);
        x = y;
        y = r;
    }
    if x < 1 { 1 } else { x }
}

/// Why a `link_clips` id list is refused before any id is looked up:
/// fewer than two ids, or more than the list bound.
pub open spec fn link_list_problem(count: nat) -> Option<Seq<char>> {
    if count < 2 {
        Some("link_clips needs at least two clip ids"@)
    } else if count > MAX_MULTI_CLIP_REFS {
        Some("link_clips accepts at most "@ + dec(MAX_MULTI_CLIP_REFS as nat) + " clip ids (got "@
            + dec(count) + ")"@)
    } else {
        None
    }
}

/// Preflight a `link_clips` id list; `Err` carries the model-readable
/// rejection.
pub fn check_link_list(clips: &Vec<u64>) -> (r: Result<(), String>)
    ensures
        match link_list_problem(clips@.len()) {
            Some(m) => r matches Err(e) && e@ == m,
            None => r is Ok,
        },
{
    if clips.len() < 2 {
        return Err(owned("link_clips needs at least two clip ids"));
    }
    if clips.len() > MAX_MULTI_CLIP_REFS {
        let mut m = owned("link_clips accepts at most ");
        push_dec(&mut m, MAX_MULTI_CLIP_REFS as u64);
        m.append(" clip ids (got ");
        push_dec(&mut m, clips.len() as u64);
        m.append(")");
        return Err(m);
    }
    Ok(())
}

/// Whether the id at position `j` already occurs earlier in `ids`.
pub open spec fn repeats_earlier(ids: Seq<u64>, j: int) -> bool {
    exists|i: int| 0 <= i < j && #[trigger] ids[i] == ids[j]
}

/// The first position at or after `j` whose id occurs earlier in `ids`.
pub open spec fn first_repeat_from(ids: Seq<u64>, j: int) -> Option<int>
    decreases ids.len() - j,
{
    if j < 0 || j >= ids.len() {
        None
    } else if repeats_earlier(ids, j) {
        Some(j)
    } else {
        first_repeat_from(ids, j + 1)
    }
}

/// The first position of `ids` whose id occurs earlier in the list.
pub open spec fn first_repeat(ids: Seq<u64>) -> Option<int> {
    first_repeat_from(ids, 0)
}

/// Why an `unlink_clips` id list is refused before any id is looked up:
/// no ids, more than the list bound, or an id listed twice.
pub open spec fn unlink_list_problem(ids: Seq<u64>) -> Option<Seq<char>> {
    if ids.len() == 0 {
        Some("unlink_clips needs at least one clip id"@)
    } else if ids.len() > MAX_MULTI_CLIP_REFS {
        Some("unlink_clips accepts at most "@ + dec(MAX_MULTI_CLIP_REFS as nat) + " clip ids (got "@
            + dec(ids.len()) + ")"@)
    } else {
        match first_repeat(ids) {
            Some(j) => Some("unlink_clips contains duplicate clip id "@ + dec(ids[j] as nat)
                + "; list each clip once"@),
            None => None,
        }
    }
}

/// Preflight an `unlink_clips` id list; `Err` carries the model-readable
/// rejection.
#[verifier::spinoff_prover]
pub fn check_unlink_list(clips: &Vec<u64>) -> (r: Result<(), String>)
    ensures
        match unlink_list_problem(clips@) {
            Some(m) => r matches Err(e) && e@ == m,
            None => r is Ok,
        },
{
    if clips.len() == 0 {
        return Err(owned("unlink_clips needs at least one clip id"));
    }
    if clips.len() > MAX_MULTI_CLIP_REFS {
        let mut m = owned("unlink_clips accepts at most ");
        push_dec(&mut m, MAX_MULTI_CLIP_REFS as u64);
        m.append(" clip ids (got ");
        push_dec(&mut m, clips.len() as u64);
        m.append(")");
        return Err(m);
    }
    let ghost ids = clips@;
    let mut j: usize = 0;
    while j < clips.len()
        invariant
            ids == clips@,
            0 < ids.len() <= MAX_MULTI_CLIP_REFS,
            j <= ids.len(),
            first_repeat(ids) == first_repeat_from(ids, j as int),
        decreases ids.len() - j,
    {
        let mut i: usize = 0;
        while i < j
            invariant
                ids == clips@,
                0 < ids.len() <= MAX_MULTI_CLIP_REFS,
                first_repeat(ids) == first_repeat_from(ids, j as int),
                i <= j < ids.len(),
                forall|m: int| 0 <= m < i ==> ids[m] != ids[j as int],
            decreases j - i,
        {
            if clips[i] == clips[j] {
                proof {
                    assert(ids[i as int] == ids[j as int]);
                    assert(repeats_earlier(ids, j as int));
                }
                let mut m = owned("unlink_clips contains duplicate clip id ");
                push_dec(&mut m, clips[j]);
                m.append("; list each clip once");
                return Err(m);
            }
            i += 1;
        }
        proof {
            assert(!repeats_earlier(ids, j as int));
        }
        j += 1;
    }
    Ok(())
}

/// What `unlink_clips` is refused with when none of its clips is linked.
pub const UNLINK_NOTHING_LINKED: &'static str = "unlink_clips found no linked clips; all referenced clips are already unlinked";

/// Track lane categories.
#[derive(Debug, Clone, Copy, PartialEq, Eq, Structural)]
pub enum LaneKind {
    Video,
    Audio,
    Text,
    Sticker,
    Effect,
    Filter,
    Adjustment,
}

/// How a lane kind is named in rejections.
pub open spec fn lane_name(k: LaneKind) -> Seq<char> {
    match k {
        LaneKind::Video => "Video"@,
        LaneKind::Audio => "Audio"@,
        LaneKind::Text => "Text"@,
        LaneKind::Sticker => "Sticker"@,
        LaneKind::Effect => "Effect"@,
        LaneKind::Filter => "Filter"@,
        LaneKind::Adjustment => "Adjustment"@,
    }
}

/// How a lane kind is named in rejections.
pub fn kind_name(k: LaneKind) -> (r: &'static str)
    ensures
        r@ == lane_name(k),
{
    match k {
        LaneKind::Video => "Video",
        LaneKind::Audio => "Audio",
        LaneKind::Text => "Text",
        LaneKind::Sticker => "Sticker",
        LaneKind::Effect => "Effect",
        LaneKind::Filter => "Filter",
        LaneKind::Adjustment => "Adjustment",
    }
}

/// Which lane kinds accept a clip's content, one flag per kind.
#[derive(Debug, Clone, Copy, PartialEq, Eq, Structural)]
pub struct LaneFit {
    pub video: bool,
    pub audio: bool,
    pub text: bool,
    pub sticker: bool,
    pub effect: bool,
    pub filter: bool,
    pub adjustment: bool,
}

/// Whether a lane of kind `k` accepts content that fits `f`.
pub open spec fn fits_lane(f: LaneFit, k: LaneKind) -> bool {
    match k {
        LaneKind::Video => f.video,
        LaneKind::Audio => f.audio,
        LaneKind::Text => f.text,
        LaneKind::Sticker => f.sticker,
        LaneKind::Effect => f.effect,
        LaneKind::Filter => f.filter,
        LaneKind::Adjustment => f.adjustment,
    }
}

/// Whether a lane of kind `k` accepts content that fits `f`.
pub fn lane_accepts(f: LaneFit, k: LaneKind) -> (r: bool)
    ensures
        r == fits_lane(f, k),
{
    match k {
        LaneKind::Video => f.video,
        LaneKind::Audio => f.audio,
        LaneKind::Text => f.text,
        LaneKind::Sticker => f.sticker,
        LaneKind::Effect => f.effect,
        LaneKind::Filter => f.filter,
        LaneKind::Adjustment => f.adjustment,
    }
}

/// What validation reads of a track.
#[derive(Debug, Clone, Copy, PartialEq, Eq, Structural)]
pub struct TrackFacts {
    pub id: u64,
    pub kind: LaneKind,
    pub locked: bool,
    /// The permanent main video track.
    pub main: bool,
}

/// What validation reads of a clip.
#[derive(Debug, Clone, Copy, PartialEq, Eq, Structural)]
pub struct ClipFacts {
    pub id: u64,
    /// The track holding the clip (`None` when it is not on the timeline).
    pub track: Option<u64>,
    /// The media behind a media-backed clip (`None` for generated clips).
    pub media: Option<u64>,
    /// The link group, if any.
    pub link: Option<u64>,
    /// Timeline start, in ticks.
    pub start: i64,
    /// Timeline length, in ticks.
    pub duration: i64,
    /// Length of the effect chain.
    pub effects: u32,
    /// A transition sits at the clip's right cut.
    pub transition: bool,
    /// Another clip butts against the clip's right edge.
    pub right_neighbor: bool,
    /// The clip plays its own sound (it is not a video whose audio was
    /// detached to a linked audio-lane clip).
    pub own_audio: bool,
    /// The clip's audio has already been extracted to an audio lane.
    pub detached: bool,
    /// The lane kinds that accept the clip's content.
    pub fits: LaneFit,
}

/// What validation reads of an imported media file.
#[derive(Debug, Clone, Copy, PartialEq, Eq, Structural)]
pub struct MediaFacts {
    pub id: u64,
    pub video: bool,
    pub image: bool,
    pub has_audio: bool,
    /// Length in ticks at the media's own rate.
    pub duration: i64,
}

/// The value kind of an effect parameter.
#[derive(Debug, Clone, Copy, PartialEq, Eq, Structural)]
pub enum ParamKind {
    Scalar,
    Vec2,
    Color,
}

/// One parameter of an effect, by its catalog name.
#[derive(Debug, Clone, PartialEq, Eq)]
pub struct EffectParamFacts {
    pub name: String,
    pub kind: ParamKind,
}

/// A clip's effect chain: for each effect in chain order, its parameters
/// in slot order.
#[derive(Debug, Clone, PartialEq, Eq)]
pub struct EffectChainFacts {
    pub clip: u64,
    pub effects: Vec<Vec<EffectParamFacts>>,
}

/// The project as validation sees it. Tracks are in stack order; clips are
/// listed track by track in that order, each track's in timeline order.
#[derive(Debug, Clone, PartialEq, Eq)]
pub struct ProjectFacts {
    pub tracks: Vec<TrackFacts>,
    pub clips: Vec<ClipFacts>,
    pub media: Vec<MediaFacts>,
    pub markers: Vec<u64>,
    /// The effect catalog ids.
    pub effect_ids: Vec<String>,
    /// The transition catalog ids.
    pub transition_ids: Vec<String>,
    pub canvas_aspect: WireCanvasAspect,
    pub canvas_background: [u8; 3],
    /// The effect chains of clips that carry effects.
    pub effect_chains: Vec<EffectChainFacts>,
}

/// The first position of `id` in `ids`.
pub open spec fn index_of(ids: Seq<u64>, id: u64) -> Option<int> {
    if exists|i: int| 0 <= i < ids.len() && ids[i] == id {
        Some(choose|i: int| 0 <= i < ids.len() && ids[i] == id
            && forall|j: int| 0 <= j < i ==> ids[j] != id)
    } else {
        None
    }
}

/// The first position of `id` in `ids`.
#[verifier::spinoff_prover]
pub fn find_id(ids: &Vec<u64>, id: u64) -> (r: Option<usize>)
    ensures
        r matches Some(i) ==> i < ids@.len() && index_of(ids@, id) == Some(i as int),
        r is None ==> index_of(ids@, id) is None,
{
    let mut i: usize = 0;
    while i < ids.len()
        invariant
            i <= ids.len(),
            forall|j: int| 0 <= j < i ==> ids@[j] != id,
        decreases ids.len() - i,
    {
        if ids[i] == id {
            proof {
                let k = i as int;
                assert(0 <= k < ids@.len() && ids@[k] == id);
                let c = index_of(ids@, id)->0;
                assert(c == k) by {
                    if c < k {
                        assert(ids@[c] != id);
                    } else if c > k {
                        assert(ids@[k] != id);
                    }
                }
            }
            return Some(i);
        }
        i += 1;
    }
    None
}

pub open spec fn track_ids(p: ProjectFacts) -> Seq<u64> {
    p.tracks@.map_values(|t: TrackFacts| t.id)
}

pub open spec fn clip_ids(p: ProjectFacts) -> Seq<u64> {
    p.clips@.map_values(|c: ClipFacts| c.id)
}

pub open spec fn media_ids(p: ProjectFacts) -> Seq<u64> {
    p.media@.map_values(|m: MediaFacts| m.id)
}

/// The track with id `id`.
pub open spec fn track_of(p: ProjectFacts, id: u64) -> Option<TrackFacts> {
    match index_of(track_ids(p), id) {
        Some(i) => Some(p.tracks@[i]),
        None => None,
    }
}

/// The clip with id `id`.
pub open spec fn clip_of(p: ProjectFacts, id: u64) -> Option<ClipFacts> {
    match index_of(clip_ids(p), id) {
        Some(i) => Some(p.clips@[i]),
        None => None,
    }
}

/// The media with id `id`.
pub open spec fn media_of(p: ProjectFacts, id: u64) -> Option<MediaFacts> {
    match index_of(media_ids(p), id) {
        Some(i) => Some(p.media@[i]),
        None => None,
    }
}

/// Ids as rejections list them: comma-separated, or `none`.
pub open spec fn id_list(ids: Seq<u64>) -> Seq<char> {
    if ids.len() == 0 { "none"@ } else { join(ids.map_values(|i: u64| dec(i as nat)), ", "@) }
}

/// Appends `ids` as rejections list them.
#[verifier::spinoff_prover]
pub fn push_id_list(s: &mut String, ids: &Vec<u64>)
    ensures
        final(s)@ == old(s)@ + id_list(ids@),
{
    if ids.len() == 0 {
        s.append("none");
        return;
    }
    let mut texts: Vec<String> = Vec::new();
    let mut i: usize = 0;
    while i < ids.len()
        invariant
            i <= ids.len(),
            views(texts@) =~= ids@.take(i as int).map_values(|k: u64| dec(k as nat)),
        decreases ids.len() - i,
    {
        let t = dec_string(ids[i]);
        proof {
            assert(views(texts@.push(t)) =~= views(texts@).push(t@));
        }
        texts.push(t);
        i += 1;
    }
    assert(ids@.take(ids.len() as int) =~= ids@);
    push_joined(s, &texts, ", ");
}

/// The refusal for a reference to an id that does not exist: what was
/// asked for, and the ids that do exist.
pub open spec fn missing_message(what: Seq<char>, id: u64, known: Seq<u64>) -> Seq<char> {
    what + " "@ + dec(id as nat) + " does not exist; existing "@ + what + " ids: "@ + id_list(known)
}

fn missing(what: &str, id: u64, known: &Vec<u64>) -> (r: String)
    ensures
        r@ == missing_message(what@, id, known@),
{
    let mut r = owned(what);
    r.append(" ");
    push_dec(&mut r, id);
    r.append(" does not exist; existing ");
    r.append(what);
    r.append(" ids: ");
    push_id_list(&mut r, known);
    r
}

#[verifier::spinoff_prover]
fn track_id_list(p: &ProjectFacts) -> (r: Vec<u64>)
    ensures
        r@ == track_ids(*p),
{
    let mut r: Vec<u64> = Vec::new();
    let mut i: usize = 0;
    while i < p.tracks.len()
        invariant
            i <= p.tracks.len(),
            r@ =~= p.tracks@.take(i as int).map_values(|t: TrackFacts| t.id),
        decreases p.tracks.len() - i,
    {
        r.push(p.tracks[i].id);
        i += 1;
    }
    assert(p.tracks@.take(p.tracks.len() as int) =~= p.tracks@);
    r
}

#[verifier::spinoff_prover]
fn clip_id_list(p: &ProjectFacts) -> (r: Vec<u64>)
    ensures
        r@ == clip_ids(*p),
{
    let mut r: Vec<u64> = Vec::new();
    let mut i: usize = 0;
    while i < p.clips.len()
        invariant
            i <= p.clips.len(),
            r@ =~= p.clips@.take(i as int).map_values(|c: ClipFacts| c.id),
        decreases p.clips.len() - i,
    {
        r.push(p.clips[i].id);
        i += 1;
    }
    assert(p.clips@.take(p.clips.len() as int) =~= p.clips@);
    r
}

#[verifier::spinoff_prover]
fn media_id_list(p: &ProjectFacts) -> (r: Vec<u64>)
    ensures
        r@ == media_ids(*p),
{
    let mut r: Vec<u64> = Vec::new();
    let mut i: usize = 0;
    while i < p.media.len()
        invariant
            i <= p.media.len(),
            r@ =~= p.media@.take(i as int).map_values(|m: MediaFacts| m.id),
        decreases p.media.len() - i,
    {
        r.push(p.media[i].id);
        i += 1;
    }
    assert(p.media@.take(p.media.len() as int) =~= p.media@);
    r
}

/// The track `id` refers to, or the refusal naming the tracks that exist.
pub open spec fn track_ref(p: ProjectFacts, id: u64) -> Result<TrackFacts, Seq<char>> {
    match track_of(p, id) {
        Some(t) => Ok(t),
        None => Err(missing_message("track"@, id, track_ids(p))),
    }
}

/// The clip `id` refers to, or the refusal naming the clips that exist.
pub open spec fn clip_ref(p: ProjectFacts, id: u64) -> Result<ClipFacts, Seq<char>> {
    match clip_of(p, id) {
        Some(c) => Ok(c),
        None => Err(missing_message("clip"@, id, clip_ids(p))),
    }
}

/// The media `id` refers to, or the refusal naming the media that exist.
pub open spec fn media_ref(p: ProjectFacts, id: u64) -> Result<MediaFacts, Seq<char>> {
    match media_of(p, id) {
        Some(m) => Ok(m),
        None => Err(missing_message("media"@, id, media_ids(p))),
    }
}

/// Whether marker `id` exists, or the refusal naming the markers that do.
pub open spec fn marker_ref(p: ProjectFacts, id: u64) -> Result<u64, Seq<char>> {
    match index_of(p.markers@, id) {
        Some(_) => Ok(id),
        None => Err(missing_message("marker"@, id, p.markers@)),
    }
}

/// Look up the track `id` refers to.
pub fn find_track(p: &ProjectFacts, id: u64) -> (r: Result<TrackFacts, String>)
    ensures
        match track_ref(*p, id) {
            Ok(t) => r == Ok::<TrackFacts, String>(t),
            Err(m) => r matches Err(e) && e@ == m,
        },
{
    let ids = track_id_list(p);
    match find_id(&ids, id) {
        Some(i) => Ok(p.tracks[i]),
        None => Err(missing("track", id, &ids)),
    }
}

/// Look up the clip `id` refers to.
pub fn find_clip(p: &ProjectFacts, id: u64) -> (r: Result<ClipFacts, String>)
    ensures
        match clip_ref(*p, id) {
            Ok(c) => r == Ok::<ClipFacts, String>(c),
            Err(m) => r matches Err(e) && e@ == m,
        },
{
    let ids = clip_id_list(p);
    match find_id(&ids, id) {
        Some(i) => Ok(p.clips[i]),
        None => Err(missing("clip", id, &ids)),
    }
}

/// Look up the media `id` refers to.
pub fn find_media(p: &ProjectFacts, id: u64) -> (r: Result<MediaFacts, String>)
    ensures
        match media_ref(*p, id) {
            Ok(m) => r == Ok::<MediaFacts, String>(m),
            Err(m) => r matches Err(e) && e@ == m,
        },
{
    let ids = media_id_list(p);
    match find_id(&ids, id) {
        Some(i) => Ok(p.media[i]),
        None => Err(missing("media", id, &ids)),
    }
}

/// Check that marker `id` exists.
pub fn find_marker(p: &ProjectFacts, id: u64) -> (r: Result<u64, String>)
    ensures
        match marker_ref(*p, id) {
            Ok(k) => r == Ok::<u64, String>(k),
            Err(m) => r matches Err(e) && e@ == m,
        },
{
    match find_id(&p.markers, id) {
        Some(_) => Ok(id),
        None => Err(missing("marker", id, &p.markers)),
    }
}

/// `a`, the decimal `n`, then `b`.
pub open spec fn said(a: Seq<char>, n: u64, b: Seq<char>) -> Seq<char> {
    a + dec(n as nat) + b
}

/// `a`, the decimal `n`, `b`, the decimal `m`, then `c`.
pub open spec fn said2(a: Seq<char>, n: u64, b: Seq<char>, m: u64, c: Seq<char>) -> Seq<char> {
    a + dec(n as nat) + b + dec(m as nat) + c
}

fn say(a: &str, n: u64, b: &str) -> (r: String)
    ensures
        r@ == said(a@, n, b@),
{
    let mut r = owned(a);
    push_dec(&mut r, n);
    r.append(b);
    r
}

fn say2(a: &str, n: u64, b: &str, m: u64, c: &str) -> (r: String)
    ensures
        r@ == said2(a@, n, b@, m, c@),
{
    let mut r = say(a, n, b);
    push_dec(&mut r, m);
    r.append(c);
    r
}

/// The lane a clip sits on.
pub open spec fn lane_of(p: ProjectFacts, c: ClipFacts) -> Option<LaneKind> {
    match c.track {
        Some(t) => match track_of(p, t) {
            Some(track) => Some(track.kind),
            None => None,
        },
        None => None,
    }
}

fn clip_lane(p: &ProjectFacts, c: &ClipFacts) -> (r: Option<LaneKind>)
    ensures
        r == lane_of(*p, *c),
{
    match c.track {
        Some(t) => match find_track(p, t) {
            Ok(track) => Some(track.kind),
            Err(_) => None,
        },
        None => None,
    }
}

/// Visual-only commands refuse clips on an audio lane.
pub open spec fn audio_lane_problem(p: ProjectFacts, c: ClipFacts, id: u64, reason: Seq<char>) -> Option<Seq<char>> {
    if lane_of(p, c) == Some(LaneKind::Audio) {
        Some(said("clip "@, id, " is on an audio lane; "@) + reason)
    } else {
        None
    }
}

fn reject_audio_lane(p: &ProjectFacts, c: &ClipFacts, id: u64, reason: &str) -> (r: Result<(), String>)
    ensures
        match audio_lane_problem(*p, *c, id, reason@) {
            Some(m) => r matches Err(e) && e@ == m,
            None => r is Ok,
        },
{
    if clip_lane(p, c) == Some(LaneKind::Audio) {
        let mut m = say("clip ", id, " is on an audio lane; ");
        m.append(reason);
        Err(m)
    } else {
        Ok(())
    }
}

/// Media-only commands refuse generated clips.
pub open spec fn generated_problem(c: ClipFacts, id: u64, tool: Seq<char>) -> Option<Seq<char>> {
    if c.media is None {
        Some(said("clip "@, id, " is a generated clip; "@) + tool
            + " only works on media clips (footage with a source file)"@)
    } else {
        None
    }
}

fn reject_generated(c: &ClipFacts, id: u64, tool: &str) -> (r: Result<(), String>)
    ensures
        match generated_problem(*c, id, tool@) {
            Some(m) => r matches Err(e) && e@ == m,
            None => r is Ok,
        },
{
    if c.media.is_none() {
        let mut m = say("clip ", id, " is a generated clip; ");
        m.append(tool);
        m.append(" only works on media clips (footage with a source file)");
        Err(m)
    } else {
        Ok(())
    }
}

/// An effect index must address the clip's chain.
pub open spec fn effect_index_problem(c: ClipFacts, id: u64, index: u32) -> Option<Seq<char>> {
    if index < c.effects {
        None
    } else {
        Some(said2("effect index "@, index as u64, " is out of range for clip "@, id, " (chain length "@)
            + dec(c.effects as nat) + ")"@)
    }
}

fn check_effect_index(c: &ClipFacts, id: u64, index: u32) -> (r: Result<(), String>)
    ensures
        match effect_index_problem(*c, id, index) {
            Some(m) => r matches Err(e) && e@ == m,
            None => r is Ok,
        },
{
    if index < c.effects {
        Ok(())
    } else {
        let mut m = say2("effect index ", index as u64, " is out of range for clip ", id, " (chain length ");
        push_dec(&mut m, c.effects as u64);
        m.append(")");
        Err(m)
    }
}

/// Whether `name` is one of `ids`.
pub open spec fn listed(ids: Seq<String>, name: Seq<char>) -> bool {
    exists|i: int| 0 <= i < ids.len() && (#[trigger] ids[i])@ == name
}

#[verifier::spinoff_prover]
fn is_listed(ids: &Vec<String>, name: &str) -> (r: bool)
    ensures
        r == listed(ids@, name@),
{
    let mut i: usize = 0;
    while i < ids.len()
        invariant
            i <= ids.len(),
            forall|j: int| 0 <= j < i ==> (#[trigger] ids@[j])@ != name@,
        decreases ids.len() - i,
    {
        if str_eq(ids[i].as_str(), name) {
            return true;
        }
        i += 1;
    }
    false
}

/// `remove_effect`: the clip exists and the index addresses its chain.
pub open spec fn remove_effect_problem(p: ProjectFacts, a: RemoveEffect) -> Option<Seq<char>> {
    match clip_ref(p, a.clip) {
        Err(m) => Some(m),
        Ok(c) => effect_index_problem(c, a.clip, a.index),
    }
}

fn check_remove_effect(p: &ProjectFacts, a: &RemoveEffect) -> (r: Result<(), String>)
    ensures
        match remove_effect_problem(*p, *a) {
            Some(m) => r matches Err(e) && e@ == m,
            None => r is Ok,
        },
{
    let c = find_clip(p, a.clip)?;
    check_effect_index(&c, a.clip, a.index)
}

/// `move_effect`: both indices address the chain, and the move changes
/// something.
pub open spec fn move_effect_problem(p: ProjectFacts, a: MoveEffect) -> Option<Seq<char>> {
    match clip_ref(p, a.clip) {
        Err(m) => Some(m),
        Ok(c) => if effect_index_problem(c, a.clip, a.from_index) is Some {
            effect_index_problem(c, a.clip, a.from_index)
        } else if effect_index_problem(c, a.clip, a.to_index) is Some {
            effect_index_problem(c, a.clip, a.to_index)
        } else if a.from_index == a.to_index {
            Some(said2("effect "@, a.from_index as u64, " on clip "@, a.clip, " is already at index "@)
                + dec(a.to_index as nat) + "; move_effect would make no change"@)
        } else {
            None
        },
    }
}

fn check_move_effect(p: &ProjectFacts, a: &MoveEffect) -> (r: Result<(), String>)
    ensures
        match move_effect_problem(*p, *a) {
            Some(m) => r matches Err(e) && e@ == m,
            None => r is Ok,
        },
{
    let c = find_clip(p, a.clip)?;
    check_effect_index(&c, a.clip, a.from_index)?;
    check_effect_index(&c, a.clip, a.to_index)?;
    if a.from_index == a.to_index {
        let mut m = say2("effect ", a.from_index as u64, " on clip ", a.clip, " is already at index ");
        push_dec(&mut m, a.to_index as u64);
        m.append("; move_effect would make no change");
        return Err(m);
    }
    Ok(())
}

/// `add_effect`: a clip with a visual frame, and an effect the catalog knows.
pub open spec fn add_effect_problem(p: ProjectFacts, a: AddEffect) -> Option<Seq<char>> {
    match clip_ref(p, a.clip) {
        Err(m) => Some(m),
        Ok(c) => if audio_lane_problem(p, c, a.clip, "effects need a visual frame"@) is Some {
            audio_lane_problem(p, c, a.clip, "effects need a visual frame"@)
        } else if !listed(p.effect_ids@, a.effect@) {
            Some("unknown effect '"@ + a.effect@ + "'; available effects: "@ + join(views(p.effect_ids@), ", "@))
        } else {
            None
        },
    }
}

fn check_add_effect(p: &ProjectFacts, a: &AddEffect) -> (r: Result<(), String>)
    ensures
        match add_effect_problem(*p, *a) {
            Some(m) => r matches Err(e) && e@ == m,
            None => r is Ok,
        },
{
    let c = find_clip(p, a.clip)?;
    reject_audio_lane(p, &c, a.clip, "effects need a visual frame")?;
    if !is_listed(&p.effect_ids, a.effect.as_str()) {
        let mut m = owned("unknown effect '");
        m.append(a.effect.as_str());
        m.append("'; available effects: ");
        push_joined(&mut m, &p.effect_ids, ", ");
        return Err(m);
    }
    Ok(())
}

/// Lanes whose segments are canvas-wide passes a transition cannot join.
pub open spec fn canvas_pass_lane(k: LaneKind) -> bool {
    k == LaneKind::Effect || k == LaneKind::Filter || k == LaneKind::Adjustment
}

/// `add_transition`: not a canvas-wide pass, a transition the catalog
/// knows, and a clip butting against the right edge.
pub open spec fn add_transition_problem(p: ProjectFacts, a: AddTransition) -> Option<Seq<char>> {
    match clip_ref(p, a.clip) {
        Err(m) => Some(m),
        Ok(c) => if lane_of(p, c) matches Some(k) && canvas_pass_lane(k) {
            Some(said("clip "@, a.clip, " sits on a canvas-wide "@) + lane_name(lane_of(p, c)->0)
                + " lane; transitions only join clips on media, text or sticker lanes"@)
        } else if !listed(p.transition_ids@, a.transition@) {
            Some("unknown transition '"@ + a.transition@ + "'; available transitions: "@
                + join(views(p.transition_ids@), ", "@))
        } else if !c.right_neighbor {
            Some(said("clip "@, a.clip, " has no clip butting against its right edge to transition into"@))
        } else {
            None
        },
    }
}

fn check_add_transition(p: &ProjectFacts, a: &AddTransition) -> (r: Result<(), String>)
    ensures
        match add_transition_problem(*p, *a) {
            Some(m) => r matches Err(e) && e@ == m,
            None => r is Ok,
        },
{
    let c = find_clip(p, a.clip)?;
    if let Some(k) = clip_lane(p, &c) {
        if k == LaneKind::Effect || k == LaneKind::Filter || k == LaneKind::Adjustment {
            let mut m = say("clip ", a.clip, " sits on a canvas-wide ");
            m.append(kind_name(k));
            m.append(" lane; transitions only join clips on media, text or sticker lanes");
            return Err(m);
        }
    }
    if !is_listed(&p.transition_ids, a.transition.as_str()) {
        let mut m = owned("unknown transition '");
        m.append(a.transition.as_str());
        m.append("'; available transitions: ");
        push_joined(&mut m, &p.transition_ids, ", ");
        return Err(m);
    }
    if !c.right_neighbor {
        return Err(say("clip ", a.clip, " has no clip butting against its right edge to transition into"));
    }
    Ok(())
}

/// The speed-ramp presets.
pub open spec fn speed_preset_known(name: Seq<char>) -> bool {
    name == "ramp_up"@ || name == "ramp_down"@ || name == "montage"@ || name == "hero"@ || name == "bullet"@
}

/// `set_speed_curve`: a media clip, and a known preset (or none to clear).
pub open spec fn speed_curve_problem(p: ProjectFacts, a: SetSpeedCurve) -> Option<Seq<char>> {
    match clip_ref(p, a.clip) {
        Err(m) => Some(m),
        Ok(c) => if generated_problem(c, a.clip, "set_speed_curve"@) is Some {
            generated_problem(c, a.clip, "set_speed_curve"@)
        } else {
            match a.preset {
                Some(name) => if speed_preset_known(name@) {
                    None
                } else {
                    Some("unknown speed ramp preset '"@ + name@
                        + "'; choose one of: ramp_up, ramp_down, montage, hero, bullet"@)
                },
                None => None,
            }
        },
    }
}

fn check_speed_curve(p: &ProjectFacts, a: &SetSpeedCurve) -> (r: Result<(), String>)
    ensures
        match speed_curve_problem(*p, *a) {
            Some(m) => r matches Err(e) && e@ == m,
            None => r is Ok,
        },
{
    let c = find_clip(p, a.clip)?;
    reject_generated(&c, a.clip, "set_speed_curve")?;
    if let Some(name) = &a.preset {
        let n = name.as_str();
        if !(str_eq(n, "ramp_up") || str_eq(n, "ramp_down") || str_eq(n, "montage") || str_eq(n, "hero")
            || str_eq(n, "bullet")) {
            let mut m = owned("unknown speed ramp preset '");
            m.append(n);
            m.append("'; choose one of: ramp_up, ramp_down, montage, hero, bullet");
            return Err(m);
        }
    }
    Ok(())
}

/// The first clip on an audio lane in link group `link`.
pub open spec fn audio_companion(p: ProjectFacts, clips: Seq<ClipFacts>, link: u64) -> Option<u64>
    decreases clips.len(),
{
    if clips.len() == 0 {
        None
    } else {
        match audio_companion(p, clips.drop_last(), link) {
            Some(id) => Some(id),
            None => if lane_of(p, clips.last()) == Some(LaneKind::Audio) && clips.last().link == Some(link) {
                Some(clips.last().id)
            } else {
                None
            },
        }
    }
}

#[verifier::spinoff_prover]
fn find_audio_companion(p: &ProjectFacts, link: u64) -> (r: Option<u64>)
    ensures
        r == audio_companion(*p, p.clips@, link),
{
    let mut i: usize = 0;
    while i < p.clips.len()
        invariant
            i <= p.clips.len(),
            audio_companion(*p, p.clips@.take(i as int), link) is None,
        decreases p.clips.len() - i,
    {
        let c = p.clips[i];
        let lane = clip_lane(p, &c);
        let ghost prefix = p.clips@.take(i + 1);
        proof {
            assert(prefix.drop_last() =~= p.clips@.take(i as int));
            assert(prefix.last() == c);
            assert(prefix.len() > 0);
        }
        if lane == Some(LaneKind::Audio) && c.link == Some(link) {
            assert(audio_companion(*p, prefix, link) == Some(c.id));
            proof {
                lemma_companion_extends(*p, p.clips@, link, i as int + 1);
            }
            return Some(c.id);
        }
        assert(audio_companion(*p, prefix, link) is None);
        i += 1;
    }
    assert(p.clips@.take(p.clips.len() as int) =~= p.clips@);
    None
}

/// Once the companion search finds a clip in a prefix, longer prefixes find
/// the same one.
proof fn lemma_companion_extends(p: ProjectFacts, clips: Seq<ClipFacts>, link: u64, n: int)
    requires
        0 <= n <= clips.len(),
        audio_companion(p, clips.take(n), link) is Some,
    ensures
        audio_companion(p, clips, link) == audio_companion(p, clips.take(n), link),
    decreases clips.len() - n,
{
    if n < clips.len() {
        assert(clips.take(n + 1).drop_last() =~= clips.take(n));
        lemma_companion_extends(p, clips, link, n + 1);
    } else {
        assert(clips.take(n) =~= clips);
    }
}

/// `set_denoise`: a media clip that plays its own sound; a video whose
/// audio was detached points at its audio-lane companion.
pub open spec fn denoise_problem(p: ProjectFacts, a: SetDenoise) -> Option<Seq<char>> {
    match clip_ref(p, a.clip) {
        Err(m) => Some(m),
        Ok(c) => if generated_problem(c, a.clip, "set_denoise"@) is Some {
            generated_problem(c, a.clip, "set_denoise"@)
        } else if !c.own_audio {
            match (match c.link { Some(l) => audio_companion(p, p.clips@, l), None => None }) {
                Some(id) => Some(said2("clip "@, a.clip, " is not on an audio lane; its audio plays through linked clip "@,
                    id, " — call set_denoise on clip "@) + dec(id as nat) + " instead"@),
                None => Some(said("clip "@, a.clip,
                    " is not on an audio lane and has no linked audio companion; there is nothing audible to clean"@)),
            }
        } else {
            None
        },
    }
}

fn check_denoise(p: &ProjectFacts, a: &SetDenoise) -> (r: Result<(), String>)
    ensures
        match denoise_problem(*p, *a) {
            Some(m) => r matches Err(e) && e@ == m,
            None => r is Ok,
        },
{
    let c = find_clip(p, a.clip)?;
    reject_generated(&c, a.clip, "set_denoise")?;
    if !c.own_audio {
        let companion = match c.link {
            Some(l) => find_audio_companion(p, l),
            None => None,
        };
        return Err(match companion {
            Some(id) => {
                let mut m = say2("clip ", a.clip, " is not on an audio lane; its audio plays through linked clip ",
                    id, " — call set_denoise on clip ");
                push_dec(&mut m, id);
                m.append(" instead");
                m
            },
            None => say("clip ", a.clip,
                " is not on an audio lane and has no linked audio companion; there is nothing audible to clean"),
        });
    }
    Ok(())
}

/// The other clips of link group `link` (every clip but `id`), in order.
pub open spec fn link_members(clips: Seq<ClipFacts>, id: u64, link: u64) -> Seq<u64>
    decreases clips.len(),
{
    if clips.len() == 0 {
        Seq::empty()
    } else if clips.last().id != id && clips.last().link == Some(link) {
        link_members(clips.drop_last(), id, link).push(clips.last().id)
    } else {
        link_members(clips.drop_last(), id, link)
    }
}

#[verifier::spinoff_prover]
fn other_link_members(p: &ProjectFacts, id: u64, link: u64) -> (r: Vec<u64>)
    ensures
        r@ == link_members(p.clips@, id, link),
{
    let mut r: Vec<u64> = Vec::new();
    let mut i: usize = 0;
    while i < p.clips.len()
        invariant
            i <= p.clips.len(),
            r@ == link_members(p.clips@.take(i as int), id, link),
        decreases p.clips.len() - i,
    {
        proof {
            assert(p.clips@.take(i + 1).drop_last() =~= p.clips@.take(i as int));
        }
        if p.clips[i].id != id && p.clips[i].link == Some(link) {
            r.push(p.clips[i].id);
        }
        i += 1;
    }
    assert(p.clips@.take(p.clips.len() as int) =~= p.clips@);
    r
}

/// Whether some clip on track `track` overlaps the ticks `[start, end)`.
pub open spec fn overlaps(clips: Seq<ClipFacts>, track: u64, start: int, end: int) -> bool {
    exists|i: int| 0 <= i < clips.len() && (#[trigger] clips[i]).track == Some(track)
        && clips[i].start < end && start < clips[i].start + clips[i].duration
}

#[verifier::spinoff_prover]
fn has_overlap(p: &ProjectFacts, track: u64, start: i128, end: i128) -> (r: bool)
    ensures
        r == overlaps(p.clips@, track, start as int, end as int),
{
    let mut i: usize = 0;
    while i < p.clips.len()
        invariant
            i <= p.clips.len(),
            forall|j: int| 0 <= j < i ==> !((#[trigger] p.clips@[j]).track == Some(track)
                && p.clips@[j].start < end && start < p.clips@[j].start + p.clips@[j].duration),
        decreases p.clips.len() - i,
    {
        let c = p.clips[i];
        if c.track == Some(track) && (c.start as i128) < end && start < (c.start as i128) + (c.duration as i128) {
            return true;
        }
        i += 1;
    }
    false
}

/// `extract_audio`, after the source clip's own checks: the target is an
/// unlocked audio track with room for the clip's exact range.
pub open spec fn extract_target_problem(p: ProjectFacts, a: ExtractAudio, c: ClipFacts) -> Option<Seq<char>> {
    match track_ref(p, a.track) {
        Err(m) => Some(m),
        Ok(target) => if target.kind != LaneKind::Audio {
            Some(said("track "@, a.track, " is a "@) + lane_name(target.kind)
                + " track; extract_audio needs an audio track"@)
        } else if target.locked {
            Some(said("audio track "@, a.track, " is locked; unlock it or choose another audio track"@))
        } else if overlaps(p.clips@, target.id, c.start as int, c.start + c.duration) {
            Some(said2("audio track "@, a.track, " already has a clip overlapping clip "@, a.clip,
                "'s exact timeline range; choose or add a free audio track"@))
        } else {
            None
        },
    }
}

/// `extract_audio`, the source side: a media clip on an unlocked video
/// track, backed by video with sound, not yet extracted and in no link
/// group with other clips.
pub open spec fn extract_source_problem(p: ProjectFacts, a: ExtractAudio, c: ClipFacts) -> Option<Seq<char>> {
    match c.track {
        None => Some(said("clip "@, a.clip, " is not on the timeline"@)),
        Some(t) => match track_of(p, t) {
            None => Some(said2("clip "@, a.clip, " refers to missing track "@, t, ""@)),
            Some(source) => match c.media {
                None => Some(said("clip "@, a.clip, " is generated; extract_audio requires a media-backed video clip"@)),
                Some(mid) => if source.kind != LaneKind::Video {
                    Some(said("clip "@, a.clip, " is on a "@) + lane_name(source.kind)
                        + " track; extract_audio requires a video-track clip"@)
                } else if source.locked {
                    Some(said2("video track "@, t, " is locked; unlock it before extracting clip "@, a.clip, "'s audio"@))
                } else {
                    match media_ref(p, mid) {
                        Err(m) => Some(m),
                        Ok(media) => if !media.video {
                            Some(said("clip "@, a.clip, " does not reference video media; extract_audio requires a video file"@))
                        } else if !media.has_audio {
                            Some(said2("clip "@, a.clip, " uses media "@, mid, " with no audio stream to extract"@))
                        } else if c.detached {
                            Some(said("clip "@, a.clip, " already has extracted audio; use its linked audio-lane companion"@))
                        } else if c.link matches Some(l) && link_members(p.clips@, c.id, l).len() > 0 {
                            Some(said("clip "@, a.clip, " is already linked to clips "@)
                                + id_list(link_members(p.clips@, c.id, c.link->0))
                                + "; call unlink_clips first, then retry extract_audio"@)
                        } else {
                            None
                        },
                    }
                },
            },
        },
    }
}

/// `extract_audio`: the clip exists, then the source and target checks.
pub open spec fn extract_audio_problem(p: ProjectFacts, a: ExtractAudio) -> Option<Seq<char>> {
    match clip_ref(p, a.clip) {
        Err(m) => Some(m),
        Ok(c) => if extract_source_problem(p, a, c) is Some {
            extract_source_problem(p, a, c)
        } else {
            extract_target_problem(p, a, c)
        },
    }
}

#[verifier::spinoff_prover]
fn check_extract_source(p: &ProjectFacts, a: &ExtractAudio, c: &ClipFacts) -> (r: Result<(), String>)
    ensures
        match extract_source_problem(*p, *a, *c) {
            Some(m) => r matches Err(e) && e@ == m,
            None => r is Ok,
        },
{
    let t = match c.track {
        None => return Err(say("clip ", a.clip, " is not on the timeline")),
        Some(t) => t,
    };
    let source = match find_track(p, t) {
        Err(_) => return Err(say2("clip ", a.clip, " refers to missing track ", t, "")),
        Ok(source) => source,
    };
    let mid = match c.media {
        None => return Err(say("clip ", a.clip, " is generated; extract_audio requires a media-backed video clip")),
        Some(mid) => mid,
    };
    if source.kind != LaneKind::Video {
        let mut m = say("clip ", a.clip, " is on a ");
        m.append(kind_name(source.kind));
        m.append(" track; extract_audio requires a video-track clip");
        return Err(m);
    }
    if source.locked {
        return Err(say2("video track ", t, " is locked; unlock it before extracting clip ", a.clip, "'s audio"));
    }
    let media = find_media(p, mid)?;
    if !media.video {
        return Err(say("clip ", a.clip, " does not reference video media; extract_audio requires a video file"));
    }
    if !media.has_audio {
        return Err(say2("clip ", a.clip, " uses media ", mid, " with no audio stream to extract"));
    }
    if c.detached {
        return Err(say("clip ", a.clip, " already has extracted audio; use its linked audio-lane companion"));
    }
    if let Some(l) = c.link {
        let others = other_link_members(p, c.id, l);
        if others.len() > 0 {
            let mut m = say("clip ", a.clip, " is already linked to clips ");
            push_id_list(&mut m, &others);
            m.append("; call unlink_clips first, then retry extract_audio");
            return Err(m);
        }
    }
    Ok(())
}

#[verifier::spinoff_prover]
fn check_extract_audio(p: &ProjectFacts, a: &ExtractAudio) -> (r: Result<(), String>)
    ensures
        match extract_audio_problem(*p, *a) {
            Some(m) => r matches Err(e) && e@ == m,
            None => r is Ok,
        },
{
    let c = find_clip(p, a.clip)?;
    check_extract_source(p, a, &c)?;
    let target = find_track(p, a.track)?;
    if target.kind != LaneKind::Audio {
        let mut m = say("track ", a.track, " is a ");
        m.append(kind_name(target.kind));
        m.append(" track; extract_audio needs an audio track");
        return Err(m);
    }
    if target.locked {
        return Err(say("audio track ", a.track, " is locked; unlock it or choose another audio track"));
    }
    let start = c.start as i128;
    if has_overlap(p, target.id, start, start + (c.duration as i128)) {
        return Err(say2("audio track ", a.track, " already has a clip overlapping clip ", a.clip,
            "'s exact timeline range; choose or add a free audio track"));
    }
    Ok(())
}

/// The refusal for the first id of `ids` that names no clip.
pub open spec fn first_missing_clip(p: ProjectFacts, ids: Seq<u64>) -> Option<Seq<char>>
    decreases ids.len(),
{
    if ids.len() == 0 {
        None
    } else {
        match first_missing_clip(p, ids.drop_last()) {
            Some(m) => Some(m),
            None => match clip_ref(p, ids.last()) {
                Err(m) => Some(m),
                Ok(_) => None,
            },
        }
    }
}

/// Whether `id` names a clip in a link group.
pub open spec fn linked_clip(p: ProjectFacts, id: u64) -> bool {
    clip_of(p, id) matches Some(c) && c.link is Some
}

/// Whether some id of `ids` names a clip in a link group.
pub open spec fn any_linked(p: ProjectFacts, ids: Seq<u64>) -> bool {
    exists|i: int| 0 <= i < ids.len() && #[trigger] linked_clip(p, ids[i])
}

proof fn lemma_missing_extends(p: ProjectFacts, ids: Seq<u64>, n: int)
    requires
        0 <= n <= ids.len(),
        first_missing_clip(p, ids.take(n)) is Some,
    ensures
        first_missing_clip(p, ids) == first_missing_clip(p, ids.take(n)),
    decreases ids.len() - n,
{
    if n < ids.len() {
        assert(ids.take(n + 1).drop_last() =~= ids.take(n));
        lemma_missing_extends(p, ids, n + 1);
    } else {
        assert(ids.take(n) =~= ids);
    }
}

/// Look up every id of `ids`; `Ok` tells whether any of them is linked.
#[verifier::spinoff_prover]
#[verifier::rlimit(30)]
fn check_clip_list(p: &ProjectFacts, ids: &Vec<u64>) -> (r: Result<bool, String>)
    ensures
        match first_missing_clip(*p, ids@) {
            Some(m) => r matches Err(e) && e@ == m,
            None => r == Ok::<bool, String>(any_linked(*p, ids@)),
        },
{
    let mut linked = false;
    let mut i: usize = 0;
    while i < ids.len()
        invariant
            i <= ids.len(),
            first_missing_clip(*p, ids@.take(i as int)) is None,
            linked == any_linked(*p, ids@.take(i as int)),
        decreases ids.len() - i,
    {
        let ghost prefix = ids@.take(i + 1);
        proof {
            assert(prefix.drop_last() =~= ids@.take(i as int));
            assert(prefix.last() == ids@[i as int]);
        }
        let found = find_clip(p, ids[i]);
        match found {
            Err(m) => {
                proof {
                    assert(first_missing_clip(*p, prefix) == Some(m@));
                    lemma_missing_extends(*p, ids@, i + 1);
                }
                return Err(m);
            },
            Ok(c) => {
                let l = c.link.is_some();
                proof {
                    assert(first_missing_clip(*p, prefix) is None);
                    assert(linked_clip(*p, prefix[i as int]) == l);
                    lemma_any_linked_push(*p, ids@.take(i as int), ids@[i as int]);
                    assert(prefix =~= ids@.take(i as int).push(ids@[i as int]));
                }
                linked = linked || l;
            },
        }
        i += 1;
    }
    assert(ids@.take(ids.len() as int) =~= ids@);
    Ok(linked)
}

proof fn lemma_any_linked_push(p: ProjectFacts, ids: Seq<u64>, id: u64)
    ensures
        any_linked(p, ids.push(id)) == (any_linked(p, ids) || linked_clip(p, id)),
{
    let longer = ids.push(id);
    if linked_clip(p, id) {
        assert(longer[ids.len() as int] == id);
    }
    if any_linked(p, ids) {
        let k = choose|k: int| 0 <= k < ids.len() && #[trigger] linked_clip(p, ids[k]);
        assert(longer[k] == ids[k]);
    }
    if any_linked(p, longer) {
        let k = choose|k: int| 0 <= k < longer.len() && #[trigger] linked_clip(p, longer[k]);
        if k < ids.len() {
            assert(longer[k] == ids[k]);
        }
    }
}

/// Why `c` is refused against project `p`, or `None` when it may be
/// applied. Every reference must exist; beyond that each command has the
/// rules of its kind.
pub open spec fn plain_problem(c: PlainCommand, p: ProjectFacts) -> Option<Seq<char>> {
    match c {
        PlainCommand::AddTrack(_) => None,
        PlainCommand::SetCanvas(_) => None,
        PlainCommand::ExtractAudio(a) => extract_audio_problem(p, a),
        PlainCommand::AddEffect(a) => add_effect_problem(p, a),
        PlainCommand::RemoveEffect(a) => remove_effect_problem(p, a),
        PlainCommand::MoveEffect(a) => move_effect_problem(p, a),
        PlainCommand::AddTransition(a) => add_transition_problem(p, a),
        PlainCommand::RemoveTransition(a) => match clip_ref(p, a.clip) {
            Err(m) => Some(m),
            Ok(cl) => if cl.transition {
                None
            } else {
                Some(said("clip "@, a.clip, " has no transition at its right cut"@))
            },
        },
        PlainCommand::SetSpeedCurve(a) => speed_curve_problem(p, a),
        PlainCommand::SetClipPitch(a) => match clip_ref(p, a.clip) {
            Err(m) => Some(m),
            Ok(cl) => generated_problem(cl, a.clip, "set_clip_pitch"@),
        },
        PlainCommand::SetDenoise(a) => denoise_problem(p, a),
        PlainCommand::SetClipStabilize(a) => match clip_ref(p, a.clip) {
            Err(m) => Some(m),
            Ok(cl) => if audio_lane_problem(p, cl, a.clip, "stabilization needs a visual frame"@) is Some {
                audio_lane_problem(p, cl, a.clip, "stabilization needs a visual frame"@)
            } else if generated_problem(cl, a.clip, "set_clip_stabilize"@) is Some {
                generated_problem(cl, a.clip, "set_clip_stabilize"@)
            } else if media_of(p, cl.media->0) matches Some(m) && m.image {
                Some(said("clip "@, a.clip, " is a still image; stabilization requires video"@))
            } else {
                None
            },
        },
        PlainCommand::SetClipBlendMode(a) => match clip_ref(p, a.clip) {
            Err(m) => Some(m),
            Ok(cl) => audio_lane_problem(p, cl, a.clip, "blend modes need a visual frame"@),
        },
        PlainCommand::SetAudioRole(a) => match clip_ref(p, a.clip) {
            Err(m) => Some(m),
            Ok(cl) => if lane_of(p, cl) == Some(LaneKind::Audio) {
                None
            } else {
                Some(said("clip "@, a.clip, " is not on an audio lane; set_audio_role only works on audio clips"@))
            },
        },
        PlainCommand::RemoveClip(a) => match clip_ref(p, a.clip) {
            Err(m) => Some(m),
            Ok(_) => None,
        },
        PlainCommand::RippleDelete(a) => match clip_ref(p, a.clip) {
            Err(m) => Some(m),
            Ok(_) => None,
        },
        PlainCommand::RemoveTrack(a) => match track_ref(p, a.track) {
            Err(m) => Some(m),
            Ok(t) => if t.main {
                Some(said("track "@, a.track,
                    " is the main track and cannot be removed; it is the permanent video lane every edit builds on"@))
            } else {
                None
            },
        },
        PlainCommand::SetTrackEnabled(a) => match track_ref(p, a.track) {
            Err(m) => Some(m),
            Ok(_) => None,
        },
        PlainCommand::SetTrackMuted(a) => match track_ref(p, a.track) {
            Err(m) => Some(m),
            Ok(_) => None,
        },
        PlainCommand::SetTrackLocked(a) => match track_ref(p, a.track) {
            Err(m) => Some(m),
            Ok(_) => None,
        },
        PlainCommand::LinkClips(a) => if link_list_problem(a.clips@.len()) is Some {
            link_list_problem(a.clips@.len())
        } else {
            first_missing_clip(p, a.clips@)
        },
        PlainCommand::UnlinkClips(a) => if unlink_list_problem(a.clips@) is Some {
            unlink_list_problem(a.clips@)
        } else if first_missing_clip(p, a.clips@) is Some {
            first_missing_clip(p, a.clips@)
        } else if !any_linked(p, a.clips@) {
            Some(UNLINK_NOTHING_LINKED@)
        } else {
            None
        },
        PlainCommand::RemoveMarker(a) => match marker_ref(p, a.marker) {
            Err(m) => Some(m),
            Ok(_) => None,
        },
    }
}

fn check_clip_command(p: &ProjectFacts, c: &PlainCommand) -> (r: Result<(), String>)
    requires
        c is RemoveTransition || c is SetClipPitch || c is SetClipStabilize || c is SetClipBlendMode
            || c is SetAudioRole || c is RemoveClip || c is RippleDelete,
    ensures
        match plain_problem(*c, *p) {
            Some(m) => r matches Err(e) && e@ == m,
            None => r is Ok,
        },
{
    match c {
        PlainCommand::RemoveTransition(a) => {
            let cl = find_clip(p, a.clip)?;
            if !cl.transition {
                return Err(say("clip ", a.clip, " has no transition at its right cut"));
            }
            Ok(())
        },
        PlainCommand::SetClipPitch(a) => {
            let cl = find_clip(p, a.clip)?;
            reject_generated(&cl, a.clip, "set_clip_pitch")
        },
        PlainCommand::SetClipStabilize(a) => {
            let cl = find_clip(p, a.clip)?;
            reject_audio_lane(p, &cl, a.clip, "stabilization needs a visual frame")?;
            reject_generated(&cl, a.clip, "set_clip_stabilize")?;
            if let Some(mid) = cl.media {
                if let Ok(m) = find_media(p, mid) {
                    if m.image {
                        return Err(say("clip ", a.clip, " is a still image; stabilization requires video"));
                    }
                }
            }
            Ok(())
        },
        PlainCommand::SetClipBlendMode(a) => {
            let cl = find_clip(p, a.clip)?;
            reject_audio_lane(p, &cl, a.clip, "blend modes need a visual frame")
        },
        PlainCommand::SetAudioRole(a) => {
            let cl = find_clip(p, a.clip)?;
            if clip_lane(p, &cl) != Some(LaneKind::Audio) {
                return Err(say("clip ", a.clip, " is not on an audio lane; set_audio_role only works on audio clips"));
            }
            Ok(())
        },
        PlainCommand::RemoveClip(a) => {
            find_clip(p, a.clip)?;
            Ok(())
        },
        PlainCommand::RippleDelete(a) => {
            find_clip(p, a.clip)?;
            Ok(())
        },
        _ => Ok(()),
    }
}

fn check_track_command(p: &ProjectFacts, c: &PlainCommand) -> (r: Result<(), String>)
    requires
        c is RemoveTrack || c is SetTrackEnabled || c is SetTrackMuted || c is SetTrackLocked
            || c is RemoveMarker || c is LinkClips || c is UnlinkClips,
    ensures
        match plain_problem(*c, *p) {
            Some(m) => r matches Err(e) && e@ == m,
            None => r is Ok,
        },
{
    match c {
        PlainCommand::RemoveTrack(a) => {
            let t = find_track(p, a.track)?;
            if t.main {
                return Err(say("track ", a.track,
                    " is the main track and cannot be removed; it is the permanent video lane every edit builds on"));
            }
            Ok(())
        },
        PlainCommand::SetTrackEnabled(a) => {
            find_track(p, a.track)?;
            Ok(())
        },
        PlainCommand::SetTrackMuted(a) => {
            find_track(p, a.track)?;
            Ok(())
        },
        PlainCommand::SetTrackLocked(a) => {
            find_track(p, a.track)?;
            Ok(())
        },
        PlainCommand::RemoveMarker(a) => {
            find_marker(p, a.marker)?;
            Ok(())
        },
        PlainCommand::LinkClips(a) => {
            check_link_list(&a.clips)?;
            check_clip_list(p, &a.clips)?;
            Ok(())
        },
        PlainCommand::UnlinkClips(a) => {
            check_unlink_list(&a.clips)?;
            let linked = check_clip_list(p, &a.clips)?;
            if !linked {
                return Err(owned(UNLINK_NOTHING_LINKED));
            }
            Ok(())
        },
        _ => Ok(()),
    }
}

/// A refused command, with the message the model reads.
#[derive(Debug, Clone, PartialEq, Eq)]
pub struct Rejection {
    pub message: String,
}

impl Rejection {
    pub fn new(message: String) -> (r: Self)
        ensures
            r.message@ == message@,
    {
        Rejection { message }
    }
}

/// Validate `c` against `p`: `Err` carries the model-readable refusal,
/// and `Ok` means the engine may apply it (ids pass through unchanged).
pub fn check_plain(c: &PlainCommand, p: &ProjectFacts) -> (r: Result<(), Rejection>)
    ensures
        match plain_problem(*c, *p) {
            Some(m) => r matches Err(e) && e.message@ == m,
            None => r is Ok,
        },
{
    match check_plain_text(c, p) {
        Ok(()) => Ok(()),
        Err(m) => Err(Rejection::new(m)),
    }
}

fn check_plain_text(c: &PlainCommand, p: &ProjectFacts) -> (r: Result<(), String>)
    ensures
        match plain_problem(*c, *p) {
            Some(m) => r matches Err(e) && e@ == m,
            None => r is Ok,
        },
{
    match c {
        PlainCommand::AddTrack(_) => Ok(()),
        PlainCommand::SetCanvas(_) => Ok(()),
        PlainCommand::ExtractAudio(a) => check_extract_audio(p, a),
        PlainCommand::AddEffect(a) => check_add_effect(p, a),
        PlainCommand::RemoveEffect(a) => check_remove_effect(p, a),
        PlainCommand::MoveEffect(a) => check_move_effect(p, a),
        PlainCommand::AddTransition(a) => check_add_transition(p, a),
        PlainCommand::SetSpeedCurve(a) => check_speed_curve(p, a),
        PlainCommand::SetDenoise(a) => check_denoise(p, a),
        PlainCommand::RemoveTransition(_) | PlainCommand::SetClipPitch(_) | PlainCommand::SetClipStabilize(_)
        | PlainCommand::SetClipBlendMode(_) | PlainCommand::SetAudioRole(_) | PlainCommand::RemoveClip(_)
        | PlainCommand::RippleDelete(_) => check_clip_command(p, c),
        PlainCommand::RemoveTrack(_) | PlainCommand::SetTrackEnabled(_) | PlainCommand::SetTrackMuted(_)
        | PlainCommand::SetTrackLocked(_) | PlainCommand::RemoveMarker(_) | PlainCommand::LinkClips(_)
        | PlainCommand::UnlinkClips(_) => check_track_command(p, c),
    }
}

/// The canvas a `set_canvas` leaves: each omitted field keeps its current
/// value.
pub fn canvas_settings(a: &SetCanvas, p: &ProjectFacts) -> (r: (WireCanvasAspect, [u8; 3]))
    ensures
        r.0 == (match a.aspect { Some(x) => x, None => p.canvas_aspect }),
        r.1 == (match a.background { Some(b) => b, None => p.canvas_background }),
{
    let aspect = match a.aspect {
        Some(x) => x,
        None => p.canvas_aspect,
    };
    let background = match a.background {
        Some(b) => b,
        None => p.canvas_background,
    };
    (aspect, background)
}

/// A range of a media file, in ticks at the media's own rate.
#[derive(Debug, Clone, Copy, PartialEq, Eq, Structural)]
pub struct SourceRange {
    pub start: i64,
    pub duration: i64,
}

/// A timed edit, with its times already turned into timeline ticks at the
/// timeline rate.
#[derive(Debug, Clone, Copy, PartialEq, Eq, Structural)]
pub enum TimedCommand {
    /// `split_clip` at tick `at`.
    SplitClip { clip: u64, at: i64 },
    /// `trim_clip` to a new timeline range.
    TrimClip { clip: u64 },
    /// `shift_clips` on `track` by `delta` ticks.
    ShiftClips { track: u64, delta: i64 },
    /// `set_transition` on the transition at `clip`'s right cut.
    SetTransition { clip: u64 },
    /// `set_marker` on marker `marker`.
    SetMarker { marker: u64 },
    /// `move_clip` onto `to_track`.
    MoveClip { clip: u64, to_track: u64 },
    /// `duplicate_clip` onto `to_track` at tick `start`; with `start`
    /// `None` only the destination track is checked.
    DuplicateClip { clip: u64, to_track: u64, start: Option<i64> },
    /// A keyframe on `clip` at tick `at` (set, remove, or the start of an
    /// easing preset).
    KeyframeAt { clip: u64, at: i64 },
    /// `set_clip_speed` on `clip`.
    SetClipSpeed { clip: u64 },
    /// `add_clip` or `ripple_insert` of `media` onto `track`; with `source`
    /// (start and length in ticks at the media's rate) the range must lie
    /// within the media, without it only the references and lane are
    /// checked.
    PlaceMedia { track: u64, media: u64, source: Option<SourceRange> },
}

/// Why a timed edit is refused. The variants with ticks are worded by the
/// caller, which reads ticks as seconds.
#[derive(Debug, Clone, PartialEq, Eq)]
pub enum TimedProblem {
    /// Refused with this model-readable text.
    Refused(String),
    /// The split position is not strictly inside the clip, which starts at
    /// tick `start` and lasts `duration` ticks.
    SplitOutside { start: i64, duration: i64 },
    /// The shift rounds to zero frames.
    ZeroShift,
    /// The duplicate's exact destination range (from tick `start`, for
    /// `duration` ticks) overlaps a clip on the destination track.
    DuplicateOverlap { start: i64, duration: i64 },
    /// The keyframe position is outside the clip, which starts at tick
    /// `start` and lasts `duration` ticks.
    KeyframeOutside { start: i64, duration: i64 },
    /// The source range runs past the end of the media, which lasts
    /// `duration` ticks.
    MediaExtent { duration: i64 },
}

/// What a refusal of a timed edit is, as spec code reads it.
pub enum TimedIssue {
    Refused(Seq<char>),
    SplitOutside { start: i64, duration: i64 },
    ZeroShift,
    DuplicateOverlap { start: i64, duration: i64 },
    KeyframeOutside { start: i64, duration: i64 },
    MediaExtent { duration: i64 },
}

/// What a refusal is.
pub open spec fn issue_of(t: TimedProblem) -> TimedIssue {
    match t {
        TimedProblem::Refused(m) => TimedIssue::Refused(m@),
        TimedProblem::SplitOutside { start, duration } => TimedIssue::SplitOutside { start, duration },
        TimedProblem::ZeroShift => TimedIssue::ZeroShift,
        TimedProblem::DuplicateOverlap { start, duration } => TimedIssue::DuplicateOverlap { start, duration },
        TimedProblem::KeyframeOutside { start, duration } => TimedIssue::KeyframeOutside { start, duration },
        TimedProblem::MediaExtent { duration } => TimedIssue::MediaExtent { duration },
    }
}

/// What a check of a timed edit comes to.
pub open spec fn timed_view(r: Result<(), TimedProblem>) -> Result<(), TimedIssue> {
    match r {
        Ok(()) => Ok(()),
        Err(t) => Err(issue_of(t)),
    }
}

/// The rules of timed edits: every reference exists; a split falls
/// strictly inside its clip; a shift moves by at least one tick; a
/// transition is set only where one exists.
pub open spec fn timed_problem(c: TimedCommand, p: ProjectFacts) -> Result<(), TimedIssue> {
    match c {
        TimedCommand::SplitClip { clip, at } => match clip_ref(p, clip) {
            Err(m) => Err(TimedIssue::Refused(m)),
            Ok(cl) => if at <= cl.start || at >= cl.start + cl.duration {
                Err(TimedIssue::SplitOutside { start: cl.start, duration: cl.duration })
            } else {
                Ok(())
            },
        },
        TimedCommand::TrimClip { clip } => match clip_ref(p, clip) {
            Err(m) => Err(TimedIssue::Refused(m)),
            Ok(_) => Ok(()),
        },
        TimedCommand::ShiftClips { track, delta } => match track_ref(p, track) {
            Err(m) => Err(TimedIssue::Refused(m)),
            Ok(_) => if delta == 0 { Err(TimedIssue::ZeroShift) } else { Ok(()) },
        },
        TimedCommand::SetTransition { clip } => match clip_ref(p, clip) {
            Err(m) => Err(TimedIssue::Refused(m)),
            Ok(cl) => if cl.transition {
                Ok(())
            } else {
                Err(TimedIssue::Refused(said("clip "@, clip, " has no transition at its right cut"@)))
            },
        },
        TimedCommand::SetMarker { marker } => match marker_ref(p, marker) {
            Err(m) => Err(TimedIssue::Refused(m)),
            Ok(_) => Ok(()),
        },
        TimedCommand::MoveClip { clip, to_track } => match clip_ref(p, clip) {
            Err(m) => Err(TimedIssue::Refused(m)),
            Ok(cl) => match track_ref(p, to_track) {
                Err(m) => Err(TimedIssue::Refused(m)),
                Ok(t) => if fits_lane(cl.fits, t.kind) {
                    Ok(())
                } else {
                    Err(TimedIssue::Refused(said2("clip "@, clip, " cannot live on track "@, to_track, " ("@)
                        + lane_name(t.kind) + " lane)"@))
                },
            },
        },
        TimedCommand::DuplicateClip { clip, to_track, start } => match clip_ref(p, clip) {
            Err(m) => Err(TimedIssue::Refused(m)),
            Ok(cl) => match track_ref(p, to_track) {
                Err(m) => Err(TimedIssue::Refused(m)),
                Ok(t) => if !fits_lane(cl.fits, t.kind) {
                    Err(TimedIssue::Refused(said2("clip "@, clip, " cannot be duplicated onto track "@, to_track, " ("@)
                        + lane_name(t.kind) + " lane); choose a track compatible with the source clip's content"@))
                } else if t.locked {
                    Err(TimedIssue::Refused(said("destination track "@, to_track,
                        " is locked; unlock it or choose another compatible track"@)))
                } else {
                    match start {
                        None => Ok(()),
                        Some(s) => if overlaps(p.clips@, to_track, s as int, s + cl.duration) {
                            Err(TimedIssue::DuplicateOverlap { start: s, duration: cl.duration })
                        } else {
                            Ok(())
                        },
                    }
                },
            },
        },
        TimedCommand::KeyframeAt { clip, at } => match clip_ref(p, clip) {
            Err(m) => Err(TimedIssue::Refused(m)),
            Ok(cl) => if at < cl.start || at >= cl.start + cl.duration {
                Err(TimedIssue::KeyframeOutside { start: cl.start, duration: cl.duration })
            } else {
                Ok(())
            },
        },
        TimedCommand::SetClipSpeed { clip } => match clip_ref(p, clip) {
            Err(m) => Err(TimedIssue::Refused(m)),
            Ok(cl) => match generated_problem(cl, clip, "set_clip_speed"@) {
                Some(m) => Err(TimedIssue::Refused(m)),
                None => Ok(()),
            },
        },
        TimedCommand::PlaceMedia { track, media, source } => match track_ref(p, track) {
            Err(m) => Err(TimedIssue::Refused(m)),
            Ok(t) => match media_ref(p, media) {
                Err(m) => Err(TimedIssue::Refused(m)),
                Ok(md) => if !(t.kind == LaneKind::Video || t.kind == LaneKind::Audio) {
                    Err(TimedIssue::Refused(said("track "@, track, " is a "@) + lane_name(t.kind)
                        + " lane; media clips go on video or audio tracks"@))
                } else {
                    match source {
                        Some(r) => if r.start + r.duration > md.duration {
                            Err(TimedIssue::MediaExtent { duration: md.duration })
                        } else {
                            Ok(())
                        },
                        None => Ok(()),
                    }
                },
            },
        },
    }
}

/// Validate the timed edit `c` against `p`.
#[verifier::spinoff_prover]
#[verifier::rlimit(60)]
pub fn check_timed(c: &TimedCommand, p: &ProjectFacts) -> (r: Result<(), TimedProblem>)
    ensures
        timed_view(r) == timed_problem(*c, *p),
{
    match *c {
        TimedCommand::SplitClip { clip, at } => {
            let cl = match find_clip(p, clip) {
                Ok(cl) => cl,
                Err(m) => return Err(TimedProblem::Refused(m)),
            };
            let end = cl.start as i128 + cl.duration as i128;
            if at <= cl.start || at as i128 >= end {
                Err(TimedProblem::SplitOutside { start: cl.start, duration: cl.duration })
            } else {
                Ok(())
            }
        },
        TimedCommand::TrimClip { clip } => match find_clip(p, clip) {
            Ok(_) => Ok(()),
            Err(m) => Err(TimedProblem::Refused(m)),
        },
        TimedCommand::ShiftClips { track, delta } => match find_track(p, track) {
            Err(m) => Err(TimedProblem::Refused(m)),
            Ok(_) => if delta == 0 { Err(TimedProblem::ZeroShift) } else { Ok(()) },
        },
        TimedCommand::SetTransition { clip } => match find_clip(p, clip) {
            Err(m) => Err(TimedProblem::Refused(m)),
            Ok(cl) => if cl.transition {
                Ok(())
            } else {
                Err(TimedProblem::Refused(say("clip ", clip, " has no transition at its right cut")))
            },
        },
        TimedCommand::SetMarker { marker } => match find_marker(p, marker) {
            Ok(_) => Ok(()),
            Err(m) => Err(TimedProblem::Refused(m)),
        },
        TimedCommand::MoveClip { clip, to_track } => {
            let cl = match find_clip(p, clip) {
                Ok(cl) => cl,
                Err(m) => return Err(TimedProblem::Refused(m)),
            };
            let t = match find_track(p, to_track) {
                Ok(t) => t,
                Err(m) => return Err(TimedProblem::Refused(m)),
            };
            if lane_accepts(cl.fits, t.kind) {
                Ok(())
            } else {
                let mut m = say2("clip ", clip, " cannot live on track ", to_track, " (");
                m.append(kind_name(t.kind));
                m.append(" lane)");
                Err(TimedProblem::Refused(m))
            }
        },
        TimedCommand::DuplicateClip { clip, to_track, start } => {
            let cl = match find_clip(p, clip) {
                Ok(cl) => cl,
                Err(m) => return Err(TimedProblem::Refused(m)),
            };
            let t = match find_track(p, to_track) {
                Ok(t) => t,
                Err(m) => return Err(TimedProblem::Refused(m)),
            };
            if !lane_accepts(cl.fits, t.kind) {
                let mut m = say2("clip ", clip, " cannot be duplicated onto track ", to_track, " (");
                m.append(kind_name(t.kind));
                m.append(" lane); choose a track compatible with the source clip's content");
                return Err(TimedProblem::Refused(m));
            }
            if t.locked {
                return Err(TimedProblem::Refused(say("destination track ", to_track,
                    " is locked; unlock it or choose another compatible track")));
            }
            match start {
                None => Ok(()),
                Some(s) => if has_overlap(p, to_track, s as i128, s as i128 + cl.duration as i128) {
                    Err(TimedProblem::DuplicateOverlap { start: s, duration: cl.duration })
                } else {
                    Ok(())
                },
            }
        },
        TimedCommand::KeyframeAt { clip, at } => {
            let cl = match find_clip(p, clip) {
                Ok(cl) => cl,
                Err(m) => return Err(TimedProblem::Refused(m)),
            };
            if at < cl.start || at as i128 >= cl.start as i128 + cl.duration as i128 {
                Err(TimedProblem::KeyframeOutside { start: cl.start, duration: cl.duration })
            } else {
                Ok(())
            }
        },
        TimedCommand::SetClipSpeed { clip } => {
            let cl = match find_clip(p, clip) {
                Ok(cl) => cl,
                Err(m) => return Err(TimedProblem::Refused(m)),
            };
            match reject_generated(&cl, clip, "set_clip_speed") {
                Ok(()) => Ok(()),
                Err(m) => Err(TimedProblem::Refused(m)),
            }
        },
        TimedCommand::PlaceMedia { track, media, source } => {
            let t = match find_track(p, track) {
                Ok(t) => t,
                Err(m) => return Err(TimedProblem::Refused(m)),
            };
            let md = match find_media(p, media) {
                Ok(md) => md,
                Err(m) => return Err(TimedProblem::Refused(m)),
            };
            if !(t.kind == LaneKind::Video || t.kind == LaneKind::Audio) {
                let mut m = say("track ", track, " is a ");
                m.append(kind_name(t.kind));
                m.append(" lane; media clips go on video or audio tracks");
                return Err(TimedProblem::Refused(m));
            }
            match source {
                Some(r) => if r.start as i128 + r.duration as i128 > md.duration as i128 {
                    Err(TimedProblem::MediaExtent { duration: md.duration })
                } else {
                    Ok(())
                },
                None => Ok(()),
            }
        },
    }
}

/// The first chain of clip `clip` from position `i` on.
pub open spec fn chain_from(chains: Seq<EffectChainFacts>, clip: u64, i: int) -> Option<int>
    decreases chains.len() - i,
{
    if i < 0 || i >= chains.len() {
        None
    } else if chains[i].clip == clip {
        Some(i)
    } else {
        chain_from(chains, clip, i + 1)
    }
}

/// The parameters of effect `index` on clip `clip` (none when unknown).
pub open spec fn effect_params(p: ProjectFacts, clip: u64, index: u32) -> Seq<EffectParamFacts> {
    match chain_from(p.effect_chains@, clip, 0) {
        Some(c) => if index < p.effect_chains@[c].effects@.len() {
            p.effect_chains@[c].effects@[index as int]@
        } else {
            Seq::empty()
        },
        None => Seq::empty(),
    }
}

/// The first parameter named `name` from position `i` on.
pub open spec fn slot_from(ps: Seq<EffectParamFacts>, name: Seq<char>, i: int) -> Option<int>
    decreases ps.len() - i,
{
    if i < 0 || i >= ps.len() {
        None
    } else if ps[i].name@ == name {
        Some(i)
    } else {
        slot_from(ps, name, i + 1)
    }
}

/// The names of `ps`, comma-separated.
pub open spec fn param_names(ps: Seq<EffectParamFacts>) -> Seq<char> {
    join(ps.map_values(|e: EffectParamFacts| e.name@), ", "@)
}

/// An effect parameter resolved on clip `clip`: the effect's index, the
/// parameter's slot in it, and its kind.
pub open spec fn effect_slot_rule(p: ProjectFacts, clip: u64, index: u32, name: Seq<char>) -> Result<(u32, u32, ParamKind), Seq<char>> {
    match clip_ref(p, clip) {
        Err(m) => Err(m),
        Ok(cl) => match effect_index_problem(cl, clip, index) {
            Some(m) => Err(m),
            None => {
                let ps = effect_params(p, clip, index);
                match slot_from(ps, name, 0) {
                    Some(s) => Ok((index, s as u32, ps[s].kind)),
                    None => Err(said2("effect "@, index as u64, " on clip "@, clip, " has no param '"@) + name
                        + "'; its params: "@ + param_names(ps)),
                }
            },
        },
    }
}

fn find_chain(p: &ProjectFacts, clip: u64) -> (r: Option<usize>)
    ensures
        r matches Some(c) ==> c < p.effect_chains@.len() && chain_from(p.effect_chains@, clip, 0) == Some(c as int),
        r is None ==> chain_from(p.effect_chains@, clip, 0) is None,
{
    let mut i: usize = 0;
    while i < p.effect_chains.len()
        invariant
            i <= p.effect_chains@.len(),
            chain_from(p.effect_chains@, clip, 0) == chain_from(p.effect_chains@, clip, i as int),
        decreases p.effect_chains@.len() - i,
    {
        if p.effect_chains[i].clip == clip {
            return Some(i);
        }
        i += 1;
    }
    None
}

fn find_param(ps: &Vec<EffectParamFacts>, name: &str) -> (r: Option<usize>)
    ensures
        r matches Some(s) ==> s < ps@.len() && slot_from(ps@, name@, 0) == Some(s as int),
        r is None ==> slot_from(ps@, name@, 0) is None,
{
    let mut i: usize = 0;
    while i < ps.len()
        invariant
            i <= ps@.len(),
            slot_from(ps@, name@, 0) == slot_from(ps@, name@, i as int),
        decreases ps@.len() - i,
    {
        if str_eq(ps[i].name.as_str(), name) {
            return Some(i);
        }
        i += 1;
    }
    None
}

fn push_param_names(s: &mut String, ps: &Vec<EffectParamFacts>)
    ensures
        final(s)@ == old(s)@ + param_names(ps@),
{
    let mut names: Vec<String> = Vec::new();
    let mut i: usize = 0;
    while i < ps.len()
        invariant
            i <= ps@.len(),
            views(names@) =~= ps@.take(i as int).map_values(|e: EffectParamFacts| e.name@),
        decreases ps@.len() - i,
    {
        let n = owned(ps[i].name.as_str());
        let ghost before = names@;
        names.push(n);
        proof {
            assert(views(names@) =~= views(before).push(n@));
            assert(ps@.take(i + 1).map_values(|e: EffectParamFacts| e.name@)
                =~= ps@.take(i as int).map_values(|e: EffectParamFacts| e.name@).push(ps@[i as int].name@));
        }
        i += 1;
    }
    assert(ps@.take(i as int) =~= ps@);
    push_joined(s, &names, ", ");
}

fn effect_slot(p: &ProjectFacts, clip: u64, index: u32, name: &str) -> (r: Result<(u32, u32, ParamKind), String>)
    ensures
        match effect_slot_rule(*p, clip, index, name@) {
            Ok(t) => r == Ok::<(u32, u32, ParamKind), String>(t),
            Err(m) => r matches Err(e) && e@ == m,
        },
{
    let cl = find_clip(p, clip)?;
    check_effect_index(&cl, clip, index)?;
    let ghost ps = effect_params(*p, clip, index);
    let empty: Vec<EffectParamFacts> = Vec::new();
    let params: &Vec<EffectParamFacts> = match find_chain(p, clip) {
        Some(c) => if (index as usize) < p.effect_chains[c].effects.len() {
            &p.effect_chains[c].effects[index as usize]
        } else {
            &empty
        },
        None => &empty,
    };
    assert(params@ == ps);
    match find_param(params, name) {
        Some(s) => Ok((index, s as u32, params[s].kind)),
        None => {
            let mut m = say2("effect ", index as u64, " on clip ", clip, " has no param '");
            m.append(name);
            m.append("'; its params: ");
            push_param_names(&mut m, params);
            Err(m)
        },
    }
}

/// What a parameter selector resolves to on a clip: an effect parameter's
/// effect index and slot, or a property the selector names by itself.
#[derive(Debug, Clone, Copy, PartialEq, Eq, Structural)]
pub enum ClipParamRef {
    Plain,
    Effect { effect: u32, slot: u32 },
}

/// How a parameter selector resolves on clip `clip`: the clip must exist,
/// and an effect parameter must name an effect in its chain and one of
/// that effect's parameters.
pub open spec fn clip_param_rule(param: WireClipParam, clip: u64, p: ProjectFacts) -> Result<ClipParamRef, Seq<char>> {
    match param {
        WireClipParam::Effect { index, param: name } => match effect_slot_rule(p, clip, index, name@) {
            Ok((e, s, _)) => Ok(ClipParamRef::Effect { effect: e, slot: s }),
            Err(m) => Err(m),
        },
        _ => match clip_ref(p, clip) {
            Ok(_) => Ok(ClipParamRef::Plain),
            Err(m) => Err(m),
        },
    }
}

/// Resolve the parameter selector `param` on clip `clip`.
pub fn check_clip_param(param: &WireClipParam, clip: u64, p: &ProjectFacts) -> (r: Result<ClipParamRef, Rejection>)
    ensures
        match clip_param_rule(*param, clip, *p) {
            Ok(c) => r == Ok::<ClipParamRef, Rejection>(c),
            Err(m) => r matches Err(e) && e.message@ == m,
        },
{
    match param {
        WireClipParam::Effect { index, param: name } => match effect_slot(p, clip, *index, name.as_str()) {
            Ok((e, s, _)) => Ok(ClipParamRef::Effect { effect: e, slot: s }),
            Err(m) => Err(Rejection::new(m)),
        },
        _ => match find_clip(p, clip) {
            Ok(_) => Ok(ClipParamRef::Plain),
            Err(m) => Err(Rejection::new(m)),
        },
    }
}

/// The shape of value a parameter takes.
#[derive(Debug, Clone, Copy, PartialEq, Eq, Structural)]
pub enum ValueShape {
    Scalar,
    Vec2,
    Color,
    Rect,
}

/// Whether a parameter takes `position` as `[x, y]`.
pub open spec fn takes_position(p: WireClipParam) -> bool {
    match p {
        WireClipParam::Position | WireClipParam::AnchorPoint => true,
        WireClipParam::Style { param } => param == WireStyleParam::ShadowOffset,
        WireClipParam::Look { param } => param == WireLookParam::MaskCenter || param == WireLookParam::MaskSize,
        _ => false,
    }
}

/// Whether a parameter takes a color as `rgba`.
pub open spec fn takes_color(p: WireClipParam) -> bool {
    match p {
        WireClipParam::Shape { param } => param == WireShapeParam::Fill || param == WireShapeParam::StrokeColor,
        WireClipParam::Text { param } => param == WireTextParam::Fill || param == WireTextParam::StrokeColor
            || param == WireTextParam::ShadowColor || param == WireTextParam::BackgroundColor,
        WireClipParam::Style { param } => param == WireStyleParam::ShadowColor || param == WireStyleParam::GlowColor
            || param == WireStyleParam::OutlineColor || param == WireStyleParam::BackgroundColor,
        _ => false,
    }
}

/// A parameter selector's `Debug` form, lowercased (effect parameters,
/// which are never worded this way, read `effect`).
pub open spec fn param_debug(p: WireClipParam) -> Seq<char> {
    match p {
        WireClipParam::Position => "position"@,
        WireClipParam::AnchorPoint => "anchorpoint"@,
        WireClipParam::Scale => "scale"@,
        WireClipParam::Rotation => "rotation"@,
        WireClipParam::Opacity => "opacity"@,
        WireClipParam::Crop => "crop"@,
        WireClipParam::Volume => "volume"@,
        WireClipParam::Pan => "pan"@,
        WireClipParam::Speed => "speed"@,
        WireClipParam::Effect { .. } => "effect"@,
        WireClipParam::Shape { param } => "shape { param: "@ + shape_param_word(param) + " }"@,
        WireClipParam::Text { param } => "text { param: "@ + text_param_word(param) + " }"@,
        WireClipParam::Look { param } => "look { param: "@ + look_param_word(param) + " }"@,
        WireClipParam::Style { param } => "style { param: "@ + style_param_word(param) + " }"@,
    }
}

fn param_debug_text(p: &WireClipParam) -> (r: String)
    ensures
        r@ == param_debug(*p),
{
    match p {
        WireClipParam::Shape { param } => {
            let mut r = owned("shape { param: ");
            r.append(crate::action_log::shape_param_str(*param));
            r.append(" }");
            r
        },
        WireClipParam::Text { param } => {
            let mut r = owned("text { param: ");
            r.append(crate::action_log::text_param_str(*param));
            r.append(" }");
            r
        },
        WireClipParam::Look { param } => {
            let mut r = owned("look { param: ");
            r.append(crate::action_log::look_param_str(*param));
            r.append(" }");
            r
        },
        WireClipParam::Style { param } => {
            let mut r = owned("style { param: ");
            r.append(crate::action_log::style_param_str(*param));
            r.append(" }");
            r
        },
        WireClipParam::Position => owned("position"),
        WireClipParam::AnchorPoint => owned("anchorpoint"),
        WireClipParam::Scale => owned("scale"),
        WireClipParam::Rotation => owned("rotation"),
        WireClipParam::Opacity => owned("opacity"),
        WireClipParam::Crop => owned("crop"),
        WireClipParam::Volume => owned("volume"),
        WireClipParam::Pan => owned("pan"),
        WireClipParam::Speed => owned("speed"),
        WireClipParam::Effect { .. } => owned("effect"),
    }
}

/// What a crop rectangle argument is: absent, a valid crop, or refused
/// by the engine with a reason.
pub open spec fn crop_view(rect: Option<Option<String>>) -> Option<Option<Seq<char>>> {
    match rect {
        None => None,
        Some(None) => Some(None),
        Some(Some(e)) => Some(Some(e@)),
    }
}

/// The value shape a parameter takes from the arguments given: effect
/// parameters by their catalog kind; crop from `rect`; position-like
/// parameters from `position`; scale from `position` when given, else
/// from `value`; colors from `rgba`; every other parameter from `value`.
pub open spec fn value_shape_rule(
    param: WireClipParam,
    clip: u64,
    p: ProjectFacts,
    has_value: bool,
    has_position: bool,
    has_rgba: bool,
    rect: Option<Option<Seq<char>>>,
) -> Result<ValueShape, Seq<char>> {
    match param {
        WireClipParam::Effect { index, param: name } => match effect_slot_rule(p, clip, index, name@) {
            Err(m) => Err(m),
            Ok((_, _, kind)) => match kind {
                ParamKind::Scalar => if has_value { Ok(ValueShape::Scalar) } else {
                    Err("effect param '"@ + name@ + "' is a scalar; pass 'value' (a number)"@)
                },
                ParamKind::Vec2 => if has_position { Ok(ValueShape::Vec2) } else {
                    Err("effect param '"@ + name@ + "' is a vec2; pass 'position' as [x, y]"@)
                },
                ParamKind::Color => if has_rgba { Ok(ValueShape::Color) } else {
                    Err("effect param '"@ + name@ + "' is a color; pass 'rgba' as [red, green, blue, alpha]"@)
                },
            },
        },
        WireClipParam::Crop => match rect {
            None => Err("crop param needs the 'rect' argument as [x, y, w, h]"@),
            Some(Some(e)) => Err(e),
            Some(None) => Ok(ValueShape::Rect),
        },
        WireClipParam::Scale => if has_position {
            Ok(ValueShape::Vec2)
        } else if has_value {
            Ok(ValueShape::Scalar)
        } else {
            Err("scale param needs 'value' (uniform number) or 'position' as [x, y]"@)
        },
        _ => if takes_position(param) {
            if has_position { Ok(ValueShape::Vec2) } else {
                Err("position, anchor_point, style shadow_offset, and look mask_center/mask_size params need the 'position' argument as [x, y]"@)
            }
        } else if takes_color(param) {
            if has_rgba { Ok(ValueShape::Color) } else {
                Err("param '"@ + param_debug(param) + "' needs the 'rgba' argument as [red, green, blue, alpha]"@)
            }
        } else {
            if has_value { Ok(ValueShape::Scalar) } else {
                Err("param '"@ + param_debug(param) + "' needs the 'value' argument (a number)"@)
            }
        },
    }
}

fn is_position_param(p: &WireClipParam) -> (r: bool)
    ensures
        r == takes_position(*p),
{
    match p {
        WireClipParam::Position | WireClipParam::AnchorPoint => true,
        WireClipParam::Style { param } => match param {
            WireStyleParam::ShadowOffset => true,
            _ => false,
        },
        WireClipParam::Look { param } => match param {
            WireLookParam::MaskCenter | WireLookParam::MaskSize => true,
            _ => false,
        },
        _ => false,
    }
}

fn is_color_param(p: &WireClipParam) -> (r: bool)
    ensures
        r == takes_color(*p),
{
    match p {
        WireClipParam::Shape { param } => match param {
            WireShapeParam::Fill | WireShapeParam::StrokeColor => true,
            _ => false,
        },
        WireClipParam::Text { param } => match param {
            WireTextParam::Fill | WireTextParam::StrokeColor | WireTextParam::ShadowColor
            | WireTextParam::BackgroundColor => true,
            _ => false,
        },
        WireClipParam::Style { param } => match param {
            WireStyleParam::ShadowColor | WireStyleParam::GlowColor | WireStyleParam::OutlineColor
            | WireStyleParam::BackgroundColor => true,
            _ => false,
        },
        _ => false,
    }
}

fn quoted(a: &str, name: &str, b: &str) -> (r: String)
    ensures
        r@ == a@ + name@ + b@,
{
    let mut r = owned(a);
    r.append(name);
    r.append(b);
    r
}

/// Which value shape `param` takes on clip `clip`, given which of the
/// value arguments were passed (`rect` carries the crop's own verdict).
pub fn param_value_shape(
    param: &WireClipParam,
    clip: u64,
    p: &ProjectFacts,
    has_value: bool,
    has_position: bool,
    has_rgba: bool,
    rect: Option<Option<String>>,
) -> (r: Result<ValueShape, Rejection>)
    ensures
        match value_shape_rule(*param, clip, *p, has_value, has_position, has_rgba, crop_view(rect)) {
            Ok(v) => r == Ok::<ValueShape, Rejection>(v),
            Err(m) => r matches Err(e) && e.message@ == m,
        },
{
    let shape: Result<ValueShape, String> = match param {
        WireClipParam::Effect { index, param: name } => match effect_slot(p, clip, *index, name.as_str()) {
            Err(m) => Err(m),
            Ok((_, _, kind)) => match kind {
                ParamKind::Scalar => if has_value { Ok(ValueShape::Scalar) } else {
                    Err(quoted("effect param '", name.as_str(), "' is a scalar; pass 'value' (a number)"))
                },
                ParamKind::Vec2 => if has_position { Ok(ValueShape::Vec2) } else {
                    Err(quoted("effect param '", name.as_str(), "' is a vec2; pass 'position' as [x, y]"))
                },
                ParamKind::Color => if has_rgba { Ok(ValueShape::Color) } else {
                    Err(quoted("effect param '", name.as_str(), "' is a color; pass 'rgba' as [red, green, blue, alpha]"))
                },
            },
        },
        WireClipParam::Crop => match rect {
            None => Err(owned("crop param needs the 'rect' argument as [x, y, w, h]")),
            Some(Some(e)) => Err(e),
            Some(None) => Ok(ValueShape::Rect),
        },
        WireClipParam::Scale => if has_position {
            Ok(ValueShape::Vec2)
        } else if has_value {
            Ok(ValueShape::Scalar)
        } else {
            Err(owned("scale param needs 'value' (uniform number) or 'position' as [x, y]"))
        },
        _ => if is_position_param(param) {
            if has_position { Ok(ValueShape::Vec2) } else {
                Err(owned("position, anchor_point, style shadow_offset, and look mask_center/mask_size params need the 'position' argument as [x, y]"))
            }
        } else if is_color_param(param) {
            if has_rgba { Ok(ValueShape::Color) } else {
                Err(quoted("param '", param_debug_text(param).as_str(), "' needs the 'rgba' argument as [red, green, blue, alpha]"))
            }
        } else {
            if has_value { Ok(ValueShape::Scalar) } else {
                Err(quoted("param '", param_debug_text(param).as_str(), "' needs the 'value' argument (a number)"))
            }
        },
    };
    match shape {
        Ok(v) => Ok(v),
        Err(m) => Err(Rejection::new(m)),
    }
}

/// Why a keyframe command refuses `param`: speed is retimed by its own
/// tools, not keyframed.
pub open spec fn keyframe_param_problem(param: WireClipParam) -> Option<Seq<char>> {
    if param is Speed {
        Some("speed cannot be keyframed; use set_clip_speed for a constant rate or set_speed_curve for a ramp"@)
    } else {
        None
    }
}

/// Refuse keyframing speed.
pub fn check_keyframe_param(param: &WireClipParam) -> (r: Result<(), Rejection>)
    ensures
        match keyframe_param_problem(*param) {
            Some(m) => r matches Err(e) && e.message@ == m,
            None => r is Ok,
        },
{
    match param {
        WireClipParam::Speed => Err(Rejection::new(owned(
            "speed cannot be keyframed; use set_clip_speed for a constant rate or set_speed_curve for a ramp",
        ))),
        _ => Ok(()),
    }
}

/// Why `apply_easing_preset` refuses `param`: it eases scalar and vec2
/// transform, volume, pan, look and non-color style parameters only.
pub open spec fn easing_target_problem(param: WireClipParam) -> Option<Seq<char>> {
    match param {
        WireClipParam::Crop | WireClipParam::Speed | WireClipParam::Effect { .. } | WireClipParam::Shape { .. }
        | WireClipParam::Text { .. } => Some(
            "apply_easing_preset supports scalar/vec2 transform, volume, pan, look, and non-color style params only"@),
        WireClipParam::Style { param } => if takes_color(WireClipParam::Style { param }) {
            Some("apply_easing_preset does not support color parameters"@)
        } else {
            None
        },
        _ => None,
    }
}

/// Refuse an easing preset on a parameter it cannot ease.
pub fn check_easing_target(param: &WireClipParam) -> (r: Result<(), Rejection>)
    ensures
        match easing_target_problem(*param) {
            Some(m) => r matches Err(e) && e.message@ == m,
            None => r is Ok,
        },
{
    match param {
        WireClipParam::Crop | WireClipParam::Speed | WireClipParam::Effect { .. } | WireClipParam::Shape { .. }
        | WireClipParam::Text { .. } => Err(Rejection::new(owned(
            "apply_easing_preset supports scalar/vec2 transform, volume, pan, look, and non-color style params only",
        ))),
        WireClipParam::Style { .. } => if is_color_param(param) {
            Err(Rejection::new(owned("apply_easing_preset does not support color parameters")))
        } else {
            Ok(())
        },
        _ => Ok(()),
    }
}

/// A speed in hundredths as a reduced fraction `(numerator, denominator)`.
pub open spec fn speed_ratio(hundredths: int) -> (int, int) {
    (hundredths / gcd_at_least_one(hundredths, 100), 100int / gcd_at_least_one(hundredths, 100))
}

/// A speed of `hundredths`/100 (snapped to hundredths), reduced.
pub fn speed_fraction(hundredths: i32) -> (r: (i32, i32))
    requires
        5 <= hundredths <= 10000,
    ensures
        r.0 as int == speed_ratio(hundredths as int).0,
        r.1 as int == speed_ratio(hundredths as int).1,
{
    proof {
        lemma_remainders_fit_positive(hundredths as int, 100);
    }
    let g = gcd(hundredths, 100);
    (hundredths / g, 100 / g)
}

/// Keyframe law: a keyframe position is accepted exactly when its clip
/// exists and the position lies in the clip's span, from its first tick
/// up to (not including) its end; any position before the start or at or
/// after the end is refused with the clip's extent.
pub proof fn keyframes_lie_inside_their_clip(p: ProjectFacts, clip: u64, at: i64)
    ensures
        timed_problem(TimedCommand::KeyframeAt { clip, at }, p) is Ok <==> (clip_of(p, clip) matches Some(c)
            && c.start <= at && at < c.start + c.duration),
        clip_of(p, clip) matches Some(c) ==> ((at < c.start || at >= c.start + c.duration)
            ==> timed_problem(TimedCommand::KeyframeAt { clip, at }, p)
                == Err::<(), TimedIssue>(TimedIssue::KeyframeOutside { start: c.start, duration: c.duration })),
{
}

/// Split law: a split is accepted exactly when its clip exists and the
/// position falls strictly inside the clip (after its first tick, before
/// its end); otherwise, for an existing clip, the refusal names its extent.
pub proof fn splits_fall_strictly_inside_their_clip(p: ProjectFacts, clip: u64, at: i64)
    ensures
        timed_problem(TimedCommand::SplitClip { clip, at }, p) is Ok <==> (clip_of(p, clip) matches Some(c)
            && c.start < at && at < c.start + c.duration),
        clip_of(p, clip) matches Some(c) ==> ((at <= c.start || at >= c.start + c.duration)
            ==> timed_problem(TimedCommand::SplitClip { clip, at }, p)
                == Err::<(), TimedIssue>(TimedIssue::SplitOutside { start: c.start, duration: c.duration })),
{
}

/// Whether every clip, track and marker id that `c` names exists in `p`.
pub open spec fn references_exist(c: PlainCommand, p: ProjectFacts) -> bool {
    match c {
        PlainCommand::AddTrack(_) => true,
        PlainCommand::SetCanvas(_) => true,
        PlainCommand::ExtractAudio(a) => clip_of(p, a.clip) is Some && track_of(p, a.track) is Some,
        PlainCommand::AddEffect(a) => clip_of(p, a.clip) is Some,
        PlainCommand::RemoveEffect(a) => clip_of(p, a.clip) is Some,
        PlainCommand::MoveEffect(a) => clip_of(p, a.clip) is Some,
        PlainCommand::AddTransition(a) => clip_of(p, a.clip) is Some,
        PlainCommand::RemoveTransition(a) => clip_of(p, a.clip) is Some,
        PlainCommand::SetSpeedCurve(a) => clip_of(p, a.clip) is Some,
        PlainCommand::SetClipPitch(a) => clip_of(p, a.clip) is Some,
        PlainCommand::SetDenoise(a) => clip_of(p, a.clip) is Some,
        PlainCommand::SetClipStabilize(a) => clip_of(p, a.clip) is Some,
        PlainCommand::SetClipBlendMode(a) => clip_of(p, a.clip) is Some,
        PlainCommand::SetAudioRole(a) => clip_of(p, a.clip) is Some,
        PlainCommand::RemoveClip(a) => clip_of(p, a.clip) is Some,
        PlainCommand::RippleDelete(a) => clip_of(p, a.clip) is Some,
        PlainCommand::RemoveTrack(a) => track_of(p, a.track) is Some,
        PlainCommand::SetTrackEnabled(a) => track_of(p, a.track) is Some,
        PlainCommand::SetTrackMuted(a) => track_of(p, a.track) is Some,
        PlainCommand::SetTrackLocked(a) => track_of(p, a.track) is Some,
        PlainCommand::LinkClips(a) => forall|i: int| 0 <= i < a.clips@.len() ==> (#[trigger] clip_of(p, a.clips@[i])) is Some,
        PlainCommand::UnlinkClips(a) => forall|i: int| 0 <= i < a.clips@.len() ==> (#[trigger] clip_of(p, a.clips@[i])) is Some,
        PlainCommand::RemoveMarker(a) => index_of(p.markers@, a.marker) is Some,
    }
}

proof fn lemma_no_missing_clip(p: ProjectFacts, ids: Seq<u64>)
    requires
        first_missing_clip(p, ids) is None,
    ensures
        forall|i: int| 0 <= i < ids.len() ==> (#[trigger] clip_of(p, ids[i])) is Some,
    decreases ids.len(),
{
    if ids.len() > 0 {
        lemma_no_missing_clip(p, ids.drop_last());
        assert forall|i: int| 0 <= i < ids.len() implies (#[trigger] clip_of(p, ids[i])) is Some by {
            if i < ids.len() - 1 {
                assert(ids.drop_last()[i] == ids[i]);
            }
        }
    }
}

/// Validation accepts only commands whose every clip, track and marker
/// reference names something that exists: an edit never reaches the
/// engine with a dangling id.
#[verifier::spinoff_prover]
#[verifier::rlimit(40)]
pub proof fn accepted_references_exist(c: PlainCommand, p: ProjectFacts)
    requires
        plain_problem(c, p) is None,
    ensures
        references_exist(c, p),
{
    match c {
        PlainCommand::ExtractAudio(a) => {
            assert(extract_audio_problem(p, a) is None);
            let cl = clip_of(p, a.clip)->0;
            assert(extract_source_problem(p, a, cl) is None);
            assert(extract_target_problem(p, a, cl) is None);
        },
        PlainCommand::LinkClips(a) => {
            assert(first_missing_clip(p, a.clips@) is None);
            lemma_no_missing_clip(p, a.clips@);
        },
        PlainCommand::UnlinkClips(a) => {
            assert(first_missing_clip(p, a.clips@) is None);
            lemma_no_missing_clip(p, a.clips@);
        },
        _ => {},
    }
}

/// The main track is permanent: validation never lets `remove_track`
/// through for it.
pub proof fn main_track_is_never_removed(p: ProjectFacts, track: u64)
    requires
        track_of(p, track) matches Some(t) && t.main,
    ensures
        plain_problem(PlainCommand::RemoveTrack(crate::wire::RemoveTrack { track }), p) is Some,
{
}

/// `unlink_clips` goes through only when it touches a link group.
pub proof fn accepted_unlink_touches_a_group(p: ProjectFacts, clips: Vec<u64>)
    requires
        plain_problem(PlainCommand::UnlinkClips(crate::wire::UnlinkClips { clips }), p) is None,
    ensures
        any_linked(p, clips@),
{
}

} // verus!
