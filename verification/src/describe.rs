//! The canvas part of the model-facing project summary: the pixel frame
//! that placement fractions refer to, resolved from the aspect preset or,
//! for `auto`, from the largest video on a visual track.

use vstd::prelude::*;

verus! {

/// Canvas height every preset is laid out against.
pub const CANVAS_REFERENCE_HEIGHT: u32 = 1080;

/// Canvas size when `auto` finds no video to follow.
pub const DEFAULT_CANVAS_WIDTH: u32 = 1920;

/// Canvas height when `auto` finds no video to follow.
pub const DEFAULT_CANVAS_HEIGHT: u32 = 1080;

/// The canvas as the summary reports it.
#[derive(Debug, Clone, PartialEq, Eq)]
pub struct CanvasSummary {
    /// Resolved canvas width in pixels (same box preview/export use).
    pub width: u32,
    /// Resolved canvas height in pixels.
    pub height: u32,
    /// Aspect preset name: auto, 16:9, 9:16, 1:1, 4:5, 21:9.
    pub aspect: String,
    /// Background color as `[red, green, blue]`, each 0-255.
    pub background: [u8; 3],
}

/// `v` rounded down to an even number, and at least 2.
pub open spec fn even(v: u32) -> u32 {
    if v < 2 { 2 } else { (v - v % 2) as u32 }
}

/// `v` rounded down to an even number, and at least 2.
pub fn even_pixels(v: u32) -> (r: u32)
    ensures
        r == even(v),
{
    if v < 2 { 2 } else { v - v % 2 }
}

/// `n / d` rounded to the nearest integer, halves away from zero, and
/// clamped to `u32::MAX`; an unbounded quotient (`d == 0 < n`) clamps too,
/// and `0 / 0` reads as 0.
pub open spec fn rounded_quotient(n: nat, d: nat) -> u32 {
    if d == 0 {
        if n == 0 { 0 } else { u32::MAX }
    } else if (2 * n + d) / (2 * d) > u32::MAX {
        u32::MAX
    } else {
        ((2 * n + d) / (2 * d)) as u32
    }
}

/// The pixel size of an aspect ratio `rw:rh`: the short side is the
/// reference height and the long side follows the ratio, both made even.
pub open spec fn ratio_pixels(rw: u32, rh: u32) -> (u32, u32) {
    if rw >= rh {
        (even(rounded_quotient((CANVAS_REFERENCE_HEIGHT * rw) as nat, rh as nat)), even(CANVAS_REFERENCE_HEIGHT))
    } else {
        (even(CANVAS_REFERENCE_HEIGHT), even(rounded_quotient((CANVAS_REFERENCE_HEIGHT * rh) as nat, rw as nat)))
    }
}

fn quotient_rounded(n: u64, d: u32) -> (r: u32)
    requires
        n <= 1080 * 0xffff_ffffu64,
    ensures
        r == rounded_quotient(n as nat, d as nat),
{
    if d == 0 {
        if n == 0 { 0 } else { u32::MAX }
    } else {
        let q = (2 * n + d as u64) / (2 * d as u64);
        if q > 0xffff_ffff { u32::MAX } else { q as u32 }
    }
}

/// The pixel size of an aspect ratio `rw:rh`.
pub fn ratio_to_pixels(rw: u32, rh: u32) -> (r: (u32, u32))
    ensures
        r == ratio_pixels(rw, rh),
{
    if rw >= rh {
        let w = quotient_rounded(1080 * (rw as u64), rh);
        (even_pixels(w), even_pixels(CANVAS_REFERENCE_HEIGHT))
    } else {
        let h = quotient_rounded(1080 * (rh as u64), rw);
        (even_pixels(CANVAS_REFERENCE_HEIGHT), even_pixels(h))
    }
}

/// The area of a frame.
pub open spec fn area(f: (u32, u32)) -> int {
    f.0 * f.1
}

/// The first frame of largest area among `frames`.
pub open spec fn largest(frames: Seq<(u32, u32)>) -> Option<(u32, u32)>
    decreases frames.len(),
{
    if frames.len() == 0 {
        None
    } else {
        match largest(frames.drop_last()) {
            None => Some(frames.last()),
            Some(best) => if area(frames.last()) > area(best) { Some(frames.last()) } else { Some(best) },
        }
    }
}

fn frame_area(f: (u32, u32)) -> (r: u64)
    ensures
        r == area(f),
{
    let a = f.0 as u64;
    let b = f.1 as u64;
    assert(a * b <= 0xffff_ffffu64 * 0xffff_ffffu64) by (nonlinear_arith)
        requires
            a <= 0xffff_ffffu64,
            b <= 0xffff_ffffu64,
    ;
    a * b
}

/// Canvas law: the largest frame is a frame of the list whose pixel count
/// (width times height) no frame of the list exceeds, the first such on
/// ties; there is one exactly when the list is not empty.
pub proof fn largest_frame_has_the_most_pixels(frames: Seq<(u32, u32)>)
    ensures
        largest(frames) is Some <==> frames.len() > 0,
        largest(frames) matches Some(f) ==> {
            &&& exists|i: int| 0 <= i < frames.len() && frames[i] == f
                && forall|j: int| 0 <= j < i ==> (#[trigger] frames[j]).0 * frames[j].1 < f.0 * f.1
            &&& forall|j: int| 0 <= j < frames.len() ==> (#[trigger] frames[j]).0 * frames[j].1 <= f.0 * f.1
        },
    decreases frames.len(),
{
    if frames.len() > 0 {
        let rest = frames.drop_last();
        largest_frame_has_the_most_pixels(rest);
        let last = frames.last();
        assert(area(last) == last.0 * last.1);
        match largest(rest) {
            None => {
                assert(rest.len() == 0);
                assert(frames[0] == last);
            },
            Some(best) => {
                assert(area(best) == best.0 * best.1);
                let i = choose|i: int| 0 <= i < rest.len() && rest[i] == best
                    && forall|j: int| 0 <= j < i ==> (#[trigger] rest[j]).0 * rest[j].1 < best.0 * best.1;
                assert forall|j: int| 0 <= j < rest.len() implies (#[trigger] frames[j]).0 * frames[j].1 == rest[j].0 * rest[j].1 by {
                    assert(frames[j] == rest[j]);
                }
                if area(last) > area(best) {
                    assert(frames[frames.len() - 1] == last);
                } else {
                    assert(frames[i] == best);
                }
            },
        }
    }
}


/// The first frame of largest area among `frames` (video media on visual
/// tracks, in stack and timeline order).
pub fn largest_frame(frames: &Vec<(u32, u32)>) -> (r: Option<(u32, u32)>)
    ensures
        r == largest(frames@),
{
    let mut best: Option<(u32, u32)> = None;
    let mut i: usize = 0;
    while i < frames.len()
        invariant
            i <= frames.len(),
            best == largest(frames@.take(i as int)),
        decreases frames.len() - i,
    {
        proof {
            assert(frames@.take(i + 1).drop_last() =~= frames@.take(i as int));
        }
        let f = frames[i];
        let a = frame_area(f);
        match best {
            None => {
                best = Some(f);
            },
            Some(b) => {
                let ba = frame_area(b);
                if a > ba {
                    best = Some(f);
                }
            },
        }
        i += 1;
    }
    assert(frames@.take(frames.len() as int) =~= frames@);
    best
}

/// The canvas pixel size: the preset's ratio when it fixes one, else the
/// largest video frame (made even), else 1920×1080.
pub open spec fn canvas_pixels(ratio: Option<(u32, u32)>, frames: Seq<(u32, u32)>) -> (u32, u32) {
    match ratio {
        Some(r) => ratio_pixels(r.0, r.1),
        None => match largest(frames) {
            Some(f) => (even(f.0), even(f.1)),
            None => (DEFAULT_CANVAS_WIDTH, DEFAULT_CANVAS_HEIGHT),
        },
    }
}

/// The canvas pixel size for an aspect preset's ratio (`None` for `auto`)
/// and the frames of the video media on visual tracks.
pub fn canvas_size(ratio: Option<(u32, u32)>, frames: &Vec<(u32, u32)>) -> (r: (u32, u32))
    ensures
        r == canvas_pixels(ratio, frames@),
{
    match ratio {
        Some(r) => ratio_to_pixels(r.0, r.1),
        None => match largest_frame(frames) {
            Some(f) => (even_pixels(f.0), even_pixels(f.1)),
            None => (DEFAULT_CANVAS_WIDTH, DEFAULT_CANVAS_HEIGHT),
        },
    }
}

} // verus!
