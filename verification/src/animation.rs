//! Timing of animated emotes: which frame shows when, frame delays read from
//! GIF and WebP data, and the frames of a sprite-sheet animation.

use vstd::prelude::*;
use crate::model::CssAnimationData;

verus! {

/// The sum of the first `n` frame delays.
pub open spec fn delay_prefix_sum(d: Seq<u16>, n: int) -> int
    decreases n,
{
    if n <= 0 {
        0
    } else {
        delay_prefix_sum(d, n - 1) + d[n - 1]
    }
}

pub proof fn lemma_prefix_sum_monotone(d: Seq<u16>, a: int, b: int)
    requires
        0 <= a <= b,
    ensures
        delay_prefix_sum(d, a) <= delay_prefix_sum(d, b),
    decreases b - a,
{
    if a < b {
        lemma_prefix_sum_monotone(d, a, b - 1);
    }
}

/// The total length of an animation.
pub open spec fn total_delay(d: Seq<u16>) -> int {
    delay_prefix_sum(d, d.len() as int)
}

/// Adds up the frame delays of an animation.
pub fn total_duration(delays: &Vec<u16>) -> (r: u16)
    requires
        total_delay(delays@) <= u16::MAX,
    ensures
        r == total_delay(delays@),
{
    let mut sum: u16 = 0;
    let mut i: usize = 0;
    while i < delays.len()
        invariant
            i <= delays@.len(),
            total_delay(delays@) <= u16::MAX,
            sum == delay_prefix_sum(delays@, i as int),
        decreases delays@.len() - i,
    {
        proof {
            lemma_prefix_sum_monotone(delays@, i + 1, delays@.len() as int);
        }
        sum = sum + delays[i];
        i += 1;
    }
    sum
}

/// The position in the animation cycle at a wall-clock second and millisecond.
pub open spec fn cycle_position(duration: u16, second: u32, millis: u32) -> int {
    ((second * 1000 + millis) as u16) as int % (duration as int)
}

/// The time at which frame `i` ends.
pub open spec fn frame_end(d: Seq<u16>, i: int) -> int {
    delay_prefix_sum(d, i + 1)
}

/// The first frame whose end reaches `target`.
pub open spec fn first_frame_reaching(d: Seq<u16>, target: int) -> Option<int> {
    if exists|i: int| 0 <= i < d.len() && #[trigger] frame_end(d, i) >= target {
        Some(choose|i: int| 0 <= i < d.len() && #[trigger] frame_end(d, i) >= target
            && forall|j: int| 0 <= j < i ==> #[trigger] frame_end(d, j) < target)
    } else {
        None
    }
}

/// Which frame of an animation shows at a given time, and after how many
/// milliseconds the picture next changes. A still image (zero duration) shows
/// its first frame and never changes.
pub open spec fn frame_at_spec(d: Seq<u16>, duration: u16, second: u32, millis: u32) -> (Option<int>, Option<int>) {
    if duration == 0 {
        (if d.len() > 0 { Some(0) } else { None }, None)
    } else {
        let target = cycle_position(duration, second, millis);
        match first_frame_reaching(d, target) {
            Some(i) => (
                Some(i),
                Some(
                    if i + 1 < d.len() {
                        frame_end(d, i) + d[i + 1] - target
                    } else {
                        duration - target
                    },
                ),
            ),
            None => (None, Some(duration - target)),
        }
    }
}

/// Picks the frame of an animated emote to show at the current time.
pub fn frame_at(delays: &Vec<u16>, duration_msec: u16, second: u32, millis: u32) -> (r: (Option<usize>, Option<u16>))
    requires
        second < 60,
        millis < 2000,
        total_delay(delays@) <= u16::MAX,
    ensures
        ({
            let s = frame_at_spec(delays@, duration_msec, second, millis);
            &&& match r.0 {
                Some(i) => s.0 == Some(i as int),
                None => s.0.is_none(),
            }
            &&& match r.1 {
                Some(t) => s.1 == Some(t as int),
                None => s.1.is_none(),
            }
        }),
{
    if duration_msec == 0 {
        return (if delays.len() > 0 { Some(0) } else { None }, None);
    }
    let target: u16 = ((second * 1000 + millis) as u16) % duration_msec;
    let mut progress: u16 = 0;
    let mut i: usize = 0;
    while i < delays.len()
        invariant
            i <= delays@.len(),
            total_delay(delays@) <= u16::MAX,
            progress == delay_prefix_sum(delays@, i as int),
            target as int == cycle_position(duration_msec, second, millis),
            target < duration_msec,
            forall|j: int| 0 <= j < i ==> #[trigger] frame_end(delays@, j) < target,
        decreases delays@.len() - i,
    {
        proof {
            lemma_prefix_sum_monotone(delays@, i + 1, delays@.len() as int);
        }
        progress = progress + delays[i];
        if progress >= target {
            let ghost d = delays@;
            assert(first_frame_reaching(d, target as int) == Some(i as int)) by {
                assert(0 <= i < d.len() && frame_end(d, i as int) >= target);
                let c = choose|c: int| 0 <= c < d.len() && #[trigger] frame_end(d, c) >= target
                    && forall|j: int| 0 <= j < c ==> #[trigger] frame_end(d, j) < target;
                if c < i {
                    assert(frame_end(d, c) < target);
                } else if c > i {
                    assert(frame_end(d, i as int) < target);
                }
            }
            if i + 1 < delays.len() {
                proof {
                    lemma_prefix_sum_monotone(delays@, i + 2, delays@.len() as int);
                }
                let next = delays[i + 1];
                return (Some(i), Some(progress + next - target));
            } else {
                return (Some(i), Some(duration_msec - target));
            }
        }
        i += 1;
    }
    assert(first_frame_reaching(delays@, target as int).is_none());
    (None, Some(duration_msec - target))
}

/// The delay of a GIF frame in milliseconds: GIF delays are in hundredths of a
/// second, and a delay of 0 or 1 is shown as 100 ms.
pub open spec fn gif_frame_time_spec(delay: u16) -> int {
    if delay <= 1 { 100 } else { delay * 10 }
}

/// Converts a GIF frame delay to milliseconds.
pub fn gif_frame_time(delay: u16) -> (r: u16)
    requires
        delay <= 6553,
    ensures
        r == gif_frame_time_spec(delay),
{
    if delay <= 1 { 100 } else { delay * 10 }
}

/// The delay of a WebP frame: the time since the previous frame, with gaps of
/// 10 ms or less shown as 100 ms.
pub open spec fn webp_frame_time_spec(timestamp: i32, last: u16) -> int {
    let gap = (timestamp as u16) - last;
    if gap <= 10 { 100 } else { gap }
}

/// Works out a WebP frame's delay from its timestamp and the previous one's,
/// giving the delay and the timestamp to remember.
pub fn webp_frame_time(timestamp: i32, last_timestamp: u16) -> (r: (u16, u16))
    requires
        timestamp as u16 >= last_timestamp,
    ensures
        r.0 == webp_frame_time_spec(timestamp, last_timestamp),
        r.1 == timestamp as u16,
{
    let ts = timestamp as u16;
    let gap = ts - last_timestamp;
    (if gap <= 10 { 100 } else { gap }, ts)
}

/// Integer division rounding toward zero, as Rust's `/` on signed integers.
pub open spec fn trunc_div(a: int, b: int) -> int {
    let q = (if a >= 0 { a } else { -a }) / (if b >= 0 { b } else { -b });
    if (a >= 0) == (b >= 0) { q } else { -q }
}

/// Divides rounding toward zero.
fn trunc_div_isize(a: isize, b: isize) -> (r: isize)
    requires
        b != 0,
        !(a == isize::MIN && b == -1),
    ensures
        r == trunc_div(a as int, b as int),
{
    let aa: i128 = if a >= 0 { a as i128 } else { -(a as i128) };
    let bb: i128 = if b >= 0 { b as i128 } else { -(b as i128) };
    let q: i128 = aa / bb;
    assert(q <= aa) by (nonlinear_arith)
        requires q == aa / bb, aa >= 0, bb >= 1;
    assert(q >= 0) by (nonlinear_arith)
        requires q == aa / bb, aa >= 0, bb >= 1;
    assert(bb >= 2 ==> q <= aa / 2) by (nonlinear_arith)
        requires q == aa / bb, aa >= 0, bb >= 1;
    if (a >= 0) == (b >= 0) {
        assert(q <= isize::MAX);
        q as isize
    } else {
        (-q) as isize
    }
}

/// The width of one frame of a sprite sheet: the declared width when the sheet
/// is a whole number of such frames wide, else the sheet divided by the steps.
pub open spec fn sprite_frame_width(img_width: u32, data: CssAnimationData) -> int {
    if img_width % data.width == 0 {
        data.width as int
    } else {
        (img_width / (data.steps as u32)) as int
    }
}

/// The frames `(x, width, delay)` cut from a sprite sheet `img_width` wide: a
/// one-step animation is a single frame of the declared width lasting the whole
/// cycle; otherwise every whole frame across the sheet, each lasting the cycle
/// divided by the steps.
pub open spec fn sprite_frames_spec(img_width: u32, data: CssAnimationData) -> Seq<(u32, u32, u16)> {
    if data.steps == 1 {
        seq![(0u32, data.width, data.cycle_time_msec as u16)]
    } else {
        let fw = sprite_frame_width(img_width, data);
        let ft = trunc_div(data.cycle_time_msec as int, data.steps as int) as u16;
        Seq::new((img_width as int / fw) as nat, |k: int| ((k * fw) as u32, fw as u32, ft))
    }
}

/// The sprite-sheet parameters the frame cutting can work with: no division by
/// zero or overflow, and frames that make progress across the sheet.
pub open spec fn sprite_params_ok(img_width: u32, data: CssAnimationData) -> bool {
    data.steps == 1 || {
        &&& data.steps != 0
        &&& !(data.cycle_time_msec == isize::MIN && data.steps == -1)
        &&& data.width != 0
        &&& (img_width % data.width != 0 ==> (data.steps as u32) != 0)
        &&& sprite_frame_width(img_width, data) > 0
        &&& img_width + sprite_frame_width(img_width, data) <= u32::MAX
    }
}

/// Cuts a sprite-sheet animation into frames.
pub fn sprite_frames(img_width: u32, data: &CssAnimationData) -> (r: Vec<(u32, u32, u16)>)
    requires
        sprite_params_ok(img_width, *data),
    ensures
        r@ == sprite_frames_spec(img_width, *data),
{
    let mut frames: Vec<(u32, u32, u16)> = Vec::new();
    if data.steps == 1 {
        frames.push((0, data.width, data.cycle_time_msec as u16));
        return frames;
    }
    let q = trunc_div_isize(data.cycle_time_msec, data.steps);
    let frame_time = q as u16;
    let frame_width: u32 = if img_width % data.width == 0 {
        data.width
    } else {
        img_width / (data.steps as u32)
    };
    let ghost fw = frame_width as int;
    let ghost spec = sprite_frames_spec(img_width, *data);
    let mut x_start: u32 = 0;
    let mut k: u32 = 0;
    while x_start < img_width
        invariant
            fw == frame_width as int == sprite_frame_width(img_width, *data),
            fw > 0,
            img_width + fw <= u32::MAX,
            frame_time == trunc_div(data.cycle_time_msec as int, data.steps as int) as u16,
            k > 0 ==> x_start - fw < img_width,
            data.steps != 1,
            spec == sprite_frames_spec(img_width, *data),
            x_start == k * fw,
            x_start <= img_width + fw,
            k * fw <= img_width ==> frames@.len() == k,
            k * fw > img_width ==> frames@.len() == k - 1,
            frames@.len() <= img_width as int / fw,
            forall|m: int| 0 <= m < frames@.len() ==> #[trigger] frames@[m] == ((m * fw) as u32, frame_width, frame_time),
        decreases img_width as int + fw - x_start,
    {
        if x_start + frame_width <= img_width {
            proof {
                assert((k + 1) * fw <= img_width) by (nonlinear_arith)
                    requires x_start == k * fw, x_start + fw <= img_width;
                assert(k + 1 <= img_width as int / fw) by (nonlinear_arith)
                    requires (k + 1) * fw <= img_width, fw > 0;
            }
            frames.push((x_start, frame_width, frame_time));
        } else {
            proof {
                assert(k * fw + fw > img_width);
            }
        }
        x_start = x_start + frame_width;
        k = k + 1;
        proof {
            assert(x_start == k * fw) by (nonlinear_arith)
                requires x_start == (k - 1) * fw + fw;
        }
    }
    proof {
        let n = img_width as int / fw;
        assert(n * fw <= img_width < (n + 1) * fw) by (nonlinear_arith)
            requires n == img_width as int / fw, fw > 0;
        if k * fw <= img_width {
            assert(frames@.len() == k);
            assert(k * fw >= img_width);
            assert(k == n) by (nonlinear_arith)
                requires k * fw >= img_width, k * fw <= img_width, n * fw <= img_width < (n + 1) * fw, fw > 0;
        } else {
            assert((k - 1) * fw < img_width) by (nonlinear_arith)
                requires x_start == k * fw, x_start - fw < img_width, fw > 0;
            assert(k - 1 == n) by (nonlinear_arith)
                requires (k - 1) * fw < img_width, k * fw > img_width, n * fw <= img_width < (n + 1) * fw, fw > 0;
        }
        assert(frames@ =~= spec);
    }
    frames
}

} // verus!
