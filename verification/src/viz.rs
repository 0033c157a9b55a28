//! The spectrum analyzer's bar pipeline, in fixed point.
//!
//! Bar values live on an integer scale where [`BAR_SCALE`] stands for 1.0,
//! so they can sit in the word-sized cells of the lock-free shared buffer.
//! Magnitudes arrive from the transform already scaled to integers; this
//! module does the bin-range clamping, per-bar averaging, peak-follower
//! AGC, gain/clamp/curve normalization, temporal smoothing, and publishing.

use vstd::arithmetic::div_mod::{lemma_div_is_ordered, lemma_div_multiples_vanish};
use vstd::prelude::*;

verus! {

/// Fixed-point scale: this value stands for 1.0 in a bar cell.
pub const BAR_SCALE: u32 = 65536;

/// Upper bound on an incoming magnitude or bar value (inputs are averages
/// of `u32` magnitudes, so they stay below 2^32).
pub const MAG_LIMIT: u64 = 0x1_0000_0000;

/// The peak follower's floor: the smallest positive value on this scale.
pub const PEAK_FLOOR: u64 = 1;

/// One peak-follower update: seed on first nonzero observation, blend
/// toward a rising value with a 0.35 attack, decay by 0.995 otherwise,
/// floored at the smallest positive value.
pub open spec fn spec_peak_step(v_in: int, peak_in: int) -> int {
    let v = if v_in < 1 { 1int } else { v_in };
    let p = if peak_in == 0 { v } else { peak_in };
    if v > p {
        p + (v - p) * 35 / 100
    } else {
        let d = p * 995 / 1000;
        if d < 1 {
            1int
        } else {
            d
        }
    }
}

/// The integer square root, uniquely characterized by
/// `r * r <= n < (r + 1) * (r + 1)`.
pub closed spec fn spec_isqrt(n: int) -> int {
    choose|r: int| 0 <= r && #[trigger] (r * r) <= n < (r + 1) * (r + 1)
}

/// Every nonnegative integer has an integer square root.
pub proof fn lemma_isqrt_exists(n: int) -> (r: int)
    requires
        0 <= n,
    ensures
        0 <= r,
        r * r <= n,
        n < (r + 1) * (r + 1),
    decreases n,
{
    if n == 0 {
        0
    } else {
        let p = lemma_isqrt_exists(n - 1);
        if (p + 1) * (p + 1) <= n {
            assert(n < (p + 2) * (p + 2)) by (nonlinear_arith)
                requires
                    n - 1 < (p + 1) * (p + 1),
                    0 <= p,
            ;
            p + 1
        } else {
            p
        }
    }
}

/// `spec_isqrt` satisfies its defining property.
pub proof fn lemma_isqrt(n: int)
    requires
        0 <= n,
    ensures
        0 <= spec_isqrt(n),
        spec_isqrt(n) * spec_isqrt(n) <= n,
        n < (spec_isqrt(n) + 1) * (spec_isqrt(n) + 1),
{
    let w = lemma_isqrt_exists(n);
    assert(0 <= w && w * w <= n < (w + 1) * (w + 1));
}

/// The square-root property pins the value down.
pub proof fn lemma_isqrt_unique(n: int, r: int)
    requires
        0 <= r,
        r * r <= n,
        n < (r + 1) * (r + 1),
    ensures
        r == spec_isqrt(n),
{
    lemma_isqrt(n);
    let s = spec_isqrt(n);
    assert(r == s) by (nonlinear_arith)
        requires
            0 <= r,
            0 <= s,
            r * r <= n,
            n < (r + 1) * (r + 1),
            s * s <= n,
            n < (s + 1) * (s + 1),
    ;
}

/// The gain/clamp/curve normalization of one raw bar value `v` against its
/// peak `p`: normalize by the peak (plus one unit against division by
/// zero), apply the 1.25 sensitivity gain, clamp to 1.0, then apply the
/// 0.75 power-law curve, computed as sqrt(x * sqrt(x)) in fixed point.
pub open spec fn spec_bar_norm(v: int, p: int) -> int {
    let x0 = v * (BAR_SCALE as int) / (p + 1);
    let x1 = x0 * 5 / 4;
    let x2 = if x1 > BAR_SCALE as int {
        BAR_SCALE as int
    } else {
        x1
    };
    let a = spec_isqrt(x2 * (BAR_SCALE as int));
    let b = spec_isqrt(a * (BAR_SCALE as int));
    a * b / (BAR_SCALE as int)
}

/// One temporal-smoothing step: new = 0.8 * old + 0.2 * new.
pub open spec fn spec_smooth(s: int, x: int) -> int {
    (s * 4 + x) / 5
}

/// Integer square root by binary search.
pub fn isqrt64(n: u64) -> (r: u64)
    ensures
        r * r <= n,
        n < (r + 1) * (r + 1),
        r == spec_isqrt(n as int),
{
    let mut lo: u64 = 0;
    let mut hi: u64 = 0x1_0000_0000;
    proof {
        assert((0x1_0000_0000u64 as int) * (0x1_0000_0000u64 as int) > u64::MAX as int)
            by (nonlinear_arith);
    }
    while hi - lo > 1
        invariant
            lo < hi <= 0x1_0000_0000,
            lo * lo <= n,
            n < hi * hi,
        decreases hi - lo,
    {
        let mid: u64 = lo + (hi - lo) / 2;
        proof {
            assert(mid * mid <= 0xFFFF_FFFF_FFFF_FFFF) by (nonlinear_arith)
                requires
                    mid < 0x1_0000_0000,
            ;
        }
        if mid * mid <= n {
            lo = mid;
        } else {
            hi = mid;
        }
    }
    proof {
        lemma_isqrt_unique(n as int, lo as int);
    }
    lo
}

/// The peak follower never falls below its floor, and while the value is
/// rising the peak moves up toward it without overshooting:
/// `peak_in <= step <= v_in`.
pub proof fn lemma_peak_step(v_in: int, peak_in: int)
    requires
        0 <= v_in,
        0 <= peak_in,
    ensures
        spec_peak_step(v_in, peak_in) >= PEAK_FLOOR,
        v_in > peak_in >= PEAK_FLOOR ==> peak_in <= spec_peak_step(v_in, peak_in) <= v_in,
        spec_peak_step(v_in, peak_in) <= if v_in > peak_in {
            v_in
        } else {
            if peak_in < 1 {
                v_in + 1
            } else {
                peak_in
            }
        },
{
    let v = if v_in < 1 { 1int } else { v_in };
    let p = if peak_in == 0 { v } else { peak_in };
    if v > p {
        assert(p + (v - p) * 35 / 100 >= p) by {
            assert((v - p) * 35 >= 0);
        }
        assert(p + (v - p) * 35 / 100 <= v) by {
            lemma_div_is_ordered((v - p) * 35, (v - p) * 100, 100);
            lemma_div_multiples_vanish(v - p, 100);
        }
        assert(p >= 1);
    } else {
        let d = p * 995 / 1000;
        assert(d <= p) by {
            lemma_div_is_ordered(p * 995, p * 1000, 1000);
            lemma_div_multiples_vanish(p, 1000);
        }
    }
}

/// Normalized bar values always land in `[0, BAR_SCALE]` — that is, in
/// [0, 1] on the fixed-point scale — for any nonnegative input and peak.
pub proof fn lemma_bar_norm_in_range(v: int, p: int)
    requires
        0 <= v,
        0 <= p,
    ensures
        0 <= spec_bar_norm(v, p) <= BAR_SCALE,
{
    let s = BAR_SCALE as int;
    let x0 = v * s / (p + 1);
    assert(x0 >= 0) by {
        assert(v * s >= 0);
    }
    let x1 = x0 * 5 / 4;
    assert(x1 >= 0);
    let x2 = if x1 > s { s } else { x1 };
    assert(0 <= x2 <= s);
    assert(x2 * s <= s * s) by (nonlinear_arith)
        requires
            0 <= x2 <= s,
    ;
    let a = spec_isqrt(x2 * s);
    lemma_isqrt(x2 * s);
    assert(a <= s) by (nonlinear_arith)
        requires
            0 <= a,
            a * a <= x2 * s,
            x2 * s <= s * s,
            s > 0,
    ;
    let b = spec_isqrt(a * s);
    lemma_isqrt(a * s);
    assert(b <= s) by (nonlinear_arith)
        requires
            0 <= b,
            b * b <= a * s,
            a * s <= s * s,
            s > 0,
    ;
    assert(a * b <= s * s) by (nonlinear_arith)
        requires
            0 <= a <= s,
            0 <= b <= s,
    ;
    lemma_div_is_ordered(a * b, s * s, s);
    lemma_div_multiples_vanish(s, s);
    assert(a * b >= 0) by (nonlinear_arith)
        requires
            0 <= a,
            0 <= b,
    ;
}

/// One peak-follower update, in executable form.
pub fn peak_step(v_in: u64, peak_in: u64) -> (r: u64)
    requires
        v_in <= MAG_LIMIT,
        peak_in <= MAG_LIMIT,
    ensures
        r == spec_peak_step(v_in as int, peak_in as int),
        PEAK_FLOOR <= r <= MAG_LIMIT,
{
    proof {
        lemma_peak_step(v_in as int, peak_in as int);
    }
    let v: u64 = if v_in < 1 { 1 } else { v_in };
    let p: u64 = if peak_in == 0 { v } else { peak_in };
    if v > p {
        p + (v - p) * 35 / 100
    } else {
        let d: u64 = p * 995 / 1000;
        proof {
            lemma_div_is_ordered((p * 995) as int, (p * 1000) as int, 1000);
            lemma_div_multiples_vanish(p as int, 1000);
        }
        if d < 1 {
            1
        } else {
            d
        }
    }
}

/// The gain/clamp/curve normalization, in executable form.
pub fn bar_norm(v: u64, p: u64) -> (r: u32)
    requires
        v <= MAG_LIMIT,
        p <= MAG_LIMIT,
    ensures
        r == spec_bar_norm(v as int, p as int),
        r <= BAR_SCALE,
{
    proof {
        lemma_bar_norm_in_range(v as int, p as int);
    }
    let s: u64 = BAR_SCALE as u64;
    let x0: u64 = v * s / (p + 1);
    proof {
        lemma_div_is_ordered((v * s) as int, (MAG_LIMIT * s) as int, (p + 1) as int);
    }
    let x1: u64 = x0 * 5 / 4;
    let x2: u64 = if x1 > s { s } else { x1 };
    let a: u64 = isqrt64(x2 * s);
    proof {
        assert(a * a <= x2 * s <= s * s) by (nonlinear_arith)
            requires
                a * a <= x2 * s,
                0 <= x2 <= s,
        ;
        assert(a <= s) by (nonlinear_arith)
            requires
                0 <= a,
                a * a <= s * s,
                0 < s,
        ;
    }
    let b: u64 = isqrt64(a * s);
    proof {
        assert(b <= s) by (nonlinear_arith)
            requires
                0 <= b,
                b * b <= a * s,
                a <= s,
                0 < s,
        ;
        assert(a * b <= s * s) by (nonlinear_arith)
            requires
                0 <= a <= s,
                0 <= b <= s,
        ;
        lemma_div_is_ordered((a * b) as int, (s * s) as int, s as int);
        lemma_div_multiples_vanish(s as int, s as int);
    }
    (a * b / s) as u32
}

/// One temporal-smoothing step, in executable form.
pub fn smooth_step(s: u32, x: u32) -> (r: u32)
    requires
        s <= BAR_SCALE,
        x <= BAR_SCALE,
    ensures
        r == spec_smooth(s as int, x as int),
        r <= BAR_SCALE,
{
    (s * 4 + x) / 5
}

/// Clamp one bar's raw bin pair into a well-formed `[lo, hi)` range:
/// `lo` into `[0, n_bins - 1]` and `hi` into `[lo + 1, n_bins]`.
pub open spec fn spec_clamp_range(raw_lo: int, raw_hi: int, n_bins: int) -> (int, int) {
    let lo = if raw_lo > n_bins - 1 {
        n_bins - 1
    } else {
        raw_lo
    };
    let hi0 = if raw_hi < lo + 1 {
        lo + 1
    } else {
        raw_hi
    };
    let hi = if hi0 > n_bins {
        n_bins
    } else {
        hi0
    };
    (lo, hi)
}

/// Every clamped bin range is well formed: `0 <= lo < hi <= n_bins`,
/// whatever raw pair the log-frequency mapping produced.
pub proof fn lemma_clamp_range(raw_lo: int, raw_hi: int, n_bins: int)
    requires
        0 <= raw_lo,
        0 <= raw_hi,
        1 <= n_bins,
    ensures
        0 <= spec_clamp_range(raw_lo, raw_hi, n_bins).0,
        spec_clamp_range(raw_lo, raw_hi, n_bins).0 < spec_clamp_range(raw_lo, raw_hi, n_bins).1,
        spec_clamp_range(raw_lo, raw_hi, n_bins).1 <= n_bins,
{
}

/// Sum of the magnitudes in `[lo, hi)`.
pub open spec fn spec_mag_sum(mags: Seq<u32>, lo: int, hi: int) -> int
    decreases hi - lo,
{
    if lo >= hi {
        0
    } else {
        spec_mag_sum(mags, lo, hi - 1) + mags[hi - 1]
    }
}

/// The sum of `hi - lo` magnitudes is nonnegative and at most
/// `(hi - lo) * u32::MAX`.
pub proof fn lemma_mag_sum_bound(mags: Seq<u32>, lo: int, hi: int)
    requires
        lo <= hi,
    ensures
        0 <= spec_mag_sum(mags, lo, hi),
        spec_mag_sum(mags, lo, hi) <= (hi - lo) * (u32::MAX as int),
    decreases hi - lo,
{
    if lo < hi {
        lemma_mag_sum_bound(mags, lo, hi - 1);
        assert((hi - 1 - lo) * (u32::MAX as int) + (u32::MAX as int) == (hi - lo) * (
        u32::MAX as int)) by (nonlinear_arith);
    }
}

/// One bar's value: the average magnitude over its clamped bin range.
pub open spec fn spec_bar_avg(mags: Seq<u32>, raw_lo: int, raw_hi: int) -> int {
    let (lo, hi) = spec_clamp_range(raw_lo, raw_hi, mags.len() as int);
    spec_mag_sum(mags, lo, hi) / (hi - lo)
}

/// Map magnitude bins to bars: for each raw bin pair (as computed by the
/// log-frequency mapping), clamp it and average the magnitudes in range.
/// The output length always equals the number of requested bars.
pub fn bins_to_bars(mags: &Vec<u32>, raw: &Vec<(usize, usize)>) -> (bars: Vec<u64>)
    requires
        1 <= mags@.len() <= u32::MAX,
    ensures
        bars@.len() == raw@.len(),
        forall|i: int|
            0 <= i < raw@.len() ==> #[trigger] bars@[i] == spec_bar_avg(
                mags@,
                raw@[i].0 as int,
                raw@[i].1 as int,
            ),
        forall|i: int| 0 <= i < bars@.len() ==> #[trigger] bars@[i] <= u32::MAX,
{
    let n_bins: usize = mags.len();
    let mut bars: Vec<u64> = Vec::new();
    let mut i: usize = 0;
    while i < raw.len()
        invariant
            1 <= n_bins == mags@.len() <= u32::MAX,
            i <= raw@.len(),
            bars@.len() == i,
            forall|k: int|
                0 <= k < i ==> #[trigger] bars@[k] == spec_bar_avg(
                    mags@,
                    raw@[k].0 as int,
                    raw@[k].1 as int,
                ),
            forall|k: int| 0 <= k < i ==> #[trigger] bars@[k] <= u32::MAX,
        decreases raw@.len() - i,
    {
        let (raw_lo, raw_hi) = raw[i];
        let lo: usize = if raw_lo > n_bins - 1 {
            n_bins - 1
        } else {
            raw_lo
        };
        let hi0: usize = if raw_hi < lo + 1 {
            lo + 1
        } else {
            raw_hi
        };
        let hi: usize = if hi0 > n_bins {
            n_bins
        } else {
            hi0
        };
        proof {
            lemma_clamp_range(raw_lo as int, raw_hi as int, n_bins as int);
            assert((lo as int, hi as int) == spec_clamp_range(
                raw_lo as int,
                raw_hi as int,
                n_bins as int,
            ));
        }
        let mut sum: u64 = 0;
        let mut j: usize = lo;
        while j < hi
            invariant
                lo <= j <= hi <= mags@.len() <= u32::MAX,
                sum == spec_mag_sum(mags@, lo as int, j as int),
                sum <= (j - lo) * (u32::MAX as int),
            decreases hi - j,
        {
            proof {
                assert((j - lo) * (u32::MAX as int) + (u32::MAX as int) == (j + 1 - lo) * (
                u32::MAX as int)) by (nonlinear_arith);
                assert((j + 1 - lo) * (u32::MAX as int) <= (u32::MAX as int) * (u32::MAX as int))
                    by (nonlinear_arith)
                    requires
                        j + 1 - lo <= u32::MAX,
                ;
                assert((u32::MAX as int) * (u32::MAX as int) <= u64::MAX as int);
            }
            sum = sum + mags[j] as u64;
            j = j + 1;
        }
        let count: u64 = (hi - lo) as u64;
        let avg: u64 = sum / count;
        proof {
            lemma_mag_sum_bound(mags@, lo as int, hi as int);
            lemma_div_is_ordered(
                sum as int,
                (hi - lo) * (u32::MAX as int),
                (hi - lo) as int,
            );
            lemma_div_multiples_vanish(u32::MAX as int, (hi - lo) as int);
            assert((hi - lo) * (u32::MAX as int) == ((hi - lo) as int) * (u32::MAX as int));
        }
        bars.push(avg);
        i = i + 1;
    }
    bars
}

/// Floor a raw bar value at one fixed-point unit — the smallest positive
/// value on this scale — before normalizing.
pub open spec fn spec_floor1(v: int) -> int {
    if v < 1 {
        1int
    } else {
        v
    }
}

/// Spec-level image of a [`VizState`].
pub struct VizV {
    pub ring: Seq<i32>,
    pub bars_smooth: Seq<u32>,
    pub bar_peak: Seq<u64>,
    pub published: Seq<u32>,
}

/// The analyzer's working state for one connection: the downmixed mono
/// ring buffer, the smoothed and peak values per bar, and the model of
/// what was last published to the shared spectrum buffer.
#[derive(Debug)]
pub struct VizState {
    ring: Vec<i32>,
    bars_smooth: Vec<u32>,
    bar_peak: Vec<u64>,
    published: Vec<u32>,
}

impl View for VizState {
    type V = VizV;

    closed spec fn view(&self) -> VizV {
        VizV {
            ring: self.ring@,
            bars_smooth: self.bars_smooth@,
            bar_peak: self.bar_peak@,
            published: self.published@,
        }
    }
}

impl VizState {
    pub open spec fn wf(&self) -> bool {
        &&& self@.bars_smooth.len() == crate::N_BARS
        &&& self@.bar_peak.len() == crate::N_BARS
        &&& self@.published.len() == crate::N_BARS
        &&& forall|i: int|
            0 <= i < crate::N_BARS ==> #[trigger] self@.bars_smooth[i] <= BAR_SCALE
        &&& forall|i: int| 0 <= i < crate::N_BARS ==> #[trigger] self@.bar_peak[i] <= MAG_LIMIT
        &&& forall|i: int| 0 <= i < crate::N_BARS ==> #[trigger] self@.published[i] <= BAR_SCALE
    }

    /// All-zero state: empty ring, zero bars, zero peaks, zero published.
    pub open spec fn is_zeroed(&self) -> bool {
        &&& self@.ring.len() == 0
        &&& forall|i: int| 0 <= i < crate::N_BARS ==> #[trigger] self@.bars_smooth[i] == 0
        &&& forall|i: int| 0 <= i < crate::N_BARS ==> #[trigger] self@.bar_peak[i] == 0
        &&& forall|i: int| 0 <= i < crate::N_BARS ==> #[trigger] self@.published[i] == 0
    }

    pub fn new() -> (r: VizState)
        ensures
            r.wf(),
            r.is_zeroed(),
    {
        VizState {
            ring: Vec::new(),
            bars_smooth: vec![0u32; crate::N_BARS],
            bar_peak: vec![0u64; crate::N_BARS],
            published: vec![0u32; crate::N_BARS],
        }
    }

    /// The last published bar values (the runtime mirrors these into the
    /// shared atomic buffer after every step that may change them).
    pub fn published(&self) -> (r: &Vec<u32>)
        ensures
            r@ == self@.published,
    {
        &self.published
    }

    /// Reset on reconnect, decoder rebuild, or spec change: clear the ring
    /// and all smoothed/peak values, and zero the published bars.
    pub fn reset(&mut self)
        requires
            old(self).wf(),
        ensures
            final(self).wf(),
            final(self).is_zeroed(),
    {
        self.ring = Vec::new();
        self.bars_smooth = vec![0u32; crate::N_BARS];
        self.bar_peak = vec![0u64; crate::N_BARS];
        self.published = vec![0u32; crate::N_BARS];
    }

    /// Zero only the published bars (pause must not leave stale bars in
    /// the shared buffer, but keeps the analyzer's own state).
    pub fn clear_published(&mut self)
        requires
            old(self).wf(),
        ensures
            final(self).wf(),
            final(self)@.ring == old(self)@.ring,
            final(self)@.bars_smooth == old(self)@.bars_smooth,
            final(self)@.bar_peak == old(self)@.bar_peak,
            final(self)@.published.len() == crate::N_BARS,
            forall|i: int| 0 <= i < crate::N_BARS ==> #[trigger] final(self)@.published[i] == 0,
    {
        clear_spectrum(&mut self.published);
    }
}

/// Size of one transform window, in mono samples.
pub const FFT_SIZE: usize = 1024;

/// The ring buffer slides forward by this much after each transform
/// (50% overlap).
pub const HOP: usize = 512;

/// Sum of one frame's channel samples.
pub open spec fn spec_frame_sum(samples: Seq<i32>, ch: int, f: int, k: int) -> int
    decreases k,
{
    if k <= 0 {
        0
    } else {
        spec_frame_sum(samples, ch, f, k - 1) + samples[f * ch + (k - 1)]
    }
}

/// A frame's channel samples averaged into one mono sample (truncating
/// division, computed on values offset into nonnegative range).
pub open spec fn spec_mono(samples: Seq<i32>, ch: int, f: int) -> int {
    (spec_frame_sum(samples, ch, f, ch) + ch * 0x8000_0000) / ch - 0x8000_0000
}

/// A frame sum over `k` channel samples stays within the sum of `k`
/// extreme samples.
pub proof fn lemma_frame_sum_bound(samples: Seq<i32>, ch: int, f: int, k: int)
    requires
        0 <= k,
    ensures
        -(k * 0x8000_0000) <= spec_frame_sum(samples, ch, f, k) <= k * 0x7FFF_FFFF,
    decreases k,
{
    if k > 0 {
        lemma_frame_sum_bound(samples, ch, f, k - 1);
        assert((k - 1) * 0x8000_0000 + 0x8000_0000 == k * 0x8000_0000) by (nonlinear_arith);
        assert((k - 1) * 0x7FFF_FFFF + 0x7FFF_FFFF == k * 0x7FFF_FFFF) by (nonlinear_arith);
    }
}

impl VizState {
    /// Downmix a decoded interleaved buffer: every frame's channels are
    /// averaged into one mono sample appended to the ring buffer.
    pub fn downmix(&mut self, samples: &Vec<i32>, channels: u16)
        requires
            old(self).wf(),
            channels >= 1,
        ensures
            final(self).wf(),
            final(self)@.bars_smooth == old(self)@.bars_smooth,
            final(self)@.bar_peak == old(self)@.bar_peak,
            final(self)@.published == old(self)@.published,
            final(self)@.ring == old(self)@.ring + Seq::new(
                (samples@.len() as int / channels as int) as nat,
                |f: int| spec_mono(samples@, channels as int, f) as i32,
            ),
    {
        let ch: usize = channels as usize;
        let frames: usize = samples.len() / ch;
        proof {
            vstd::arithmetic::div_mod::lemma_fundamental_div_mod(
                samples@.len() as int,
                ch as int,
            );
            vstd::arithmetic::div_mod::lemma_mod_bound(samples@.len() as int, ch as int);
        }
        let mut f: usize = 0;
        while f < frames
            invariant
                old(self).wf(),
                self.wf(),
                channels >= 1,
                ch == channels as int,
                ch <= 0x10000,
                frames == samples@.len() as int / ch as int,
                frames * ch <= samples@.len(),
                samples@.len() <= usize::MAX,
                f <= frames,
                self@.bars_smooth == old(self)@.bars_smooth,
                self@.bar_peak == old(self)@.bar_peak,
                self@.published == old(self)@.published,
                self@.ring == old(self)@.ring + Seq::new(
                    f as nat,
                    |k: int| spec_mono(samples@, ch as int, k) as i32,
                ),
            decreases frames - f,
        {
            proof {
                assert((f + 1) * ch <= frames * ch) by (nonlinear_arith)
                    requires
                        f + 1 <= frames,
                        ch >= 1,
                ;
                assert(f * ch + ch == (f + 1) * ch) by (nonlinear_arith);
                assert(f * ch + ch <= samples@.len());
            }
            let base: usize = f * ch;
            let mut sum: i64 = 0;
            let mut c: usize = 0;
            while c < ch
                invariant
                    c <= ch,
                    ch == channels as int,
                    ch <= 0x10000,
                    base == f * ch,
                    base + ch <= samples@.len(),
                    samples@.len() <= usize::MAX,
                    sum == spec_frame_sum(samples@, ch as int, f as int, c as int),
                    -((c as int) * 0x8000_0000) <= sum <= (c as int) * 0x7FFF_FFFF,
                decreases ch - c,
            {
                proof {
                    assert((c as int) * 0x8000_0000 + 0x8000_0000 == (c as int + 1)
                        * 0x8000_0000) by (nonlinear_arith);
                    assert((c as int) * 0x7FFF_FFFF + 0x7FFF_FFFF == (c as int + 1)
                        * 0x7FFF_FFFF) by (nonlinear_arith);
                    assert((c as int + 1) * 0x8000_0000 <= 0x10000 * 0x8000_0000)
                        by (nonlinear_arith)
                        requires
                            c as int + 1 <= 0x10000,
                    ;
                    assert((c as int + 1) * 0x7FFF_FFFF <= 0x10000 * 0x7FFF_FFFF)
                        by (nonlinear_arith)
                        requires
                            c as int + 1 <= 0x10000,
                    ;
                }
                sum = sum + samples[base + c] as i64;
                c = c + 1;
            }
            proof {
                assert((ch as int) * 0x8000_0000 <= 0x10000 * 0x8000_0000) by (nonlinear_arith)
                    requires
                        ch as int <= 0x10000,
                ;
            }
            let shifted: i64 = sum + (ch as i64) * 0x8000_0000;
            proof {
                assert((ch as int) * 0x8000_0000 + (ch as int) * 0x7FFF_FFFF == (ch as int)
                    * 0xFFFF_FFFF) by (nonlinear_arith);
                lemma_div_is_ordered(shifted as int, (ch as int) * 0xFFFF_FFFF, ch as int);
                lemma_div_multiples_vanish(0xFFFF_FFFF, ch as int);
                assert((ch as int) * 0xFFFF_FFFF == 0xFFFF_FFFF * (ch as int));
                assert(shifted as int / (ch as int) >= 0) by (nonlinear_arith)
                    requires
                        shifted >= 0,
                        ch as int >= 1,
                ;
            }
            let q: i64 = shifted / (ch as i64);
            let m: i64 = q - 0x8000_0000;
            self.ring.push(m as i32);
            f = f + 1;
            proof {
                assert(self@.ring =~= old(self)@.ring + Seq::new(
                    f as nat,
                    |k: int| spec_mono(samples@, ch as int, k) as i32,
                ));
            }
        }
    }

    /// When at least one full window is buffered, hand out the oldest
    /// `FFT_SIZE` mono samples for the transform.
    pub fn ring_block(&self) -> (r: Option<Vec<i32>>)
        ensures
            self@.ring.len() >= FFT_SIZE ==> (r matches Some(b) && b@ == self@.ring.subrange(
                0,
                FFT_SIZE as int,
            )),
            self@.ring.len() < FFT_SIZE ==> r is None,
    {
        if self.ring.len() < FFT_SIZE {
            return None;
        }
        let mut b: Vec<i32> = Vec::new();
        let mut i: usize = 0;
        while i < FFT_SIZE
            invariant
                i <= FFT_SIZE <= self@.ring.len(),
                b@ == self@.ring.subrange(0, i as int),
            decreases FFT_SIZE - i,
        {
            b.push(self.ring[i]);
            i = i + 1;
            proof {
                assert(b@ =~= self@.ring.subrange(0, i as int));
            }
        }
        Some(b)
    }

    /// Slide the ring buffer forward by one hop after a transform.
    pub fn advance_ring(&mut self)
        requires
            old(self).wf(),
        ensures
            final(self).wf(),
            final(self)@.bars_smooth == old(self)@.bars_smooth,
            final(self)@.bar_peak == old(self)@.bar_peak,
            final(self)@.published == old(self)@.published,
            final(self)@.ring == old(self)@.ring.subrange(
                if old(self)@.ring.len() < HOP {
                    old(self)@.ring.len() as int
                } else {
                    HOP as int
                },
                old(self)@.ring.len() as int,
            ),
    {
        let n: usize = self.ring.len();
        let hop: usize = if n < HOP {
            n
        } else {
            HOP
        };
        let mut rest: Vec<i32> = Vec::new();
        let mut i: usize = hop;
        while i < n
            invariant
                hop <= i <= n == self@.ring.len(),
                rest@ == self@.ring.subrange(hop as int, i as int),
            decreases n - i,
        {
            rest.push(self.ring[i]);
            i = i + 1;
            proof {
                assert(rest@ =~= self@.ring.subrange(hop as int, i as int));
            }
        }
        self.ring = rest;
    }

    /// Run one frame of bar values through the peak follower, the
    /// gain/clamp/curve normalization, and the temporal smoothing, then
    /// publish: the smoothed bars when `enabled`, all zeros otherwise.
    pub fn apply_bars(&mut self, bars: &Vec<u64>, enabled: bool)
        requires
            old(self).wf(),
            bars@.len() == crate::N_BARS,
            forall|i: int| 0 <= i < bars@.len() ==> #[trigger] bars@[i] <= u32::MAX,
        ensures
            final(self).wf(),
            final(self)@.ring == old(self)@.ring,
            forall|i: int|
                0 <= i < crate::N_BARS ==> #[trigger] final(self)@.bar_peak[i]
                    == spec_peak_step(bars@[i] as int, old(self)@.bar_peak[i] as int),
            forall|i: int|
                0 <= i < crate::N_BARS ==> #[trigger] final(self)@.bars_smooth[i]
                    == spec_smooth(
                    old(self)@.bars_smooth[i] as int,
                    spec_bar_norm(
                        spec_floor1(bars@[i] as int),
                        spec_peak_step(bars@[i] as int, old(self)@.bar_peak[i] as int),
                    ),
                ),
            forall|i: int|
                0 <= i < crate::N_BARS ==> #[trigger] final(self)@.published[i] == (
                if enabled {
                    final(self)@.bars_smooth[i]
                } else {
                    0u32
                }),
    {
        let mut i: usize = 0;
        while i < crate::N_BARS
            invariant
                old(self).wf(),
                self.wf(),
                bars@.len() == crate::N_BARS,
                forall|k: int| 0 <= k < bars@.len() ==> #[trigger] bars@[k] <= u32::MAX,
                i <= crate::N_BARS,
                self@.ring == old(self)@.ring,
                forall|k: int|
                    i <= k < crate::N_BARS ==> #[trigger] self@.bar_peak[k] == old(
                        self,
                    )@.bar_peak[k],
                forall|k: int|
                    i <= k < crate::N_BARS ==> #[trigger] self@.bars_smooth[k] == old(
                        self,
                    )@.bars_smooth[k],
                forall|k: int|
                    0 <= k < i ==> #[trigger] self@.bar_peak[k] == spec_peak_step(
                        bars@[k] as int,
                        old(self)@.bar_peak[k] as int,
                    ),
                forall|k: int|
                    0 <= k < i ==> #[trigger] self@.bars_smooth[k] == spec_smooth(
                        old(self)@.bars_smooth[k] as int,
                        spec_bar_norm(
                            spec_floor1(bars@[k] as int),
                            spec_peak_step(bars@[k] as int, old(self)@.bar_peak[k] as int),
                        ),
                    ),
                forall|k: int|
                    0 <= k < i ==> #[trigger] self@.published[k] == (
                    if enabled {
                        self@.bars_smooth[k]
                    } else {
                        0u32
                    }),
            decreases crate::N_BARS - i,
        {
            let v: u64 = bars[i];
            let vf: u64 = if v < 1 {
                1
            } else {
                v
            };
            let p: u64 = peak_step(v, self.bar_peak[i]);
            let x: u32 = bar_norm(vf, p);
            let s: u32 = smooth_step(self.bars_smooth[i], x);
            self.bar_peak.set(i, p);
            self.bars_smooth.set(i, s);
            self.published.set(
                i,
                if enabled {
                    s
                } else {
                    0
                },
            );
            i = i + 1;
        }
    }
}

/// The peak value after folding a whole sequence of observations through
/// the follower.
pub open spec fn spec_peak_fold(vs: Seq<int>, p0: int) -> int
    decreases vs.len(),
{
    if vs.len() == 0 {
        p0
    } else {
        spec_peak_step(vs.last(), spec_peak_fold(vs.drop_last(), p0))
    }
}

/// After any sequence of nonnegative observations, the peak follower is
/// nonnegative, and once it has seen at least one value it never falls
/// below its floor. While the most recent value is rising past the held
/// peak, the peak moves up toward that value without overshooting it.
pub proof fn lemma_peak_fold_floor(vs: Seq<int>, p0: int)
    requires
        0 <= p0,
        forall|k: int| 0 <= k < vs.len() ==> 0 <= #[trigger] vs[k],
    ensures
        0 <= spec_peak_fold(vs, p0),
        vs.len() >= 1 ==> spec_peak_fold(vs, p0) >= PEAK_FLOOR,
        vs.len() >= 1 && vs.last() > spec_peak_fold(vs.drop_last(), p0) >= PEAK_FLOOR
            ==> spec_peak_fold(vs.drop_last(), p0) <= spec_peak_fold(vs, p0) <= vs.last(),
    decreases vs.len(),
{
    if vs.len() > 0 {
        lemma_peak_fold_floor(vs.drop_last(), p0);
        lemma_peak_step(vs.last(), spec_peak_fold(vs.drop_last(), p0));
    }
}

/// Zero every cell of a spectrum buffer.
pub fn clear_spectrum(buf: &mut Vec<u32>)
    ensures
        final(buf)@.len() == old(buf)@.len(),
        forall|i: int| 0 <= i < final(buf)@.len() ==> #[trigger] final(buf)@[i] == 0,
{
    let n: usize = buf.len();
    let mut i: usize = 0;
    while i < n
        invariant
            i <= n == buf@.len(),
            forall|k: int| 0 <= k < i ==> #[trigger] buf@[k] == 0,
        decreases n - i,
    {
        buf.set(i, 0);
        i = i + 1;
    }
}

} // verus!
