//! Signal buffer: a downmixed sample sequence with a sample rate, time to
//! index conversion, and clamped windowing. Windowing clamps out-of-range
//! bounds to the sample range (the clamping policy, chosen for behavioral
//! parity with the visualizer; it does not zero-pad).

use vstd::prelude::*;

verus! {

/// Clamps a signed index up to zero.
pub open spec fn relu(v: int) -> int {
    if v < 0 {
        0
    } else {
        v
    }
}

/// The clamped window `[begin, end)` of `s`: both bounds are clamped to
/// `[0, s.len()]`, and a begin at or past the end yields the empty sequence.
pub open spec fn window_spec(s: Seq<i32>, begin: int, end: int) -> Seq<i32> {
    let b = if relu(begin) < s.len() {
        relu(begin)
    } else {
        s.len() as int
    };
    let e = if relu(end) < s.len() {
        relu(end)
    } else {
        s.len() as int
    };
    if b < e {
        s.subrange(b, e)
    } else {
        Seq::empty()
    }
}

/// `max(v, 0)`, then reinterpreted as an index.
pub fn i32_to_usize_re_lu(v: i32) -> (r: usize)
    ensures
        r == relu(v as int),
{
    if v < 0 {
        0
    } else {
        v as usize
    }
}

/// Truncating division: rounds toward zero, as the downmix mean does.
pub open spec fn div_trunc(a: int, b: int) -> int
    recommends
        b > 0,
{
    if a >= 0 {
        a / b
    } else {
        -((-a) / b)
    }
}

/// The sum of `s[lo..hi]`.
pub open spec fn sum_range(s: Seq<i32>, lo: int, hi: int) -> int
    decreases hi - lo,
{
    if lo >= hi {
        0
    } else {
        sum_range(s, lo, hi - 1) + s[hi - 1]
    }
}

/// The mean (truncated toward zero) of chunk `k` of `s` when `s` is split
/// into chunks of `channels` samples, the last chunk possibly short.
pub open spec fn chunk_mean(s: Seq<i32>, channels: int, k: int) -> int {
    let lo = k * channels;
    let hi = if lo + channels < s.len() {
        lo + channels
    } else {
        s.len() as int
    };
    div_trunc(sum_range(s, lo, hi), channels)
}

/// A read-only downmixed signal plus its sample rate (`bitrate`, samples per
/// second of source time).
pub struct WavAudio {
    pub samples: Vec<i32>,
    pub bitrate: u32,
}

impl WavAudio {
    /// The sample rate is positive.
    pub open spec fn wf(&self) -> bool {
        self.bitrate > 0
    }

    pub fn new(samples: Vec<i32>, bitrate: u32) -> (r: WavAudio)
        requires
            bitrate > 0,
        ensures
            r.samples == samples,
            r.bitrate == bitrate,
            r.wf(),
    {
        WavAudio { samples, bitrate }
    }

    /// `floor(seconds * rate)` with the time given in milliseconds, so the
    /// conversion is exact integer arithmetic: `floor(ms * rate / 1000)`.
    pub fn get_index_from_millis(&self, ms: i64) -> (r: i64)
        requires
            -0x1_0000_0000 <= ms <= 0x1_0000_0000,
            self.bitrate <= 0x1000_0000,
        ensures
            r == (ms * self.bitrate as int) / 1000,
    {
        proof {
            assert(-0x1_0000_0000int * 0x1000_0000 <= ms * self.bitrate as int <= 0x1_0000_0000int
                * 0x1000_0000) by (nonlinear_arith)
                requires
                    -0x1_0000_0000 <= ms <= 0x1_0000_0000,
                    0 <= self.bitrate <= 0x1000_0000,
            ;
        }
        let prod: i64 = ms * self.bitrate as i64;
        if prod >= 0 {
            prod / 1000
        } else {
            // floor for a negative dividend: -ceil(-prod / 1000)
            let m: i64 = -prod;
            let q: i64 = (m + 999) / 1000;
            proof {
                // q == ceil(m / 1000), so -q == floor(-m / 1000).
                vstd::arithmetic::div_mod::lemma_fundamental_div_mod(m as int, 1000);
                vstd::arithmetic::div_mod::lemma_fundamental_div_mod(m as int + 999, 1000);
                vstd::arithmetic::div_mod::lemma_fundamental_div_mod(-m as int, 1000);
                vstd::arithmetic::div_mod::lemma_mod_bound(m as int, 1000);
                vstd::arithmetic::div_mod::lemma_mod_bound(m as int + 999, 1000);
                vstd::arithmetic::div_mod::lemma_mod_bound(-m as int, 1000);
            }
            -q
        }
    }

    /// The clamped sample window `[b, e)`: negative bounds clamp to 0, both
    /// clamp to the length, and a begin at or past the end gives an empty
    /// slice rather than an error.
    pub fn get_slice(&self, b: i32, e: i32) -> (r: &[i32])
        ensures
            r@ == window_spec(self.samples@, b as int, e as int),
    {
        let b2: usize = i32_to_usize_re_lu(b);
        let e2: usize = i32_to_usize_re_lu(e);
        let max_size: usize = self.samples.len();
        let lo: usize = if b2 < max_size {
            b2
        } else {
            max_size
        };
        let hi: usize = if e2 < max_size {
            e2
        } else {
            max_size
        };
        if lo < hi {
            vstd::slice::slice_subrange(self.samples.as_slice(), lo, hi)
        } else {
            let empty: &[i32] = vstd::slice::slice_subrange(self.samples.as_slice(), 0, 0);
            proof {
                assert(window_spec(self.samples@, b as int, e as int) =~= Seq::<i32>::empty());
            }
            empty
        }
    }

    /// The window of `look_back` samples ending at `point`.
    pub fn get_slice_back(&self, point: i32, look_back: i32) -> (r: &[i32])
        requires
            -0x3fff_ffff <= point <= 0x3fff_ffff,
            -0x3fff_ffff <= look_back <= 0x3fff_ffff,
        ensures
            r@ == window_spec(self.samples@, point - look_back, point as int),
    {
        self.get_slice(point - look_back, point)
    }

    /// The window of the last `look_back_ms` milliseconds before `point_ms`,
    /// both converted with `get_index_from_millis`.
    pub fn get_slice_back_millis(&self, point_ms: i64, look_back_ms: i64) -> (r: &[i32])
        requires
            -5_000_000 <= point_ms <= 5_000_000,
            -5_000_000 <= look_back_ms <= 5_000_000,
            self.bitrate <= 200_000,
        ensures
            r@ == window_spec(
                self.samples@,
                (point_ms * self.bitrate as int) / 1000 - (look_back_ms * self.bitrate as int)
                    / 1000,
                (point_ms * self.bitrate as int) / 1000,
            ),
    {
        let point: i64 = self.get_index_from_millis(point_ms);
        let look_back: i64 = self.get_index_from_millis(look_back_ms);
        proof {
            assert(-5_000_000int * 200_000 <= point_ms * self.bitrate as int <= 5_000_000int
                * 200_000) by (nonlinear_arith)
                requires
                    -5_000_000 <= point_ms <= 5_000_000,
                    0 <= self.bitrate <= 200_000,
            ;
            assert(-5_000_000int * 200_000 <= look_back_ms * self.bitrate as int <= 5_000_000int
                * 200_000) by (nonlinear_arith)
                requires
                    -5_000_000 <= look_back_ms <= 5_000_000,
                    0 <= self.bitrate <= 200_000,
            ;
            vstd::arithmetic::div_mod::lemma_div_is_ordered(
                point_ms * self.bitrate as int,
                5_000_000int * 200_000,
                1000,
            );
            vstd::arithmetic::div_mod::lemma_div_is_ordered(
                -5_000_000int * 200_000,
                point_ms * self.bitrate as int,
                1000,
            );
            vstd::arithmetic::div_mod::lemma_div_is_ordered(
                look_back_ms * self.bitrate as int,
                5_000_000int * 200_000,
                1000,
            );
            vstd::arithmetic::div_mod::lemma_div_is_ordered(
                -5_000_000int * 200_000,
                look_back_ms * self.bitrate as int,
                1000,
            );
        }
        self.get_slice_back(point as i32, look_back as i32)
    }
}

/// Averages interleaved per-channel sample frames into one sample per frame
/// (arithmetic mean across channels, truncated toward zero as integer
/// division does). A trailing partial frame is averaged over the full
/// channel count, matching the chunked mean.
pub fn downmix(interleaved: &Vec<i32>, channels: usize) -> (out: Vec<i32>)
    requires
        1 <= channels <= 0x7fff_ffff,
    ensures
        out@.len() == (interleaved@.len() + channels - 1) / (channels as int),
        forall|k: int|
            0 <= k < out@.len() ==> out@[k] == chunk_mean(interleaved@, channels as int, k),
{
    let mut out: Vec<i32> = Vec::new();
    let len: usize = interleaved.len();
    let mut pos: usize = 0;
    let ghost total: int = (interleaved@.len() + channels - 1) / (channels as int);
    while pos < len
        invariant
            0 <= pos <= len,
            len == interleaved@.len(),
            1 <= channels <= 0x7fff_ffff,
            (out@.len() == 0 && pos == 0) || ((out@.len() - 1) * channels < pos && pos
                <= out@.len() * channels && (pos == out@.len() * channels || pos == len)),
            out@.len() <= len,
            forall|k: int|
                0 <= k < out@.len() ==> out@[k] == chunk_mean(interleaved@, channels as int, k),
        decreases len - pos,
    {
        let hi: usize = if len - pos < channels {
            len
        } else {
            pos + channels
        };
        let mut sum: i64 = 0;
        let mut j: usize = pos;
        while j < hi
            invariant
                pos <= j <= hi <= len,
                len == interleaved@.len(),
                1 <= channels <= 0x7fff_ffff,
                hi - pos <= channels,
                sum == sum_range(interleaved@, pos as int, j as int),
                -0x8000_0000 * (j - pos) <= sum <= 0x7fff_ffff * (j - pos),
            decreases hi - j,
        {
            sum = sum + interleaved[j] as i64;
            j = j + 1;
        }
        let mean: i64 = if sum >= 0 {
            sum / channels as i64
        } else {
            -((-sum) / channels as i64)
        };
        proof {
            let ch = channels as int;
            if sum >= 0 {
                vstd::arithmetic::div_mod::lemma_div_is_ordered(sum as int, 0x7fff_ffff * ch, ch);
                assert(0x7fff_ffff * ch == ch * 0x7fff_ffff);
                vstd::arithmetic::div_mod::lemma_div_multiples_vanish(0x7fff_ffff, ch);
                assert(sum <= 0x7fff_ffff * ch) by (nonlinear_arith)
                    requires
                        sum <= 0x7fff_ffff * (hi - pos),
                        hi - pos <= ch,
                        0 < ch,
                ;
            } else {
                vstd::arithmetic::div_mod::lemma_div_is_ordered(-sum as int, 0x8000_0000 * ch, ch);
                assert(0x8000_0000 * ch == ch * 0x8000_0000);
                vstd::arithmetic::div_mod::lemma_div_multiples_vanish(0x8000_0000, ch);
                assert(-sum <= 0x8000_0000 * ch) by (nonlinear_arith)
                    requires
                        sum >= -0x8000_0000 * (hi - pos),
                        hi - pos <= ch,
                        0 < ch,
                ;
            }
        }
        let mean32: i32 = mean as i32;
        proof {
            let k = out@.len() as int;
            assert(k * channels == pos);
            assert(chunk_mean(interleaved@, channels as int, k) == mean as int);
        }
        out.push(mean32);
        pos = hi;
        proof {
            assert(out@.len() * channels == (out@.len() - 1) * channels + channels)
                by (nonlinear_arith);
            assert((out@.len() - 1) * channels >= out@.len() - 1) by (nonlinear_arith)
                requires
                    channels >= 1,
                    out@.len() >= 1,
            ;
        }
    }
    proof {
        let ch = channels as int;
        let n = out@.len() as int;
        let l = interleaved@.len() as int;
        // pos == len and pos lies in ((n - 1) * ch, n * ch], so n is the
        // chunk count ceil(l / ch).
        assert(n * ch >= l);
        if n > 0 {
            assert((n - 1) * ch == n * ch - ch) by (nonlinear_arith);
        }
        vstd::arithmetic::div_mod::lemma_fundamental_div_mod(l + ch - 1, ch);
        vstd::arithmetic::div_mod::lemma_mod_bound(l + ch - 1, ch);
        let d = (l + ch - 1) / ch;
        let rr = (l + ch - 1) % ch;
        assert(d == n) by (nonlinear_arith)
            requires
                ch * d + rr == l + ch - 1,
                0 <= rr < ch,
                n * ch >= l,
                n == 0 || (n - 1) * ch < l,
                n >= 0,
                l >= 0,
                ch >= 1,
        ;
    }
    out
}

} // verus!
