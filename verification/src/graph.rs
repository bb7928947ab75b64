//! Bar-graph interpolation: maps an arbitrary-length magnitude sequence
//! onto a fixed number of display bars by linear interpolation at the
//! fractional index `(bar / bars) * len`, clamping indices outside the
//! sequence to its ends.

use vstd::prelude::*;

verus! {

/// `|v|`, widened so `i32::MIN` has a representable magnitude.
pub open spec fn abs64(v: i32) -> i64 {
    if v < 0 {
        (-(v as int)) as i64
    } else {
        v as i64
    }
}

/// The magnitudes of `s`.
pub open spec fn abs_seq(s: Seq<i32>) -> Seq<i64> {
    s.map(|i: int, v: i32| abs64(v))
}

/// Linear interpolation of `s` at the rational index `num / den`: the two
/// neighboring integer indices are mixed by the fractional remainder, the
/// result floored. Indices past the end clamp to the last sample, below
/// zero to the first; an empty sequence yields 0.
pub open spec fn interp_spec(s: Seq<i64>, num: int, den: int) -> int
    recommends
        den >= 1,
{
    if s.len() == 0 {
        0
    } else if num > (s.len() - 1) * den {
        s[s.len() - 1] as int
    } else if num < 0 {
        s[0] as int
    } else {
        let flo = num / den;
        let rem = num % den;
        let cei = if rem == 0 {
            flo
        } else {
            flo + 1
        };
        (s[cei] * rem + s[flo] * (den - rem)) / den
    }
}

/// Interpolates the magnitude sequence at the rational index `num / den`,
/// exactly as `interp_spec` states.
pub fn interpolate_vec(v: &Vec<i64>, num: i64, den: i64) -> (r: i64)
    requires
        1 <= den <= 0x10_0000,
        -0x10_0000_0000_0000 <= num <= 0x10_0000_0000_0000,
        v@.len() <= 0x7fff_ffff,
        forall|j: int| 0 <= j < v@.len() ==> 0 <= #[trigger] v@[j] <= 0xffff_ffff,
    ensures
        r == interp_spec(v@, num as int, den as int),
{
    let vec_len: usize = v.len();
    if vec_len == 0 {
        return 0;
    }
    let last: i64 = (vec_len - 1) as i64;
    proof {
        assert(last * den <= 0x7fff_ffff * 0x10_0000int) by (nonlinear_arith)
            requires
                0 <= last <= 0x7fff_ffff,
                0 <= den <= 0x10_0000,
        ;
    }
    if num > last * den {
        return v[vec_len - 1];
    }
    if num < 0 {
        return v[0];
    }
    let flo: i64 = num / den;
    let rem: i64 = num % den;
    proof {
        vstd::arithmetic::div_mod::lemma_fundamental_div_mod(num as int, den as int);
        vstd::arithmetic::div_mod::lemma_mod_bound(num as int, den as int);
        // flo <= last, and when the remainder is positive flo < last, so
        // both neighboring indices are in range.
        assert(flo <= last && (rem > 0 ==> flo + 1 <= last)) by (nonlinear_arith)
            requires
                num == den * flo + rem,
                0 <= rem < den,
                0 <= num <= last * den,
                den >= 1,
        ;
        assert(flo >= 0) by (nonlinear_arith)
            requires
                num == den * flo + rem,
                0 <= rem < den,
                num >= 0,
                den >= 1,
        ;
    }
    let cei: i64 = if rem == 0 {
        flo
    } else {
        flo + 1
    };
    let a: i64 = v[cei as usize];
    let b: i64 = v[flo as usize];
    proof {
        assert(0 <= a * rem <= 0xffff_ffffi64 * 0x10_0000 && 0 <= b * (den - rem)
            <= 0xffff_ffffi64 * 0x10_0000) by (nonlinear_arith)
            requires
                0 <= a <= 0xffff_ffff,
                0 <= b <= 0xffff_ffff,
                0 <= rem < den <= 0x10_0000,
        ;
    }
    (a * rem + b * (den - rem)) / den
}

/// One display bar: a rectangle anchor, width, and interpolated height.
pub struct GraphBar {
    pub x: i32,
    pub y: i32,
    pub w: i32,
    pub h: i64,
}

/// The geometry of a bar graph for `points` between `left_point` and
/// `right_point`: `bars` rectangles of equal width (gap included), bar `i`
/// as high as the magnitude sequence interpolated at `(i / bars) * len`.
pub fn graph_bars(points: &Vec<i32>, y: i32, left_point: i32, right_point: i32, bars: i32, gap: i32) -> (out: Vec<GraphBar>)
    requires
        1 <= bars <= 0x10_0000,
        0 <= gap <= 0x10000,
        -0x2000_0000 <= left_point <= right_point <= 0x2000_0000,
        points@.len() <= 0x7fff_ffff,
    ensures
        out@.len() == bars,
        forall|i: int|
            0 <= i < bars ==> {
                let bar_width = (right_point - left_point + gap) / (bars as int);
                &&& (#[trigger] out@[i]).x == left_point + bar_width * i
                &&& out@[i].y == y
                &&& out@[i].w == bar_width - gap
                &&& out@[i].h == interp_spec(abs_seq(points@), i * points@.len(), bars as int)
            },
{
    let mut as_abs: Vec<i64> = Vec::new();
    let mut k: usize = 0;
    while k < points.len()
        invariant
            0 <= k <= points@.len(),
            as_abs@.len() == k,
            forall|j: int| 0 <= j < k ==> #[trigger] as_abs@[j] == abs64(points@[j]),
        decreases points@.len() - k,
    {
        let p: i32 = points[k];
        let m: i64 = if p < 0 {
            -(p as i64)
        } else {
            p as i64
        };
        as_abs.push(m);
        k = k + 1;
    }
    proof {
        assert(as_abs@ =~= abs_seq(points@));
    }
    let width: i32 = right_point - left_point + gap;
    let bar_width: i32 = width / bars;
    proof {
        vstd::arithmetic::div_mod::lemma_fundamental_div_mod(width as int, bars as int);
        vstd::arithmetic::div_mod::lemma_mod_bound(width as int, bars as int);
        assert(bars as int * (width as int / bars as int) <= width);
        assert(bar_width * bars <= width) by (nonlinear_arith)
            requires
                bars as int * (bar_width as int) <= width,
        ;
    }
    let len_i64: i64 = as_abs.len() as i64;
    let mut out: Vec<GraphBar> = Vec::new();
    let mut i: i32 = 0;
    while i < bars
        invariant
            0 <= i <= bars,
            1 <= bars <= 0x10_0000,
            0 <= gap <= 0x10000,
            -0x2000_0000 <= left_point <= right_point <= 0x2000_0000,
            width == right_point - left_point + gap,
            bar_width == width as int / bars as int,
            0 <= bar_width,
            bar_width * bars <= width,
            as_abs@ == abs_seq(points@),
            as_abs@.len() == points@.len() <= 0x7fff_ffff,
            0 <= len_i64 == points@.len(),
            forall|j: int| 0 <= j < as_abs@.len() ==> 0 <= #[trigger] as_abs@[j] <= 0xffff_ffff,
            out@.len() == i,
            forall|j: int|
                0 <= j < i ==> {
                    &&& (#[trigger] out@[j]).x == left_point + bar_width * j
                    &&& out@[j].y == y
                    &&& out@[j].w == bar_width - gap
                    &&& out@[j].h == interp_spec(abs_seq(points@), j * points@.len(), bars as int)
                },
        decreases bars - i,
    {
        proof {
            assert(0 <= bar_width * i && bar_width * i <= bar_width * bars && bar_width * bars
                <= width) by (nonlinear_arith)
                requires
                    0 <= bar_width,
                    0 <= i < bars,
                    bar_width * bars <= width,
            ;
            assert(0 <= i as int * points@.len() <= 0x10_0000int * 0x7fff_ffff)
                by (nonlinear_arith)
                requires
                    0 <= i < bars <= 0x10_0000,
                    0 <= points@.len() <= 0x7fff_ffff,
            ;
        }
        let x: i32 = left_point + bar_width * i;
        let h: i64 = interpolate_vec(&as_abs, (i as i64) * len_i64, bars as i64);
        out.push(GraphBar { x, y, w: bar_width - gap, h });
        i = i + 1;
    }
    out
}

} // verus!
