//! Anchored multi-line text layout: given per-line measured extents, the
//! engine computes the paragraph bounding box and a draw origin for every
//! line, honoring a paragraph-alignment fraction, two anchor fractions and
//! a line-spacing multiplier. All fractions are in hundredths (0 left/top,
//! 50 center, 100 right/bottom); measuring text is the caller's capability.

use vstd::prelude::*;

verus! {

/// Layout parameters. `spacing` is the extra advance per glyph and per
/// line; the fractions are hundredths.
pub struct TextConfig {
    pub spacing: i32,
    /// How each line is placed with respect to the widest line.
    pub paragraph_align: i32,
    /// 0 when the position is the left edge of the box, 100 the right.
    pub anchor_x: i32,
    /// 0 when the position is the top edge of the box, 100 the bottom.
    pub anchor_y: i32,
    /// Vertical advance per line, in hundredths of the line height.
    pub line_spacing: i32,
}

/// One line's measured extent and its character count (the count feeds the
/// trailing-glyph-spacing compensation in the bounding-box width).
pub struct LineMeasure {
    pub width: i32,
    pub height: i32,
    pub chars: i32,
}

/// `m` is the first index of maximal width: no line is wider, and every
/// earlier line is strictly narrower.
pub open spec fn is_first_max(ms: Seq<LineMeasure>, m: int) -> bool {
    &&& 0 <= m < ms.len()
    &&& forall|j: int| 0 <= j < ms.len() ==> (#[trigger] ms[j]).width <= ms[m].width
    &&& forall|j: int| 0 <= j < m ==> (#[trigger] ms[j]).width < ms[m].width
}

/// The sum of the first `n` measured heights.
pub open spec fn sum_heights(ms: Seq<LineMeasure>, n: int) -> int
    decreases n,
{
    if n <= 0 {
        0
    } else {
        sum_heights(ms, n - 1) + ms[n - 1].height
    }
}

/// Bounding-box height: all measured heights plus spacing between lines.
pub open spec fn bbox_height(ms: Seq<LineMeasure>, spacing: int) -> int {
    if ms.len() == 0 {
        0
    } else {
        sum_heights(ms, ms.len() as int) + spacing * (ms.len() - 1)
    }
}

/// Bounding-box width for the widest line `m`: its measured width plus one
/// spacing per character, compensating for trailing glyph spacing the raw
/// measurement misses.
pub open spec fn bbox_width_at(ms: Seq<LineMeasure>, spacing: int, m: int) -> int {
    ms[m].width + ms[m].chars * spacing
}

/// The draw origin of line `i`, given the bounding box `(bbw, bbh)`.
pub open spec fn line_origin(
    ms: Seq<LineMeasure>,
    cfg: TextConfig,
    pos_x: int,
    pos_y: int,
    bbw: int,
    bbh: int,
    i: int,
) -> (int, int) {
    let para_offset = (bbw - ms[i].width) * cfg.paragraph_align / 100;
    let horiz_box_offset = bbw * cfg.anchor_x / 100;
    let vert_box_offset = bbh * cfg.anchor_y / 100;
    let line_height = ms[i].height + cfg.spacing;
    let vert_advance = line_height * i * cfg.line_spacing / 100;
    (pos_x + para_offset - horiz_box_offset, pos_y + vert_advance - vert_box_offset)
}

/// Every quantity small enough that the layout arithmetic is exact in
/// 64 bits and the divisions stay nonnegative.
pub open spec fn measures_ok(ms: Seq<LineMeasure>) -> bool {
    &&& ms.len() <= 10000
    &&& forall|j: int|
        0 <= j < ms.len() ==> {
            &&& 0 <= (#[trigger] ms[j]).width <= 100000
            &&& 0 <= ms[j].height <= 100000
            &&& 0 <= ms[j].chars <= 10000
        }
}

pub open spec fn config_ok(cfg: TextConfig) -> bool {
    &&& 0 <= cfg.spacing <= 10000
    &&& 0 <= cfg.paragraph_align <= 100
    &&& 0 <= cfg.anchor_x <= 100
    &&& 0 <= cfg.anchor_y <= 100
    &&& 0 <= cfg.line_spacing <= 1000
}

/// Within `measures_ok` bounds the height sum is small: at most `100000`
/// per line.
pub proof fn lemma_sum_heights_bounds(ms: Seq<LineMeasure>, n: int)
    requires
        measures_ok(ms),
        0 <= n <= ms.len(),
    ensures
        0 <= sum_heights(ms, n) <= n * 100000,
    decreases n,
{
    if n > 0 {
        lemma_sum_heights_bounds(ms, n - 1);
        assert(n * 100000 == (n - 1) * 100000 + 100000);
    }
}

/// The first index of maximal measured width, `None` for no lines.
pub fn argmax_width(measures: &Vec<LineMeasure>) -> (r: Option<usize>)
    ensures
        match r {
            None => measures@.len() == 0,
            Some(m) => is_first_max(measures@, m as int),
        },
{
    if measures.len() == 0 {
        return None;
    }
    let mut max_index: usize = 0;
    let mut max_value: i32 = measures[0].width;
    let mut i: usize = 1;
    while i < measures.len()
        invariant
            1 <= i <= measures@.len(),
            max_index < i,
            max_value == measures@[max_index as int].width,
            forall|j: int| 0 <= j < i ==> (#[trigger] measures@[j]).width <= max_value,
            forall|j: int| 0 <= j < max_index ==> (#[trigger] measures@[j]).width < max_value,
        decreases measures@.len() - i,
    {
        if measures[i].width > max_value {
            max_index = i;
            max_value = measures[i].width;
        }
        i = i + 1;
    }
    Some(max_index)
}

/// The paragraph bounding box `(width, height)`; `(0, 0)` for no lines.
pub fn bounding_box(measures: &Vec<LineMeasure>, spacing: i32) -> (r: (i64, i64))
    requires
        measures_ok(measures@),
        0 <= spacing <= 10000,
    ensures
        measures@.len() == 0 ==> r == (0i64, 0i64),
        measures@.len() > 0 ==> exists|m: int|
            #[trigger] is_first_max(measures@, m) && r.0 == bbox_width_at(
                measures@,
                spacing as int,
                m,
            ),
        r.1 == bbox_height(measures@, spacing as int),
{
    let n: usize = measures.len();
    let mut height_sum: i64 = 0;
    let mut i: usize = 0;
    while i < n
        invariant
            0 <= i <= n,
            n == measures@.len(),
            measures_ok(measures@),
            height_sum == sum_heights(measures@, i as int),
            0 <= height_sum <= i * 100000,
        decreases n - i,
    {
        height_sum = height_sum + measures[i].height as i64;
        i = i + 1;
    }
    match argmax_width(measures) {
        None => (0, 0),
        Some(m) => {
            let mm = &measures[m];
            proof {
                assert(0 <= mm.chars * spacing as int <= 10000int * 10000) by (nonlinear_arith)
                    requires
                        0 <= mm.chars <= 10000,
                        0 <= spacing <= 10000,
                ;
            }
            proof {
                assert(0 <= spacing * (n - 1) <= 10000int * 10000) by (nonlinear_arith)
                    requires
                        0 <= spacing <= 10000,
                        0 <= n - 1 <= 10000,
                ;
            }
            let w: i64 = mm.width as i64 + mm.chars as i64 * spacing as i64;
            let h: i64 = height_sum + spacing as i64 * (n as i64 - 1);
            (w, h)
        },
    }
}

/// The draw origin of every line: horizontally the anchor point shifted by
/// the paragraph alignment within the box and pulled back by the horizontal
/// anchor fraction of the box width; vertically the accumulated line
/// heights scaled by the line-spacing fraction, pulled back by the vertical
/// anchor fraction of the box height. No lines means no origins.
pub fn layout_text_anchored(measures: &Vec<LineMeasure>, pos_x: i32, pos_y: i32, cfg: &TextConfig) -> (r: Vec<(i64, i64)>)
    requires
        measures_ok(measures@),
        config_ok(*cfg),
        -0x3fff_ffff <= pos_x <= 0x3fff_ffff,
        -0x3fff_ffff <= pos_y <= 0x3fff_ffff,
    ensures
        r@.len() == measures@.len(),
        measures@.len() > 0 ==> exists|m: int|
            #[trigger] is_first_max(measures@, m) && forall|i: int|
                0 <= i < measures@.len() ==> {
                    let o = line_origin(
                        measures@,
                        *cfg,
                        pos_x as int,
                        pos_y as int,
                        bbox_width_at(measures@, cfg.spacing as int, m),
                        bbox_height(measures@, cfg.spacing as int),
                        i,
                    );
                    (#[trigger] r@[i]).0 == o.0 && r@[i].1 == o.1
                },
{
    let (bbw, bbh): (i64, i64) = bounding_box(measures, cfg.spacing);
    let ghost m_idx: int = if measures@.len() > 0 {
        choose|m: int|
            #[trigger] is_first_max(measures@, m) && bbw == bbox_width_at(
                measures@,
                cfg.spacing as int,
                m,
            )
    } else {
        0
    };
    proof {
        lemma_sum_heights_bounds(measures@, measures@.len() as int);
        if measures@.len() > 0 {
            assert(0 <= cfg.spacing * (measures@.len() - 1) <= 10000int * 10000)
                by (nonlinear_arith)
                requires
                    0 <= cfg.spacing <= 10000,
                    0 <= measures@.len() - 1 <= 10000,
            ;
            assert(0 <= measures@[m_idx].chars * cfg.spacing as int <= 10000int * 10000)
                by (nonlinear_arith)
                requires
                    0 <= measures@[m_idx].chars <= 10000,
                    0 <= cfg.spacing <= 10000,
            ;
            assert(measures@.len() * 100000 <= 10000int * 100000) by (nonlinear_arith)
                requires
                    measures@.len() <= 10000,
            ;
        }
    }
    let mut out: Vec<(i64, i64)> = Vec::new();
    let n: usize = measures.len();
    let mut i: usize = 0;
    while i < n
        invariant
            0 <= i <= n,
            n == measures@.len(),
            measures_ok(measures@),
            config_ok(*cfg),
            -0x3fff_ffff <= pos_x <= 0x3fff_ffff,
            -0x3fff_ffff <= pos_y <= 0x3fff_ffff,
            n > 0 ==> is_first_max(measures@, m_idx) && bbw == bbox_width_at(
                measures@,
                cfg.spacing as int,
                m_idx,
            ),
            bbh == bbox_height(measures@, cfg.spacing as int),
            0 <= bbw <= 0x10000000,
            0 <= bbh <= 0x80000000,
            out@.len() == i,
            forall|j: int|
                0 <= j < i ==> {
                    let o = line_origin(
                        measures@,
                        *cfg,
                        pos_x as int,
                        pos_y as int,
                        bbw as int,
                        bbh as int,
                        j,
                    );
                    (#[trigger] out@[j]).0 == o.0 && out@[j].1 == o.1
                },
        decreases n - i,
    {
        proof {
            let wi = measures@[i as int].width as int;
            let hi = measures@[i as int].height as int;
            assert(0 <= measures@[m_idx].chars * cfg.spacing as int) by (nonlinear_arith)
                requires
                    0 <= measures@[m_idx].chars,
                    0 <= cfg.spacing,
            ;
            assert(0 <= (bbw - wi) * cfg.paragraph_align as int <= 0x10000000int * 100)
                by (nonlinear_arith)
                requires
                    0 <= bbw - wi <= 0x10000000,
                    0 <= cfg.paragraph_align <= 100,
            ;
            assert(0 <= bbw * cfg.anchor_x as int <= 0x10000000int * 100) by (nonlinear_arith)
                requires
                    0 <= bbw <= 0x10000000,
                    0 <= cfg.anchor_x <= 100,
            ;
            assert(0 <= bbh * cfg.anchor_y as int <= 0x80000000int * 100) by (nonlinear_arith)
                requires
                    0 <= bbh <= 0x80000000,
                    0 <= cfg.anchor_y <= 100,
            ;
            assert(0 <= (hi + cfg.spacing) * (i as int) <= 110000int * 10000 && 0 <= (hi
                + cfg.spacing) * (i as int) * cfg.line_spacing as int <= 110000int * 10000 * 1000)
                by (nonlinear_arith)
                requires
                    0 <= hi + cfg.spacing <= 110000,
                    0 <= i as int <= 10000,
                    0 <= cfg.line_spacing <= 1000,
            ;
        }
        let mw: i64 = measures[i].width as i64;
        let para_offset: i64 = (bbw - mw) * cfg.paragraph_align as i64 / 100;
        let horiz_box_offset: i64 = bbw * cfg.anchor_x as i64 / 100;
        let vert_box_offset: i64 = bbh * cfg.anchor_y as i64 / 100;
        let line_height: i64 = measures[i].height as i64 + cfg.spacing as i64;
        let vert_advance: i64 = line_height * i as i64 * cfg.line_spacing as i64 / 100;
        let x: i64 = pos_x as i64 + para_offset - horiz_box_offset;
        let y: i64 = pos_y as i64 + vert_advance - vert_box_offset;
        out.push((x, y));
        i = i + 1;
    }
    out
}

} // verus!
