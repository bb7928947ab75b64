use dodge_core::text_layout::{
    argmax_width, bounding_box, layout_text_anchored, LineMeasure, TextConfig,
};

fn measure(width: i32, height: i32, chars: i32) -> LineMeasure {
    LineMeasure { width, height, chars }
}

#[test]
fn single_line_centered_anchor() {
    // "Hi" measured (20, 10), spacing 0, anchor (0.5, 0), align 0,
    // position (100, 100): box (20, 10), origin (90, 100).
    let measures = vec![measure(20, 10, 2)];
    let cfg = TextConfig { spacing: 0, paragraph_align: 0, anchor_x: 50, anchor_y: 0, line_spacing: 100 };
    let (bw, bh) = bounding_box(&measures, cfg.spacing);
    assert_eq!((bw, bh), (20, 10));
    let origins = layout_text_anchored(&measures, 100, 100, &cfg);
    assert_eq!(origins, vec![(90, 100)]);
}

#[test]
fn empty_paragraph_yields_no_origins() {
    let measures: Vec<LineMeasure> = Vec::new();
    let cfg = TextConfig { spacing: 3, paragraph_align: 50, anchor_x: 50, anchor_y: 50, line_spacing: 80 };
    assert_eq!(bounding_box(&measures, cfg.spacing), (0, 0));
    let origins = layout_text_anchored(&measures, 10, 10, &cfg);
    assert!(origins.is_empty());
}

#[test]
fn box_width_compensates_trailing_glyph_spacing() {
    // Widest line is the second (30 wide, 6 chars); spacing 2 adds 12.
    let measures = vec![measure(20, 10, 4), measure(30, 12, 6)];
    let (bw, bh) = bounding_box(&measures, 2);
    assert_eq!(bw, 30 + 12);
    // Height: 10 + 12 plus one inter-line spacing.
    assert_eq!(bh, 24);
}

#[test]
fn vertical_advance_scales_with_line_spacing() {
    let measures = vec![measure(20, 10, 2), measure(20, 10, 2)];
    let cfg = TextConfig { spacing: 0, paragraph_align: 0, anchor_x: 0, anchor_y: 0, line_spacing: 80 };
    let origins = layout_text_anchored(&measures, 0, 0, &cfg);
    // line height 10, 80% multiplier: second line at y = 8.
    assert_eq!(origins, vec![(0, 0), (0, 8)]);
}

#[test]
fn right_alignment_pushes_narrow_lines() {
    let measures = vec![measure(10, 10, 1), measure(30, 10, 3)];
    let cfg = TextConfig { spacing: 0, paragraph_align: 100, anchor_x: 0, anchor_y: 0, line_spacing: 100 };
    let origins = layout_text_anchored(&measures, 0, 0, &cfg);
    // Box width 30: the narrow line is pushed right by 20.
    assert_eq!(origins[0].0, 20);
    assert_eq!(origins[1].0, 0);
}

#[test]
fn bottom_anchor_subtracts_box_height() {
    let measures = vec![measure(20, 10, 2)];
    let cfg = TextConfig { spacing: 0, paragraph_align: 0, anchor_x: 0, anchor_y: 100, line_spacing: 100 };
    let origins = layout_text_anchored(&measures, 0, 100, &cfg);
    assert_eq!(origins, vec![(0, 90)]);
}

#[test]
fn argmax_picks_the_first_of_equal_widths() {
    let measures = vec![measure(5, 1, 1), measure(9, 1, 1), measure(9, 1, 1), measure(3, 1, 1)];
    assert_eq!(argmax_width(&measures), Some(1));
    let empty: Vec<LineMeasure> = Vec::new();
    assert_eq!(argmax_width(&empty), None);
}
