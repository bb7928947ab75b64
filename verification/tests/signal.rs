use dodge_core::audio::{downmix, i32_to_usize_re_lu, WavAudio};

fn buf(samples: Vec<i32>, rate: u32) -> WavAudio {
    WavAudio::new(samples, rate)
}

#[test]
fn relu_clamps_negative_indices() {
    assert_eq!(i32_to_usize_re_lu(-5), 0);
    assert_eq!(i32_to_usize_re_lu(0), 0);
    assert_eq!(i32_to_usize_re_lu(7), 7);
}

#[test]
fn window_clamps_a_negative_begin_to_zero() {
    // samples [1..5], window(-5, 3) yields samples[0..3].
    let a = buf(vec![1, 2, 3, 4, 5], 10);
    assert_eq!(a.get_slice(-5, 3), &[1, 2, 3]);
}

#[test]
fn window_clamps_the_end_to_the_length() {
    let a = buf(vec![1, 2, 3, 4, 5], 10);
    assert_eq!(a.get_slice(2, 99), &[3, 4, 5]);
    assert_eq!(a.get_slice(-7, 99), &[1, 2, 3, 4, 5]);
}

#[test]
fn window_with_begin_at_or_past_end_is_empty() {
    let a = buf(vec![1, 2, 3, 4, 5], 10);
    assert_eq!(a.get_slice(3, 1), &[] as &[i32]);
    assert_eq!(a.get_slice(2, 2), &[] as &[i32]);
    assert_eq!(a.get_slice(9, 12), &[] as &[i32]);
}

#[test]
fn slice_back_looks_back_from_the_point() {
    let a = buf(vec![1, 2, 3, 4, 5], 10);
    assert_eq!(a.get_slice_back(4, 2), &[3, 4]);
    assert_eq!(a.get_slice_back(3, 8), &[1, 2, 3]);
}

#[test]
fn time_to_index_floors() {
    let a = buf(vec![0; 16], 10);
    // 1500 ms at 10 samples/second is index 15.
    assert_eq!(a.get_index_from_millis(1500), 15);
    assert_eq!(a.get_index_from_millis(1599), 15);
    // Negative times floor toward minus infinity.
    assert_eq!(a.get_index_from_millis(-1500), -15);
    assert_eq!(a.get_index_from_millis(-1501), -16);
    assert_eq!(a.get_index_from_millis(0), 0);
}

#[test]
fn slice_back_millis_composes_conversion_and_window() {
    let a = buf(vec![1, 2, 3, 4, 5], 10);
    // point 300 ms -> index 3, lookback 800 ms -> 8 samples: window(-5, 3).
    assert_eq!(a.get_slice_back_millis(300, 800), &[1, 2, 3]);
}

#[test]
fn downmix_averages_across_channels() {
    assert_eq!(downmix(&vec![10, 20, 30, 40], 2), vec![15, 35]);
    assert_eq!(downmix(&vec![3, 4, 5, 6, 7, 8], 3), vec![4, 7]);
    assert_eq!(downmix(&vec![9, 9, 9], 1), vec![9, 9, 9]);
}

#[test]
fn downmix_truncates_toward_zero() {
    assert_eq!(downmix(&vec![-5, -6], 2), vec![-5]);
    assert_eq!(downmix(&vec![5, 6], 2), vec![5]);
}

#[test]
fn downmix_averages_a_trailing_partial_frame_over_all_channels() {
    // The last lone sample is still divided by the channel count.
    assert_eq!(downmix(&vec![10, 20, 30], 2), vec![15, 15]);
}

#[test]
fn downmix_of_empty_input_is_empty() {
    assert_eq!(downmix(&Vec::new(), 2), Vec::<i32>::new());
}
