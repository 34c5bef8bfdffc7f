use audio_separator::audio_io::{
    all_channels_empty, channel_count_or_default, empty_channel_buffers, finish_decode,
    interleave_frames, route_interleaved, wav_channel_count,
};
use audio_separator::resample_plan::{
    block_end, kept_output_len, needs_resampling, padded_block, plan_blocks, RESAMPLE_CHUNK,
};

#[test]
fn channel_count_defaults_to_stereo() {
    assert_eq!(channel_count_or_default(None), 2);
    assert_eq!(channel_count_or_default(Some(1)), 1);
    assert_eq!(channel_count_or_default(Some(6)), 6);
}

#[test]
fn route_splits_interleaved_samples() {
    let mut buffers: Vec<Vec<f32>> = empty_channel_buffers(2);
    route_interleaved(&mut buffers, &[1.0, 2.0, 3.0, 4.0, 5.0], 2);
    assert_eq!(buffers, vec![vec![1.0, 3.0, 5.0], vec![2.0, 4.0]]);
    route_interleaved(&mut buffers, &[6.0, 7.0], 2);
    assert_eq!(buffers, vec![vec![1.0, 3.0, 5.0, 6.0], vec![2.0, 4.0, 7.0]]);
}

#[test]
fn route_drops_channels_without_buffer() {
    let mut buffers: Vec<Vec<i32>> = empty_channel_buffers(1);
    route_interleaved(&mut buffers, &[10, 20, 30, 40, 50, 60], 3);
    assert_eq!(buffers, vec![vec![10, 40]]);
}

#[test]
fn route_leaves_extra_buffers_untouched() {
    let mut buffers: Vec<Vec<i32>> = empty_channel_buffers(3);
    route_interleaved(&mut buffers, &[1, 2, 3, 4], 2);
    assert_eq!(buffers, vec![vec![1, 3], vec![2, 4], vec![]]);
}

#[test]
fn interleave_takes_shortest_channel() {
    let chans = vec![vec![1.0f32, 3.0, 5.0], vec![2.0, 4.0]];
    assert_eq!(interleave_frames(&chans), vec![1.0, 2.0, 3.0, 4.0]);
    let none: Vec<Vec<f32>> = vec![];
    assert_eq!(interleave_frames(&none), Vec::<f32>::new());
    let one_empty = vec![vec![1.0f32], vec![]];
    assert_eq!(interleave_frames(&one_empty), Vec::<f32>::new());
}

#[test]
fn interleave_inverts_split_of_whole_frames() {
    let original: Vec<i32> = (0..30).collect();
    let mut buffers: Vec<Vec<i32>> = empty_channel_buffers(3);
    route_interleaved(&mut buffers, &original, 3);
    assert_eq!(interleave_frames(&buffers), original);
}

#[test]
fn finish_decode_fails_without_samples() {
    let empty: Vec<Vec<f32>> = vec![vec![], vec![]];
    assert!(all_channels_empty(&empty));
    match finish_decode(empty, 44100, 2) {
        Err(e) => assert_eq!(e, "No audio samples decoded"),
        Ok(_) => panic!("expected an error"),
    }
    let none: Vec<Vec<f32>> = vec![];
    assert!(finish_decode(none, 44100, 0).is_err());
}

#[test]
fn finish_decode_keeps_buffers() {
    let bufs = vec![vec![0.5f32], vec![]];
    let d = finish_decode(bufs, 48000, 2).unwrap();
    assert_eq!(d.sample_rate, 48000);
    assert_eq!(d.channels, 2);
    assert_eq!(d.samples, vec![vec![0.5f32], vec![]]);
}

#[test]
fn wav_channel_count_truncates() {
    assert_eq!(wav_channel_count(2), 2);
    assert_eq!(wav_channel_count(65537), 1);
}

#[test]
fn resampling_only_between_different_rates() {
    assert!(!needs_resampling(44100, 44100));
    assert!(needs_resampling(48000, 44100));
}

#[test]
fn blocks_tile_the_input() {
    assert_eq!(plan_blocks(2500, 1024), vec![(0, 1024), (1024, 2048), (2048, 2500)]);
    assert_eq!(plan_blocks(2048, 1024), vec![(0, 1024), (1024, 2048)]);
    assert_eq!(plan_blocks(0, 1024), vec![]);
    assert_eq!(plan_blocks(5, RESAMPLE_CHUNK), vec![(0, 5)]);
    let blocks = plan_blocks(10_000, 1024);
    for f in 0..10_000usize {
        assert_eq!(blocks.iter().filter(|(s, e)| *s <= f && f < *e).count(), 1);
    }
}

#[test]
fn block_end_caps_at_input() {
    assert_eq!(block_end(0, 100, 1024), 100);
    assert_eq!(block_end(1024, 5000, 1024), 2048);
    assert_eq!(block_end(usize::MAX - 3, usize::MAX, 1024), usize::MAX);
}

#[test]
fn short_block_is_zero_padded() {
    let ch = [1.0f32, 2.0, 3.0, 4.0, 5.0];
    assert_eq!(padded_block(&ch, 3, 5, 4, 0.0), vec![4.0, 5.0, 0.0, 0.0]);
    assert_eq!(padded_block(&ch, 0, 4, 4, 0.0), vec![1.0, 2.0, 3.0, 4.0]);
    assert_eq!(padded_block(&ch, 5, 5, 2, 9.0), vec![9.0, 9.0]);
}

#[test]
fn kept_output_of_blocks() {
    assert_eq!(kept_output_len(1024, 1024, 0, 940), 940);
    assert_eq!(kept_output_len(100, 1024, 92, 940), 92);
    assert_eq!(kept_output_len(100, 1024, 2000, 940), 940);
}

#[test]
fn copies_are_equal() {
    let chans = vec![vec![1.0f32, 2.0], vec![], vec![3.0]];
    assert_eq!(audio_separator::audio_io::copy_channels(&chans), chans);
    let mut empty: Vec<Vec<f32>> = empty_channel_buffers(2);
    route_interleaved(&mut empty, &[], 0);
    assert_eq!(empty, vec![Vec::<f32>::new(), vec![]]);
}

#[test]
fn split_inverts_interleave_of_equal_channels() {
    let chans = vec![vec![1, 4, 7], vec![2, 5, 8], vec![3, 6, 9]];
    let frames = interleave_frames(&chans);
    assert_eq!(frames, vec![1, 2, 3, 4, 5, 6, 7, 8, 9]);
    let mut back: Vec<Vec<i32>> = empty_channel_buffers(3);
    route_interleaved(&mut back, &frames, 3);
    assert_eq!(back, chans);
}
