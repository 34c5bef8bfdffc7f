use audio_separator::inference_plan::{
    chunk_plan, chunk_span, effective_bins, model_dims, spectrum_plane, stereo_pair, tensor_offset,
    ModelDims,
};
use audio_separator::spectral::{crop_range, frame_start, padded_signal, stft_geometry, HOP_LENGTH, N_FFT};

#[test]
fn geometry_of_one_second() {
    let g = stft_geometry(44100, N_FFT, HOP_LENGTH);
    assert_eq!(g.pad, 3072);
    assert_eq!(g.padded_len, 50244);
    assert_eq!(g.n_frames, 44);
    assert_eq!(g.freq_bins, 3073);
    // frames fit and no further frame would
    assert!((g.n_frames - 1) * HOP_LENGTH + N_FFT <= g.padded_len);
    assert!(g.n_frames * HOP_LENGTH + N_FFT > g.padded_len);
}

#[test]
fn geometry_of_empty_signal() {
    let g = stft_geometry(0, N_FFT, HOP_LENGTH);
    assert_eq!(g.padded_len, N_FFT);
    assert_eq!(g.n_frames, 1);
}

#[test]
fn padding_surrounds_signal() {
    assert_eq!(padded_signal(&[1.0f32, 2.0], 2, 0.0), vec![0.0, 0.0, 1.0, 2.0, 0.0, 0.0]);
    assert_eq!(padded_signal(&[7i32], 0, 0), vec![7]);
    let g = stft_geometry(10, 4, 2);
    assert_eq!(crop_range(&g, 10), (2, 12));
    assert_eq!(frame_start(3, HOP_LENGTH), 3072);
}

#[test]
fn model_dims_from_shape() {
    assert_eq!(
        model_dims(Some(vec![1, 4, 3072, 256])),
        ModelDims { n_channels: 4, dim_f: 3072, dim_t: 256 }
    );
    assert_eq!(
        model_dims(Some(vec![1, 8, 2048, 512])),
        ModelDims { n_channels: 8, dim_f: 2048, dim_t: 512 }
    );
    assert_eq!(
        model_dims(Some(vec![-1, -1, 0, -1])),
        ModelDims { n_channels: 4, dim_f: 3072, dim_t: 256 }
    );
    assert_eq!(
        model_dims(Some(vec![1, 2, 3])),
        ModelDims { n_channels: 4, dim_f: 3072, dim_t: 256 }
    );
    assert_eq!(model_dims(None), ModelDims { n_channels: 4, dim_f: 3072, dim_t: 256 });
}

#[test]
fn short_input_is_one_window() {
    let p = chunk_plan(44, 256);
    assert_eq!(p.n_chunks, 1);
    assert_eq!(chunk_span(&p, 44, 256, 0), (0, 44));
    let p = chunk_plan(256, 256);
    assert_eq!(p.n_chunks, 1);
}

#[test]
fn long_input_windows_overlap_by_half() {
    let p = chunk_plan(1000, 256);
    assert_eq!(p.overlap, 128);
    assert_eq!(p.step, 128);
    assert_eq!(p.n_chunks, 7);
    assert_eq!(chunk_span(&p, 1000, 256, 0), (0, 256));
    assert_eq!(chunk_span(&p, 1000, 256, 1), (128, 384));
    assert_eq!(chunk_span(&p, 1000, 256, 6), (768, 1000));
}

#[test]
fn windows_cover_every_frame() {
    for &(n, d) in &[(1000usize, 256usize), (257, 256), (5000, 255), (3, 1), (10, 3), (0, 256)] {
        let p = chunk_plan(n, d);
        let spans: Vec<(usize, usize)> = (0..p.n_chunks).map(|i| chunk_span(&p, n, d, i)).collect();
        for f in 0..n {
            assert!(spans.iter().any(|(s, e)| *s <= f && f < *e), "frame {} of {}", f, n);
        }
        for (s, e) in &spans {
            assert!(s <= e && *e <= n && e - s <= d);
        }
        if n > 0 {
            assert_eq!(spans.last().unwrap().1, n);
        }
    }
}

#[test]
fn tensor_offsets_are_row_major() {
    assert_eq!(tensor_offset(0, 0, 0, 4, 3072, 256), 0);
    assert_eq!(tensor_offset(1, 0, 0, 4, 3072, 256), 3072 * 256);
    assert_eq!(tensor_offset(2, 5, 7, 4, 3072, 256), 2 * 3072 * 256 + 5 * 256 + 7);
    let mut seen = std::collections::HashSet::new();
    for c in 0..2 {
        for f in 0..3 {
            for t in 0..4 {
                let o = tensor_offset(c, f, t, 2, 3, 4);
                assert!(o < 24);
                assert!(seen.insert(o));
            }
        }
    }
}

#[test]
fn planes_alternate_real_and_imaginary() {
    assert_eq!(spectrum_plane(0, false), 0);
    assert_eq!(spectrum_plane(0, true), 1);
    assert_eq!(spectrum_plane(1, false), 2);
    assert_eq!(spectrum_plane(1, true), 3);
    assert_eq!(effective_bins(3072, 3073), 3072);
    assert_eq!(effective_bins(4096, 3073), 3073);
}

#[test]
fn mono_input_feeds_both_channels() {
    let mono = vec![vec![0.25f32, -0.5]];
    let (l, r) = stereo_pair(&mono);
    assert_eq!(l, vec![0.25, -0.5]);
    assert_eq!(r, vec![0.25, -0.5]);
    let three = vec![vec![1.0f32], vec![2.0], vec![3.0]];
    let (l, r) = stereo_pair(&three);
    assert_eq!(l, vec![1.0]);
    assert_eq!(r, vec![2.0]);
}
