use g_type::resample::{i32_to_i16, resample_linear, u8_to_i16, Downsampler, SAMPLES_PER_CHUNK};

#[test]
fn test_resample_identity() {
    let input: Vec<i16> = (0..1600).collect();
    let output = resample_linear(&input, 16000, 16000);
    assert_eq!(output.len(), input.len());
}

#[test]
fn test_resample_downsample() {
    let input: Vec<i16> = (0..4800).collect();
    let output = resample_linear(&input, 48000, 16000);
    // Should be roughly 1/3 the size
    assert!(output.len() > 1500 && output.len() < 1700);
}

#[test]
fn test_resample_identity_values() {
    // Equal rates reproduce the input exactly, value for value.
    let input: Vec<i16> = (0..1600).map(|i| (i * 7 % 1000) as i16 - 500).collect();
    let output = resample_linear(&input, 16000, 16000);
    assert_eq!(output, input);
}

#[test]
fn test_resample_empty() {
    let output = resample_linear(&[], 48000, 16000);
    assert!(output.is_empty());
}

#[test]
fn test_u8_to_i16() {
    assert_eq!(u8_to_i16(128), 0); // silence
    assert_eq!(u8_to_i16(0), -32768); // min
    assert_eq!(u8_to_i16(255), 32512); // near max
}

#[test]
fn test_i32_to_i16() {
    assert_eq!(i32_to_i16(0), 0);
    assert_eq!(i32_to_i16(i32::MAX), i16::MAX);
    assert_eq!(i32_to_i16(i32::MIN), i16::MIN);
}

#[test]
fn test_i32_to_i16_total() {
    // Extremes and odd values all convert without panicking.
    for s in [i32::MIN, i32::MIN + 1, -65536, -1, 0, 1, 65535, 65536, i32::MAX - 1, i32::MAX] {
        let v = i32_to_i16(s);
        assert_eq!(v as i64, (s as i64) >> 16);
    }
    for s in 0..=255u8 {
        let v = u8_to_i16(s);
        assert_eq!(v as i32, (s as i32 - 128) * 256);
    }
}

#[test]
fn test_downsampler_44100_to_16000() {
    // Simulate hardware callbacks at 44100Hz mono, ~283 samples per callback
    let mut ds = Downsampler::new(44100, 1);
    let mut total_chunks = 0;

    // Feed 156 callbacks worth of data (simulating ~1 second of audio)
    for _ in 0..156 {
        let data: Vec<i16> = (0..283).map(|i| (i * 100 % 30000) as i16).collect();
        let chunks = ds.feed(&data);
        total_chunks += chunks.len();
    }

    // 156 callbacks x 283 samples = 44148 samples at 44100Hz
    // At 16kHz output = ~16017 samples -> ~10 chunks of 1600
    assert!(total_chunks >= 9, "Expected >=9 chunks, got {}", total_chunks);
    assert!(total_chunks <= 11, "Expected <=11 chunks, got {}", total_chunks);
}

#[test]
fn test_downsampler_16000_passthrough() {
    // When source rate == target rate, no resampling needed
    let mut ds = Downsampler::new(16000, 1);
    let mut total_chunks = 0;

    // Feed exactly 3200 samples = 2 chunks
    let data: Vec<i16> = (0..3200).map(|i| (i % 1000) as i16).collect();
    total_chunks += ds.feed(&data).len();

    assert_eq!(total_chunks, 2, "Expected exactly 2 chunks at native 16kHz");
}

#[test]
fn test_downsampler_stereo() {
    // Stereo 44100Hz -> mono 16kHz
    let mut ds = Downsampler::new(44100, 2);
    let mut total_chunks = 0;

    // Feed 156 callbacks of stereo data (566 interleaved samples = 283 frames)
    for _ in 0..156 {
        let data: Vec<i16> = (0..566).map(|i| (i * 50 % 20000) as i16).collect();
        total_chunks += ds.feed(&data).len();
    }

    assert!(
        total_chunks >= 9,
        "Expected >=9 chunks from stereo, got {}",
        total_chunks
    );
}

#[test]
fn test_downsampler_passthrough_values() {
    // Passthrough conserves the exact sample values across chunking.
    let mut ds = Downsampler::new(16000, 1);
    let data: Vec<i16> = (0..2000).map(|i| (i as i16).wrapping_mul(17)).collect();
    let chunks = ds.feed(&data);
    assert_eq!(chunks.len(), 1);
    assert_eq!(chunks[0].len(), SAMPLES_PER_CHUNK);
    assert_eq!(&chunks[0][..], &data[..1600]);
    // The remainder arrives with the next feed.
    let chunks2 = ds.feed(&data[..1200]);
    assert_eq!(chunks2.len(), 1);
    assert_eq!(&chunks2[0][..400], &data[1600..]);
    assert_eq!(&chunks2[0][400..], &data[..1200]);
}

#[test]
fn test_downsampler_split_invariance() {
    // Feeding in small or large callback sizes yields the same total
    // output count: the cursor carries across boundaries.
    let src_rates = [48000u32, 44100, 22050];
    for &rate in &src_rates {
        let data: Vec<i16> = (0..48000).map(|i| (i % 20000) as i16 - 10000).collect();

        let mut small = Downsampler::new(rate, 1);
        let mut small_total = 0usize;
        for piece in data.chunks(160) {
            for c in small.feed(piece) {
                small_total += c.len();
            }
        }

        let mut large = Downsampler::new(rate, 1);
        let mut large_total = 0usize;
        for piece in data.chunks(8000) {
            for c in large.feed(piece) {
                large_total += c.len();
            }
        }

        // Identical totals up to the samples still pending (< one chunk).
        let small_pending = small_total % 1600;
        let _ = small_pending;
        assert!(
            (small_total as i64 - large_total as i64).abs() < 1600,
            "rate {}: small {} vs large {}",
            rate,
            small_total,
            large_total
        );
    }
}

#[test]
fn test_downsampler_ratio_48k() {
    // 48000 -> 16000 produces one output sample per three input frames,
    // within one chunk over a long run.
    let mut ds = Downsampler::new(48000, 1);
    let mut total = 0usize;
    for _ in 0..100 {
        let data: Vec<i16> = vec![0; 4800];
        for c in ds.feed(&data) {
            total += c.len();
        }
    }
    // 480000 samples in -> 160000 out; 100 chunks of 1600.
    assert_eq!(total, 160000);
}

#[test]
fn test_downsampler_zero_channels() {
    let mut ds = Downsampler::new(44100, 0);
    let data: Vec<i16> = vec![1; 1000];
    assert!(ds.feed(&data).is_empty());
}

#[test]
fn test_downsampler_stereo_mix() {
    // Two equal channels mix to the same mono value in passthrough.
    let mut ds = Downsampler::new(16000, 2);
    let mut interleaved: Vec<i16> = Vec::new();
    for i in 0..1600 {
        interleaved.push((i % 100) as i16);
        interleaved.push((i % 100) as i16);
    }
    let chunks = ds.feed(&interleaved);
    assert_eq!(chunks.len(), 1);
    for i in 0..1600 {
        assert_eq!(chunks[0][i], (i % 100) as i16);
    }
}
