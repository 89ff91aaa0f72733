use audioink::audio::{
    calculate_duration_ms, detection_samples, downmix, is_supported_format, needs_chunking,
    plan_chunks, resample, split_into_chunks, DecodeAccum, DecodeEvent,
};

fn mix_mean(frame: Vec<u32>) -> u32 {
    let n = frame.len() as f32;
    let sum: f32 = frame.iter().map(|b| f32::from_bits(*b)).sum();
    (sum / n).to_bits()
}

fn lerp_kernel(a: u32, b: u32, rem: u32, den: u32) -> u32 {
    let fa = f32::from_bits(a);
    let fb = f32::from_bits(b);
    let frac = rem as f32 / den as f32;
    (fa + (fb - fa) * frac).to_bits()
}

#[test]
fn test_is_supported_format() {
    assert!(is_supported_format("mp3"));
    assert!(is_supported_format("MP3"));
    assert!(is_supported_format("wav"));
    assert!(is_supported_format("mp4"));
    assert!(!is_supported_format("txt"));
    assert!(!is_supported_format("pdf"));
}

#[test]
fn test_resample() {
    let samples: Vec<u32> = (0..44100)
        .map(|i| (i as f32 / 44100.0).sin().to_bits())
        .collect();
    let resampled = resample(&samples, 44100, 16000, lerp_kernel);

    let expected_len = (44100.0 / 44100.0 * 16000.0) as usize;
    assert!((resampled.len() as i32 - expected_len as i32).abs() < 10);
}

#[test]
fn test_resample_length_exact() {
    // 44100 samples from 44100 Hz to 16000 Hz: floor(44100 * 16000 / 44100).
    let samples: Vec<u32> = vec![0u32; 44100];
    let resampled = resample(&samples, 44100, 16000, lerp_kernel);
    assert_eq!(resampled.len(), 16000);

    // Upsampling: 8000 samples from 8000 Hz to 16000 Hz doubles the count.
    let short: Vec<u32> = vec![0u32; 8000];
    let up = resample(&short, 8000, 16000, lerp_kernel);
    assert_eq!(up.len(), 16000);

    // Equal rates return the buffer unchanged.
    let same = resample(&short, 16000, 16000, lerp_kernel);
    assert_eq!(same, short);
}

#[test]
fn test_resample_values_interpolate() {
    // Halving the rate reads every second sample exactly.
    let samples: Vec<u32> = vec![
        1.0f32.to_bits(),
        2.0f32.to_bits(),
        3.0f32.to_bits(),
        4.0f32.to_bits(),
    ];
    let out = resample(&samples, 2, 1, lerp_kernel);
    assert_eq!(out.len(), 2);
    assert_eq!(f32::from_bits(out[0]), 1.0);
    assert_eq!(f32::from_bits(out[1]), 3.0);
}

#[test]
fn test_split_into_chunks() {
    let samples: Vec<u32> = vec![0u32; 180 * 16000];
    let chunks = split_into_chunks(&samples);

    assert_eq!(chunks.len(), 3);
}

#[test]
fn test_chunking_is_partition() {
    // An uneven length: two full chunks and a shorter tail, whose
    // concatenation is exactly the input.
    let samples: Vec<u32> = (0..(2 * 960_000 + 12345)).map(|i| i as u32).collect();
    let chunks = split_into_chunks(&samples);
    assert_eq!(chunks.len(), 3);
    assert_eq!(chunks[0].len(), 960_000);
    assert_eq!(chunks[1].len(), 960_000);
    assert_eq!(chunks[2].len(), 12345);
    let glued: Vec<u32> = chunks.concat();
    assert_eq!(glued, samples);
}

#[test]
fn test_needs_chunking() {
    let short_audio: Vec<u32> = vec![0u32; 60 * 16000];
    assert!(!needs_chunking(&short_audio));

    let long_audio: Vec<u32> = vec![0u32; 180 * 16000];
    assert!(needs_chunking(&long_audio));
}

#[test]
fn test_plan_chunks_short_input_is_one_chunk() {
    // One minute is under the chunking threshold: one chunk holding the
    // whole buffer, even though the chunk size alone would split it.
    let samples: Vec<u32> = (0..60 * 16000).map(|i| i as u32).collect();
    let chunks = plan_chunks(samples.clone());
    assert_eq!(chunks.len(), 1);
    assert_eq!(chunks[0], samples);
}

#[test]
fn test_downmix_stereo_mean() {
    // Interleaved stereo: each output is the mean of one frame, and the
    // frame count (the duration) is unchanged.
    let samples: Vec<u32> = vec![
        1.0f32.to_bits(),
        3.0f32.to_bits(),
        5.0f32.to_bits(),
        7.0f32.to_bits(),
    ];
    let mono = downmix(&samples, 2, mix_mean);
    assert_eq!(mono.len(), 2);
    assert_eq!(f32::from_bits(mono[0]), 2.0);
    assert_eq!(f32::from_bits(mono[1]), 6.0);

    // One channel passes through unchanged.
    let same = downmix(&samples, 1, mix_mean);
    assert_eq!(same, samples);
}

#[test]
fn test_duration_ms() {
    let samples: Vec<u32> = vec![0u32; 16000];
    assert_eq!(calculate_duration_ms(&samples), 1000);
    let half: Vec<u32> = vec![0u32; 8000];
    assert_eq!(calculate_duration_ms(&half), 500);
}

#[test]
fn test_detection_window_truncates() {
    let long: Vec<u32> = (0..31 * 16000).map(|i| i as u32).collect();
    let window = detection_samples(&long);
    assert_eq!(window.len(), 30 * 16000);
    assert_eq!(window[..], long[..30 * 16000]);

    let short: Vec<u32> = (0..5 * 16000).map(|i| i as u32).collect();
    assert_eq!(detection_samples(&short), short);
}

#[test]
fn test_decode_accumulator_skips_and_finishes() {
    let mut accum = DecodeAccum::new(7);
    accum.on_event(DecodeEvent::Packet { track_id: 7, samples: vec![1, 2] });
    // A packet of another track is skipped.
    accum.on_event(DecodeEvent::Packet { track_id: 8, samples: vec![9, 9] });
    // A failed packet is skipped rather than aborting.
    accum.on_event(DecodeEvent::DecodeFailed { track_id: 7 });
    // A reset signal does not terminate consumption.
    accum.on_event(DecodeEvent::ResetRequired);
    accum.on_event(DecodeEvent::Packet { track_id: 7, samples: vec![3] });
    accum.on_event(DecodeEvent::EndOfStream);
    assert!(accum.is_finished());
    assert_eq!(accum.into_samples(), vec![1, 2, 3]);
}
