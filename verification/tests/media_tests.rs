use yowl::audio::{resample_plan, ResampleStep};
use yowl::whisper::{should_run_inference, trim_transcript, transcript_delta, RollingBuffer, SAMPLE_RATE};

/// Evaluate a resample plan on float samples, as the capture pipeline
/// does: blend `lo` and `hi` by the fractional weight of each step.
fn apply_plan(samples: &[f32], plan: &[ResampleStep]) -> Vec<f32> {
    plan.iter()
        .map(|step| {
            let frac = step.frac_num as f32 / step.frac_den as f32;
            samples[step.lo] * (1.0 - frac) + samples[step.hi] * frac
        })
        .collect()
}

#[test]
fn test_resample_downsample() {
    // 48kHz -> 16kHz = ratio of 1/3
    let input: Vec<f32> = (0..48).map(|i| i as f32).collect();
    let plan = resample_plan(input.len(), 16000, 48000);
    let output = apply_plan(&input, &plan);

    // Should produce ~16 samples
    assert_eq!(output.len(), 16);
}

#[test]
fn test_resample_no_change() {
    let input: Vec<f32> = vec![1.0, 2.0, 3.0, 4.0];
    let plan = resample_plan(input.len(), 16000, 16000);
    let output = apply_plan(&input, &plan);
    assert_eq!(output, input);
}

#[test]
fn test_resample_upsample_length() {
    // 8kHz -> 16kHz doubles the sample count
    let input: Vec<f32> = (0..5).map(|i| i as f32).collect();
    let plan = resample_plan(input.len(), 16000, 8000);
    assert_eq!(plan.len(), 10);
    // every read position stays inside the input
    for step in &plan {
        assert!(step.lo < input.len());
        assert!(step.hi < input.len());
        assert!(step.frac_num < step.frac_den);
    }
}

#[test]
fn test_resample_length_is_ceiling() {
    // ceil(7 * 16000 / 44100) = ceil(2.53..) = 3
    let plan = resample_plan(7, 16000, 44100);
    assert_eq!(plan.len(), 3);
    // ceil(0 * anything) = 0
    let empty = resample_plan(0, 16000, 48000);
    assert_eq!(empty.len(), 0);
}

#[test]
fn test_resample_near_unity_copy() {
    // a ratio within 0.001 of 1 (here 16000/16010) yields an exact
    // copy: one identity step per input sample, no interpolation
    let input: Vec<f32> = (0..1602).map(|i| i as f32 * 0.25).collect();
    let plan = resample_plan(input.len(), 16000, 16010);
    assert_eq!(plan.len(), input.len());
    for (i, step) in plan.iter().enumerate() {
        assert_eq!(step.lo, i);
        assert_eq!(step.frac_num, 0);
    }
    let output = apply_plan(&input, &plan);
    assert_eq!(output, input);
    // just outside the window the ceiling rule applies again:
    // ceil(1602 * 16000 / 16017) = 1601
    let outside = resample_plan(input.len(), 16000, 16017);
    assert_eq!(outside.len(), 1601);
}

#[test]
fn test_inference_gate() {
    // an empty window is never handed to the recognizer
    assert!(!should_run_inference(0));
    assert!(should_run_inference(1));
    assert!(should_run_inference(SAMPLE_RATE));
}

#[test]
fn test_rolling_buffer() {
    let mut buffer: RollingBuffer<f32> = RollingBuffer::new(2); // 2 seconds = 32000 samples

    // Add 1 second of audio
    let chunk1: Vec<f32> = vec![0.1; SAMPLE_RATE];
    buffer.push(&chunk1);
    assert_eq!(buffer.len(), SAMPLE_RATE);

    // Add another second
    let chunk2: Vec<f32> = vec![0.2; SAMPLE_RATE];
    buffer.push(&chunk2);
    assert_eq!(buffer.len(), 2 * SAMPLE_RATE);

    // Add a third second - should push out the first
    let chunk3: Vec<f32> = vec![0.3; SAMPLE_RATE];
    buffer.push(&chunk3);
    assert_eq!(buffer.len(), 2 * SAMPLE_RATE);

    // First samples should be from chunk2
    assert!((buffer.samples()[0] - 0.2).abs() < 0.001);
    // Last samples should be from chunk3
    assert!((buffer.samples()[buffer.len() - 1] - 0.3).abs() < 0.001);
}

#[test]
fn test_rolling_buffer_holds_suffix() {
    // The buffer always holds exactly the most recent `capacity`
    // elements of everything pushed, in order.
    let mut buffer: RollingBuffer<i32> = RollingBuffer::new(0);
    // capacity 0 seconds: everything is dropped
    buffer.push(&[1, 2, 3]);
    assert_eq!(buffer.len(), 0);

    let mut small: RollingBuffer<i32> = RollingBuffer::new(1);
    let mut history: Vec<i32> = Vec::new();
    for round in 0..5i32 {
        let chunk: Vec<i32> = (0..7000).map(|i| round * 7000 + i).collect();
        history.extend_from_slice(&chunk);
        small.push(&chunk);
        let want = &history[history.len().saturating_sub(SAMPLE_RATE)..];
        assert_eq!(small.samples(), want);
    }
    small.clear();
    assert_eq!(small.len(), 0);
}

#[test]
fn test_trim_transcript() {
    assert_eq!(trim_transcript(" hello world \n"), "hello world");
    assert_eq!(trim_transcript("no padding"), "no padding");
    assert_eq!(trim_transcript(" \t\n "), "");
    assert_eq!(trim_transcript(""), "");
    assert_eq!(trim_transcript("\u{a0}wide\u{3000}"), "wide");
}

#[test]
fn test_transcript_delta() {
    // unchanged transcript: no publication
    let last = String::from("hello");
    assert_eq!(transcript_delta(&last, " hello \n"), None);
    // changed transcript: the trimmed text is published
    assert_eq!(
        transcript_delta(&last, " hello world "),
        Some(String::from("hello world"))
    );
    // first result on an empty history
    let empty = String::new();
    assert_eq!(transcript_delta(&empty, "hi"), Some(String::from("hi")));
    // silence stays unpublished
    assert_eq!(transcript_delta(&empty, "  "), None);
}
