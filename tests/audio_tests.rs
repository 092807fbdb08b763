use live_transcribe::audio::{newest_samples, SlidingWindow};
use live_transcribe::hybrid_vad::samples_per_chunk;
use live_transcribe::transcription::{forces_language, join_segments};

#[test]
fn window_pads_to_one_second() {
    let mut w = SlidingWindow::new(0.0f32);
    let (out, n) = w.push_chunk(&[0.5; 100]);
    assert_eq!(n, 100);
    assert_eq!(out.len(), 16000);
    assert_eq!(out[99], 0.5);
    assert_eq!(out[100], 0.0);
}

#[test]
fn window_keeps_last_five_seconds() {
    let mut w = SlidingWindow::new(0u8);
    w.push_chunk(&vec![1u8; 70000]);
    let (out, n) = w.push_chunk(&vec![2u8; 20000]);
    assert_eq!(n, 20000);
    assert_eq!(out.len(), 80000);
    assert_eq!(out[0], 1);
    assert_eq!(out[59999], 1);
    assert_eq!(out[60000], 2);
    w.clear();
    assert_eq!(w.push_chunk(&[3u8]).0[0], 3);
}

#[test]
fn newest_samples_takes_the_tail() {
    assert_eq!(newest_samples(&[1, 2, 3, 4], 2), vec![3, 4]);
    assert_eq!(newest_samples(&[1, 2, 3, 4], 0), vec![1, 2, 3, 4]);
    assert_eq!(newest_samples(&[1, 2, 3, 4], 9), vec![1, 2, 3, 4]);
}

#[test]
fn chunk_sizes() {
    assert_eq!(samples_per_chunk(300), 4800);
    assert_eq!(samples_per_chunk(1000), 16000);
}

#[test]
fn language_and_segments() {
    assert!(forces_language("en"));
    assert!(!forces_language("auto"));
    assert!(!forces_language(""));
    let segments = vec![" Hello".to_string(), "world. ".to_string()];
    assert_eq!(join_segments(&segments), "Hello world.");
    assert_eq!(join_segments(&Vec::new()), "");
}
