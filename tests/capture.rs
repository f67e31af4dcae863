use talk_to_me::capture::{AudioCapture, CaptureSession};

const BLOCK: usize = 441;

fn loud_block() -> Vec<u32> {
    vec![0.3f32.to_bits(); BLOCK]
}

fn quiet_block() -> Vec<u32> {
    let mut b = vec![0.001f32.to_bits(); BLOCK];
    b[0] = (-0.009f32).to_bits();
    b
}

#[test]
fn trailing_silence_ends_a_chunk() {
    let mut s = CaptureSession::new();
    let mut now = 1_000u64;
    for _ in 0..60 {
        assert!(s.push_frame(&loud_block(), now).is_none());
        now += 10;
    }
    let mut flushed_at = None;
    for _ in 0..15 {
        if let Some(chunk) = s.push_frame(&quiet_block(), now) {
            flushed_at = Some((now, chunk.len()));
            break;
        }
        now += 10;
    }
    let (at, len) = flushed_at.expect("a flush on silence");
    assert_eq!(at, 1_700);
    assert_eq!(len, 71 * BLOCK);
    assert!(at - 1_000 < 5_000);
    assert!(s.buffer().is_empty());
    assert_eq!(s.chunk_start(), None);
    assert_eq!(s.silence_run(), 0);
}

#[test]
fn continuous_audio_hits_the_ceiling() {
    let mut s = CaptureSession::new();
    let mut flushes = Vec::new();
    for i in 0..600u64 {
        let now = i * 10;
        if let Some(chunk) = s.push_frame(&loud_block(), now) {
            flushes.push((now, chunk.len()));
        }
    }
    assert_eq!(flushes[0], (5_000, 501 * BLOCK));
    assert!(flushes.iter().all(|(_, len)| *len <= 501 * BLOCK));
}

#[test]
fn short_silence_before_floor_does_not_cut() {
    let mut s = CaptureSession::new();
    assert!(s.push_frame(&loud_block(), 0).is_none());
    for i in 1..20u64 {
        assert!(s.push_frame(&quiet_block(), i * 10).is_none());
    }
    assert_eq!(s.silence_run(), 19 * BLOCK as u64);
    assert_eq!(s.chunk_start(), Some(0));
}

#[test]
fn loud_sample_resets_silence_run() {
    let mut s = CaptureSession::new();
    s.push_frame(&quiet_block(), 0);
    assert_eq!(s.silence_run(), BLOCK as u64);
    let mut b = quiet_block();
    b[100] = 0.01f32.to_bits();
    s.push_frame(&b, 10);
    assert_eq!(s.silence_run(), 0);
    s.push_frame(&[f32::NAN.to_bits()], 20);
    assert_eq!(s.silence_run(), 0);
}

#[test]
fn toggle_discards_partial_chunk() {
    let mut c = AudioCapture::new();
    assert!(!c.is_recording());
    assert!(c.push_frame(&loud_block(), 0).is_none());
    assert!(c.toggle_recording());
    assert!(c.push_frame(&loud_block(), 0).is_none());
    assert!(!c.toggle_recording());
    assert!(c.toggle_recording());
    assert!(c.push_frame(&loud_block(), 4_000).is_none());
    let chunk = c.push_frame(&loud_block(), 9_000).expect("ceiling");
    assert_eq!(chunk.len(), 2 * BLOCK);
}
