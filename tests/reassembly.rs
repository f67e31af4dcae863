use talk_to_me::codec::encode_samples;
use talk_to_me::dispatch::UdpHandler;
use talk_to_me::fragment::split_fragments;
use talk_to_me::reassembly::{AudioProcessor, SenderId, PERSIST_SAMPLES};

fn sender(port: u16) -> SenderId {
    SenderId { host: 0x0000_0000_0000_0000_0000_ffff_7f00_0001, port }
}

fn loud(n: usize) -> Vec<u32> {
    (0..n).map(|i| (0.25f32 + (i % 7) as f32 * 0.1).to_bits()).collect()
}

#[test]
fn two_point_one_seconds_flush_once() {
    let mut store = AudioProcessor::new();
    let a = sender(5000);
    let samples = loud(92610);
    let out = store.process_packet(a, &encode_samples(&samples), 0);
    let flushed = out.expect("a flush");
    assert_eq!(flushed.len(), 92610);
    assert!(flushed.len() >= 88200);
    assert_eq!(flushed, samples);
    let chunk = store.chunk(a).expect("the sender is kept");
    assert!(chunk.samples().is_empty());
    assert_eq!(store.len(), 1);
}

#[test]
fn datagrams_flush_exactly_at_two_seconds() {
    let mut store = AudioProcessor::new();
    let a = sender(5000);
    let samples = loud(92610);
    let bytes = encode_samples(&samples);
    let mut flushes: Vec<Vec<u32>> = Vec::new();
    for (i, d) in split_fragments(&bytes).iter().enumerate() {
        if let Some(f) = store.process_packet(a, d, i as u64) {
            flushes.push(f);
        }
    }
    assert_eq!(flushes.len(), 1);
    assert_eq!(flushes[0].len(), PERSIST_SAMPLES);
    assert_eq!(flushes[0], samples[..PERSIST_SAMPLES].to_vec());
    assert_eq!(store.chunk(a).unwrap().samples().len(), 92610 - PERSIST_SAMPLES);
}

#[test]
fn senders_have_separate_buffers() {
    let mut store = AudioProcessor::new();
    let a = sender(5000);
    let b = sender(5001);
    assert!(store.process_packet(a, &encode_samples(&loud(10)), 1).is_none());
    assert!(store.process_packet(b, &encode_samples(&loud(3)), 2).is_none());
    assert!(store.process_packet(a, &encode_samples(&loud(5)), 3).is_none());
    assert_eq!(store.len(), 2);
    assert_eq!(store.chunk(a).unwrap().samples().len(), 15);
    assert_eq!(store.chunk(a).unwrap().last_update(), 3);
    assert_eq!(store.chunk(b).unwrap().samples().len(), 3);
    assert_eq!(store.chunk(b).unwrap().sender(), b);
}

#[test]
fn sweep_forgets_silent_senders() {
    let mut store = AudioProcessor::new();
    let a = sender(5000);
    let b = sender(5001);
    store.process_packet(a, &encode_samples(&loud(100)), 0);
    store.process_packet(b, &encode_samples(&loud(100)), 20_000);
    store.cleanup_old_chunks(29_999);
    assert_eq!(store.len(), 2);
    store.cleanup_old_chunks(31_000);
    assert!(store.chunk(a).is_none());
    assert!(store.chunk(b).is_some());
    assert_eq!(store.len(), 1);
}

#[test]
fn swept_samples_never_persisted() {
    let mut handler = UdpHandler::new();
    let a = sender(5000);
    let old = vec![1.5f32.to_bits(); 88000];
    assert!(handler.process_packet(&encode_samples(&old), a, 0).is_none());
    let new = vec![0.5f32.to_bits(); 88200];
    let flushed = handler.process_packet(&encode_samples(&new), a, 30_001).expect("a flush");
    assert_eq!(flushed, new);
    assert!(flushed.iter().all(|s| *s != 1.5f32.to_bits()));
}

#[test]
fn live_sender_keeps_its_samples() {
    let mut handler = UdpHandler::new();
    let a = sender(5000);
    let first = vec![1.5f32.to_bits(); 88000];
    assert!(handler.process_packet(&encode_samples(&first), a, 0).is_none());
    let second = vec![0.5f32.to_bits(); 200];
    let flushed = handler.process_packet(&encode_samples(&second), a, 29_999).expect("a flush");
    assert_eq!(flushed.len(), 88200);
    assert_eq!(flushed[..88000].to_vec(), first);
    assert!(handler.audio_processor().chunk(a).unwrap().samples().is_empty());
}

#[test]
fn interleaving_of_two_senders_does_not_matter() {
    let a = sender(6000);
    let b = sender(6001);
    let xa = encode_samples(&vec![0.5f32.to_bits(); 88100]);
    let xb = encode_samples(&vec![0.7f32.to_bits(); 200]);
    let ya = encode_samples(&vec![0.9f32.to_bits(); 100]);
    let mut one = AudioProcessor::new();
    let mut two = AudioProcessor::new();
    assert!(one.process_packet(a, &xa, 1).is_none());
    assert!(one.process_packet(b, &xb, 2).is_none());
    let fa1 = one.process_packet(a, &ya, 3);
    assert!(two.process_packet(b, &xb, 2).is_none());
    assert!(two.process_packet(a, &xa, 1).is_none());
    let fa2 = two.process_packet(a, &ya, 3);
    assert_eq!(fa1, fa2);
    assert_eq!(fa1.unwrap().len(), 88200);
    assert_eq!(one.chunk(b).unwrap().samples(), two.chunk(b).unwrap().samples());
}
