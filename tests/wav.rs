use talk_to_me::reassembly::SenderId;
use talk_to_me::wav::{wav_file_bytes, wav_header_bytes, WavPersister};

fn u32_at(b: &[u8], at: usize) -> u32 {
    u32::from_le_bytes([b[at], b[at + 1], b[at + 2], b[at + 3]])
}

fn u16_at(b: &[u8], at: usize) -> u16 {
    u16::from_le_bytes([b[at], b[at + 1]])
}

#[test]
fn header_fields_for_n_samples() {
    let n = 3usize;
    let h = wav_header_bytes(n);
    assert_eq!(h.len(), 44);
    assert_eq!(&h[0..4], b"RIFF");
    assert_eq!(u32_at(&h, 4), 36 + 4 * n as u32);
    assert_eq!(&h[8..12], b"WAVE");
    assert_eq!(&h[12..16], b"fmt ");
    assert_eq!(u32_at(&h, 16), 16);
    assert_eq!(u16_at(&h, 20), 3);
    assert_eq!(u16_at(&h, 22), 1);
    assert_eq!(u32_at(&h, 24), 44100);
    assert_eq!(u32_at(&h, 28), 176400);
    assert_eq!(u16_at(&h, 32), 4);
    assert_eq!(u16_at(&h, 34), 32);
    assert_eq!(&h[36..40], b"data");
    assert_eq!(u32_at(&h, 40), 12);
}

#[test]
fn header_for_two_seconds() {
    let h = wav_header_bytes(88200);
    assert_eq!(u32_at(&h, 4), 352836);
    assert_eq!(u32_at(&h, 40), 352800);
}

#[test]
fn file_is_header_then_samples() {
    let samples = vec![0.5f32.to_bits(), (-0.25f32).to_bits()];
    let f = wav_file_bytes(&samples);
    assert_eq!(f.len(), 52);
    assert_eq!(f[..44].to_vec(), wav_header_bytes(2));
    assert_eq!(&f[44..48], &0.5f32.to_le_bytes());
    assert_eq!(&f[48..52], &(-0.25f32).to_le_bytes());
}

#[test]
fn empty_file_has_bare_header() {
    let f = wav_file_bytes(&[]);
    assert_eq!(f.len(), 44);
    assert_eq!(u32_at(&f, 4), 36);
    assert_eq!(u32_at(&f, 40), 0);
}

#[test]
fn recordings_are_numbered_per_persister() {
    let a = SenderId { host: 1, port: 54321 };
    let mut p = WavPersister::new();
    assert_eq!(p.counter(), 0);
    let first = p.prepare(a, &[1, 2]).ok().expect("a recording");
    assert_eq!(String::from_utf8(first.file_name).unwrap(), "recording_000_54321.wav");
    assert_eq!(first.bytes, wav_file_bytes(&[1, 2]));
    let second = p.prepare(SenderId { host: 1, port: 7 }, &[3]).ok().unwrap();
    assert_eq!(String::from_utf8(second.file_name).unwrap(), "recording_001_7.wav");
    assert_eq!(p.counter(), 2);
    let mut other = WavPersister::new();
    let again = other.prepare(a, &[]).ok().unwrap();
    assert_eq!(String::from_utf8(again.file_name).unwrap(), "recording_000_54321.wav");
}

#[test]
fn counter_past_three_digits() {
    let a = SenderId { host: 1, port: 0 };
    let mut p = WavPersister::new();
    let mut last = Vec::new();
    for _ in 0..1001 {
        last = p.prepare(a, &[]).ok().unwrap().file_name;
    }
    assert_eq!(String::from_utf8(last).unwrap(), "recording_1000_0.wav");
}
