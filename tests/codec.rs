use talk_to_me::codec::{decode_samples, encode_samples};
use talk_to_me::fragment::{chunk_datagrams, split_fragments, MAX_FRAGMENT};

fn sample_bits(values: &[f32]) -> Vec<u32> {
    values.iter().map(|v| v.to_bits()).collect()
}

#[test]
fn encode_gives_little_endian_floats() {
    let bytes = encode_samples(&sample_bits(&[1.0, -2.5]));
    let mut expected = 1.0f32.to_le_bytes().to_vec();
    expected.extend_from_slice(&(-2.5f32).to_le_bytes());
    assert_eq!(bytes, expected);
    assert_eq!(&bytes[..4], &[0x00, 0x00, 0x80, 0x3F]);
}

#[test]
fn decode_reads_little_endian_floats() {
    let bytes = vec![0x00, 0x00, 0x80, 0x3F, 0x00, 0x00, 0x20, 0xC0];
    let samples = decode_samples(&bytes);
    assert_eq!(samples.len(), 2);
    assert_eq!(f32::from_bits(samples[0]), 1.0);
    assert_eq!(f32::from_bits(samples[1]), -2.5);
}

#[test]
fn decode_drops_trailing_partial_group() {
    let bytes = vec![0x00, 0x00, 0x80, 0x3F, 0xAA, 0xBB, 0xCC];
    assert_eq!(decode_samples(&bytes), vec![1.0f32.to_bits()]);
    assert!(decode_samples(&[0x01, 0x02, 0x03]).is_empty());
    assert!(decode_samples(&[]).is_empty());
}

#[test]
fn split_caps_fragments_at_limit() {
    let data: Vec<u8> = (0..2500u32).map(|i| (i % 251) as u8).collect();
    let frags = split_fragments(&data);
    let sizes: Vec<usize> = frags.iter().map(|f| f.len()).collect();
    assert_eq!(sizes, vec![1200, 1200, 100]);
    assert_eq!(frags.concat(), data);
}

#[test]
fn split_edge_sizes() {
    assert!(split_fragments(&[]).is_empty());
    let exact = vec![7u8; MAX_FRAGMENT];
    let frags = split_fragments(&exact);
    assert_eq!(frags.len(), 1);
    assert_eq!(frags[0], exact);
    let one_more = vec![7u8; MAX_FRAGMENT + 1];
    let frags = split_fragments(&one_more);
    assert_eq!(frags.len(), 2);
    assert_eq!(frags[1].len(), 1);
}

#[test]
fn fragments_round_trip_in_order() {
    let values: Vec<f32> = (0..1000).map(|i| (i as f32 * 0.37).sin()).collect();
    let samples = sample_bits(&values);
    let datagrams = chunk_datagrams(&samples);
    assert_eq!(datagrams.len(), 4);
    assert!(datagrams.iter().all(|d| d.len() <= 1200 && d.len() % 4 == 0));
    assert_eq!(decode_samples(&datagrams.concat()), samples);
    let mut each: Vec<u32> = Vec::new();
    for d in &datagrams {
        each.extend(decode_samples(d));
    }
    assert_eq!(each, samples);
}
