use tachimi::layered::{load_psd_composite, DecodeError};
use tachimi::packbits::decode_packbits;

fn header(version: u16, channels: u16, height: u32, width: u32, depth: u16, mode: u16) -> Vec<u8> {
    let mut d: Vec<u8> = b"8BPS".to_vec();
    d.extend_from_slice(&version.to_be_bytes());
    d.extend_from_slice(&[0u8; 6]);
    d.extend_from_slice(&channels.to_be_bytes());
    d.extend_from_slice(&height.to_be_bytes());
    d.extend_from_slice(&width.to_be_bytes());
    d.extend_from_slice(&depth.to_be_bytes());
    d.extend_from_slice(&mode.to_be_bytes());
    d
}

fn sections(d: &mut Vec<u8>, version: u16) {
    // colour-mode data: 3 bytes, resources: 2 bytes, layers: 1 byte
    d.extend_from_slice(&3u32.to_be_bytes());
    d.extend_from_slice(&[9, 9, 9]);
    d.extend_from_slice(&2u32.to_be_bytes());
    d.extend_from_slice(&[8, 8]);
    if version == 2 {
        d.extend_from_slice(&1u64.to_be_bytes());
    } else {
        d.extend_from_slice(&1u32.to_be_bytes());
    }
    d.push(7);
}

#[test]
fn packbits_literal_run() {
    let mut out = vec![0u8; 3];
    decode_packbits(&[0x02, 0x00, 0x00, 0x00], &mut out);
    assert_eq!(out, vec![0, 0, 0]);
    let mut out = vec![0u8; 4];
    decode_packbits(&[0x02, 0x00, 0x00, 0x00], &mut out);
    assert_eq!(out, vec![0, 0, 0, 0]);
}

#[test]
fn packbits_repeat_run() {
    let mut out = vec![0u8; 3];
    decode_packbits(&[0xFE, 0x05], &mut out);
    assert_eq!(out, vec![5, 5, 5]);
}

#[test]
fn packbits_noop_truncation_and_overflow() {
    let mut out = vec![9u8; 4];
    decode_packbits(&[0x80, 0x01, 0x41, 0x42], &mut out);
    assert_eq!(out, vec![0x41, 0x42, 9, 9]);
    // a literal announcing more bytes than there are
    let mut out = vec![9u8; 4];
    decode_packbits(&[0x05, 1, 2], &mut out);
    assert_eq!(out, vec![1, 2, 9, 9]);
    // a run longer than the line is cut
    let mut out = vec![0u8; 2];
    decode_packbits(&[0x81, 3], &mut out);
    assert_eq!(out, vec![3, 3]);
    // a repeat control byte with nothing after it
    let mut out = vec![4u8; 2];
    decode_packbits(&[0xFF], &mut out);
    assert_eq!(out, vec![4, 4]);
}

#[test]
fn raw_rgb_planes_are_interleaved() {
    let mut d = header(1, 3, 2, 2, 8, 3);
    sections(&mut d, 1);
    d.extend_from_slice(&0u16.to_be_bytes());
    d.extend_from_slice(&[1, 2, 3, 4, 5, 6, 7, 8, 9, 10, 11, 12]);
    let img = load_psd_composite(&d).unwrap();
    assert_eq!((img.width, img.height), (2, 2));
    assert_eq!(img.data, vec![1, 5, 9, 255, 2, 6, 10, 255, 3, 7, 11, 255, 4, 8, 12, 255]);
}

#[test]
fn raw_rgba_with_extra_channels_and_large_version() {
    let mut d = header(2, 5, 1, 2, 8, 3);
    sections(&mut d, 2);
    d.extend_from_slice(&0u16.to_be_bytes());
    d.extend_from_slice(&[1, 2, 3, 4, 5, 6, 7, 8]);
    let img = load_psd_composite(&d).unwrap();
    assert_eq!(img.data, vec![1, 3, 5, 7, 2, 4, 6, 8]);
}

#[test]
fn raw_grayscale_with_alpha() {
    let mut d = header(1, 2, 1, 2, 8, 1);
    sections(&mut d, 1);
    d.extend_from_slice(&0u16.to_be_bytes());
    d.extend_from_slice(&[10, 20, 100, 200]);
    let img = load_psd_composite(&d).unwrap();
    assert_eq!(img.data, vec![10, 10, 10, 100, 20, 20, 20, 200]);
}

#[test]
fn rle_grayscale_lines() {
    let mut d = header(1, 1, 2, 3, 8, 1);
    sections(&mut d, 1);
    d.extend_from_slice(&1u16.to_be_bytes());
    d.extend_from_slice(&2u16.to_be_bytes());
    d.extend_from_slice(&4u16.to_be_bytes());
    d.extend_from_slice(&[0xFE, 7]);
    d.extend_from_slice(&[0x02, 1, 2, 3]);
    let img = load_psd_composite(&d).unwrap();
    assert_eq!((img.width, img.height), (3, 2));
    assert_eq!(img.data, vec![7, 7, 7, 255, 7, 7, 7, 255, 7, 7, 7, 255, 1, 1, 1, 255, 2, 2, 2, 255, 3, 3, 3, 255]);
}

#[test]
fn rle_large_version_uses_four_byte_counts() {
    let mut d = header(2, 3, 1, 1, 8, 3);
    sections(&mut d, 2);
    d.extend_from_slice(&1u16.to_be_bytes());
    for _ in 0..3 {
        d.extend_from_slice(&2u32.to_be_bytes());
    }
    d.extend_from_slice(&[0x00, 40, 0x00, 50, 0x00, 60]);
    let img = load_psd_composite(&d).unwrap();
    assert_eq!(img.data, vec![40, 50, 60, 255]);
}

#[test]
fn decode_errors() {
    let mut bad = header(1, 3, 1, 1, 8, 3);
    bad[0] = b'X';
    assert_eq!(load_psd_composite(&bad).unwrap_err(), DecodeError::BadSignature);
    assert_eq!(load_psd_composite(b"8BP").unwrap_err(), DecodeError::Truncated);
    assert_eq!(load_psd_composite(&header(3, 3, 1, 1, 8, 3)).unwrap_err(), DecodeError::UnsupportedVersion(3));
    assert_eq!(load_psd_composite(&header(1, 3, 1, 1, 16, 3)).unwrap_err(), DecodeError::UnsupportedDepth(16));
    assert_eq!(load_psd_composite(&header(1, 4, 1, 1, 8, 4)).unwrap_err(), DecodeError::UnsupportedColorMode(4));
    // header alone: sections missing
    assert_eq!(load_psd_composite(&header(1, 3, 1, 1, 8, 3)).unwrap_err(), DecodeError::Truncated);
    let mut d = header(1, 3, 1, 1, 8, 3);
    sections(&mut d, 1);
    d.extend_from_slice(&2u16.to_be_bytes());
    assert_eq!(load_psd_composite(&d).unwrap_err(), DecodeError::UnsupportedCompression(2));
    let mut d = header(1, 3, 1, 1, 8, 3);
    sections(&mut d, 1);
    d.extend_from_slice(&0u16.to_be_bytes());
    d.extend_from_slice(&[1, 2]);
    assert_eq!(load_psd_composite(&d).unwrap_err(), DecodeError::Truncated);
    let mut d = header(1, 3, 0xFFFF_FFFF, 0xFFFF_FFFF, 8, 3);
    sections(&mut d, 1);
    d.extend_from_slice(&0u16.to_be_bytes());
    assert_eq!(load_psd_composite(&d).unwrap_err(), DecodeError::TooLarge);
}

#[test]
fn rle_large_version_long_line_count() {
    // one grayscale line of 70000 pixels, stored as literal runs of 128:
    // 70547 compressed bytes, more than a 16-bit count can hold
    let width: u32 = 70000;
    let pixels: Vec<u8> = (0..width).map(|i| (i % 251) as u8).collect();
    let mut line: Vec<u8> = Vec::new();
    for chunk in pixels.chunks(128) {
        line.push((chunk.len() - 1) as u8);
        line.extend_from_slice(chunk);
    }
    assert!(line.len() > 65535);
    let mut d = header(2, 1, 1, width, 8, 1);
    sections(&mut d, 2);
    d.extend_from_slice(&1u16.to_be_bytes());
    d.extend_from_slice(&(line.len() as u32).to_be_bytes());
    d.extend_from_slice(&line);
    let img = load_psd_composite(&d).unwrap();
    assert_eq!((img.width, img.height), (width, 1));
    for x in [0usize, 127, 128, 65535, 65536, 69999] {
        assert_eq!(&img.data[x * 4..x * 4 + 4], &[pixels[x], pixels[x], pixels[x], 255]);
    }
    // a count that runs past the end of the data
    let mut short = d.clone();
    short.truncate(d.len() - 1);
    assert_eq!(load_psd_composite(&short).unwrap_err(), DecodeError::Truncated);
}
