use std::io::Cursor;

use tachimi::compose::{add_padding_to_image, combine_images_horizontal};
use tachimi::fonts::{get_jp_font_path, get_system_font_path, jp_font_candidates, system_font_candidates};
use tachimi::loader::{load_image, LoadError};
use tachimi::layered::DecodeError;
use tachimi::raster::RasterImage;
use tachimi::thumbnail::{extract_psd_thumbnail, find_psd_thumbnail, ThumbnailRef};
use tachimi::types::WorkInfo;
use tachimi::workinfo::{author_line, title_block, LineKind};
use tachimi::batch::worker_count;

fn encode(format: image::ImageFormat, w: u32, h: u32, px: [u8; 3]) -> Vec<u8> {
    let img = image::RgbImage::from_pixel(w, h, image::Rgb(px));
    let mut out = Cursor::new(Vec::new());
    img.write_to(&mut out, format).unwrap();
    out.into_inner()
}

fn layered_with_resources(resources: &[u8]) -> Vec<u8> {
    let mut d: Vec<u8> = b"8BPS".to_vec();
    d.extend_from_slice(&1u16.to_be_bytes());
    d.extend_from_slice(&[0u8; 6]);
    d.extend_from_slice(&3u16.to_be_bytes());
    d.extend_from_slice(&600u32.to_be_bytes());
    d.extend_from_slice(&400u32.to_be_bytes());
    d.extend_from_slice(&8u16.to_be_bytes());
    d.extend_from_slice(&3u16.to_be_bytes());
    d.extend_from_slice(&0u32.to_be_bytes());
    d.extend_from_slice(&(resources.len() as u32).to_be_bytes());
    d.extend_from_slice(resources);
    d
}

fn block(id: u16, data: &[u8]) -> Vec<u8> {
    let mut b: Vec<u8> = b"8BIM".to_vec();
    b.extend_from_slice(&id.to_be_bytes());
    b.extend_from_slice(&[0, 0]);
    b.extend_from_slice(&(data.len() as u32).to_be_bytes());
    b.extend_from_slice(data);
    if data.len() % 2 == 1 {
        b.push(0);
    }
    b
}

fn thumbnail_block(jpeg: &[u8]) -> Vec<u8> {
    let mut data = 1u32.to_be_bytes().to_vec();
    data.extend_from_slice(&[0u8; 24]);
    data.extend_from_slice(jpeg);
    block(1036, &data)
}

#[test]
fn thumbnail_is_found_after_other_resources() {
    let jpeg = encode(image::ImageFormat::Jpeg, 8, 4, [200, 10, 10]);
    let mut res = block(1005, &[1, 2, 3]);
    res.extend_from_slice(&thumbnail_block(&jpeg));
    let file = layered_with_resources(&res);
    let t = find_psd_thumbnail(&file).unwrap();
    assert_eq!((t.width, t.height, t.len), (400, 600, jpeg.len()));
    assert_eq!(&file[t.start..t.start + t.len], &jpeg[..]);
    let (img, w, h) = extract_psd_thumbnail(&file).unwrap();
    assert_eq!((w, h), (400, 600));
    assert_eq!((img.width, img.height), (8, 4));
    assert_eq!(img.data.len(), 8 * 4 * 4);
    assert!(img.data[0] > 150 && img.data[1] < 60);
}

#[test]
fn thumbnail_absent_or_unusable() {
    let file = layered_with_resources(&block(1005, &[1, 2]));
    assert_eq!(find_psd_thumbnail(&file), None);
    let mut raw = 2u32.to_be_bytes().to_vec();
    raw.extend_from_slice(&[0u8; 24]);
    let file = layered_with_resources(&block(1033, &raw));
    assert_eq!(find_psd_thumbnail(&file), None);
    assert_eq!(find_psd_thumbnail(b"GIF89a not layered at all......."), None);
    let bad_jpeg = layered_with_resources(&thumbnail_block(&[1, 2, 3, 4]));
    assert_eq!(
        find_psd_thumbnail(&bad_jpeg),
        Some(ThumbnailRef { start: bad_jpeg.len() - 4, len: 4, width: 400, height: 600 })
    );
    assert!(extract_psd_thumbnail(&bad_jpeg).is_none());
}

#[test]
fn general_formats_are_decoded() {
    let png = encode(image::ImageFormat::Png, 3, 2, [1, 2, 3]);
    let img = load_image("scan.PNG", &png).unwrap();
    assert_eq!((img.width, img.height), (3, 2));
    assert_eq!(img.data, [1u8, 2, 3, 255].repeat(6));
    assert_eq!(load_image("scan.png", b"garbage").unwrap_err(), LoadError::Undecodable);
    assert_eq!(load_image("scan.psd", &png).unwrap_err(), LoadError::Layered(DecodeError::BadSignature));
}

#[test]
fn font_choice() {
    assert_eq!(system_font_candidates().len(), 4);
    assert_eq!(jp_font_candidates()[5], "C:\\Windows\\Fonts\\msgothic.ttc");
    assert_eq!(get_system_font_path(&vec![false, false, true, true]), Some("C:\\Windows\\Fonts\\segoeui.ttf".to_string()));
    assert_eq!(get_system_font_path(&vec![false; 4]), None);
    assert_eq!(get_jp_font_path(&vec![true; 6]), Some("C:\\Windows\\Fonts\\YuGothB.ttc".to_string()));
}

fn info(author_type: u8, a1: &str, a2: &str) -> WorkInfo {
    WorkInfo {
        label: "レーベル".to_string(),
        author_type,
        author1: a1.to_string(),
        author2: a2.to_string(),
        title: "タイトル".to_string(),
        subtitle: String::new(),
        version: "1".to_string(),
    }
}

#[test]
fn title_page_lines() {
    let lines = title_block(&info(0, "", ""));
    assert_eq!(lines.len(), 2);
    assert_eq!(lines[0].kind, LineKind::Title);
    assert_eq!(lines[0].text, "タイトル");
    assert_eq!(lines[1].kind, LineKind::Version);
    assert_eq!(author_line(&info(0, "山田", "")), "著　山田");
    assert_eq!(author_line(&info(0, "", "x")), "");
    assert_eq!(author_line(&info(1, "山田", "佐藤")), "作画　山田　　原作　佐藤");
    assert_eq!(author_line(&info(1, "", "佐藤")), "原作　佐藤");
    assert_eq!(author_line(&info(2, "そのまま", "x")), "そのまま");
}

fn solid(w: u32, h: u32, v: u8) -> RasterImage {
    RasterImage { width: w, height: h, data: vec![v; (w * h * 4) as usize] }
}

#[test]
fn spread_composition() {
    let combined = combine_images_horizontal(&solid(2, 2, 10), Some(&solid(3, 1, 20)), 1);
    assert_eq!((combined.width, combined.height), (6, 2));
    let px = |x: u32, y: u32| combined.data[((y * 6 + x) * 4) as usize];
    assert_eq!(px(0, 0), 10);
    assert_eq!(px(1, 1), 10);
    assert_eq!(px(2, 0), 255);
    assert_eq!(px(3, 0), 20);
    assert_eq!(px(5, 0), 20);
    assert_eq!(px(3, 1), 255);
    let alone = combine_images_horizontal(&solid(2, 2, 10), None, 4);
    assert_eq!((alone.width, alone.height), (6, 2));
}

#[test]
fn padding() {
    let padded = add_padding_to_image(&solid(1, 1, 0), 2);
    assert_eq!((padded.width, padded.height), (5, 5));
    assert_eq!(padded.data[((2 * 5 + 2) * 4) as usize], 0);
    assert_eq!(padded.data[0], 255);
    assert_eq!(padded.data.iter().filter(|&&b| b == 0).count(), 4);
}

#[test]
fn worker_pool_size() {
    assert_eq!(worker_count(4), 8);
    assert_eq!(worker_count(16), 32);
    assert_eq!(worker_count(64), 32);
}
