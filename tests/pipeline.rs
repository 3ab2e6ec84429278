use tachimi::pipeline::{apply_resize, nombre_box, process_single_image, tachikiri_mode, NombreBox, ProcessError, TachikiriMode};
use tachimi::raster::RasterImage;
use tachimi::transform::{blend_pixels, draw_stroke, scaled_crop_rect, to_rgb_bytes};
use tachimi::paint::CropRect;
use tachimi::types::{
    color_to_rgb, color_to_rgba, default_nombre_size, default_nombre_start, default_resize_mode,
    default_resize_percent, get_nombre_font_size, get_nombre_font_size_pt, ProcessOptions, Rgba,
};

fn options(mode: &str) -> ProcessOptions {
    ProcessOptions {
        crop_left: 10,
        crop_top: 10,
        crop_right: 90,
        crop_bottom: 90,
        tachikiri_type: mode.to_string(),
        stroke_color: "black".to_string(),
        fill_color: "white".to_string(),
        fill_opacity: 50,
        reference_width: 0,
        reference_height: 0,
        add_nombre: false,
        nombre_start_number: default_nombre_start(),
        nombre_size: default_nombre_size(),
        resize_mode: default_resize_mode(),
        resize_percent: default_resize_percent(),
    }
}

fn gray(w: u32, h: u32, v: u8) -> RasterImage {
    let mut data = Vec::new();
    for _ in 0..(w * h) {
        data.extend_from_slice(&[v, v, v, 255]);
    }
    RasterImage { width: w, height: h, data }
}

fn pixel(img: &RasterImage, x: u32, y: u32) -> [u8; 4] {
    let i = ((y * img.width + x) * 4) as usize;
    [img.data[i], img.data[i + 1], img.data[i + 2], img.data[i + 3]]
}

#[test]
fn defaults() {
    assert_eq!(default_nombre_start(), 1);
    assert_eq!(default_nombre_size(), "medium");
    assert_eq!(default_resize_mode(), "none");
    assert_eq!(default_resize_percent(), 50);
}

#[test]
fn crop_rect_is_rescaled_and_clamped() {
    let mut o = options("crop_only");
    o.reference_width = 1000;
    o.reference_height = 2000;
    o.crop_left = 100;
    o.crop_top = 200;
    o.crop_right = 900;
    o.crop_bottom = 1800;
    assert_eq!(scaled_crop_rect(&o, 500, 1000), CropRect { left: 50, top: 100, right: 450, bottom: 900 });
    // rounding half up: 3 * 1 / 2 = 1.5
    o.crop_left = 3;
    o.reference_width = 2;
    o.crop_right = 5000;
    let r = scaled_crop_rect(&o, 1, 1000);
    assert_eq!((r.left, r.right), (1, 1));
    // no reference size: edges used as given, clamped, right never left of left
    let mut o = options("crop_only");
    o.crop_left = 80;
    o.crop_right = 20;
    o.crop_bottom = 500;
    let r = scaled_crop_rect(&o, 100, 100);
    assert_eq!(r, CropRect { left: 80, top: 10, right: 80, bottom: 100 });
}

#[test]
fn fill_and_stroke_regions() {
    let img = gray(100, 100, 100);
    let page = process_single_image(img, &options("fill_and_stroke"), None).unwrap();
    let out = page.image;
    assert_eq!((out.width, out.height), (100, 100));
    // alpha 127: (100 * 128 + 255 * 127) / 255 = 177
    let blended = [177, 177, 177, 255];
    for &(x, y) in &[(0, 0), (5, 50), (95, 50), (50, 9), (50, 90), (99, 99), (9, 9)] {
        assert_eq!(pixel(&out, x, y), blended, "({}, {})", x, y);
    }
    for &(x, y) in &[(50, 50), (11, 11), (88, 88)] {
        assert_eq!(pixel(&out, x, y), [100, 100, 100, 255]);
    }
    for &(x, y) in &[(10, 10), (89, 50), (50, 89), (10, 60)] {
        assert_eq!(pixel(&out, x, y), [0, 0, 0, 255]);
    }
    assert!(page.nombre.is_none());
}

#[test]
fn fill_only_leaves_inside() {
    let img = gray(100, 100, 100);
    let out = process_single_image(img, &options("fill_white"), None).unwrap().image;
    assert_eq!(pixel(&out, 10, 10), [100, 100, 100, 255]);
    assert_eq!(pixel(&out, 9, 10), [177, 177, 177, 255]);
}

#[test]
fn crop_modes() {
    let mut img = gray(4, 3, 0);
    for y in 0..3u32 {
        for x in 0..4u32 {
            let i = ((y * 4 + x) * 4) as usize;
            img.data[i] = (y * 10 + x) as u8;
        }
    }
    let mut o = options("crop_only");
    o.crop_left = 1;
    o.crop_top = 1;
    o.crop_right = 3;
    o.crop_bottom = 3;
    let out = process_single_image(img, &o, None).unwrap().image;
    assert_eq!((out.width, out.height), (2, 2));
    assert_eq!(out.data[0], 11);
    assert_eq!(out.data[4], 12);
    assert_eq!(out.data[8], 21);
    assert_eq!(out.data[12], 22);

    let mut o = options("crop_and_stroke");
    o.stroke_color = "cyan".to_string();
    o.crop_left = 0;
    o.crop_top = 0;
    o.crop_right = 3;
    o.crop_bottom = 3;
    let out = process_single_image(gray(5, 5, 50), &o, None).unwrap().image;
    assert_eq!((out.width, out.height), (3, 3));
    assert_eq!(pixel(&out, 0, 0), [0, 255, 255, 255]);
    assert_eq!(pixel(&out, 2, 1), [0, 255, 255, 255]);
    assert_eq!(pixel(&out, 1, 1), [50, 50, 50, 255]);
}

#[test]
fn stroke_only_and_unknown_mode() {
    let mut o = options("stroke_only");
    o.stroke_color = "white".to_string();
    o.crop_left = 1;
    o.crop_top = 1;
    o.crop_right = 4;
    o.crop_bottom = 4;
    let out = process_single_image(gray(5, 5, 50), &o, None).unwrap().image;
    assert_eq!(pixel(&out, 1, 1), [255, 255, 255, 255]);
    assert_eq!(pixel(&out, 3, 2), [255, 255, 255, 255]);
    assert_eq!(pixel(&out, 2, 2), [50, 50, 50, 255]);
    assert_eq!(pixel(&out, 0, 0), [50, 50, 50, 255]);
    assert_eq!(pixel(&out, 4, 4), [50, 50, 50, 255]);

    let mut o = options("sparkle");
    o.crop_left = 0;
    o.crop_top = 0;
    o.crop_right = 5;
    o.crop_bottom = 5;
    let out = process_single_image(gray(5, 5, 50), &o, None).unwrap().image;
    assert_eq!(out.data, gray(5, 5, 50).data);
    assert_eq!(tachikiri_mode("sparkle"), TachikiriMode::Unrecognised);
    assert_eq!(tachikiri_mode("crop"), TachikiriMode::CropOnly);
    assert_eq!(tachikiri_mode("none"), TachikiriMode::Passthrough);
}

#[test]
fn degenerate_crop_is_an_error() {
    let mut o = options("crop_only");
    o.crop_left = 50;
    o.crop_right = 50;
    assert_eq!(process_single_image(gray(100, 100, 0), &o, None).unwrap_err(), ProcessError::InvalidCrop);
    // passthrough does not look at the rectangle
    let mut o = options("none");
    o.crop_left = 50;
    o.crop_right = 50;
    assert!(process_single_image(gray(100, 100, 0), &o, None).is_ok());
}

#[test]
fn nombre_box_placement() {
    assert_eq!(
        nombre_box(1000, 2000, 120, 100, 0),
        NombreBox { x: 390, y: 1760, width: 220, height: 192, text_x: 450, text_y: 1796 }
    );
    assert_eq!(nombre_box(1000, 2000, 120, 100, 300).y, 1754);
    // a margin of half the page or more is ignored
    assert_eq!(nombre_box(1000, 2000, 120, 100, 1000).y, 1760);
    // a margin thinner than the box: kept 5 px above the page's bottom
    assert_eq!(nombre_box(1000, 2000, 120, 100, 100).y, 1803);
}

#[test]
fn nombre_stamp_box_is_painted() {
    let mut o = options("none");
    o.add_nombre = true;
    o.nombre_size = "small".to_string();
    o.crop_bottom = 100;
    let page = process_single_image(gray(400, 400, 0), &o, Some(30)).unwrap();
    // font 80: padding 40 across, 24 down; box 110 x 128
    let b = page.nombre.unwrap();
    assert_eq!((b.width, b.height), (110, 128));
    assert_eq!(b.x, 145);
    // margin 300 is not under half of 400: sits 32 px above the bottom
    assert_eq!(b.y, 400 - 32 - 128);
    assert_eq!(pixel(&page.image, 150, 250), [255, 255, 255, 210]);
    assert_eq!(pixel(&page.image, 10, 10), [0, 0, 0, 255]);
}

#[test]
fn resize_percent_and_fixed() {
    let mut o = options("none");
    o.resize_mode = "percent".to_string();
    o.resize_percent = 50;
    let out = apply_resize(gray(4, 4, 10), &o).unwrap();
    assert_eq!((out.width, out.height), (2, 2));
    assert_eq!(out.data.len(), 16);
    o.resize_percent = 25;
    let out = apply_resize(gray(10, 6, 10), &o).unwrap();
    // 2.5 -> 3, 1.5 -> 2
    assert_eq!((out.width, out.height), (3, 2));
    let out = apply_resize(gray(3, 3, 10), &options("none")).unwrap();
    assert_eq!((out.width, out.height), (3, 3));
}

#[test]
fn resize_fixed_width_bound() {
    let mut o = options("none");
    o.resize_mode = "fixed".to_string();
    let out = apply_resize(gray(45, 60, 10), &o).unwrap();
    assert_eq!((out.width, out.height), (2250, 3000));
}

#[test]
fn resize_fixed_height_bound() {
    let mut o = options("none");
    o.resize_mode = "fixed".to_string();
    let out = apply_resize(gray(10, 20, 10), &o).unwrap();
    assert_eq!((out.width, out.height), (1500, 3000));
    assert_eq!(out.data.len(), 1500 * 3000 * 4);
}

#[test]
fn resize_too_large() {
    let mut o = options("none");
    o.resize_mode = "percent".to_string();
    o.resize_percent = u32::MAX;
    assert_eq!(apply_resize(gray(1000, 1000, 10), &o).unwrap_err(), ProcessError::TooLarge);
}

#[test]
fn colours_and_sizes() {
    assert_eq!(color_to_rgb("cyan"), Rgba { r: 0, g: 255, b: 255, a: 255 });
    assert_eq!(color_to_rgb("mauve"), Rgba { r: 0, g: 0, b: 0, a: 255 });
    assert_eq!(color_to_rgba("black", 100), Rgba { r: 0, g: 0, b: 0, a: 255 });
    assert_eq!(color_to_rgba("mauve", 40), Rgba { r: 255, g: 255, b: 255, a: 102 });
    assert_eq!(color_to_rgba("white", 255).a, 255);
    assert_eq!(get_nombre_font_size("xlarge"), 200);
    assert_eq!(get_nombre_font_size("odd"), 120);
    assert_eq!(get_nombre_font_size_pt("medium"), 9);
    assert_eq!(get_nombre_font_size_pt("odd"), 7);
}

#[test]
fn blend_and_flatten() {
    let r = blend_pixels(Rgba { r: 0, g: 100, b: 255, a: 10 }, Rgba { r: 255, g: 255, b: 0, a: 51 });
    assert_eq!(r, Rgba { r: 51, g: 131, b: 204, a: 255 });
    let mut img = gray(2, 1, 7);
    img.data[3] = 0;
    assert_eq!(to_rgb_bytes(&img), vec![7, 7, 7, 7, 7, 7]);
    let mut img = gray(3, 3, 1);
    draw_stroke(&mut img, "white");
    assert_eq!(pixel(&img, 1, 1), [1, 1, 1, 255]);
    assert_eq!(pixel(&img, 1, 0), [255, 255, 255, 255]);
}
