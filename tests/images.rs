use escpos_rs::image::rasterize;
use escpos_rs::{Bitmap, EscposImage, Font, ImageMode, Instruction, Justification, PrintData, PrinterProfile};

fn solid(w: u32, h: u32, rgba: [u8; 4]) -> Bitmap {
    let mut pixels = Vec::new();
    for _ in 0..(w * h) {
        pixels.extend_from_slice(&rgba);
    }
    Bitmap { width: w, height: h, pixels }
}

fn framed(mode: u8, width: u16, body: &[u8]) -> Vec<u8> {
    let mut v = vec![0x1b, 0x33, 0x00, 0x1b, 0x2a, mode, (width % 256) as u8, (width / 256) as u8];
    v.extend_from_slice(body);
    v.push(b'\n');
    v.extend_from_slice(&[0x1b, 0x32, 0x1d, 0x40]);
    v
}

#[test]
fn black_square_single_density() {
    let out = rasterize(&solid(8, 8, [0, 0, 0, 255]), ImageMode::EightDotSingleDensity, 8);
    assert_eq!(framed(0x00, 8, &[0xff; 8]), out);
}

#[test]
fn double_density_halves_the_height() {
    let out = rasterize(&solid(8, 8, [0, 0, 0, 255]), ImageMode::EightDotDoubleDensity, 8);
    assert_eq!(framed(0x01, 8, &[0xf0; 8]), out);
}

#[test]
fn twentyfour_dot_packs_three_bands() {
    let out = rasterize(&solid(8, 8, [0, 0, 0, 255]), ImageMode::TwentyfourDotSingleDensity, 8);
    assert_eq!(framed(0x20, 8, &[0xff; 24]), out);
}

#[test]
fn resize_to_printer_width() {
    let out = rasterize(&solid(4, 4, [0, 0, 0, 255]), ImageMode::EightDotSingleDensity, 300);
    assert_eq!(&[0x1b, 0x2a, 0x00, 44, 1], &out[3..8]);
    assert!(out.len() > 300);
}

#[test]
fn light_and_transparent_pixels_are_blank() {
    let white = rasterize(&solid(8, 8, [255, 255, 255, 255]), ImageMode::EightDotSingleDensity, 8);
    assert_eq!(framed(0x00, 8, &[0x00; 8]), white);
    let clear = rasterize(&solid(8, 8, [0, 0, 0, 64]), ImageMode::EightDotSingleDensity, 8);
    assert_eq!(framed(0x00, 8, &[0x00; 8]), clear);
    let grey = rasterize(&solid(8, 8, [78, 78, 78, 255]), ImageMode::EightDotSingleDensity, 8);
    assert_eq!(framed(0x00, 8, &[0x00; 8]), grey);
    let dark = rasterize(&solid(8, 8, [77, 77, 77, 255]), ImageMode::EightDotSingleDensity, 8);
    assert_eq!(framed(0x00, 8, &[0xff; 8]), dark);
}

#[test]
fn cache_then_feed_gives_the_same_bytes() {
    let mut img = EscposImage::new(solid(8, 8, [0, 0, 0, 255]), 255, Justification::Left).unwrap();
    assert!(!img.is_cached(ImageMode::EightDotSingleDensity, 8));
    let lazy1 = img.feed(ImageMode::EightDotSingleDensity, 8);
    let lazy2 = img.feed(ImageMode::EightDotSingleDensity, 8);
    assert_eq!(lazy1, lazy2);
    img.cache_for(ImageMode::EightDotSingleDensity, 8);
    assert!(img.is_cached(ImageMode::EightDotSingleDensity, 8));
    assert_eq!(lazy1, img.feed(ImageMode::EightDotSingleDensity, 8));
    assert_eq!(framed(0x00, 8, &[0xff; 8]), lazy1);
}

#[test]
fn scaling_centres_the_image() {
    let img = EscposImage::new(solid(8, 8, [0, 0, 0, 255]), 128, Justification::Center).unwrap();
    let out = img.feed(ImageMode::EightDotSingleDensity, 8);
    assert_eq!(framed(0x00, 8, &[0x00, 0x00, 0xf0, 0xf0, 0xf0, 0xf0, 0x00, 0x00]), out);
}

#[test]
fn persisted_image_restores_its_cache() {
    let mut img = EscposImage::new(solid(8, 8, [0, 0, 0, 255]), 255, Justification::Left).unwrap();
    img.cache_for(ImageMode::EightDotSingleDensity, 8);
    img.cache_for(ImageMode::TwentyfourDotDoubleDensity, 16);
    let (source, keys) = img.to_persisted();
    assert!(source.starts_with("iVBORw0KGgo"));
    assert_eq!(vec![(8, ImageMode::EightDotSingleDensity), (16, ImageMode::TwentyfourDotDoubleDensity)], keys);
    let restored = EscposImage::from_persisted(&source, &keys).unwrap();
    assert_eq!(keys, restored.to_persisted().1);
    for (w, m) in keys {
        assert_eq!(img.feed(m, w), restored.feed(m, w));
    }
}

#[test]
fn persisted_image_rejects_bad_input() {
    assert!(matches!(EscposImage::from_persisted("not base64!", &vec![]), Err(escpos_rs::Error::InvalidBase64)));
    assert!(matches!(EscposImage::from_persisted("AAAA", &vec![]), Err(escpos_rs::Error::ImageError(_))));
}

#[test]
fn image_instruction_from_png() {
    let mut png = std::io::Cursor::new(Vec::new());
    image::RgbaImage::from_pixel(8, 8, image::Rgba([0, 0, 0, 255]))
        .write_to(&mut png, image::ImageOutputFormat::Png)
        .unwrap();
    let i = Instruction::image(png.into_inner(), 255, Justification::Left).unwrap();
    let p = PrinterProfile::terminal_builder().with_width(8).with_font_width(Font::FontA, 20).build();
    assert_eq!(framed(0x00, 8, &[0xff; 8]), i.to_vec(&p, &PrintData::builder().build()).unwrap());
    assert!(matches!(Instruction::image(vec![1, 2, 3], 255, Justification::Left), Err(escpos_rs::Error::ImageError(_))));
}

#[test]
fn empty_scaled_image_is_an_error() {
    assert!(matches!(EscposImage::new(solid(8, 8, [0, 0, 0, 255]), 0, Justification::Left), Err(escpos_rs::Error::ImageError(_))));
    assert!(EscposImage::new(solid(8, 8, [0, 0, 0, 255]), 32, Justification::Right).is_ok());
}

#[test]
fn profile_density_is_used() {
    let i = Instruction::image(
        {
            let mut png = std::io::Cursor::new(Vec::new());
            image::RgbaImage::from_pixel(8, 8, image::Rgba([0, 0, 0, 255]))
                .write_to(&mut png, image::ImageOutputFormat::Png)
                .unwrap();
            png.into_inner()
        },
        255,
        Justification::Left,
    )
    .unwrap();
    let p = PrinterProfile::terminal_builder()
        .with_width(8)
        .with_image_mode(ImageMode::TwentyfourDotSingleDensity)
        .build();
    assert_eq!(framed(0x20, 8, &[0xff; 24]), i.to_vec(&p, &PrintData::builder().build()).unwrap());
}

#[test]
fn feed_reports_lazy_rasterization() {
    let mut img = EscposImage::new(solid(8, 8, [0, 0, 0, 255]), 255, Justification::Left).unwrap();
    let (lazy, rasterized) = img.feed_traced(ImageMode::EightDotDoubleDensity, 8);
    assert!(rasterized);
    img.cache_for(ImageMode::EightDotDoubleDensity, 8);
    let (cached, rasterized) = img.feed_traced(ImageMode::EightDotDoubleDensity, 8);
    assert!(!rasterized);
    assert_eq!(lazy, cached);
}

#[test]
fn tall_raster_is_not_capped() {
    let out = rasterize(&solid(1, 10000, [0, 0, 0, 255]), ImageMode::EightDotSingleDensity, 8);
    let lines = 10000;
    assert_eq!(3 + lines * (3 + 2 + 8 + 1) + 4, out.len());
    assert_eq!(&[0x1b, 0x2a, 0x00, 8, 0], &out[3..8]);
    assert_eq!(&[0x1b, 0x32, 0x1d, 0x40], &out[out.len() - 4..]);
}
