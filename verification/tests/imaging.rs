use image::codecs::gif::GifEncoder;
use image::{Delay, Frame, ImageFormat, RgbImage, RgbaImage};
use logsday::imaging::{convert_to_webp, frame_timestamps};

fn png_bytes(width: u32, height: u32) -> Vec<u8> {
    let img = RgbImage::from_pixel(width, height, image::Rgb([200, 10, 10]));
    let mut out = Vec::new();
    img.write_to(&mut std::io::Cursor::new(&mut out), ImageFormat::Png).unwrap();
    out
}

fn gif_bytes(delays_ms: &[u32]) -> Vec<u8> {
    let mut out = Vec::new();
    {
        let mut enc = GifEncoder::new(&mut out);
        for (i, d) in delays_ms.iter().enumerate() {
            let px = image::Rgba([(i * 60) as u8, 0, 0, 255]);
            let frame = Frame::from_parts(RgbaImage::from_pixel(40, 20, px), 0, 0, Delay::from_numer_denom_ms(*d, 1));
            enc.encode_frame(frame).unwrap();
        }
    }
    out
}

#[test]
fn webp_is_kept_unchanged() {
    let mut bytes = b"RIFF\x10\x00\x00\x00WEBPVP8 ".to_vec();
    bytes.extend_from_slice(&[1, 2, 3, 4]);
    assert_eq!(convert_to_webp(&bytes), Some(bytes.clone()));
}

#[test]
fn unknown_format_is_refused() {
    assert_eq!(convert_to_webp(b"hello, this is not a picture"), None);
    assert_eq!(convert_to_webp(&[]), None);
}

#[test]
fn png_becomes_webp_thumbnail() {
    let out = convert_to_webp(&png_bytes(800, 600)).unwrap();
    assert_eq!(&out[0..4], b"RIFF");
    assert_eq!(&out[8..12], b"WEBP");
    let decoded = image::load_from_memory(&out).unwrap();
    assert_eq!((decoded.width(), decoded.height()), (400, 300));
}

#[test]
fn small_png_is_scaled_to_fit() {
    let out = convert_to_webp(&png_bytes(30, 20)).unwrap();
    let decoded = image::load_from_memory(&out).unwrap();
    assert_eq!((decoded.width(), decoded.height()), (400, 267));
}

#[test]
fn gif_becomes_animated_webp() {
    let out = convert_to_webp(&gif_bytes(&[100, 50, 70])).unwrap();
    assert_eq!(&out[0..4], b"RIFF");
    assert_eq!(&out[8..12], b"WEBP");
}

#[test]
fn broken_gif_is_refused() {
    assert_eq!(convert_to_webp(b"GIF89a\x01"), None);
}

#[test]
fn timestamps_of_frames() {
    assert_eq!(frame_timestamps(&vec![(100, 1), (50, 1)]), vec![0, 100, 150]);
    assert_eq!(frame_timestamps(&vec![(1, 3), (7, 2)]), vec![0, 0, 3]);
    assert_eq!(frame_timestamps(&vec![]), vec![0]);
    assert_eq!(frame_timestamps(&vec![(u32::MAX, 1), (5, 1)]), vec![0, -1, 4]);
    assert_eq!(frame_timestamps(&vec![(i32::MAX as u32, 1), (1, 1)]), vec![0, i32::MAX, i32::MIN]);
}

#[test]
fn gif_frames_are_scaled_to_fit() {
    let out = convert_to_webp(&gif_bytes(&[100, 50])).unwrap();
    let decoded = image::load_from_memory(&out).unwrap();
    assert_eq!((decoded.width(), decoded.height()), (400, 200));
}

#[test]
fn gif_with_equal_timestamps_is_refused() {
    assert_eq!(convert_to_webp(&gif_bytes(&[0, 0])), None);
}

#[test]
fn gif_without_frames_is_refused() {
    assert_eq!(convert_to_webp(&gif_bytes(&[])), None);
}
