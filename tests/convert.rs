use std::io::Cursor;
use webp_converter::convert::{conversion_success, encode_failure, load_failure, load_image};
use webp_converter::payload::decode_payload;

fn tiny_png() -> Vec<u8> {
    let img = image::RgbaImage::from_pixel(2, 2, image::Rgba([10, 20, 30, 255]));
    let mut out = Cursor::new(Vec::new());
    img.write_to(&mut out, image::ImageOutputFormat::Png).unwrap();
    out.into_inner()
}

#[test]
fn invalid_image_bytes_give_a_failure_record() {
    let data = vec![1u8, 2, 3, 4, 5];
    let r = match load_image(&data) {
        Ok(_) => panic!("garbage decoded as an image"),
        Err(r) => r,
    };
    assert!(!r.success);
    assert_eq!(r.new_size, 0);
    assert_eq!(r.original_size, 5);
    assert_eq!(r.output_path, "");
    assert!(r.base64_data.is_none());
    let e = r.error.unwrap();
    assert!(e.starts_with("Failed to load image: "), "{}", e);
    assert!(!e.is_empty());
}

#[test]
fn empty_input_is_not_an_image() {
    let r = load_image(&Vec::new()).err().unwrap();
    assert!(!r.success);
    assert_eq!(r.original_size, 0);
}

#[test]
fn valid_png_loads() {
    let img = load_image(&tiny_png()).ok().unwrap();
    assert_eq!(img.width(), 2);
    assert_eq!(img.height(), 2);
}

#[test]
fn failure_records_carry_their_messages() {
    let l = load_failure(7, "bad header");
    assert_eq!(l.error.as_deref(), Some("Failed to load image: bad header"));
    assert_eq!(l.original_size, 7);
    let e = encode_failure(9, "out of memory");
    assert_eq!(e.error.as_deref(), Some("Failed to encode WebP: out of memory"));
    assert!(!e.success);
    assert_eq!(e.new_size, 0);
}

#[test]
fn success_record_holds_payload() {
    let r = conversion_success(100, &b"hello".to_vec(), "out.webp".to_string());
    assert!(r.success);
    assert_eq!(r.output_path, "out.webp");
    assert_eq!(r.original_size, 100);
    assert_eq!(r.new_size, 5);
    assert!(r.error.is_none());
    assert_eq!(r.base64_data.as_deref(), Some("aGVsbG8="));
}

#[test]
fn converted_bytes_survive_the_payload_round_trip() {
    let png = tiny_png();
    let img = load_image(&png).ok().unwrap();
    let rgba = img.to_rgba8();
    let encoded = webp::Encoder::from_rgba(rgba.as_raw(), img.width(), img.height()).encode(80.0);
    let bytes = encoded.to_vec();
    assert!(bytes.starts_with(b"RIFF"));
    let r = conversion_success(png.len(), &bytes, "x.webp".to_string());
    assert_eq!(r.new_size, bytes.len());
    let back = decode_payload(&r.base64_data.unwrap()).unwrap();
    assert_eq!(back, bytes);
}
