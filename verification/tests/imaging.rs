use base64::Engine;
use findout::conversation::ImagePayload;
use findout::imaging::{
    base64_decode, clipboard_image_dimensions, normalize_image_bytes, normalize_image_payload,
    normalize_rgba_image, Rgba8Image, CANVAS_BG, CANVAS_HEIGHT, CANVAS_WIDTH, MAX_IMAGE_BASE64_CHARS,
    MAX_IMAGE_DIMENSION,
};
use image::GenericImageView;

fn filled(width: u32, height: u32, pixel: [u8; 4]) -> Rgba8Image {
    let mut pixels = Vec::new();
    for _ in 0..(width as usize * height as usize) {
        pixels.extend_from_slice(&pixel);
    }
    Rgba8Image::from_raw(width, height, pixels).unwrap()
}

fn decoded(payload: &ImagePayload) -> image::DynamicImage {
    let bytes = base64::engine::general_purpose::STANDARD
        .decode(&payload.data)
        .unwrap();
    image::load_from_memory(&bytes).unwrap()
}

#[test]
fn normalizes_small_and_large_images() {
    let small = filled(2, 1, [255, 0, 0, 255]);
    let padded = normalize_rgba_image(small).unwrap();
    let image = decoded(&padded).to_rgba8();
    assert_eq!(image.dimensions(), (CANVAS_WIDTH, CANVAS_HEIGHT));
    assert_eq!(image.get_pixel(0, 0).0, CANVAS_BG);

    let wide = filled(4_097, 1, [0, 255, 0, 255]);
    let resized = normalize_rgba_image(wide).unwrap();
    assert_eq!(decoded(&resized).dimensions(), (MAX_IMAGE_DIMENSION, 1));
}

#[test]
fn small_images_are_centred_on_the_canvas() {
    let payload = normalize_rgba_image(filled(2, 2, [255, 0, 0, 255])).unwrap();
    assert_eq!(payload.mime_type, "image/png");
    let image = decoded(&payload).to_rgba8();
    assert_eq!(image.get_pixel(959, 539).0, [255, 0, 0, 255]);
    assert_eq!(image.get_pixel(960, 540).0, [255, 0, 0, 255]);
    assert_eq!(image.get_pixel(958, 539).0, CANVAS_BG);
}

#[test]
fn raw_images_need_four_bytes_per_pixel() {
    assert!(Rgba8Image::from_raw(2, 2, vec![0; 15]).is_none());
    assert!(Rgba8Image::from_raw(2, 2, vec![0; 16]).is_some());
    assert!(Rgba8Image::from_raw(0, 5, Vec::new()).is_some());
    assert_eq!(
        normalize_rgba_image(Rgba8Image::from_raw(0, 5, Vec::new()).unwrap())
            .err()
            .unwrap(),
        "Image dimensions are out of range"
    );
}

fn png_bytes(width: u32, height: u32) -> Vec<u8> {
    let image = image::RgbaImage::from_pixel(width, height, image::Rgba([1, 2, 3, 255]));
    let mut out = std::io::Cursor::new(Vec::new());
    image::DynamicImage::ImageRgba8(image)
        .write_to(&mut out, image::ImageFormat::Png)
        .unwrap();
    out.into_inner()
}

#[test]
fn encoded_images_are_checked_before_decoding() {
    let png = png_bytes(3, 2);
    let payload = normalize_image_bytes("image/png", &png).unwrap();
    assert_eq!(decoded(&payload).dimensions(), (CANVAS_WIDTH, CANVAS_HEIGHT));
    assert_eq!(
        normalize_image_bytes("image/png", &[]).err().unwrap(),
        "Image is too large or empty"
    );
    assert_eq!(
        normalize_image_bytes("image/gif", &png).err().unwrap(),
        "Unsupported image type — send PNG or JPEG"
    );
    assert_eq!(
        normalize_image_bytes("image/png", b"not an image").err().unwrap(),
        "Unsupported or corrupt image"
    );
    assert_eq!(
        normalize_image_bytes("image/jpeg", &png).err().unwrap(),
        "Unsupported or corrupt image"
    );
}

#[test]
fn attached_images_must_be_canonical_base64() {
    let png = png_bytes(1, 1);
    let data = base64::engine::general_purpose::STANDARD.encode(&png);
    let ok = normalize_image_payload(ImagePayload {
        mime_type: "IMAGE/PNG".to_owned(),
        data: data.clone(),
    })
    .unwrap();
    assert_eq!(ok.mime_type, "image/png");
    assert_eq!(
        normalize_image_payload(ImagePayload {
            mime_type: "image/png".to_owned(),
            data: format!("{data}\n"),
        })
        .err()
        .unwrap(),
        "Invalid image data"
    );
    assert_eq!(
        normalize_image_payload(ImagePayload {
            mime_type: "image/png".to_owned(),
            data: "aGVsbG8hPw".to_owned(),
        })
        .err()
        .unwrap(),
        "Invalid image data"
    );
    assert_eq!(
        normalize_image_payload(ImagePayload {
            mime_type: "image/webp".to_owned(),
            data,
        })
        .err()
        .unwrap(),
        "Unsupported image type — send PNG or JPEG"
    );
    assert_eq!(
        normalize_image_payload(ImagePayload {
            mime_type: "image/png".to_owned(),
            data: "A".repeat(MAX_IMAGE_BASE64_CHARS + 1),
        })
        .err()
        .unwrap(),
        "Image is too large"
    );
}

#[test]
fn clipboard_images_must_fit() {
    assert_eq!(clipboard_image_dimensions(2, 1, 8), Ok((2, 1)));
    assert_eq!(
        clipboard_image_dimensions(2, 1, 7).err().unwrap(),
        "Clipboard image is out of range"
    );
    assert!(clipboard_image_dimensions(usize::MAX, 1, 4).is_err());
}

#[test]
fn base64_decoding_accepts_only_canonical_text() {
    assert_eq!(base64_decode("aGVsbG8hPw=="), Some(b"hello!?".to_vec()));
    assert_eq!(base64_decode(""), Some(Vec::new()));
    assert_eq!(base64_decode("aGVsbG8hPw"), None);
    assert_eq!(base64_decode("aGVsbG8hPx=="), None);
    assert_eq!(base64_decode("aGVs bG8="), None);
}
