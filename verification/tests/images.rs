use base64::Engine;
use slipway::bmp::{encode_1bit_bmp_custom, GrayImage};
use slipway::canvas::{
    get_canvas_image, read_canvas_data, CanvasError, CanvasFields, HostError, JsonField,
};
use slipway::clock::Instant;
use slipway::errors::{BAD_REQUEST, INTERNAL_SERVER_ERROR};
use slipway::pages::{
    image_content_type, image_page, is_not_modified, rig_url_at, serialize_form, url_page,
    RequestTarget,
};
use slipway::repository::{RigResultFormat, RigResultImageFormat, RigResultSpec};
use slipway::rig_response::{get_image_bytes, image_response, pixels_to_rgba};
use slipway::rotation::{rotate, rotation_of, RgbaPixels, Rotation};
use slipway::sas::create_signature;

fn sample_gray() -> GrayImage {
    GrayImage {
        width: 3,
        height: 3,
        pixels: vec![50, 100, 150, 200, 128, 64, 0, 255, 128],
    }
}

#[test]
fn one_bit_bitmap_decodes_to_the_thresholded_image() {
    let gray = sample_gray();
    let bmp = encode_1bit_bmp_custom(&gray);
    let decoded = image::load_from_memory(&bmp).unwrap().to_luma8();
    assert_eq!(decoded.width(), 3);
    assert_eq!(decoded.height(), 3);
    for y in 0..3u32 {
        for x in 0..3u32 {
            let expected = if gray.pixels[(y * 3 + x) as usize] < 128 { 0 } else { 255 };
            assert_eq!(decoded.get_pixel(x, y).0[0], expected);
        }
    }
}

#[test]
fn one_bit_bitmap_header() {
    let bmp = encode_1bit_bmp_custom(&sample_gray());
    // 14 + 40 + 8 header bytes, then three rows of four bytes.
    assert_eq!(bmp.len(), 62 + 12);
    assert_eq!(&bmp[0..2], b"BM");
    assert_eq!(u32::from_le_bytes([bmp[2], bmp[3], bmp[4], bmp[5]]), 74);
    assert_eq!(u32::from_le_bytes([bmp[10], bmp[11], bmp[12], bmp[13]]), 62);
    assert_eq!(u16::from_le_bytes([bmp[28], bmp[29]]), 1);
}

fn sample_pixels() -> RgbaPixels {
    RgbaPixels {
        width: 3,
        height: 2,
        pixels: vec![1, 2, 3, 4, 5, 6],
    }
}

fn to_rgba_image(p: &RgbaPixels) -> image::RgbaImage {
    image::RgbaImage::from_fn(p.width, p.height, |x, y| {
        image::Rgba(p.pixels[(y * p.width + x) as usize].to_le_bytes())
    })
}

fn from_rgba_image(img: &image::RgbaImage) -> Vec<u32> {
    img.pixels().map(|px| u32::from_le_bytes(px.0)).collect()
}

#[test]
fn rotations_match_the_image_crate() {
    let p = sample_pixels();
    let img = to_rgba_image(&p);
    let r90 = rotate(&p, Rotation::Quarter);
    assert_eq!((r90.width, r90.height), (2, 3));
    assert_eq!(r90.pixels, from_rgba_image(&image::imageops::rotate90(&img)));
    let r180 = rotate(&p, Rotation::Half);
    assert_eq!(r180.pixels, from_rgba_image(&image::imageops::rotate180(&img)));
    let r270 = rotate(&p, Rotation::ThreeQuarters);
    assert_eq!((r270.width, r270.height), (2, 3));
    assert_eq!(r270.pixels, from_rgba_image(&image::imageops::rotate270(&img)));
    assert_eq!(rotate(&p, Rotation::Upright).pixels, p.pixels);
    assert_eq!(r90.pixels, vec![4, 1, 5, 2, 6, 3]);
}

#[test]
fn quarter_turns_undo_each_other() {
    let p = sample_pixels();
    let back = rotate(&rotate(&p, Rotation::Quarter), Rotation::ThreeQuarters);
    assert_eq!((back.width, back.height), (3, 2));
    assert_eq!(back.pixels, p.pixels);
    let twice = rotate(&rotate(&p, Rotation::Half), Rotation::Half);
    assert_eq!(twice.pixels, p.pixels);
}

#[test]
fn only_quarter_angles_are_rotations() {
    assert_eq!(rotation_of(0).unwrap(), Rotation::Upright);
    assert_eq!(rotation_of(90).unwrap(), Rotation::Quarter);
    assert_eq!(rotation_of(180).unwrap(), Rotation::Half);
    assert_eq!(rotation_of(270).unwrap(), Rotation::ThreeQuarters);
    let refused = rotation_of(45).unwrap_err();
    assert_eq!(refused.status_code(), BAD_REQUEST);
    assert_eq!(refused.message(), "Invalid rotation angle specified: 45");
}

#[test]
fn image_responses_render_rotate_and_wrap() {
    let spec = RigResultSpec {
        format: RigResultFormat::DataUrl,
        image_format: RigResultImageFormat::Jpeg,
        rotate: 90,
    };
    let response = image_response(spec, Some(sample_pixels())).unwrap();
    assert!(response.wrap_in_html);
    assert_eq!(response.format, RigResultImageFormat::Jpeg);
    assert_eq!(response.image.pixels, vec![4, 1, 5, 2, 6, 3]);
    let missing = image_response(spec, None).unwrap_err();
    assert_eq!(missing.message(), "Could not render rig output as an image.");
    let bad = image_response(
        RigResultSpec {
            format: RigResultFormat::Image,
            image_format: RigResultImageFormat::Png,
            rotate: 1,
        },
        Some(sample_pixels()),
    )
    .unwrap_err();
    assert_eq!(bad.message(), "Invalid rotation angle specified: 1");
}

#[test]
fn html_pages() {
    assert_eq!(
        url_page("http://x/y", 0),
        "<html><head></head><body style=\"margin:0px\"><img src=\"http://x/y\"/></body></html>"
    );
    assert_eq!(
        url_page("u", 30),
        "<html><head><meta http-equiv=\"refresh\" content=\"30\"></head><body style=\"margin:0px\"><img src=\"u\"/></body></html>"
    );
    let bytes = [1u8, 2, 3, 4, 5];
    let page = image_page(800, &bytes, 0);
    let encoded = base64::engine::general_purpose::STANDARD.encode(bytes);
    assert_eq!(
        page,
        format!(
            "<html><head><meta name=\"viewport\" content=\"width=800\"></head><body style=\"margin:0px; width=800px\"><img src=\"data:image/png;base64,{}\"/></body></html>",
            encoded
        )
    );
    assert_eq!(encoded, "AQIDBAU=");
    assert_eq!(image_content_type(RigResultImageFormat::Bmp1Bit), "image/bmp");
    assert_eq!(image_content_type(RigResultImageFormat::Jpeg), "image/jpeg");
    assert!(is_not_modified(Some("abc"), "abc"));
    assert!(!is_not_modified(Some("abd"), "abc"));
    assert!(!is_not_modified(None, "abc"));
}

#[test]
fn query_strings_are_form_encoded() {
    let pairs = vec![
        ("a b".to_string(), "c&d=é".to_string()),
        ("x".to_string(), "*-._~".to_string()),
    ];
    let mut expected = url::form_urlencoded::Serializer::new(String::new());
    for (k, v) in &pairs {
        expected.append_pair(k, v);
    }
    assert_eq!(serialize_form(&pairs), expected.finish());
    assert_eq!(serialize_form(&pairs), "a+b=c%26d%3D%C3%A9&x=*-._%7E");
    assert_eq!(serialize_form(&vec![]), "");
}

#[test]
fn generated_urls_for_trmnl_devices() {
    // 2023-10-01T01:02:03Z.
    let now = Instant { secs: 1_696_122_123, nanos: 0 };
    let target = RequestTarget {
        scheme: "http".to_string(),
        host: "example.com:8080".to_string(),
        path: "/base/trmnl/api/display".to_string(),
    };
    let (text, url) = rig_url_at(
        &target,
        Some("kitchen"),
        RigResultImageFormat::Bmp1Bit,
        90,
        None,
        Some("my key"),
        now,
    )
    .unwrap();
    assert_eq!(
        text,
        "http://example.com:8080/base/devices/kitchen?format=image&image_format=bmp_1bit&rotate=90&device=kitchen&authorization=my+key&t=2023-10-01T01-02-03"
    );
    assert_eq!(url.as_str(), text);

    let signed = RequestTarget {
        scheme: "https".to_string(),
        host: "h".to_string(),
        path: "/rigs/clock".to_string(),
    };
    let (text, _) = rig_url_at(
        &signed,
        None,
        RigResultImageFormat::Png,
        0,
        Some("secret"),
        Some("ignored"),
        now,
    )
    .unwrap();
    let signature = create_signature("secret", "2023-10-01T01-03-03");
    assert_eq!(
        text,
        format!(
            "https://h/rigs/clock?format=image&image_format=png&rotate=0&sig={}&exp=2023-10-01T01-03-03&t=2023-10-01T01-02-03",
            signature
        )
    );

    let broken = RequestTarget {
        scheme: "http".to_string(),
        host: "bad host".to_string(),
        path: "/p".to_string(),
    };
    let refused = rig_url_at(&broken, None, RigResultImageFormat::Png, 0, None, None, now)
        .unwrap_err();
    assert_eq!(refused.status_code(), INTERNAL_SERVER_ERROR);
    assert_eq!(refused.message(), "Failed to parse generated rig url.");
}

fn fields(width: JsonField<u64>, height: JsonField<u64>, data: JsonField<String>) -> JsonField<CanvasFields> {
    JsonField::Present(CanvasFields { width, height, data })
}

fn invalid_message(e: CanvasError) -> String {
    match e {
        CanvasError::InvalidData { message, .. } => message,
        _ => panic!("expected invalid data"),
    }
}

#[test]
fn canvas_fields_are_checked_in_turn() {
    let h = "render";
    let cases = vec![
        (JsonField::Missing, "Output has no canvas field"),
        (JsonField::WrongType, "Canvas field is not an object"),
        (
            fields(JsonField::Missing, JsonField::Present(1), JsonField::Present(String::new())),
            "Canvas is missing a width field",
        ),
        (
            fields(JsonField::WrongType, JsonField::Present(1), JsonField::Present(String::new())),
            "Canvas width field is not a number",
        ),
        (
            fields(JsonField::Present(1), JsonField::Missing, JsonField::Present(String::new())),
            "Canvas is missing a height field",
        ),
        (
            fields(JsonField::Present(1), JsonField::WrongType, JsonField::Present(String::new())),
            "Canvas height field is not a number",
        ),
        (
            fields(JsonField::Present(1), JsonField::Present(1), JsonField::Missing),
            "Canvas is missing a data field",
        ),
        (
            fields(JsonField::Present(1), JsonField::Present(1), JsonField::WrongType),
            "Canvas data field is not a string",
        ),
    ];
    for (canvas, message) in cases {
        assert_eq!(invalid_message(read_canvas_data(h, &canvas).unwrap_err()), message);
    }
    let ok = read_canvas_data(
        h,
        &fields(
            JsonField::Present((1u64 << 32) + 5),
            JsonField::Present(2),
            JsonField::Present("AAAA".to_string()),
        ),
    )
    .unwrap();
    assert_eq!(ok.width, 5);
    assert_eq!(ok.height, 2);
    assert_eq!(ok.data, "AAAA");
}

#[test]
fn canvas_images_are_decoded_and_sized() {
    let h = "render";
    let data = base64::engine::general_purpose::STANDARD.encode([1u8, 2, 3, 4, 5, 6, 7, 8]);
    let image = get_canvas_image(
        h,
        &fields(JsonField::Present(2), JsonField::Present(1), JsonField::Present(data.clone())),
    )
    .unwrap();
    assert_eq!((image.width, image.height), (2, 1));
    assert_eq!(image.rgba, vec![1, 2, 3, 4, 5, 6, 7, 8]);
    let too_small = get_canvas_image(
        h,
        &fields(JsonField::Present(3), JsonField::Present(1), JsonField::Present(data)),
    )
    .unwrap_err();
    assert_eq!(invalid_message(too_small), "Data could not be converted into an image");
    let not_base64 = get_canvas_image(
        h,
        &fields(JsonField::Present(1), JsonField::Present(1), JsonField::Present("@@".to_string())),
    )
    .unwrap_err();
    assert!(invalid_message(not_base64).starts_with("Data could not be decoded from base64\n"));
}

#[test]
fn error_messages() {
    let e = CanvasError::InvalidData {
        handle: "render".to_string(),
        message: "bad".to_string(),
    };
    assert_eq!(e.message(), "Component render canvas invalid: bad");
    let host = HostError::Canvas(CanvasError::PrintFailed {
        handle: "h".to_string(),
        error: "no tty".to_string(),
    });
    assert_eq!(
        host.message(),
        "Canvas error.\nComponent h canvas output image could not be printed\nno tty"
    );
    assert_eq!(HostError::Other("plain".to_string()).message(), "plain");
    let io = HostError::Io(std::io::Error::new(std::io::ErrorKind::Other, "disk"));
    assert_eq!(io.message(), "IO error.\ndisk");
}

#[test]
fn encode_1bit_bmp_small_image() {
    // A 100x100 gradient from black towards white.
    let mut pixels = Vec::new();
    for y in 0..100u32 {
        for x in 0..100u32 {
            pixels.push((x + y) as u8);
        }
    }
    let gray = GrayImage { width: 100, height: 100, pixels };
    let bmp = encode_1bit_bmp_custom(&gray);
    let _ = image::load_from_memory(&bmp).unwrap();
}

#[test]
fn pixels_unpack_to_rgba_bytes() {
    assert_eq!(pixels_to_rgba(&vec![0x4433_2211, 0xff00_80ff]), vec![0x11, 0x22, 0x33, 0x44, 0xff, 0x80, 0x00, 0xff]);
    assert!(pixels_to_rgba(&vec![]).is_empty());
}

#[test]
fn png_and_jpeg_bytes_decode_to_the_image() {
    let image = RgbaPixels {
        width: 2,
        height: 1,
        pixels: vec![u32::from_le_bytes([10, 20, 30, 255]), u32::from_le_bytes([200, 100, 50, 128])],
    };
    let png = get_image_bytes(&image, RigResultImageFormat::Png).unwrap();
    assert_eq!(&png[0..4], b"\x89PNG");
    let decoded = image::load_from_memory(&png).unwrap().to_rgba8();
    assert_eq!(decoded.dimensions(), (2, 1));
    assert_eq!(decoded.get_pixel(0, 0).0, [10, 20, 30, 255]);
    assert_eq!(decoded.get_pixel(1, 0).0, [200, 100, 50, 128]);

    let opaque = RgbaPixels { width: 8, height: 8, pixels: vec![u32::from_le_bytes([90, 90, 90, 255]); 64] };
    let jpeg = get_image_bytes(&opaque, RigResultImageFormat::Jpeg).unwrap();
    assert_eq!(&jpeg[0..2], &[0xff, 0xd8]);
    let decoded = image::load_from_memory(&jpeg).unwrap().to_rgb8();
    assert_eq!(decoded.dimensions(), (8, 8));
}

#[test]
fn canvas_data_must_be_canonical_base64() {
    let h = "render";
    // Missing padding, and a last character with bits left over, are refused.
    for data in ["AQID" , "AQI", "AQJ=", "AQ=="] {
        let r = get_canvas_image(
            h,
            &fields(JsonField::Present(0), JsonField::Present(0), JsonField::Present(data.to_string())),
        );
        match data {
            "AQID" | "AQ==" => assert!(r.is_ok()),
            _ => assert!(invalid_message(r.unwrap_err()).starts_with("Data could not be decoded from base64\n")),
        }
    }
}
