//! What the server answers for a rig, a playlist or a device: the result shape, the
//! image, the HTML pages and the URL that regenerates an image.
use vstd::prelude::*;
use vstd::string::StringExecFns;

use crate::errors::{is_user_error, ServeError, BAD_REQUEST, NOT_FOUND};
use crate::refresh::{evaluate_playlist_and_refresh, PlaylistResult};
use crate::repository::{completed, Device, FormatQuery, RigResultFormat, RigResultImageFormat,
    RigResultSpec};
use crate::rotation::{rotate, rotated, rotation_of, spec_rotation_of, RgbaPixels};
use crate::schedule::Playlist;
use crate::text::decimal;

verus! {

/// An image to send, in the given encoding, wrapped in an HTML page or not.
#[derive(Debug)]
pub struct ImageResponse {
    pub image: RgbaPixels,
    pub format: RigResultImageFormat,
    pub wrap_in_html: bool,
}

/// The image answer for a rendered rig: no image is "Could not render rig output as
/// an image." (400); an angle other than 0, 90, 180 or 270 is refused as
/// `rotation_of` refuses it; else the image turned by that angle, in the requested
/// encoding, wrapped in HTML for the `html` format.
pub fn image_response(spec: RigResultSpec, canvas: Option<RgbaPixels>) -> (r: Result<ImageResponse, ServeError>)
    requires
        canvas matches Some(img) ==> img.wf(),
    ensures
        match canvas {
            None => r matches Err(e) && is_user_error(
                e,
                BAD_REQUEST,
                "Could not render rig output as an image."@,
            ),
            Some(img) => match spec_rotation_of(spec.rotate) {
                None => r matches Err(e) && is_user_error(
                    e,
                    BAD_REQUEST,
                    "Invalid rotation angle specified: "@ + decimal(spec.rotate as nat),
                ),
                Some(rotation) => r matches Ok(response) && response.image.wf()
                    && response.image.view() == rotated(img.view(), rotation) && response.format
                    == spec.image_format && response.wrap_in_html == (spec.format
                    == RigResultFormat::DataUrl),
            },
        },
{
    let image = match canvas {
        None => {
            return Err(
                ServeError::UserFacing(
                    BAD_REQUEST,
                    String::from_str("Could not render rig output as an image."),
                ),
            );
        },
        Some(image) => image,
    };
    let rotation = match rotation_of(spec.rotate) {
        Ok(rotation) => rotation,
        Err(e) => {
            return Err(e);
        },
    };
    let wrap_in_html = match spec.format {
        RigResultFormat::DataUrl => true,
        _ => false,
    };
    Ok(ImageResponse { image: rotate(&image, rotation), format: spec.image_format, wrap_in_html })
}

/// Byte `k` (0 to 3) of a packed pixel, lowest first: red, green, blue, alpha.
pub open spec fn pixel_byte(p: u32, k: int) -> u8 {
    if k == 0 {
        (p % 256) as u8
    } else if k == 1 {
        ((p / 256) % 256) as u8
    } else if k == 2 {
        ((p / 65536) % 256) as u8
    } else {
        (p / 16777216) as u8
    }
}

/// The RGBA bytes of packed pixels: four per pixel, in the order of the pixels.
pub open spec fn rgba_bytes(pixels: Seq<u32>) -> Seq<u8> {
    Seq::new(4 * pixels.len(), |j: int| pixel_byte(pixels[j / 4], j % 4))
}

/// Unpacks pixels into RGBA bytes, four per pixel.
pub fn pixels_to_rgba(pixels: &Vec<u32>) -> (out: Vec<u8>)
    requires
        4 * pixels@.len() <= usize::MAX,
    ensures
        out@ == rgba_bytes(pixels@),
{
    let mut out: Vec<u8> = Vec::with_capacity(4 * pixels.len());
    let mut i: usize = 0;
    while i < pixels.len()
        invariant
            i <= pixels@.len(),
            out@ =~= rgba_bytes(pixels@.subrange(0, i as int)),
        decreases pixels@.len() - i,
    {
        let p = pixels[i];
        out.push((p % 256) as u8);
        out.push(((p / 256) % 256) as u8);
        out.push(((p / 65536) % 256) as u8);
        out.push((p / 16777216) as u8);
        i = i + 1;
        assert forall|j: int| 0 <= j < out@.len() implies out@[j] == rgba_bytes(
            pixels@.subrange(0, i as int),
        )[j] by {
            assert(pixels@.subrange(0, i as int)[j / 4] == pixels@[j / 4]);
        }
        assert(out@ =~= rgba_bytes(pixels@.subrange(0, i as int)));
    }
    assert(pixels@.subrange(0, pixels@.len() as int) =~= pixels@);
    out
}

/// What `DynamicImage::write_to` of the image crate writes for an RGBA image of the
/// given size and bytes in the given format (PNG or JPEG), or nothing where it fails.
pub uninterp spec fn spec_encoded_image(width: u32, height: u32, rgba: Seq<u8>, format: RigResultImageFormat) -> Option<Seq<u8>>;

/// Encodes an RGBA image as PNG or JPEG with the image crate (`RgbaImage::from_raw`,
/// then `DynamicImage::write_to` into memory). Its encoders are deterministic, so the
/// bytes written, or the failure, are named by the arguments; they are not described.
#[verifier::external_body]
fn write_image(width: u32, height: u32, rgba: Vec<u8>, format: RigResultImageFormat) -> (r: Result<Vec<u8>, image::ImageError>)
    requires
        rgba@.len() == 4 * width * height,
        !(format is Bmp1Bit),
    ensures
        match r {
            Ok(bytes) => spec_encoded_image(width, height, rgba@, format) == Some(bytes@),
            Err(_) => spec_encoded_image(width, height, rgba@, format) is None,
        },
{
    let image = image::RgbaImage::from_raw(width, height, rgba).expect("four bytes per pixel");
    let format = match format {
        RigResultImageFormat::Jpeg => image::ImageFormat::Jpeg,
        RigResultImageFormat::Png => image::ImageFormat::Png,
        RigResultImageFormat::Bmp1Bit => image::ImageFormat::Bmp,
    };
    let mut buffer = std::io::Cursor::new(Vec::new());
    image::DynamicImage::ImageRgba8(image).write_to(&mut buffer, format)?;
    Ok(buffer.into_inner())
}

/// The bytes of an image in PNG or JPEG, as the image crate encodes its RGBA bytes.
pub fn get_image_bytes(image: &RgbaPixels, format: RigResultImageFormat) -> (r: Result<Vec<u8>, image::ImageError>)
    requires
        image.wf(),
        4 * image.pixels@.len() <= usize::MAX,
        !(format is Bmp1Bit),
    ensures
        match r {
            Ok(bytes) => spec_encoded_image(image.width, image.height, rgba_bytes(image.pixels@), format)
                == Some(bytes@),
            Err(_) => spec_encoded_image(image.width, image.height, rgba_bytes(image.pixels@), format) is None,
        },
{
    let rgba = pixels_to_rgba(&image.pixels);
    proof {
        assert(rgba@.len() == 4 * image.width * image.height) by (nonlinear_arith)
            requires
                rgba@.len() == 4 * image.pixels@.len(),
                image.pixels@.len() == image.width * image.height,
        ;
    }
    write_image(image.width, image.height, rgba, format)
}

/// The playlist a device shows and the result shape for it: the query's parts, else
/// the device's own, else the given defaults, else the standard ones. A device without
/// a playlist is "Device has no playlist." (404).
pub fn device_playlist(
    device: &Device,
    format_query: FormatQuery,
    default_result_spec: Option<RigResultSpec>,
) -> (r: Result<(String, RigResultSpec), ServeError>)
    ensures
        match device.playlist {
            None => r matches Err(e) && is_user_error(e, NOT_FOUND, "Device has no playlist."@),
            Some(name) => r matches Ok((n, spec)) && n@ == name@ && spec == completed(
                format_query.format,
                format_query.image_format,
                format_query.rotate,
                completed(
                    device.result_spec.format,
                    device.result_spec.image_format,
                    device.result_spec.rotate,
                    match default_result_spec {
                        Some(d) => d,
                        None => RigResultSpec {
                            format: RigResultFormat::Image,
                            image_format: RigResultImageFormat::Png,
                            rotate: 0,
                        },
                    },
                ),
            ),
        },
{
    let playlist_name = match &device.playlist {
        None => {
            return Err(ServeError::UserFacing(NOT_FOUND, String::from_str("Device has no playlist.")));
        },
        Some(name) => name.clone(),
    };
    let defaults = match default_result_spec {
        Some(d) => d,
        None => RigResultSpec::default(),
    };
    let result_spec_defaults = device.result_spec.into_spec(defaults);
    Ok((playlist_name, format_query.into_spec_with_defaults(result_spec_defaults)))
}

/// The item a playlist shows: none is "Playlist item not found for the current day and
/// time." (404); an evaluation error is an internal error with its message.
pub fn playlist_item_found(evaluated: Result<Option<PlaylistResult>, String>) -> (r: Result<
    PlaylistResult,
    ServeError,
>)
    ensures
        match evaluated {
            Ok(Some(item)) => r matches Ok(v) && v.rig@ == item.rig@ && v.refresh_rate_seconds
                == item.refresh_rate_seconds,
            Ok(None) => r matches Err(e) && is_user_error(
                e,
                NOT_FOUND,
                "Playlist item not found for the current day and time."@,
            ),
            Err(m) => r matches Err(e) && e matches ServeError::Internal(text) && text@ == m@,
        },
{
    match evaluated {
        Ok(Some(item)) => Ok(item),
        Ok(None) => Err(
            ServeError::UserFacing(
                NOT_FOUND,
                String::from_str("Playlist item not found for the current day and time."),
            ),
        ),
        Err(m) => Err(ServeError::Internal(m)),
    }
}

/// The item a playlist shows now in time zone `zone`, as `evaluate_playlist_and_refresh`
/// finds it and `playlist_item_found` answers it.
pub fn current_playlist_item(playlist: &Playlist, zone: u32) -> (r: Result<PlaylistResult, ServeError>)
    requires
        zone < crate::clock::ZONE_COUNT,
        playlist.valid(),
    ensures
        exists|evaluated: Result<Option<PlaylistResult>, String>|
            match evaluated {
                Ok(Some(item)) => r matches Ok(v) && v.rig@ == item.rig@ && v.refresh_rate_seconds
                    == item.refresh_rate_seconds,
                Ok(None) => r matches Err(e) && is_user_error(
                    e,
                    NOT_FOUND,
                    "Playlist item not found for the current day and time."@,
                ),
                Err(m) => r matches Err(e) && e matches ServeError::Internal(text) && text@ == m@,
            } && exists|now: crate::clock::ZonedDateTime|
                now.wf() && now.zone == zone
                    && #[trigger] crate::refresh::is_checked_playlist_evaluation(
                    now,
                    playlist.schedule@,
                    evaluated,
                ),
{
    let evaluated = evaluate_playlist_and_refresh(playlist, zone);
    playlist_item_found(evaluated)
}

} // verus!
