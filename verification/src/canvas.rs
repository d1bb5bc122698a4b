//! Reading the canvas that a rig's output describes, and the errors of the host.
use vstd::prelude::*;
use vstd::string::StringExecFns;
use base64::Engine;

use crate::pages::{base64_decoding, base64_standard, lemma_base64_standard_injective};

verus! {

#[verifier::external_type_specification]
#[verifier::external_body]
pub struct ExImageError(image::ImageError);

#[verifier::external_type_specification]
#[verifier::external_body]
pub struct ExIoError(std::io::Error);

/// A canvas that could not be read, saved or printed.
#[allow(inconsistent_fields)]
#[derive(Debug)]
pub enum CanvasError {
    InvalidData { handle: String, message: String },
    SaveFailed { handle: String, path: String, error: image::ImageError },
    PrintFailed { handle: String, error: String },
}

/// An error of the command-line host.
#[derive(Debug)]
pub enum HostError {
    Other(String),
    Io(std::io::Error),
    Canvas(CanvasError),
}

/// One field of a JSON object, as the canvas reader sees it.
#[derive(Debug)]
pub enum JsonField<T> {
    Missing,
    /// Present, but not of the type the reader wants.
    WrongType,
    Present(T),
}

/// The fields of a `canvas` object in a rig's output.
#[derive(Debug)]
pub struct CanvasFields {
    pub width: JsonField<u64>,
    pub height: JsonField<u64>,
    /// The pixels, RGBA, in base64.
    pub data: JsonField<String>,
}

/// A canvas as the output describes it.
#[derive(Debug)]
pub struct CanvasResult {
    pub width: u32,
    pub height: u32,
    pub data: String,
}

/// The canvas was refused with this message for the component `handle`.
pub open spec fn is_invalid_data(e: CanvasError, handle: Seq<char>, message: Seq<char>) -> bool {
    e matches CanvasError::InvalidData { handle: h, message: m } && h@ == handle && m@ == message
}

fn invalid_data(handle: &str, message: &str) -> (e: CanvasError)
    ensures
        is_invalid_data(e, handle@, message@),
{
    CanvasError::InvalidData { handle: String::from_str(handle), message: String::from_str(message) }
}

/// What reading a canvas gives: each field in turn must be present and of its type.
pub open spec fn is_canvas_reading(handle: Seq<char>, canvas: JsonField<CanvasFields>, r: Result<CanvasResult, CanvasError>) -> bool {
    match canvas {
        JsonField::Missing => r matches Err(e) && is_invalid_data(e, handle, "Output has no canvas field"@),
        JsonField::WrongType => r matches Err(e) && is_invalid_data(e, handle, "Canvas field is not an object"@),
        JsonField::Present(fields) => match fields.width {
            JsonField::Missing => r matches Err(e) && is_invalid_data(e, handle, "Canvas is missing a width field"@),
            JsonField::WrongType => r matches Err(e) && is_invalid_data(e, handle, "Canvas width field is not a number"@),
            JsonField::Present(width) => match fields.height {
                JsonField::Missing => r matches Err(e) && is_invalid_data(e, handle, "Canvas is missing a height field"@),
                JsonField::WrongType => r matches Err(e) && is_invalid_data(e, handle, "Canvas height field is not a number"@),
                JsonField::Present(height) => match fields.data {
                    JsonField::Missing => r matches Err(e) && is_invalid_data(e, handle, "Canvas is missing a data field"@),
                    JsonField::WrongType => r matches Err(e) && is_invalid_data(e, handle, "Canvas data field is not a string"@),
                    JsonField::Present(data) => r matches Ok(c) && c.width == width as u32 && c.height
                        == height as u32 && c.data@ == data@,
                },
            },
        },
    }
}

/// Reads the width, height and data of the canvas in a rig's output. The width and
/// height are cut to 32 bits as `as u32` does.
pub fn read_canvas_data(handle: &str, canvas: &JsonField<CanvasFields>) -> (r: Result<CanvasResult, CanvasError>)
    ensures
        is_canvas_reading(handle@, *canvas, r),
{
    let fields = match canvas {
        JsonField::Missing => {
            return Err(invalid_data(handle, "Output has no canvas field"));
        },
        JsonField::WrongType => {
            return Err(invalid_data(handle, "Canvas field is not an object"));
        },
        JsonField::Present(fields) => fields,
    };
    let width = match fields.width {
        JsonField::Missing => {
            return Err(invalid_data(handle, "Canvas is missing a width field"));
        },
        JsonField::WrongType => {
            return Err(invalid_data(handle, "Canvas width field is not a number"));
        },
        JsonField::Present(w) => w,
    };
    let height = match fields.height {
        JsonField::Missing => {
            return Err(invalid_data(handle, "Canvas is missing a height field"));
        },
        JsonField::WrongType => {
            return Err(invalid_data(handle, "Canvas height field is not a number"));
        },
        JsonField::Present(h) => h,
    };
    let data = match &fields.data {
        JsonField::Missing => {
            return Err(invalid_data(handle, "Canvas is missing a data field"));
        },
        JsonField::WrongType => {
            return Err(invalid_data(handle, "Canvas data field is not a string"));
        },
        JsonField::Present(d) => d.clone(),
    };
    Ok(CanvasResult { width: width as u32, height: height as u32, data })
}

/// Decodes base64 text with base64's standard engine (`BASE64_STANDARD.decode`); the
/// error carries its message. The engine requires canonical `=` padding and zero
/// trailing bits, so it accepts exactly the texts that its encoder writes: the bytes
/// come back whose standard base64 is the text, and the text is refused where no bytes
/// encode to it.
#[verifier::external_body]
fn decode_base64(text: &str) -> (r: Result<Vec<u8>, String>)
    ensures
        match r {
            Ok(bytes) => base64_standard(bytes@) == text@,
            Err(_) => forall|bytes: Seq<u8>| #[trigger] base64_standard(bytes) != text@,
        },
{
    base64::engine::general_purpose::STANDARD.decode(text).map_err(|e| e.to_string())
}

/// An image of RGBA bytes, four per pixel, row by row; the buffer may be longer than
/// the image needs.
#[derive(Debug)]
pub struct CanvasImage {
    pub width: u32,
    pub height: u32,
    pub rgba: Vec<u8>,
}

/// What turning a canvas into an image gives: the canvas read as `read_canvas_data`
/// reads it, its data decoded from base64, and a buffer that holds at least four bytes
/// for each pixel, the byte count computed in `usize` without overflow (the check of
/// `ImageBuffer::from_raw`).
pub open spec fn is_canvas_image(handle: Seq<char>, canvas: JsonField<CanvasFields>, r: Result<CanvasImage, CanvasError>) -> bool {
    exists|read: Result<CanvasResult, CanvasError>|
        #[trigger] is_canvas_reading(handle, canvas, read) && match read {
            Err(e) => r matches Err(e2) && e2 == e,
            Ok(c) => match base64_decoding(c.data@) {
                None => r matches Err(e) && e matches CanvasError::InvalidData { handle: h, message: m }
                    && h@ == handle && m@.len() >= 38 && m@.subrange(0, 38)
                    == "Data could not be decoded from base64\n"@,
                Some(bytes) => if 4 * c.width <= usize::MAX && 4 * c.width * c.height <= usize::MAX
                    && 4 * c.width * c.height <= bytes.len() {
                    r matches Ok(img) && img.width == c.width && img.height == c.height && img.rgba@
                        == bytes
                } else {
                    r matches Err(e) && is_invalid_data(e, handle, "Data could not be converted into an image"@)
                },
            },
        }
}

/// The image that a canvas in a rig's output describes.
pub fn get_canvas_image(handle: &str, canvas: &JsonField<CanvasFields>) -> (r: Result<CanvasImage, CanvasError>)
    ensures
        is_canvas_image(handle@, *canvas, r),
{
    let read = read_canvas_data(handle, canvas);
    let c = match read {
        Err(e) => {
            return Err(e);
        },
        Ok(c) => c,
    };
    let bytes = match decode_base64(c.data.as_str()) {
        Err(reason) => {
            let mut message = String::from_str("Data could not be decoded from base64\n");
            let ghost prefix = message@;
            message.append(reason.as_str());
            proof {
                reveal_strlit("Data could not be decoded from base64\n");
                assert(message@.subrange(0, 38) =~= prefix);
            }
            return Err(CanvasError::InvalidData { handle: String::from_str(handle), message });
        },
        Ok(bytes) => bytes,
    };
    proof {
        lemma_base64_standard_injective(
            bytes@,
            choose|b: Seq<u8>| base64_standard(b) == c.data@,
        );
    }
    let fits = match (4usize).checked_mul(c.width as usize) {
        Some(row) => match row.checked_mul(c.height as usize) {
            Some(len) => len <= bytes.len(),
            None => false,
        },
        None => false,
    };
    if !fits {
        return Err(invalid_data(handle, "Data could not be converted into an image"));
    }
    Ok(CanvasImage { width: c.width, height: c.height, rgba: bytes })
}

/// The text of an image error (its `Display`); nothing is claimed of it.
#[verifier::external_body]
fn image_error_text(e: &image::ImageError) -> String {
    e.to_string()
}

/// The text of an I/O error (its `Display`); nothing is claimed of it.
#[verifier::external_body]
fn io_error_text(e: &std::io::Error) -> String {
    e.to_string()
}

/// The text of a canvas error up to the text of the error it carries, if any.
pub open spec fn canvas_message_head(e: CanvasError) -> Seq<char> {
    match e {
        CanvasError::InvalidData { handle, message } => "Component "@ + handle@ + " canvas invalid: "@
            + message@,
        CanvasError::SaveFailed { handle, path, .. } => "Component "@ + handle@
            + " canvas output image could not be saved to "@ + path@ + "\n"@,
        CanvasError::PrintFailed { handle, error } => "Component "@ + handle@
            + " canvas output image could not be printed\n"@ + error@,
    }
}

impl CanvasError {
    /// The text of the error. Where it carries an image error, the text of that error
    /// follows the head; otherwise the head is the whole text.
    pub fn message(&self) -> (m: String)
        ensures
            m@.len() >= canvas_message_head(*self).len(),
            m@.subrange(0, canvas_message_head(*self).len() as int) == canvas_message_head(*self),
            !(self is SaveFailed) ==> m@ == canvas_message_head(*self),
    {
        let mut m = String::from_str("Component ");
        match self {
            CanvasError::InvalidData { handle, message } => {
                m.append(handle.as_str());
                m.append(" canvas invalid: ");
                m.append(message.as_str());
                proof {
                    assert(m@.subrange(0, m@.len() as int) =~= m@);
                }
            },
            CanvasError::SaveFailed { handle, path, error } => {
                m.append(handle.as_str());
                m.append(" canvas output image could not be saved to ");
                m.append(path.as_str());
                m.append("\n");
                let ghost head = m@;
                m.append(image_error_text(error).as_str());
                proof {
                    assert(m@.subrange(0, head.len() as int) =~= head);
                }
            },
            CanvasError::PrintFailed { handle, error } => {
                m.append(handle.as_str());
                m.append(" canvas output image could not be printed\n");
                m.append(error.as_str());
                proof {
                    assert(m@.subrange(0, m@.len() as int) =~= m@);
                }
            },
        }
        m
    }
}

impl HostError {
    /// The text of the error: an I/O error's text after "IO error.\n", a canvas error's
    /// after "Canvas error.\n", any other as it is.
    pub fn message(&self) -> (m: String)
        ensures
            match self {
                HostError::Other(text) => m@ == text@,
                HostError::Io(_) => m@.len() >= 10 && m@.subrange(0, 10) == "IO error.\n"@,
                HostError::Canvas(c) => m@.len() >= 14 + canvas_message_head(*c).len() && m@.subrange(
                    0,
                    14,
                ) == "Canvas error.\n"@ && m@.subrange(14, 14 + canvas_message_head(*c).len() as int)
                    == canvas_message_head(*c),
            },
    {
        match self {
            HostError::Other(text) => text.clone(),
            HostError::Io(e) => {
                let mut m = String::from_str("IO error.\n");
                proof {
                    reveal_strlit("IO error.\n");
                }
                let ghost head = m@;
                m.append(io_error_text(e).as_str());
                proof {
                    assert(m@.subrange(0, 10) =~= head);
                }
                m
            },
            HostError::Canvas(c) => {
                let mut m = String::from_str("Canvas error.\n");
                proof {
                    reveal_strlit("Canvas error.\n");
                }
                let ghost head = m@;
                let inner = c.message();
                m.append(inner.as_str());
                proof {
                    assert(m@.subrange(0, 14) =~= head);
                    assert(m@.subrange(14, 14 + canvas_message_head(*c).len() as int) =~= inner@.subrange(
                        0,
                        canvas_message_head(*c).len() as int,
                    ));
                }
                m
            },
        }
    }
}

} // verus!
