//! Vision helpers: which images may be sent to a vision model and how they
//! are encoded, and the evidence kept for a screen capture.

use vstd::prelude::*;
use crate::digest::{sha256_hex, sha256_of};
use crate::error::{ErrorKind, ErrorView, ObError, err_of, res_view};
use crate::text::{chars_of, eq_str, hex_of, lowercase, owned, to_lower};

verus! {

/// The evidence of a screen capture.
pub struct CaptureEvidence {
    pub path: String,
    pub width: u32,
    pub height: u32,
    pub sha256: String,
    pub captured_at: String,
}

/// The media type of an image extension, compared in lowercase.
pub open spec fn image_mime_spec(extension: Seq<char>) -> Option<Seq<char>> {
    let e = lowercase(extension);
    if e == "png"@ {
        Some("image/png"@)
    } else if e == "jpg"@ || e == "jpeg"@ {
        Some("image/jpeg"@)
    } else if e == "webp"@ {
        Some("image/webp"@)
    } else {
        None
    }
}

/// The media type of an image, or the refusal of an unsupported type.
pub fn image_mime(extension: &str) -> (r: Result<String, ObError>)
    ensures
        match r {
            Ok(m) => image_mime_spec(extension@) == Some(m@),
            Err(e) => image_mime_spec(extension@) is None && e@ == err_of(ErrorKind::Validation, "Unsupported vision image type"@),
        },
{
    let lower = to_lower(extension);
    let e = chars_of(lower.as_str());
    if eq_str(&e, "png") {
        Ok(owned("image/png"))
    } else if eq_str(&e, "jpg") || eq_str(&e, "jpeg") {
        Ok(owned("image/jpeg"))
    } else if eq_str(&e, "webp") {
        Ok(owned("image/webp"))
    } else {
        Err(ObError::Validation(owned("Unsupported vision image type")))
    }
}

/// The character of a six-bit value in the standard Base64 alphabet.
pub open spec fn b64_char(v: int) -> char {
    if v < 26 {
        (65 + v) as char
    } else if v < 52 {
        (97 + v - 26) as char
    } else if v < 62 {
        (48 + v - 52) as char
    } else if v == 62 {
        '+'
    } else {
        '/'
    }
}

/// Standard Base64 with padding (RFC 4648, section 4): each group of three
/// bytes becomes four characters; a last group of one or two bytes is padded with `=`.
pub open spec fn base64_of(b: Seq<u8>) -> Seq<char>
    decreases b.len(),
{
    if b.len() == 0 {
        Seq::empty()
    } else {
        let x = b[0] as int;
        let y = if b.len() > 1 { b[1] as int } else { 0 };
        let z = if b.len() > 2 { b[2] as int } else { 0 };
        if b.len() == 1 {
            seq![b64_char(x / 4), b64_char((x % 4) * 16), '=', '=']
        } else if b.len() == 2 {
            seq![b64_char(x / 4), b64_char((x % 4) * 16 + y / 16), b64_char((y % 16) * 4), '=']
        } else {
            seq![
                b64_char(x / 4),
                b64_char((x % 4) * 16 + y / 16),
                b64_char((y % 16) * 4 + z / 64),
                b64_char(z % 64),
            ] + base64_of(b.subrange(3, b.len() as int))
        }
    }
}

/// `base64::engine::general_purpose::STANDARD.encode`: standard Base64 with
/// padding, as the crate documents it.
#[verifier::external_body]
pub(crate) fn base64_encode(bytes: &[u8]) -> (r: String)
    ensures
        r@ == base64_of(bytes@),
{
    <base64::engine::GeneralPurpose as base64::Engine>::encode(&base64::engine::general_purpose::STANDARD, bytes)
}

/// An image ready for a vision model: its media type and its Base64 text.
pub fn image_payload(extension: &str, bytes: &[u8]) -> (r: Result<(String, String), ObError>)
    ensures
        match r {
            Ok((m, d)) => image_mime_spec(extension@) == Some(m@) && d@ == base64_of(bytes@),
            Err(e) => image_mime_spec(extension@) is None && e@ == err_of(ErrorKind::Validation, "Unsupported vision image type"@),
        },
{
    let mime = image_mime(extension)?;
    Ok((mime, base64_encode(bytes)))
}

/// Refuses a display that does not exist.
pub fn check_display(index: usize, count: usize) -> (r: Result<(), ObError>)
    ensures
        r is Ok <==> index < count,
        r is Err ==> res_view(r) == Err::<(), ErrorView>(err_of(ErrorKind::Validation, "Display index does not exist"@)),
{
    if index < count {
        Ok(())
    } else {
        Err(ObError::Validation(owned("Display index does not exist")))
    }
}

/// The evidence of a capture saved at `path`, with the digest of the saved file.
pub fn capture_evidence(path: String, width: u32, height: u32, saved: &[u8], captured_at: String) -> (r: CaptureEvidence)
    ensures
        r.path == path,
        r.width == width,
        r.height == height,
        r.sha256@ == hex_of(sha256_of(saved@)),
        r.captured_at == captured_at,
{
    CaptureEvidence { path, width, height, sha256: sha256_hex(saved), captured_at }
}

/// The error for a missing OCR engine.
pub fn ocr_missing() -> (e: ObError)
    ensures
        e@ == err_of(ErrorKind::RequiresConfiguration, "Install Tesseract and the requested language pack"@),
{
    ObError::RequiresConfiguration(owned("Install Tesseract and the requested language pack"))
}

/// Base64 text is four characters for every started group of three bytes.
pub proof fn law_base64_length(b: Seq<u8>)
    ensures
        base64_of(b).len() == 4 * ((b.len() + 2) / 3),
    decreases b.len(),
{
    if b.len() > 2 {
        law_base64_length(b.subrange(3, b.len() as int));
    }
}

} // verus!
