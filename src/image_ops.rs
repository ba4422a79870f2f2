use vstd::prelude::*;
use vstd::string::StringExecFns;

verus! {

/// The image containers this library names. `Unknown` is a container that
/// the format library recognises but that has no name here.
#[derive(Debug, Clone, Copy, PartialEq, Eq)]
pub enum ImageKind {
    Png,
    Jpeg,
    Gif,
    WebP,
    Tiff,
    Bmp,
    Ico,
    Avif,
    Unknown,
}

/// Errors of the image operations. Each carries a human-readable cause.
#[derive(Debug, PartialEq, Eq)]
pub enum ImageError {
    /// The text is not well-formed padded standard base64.
    DecodeError(String),
    /// No known container signature leads the bytes.
    InvalidFormat(String),
    /// The container could not be read or decoded.
    LoadError(String),
}

/// Width and height of a decoded image, in pixels.
#[derive(Debug, Clone, Copy, PartialEq, Eq)]
pub struct Dimensions {
    pub width: u32,
    pub height: u32,
}

/// The (width, height) that `image::load_from_memory` decodes from `b`, if it
/// can. This depends on the bytes alone as long as no format-detection hook is
/// registered with the image crate; nothing in this library registers one.
pub uninterp spec fn decoded_size(b: Seq<u8>) -> Option<(u32, u32)>;

/// The padded standard base64 text that `base64` encodes `b` as.
pub uninterp spec fn base64_text(b: Seq<u8>) -> Seq<char>;

/// The bytes that `base64` decodes the text `s` to, if it is well-formed.
pub uninterp spec fn base64_bytes(s: Seq<char>) -> Option<Seq<u8>>;

/// Whether `c` belongs to the standard base64 alphabet (padding excluded).
pub open spec fn is_base64_char(c: char) -> bool {
    ('A' <= c <= 'Z') || ('a' <= c <= 'z') || ('0' <= c <= '9') || c == '+' || c == '/'
}

/// Whether `b` begins with the bytes `sig`.
pub open spec fn starts_with(b: Seq<u8>, sig: Seq<u8>) -> bool {
    sig.len() <= b.len() && b.subrange(0, sig.len() as int) == sig
}

/// Whether `b` begins with `sig`, comparing only the bits that `mask` sets
/// (bytes past the mask's end are compared whole).
pub open spec fn starts_with_masked(b: Seq<u8>, sig: Seq<u8>, mask: Seq<u8>) -> bool {
    sig.len() <= b.len() && forall|k: int|
        0 <= k < sig.len() ==> (if k < mask.len() { (b[k] & mask[k]) == sig[k] } else { b[k] == sig[k] })
}

/// The container that `image::guess_format` reports for `b`: the first
/// signature of its table that leads `b`, in the table's order; `None` when
/// none does.
pub open spec fn guessed_kind(b: Seq<u8>) -> Option<ImageKind> {
    if starts_with(b, seq![0x89u8, 0x50, 0x4e, 0x47, 0x0d, 0x0a, 0x1a, 0x0a]) {
        Some(ImageKind::Png)
    } else if starts_with(b, seq![0xffu8, 0xd8, 0xff]) {
        Some(ImageKind::Jpeg)
    } else if starts_with(b, seq![0x47u8, 0x49, 0x46, 0x38, 0x39, 0x61])
        || starts_with(b, seq![0x47u8, 0x49, 0x46, 0x38, 0x37, 0x61]) {
        Some(ImageKind::Gif)
    } else if starts_with_masked(
        b,
        seq![0x52u8, 0x49, 0x46, 0x46, 0, 0, 0, 0, 0x57, 0x45, 0x42, 0x50],
        seq![0xffu8, 0xff, 0xff, 0xff, 0, 0, 0, 0],
    ) {
        Some(ImageKind::WebP)
    } else if starts_with(b, seq![0x4du8, 0x4d, 0x00, 0x2a])
        || starts_with(b, seq![0x49u8, 0x49, 0x2a, 0x00]) {
        Some(ImageKind::Tiff)
    } else if starts_with(b, seq![0x44u8, 0x44, 0x53, 0x20]) {
        Some(ImageKind::Unknown)
    } else if starts_with(b, seq![0x42u8, 0x4d]) {
        Some(ImageKind::Bmp)
    } else if starts_with(b, seq![0x00u8, 0x00, 0x01, 0x00]) {
        Some(ImageKind::Ico)
    } else if starts_with(b, seq![0x23u8, 0x3f, 0x52, 0x41, 0x44, 0x49, 0x41, 0x4e, 0x43, 0x45]) {
        Some(ImageKind::Unknown)
    } else if starts_with_masked(
        b,
        seq![0u8, 0, 0, 0, 0x66, 0x74, 0x79, 0x70, 0x61, 0x76, 0x69, 0x66],
        seq![0xffu8, 0xff, 0, 0],
    ) {
        Some(ImageKind::Avif)
    } else if starts_with(b, seq![0x76u8, 0x2f, 0x31, 0x01])
        || starts_with(b, seq![0x71u8, 0x6f, 0x69, 0x66])
        || (b.len() >= 2 && b[0] == 0x50 && 0x31 <= b[1] <= 0x37)
        || starts_with(b, seq![0x66u8, 0x61, 0x72, 0x62, 0x66, 0x65, 0x6c, 0x64]) {
        Some(ImageKind::Unknown)
    } else {
        None
    }
}

/// Relies on `image::guess_format`: it checks the leading bytes against its
/// signature table in order (see [`guessed_kind`]); containers without a name
/// here become `Unknown`. On failure, the error's description.
#[verifier::external_body]
fn guess_format(data: &[u8]) -> (r: Result<ImageKind, String>)
    ensures
        r is Ok <==> guessed_kind(data@) is Some,
        r is Ok ==> r->Ok_0 == guessed_kind(data@)->0,
{
    match image::guess_format(data) {
        Ok(image::ImageFormat::Png) => Ok(ImageKind::Png),
        Ok(image::ImageFormat::Jpeg) => Ok(ImageKind::Jpeg),
        Ok(image::ImageFormat::Gif) => Ok(ImageKind::Gif),
        Ok(image::ImageFormat::WebP) => Ok(ImageKind::WebP),
        Ok(image::ImageFormat::Tiff) => Ok(ImageKind::Tiff),
        Ok(image::ImageFormat::Bmp) => Ok(ImageKind::Bmp),
        Ok(image::ImageFormat::Ico) => Ok(ImageKind::Ico),
        Ok(image::ImageFormat::Avif) => Ok(ImageKind::Avif),
        Ok(_) => Ok(ImageKind::Unknown),
        Err(e) => Err(e.to_string()),
    }
}

/// Relies on `image::load_from_memory`, which guesses the container and
/// decodes it, and on the decoded image's width and height.
/// On failure, the error's description.
#[verifier::external_body]
fn load_size(data: &[u8]) -> (r: Result<(u32, u32), String>)
    ensures
        r is Ok <==> decoded_size(data@) is Some,
        r is Ok ==> r->Ok_0 == decoded_size(data@)->0,
{
    match image::load_from_memory(data) {
        Ok(img) => Ok((img.width(), img.height())),
        Err(e) => Err(e.to_string()),
    }
}

/// Relies on `base64::engine::general_purpose::STANDARD.encode`: padded
/// standard base64, which the same engine decodes back to `b`.
#[verifier::external_body]
fn base64_encode(b: &[u8]) -> (r: String)
    requires
        b@.len() <= isize::MAX,
    ensures
        r@ == base64_text(b@),
        r@.len() == 4 * ((b@.len() + 2) / 3),
        base64_bytes(r@) == Some(b@),
{
    base64::Engine::encode(&base64::engine::general_purpose::STANDARD, b)
}

/// Relies on `base64::engine::general_purpose::STANDARD.decode`: it accepts
/// only canonical padded standard base64, so re-encoding gives `s` back.
/// On failure, the error's description.
#[verifier::external_body]
fn base64_decode(s: &str) -> (r: Result<Vec<u8>, String>)
    ensures
        r is Ok <==> base64_bytes(s@) is Some,
        r is Ok ==> r->Ok_0@ == base64_bytes(s@)->0,
        r is Ok ==> base64_text(r->Ok_0@) == s@,
        s@.len() % 4 != 0 ==> r is Err,
        (exists|k: int| 0 <= k < s@.len() && !is_base64_char(s@[k]) && s@[k] != '=') ==> r is Err,
{
    match base64::Engine::decode(&base64::engine::general_purpose::STANDARD, s) {
        Ok(v) => Ok(v),
        Err(e) => Err(e.to_string()),
    }
}

impl ImageKind {
    /// Canonical upper-case name.
    pub open spec fn upper_spec(self) -> Seq<char> {
        match self {
            ImageKind::Png => "PNG"@,
            ImageKind::Jpeg => "JPEG"@,
            ImageKind::Gif => "GIF"@,
            ImageKind::WebP => "WEBP"@,
            ImageKind::Tiff => "TIFF"@,
            ImageKind::Bmp => "BMP"@,
            ImageKind::Ico => "ICO"@,
            ImageKind::Avif => "AVIF"@,
            ImageKind::Unknown => "UNKNOWN"@,
        }
    }

    /// Canonical lower-case name.
    pub open spec fn lower_spec(self) -> Seq<char> {
        match self {
            ImageKind::Png => "png"@,
            ImageKind::Jpeg => "jpeg"@,
            ImageKind::Gif => "gif"@,
            ImageKind::WebP => "webp"@,
            ImageKind::Tiff => "tiff"@,
            ImageKind::Bmp => "bmp"@,
            ImageKind::Ico => "ico"@,
            ImageKind::Avif => "avif"@,
            ImageKind::Unknown => "unknown"@,
        }
    }

    /// The canonical upper-case name, as `validate_image` reports it.
    pub fn upper_name(&self) -> (r: String)
        ensures
            r@ == self.upper_spec(),
    {
        match self {
            ImageKind::Png => String::from_str("PNG"),
            ImageKind::Jpeg => String::from_str("JPEG"),
            ImageKind::Gif => String::from_str("GIF"),
            ImageKind::WebP => String::from_str("WEBP"),
            ImageKind::Tiff => String::from_str("TIFF"),
            ImageKind::Bmp => String::from_str("BMP"),
            ImageKind::Ico => String::from_str("ICO"),
            ImageKind::Avif => String::from_str("AVIF"),
            ImageKind::Unknown => String::from_str("UNKNOWN"),
        }
    }

    /// The canonical lower-case name, as `get_image_format` reports it.
    pub fn lower_name(&self) -> (r: String)
        ensures
            r@ == self.lower_spec(),
    {
        match self {
            ImageKind::Png => String::from_str("png"),
            ImageKind::Jpeg => String::from_str("jpeg"),
            ImageKind::Gif => String::from_str("gif"),
            ImageKind::WebP => String::from_str("webp"),
            ImageKind::Tiff => String::from_str("tiff"),
            ImageKind::Bmp => String::from_str("bmp"),
            ImageKind::Ico => String::from_str("ico"),
            ImageKind::Avif => String::from_str("avif"),
            ImageKind::Unknown => String::from_str("unknown"),
        }
    }
}

impl ImageError {
    /// The error's description, prefixed with its class.
    pub fn message(&self) -> (r: String)
        ensures
            r@ == match self {
                ImageError::DecodeError(m) => "Decode error: "@ + m@,
                ImageError::InvalidFormat(m) => "Invalid format: "@ + m@,
                ImageError::LoadError(m) => "Load error: "@ + m@,
            },
    {
        match self {
            ImageError::DecodeError(m) => String::from_str("Decode error: ").concat(m.as_str()),
            ImageError::InvalidFormat(m) => String::from_str("Invalid format: ").concat(m.as_str()),
            ImageError::LoadError(m) => String::from_str("Load error: ").concat(m.as_str()),
        }
    }
}

/// Sniffs the container of `data` from its leading signature, without
/// decoding; `None` when no signature is recognised.
pub fn detect_format(data: &[u8]) -> (r: Option<ImageKind>)
    ensures
        r == guessed_kind(data@),
{
    match guess_format(data) {
        Ok(k) => Some(k),
        Err(_) => None,
    }
}

/// The strict form of [`detect_format`]: the upper-case name of the
/// container, or `InvalidFormat` when none is recognised.
pub fn validate_image(data: &[u8]) -> (r: Result<String, ImageError>)
    ensures
        r is Ok <==> guessed_kind(data@) is Some,
        r is Ok ==> r->Ok_0@ == guessed_kind(data@)->0.upper_spec(),
        r is Err ==> r->Err_0 is InvalidFormat,
{
    match guess_format(data) {
        Ok(k) => Ok(k.upper_name()),
        Err(e) => Err(ImageError::InvalidFormat(String::from_str("Invalid image format: ").concat(e.as_str()))),
    }
}

/// The soft form of [`detect_format`]: the lower-case name of the
/// container, or `None` when none is recognised.
pub fn get_image_format(data: &[u8]) -> (r: Option<String>)
    ensures
        r is Some <==> guessed_kind(data@) is Some,
        r is Some ==> r->0@ == guessed_kind(data@)->0.lower_spec(),
{
    match detect_format(data) {
        Some(k) => Some(k.lower_name()),
        None => None,
    }
}

/// Decodes `data` to learn its width and height; `LoadError` when the
/// container cannot be guessed or decoded.
pub fn get_dimensions(data: &[u8]) -> (r: Result<Dimensions, ImageError>)
    ensures
        r is Ok <==> decoded_size(data@) is Some,
        r is Ok ==> (r->Ok_0.width, r->Ok_0.height) == decoded_size(data@)->0,
        r is Err ==> r->Err_0 is LoadError,
{
    match load_size(data) {
        Ok((width, height)) => Ok(Dimensions { width, height }),
        Err(e) => Err(ImageError::LoadError(String::from_str("Failed to decode image: ").concat(e.as_str()))),
    }
}

/// The byte length of `data`: the buffer's own footprint, not the memory
/// that decoded pixels would take.
pub fn calculate_memory_usage(data: &[u8]) -> (r: usize)
    ensures
        r == data@.len(),
{
    data.len()
}

/// Decodes padded standard base64 text; `DecodeError` on a bad character
/// or bad padding. Re-encoding the result gives `text` back.
pub fn decode_base64(text: &str) -> (r: Result<Vec<u8>, ImageError>)
    ensures
        r is Ok <==> base64_bytes(text@) is Some,
        r is Ok ==> r->Ok_0@ == base64_bytes(text@)->0,
        r is Ok ==> base64_text(r->Ok_0@) == text@,
        r is Err ==> r->Err_0 is DecodeError,
        text@.len() % 4 != 0 ==> r is Err,
        (exists|k: int| 0 <= k < text@.len() && !is_base64_char(text@[k]) && text@[k] != '=') ==> r is Err,
{
    match base64_decode(text) {
        Ok(v) => Ok(v),
        Err(e) => Err(ImageError::DecodeError(String::from_str("Failed to decode base64: ").concat(e.as_str()))),
    }
}

/// Encodes `data` as padded standard base64. Decoding the result gives
/// `data` back.
pub fn encode_base64(data: &[u8]) -> (r: String)
    requires
        data@.len() <= isize::MAX,
    ensures
        r@ == base64_text(data@),
        r@.len() == 4 * ((data@.len() + 2) / 3),
        base64_bytes(r@) == Some(data@),
{
    base64_encode(data)
}

} // verus!
