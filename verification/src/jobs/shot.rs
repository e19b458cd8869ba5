use vstd::prelude::*;

use crate::params::domain::Rect;
use crate::tiles::domain::TileClip;

verus! {

/// A decoded die shot.
#[verifier::external_type_specification]
#[verifier::external_body]
pub struct ExDynamicImage(image::DynamicImage);

/// The format a file's first bytes announce.
#[derive(Debug, Clone, PartialEq)]
pub enum DetectedFormat {
    Jpeg,
    Png,
    /// Another format, by its name.
    Other(String),
}

/// Why the header of an image file could not be read.
#[derive(Debug, Clone, Copy, PartialEq, Eq, Structural)]
pub enum ImageProbeError {
    /// The bytes could not be examined for a format.
    FormatUnreadable,
    /// The bytes announce no known format.
    NoFormat,
    /// The dimensions could not be decoded.
    DimensionsUnreadable,
}

/// An image file's format and its dimensions in pixels.
#[derive(Debug, Clone, PartialEq)]
pub struct ImageHeader {
    pub format: DetectedFormat,
    pub width: u32,
    pub height: u32,
}

/// Why an image file could not be decoded.
#[derive(Debug, Clone, Copy, PartialEq, Eq, Structural)]
pub enum ImageDecodeError {
    FormatUnreadable,
    Undecodable,
}

/// What `image` makes of an image file's header: the format it guesses from
/// the first bytes and the dimensions its decoder reads.
pub uninterp spec fn probed_header(bytes: Seq<u8>) -> Result<ImageHeader, ImageProbeError>;

/// Reads an image file's header with `image::ImageReader`
/// (`with_guessed_format`, `format`, `into_dimensions`). Its result depends
/// on the bytes alone and is given the name `probed_header`; nothing more is
/// claimed of it.
#[verifier::external_body]
fn read_header(bytes: &[u8]) -> (r: Result<ImageHeader, ImageProbeError>)
    ensures
        r == probed_header(bytes@),
{
    let reader = match image::ImageReader::new(std::io::Cursor::new(bytes)).with_guessed_format() {
        Ok(reader) => reader,
        Err(_) => return Err(ImageProbeError::FormatUnreadable),
    };
    let format = match reader.format() {
        Some(image::ImageFormat::Jpeg) => DetectedFormat::Jpeg,
        Some(image::ImageFormat::Png) => DetectedFormat::Png,
        Some(other) => DetectedFormat::Other(format!("{other:?}")),
        None => return Err(ImageProbeError::NoFormat),
    };
    match reader.into_dimensions() {
        Ok((width, height)) => Ok(ImageHeader { format, width, height }),
        Err(_) => Err(ImageProbeError::DimensionsUnreadable),
    }
}

/// Whether `image` decodes an image file, and the error when it does not:
/// `with_guessed_format` and then `decode`, without size limits.
pub uninterp spec fn decode_outcome(bytes: Seq<u8>) -> Result<(), ImageDecodeError>;

/// The JPEG bytes (quality 90) of the box at `(x, y)` of size `w` x `h`,
/// clamped to the image, of the image decoded from the file `source`.
pub uninterp spec fn clip_jpeg(source: Seq<u8>, x: u32, y: u32, w: u32, h: u32) -> Seq<u8>;

/// A decoded die shot. Its view is the image file it was decoded from,
/// which only `decode_shot` can make one of.
pub struct Shot {
    image: image::DynamicImage,
    source: Ghost<Seq<u8>>,
}

impl View for Shot {
    type V = Seq<u8>;

    closed spec fn view(&self) -> Seq<u8> {
        self.source@
    }
}

/// Decodes an image file with `image::ImageReader` (`with_guessed_format`,
/// `no_limits`, `decode`). Whether it succeeds, and with which error it
/// fails, depends on the bytes alone and is given the name
/// `decode_outcome`; nothing is claimed of the decoded image itself.
#[verifier::external_body]
fn decode(bytes: &[u8]) -> (r: Result<image::DynamicImage, ImageDecodeError>)
    ensures
        decode_outcome(bytes@) == (match r {
            Ok(_) => Ok::<(), ImageDecodeError>(()),
            Err(e) => Err(e),
        }),
{
    let mut reader = match image::ImageReader::new(std::io::Cursor::new(bytes)).with_guessed_format() {
        Ok(reader) => reader,
        Err(_) => return Err(ImageDecodeError::FormatUnreadable),
    };
    reader.no_limits();
    reader.decode().map_err(|_| ImageDecodeError::Undecodable)
}

/// Cuts a box out of the shot (`DynamicImage::crop_imm`, which clamps the
/// box to the image) and encodes it as JPEG of quality 90
/// (`JpegEncoder::new_with_quality`, `write_with_encoder`, whose error is
/// ignored). The bytes depend on the shot's file and the box alone and are
/// given the name `clip_jpeg`.
#[verifier::external_body]
fn crop_jpeg(shot: &Shot, x: u32, y: u32, w: u32, h: u32) -> (r: Vec<u8>)
    ensures
        r@ == clip_jpeg(shot@, x, y, w, h),
{
    let cropped = shot.image.crop_imm(x, y, w, h);
    let mut buf = Vec::new();
    let _ = cropped.write_with_encoder(image::codecs::jpeg::JpegEncoder::new_with_quality(&mut buf, 90));
    buf
}

/// Cuts the clip's source box out of the shot (`crop_imm`), scales it to
/// the clip's tile size with the Lanczos3 filter (`resize_exact`) and
/// encodes it as JPEG of quality 90, ignoring an encoding error. Nothing is
/// claimed of the bytes: the filter's kernel calls `f32::sin`, whose
/// precision std leaves open, so the bytes are not a function of the
/// arguments.
#[verifier::external_body]
fn scaled_jpeg(shot: &Shot, clip: &TileClip) -> (r: Vec<u8>) {
    let src = &clip.src;
    let resized = shot.image.crop_imm(src.x, src.y, src.w, src.h).resize_exact(
        clip.dst_w,
        clip.dst_h,
        image::imageops::FilterType::Lanczos3,
    );
    let mut buf = Vec::new();
    let _ = resized.write_with_encoder(image::codecs::jpeg::JpegEncoder::new_with_quality(&mut buf, 90));
    buf
}

/// The format and dimensions of an image file.
pub fn probe_image(bytes: &[u8]) -> (r: Result<ImageHeader, ImageProbeError>)
    ensures
        r == probed_header(bytes@),
{
    read_header(bytes)
}

/// Decodes a die shot, without the decoder's size limits: the shot of the
/// file `bytes` when `image` decodes it, else the error it fails with.
pub fn decode_shot(bytes: &[u8]) -> (r: Result<Shot, ImageDecodeError>)
    ensures
        match r {
            Ok(shot) => decode_outcome(bytes@) == Ok::<(), ImageDecodeError>(()) && shot@ == bytes@,
            Err(e) => decode_outcome(bytes@) == Err::<(), ImageDecodeError>(e),
        },
{
    match decode(bytes) {
        Ok(image) => Ok(Shot { image, source: Ghost(bytes@) }),
        Err(e) => Err(e),
    }
}

/// The JPEG clip of a rectangle of the shot.
pub fn cut_clip(shot: &Shot, rect: &Rect) -> (r: Vec<u8>)
    ensures
        r@ == clip_jpeg(shot@, rect.x, rect.y, rect.width, rect.height),
{
    crop_jpeg(shot, rect.x, rect.y, rect.width, rect.height)
}

/// The JPEG image of one tile: the clip's source box of the shot, scaled to
/// the clip's tile size.
pub fn render_tile(shot: &Shot, clip: &TileClip) -> (r: Vec<u8>) {
    scaled_jpeg(shot, clip)
}

} // verus!
