//! What the crate relies on from the `image` and `base64` crates.
//!
//! A decoded image is an opaque `image::DynamicImage`. Verus sees it through names for what
//! the codec computes from it: its dimensions, its pixel layout, a resampled copy, its PNG
//! encoding. Each name is a function of its arguments alone.
use base64::Engine;
use image::{DynamicImage, ImageError, ImageFormat};
use vstd::prelude::*;

verus! {

#[verifier::external_type_specification]
#[verifier::external_body]
pub struct ExDynamicImage(DynamicImage);

#[verifier::external_type_specification]
#[verifier::external_body]
pub struct ExImageError(ImageError);

#[verifier::external_type_specification]
#[verifier::external_body]
pub struct ExImageFormat(ImageFormat);

/// How the pixels of a decoded image are laid out in memory.
#[derive(Debug, Clone, Copy, PartialEq, Eq)]
pub enum PixelLayout {
    Rgba8,
    Rgb8,
    Other,
}

/// The resampling filter used to shrink an image.
#[derive(Debug, Clone, Copy, PartialEq, Eq)]
pub enum ResampleFilter {
    /// Lanczos with a window of three: slower, for large reductions.
    Smooth,
    /// The linear (triangle) filter: cheap, for small reductions.
    Linear,
}

/// The width of a decoded image.
pub uninterp spec fn pixel_width(img: DynamicImage) -> u32;

/// The height of a decoded image.
pub uninterp spec fn pixel_height(img: DynamicImage) -> u32;

/// The container format that a path's extension names, if the codec knows it.
pub uninterp spec fn format_for_path(path: Seq<char>) -> Option<ImageFormat>;

/// The image that `bytes` decode to in `format`, if they are a valid image of that format.
pub uninterp spec fn decoded(bytes: Seq<u8>, format: ImageFormat) -> Option<DynamicImage>;

/// The pixel layout of a decoded image.
pub uninterp spec fn layout_of(img: DynamicImage) -> PixelLayout;

/// `img` resampled to exactly `width` by `height` with `filter`.
pub uninterp spec fn resampled(img: DynamicImage, width: u32, height: u32, filter: ResampleFilter) -> DynamicImage;

/// The PNG encoding of `img`, if the encoder accepts it.
pub uninterp spec fn png_encoding(img: DynamicImage) -> Option<Seq<u8>>;

/// The standard (padded) base64 text of `bytes`.
pub uninterp spec fn base64_text(bytes: Seq<u8>) -> Seq<char>;

/// Relies on `DynamicImage::width`.
pub assume_specification[ DynamicImage::width ](img: &DynamicImage) -> (r: u32)
    ensures
        r == pixel_width(*img),
;

/// Relies on `DynamicImage::height`.
pub assume_specification[ DynamicImage::height ](img: &DynamicImage) -> (r: u32)
    ensures
        r == pixel_height(*img),
;

/// Relies on `ImageFormat::from_path`: the format is read off the path's extension, and an
/// unknown extension is an error.
#[verifier::external_body]
pub(crate) fn format_from_path(path: &str) -> (r: Result<ImageFormat, ImageError>)
    ensures
        match format_for_path(path@) {
            Some(f) => r == Ok::<ImageFormat, ImageError>(f),
            None => r is Err,
        },
{
    ImageFormat::from_path(path)
}

/// Relies on `image::load_from_memory_with_format`: decodes `bytes` as an image of `format`.
#[verifier::external_body]
pub(crate) fn decode(bytes: &[u8], format: ImageFormat) -> (r: Result<DynamicImage, ImageError>)
    ensures
        match decoded(bytes@, format) {
            Some(img) => r == Ok::<DynamicImage, ImageError>(img),
            None => r is Err,
        },
{
    image::load_from_memory_with_format(bytes, format)
}

/// Relies on the variants of `DynamicImage`: 8-bit RGBA, 8-bit RGB, or another layout.
#[verifier::external_body]
pub(crate) fn pixel_layout(img: &DynamicImage) -> (r: PixelLayout)
    ensures
        r == layout_of(*img),
{
    match img {
        DynamicImage::ImageRgba8(_) => PixelLayout::Rgba8,
        DynamicImage::ImageRgb8(_) => PixelLayout::Rgb8,
        _ => PixelLayout::Other,
    }
}

/// Relies on `DynamicImage::resize_exact`: the result is `width` by `height`, aspect ratio
/// not kept.
#[verifier::external_body]
pub(crate) fn resample(img: &DynamicImage, width: u32, height: u32, filter: ResampleFilter) -> (r: DynamicImage)
    ensures
        r == resampled(*img, width, height, filter),
        pixel_width(r) == width,
        pixel_height(r) == height,
{
    let filter = match filter {
        ResampleFilter::Smooth => image::imageops::FilterType::Lanczos3,
        ResampleFilter::Linear => image::imageops::FilterType::Triangle,
    };
    img.resize_exact(width, height, filter)
}

/// Relies on `DynamicImage::write_to` with `ImageFormat::Png` into an in-memory buffer.
#[verifier::external_body]
pub(crate) fn encode_png(img: &DynamicImage) -> (r: Result<Vec<u8>, ImageError>)
    ensures
        match png_encoding(*img) {
            Some(png) => r is Ok && r->Ok_0@ == png,
            None => r is Err,
        },
{
    let mut buffer: Vec<u8> = Vec::new();
    img.write_to(std::io::Cursor::new(&mut buffer), ImageFormat::Png).map(|_| buffer)
}

/// Relies on `base64::engine::general_purpose::STANDARD.encode`: padded output, four characters
/// for each started group of three bytes.
#[verifier::external_body]
pub(crate) fn to_base64(bytes: &[u8]) -> (r: String)
    ensures
        r@ == base64_text(bytes@),
        r@.len() == 4 * ((bytes@.len() + 2) / 3),
{
    base64::engine::general_purpose::STANDARD.encode(bytes)
}

/// Relies on the `Display` text of `ImageError`, kept as the cause of a failure.
#[verifier::external_body]
pub(crate) fn error_text(e: &ImageError) -> String {
    e.to_string()
}

} // verus!
