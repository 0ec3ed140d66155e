use base64::Engine;
use image::{DynamicImage, GrayImage, ImageFormat, RgbImage, RgbaImage};
use resource_core::image_handler::{
    clear_caches, get_cache_stats, make_thumbnail_key, plan_thumbnail, render_thumbnail,
    validate_texture_size, ImageCaches, ThumbnailError, ThumbnailPlan,
};
use resource_core::imaging::ResampleFilter;

fn png_bytes(img: &DynamicImage) -> Vec<u8> {
    let mut out: Vec<u8> = Vec::new();
    img.write_to(std::io::Cursor::new(&mut out), ImageFormat::Png).unwrap();
    out
}

fn rgba(width: u32, height: u32) -> DynamicImage {
    DynamicImage::ImageRgba8(RgbaImage::from_fn(width, height, |x, y| {
        image::Rgba([(x % 256) as u8, (y % 256) as u8, ((x + y) % 256) as u8, 255])
    }))
}

fn decode_thumbnail(text: &str) -> DynamicImage {
    let bytes = base64::engine::general_purpose::STANDARD.decode(text).unwrap();
    image::load_from_memory_with_format(&bytes, ImageFormat::Png).unwrap()
}

#[test]
fn plan_large_source_scales_with_smooth_filter() {
    let plan = plan_thumbnail(4000, 2000, 512);
    assert_eq!(
        plan,
        ThumbnailPlan::Scaled { width: 512, height: 256, filter: ResampleFilter::Smooth }
    );
}

#[test]
fn plan_small_source_is_kept() {
    assert_eq!(plan_thumbnail(100, 100, 512), ThumbnailPlan::Original);
    assert_eq!(plan_thumbnail(512, 512, 512), ThumbnailPlan::Original);
    assert_eq!(plan_thumbnail(512, 1, 512), ThumbnailPlan::Original);
}

#[test]
fn plan_mild_reduction_uses_linear_filter() {
    // scale 512 / 800 = 0.64, not below one half
    assert_eq!(
        plan_thumbnail(800, 600, 512),
        ThumbnailPlan::Scaled { width: 512, height: 384, filter: ResampleFilter::Linear }
    );
    // scale exactly one half stays linear
    assert_eq!(
        plan_thumbnail(1024, 1024, 512),
        ThumbnailPlan::Scaled { width: 512, height: 512, filter: ResampleFilter::Linear }
    );
}

#[test]
fn plan_rounds_down_and_never_upscales() {
    // 300 * 128 / 1000 = 38.4
    assert_eq!(
        plan_thumbnail(1000, 300, 128),
        ThumbnailPlan::Scaled { width: 128, height: 38, filter: ResampleFilter::Smooth }
    );
    // the taller side becomes the bound
    assert_eq!(
        plan_thumbnail(333, 1000, 100),
        ThumbnailPlan::Scaled { width: 33, height: 100, filter: ResampleFilter::Smooth }
    );
    match plan_thumbnail(u32::MAX, u32::MAX - 1, u32::MAX - 2) {
        ThumbnailPlan::Scaled { width, height, .. } => {
            assert!(height <= u32::MAX - 1);
            assert_eq!(width, u32::MAX - 2);
        }
        ThumbnailPlan::Original => panic!("a larger image must be scaled"),
    }
}

#[test]
fn texture_sizes() {
    assert!(validate_texture_size(16, 16));
    assert!(validate_texture_size(1, 2));
    assert!(validate_texture_size(48, 32));
    assert!(!validate_texture_size(48, 20));
    assert!(!validate_texture_size(0, 16));
    assert!(!validate_texture_size(3, 3));
    assert!(validate_texture_size(1024, 4));
}

#[test]
fn thumbnail_key_text() {
    assert_eq!(make_thumbnail_key("/pack/a.png", 512), "/pack/a.png_512");
    assert_eq!(make_thumbnail_key("b.png", 0), "b.png_0");
    assert_eq!(make_thumbnail_key("c", 4294967295), "c_4294967295");
}

#[test]
fn small_image_is_reencoded_unresampled() {
    let img = rgba(100, 100);
    let source = png_bytes(&img);
    let mut caches = ImageCaches::new();
    let text = caches.create_thumbnail("/pack/small.png", 512, &source).unwrap();
    let out = decode_thumbnail(&text);
    assert_eq!((out.width(), out.height()), (100, 100));
    assert_eq!(out.to_rgba8().into_raw(), img.to_rgba8().into_raw());
    let expected = base64::engine::general_purpose::STANDARD.encode(png_bytes(&img));
    assert_eq!(text, expected);
}

#[test]
fn large_image_is_scaled_to_bound() {
    let img = DynamicImage::ImageLuma8(GrayImage::from_fn(1000, 500, |x, _| image::Luma([(x % 256) as u8])));
    let source = png_bytes(&img);
    let mut caches = ImageCaches::new();
    let text = caches.create_thumbnail("/pack/large.png", 100, &source).unwrap();
    let out = decode_thumbnail(&text);
    assert_eq!((out.width(), out.height()), (100, 50));
}

#[test]
fn render_scales_decoded_image() {
    let img = DynamicImage::ImageRgb8(RgbImage::new(300, 200));
    let text = render_thumbnail(&img, 150).unwrap();
    let out = decode_thumbnail(&text);
    assert_eq!((out.width(), out.height()), (150, 100));
}

#[test]
fn repeated_request_hits_cache() {
    let source = png_bytes(&rgba(40, 20));
    let mut caches = ImageCaches::new();
    let first = caches.create_thumbnail("/pack/x.png", 16, &source).unwrap();
    let cached = caches.cached_thumbnail("/pack/x.png", 16).unwrap();
    assert_eq!(first, cached);
    // a hit never reads the bytes again
    let second = caches.create_thumbnail("/pack/x.png", 16, b"not an image").unwrap();
    assert_eq!(first, second);
    assert_eq!(get_cache_stats(&caches), (1, 0));
    // another bound is another key
    assert!(caches.cached_thumbnail("/pack/x.png", 32).is_none());
}

#[test]
fn capacity_evicts_earliest_writes() {
    let source = png_bytes(&rgba(4, 4));
    let mut caches = ImageCaches::with_capacities(2, 2);
    for name in ["/a.png", "/b.png", "/c.png", "/d.png"] {
        caches.create_thumbnail(name, 8, &source).unwrap();
    }
    assert_eq!(get_cache_stats(&caches).0, 2);
    assert!(caches.cached_thumbnail("/a.png", 8).is_none());
    assert!(caches.cached_thumbnail("/b.png", 8).is_none());
    assert!(caches.cached_thumbnail("/c.png", 8).is_some());
    assert!(caches.cached_thumbnail("/d.png", 8).is_some());
}

#[test]
fn lookups_do_not_refresh_recency() {
    let source = png_bytes(&rgba(4, 4));
    let mut caches = ImageCaches::with_capacities(2, 2);
    caches.create_thumbnail("/a.png", 8, &source).unwrap();
    caches.create_thumbnail("/b.png", 8, &source).unwrap();
    assert!(caches.cached_thumbnail("/a.png", 8).is_some());
    caches.create_thumbnail("/c.png", 8, &source).unwrap();
    assert!(caches.cached_thumbnail("/a.png", 8).is_none());
    assert!(caches.cached_thumbnail("/b.png", 8).is_some());
}

#[test]
fn unknown_extension_is_decode_error() {
    let source = png_bytes(&rgba(4, 4));
    let mut caches = ImageCaches::new();
    let r = caches.create_thumbnail("/pack/readme.unknownext", 8, &source);
    assert!(matches!(r, Err(ThumbnailError::Decode(_))));
    assert_eq!(get_cache_stats(&caches), (0, 0));
}

#[test]
fn corrupt_bytes_are_decode_error() {
    let mut caches = ImageCaches::new();
    let r = caches.create_thumbnail("/pack/broken.png", 8, b"\x89PNG garbage");
    assert!(matches!(r, Err(ThumbnailError::Decode(_))));
    let r = caches.get_image_info("/pack/broken.png", b"garbage");
    assert!(matches!(r, Err(ThumbnailError::Decode(_))));
}

#[test]
fn zero_height_thumbnail_is_encode_error() {
    // 1 * 512 / 10000 rounds down to zero rows, which PNG cannot hold
    let img = DynamicImage::ImageLuma8(GrayImage::new(10000, 1));
    let r = render_thumbnail(&img, 512);
    assert!(matches!(r, Err(ThumbnailError::Encode(_))));
}

#[test]
fn image_info_of_rgba_texture() {
    let source = png_bytes(&rgba(32, 16));
    let mut caches = ImageCaches::new();
    let info = caches.get_image_info("/pack/t.png", &source).unwrap();
    assert_eq!((info.width, info.height), (32, 16));
    assert_eq!(info.format, "RGBA");
    assert_eq!(info.size_bytes, source.len() as u64);
    assert!(info.is_valid_texture);
    assert_eq!(get_cache_stats(&caches), (0, 1));
    let again = caches.get_image_info("/pack/t.png", b"").unwrap();
    assert_eq!(again.size_bytes, source.len() as u64);
}

#[test]
fn image_info_layout_labels() {
    let rgb = png_bytes(&DynamicImage::ImageRgb8(RgbImage::new(20, 20)));
    let gray = png_bytes(&DynamicImage::ImageLuma8(GrayImage::new(3, 5)));
    let mut caches = ImageCaches::new();
    let a = caches.get_image_info("/rgb.png", &rgb).unwrap();
    assert_eq!(a.format, "RGB");
    assert!(!a.is_valid_texture);
    let b = caches.get_image_info("/gray.png", &gray).unwrap();
    assert_eq!(b.format, "Other");
    assert_eq!((b.width, b.height), (3, 5));
}

#[test]
fn clearing_empties_both_caches() {
    let source = png_bytes(&rgba(4, 4));
    let mut caches = ImageCaches::new();
    caches.create_thumbnail("/a.png", 8, &source).unwrap();
    caches.get_image_info("/a.png", &source).unwrap();
    assert_eq!(get_cache_stats(&caches), (1, 1));
    clear_caches(&mut caches);
    assert_eq!(get_cache_stats(&caches), (0, 0));
    assert!(caches.cached_info("/a.png").is_none());
}

#[test]
fn wide_source_becomes_512_by_256() {
    let img = DynamicImage::ImageLuma8(GrayImage::from_fn(4000, 2000, |x, y| image::Luma([((x ^ y) % 256) as u8])));
    let source = png_bytes(&img);
    let mut caches = ImageCaches::new();
    let text = caches.create_thumbnail("/pack/wide.png", 512, &source).unwrap();
    let out = decode_thumbnail(&text);
    assert_eq!((out.width(), out.height()), (512, 256));
}
