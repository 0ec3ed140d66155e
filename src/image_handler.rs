//! Thumbnails and image records, computed from a file's bytes and kept in two bounded caches.
//!
//! Reading files is the caller's part: `create_thumbnail` and `get_image_info` take the path
//! (for the cache key and the format) and the file's bytes. The caches are plain values owned
//! by the caller; concurrent callers put them behind a lock of their own.
use crate::bounded::{after_put, bounded_wf, holds_key, lemma_put_keeps_wf, lemma_read_after_put, lookup, slot_of};
use crate::text::{append_decimal, decimal};
use crate::imaging::{
    base64_text, decode, decoded, encode_png, error_text, format_for_path, format_from_path,
    layout_of, pixel_height, pixel_layout, pixel_width, png_encoding, resample, resampled,
    to_base64, PixelLayout, ResampleFilter,
};
use crate::store::{
    clear_info, clear_text, info_capacity, info_entries, info_len, new_info_cache,
    new_text_cache, peek_info, peek_text, put_info, put_text, text_capacity, text_entries,
    text_len, text_view,
};
use image::DynamicImage;
use lru::LruCache;
use vstd::prelude::*;

verus! {

/// How many thumbnails the default caches keep.
pub const THUMBNAIL_CAPACITY: usize = 1000;

/// How many image records the default caches keep.
pub const INFO_CAPACITY: usize = 2000;

/// What is known of an image file: its dimensions, its pixel layout, its size on disk, and
/// whether its dimensions suit a texture.
#[derive(Debug, Clone)]
pub struct ImageInfo {
    pub width: u32,
    pub height: u32,
    pub format: String,
    pub size_bytes: u64,
    pub is_valid_texture: bool,
}

/// Why a thumbnail or an image record could not be produced.
#[derive(Debug, Clone)]
pub enum ThumbnailError {
    /// The file could not be read.
    Io(String),
    /// The path names no known format, or the bytes are not a valid image of it.
    Decode(String),
    /// The PNG encoder refused the image.
    Encode(String),
    /// The worker that computed the result went away before it delivered one.
    Channel(String),
}

/// How a thumbnail is made from an image of a given size.
#[derive(Debug, Clone, Copy, PartialEq, Eq)]
pub enum ThumbnailPlan {
    /// The image fits: its own pixels are encoded, without resampling.
    Original,
    /// The image is shrunk to `width` by `height` with `filter`.
    Scaled { width: u32, height: u32, filter: ResampleFilter },
}

// ---------------------------------------------------------------------------------------------
// Texture sizes

/// `n` is a power of two.
pub open spec fn power_of_two(n: nat) -> bool
    decreases n,
{
    if n == 0 {
        false
    } else if n == 1 {
        true
    } else if n % 2 == 1 {
        false
    } else {
        power_of_two(n / 2)
    }
}

/// `n` is a positive multiple of sixteen.
pub open spec fn multiple_of_16(n: nat) -> bool {
    n > 0 && n % 16 == 0
}

/// Dimensions that suit a texture: both powers of two, or both positive multiples of sixteen.
pub open spec fn valid_texture(width: u32, height: u32) -> bool {
    (power_of_two(width as nat) && power_of_two(height as nat)) || (multiple_of_16(width as nat)
        && multiple_of_16(height as nat))
}

fn is_power_of_two(n: u32) -> (r: bool)
    ensures
        r == power_of_two(n as nat),
{
    if n == 0 {
        return false;
    }
    let mut m: u32 = n;
    while m % 2 == 0
        invariant
            m > 0,
            power_of_two(m as nat) == power_of_two(n as nat),
        decreases m,
    {
        m = m / 2;
    }
    m == 1
}

/// Whether an image of `width` by `height` suits a texture.
pub fn validate_texture_size(width: u32, height: u32) -> (r: bool)
    ensures
        r == valid_texture(width, height),
{
    (is_power_of_two(width) && is_power_of_two(height)) || (width > 0 && width % 16 == 0
        && height > 0 && height % 16 == 0)
}

/// The largest side of a blank texture.
pub const MAX_BLANK_SIDE: u32 = 8192;

/// Why a blank texture cannot be made at a given size.
#[derive(Debug, Clone, Copy, PartialEq, Eq, Structural)]
pub enum BlankSizeError {
    /// A side is not a power of two.
    NotPowerOfTwo,
    /// A side is larger than `MAX_BLANK_SIDE`.
    TooLarge,
}

/// Checks the size of a blank (fully transparent) texture: both sides must be powers of two,
/// and neither larger than `MAX_BLANK_SIDE`.
pub fn check_blank_size(width: u32, height: u32) -> (r: Result<(), BlankSizeError>)
    ensures
        !(power_of_two(width as nat) && power_of_two(height as nat)) ==> r == Err::<(), BlankSizeError>(
            BlankSizeError::NotPowerOfTwo,
        ),
        (power_of_two(width as nat) && power_of_two(height as nat)) ==> (r is Ok <==> (width
            <= MAX_BLANK_SIDE && height <= MAX_BLANK_SIDE)),
        r is Err ==> (r == Err::<(), BlankSizeError>(BlankSizeError::NotPowerOfTwo) || r == Err::<
            (),
            BlankSizeError,
        >(BlankSizeError::TooLarge)),
{
    if !is_power_of_two(width) || !is_power_of_two(height) {
        return Err(BlankSizeError::NotPowerOfTwo);
    }
    if width > MAX_BLANK_SIDE || height > MAX_BLANK_SIDE {
        return Err(BlankSizeError::TooLarge);
    }
    Ok(())
}

// ---------------------------------------------------------------------------------------------
// Planning a thumbnail

/// The larger of the two dimensions.
pub open spec fn larger_side(width: u32, height: u32) -> u32 {
    if width >= height { width } else { height }
}

/// A side of `side` pixels scaled by `max_size / larger`, rounded down.
pub open spec fn scaled_side(side: u32, max_size: u32, larger: u32) -> int {
    (side as int * max_size as int) / larger as int
}

/// The plan for a thumbnail of an image of `width` by `height`, bounded by `max_size`: an image
/// that fits keeps its pixels; a larger one is scaled by `max_size / max(width, height)`, each
/// side rounded down, with the smooth filter when the scale is below one half.
pub open spec fn plan_for(width: u32, height: u32, max_size: u32) -> ThumbnailPlan {
    if width <= max_size && height <= max_size {
        ThumbnailPlan::Original
    } else {
        let larger = larger_side(width, height);
        ThumbnailPlan::Scaled {
            width: scaled_side(width, max_size, larger) as u32,
            height: scaled_side(height, max_size, larger) as u32,
            filter: if 2 * (max_size as int) < larger as int {
                ResampleFilter::Smooth
            } else {
                ResampleFilter::Linear
            },
        }
    }
}

proof fn lemma_scaled_side_bounds(side: u32, max_size: u32, larger: u32)
    requires
        side <= larger,
        max_size < larger,
    ensures
        0 <= scaled_side(side, max_size, larger) <= side,
        scaled_side(side, max_size, larger) <= max_size,
        side == larger ==> scaled_side(side, max_size, larger) == max_size,
{
    let s = side as int;
    let m = max_size as int;
    let l = larger as int;
    assert(0 <= s * m <= s * l) by (nonlinear_arith)
        requires
            0 <= s,
            0 <= m < l,
    ;
    vstd::arithmetic::div_mod::lemma_div_is_ordered(s * m, s * l, l);
    vstd::arithmetic::div_mod::lemma_div_multiples_vanish(s, l);
    assert(s * m <= m * l) by (nonlinear_arith)
        requires
            0 <= s <= l,
            0 <= m,
    ;
    vstd::arithmetic::div_mod::lemma_div_is_ordered(s * m, m * l, l);
    vstd::arithmetic::div_mod::lemma_div_multiples_vanish(m, l);
    vstd::arithmetic::div_mod::lemma_div_pos_is_pos(s * m, l);
    if side == larger {
        vstd::arithmetic::div_mod::lemma_div_multiples_vanish(m, l);
        assert(s * m == m * l) by (nonlinear_arith)
            requires
                s == l,
        ;
    }
}

/// The plan for a thumbnail of an image of `width` by `height`, bounded by `max_size`.
///
/// An image whose sides both fit is kept as it is. Otherwise the scale `max_size / larger` is
/// below one, each side is scaled and rounded down, so neither grows and the larger one becomes
/// exactly `max_size`; the smooth filter is chosen when the scale is below one half.
pub fn plan_thumbnail(width: u32, height: u32, max_size: u32) -> (r: ThumbnailPlan)
    ensures
        r == plan_for(width, height, max_size),
        r is Original <==> (width <= max_size && height <= max_size),
        r matches ThumbnailPlan::Scaled { width: w, height: h, filter } ==> {
            &&& max_size < larger_side(width, height)
            &&& w <= width && h <= height
            &&& w <= max_size && h <= max_size
            &&& w as int == scaled_side(width, max_size, larger_side(width, height))
            &&& h as int == scaled_side(height, max_size, larger_side(width, height))
            &&& (width >= height ==> w == max_size)
            &&& (height >= width ==> h == max_size)
            &&& (filter is Smooth <==> 2 * (max_size as int) < larger_side(width, height) as int)
        },
{
    if width <= max_size && height <= max_size {
        return ThumbnailPlan::Original;
    }
    let larger: u32 = if width >= height { width } else { height };
    proof {
        lemma_scaled_side_bounds(width, max_size, larger);
        lemma_scaled_side_bounds(height, max_size, larger);
    }
    assert((width as u64) * (max_size as u64) <= u32::MAX as u64 * u32::MAX as u64) by (nonlinear_arith);
    assert((height as u64) * (max_size as u64) <= u32::MAX as u64 * u32::MAX as u64) by (nonlinear_arith);
    let w = ((width as u64) * (max_size as u64) / (larger as u64)) as u32;
    let h = ((height as u64) * (max_size as u64) / (larger as u64)) as u32;
    let filter = if (max_size as u64) * 2 < larger as u64 {
        ResampleFilter::Smooth
    } else {
        ResampleFilter::Linear
    };
    ThumbnailPlan::Scaled { width: w, height: h, filter }
}

// ---------------------------------------------------------------------------------------------
// Rendering

/// The image whose PNG encoding is the thumbnail of `img` bounded by `max_size`.
pub open spec fn thumbnail_image(img: DynamicImage, max_size: u32) -> DynamicImage {
    match plan_for(pixel_width(img), pixel_height(img), max_size) {
        ThumbnailPlan::Original => img,
        ThumbnailPlan::Scaled { width, height, filter } => resampled(img, width, height, filter),
    }
}

/// The base64 PNG thumbnail of `img` bounded by `max_size`, if the encoder accepts it.
pub open spec fn thumbnail_text(img: DynamicImage, max_size: u32) -> Option<Seq<char>> {
    match png_encoding(thumbnail_image(img, max_size)) {
        Some(png) => Some(base64_text(png)),
        None => None,
    }
}

/// The thumbnail image of `img` is no larger than `img` and fits within `max_size` on both
/// sides.
pub open spec fn within_bound(img: DynamicImage, max_size: u32) -> bool {
    let t = thumbnail_image(img, max_size);
    &&& pixel_width(t) <= pixel_width(img) && pixel_width(t) <= max_size
    &&& pixel_height(t) <= pixel_height(img) && pixel_height(t) <= max_size
}

/// `text` is a thumbnail rendered for the key `key`: the key names a path and a size bound, and
/// the text is the base64 PNG thumbnail, within that bound, of some image.
pub open spec fn rendered_for(key: Seq<char>, text: Seq<char>) -> bool {
    exists|path: Seq<char>, max_size: u32, img: DynamicImage|
        #[trigger] thumbnail_key(path, max_size) == key && #[trigger] thumbnail_text(img, max_size) == Some(text)
            && within_bound(img, max_size)
}

/// Every stored thumbnail was rendered for its key.
pub open spec fn all_rendered(entries: Seq<(Seq<char>, Seq<char>)>) -> bool {
    forall|i: int| 0 <= i < entries.len() ==> rendered_for(#[trigger] entries[i].0, entries[i].1)
}

/// Writing a rendered thumbnail keeps every stored thumbnail rendered for its key.
proof fn lemma_put_keeps_rendered(
    entries: Seq<(Seq<char>, Seq<char>)>,
    capacity: nat,
    key: Seq<char>,
    text: Seq<char>,
)
    requires
        bounded_wf(entries, capacity),
        all_rendered(entries),
        rendered_for(key, text),
    ensures
        all_rendered(after_put(entries, capacity, key, text)),
{
    let r = after_put(entries, capacity, key, text);
    assert forall|i: int| 0 <= i < r.len() implies rendered_for(#[trigger] r[i].0, r[i].1) by {
        if i == r.len() - 1 {
            assert(r[i] == (key, text));
        } else if holds_key(entries, key) {
            let s = slot_of(entries, key);
            let j = if i < s { i } else { i + 1 };
            assert(r[i] == entries[j]);
        } else if entries.len() < capacity {
            assert(r[i] == entries[i]);
        } else {
            assert(r[i] == entries[i + 1]);
        }
    }
}

/// An image whose sides both fit within `max_size` is its own thumbnail image: its pixels are
/// encoded as they are, with the same dimensions and no resampling.
pub proof fn lemma_fitting_image_kept(img: DynamicImage, max_size: u32)
    requires
        pixel_width(img) <= max_size,
        pixel_height(img) <= max_size,
    ensures
        thumbnail_image(img, max_size) == img,
{
}

/// An image with a side over `max_size` is resampled by the scale `max_size / larger`, which is
/// below one: each side is scaled and rounded down, so neither grows, and the result has
/// exactly those dimensions.
pub proof fn lemma_large_image_scaled(img: DynamicImage, max_size: u32)
    requires
        pixel_width(img) > max_size || pixel_height(img) > max_size,
    ensures
        ({
            let w = pixel_width(img);
            let h = pixel_height(img);
            let larger = larger_side(w, h);
            let sw = scaled_side(w, max_size, larger);
            let sh = scaled_side(h, max_size, larger);
            &&& max_size < larger
            &&& 0 <= sw <= w && 0 <= sh <= h
            &&& thumbnail_image(img, max_size) == resampled(
                img,
                sw as u32,
                sh as u32,
                if 2 * (max_size as int) < larger as int {
                    ResampleFilter::Smooth
                } else {
                    ResampleFilter::Linear
                },
            )
        }),
{
    let w = pixel_width(img);
    let h = pixel_height(img);
    let larger = larger_side(w, h);
    lemma_scaled_side_bounds(w, max_size, larger);
    lemma_scaled_side_bounds(h, max_size, larger);
}

/// Encodes the thumbnail of a decoded image as base64 PNG: the image itself when it fits within
/// `max_size`, else its copy resampled as `plan_thumbnail` says.
///
/// The image encoded never grows and never exceeds `max_size` on either side.
pub fn render_thumbnail(img: &DynamicImage, max_size: u32) -> (r: Result<String, ThumbnailError>)
    ensures
        match thumbnail_text(*img, max_size) {
            Some(text) => r is Ok && r->Ok_0@ == text,
            None => r is Err && r->Err_0 is Encode,
        },
        within_bound(*img, max_size),
{
    let plan = plan_thumbnail(img.width(), img.height(), max_size);
    let encoded = match plan {
        ThumbnailPlan::Original => {
            assert(thumbnail_image(*img, max_size) == *img);
            encode_png(img)
        },
        ThumbnailPlan::Scaled { width, height, filter } => {
            let small = resample(img, width, height, filter);
            proof {
                if pixel_width(*img) >= pixel_height(*img) {
                    assert(width == max_size);
                } else {
                    assert(height == max_size);
                }
                assert(thumbnail_image(*img, max_size) == small);
            }
            encode_png(&small)
        },
    };
    match encoded {
        Ok(png) => Ok(to_base64(png.as_slice())),
        Err(e) => Err(ThumbnailError::Encode(error_text(&e))),
    }
}

// ---------------------------------------------------------------------------------------------
// Cache keys

/// The cache key of a thumbnail: the path, an underscore, and the size bound in decimal.
pub open spec fn thumbnail_key(path: Seq<char>, max_size: u32) -> Seq<char> {
    path + seq!['_'] + decimal(max_size as nat)
}

/// The cache key of the thumbnail of `path` bounded by `max_size`.
pub fn make_thumbnail_key(path: &str, max_size: u32) -> (r: String)
    ensures
        r@ == thumbnail_key(path@, max_size),
{
    let mut key = path.to_owned();
    proof {
        reveal_strlit("_");
    }
    key.append("_");
    append_decimal(&mut key, max_size as u64);
    assert(key@ =~= thumbnail_key(path@, max_size));
    key
}

// ---------------------------------------------------------------------------------------------
// Image records

/// The label of a pixel layout, as an image record shows it.
pub open spec fn layout_label(layout: PixelLayout) -> Seq<char> {
    match layout {
        PixelLayout::Rgba8 => seq!['R', 'G', 'B', 'A'],
        PixelLayout::Rgb8 => seq!['R', 'G', 'B'],
        PixelLayout::Other => seq!['O', 't', 'h', 'e', 'r'],
    }
}

/// `info` describes `img`, decoded from a file of `size_bytes` bytes.
pub open spec fn describes(info: ImageInfo, img: DynamicImage, size_bytes: nat) -> bool {
    &&& info.width == pixel_width(img)
    &&& info.height == pixel_height(img)
    &&& info.format@ == layout_label(layout_of(img))
    &&& info.size_bytes == size_bytes
    &&& info.is_valid_texture == valid_texture(pixel_width(img), pixel_height(img))
}

/// The record of a decoded image read from a file of `size_bytes` bytes.
pub fn describe_image(img: &DynamicImage, size_bytes: u64) -> (r: ImageInfo)
    ensures
        describes(r, *img, size_bytes as nat),
{
    let width = img.width();
    let height = img.height();
    proof {
        reveal_strlit("RGBA");
        reveal_strlit("RGB");
        reveal_strlit("Other");
    }
    let format = match pixel_layout(img) {
        PixelLayout::Rgba8 => "RGBA".to_owned(),
        PixelLayout::Rgb8 => "RGB".to_owned(),
        PixelLayout::Other => "Other".to_owned(),
    };
    assert(format@ =~= layout_label(layout_of(*img)));
    ImageInfo {
        width,
        height,
        format,
        size_bytes,
        is_valid_texture: validate_texture_size(width, height),
    }
}

// ---------------------------------------------------------------------------------------------
// Decoding a file

/// The image that a file at `path` with contents `bytes` decodes to: the format comes from the
/// path's extension.
pub open spec fn source_image(path: Seq<char>, bytes: Seq<u8>) -> Option<DynamicImage> {
    match format_for_path(path) {
        Some(format) => decoded(bytes, format),
        None => None,
    }
}

/// Decodes the contents of the file at `path`, in the format that its extension names.
pub fn decode_source(path: &str, bytes: &[u8]) -> (r: Result<DynamicImage, ThumbnailError>)
    ensures
        match source_image(path@, bytes@) {
            Some(img) => r == Ok::<DynamicImage, ThumbnailError>(img),
            None => r is Err && r->Err_0 is Decode,
        },
{
    let format = match format_from_path(path) {
        Ok(f) => f,
        Err(e) => return Err(ThumbnailError::Decode(error_text(&e))),
    };
    match decode(bytes, format) {
        Ok(img) => Ok(img),
        Err(e) => Err(ThumbnailError::Decode(error_text(&e))),
    }
}

// ---------------------------------------------------------------------------------------------
// The caches

/// The two bounded caches: base64 thumbnails keyed by path and size bound, and image records
/// keyed by path. Both evict by write order; reading never changes them.
pub struct ImageCaches {
    thumbnails: LruCache<String, String>,
    infos: LruCache<String, ImageInfo>,
}

impl ImageCaches {
    /// The stored thumbnails, least recently written first.
    pub closed spec fn thumbnail_entries(&self) -> Seq<(Seq<char>, Seq<char>)> {
        text_entries(self.thumbnails)
    }

    /// How many thumbnails the cache keeps at most.
    pub closed spec fn thumbnail_capacity(&self) -> nat {
        text_capacity(self.thumbnails)
    }

    /// The stored image records, least recently written first.
    pub closed spec fn info_entries(&self) -> Seq<(Seq<char>, ImageInfo)> {
        info_entries(self.infos)
    }

    /// How many image records the cache keeps at most.
    pub closed spec fn info_capacity(&self) -> nat {
        info_capacity(self.infos)
    }

    /// Both caches have a positive capacity that they do not exceed, and unique keys; every
    /// stored thumbnail was rendered for its key, so a cached answer is as bounded as a fresh one.
    pub open spec fn wf(&self) -> bool {
        &&& bounded_wf(self.thumbnail_entries(), self.thumbnail_capacity())
        &&& bounded_wf(self.info_entries(), self.info_capacity())
        &&& all_rendered(self.thumbnail_entries())
    }

    /// Empty caches of the default capacities.
    pub fn new() -> (r: ImageCaches)
        ensures
            r.wf(),
            r.thumbnail_entries().len() == 0,
            r.info_entries().len() == 0,
            r.thumbnail_capacity() == THUMBNAIL_CAPACITY,
            r.info_capacity() == INFO_CAPACITY,
    {
        ImageCaches::with_capacities(THUMBNAIL_CAPACITY, INFO_CAPACITY)
    }

    /// Empty caches that keep at most `thumbnails` thumbnails and `infos` image records.
    pub fn with_capacities(thumbnails: usize, infos: usize) -> (r: ImageCaches)
        requires
            thumbnails > 0,
            infos > 0,
        ensures
            r.wf(),
            r.thumbnail_entries().len() == 0,
            r.info_entries().len() == 0,
            r.thumbnail_capacity() == thumbnails,
            r.info_capacity() == infos,
    {
        ImageCaches { thumbnails: new_text_cache(thumbnails), infos: new_info_cache(infos) }
    }

    /// The cached thumbnail of `path` bounded by `max_size`, if there is one.
    pub fn cached_thumbnail(&self, path: &str, max_size: u32) -> (r: Option<String>)
        ensures
            text_view(r) == lookup(self.thumbnail_entries(), thumbnail_key(path@, max_size)),
    {
        let key = make_thumbnail_key(path, max_size);
        peek_text(&self.thumbnails, key.as_str())
    }

    /// The base64 PNG thumbnail of the image file at `path` whose contents are `bytes`, bounded
    /// by `max_size`.
    ///
    /// A cached thumbnail for `(path, max_size)` is returned as it is, and nothing changes.
    /// Otherwise the bytes are decoded in the format of the path's extension (an unknown
    /// extension or bad bytes give `Decode`), the thumbnail is rendered (`Encode` if the encoder
    /// refuses), and a thumbnail that was made is written to the cache. Either way a returned
    /// thumbnail was rendered for `(path, max_size)`, within the bound.
    pub fn create_thumbnail(&mut self, path: &str, max_size: u32, bytes: &[u8]) -> (r: Result<String, ThumbnailError>)
        requires
            old(self).wf(),
        ensures
            final(self).wf(),
            final(self).info_entries() == old(self).info_entries(),
            final(self).thumbnail_capacity() == old(self).thumbnail_capacity(),
            final(self).info_capacity() == old(self).info_capacity(),
            r is Ok ==> rendered_for(thumbnail_key(path@, max_size), r->Ok_0@),
            match lookup(old(self).thumbnail_entries(), thumbnail_key(path@, max_size)) {
                Some(cached) => r is Ok && r->Ok_0@ == cached && final(self).thumbnail_entries()
                    == old(self).thumbnail_entries(),
                None => match source_image(path@, bytes@) {
                    None => r is Err && r->Err_0 is Decode && final(self).thumbnail_entries()
                        == old(self).thumbnail_entries(),
                    Some(img) => match thumbnail_text(img, max_size) {
                        None => r is Err && r->Err_0 is Encode && final(self).thumbnail_entries()
                            == old(self).thumbnail_entries(),
                        Some(text) => r is Ok && r->Ok_0@ == text && final(self).thumbnail_entries()
                            == after_put(
                            old(self).thumbnail_entries(),
                            old(self).thumbnail_capacity(),
                            thumbnail_key(path@, max_size),
                            text,
                        ),
                    },
                },
            },
    {
        let key = make_thumbnail_key(path, max_size);
        if let Some(cached) = peek_text(&self.thumbnails, key.as_str()) {
            proof {
                let e = self.thumbnail_entries();
                let i = slot_of(e, key@);
                assert(rendered_for(e[i].0, e[i].1));
            }
            return Ok(cached);
        }
        let img = match decode_source(path, bytes) {
            Ok(img) => img,
            Err(e) => return Err(e),
        };
        let text = match render_thumbnail(&img, max_size) {
            Ok(text) => text,
            Err(e) => return Err(e),
        };
        proof {
            lemma_put_keeps_wf(self.thumbnail_entries(), self.thumbnail_capacity(), key@, text@);
            assert(thumbnail_key(path@, max_size) == key@);
            assert(rendered_for(key@, text@));
            lemma_put_keeps_rendered(self.thumbnail_entries(), self.thumbnail_capacity(), key@, text@);
        }
        put_text(&mut self.thumbnails, key, text.clone());
        Ok(text)
    }

    /// The cached record of `path`, if there is one.
    pub fn cached_info(&self, path: &str) -> (r: Option<ImageInfo>)
        ensures
            r == lookup(self.info_entries(), path@),
    {
        peek_info(&self.infos, path)
    }

    /// The record of the image file at `path` whose contents are `bytes`.
    ///
    /// A cached record for `path` is returned as it is, and nothing changes. Otherwise the bytes
    /// are decoded in the format of the path's extension (`Decode` if that fails), and the
    /// record made from the image, with the byte count as the file size, is written to the
    /// cache.
    pub fn get_image_info(&mut self, path: &str, bytes: &[u8]) -> (r: Result<ImageInfo, ThumbnailError>)
        requires
            old(self).wf(),
        ensures
            final(self).wf(),
            final(self).thumbnail_entries() == old(self).thumbnail_entries(),
            final(self).thumbnail_capacity() == old(self).thumbnail_capacity(),
            final(self).info_capacity() == old(self).info_capacity(),
            match lookup(old(self).info_entries(), path@) {
                Some(cached) => r == Ok::<ImageInfo, ThumbnailError>(cached)
                    && final(self).info_entries() == old(self).info_entries(),
                None => match source_image(path@, bytes@) {
                    None => r is Err && r->Err_0 is Decode && final(self).info_entries()
                        == old(self).info_entries(),
                    Some(img) => r is Ok && describes(r->Ok_0, img, bytes@.len())
                        && final(self).info_entries() == after_put(
                        old(self).info_entries(),
                        old(self).info_capacity(),
                        path@,
                        r->Ok_0,
                    ),
                },
            },
    {
        if let Some(cached) = peek_info(&self.infos, path) {
            return Ok(cached);
        }
        let img = match decode_source(path, bytes) {
            Ok(img) => img,
            Err(e) => return Err(e),
        };
        let info = describe_image(&img, bytes.len() as u64);
        let stored = ImageInfo {
            width: info.width,
            height: info.height,
            format: info.format.clone(),
            size_bytes: info.size_bytes,
            is_valid_texture: info.is_valid_texture,
        };
        proof {
            lemma_put_keeps_wf(self.info_entries(), self.info_capacity(), path@, stored);
        }
        put_info(&mut self.infos, path.to_owned(), stored);
        Ok(info)
    }
}

/// Empties both caches; their capacities stay.
pub fn clear_caches(caches: &mut ImageCaches)
    requires
        old(caches).wf(),
    ensures
        final(caches).wf(),
        final(caches).thumbnail_entries().len() == 0,
        final(caches).info_entries().len() == 0,
        final(caches).thumbnail_capacity() == old(caches).thumbnail_capacity(),
        final(caches).info_capacity() == old(caches).info_capacity(),
{
    clear_text(&mut caches.thumbnails);
    clear_info(&mut caches.infos);
}

/// How many thumbnails and how many image records the caches hold.
pub fn get_cache_stats(caches: &ImageCaches) -> (r: (usize, usize))
    ensures
        r.0 == caches.thumbnail_entries().len(),
        r.1 == caches.info_entries().len(),
{
    (text_len(&caches.thumbnails), info_len(&caches.infos))
}

/// A repeated request hits the cache: once `create_thumbnail` has made a thumbnail for
/// `(path, max_size)`, a second request for the same pair is answered from the cache with the
/// identical text, and leaves the caches as they are.
pub proof fn lemma_thumbnail_request_repeats(
    before: ImageCaches,
    after: ImageCaches,
    path: Seq<char>,
    max_size: u32,
    text: Seq<char>,
)
    requires
        before.wf(),
        after.thumbnail_entries() == after_put(
            before.thumbnail_entries(),
            before.thumbnail_capacity(),
            thumbnail_key(path, max_size),
            text,
        ),
    ensures
        lookup(after.thumbnail_entries(), thumbnail_key(path, max_size)) == Some(text),
{
    lemma_read_after_put(
        before.thumbnail_entries(),
        before.thumbnail_capacity(),
        thumbnail_key(path, max_size),
        text,
    );
}

} // verus!
