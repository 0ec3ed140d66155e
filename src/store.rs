//! The bounded caches are `lru::LruCache` values keyed by `String`. Verus sees such a cache
//! through two names: the entries it holds, oldest write first, and the capacity it was made
//! with. The functions here are the only places that call into `lru`.
use crate::bounded::{after_put, lookup};
use crate::image_handler::ImageInfo;
use lru::LruCache;
use vstd::prelude::*;

verus! {

#[verifier::external_type_specification]
#[verifier::external_body]
#[verifier::reject_recursive_types(K)]
#[verifier::reject_recursive_types(V)]
#[verifier::reject_recursive_types(S)]
pub struct ExLruCache<K, V, S>(LruCache<K, V, S>);

#[verifier::external_type_specification]
#[verifier::external_body]
pub struct ExDefaultHasher(lru::DefaultHasher);

/// The entries of a cache of text values, least recently written first.
pub uninterp spec fn text_entries(cache: LruCache<String, String>) -> Seq<(Seq<char>, Seq<char>)>;

/// The capacity that a cache of text values was made with.
pub uninterp spec fn text_capacity(cache: LruCache<String, String>) -> nat;

/// The entries of a cache of image records, least recently written first.
pub uninterp spec fn info_entries(cache: LruCache<String, ImageInfo>) -> Seq<(Seq<char>, ImageInfo)>;

/// The capacity that a cache of image records was made with.
pub uninterp spec fn info_capacity(cache: LruCache<String, ImageInfo>) -> nat;

/// The view of an optional text value.
pub open spec fn text_view(value: Option<String>) -> Option<Seq<char>> {
    match value {
        Some(s) => Some(s@),
        None => None,
    }
}

/// Relies on `LruCache::new`: an empty cache that holds at most `capacity` entries.
#[verifier::external_body]
pub(crate) fn new_text_cache(capacity: usize) -> (r: LruCache<String, String>)
    requires
        capacity > 0,
    ensures
        text_entries(r) == Seq::<(Seq<char>, Seq<char>)>::empty(),
        text_capacity(r) == capacity,
{
    LruCache::new(std::num::NonZeroUsize::new(capacity).unwrap())
}

/// Relies on `LruCache::put`: the key becomes the most recent write, replacing its old value;
/// a new key in a full cache evicts the least recently written entry.
#[verifier::external_body]
pub(crate) fn put_text(cache: &mut LruCache<String, String>, key: String, value: String)
    ensures
        text_entries(*final(cache)) == after_put(
            text_entries(*old(cache)),
            text_capacity(*old(cache)),
            key@,
            value@,
        ),
        text_capacity(*final(cache)) == text_capacity(*old(cache)),
{
    cache.put(key, value);
}

/// Relies on `LruCache::peek`: the stored value, if any, read without touching recency.
#[verifier::external_body]
pub(crate) fn peek_text(cache: &LruCache<String, String>, key: &str) -> (r: Option<String>)
    ensures
        text_view(r) == lookup(text_entries(*cache), key@),
{
    cache.peek(key).cloned()
}

/// Relies on `LruCache::len`: the number of stored entries.
#[verifier::external_body]
pub(crate) fn text_len(cache: &LruCache<String, String>) -> (r: usize)
    ensures
        r == text_entries(*cache).len(),
{
    cache.len()
}

/// Relies on `LruCache::clear`: every entry is removed, the capacity stays.
#[verifier::external_body]
pub(crate) fn clear_text(cache: &mut LruCache<String, String>)
    ensures
        text_entries(*final(cache)) == Seq::<(Seq<char>, Seq<char>)>::empty(),
        text_capacity(*final(cache)) == text_capacity(*old(cache)),
{
    cache.clear();
}

/// Relies on `LruCache::new`: an empty cache that holds at most `capacity` entries.
#[verifier::external_body]
pub(crate) fn new_info_cache(capacity: usize) -> (r: LruCache<String, ImageInfo>)
    requires
        capacity > 0,
    ensures
        info_entries(r) == Seq::<(Seq<char>, ImageInfo)>::empty(),
        info_capacity(r) == capacity,
{
    LruCache::new(std::num::NonZeroUsize::new(capacity).unwrap())
}

/// Relies on `LruCache::put`: the key becomes the most recent write, replacing its old value;
/// a new key in a full cache evicts the least recently written entry.
#[verifier::external_body]
pub(crate) fn put_info(cache: &mut LruCache<String, ImageInfo>, key: String, value: ImageInfo)
    ensures
        info_entries(*final(cache)) == after_put(
            info_entries(*old(cache)),
            info_capacity(*old(cache)),
            key@,
            value,
        ),
        info_capacity(*final(cache)) == info_capacity(*old(cache)),
{
    cache.put(key, value);
}

/// Relies on `LruCache::peek`: the stored record, if any, read without touching recency; the
/// copy handed out is a field-by-field clone.
#[verifier::external_body]
pub(crate) fn peek_info(cache: &LruCache<String, ImageInfo>, key: &str) -> (r: Option<ImageInfo>)
    ensures
        r == lookup(info_entries(*cache), key@),
{
    cache.peek(key).cloned()
}

/// Relies on `LruCache::len`: the number of stored entries.
#[verifier::external_body]
pub(crate) fn info_len(cache: &LruCache<String, ImageInfo>) -> (r: usize)
    ensures
        r == info_entries(*cache).len(),
{
    cache.len()
}

/// Relies on `LruCache::clear`: every entry is removed, the capacity stays.
#[verifier::external_body]
pub(crate) fn clear_info(cache: &mut LruCache<String, ImageInfo>)
    ensures
        info_entries(*final(cache)) == Seq::<(Seq<char>, ImageInfo)>::empty(),
        info_capacity(*final(cache)) == info_capacity(*old(cache)),
{
    cache.clear();
}

} // verus!
