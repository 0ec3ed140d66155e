use resource_core::preloader::{concurrency_limit, is_image_extension, is_raster_extension, ImagePreloader, PreloadOutcome};

#[test]
fn permits_are_twice_the_cores_at_least_four() {
    assert_eq!(concurrency_limit(0), 4);
    assert_eq!(concurrency_limit(1), 4);
    assert_eq!(concurrency_limit(2), 4);
    assert_eq!(concurrency_limit(8), 16);
    assert_eq!(concurrency_limit(usize::MAX), usize::MAX);
    assert_eq!(ImagePreloader::new(10, 3).concurrent_limit(), 6);
}

#[test]
fn raster_extensions() {
    assert!(is_image_extension("png"));
    assert!(is_image_extension("PNG"));
    assert!(is_image_extension("JpEg"));
    assert!(is_image_extension("webp"));
    assert!(is_image_extension("gif"));
    assert!(!is_image_extension("json"));
    assert!(!is_image_extension(""));
    assert!(!is_image_extension("pngx"));
    assert!(!is_raster_extension("PNG"));
    assert!(is_raster_extension("jpg"));
}

#[test]
fn in_flight_key_is_not_started_twice() {
    let mut p = ImagePreloader::new(10, 1);
    assert!(p.begin_load("a.png"));
    assert!(!p.begin_load("a.png"));
    assert_eq!(p.get_stats(), (0, 1));
    p.finish_load("a.png", Some("DATA".to_string()));
    assert_eq!(p.get_stats(), (1, 0));
    assert!(!p.begin_load("a.png"));
    assert_eq!(p.get("a.png"), Some("DATA".to_string()));
}

#[test]
fn failed_load_is_eligible_again() {
    let mut p = ImagePreloader::new(10, 1);
    assert!(p.begin_load("b.png"));
    p.finish_load("b.png", None);
    assert_eq!(p.get_stats(), (0, 0));
    assert!(p.get("b.png").is_none());
    assert!(p.begin_load("b.png"));
}

#[test]
fn fast_tier_is_trimmed_to_four_fifths() {
    let mut p = ImagePreloader::new(5, 1);
    for i in 0..6 {
        let key = format!("k{}.png", i);
        assert!(p.begin_load(&key));
        p.finish_load(&key, Some(format!("v{}", i)));
    }
    // the sixth store overflows 5 and trims to 4, dropping the two earliest
    assert_eq!(p.get_stats(), (4, 0));
    // the bounded tier kept the five latest writes
    assert_eq!(p.get("k0.png"), None);
    assert_eq!(p.get("k1.png"), Some("v1".to_string()));
    assert_eq!(p.get("k5.png"), Some("v5".to_string()));
}

#[test]
fn aggressive_batch_counts_cached_and_loaded() {
    let mut p = ImagePreloader::new(10, 1);
    p.begin_load("a");
    p.finish_load("a", Some("A".to_string()));
    let keys = vec!["a".to_string(), "b".to_string(), "c".to_string()];
    let flags = p.cached_flags(&keys);
    assert_eq!(flags, vec![true, false, false]);
    let outcomes = vec![PreloadOutcome::AlreadyCached, PreloadOutcome::Loaded("B".to_string()), PreloadOutcome::Failed];
    assert_eq!(p.absorb_batch(&keys, outcomes), 2);
    assert_eq!(p.get_stats(), (2, 0));
    assert_eq!(p.get("b"), Some("B".to_string()));
    assert_eq!(p.get("c"), None);
}

#[test]
fn clearing_forgets_everything() {
    let mut p = ImagePreloader::new(3, 1);
    p.begin_load("x");
    p.begin_load("y");
    p.finish_load("y", Some("Y".to_string()));
    p.clear_cache();
    assert_eq!(p.get_stats(), (0, 0));
    assert_eq!(p.get("y"), None);
    assert!(p.begin_load("x"));
}

#[test]
fn bounded_tier_hit_keeps_write_order() {
    let mut p = ImagePreloader::new(5, 1);
    for i in 0..6 {
        let key = format!("k{}", i);
        p.begin_load(&key);
        p.finish_load(&key, Some(format!("v{}", i)));
    }
    // k1 is held by the bounded tier alone; reading it must not make it recent there
    assert_eq!(p.get("k1"), Some("v1".to_string()));
    p.begin_load("k6");
    p.finish_load("k6", Some("v6".to_string()));
    // the bounded tier evicted k1, its oldest write, and kept k2
    assert_eq!(p.get("k2"), Some("v2".to_string()));
}
