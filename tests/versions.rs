use resource_core::image_handler::{check_blank_size, BlankSizeError};
use resource_core::retry::{after_failure, RetryStep};
use resource_core::version_converter::{
    get_pack_format_from_version, get_supported_versions, is_release_version, label_versions,
    parse_format, supported_versions_from_map,
};

fn strings(v: &[&str]) -> Vec<String> {
    v.iter().map(|s| s.to_string()).collect()
}

#[test]
fn release_versions() {
    assert!(is_release_version("1.20.4"));
    assert!(is_release_version("1"));
    assert!(!is_release_version("24w14a"));
    assert!(!is_release_version("1.21-pre1"));
    assert!(!is_release_version(""));
    assert!(!is_release_version(".1"));
    assert!(!is_release_version("1."));
    assert!(!is_release_version("1..2"));
}

#[test]
fn format_numbers_parse_like_from_str() {
    assert_eq!(parse_format("34"), Some(34));
    assert_eq!(parse_format("+7"), Some(7));
    assert_eq!(parse_format("007"), Some(7));
    assert_eq!(parse_format("4294967295"), Some(u32::MAX));
    assert_eq!(parse_format("4294967296"), None);
    assert_eq!(parse_format("99999999999x"), None);
    assert_eq!(parse_format(""), None);
    assert_eq!(parse_format("+"), None);
    assert_eq!(parse_format("-1"), None);
    assert_eq!(parse_format("1a"), None);
}

#[test]
fn labels_of_version_lists() {
    assert_eq!(label_versions(&strings(&["1.19.4"])), "1.19.4");
    assert_eq!(label_versions(&strings(&["1.21.1", "1.21"])), "1.21 – 1.21.1");
    assert_eq!(
        label_versions(&strings(&["1.21.1", "24w14a", "1.21", "1.21-pre1"])),
        "1.21 – 1.21.1 (含 2 个预览版)"
    );
    assert_eq!(label_versions(&strings(&["24w14a"])), "24w14a (预览版)");
    assert_eq!(label_versions(&strings(&["24w14a", "24w13a"])), "24w13a – 24w14a (预览版)");
}

#[test]
fn version_map_is_summarised_by_format() {
    let entries = vec![
        ("34".to_string(), strings(&["1.21.1", "1.21"])),
        ("x".to_string(), strings(&["1.0"])),
        ("15".to_string(), strings(&["1.20.1", "1.20"])),
        ("20".to_string(), Vec::new()),
        ("22".to_string(), strings(&["23w31a"])),
    ];
    let table = supported_versions_from_map(&entries);
    assert_eq!(
        table,
        vec![
            (15, "1.20 – 1.20.1".to_string()),
            (22, "23w31a (预览版)".to_string()),
            (34, "1.21 – 1.21.1".to_string()),
        ]
    );
}

#[test]
fn built_in_versions_and_lookup() {
    let table = get_supported_versions(None);
    assert_eq!(table.len(), 21);
    assert_eq!(table[0], (1, "1.6.1 – 1.8.9".to_string()));
    assert_eq!(get_pack_format_from_version(&table, "1.19.4"), Ok(13));
    assert_eq!(get_pack_format_from_version(&table, "1.21.4"), Ok(46));
    assert_eq!(get_pack_format_from_version(&table, "9.9"), Err("不支持的版本: 9.9".to_string()));
    assert!(get_pack_format_from_version(&table, "1.21").is_err());
    let loaded = vec![(99, "x".to_string())];
    assert_eq!(get_supported_versions(Some(loaded.clone())), loaded);
}

#[test]
fn retries_back_off_linearly() {
    assert_eq!(after_failure(0, true), RetryStep::RetryAfter(500));
    assert_eq!(after_failure(1, true), RetryStep::RetryAfter(1000));
    assert_eq!(after_failure(2, true), RetryStep::RetryAfter(1500));
    assert_eq!(after_failure(3, true), RetryStep::GiveUp);
    assert_eq!(after_failure(0, false), RetryStep::GiveUp);
    assert_eq!(after_failure(u32::MAX, true), RetryStep::GiveUp);
}

#[test]
fn blank_texture_sizes() {
    assert_eq!(check_blank_size(16, 16), Ok(()));
    assert_eq!(check_blank_size(8192, 1), Ok(()));
    assert_eq!(check_blank_size(16, 24), Err(BlankSizeError::NotPowerOfTwo));
    assert_eq!(check_blank_size(0, 16), Err(BlankSizeError::NotPowerOfTwo));
    assert_eq!(check_blank_size(16384, 16), Err(BlankSizeError::TooLarge));
}
