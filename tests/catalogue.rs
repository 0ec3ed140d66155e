use resource_core::history_manager::{history_file_name, plan_snapshot, FileHistoryInfo, HistoryMetadata};
use resource_core::minecraft_data::{get_all_items, get_items_by_category, search_items, ItemCategory};
use resource_core::text::text_contains;

#[test]
fn catalogue_starts_with_stone() {
    let all = get_all_items();
    assert_eq!(all.len(), 128);
    assert_eq!(all[0].id, "stone");
    assert_eq!(all[0].name, "石头");
    assert_eq!(all[0].category, ItemCategory::Block);
}

#[test]
fn items_by_category() {
    let transport = get_items_by_category(ItemCategory::Transportation);
    let ids: Vec<&str> = transport.iter().map(|i| i.id.as_str()).collect();
    assert_eq!(ids, vec!["minecart", "oak_boat", "elytra", "saddle"]);
    assert!(get_items_by_category(ItemCategory::Misc).is_empty());
}

#[test]
fn search_ignores_case() {
    let found = search_items("SAND");
    let ids: Vec<&str> = found.iter().map(|i| i.id.as_str()).collect();
    assert_eq!(ids, vec!["sand", "red_sand", "sandstone"]);
    let by_name = search_items("金苹果");
    assert_eq!(by_name.len(), 1);
    assert_eq!(by_name[0].id, "golden_apple");
    assert_eq!(search_items("").len(), 128);
    assert!(search_items("zzz").is_empty());
}

#[test]
fn substring_search() {
    assert!(text_contains("diamond_sword", "sword"));
    assert!(text_contains("abc", ""));
    assert!(!text_contains("ab", "abc"));
    assert!(text_contains("aab", "ab"));
}

#[test]
fn snapshot_names_are_zero_padded() {
    assert_eq!(history_file_name(1), "001.json");
    assert_eq!(history_file_name(42), "042.json");
    assert_eq!(history_file_name(123), "123.json");
    assert_eq!(history_file_name(1000), "1000.json");
}

#[test]
fn snapshot_plan_rotates_when_full() {
    let names = vec!["002.json".to_string(), "001.json".to_string(), "003.json".to_string()];
    let plan = plan_snapshot(&names, 3);
    assert_eq!(plan.remove, Some(1));
    assert_eq!(plan.history_count, 3);
    assert_eq!(plan.file_name, "003.json");
    let plan = plan_snapshot(&names, 30);
    assert_eq!(plan.remove, None);
    assert_eq!(plan.history_count, 4);
    assert_eq!(plan.file_name, "004.json");
    let plan = plan_snapshot(&Vec::new(), 0);
    assert_eq!(plan.remove, None);
    assert_eq!(plan.history_count, 1);
}

#[test]
fn metadata_totals_sizes() {
    let mut meta = HistoryMetadata::initial();
    assert_eq!(meta.version, "1.0");
    assert_eq!(meta.max_history_per_file, 30);
    let info = |count: u32, size: u64| FileHistoryInfo { history_count: count, last_modified: "t".to_string(), size };
    meta.record_file("a.json".to_string(), info(1, 10));
    meta.record_file("b.json".to_string(), info(1, 5));
    meta.record_file("a.json".to_string(), info(2, 20));
    assert_eq!(meta.files.len(), 2);
    assert_eq!(meta.files[0].0, "a.json");
    assert_eq!(meta.files[0].1.history_count, 2);
    assert_eq!(meta.total_size, 25);
    meta.record_file("c.json".to_string(), info(1, u64::MAX));
    assert_eq!(meta.total_size, u64::MAX);
}
