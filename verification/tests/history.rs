use ecp_clipboard::assets::{
    asset_bucket, asset_path, decode_asset, entry_hash, is_orphan_asset, legacy_preview,
    preview_asset_hash, preview_path, AssetKind, ImageSource, PreviewSource,
};
use ecp_clipboard::db::{
    AssetRecord, EntryKind, HistoryError, HistoryRow, HistoryTable, InsertOutcome, InsertReport,
    Limits,
};
use ecp_clipboard::image_codec::{encode_png, EncodeError};

const DEFAULT_IMAGE_LIMIT: u64 = 500 * 1024 * 1024;

fn pixels(width: u32, height: u32, seed: u32) -> Vec<u8> {
    let mut state = seed;
    let mut bytes = Vec::with_capacity(width as usize * height as usize * 4);
    for _ in 0..width * height {
        state = state.wrapping_mul(1_664_525).wrapping_add(1_013_904_223);
        bytes.extend_from_slice(&[
            (state >> 16) as u8,
            (state >> 8) as u8,
            state as u8,
            (state >> 24) as u8,
        ]);
    }
    bytes
}

fn insert_text(table: &mut HistoryTable, limits: &Limits, content: &str, hash: &str, now: i64) {
    let report = table
        .insert_entry(limits, EntryKind::Text, content, hash, None, None, None, now)
        .unwrap();
    assert_eq!(report.outcome(), InsertOutcome::Stored);
}

fn image_asset(hash: &str, original: u64, preview: u64) -> AssetRecord {
    AssetRecord {
        hash: hash.to_string(),
        preview_width: 1,
        preview_height: 1,
        original_bytes: original,
        preview_bytes: preview,
    }
}

fn insert_image(table: &mut HistoryTable, limits: &Limits, rgba: &[u8], w: u32, h: u32, asset_bytes: (u64, u64), now: i64) -> InsertReport {
    let hash = entry_hash(EntryKind::Image, "ignored", Some(w), Some(h), Some(rgba)).unwrap();
    let asset = image_asset(&hash, asset_bytes.0, asset_bytes.1);
    table
        .insert_entry(limits, EntryKind::Image, "image", &hash, Some(w), Some(h), Some(asset), now)
        .unwrap()
}

#[test]
fn history_limit_and_chinese_punctuation_search() {
    let limits = Limits::new(20, DEFAULT_IMAGE_LIMIT);
    let mut table = HistoryTable::new();
    for index in 0..25 {
        let content = if index == 24 {
            "请复制：网址 https://example.com/a?b=1。".to_owned()
        } else {
            format!("entry {index}")
        };
        insert_text(&mut table, &limits, &content, &index.to_string(), index);
    }
    assert_eq!(table.list_recent(100).len(), 20);
    assert_eq!(table.search("复制： ?b=1", 20, limits.max_history()).len(), 1);
    assert_eq!(table.search("不存在", 20, limits.max_history()).len(), 0);
}

#[test]
fn reloaded_history_limit_prunes_existing_records_immediately() {
    let mut table = HistoryTable::new();
    let limits = Limits::new(200, DEFAULT_IMAGE_LIMIT);
    for index in 0..25 {
        insert_text(&mut table, &limits, &format!("entry {index}"), &format!("hash {index}"), index);
    }
    assert_eq!(table.list_recent(100).len(), 25);
    let pruned = table.prune(&Limits::new(20, DEFAULT_IMAGE_LIMIT)).unwrap();
    assert_eq!(table.list_recent(100).len(), 20);
    assert_eq!(pruned.deleted_ids, vec![5, 4, 3, 2, 1]);
    assert_eq!(table.list_recent(1)[0].content, "entry 24");
}

#[test]
fn identical_originals_keep_one_stable_entry_id() {
    let limits = Limits::new(200, DEFAULT_IMAGE_LIMIT);
    let mut table = HistoryTable::new();
    let rgba = pixels(8, 8, 7);
    insert_image(&mut table, &limits, &rgba, 8, 8, (100, 10), 1);
    let id = table.list_recent(1)[0].id;
    insert_image(&mut table, &limits, &rgba, 8, 8, (100, 10), 2);
    assert_eq!(table.list_recent(10).len(), 1);
    assert_eq!(table.list_recent(1)[0].id, id);
}

#[test]
fn different_originals_do_not_collide_when_previews_match() {
    let limits = Limits::new(200, DEFAULT_IMAGE_LIMIT);
    let mut table = HistoryTable::new();
    insert_image(&mut table, &limits, &[0, 0, 0, 255], 1, 1, (10, 10), 1);
    insert_image(&mut table, &limits, &[1, 0, 0, 255], 1, 1, (10, 10), 2);
    assert_eq!(table.list_recent(10).len(), 2);
}

#[test]
fn oversized_single_image_is_not_inserted() {
    let limits = Limits::new(200, 1024 * 1024);
    let mut table = HistoryTable::new();
    let rgba = pixels(800, 800, 4);
    let png = encode_png(800, 800, rgba.clone()).unwrap();
    assert!(png.len() as u64 > 1024 * 1024);
    let report = insert_image(&mut table, &limits, &rgba, 800, 800, (png.len() as u64, 0), 1);
    assert_eq!(report.outcome(), InsertOutcome::ImageTooLarge);
    assert!(table.list_recent(1).is_empty());
}

#[test]
fn image_budget_evicts_oldest_and_cleans_files() {
    let limits = Limits::new(200, 1024 * 1024);
    let mut table = HistoryTable::new();
    let a = pixels(360, 360, 1);
    let b = pixels(360, 360, 2);
    let size = |rgba: &Vec<u8>| encode_png(360, 360, rgba.clone()).unwrap().len() as u64;
    let thumb = |rgba: &Vec<u8>| {
        let source = image::RgbaImage::from_raw(360, 360, rgba.clone()).unwrap();
        let small = image::imageops::resize(&source, 220, 220, image::imageops::FilterType::Triangle);
        encode_png(220, 220, small.into_raw()).unwrap().len() as u64
    };
    insert_image(&mut table, &limits, &a, 360, 360, (size(&a), thumb(&a)), 1);
    let first = table.list_recent(1).pop().unwrap();
    let report = insert_image(&mut table, &limits, &b, 360, 360, (size(&b), thumb(&b)), 2);
    assert_eq!(table.list_recent(10).len(), 1);
    match report {
        InsertReport::Stored { pruned, .. } => {
            assert_eq!(pruned.deleted_ids, vec![first.id]);
            assert_eq!(pruned.removed_hashes, vec![first.asset_hash.unwrap()]);
        }
        InsertReport::TooLarge => panic!("the second image fits alone"),
    }
}

fn row(id: i64, kind: EntryKind, hash: &str, updated_at: i64, asset: Option<AssetRecord>) -> HistoryRow {
    HistoryRow {
        id,
        kind,
        content: format!("row {id}"),
        hash: hash.to_string(),
        image_width: Some(4),
        image_height: Some(4),
        inline_rgba: None,
        created_at: updated_at,
        updated_at,
        asset,
        legacy_only: false,
    }
}

#[test]
fn five_hundred_megabyte_budget_boundary_evicts_oldest() {
    let mib = 1024 * 1024;
    let rows = vec![
        row(3, EntryKind::Image, "c", 3, Some(image_asset("hc", 100, 50))),
        row(2, EntryKind::Image, "b", 2, Some(image_asset("hb", 200 * mib, 50))),
        row(1, EntryKind::Image, "a", 1, Some(image_asset("ha", 300 * mib, 50))),
    ];
    let mut table = HistoryTable::from_rows(rows, 3).unwrap();
    let pruned = table.prune(&Limits::new(200, DEFAULT_IMAGE_LIMIT)).unwrap();
    assert!(table.get_by_id(1).is_none());
    assert!(table.get_by_id(2).is_some());
    assert_eq!(pruned.removed_hashes, vec!["ha".to_string()]);
}

#[test]
fn orphan_and_interrupted_temp_files_are_removed() {
    let known = vec!["ccdd".to_string()];
    assert!(is_orphan_asset(Some("aabb"), Some("png"), &known));
    assert!(is_orphan_asset(Some("aabb.123"), Some("tmp"), &known));
    assert!(!is_orphan_asset(Some("ccdd"), Some("png"), &known));
    assert!(!is_orphan_asset(Some("notes"), Some("txt"), &known));
    assert!(!is_orphan_asset(None, Some("png"), &known));
}

#[test]
fn old_image_remains_labeled_as_thumbnail_after_versioned_migration() {
    let mut old = row(1, EntryKind::Image, "oldhash", 1, None);
    old.image_width = Some(1);
    old.image_height = Some(1);
    old.inline_rgba = Some(vec![7, 8, 9, 10]);
    let mut table = HistoryTable::from_rows(vec![old], 1).unwrap();
    assert!(table.get_by_id(1).unwrap().legacy_preview);
    match table.image_source(1) {
        Some(ImageSource::Pixels { width, height, rgba }) => {
            assert_eq!((width, height, rgba), (1, 1, vec![7, 8, 9, 10]));
        }
        _ => panic!("inline pixels expected"),
    }
    let batch = table.legacy_images(8).unwrap();
    assert_eq!(batch.len(), 1);
    let (hash, png) = legacy_preview(&batch[0]).unwrap();
    assert_eq!(hash, "010506b2566f2610fb44d26a6063278c8237ce98ed3cf7d11e9ceba8eea6bf7c");
    assert!(table.attach_legacy_preview(1, hash.clone(), png.len() as u64, 1, 1));
    let migrated = table.get_by_id(1).unwrap();
    assert!(migrated.legacy_preview);
    assert!(preview_path(&migrated).is_some());
    match table.image_source(1) {
        Some(ImageSource::File { kind, hash: h }) => {
            assert_eq!(kind, AssetKind::Preview);
            assert_eq!(h, hash);
        }
        _ => panic!("the preview file expected"),
    }
    assert_eq!(decode_asset(&png).unwrap(), (1, 1, vec![7, 8, 9, 10]));
    assert_eq!(table.legacy_images(8).unwrap().len(), 0);
    assert!(!table.attach_legacy_preview(1, hash, 1, 1, 1));
}

#[test]
fn legacy_batch_takes_smallest_ids_first_and_needs_sizes() {
    let legacy = |id: i64, updated_at: i64| {
        let mut r = row(id, EntryKind::FilePaths, &format!("h{id}"), updated_at, None);
        r.inline_rgba = Some(vec![0; 64]);
        r
    };
    let rows = vec![legacy(2, 9), legacy(5, 8), legacy(1, 7), legacy(4, 6)];
    let table = HistoryTable::from_rows(rows, 5).unwrap();
    let ids: Vec<i64> = table.legacy_images(3).unwrap().iter().map(|x| x.id).collect();
    assert_eq!(ids, vec![1, 2, 4]);
    let mut broken = legacy(1, 9);
    broken.image_width = None;
    let table = HistoryTable::from_rows(vec![broken, legacy(3, 2)], 3).unwrap();
    assert_eq!(table.legacy_images(8).unwrap_err(), HistoryError::MissingPixels);
}

#[test]
fn original_image_round_trips_dimensions_and_alpha() {
    let rgba = pixels(311, 173, 42);
    let png = encode_png(311, 173, rgba.clone()).unwrap();
    let (w, h, decoded) = decode_asset(&png).unwrap();
    assert_eq!((w, h), (311, 173));
    assert_eq!(decoded, rgba);
    let limits = Limits::new(200, DEFAULT_IMAGE_LIMIT);
    let mut table = HistoryTable::new();
    insert_image(&mut table, &limits, &rgba, 311, 173, (png.len() as u64, 10), 1);
    let entry = table.list_recent(1).pop().unwrap();
    match table.image_source(entry.id) {
        Some(ImageSource::File { kind, .. }) => assert_eq!(kind, AssetKind::Original),
        _ => panic!("the original file expected"),
    }
}

#[test]
fn file_list_preview_is_a_sidecar_and_paths_remain_metadata() {
    let limits = Limits::new(200, DEFAULT_IMAGE_LIMIT);
    let mut table = HistoryTable::new();
    let rgba = vec![11u8, 22, 33, 255];
    let hash = preview_asset_hash(1, 1, &rgba);
    let asset = AssetRecord { hash: hash.clone(), preview_width: 1, preview_height: 1, original_bytes: 0, preview_bytes: 70 };
    table
        .insert_entry(&limits, EntryKind::FilePaths, "C:\\one.png\nD:\\two.txt", "files", Some(1), Some(1), Some(asset), 1)
        .unwrap();
    let entry = table.list_recent(1).pop().unwrap();
    assert_eq!(entry.kind, EntryKind::FilePaths);
    assert!(entry.image_rgba.is_none());
    assert_eq!(entry.asset_hash, Some(hash.clone()));
    assert!(preview_path(&entry).is_some());
    match table.preview_source(entry.id) {
        Some(PreviewSource::File { hash: h }) => assert_eq!(h, hash),
        _ => panic!("the preview file expected"),
    }
    let k = table.find_row(entry.id).unwrap();
    assert!(table.row_at(k).inline_rgba.is_none());
    assert_eq!(table.row_at(k).content, "C:\\one.png\nD:\\two.txt");
}

#[test]
fn image_without_pixels_is_refused() {
    let limits = Limits::new(200, DEFAULT_IMAGE_LIMIT);
    let mut table = HistoryTable::new();
    let result = table.insert_entry(&limits, EntryKind::Image, "x", "h", None, None, None, 1);
    assert_eq!(result.err(), Some(HistoryError::MissingPixels));
    assert_eq!(entry_hash(EntryKind::Image, "h", Some(1), None, Some(&[0; 4])), Err(HistoryError::MissingPixels));
    assert_eq!(entry_hash(EntryKind::Text, "h", None, None, None), Ok("h".to_string()));
}

#[test]
fn ids_run_out_at_the_largest_id() {
    let limits = Limits::new(200, DEFAULT_IMAGE_LIMIT);
    let rows = vec![row(5, EntryKind::Text, "a", 1, None)];
    let mut table = HistoryTable::from_rows(rows, i64::MAX - 1).unwrap();
    let result = table.insert_entry(&limits, EntryKind::Text, "new", "b", None, None, None, 2);
    assert_eq!(result.err(), Some(HistoryError::IdsExhausted));
    let again = table.insert_entry(&limits, EntryKind::Text, "same", "a", None, None, None, 3);
    assert!(again.is_ok());
}

#[test]
fn sizes_that_overflow_are_refused() {
    let rows = vec![
        row(2, EntryKind::Image, "b", 2, Some(image_asset("hb", u64::MAX, 0))),
        row(1, EntryKind::Image, "a", 1, Some(image_asset("ha", u64::MAX, 0))),
    ];
    let mut table = HistoryTable::from_rows(rows, 2).unwrap();
    assert_eq!(table.prune(&Limits::new(200, DEFAULT_IMAGE_LIMIT)).err(), Some(HistoryError::SizeOverflow));
    assert_eq!(table.len(), 2);
}

#[test]
fn latest_write_is_listed_first_and_duplicate_keeps_id() {
    let limits = Limits::new(200, DEFAULT_IMAGE_LIMIT);
    let mut table = HistoryTable::new();
    insert_text(&mut table, &limits, "one", "h1", 10);
    insert_text(&mut table, &limits, "two", "h2", 11);
    insert_text(&mut table, &limits, "one again", "h1", 12);
    let recent = table.list_recent(10);
    assert_eq!(recent.len(), 2);
    assert_eq!(recent[0].content, "one again");
    assert_eq!(recent[0].id, 1);
    assert_eq!(recent[0].created_at, 10);
    assert_eq!(recent[0].updated_at, 12);
}

#[test]
fn pruning_twice_removes_nothing_more() {
    let mut table = HistoryTable::new();
    let limits = Limits::new(200, DEFAULT_IMAGE_LIMIT);
    for index in 0..30 {
        insert_text(&mut table, &limits, &format!("e{index}"), &format!("h{index}"), index);
    }
    let small = Limits::new(20, DEFAULT_IMAGE_LIMIT);
    assert_eq!(table.prune(&small).unwrap().deleted_ids.len(), 10);
    assert!(table.prune(&small).unwrap().deleted_ids.is_empty());
}

#[test]
fn deleted_entry_is_gone_and_clear_lists_assets_once() {
    let rows = vec![
        row(3, EntryKind::Image, "c", 3, Some(image_asset("x", 1, 1))),
        row(2, EntryKind::Text, "b", 2, None),
        row(1, EntryKind::Image, "a", 1, Some(image_asset("x", 1, 1))),
    ];
    let mut table = HistoryTable::from_rows(rows, 3).unwrap();
    assert_eq!(table.delete_entry(3), (true, Some("x".to_string())));
    assert!(table.get_by_id(3).is_none());
    assert!(table.asset_in_use("x"));
    assert_eq!(table.delete_entry(3), (false, None));
    let (count, hashes) = table.delete_all();
    assert_eq!(count, 2);
    assert_eq!(hashes, vec!["x".to_string()]);
    assert!(table.list_recent(10).is_empty());
}

#[test]
fn empty_query_lists_the_most_recent() {
    let mut table = HistoryTable::new();
    let limits = Limits::new(200, DEFAULT_IMAGE_LIMIT);
    for index in 0..5 {
        insert_text(&mut table, &limits, &format!("Item {index}"), &format!("h{index}"), index);
    }
    let found = table.search("   ", 3, 200);
    assert_eq!(found.iter().map(|e| e.id).collect::<Vec<_>>(), vec![5, 4, 3]);
    let found = table.search("ITEM 2", 10, 200);
    assert_eq!(found.len(), 1);
    assert_eq!(found[0].content, "Item 2");
}

#[test]
fn search_within_the_history_limit_sees_every_entry() {
    let mut table = HistoryTable::new();
    let limits = Limits::new(200, DEFAULT_IMAGE_LIMIT);
    for index in 0..5 {
        insert_text(&mut table, &limits, &format!("Item {index}"), &format!("h{index}"), index);
    }
    let found = table.search("item", 10, 5);
    assert_eq!(found.iter().map(|e| e.id).collect::<Vec<_>>(), vec![5, 4, 3, 2, 1]);
    let found = table.search("item", 10, 2);
    assert_eq!(found.iter().map(|e| e.id).collect::<Vec<_>>(), vec![5, 4]);
}

#[test]
fn search_after_pruning_sees_every_kept_entry() {
    let mut table = HistoryTable::new();
    let limits = Limits::new(20, DEFAULT_IMAGE_LIMIT);
    for index in 0..25 {
        insert_text(&mut table, &limits, &format!("Item {index}"), &format!("h{index}"), index);
    }
    let found = table.search("item", 100, limits.max_history());
    assert_eq!(found.iter().map(|e| e.id).collect::<Vec<_>>(), (6..=25).rev().collect::<Vec<i64>>());
}

#[test]
fn unsorted_or_duplicate_rows_are_refused() {
    let rows = vec![row(1, EntryKind::Text, "a", 1, None), row(2, EntryKind::Text, "b", 2, None)];
    assert!(HistoryTable::from_rows(rows, 2).is_none());
    let rows = vec![row(2, EntryKind::Text, "a", 2, None), row(1, EntryKind::Text, "a", 1, None)];
    assert!(HistoryTable::from_rows(rows, 2).is_none());
    let rows = vec![row(2, EntryKind::Text, "a", 2, None)];
    assert!(HistoryTable::from_rows(rows, 1).is_none());
}

#[test]
fn asset_paths_are_bucketed_by_hash_prefix() {
    assert_eq!(asset_bucket("aabb"), "aa");
    assert_eq!(asset_bucket("a"), "00");
    assert_eq!(asset_bucket("é1"), "é");
    assert_eq!(asset_bucket("中文"), "00");
    assert_eq!(asset_path(AssetKind::Original, "aabb"), vec!["original", "aa", "aabb.png"]);
    assert_eq!(asset_path(AssetKind::Preview, "x"), vec!["preview", "00", "x.png"]);
}

#[test]
fn short_pixel_buffers_are_invalid() {
    assert_eq!(encode_png(2, 2, vec![0; 15]), Err(EncodeError::InvalidBuffer));
    assert!(encode_png(2, 2, vec![0; 16]).is_ok());
}

use ecp_clipboard::schema::{column_missing, missing_columns, needs_rebuild};

#[test]
fn schema_upgrade_decisions() {
    assert!(needs_rebuild("CREATE TABLE clipboard_history (id INTEGER, content TEXT NOT NULL UNIQUE)"));
    assert!(!needs_rebuild("CREATE TABLE clipboard_history (id INTEGER, hash TEXT NOT NULL UNIQUE)"));
    let existing = vec!["id".to_string(), "kind".to_string(), "content".to_string()];
    assert!(!column_missing(&existing, "kind"));
    assert!(column_missing(&existing, "asset_hash"));
    let missing = missing_columns(&existing);
    assert_eq!(missing.len(), 9);
    assert_eq!(missing[0], ("image_width", "INTEGER"));
    assert_eq!(missing[8], ("legacy_only", "INTEGER NOT NULL DEFAULT 0"));
}
