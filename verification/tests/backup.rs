use novel_studio_ai::backup::{
    backup_created_at, backup_filename, backup_files, backup_info, backup_sql, backup_stamp, is_backup_file_name,
    list_backup_infos, missing_backup, new_backup_filename, newest_first, path_with_suffix, prune_plan, quote_sql_string, sort_names,
    stamp_of_reading,
    take_backup, validate_backup_filename, MAX_BACKUPS,
};
use novel_studio_ai::error::AppError;

fn names(v: &[&str]) -> Vec<String> {
    v.iter().map(|s| s.to_string()).collect()
}

#[test]
fn prune_backups_keeps_only_the_newest_n() {
    let files: Vec<String> = (0..5).map(|i| format!("backup_2026010{i}T000000Z.db")).collect();
    let (pruned, remaining) = prune_plan(&files, 2);
    assert_eq!(remaining.len(), 2);
    assert!(remaining.contains(&"backup_20260104T000000Z.db".to_string()));
    assert!(remaining.contains(&"backup_20260103T000000Z.db".to_string()));
    assert_eq!(pruned, names(&["backup_20260100T000000Z.db", "backup_20260101T000000Z.db", "backup_20260102T000000Z.db"]));
}

#[test]
fn rejects_unsafe_backup_filenames() {
    assert!(validate_backup_filename("backup_20260101T000000Z.db").is_ok());
    assert!(validate_backup_filename("../evil.db").is_err());
    assert!(validate_backup_filename("not_a_backup.db").is_err());
}

#[test]
fn restore_rejects_unknown_or_unsafe_filenames() {
    assert!(validate_backup_filename("../evil.db").is_err());
    assert!(validate_backup_filename("backup_does_not_exist.db").is_ok());
    let e = missing_backup("backup_does_not_exist.db");
    assert!(matches!(&e, AppError::NotFound(_)));
    assert_eq!(e.message(), "見つかりません: バックアップファイルが見つかりません: backup_does_not_exist.db");
}

#[test]
fn unsafe_names_are_each_refused() {
    for bad in ["backup_/x.db", "backup_\\x.db", "backup_..x.db", "backup_x.txt", "Backup_x.db", ""] {
        let e = validate_backup_filename(bad).unwrap_err();
        assert_eq!(e.message(), "エラー: 不正なバックアップファイル名です。");
    }
}

#[test]
fn a_new_backup_name_is_listed_and_restorable() {
    let name = new_backup_filename().unwrap();
    assert!(name.starts_with("backup_") && name.ends_with("Z.db"));
    assert!(is_backup_file_name(&name));
    assert!(validate_backup_filename(&name).is_ok());
    assert_eq!(backup_filename("20260102T030405Z"), "backup_20260102T030405Z.db");
}

#[test]
fn backup_files_keep_only_backups() {
    let all = names(&["backup_1.db", "notes.txt", "backup_2.db-wal", "backup_3.db", "app.db"]);
    assert_eq!(backup_files(&all), names(&["backup_1.db", "backup_3.db"]));
}

#[test]
fn names_sort_by_characters() {
    let mut v = names(&["b", "ab", "a", "", "ba", "a"]);
    sort_names(&mut v);
    assert_eq!(v, names(&["", "a", "a", "ab", "b", "ba"]));
}

#[test]
fn listing_is_newest_first() {
    let all = names(&["backup_20260102T000000Z.db", "x", "backup_20260103T000000Z.db", "backup_20260101T000000Z.db"]);
    assert_eq!(
        newest_first(&all),
        names(&["backup_20260103T000000Z.db", "backup_20260102T000000Z.db", "backup_20260101T000000Z.db"])
    );
}

#[test]
fn listing_carries_sizes_and_times() {
    let files = vec![
        ("backup_20260101T000000Z.db".to_string(), 10u64),
        ("notes.txt".to_string(), 5u64),
        ("backup_20260102T030405Z.db".to_string(), 20u64),
        ("backup_garbage.db".to_string(), 30u64),
    ];
    let infos = list_backup_infos(&files);
    let listed: Vec<&str> = infos.iter().map(|b| b.filename.as_str()).collect();
    assert_eq!(listed, vec!["backup_garbage.db", "backup_20260102T030405Z.db", "backup_20260101T000000Z.db"]);
    assert_eq!(infos[0].size_bytes, 30);
    assert_eq!(infos[0].created_at, "");
    assert_eq!(infos[1].size_bytes, 20);
    assert_eq!(infos[1].created_at, "2026-01-02T03:04:05+00:00");
    assert_eq!(infos[2].size_bytes, 10);
    assert_eq!(infos[2].created_at, "2026-01-01T00:00:00+00:00");
}

#[test]
fn nothing_is_pruned_below_the_limit() {
    let files: Vec<String> = (0..3).map(|i| format!("backup_2026010{i}T000000Z.db")).collect();
    let (pruned, kept) = prune_plan(&files, MAX_BACKUPS);
    assert!(pruned.is_empty());
    assert_eq!(kept.len(), 3);
}

#[test]
fn creation_time_comes_from_the_name() {
    assert_eq!(backup_stamp("backup_20260102T030405Z.db").as_deref(), Some("20260102T030405Z"));
    assert_eq!(backup_stamp("other.db"), None);
    assert_eq!(backup_created_at("backup_20260102T030405Z.db"), "2026-01-02T03:04:05+00:00");
    assert_eq!(backup_created_at("backup_garbage.db"), "");
    let info = backup_info("backup_20260102T030405Z.db".to_string(), 42);
    assert_eq!(info.size_bytes, 42);
    assert_eq!(info.created_at, "2026-01-02T03:04:05+00:00");
}

#[test]
fn the_snapshot_statement_quotes_the_path() {
    assert_eq!(quote_sql_string("C:\\Users\\O'Brien\\b.db"), "C:\\Users\\O''Brien\\b.db");
    assert_eq!(backup_sql("/tmp/a'b.db"), "VACUUM INTO '/tmp/a''b.db'");
    assert_eq!(path_with_suffix("/data/app.db", "-wal"), "/data/app.db-wal");
}

#[test]
fn the_backup_just_made_is_found_by_name() {
    let infos = vec![backup_info("backup_b.db".to_string(), 1), backup_info("backup_a.db".to_string(), 2)];
    let found = take_backup(infos, "backup_a.db").unwrap();
    assert_eq!(found.size_bytes, 2);
    let none = take_backup(vec![], "backup_a.db").unwrap_err();
    assert_eq!(none.message(), "エラー: バックアップの作成後に情報を取得できませんでした。");
}

#[test]
fn name_order_is_time_order() {
    let mut v = names(&["backup_20260101T000000Z.db", "backup_20251231T235959Z.db", "backup_20251231T000001Z.db"]);
    sort_names(&mut v);
    assert_eq!(v, names(&["backup_20251231T000001Z.db", "backup_20251231T235959Z.db", "backup_20260101T000000Z.db"]));
}

#[test]
fn clock_readings_become_stamps() {
    assert_eq!(stamp_of_reading(Some(0)).as_deref(), Some("19700101T000000Z"));
    assert_eq!(stamp_of_reading(Some(1_767_225_600)).as_deref(), Some("20260101T000000Z"));
    assert_eq!(stamp_of_reading(None), None);
    assert_eq!(stamp_of_reading(Some(u64::MAX)), None);
}
