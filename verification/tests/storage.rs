use ctrlr::hash::hash_command;
use ctrlr::storage::{
    dry_run_result, format_utc, is_leap_year, preview_counts, ExportCollection, ExportCommand,
    ExportData, ImportPreview,
};

fn export_command(text: &str) -> ExportCommand {
    ExportCommand {
        id: hash_command(text),
        text: text.to_string(),
        context: vec![],
        favorite: false,
        use_count: 1,
        last_used: None,
        tags: vec![],
        collections: vec![],
        collection_ids: vec![],
    }
}

#[test]
fn storage_preview_counts_new_and_duplicate_commands() {
    let data = ExportData {
        version: 1,
        exported_at: String::new(),
        commands: vec![export_command("git status"), export_command("ls"), export_command("  GIT STATUS ")],
        collections: vec![
            ExportCollection { id: "a".to_string(), name: "A".to_string() },
            ExportCollection { id: "b".to_string(), name: "B".to_string() },
        ],
        tags: vec![],
    };
    let known_commands = vec![hash_command("git status")];
    let known_collections = vec!["b".to_string()];
    let p = preview_counts(&data, &known_commands, &known_collections);
    assert_eq!(p, ImportPreview { new_commands: 1, new_collections: 1, duplicates: 2 });
    let r = dry_run_result(p);
    assert!(r.is_dry_run);
    assert_eq!(r.skipped_commands, 2);
    assert_eq!(r.imported_commands, 0);
}

#[test]
fn storage_leap_years() {
    assert!(is_leap_year(2024));
    assert!(!is_leap_year(2023));
    assert!(!is_leap_year(1900));
    assert!(is_leap_year(2000));
}

#[test]
fn storage_format_utc_known_instants() {
    assert_eq!(format_utc(0), "1970-01-01T00:00:00Z");
    assert_eq!(format_utc(1_700_000_000), "2023-11-14T22:13:20Z");
    assert_eq!(format_utc(951_782_400), "2000-02-29T00:00:00Z");
    assert_eq!(format_utc(1_709_251_199), "2024-02-29T23:59:59Z");
    assert_eq!(format_utc(253_402_300_800), "10000-01-01T00:00:00Z");
}
