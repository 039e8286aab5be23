use ctrlr::import_dialog::{import_summary, FileRequest, ImportExportDialog};
use ctrlr::keymap::action::KeyAction;
use ctrlr::state::{Command, ImportExportMode};
use ctrlr::storage::{CommandMeta, ImportMode, ImportPreview, ImportResult};

fn result(commands: usize, collections: usize, skipped: usize) -> ImportResult {
    ImportResult {
        imported_commands: commands,
        imported_collections: collections,
        skipped_commands: skipped,
        is_dry_run: false,
    }
}

#[test]
fn import_message_names_what_happened() {
    assert_eq!(import_summary(result(3, 0, 0)), "Imported 3 commands");
    assert_eq!(import_summary(result(3, 2, 0)), "Imported 3 commands, 2 collections");
    assert_eq!(import_summary(result(0, 2, 0)), "2 collections");
    assert_eq!(import_summary(result(1, 0, 4)), "Imported 1 commands, skipped 4");
    assert_eq!(import_summary(result(0, 0, 0)), "");
}

#[test]
fn import_goes_from_path_to_preview_to_import() {
    let mut d = ImportExportDialog::new();
    d.open_import();
    assert!(matches!(d.dispatch(KeyAction::Confirm), FileRequest::Nothing));
    for c in "a.json".chars() {
        d.insert_char(c);
    }
    match d.dispatch(KeyAction::Confirm) {
        FileRequest::Preview(p) => assert_eq!(p, "a.json"),
        _ => panic!("expected a preview request"),
    }
    d.show_preview(ImportPreview { new_commands: 1, new_collections: 0, duplicates: 0 });
    assert_eq!(d.mode, ImportExportMode::ImportPreview);
    d.dispatch(KeyAction::NavigateDown);
    match d.dispatch(KeyAction::Confirm) {
        FileRequest::Import(p, m) => {
            assert_eq!(p, "a.json");
            assert_eq!(m, ImportMode::Replace);
        }
        _ => panic!("expected an import request"),
    }
}

#[test]
fn moving_up_drops_the_preview() {
    let mut d = ImportExportDialog::new();
    d.open_import();
    d.insert_char('x');
    d.show_preview(ImportPreview { new_commands: 0, new_collections: 0, duplicates: 2 });
    d.dispatch(KeyAction::NavigateUp);
    assert_eq!(d.mode, ImportExportMode::Import);
    assert!(d.preview.is_none());
    assert_eq!(d.mode_index, 0);
}

#[test]
fn export_needs_a_path() {
    let mut d = ImportExportDialog::new();
    d.open_export();
    assert!(matches!(d.dispatch(KeyAction::Confirm), FileRequest::Nothing));
    d.insert_char('o');
    d.dispatch(KeyAction::DeleteCharBackward);
    assert_eq!(d.path, "");
    d.insert_char('f');
    match d.dispatch(KeyAction::Confirm) {
        FileRequest::Export(p) => assert_eq!(p, "f"),
        _ => panic!("expected an export request"),
    }
    d.dispatch(KeyAction::NavigateDown);
    assert_eq!(d.mode_index, 0);
}

#[test]
fn stored_metadata_folds_into_a_command() {
    let mut c = Command {
        id: "x".to_string(),
        text: "ls".to_string(),
        tags: vec!["old".to_string()],
        collection_ids: vec![],
        favorite: false,
        _context: vec![],
        use_count: 5,
        last_used: Some(100),
        runs_here: 0,
    };
    c.apply_stored(
        Some(CommandMeta { favorite: true, last_used: Some(50), use_count: 2 }),
        vec![],
        vec!["c1".to_string()],
    );
    assert!(c.favorite);
    assert_eq!(c.use_count, 5);
    assert_eq!(c.last_used, Some(100));
    assert_eq!(c.tags, vec!["old".to_string()]);
    assert_eq!(c.collection_ids, vec!["c1".to_string()]);
    c.apply_stored(Some(CommandMeta { favorite: false, last_used: Some(200), use_count: 9 }), vec!["t".to_string()], vec![]);
    assert!(!c.favorite);
    assert_eq!(c.use_count, 9);
    assert_eq!(c.last_used, Some(200));
    assert_eq!(c.tags, vec!["t".to_string()]);
}
