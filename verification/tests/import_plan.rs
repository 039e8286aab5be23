use ctrlr::hash::{hash_collection_name, hash_command};
use ctrlr::import_plan::plan_import;
use ctrlr::storage::{ExportCollection, ExportCommand, ExportData};

fn command(text: &str, collections: &[&str], ids: &[&str]) -> ExportCommand {
    ExportCommand {
        id: String::new(),
        text: text.to_string(),
        context: vec![],
        favorite: false,
        use_count: 2,
        last_used: Some(7),
        tags: vec!["t".to_string()],
        collections: collections.iter().map(|s| s.to_string()).collect(),
        collection_ids: ids.iter().map(|s| s.to_string()).collect(),
    }
}

fn data(commands: Vec<ExportCommand>, collections: Vec<ExportCollection>) -> ExportData {
    ExportData { version: 1, exported_at: String::new(), commands, collections, tags: vec![] }
}

#[test]
fn commands_differing_by_case_are_inserted_once() {
    let d = data(vec![command("Git Status", &[], &[]), command("  git status ", &[], &[]), command("ls", &[], &[])], vec![]);
    let plan = plan_import(&d, &vec![], &vec![]);
    let texts: Vec<&str> = plan.commands.iter().map(|c| c.text.as_str()).collect();
    assert_eq!(texts, vec!["Git Status", "ls"]);
    assert_eq!(plan.commands[0].id, hash_command("git status"));
    assert_eq!(plan.skipped_commands, 1);
}

#[test]
fn known_commands_are_skipped() {
    let d = data(vec![command("ls", &[], &[]), command("pwd", &[], &[])], vec![]);
    let plan = plan_import(&d, &vec![hash_command("LS")], &vec![]);
    assert_eq!(plan.commands.len(), 1);
    assert_eq!(plan.commands[0].text, "pwd");
    assert_eq!(plan.skipped_commands, 1);
}

#[test]
fn membership_follows_exported_ids_after_a_rename() {
    let d = data(
        vec![command("make", &["renamed"], &["orig-id"]), command("old", &["ops"], &[])],
        vec![
            ExportCollection { id: "orig-id".to_string(), name: "renamed".to_string() },
            ExportCollection { id: "orig-id".to_string(), name: "again".to_string() },
            ExportCollection { id: "known".to_string(), name: "k".to_string() },
        ],
    );
    let plan = plan_import(&d, &vec![], &vec!["known".to_string()]);
    assert_eq!(plan.commands[0].collection_ids, vec!["orig-id".to_string()]);
    assert_eq!(plan.commands[1].collection_ids, vec![hash_collection_name("ops")]);
    assert_eq!(plan.commands[0].tags, vec!["t".to_string()]);
    let ids: Vec<&str> = plan.collections.iter().map(|c| c.id.as_str()).collect();
    assert_eq!(ids, vec!["orig-id"]);
}
