use ctrlr::hash::{hash_command, normalize};
use ctrlr::migrate::{plan_migration, Rekey, StoredCommand};

fn row(id: &str, text: &str, favorite: i64, use_count: i64, last: Option<i64>, created: Option<i64>) -> StoredCommand {
    StoredCommand {
        id: id.to_string(),
        text: text.to_string(),
        favorite,
        last_used: last,
        use_count,
        created_at: created,
    }
}

#[test]
fn migrate_leaves_canonical_rows_alone() {
    let id = hash_command("ls -la");
    let rows = vec![row(&id, "ls -la", 0, 3, Some(5), Some(1))];
    assert!(plan_migration(&rows).is_empty());
}

#[test]
fn migrate_merges_rows_of_one_command() {
    let canon = hash_command(&normalize("Git Status"));
    let rows = vec![
        row("raw1", "Git Status", 1, 2, Some(100), Some(10)),
        row(&canon, "git status", 0, 5, Some(50), Some(20)),
        row("other", "ls", 0, 1, None, None),
    ];
    let plan = plan_migration(&rows);
    let ls_id = hash_command("ls");
    assert_eq!(
        plan,
        vec![
            Rekey {
                id: canon.clone(),
                text: "git status".to_string(),
                favorite: true,
                last_used: Some(100),
                use_count: 7,
                created_at: Some(10),
                retired: vec!["raw1".to_string()],
            },
            Rekey {
                id: ls_id,
                text: "ls".to_string(),
                favorite: false,
                last_used: None,
                use_count: 1,
                created_at: None,
                retired: vec!["other".to_string()],
            },
        ]
    );
}

#[test]
fn migrate_keeps_the_oldest_casing_without_a_canonical_row() {
    let rows = vec![
        row("b", " Make Build", 0, 1, None, Some(30)),
        row("a", "make build", 0, 1, None, Some(30)),
        row("c", "MAKE BUILD", 0, 1, Some(7), None),
    ];
    let plan = plan_migration(&rows);
    assert_eq!(plan.len(), 1);
    // No creation time sorts first.
    assert_eq!(plan[0].text, "MAKE BUILD");
    assert_eq!(plan[0].retired, vec!["b".to_string(), "a".to_string(), "c".to_string()]);
    assert_eq!(plan[0].created_at, Some(30));
    assert_eq!(plan[0].use_count, 3);
}

#[test]
fn migrate_breaks_age_ties_by_id() {
    let rows = vec![
        row("b", "X", 0, 0, None, Some(1)),
        row("a", "x ", 0, 0, None, Some(1)),
    ];
    let plan = plan_migration(&rows);
    assert_eq!(plan[0].text, "x ");
}
