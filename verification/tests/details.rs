use ctrlr::details::{time_ago, DetailKind, DetailLine};
use ctrlr::state::Command;
use ctrlr::storage::{Collection, RunSummary};

fn cmd(text: &str) -> Command {
    Command {
        id: text.to_string(),
        text: text.to_string(),
        tags: vec![],
        collection_ids: vec![],
        favorite: false,
        _context: vec![],
        use_count: 0,
        last_used: None,
        runs_here: 0,
    }
}

fn texts(lines: &[DetailLine]) -> Vec<String> {
    lines.iter().map(|l| l.text.clone()).collect()
}

#[test]
fn ago_picks_the_coarsest_unit() {
    assert_eq!(time_ago(100, 90), "10s ago");
    assert_eq!(time_ago(1000, 940), "1m ago");
    assert_eq!(time_ago(7200, 0), "2h ago");
    assert_eq!(time_ago(3 * 86400 + 5, 0), "3d ago");
    assert_eq!(time_ago(0, 5), "-5s ago");
}

#[test]
fn details_of_a_plain_command() {
    let c = cmd("ls -la");
    let lines = DetailLine::for_command(&c, &vec![], None, 0);
    assert_eq!(
        texts(&lines),
        vec!["Command", "ls -la", "", "Usage", "Used: 0x", "", "Favorite", "○ no"]
    );
    assert_eq!(lines[0].kind, DetailKind::Section);
}

#[test]
fn details_list_tags_collections_and_runs() {
    let mut c = cmd("make");
    c.tags = vec!["build".to_string()];
    c.collection_ids = vec!["x".to_string(), "gone".to_string()];
    c.use_count = 4;
    c.last_used = Some(40);
    c.favorite = true;
    c.runs_here = 2;
    let cols = vec![Collection { id: "x".to_string(), name: "dev".to_string() }];
    let summary = RunSummary {
        total: 7,
        last_exit: Some(2),
        last_run: Some(100),
        top_dirs: vec![("/src".to_string(), 5)],
    };
    let lines = DetailLine::for_command(&c, &cols, Some(&summary), 160);
    assert_eq!(
        texts(&lines),
        vec![
            "Command", "make", "", "Tags", "build", "", "Collections", "- dev", "", "Usage",
            "Used: 4x", "Last used: 2m ago", "", "Runs", "Recorded: 7x", "Here: 2x",
            "Last exit: 2", "Last run: 1m ago", "- /src (5x)", "", "Favorite", "* yes",
        ]
    );
    assert_eq!(lines[4].kind, DetailKind::Tag);
    assert_eq!(lines[16].kind, DetailKind::Alert);
    assert_eq!(lines[21].kind, DetailKind::Favorite);
}

#[test]
fn ago_handles_the_far_ends_of_time() {
    assert_eq!(time_ago(i64::MIN, i64::MAX), "-18446744073709551615s ago");
    assert_eq!(time_ago(i64::MAX, i64::MIN), "213503982334601d ago");
}
