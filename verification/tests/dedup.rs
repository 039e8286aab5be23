use ctrlr::hash::hash_command;
use ctrlr::history::dedup::{deduplicate, str_less};
use ctrlr::state::Command;

fn make_cmd(text: &str, use_count: i32, tags: Vec<String>, favorite: bool) -> Command {
    Command {
        id: hash_command(text),
        text: text.to_string(),
        tags,
        collection_ids: vec![],
        favorite,
        _context: vec![],
        use_count,
        last_used: None,
        runs_here: 0,
    }
}

#[test]
fn test_deduplicate_empty() {
    let input: Vec<Command> = vec![];
    let result = deduplicate(input);
    assert!(result.is_empty());
}

#[test]
fn test_deduplicate_single() {
    let cmd = make_cmd("ls", 1, vec![], false);
    let result = deduplicate(vec![cmd]);
    assert_eq!(result.len(), 1);
}

#[test]
fn test_deduplicate_merges_use_count() {
    let cmd1 = make_cmd("ls", 5, vec![], false);
    let cmd2 = make_cmd("LS", 3, vec![], false);
    let result = deduplicate(vec![cmd1, cmd2]);
    assert_eq!(result.len(), 1);
    assert!(result[0].use_count >= 8);
    assert_eq!(result[0].text, "ls");
}

#[test]
fn test_deduplicate_preserves_order() {
    let cmd1 = make_cmd("ls", 1, vec![], false);
    let cmd2 = make_cmd("pwd", 2, vec![], false);
    let cmd3 = make_cmd("git", 3, vec![], false);
    let result = deduplicate(vec![cmd1, cmd2, cmd3]);
    assert_eq!(result.len(), 3);
    assert_eq!(result[0].text, "ls");
    assert_eq!(result[1].text, "pwd");
    assert_eq!(result[2].text, "git");
}

#[test]
fn test_deduplicate_newest_first_with_duplicates() {
    let cmd1 = make_cmd("ifconfig", 2, vec![], false);
    let cmd2 = make_cmd("cargo clippy", 1, vec![], false);
    let cmd3 = make_cmd("cargo fmt", 1, vec![], false);
    let cmd4 = make_cmd("ifconfig", 1, vec![], false);
    let result = deduplicate(vec![cmd1, cmd2, cmd3, cmd4]);
    assert_eq!(result.len(), 3);
    assert_eq!(result[0].text, "ifconfig");
    assert_eq!(result[1].text, "cargo clippy");
    assert_eq!(result[2].text, "cargo fmt");
}

#[test]
fn test_deduplicate_merges_tags() {
    let cmd1 = make_cmd("ls", 1, vec!["bash".to_string()], false);
    let cmd2 = make_cmd("LS", 1, vec!["linux".to_string()], false);
    let result = deduplicate(vec![cmd1, cmd2]);
    assert_eq!(result.len(), 1);
    assert!(!result[0].tags.is_empty());
    assert_eq!(result[0].text, "ls");
}

#[test]
fn test_deduplicate_takes_favorite() {
    let cmd1 = make_cmd("ls", 1, vec![], false);
    let cmd2 = make_cmd("LS", 1, vec![], true);
    let result = deduplicate(vec![cmd1, cmd2]);
    assert_eq!(result.len(), 1);
    assert!(result[0].favorite);
}

#[test]
fn test_deduplicate_takes_later_last_used() {
    let mut cmd1 = make_cmd("ls", 1, vec![], false);
    cmd1.last_used = Some(100);
    let mut cmd2 = make_cmd("LS", 1, vec![], false);
    cmd2.last_used = Some(200);
    let result = deduplicate(vec![cmd1, cmd2]);
    assert_eq!(result[0].last_used, Some(200));
}

#[test]
fn test_deduplicate_no_false_positives() {
    let cmd1 = make_cmd("ls", 1, vec![], false);
    let cmd2 = make_cmd("ls -la", 1, vec![], false);
    let result = deduplicate(vec![cmd1, cmd2]);
    assert_eq!(result.len(), 2);
}

#[test]
fn test_deduplicate_complex_command() {
    let cmd1 = make_cmd("git commit -m 'fix'", 1, vec!["vcs".to_string()], true);
    let cmd2 = make_cmd("GIT COMMIT -M 'FIX'", 2, vec!["git".to_string()], false);
    let result = deduplicate(vec![cmd1, cmd2]);
    assert_eq!(result.len(), 1);
    assert!(result[0].use_count >= 3);
    assert_eq!(result[0].text, "git commit -m 'fix'");
}

#[test]
fn dedup_merged_tags_are_sorted_and_distinct() {
    let cmd1 = make_cmd("ls", 1, vec!["zsh".to_string(), "bash".to_string()], false);
    let cmd2 = make_cmd(" LS ", 1, vec!["linux".to_string(), "bash".to_string()], false);
    let result = deduplicate(vec![cmd1, cmd2]);
    assert_eq!(result[0].tags, vec!["bash", "linux", "zsh"]);
    assert_eq!(result[0].use_count, 2);
}

#[test]
fn dedup_unmerged_tags_are_left_as_they_were() {
    let cmd = make_cmd("ls", 1, vec!["zsh".to_string(), "bash".to_string()], false);
    let result = deduplicate(vec![cmd]);
    assert_eq!(result[0].tags, vec!["zsh", "bash"]);
}

#[test]
fn dedup_contexts_are_appended_once_each() {
    let mut cmd1 = make_cmd("ls", 1, vec![], false);
    cmd1._context = vec!["shell:bash".to_string()];
    let mut cmd2 = make_cmd("ls", 1, vec![], false);
    cmd2._context = vec!["shell:zsh".to_string(), "shell:bash".to_string(), "shell:zsh".to_string()];
    let result = deduplicate(vec![cmd1, cmd2]);
    assert_eq!(result[0]._context, vec!["shell:bash", "shell:zsh"]);
}

#[test]
fn dedup_a_time_beats_no_time_and_the_first_keeps_its_id() {
    let cmd1 = make_cmd("ls", 1, vec![], false);
    let mut cmd2 = make_cmd("LS", 1, vec![], false);
    cmd2.last_used = Some(5);
    cmd2.runs_here = 9;
    let id = cmd1.id.clone();
    let result = deduplicate(vec![cmd1, cmd2]);
    assert_eq!(result[0].last_used, Some(5));
    assert_eq!(result[0].id, id);
    assert_eq!(result[0].runs_here, 0);
}

#[test]
fn dedup_str_less_orders_by_code_point() {
    assert!(str_less("a", "b"));
    assert!(str_less("ab", "abc"));
    assert!(!str_less("abc", "ab"));
    assert!(!str_less("x", "x"));
    assert!(str_less("Z", "a"));
    assert!(str_less("z", "é"));
}
