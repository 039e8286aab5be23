use ctrlr::state::{
    compute_ranking_score, decline, integration_offer, Command, Dismissal, INTEGRATION_MAX_DECLINES,
    INTEGRATION_REASK_AFTER,
};

fn declined(fingerprint: &str, launches: u32, declines: u32) -> Dismissal {
    Dismissal { fingerprint: fingerprint.to_string(), launches, declines }
}

fn dismissed(fingerprint: &str, launches: u32) -> Dismissal {
    declined(fingerprint, launches, 1)
}

#[test]
fn test_integration_offered_when_never_dismissed() {
    let offer = integration_offer(None, "abc");
    assert!(offer.show);
    assert!(offer.record.is_none(), "nothing to count yet");
}

#[test]
fn test_integration_silent_right_after_dismissal() {
    let offer = integration_offer(Some(dismissed("abc", 0)), "abc");
    assert!(!offer.show);
    assert_eq!(offer.record, Some(dismissed("abc", 1)));
}

#[test]
fn test_integration_counts_launches_until_the_threshold() {
    let mut stored = dismissed("abc", 0);
    for _ in 0..INTEGRATION_REASK_AFTER - 1 {
        let offer = integration_offer(Some(stored), "abc");
        assert!(!offer.show);
        stored = offer.record.unwrap();
    }
    let offer = integration_offer(Some(stored), "abc");
    assert!(offer.show, "asked again after {}", INTEGRATION_REASK_AFTER);
}

#[test]
fn test_integration_keeps_asking_until_dismissed_again() {
    assert!(integration_offer(Some(dismissed("abc", INTEGRATION_REASK_AFTER)), "abc").show);
    assert!(integration_offer(Some(dismissed("abc", INTEGRATION_REASK_AFTER)), "abc").show);
}

#[test]
fn test_integration_stops_asking_after_the_decline_cap() {
    let offer = integration_offer(Some(declined("abc", INTEGRATION_REASK_AFTER, INTEGRATION_MAX_DECLINES)), "abc");
    assert!(!offer.show);
    assert!(offer.record.is_none(), "nothing left to count");
    assert!(integration_offer(Some(declined("abc", INTEGRATION_REASK_AFTER, INTEGRATION_MAX_DECLINES)), "def").show);
}

#[test]
fn test_integration_announces_the_last_offer() {
    let last = declined("abc", INTEGRATION_REASK_AFTER, INTEGRATION_MAX_DECLINES - 1);
    assert!(integration_offer(Some(last), "abc").final_offer);
    let earlier = declined("abc", INTEGRATION_REASK_AFTER, 1);
    assert!(!integration_offer(Some(earlier), "abc").final_offer);
}

#[test]
fn test_integration_counting_preserves_the_decline_count() {
    let offer = integration_offer(Some(declined("abc", 0, 2)), "abc");
    assert_eq!(offer.record, Some(declined("abc", 1, 2)));
}

#[test]
fn test_integration_offered_again_when_the_script_changes() {
    let offer = integration_offer(Some(dismissed("abc", 1)), "def");
    assert!(offer.show, "a different script is a different offer");
}

/// A record that cannot be read back reaches the decision as no record.
#[test]
fn test_integration_tolerates_a_corrupt_record() {
    assert!(integration_offer(None, "abc").show);
}

#[test]
fn state_decline_counts_declines_per_script() {
    let first = decline(None, "abc");
    assert_eq!(first, declined("abc", 0, 1));
    let second = decline(Some(declined("abc", 17, 1)), "abc");
    assert_eq!(second, declined("abc", 0, 2));
    let other = decline(Some(declined("abc", 3, 2)), "def");
    assert_eq!(other, declined("def", 0, 1));
    let capped = decline(Some(declined("abc", 0, u32::MAX)), "abc");
    assert_eq!(capped.declines, u32::MAX);
}

#[test]
fn state_three_declines_end_the_offer() {
    let mut record = decline(None, "abc");
    for _ in 1..INTEGRATION_MAX_DECLINES {
        record = decline(Some(record), "abc");
    }
    for _ in 0..100 {
        let offer = integration_offer(Some(declined("abc", record.launches, record.declines)), "abc");
        assert!(!offer.show);
    }
}

fn cmd(text: &str) -> Command {
    Command {
        id: String::new(),
        text: text.to_string(),
        tags: vec![],
        collection_ids: vec![],
        favorite: false,
        _context: vec![],
        use_count: 0,
        last_used: None,
        runs_here: 0,
    }
}

#[test]
fn state_ranking_score_adds_its_parts() {
    let mut c = cmd("ls");
    c.use_count = 3;
    c.last_used = Some(1000);
    c.favorite = true;
    c.runs_here = 50;
    // 7*10 + 3*2 + recency + 100 + 60 + 20 (capped)
    assert_eq!(compute_ranking_score(&c, 7, 1000 + 59), 70 + 6 + 50 + 100 + 80);
    assert_eq!(compute_ranking_score(&c, 7, 1000 + 3600), 70 + 6 + 20 + 100 + 80);
    assert_eq!(compute_ranking_score(&c, 7, 1000 + 86400), 70 + 6 + 10 + 100 + 80);
    assert_eq!(compute_ranking_score(&c, 7, 1000 + 604800), 70 + 6 + 100 + 80);
    c.runs_here = 4;
    c.favorite = false;
    c.last_used = None;
    assert_eq!(compute_ranking_score(&c, 0, 0), 6 + 64);
}

#[test]
fn state_a_favourite_outranks_the_directory_and_a_slightly_better_match() {
    let mut fav = cmd("a");
    fav.favorite = true;
    let mut here = cmd("b");
    here.runs_here = 20;
    assert!(compute_ranking_score(&fav, 5, 10) > compute_ranking_score(&here, 5, 10));
    assert!(compute_ranking_score(&fav, 20, 10) > compute_ranking_score(&cmd("c"), 21, 10));
    // Uses count too: enough of them outweigh a favourite.
    let mut busy = cmd("d");
    busy.use_count = 100;
    assert!(compute_ranking_score(&busy, 5, 10) > compute_ranking_score(&fav, 5, 10));
}

#[test]
fn state_here_beats_recency_and_recency_beats_frequency() {
    let mut recent = cmd("a");
    recent.last_used = Some(100);
    let mut here = cmd("c");
    here.runs_here = 1;
    let r = compute_ranking_score(&recent, 1, 200);
    let f = compute_ranking_score(&cmd("b"), 1, 200);
    assert!(r > f);
    assert!(compute_ranking_score(&here, 1, 200) > r);
    let mut used = cmd("e");
    used.use_count = 5;
    assert!(r > compute_ranking_score(&used, 1, 200));
    assert!(compute_ranking_score(&here, 20, 200) > compute_ranking_score(&cmd("f"), 21, 200));
}

#[test]
fn state_stored_commands_follow_the_history_once() {
    let with_id = |t: &str| {
        let mut c = cmd(t);
        c.id = t.to_string();
        c
    };
    let history = vec![with_id("ls"), with_id("pwd")];
    let mut extra = with_id("make deploy");
    extra.collection_ids = vec!["c1".to_string()];
    let stored = vec![with_id("pwd"), extra, with_id("ls"), with_id("make deploy")];
    let merged = ctrlr::state::merge_stored(history, stored);
    let texts: Vec<&str> = merged.iter().map(|c| c.text.as_str()).collect();
    assert_eq!(texts, vec!["ls", "pwd", "make deploy"]);
    assert_eq!(merged[2].collection_ids, vec!["c1".to_string()]);
}
