use ctrlr::hash::{hash_collection_name, hash_command, normalize, sha1_hex};

#[test]
fn test_normalize_trims_and_lowercases() {
    assert_eq!(normalize("  LS  "), "ls");
    assert_eq!(normalize("Git Status"), "git status");
    assert_eq!(normalize("\t\techo\n"), "echo");
}

#[test]
fn test_normalize_case_insensitive() {
    assert_eq!(normalize("GIT"), normalize("git"));
    assert_eq!(normalize("Git"), normalize("GIT"));
}

#[test]
fn test_normalize_is_idempotent() {
    assert_eq!(normalize(&normalize("  Git Status  ")), normalize("  Git Status  "));
}

#[test]
fn test_hash_command_deterministic() {
    assert_eq!(hash_command("ls -la"), hash_command("ls -la"));
}

#[test]
fn test_hash_command_normalizes() {
    assert_eq!(hash_command("Git Status"), hash_command("  git status  "));
    assert_eq!(hash_command("ls -la"), hash_command("ls -la "));
    assert_eq!(hash_command("GIT"), hash_command("git"));
}

#[test]
fn test_hash_command_different_inputs() {
    assert_ne!(hash_command("ls -la"), hash_command("ls -al"));
    assert_ne!(hash_command("ls"), hash_command("ls -la"));
}

#[test]
fn test_hash_command_sha1_format() {
    let hash = hash_command("test");
    assert_eq!(hash.len(), 40);
    assert!(hash.chars().all(|c: char| c.is_ascii_hexdigit()));
}

#[test]
fn test_sha1_hex_is_raw() {
    assert_ne!(sha1_hex("Work"), sha1_hex("work"));
    assert_ne!(sha1_hex("work "), sha1_hex("work"));
}

#[test]
fn test_hash_command_matches_sha1_of_normalized() {
    assert_eq!(hash_command("Git Status"), sha1_hex("git status"));
}

#[test]
fn test_hash_collection_name_is_case_sensitive() {
    assert_ne!(hash_collection_name("Work"), hash_collection_name("work"));
    assert_eq!(hash_collection_name("work"), hash_collection_name("work"));
}

#[test]
fn hash_sha1_of_a_known_text() {
    assert_eq!(sha1_hex("abc"), "a9993e364706816aba3e25717850c26c9cd0d89d");
    assert_eq!(sha1_hex(""), "da39a3ee5e6b4b0d3255bfef95601890afd80709");
}

#[test]
fn hash_normalize_lowercases_beyond_ascii() {
    assert_eq!(normalize("  ÄRGER  "), "ärger");
}
