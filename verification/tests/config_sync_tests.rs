use ssh_manager::config_sync::add_entry_text;
use ssh_manager::config_sync::entry_block;
use ssh_manager::config_sync::identity_line;
use ssh_manager::config_sync::remove_entry_text;
use ssh_manager::manager::KeyManager;

#[test]
fn add_entry_to_empty_text() {
    let out = add_entry_text("", "/home/u/.ssh/alice");
    assert_eq!(out, "\nHost *\n  IdentityFile /home/u/.ssh/alice\n");
}

#[test]
fn add_entry_twice_is_byte_identical() {
    let once = add_entry_text("", "/home/u/.ssh/alice");
    let twice = add_entry_text(&once, "/home/u/.ssh/alice");
    assert_eq!(once, twice);
}

#[test]
fn add_entry_twice_on_existing_text_is_byte_identical() {
    let base = "Host work\n  IdentityFile /other/key\n";
    let once = add_entry_text(base, "/home/u/.ssh/alice");
    let twice = add_entry_text(&once, "/home/u/.ssh/alice");
    assert_eq!(once, twice);
    assert!(once.starts_with(base));
}

#[test]
fn remove_absent_entry_is_noop() {
    let base = "Host work\n  IdentityFile /other/key\n";
    let out = remove_entry_text(base, "/home/u/.ssh/alice");
    assert_eq!(out, base);
}

#[test]
fn remove_absent_entry_without_trailing_newline_is_noop() {
    let base = "Host work\n  IdentityFile /other/key";
    let out = remove_entry_text(base, "/home/u/.ssh/alice");
    assert_eq!(out, base);
}

#[test]
fn remove_from_missing_text_is_noop() {
    let out = remove_entry_text("", "/home/u/.ssh/alice");
    assert_eq!(out, "");
}

#[test]
fn remove_drops_the_whole_block() {
    let text = add_entry_text("", "/home/u/.ssh/alice");
    let out = remove_entry_text(&text, "/home/u/.ssh/alice");
    assert_eq!(out, "");
    assert!(!out.contains("/home/u/.ssh/alice"));
}

#[test]
fn remove_after_add_restores_the_original_text() {
    let base = "Host work\n  IdentityFile /other/key\n";
    let text = add_entry_text(base, "/home/u/.ssh/alice");
    let out = remove_entry_text(&text, "/home/u/.ssh/alice");
    assert_eq!(out, base);
}

#[test]
fn bare_identity_line_is_removed_alone() {
    let out = remove_entry_text("Host *\n  IdentityFile /p/k\n", "/p/k");
    assert_eq!(out, "Host *\n");
}

#[test]
fn remove_leaves_entry_sharing_a_path_prefix() {
    let text = add_entry_text(&add_entry_text("", "/home/u/.ssh/alice-bob-combo"), "/home/u/.ssh/bob");
    let out = remove_entry_text(&text, "/home/u/.ssh/bob");
    assert!(out.contains("  IdentityFile /home/u/.ssh/alice-bob-combo"));
    assert!(!out.contains("  IdentityFile /home/u/.ssh/bob\n"));
}

#[test]
fn remove_leaves_entry_whose_path_extends_the_removed_one() {
    // The worst case for substring matching: one key's path is a strict
    // prefix of another's. Removal matches the whole identity line, so the
    // longer path's entry survives.
    let text = add_entry_text(&add_entry_text("", "/home/u/.ssh/bob-work"), "/home/u/.ssh/bob");
    let out = remove_entry_text(&text, "/home/u/.ssh/bob");
    assert!(out.contains("  IdentityFile /home/u/.ssh/bob-work"));
    let ident = identity_line("/home/u/.ssh/bob");
    assert!(!out.lines().any(|l| l == ident));
}

#[test]
fn two_insertions_keep_both_entries() {
    let text = add_entry_text(&add_entry_text("", "/home/u/.ssh/alice"), "/home/u/.ssh/bob");
    let alice_block = entry_block("/home/u/.ssh/alice");
    let bob_block = entry_block("/home/u/.ssh/bob");
    assert!(text.contains(&alice_block));
    assert!(text.contains(&bob_block));
}

#[test]
fn lifecycle_keeps_the_other_keys_entry() {
    let km = KeyManager::new("/home/u/.ssh".to_string());
    let text = km.add_entry_text("bob", &km.add_entry_text("alice", ""));
    let after = km.remove_entry_text("bob", &text);
    assert_eq!(after, km.add_entry_text("alice", ""));
    assert!(after.lines().any(|l| l == "  IdentityFile /home/u/.ssh/alice"));
    assert!(!after.lines().any(|l| l == "  IdentityFile /home/u/.ssh/bob"));
}

#[test]
fn entry_block_shape() {
    assert_eq!(entry_block("/p/k"), "\nHost *\n  IdentityFile /p/k\n");
    assert_eq!(identity_line("/p/k"), "  IdentityFile /p/k");
}

#[test]
fn manager_add_and_remove_entry_text() {
    let km = KeyManager::new("/home/u/.ssh".to_string());
    let text = km.add_entry_text("alice", "");
    assert_eq!(text, "\nHost *\n  IdentityFile /home/u/.ssh/alice\n");
    let again = km.add_entry_text("alice", &text);
    assert_eq!(again, text);
    let gone = km.remove_entry_text("alice", &text);
    assert_eq!(gone, "");
}
