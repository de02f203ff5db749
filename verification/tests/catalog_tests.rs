use ssh_manager::catalog::FileTime;
use ssh_manager::catalog::PubFileRecord;
use ssh_manager::catalog::build_catalog;
use ssh_manager::catalog::catalog_entry;
use ssh_manager::catalog::public_stem;
use ssh_manager::catalog::short_key_type;
use ssh_manager::manager::KeyManager;

const ED25519_KEY: &str = "ssh-ed25519 AAAAC3NzaC1lZDI1NTE5AAAAIAECAwQFBgcICQoLDA0ODxAREhMUFRYXGBkaGxwdHh8g alice@example.com";

// Base64-encoded SHA-256 of the key blob above, as ssh-keygen renders it.
const ED25519_FINGERPRINT: &str = "mKqU+0K8OhKmA8bBQi9Rz0Q5l7/g160hIP+rJYSTNj4";

fn alice_record() -> PubFileRecord {
    PubFileRecord {
        file_name: "alice.pub".to_string(),
        content: ED25519_KEY.to_string(),
        private_mtime: Some(FileTime { secs: 0, nanos: 0 }),
    }
}

#[test]
fn listing_one_generated_key() {
    let km = KeyManager::new("/home/u/.ssh".to_string());
    let keys = km.list_keys(&vec![alice_record()]);
    assert_eq!(keys.len(), 1);
    assert_eq!(keys[0].name, "alice");
    assert_eq!(keys[0].key_type, "ed25519");
    assert_eq!(keys[0].fingerprint, ED25519_FINGERPRINT);
    assert_eq!(keys[0].last_used, "1970-01-01T00:00:00+00:00");
}

#[test]
fn listing_after_deletion_is_empty() {
    let km = KeyManager::new("/home/u/.ssh".to_string());
    let keys = km.list_keys(&vec![]);
    assert_eq!(keys.len(), 0);
}

#[test]
fn stray_unparsable_file_is_skipped_not_fatal() {
    let stray = PubFileRecord {
        file_name: "stray.pub".to_string(),
        content: "this is not a public key".to_string(),
        private_mtime: Some(FileTime { secs: 0, nanos: 0 }),
    };
    let keys = build_catalog(&vec![stray, alice_record()]);
    assert_eq!(keys.len(), 1);
    assert_eq!(keys[0].name, "alice");
}

#[test]
fn non_ascii_stray_file_is_skipped_not_fatal() {
    // A first token of multi-byte characters followed by a space is the
    // shape on which the parser's option-stripping fallback would slice
    // mid-character; the catalog must skip such a file, not abort.
    let stray = PubFileRecord {
        file_name: "stray.pub".to_string(),
        content: "\u{65e5}\u{672c} x".to_string(),
        private_mtime: Some(FileTime { secs: 0, nanos: 0 }),
    };
    let keys = build_catalog(&vec![stray, alice_record()]);
    assert_eq!(keys.len(), 1);
    assert_eq!(keys[0].name, "alice");
}

#[test]
fn orphaned_public_key_is_skipped() {
    let orphan = PubFileRecord {
        file_name: "orphan.pub".to_string(),
        content: ED25519_KEY.to_string(),
        private_mtime: None,
    };
    assert!(catalog_entry(&orphan).is_none());
}

#[test]
fn file_not_named_like_a_public_key_is_skipped() {
    let other = PubFileRecord {
        file_name: "config".to_string(),
        content: ED25519_KEY.to_string(),
        private_mtime: Some(FileTime { secs: 0, nanos: 0 }),
    };
    assert!(catalog_entry(&other).is_none());
}

#[test]
fn last_used_is_rendered_from_the_private_file_time() {
    let mut rec = alice_record();
    rec.private_mtime = Some(FileTime { secs: 1431648000, nanos: 0 });
    let entry = catalog_entry(&rec).unwrap();
    assert_eq!(entry.last_used, "2015-05-15T00:00:00+00:00");
}

#[test]
fn public_stem_strips_the_suffix() {
    assert_eq!(public_stem("alice.pub").unwrap(), "alice");
    assert_eq!(public_stem("a.b.pub").unwrap(), "a.b");
    assert!(public_stem(".pub").is_none());
    assert!(public_stem("alice").is_none());
    assert!(public_stem("alicepub").is_none());
}

#[test]
fn short_key_types() {
    assert_eq!(short_key_type("ssh-rsa"), "rsa");
    assert_eq!(short_key_type("ssh-ed25519"), "ed25519");
    assert_eq!(short_key_type("ssh-dss"), "dsa");
    assert_eq!(short_key_type("ecdsa-sha2-nistp256"), "ecdsa");
    assert_eq!(short_key_type("something-else"), "something-else");
}
