use ssh_manager::generator::KeyOpError;
use ssh_manager::generator::plan_generation;
use ssh_manager::manager::KeyManager;
use ssh_manager::paths::CONFIG_FILE_MODE;
use ssh_manager::paths::PRIVATE_KEY_MODE;
use ssh_manager::paths::PUBLIC_KEY_MODE;
use ssh_manager::paths::config_path;
use ssh_manager::paths::private_path;
use ssh_manager::paths::public_path;
use ssh_manager::security::SecurityManager;
use ssh_manager::settings::Config;
use ssh_manager::settings::get_config_path;

#[test]
fn plan_for_ed25519() {
    let plan = plan_generation("/home/u/.ssh", "alice", "ed25519", None, None, &vec![]).unwrap();
    assert_eq!(plan.args, vec!["-t", "ed25519", "-f", "/home/u/.ssh/alice", "-N", ""]);
    assert_eq!(plan.private_path, "/home/u/.ssh/alice");
    assert_eq!(plan.public_path, "/home/u/.ssh/alice.pub");
}

#[test]
fn plan_for_rsa_mandates_4096_bits() {
    let plan = plan_generation("/home/u/.ssh", "work", "rsa", None, None, &vec![]).unwrap();
    assert_eq!(plan.args, vec!["-t", "rsa", "-b", "4096", "-f", "/home/u/.ssh/work", "-N", ""]);
}

#[test]
fn plan_embeds_comment() {
    let plan =
        plan_generation("/r", "k", "ecdsa", Some("my laptop"), None, &vec![]).unwrap();
    assert_eq!(plan.args, vec!["-t", "ecdsa", "-C", "my laptop", "-f", "/r/k", "-N", ""]);
}

#[test]
fn plan_prefers_email_over_comment() {
    let plan = plan_generation("/r", "k", "ed25519", Some("c"), Some("a@b.c"), &vec![]).unwrap();
    assert_eq!(plan.args, vec!["-t", "ed25519", "-C", "a@b.c", "-f", "/r/k", "-N", ""]);
}

#[test]
fn empty_name_is_rejected_before_any_io() {
    let r = plan_generation("/r", "", "ed25519", None, None, &vec![]);
    assert!(matches!(r, Err(KeyOpError::InvalidName)));
}

#[test]
fn unsupported_algorithm_is_rejected() {
    let r = plan_generation("/r", "k", "dsa", None, None, &vec![]);
    assert!(matches!(r, Err(KeyOpError::UnsupportedAlgorithm)));
}

#[test]
fn existing_name_is_never_overwritten() {
    let existing = vec!["other".to_string(), "k".to_string()];
    let r = plan_generation("/r", "k", "ed25519", None, None, &existing);
    assert!(matches!(r, Err(KeyOpError::AlreadyExists)));
}

#[test]
fn manager_plans_under_its_root() {
    let km = KeyManager::new("/stores/a".to_string());
    let plan = km.plan_generation("alice", "ed25519", None, None, &vec![]).unwrap();
    assert_eq!(plan.private_path, "/stores/a/alice");
    assert_eq!(plan.public_path, "/stores/a/alice.pub");
    assert_eq!(km.config_path(), "/stores/a/config");
    assert_eq!(km.private_path("alice"), "/stores/a/alice");
    assert_eq!(km.public_path("alice"), "/stores/a/alice.pub");
}

#[test]
fn mandated_modes_lock_out_group_and_other() {
    assert_eq!(PRIVATE_KEY_MODE, 0o600);
    assert_eq!(PUBLIC_KEY_MODE, 0o644);
    assert_eq!(CONFIG_FILE_MODE, 0o600);
    assert_eq!(PRIVATE_KEY_MODE & 0o077, 0);
    assert_eq!(CONFIG_FILE_MODE & 0o077, 0);
}

#[test]
fn path_building() {
    assert_eq!(private_path("/r", "k"), "/r/k");
    assert_eq!(public_path("/r", "k"), "/r/k.pub");
    assert_eq!(config_path("/r"), "/r/config");
}

#[test]
fn security_gate_is_an_inert_stub() {
    let gate = SecurityManager::new();
    assert_eq!(gate.encrypt_sensitive_data(b"secret bytes"), Vec::<u8>::new());
    gate.log_operation("generate_key");
}

#[test]
fn default_settings_are_empty() {
    let c = Config::default();
    assert_eq!(c.git_config.user_name, "");
    assert_eq!(c.git_config.user_email, "");
}

#[test]
fn settings_file_location() {
    assert_eq!(get_config_path("/home/u"), "/home/u/.ssh-manager/config.json");
}
