use razermapper::security::{create_security_manager, SecurityManager, TOKEN_LIFETIME_MS};

const NOW: u64 = 1_700_000_000_000;

#[test]
fn test_security_manager_creation() {
    let manager = SecurityManager::new(true);
    assert!(!manager.privileges_dropped());
}

#[test]
fn test_auth_token() {
    let mut manager = SecurityManager::new(true);

    let token = manager.generate_auth_token(0x1234_abcd, NOW);
    assert!(token.starts_with("razermapper-"));

    assert!(manager.validate_auth_token(&token, NOW));
    assert!(!manager.validate_auth_token("invalid-token", NOW));
}

#[test]
fn test_root_detection() {
    let uid = nix::unistd::getuid().as_raw();
    if SecurityManager::is_root(uid) {
        println!("Running as root");
    } else {
        println!("Running as non-root");
    }
}

#[test]
fn test_token_expiration() {
    let mut manager = SecurityManager::new(true);

    let token = manager.generate_auth_token(7, NOW);

    let past_time = NOW - 1000;
    manager.record_token(token.clone(), past_time);

    assert!(!manager.validate_auth_token(&token, NOW));
}

#[test]
fn token_text_is_hex_of_the_hash() {
    let mut manager = SecurityManager::new(true);
    assert_eq!(manager.generate_auth_token(0xbeef, NOW), "razermapper-beef");
    assert_eq!(manager.generate_auth_token(0, NOW), "razermapper-0");
}

#[test]
fn tokens_expire_after_a_day() {
    let mut manager = SecurityManager::new(true);
    let token = manager.generate_auth_token(42, NOW);
    assert!(manager.validate_auth_token(&token, NOW + TOKEN_LIFETIME_MS - 1));
    assert!(!manager.validate_auth_token(&token, NOW + TOKEN_LIFETIME_MS));
}

#[test]
fn cleanup_forgets_expired_tokens() {
    let mut manager = SecurityManager::new(true);
    manager.record_token("old".to_string(), NOW - 1);
    manager.record_token("new".to_string(), NOW + 10);
    manager.cleanup_expired_tokens(NOW);
    assert!(!manager.validate_auth_token("old", NOW - 5));
    assert!(manager.validate_auth_token("new", NOW));
}

#[test]
fn without_token_checks_everything_is_accepted() {
    let manager = create_security_manager(false);
    assert!(!manager.token_auth_enabled());
    assert!(manager.validate_auth_token("anything", NOW));
}

#[test]
fn root_is_uid_zero_and_privileges_drop_once() {
    assert!(SecurityManager::is_root(0));
    assert!(!SecurityManager::is_root(1000));
    let mut manager = SecurityManager::new(false);
    assert!(manager.drop_privileges());
    assert!(manager.privileges_dropped());
    assert!(!manager.drop_privileges());
}
