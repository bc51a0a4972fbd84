use scribe::audit::AuditLog;
use scribe::audit::generate_signature;
use scribe::parser::parse_intent;
use scribe::policy::check_permission;
use scribe::policy::encode_token;
use scribe::policy::glob_matches;
use scribe::policy::mint_capability_token;
use scribe::policy::revoke_token_nonce;
use scribe::policy::validate_token;
use scribe::policy::validate_token_at;
use scribe::types::CapabilityToken;
use scribe::types::CoreError;
use scribe::types::RiskScore;
use scribe::types::Scope;

const SECRET: &str = "test-signing-key";

fn mint(scopes: Vec<&str>, ttl: i64) -> CapabilityToken {
    mint_capability_token(
        scopes.into_iter().map(|s| s.to_string()).collect(),
        ttl,
        "session-1".to_string(),
    )
    .expect("mint should succeed")
}

#[test]
fn scope_parse_splits_three_parts() {
    let sc = Scope::parse("fs:write:/tmp/*").unwrap();
    assert_eq!(sc.action_type.as_str(), "fs");
    assert_eq!(sc.operation.as_str(), "write");
    assert_eq!(sc.resource_pattern.as_str(), "/tmp/*");
}

#[test]
fn scope_resource_may_contain_colons() {
    let sc = Scope::parse("fs:read:a:b:c").unwrap();
    assert_eq!(sc.resource_pattern.as_str(), "a:b:c");
}

#[test]
fn scope_with_too_few_parts_is_rejected() {
    assert!(matches!(Scope::parse("fs:write"), Err(CoreError::InvalidScope)));
}

#[test]
fn glob_is_anchored_and_star_spans() {
    assert!(glob_matches("/tmp/*", "/tmp/a.txt"));
    assert!(!glob_matches("/tmp/*", "/var/a.txt"));
    assert!(glob_matches("*", ""));
    assert!(glob_matches("a*c", "abc"));
    assert!(glob_matches("a*c", "ac"));
    assert!(!glob_matches("a*c", "abd"));
    assert!(!glob_matches("tmp", "/tmp"));
    assert!(glob_matches("*.txt", "notes.txt"));
}

#[test]
fn permission_follows_some_scope() {
    let token = mint(vec!["fs:write:/tmp/*", "net:send:*"], 60);
    assert!(check_permission(&token, "fs", "/tmp/a.txt"));
    assert!(!check_permission(&token, "fs", "/var/a.txt"));
    assert!(!check_permission(&token, "db", "/tmp/a.txt"));
    assert!(check_permission(&token, "net", "anything"));
}

#[test]
fn minted_token_fields() {
    let token = mint(vec!["fs:*:*"], 120);
    assert_eq!(token.ttl_seconds, 120);
    assert_eq!(token.expires_at, token.issued_at + 120);
    assert_eq!(token.session_id.as_str(), "session-1");
    assert_eq!(token.nonce.len(), 36);
    assert!(revoke_token_nonce(token.nonce.as_str()).is_ok());
}

#[test]
fn token_valid_immediately_and_until_expiry() {
    let token = mint(vec!["fs:*:/tmp/*"], 60);
    let s = encode_token(&token, SECRET);
    let at_mint = validate_token_at(s.as_str(), SECRET, token.issued_at).unwrap();
    assert_eq!(at_mint.nonce.as_str(), token.nonce.as_str());
    assert_eq!(at_mint.session_id.as_str(), "session-1");
    assert_eq!(at_mint.scopes.len(), 1);
    assert_eq!(at_mint.scopes[0].as_str(), "fs:*:/tmp/*");
    assert!(validate_token_at(s.as_str(), SECRET, token.expires_at).is_ok());
}

#[test]
fn token_invalid_strictly_after_expiry() {
    let token = mint(vec!["fs:*:*"], 60);
    let s = encode_token(&token, SECRET);
    let r = validate_token_at(s.as_str(), SECRET, token.expires_at + 1);
    assert!(matches!(r, Err(CoreError::TokenExpired)));
}

#[test]
fn token_with_wrong_secret_or_tampering_is_invalid() {
    let token = mint(vec!["fs:*:*"], 60);
    let s = encode_token(&token, SECRET);
    assert!(matches!(
        validate_token_at(s.as_str(), "other-secret", token.issued_at),
        Err(CoreError::TokenInvalid)
    ));
    let mut tampered = s.clone();
    tampered.push('a');
    assert!(matches!(
        validate_token_at(tampered.as_str(), SECRET, token.issued_at),
        Err(CoreError::TokenInvalid)
    ));
    assert!(matches!(
        validate_token_at("not a token", SECRET, 0),
        Err(CoreError::TokenInvalid)
    ));
}

#[test]
fn validate_token_uses_the_clock() {
    let token = mint(vec!["fs:*:*"], 3600);
    let s = encode_token(&token, SECRET);
    // minted moments ago with an hour of life: still valid by the clock
    assert!(validate_token(s.as_str(), SECRET).is_ok());
}

#[test]
fn risk_bands() {
    assert_eq!(RiskScore::Low.value(), 150);
    assert_eq!(RiskScore::Medium.value(), 500);
    assert_eq!(RiskScore::High.value(), 800);
    assert_eq!(RiskScore::Critical.value(), 950);
    assert!(matches!(RiskScore::from_value(150), RiskScore::Low));
    assert!(matches!(RiskScore::from_value(345), RiskScore::Medium));
    assert!(matches!(RiskScore::from_value(800), RiskScore::High));
    assert!(matches!(RiskScore::from_value(950), RiskScore::Critical));
}

#[test]
fn signature_is_the_documented_hash() {
    // SHA-256 of "abc" and of "abcdef", as any independent tool computes them
    assert_eq!(
        generate_signature("abc", "").as_str(),
        "ba7816bf8f01cfea414140de5dae2223b00361a396177a9cb410ff61f20015ad"
    );
    assert_eq!(
        generate_signature("abc", "def").as_str(),
        "bef57ec7f53a6d40beb640a780a639c83bc29ac8a9816f1fc6c5c6dcd93c4721"
    );
}

#[test]
fn audit_chain_links_and_detects_tampering() {
    let log = AuditLog::new("main".to_string());
    let plan = parse_intent("create file /tmp/a.txt", "/h", "/h").unwrap();
    let e1 = log.append_entry(&plan, None, "").unwrap();
    assert!(log.verify_link(&e1));
    assert_eq!(e1.action_id.as_deref(), Some(plan.schema.id.as_str()));
    let plan2 = parse_intent("delete file /tmp/a.txt", "/h", "/h").unwrap();
    let e2 = log.append_entry(&plan2, None, e1.signature.as_str()).unwrap();
    let chain = vec![e1, e2];
    assert!(log.verify_integrity(&chain));

    let mut broken = chain;
    broken[1].entry_json.push('x');
    assert!(!log.verify_integrity(&broken));
}

#[test]
fn audit_chain_rejects_reordering() {
    let log = AuditLog::new("main".to_string());
    let plan = parse_intent("create file /tmp/a.txt", "/h", "/h").unwrap();
    let e1 = log.append_entry(&plan, None, "").unwrap();
    let e2 = log.append_entry(&plan, None, e1.signature.as_str()).unwrap();
    assert!(!log.verify_integrity(&vec![e2, e1]));
    assert_eq!(log.get_history(10).unwrap().len(), 0);
}
