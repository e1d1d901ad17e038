use cyberdeck::health::{audit_age, audit_keys, Finding, Severity};
use cyberdeck::models::LocalKey;

fn test_key(name: &str, algorithm: &str) -> LocalKey {
    LocalKey {
        name: name.to_string(),
        algorithm: algorithm.to_string(),
        comment: String::new(),
        fingerprint: "-".to_string(),
        public_key_path: "/tmp/nonexistent.pub".to_string(),
        private_key_path: Some("/tmp/nonexistent".to_string()),
    }
}

// The public key files of these keys do not exist, so their age is unknown.
fn audit(keys: &[LocalKey]) -> Vec<Finding> {
    let ages = vec![None; keys.len()];
    audit_keys(keys, &ages)
}

#[test]
fn ed25519_rated_good() {
    let key = test_key("mykey", "ssh-ed25519");
    let findings = audit(&[key]);
    assert!(findings.iter().any(|f| f.severity == Severity::Good));
}

#[test]
fn dsa_rated_critical() {
    let key = test_key("oldkey", "ssh-dss");
    let findings = audit(&[key]);
    assert!(findings.iter().any(|f| f.severity == Severity::Critical));
}

#[test]
fn rsa_rated_warn() {
    let key = test_key("rsaKey", "ssh-rsa");
    let findings = audit(&[key]);
    assert!(findings.iter().any(|f| f.severity == Severity::Warn));
}

#[test]
fn orphan_public_key_warned() {
    let key = LocalKey {
        name: "orphan".to_string(),
        algorithm: "ssh-ed25519".to_string(),
        comment: String::new(),
        fingerprint: "-".to_string(),
        public_key_path: "/tmp/nonexistent.pub".to_string(),
        private_key_path: None,
    };
    let findings = audit(&[key]);
    assert!(findings
        .iter()
        .any(|f| f.message.contains("no matching private key")));
}

#[test]
fn empty_keys_gives_info() {
    let findings = audit(&[]);
    assert_eq!(findings.len(), 1);
    assert_eq!(findings[0].severity, Severity::Info);
}

#[test]
fn empty_keys_message_is_exact() {
    let findings = audit(&[]);
    assert_eq!(findings[0].key_name, "(none)");
    assert_eq!(
        findings[0].message,
        "No local SSH keys found. Generate one with 'g' in the Keys tab."
    );
}

#[test]
fn ecdsa_is_info_not_dsa() {
    let findings = audit(&[test_key("ec", "ecdsa-sha2-nistp256")]);
    assert_eq!(findings.len(), 1);
    assert_eq!(findings[0].severity, Severity::Info);
    assert_eq!(
        findings[0].message,
        "ECDSA key (ecdsa-sha2-nistp256). Acceptable, though ed25519 is generally preferred."
    );
}

#[test]
fn algorithm_match_ignores_case() {
    let findings = audit(&[test_key("k", "SSH-DSS")]);
    assert_eq!(findings[0].severity, Severity::Critical);
    assert_eq!(
        findings[0].message,
        "DSA key detected (SSH-DSS). DSA is deprecated and considered insecure. Generate an ed25519 key as replacement."
    );
}

#[test]
fn unknown_algorithm_warned() {
    let findings = audit(&[test_key("k", "sk-something")]);
    assert_eq!(findings[0].severity, Severity::Warn);
    assert_eq!(
        findings[0].message,
        "Unknown key algorithm: sk-something. Verify this is acceptable."
    );
}

#[test]
fn ed25519_message_exact() {
    let findings = audit(&[test_key("k", "ssh-ed25519")]);
    assert_eq!(
        findings[0].message,
        "ed25519 key (ssh-ed25519) \u{2014} excellent choice. Modern, fast, and secure."
    );
}

#[test]
fn findings_sorted_worst_first_and_stable() {
    let mut orphan = test_key("b", "ssh-ed25519");
    orphan.private_key_path = None;
    let keys = vec![test_key("a", "ssh-ed25519"), orphan, test_key("c", "ssh-dss"), test_key("d", "ssh-rsa")];
    let findings = audit(&keys);
    let order: Vec<(Severity, String)> = findings
        .iter()
        .map(|f| (f.severity, f.key_name.clone()))
        .collect();
    assert_eq!(
        order,
        vec![
            (Severity::Critical, "c".to_string()),
            (Severity::Warn, "b".to_string()),
            (Severity::Warn, "d".to_string()),
            (Severity::Good, "a".to_string()),
            (Severity::Good, "b".to_string()),
        ]
    );
}

#[test]
fn old_keys_get_age_findings() {
    let keys = vec![test_key("old", "ssh-ed25519"), test_key("older", "ssh-ed25519")];
    let findings = audit_keys(&keys, &[Some(400), Some(1000)]);
    assert_eq!(findings.len(), 4);
    assert_eq!(findings[0].severity, Severity::Warn);
    assert_eq!(findings[0].key_name, "older");
    assert_eq!(
        findings[0].message,
        "Key is ~1000 days old (>2 years). Consider rotating for security hygiene."
    );
    assert_eq!(findings[1].severity, Severity::Info);
    assert_eq!(
        findings[1].message,
        "Key is ~400 days old (>1 year). Rotation recommended annually."
    );
}

#[test]
fn age_thresholds() {
    let name = "k".to_string();
    assert!(audit_age(&name, 365).is_none());
    assert_eq!(audit_age(&name, 366).unwrap().severity, Severity::Info);
    assert_eq!(audit_age(&name, 730).unwrap().severity, Severity::Info);
    assert_eq!(audit_age(&name, 731).unwrap().severity, Severity::Warn);
}

#[test]
fn finding_text_format() {
    let f = audit(&[test_key("mykey", "ssh-rsa")]).remove(0);
    assert_eq!(
        f.to_text(),
        "[WARN] mykey: RSA key (ssh-rsa). Consider migrating to ed25519 for better security and performance."
    );
    assert_eq!(Severity::Critical.label(), "CRIT");
}
