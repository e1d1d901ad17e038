use cyberdeck::keys::{
    check_existing_public_key, expand_home_path, expand_home_path_in, fingerprint_from_output,
    import_key_name, join_path, parse_pubkey_metadata, read_public_key_text, scan_key_record,
    sort_keys_by_name, validate_key_name, KeyError,
};

#[test]
fn parses_pubkey_metadata() {
    let line = "ssh-ed25519 AAAAC3NzaC1lZDI1NTE5AAAAICs comment@example";
    let (alg, comment) = parse_pubkey_metadata(line);
    assert_eq!(alg, "ssh-ed25519");
    assert_eq!(comment, "comment@example");
}

#[test]
fn expands_home_path() {
    let path = expand_home_path("~/example_key").expect("home path expansion failed");
    assert!(path.contains("example_key"));
    assert_ne!(path, "~/example_key");
}

#[test]
fn rejects_bad_key_names() {
    assert!(validate_key_name("").is_err());
    assert!(validate_key_name("../bad").is_err());
    assert!(validate_key_name("a/b").is_err());
}

#[test]
fn key_name_errors_and_trimming() {
    assert_eq!(validate_key_name("   "), Err(KeyError::EmptyName));
    assert_eq!(validate_key_name("a\\b"), Err(KeyError::NameHasSeparator));
    assert_eq!(validate_key_name("a\0b"), Err(KeyError::NameHasNul));
    assert_eq!(validate_key_name("  work  "), Ok("work".to_string()));
}

#[test]
fn pubkey_metadata_edge_cases() {
    assert_eq!(
        parse_pubkey_metadata(""),
        ("unknown".to_string(), String::new())
    );
    assert_eq!(
        parse_pubkey_metadata("ssh-rsa AAAA"),
        ("ssh-rsa".to_string(), String::new())
    );
    assert_eq!(
        parse_pubkey_metadata("ssh-rsa  AAAA  my   laptop\tkey "),
        ("ssh-rsa".to_string(), "my laptop key".to_string())
    );
}

#[test]
fn home_expansion_rules() {
    let home = Some("/home/u".to_string());
    assert_eq!(expand_home_path_in("~", home.clone()), Ok("/home/u".to_string()));
    assert_eq!(expand_home_path_in(" ~/k ", home.clone()), Ok("/home/u/k".to_string()));
    assert_eq!(expand_home_path_in("~//abs", home.clone()), Ok("/abs".to_string()));
    assert_eq!(expand_home_path_in("~user/k", home.clone()), Ok("~user/k".to_string()));
    assert_eq!(expand_home_path_in("  ", home.clone()), Err(KeyError::EmptyPath));
    assert_eq!(expand_home_path_in("~/k", None), Err(KeyError::NoHomeDirectory));
    assert_eq!(expand_home_path_in("/etc/x", None), Ok("/etc/x".to_string()));
    assert_eq!(expand_home_path_in("~/", Some("/h/".to_string())), Ok("/h/".to_string()));
}

#[test]
fn path_join_rules() {
    assert_eq!(join_path("/a", "b"), "/a/b");
    assert_eq!(join_path("/a/", "b"), "/a/b");
    assert_eq!(join_path("/a", "/b"), "/b");
    assert_eq!(join_path("", "b"), "b");
}

#[test]
fn public_key_text_is_trimmed() {
    assert_eq!(read_public_key_text("  ssh-ed25519 AAAA x\n"), Ok("ssh-ed25519 AAAA x".to_string()));
    assert_eq!(read_public_key_text(" \n\t"), Err(KeyError::EmptyPublicKey));
}

#[test]
fn fingerprint_is_second_word() {
    assert_eq!(
        fingerprint_from_output("256 SHA256:abc comment (ED25519)\n"),
        Some("SHA256:abc".to_string())
    );
    assert_eq!(fingerprint_from_output("256"), None);
}

#[test]
fn imported_key_name_rules() {
    assert_eq!(import_key_name(Some("  work "), Some("id".to_string())), Ok("work".to_string()));
    assert_eq!(import_key_name(Some("   "), Some("id".to_string())), Ok("id".to_string()));
    assert_eq!(import_key_name(None, None), Err(KeyError::NoKeyName));
    assert_eq!(import_key_name(Some("a/b"), None), Err(KeyError::NameHasSeparator));
}

#[test]
fn existing_public_key_must_match() {
    assert_eq!(check_existing_public_key("ssh-ed25519 AAAA\n", "ssh-ed25519 AAAA"), Ok(()));
    assert_eq!(check_existing_public_key("ssh-ed25519 BBBB\n", "ssh-ed25519 AAAA"), Err(KeyError::KeyExists));
}

#[test]
fn scanned_keys_are_sorted_by_name() {
    let make = |path: &str, stem: &str| {
        scan_key_record(
            path.to_string(),
            Some(stem.to_string()),
            "ssh-ed25519 AAAA me@host\n",
            None,
            None,
        )
        .unwrap()
    };
    let keys = vec![make("/s/zeta.pub", "zeta"), make("/s/alpha.pub", "alpha"), make("/s/Beta.pub", "Beta")];
    let sorted = sort_keys_by_name(keys);
    let names: Vec<&str> = sorted.iter().map(|k| k.name.as_str()).collect();
    assert_eq!(names, vec!["Beta", "alpha", "zeta"]);
    assert_eq!(sorted[0].fingerprint, "-");
    assert_eq!(sorted[0].comment, "me@host");
    assert!(scan_key_record("/s/e.pub".to_string(), None, "  \n", None, None).is_none());
}

#[test]
fn key_error_messages() {
    assert_eq!(KeyError::NameHasSeparator.message(), "key name cannot contain path separators");
    assert_eq!(KeyError::NameHasNul.message(), "key name cannot contain null bytes");
    assert_eq!(KeyError::EmptyName.message(), "key name cannot be empty");
}
