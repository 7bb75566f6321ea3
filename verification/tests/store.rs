use device_auth::config::{Config, ConfigError, ConfigProfile};
use device_auth::json::{decode_config, encode_config};

fn to_doc(s: &str) -> Vec<char> {
    s.chars().collect()
}

fn doc_string(doc: &Vec<char>) -> String {
    doc.iter().collect()
}

#[test]
fn new_profile_is_uninitialized_and_invalid() {
    let p = ConfigProfile::new(String::from("default"));
    assert_eq!(p.name, "default");
    assert_eq!(p.token_type, "Bearer");
    assert!(p.vendor_id.is_none());
    assert!(p.access_token.is_none());
    assert!(p.refresh_token.is_none());
    assert!(p.expires_at.is_none());
    assert!(!p.is_initialized());
    assert!(!p.is_valid_at(0));
    assert!(!p.is_valid());
}

#[test]
fn init_at_sets_all_lifecycle_fields_together() {
    let mut p = ConfigProfile::new(String::from("default"));
    p.init_at(
        String::from("acc"),
        String::from("ref"),
        3600,
        String::from("vendor-1"),
        1_000_000,
    );
    assert_eq!(p.access_token.as_deref(), Some("acc"));
    assert_eq!(p.refresh_token.as_deref(), Some("ref"));
    assert_eq!(p.vendor_id.as_deref(), Some("vendor-1"));
    assert_eq!(p.expires_at, Some(1_003_600));
    assert_eq!(p.name, "default");
    assert_eq!(p.token_type, "Bearer");
    assert!(p.is_initialized());
}

#[test]
fn validity_is_strict_at_the_expiry_instant() {
    let mut p = ConfigProfile::new(String::from("p"));
    p.init_at(String::from("a"), String::from("r"), 10, String::from("v"), 100);
    assert_eq!(p.expires_at, Some(110));
    assert!(p.is_valid_at(109));
    assert!(!p.is_valid_at(110));
    assert!(!p.is_valid_at(111));
}

#[test]
fn init_saturates_at_the_largest_timestamp() {
    let mut p = ConfigProfile::new(String::from("p"));
    p.init_at(String::from("a"), String::from("r"), u64::MAX, String::from("v"), 5);
    assert_eq!(p.expires_at, Some(u64::MAX));
}

#[test]
fn get_profile_is_exact_match_only() {
    let mut cfg = Config::empty();
    cfg.add_profile(&ConfigProfile::new(String::from("Work"))).unwrap();
    assert!(cfg.get_profile("Work").is_some());
    assert!(cfg.get_profile("work").is_none());
    assert!(cfg.get_profile("Wor").is_none());
    assert!(cfg.get_profile("").is_none());
}

#[test]
fn add_profile_duplicate_fails_and_leaves_store_unchanged() {
    let mut cfg = Config::empty();
    cfg.add_profile(&ConfigProfile::new(String::from("default"))).unwrap();
    let before = encode_config(&cfg);

    let mut dup = ConfigProfile::new(String::from("default"));
    dup.init_at(String::from("a"), String::from("r"), 60, String::from("v"), 0);
    let err = cfg.add_profile(&dup).unwrap_err();
    assert_eq!(err, ConfigError::AlreadyExists);

    let after = encode_config(&cfg);
    assert_eq!(doc_string(&before), doc_string(&after));

    // The persisted document still reloads to the single registered profile.
    let reloaded = decode_config(&after).unwrap();
    assert_eq!(reloaded.len(), 1);
    assert!(reloaded.get_profile("default").unwrap().access_token.is_none());
}

#[test]
fn update_profile_tokens_overwrites_the_quadruple() {
    let mut cfg = Config::empty();
    cfg.add_profile(&ConfigProfile::new(String::from("main"))).unwrap();
    cfg.update_profile_tokens_at(
        "main",
        String::from("tok-2"),
        String::from("ref-2"),
        120,
        String::from("vend-2"),
        1000,
    )
    .unwrap();
    let p = cfg.get_profile("main").unwrap();
    assert_eq!(p.access_token.as_deref(), Some("tok-2"));
    assert_eq!(p.refresh_token.as_deref(), Some("ref-2"));
    assert_eq!(p.vendor_id.as_deref(), Some("vend-2"));
    assert_eq!(p.expires_at, Some(1120));
    assert_eq!(p.name, "main");
    assert_eq!(p.token_type, "Bearer");
}

#[test]
fn update_profile_tokens_unknown_name_is_not_found() {
    let mut cfg = Config::empty();
    let err = cfg
        .update_profile_tokens_at(
            "ghost",
            String::from("a"),
            String::from("r"),
            1,
            String::from("v"),
            0,
        )
        .unwrap_err();
    assert_eq!(err, ConfigError::NotFound);
    assert_eq!(cfg.len(), 0);
}

#[test]
fn empty_store_encodes_to_the_exact_document() {
    let cfg = Config::empty();
    assert_eq!(doc_string(&encode_config(&cfg)), "{\n  \"profiles\": []\n}");
}

#[test]
fn one_profile_encodes_to_the_exact_document() {
    let mut cfg = Config::empty();
    let mut p = ConfigProfile::new(String::from("main"));
    p.init_at(String::from("tok"), String::from("ref"), 100, String::from("v1"), 900);
    cfg.add_profile(&p).unwrap();
    assert_eq!(
        doc_string(&encode_config(&cfg)),
        "{\n  \"profiles\": [\n    {\n      \"name\": \"main\",\n      \"vendor_id\": \"v1\",\n      \
         \"access_token\": \"tok\",\n      \"refresh_token\": \"ref\",\n      \
         \"token_type\": \"Bearer\",\n      \"expires_at\": 1000\n    }\n  ]\n}"
    );
}

#[test]
fn store_round_trips_through_the_document() {
    let mut cfg = Config::empty();
    let empty = ConfigProfile::new(String::from("fresh"));
    cfg.add_profile(&empty).unwrap();
    let mut p = ConfigProfile::new(String::from("na\"me\\x"));
    p.init_at(
        String::from("to\\k\"en"),
        String::from("refresh-token"),
        3600,
        String::from("vendor"),
        1_700_000_000,
    );
    cfg.add_profile(&p).unwrap();

    let doc = encode_config(&cfg);
    let reloaded = decode_config(&doc).unwrap();
    assert_eq!(reloaded.len(), 2);
    let q0 = reloaded.profile_at(0);
    assert_eq!(q0.name, "fresh");
    assert!(q0.access_token.is_none());
    assert!(q0.expires_at.is_none());
    let q1 = reloaded.profile_at(1);
    assert_eq!(q1.name, "na\"me\\x");
    assert_eq!(q1.access_token.as_deref(), Some("to\\k\"en"));
    assert_eq!(q1.refresh_token.as_deref(), Some("refresh-token"));
    assert_eq!(q1.vendor_id.as_deref(), Some("vendor"));
    assert_eq!(q1.token_type, "Bearer");
    assert_eq!(q1.expires_at, Some(1_700_003_600));

    // And a second trip is byte-for-byte identical.
    let doc2 = encode_config(&reloaded);
    assert_eq!(doc_string(&doc), doc_string(&doc2));
}

#[test]
fn garbage_document_is_malformed() {
    assert_eq!(decode_config(&to_doc("not json at all")).unwrap_err(), ConfigError::Malformed);
    assert_eq!(decode_config(&to_doc("")).unwrap_err(), ConfigError::Malformed);
    assert_eq!(
        decode_config(&to_doc("{\n  \"profiles\": []\n}trailing")).unwrap_err(),
        ConfigError::Malformed
    );
}

#[test]
fn duplicate_names_in_document_are_malformed() {
    // Two well-formed profiles whose names collide: take a valid document
    // and rename the second profile onto the first.
    let mut cfg = Config::empty();
    cfg.add_profile(&ConfigProfile::new(String::from("a"))).unwrap();
    cfg.add_profile(&ConfigProfile::new(String::from("b"))).unwrap();
    let text = doc_string(&encode_config(&cfg));
    let tampered = text.replace("\"name\": \"b\"", "\"name\": \"a\"");
    assert_eq!(decode_config(&to_doc(&tampered)).unwrap_err(), ConfigError::Malformed);
}

#[test]
fn partial_credentials_in_document_are_malformed() {
    // An access token without its refresh token breaks the lifecycle
    // invariant and must be refused on reload.
    let mut cfg = Config::empty();
    let mut p = ConfigProfile::new(String::from("a"));
    p.init_at(String::from("tok"), String::from("ref"), 60, String::from("v"), 0);
    cfg.add_profile(&p).unwrap();
    let text = doc_string(&encode_config(&cfg));
    let tampered = text.replace("\"refresh_token\": \"ref\"", "\"refresh_token\": null");
    assert_eq!(decode_config(&to_doc(&tampered)).unwrap_err(), ConfigError::Malformed);
}
