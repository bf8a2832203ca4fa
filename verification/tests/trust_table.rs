use subspace_conduit::digest::{checksums_agree, fingerprint, transfer_checksum, Sha256State};
use subspace_conduit::trust::{
    probe_result, strict_check, tofu_check, trust_server, trust_status, KnownHostsStore, StoreError,
    StrictRejection, TofuDecision, TrustStatus,
};

#[test]
fn fingerprint_is_hex_sha256() {
    assert_eq!(
        fingerprint(b"abc"),
        "ba7816bf8f01cfea414140de5dae2223b00361a396177a9cb410ff61f20015ad"
    );
    assert_eq!(
        fingerprint(b""),
        "e3b0c44298fc1c149afbf4c8996fb92427ae41e4649b934ca495991b7852b855"
    );
}

#[test]
fn transfer_checksum_is_hex_sha256_of_all_fed() {
    let mut s = Sha256State::new();
    s.absorb(b"a");
    s.absorb(b"");
    s.absorb(b"bc");
    assert_eq!(transfer_checksum(s), "ba7816bf8f01cfea414140de5dae2223b00361a396177a9cb410ff61f20015ad");
    assert_eq!(
        transfer_checksum(Sha256State::new()),
        "e3b0c44298fc1c149afbf4c8996fb92427ae41e4649b934ca495991b7852b855"
    );
}

#[test]
fn checksums_compare_exactly() {
    assert!(checksums_agree(&"ab".to_string(), &"ab".to_string()));
    assert!(!checksums_agree(&"ab".to_string(), &"AB".to_string()));
}

#[test]
fn new_store_knows_nothing() {
    let s = KnownHostsStore::new();
    assert_eq!(s.known_fingerprint("host"), None);
}

#[test]
fn trusted_fingerprint_is_known() {
    let mut s = KnownHostsStore::new();
    s.trust("host-a", "f1").unwrap();
    s.trust("host-b", "f2").unwrap();
    assert_eq!(s.known_fingerprint("host-a"), Some("f1".to_string()));
    assert_eq!(s.known_fingerprint("host-b"), Some("f2".to_string()));
    s.trust("host-a", "f3").unwrap();
    assert_eq!(s.known_fingerprint("host-a"), Some("f3".to_string()));
    assert_eq!(s.known_fingerprint("host-b"), Some("f2".to_string()));
    assert_eq!(s.known_fingerprint("host-c"), None);
}

#[test]
fn trust_gives_the_json_to_save() {
    let mut s = KnownHostsStore::new();
    let text = s.trust("h", "fp").unwrap();
    let v: serde_json::Value = serde_json::from_str(&text).unwrap();
    assert_eq!(v["h"], "fp");
    assert_eq!(s.to_json().unwrap(), text);
}

#[test]
fn json_roundtrip() {
    let mut s = KnownHostsStore::new();
    s.trust("a", "1").unwrap();
    s.trust("b", "2").unwrap();
    let text = s.to_json().unwrap();
    let t = KnownHostsStore::from_json(&text).unwrap();
    assert_eq!(t.known_fingerprint("a"), Some("1".to_string()));
    assert_eq!(t.known_fingerprint("b"), Some("2".to_string()));
}

#[test]
fn reads_the_file_format() {
    let t = KnownHostsStore::from_json("{\n  \"subspace-conduit.local\": \"abcd\"\n}").unwrap();
    assert_eq!(t.known_fingerprint("subspace-conduit.local"), Some("abcd".to_string()));
}

#[test]
fn unreadable_json_is_an_error() {
    assert_eq!(KnownHostsStore::from_json("[1, 2]").unwrap_err(), StoreError::Unreadable);
    assert_eq!(KnownHostsStore::from_json("not json").unwrap_err(), StoreError::Unreadable);
}

#[test]
fn trust_status_cases() {
    let mut s = KnownHostsStore::new();
    assert_eq!(trust_status(&s, "h", &"x".to_string()), TrustStatus::Unknown);
    trust_server(&mut s, "h", "x").unwrap();
    assert_eq!(trust_status(&s, "h", &"x".to_string()), TrustStatus::Trusted);
    assert_eq!(
        trust_status(&s, "h", &"y".to_string()),
        TrustStatus::Mismatch { expected: "x".to_string() }
    );
}

#[test]
fn probe_reports_what_it_saw() {
    let mut s = KnownHostsStore::new();
    s.trust("h", "x").unwrap();
    let r = probe_result(&s, "h".to_string(), "y".to_string());
    assert_eq!(r.host_key, "h");
    assert_eq!(r.fingerprint, "y");
    assert_eq!(r.status, TrustStatus::Mismatch { expected: "x".to_string() });
}

#[test]
fn strict_check_cases() {
    let mut s = KnownHostsStore::new();
    assert_eq!(strict_check(&s, "h", &"x".to_string()), Err(StrictRejection::NotTrusted));
    s.trust("h", "x").unwrap();
    assert_eq!(strict_check(&s, "h", &"x".to_string()), Ok(()));
    assert_eq!(strict_check(&s, "h", &"z".to_string()), Err(StrictRejection::FingerprintMismatch));
}

#[test]
fn tofu_check_cases() {
    let mut s = KnownHostsStore::new();
    assert_eq!(tofu_check(&s, "h", &"x".to_string()), TofuDecision::AskUser);
    s.trust("h", "x").unwrap();
    assert_eq!(tofu_check(&s, "h", &"x".to_string()), TofuDecision::Accept);
    assert_eq!(
        tofu_check(&s, "h", &"q".to_string()),
        TofuDecision::Reject { expected: "x".to_string() }
    );
}
