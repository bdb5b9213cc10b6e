use json_diff_fuzz::oracle::{
    classify, contains_bytes, is_whitelisted, out_of_range_needle, run_oracle, Outcome,
};

#[test]
fn agreement_on_known_good_input() {
    let data = br#"{"a":1,"b":[true,false,null]}"#.to_vec();
    let (outcome, report) = run_oracle(&data, true);
    assert_eq!(outcome, Outcome::Normal);
    assert!(report.decoded);
    assert!(report.serde_error.is_none(), "serde_json must accept the input");
    assert!(report.json_accepted, "the json crate must accept the input");
}

#[test]
fn agreement_on_malformed_input() {
    let data = br#"{"a":}"#.to_vec();
    let (outcome, report) = run_oracle(&data, true);
    assert_eq!(outcome, Outcome::Normal);
    assert!(report.decoded);
    assert!(report.serde_error.is_some(), "serde_json must reject the input");
    assert!(!report.json_accepted, "the json crate must reject the input");
}

#[test]
fn whitelisted_divergence_on_huge_number() {
    let data = br#"{"n": 1e400}"#.to_vec();
    let (outcome, report) = run_oracle(&data, true);
    assert!(report.decoded);
    assert!(report.serde_error.is_some(), "serde_json must reject the out-of-range literal");
    assert!(report.json_accepted, "the json crate must accept the out-of-range literal");
    assert_eq!(outcome, Outcome::Normal, "the divergence is whitelisted");
}

#[test]
fn unwhitelisted_divergence_is_a_crash() {
    let data = br#"{"n": 1e400}"#.to_vec();
    let (outcome, _report) = run_oracle(&data, false);
    assert_eq!(outcome, Outcome::Crash);
}

#[test]
fn non_utf8_input_is_normal() {
    let data = vec![0xffu8, 0xfe, 0x00, 0x80];
    let (outcome, report) = run_oracle(&data, true);
    assert_eq!(outcome, Outcome::Normal);
    assert!(!report.decoded);
}

#[test]
fn classify_matrix() {
    // both accept
    assert_eq!(classify(&None, true, true), Outcome::Normal);
    // both reject
    assert_eq!(classify(&Some(b"oops".to_vec()), false, true), Outcome::Normal);
    // serde accepts, json rejects: divergence
    assert_eq!(classify(&None, false, true), Outcome::Crash);
    // serde rejects, json accepts, unrelated message: divergence
    assert_eq!(classify(&Some(b"expected value".to_vec()), true, true), Outcome::Crash);
    // serde rejects with the whitelisted message, json accepts
    let msg = b"number out of range at line 1 column 11".to_vec();
    assert_eq!(classify(&Some(msg.clone()), true, true), Outcome::Normal);
    // same message, whitelist off
    assert_eq!(classify(&Some(msg), true, false), Outcome::Crash);
}

#[test]
fn whitelist_matches_the_marker_phrase() {
    assert!(is_whitelisted(&b"number out of range at line 1".to_vec()));
    assert!(is_whitelisted(&b"number out of range".to_vec()));
    assert!(!is_whitelisted(&b"number out of rang".to_vec()));
    assert!(!is_whitelisted(&b"expected value at line 1".to_vec()));
    assert!(!is_whitelisted(&b"".to_vec()));
}

#[test]
fn needle_spells_the_phrase() {
    assert_eq!(out_of_range_needle(), b"number out of range".to_vec());
}

#[test]
fn contains_bytes_cases() {
    let hay = b"abcde".to_vec();
    assert!(contains_bytes(&hay, &b"abc".to_vec()));
    assert!(contains_bytes(&hay, &b"cde".to_vec()));
    assert!(contains_bytes(&hay, &b"".to_vec()));
    assert!(contains_bytes(&hay, &b"abcde".to_vec()));
    assert!(!contains_bytes(&hay, &b"abd".to_vec()));
    assert!(!contains_bytes(&hay, &b"abcdef".to_vec()));
    assert!(!contains_bytes(&b"".to_vec(), &b"a".to_vec()));
}
