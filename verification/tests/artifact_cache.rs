use lsharp::artifact_cache::{
    artifacts_to_trim, digest_matches, envelope_header_bytes, is_artifact_file_name,
    open_envelope, seal_envelope, ByteTrim,
};

#[test]
fn envelope_header_lists_schemas_and_key() {
    assert_eq!(
        envelope_header_bytes("abc123"),
        b"lsharp-compile-artifact-v1\nlsharp-compile-key-v1\nabc123\n".to_vec()
    );
}

#[test]
fn sealed_envelope_reads_back_under_the_same_key() {
    let bytes = seal_envelope("key-one", b"digest", b"compiled-wasm");
    assert_eq!(
        bytes,
        b"lsharp-compile-artifact-v1\nlsharp-compile-key-v1\nkey-one\ndigest\ncompiled-wasm".to_vec()
    );
    assert_eq!(
        open_envelope(&bytes, "key-one"),
        Some((b"digest".to_vec(), b"compiled-wasm".to_vec()))
    );
}

#[test]
fn envelope_misses_when_key_changes() {
    let bytes = seal_envelope("key-one", b"digest", b"compiled-wasm");
    assert_eq!(open_envelope(&bytes, "key-two"), None);
    assert_eq!(open_envelope(&bytes, "key-on"), None);
    assert_eq!(open_envelope(&bytes, "key-one-more"), None);
}

#[test]
fn envelope_without_digest_line_is_a_miss() {
    let mut bytes = envelope_header_bytes("k");
    bytes.extend_from_slice(b"no-newline-here");
    assert_eq!(open_envelope(&bytes, "k"), None);
    assert_eq!(open_envelope(b"short", "k"), None);
}

#[test]
fn payload_may_hold_newlines() {
    let bytes = seal_envelope("k", b"d", b"line\nline\n");
    assert_eq!(open_envelope(&bytes, "k"), Some((b"d".to_vec(), b"line\nline\n".to_vec())));
}

#[test]
fn digest_must_match_the_payload_fingerprint() {
    assert!(digest_matches(b"0123abcd", "0123abcd"));
    assert!(!digest_matches(b"0123abce", "0123abcd"));
    assert!(!digest_matches(b"0123abc", "0123abcd"));
}

#[test]
fn artifact_file_names() {
    assert!(is_artifact_file_name("00ff.artifact"));
    assert!(is_artifact_file_name("a.b.artifact"));
    assert!(!is_artifact_file_name("notes.txt"));
    assert!(!is_artifact_file_name(".artifact"));
    assert!(!is_artifact_file_name("artifact"));
    assert!(!is_artifact_file_name("x.artifact.tmp"));
}

#[test]
fn trim_to_entries_removes_lowest_names_first() {
    let names = vec![
        "c.artifact".to_string(),
        "notes.txt".to_string(),
        "a.artifact".to_string(),
        "b.artifact".to_string(),
    ];
    assert_eq!(
        artifacts_to_trim(names.clone(), 1),
        vec!["a.artifact".to_string(), "b.artifact".to_string()]
    );
    assert_eq!(artifacts_to_trim(names.clone(), 3), Vec::<String>::new());
    assert_eq!(artifacts_to_trim(names, 0).len(), 3);
    assert_eq!(artifacts_to_trim(Vec::new(), 0), Vec::<String>::new());
}

#[test]
fn byte_trim_stops_once_under_budget() {
    let sizes = [10u64, 10, 10];
    let mut trim = ByteTrim::new(&sizes, 10);
    assert!(trim.over_budget());
    trim.record_removal(10);
    assert!(trim.over_budget());
    trim.record_removal(10);
    assert!(!trim.over_budget());
    assert_eq!(trim.removed(), 2);
}

#[test]
fn byte_trim_within_budget_needs_nothing() {
    let trim = ByteTrim::new(&[3u64, 4], 7);
    assert!(!trim.over_budget());
    assert_eq!(trim.removed(), 0);
    let saturated = ByteTrim::new(&[u64::MAX, 5], u64::MAX);
    assert!(!saturated.over_budget());
}
