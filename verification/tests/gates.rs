//! The capability gate and the path and URL lists.

use lm_provision::capgate::CapabilityGate;
use lm_provision::exec::ExecError;
use lm_provision::policy::{HttpPolicy, PathPolicy};

#[test]
fn build_accepts_a_declared_subset_of_known_capabilities() {
    let gate = CapabilityGate::build(&vec!["sh.exec".to_string(), "fs.write".to_string()])
        .expect("a declared subset of KNOWN_CAPABILITIES must build");
    assert!(gate.is_granted("sh.exec"));
    assert!(gate.is_granted("fs.write"));
    assert!(!gate.is_granted("net.http_get"));
}

#[test]
fn build_rejects_an_unknown_declared_capability() {
    let err = CapabilityGate::build(&vec!["not.a.real.capability".to_string()])
        .expect_err("an unknown declared capability must fail fast");
    assert!(matches!(
        err,
        ExecError::CapabilityUnknown(ref name) if name == "not.a.real.capability"
    ));
}

#[test]
fn build_accepts_the_reserved_volume_attach_capability() {
    let gate = CapabilityGate::build(&vec!["mount.volume_attach".to_string()])
        .expect("the reserved mount.volume_attach declaration must build");
    assert!(gate.is_granted("mount.volume_attach"));
}

#[test]
fn empty_declaration_grants_nothing_but_still_builds() {
    let gate = CapabilityGate::build(&vec![]).expect("an empty declaration must build");
    assert!(!gate.is_granted("sh.exec"));
}

#[test]
fn require_fails_for_an_undeclared_capability() {
    let gate = CapabilityGate::build(&vec![]).expect("empty declaration builds");
    let err = gate
        .require("sh.exec")
        .expect_err("requiring an undeclared capability must fail");
    assert_eq!(
        err.to_string(),
        "capability 'sh.exec' not declared in profile.capabilities"
    );
}

#[test]
fn require_succeeds_for_a_declared_capability() {
    let gate = CapabilityGate::build(&vec!["sh.exec".to_string()]).expect("build succeeds");
    gate.require("sh.exec")
        .expect("requiring a declared capability must pass");
}

// -----------------------------------------------------------------
// PathPolicy
// -----------------------------------------------------------------

#[test]
fn path_allows_root_and_nested_children() {
    let policy = PathPolicy::new(&vec!["/workspace".to_string()]);
    assert!(policy.is_allowed("/workspace"));
    assert!(policy.is_allowed("/workspace/models/foo.bin"));
}

#[test]
fn path_rejects_a_non_component_aligned_prefix() {
    let policy = PathPolicy::new(&vec!["/workspace".to_string()]);
    assert!(!policy.is_allowed("/workspace_x"));
    assert!(!policy.is_allowed("/workspace_x/inner"));
}

#[test]
fn path_rejects_relative_and_dotdot_segments() {
    let policy = PathPolicy::new(&vec!["/workspace".to_string()]);
    assert!(!policy.is_allowed("workspace/foo"));
    assert!(!policy.is_allowed("/workspace/../etc/passwd"));
    assert!(!policy.is_allowed("/../secret"));
}

#[test]
fn path_rejects_paths_outside_every_root() {
    let policy = PathPolicy::new(&vec!["/workspace".to_string(), "/tmp".to_string()]);
    assert!(policy.is_allowed("/tmp/scratch"));
    assert!(!policy.is_allowed("/etc/passwd"));
}

#[test]
fn path_check_returns_the_offending_path_on_rejection() {
    let policy = PathPolicy::new(&vec!["/workspace".to_string()]);
    let err = policy
        .check("/etc/passwd")
        .expect_err("outside-root path must be rejected");
    match err {
        ExecError::PathDenied { path } => assert_eq!(path, "/etc/passwd"),
        other => panic!("expected PathDenied, got {other:?}"),
    }
}

#[test]
fn path_empty_root_set_rejects_every_path() {
    let policy = PathPolicy::new(&vec![]);
    assert!(!policy.is_allowed("/workspace"));
    assert!(!policy.is_allowed("/tmp/x"));
}

#[test]
fn path_root_with_trailing_slash_is_treated_as_component_aligned() {
    let policy = PathPolicy::new(&vec!["/workspace/".to_string()]);
    assert!(policy.is_allowed("/workspace/models/foo"));
    // Exact match without trailing slash is not equal and does not
    // start with `/workspace//` — a bare root written with a
    // trailing slash covers only strict children.
    assert!(!policy.is_allowed("/workspace"));
}

// -----------------------------------------------------------------
// HttpPolicy
// -----------------------------------------------------------------

#[test]
fn http_literal_pattern_requires_exact_authority_and_path_prefix() {
    let policy = HttpPolicy::new(&vec!["https://huggingface.co/models/".to_string()]);
    assert!(policy.is_allowed("https://huggingface.co/models/foo/bar"));
    assert!(!policy.is_allowed("https://huggingface.co/other/foo"));
    assert!(!policy.is_allowed("https://huggingface.co.evil.com/models/foo"));
}

#[test]
fn http_pattern_without_path_matches_any_path_on_the_authority() {
    let policy = HttpPolicy::new(&vec!["https://example.com".to_string()]);
    assert!(policy.is_allowed("https://example.com/"));
    assert!(policy.is_allowed("https://example.com/get"));
    assert!(policy.is_allowed("https://example.com/deep/path"));
    assert!(!policy.is_allowed("https://other.example/"));
}

#[test]
fn http_wildcard_matches_a_subdomain_and_carries_the_path_prefix() {
    let policy = HttpPolicy::new(&vec!["https://*.b2.backblazeb2.com".to_string()]);
    assert!(policy.is_allowed("https://f001.b2.backblazeb2.com/file/bucket/path"));
}

#[test]
fn http_wildcard_never_matches_into_the_path() {
    let policy = HttpPolicy::new(&vec!["https://*.b2.backblazeb2.com".to_string()]);
    assert!(!policy.is_allowed("https://attacker.com/https://f001.b2.backblazeb2.com/smuggled"));
    assert!(!policy.is_allowed("https://evil.b2.backblazeb2.com.attacker.com/x"));
}

#[test]
fn http_scheme_mismatch_is_rejected() {
    let policy = HttpPolicy::new(&vec!["https://example.com".to_string()]);
    assert!(!policy.is_allowed("http://example.com/"));
}

#[test]
fn http_check_returns_the_offending_url_on_rejection() {
    let policy = HttpPolicy::new(&vec!["https://huggingface.co/".to_string()]);
    let err = policy
        .check("https://evil.example.com/")
        .expect_err("unmatched url must be rejected");
    match err {
        ExecError::HttpDenied { url } => assert_eq!(url, "https://evil.example.com/"),
        other => panic!("expected HttpDenied, got {other:?}"),
    }
}

#[test]
fn http_empty_allowlist_rejects_every_url() {
    let policy = HttpPolicy::new(&vec![]);
    assert!(!policy.is_allowed("https://example.com/"));
}

#[test]
fn http_malformed_url_without_scheme_is_rejected() {
    let policy = HttpPolicy::new(&vec!["https://example.com".to_string()]);
    assert!(!policy.is_allowed("not-a-url"));
}

#[test]
fn http_wildcard_stays_in_the_host() {
    let policy = HttpPolicy::new(&vec!["https://*.b2.backblazeb2.com".to_string()]);
    for url in [
        "https://attacker.com?x=.b2.backblazeb2.com",
        "https://attacker.com#.b2.backblazeb2.com",
        "https://attacker.com/.b2.backblazeb2.com",
        "https://user@f001.b2.backblazeb2.com/file",
        "https://attacker.com?x=.b2.backblazeb2.com/file/bucket",
    ] {
        assert!(!policy.is_allowed(url), "{url}");
        match policy.check(url) {
            Err(ExecError::HttpDenied { url: denied }) => assert_eq!(denied, url),
            other => panic!("expected HttpDenied, got {other:?}"),
        }
    }
    for url in [
        "https://f001.b2.backblazeb2.com/file?x=1#top",
        "https://a.b.b2.backblazeb2.com",
    ] {
        assert!(policy.is_allowed(url), "{url}");
    }
}
