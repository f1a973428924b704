//! What a URI resolves to.

use lm_provision::scheme::{download_url, resolve, Transfer};

#[test]
fn an_https_source_passes_through_verbatim() {
    assert_eq!(
        download_url("net_transfer", "https://example.com/a.bin", None).unwrap(),
        "https://example.com/a.bin"
    );
}

#[test]
fn an_unpinned_hf_uri_resolves_to_main() {
    assert_eq!(
        download_url("sync_pull", "hf://owner/repo/model.bin", None).unwrap(),
        "https://huggingface.co/owner/repo/resolve/main/model.bin"
    );
}

#[test]
fn a_url_carried_revision_wins_over_the_payload_field() {
    assert_eq!(
        download_url("sync_pull", "hf://owner/repo@abc123/model.bin", Some("v1")).unwrap(),
        "https://huggingface.co/owner/repo/resolve/abc123/model.bin"
    );
}

#[test]
fn the_payload_revision_is_used_when_the_uri_pins_none() {
    assert_eq!(
        download_url("sync_pull", "hf://owner/repo/model.bin", Some("v1")).unwrap(),
        "https://huggingface.co/owner/repo/resolve/v1/model.bin"
    );
}

#[test]
fn a_nested_path_survives_the_rewrite() {
    assert_eq!(
        download_url("sync_pull", "hf://owner/repo/sub/dir/model.bin", None).unwrap(),
        "https://huggingface.co/owner/repo/resolve/main/sub/dir/model.bin"
    );
}

#[test]
fn an_hf_uri_without_a_file_path_is_an_error() {
    let err = download_url("sync_pull", "hf://owner/repo", None).unwrap_err();
    assert!(
        err.to_string().contains("missing the file path segment"),
        "{}",
        err.to_string()
    );
}

/// The b2 gap is named, not guessed: no profile field carries the
/// deployment's download endpoint.
#[test]
fn a_public_b2_source_names_the_missing_endpoint() {
    let err = download_url("sync_pull", "b2://bucket/a.bin", None).unwrap_err();
    let rendered = err.to_string();
    assert!(rendered.contains("download endpoint"), "{rendered}");
    assert!(rendered.contains("credential `env`"), "{rendered}");
}

#[test]
fn other_schemes_stay_rejected() {
    for src in ["gs://b/o", "s3://b/o", "ftp://h/p", "file:///tmp/x"] {
        assert!(
            download_url("net_transfer", src, None).is_err(),
            "{src} must not resolve"
        );
    }
}

#[test]
fn the_direction_follows_the_scheme_side() {
    assert_eq!(
        resolve(
            "net_transfer",
            "https://example.com/a.bin",
            "/workspace/a.bin"
        )
        .unwrap(),
        Transfer::Download {
            url: "https://example.com/a.bin".to_string()
        }
    );
    assert_eq!(
        resolve(
            "net_transfer",
            "/workspace/a.bin",
            "https://example.com/a.bin"
        )
        .unwrap(),
        Transfer::Upload {
            url: "https://example.com/a.bin".to_string()
        }
    );
}

#[test]
fn a_pair_with_both_or_neither_scheme_is_undetermined() {
    assert!(resolve("net_transfer", "https://h/a", "b2://b/a").is_err());
    assert!(resolve("net_transfer", "/tmp/a", "/tmp/b").is_err());
}

#[test]
fn a_cli_routed_upload_destination_says_so() {
    let err = resolve("net_transfer", "/workspace/a.bin", "hf://owner/repo/a.bin").unwrap_err();
    assert!(err.to_string().contains("CLI-routed"), "{}",
        err.to_string());
}
