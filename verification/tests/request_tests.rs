use tokei_badge::request::{build_repo_url, normalize_domain};

#[test]
fn plain_domain_passes_through() {
    assert_eq!(normalize_domain("github.com").unwrap(), "github.com");
}

#[test]
fn bare_domain_gets_dot_com() {
    assert_eq!(normalize_domain("github").unwrap(), "github.com");
}

#[test]
fn percent_encoded_domain_is_decoded() {
    assert_eq!(normalize_domain("gitlab%2Ecom").unwrap(), "gitlab.com");
    assert_eq!(normalize_domain("git%2Dhost.org").unwrap(), "git-host.org");
}

#[test]
fn invalid_utf8_encoding_is_rejected() {
    assert!(normalize_domain("%ff%fe").is_none());
}

#[test]
fn repository_url_layout() {
    assert_eq!(
        build_repo_url("github.com", "alice", "tool"),
        "https://github.com/alice/tool"
    );
}
