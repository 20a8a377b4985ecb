use tokei_badge::resolver::{
    branch_names, default_branch, first_oid, resolve_reference, RemoteRef, ResolveError,
};

fn rref(name: &str, oid: &str) -> RemoteRef {
    RemoteRef { name: name.to_string(), oid: oid.to_string() }
}

fn sha(c: char) -> String {
    c.to_string().repeat(40)
}

#[test]
fn branch_names_strip_the_heads_prefix() {
    let refs = vec![
        rref("HEAD", &sha('0')),
        rref("refs/heads/main", &sha('a')),
        rref("refs/tags/v1.0", &sha('b')),
        rref("refs/heads/dev", &sha('c')),
    ];
    let names = branch_names(&refs);
    assert_eq!(names, vec!["main".to_string(), "dev".to_string()]);
}

#[test]
fn default_branch_prefers_main_then_master_then_first() {
    let a = vec!["develop".to_string(), "main".to_string(), "master".to_string()];
    assert_eq!(default_branch(&a), "main");
    let b = vec!["develop".to_string(), "master".to_string()];
    assert_eq!(default_branch(&b), "master");
    let c = vec!["develop".to_string()];
    assert_eq!(default_branch(&c), "develop");
}

#[test]
fn first_matching_ref_wins() {
    let refs = vec![
        rref("refs/heads/main", &sha('1')),
        rref("refs/heads/main", &sha('2')),
    ];
    assert_eq!(first_oid(&refs, "refs/heads/main"), Some(sha('1')));
    assert_eq!(first_oid(&refs, "refs/heads/none"), None);
}

#[test]
fn unknown_branch_is_rejected_with_fixed_message() {
    let refs = vec![rref("refs/heads/main", &sha('a'))];
    let r = resolve_reference("https://example.com/a/b", "nonexistent", &refs);
    match r {
        Err(e) => {
            assert!(matches!(e, ResolveError::UnknownBranch));
            assert_eq!(e.http_message(), "Invalid SHA provided.");
        }
        Ok(_) => panic!("expected an error for an unknown branch"),
    }
}

#[test]
fn empty_ref_list_means_no_branches() {
    let refs = vec![rref("refs/tags/v1", &sha('a'))];
    let r = resolve_reference("https://example.com/a/b", "", &refs);
    match r {
        Err(e) => {
            assert!(matches!(e, ResolveError::NoBranches));
            assert_eq!(e.http_message(), "Invalid SHA provided.");
        }
        Ok(_) => panic!("expected an error without branches"),
    }
}

#[test]
fn short_commit_id_is_rejected() {
    let refs = vec![rref("refs/heads/main", "abc123")];
    let r = resolve_reference("https://example.com/a/b", "", &refs);
    match r {
        Err(e) => {
            assert!(matches!(e, ResolveError::InvalidCommitId));
            assert_eq!(e.http_message(), "Invalid SHA provided.");
        }
        Ok(_) => panic!("expected an error for a short commit id"),
    }
}

#[test]
fn requested_branch_resolves_to_its_commit() {
    let refs = vec![
        rref("refs/heads/main", &sha('a')),
        rref("refs/heads/dev", &sha('b')),
    ];
    let r = resolve_reference("https://example.com/a/b", "dev", &refs).expect("resolves");
    assert_eq!(r.url, "https://example.com/a/b");
    assert_eq!(r.branch, "dev");
    assert_eq!(r.commit, sha('b'));
}

#[test]
fn empty_request_resolves_the_default_branch() {
    let refs = vec![
        rref("refs/heads/dev", &sha('b')),
        rref("refs/heads/master", &sha('c')),
    ];
    let r = resolve_reference("https://example.com/a/b", "", &refs).expect("resolves");
    assert_eq!(r.branch, "master");
    assert_eq!(r.commit, sha('c'));
}

#[test]
fn remote_unreachable_carries_its_own_message() {
    let e = ResolveError::RemoteUnreachable("could not connect".to_string());
    assert_eq!(e.http_message(), "could not connect");
}
