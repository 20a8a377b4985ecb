use tokei_badge::badge::{forbidden_badge, BadgeStyle};
use tokei_badge::guard::owner_allowed;

#[test]
fn no_whitelist_allows_everyone() {
    assert!(owner_allowed(&None, "anyone"));
    assert!(owner_allowed(&None, ""));
}

#[test]
fn whitelisted_owner_is_allowed() {
    let wl = Some(vec!["alice".to_string(), "carol".to_string()]);
    assert!(owner_allowed(&wl, "alice"));
    assert!(owner_allowed(&wl, "carol"));
}

#[test]
fn rejected_owner_gets_the_forbidden_badge_and_no_network_call() {
    let wl = Some(vec!["alice".to_string()]);
    let mut network_calls = 0u32;

    let badge = if owner_allowed(&wl, "bob") {
        network_calls += 1; // the pipeline would list refs here
        None
    } else {
        Some(forbidden_badge())
    };

    assert_eq!(network_calls, 0);
    let badge = badge.expect("bob is not whitelisted");
    assert_eq!(badge.message, "forbidden");
    assert_eq!(badge.color, "#e05d44");
    assert_eq!(badge.label, "");
    assert_eq!(badge.logo, "");
    assert!(matches!(badge.style, BadgeStyle::Plastic));
}
