use tokei_badge::cache::StatsCache;
use tokei_badge::conditional::{
    decide_not_modified, plan_conditional, wants_json, ClientTag, InmCondition, ResponsePlan,
};
use tokei_badge::etag_identifier;
use tokei_badge::repo_identifier;
use tokei_badge::stats::{LangEntry, LangStats};

fn tag(weak: bool, value: &str) -> ClientTag {
    ClientTag { weak, value: value.to_string() }
}

#[test]
fn etag_is_commit_hash_branch() {
    let sha = "a".repeat(40);
    assert_eq!(etag_identifier(&sha, "main"), format!("{}#main", sha));
    // Identical inputs always yield identical tags.
    assert_eq!(etag_identifier(&sha, "main"), etag_identifier(&sha, "main"));
    assert_ne!(etag_identifier(&sha, "main"), etag_identifier(&sha, "dev"));
}

#[test]
fn star_never_matches() {
    assert!(!decide_not_modified(&InmCondition::Any, "x#main"));
}

#[test]
fn absent_header_never_matches() {
    assert!(!decide_not_modified(&InmCondition::Absent, "x#main"));
}

#[test]
fn weak_comparison_ignores_weakness() {
    let computed = "abc#main";
    let cond = InmCondition::Tags(vec![tag(true, "other"), tag(true, "abc#main")]);
    assert!(decide_not_modified(&cond, computed));
    let strong = InmCondition::Tags(vec![tag(false, "abc#main")]);
    assert!(decide_not_modified(&strong, computed));
    let none = InmCondition::Tags(vec![tag(false, "zzz")]);
    assert!(!decide_not_modified(&none, computed));
}

#[test]
fn matching_tag_plans_not_modified_without_any_compute() {
    let sha = "b".repeat(40);
    let cond = InmCondition::Tags(vec![tag(true, &format!("{}#main", sha))]);
    let mut cache = StatsCache::new();
    let mut compute_calls = 0u32;

    let plan = plan_conditional(&cond, &sha, "main");
    match plan {
        ResponsePlan::NotModified => {
            // The 304 path only refreshes the cache entry's recency.
            let key = repo_identifier("https://example.com/a/b", &sha, "main");
            let _ = cache.lookup(&key, 0);
        }
        ResponsePlan::Render { etag } => {
            // Miss path would compute; it must not be taken here.
            compute_calls += 1;
            let _ = etag;
        }
    }
    assert_eq!(compute_calls, 0);
}

#[test]
fn non_matching_tag_plans_a_render_with_the_etag() {
    let sha = "c".repeat(40);
    let cond = InmCondition::Tags(vec![tag(true, "stale")]);
    match plan_conditional(&cond, &sha, "main") {
        ResponsePlan::Render { etag } => assert_eq!(etag, format!("{}#main", sha)),
        ResponsePlan::NotModified => panic!("a stale tag must not match"),
    }
}

#[test]
fn miss_then_hit_serves_identical_bytes_from_cache() {
    // Repeated requests for the same resolved reference inside the window:
    // the first computes, the second is served from the cache with an
    // identical statistics entry.
    let sha = "d".repeat(40);
    let key = repo_identifier("https://example.com/a/b", &sha, "main");
    let mut cache = StatsCache::new();
    let mut compute_calls = 0u32;

    let mut serve = |cache: &mut StatsCache, compute_calls: &mut u32, now: u64| -> (Vec<LangEntry>, bool) {
        if let Some(v) = cache.lookup(&key, now) {
            return (v, true);
        }
        *compute_calls += 1;
        let computed = vec![LangEntry {
            name: "Rust".to_string(),
            stats: LangStats { code: 10, comments: 2, blanks: 1, files: 1 },
        }];
        cache.insert(
            key.clone(),
            computed.iter().map(|e| LangEntry { name: e.name.clone(), stats: e.stats }).collect(),
            now,
        );
        (computed, false)
    };

    let (first, cached_first) = serve(&mut cache, &mut compute_calls, 100);
    let (second, cached_second) = serve(&mut cache, &mut compute_calls, 200);
    assert!(!cached_first);
    assert!(cached_second);
    assert_eq!(compute_calls, 1);
    assert_eq!(first.len(), second.len());
    assert_eq!(first[0].name, second[0].name);
    assert_eq!(first[0].stats, second[0].stats);
}

#[test]
fn json_only_for_exact_media_type() {
    assert!(wants_json("application/json"));
    assert!(!wants_json("image/svg+xml"));
    assert!(!wants_json("application/json; charset=utf-8"));
    assert!(!wants_json(""));
}
