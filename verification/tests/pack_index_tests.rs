use attune_routes::auth::ApiError;
use attune_routes::pack_index::{
    browse_indexed_packs, find_indexed_pack, indexed_pack_summary, listed_summary_for, pack_matches_query,
    IndexedPack,
};
use attune_routes::provenance::PackRegistryIndexSummary;
use attune_routes::registry::RegistryIndexConfig;

fn pack(pack_ref: &str, label: &str, description: &str, use_case: Option<&str>, keywords: &[&str]) -> IndexedPack {
    IndexedPack {
        pack_ref: pack_ref.to_string(),
        label: label.to_string(),
        description: description.to_string(),
        use_case: use_case.map(str::to_string),
        keywords: keywords.iter().map(|k| k.to_string()).collect(),
    }
}

#[test]
fn searches_match_any_text_field_in_lower_case() {
    let p = pack("core.slack", "Slack", "Chat notifications", Some("Alerting"), &["Messaging", "ChatOps"]);
    assert!(pack_matches_query(&p, ""));
    assert!(pack_matches_query(&p, "slack"));
    assert!(pack_matches_query(&p, "notif"));
    assert!(pack_matches_query(&p, "alert"));
    assert!(pack_matches_query(&p, "chatops"));
    assert!(!pack_matches_query(&p, "jira"));
    // The query is expected in lower case already.
    assert!(!pack_matches_query(&p, "SLACK"));
    let bare = pack("x", "X", "", None, &[]);
    assert!(!pack_matches_query(&bare, "y"));
}

#[test]
fn browsing_lists_each_pack_once_from_its_first_index() {
    let items = vec![
        (0, pack("alpha", "Alpha", "first", None, &[])),
        (0, pack("beta", "Beta", "second", None, &["Deploy"])),
        (1, pack("alpha", "Alpha again", "deploy helper", None, &[])),
        (1, pack("gamma", "Gamma", "Deploys things", None, &[])),
    ];
    let listed = browse_indexed_packs(items, Some("DEPLOY"));
    let got: Vec<(usize, &str)> = listed.iter().map(|(i, p)| (*i, p.pack_ref.as_str())).collect();
    // `alpha` is first seen in index 0, which does not match; its later entry is not considered.
    assert_eq!(got, vec![(0, "beta"), (1, "gamma")]);

    let all = browse_indexed_packs(
        vec![(0, pack("alpha", "A", "", None, &[])), (1, pack("alpha", "B", "", None, &[]))],
        None,
    );
    assert_eq!(all.len(), 1);
    assert_eq!(all[0].1.label, "A");
}

#[test]
fn indexed_packs_are_found_in_index_order() {
    let items = || vec![(2, pack("a", "first", "", None, &[])), (3, pack("a", "second", "", None, &[]))];
    let (index, found) = find_indexed_pack(items(), "a").unwrap();
    assert_eq!((index, found.label.as_str()), (2, "first"));
    assert_eq!(
        find_indexed_pack(items(), "b").map(|(i, _)| i),
        Err(ApiError::NotFound("Indexed pack 'b' not found".to_string()))
    );
}

#[test]
fn indexed_pack_summaries_fall_back_to_the_configured_index() {
    let summaries = vec![PackRegistryIndexSummary {
        id: Some(5),
        name: Some("Managed".to_string()),
        url: "https://a.example/index.json".to_string(),
        position: 1,
    }];
    let listed = listed_summary_for(&summaries, "https://a.example/index.json");
    assert_eq!(listed.as_ref().map(|s| s.id), Some(Some(5)));
    assert!(listed_summary_for(&summaries, "https://A.example/index.json").is_none());

    let config = RegistryIndexConfig {
        url: "https://b.example/index.json".to_string(),
        priority: 7,
        enabled: true,
        name: Some("Static".to_string()),
        headers: vec![],
    };
    let summary = indexed_pack_summary(None, config);
    assert_eq!((summary.id, summary.position, summary.url.as_str()), (None, 7, "https://b.example/index.json"));
    let kept = indexed_pack_summary(listed, RegistryIndexConfig {
        url: "https://a.example/index.json".to_string(),
        priority: 9,
        enabled: true,
        name: None,
        headers: vec![],
    });
    assert_eq!(kept.id, Some(5));
}
