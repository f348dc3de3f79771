use std::collections::HashSet;

use attune_routes::auth::ApiError;

use attune_routes::registry::{
    check_pack_index_deletion, find_pack_index, indices_for_resolved_registry, managed_index_priority, plan_effective_pack_registry, require_registry_resolution, selected_managed_index, static_position_offset, static_summary_position,
    deduplicate_managed_registry_indices, effective_static_registry_indices, registry_identity_key,
    registry_url_key, static_bootstrap_indices_are_effective, static_indices_would_reactivate, trim_trailing_dots,
    ManagedRegistryIndex, RegistryIndexConfig,
};

fn managed(id: i64, name: &str, url: &str, position: i32, enabled: bool, is_standard: bool) -> ManagedRegistryIndex {
    ManagedRegistryIndex { id, name: Some(name.to_string()), url: url.to_string(), position, enabled, is_standard }
}

fn configured(url: &str, priority: u32, enabled: bool, name: &str) -> RegistryIndexConfig {
    RegistryIndexConfig { url: url.to_string(), priority, enabled, name: Some(name.to_string()), headers: vec![] }
}

#[test]
fn standard_marker_controls_static_registry_bootstrap() {
    let standard = managed(
        1,
        "Attune Standard Pack Index",
        "https://raw.githubusercontent.com/attune-system/index/aaaaaaaaaaaaaaaaaaaaaaaaaaaaaaaaaaaaaaaa/index.json",
        0,
        true,
        true,
    );
    let custom = managed(2, "Company Packs", "https://company.example/index.json", 1, true, false);
    let standard_again = managed(
        1,
        "Attune Standard Pack Index",
        "https://raw.githubusercontent.com/attune-system/index/aaaaaaaaaaaaaaaaaaaaaaaaaaaaaaaaaaaaaaaa/index.json",
        0,
        true,
        true,
    );

    assert!(static_bootstrap_indices_are_effective(&vec![standard]));
    assert!(!static_bootstrap_indices_are_effective(&vec![standard_again, custom]));
    assert!(static_bootstrap_indices_are_effective(&vec![]));
}

#[test]
fn managed_registry_duplicates_are_first_row_wins() {
    let rows = vec![
        managed(
            1,
            "Disabled first",
            "HTTPS://RAW.GITHUBUSERCONTENT.COM.:443/attune-system/index/aaaaaaaaaaaaaaaaaaaaaaaaaaaaaaaaaaaaaaaa/index.json",
            0,
            false,
            true,
        ),
        managed(
            2,
            "Enabled duplicate",
            "https://raw.githubusercontent.com/attune-system/index/aaaaaaaaaaaaaaaaaaaaaaaaaaaaaaaaaaaaaaaa/index.json",
            1,
            true,
            false,
        ),
    ];

    let (deduplicated, identities) = deduplicate_managed_registry_indices(rows);

    assert_eq!(deduplicated.len(), 1);
    assert_eq!(deduplicated[0].id, 1);
    assert!(!deduplicated[0].enabled);
    assert_eq!(
        identities.into_iter().collect::<HashSet<String>>(),
        HashSet::from([registry_identity_key(
            "https://raw.githubusercontent.com/attune-system/index/aaaaaaaaaaaaaaaaaaaaaaaaaaaaaaaaaaaaaaaa/index.json"
        )])
    );
}

#[test]
fn duplicate_static_registry_uses_highest_priority_entry() {
    let static_indices = vec![
        configured("https://company.example/index.json", 10, true, "Lower priority"),
        configured("https://company.example:443/index.json", 2, true, "Higher priority"),
    ];

    let indices = effective_static_registry_indices(static_indices, &vec![], 1, false);

    assert_eq!(indices.len(), 1);
    assert_eq!(indices[0].name.as_deref(), Some("Higher priority"));
    assert_eq!(indices[0].priority, 3);
}

#[test]
fn registry_url_keys_normalize_host_and_default_port() {
    assert_eq!(registry_url_key("HTTPS://Example.COM.:443/Index.json"), "https://example.com/Index.json");
    assert_eq!(registry_url_key("not a url"), "not a url");
    assert_eq!(
        registry_url_key("https://company.example:443/index.json"),
        registry_url_key("https://company.example/index.json")
    );
    assert_eq!(trim_trailing_dots("host..."), "host");
    assert_eq!(trim_trailing_dots("a.b"), "a.b");
}

#[test]
fn static_indices_skip_managed_registries_and_disabled_entries() {
    let static_indices = vec![
        configured("https://a.example/index.json", 5, true, "A"),
        configured("https://b.example/index.json", 1, false, "B disabled"),
        configured("https://c.example/index.json", 3, true, "C"),
    ];
    let managed_keys = vec![registry_identity_key("https://a.example/index.json")];
    let indices = effective_static_registry_indices(static_indices, &managed_keys, u32::MAX, false);
    assert_eq!(indices.len(), 1);
    assert_eq!(indices[0].name.as_deref(), Some("C"));
    assert_eq!(indices[0].priority, u32::MAX);

    let with_disabled = effective_static_registry_indices(
        vec![
            configured("https://a.example/index.json", 5, true, "A"),
            configured("https://b.example/index.json", 1, false, "B disabled"),
        ],
        &vec![],
        0,
        true,
    );
    let names: Vec<_> = with_disabled.iter().map(|i| i.name.clone().unwrap()).collect();
    assert_eq!(names, vec!["B disabled".to_string(), "A".to_string()]);
}

#[test]
fn static_indices_reactivate_only_when_custom_indices_disappear() {
    let custom = managed(2, "Company", "https://company.example/index.json", 1, true, false);
    let standard = managed(1, "Standard", "https://std.example/index.json", 0, true, true);
    let standard_after = managed(1, "Standard", "https://std.example/index.json", 0, true, true);
    let statics = vec![configured("https://other.example/index.json", 0, true, "Other")];
    assert!(static_indices_would_reactivate(&vec![standard, custom], &vec![standard_after], statics));

    let statics_same = vec![configured("https://std.example/index.json", 0, true, "Std")];
    let custom2 = managed(2, "Company", "https://company.example/index.json", 1, true, false);
    let std2 = managed(1, "Standard", "https://std.example/index.json", 0, true, true);
    let std3 = managed(1, "Standard", "https://std.example/index.json", 0, true, true);
    assert!(!static_indices_would_reactivate(&vec![std2, custom2], &vec![std3], statics_same));
}

#[test]
fn managed_positions_place_static_indices_after_them() {
    assert_eq!(static_position_offset(&vec![]), 0);
    let v = vec![
        managed(1, "a", "https://a.example/index.json", 3, true, true),
        managed(2, "b", "https://b.example/index.json", -5, true, true),
        managed(3, "c", "https://c.example/index.json", 1, false, true),
    ];
    assert_eq!(static_position_offset(&v), 4);
    assert_eq!(static_position_offset(&vec![managed(1, "n", "https://n.example/", -1, true, true)]), 1);
    assert_eq!(static_position_offset(&vec![managed(1, "m", "https://m.example/", i32::MAX, true, true)]), 1u32 << 31);
    assert_eq!(managed_index_priority(-3), 0);
    assert_eq!(managed_index_priority(12), 12);
    assert_eq!(static_summary_position(7), 7);
    assert_eq!(static_summary_position(u32::MAX), i32::MAX);
    assert_eq!(static_summary_position(1u32 << 31), i32::MAX);
}

#[test]
fn effective_registry_plan_combines_managed_and_static_indices() {
    let statics = || vec![
        configured("https://company.example/index.json", 5, true, "Company"),
        configured("https://public.example/index.json", 1, true, "Public"),
        configured("https://off.example/index.json", 0, false, "Off"),
    ];
    let standard = managed(1, "Standard", "https://company.example:443/index.json", 2, true, true);
    let disabled = managed(2, "Disabled", "https://disabled.example/index.json", 0, false, true);

    let plan = plan_effective_pack_registry(true, vec![standard.clone_for_test(), disabled.clone_for_test()], statics(), false);
    assert_eq!(plan.managed.len(), 1);
    assert_eq!(plan.managed[0].id, 1);
    // The company registry is managed already; the public one follows the managed positions.
    assert_eq!(plan.static_indices.len(), 1);
    assert_eq!(plan.static_indices[0].url, "https://public.example/index.json");
    assert_eq!(plan.static_indices[0].priority, 3 + 1);

    let plan = plan_effective_pack_registry(true, vec![standard.clone_for_test(), disabled.clone_for_test()], statics(), true);
    assert_eq!(plan.managed.len(), 2);
    let urls: Vec<&str> = plan.static_indices.iter().map(|c| c.url.as_str()).collect();
    assert_eq!(urls, vec!["https://off.example/index.json", "https://public.example/index.json"]);

    let custom = managed(3, "Custom", "https://custom.example/index.json", 0, true, false);
    let plan = plan_effective_pack_registry(true, vec![custom], statics(), false);
    assert_eq!(plan.managed.len(), 1);
    assert!(plan.static_indices.is_empty());

    let plan = plan_effective_pack_registry(false, vec![standard], statics(), true);
    assert!(plan.managed.is_empty());
    assert!(plan.static_indices.is_empty());
}

trait CloneForTest {
    fn clone_for_test(&self) -> Self;
}

impl CloneForTest for ManagedRegistryIndex {
    fn clone_for_test(&self) -> Self {
        ManagedRegistryIndex {
            id: self.id,
            name: self.name.clone(),
            url: self.url.clone(),
            position: self.position,
            enabled: self.enabled,
            is_standard: self.is_standard,
        }
    }
}

#[test]
fn chosen_managed_index_must_exist_and_be_enabled() {
    assert_eq!(require_registry_resolution(true), Ok(()));
    assert_eq!(
        require_registry_resolution(false),
        Err(ApiError::BadRequest("Pack registry resolution is disabled".to_string()))
    );
    let enabled = managed(4, "a", "https://a.example/index.json", 0, true, false);
    assert_eq!(selected_managed_index(4, Some(enabled)).map(|m| m.id), Ok(4));
    let disabled = managed(4, "a", "https://a.example/index.json", 0, false, false);
    let missing = || Err(ApiError::BadRequest("Enabled managed pack index 4 was not found".to_string()));
    assert_eq!(selected_managed_index(4, Some(disabled)).map(|m| m.id), missing());
    assert_eq!(selected_managed_index(4, None).map(|m| m.id), missing());
    assert_eq!(
        selected_managed_index(-12, None).map(|m| m.id),
        Err(ApiError::BadRequest("Enabled managed pack index -12 was not found".to_string()))
    );
}

#[test]
fn deleting_the_last_custom_index_may_not_revive_static_indices() {
    let statics = || vec![configured("https://public.example/index.json", 0, true, "Public")];
    let standard = managed(1, "Standard", "https://standard.example/index.json", 0, true, true);
    let custom = managed(2, "Custom", "https://custom.example/index.json", 1, true, false);
    let indices = vec![standard.clone_for_test(), custom.clone_for_test()];

    assert_eq!(
        check_pack_index_deletion(&indices, 2, statics()).map(|m| m.id),
        Err(ApiError::Conflict(
            "Cannot delete the last non-standard managed index while enabled static pack indices are configured; remove or disable the static entries first"
                .to_string()
        ))
    );
    // Without enabled static indices nothing comes back.
    assert_eq!(check_pack_index_deletion(&indices, 2, vec![]).map(|m| m.id), Ok(2));
    // Standard indices can always be deleted.
    assert_eq!(check_pack_index_deletion(&indices, 1, statics()).map(|m| m.id), Ok(1));
    // Another custom index keeps the static ones out of effect.
    let other = managed(3, "Other", "https://other.example/index.json", 2, false, false);
    let indices3 = vec![standard, custom, other];
    assert_eq!(check_pack_index_deletion(&indices3, 2, statics()).map(|m| m.id), Ok(2));
    assert_eq!(
        check_pack_index_deletion(&indices3, 9, statics()).map(|m| m.id),
        Err(ApiError::NotFound("Pack index 9 not found".to_string()))
    );
    assert_eq!(find_pack_index(&indices3, 3).map(|m| m.name), Ok(Some("Other".to_string())));
}

#[test]
fn effective_static_indices_come_in_priority_order() {
    let statics = vec![
        configured("https://c.example/index.json", 30, true, "C"),
        configured("https://a.example/index.json", 10, true, "A"),
        configured("https://b.example/index.json", 20, true, "B"),
        configured("https://a.example:443/index.json", 5, true, "A first"),
    ];
    let effective = effective_static_registry_indices(statics, &vec![], 100, false);
    let got: Vec<(&str, u32)> = effective.iter().map(|c| (c.name.as_deref().unwrap(), c.priority)).collect();
    assert_eq!(got, vec![("A first", 105), ("B", 120), ("C", 130)]);
}

#[test]
fn installs_consult_only_the_resolved_registry() {
    let indices = vec![
        configured("https://a.example/index.json", 0, true, "A"),
        configured("https://b.example/index.json", 1, true, "B"),
        configured("https://a.example/index.json", 2, false, "A again"),
    ];
    let kept = indices_for_resolved_registry(indices, "https://a.example/index.json");
    let names: Vec<&str> = kept.iter().map(|c| c.name.as_deref().unwrap()).collect();
    assert_eq!(names, vec!["A", "A again"]);
}
