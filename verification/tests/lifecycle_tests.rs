use attune_routes::auth::ApiError;
use attune_routes::rule_changes::{
    build_rule_lifecycle_payload, check_rule_components_unchanged, check_rule_permission_delegation,
    check_rule_ref_available, check_rule_unchanged, effective_permission_set_refs, permission_refs_to_validate,
    plan_rule_update, reject_sensor_admission, rule_update_notices, sensor_admission_requirement,
    trigger_ref_changed, RuleOperation, SensorAdmissionRequirement, NOTIFY_PAYLOAD_SAFE_BYTES,
};
use serde_json::Value as JsonValue;

fn params_with(key: &str, value: JsonValue) -> String {
    let mut object = serde_json::Map::new();
    object.insert(key.to_string(), value);
    serde_json::to_string(&JsonValue::Object(object)).unwrap()
}

fn now_text() -> String {
    chrono::Utc::now().to_rfc3339_opts(chrono::SecondsFormat::AutoSi, true)
}

#[test]
fn small_payload_uses_full_envelope() {
    let params = params_with("interval", JsonValue::from(30));
    let payload = build_rule_lifecycle_payload(
        "activated",
        1,
        "core.timer",
        "core.intervaltimer",
        Some(params.as_str()),
        true,
        &now_text(),
    );
    let parsed: JsonValue = serde_json::from_str(&payload).unwrap();
    assert_eq!(parsed["auth_mode"], "full");
    assert!(parsed.get("trigger_params").is_some());
    assert_eq!(parsed["trigger_ref"], "core.intervaltimer");
    assert!(payload.len() <= NOTIFY_PAYLOAD_SAFE_BYTES);
}

#[test]
fn oversized_payload_falls_back_to_compact_deferred_envelope() {
    let params = params_with("blob", JsonValue::from("x".repeat(NOTIFY_PAYLOAD_SAFE_BYTES + 500)));
    let payload = build_rule_lifecycle_payload(
        "activated",
        42,
        "core.timer",
        "core.intervaltimer",
        Some(params.as_str()),
        true,
        &now_text(),
    );
    assert!(payload.len() <= NOTIFY_PAYLOAD_SAFE_BYTES);
    let parsed: JsonValue = serde_json::from_str(&payload).unwrap();
    assert_eq!(parsed["auth_mode"], "deferred");
    assert_eq!(parsed["entity_type"], "rule_lifecycle");
    assert_eq!(parsed["entity_id"], 42);
    assert_eq!(parsed["trigger_ref"], "core.intervaltimer");
    assert!(parsed.get("trigger_params").is_none());
}

#[test]
fn lifecycle_payload_without_params_carries_null_and_escapes_refs() {
    let payload = build_rule_lifecycle_payload("rule.disabled", -3, "we\"ird", "t", None, false, "2026-01-01T00:00:00Z");
    let parsed: JsonValue = serde_json::from_str(&payload).unwrap();
    assert!(parsed["trigger_params"].is_null());
    assert_eq!(parsed["rule_ref"], "we\"ird");
    assert_eq!(parsed["rule_id"], -3);
    assert_eq!(parsed["active"], false);
    assert_eq!(parsed["timestamp"], "2026-01-01T00:00:00Z");
}

#[test]
fn rule_updates_announce_lifecycle_changes() {
    let enable = plan_rule_update(false, Some(true), false, false, false);
    assert!(enable.became_enabled && enable.admission_changed);
    let notices = rule_update_notices(enable, true);
    assert!(notices.enabled && !notices.disabled);

    let disable = plan_rule_update(true, Some(false), false, false, false);
    let notices = rule_update_notices(disable, false);
    assert!(notices.disabled && !notices.enabled);

    let moved = plan_rule_update(true, None, true, false, false);
    let notices = rule_update_notices(moved, true);
    assert!(notices.disabled && notices.enabled && notices.disabled_names_previous_trigger);

    let nothing = plan_rule_update(true, None, false, false, false);
    let notices = rule_update_notices(nothing, true);
    assert!(!notices.disabled && !notices.enabled && !nothing.admission_changed);
}

#[test]
fn rule_creation_checks() {
    assert_eq!(sensor_admission_requirement(true), SensorAdmissionRequirement::Live);
    assert_eq!(sensor_admission_requirement(false), SensorAdmissionRequirement::WellFormed);
    assert!(reject_sensor_admission(&vec![]).is_ok());
    assert_eq!(
        reject_sensor_admission(&vec!["{\"a\":1}".to_string(), "{\"b\":2}".to_string()]).unwrap_err(),
        ApiError::UnprocessableEntity("[{\"a\":1},{\"b\":2}]".to_string())
    );
    assert_eq!(
        effective_permission_set_refs(&None, &vec!["default".to_string()]),
        vec!["default".to_string()]
    );
    assert_eq!(
        effective_permission_set_refs(&Some(vec![]), &vec!["default".to_string()]),
        Vec::<String>::new()
    );
    assert!(check_rule_permission_delegation(RuleOperation::Create, &vec![], false).is_ok());
    assert_eq!(
        check_rule_permission_delegation(RuleOperation::Update, &vec!["x".to_string()], false).unwrap_err(),
        ApiError::Forbidden("Cannot update rule with execution permission sets beyond current access".to_string())
    );
    assert_eq!(
        check_rule_ref_available("core.r", true).unwrap_err(),
        ApiError::Conflict("Rule with ref 'core.r' already exists".to_string())
    );
    assert!(check_rule_components_unchanged((1, 2, 3), (1, 2, 3), &vec![], &vec![]).is_ok());
    assert!(matches!(check_rule_components_unchanged((1, 2, 3), (1, 2, 4), &vec![], &vec![]), Err(ApiError::Conflict(_))));
    assert!(matches!(
        check_rule_components_unchanged((1, 2, 3), (1, 2, 3), &vec!["a".to_string()], &vec![]),
        Err(ApiError::Conflict(_))
    ));
    assert_eq!(
        check_rule_unchanged("core.r", 1, 2).unwrap_err(),
        ApiError::Conflict("Rule 'core.r' changed while the update was being authorized".to_string())
    );
}

#[test]
fn rule_update_permission_refs_to_check() {
    let defaults = vec!["d".to_string()];
    assert_eq!(permission_refs_to_validate(&Some(Some(vec!["x".to_string()])), false, &None, &defaults), Some(vec!["x".to_string()]));
    assert_eq!(permission_refs_to_validate(&Some(None), false, &None, &defaults), Some(defaults.clone()));
    assert_eq!(permission_refs_to_validate(&None, true, &Some(vec!["o".to_string()]), &defaults), Some(vec!["o".to_string()]));
    assert_eq!(permission_refs_to_validate(&None, true, &None, &defaults), Some(defaults.clone()));
    assert_eq!(permission_refs_to_validate(&None, false, &None, &defaults), None);
    assert!(trigger_ref_changed(Some("b"), "a"));
    assert!(!trigger_ref_changed(Some("a"), "a"));
    assert!(!trigger_ref_changed(None, "a"));
}

#[test]
fn lifecycle_strings_are_escaped_as_json_literals() {
    let payload = build_rule_lifecycle_payload(
        "rule.enabled",
        1,
        "core.\"quoted\"\\rule\u{1}\n",
        "core.timer",
        None,
        true,
        "2024-01-01T00:00:00Z",
    );
    assert!(payload.contains(r#""rule_ref":"core.\"quoted\"\\rule\u0001\n""#), "{payload}");
    let value: serde_json::Value = serde_json::from_str(&payload).unwrap();
    assert_eq!(value["rule_ref"], "core.\"quoted\"\\rule\u{1}\n");
}
