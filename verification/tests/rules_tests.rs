use attune_routes::auth::{ApiError, AuthenticatedUser, Claims, MetadataEntry, MetadataValue, TokenType};
use attune_routes::rules::{
    ensure_sensor_trigger_scope_for_rule_listing, ensure_sensor_trigger_scope_for_rule_read,
    ensure_sensor_trigger_scoped_rule_endpoint, format_sensor_trigger_scope,
};

fn sensor_user(trigger_types: Vec<&str>) -> AuthenticatedUser {
    AuthenticatedUser {
        claims: Claims {
            sub: "1".to_string(),
            login: "sensor.demo".to_string(),
            iat: 1,
            exp: 2,
            token_type: TokenType::Sensor,
            scope: Some("sensor".to_string()),
            metadata: Some(vec![MetadataEntry {
                key: "trigger_types".to_string(),
                value: MetadataValue::TextList(trigger_types.into_iter().map(String::from).collect()),
            }]),
        },
    }
}

#[test]
fn sensor_tokens_require_explicit_trigger_scope_for_rule_listings() {
    let result = ensure_sensor_trigger_scope_for_rule_listing(&sensor_user(vec!["core.timer"]), None);
    assert!(matches!(result, Err(ApiError::Forbidden(_))));
}

#[test]
fn sensor_tokens_reject_out_of_scope_trigger_rule_listings() {
    let result =
        ensure_sensor_trigger_scope_for_rule_listing(&sensor_user(vec!["core.timer"]), Some("core.webhook"));
    assert!(matches!(result, Err(ApiError::Forbidden(_))));
}

#[test]
fn sensor_tokens_allow_in_scope_trigger_rule_listings() {
    let result =
        ensure_sensor_trigger_scope_for_rule_listing(&sensor_user(vec!["core.timer"]), Some("core.timer"));
    assert!(result.is_ok());
}

#[test]
fn sensor_tokens_cannot_use_non_trigger_scoped_rule_endpoints() {
    let result =
        ensure_sensor_trigger_scoped_rule_endpoint(&sensor_user(vec!["core.timer"]), "/api/v1/rules/enabled");

    match result {
        Err(ApiError::Forbidden(message)) => {
            assert!(message.contains("trigger-scoped endpoints"));
            assert!(message.contains("/api/v1/rules?trigger_ref="));
        }
        other => panic!("expected forbidden error, got {other:?}"),
    }
}

#[test]
fn sensor_tokens_can_read_rule_details_only_within_trigger_scope() {
    let allowed = ensure_sensor_trigger_scope_for_rule_read(
        &sensor_user(vec!["core.timer"]),
        "core.demo_rule",
        "core.timer",
    );
    assert!(allowed.is_ok());

    let forbidden = ensure_sensor_trigger_scope_for_rule_read(
        &sensor_user(vec!["core.timer"]),
        "core.demo_rule",
        "core.webhook",
    );
    match forbidden {
        Err(ApiError::Forbidden(message)) => {
            assert!(message.contains("core.demo_rule"));
            assert!(message.contains("core.webhook"));
            assert!(message.contains("Allowed trigger_refs: core.timer"));
        }
        other => panic!("expected forbidden error, got {other:?}"),
    }
}

#[test]
fn non_sensor_tokens_preserve_existing_rule_list_access() {
    let user = AuthenticatedUser {
        claims: Claims {
            sub: "1".to_string(),
            login: "testuser".to_string(),
            iat: 1,
            exp: 2,
            token_type: TokenType::Access,
            scope: None,
            metadata: None,
        },
    };

    assert!(ensure_sensor_trigger_scope_for_rule_listing(&user, None).is_ok());
    assert!(ensure_sensor_trigger_scope_for_rule_listing(&user, Some("core.timer")).is_ok());
    assert!(ensure_sensor_trigger_scoped_rule_endpoint(&user, "/api/v1/rules/enabled").is_ok());
    assert!(ensure_sensor_trigger_scope_for_rule_read(&user, "core.rule", "core.timer").is_ok());
}

#[test]
fn trigger_scope_text_is_none_or_comma_joined() {
    assert_eq!(format_sensor_trigger_scope(&vec![]), "none");
    assert_eq!(
        format_sensor_trigger_scope(&vec!["core.timer".to_string(), "core.webhook".to_string()]),
        "core.timer, core.webhook"
    );
}

#[test]
fn blank_trigger_ref_counts_as_missing_for_sensor_listings() {
    let result = ensure_sensor_trigger_scope_for_rule_listing(&sensor_user(vec!["core.timer"]), Some("   "));
    assert!(matches!(result, Err(ApiError::Forbidden(_))));
    let padded =
        ensure_sensor_trigger_scope_for_rule_listing(&sensor_user(vec!["core.timer"]), Some("  core.timer "));
    assert!(padded.is_ok());
}

#[test]
fn out_of_scope_listing_names_the_allowed_triggers() {
    let result = ensure_sensor_trigger_scope_for_rule_listing(&sensor_user(vec![]), Some("core.timer"));
    match result {
        Err(ApiError::Forbidden(message)) => {
            assert_eq!(
                message,
                "Sensor token is not allowed to list rules for trigger 'core.timer'. Allowed trigger_refs: none"
            );
        }
        other => panic!("expected forbidden error, got {other:?}"),
    }
}
