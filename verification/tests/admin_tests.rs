use attune_routes::auth::{ApiError, TokenType};
use attune_routes::events::{
    apply_enforcement_visibility, apply_event_visibility, check_event_creator, check_trigger_enabled, event_access_step,
    event_rule_link, event_source, event_visibility_result, rule_id_from_instance, EnforcementRefs, EventAccessStep,
    EventRefs,
};
use attune_routes::health::{health_detailed_report, readiness_status, HealthStatus};
use attune_routes::history::{
    authorize_history_list_access, authorize_history_parent_access, pack_ref_of_action_ref, AncestorWalk,
    HistoryEntityType,
};
use attune_routes::identities::{
    check_assignment_unmanaged, check_identity_deletion, check_identity_freeze, check_token_expiry, check_token_owner,
    freeze_message, identity_lookup, identity_not_found, validate_permission_grants, IdentityLookup,
};
use attune_routes::inquiries::{
    inquiry_page, parse_inquiry_status, redact_inquiry_summary, split_page, InquiryStatus, InquirySummary,
};
use attune_routes::policies::{
    check_policy_ref_available, scope_filter, scope_lookup, scope_target_not_found, validate_policy_features,
    validate_quotas, validate_update_keeps_feature, PolicyFeaturePatch, PolicyFeatures, PolicyScopeFilter,
    PolicyScopeRequest, PolicyScopeType, ScopeLookup,
};
use attune_routes::rbac::{
    build_pack_visibility_filter, build_policy_visibility_filter, Action, Grant, GrantConstraints, Resource,
};
use attune_routes::runtimes::{check_runtime_ref_available, runtime_config_disclosure, ExecutionConfigDisclosure};

fn bare_constraints() -> GrantConstraints {
    GrantConstraints {
        pack_refs: None,
        owner: None,
        owner_types: None,
        owner_refs: None,
        visibility: None,
        execution_scope: None,
        refs: None,
        ids: None,
        encrypted: None,
        attributes: None,
    }
}

#[test]
fn quota_types_and_features_are_validated() {
    assert!(validate_quotas(&vec!["running_executions".to_string(), "executions_total".to_string()]).is_ok());
    assert_eq!(
        validate_quotas(&vec!["running_executions".to_string(), "cpu".to_string(), "ram".to_string()]).unwrap_err(),
        ApiError::BadRequest(
            "Unsupported quota type 'cpu'. Supported quota types: running_executions, executions_total".to_string()
        )
    );
    assert!(validate_policy_features(false, true, false).is_ok());
    assert_eq!(
        validate_policy_features(false, false, false).unwrap_err(),
        ApiError::BadRequest("At least one policy feature must be configured".to_string())
    );
    let existing = PolicyFeatures { concurrency: true, rate_limit: false, quotas: false };
    assert!(validate_update_keeps_feature(&existing, &PolicyFeaturePatch { concurrency: None, rate_limit: None, quotas: None }).is_ok());
    assert!(validate_update_keeps_feature(
        &existing,
        &PolicyFeaturePatch { concurrency: Some(false), rate_limit: None, quotas: None }
    )
    .is_err());
    assert!(check_policy_ref_available("p", false).is_ok());
    assert!(matches!(check_policy_ref_available("p", true), Err(ApiError::Conflict(_))));
}

#[test]
fn policy_scopes_name_what_they_need() {
    assert_eq!(scope_filter(PolicyScopeType::Pack), PolicyScopeFilter::Pack);
    let pack = PolicyScopeRequest { scope_type: PolicyScopeType::Pack, pack_ref: None, action_ref: None };
    assert_eq!(
        scope_lookup(&pack).unwrap_err(),
        ApiError::BadRequest("pack_ref is required for pack-scoped policies".to_string())
    );
    let action = PolicyScopeRequest {
        scope_type: PolicyScopeType::Action,
        pack_ref: None,
        action_ref: Some("core.echo".to_string()),
    };
    let lookup = scope_lookup(&action).unwrap();
    assert_eq!(lookup, ScopeLookup::Action("core.echo".to_string()));
    assert_eq!(scope_target_not_found(&lookup), Some(ApiError::NotFound("Action 'core.echo' not found".to_string())));
    assert_eq!(scope_target_not_found(&ScopeLookup::Global), None);
}

#[test]
fn history_access_rules() {
    let unconstrained = Grant { resource: Resource::Executions, actions: vec![Action::Read], constraints: None };
    assert!(authorize_history_list_access(TokenType::Access, HistoryEntityType::Execution, None, &vec![unconstrained]).is_ok());
    assert_eq!(
        authorize_history_list_access(TokenType::Access, HistoryEntityType::Worker, None, &vec![]).unwrap_err(),
        ApiError::Forbidden("Scoped history access requires an entity_id filter for worker history".to_string())
    );
    assert!(authorize_history_list_access(TokenType::Sensor, HistoryEntityType::Worker, Some(3), &vec![]).is_ok());
    assert_eq!(
        authorize_history_list_access(TokenType::Sensor, HistoryEntityType::Worker, None, &vec![]).unwrap_err(),
        ApiError::Forbidden("History list requires access or execution identity".to_string())
    );
    assert!(authorize_history_parent_access(TokenType::Access, HistoryEntityType::Execution, false, false).is_ok());
    assert_eq!(
        authorize_history_parent_access(TokenType::Execution, HistoryEntityType::Execution, true, false).unwrap_err(),
        ApiError::Forbidden("Insufficient permissions: executions:read".to_string())
    );
    assert_eq!(pack_ref_of_action_ref("core.echo").as_deref(), Some("core"));
    assert_eq!(pack_ref_of_action_ref("plain"), None);
}

#[test]
fn ancestor_walk_collects_distinct_executors_within_limit() {
    let mut walk = AncestorWalk::start(Some(10));
    assert_eq!(walk.next_lookup(), Some(10));
    walk.record(Some((Some(7), Some(11))));
    assert_eq!(walk.next_lookup(), Some(11));
    walk.record(Some((None, Some(12))));
    walk.record(Some((Some(3), Some(13))));
    walk.record(Some((Some(7), None)));
    assert_eq!(walk.next_lookup(), None);
    assert_eq!(walk.finish(), vec![3, 7]);

    let mut endless = AncestorWalk::start(Some(1));
    let mut lookups = 0;
    while let Some(id) = endless.next_lookup() {
        lookups += 1;
        endless.record(Some((Some(id), Some(id + 1))));
    }
    assert_eq!(lookups, 64);

    let mut missing = AncestorWalk::start(Some(1));
    missing.record(None);
    assert_eq!(missing.next_lookup(), None);
}

#[test]
fn identity_administration_guards() {
    assert!(check_identity_deletion(1, 2).is_ok());
    assert_eq!(
        check_identity_deletion(1, 1).unwrap_err(),
        ApiError::BadRequest("Refusing to delete the currently authenticated identity".to_string())
    );
    assert!(check_identity_freeze(1, 1, false).is_ok());
    assert!(check_identity_freeze(1, 1, true).is_err());
    assert_eq!(freeze_message(true), "Identity frozen successfully");
    assert!(check_assignment_unmanaged(true).is_err());
    assert!(check_token_expiry(Some(10), 5).is_ok());
    assert!(check_token_expiry(Some(5), 5).is_err());
    assert!(check_token_expiry(None, 5).is_ok());
    assert_eq!(
        check_token_owner(9, Some(2), 1).unwrap_err(),
        ApiError::NotFound("Integration token '9' not found".to_string())
    );
    assert_eq!(identity_lookup(Some(4), None).unwrap(), IdentityLookup::ById(4));
    assert!(identity_lookup(Some(4), Some("x")).is_err());
    assert_eq!(
        identity_lookup(None, None).unwrap_err(),
        ApiError::BadRequest("Either identity_id or identity_login is required".to_string())
    );
    assert_eq!(
        identity_not_found(&IdentityLookup::ByLogin("bob".to_string())),
        ApiError::NotFound("Identity 'bob' not found".to_string())
    );
}

#[test]
fn permission_set_grants_reject_ids_and_mixed_scopes() {
    let mut ids = bare_constraints();
    ids.ids = Some(vec![1]);
    let grant = Grant { resource: Resource::Packs, actions: vec![Action::Read], constraints: Some(ids) };
    assert_eq!(
        validate_permission_grants(&vec![grant]).unwrap_err(),
        ApiError::BadRequest(
            "Permission set grants cannot be scoped by database IDs; use metadata refs instead".to_string()
        )
    );
    let mut mixed = bare_constraints();
    mixed.pack_refs = Some(vec!["p".to_string()]);
    mixed.refs = Some(vec!["p.a".to_string()]);
    let grant = Grant { resource: Resource::Actions, actions: vec![Action::Read], constraints: Some(mixed) };
    assert_eq!(
        validate_permission_grants(&vec![grant]).unwrap_err(),
        ApiError::BadRequest("Permission set grants can be pack scoped or component scoped, not both".to_string())
    );
    let plain = Grant { resource: Resource::Packs, actions: vec![Action::Read], constraints: None };
    assert!(validate_permission_grants(&vec![plain]).is_ok());
}

#[test]
fn event_creation_and_attribution() {
    assert!(matches!(check_event_creator(TokenType::Access), Err(ApiError::Forbidden(_))));
    assert!(check_event_creator(TokenType::Sensor).is_ok());
    assert_eq!(
        check_trigger_enabled("core.timer", false).unwrap_err(),
        ApiError::BadRequest("Trigger 'core.timer' is disabled".to_string())
    );
    assert_eq!(rule_id_from_instance(Some("rule_42")), Some(42));
    assert_eq!(rule_id_from_instance(Some("rule_x")), None);
    assert_eq!(rule_id_from_instance(Some("timer_42")), None);
    assert_eq!(event_rule_link(Some(42), Some(("core.r".to_string(), Some(5))), 5), (Some(42), Some("core.r".to_string())));
    assert_eq!(event_rule_link(Some(42), Some(("core.r".to_string(), Some(6))), 5), (None, None));
    assert_eq!(event_source(TokenType::Sensor, "core.sensor", None), (None, Some("core.sensor".to_string())));
    assert_eq!(event_source(TokenType::Execution, "x", Some(3)), (None, None));
}

#[test]
fn event_and_enforcement_visibility_redacts_uncovered_refs() {
    let mut event = EventRefs {
        rule: Some(1),
        rule_ref: Some("core.r".to_string()),
        trigger: Some(2),
        trigger_ref: "core.t".to_string(),
    };
    apply_event_visibility(&mut event, false, false, true, false);
    assert_eq!(event.rule, None);
    assert_eq!(event.trigger_ref, "core.t");
    let mut hidden = EventRefs { rule: None, rule_ref: None, trigger: Some(2), trigger_ref: "core.t".to_string() };
    apply_event_visibility(&mut hidden, true, false, false, false);
    assert_eq!(hidden.trigger, None);
    assert_eq!(hidden.trigger_ref, "[redacted]");
    let mut enforcement = EnforcementRefs { rule: Some(1), rule_ref: "core.r".to_string(), trigger_ref: "core.t".to_string() };
    apply_enforcement_visibility(&mut enforcement, false, true, false);
    assert_eq!(enforcement.rule_ref, "[redacted]");
    assert_eq!(enforcement.trigger_ref, "core.t");
    let none: Vec<Grant> = vec![];
    let open_events = vec![Grant { resource: Resource::Events, actions: vec![Action::Read], constraints: None }];
    let scoped_events = vec![Grant {
        resource: Resource::Events,
        actions: vec![Action::Read],
        constraints: Some(GrantConstraints { refs: Some(vec!["core.t".to_string()]), ..bare_constraints() }),
    }];
    assert_eq!(event_access_step(None, TokenType::Sensor, Action::Read), EventAccessStep::Allowed);
    assert_eq!(event_access_step(Some(&none), TokenType::Sensor, Action::Read), EventAccessStep::MissingGrant);
    assert_eq!(event_access_step(Some(&none), TokenType::Access, Action::Decrypt), EventAccessStep::MissingGrant);
    assert_eq!(event_access_step(Some(&open_events), TokenType::Sensor, Action::Read), EventAccessStep::Allowed);
    assert_eq!(event_access_step(Some(&open_events), TokenType::Access, Action::Decrypt), EventAccessStep::MissingGrant);
    assert_eq!(event_access_step(Some(&none), TokenType::Access, Action::Read), EventAccessStep::CheckVisibility);
    assert_eq!(
        event_access_step(Some(&scoped_events), TokenType::Access, Action::Read),
        EventAccessStep::CheckVisibility
    );
    assert!(event_visibility_result(false).is_err());
}

#[test]
fn health_and_runtime_answers() {
    let report = health_detailed_report(true, "0.2.1").unwrap();
    assert_eq!(report.status, "ok");
    assert_eq!(report.database, "connected");
    let failure = health_detailed_report(false, "0.2.1").unwrap_err();
    assert_eq!(failure.database, "disconnected");
    assert_eq!(readiness_status(false), HealthStatus::ServiceUnavailable);
    assert!(matches!(check_runtime_ref_available("py", true), Err(ApiError::Conflict(_))));
    assert_eq!(runtime_config_disclosure(false), ExecutionConfigDisclosure::Redacted);
}

#[test]
fn inquiry_listing_helpers() {
    assert_eq!(parse_inquiry_status("Canceled").unwrap(), InquiryStatus::Cancelled);
    assert!(parse_inquiry_status("cancelled").is_err());
    let page = inquiry_page(Some(1000), Some(1000));
    assert_eq!((page.limit, page.offset, page.page), (500, 1000, 3));
    let (rows, more) = split_page(vec![1, 2, 3], 2);
    assert_eq!(rows, vec![1, 2]);
    assert!(more);
    let summary = InquirySummary { id: 1, execution: 55, prompt: "ok?".to_string(), status: InquiryStatus::Pending, assigned_to: None };
    let redacted = redact_inquiry_summary(summary, false);
    assert_eq!(redacted.execution, 0);
}

#[test]
fn visibility_filters_follow_the_read_grants() {
    let unconstrained_pack = Grant { resource: Resource::Packs, actions: vec![Action::Read], constraints: None };
    let mut refs = bare_constraints();
    refs.refs = Some(vec!["p".to_string()]);
    let scoped_pack = Grant { resource: Resource::Packs, actions: vec![Action::Read], constraints: Some(refs) };
    let filter = build_pack_visibility_filter(7, &vec![unconstrained_pack, scoped_pack]);
    assert_eq!(filter.identity_id, 7);
    assert_eq!(filter.own_or_ownerless_scopes.len(), 2);
    assert_eq!(filter.other_owner_scopes.len(), 1);

    let everything = Grant { resource: Resource::Policies, actions: vec![Action::Read], constraints: None };
    let policies = build_policy_visibility_filter(&vec![everything]);
    assert_eq!(policies.scopes.len(), 1);
    assert_eq!(policies.scopes[0].refs, None);
}
