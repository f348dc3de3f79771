use attune_routes::auth::{ApiError, AuthenticatedUser, Claims, TokenType};
use attune_routes::keys::{
    can_read_any_key, check_key_ref_available, key_action_allowed, key_owner_ref, owner_lookup_needed,
    owner_not_found, plan_key_creation_storage, plan_key_read, plan_key_update, require_key_permission,
    requested_key_owner_ref, CreateKeyRequest, KeyAuditEvent, KeyOperation, KeyUpdatePlan, KeyValueDisclosure,
    KeyValueStore, OwnerLookup,
};
use attune_routes::keys::{build_key_audit_event, AuditOutcome};
use attune_routes::rbac::{
    compile_key_grant_filter, compile_key_read_grant_filters, key_filter_matches, key_row_meets_filter_constraints,
    Action, ExecutionScopeConstraint, Grant, GrantConstraints, KeyRow, OwnerConstraint, OwnerType, Resource,
};

fn empty_constraints() -> GrantConstraints {
    GrantConstraints {
        pack_refs: None,
        owner: None,
        owner_types: None,
        owner_refs: None,
        visibility: None,
        execution_scope: None,
        refs: None,
        ids: None,
        encrypted: None,
        attributes: None,
    }
}

fn read_grant(constraints: Option<GrantConstraints>) -> Grant {
    Grant { resource: Resource::Keys, actions: vec![Action::Read], constraints }
}

fn create_request(owner_type: OwnerType) -> CreateKeyRequest {
    CreateKeyRequest {
        key_ref: "k".to_string(),
        owner_type,
        owner: Some("free".to_string()),
        owner_identity: None,
        owner_pack: None,
        owner_pack_ref: Some("pack_a".to_string()),
        owner_action: None,
        owner_action_ref: Some("pack_a.act".to_string()),
        owner_sensor: Some(5),
        owner_sensor_ref: Some("pack_a.sens".to_string()),
        name: "n".to_string(),
        encrypted: false,
    }
}

#[test]
fn grants_relying_on_unpopulated_context_fields_are_excluded_or_no_op() {
    let mut pack_refs = empty_constraints();
    pack_refs.pack_refs = Some(vec!["some_pack".to_string()]);
    assert!(compile_key_grant_filter(&read_grant(Some(pack_refs))).is_none());

    let mut visibility = empty_constraints();
    visibility.visibility = Some(vec!["public".to_string()]);
    assert!(compile_key_grant_filter(&read_grant(Some(visibility))).is_none());

    let mut self_only = empty_constraints();
    self_only.execution_scope = Some(ExecutionScopeConstraint::SelfOnly);
    assert!(compile_key_grant_filter(&read_grant(Some(self_only))).is_none());

    let mut any_scope = empty_constraints();
    any_scope.execution_scope = Some(ExecutionScopeConstraint::Any);
    assert!(compile_key_grant_filter(&read_grant(Some(any_scope))).is_some());

    let mut attrs = empty_constraints();
    attrs.attributes = Some(vec!["team".to_string()]);
    assert!(compile_key_grant_filter(&read_grant(Some(attrs))).is_none());

    let mut empty_attrs = empty_constraints();
    empty_attrs.attributes = Some(vec![]);
    assert!(compile_key_grant_filter(&read_grant(Some(empty_attrs))).is_some());
}

#[test]
fn non_matching_resource_or_action_grants_are_dropped() {
    let wrong_resource = Grant { resource: Resource::Artifacts, actions: vec![Action::Read], constraints: None };
    let wrong_action = Grant { resource: Resource::Keys, actions: vec![Action::Update], constraints: None };
    let compiled = compile_key_read_grant_filters(&vec![wrong_resource, wrong_action]);
    assert!(compiled.is_empty());
}

#[test]
fn key_owner_refs_follow_the_owner_type() {
    assert_eq!(key_owner_ref(OwnerType::Pack, Some("o"), Some("p"), Some("a"), Some("s")).as_deref(), Some("p"));
    assert_eq!(key_owner_ref(OwnerType::Action, Some("o"), Some("p"), Some("a"), Some("s")).as_deref(), Some("a"));
    assert_eq!(key_owner_ref(OwnerType::Sensor, Some("o"), Some("p"), Some("a"), Some("s")).as_deref(), Some("s"));
    assert_eq!(key_owner_ref(OwnerType::Identity, Some("o"), Some("p"), Some("a"), None).as_deref(), Some("o"));
    assert_eq!(key_owner_ref(OwnerType::System, None, Some("p"), None, None), None);
    assert_eq!(requested_key_owner_ref(&create_request(OwnerType::Pack)).as_deref(), Some("pack_a"));
}

#[test]
fn foreign_identity_keys_need_owner_scoped_grants() {
    let unconstrained = read_grant(None);
    let mut scoped_c = empty_constraints();
    scoped_c.owner = Some(OwnerConstraint::Any);
    let scoped = read_grant(Some(scoped_c));
    assert!(!key_action_allowed(OwnerType::Identity, Some(99), 42, &vec![unconstrained], Action::Read, &vec![true], true));
    assert!(key_action_allowed(OwnerType::Identity, Some(99), 42, &vec![scoped], Action::Read, &vec![true], false));
    assert!(key_action_allowed(OwnerType::Identity, Some(42), 42, &vec![], Action::Read, &vec![], true));
    assert!(!key_action_allowed(OwnerType::Pack, None, 42, &vec![], Action::Read, &vec![], false));
}

#[test]
fn key_reads_withhold_values_without_decrypt_permission() {
    assert_eq!(
        plan_key_read("k", TokenType::Access, false, true, true, true).unwrap_err(),
        ApiError::NotFound("Key 'k' not found".to_string())
    );
    let withheld = plan_key_read("k", TokenType::Access, true, false, true, true).unwrap();
    assert_eq!(withheld.value, KeyValueDisclosure::Withheld);
    assert_eq!(withheld.audit_event, KeyAuditEvent::Read);
    let decrypted = plan_key_read("k", TokenType::Execution, true, true, true, true).unwrap();
    assert_eq!(decrypted.value, KeyValueDisclosure::Decrypted);
    assert_eq!(decrypted.audit_event, KeyAuditEvent::Decrypted);
    let sensor = plan_key_read("k", TokenType::Sensor, false, false, true, true).unwrap();
    assert_eq!(sensor.value, KeyValueDisclosure::Decrypted);
    assert_eq!(plan_key_read("k", TokenType::Access, true, false, false, false).unwrap().value, KeyValueDisclosure::AsStored);
    assert_eq!(
        plan_key_read("k", TokenType::Access, true, true, true, false).unwrap_err(),
        ApiError::InternalServerError("Encryption key not configured on server".to_string())
    );
}

#[test]
fn key_updates_encrypt_by_request_or_existing_flag() {
    assert_eq!(
        plan_key_update(true, None, true, true).unwrap(),
        KeyUpdatePlan { store: KeyValueStore::Encrypt, encrypted: Some(true) }
    );
    assert_eq!(
        plan_key_update(true, Some(false), true, true).unwrap(),
        KeyUpdatePlan { store: KeyValueStore::Plain, encrypted: Some(false) }
    );
    assert_eq!(
        plan_key_update(false, Some(true), false, false).unwrap(),
        KeyUpdatePlan { store: KeyValueStore::Keep, encrypted: Some(true) }
    );
    assert_eq!(
        plan_key_update(true, Some(true), false, false).unwrap_err(),
        ApiError::BadRequest("Cannot encrypt: encryption key not configured on server".to_string())
    );
    assert_eq!(plan_key_creation_storage(false, false).unwrap(), KeyValueStore::Plain);
    assert!(plan_key_creation_storage(true, false).is_err());
}

#[test]
fn key_permissions_and_conflicts_have_fixed_messages() {
    assert_eq!(
        require_key_permission(false, KeyOperation::Create).unwrap_err(),
        ApiError::Forbidden("Insufficient permissions: keys:create".to_string())
    );
    assert!(require_key_permission(true, KeyOperation::Delete).is_ok());
    assert_eq!(
        check_key_ref_available("dup", true).unwrap_err(),
        ApiError::Conflict("Key with ref 'dup' already exists".to_string())
    );
    assert!(can_read_any_key(&vec![read_grant(None)]));
    assert!(!can_read_any_key(&vec![]));
}

#[test]
fn owner_ids_are_looked_up_only_when_missing() {
    assert_eq!(owner_lookup_needed(&create_request(OwnerType::Pack)), Some(OwnerLookup::Pack("pack_a".to_string())));
    assert_eq!(owner_lookup_needed(&create_request(OwnerType::Sensor)), None);
    assert_eq!(owner_lookup_needed(&create_request(OwnerType::System)), None);
    assert_eq!(
        owner_not_found(&OwnerLookup::Action("x.y".to_string())),
        ApiError::BadRequest("Action with ref 'x.y' not found".to_string())
    );
}

#[test]
fn empty_grants_yield_no_visibility() {
    let identity_id = 42;
    let key = key_fixture(1, "a.token", OwnerType::System, None, None, None, false);
    assert!(!assert_parity(&vec![], identity_id, &key, "no-grants"));
    assert!(compile_key_read_grant_filters(&vec![]).is_empty());
}

fn key_fixture(
    id: i64,
    key_ref: &str,
    owner_type: OwnerType,
    owner: Option<&str>,
    owner_identity: Option<i64>,
    owner_pack_ref: Option<&str>,
    encrypted: bool,
) -> KeyRow {
    KeyRow {
        id,
        key_ref: key_ref.to_string(),
        owner_type,
        owner_identity,
        owner_ref: key_owner_ref(owner_type, owner, owner_pack_ref, None, None),
        encrypted,
    }
}

// The filters' verdict on a key row, and the key read permission check on
// the same key, where each grant's own verdict on the key's context is its
// filter's verdict on the constraint columns.
fn assert_parity(grants: &Vec<Grant>, identity_id: i64, key: &KeyRow, case: &str) -> bool {
    let compiled = compile_key_read_grant_filters(grants);
    let actual = compiled.iter().any(|f| key_filter_matches(f, identity_id, key));
    let grant_allows: Vec<bool> = grants
        .iter()
        .map(|g| match compile_key_grant_filter(g) {
            Some(f) => key_row_meets_filter_constraints(&f, identity_id, key),
            None => false,
        })
        .collect();
    let service_allows = grants
        .iter()
        .zip(grant_allows.iter())
        .any(|(g, allows)| g.resource == Resource::Keys && g.actions.contains(&Action::Read) && *allows);
    let expected = key_action_allowed(
        key.owner_type,
        key.owner_identity,
        identity_id,
        grants,
        Action::Read,
        &grant_allows,
        service_allows,
    );
    assert_eq!(actual, expected, "case `{case}` mismatch");
    actual
}

#[test]
fn unconstrained_grant_matches_everything_except_other_identity_owned_keys() {
    let identity_id = 42;
    let grants = vec![read_grant(None)];
    let own_identity_key = key_fixture(1, "me.token", OwnerType::Identity, None, Some(42), None, true);
    let other_identity_key = key_fixture(2, "other.token", OwnerType::Identity, None, Some(99), None, true);
    let pack_key = key_fixture(3, "pack.token", OwnerType::Pack, None, None, Some("some_pack"), false);
    assert!(assert_parity(&grants, identity_id, &own_identity_key, "unconstrained/own-identity"));
    assert!(!assert_parity(&grants, identity_id, &other_identity_key, "unconstrained/other-identity"));
    assert!(assert_parity(&grants, identity_id, &pack_key, "unconstrained/pack"));
}

#[test]
fn owner_types_constraint_matches_key_action_allowed() {
    let identity_id = 42;
    let grants = vec![read_grant(Some(GrantConstraints {
        owner_types: Some(vec![OwnerType::System, OwnerType::Pack]),
        ..empty_constraints()
    }))];
    let system_key = key_fixture(1, "sys.token", OwnerType::System, None, None, None, false);
    let pack_key = key_fixture(2, "pack.token", OwnerType::Pack, None, None, Some("p"), false);
    let identity_key = key_fixture(3, "id.token", OwnerType::Identity, None, Some(99), None, false);
    assert!(assert_parity(&grants, identity_id, &system_key, "owner_types/system"));
    assert!(assert_parity(&grants, identity_id, &pack_key, "owner_types/pack"));
    assert!(!assert_parity(&grants, identity_id, &identity_key, "owner_types/identity-excluded"));
}

#[test]
fn owner_refs_constraint_uses_owner_type_dependent_column() {
    let identity_id = 42;
    let grants = vec![read_grant(Some(GrantConstraints {
        owner_types: Some(vec![OwnerType::Pack]),
        owner_refs: Some(vec!["allowed_pack".to_string()]),
        ..empty_constraints()
    }))];
    let allowed = key_fixture(1, "allowed.token", OwnerType::Pack, None, None, Some("allowed_pack"), false);
    let other = key_fixture(2, "other.token", OwnerType::Pack, None, None, Some("other_pack"), false);
    assert!(assert_parity(&grants, identity_id, &allowed, "owner_refs/match"));
    assert!(!assert_parity(&grants, identity_id, &other, "owner_refs/no-match"));
}

#[test]
fn owner_self_only_constraint_scopes_to_requesting_identity() {
    let identity_id = 42;
    let grants = vec![read_grant(Some(GrantConstraints { owner: Some(OwnerConstraint::SelfOnly), ..empty_constraints() }))];
    let own_key = key_fixture(1, "me.token", OwnerType::Identity, None, Some(42), None, false);
    let other_key = key_fixture(2, "other.token", OwnerType::Identity, None, Some(99), None, false);
    assert!(assert_parity(&grants, identity_id, &own_key, "owner_self_only/own"));
    assert!(!assert_parity(&grants, identity_id, &other_key, "owner_self_only/other"));
}

#[test]
fn ids_and_refs_constraints_are_exact_match() {
    let identity_id = 42;
    let grants = vec![read_grant(Some(GrantConstraints { ids: Some(vec![5]), ..empty_constraints() }))];
    let matching = key_fixture(5, "a.token", OwnerType::System, None, None, None, false);
    let non_matching = key_fixture(6, "b.token", OwnerType::System, None, None, None, false);
    assert!(assert_parity(&grants, identity_id, &matching, "ids/match"));
    assert!(!assert_parity(&grants, identity_id, &non_matching, "ids/no-match"));

    let grants = vec![read_grant(Some(GrantConstraints { refs: Some(vec!["a.token".to_string()]), ..empty_constraints() }))];
    assert!(assert_parity(&grants, identity_id, &matching, "refs/match"));
    assert!(!assert_parity(&grants, identity_id, &non_matching, "refs/no-match"));
}

#[test]
fn encrypted_constraint_matches_key_action_allowed() {
    let identity_id = 42;
    let grants = vec![read_grant(Some(GrantConstraints { encrypted: Some(false), ..empty_constraints() }))];
    let plain = key_fixture(1, "a.token", OwnerType::System, None, None, None, false);
    let secret = key_fixture(2, "b.token", OwnerType::System, None, None, None, true);
    assert!(assert_parity(&grants, identity_id, &plain, "encrypted/false-matches-plain"));
    assert!(!assert_parity(&grants, identity_id, &secret, "encrypted/false-excludes-secret"));
}

#[test]
fn key_decrypt_audit_event_redacts_secret_value() {
    let user = AuthenticatedUser {
        claims: Claims {
            sub: "42".to_string(),
            login: "testuser".to_string(),
            iat: 0,
            exp: 3600,
            token_type: TokenType::Access,
            scope: None,
            metadata: None,
        },
    };
    // The event details (with the value shown as `***`) are attached by the caller.
    let event = build_key_audit_event(&user, "key.decrypted", AuditOutcome::Success, 123, "finance.api_token");
    assert_eq!(event.event_type, "key.decrypted");
    assert_eq!(event.outcome, AuditOutcome::Success);
    assert_eq!(event.actor_identity, Some(42));
    assert_eq!(event.resource, "key");
    assert_eq!(event.resource_id, 123);
    assert_eq!(event.resource_ref, "finance.api_token");
    assert_eq!(event.actor_login, "testuser");
    assert_eq!(event.actor_token_type, "access");
    assert!(!format!("{:?}", event).contains("super-secret-token"));
}
