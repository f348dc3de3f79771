//! Keys and secrets: who owns a key, which grants decide access to it, and
//! what a read, a creation or an update does with the key's value.

use vstd::prelude::*;
use crate::auth::{
    api_err, opt_str_view, opt_string_view, outcome, token_identity_id, token_type_name, token_type_text, ApiError,
    AuthenticatedUser, ErrorKind, ErrorView, TokenType,
};
use crate::rbac::{
    contains_action, grant_applies, key_filter_spec, key_read_filters_spec, key_row_matches, key_row_meets_constraints,
    Action, Grant, KeyGrantFilterView, KeyRow, OwnerType, Resource,
};

verus! {

/// The ref of a key's owner, read from the column that its owner type
/// uses: the pack, action or sensor ref, or the free-form owner otherwise.
pub open spec fn key_owner_ref_spec(
    owner_type: OwnerType,
    owner: Option<Seq<char>>,
    owner_pack_ref: Option<Seq<char>>,
    owner_action_ref: Option<Seq<char>>,
    owner_sensor_ref: Option<Seq<char>>,
) -> Option<Seq<char>> {
    match owner_type {
        OwnerType::Pack => owner_pack_ref,
        OwnerType::Action => owner_action_ref,
        OwnerType::Sensor => owner_sensor_ref,
        _ => owner,
    }
}

fn owned(o: Option<&str>) -> (r: Option<String>)
    ensures
        opt_string_view(r) == opt_str_view(o),
{
    match o {
        Some(s) => Some(s.to_string()),
        None => None,
    }
}

/// The ref of a key's owner.
pub fn key_owner_ref(
    owner_type: OwnerType,
    owner: Option<&str>,
    owner_pack_ref: Option<&str>,
    owner_action_ref: Option<&str>,
    owner_sensor_ref: Option<&str>,
) -> (r: Option<String>)
    ensures
        opt_string_view(r) == key_owner_ref_spec(
            owner_type,
            opt_str_view(owner),
            opt_str_view(owner_pack_ref),
            opt_str_view(owner_action_ref),
            opt_str_view(owner_sensor_ref),
        ),
{
    match owner_type {
        OwnerType::Pack => owned(owner_pack_ref),
        OwnerType::Action => owned(owner_action_ref),
        OwnerType::Sensor => owned(owner_sensor_ref),
        _ => owned(owner),
    }
}

fn as_str_opt(o: &Option<String>) -> (r: Option<&str>)
    ensures
        opt_str_view(r) == opt_string_view(*o),
{
    match o {
        Some(s) => Some(s.as_str()),
        None => None,
    }
}

/// A request to create a key, without its value.
#[derive(Debug, PartialEq, Eq)]
pub struct CreateKeyRequest {
    pub key_ref: String,
    pub owner_type: OwnerType,
    pub owner: Option<String>,
    pub owner_identity: Option<i64>,
    pub owner_pack: Option<i64>,
    pub owner_pack_ref: Option<String>,
    pub owner_action: Option<i64>,
    pub owner_action_ref: Option<String>,
    pub owner_sensor: Option<i64>,
    pub owner_sensor_ref: Option<String>,
    pub name: String,
    pub encrypted: bool,
}

/// The owner ref named by a creation request.
pub fn requested_key_owner_ref(request: &CreateKeyRequest) -> (r: Option<String>)
    ensures
        opt_string_view(r) == key_owner_ref_spec(
            request.owner_type,
            opt_string_view(request.owner),
            opt_string_view(request.owner_pack_ref),
            opt_string_view(request.owner_action_ref),
            opt_string_view(request.owner_sensor_ref),
        ),
{
    key_owner_ref(
        request.owner_type,
        as_str_opt(&request.owner),
        as_str_opt(&request.owner_pack_ref),
        as_str_opt(&request.owner_action_ref),
        as_str_opt(&request.owner_sensor_ref),
    )
}

/// Whether keys are filtered by the caller's grants: for access and
/// execution tokens; sensor and worker tokens see keys unfiltered.
pub open spec fn key_rbac_applies_spec(token_type: TokenType) -> bool {
    token_type == TokenType::Access || token_type == TokenType::Execution
}

/// Whether keys are filtered by the caller's grants.
pub fn key_rbac_applies(token_type: TokenType) -> (b: bool)
    ensures
        b == key_rbac_applies_spec(token_type),
{
    matches!(token_type, TokenType::Access | TokenType::Execution)
}

/// Whether a key belongs to another identity than the caller.
pub open spec fn foreign_identity_key(owner_type: OwnerType, owner_identity: Option<i64>, identity_id: i64) -> bool {
    owner_type == OwnerType::Identity && owner_identity != Some(identity_id)
}

/// Whether a grant may decide `action` on a key of another identity: a
/// constrained grant on keys, naming owners or keys, that lists the action.
pub open spec fn owner_scoped_key_grant(g: Grant, action: Action) -> bool {
    &&& g.constraints is Some
    &&& {
        let c = g.constraints->0;
        c.owner is Some || c.owner_types is Some || c.owner_refs is Some || c.refs is Some || c.ids is Some
    }
    &&& g.resource == Resource::Keys
    &&& g.actions@.contains(action)
}

/// Whether some owner-scoped key grant allows `action` in the key's
/// authorization context (`grant_allows[i]` for `grants[i]`).
pub open spec fn constrained_key_grants_allow(grants: Seq<Grant>, action: Action, grant_allows: Seq<bool>) -> bool {
    exists|i: int| 0 <= i < grants.len() && owner_scoped_key_grant(grants[i], action) && grant_allows[i]
}

/// Whether an owner-scoped grant allows `action` on a key of another
/// identity; `grant_allows[i]` tells whether `grants[i]` allows it in the
/// key's authorization context.
pub fn constrained_key_grant_allows(grants: &Vec<Grant>, action: Action, grant_allows: &Vec<bool>) -> (b: bool)
    requires
        grant_allows.len() == grants.len(),
    ensures
        b == constrained_key_grants_allow(grants@, action, grant_allows@),
{
    let mut i: usize = 0;
    while i < grants.len()
        invariant
            i <= grants.len(),
            grant_allows.len() == grants.len(),
            forall|j: int| 0 <= j < i ==> !(owner_scoped_key_grant(#[trigger] grants@[j], action) && grant_allows@[j]),
        decreases grants.len() - i,
    {
        let g = &grants[i];
        if let Some(c) = &g.constraints {
            let scoped = c.owner.is_some() || c.owner_types.is_some() || c.owner_refs.is_some() || c.refs.is_some()
                || c.ids.is_some();
            if scoped && g.resource == Resource::Keys && contains_action(&g.actions, action) && grant_allows[i] {
                assert(owner_scoped_key_grant(grants@[i as int], action));
                return true;
            }
        }
        i = i + 1;
    }
    false
}

/// Whether `action` is allowed on a key: keys of other identities only
/// through an owner-scoped grant, others as the grants decide for the
/// caller (`service_allows`).
pub open spec fn key_action_allowed_spec(
    owner_type: OwnerType,
    owner_identity: Option<i64>,
    identity_id: i64,
    grants: Seq<Grant>,
    action: Action,
    grant_allows: Seq<bool>,
    service_allows: bool,
) -> bool {
    if foreign_identity_key(owner_type, owner_identity, identity_id) {
        constrained_key_grants_allow(grants, action, grant_allows)
    } else {
        service_allows
    }
}

/// Decides whether the caller may perform `action` on a key.
pub fn key_action_allowed(
    owner_type: OwnerType,
    owner_identity: Option<i64>,
    identity_id: i64,
    grants: &Vec<Grant>,
    action: Action,
    grant_allows: &Vec<bool>,
    service_allows: bool,
) -> (b: bool)
    requires
        grant_allows.len() == grants.len(),
    ensures
        b == key_action_allowed_spec(owner_type, owner_identity, identity_id, grants@, action, grant_allows@, service_allows),
{
    if owner_type == OwnerType::Identity && owner_identity != Some(identity_id) {
        return constrained_key_grant_allows(grants, action, grant_allows);
    }
    service_allows
}

/// The key operations whose permission is checked.
#[derive(Debug, Clone, Copy, PartialEq, Eq, Structural)]
pub enum KeyOperation {
    Read,
    Create,
    Update,
    Delete,
}

/// The error for a caller lacking permission for a key operation.
pub open spec fn key_permission_message(op: KeyOperation) -> Seq<char> {
    match op {
        KeyOperation::Read => "Insufficient permissions: keys:read"@,
        KeyOperation::Create => "Insufficient permissions: keys:create"@,
        KeyOperation::Update => "Insufficient permissions: keys:update"@,
        KeyOperation::Delete => "Insufficient permissions: keys:delete"@,
    }
}

/// Refuses a key operation that the caller's grants do not allow.
pub fn require_key_permission(allowed: bool, op: KeyOperation) -> (r: Result<(), ApiError>)
    ensures
        outcome(r) == if allowed {
            Ok::<(), ErrorView>(())
        } else {
            Err(api_err(ErrorKind::Forbidden, key_permission_message(op)))
        },
{
    if allowed {
        return Ok(());
    }
    let message = match op {
        KeyOperation::Read => "Insufficient permissions: keys:read",
        KeyOperation::Create => "Insufficient permissions: keys:create",
        KeyOperation::Update => "Insufficient permissions: keys:update",
        KeyOperation::Delete => "Insufficient permissions: keys:delete",
    };
    Err(ApiError::Forbidden(String::from_str(message)))
}

/// Whether some grant gives `Read` on keys at all.
pub open spec fn can_read_any_key_spec(grants: Seq<Grant>) -> bool {
    exists|i: int| 0 <= i < grants.len() && grants[i].resource == Resource::Keys && grants[i].actions@.contains(Action::Read)
}

/// Whether some grant gives `Read` on keys; listing keys needs one.
pub fn can_read_any_key(grants: &Vec<Grant>) -> (b: bool)
    ensures
        b == can_read_any_key_spec(grants@),
{
    let mut i: usize = 0;
    while i < grants.len()
        invariant
            i <= grants.len(),
            forall|j: int| 0 <= j < i ==> !(grants@[j].resource == Resource::Keys && #[trigger] grants@[j].actions@.contains(Action::Read)),
        decreases grants.len() - i,
    {
        if grants[i].resource == Resource::Keys && contains_action(&grants[i].actions, Action::Read) {
            return true;
        }
        i = i + 1;
    }
    false
}

/// What a response carries of a key's value.
#[derive(Debug, Clone, Copy, PartialEq, Eq, Structural)]
pub enum KeyValueDisclosure {
    /// The stored value of an unencrypted key.
    AsStored,
    /// The decrypted value of an encrypted key.
    Decrypted,
    /// Nothing (`null`): the caller may read the key but not decrypt it.
    Withheld,
}

/// The audit events of key operations.
#[derive(Debug, Clone, Copy, PartialEq, Eq, Structural)]
pub enum KeyAuditEvent {
    Read,
    Decrypted,
    Created,
    Updated,
    Deleted,
}

/// How a key read is answered.
#[derive(Debug, Clone, Copy, PartialEq, Eq, Structural)]
pub struct KeyReadPlan {
    pub value: KeyValueDisclosure,
    pub audit_event: KeyAuditEvent,
}

/// The error for a key that does not exist or may not be seen.
pub open spec fn key_not_found_message(key_ref: Seq<char>) -> Seq<char> {
    "Key '"@ + key_ref + "' not found"@
}

/// The error when the server has no encryption key to decrypt with.
pub open spec fn server_key_missing_message() -> Seq<char> {
    "Encryption key not configured on server"@
}

/// Whether the caller of a read may see the decrypted value.
pub open spec fn read_can_decrypt(token_type: TokenType, decrypt_allowed: bool, encrypted: bool) -> bool {
    !key_rbac_applies_spec(token_type) || !encrypted || decrypt_allowed
}

/// How a key read is answered: a key the caller may not read is reported
/// as missing; an encrypted key is decrypted only for callers allowed to
/// decrypt it (and only when the server holds an encryption key), and
/// withheld from the others; the audit event records a decryption.
pub open spec fn key_read_spec(
    key_ref: Seq<char>,
    token_type: TokenType,
    read_allowed: bool,
    decrypt_allowed: bool,
    encrypted: bool,
    encryption_key_configured: bool,
) -> Result<KeyReadPlan, ErrorView> {
    let can_decrypt = read_can_decrypt(token_type, decrypt_allowed, encrypted);
    if key_rbac_applies_spec(token_type) && !read_allowed {
        Err(api_err(ErrorKind::NotFound, key_not_found_message(key_ref)))
    } else if encrypted && can_decrypt && !encryption_key_configured {
        Err(api_err(ErrorKind::InternalServerError, server_key_missing_message()))
    } else if !encrypted {
        Ok(KeyReadPlan { value: KeyValueDisclosure::AsStored, audit_event: KeyAuditEvent::Read })
    } else if can_decrypt {
        Ok(KeyReadPlan { value: KeyValueDisclosure::Decrypted, audit_event: KeyAuditEvent::Decrypted })
    } else {
        Ok(KeyReadPlan { value: KeyValueDisclosure::Withheld, audit_event: KeyAuditEvent::Read })
    }
}

fn key_not_found(key_ref: &str) -> (e: ApiError)
    ensures
        e@ == api_err(ErrorKind::NotFound, key_not_found_message(key_ref@)),
{
    let mut message = String::from_str("Key '");
    message.append(key_ref);
    message.append("' not found");
    ApiError::NotFound(message)
}

/// Decides how a key read is answered.
pub fn plan_key_read(
    key_ref: &str,
    token_type: TokenType,
    read_allowed: bool,
    decrypt_allowed: bool,
    encrypted: bool,
    encryption_key_configured: bool,
) -> (r: Result<KeyReadPlan, ApiError>)
    ensures
        outcome(r) == key_read_spec(
            key_ref@,
            token_type,
            read_allowed,
            decrypt_allowed,
            encrypted,
            encryption_key_configured,
        ),
{
    let rbac = key_rbac_applies(token_type);
    if rbac && !read_allowed {
        return Err(key_not_found(key_ref));
    }
    let can_decrypt = if rbac {
        if encrypted {
            decrypt_allowed
        } else {
            true
        }
    } else {
        true
    };
    if encrypted && can_decrypt && !encryption_key_configured {
        return Err(ApiError::InternalServerError(String::from_str("Encryption key not configured on server")));
    }
    if !encrypted {
        Ok(KeyReadPlan { value: KeyValueDisclosure::AsStored, audit_event: KeyAuditEvent::Read })
    } else if can_decrypt {
        Ok(KeyReadPlan { value: KeyValueDisclosure::Decrypted, audit_event: KeyAuditEvent::Decrypted })
    } else {
        Ok(KeyReadPlan { value: KeyValueDisclosure::Withheld, audit_event: KeyAuditEvent::Read })
    }
}

/// The error for a key ref that is taken.
pub open spec fn key_exists_message(key_ref: Seq<char>) -> Seq<char> {
    "Key with ref '"@ + key_ref + "' already exists"@
}

/// A new key's ref must not be in use.
pub fn check_key_ref_available(key_ref: &str, taken: bool) -> (r: Result<(), ApiError>)
    ensures
        outcome(r) == if taken {
            Err(api_err(ErrorKind::Conflict, key_exists_message(key_ref@)))
        } else {
            Ok::<(), ErrorView>(())
        },
{
    if taken {
        let mut message = String::from_str("Key with ref '");
        message.append(key_ref);
        message.append("' already exists");
        return Err(ApiError::Conflict(message));
    }
    Ok(())
}

/// An owner whose numeric id must be looked up from its ref.
#[derive(Debug, PartialEq, Eq)]
pub enum OwnerLookup {
    Sensor(String),
    Action(String),
    Pack(String),
}

/// Mathematical view of an [`OwnerLookup`]: the owner type and the ref.
pub open spec fn owner_lookup_view(l: OwnerLookup) -> (OwnerType, Seq<char>) {
    match l {
        OwnerLookup::Sensor(r) => (OwnerType::Sensor, r@),
        OwnerLookup::Action(r) => (OwnerType::Action, r@),
        OwnerLookup::Pack(r) => (OwnerType::Pack, r@),
    }
}

/// The owner to resolve for a creation request: a sensor, action or pack
/// owner given only by its ref.
pub open spec fn owner_lookup_spec(request: CreateKeyRequest) -> Option<(OwnerType, Seq<char>)> {
    match request.owner_type {
        OwnerType::Sensor => if request.owner_sensor is None && request.owner_sensor_ref is Some {
            Some((OwnerType::Sensor, request.owner_sensor_ref->0@))
        } else {
            None
        },
        OwnerType::Action => if request.owner_action is None && request.owner_action_ref is Some {
            Some((OwnerType::Action, request.owner_action_ref->0@))
        } else {
            None
        },
        OwnerType::Pack => if request.owner_pack is None && request.owner_pack_ref is Some {
            Some((OwnerType::Pack, request.owner_pack_ref->0@))
        } else {
            None
        },
        _ => None,
    }
}

/// Which owner id a creation request leaves to be resolved from its ref.
pub fn owner_lookup_needed(request: &CreateKeyRequest) -> (r: Option<OwnerLookup>)
    ensures
        match r {
            Some(l) => owner_lookup_spec(*request) == Some(owner_lookup_view(l)),
            None => owner_lookup_spec(*request) is None,
        },
{
    match request.owner_type {
        OwnerType::Sensor => match (&request.owner_sensor, &request.owner_sensor_ref) {
            (None, Some(r)) => Some(OwnerLookup::Sensor(r.clone())),
            _ => None,
        },
        OwnerType::Action => match (&request.owner_action, &request.owner_action_ref) {
            (None, Some(r)) => Some(OwnerLookup::Action(r.clone())),
            _ => None,
        },
        OwnerType::Pack => match (&request.owner_pack, &request.owner_pack_ref) {
            (None, Some(r)) => Some(OwnerLookup::Pack(r.clone())),
            _ => None,
        },
        _ => None,
    }
}

/// The error for an owner ref that names nothing.
pub open spec fn owner_not_found_message(owner_type: OwnerType, owner_ref: Seq<char>) -> Seq<char> {
    let kind = match owner_type {
        OwnerType::Sensor => "Sensor"@,
        OwnerType::Action => "Action"@,
        _ => "Pack"@,
    };
    kind + " with ref '"@ + owner_ref + "' not found"@
}

/// The error returned when an owner ref resolves to nothing.
pub fn owner_not_found(lookup: &OwnerLookup) -> (e: ApiError)
    ensures
        e@ == api_err(
            ErrorKind::BadRequest,
            owner_not_found_message(owner_lookup_view(*lookup).0, owner_lookup_view(*lookup).1),
        ),
{
    let (kind, r) = match lookup {
        OwnerLookup::Sensor(r) => ("Sensor", r),
        OwnerLookup::Action(r) => ("Action", r),
        OwnerLookup::Pack(r) => ("Pack", r),
    };
    let mut message = String::from_str(kind);
    message.append(" with ref '");
    message.append(r.as_str());
    message.append("' not found");
    ApiError::BadRequest(message)
}

/// The error when a value is to be encrypted but the server has no key.
pub open spec fn cannot_encrypt_message() -> Seq<char> {
    "Cannot encrypt: encryption key not configured on server"@
}

/// How a key's value is written.
#[derive(Debug, Clone, Copy, PartialEq, Eq, Structural)]
pub enum KeyValueStore {
    /// The value is left as it is.
    Keep,
    /// The new value is stored as given.
    Plain,
    /// The new value is encrypted with the server key.
    Encrypt,
}

/// How a new key's value is stored: encrypted when requested, which needs
/// the server's encryption key.
pub fn plan_key_creation_storage(encrypted: bool, encryption_key_configured: bool) -> (r: Result<KeyValueStore, ApiError>)
    ensures
        outcome(r) == if !encrypted {
            Ok::<KeyValueStore, ErrorView>(KeyValueStore::Plain)
        } else if encryption_key_configured {
            Ok(KeyValueStore::Encrypt)
        } else {
            Err(api_err(ErrorKind::BadRequest, cannot_encrypt_message()))
        },
{
    if !encrypted {
        Ok(KeyValueStore::Plain)
    } else if encryption_key_configured {
        Ok(KeyValueStore::Encrypt)
    } else {
        Err(ApiError::BadRequest(String::from_str("Cannot encrypt: encryption key not configured on server")))
    }
}

/// What an update writes: how the value is stored and the new encryption
/// flag (`None` keeps it).
#[derive(Debug, Clone, Copy, PartialEq, Eq, Structural)]
pub struct KeyUpdatePlan {
    pub store: KeyValueStore,
    pub encrypted: Option<bool>,
}

/// How an update writes a key: a new value is encrypted when the request
/// asks for encryption, or says nothing and the key was encrypted; without
/// a new value only the requested flag is written.
pub open spec fn key_update_spec(
    value_given: bool,
    requested_encrypted: Option<bool>,
    existing_encrypted: bool,
    encryption_key_configured: bool,
) -> Result<KeyUpdatePlan, ErrorView> {
    if value_given {
        let should_encrypt = match requested_encrypted {
            Some(e) => e,
            None => existing_encrypted,
        };
        if should_encrypt {
            if encryption_key_configured {
                Ok(KeyUpdatePlan { store: KeyValueStore::Encrypt, encrypted: Some(true) })
            } else {
                Err(api_err(ErrorKind::BadRequest, cannot_encrypt_message()))
            }
        } else {
            Ok(KeyUpdatePlan { store: KeyValueStore::Plain, encrypted: Some(false) })
        }
    } else {
        Ok(KeyUpdatePlan { store: KeyValueStore::Keep, encrypted: requested_encrypted })
    }
}

/// Decides how an update writes a key.
pub fn plan_key_update(
    value_given: bool,
    requested_encrypted: Option<bool>,
    existing_encrypted: bool,
    encryption_key_configured: bool,
) -> (r: Result<KeyUpdatePlan, ApiError>)
    ensures
        outcome(r) == key_update_spec(value_given, requested_encrypted, existing_encrypted, encryption_key_configured),
{
    if value_given {
        let should_encrypt = match requested_encrypted {
            Some(e) => e,
            None => existing_encrypted,
        };
        if should_encrypt {
            if !encryption_key_configured {
                return Err(ApiError::BadRequest(
                    String::from_str("Cannot encrypt: encryption key not configured on server"),
                ));
            }
            Ok(KeyUpdatePlan { store: KeyValueStore::Encrypt, encrypted: Some(true) })
        } else {
            Ok(KeyUpdatePlan { store: KeyValueStore::Plain, encrypted: Some(false) })
        }
    } else {
        Ok(KeyUpdatePlan { store: KeyValueStore::Keep, encrypted: requested_encrypted })
    }
}

/// A caller that may read a key but not decrypt it never receives the
/// decrypted value, and a decryption is always audited as one.
pub proof fn law_key_read_never_discloses_without_decrypt(
    key_ref: Seq<char>,
    token_type: TokenType,
    read_allowed: bool,
    decrypt_allowed: bool,
    encrypted: bool,
    configured: bool,
)
    ensures
        match key_read_spec(key_ref, token_type, read_allowed, decrypt_allowed, encrypted, configured) {
            Ok(plan) => {
                &&& (plan.value == KeyValueDisclosure::Decrypted) ==> encrypted && (!key_rbac_applies_spec(token_type) || decrypt_allowed)
                &&& (plan.value == KeyValueDisclosure::Decrypted) <==> (plan.audit_event == KeyAuditEvent::Decrypted)
                &&& (plan.value == KeyValueDisclosure::AsStored) <==> !encrypted
            },
            Err(_) => true,
        },
{
}

/// An update with a new value always leaves the key's encryption flag
/// set to whether the value was encrypted.
pub proof fn law_key_update_flag_matches_storage(
    requested_encrypted: Option<bool>,
    existing_encrypted: bool,
    configured: bool,
)
    ensures
        match key_update_spec(true, requested_encrypted, existing_encrypted, configured) {
            Ok(plan) => plan.encrypted == Some(plan.store == KeyValueStore::Encrypt) && plan.store != KeyValueStore::Keep,
            Err(_) => !configured,
        },
{
}

/// Whether some filter of a list admits the key row.
pub open spec fn key_filters_admit(fs: Seq<KeyGrantFilterView>, identity_id: i64, row: KeyRow) -> bool {
    exists|k: int| 0 <= k < fs.len() && key_row_matches(#[trigger] fs[k], identity_id, row)
}

proof fn lemma_read_filters_origin(grants: Seq<Grant>)
    ensures
        forall|k: int| #![trigger key_read_filters_spec(grants)[k]] 0 <= k < key_read_filters_spec(grants).len() ==> exists|i: int|
            0 <= i < grants.len() && grant_applies(grants[i], Resource::Keys, Action::Read)
                && #[trigger] key_filter_spec(grants[i]) == Some(key_read_filters_spec(grants)[k]),
        forall|i: int| 0 <= i < grants.len() && grant_applies(grants[i], Resource::Keys, Action::Read)
            && (#[trigger] key_filter_spec(grants[i])) is Some ==> key_read_filters_spec(grants).contains(
            key_filter_spec(grants[i])->0,
        ),
    decreases grants.len(),
{
    if grants.len() > 0 {
        let prev = grants.drop_last();
        lemma_read_filters_origin(prev);
        let fp = key_read_filters_spec(prev);
        let f = key_read_filters_spec(grants);
        assert forall|k: int| #![trigger f[k]] 0 <= k < f.len() implies exists|i: int|
            0 <= i < grants.len() && grant_applies(grants[i], Resource::Keys, Action::Read)
                && #[trigger] key_filter_spec(grants[i]) == Some(f[k]) by {
            if k < fp.len() {
                assert(f[k] == fp[k]);
                let i = choose|i: int|
                    0 <= i < prev.len() && grant_applies(prev[i], Resource::Keys, Action::Read)
                        && #[trigger] key_filter_spec(prev[i]) == Some(fp[k]);
                assert(grants[i] == prev[i]);
            } else {
                let n = grants.len() - 1;
                assert(key_filter_spec(grants[n]) == Some(f[k]));
            }
        }
        assert forall|i: int| 0 <= i < grants.len() && grant_applies(grants[i], Resource::Keys, Action::Read)
            && (#[trigger] key_filter_spec(grants[i])) is Some implies f.contains(key_filter_spec(grants[i])->0) by {
            if i < grants.len() - 1 {
                assert(grants[i] == prev[i]);
                let x = key_filter_spec(prev[i])->0;
                assert(fp.contains(x));
                let k = choose|k: int| 0 <= k < fp.len() && fp[k] == x;
                assert(f[k] == fp[k]);
            } else {
                assert(f[f.len() - 1] == key_filter_spec(grants[i])->0);
            }
        }
    }
}

/// The compiled key read filters admit a key row exactly when the key read
/// permission check allows the read, provided each key read grant's own
/// verdict on the key (`grant_allows[i]`) is its compiled filter's verdict
/// on the constraint columns (a grant that compiles to no filter allows
/// nothing), and the service allows the read when some key read grant does.
pub proof fn law_key_read_filters_match_read_permission(
    grants: Seq<Grant>,
    identity_id: i64,
    row: KeyRow,
    grant_allows: Seq<bool>,
    service_allows: bool,
)
    requires
        grant_allows.len() == grants.len(),
        forall|i: int| 0 <= i < grants.len() && grant_applies(grants[i], Resource::Keys, Action::Read) ==> (
            #[trigger] grant_allows[i] <==> (key_filter_spec(grants[i]) matches Some(f) && key_row_meets_constraints(
                f,
                identity_id,
                row,
            ))),
        service_allows <==> exists|i: int|
            0 <= i < grants.len() && grant_applies(grants[i], Resource::Keys, Action::Read) && #[trigger] grant_allows[i],
    ensures
        key_filters_admit(key_read_filters_spec(grants), identity_id, row) == key_action_allowed_spec(
            row.owner_type,
            row.owner_identity,
            identity_id,
            grants,
            Action::Read,
            grant_allows,
            service_allows,
        ),
{
    lemma_read_filters_origin(grants);
    let fs = key_read_filters_spec(grants);
    let foreign = foreign_identity_key(row.owner_type, row.owner_identity, identity_id);
    if key_filters_admit(fs, identity_id, row) {
        let k = choose|k: int| 0 <= k < fs.len() && key_row_matches(#[trigger] fs[k], identity_id, row);
        let i = choose|i: int|
            0 <= i < grants.len() && grant_applies(grants[i], Resource::Keys, Action::Read)
                && #[trigger] key_filter_spec(grants[i]) == Some(fs[k]);
        assert(grant_allows[i]);
        if foreign {
            assert(fs[k].owner_scoped);
            assert(owner_scoped_key_grant(grants[i], Action::Read));
        }
    }
    if key_action_allowed_spec(row.owner_type, row.owner_identity, identity_id, grants, Action::Read, grant_allows, service_allows) {
        let i = if foreign {
            choose|i: int| 0 <= i < grants.len() && owner_scoped_key_grant(grants[i], Action::Read) && grant_allows[i]
        } else {
            choose|i: int|
                0 <= i < grants.len() && grant_applies(grants[i], Resource::Keys, Action::Read) && #[trigger] grant_allows[i]
        };
        assert(grant_applies(grants[i], Resource::Keys, Action::Read));
        assert(grant_allows[i]);
        let f = key_filter_spec(grants[i])->0;
        assert(fs.contains(f));
        let k = choose|k: int| 0 <= k < fs.len() && fs[k] == f;
        assert(key_row_matches(fs[k], identity_id, row));
    }
}

/// How an audited action ended.
#[derive(Debug, Clone, Copy, PartialEq, Eq, Structural)]
pub enum AuditOutcome {
    Success,
    Denied,
}

/// The audit record of an operation on a key: a secret-category event
/// about the key, with the acting caller. Event details are attached by
/// the caller.
#[derive(Debug, PartialEq, Eq)]
pub struct KeyAuditRecord {
    pub event_type: String,
    pub outcome: AuditOutcome,
    pub resource: String,
    pub resource_id: i64,
    pub resource_ref: String,
    pub actor_identity: Option<i64>,
    pub actor_login: String,
    pub actor_token_type: String,
}

/// Builds the audit record of an operation on key `key_id` / `key_ref`:
/// resource `key`, the caller's identity when its subject is one, its login
/// and its token type in lower case.
pub fn build_key_audit_event(
    user: &AuthenticatedUser,
    event_type: &str,
    outcome: AuditOutcome,
    key_id: i64,
    key_ref: &str,
) -> (r: KeyAuditRecord)
    ensures
        r.event_type@ == event_type@,
        r.outcome == outcome,
        r.resource@ == "key"@,
        r.resource_id == key_id,
        r.resource_ref@ == key_ref@,
        r.actor_identity == token_identity_id(user.claims),
        r.actor_login@ == user.claims.login@,
        r.actor_token_type@ == token_type_name(user.claims.token_type),
{
    KeyAuditRecord {
        event_type: String::from_str(event_type),
        outcome,
        resource: String::from_str("key"),
        resource_id: key_id,
        resource_ref: String::from_str(key_ref),
        actor_identity: user.claims.identity_id(),
        actor_login: user.claims.login.clone(),
        actor_token_type: String::from_str(token_type_text(user.claims.token_type)),
    }
}

} // verus!
