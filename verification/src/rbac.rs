//! Role-based access control grants: what each resource supports, and how
//! grants are compiled into row-visibility filters for keys, packs and
//! policies.

use vstd::prelude::*;
use crate::auth::{api_err, outcome, ApiError, ErrorKind, ErrorView};
use crate::text::{copy_strings, string_views};

verus! {

/// A kind of object that grants are about.
#[derive(Debug, Clone, Copy, PartialEq, Eq, Structural)]
pub enum Resource {
    Packs,
    Actions,
    Policies,
    Queues,
    QueueItems,
    Rules,
    Triggers,
    Executions,
    Events,
    Enforcements,
    Inquiries,
    Keys,
    Artifacts,
    Runtimes,
    Workers,
    Retention,
    Identities,
    Permissions,
    AuditLog,
}

/// An operation that a grant permits.
#[derive(Debug, Clone, Copy, PartialEq, Eq, Structural)]
pub enum Action {
    Read,
    Create,
    Update,
    Delete,
    Execute,
    Cancel,
    Decrypt,
    Respond,
    Install,
    Configure,
    Manage,
}

/// Who owns a key.
#[derive(Debug, Clone, Copy, PartialEq, Eq, Structural)]
pub enum OwnerType {
    System,
    Identity,
    Pack,
    Action,
    Sensor,
}

/// Constraint on the owning identity of an object: the caller's own, any
/// owner, or objects without an owner.
#[derive(Debug, Clone, Copy, PartialEq, Eq, Structural)]
pub enum OwnerConstraint {
    SelfOnly,
    Any,
    Unowned,
}

/// Constraint on which executions a grant covers.
#[derive(Debug, Clone, Copy, PartialEq, Eq, Structural)]
pub enum ExecutionScopeConstraint {
    Any,
    SelfOnly,
    Descendants,
}

/// The optional restrictions of a grant. Artifact visibilities and identity
/// attributes are kept by name only: the route logic reads whether they are
/// present and whether the attribute map is empty.
#[derive(Debug, PartialEq, Eq)]
pub struct GrantConstraints {
    pub pack_refs: Option<Vec<String>>,
    pub owner: Option<OwnerConstraint>,
    pub owner_types: Option<Vec<OwnerType>>,
    pub owner_refs: Option<Vec<String>>,
    pub visibility: Option<Vec<String>>,
    pub execution_scope: Option<ExecutionScopeConstraint>,
    pub refs: Option<Vec<String>>,
    pub ids: Option<Vec<i64>>,
    pub encrypted: Option<bool>,
    pub attributes: Option<Vec<String>>,
}

/// A permission: actions on a resource, optionally constrained.
#[derive(Debug, PartialEq, Eq)]
pub struct Grant {
    pub resource: Resource,
    pub actions: Vec<Action>,
    pub constraints: Option<GrantConstraints>,
}

/// Whether the grant lists `a`.
pub open spec fn grant_has_action(g: Grant, a: Action) -> bool {
    g.actions@.contains(a)
}

pub(crate) fn contains_action(actions: &Vec<Action>, a: Action) -> (b: bool)
    ensures
        b == actions@.contains(a),
{
    let mut i: usize = 0;
    while i < actions.len()
        invariant
            i <= actions.len(),
            forall|j: int| 0 <= j < i ==> actions@[j] != a,
        decreases actions.len() - i,
    {
        if actions[i] == a {
            assert(actions@[i as int] == a);
            return true;
        }
        i = i + 1;
    }
    false
}

/// Whether some grant gives unconstrained `Read` on `resource`.
pub open spec fn unconstrained_read_exists(grants: Seq<Grant>, resource: Resource) -> bool {
    exists|i: int|
        0 <= i < grants.len() && grants[i].resource == resource && grant_has_action(grants[i], Action::Read)
            && grants[i].constraints is None
}

/// Whether the grants give unconstrained read access to `resource`.
pub fn has_unconstrained_read(grants: &Vec<Grant>, resource: Resource) -> (b: bool)
    ensures
        b == unconstrained_read_exists(grants@, resource),
{
    let mut i: usize = 0;
    while i < grants.len()
        invariant
            i <= grants.len(),
            forall|j: int|
                0 <= j < i ==> !(grants@[j].resource == resource && grant_has_action(grants@[j], Action::Read)
                    && grants@[j].constraints is None),
        decreases grants.len() - i,
    {
        let g = &grants[i];
        if g.resource == resource && contains_action(&g.actions, Action::Read) && g.constraints.is_none() {
            return true;
        }
        i = i + 1;
    }
    false
}

/// Whether constraints restrict nothing: no dimension is set.
pub open spec fn no_dimension_set(c: GrantConstraints) -> bool {
    &&& c.pack_refs is None
    &&& c.owner is None
    &&& c.owner_types is None
    &&& c.owner_refs is None
    &&& c.visibility is None
    &&& c.execution_scope is None
    &&& c.refs is None
    &&& c.ids is None
    &&& c.encrypted is None
    &&& c.attributes is None
}

/// Whether a grant is unconstrained: no constraints, or constraints with no
/// dimension set.
pub open spec fn grant_unconstrained(g: Grant) -> bool {
    match g.constraints {
        None => true,
        Some(c) => no_dimension_set(c),
    }
}

/// Whether some grant gives `action` on `resource` without constraints.
pub open spec fn unconstrained_action_exists(grants: Seq<Grant>, resource: Resource, action: Action) -> bool {
    exists|i: int|
        0 <= i < grants.len() && #[trigger] grants[i].resource == resource && grant_has_action(grants[i], action)
            && grant_unconstrained(grants[i])
}

/// Whether the grants give `action` on `resource` without constraints.
pub fn has_unconstrained_resource_action(grants: &Vec<Grant>, resource: Resource, action: Action) -> (b: bool)
    ensures
        b == unconstrained_action_exists(grants@, resource, action),
{
    let mut i: usize = 0;
    while i < grants.len()
        invariant
            i <= grants.len(),
            forall|j: int|
                0 <= j < i ==> !(#[trigger] grants@[j].resource == resource && grant_has_action(grants@[j], action)
                    && grant_unconstrained(grants@[j])),
        decreases grants.len() - i,
    {
        let g = &grants[i];
        let unconstrained = match &g.constraints {
            None => true,
            Some(c) => c.pack_refs.is_none() && c.owner.is_none() && c.owner_types.is_none() && c.owner_refs.is_none()
                && c.visibility.is_none() && c.execution_scope.is_none() && c.refs.is_none() && c.ids.is_none()
                && c.encrypted.is_none() && c.attributes.is_none(),
        };
        if g.resource == resource && contains_action(&g.actions, action) && unconstrained {
            return true;
        }
        i = i + 1;
    }
    false
}

/// Whether some grant gives `action` on `resource`, constrained or not.
pub open spec fn resource_action_exists(grants: Seq<Grant>, resource: Resource, action: Action) -> bool {
    exists|i: int|
        0 <= i < grants.len() && #[trigger] grants[i].resource == resource && grant_has_action(grants[i], action)
}

/// Whether some grant gives `action` on `resource`, constrained or not.
pub fn resource_action_grant_exists(grants: &Vec<Grant>, resource: Resource, action: Action) -> (b: bool)
    ensures
        b == resource_action_exists(grants@, resource, action),
{
    let mut i: usize = 0;
    while i < grants.len()
        invariant
            i <= grants.len(),
            forall|j: int|
                0 <= j < i ==> !(#[trigger] grants@[j].resource == resource && grant_has_action(grants@[j], action)),
        decreases grants.len() - i,
    {
        if grants[i].resource == resource && contains_action(&grants[i].actions, action) {
            return true;
        }
        i = i + 1;
    }
    false
}

/// The debug name of an action, used in messages.
pub open spec fn action_name(a: Action) -> Seq<char> {
    match a {
        Action::Read => "Read"@,
        Action::Create => "Create"@,
        Action::Update => "Update"@,
        Action::Delete => "Delete"@,
        Action::Execute => "Execute"@,
        Action::Cancel => "Cancel"@,
        Action::Decrypt => "Decrypt"@,
        Action::Respond => "Respond"@,
        Action::Install => "Install"@,
        Action::Configure => "Configure"@,
        Action::Manage => "Manage"@,
    }
}

/// The debug name of an action.
pub fn action_debug_name(a: Action) -> (s: &'static str)
    ensures
        s@ == action_name(a),
{
    match a {
        Action::Read => "Read",
        Action::Create => "Create",
        Action::Update => "Update",
        Action::Delete => "Delete",
        Action::Execute => "Execute",
        Action::Cancel => "Cancel",
        Action::Decrypt => "Decrypt",
        Action::Respond => "Respond",
        Action::Install => "Install",
        Action::Configure => "Configure",
        Action::Manage => "Manage",
    }
}

/// The debug name of a resource, used in messages.
pub open spec fn resource_name(r: Resource) -> Seq<char> {
    match r {
        Resource::Packs => "Packs"@,
        Resource::Actions => "Actions"@,
        Resource::Policies => "Policies"@,
        Resource::Queues => "Queues"@,
        Resource::QueueItems => "QueueItems"@,
        Resource::Rules => "Rules"@,
        Resource::Triggers => "Triggers"@,
        Resource::Executions => "Executions"@,
        Resource::Events => "Events"@,
        Resource::Enforcements => "Enforcements"@,
        Resource::Inquiries => "Inquiries"@,
        Resource::Keys => "Keys"@,
        Resource::Artifacts => "Artifacts"@,
        Resource::Runtimes => "Runtimes"@,
        Resource::Workers => "Workers"@,
        Resource::Retention => "Retention"@,
        Resource::Identities => "Identities"@,
        Resource::Permissions => "Permissions"@,
        Resource::AuditLog => "AuditLog"@,
    }
}

/// The debug name of a resource.
pub fn resource_debug_name(r: Resource) -> (s: &'static str)
    ensures
        s@ == resource_name(r),
{
    match r {
        Resource::Packs => "Packs",
        Resource::Actions => "Actions",
        Resource::Policies => "Policies",
        Resource::Queues => "Queues",
        Resource::QueueItems => "QueueItems",
        Resource::Rules => "Rules",
        Resource::Triggers => "Triggers",
        Resource::Executions => "Executions",
        Resource::Events => "Events",
        Resource::Enforcements => "Enforcements",
        Resource::Inquiries => "Inquiries",
        Resource::Keys => "Keys",
        Resource::Artifacts => "Artifacts",
        Resource::Runtimes => "Runtimes",
        Resource::Workers => "Workers",
        Resource::Retention => "Retention",
        Resource::Identities => "Identities",
        Resource::Permissions => "Permissions",
        Resource::AuditLog => "AuditLog",
    }
}

/// The actions each resource supports in grants.
pub open spec fn action_supported(r: Resource, a: Action) -> bool {
    match r {
        Resource::Packs => a == Action::Read || a == Action::Create || a == Action::Install
            || a == Action::Configure || a == Action::Delete,
        Resource::Actions => a == Action::Read || a == Action::Create || a == Action::Update
            || a == Action::Delete || a == Action::Execute,
        Resource::Executions => a == Action::Read || a == Action::Update || a == Action::Cancel
            || a == Action::Decrypt,
        Resource::Events | Resource::Enforcements => a == Action::Read || a == Action::Decrypt,
        Resource::Inquiries => a == Action::Read || a == Action::Create || a == Action::Update
            || a == Action::Delete || a == Action::Respond,
        Resource::Keys => a == Action::Read || a == Action::Create || a == Action::Update
            || a == Action::Delete || a == Action::Decrypt,
        Resource::Workers | Resource::Permissions => a == Action::Read || a == Action::Manage,
        Resource::Retention => a == Action::Read || a == Action::Update,
        Resource::AuditLog => a == Action::Read,
        _ => a == Action::Read || a == Action::Create || a == Action::Update || a == Action::Delete,
    }
}

/// Exec counterpart of [`action_supported`].
pub fn is_action_supported(r: Resource, a: Action) -> (b: bool)
    ensures
        b == action_supported(r, a),
{
    match r {
        Resource::Packs => matches!(a, Action::Read | Action::Create | Action::Install | Action::Configure | Action::Delete),
        Resource::Actions => matches!(a, Action::Read | Action::Create | Action::Update | Action::Delete | Action::Execute),
        Resource::Executions => matches!(a, Action::Read | Action::Update | Action::Cancel | Action::Decrypt),
        Resource::Events | Resource::Enforcements => matches!(a, Action::Read | Action::Decrypt),
        Resource::Inquiries => matches!(a, Action::Read | Action::Create | Action::Update | Action::Delete | Action::Respond),
        Resource::Keys => matches!(a, Action::Read | Action::Create | Action::Update | Action::Delete | Action::Decrypt),
        Resource::Workers | Resource::Permissions => matches!(a, Action::Read | Action::Manage),
        Resource::Retention => matches!(a, Action::Read | Action::Update),
        Resource::AuditLog => matches!(a, Action::Read),
        _ => matches!(a, Action::Read | Action::Create | Action::Update | Action::Delete),
    }
}

/// Outcome of checking a grant's actions: at least one, all supported.
pub open spec fn grant_actions_outcome(g: Grant) -> Result<(), ErrorView> {
    if g.actions@.len() == 0 || exists|i: int| 0 <= i < g.actions@.len() && !action_supported(g.resource, #[trigger] g.actions@[i]) {
        Err(api_err(
            ErrorKind::BadRequest,
            "Permission grant for "@ + resource_name(g.resource) + " includes unsupported actions"@,
        ))
    } else {
        Ok(())
    }
}

/// Checks that a grant lists at least one action and only supported ones.
pub fn validate_grant_actions(grant: &Grant) -> (r: Result<(), ApiError>)
    ensures
        outcome(r) == grant_actions_outcome(*grant),
{
    let mut ok = grant.actions.len() > 0;
    let mut i: usize = 0;
    while ok && i < grant.actions.len()
        invariant
            i <= grant.actions.len(),
            ok ==> forall|j: int| 0 <= j < i ==> action_supported(grant.resource, #[trigger] grant.actions@[j]),
            ok ==> grant.actions@.len() > 0,
            !ok ==> (grant.actions@.len() == 0 || exists|j: int| 0 <= j < grant.actions@.len() && !action_supported(grant.resource, #[trigger] grant.actions@[j])),
        decreases grant.actions.len() - i,
    {
        if !is_action_supported(grant.resource, grant.actions[i]) {
            ok = false;
        }
        i = i + 1;
    }
    if ok {
        Ok(())
    } else {
        let mut message = String::from_str("Permission grant for ");
        message.append(resource_debug_name(grant.resource));
        message.append(" includes unsupported actions");
        Err(ApiError::BadRequest(message))
    }
}

/// Resources whose grants may be limited to packs.
pub open spec fn supports_pack_scope(r: Resource) -> bool {
    r == Resource::Packs || r == Resource::Actions || r == Resource::Queues || r == Resource::Rules
        || r == Resource::Triggers || r == Resource::Executions || r == Resource::Enforcements
        || r == Resource::Artifacts
}

/// Resources whose grants may be limited to component refs.
pub open spec fn supports_ref_scope(r: Resource) -> bool {
    supports_pack_scope(r) || r == Resource::Keys
}

/// Outcome of checking which constraints a grant on `r` may carry.
pub open spec fn grant_constraints_outcome(r: Resource, c: GrantConstraints) -> Result<(), ErrorView> {
    if c.pack_refs is Some && !supports_pack_scope(r) {
        Err(api_err(ErrorKind::BadRequest, resource_name(r) + " grants do not support pack scope constraints"@))
    } else if c.refs is Some && !supports_ref_scope(r) {
        Err(api_err(ErrorKind::BadRequest, resource_name(r) + " grants do not support component ref constraints"@))
    } else if c.owner is Some && !(r == Resource::Packs || r == Resource::Keys || r == Resource::Artifacts) {
        Err(api_err(ErrorKind::BadRequest, resource_name(r) + " grants do not support owner constraints"@))
    } else if c.owner_types is Some && !(r == Resource::Keys || r == Resource::Artifacts) {
        Err(api_err(ErrorKind::BadRequest, resource_name(r) + " grants do not support owner type constraints"@))
    } else if c.visibility is Some && r != Resource::Artifacts {
        Err(api_err(ErrorKind::BadRequest, "Visibility constraints only apply to artifacts grants"@))
    } else if c.execution_scope is Some && r != Resource::Executions {
        Err(api_err(ErrorKind::BadRequest, "Execution scope constraints only apply to executions grants"@))
    } else if c.encrypted is Some && r != Resource::Keys {
        Err(api_err(ErrorKind::BadRequest, "Encryption constraints only apply to keys grants"@))
    } else {
        Ok(())
    }
}

fn resource_message(r: Resource, tail: &str) -> (e: ApiError)
    ensures
        e@ == api_err(ErrorKind::BadRequest, resource_name(r) + tail@),
{
    let mut message = String::from_str(resource_debug_name(r));
    message.append(tail);
    ApiError::BadRequest(message)
}

/// Checks that a grant on `resource` carries only constraints that apply to it.
pub fn validate_grant_constraints(resource: Resource, constraints: &GrantConstraints) -> (r: Result<(), ApiError>)
    ensures
        outcome(r) == grant_constraints_outcome(resource, *constraints),
{
    let pack_scope = matches!(
        resource,
        Resource::Packs | Resource::Actions | Resource::Queues | Resource::Rules | Resource::Triggers
            | Resource::Executions | Resource::Enforcements | Resource::Artifacts
    );
    if constraints.pack_refs.is_some() && !pack_scope {
        return Err(resource_message(resource, " grants do not support pack scope constraints"));
    }
    if constraints.refs.is_some() && !(pack_scope || resource == Resource::Keys) {
        return Err(resource_message(resource, " grants do not support component ref constraints"));
    }
    if constraints.owner.is_some() && !matches!(resource, Resource::Packs | Resource::Keys | Resource::Artifacts) {
        return Err(resource_message(resource, " grants do not support owner constraints"));
    }
    if constraints.owner_types.is_some() && !matches!(resource, Resource::Keys | Resource::Artifacts) {
        return Err(resource_message(resource, " grants do not support owner type constraints"));
    }
    if constraints.visibility.is_some() && resource != Resource::Artifacts {
        return Err(ApiError::BadRequest(String::from_str("Visibility constraints only apply to artifacts grants")));
    }
    if constraints.execution_scope.is_some() && resource != Resource::Executions {
        return Err(ApiError::BadRequest(String::from_str(
            "Execution scope constraints only apply to executions grants",
        )));
    }
    if constraints.encrypted.is_some() && resource != Resource::Keys {
        return Err(ApiError::BadRequest(String::from_str("Encryption constraints only apply to keys grants")));
    }
    Ok(())
}

/// The views of an optional list of strings.
pub open spec fn opt_strs(o: Option<Vec<String>>) -> Option<Seq<Seq<char>>> {
    match o {
        Some(v) => Some(string_views(v@)),
        None => None,
    }
}

/// The view of an optional list.
pub open spec fn opt_seq<T>(o: Option<Vec<T>>) -> Option<Seq<T>> {
    match o {
        Some(v) => Some(v@),
        None => None,
    }
}

/// A copy of a list of plain values.
pub fn copy_vec<T: Copy>(v: &Vec<T>) -> (r: Vec<T>)
    ensures
        r@ == v@,
{
    let mut r: Vec<T> = Vec::new();
    let mut i: usize = 0;
    while i < v.len()
        invariant
            i <= v.len(),
            r@ == v@.take(i as int),
        decreases v.len() - i,
    {
        r.push(v[i]);
        assert(r@ =~= v@.take(i + 1));
        i = i + 1;
    }
    assert(v@.take(v.len() as int) =~= v@);
    r
}

fn copy_opt_strings(o: &Option<Vec<String>>) -> (r: Option<Vec<String>>)
    ensures
        opt_strs(r) == opt_strs(*o),
{
    match o {
        Some(v) => Some(copy_strings(v)),
        None => None,
    }
}

fn copy_opt_vec<T: Copy>(o: &Option<Vec<T>>) -> (r: Option<Vec<T>>)
    ensures
        opt_seq(r) == opt_seq(*o),
{
    match o {
        Some(v) => Some(copy_vec(v)),
        None => None,
    }
}

/// A grant compiled into a predicate over key rows.
#[derive(Debug, PartialEq, Eq)]
pub struct KeyGrantFilter {
    pub owner_types: Option<Vec<OwnerType>>,
    pub owner: Option<OwnerConstraint>,
    pub owner_refs: Option<Vec<String>>,
    pub refs: Option<Vec<String>>,
    pub ids: Option<Vec<i64>>,
    pub encrypted: Option<bool>,
    /// Whether the grant also reaches keys owned by other identities.
    pub owner_scoped: bool,
}

/// Mathematical view of a [`KeyGrantFilter`].
pub struct KeyGrantFilterView {
    pub owner_types: Option<Seq<OwnerType>>,
    pub owner: Option<OwnerConstraint>,
    pub owner_refs: Option<Seq<Seq<char>>>,
    pub refs: Option<Seq<Seq<char>>>,
    pub ids: Option<Seq<i64>>,
    pub encrypted: Option<bool>,
    pub owner_scoped: bool,
}

/// The view of a key grant filter.
pub open spec fn key_filter_view(f: KeyGrantFilter) -> KeyGrantFilterView {
    KeyGrantFilterView {
        owner_types: opt_seq(f.owner_types),
        owner: f.owner,
        owner_refs: opt_strs(f.owner_refs),
        refs: opt_strs(f.refs),
        ids: opt_seq(f.ids),
        encrypted: f.encrypted,
        owner_scoped: f.owner_scoped,
    }
}

/// The views of a list of key grant filters.
pub open spec fn key_filters_view(v: Seq<KeyGrantFilter>) -> Seq<KeyGrantFilterView> {
    v.map_values(|f: KeyGrantFilter| key_filter_view(f))
}

/// Whether a non-empty attribute constraint is present.
pub open spec fn has_attribute_constraint(c: GrantConstraints) -> bool {
    c.attributes is Some && c.attributes->0@.len() > 0
}

/// Constraints that a key's authorization context can never satisfy.
pub open spec fn key_grant_never_matches(c: GrantConstraints) -> bool {
    c.pack_refs is Some || c.visibility is Some
        || c.execution_scope == Some(ExecutionScopeConstraint::SelfOnly)
        || c.execution_scope == Some(ExecutionScopeConstraint::Descendants)
        || has_attribute_constraint(c)
}

/// Whether constraints name particular key owners or keys.
pub open spec fn key_owner_scoped(c: GrantConstraints) -> bool {
    c.owner is Some || c.owner_types is Some || c.owner_refs is Some || c.refs is Some || c.ids is Some
}

/// The filter a grant compiles to, or `None` when it can never match a key.
pub open spec fn key_filter_spec(g: Grant) -> Option<KeyGrantFilterView> {
    match g.constraints {
        None => Some(KeyGrantFilterView {
            owner_types: None,
            owner: None,
            owner_refs: None,
            refs: None,
            ids: None,
            encrypted: None,
            owner_scoped: false,
        }),
        Some(c) => if key_grant_never_matches(c) {
            None
        } else {
            Some(KeyGrantFilterView {
                owner_types: opt_seq(c.owner_types),
                owner: c.owner,
                owner_refs: opt_strs(c.owner_refs),
                refs: opt_strs(c.refs),
                ids: opt_seq(c.ids),
                encrypted: c.encrypted,
                owner_scoped: key_owner_scoped(c),
            })
        },
    }
}

fn has_nonempty_attributes(c: &GrantConstraints) -> (b: bool)
    ensures
        b == has_attribute_constraint(*c),
{
    match &c.attributes {
        Some(a) => a.len() > 0,
        None => false,
    }
}

/// Translates one grant into a key-row filter.
pub fn compile_key_grant_filter(grant: &Grant) -> (r: Option<KeyGrantFilter>)
    ensures
        match r {
            Some(f) => key_filter_spec(*grant) == Some(key_filter_view(f)),
            None => key_filter_spec(*grant) is None,
        },
{
    let constraints = match &grant.constraints {
        None => {
            return Some(KeyGrantFilter {
                owner_types: None,
                owner: None,
                owner_refs: None,
                refs: None,
                ids: None,
                encrypted: None,
                owner_scoped: false,
            });
        },
        Some(c) => c,
    };
    let always_excluded = constraints.pack_refs.is_some() || constraints.visibility.is_some()
        || matches!(
            constraints.execution_scope,
            Some(ExecutionScopeConstraint::SelfOnly) | Some(ExecutionScopeConstraint::Descendants)
        ) || has_nonempty_attributes(constraints);
    if always_excluded {
        return None;
    }
    let owner_scoped = constraints.owner.is_some() || constraints.owner_types.is_some()
        || constraints.owner_refs.is_some() || constraints.refs.is_some() || constraints.ids.is_some();
    Some(KeyGrantFilter {
        owner_types: copy_opt_vec(&constraints.owner_types),
        owner: constraints.owner,
        owner_refs: copy_opt_strings(&constraints.owner_refs),
        refs: copy_opt_strings(&constraints.refs),
        ids: copy_opt_vec(&constraints.ids),
        encrypted: constraints.encrypted,
        owner_scoped,
    })
}

/// A key row as its read filters see it: id, ref, owner kind, owning
/// identity, owner ref (as `key_owner_ref` derives it) and whether the value
/// is encrypted.
#[derive(Debug, PartialEq, Eq)]
pub struct KeyRow {
    pub id: i64,
    pub key_ref: String,
    pub owner_type: OwnerType,
    pub owner_identity: Option<i64>,
    pub owner_ref: Option<String>,
    pub encrypted: bool,
}

/// Whether a key row meets the constraint columns of a filter.
pub open spec fn key_row_meets_constraints(f: KeyGrantFilterView, identity_id: i64, row: KeyRow) -> bool {
    &&& (f.owner_types matches Some(ts) ==> ts.contains(row.owner_type))
    &&& (f.owner matches Some(o) ==> match o {
        OwnerConstraint::SelfOnly => row.owner_identity == Some(identity_id),
        OwnerConstraint::Any => true,
        OwnerConstraint::Unowned => row.owner_identity is None,
    })
    &&& (f.owner_refs matches Some(rs) ==> row.owner_ref matches Some(r) && rs.contains(r@))
    &&& (f.refs matches Some(rs) ==> rs.contains(row.key_ref@))
    &&& (f.ids matches Some(ids) ==> ids.contains(row.id))
    &&& (f.encrypted matches Some(e) ==> e == row.encrypted)
}

/// The row predicate of one key read filter: the constraint columns, and
/// keys owned by another identity only for owner-scoped filters.
pub open spec fn key_row_matches(f: KeyGrantFilterView, identity_id: i64, row: KeyRow) -> bool {
    &&& key_row_meets_constraints(f, identity_id, row)
    &&& (!f.owner_scoped ==> !(row.owner_type == OwnerType::Identity && row.owner_identity != Some(identity_id)))
}

fn contains_i64(v: &Vec<i64>, x: i64) -> (b: bool)
    ensures
        b == v@.contains(x),
{
    let mut i: usize = 0;
    while i < v.len()
        invariant
            i <= v.len(),
            forall|j: int| 0 <= j < i ==> v@[j] != x,
        decreases v.len() - i,
    {
        if v[i] == x {
            assert(v@[i as int] == x);
            return true;
        }
        i = i + 1;
    }
    false
}

fn contains_owner_type(v: &Vec<OwnerType>, x: OwnerType) -> (b: bool)
    ensures
        b == v@.contains(x),
{
    let mut i: usize = 0;
    while i < v.len()
        invariant
            i <= v.len(),
            forall|j: int| 0 <= j < i ==> v@[j] != x,
        decreases v.len() - i,
    {
        if v[i] == x {
            assert(v@[i as int] == x);
            return true;
        }
        i = i + 1;
    }
    false
}

fn contains_text(v: &Vec<String>, x: &str) -> (b: bool)
    ensures
        b == string_views(v@).contains(x@),
{
    let ghost vs = string_views(v@);
    let mut i: usize = 0;
    while i < v.len()
        invariant
            i <= v.len(),
            vs == string_views(v@),
            forall|j: int| 0 <= j < i ==> vs[j] != x@,
        decreases v.len() - i,
    {
        if crate::text::str_eq(v[i].as_str(), x) {
            assert(vs[i as int] == x@);
            return true;
        }
        i = i + 1;
    }
    false
}

/// Whether a key row meets the constraint columns of a filter.
pub fn key_row_meets_filter_constraints(f: &KeyGrantFilter, identity_id: i64, row: &KeyRow) -> (b: bool)
    ensures
        b == key_row_meets_constraints(key_filter_view(*f), identity_id, *row),
{
    if let Some(ts) = &f.owner_types {
        if !contains_owner_type(ts, row.owner_type) {
            return false;
        }
    }
    if let Some(o) = f.owner {
        let ok = match o {
            OwnerConstraint::SelfOnly => row.owner_identity == Some(identity_id),
            OwnerConstraint::Any => true,
            OwnerConstraint::Unowned => row.owner_identity.is_none(),
        };
        if !ok {
            return false;
        }
    }
    if let Some(rs) = &f.owner_refs {
        match &row.owner_ref {
            Some(r) => {
                if !contains_text(rs, r.as_str()) {
                    return false;
                }
            },
            None => {
                return false;
            },
        }
    }
    if let Some(rs) = &f.refs {
        if !contains_text(rs, row.key_ref.as_str()) {
            return false;
        }
    }
    if let Some(ids) = &f.ids {
        if !contains_i64(ids, row.id) {
            return false;
        }
    }
    if let Some(e) = f.encrypted {
        if e != row.encrypted {
            return false;
        }
    }
    true
}

/// The row predicate a key read filter stands for.
pub fn key_filter_matches(f: &KeyGrantFilter, identity_id: i64, row: &KeyRow) -> (b: bool)
    ensures
        b == key_row_matches(key_filter_view(*f), identity_id, *row),
{
    key_row_meets_filter_constraints(f, identity_id, row) && (f.owner_scoped || !(row.owner_type == OwnerType::Identity
        && row.owner_identity != Some(identity_id)))
}

/// Whether a grant gives `action` on `resource`.
pub open spec fn grant_applies(g: Grant, resource: Resource, action: Action) -> bool {
    g.resource == resource && grant_has_action(g, action)
}

/// The filters compiled from the key read grants, in grant order.
pub open spec fn key_read_filters_spec(grants: Seq<Grant>) -> Seq<KeyGrantFilterView>
    decreases grants.len(),
{
    if grants.len() == 0 {
        Seq::empty()
    } else {
        let prev = key_read_filters_spec(grants.drop_last());
        let g = grants.last();
        if grant_applies(g, Resource::Keys, Action::Read) && key_filter_spec(g) is Some {
            prev.push(key_filter_spec(g)->0)
        } else {
            prev
        }
    }
}

/// Compiles the caller's key read grants into row filters.
pub fn compile_key_read_grant_filters(grants: &Vec<Grant>) -> (r: Vec<KeyGrantFilter>)
    ensures
        key_filters_view(r@) == key_read_filters_spec(grants@),
{
    let mut r: Vec<KeyGrantFilter> = Vec::new();
    let mut i: usize = 0;
    while i < grants.len()
        invariant
            i <= grants.len(),
            key_filters_view(r@) == key_read_filters_spec(grants@.take(i as int)),
        decreases grants.len() - i,
    {
        let ghost before = r@;
        let g = &grants[i];
        proof {
            assert(grants@.take(i + 1).drop_last() =~= grants@.take(i as int));
            assert(grants@.take(i + 1).last() == grants@[i as int]);
        }
        if g.resource == Resource::Keys && contains_action(&g.actions, Action::Read) {
            match compile_key_grant_filter(g) {
                Some(f) => {
                    r.push(f);
                    assert(key_filters_view(r@) =~= key_filters_view(before).push(key_filter_view(f)));
                },
                None => {},
            }
        }
        i = i + 1;
    }
    assert(grants@.take(grants.len() as int) =~= grants@);
    r
}

/// Whether constraints could ever match a pack, whose authorization context
/// has no owner type, artifact visibility, execution scope, encryption flag
/// or identity attributes.
pub open spec fn pack_context_feasible(c: GrantConstraints) -> bool {
    c.owner_types is None && c.visibility is None
        && (c.execution_scope is None || c.execution_scope == Some(ExecutionScopeConstraint::Any))
        && c.encrypted is None && !has_attribute_constraint(c)
}

/// Checks whether a grant's constraints could ever match a pack.
pub fn pack_grant_context_feasible(constraints: &GrantConstraints) -> (b: bool)
    ensures
        b == pack_context_feasible(*constraints),
{
    if constraints.owner_types.is_some() {
        return false;
    }
    if constraints.visibility.is_some() {
        return false;
    }
    if let Some(execution_scope) = constraints.execution_scope {
        if !matches!(execution_scope, ExecutionScopeConstraint::Any) {
            return false;
        }
    }
    if constraints.encrypted.is_some() {
        return false;
    }
    !has_nonempty_attributes(constraints)
}

/// One OR-branch of the pack visibility predicate.
#[derive(Debug, PartialEq, Eq)]
pub struct PackVisibilityScope {
    pub owner: Option<OwnerConstraint>,
    pub pack_refs: Option<Vec<String>>,
    pub refs: Option<Vec<String>>,
    pub ids: Option<Vec<i64>>,
}

/// Mathematical view of a [`PackVisibilityScope`].
pub struct PackScopeView {
    pub owner: Option<OwnerConstraint>,
    pub pack_refs: Option<Seq<Seq<char>>>,
    pub refs: Option<Seq<Seq<char>>>,
    pub ids: Option<Seq<i64>>,
}

/// The view of a pack visibility scope.
pub open spec fn pack_scope_view(s: PackVisibilityScope) -> PackScopeView {
    PackScopeView { owner: s.owner, pack_refs: opt_strs(s.pack_refs), refs: opt_strs(s.refs), ids: opt_seq(s.ids) }
}

/// The views of a list of pack visibility scopes.
pub open spec fn pack_scopes_view(v: Seq<PackVisibilityScope>) -> Seq<PackScopeView> {
    v.map_values(|s: PackVisibilityScope| pack_scope_view(s))
}

/// The scope that matches every pack.
pub open spec fn open_pack_scope() -> PackScopeView {
    PackScopeView { owner: None, pack_refs: None, refs: None, ids: None }
}

/// The scope compiled from constraints.
pub open spec fn pack_scope_of(c: GrantConstraints) -> PackScopeView {
    PackScopeView { owner: c.owner, pack_refs: opt_strs(c.pack_refs), refs: opt_strs(c.refs), ids: opt_seq(c.ids) }
}

/// Whether constraints name particular packs or owners.
pub open spec fn pack_scoped(c: GrantConstraints) -> bool {
    c.owner is Some || c.pack_refs is Some || c.refs is Some || c.ids is Some
}

/// Scopes that apply to packs the caller installed or that have no owner.
pub open spec fn pack_own_scopes_spec(grants: Seq<Grant>) -> Seq<PackScopeView>
    decreases grants.len(),
{
    if grants.len() == 0 {
        Seq::empty()
    } else {
        let prev = pack_own_scopes_spec(grants.drop_last());
        let g = grants.last();
        if !grant_applies(g, Resource::Packs, Action::Read) {
            prev
        } else {
            match g.constraints {
                None => prev.push(open_pack_scope()),
                Some(c) => if pack_context_feasible(c) { prev.push(pack_scope_of(c)) } else { prev },
            }
        }
    }
}

/// Scopes that also apply to packs installed by someone else.
pub open spec fn pack_other_scopes_spec(grants: Seq<Grant>) -> Seq<PackScopeView>
    decreases grants.len(),
{
    if grants.len() == 0 {
        Seq::empty()
    } else {
        let prev = pack_other_scopes_spec(grants.drop_last());
        let g = grants.last();
        if grant_applies(g, Resource::Packs, Action::Read) && g.constraints is Some
            && pack_context_feasible(g.constraints->0) && pack_scoped(g.constraints->0) {
            prev.push(pack_scope_of(g.constraints->0))
        } else {
            prev
        }
    }
}

/// The pack read visibility of an identity, as SQL-evaluable scopes.
#[derive(Debug, PartialEq, Eq)]
pub struct PackVisibilityFilter {
    pub identity_id: i64,
    pub own_or_ownerless_scopes: Vec<PackVisibilityScope>,
    pub other_owner_scopes: Vec<PackVisibilityScope>,
}

fn scope_from(c: &GrantConstraints) -> (s: PackVisibilityScope)
    ensures
        pack_scope_view(s) == pack_scope_of(*c),
{
    PackVisibilityScope {
        owner: c.owner,
        pack_refs: copy_opt_strings(&c.pack_refs),
        refs: copy_opt_strings(&c.refs),
        ids: copy_opt_vec(&c.ids),
    }
}

/// Compiles pack read grants into visibility scopes: unconstrained grants
/// cover own and ownerless packs; feasible constrained grants cover those too
/// and, when they name packs or owners, packs installed by others.
pub fn build_pack_visibility_filter(identity_id: i64, grants: &Vec<Grant>) -> (f: PackVisibilityFilter)
    ensures
        f.identity_id == identity_id,
        pack_scopes_view(f.own_or_ownerless_scopes@) == pack_own_scopes_spec(grants@),
        pack_scopes_view(f.other_owner_scopes@) == pack_other_scopes_spec(grants@),
{
    let mut own: Vec<PackVisibilityScope> = Vec::new();
    let mut other: Vec<PackVisibilityScope> = Vec::new();
    let mut i: usize = 0;
    while i < grants.len()
        invariant
            i <= grants.len(),
            pack_scopes_view(own@) == pack_own_scopes_spec(grants@.take(i as int)),
            pack_scopes_view(other@) == pack_other_scopes_spec(grants@.take(i as int)),
        decreases grants.len() - i,
    {
        let ghost own_before = own@;
        let ghost other_before = other@;
        let g = &grants[i];
        proof {
            assert(grants@.take(i + 1).drop_last() =~= grants@.take(i as int));
            assert(grants@.take(i + 1).last() == grants@[i as int]);
        }
        if g.resource == Resource::Packs && contains_action(&g.actions, Action::Read) {
            match &g.constraints {
                None => {
                    let s = PackVisibilityScope { owner: None, pack_refs: None, refs: None, ids: None };
                    own.push(s);
                    assert(pack_scopes_view(own@) =~= pack_scopes_view(own_before).push(open_pack_scope()));
                    assert(pack_scopes_view(other@) =~= pack_scopes_view(other_before));
                },
                Some(c) => {
                    if pack_grant_context_feasible(c) {
                        let scoped = c.owner.is_some() || c.pack_refs.is_some() || c.refs.is_some() || c.ids.is_some();
                        if scoped {
                            let s2 = scope_from(c);
                            other.push(s2);
                            assert(pack_scopes_view(other@) =~= pack_scopes_view(other_before).push(pack_scope_of(*c)));
                        }
                        let s = scope_from(c);
                        own.push(s);
                        assert(pack_scopes_view(own@) =~= pack_scopes_view(own_before).push(pack_scope_of(*c)));
                    }
                },
            }
        }
        i = i + 1;
    }
    assert(grants@.take(grants.len() as int) =~= grants@);
    PackVisibilityFilter { identity_id, own_or_ownerless_scopes: own, other_owner_scopes: other }
}

/// Whether constraints could ever match a policy, whose authorization
/// context has no owner identity, owner type, artifact visibility, execution
/// scope, encryption flag or identity attributes.
pub open spec fn policy_context_feasible(c: GrantConstraints) -> bool {
    c.owner != Some(OwnerConstraint::SelfOnly) && pack_context_feasible(c)
}

/// Checks whether a grant's constraints could ever match a policy.
pub fn policy_grant_context_feasible(constraints: &GrantConstraints) -> (b: bool)
    ensures
        b == policy_context_feasible(*constraints),
{
    if let Some(owner) = constraints.owner {
        if matches!(owner, OwnerConstraint::SelfOnly) {
            return false;
        }
    }
    pack_grant_context_feasible(constraints)
}

/// One OR-branch of the policy visibility predicate.
#[derive(Debug, PartialEq, Eq)]
pub struct PolicyVisibilityScope {
    pub pack_refs: Option<Vec<String>>,
    pub action_refs: Option<Vec<String>>,
    pub refs: Option<Vec<String>>,
    pub ids: Option<Vec<i64>>,
}

/// Mathematical view of a [`PolicyVisibilityScope`].
pub struct PolicyScopeView {
    pub pack_refs: Option<Seq<Seq<char>>>,
    pub action_refs: Option<Seq<Seq<char>>>,
    pub refs: Option<Seq<Seq<char>>>,
    pub ids: Option<Seq<i64>>,
}

/// The view of a policy visibility scope.
pub open spec fn policy_scope_view(s: PolicyVisibilityScope) -> PolicyScopeView {
    PolicyScopeView {
        pack_refs: opt_strs(s.pack_refs),
        action_refs: opt_strs(s.action_refs),
        refs: opt_strs(s.refs),
        ids: opt_seq(s.ids),
    }
}

/// The views of a list of policy visibility scopes.
pub open spec fn policy_scopes_view(v: Seq<PolicyVisibilityScope>) -> Seq<PolicyScopeView> {
    v.map_values(|s: PolicyVisibilityScope| policy_scope_view(s))
}

/// The scope compiled from constraints (action refs come from owner refs).
pub open spec fn policy_scope_of(c: GrantConstraints) -> PolicyScopeView {
    PolicyScopeView {
        pack_refs: opt_strs(c.pack_refs),
        action_refs: opt_strs(c.owner_refs),
        refs: opt_strs(c.refs),
        ids: opt_seq(c.ids),
    }
}

/// The scope matching every policy.
pub open spec fn open_policy_scope() -> PolicyScopeView {
    PolicyScopeView { pack_refs: None, action_refs: None, refs: None, ids: None }
}

/// Whether some policy read grant is unconstrained.
pub open spec fn unconstrained_policy_read(grants: Seq<Grant>) -> bool {
    exists|i: int| 0 <= i < grants.len() && grant_applies(grants[i], Resource::Policies, Action::Read)
        && grants[i].constraints is None
}

/// Scopes of the feasible constrained policy read grants, in order.
pub open spec fn policy_scopes_spec(grants: Seq<Grant>) -> Seq<PolicyScopeView>
    decreases grants.len(),
{
    if grants.len() == 0 {
        Seq::empty()
    } else {
        let prev = policy_scopes_spec(grants.drop_last());
        let g = grants.last();
        if grant_applies(g, Resource::Policies, Action::Read) && g.constraints is Some
            && policy_context_feasible(g.constraints->0) {
            prev.push(policy_scope_of(g.constraints->0))
        } else {
            prev
        }
    }
}

/// The policy read visibility of a caller.
#[derive(Debug, PartialEq, Eq)]
pub struct PolicyVisibilityFilter {
    pub scopes: Vec<PolicyVisibilityScope>,
}

/// Compiles policy read grants into visibility scopes: one unconstrained
/// grant makes every policy visible; otherwise each feasible constrained
/// grant contributes one scope.
pub fn build_policy_visibility_filter(grants: &Vec<Grant>) -> (f: PolicyVisibilityFilter)
    ensures
        policy_scopes_view(f.scopes@) == if unconstrained_policy_read(grants@) {
            seq![open_policy_scope()]
        } else {
            policy_scopes_spec(grants@)
        },
{
    let mut scopes: Vec<PolicyVisibilityScope> = Vec::new();
    let mut i: usize = 0;
    while i < grants.len()
        invariant
            i <= grants.len(),
            policy_scopes_view(scopes@) == policy_scopes_spec(grants@.take(i as int)),
            !unconstrained_policy_read(grants@.take(i as int)),
        decreases grants.len() - i,
    {
        let ghost before = scopes@;
        let g = &grants[i];
        proof {
            assert(grants@.take(i + 1).drop_last() =~= grants@.take(i as int));
            assert(grants@.take(i + 1).last() == grants@[i as int]);
        }
        if g.resource == Resource::Policies && contains_action(&g.actions, Action::Read) {
            match &g.constraints {
                None => {
                    proof {
                        assert(grants@[i as int] == *g);
                    }
                    let mut all: Vec<PolicyVisibilityScope> = Vec::new();
                    all.push(PolicyVisibilityScope { pack_refs: None, action_refs: None, refs: None, ids: None });
                    assert(policy_scopes_view(all@) =~= seq![open_policy_scope()]);
                    return PolicyVisibilityFilter { scopes: all };
                },
                Some(c) => {
                    if policy_grant_context_feasible(c) {
                        let s = PolicyVisibilityScope {
                            pack_refs: copy_opt_strings(&c.pack_refs),
                            action_refs: copy_opt_strings(&c.owner_refs),
                            refs: copy_opt_strings(&c.refs),
                            ids: copy_opt_vec(&c.ids),
                        };
                        scopes.push(s);
                        assert(policy_scopes_view(scopes@) =~= policy_scopes_view(before).push(policy_scope_of(*c)));
                    }
                },
            }
        }
        proof {
            assert forall|j: int| 0 <= j < i + 1 implies !(grant_applies(#[trigger] grants@.take(i + 1)[j], Resource::Policies, Action::Read)
                && grants@.take(i + 1)[j].constraints is None) by {
                if j < i {
                    assert(grants@.take(i + 1)[j] == grants@.take(i as int)[j]);
                }
            }
        }
        i = i + 1;
    }
    assert(grants@.take(grants.len() as int) =~= grants@);
    PolicyVisibilityFilter { scopes }
}

} // verus!
