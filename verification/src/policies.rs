//! Execution policies: which features a policy must keep, which quota
//! types exist, and how a policy's scope is resolved.

use vstd::prelude::*;
use crate::auth::{api_err, outcome, ApiError, ErrorKind, ErrorView};
use crate::text::{str_eq, string_views};

verus! {

/// The quota types a policy may set.
pub open spec fn supported_quota_type(t: Seq<char>) -> bool {
    t == "running_executions"@ || t == "executions_total"@
}

/// The error for an unknown quota type.
pub open spec fn unsupported_quota_message(t: Seq<char>) -> Seq<char> {
    "Unsupported quota type '"@ + t + "'. Supported quota types: running_executions, executions_total"@
}

/// The first unsupported quota type, if any.
pub open spec fn first_unsupported_quota(types: Seq<Seq<char>>) -> Option<int> {
    if exists|i: int| 0 <= i < types.len() && !supported_quota_type(types[i]) {
        Some(choose|i: int| 0 <= i < types.len() && !supported_quota_type(types[i])
            && forall|j: int| 0 <= j < i ==> supported_quota_type(types[j]))
    } else {
        None
    }
}

/// Every quota of a policy must be of a supported type; the first one that
/// is not is reported.
pub fn validate_quotas(quota_types: &Vec<String>) -> (r: Result<(), ApiError>)
    ensures
        outcome(r) == match first_unsupported_quota(string_views(quota_types@)) {
            Some(i) => Err(api_err(ErrorKind::BadRequest, unsupported_quota_message(string_views(quota_types@)[i]))),
            None => Ok::<(), ErrorView>(()),
        },
{
    let ghost types = string_views(quota_types@);
    let mut i: usize = 0;
    while i < quota_types.len()
        invariant
            i <= quota_types.len(),
            types == string_views(quota_types@),
            forall|j: int| 0 <= j < i ==> supported_quota_type(#[trigger] types[j]),
        decreases quota_types.len() - i,
    {
        let t = quota_types[i].as_str();
        if !str_eq(t, "running_executions") && !str_eq(t, "executions_total") {
            proof {
                assert(!supported_quota_type(types[i as int]));
                let c = choose|c: int| 0 <= c < types.len() && !supported_quota_type(types[c])
                    && forall|j: int| 0 <= j < c ==> supported_quota_type(types[j]);
                if c < i {
                    assert(supported_quota_type(types[c]));
                } else if c > i {
                    assert(supported_quota_type(types[i as int]));
                }
            }
            let mut message = String::from_str("Unsupported quota type '");
            message.append(t);
            message.append("'. Supported quota types: running_executions, executions_total");
            return Err(ApiError::BadRequest(message));
        }
        i = i + 1;
    }
    Ok(())
}

/// The error for a policy without any feature.
pub open spec fn no_feature_message() -> Seq<char> {
    "At least one policy feature must be configured"@
}

/// A policy must configure concurrency, a rate limit or quotas.
pub fn validate_policy_features(concurrency: bool, rate_limit: bool, quotas: bool) -> (r: Result<(), ApiError>)
    ensures
        outcome(r) == if concurrency || rate_limit || quotas {
            Ok::<(), ErrorView>(())
        } else {
            Err(api_err(ErrorKind::BadRequest, no_feature_message()))
        },
{
    if concurrency || rate_limit || quotas {
        Ok(())
    } else {
        Err(ApiError::BadRequest(String::from_str("At least one policy feature must be configured")))
    }
}

/// Which features a stored policy has: a concurrency threshold, a rate
/// limit, a non-empty quota list.
#[derive(Debug, Clone, Copy, PartialEq, Eq, Structural)]
pub struct PolicyFeatures {
    pub concurrency: bool,
    pub rate_limit: bool,
    pub quotas: bool,
}

/// What an update does to each feature: `None` leaves it, `Some(present)`
/// sets or clears it.
#[derive(Debug, Clone, Copy, PartialEq, Eq, Structural)]
pub struct PolicyFeaturePatch {
    pub concurrency: Option<bool>,
    pub rate_limit: Option<bool>,
    pub quotas: Option<bool>,
}

/// A feature after an update.
pub open spec fn feature_after(patch: Option<bool>, existing: bool) -> bool {
    match patch {
        Some(p) => p,
        None => existing,
    }
}

/// An update must leave the policy with at least one feature.
pub fn validate_update_keeps_feature(existing: &PolicyFeatures, request: &PolicyFeaturePatch) -> (r: Result<(), ApiError>)
    ensures
        outcome(r) == if feature_after(request.concurrency, existing.concurrency)
            || feature_after(request.rate_limit, existing.rate_limit)
            || feature_after(request.quotas, existing.quotas) {
            Ok::<(), ErrorView>(())
        } else {
            Err(api_err(ErrorKind::BadRequest, no_feature_message()))
        },
{
    let has_concurrency = match request.concurrency {
        Some(p) => p,
        None => existing.concurrency,
    };
    let has_rate_limit = match request.rate_limit {
        Some(p) => p,
        None => existing.rate_limit,
    };
    let has_quotas = match request.quotas {
        Some(p) => p,
        None => existing.quotas,
    };
    validate_policy_features(has_concurrency, has_rate_limit, has_quotas)
}

/// The error for a policy ref that is taken.
pub open spec fn policy_exists_message(policy_ref: Seq<char>) -> Seq<char> {
    "Policy with ref '"@ + policy_ref + "' already exists"@
}

/// A new policy's ref must not be in use.
pub fn check_policy_ref_available(policy_ref: &str, taken: bool) -> (r: Result<(), ApiError>)
    ensures
        outcome(r) == if taken {
            Err(api_err(ErrorKind::Conflict, policy_exists_message(policy_ref@)))
        } else {
            Ok::<(), ErrorView>(())
        },
{
    if taken {
        let mut message = String::from_str("Policy with ref '");
        message.append(policy_ref);
        message.append("' already exists");
        return Err(ApiError::Conflict(message));
    }
    Ok(())
}

/// The scope a policy applies to.
#[derive(Debug, Clone, Copy, PartialEq, Eq, Structural)]
pub enum PolicyScopeType {
    Global,
    Pack,
    Action,
}

/// The scope filter of a policy search.
#[derive(Debug, Clone, Copy, PartialEq, Eq, Structural)]
pub enum PolicyScopeFilter {
    Global,
    Pack,
    Action,
}

/// The search filter for policies of a scope.
pub fn scope_filter(scope: PolicyScopeType) -> (f: PolicyScopeFilter)
    ensures
        f == match scope {
            PolicyScopeType::Global => PolicyScopeFilter::Global,
            PolicyScopeType::Pack => PolicyScopeFilter::Pack,
            PolicyScopeType::Action => PolicyScopeFilter::Action,
        },
{
    match scope {
        PolicyScopeType::Global => PolicyScopeFilter::Global,
        PolicyScopeType::Pack => PolicyScopeFilter::Pack,
        PolicyScopeType::Action => PolicyScopeFilter::Action,
    }
}

/// The scope named by a request.
#[derive(Debug, PartialEq, Eq)]
pub struct PolicyScopeRequest {
    pub scope_type: PolicyScopeType,
    pub pack_ref: Option<String>,
    pub action_ref: Option<String>,
}

/// What must be looked up to resolve a scope.
#[derive(Debug, PartialEq, Eq)]
pub enum ScopeLookup {
    Global,
    Pack(String),
    Action(String),
}

/// The error for a pack scope without a pack.
pub open spec fn pack_ref_required_message() -> Seq<char> {
    "pack_ref is required for pack-scoped policies"@
}

/// The error for an action scope without an action.
pub open spec fn action_ref_required_message() -> Seq<char> {
    "action_ref is required for action-scoped policies"@
}

/// The lookup a scope needs: nothing for a global scope, the pack or the
/// action it names otherwise, which it must name.
pub fn scope_lookup(scope: &PolicyScopeRequest) -> (r: Result<ScopeLookup, ApiError>)
    ensures
        match scope.scope_type {
            PolicyScopeType::Global => r == Ok::<ScopeLookup, ApiError>(ScopeLookup::Global),
            PolicyScopeType::Pack => match scope.pack_ref {
                Some(p) => r matches Ok(ScopeLookup::Pack(q)) && q@ == p@,
                None => outcome(r) == Err::<ScopeLookup, ErrorView>(
                    api_err(ErrorKind::BadRequest, pack_ref_required_message()),
                ),
            },
            PolicyScopeType::Action => match scope.action_ref {
                Some(a) => r matches Ok(ScopeLookup::Action(q)) && q@ == a@,
                None => outcome(r) == Err::<ScopeLookup, ErrorView>(
                    api_err(ErrorKind::BadRequest, action_ref_required_message()),
                ),
            },
        },
{
    match scope.scope_type {
        PolicyScopeType::Global => Ok(ScopeLookup::Global),
        PolicyScopeType::Pack => match &scope.pack_ref {
            Some(p) => Ok(ScopeLookup::Pack(p.clone())),
            None => Err(ApiError::BadRequest(String::from_str("pack_ref is required for pack-scoped policies"))),
        },
        PolicyScopeType::Action => match &scope.action_ref {
            Some(a) => Ok(ScopeLookup::Action(a.clone())),
            None => Err(ApiError::BadRequest(
                String::from_str("action_ref is required for action-scoped policies"),
            )),
        },
    }
}

/// The error when the pack or action of a scope does not exist.
pub open spec fn scope_target_missing_message(is_pack: bool, target: Seq<char>) -> Seq<char> {
    (if is_pack { "Pack '"@ } else { "Action '"@ }) + target + "' not found"@
}

/// The error returned when the pack or action of a scope does not exist
/// (`None` for a global scope, which names nothing).
pub fn scope_target_not_found(lookup: &ScopeLookup) -> (r: Option<ApiError>)
    ensures
        match *lookup {
            ScopeLookup::Global => r is None,
            ScopeLookup::Pack(p) => r matches Some(e) && e@ == api_err(
                ErrorKind::NotFound,
                scope_target_missing_message(true, p@),
            ),
            ScopeLookup::Action(a) => r matches Some(e) && e@ == api_err(
                ErrorKind::NotFound,
                scope_target_missing_message(false, a@),
            ),
        },
{
    match lookup {
        ScopeLookup::Global => None,
        ScopeLookup::Pack(p) => {
            let mut message = String::from_str("Pack '");
            message.append(p.as_str());
            message.append("' not found");
            Some(ApiError::NotFound(message))
        },
        ScopeLookup::Action(a) => {
            let mut message = String::from_str("Action '");
            message.append(a.as_str());
            message.append("' not found");
            Some(ApiError::NotFound(message))
        },
    }
}

} // verus!
