//! Identity and permission administration: which grants a permission set
//! may hold, how an assignment names its identity, and which changes an
//! administrator may not make to their own identity.

use vstd::prelude::*;
use crate::auth::{api_err, opt_str_view, outcome, ApiError, ErrorKind, ErrorView};
use crate::rbac::{
    grant_actions_outcome, grant_constraints_outcome, validate_grant_actions, validate_grant_constraints, Grant,
};
use crate::text::{int_decimal, i64_to_string};

verus! {

/// The error for a permission-set grant scoped by database ids.
pub open spec fn ids_scope_message() -> Seq<char> {
    "Permission set grants cannot be scoped by database IDs; use metadata refs instead"@
}

/// The error for a permission-set grant scoped by owner refs.
pub open spec fn owner_refs_scope_message() -> Seq<char> {
    "Permission set grants cannot use owner_refs; use a pack scope, component ref scope, or owner type/self constraints"@
}

/// The error for a permission-set grant scoped both by packs and by refs.
pub open spec fn pack_and_ref_scope_message() -> Seq<char> {
    "Permission set grants can be pack scoped or component scoped, not both"@
}

/// What validating one permission-set grant answers: its actions must be
/// supported; its constraints may not use ids or owner refs, nor packs and
/// refs together, and must suit its resource.
pub open spec fn permission_grant_outcome(g: Grant) -> Result<(), ErrorView> {
    match grant_actions_outcome(g) {
        Err(e) => Err(e),
        Ok(_) => match g.constraints {
            None => Ok(()),
            Some(c) => if c.ids is Some {
                Err(api_err(ErrorKind::BadRequest, ids_scope_message()))
            } else if c.owner_refs is Some {
                Err(api_err(ErrorKind::BadRequest, owner_refs_scope_message()))
            } else if c.pack_refs is Some && c.refs is Some {
                Err(api_err(ErrorKind::BadRequest, pack_and_ref_scope_message()))
            } else {
                grant_constraints_outcome(g.resource, c)
            },
        },
    }
}

/// The answer for a list of grants: the first grant's error, if any.
pub open spec fn permission_grants_outcome(grants: Seq<Grant>) -> Result<(), ErrorView>
    decreases grants.len(),
{
    if grants.len() == 0 {
        Ok(())
    } else {
        match permission_grants_outcome(grants.drop_last()) {
            Err(e) => Err(e),
            Ok(_) => permission_grant_outcome(grants.last()),
        }
    }
}

fn validate_permission_grant(grant: &Grant) -> (r: Result<(), ApiError>)
    ensures
        outcome(r) == permission_grant_outcome(*grant),
{
    validate_grant_actions(grant)?;
    if let Some(c) = &grant.constraints {
        if c.ids.is_some() {
            return Err(ApiError::BadRequest(String::from_str(
                "Permission set grants cannot be scoped by database IDs; use metadata refs instead",
            )));
        }
        if c.owner_refs.is_some() {
            return Err(ApiError::BadRequest(String::from_str(
                "Permission set grants cannot use owner_refs; use a pack scope, component ref scope, or owner type/self constraints",
            )));
        }
        if c.pack_refs.is_some() && c.refs.is_some() {
            return Err(ApiError::BadRequest(
                String::from_str("Permission set grants can be pack scoped or component scoped, not both"),
            ));
        }
        validate_grant_constraints(grant.resource, c)?;
    }
    Ok(())
}

/// Validates the grants of a permission set, reporting the first invalid
/// grant.
pub fn validate_permission_grants(grants: &Vec<Grant>) -> (r: Result<(), ApiError>)
    ensures
        outcome(r) == permission_grants_outcome(grants@),
{
    let mut i: usize = 0;
    assert(grants@.take(0) =~= Seq::<Grant>::empty());
    while i < grants.len()
        invariant
            i <= grants.len(),
            permission_grants_outcome(grants@.take(i as int)) == Ok::<(), ErrorView>(()),
        decreases grants.len() - i,
    {
        proof {
            assert(grants@.take(i + 1).drop_last() =~= grants@.take(i as int));
            assert(grants@.take(i + 1).last() == grants@[i as int]);
        }
        match validate_permission_grant(&grants[i]) {
            Ok(()) => {},
            Err(e) => {
                proof {
                    lemma_grants_error_persists(grants@, i as int + 1);
                    assert(grants@.take(grants.len() as int) =~= grants@);
                }
                return Err(e);
            },
        }
        i = i + 1;
    }
    assert(grants@.take(grants.len() as int) =~= grants@);
    Ok(())
}

proof fn lemma_grants_error_persists(grants: Seq<Grant>, k: int)
    requires
        0 <= k <= grants.len(),
        permission_grants_outcome(grants.take(k)) is Err,
    ensures
        permission_grants_outcome(grants.take(grants.len() as int)) == permission_grants_outcome(grants.take(k)),
    decreases grants.len() - k,
{
    if k < grants.len() {
        assert(grants.take(k + 1).drop_last() =~= grants.take(k));
        lemma_grants_error_persists(grants, k + 1);
    }
}

/// How an assignment names its identity.
#[derive(Debug, PartialEq, Eq)]
pub enum IdentityLookup {
    ById(i64),
    ByLogin(String),
}

/// The error for naming an identity both ways.
pub open spec fn both_identity_keys_message() -> Seq<char> {
    "Provide either identity_id or identity_login, not both"@
}

/// The error for naming no identity.
pub open spec fn no_identity_key_message() -> Seq<char> {
    "Either identity_id or identity_login is required"@
}

/// An assignment names its identity by id or by login, exactly one of them.
pub fn identity_lookup(identity_id: Option<i64>, identity_login: Option<&str>) -> (r: Result<IdentityLookup, ApiError>)
    ensures
        match (identity_id, opt_str_view(identity_login)) {
            (Some(id), None) => r == Ok::<IdentityLookup, ApiError>(IdentityLookup::ById(id)),
            (None, Some(login)) => r matches Ok(IdentityLookup::ByLogin(l)) && l@ == login,
            (Some(_), Some(_)) => outcome(r) == Err::<IdentityLookup, ErrorView>(
                api_err(ErrorKind::BadRequest, both_identity_keys_message()),
            ),
            (None, None) => outcome(r) == Err::<IdentityLookup, ErrorView>(
                api_err(ErrorKind::BadRequest, no_identity_key_message()),
            ),
        },
{
    match (identity_id, identity_login) {
        (Some(id), None) => Ok(IdentityLookup::ById(id)),
        (None, Some(login)) => Ok(IdentityLookup::ByLogin(login.to_string())),
        (Some(_), Some(_)) => Err(ApiError::BadRequest(
            String::from_str("Provide either identity_id or identity_login, not both"),
        )),
        (None, None) => Err(ApiError::BadRequest(String::from_str("Either identity_id or identity_login is required"))),
    }
}

/// The error for an identity that does not exist.
pub open spec fn identity_not_found_message(key: Seq<char>) -> Seq<char> {
    "Identity '"@ + key + "' not found"@
}

/// The error returned when the identity named by a lookup does not exist.
pub fn identity_not_found(lookup: &IdentityLookup) -> (e: ApiError)
    ensures
        e@ == api_err(
            ErrorKind::NotFound,
            identity_not_found_message(match *lookup {
                IdentityLookup::ById(id) => int_decimal(id as int),
                IdentityLookup::ByLogin(l) => l@,
            }),
        ),
{
    let mut message = String::from_str("Identity '");
    match lookup {
        IdentityLookup::ById(id) => {
            let t = i64_to_string(*id);
            message.append(t.as_str());
        },
        IdentityLookup::ByLogin(l) => message.append(l.as_str()),
    }
    message.append("' not found");
    ApiError::NotFound(message)
}

/// The error for deleting one's own identity.
pub open spec fn self_delete_message() -> Seq<char> {
    "Refusing to delete the currently authenticated identity"@
}

/// An administrator may not delete the identity they are authenticated as.
pub fn check_identity_deletion(caller_identity_id: i64, identity_id: i64) -> (r: Result<(), ApiError>)
    ensures
        outcome(r) == if caller_identity_id == identity_id {
            Err(api_err(ErrorKind::BadRequest, self_delete_message()))
        } else {
            Ok::<(), ErrorView>(())
        },
{
    if caller_identity_id == identity_id {
        return Err(ApiError::BadRequest(String::from_str("Refusing to delete the currently authenticated identity")));
    }
    Ok(())
}

/// The error for freezing one's own identity.
pub open spec fn self_freeze_message() -> Seq<char> {
    "Refusing to freeze the currently authenticated identity"@
}

/// An administrator may not freeze the identity they are authenticated as
/// (unfreezing it is allowed).
pub fn check_identity_freeze(caller_identity_id: i64, identity_id: i64, frozen: bool) -> (r: Result<(), ApiError>)
    ensures
        outcome(r) == if caller_identity_id == identity_id && frozen {
            Err(api_err(ErrorKind::BadRequest, self_freeze_message()))
        } else {
            Ok::<(), ErrorView>(())
        },
{
    if caller_identity_id == identity_id && frozen {
        return Err(ApiError::BadRequest(String::from_str("Refusing to freeze the currently authenticated identity")));
    }
    Ok(())
}

/// The message answering a freeze or unfreeze.
pub fn freeze_message(frozen: bool) -> (m: &'static str)
    ensures
        m@ == if frozen { "Identity frozen successfully"@ } else { "Identity unfrozen successfully"@ },
{
    if frozen {
        "Identity frozen successfully"
    } else {
        "Identity unfrozen successfully"
    }
}

/// The error for removing a role assignment that an identity provider
/// manages.
pub open spec fn managed_assignment_message() -> Seq<char> {
    "Managed role assignments must be updated through the identity provider sync"@
}

/// Role assignments managed by an identity provider are not removed here.
pub fn check_assignment_unmanaged(managed: bool) -> (r: Result<(), ApiError>)
    ensures
        outcome(r) == if managed {
            Err(api_err(ErrorKind::BadRequest, managed_assignment_message()))
        } else {
            Ok::<(), ErrorView>(())
        },
{
    if managed {
        return Err(ApiError::BadRequest(
            String::from_str("Managed role assignments must be updated through the identity provider sync"),
        ));
    }
    Ok(())
}

/// The error for an integration token that expires in the past.
pub open spec fn past_expiry_message() -> Seq<char> {
    "Integration token expiration must be in the future"@
}

/// A new integration token must expire after `now` (timestamps in the same
/// unit), or never.
pub fn check_token_expiry(expires_at: Option<i64>, now: i64) -> (r: Result<(), ApiError>)
    ensures
        outcome(r) == match expires_at {
            Some(t) => if t <= now {
                Err(api_err(ErrorKind::BadRequest, past_expiry_message()))
            } else {
                Ok::<(), ErrorView>(())
            },
            None => Ok(()),
        },
{
    if let Some(t) = expires_at {
        if t <= now {
            return Err(ApiError::BadRequest(String::from_str("Integration token expiration must be in the future")));
        }
    }
    Ok(())
}

/// The error for an integration token that is not the identity's.
pub open spec fn token_not_found_message(token_id: i64) -> Seq<char> {
    "Integration token '"@ + int_decimal(token_id as int) + "' not found"@
}

/// An integration token is only reachable through the identity it belongs
/// to; any other identity is told it does not exist.
pub fn check_token_owner(token_id: i64, token_identity: Option<i64>, identity_id: i64) -> (r: Result<(), ApiError>)
    ensures
        outcome(r) == if token_identity == Some(identity_id) {
            Ok::<(), ErrorView>(())
        } else {
            Err(api_err(ErrorKind::NotFound, token_not_found_message(token_id)))
        },
{
    if token_identity == Some(identity_id) {
        return Ok(());
    }
    let mut message = String::from_str("Integration token '");
    let t = i64_to_string(token_id);
    message.append(t.as_str());
    message.append("' not found");
    Err(ApiError::NotFound(message))
}

} // verus!
