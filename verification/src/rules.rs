//! Trigger scoping of sensor tokens on the rule endpoints.

use vstd::prelude::*;
use crate::auth::{
    api_err, outcome, opt_str_view, token_trigger_types, ApiError, AuthenticatedUser, ErrorKind,
    ErrorView, TokenType,
};
use crate::text::{join, join_spec, str_eq, string_views, trim, trim_spec};

verus! {

/// Text of the allowed-trigger list in error messages: `none` when empty,
/// otherwise the refs joined by `, `.
pub open spec fn trigger_scope_text(allowed: Seq<Seq<char>>) -> Seq<char> {
    if allowed.len() == 0 {
        "none"@
    } else {
        join_spec(allowed, ", "@)
    }
}

/// Renders a sensor token's allowed trigger refs for error messages.
pub fn format_sensor_trigger_scope(allowed_trigger_refs: &Vec<String>) -> (s: String)
    ensures
        s@ == trigger_scope_text(string_views(allowed_trigger_refs@)),
{
    if allowed_trigger_refs.len() == 0 {
        return String::from_str("none");
    }
    join(allowed_trigger_refs, ", ")
}

/// Whether `r` is one of `allowed`.
pub open spec fn ref_allowed(allowed: Seq<Seq<char>>, r: Seq<char>) -> bool {
    exists|i: int| 0 <= i < allowed.len() && allowed[i] == r
}

fn contains_ref(allowed: &Vec<String>, r: &str) -> (b: bool)
    ensures
        b == ref_allowed(string_views(allowed@), r@),
{
    let mut i: usize = 0;
    while i < allowed.len()
        invariant
            i <= allowed.len(),
            forall|j: int| 0 <= j < i ==> string_views(allowed@)[j] != r@,
        decreases allowed.len() - i,
    {
        if str_eq(allowed[i].as_str(), r) {
            assert(string_views(allowed@)[i as int] == r@);
            return true;
        }
        i = i + 1;
    }
    false
}

/// Message for a sensor token that lists rules without naming a trigger.
pub open spec fn listing_requires_trigger_message() -> Seq<char> {
    "Sensor tokens can only list rules by explicit trigger_ref. Use /api/v1/rules?trigger_ref=<allowed_trigger_ref> or /api/v1/triggers/{trigger_ref}/rules."@
}

/// The requested trigger ref, trimmed, when one was given and it is not blank.
pub open spec fn requested_trigger(requested: Option<Seq<char>>) -> Option<Seq<char>> {
    match requested {
        Some(r) => if trim_spec(r).len() > 0 { Some(trim_spec(r)) } else { None },
        None => None,
    }
}

/// Outcome of listing rules: non-sensor tokens pass; sensor tokens must name
/// a trigger ref that is in their scope.
pub open spec fn rule_listing_outcome(
    token_type: TokenType,
    allowed: Seq<Seq<char>>,
    requested: Option<Seq<char>>,
) -> Result<(), ErrorView> {
    if token_type != TokenType::Sensor {
        Ok(())
    } else {
        match requested_trigger(requested) {
            None => Err(api_err(ErrorKind::Forbidden, listing_requires_trigger_message())),
            Some(t) => if ref_allowed(allowed, t) {
                Ok(())
            } else {
                Err(api_err(
                    ErrorKind::Forbidden,
                    "Sensor token is not allowed to list rules for trigger '"@ + t
                        + "'. Allowed trigger_refs: "@ + trigger_scope_text(allowed),
                ))
            },
        }
    }
}

/// Checks that a sensor token lists rules only for an explicit trigger ref
/// within its scope.
pub fn ensure_sensor_trigger_scope_for_rule_listing(
    user: &AuthenticatedUser,
    requested_trigger_ref: Option<&str>,
) -> (r: Result<(), ApiError>)
    ensures
        outcome(r) == rule_listing_outcome(
            user.claims.token_type,
            token_trigger_types(user.claims),
            opt_str_view(requested_trigger_ref),
        ),
{
    if user.claims.token_type != TokenType::Sensor {
        return Ok(());
    }
    let trigger_ref = match requested_trigger_ref {
        Some(value) => trim(value),
        None => {
            return Err(ApiError::Forbidden(String::from_str(
                "Sensor tokens can only list rules by explicit trigger_ref. Use /api/v1/rules?trigger_ref=<allowed_trigger_ref> or /api/v1/triggers/{trigger_ref}/rules.",
            )));
        },
    };
    if trigger_ref.unicode_len() == 0 {
        return Err(ApiError::Forbidden(String::from_str(
            "Sensor tokens can only list rules by explicit trigger_ref. Use /api/v1/rules?trigger_ref=<allowed_trigger_ref> or /api/v1/triggers/{trigger_ref}/rules.",
        )));
    }
    let allowed_trigger_refs = user.claims.sensor_trigger_types();
    if contains_ref(&allowed_trigger_refs, trigger_ref) {
        return Ok(());
    }
    let mut message = String::from_str("Sensor token is not allowed to list rules for trigger '");
    message.append(trigger_ref);
    message.append("'. Allowed trigger_refs: ");
    let scope = format_sensor_trigger_scope(&allowed_trigger_refs);
    message.append(scope.as_str());
    Err(ApiError::Forbidden(message))
}

/// Outcome of using an endpoint that is not trigger-scoped.
pub open spec fn scoped_endpoint_outcome(token_type: TokenType, endpoint: Seq<char>) -> Result<(), ErrorView> {
    if token_type != TokenType::Sensor {
        Ok(())
    } else {
        Err(api_err(
            ErrorKind::Forbidden,
            "Sensor tokens can only read rules through trigger-scoped endpoints. '"@ + endpoint
                + "' is not allowed. Use /api/v1/rules?trigger_ref=<allowed_trigger_ref> or /api/v1/triggers/{trigger_ref}/rules."@,
        ))
    }
}

/// Rejects sensor tokens on rule endpoints that are not scoped by trigger.
pub fn ensure_sensor_trigger_scoped_rule_endpoint(
    user: &AuthenticatedUser,
    endpoint: &str,
) -> (r: Result<(), ApiError>)
    ensures
        outcome(r) == scoped_endpoint_outcome(user.claims.token_type, endpoint@),
{
    if user.claims.token_type != TokenType::Sensor {
        return Ok(());
    }
    let mut message = String::from_str(
        "Sensor tokens can only read rules through trigger-scoped endpoints. '",
    );
    message.append(endpoint);
    message.append(
        "' is not allowed. Use /api/v1/rules?trigger_ref=<allowed_trigger_ref> or /api/v1/triggers/{trigger_ref}/rules.",
    );
    Err(ApiError::Forbidden(message))
}

/// Outcome of reading one rule: sensor tokens may read only rules bound to
/// a trigger in their scope.
pub open spec fn rule_read_outcome(
    token_type: TokenType,
    allowed: Seq<Seq<char>>,
    rule_ref: Seq<char>,
    rule_trigger_ref: Seq<char>,
) -> Result<(), ErrorView> {
    if token_type != TokenType::Sensor || ref_allowed(allowed, rule_trigger_ref) {
        Ok(())
    } else {
        Err(api_err(
            ErrorKind::Forbidden,
            "Sensor token is not allowed to read rule '"@ + rule_ref
                + "' because it is bound to trigger '"@ + rule_trigger_ref
                + "'. Allowed trigger_refs: "@ + trigger_scope_text(allowed),
        ))
    }
}

/// Checks that a sensor token reads a rule only when the rule's trigger is
/// within the token's scope.
pub fn ensure_sensor_trigger_scope_for_rule_read(
    user: &AuthenticatedUser,
    rule_ref: &str,
    rule_trigger_ref: &str,
) -> (r: Result<(), ApiError>)
    ensures
        outcome(r) == rule_read_outcome(
            user.claims.token_type,
            token_trigger_types(user.claims),
            rule_ref@,
            rule_trigger_ref@,
        ),
{
    if user.claims.token_type != TokenType::Sensor {
        return Ok(());
    }
    let allowed_trigger_refs = user.claims.sensor_trigger_types();
    if contains_ref(&allowed_trigger_refs, rule_trigger_ref) {
        return Ok(());
    }
    let mut message = String::from_str("Sensor token is not allowed to read rule '");
    message.append(rule_ref);
    message.append("' because it is bound to trigger '");
    message.append(rule_trigger_ref);
    message.append("'. Allowed trigger_refs: ");
    let scope = format_sensor_trigger_scope(&allowed_trigger_refs);
    message.append(scope.as_str());
    Err(ApiError::Forbidden(message))
}

} // verus!
