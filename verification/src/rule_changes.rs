//! Rule creation and update: which permission sets are checked, when a
//! concurrent change aborts the operation, how sensor admission is
//! assessed, which lifecycle notices an update sends, and the payload of
//! those notices.

use vstd::prelude::*;
use vstd::utf8::encode_utf8;
use crate::auth::{api_err, opt_str_view, outcome, ApiError, ErrorKind, ErrorView};
use crate::text::{copy_strings, i64_to_string, int_decimal, join, join_spec, str_eq, string_views};

verus! {

/// How strictly a rule's managed sensor placement is assessed.
#[derive(Debug, Clone, Copy, PartialEq, Eq, Structural)]
pub enum SensorAdmissionRequirement {
    /// A live sensor must be able to take the rule now.
    Live,
    /// The placement must only be well formed.
    WellFormed,
}

/// Enabled rules need a live sensor placement; disabled ones only a
/// structurally valid one.
pub fn sensor_admission_requirement(enabled: bool) -> (r: SensorAdmissionRequirement)
    ensures
        r == if enabled { SensorAdmissionRequirement::Live } else { SensorAdmissionRequirement::WellFormed },
{
    if enabled {
        SensorAdmissionRequirement::Live
    } else {
        SensorAdmissionRequirement::WellFormed
    }
}

/// The JSON array of serialized admission failures.
pub open spec fn failures_json(failures: Seq<Seq<char>>) -> Seq<char> {
    "["@ + join_spec(failures, ","@) + "]"@
}

/// Rejects a rule whose sensor placement failed admission; `failures`
/// holds each failure serialized as a JSON object, and the error carries
/// them as a JSON array.
pub fn reject_sensor_admission(failures: &Vec<String>) -> (r: Result<(), ApiError>)
    ensures
        outcome(r) == if failures@.len() == 0 {
            Ok::<(), ErrorView>(())
        } else {
            Err(api_err(ErrorKind::UnprocessableEntity, failures_json(string_views(failures@))))
        },
{
    if failures.len() == 0 {
        return Ok(());
    }
    let mut message = String::from_str("[");
    let body = join(failures, ",");
    message.append(body.as_str());
    message.append("]");
    Err(ApiError::UnprocessableEntity(message))
}

/// The execution permission sets a rule runs with: those it names, else the
/// defaults of its action.
pub open spec fn effective_refs_spec(requested: Option<Seq<Seq<char>>>, action_defaults: Seq<Seq<char>>) -> Seq<Seq<char>> {
    match requested {
        Some(r) => r,
        None => action_defaults,
    }
}

/// The views of an optional list of strings.
pub open spec fn opt_views(o: Option<Vec<String>>) -> Option<Seq<Seq<char>>> {
    match o {
        Some(v) => Some(string_views(v@)),
        None => None,
    }
}

/// The execution permission sets a new rule runs with.
pub fn effective_permission_set_refs(requested: &Option<Vec<String>>, action_defaults: &Vec<String>) -> (r: Vec<String>)
    ensures
        string_views(r@) == effective_refs_spec(opt_views(*requested), string_views(action_defaults@)),
{
    match requested {
        Some(v) => copy_strings(v),
        None => copy_strings(action_defaults),
    }
}

/// Rule operations that check permission delegation.
#[derive(Debug, Clone, Copy, PartialEq, Eq, Structural)]
pub enum RuleOperation {
    Create,
    Update,
}

/// The error when a rule would run with permission sets the caller lacks.
pub open spec fn delegation_message(op: RuleOperation) -> Seq<char> {
    match op {
        RuleOperation::Create => "Cannot create rule with execution permission sets beyond current access"@,
        RuleOperation::Update => "Cannot update rule with execution permission sets beyond current access"@,
    }
}

/// A rule may run with permission sets only when the caller could delegate
/// them; an empty list needs no check (`can_delegate` is then ignored).
pub fn check_rule_permission_delegation(op: RuleOperation, refs: &Vec<String>, can_delegate: bool) -> (r: Result<
    (),
    ApiError,
>)
    ensures
        outcome(r) == if refs@.len() > 0 && !can_delegate {
            Err(api_err(ErrorKind::Forbidden, delegation_message(op)))
        } else {
            Ok::<(), ErrorView>(())
        },
{
    if refs.len() > 0 && !can_delegate {
        let message = match op {
            RuleOperation::Create => "Cannot create rule with execution permission sets beyond current access",
            RuleOperation::Update => "Cannot update rule with execution permission sets beyond current access",
        };
        return Err(ApiError::Forbidden(String::from_str(message)));
    }
    Ok(())
}

/// The error for a rule ref that is taken.
pub open spec fn rule_exists_message(rule_ref: Seq<char>) -> Seq<char> {
    "Rule with ref '"@ + rule_ref + "' already exists"@
}

/// A new rule's ref must not be in use.
pub fn check_rule_ref_available(rule_ref: &str, taken: bool) -> (r: Result<(), ApiError>)
    ensures
        outcome(r) == if taken {
            Err(api_err(ErrorKind::Conflict, rule_exists_message(rule_ref@)))
        } else {
            Ok::<(), ErrorView>(())
        },
{
    if taken {
        let mut message = String::from_str("Rule with ref '");
        message.append(rule_ref);
        message.append("' already exists");
        return Err(ApiError::Conflict(message));
    }
    Ok(())
}

/// The error when the pack, action or trigger of a new rule changed while
/// it was being authorized.
pub open spec fn components_changed_message() -> Seq<char> {
    "A rule component changed while creation was being authorized"@
}

/// The error when an action's default permission sets changed while a
/// rule creation was being authorized.
pub open spec fn defaults_changed_message() -> Seq<char> {
    "Action permission defaults changed while rule creation was being authorized"@
}

/// Inside the creation transaction, the rule's pack, action and trigger
/// (as `(pack, action, trigger)` ids) and its effective permission sets
/// must be those that were authorized.
pub fn check_rule_components_unchanged(
    authorized_ids: (i64, i64, i64),
    current_ids: (i64, i64, i64),
    authorized_refs: &Vec<String>,
    current_refs: &Vec<String>,
) -> (r: Result<(), ApiError>)
    ensures
        outcome(r) == if authorized_ids != current_ids {
            Err(api_err(ErrorKind::Conflict, components_changed_message()))
        } else if string_views(authorized_refs@) != string_views(current_refs@) {
            Err(api_err(ErrorKind::Conflict, defaults_changed_message()))
        } else {
            Ok::<(), ErrorView>(())
        },
{
    if authorized_ids.0 != current_ids.0 || authorized_ids.1 != current_ids.1 || authorized_ids.2 != current_ids.2 {
        return Err(ApiError::Conflict(
            String::from_str("A rule component changed while creation was being authorized"),
        ));
    }
    if !same_strings(authorized_refs, current_refs) {
        return Err(ApiError::Conflict(
            String::from_str("Action permission defaults changed while rule creation was being authorized"),
        ));
    }
    Ok(())
}

fn same_strings(a: &Vec<String>, b: &Vec<String>) -> (r: bool)
    ensures
        r == (string_views(a@) == string_views(b@)),
{
    if a.len() != b.len() {
        proof {
            assert(string_views(a@).len() != string_views(b@).len());
        }
        return false;
    }
    let mut i: usize = 0;
    while i < a.len()
        invariant
            i <= a.len(),
            a.len() == b.len(),
            forall|j: int| 0 <= j < i ==> string_views(a@)[j] == string_views(b@)[j],
        decreases a.len() - i,
    {
        if !str_eq(a[i].as_str(), b[i].as_str()) {
            proof {
                assert(string_views(a@)[i as int] != string_views(b@)[i as int]);
            }
            return false;
        }
        i = i + 1;
    }
    assert(string_views(a@) =~= string_views(b@));
    true
}

/// The error when the rule being updated was replaced meanwhile.
pub open spec fn rule_replaced_message(rule_ref: Seq<char>) -> Seq<char> {
    "Rule '"@ + rule_ref + "' changed while the update was being authorized"@
}

/// Inside the update transaction, the rule must still be the one that was
/// authorized.
pub fn check_rule_unchanged(rule_ref: &str, authorized_rule_id: i64, current_rule_id: i64) -> (r: Result<(), ApiError>)
    ensures
        outcome(r) == if authorized_rule_id != current_rule_id {
            Err(api_err(ErrorKind::Conflict, rule_replaced_message(rule_ref@)))
        } else {
            Ok::<(), ErrorView>(())
        },
{
    if authorized_rule_id != current_rule_id {
        let mut message = String::from_str("Rule '");
        message.append(rule_ref);
        message.append("' changed while the update was being authorized");
        return Err(ApiError::Conflict(message));
    }
    Ok(())
}

/// The permission sets an update must check: those it sets, the action's
/// defaults when it clears the override, and, when only the action changes,
/// the rule's override or else the new action's defaults.
pub open spec fn refs_to_validate_spec(
    patch: Option<Option<Seq<Seq<char>>>>,
    action_changing: bool,
    existing_override: Option<Seq<Seq<char>>>,
    action_defaults: Seq<Seq<char>>,
) -> Option<Seq<Seq<char>>> {
    match patch {
        Some(Some(refs)) => Some(refs),
        Some(None) => Some(action_defaults),
        None => if action_changing {
            Some(effective_refs_spec(existing_override, action_defaults))
        } else {
            None
        },
    }
}

/// The views of a permission-set patch.
pub open spec fn patch_views(p: Option<Option<Vec<String>>>) -> Option<Option<Seq<Seq<char>>>> {
    match p {
        Some(o) => Some(opt_views(o)),
        None => None,
    }
}

/// The permission sets an update must check before it is applied.
pub fn permission_refs_to_validate(
    patch: &Option<Option<Vec<String>>>,
    action_changing: bool,
    existing_override: &Option<Vec<String>>,
    action_defaults: &Vec<String>,
) -> (r: Option<Vec<String>>)
    ensures
        opt_views(r) == refs_to_validate_spec(
            patch_views(*patch),
            action_changing,
            opt_views(*existing_override),
            string_views(action_defaults@),
        ),
{
    match patch {
        Some(Some(refs)) => Some(copy_strings(refs)),
        Some(None) => Some(copy_strings(action_defaults)),
        None => if action_changing {
            Some(effective_permission_set_refs(existing_override, action_defaults))
        } else {
            None
        },
    }
}

/// Whether an update names a trigger other than the rule's.
pub fn trigger_ref_changed(requested: Option<&str>, existing: &str) -> (b: bool)
    ensures
        b == (opt_str_view(requested) is Some && opt_str_view(requested)->0 != existing@),
{
    match requested {
        Some(r) => !str_eq(r, existing),
        None => false,
    }
}

/// What an update changes in a rule's lifecycle.
#[derive(Debug, Clone, Copy, PartialEq, Eq, Structural)]
pub struct RuleUpdatePlan {
    pub was_enabled: bool,
    pub enabled_after_update: bool,
    pub became_enabled: bool,
    pub became_disabled: bool,
    pub trigger_ref_changed: bool,
    /// The trigger, its parameters or the sensor placement change.
    pub trigger_config_changed: bool,
    /// Sensor admission must be assessed again.
    pub admission_changed: bool,
}

/// The lifecycle changes of an update.
pub open spec fn rule_update_plan_spec(
    was_enabled: bool,
    requested_enabled: Option<bool>,
    trigger_ref_changed: bool,
    trigger_params_changed: bool,
    placement_given: bool,
) -> RuleUpdatePlan {
    let after = match requested_enabled {
        Some(e) => e,
        None => was_enabled,
    };
    RuleUpdatePlan {
        was_enabled,
        enabled_after_update: after,
        became_enabled: !was_enabled && after,
        became_disabled: was_enabled && !after,
        trigger_ref_changed,
        trigger_config_changed: trigger_ref_changed || trigger_params_changed || placement_given,
        admission_changed: trigger_ref_changed || placement_given || (!was_enabled && after),
    }
}

/// Works out what an update changes in a rule's lifecycle.
pub fn plan_rule_update(
    was_enabled: bool,
    requested_enabled: Option<bool>,
    trigger_ref_changed: bool,
    trigger_params_changed: bool,
    placement_given: bool,
) -> (p: RuleUpdatePlan)
    ensures
        p == rule_update_plan_spec(was_enabled, requested_enabled, trigger_ref_changed, trigger_params_changed, placement_given),
{
    let after = match requested_enabled {
        Some(e) => e,
        None => was_enabled,
    };
    let became_enabled = !was_enabled && after;
    RuleUpdatePlan {
        was_enabled,
        enabled_after_update: after,
        became_enabled,
        became_disabled: was_enabled && !after,
        trigger_ref_changed,
        trigger_config_changed: trigger_ref_changed || trigger_params_changed || placement_given,
        admission_changed: trigger_ref_changed || placement_given || became_enabled,
    }
}

/// The lifecycle notices an applied update sends.
#[derive(Debug, Clone, Copy, PartialEq, Eq, Structural)]
pub struct RuleUpdateNotices {
    /// A `rule.disabled` notice, for the previous trigger when it changed.
    pub disabled: bool,
    /// A `rule.enabled` notice with the rule's current trigger.
    pub enabled: bool,
    /// Whether the disabled notice names the previous trigger.
    pub disabled_names_previous_trigger: bool,
}

/// The notices of an update: the rule stops at its old trigger when it is
/// disabled or moves away from a trigger it was active on; it starts when
/// it is enabled or its active trigger configuration changes.
pub open spec fn rule_update_notices_spec(plan: RuleUpdatePlan, rule_enabled: bool) -> RuleUpdateNotices {
    RuleUpdateNotices {
        disabled: plan.became_disabled || (plan.was_enabled && plan.trigger_ref_changed),
        enabled: plan.became_enabled || (rule_enabled && plan.trigger_config_changed),
        disabled_names_previous_trigger: plan.trigger_ref_changed,
    }
}

/// The notices an applied update sends; `rule_enabled` is the rule's state
/// after the update.
pub fn rule_update_notices(plan: RuleUpdatePlan, rule_enabled: bool) -> (n: RuleUpdateNotices)
    ensures
        n == rule_update_notices_spec(plan, rule_enabled),
{
    RuleUpdateNotices {
        disabled: plan.became_disabled || (plan.was_enabled && plan.trigger_ref_changed),
        enabled: plan.became_enabled || (rule_enabled && plan.trigger_config_changed),
        disabled_names_previous_trigger: plan.trigger_ref_changed,
    }
}

/// An update never both enables and disables a rule; a rule left disabled
/// is never announced as enabled, and an update that changes nothing sends
/// no notice and needs no new admission.
pub proof fn law_rule_update_notices_are_consistent(
    was_enabled: bool,
    requested_enabled: Option<bool>,
    trigger_ref_changed: bool,
    trigger_params_changed: bool,
    placement_given: bool,
)
    ensures
        ({
            let plan = rule_update_plan_spec(
                was_enabled,
                requested_enabled,
                trigger_ref_changed,
                trigger_params_changed,
                placement_given,
            );
            let notices = rule_update_notices_spec(plan, plan.enabled_after_update);
            &&& !(plan.became_enabled && plan.became_disabled)
            &&& !plan.enabled_after_update ==> !notices.enabled
            &&& (plan.became_disabled ==> notices.disabled)
            &&& (plan.became_enabled ==> notices.enabled && plan.admission_changed)
            &&& (requested_enabled is None && !trigger_ref_changed && !trigger_params_changed && !placement_given)
                ==> !notices.disabled && !notices.enabled && !plan.admission_changed
        }),
{
}

/// The largest PostgreSQL NOTIFY payload sent: the hard limit is 8000
/// bytes, and this leaves room for channel and framing overhead.
pub const NOTIFY_PAYLOAD_SAFE_BYTES: usize = 7000;

/// The channel that carries rule lifecycle notices.
pub const RULE_LIFECYCLE_CHANNEL: &'static str = "rule_lifecycle_changed";

/// The lower-case hexadecimal digit of `d` (0 to 15).
pub open spec fn hex_digit(d: u32) -> char {
    if d < 10 {
        ('0' as u32 + d) as char
    } else {
        ('a' as u32 + (d - 10)) as char
    }
}

/// How serde_json writes one character inside a string literal: `"` and
/// `\` and the control characters below U+0020 are escaped (`\b`, `\t`,
/// `\n`, `\f`, `\r`, else `\u00XX` in lower-case hex); every other
/// character is written as it is.
pub open spec fn json_escaped_char(c: char) -> Seq<char> {
    if c == '"' {
        seq!['\\', '"']
    } else if c == '\\' {
        seq!['\\', '\\']
    } else if c == '\u{8}' {
        seq!['\\', 'b']
    } else if c == '\t' {
        seq!['\\', 't']
    } else if c == '\n' {
        seq!['\\', 'n']
    } else if c == '\u{c}' {
        seq!['\\', 'f']
    } else if c == '\r' {
        seq!['\\', 'r']
    } else if (c as u32) < 0x20 {
        seq!['\\', 'u', '0', '0', hex_digit((c as u32) / 16), hex_digit((c as u32) % 16)]
    } else {
        seq![c]
    }
}

/// The escaped characters of a string, in order.
pub open spec fn json_escaped_text(s: Seq<char>) -> Seq<char>
    decreases s.len(),
{
    if s.len() == 0 {
        Seq::empty()
    } else {
        json_escaped_text(s.drop_last()) + json_escaped_char(s.last())
    }
}

/// What `serde_json::to_string` makes of a string: the JSON string literal,
/// the escaped characters between double quotes.
pub open spec fn json_quoted(s: Seq<char>) -> Seq<char> {
    seq!['"'] + json_escaped_text(s) + seq!['"']
}

/// Calls `serde_json::to_string` on a string: its JSON literal, quoted and
/// escaped as its `format_escaped_str` does (serializing a string cannot
/// fail).
#[verifier::external_body]
fn json_string(s: &str) -> (r: String)
    ensures
        r@ == json_quoted(s@),
{
    match serde_json::to_string(s) {
        Ok(t) => t,
        Err(_) => String::new(),
    }
}

/// The JSON text of a boolean.
pub open spec fn json_bool(b: bool) -> Seq<char> {
    if b {
        "true"@
    } else {
        "false"@
    }
}

/// The fields shared by both forms of a notice, from `entity_id` to
/// `timestamp`.
pub open spec fn lifecycle_common_fields(
    event_type: Seq<char>,
    rule_id: i64,
    rule_ref: Seq<char>,
    timestamp: Seq<char>,
) -> Seq<char> {
    ",\"entity_id\":"@ + int_decimal(rule_id as int) + ",\"entity_type\":\"rule_lifecycle\",\"event_type\":"@
        + json_quoted(event_type) + ",\"rule_id\":"@ + int_decimal(rule_id as int) + ",\"rule_ref\":"@
        + json_quoted(rule_ref) + ",\"timestamp\":"@ + json_quoted(timestamp)
}

/// The full notice: every field, with the trigger parameters (`null` when
/// absent) and `auth_mode` `full`; keys in sorted order, as serde_json
/// writes an object.
pub open spec fn full_lifecycle_payload(
    event_type: Seq<char>,
    rule_id: i64,
    rule_ref: Seq<char>,
    trigger_ref: Seq<char>,
    trigger_params_json: Option<Seq<char>>,
    active: bool,
    timestamp: Seq<char>,
) -> Seq<char> {
    "{\"active\":"@ + json_bool(active) + ",\"auth_mode\":\"full\""@
        + lifecycle_common_fields(event_type, rule_id, rule_ref, timestamp) + ",\"trigger_params\":"@
        + match trigger_params_json {
        Some(p) => p,
        None => "null"@,
    } + ",\"trigger_ref\":"@ + json_quoted(trigger_ref) + "}"@
}

/// The compact notice: the routing fields only, without the trigger
/// parameters, with `auth_mode` `deferred`.
pub open spec fn compact_lifecycle_payload(
    event_type: Seq<char>,
    rule_id: i64,
    rule_ref: Seq<char>,
    trigger_ref: Seq<char>,
    active: bool,
    timestamp: Seq<char>,
) -> Seq<char> {
    "{\"active\":"@ + json_bool(active) + ",\"auth_mode\":\"deferred\""@
        + lifecycle_common_fields(event_type, rule_id, rule_ref, timestamp) + ",\"trigger_ref\":"@
        + json_quoted(trigger_ref) + "}"@
}

/// The notice sent: the full one when its UTF-8 encoding fits in
/// [`NOTIFY_PAYLOAD_SAFE_BYTES`], the compact one otherwise.
pub open spec fn lifecycle_payload_spec(
    event_type: Seq<char>,
    rule_id: i64,
    rule_ref: Seq<char>,
    trigger_ref: Seq<char>,
    trigger_params_json: Option<Seq<char>>,
    active: bool,
    timestamp: Seq<char>,
) -> Seq<char> {
    let full = full_lifecycle_payload(event_type, rule_id, rule_ref, trigger_ref, trigger_params_json, active, timestamp);
    if encode_utf8(full).len() <= NOTIFY_PAYLOAD_SAFE_BYTES {
        full
    } else {
        compact_lifecycle_payload(event_type, rule_id, rule_ref, trigger_ref, active, timestamp)
    }
}

fn append_common_tail(
    out: &mut String,
    event_type: &str,
    rule_id: i64,
    id_text: &str,
    rule_ref: &str,
    timestamp: &str,
)
    requires
        id_text@ == int_decimal(rule_id as int),
    ensures
        final(out)@ == old(out)@ + lifecycle_common_fields(event_type@, rule_id, rule_ref@, timestamp@),
{
    out.append(",\"entity_id\":");
    out.append(id_text);
    out.append(",\"entity_type\":\"rule_lifecycle\",\"event_type\":");
    let e = json_string(event_type);
    out.append(e.as_str());
    out.append(",\"rule_id\":");
    out.append(id_text);
    out.append(",\"rule_ref\":");
    let r = json_string(rule_ref);
    out.append(r.as_str());
    out.append(",\"timestamp\":");
    let t = json_string(timestamp);
    out.append(t.as_str());
    assert(out@ =~= old(out)@ + lifecycle_common_fields(event_type@, rule_id, rule_ref@, timestamp@));
}

/// Builds the NOTIFY payload of a rule lifecycle notice, falling back to
/// the compact form when the full one is too large. `trigger_params_json`
/// is the JSON text of the trigger parameters, `timestamp` the RFC 3339
/// time of the notice.
pub fn build_rule_lifecycle_payload(
    event_type: &str,
    rule_id: i64,
    rule_ref: &str,
    trigger_ref: &str,
    trigger_params_json: Option<&str>,
    active: bool,
    timestamp: &str,
) -> (r: String)
    ensures
        r@ == lifecycle_payload_spec(
            event_type@,
            rule_id,
            rule_ref@,
            trigger_ref@,
            opt_str_view(trigger_params_json),
            active,
            timestamp@,
        ),
{
    let id_text = i64_to_string(rule_id);
    let active_text = if active { "true" } else { "false" };
    let trigger = json_string(trigger_ref);

    let mut full = String::from_str("{\"active\":");
    full.append(active_text);
    full.append(",\"auth_mode\":\"full\"");
    append_common_tail(&mut full, event_type, rule_id, id_text.as_str(), rule_ref, timestamp);
    full.append(",\"trigger_params\":");
    match trigger_params_json {
        Some(p) => full.append(p),
        None => full.append("null"),
    }
    full.append(",\"trigger_ref\":");
    full.append(trigger.as_str());
    full.append("}");
    proof {
        assert(full@ =~= full_lifecycle_payload(
            event_type@,
            rule_id,
            rule_ref@,
            trigger_ref@,
            opt_str_view(trigger_params_json),
            active,
            timestamp@,
        ));
    }
    if full.as_str().as_bytes().len() <= NOTIFY_PAYLOAD_SAFE_BYTES {
        return full;
    }
    let mut compact = String::from_str("{\"active\":");
    compact.append(active_text);
    compact.append(",\"auth_mode\":\"deferred\"");
    append_common_tail(&mut compact, event_type, rule_id, id_text.as_str(), rule_ref, timestamp);
    compact.append(",\"trigger_ref\":");
    compact.append(trigger.as_str());
    compact.append("}");
    proof {
        assert(compact@ =~= compact_lifecycle_payload(event_type@, rule_id, rule_ref@, trigger_ref@, active, timestamp@));
    }
    compact
}

/// The notice sent always fits under the NOTIFY limit when its compact
/// form does; only routing fields too long for any notice can exceed it.
pub proof fn law_lifecycle_payload_fits_when_compact_fits(
    event_type: Seq<char>,
    rule_id: i64,
    rule_ref: Seq<char>,
    trigger_ref: Seq<char>,
    trigger_params_json: Option<Seq<char>>,
    active: bool,
    timestamp: Seq<char>,
)
    requires
        encode_utf8(compact_lifecycle_payload(event_type, rule_id, rule_ref, trigger_ref, active, timestamp)).len()
            <= NOTIFY_PAYLOAD_SAFE_BYTES,
    ensures
        encode_utf8(
            lifecycle_payload_spec(event_type, rule_id, rule_ref, trigger_ref, trigger_params_json, active, timestamp),
        ).len() <= NOTIFY_PAYLOAD_SAFE_BYTES,
{
}

} // verus!
