//! Events and enforcements: who may create events, which rule and sensor
//! an event is attributed to, and what of an event or enforcement a reader
//! without global read access sees.

use vstd::prelude::*;
use crate::auth::{api_err, opt_str_view, opt_string_view, outcome, ApiError, ErrorKind, ErrorView, TokenType};
use crate::rbac::{
    has_unconstrained_resource_action, resource_action_exists, resource_action_grant_exists,
    unconstrained_action_exists, Action, Grant, Resource,
};
use crate::text::{has_prefix, parse_i64, parse_i64_spec, starts_with};

verus! {

/// The error for an event created with a user session.
pub open spec fn user_event_message() -> Seq<char> {
    "Events may only be created by sensor services. To fire an event as a user, enable webhooks on the trigger and POST to its webhook URL."@
}

/// Events are created by sensors and executions; user sessions must go
/// through a trigger's webhook.
pub fn check_event_creator(token_type: TokenType) -> (r: Result<(), ApiError>)
    ensures
        outcome(r) == if token_type == TokenType::Access {
            Err(api_err(ErrorKind::Forbidden, user_event_message()))
        } else {
            Ok::<(), ErrorView>(())
        },
{
    if token_type == TokenType::Access {
        return Err(ApiError::Forbidden(String::from_str(
            "Events may only be created by sensor services. To fire an event as a user, enable webhooks on the trigger and POST to its webhook URL.",
        )));
    }
    Ok(())
}

/// The error for an event of a disabled trigger.
pub open spec fn trigger_disabled_message(trigger_ref: Seq<char>) -> Seq<char> {
    "Trigger '"@ + trigger_ref + "' is disabled"@
}

/// Events may only be created for enabled triggers.
pub fn check_trigger_enabled(trigger_ref: &str, enabled: bool) -> (r: Result<(), ApiError>)
    ensures
        outcome(r) == if enabled {
            Ok::<(), ErrorView>(())
        } else {
            Err(api_err(ErrorKind::BadRequest, trigger_disabled_message(trigger_ref@)))
        },
{
    if !enabled {
        let mut message = String::from_str("Trigger '");
        message.append(trigger_ref);
        message.append("' is disabled");
        return Err(ApiError::BadRequest(message));
    }
    Ok(())
}

/// The rule id named by a trigger instance id of the form `rule_<id>`.
pub open spec fn instance_rule_id_spec(instance_id: Option<Seq<char>>) -> Option<i64> {
    match instance_id {
        Some(s) => if has_prefix(s, "rule_"@) {
            parse_i64_spec(s.skip(5))
        } else {
            None
        },
        None => None,
    }
}

/// The rule id named by an event's trigger instance id, if it names one.
pub fn rule_id_from_instance(instance_id: Option<&str>) -> (r: Option<i64>)
    ensures
        r == instance_rule_id_spec(opt_str_view(instance_id)),
{
    match instance_id {
        Some(s) => {
            if !starts_with(s, "rule_") {
                return None;
            }
            proof {
                reveal_strlit("rule_");
            }
            let n = s.unicode_len();
            let rest = s.substring_char(5, n);
            assert(rest@ =~= s@.skip(5));
            parse_i64(rest)
        },
        None => None,
    }
}

/// The rule an event is attributed to: the named rule, only when it exists
/// and fires on the event's trigger.
pub open spec fn event_rule_link_spec(
    rule_id: Option<i64>,
    fetched: Option<(Seq<char>, Option<i64>)>,
    trigger_id: i64,
) -> (Option<i64>, Option<Seq<char>>) {
    match (rule_id, fetched) {
        (Some(id), Some((rule_ref, rule_trigger))) => if rule_trigger == Some(trigger_id) {
            (Some(id), Some(rule_ref))
        } else {
            (None, None)
        },
        _ => (None, None),
    }
}

/// Attributes an event to the rule its instance id names, given the rule
/// row found for that id (its ref and trigger), when it fires on the
/// event's trigger.
pub fn event_rule_link(rule_id: Option<i64>, fetched: Option<(String, Option<i64>)>, trigger_id: i64) -> (r: (
    Option<i64>,
    Option<String>,
))
    ensures
        (r.0, opt_string_view(r.1)) == event_rule_link_spec(
            rule_id,
            match fetched {
                Some((rr, t)) => Some((rr@, t)),
                None => None,
            },
            trigger_id,
        ),
{
    match (rule_id, fetched) {
        (Some(id), Some((rule_ref, rule_trigger))) => {
            if rule_trigger == Some(trigger_id) {
                (Some(id), Some(rule_ref))
            } else {
                (None, None)
            }
        },
        _ => (None, None),
    }
}

/// The sensor an event comes from: for sensor tokens, the sensor named by
/// the token's login (with its id when the sensor exists); nothing for
/// other tokens.
pub fn event_source(token_type: TokenType, login: &str, sensor_id: Option<i64>) -> (r: (Option<i64>, Option<String>))
    ensures
        token_type == TokenType::Sensor ==> r.0 == sensor_id && opt_string_view(r.1) == Some(login@),
        token_type != TokenType::Sensor ==> r.0 is None && r.1 is None,
{
    match token_type {
        TokenType::Sensor => (sensor_id, Some(login.to_string())),
        _ => (None, None),
    }
}

/// The text that replaces a reference the reader may not see.
pub open spec fn redacted_ref() -> Seq<char> {
    "[redacted]"@
}

/// The references of an event that visibility may hide.
#[derive(Debug, PartialEq, Eq)]
pub struct EventRefs {
    pub rule: Option<i64>,
    pub rule_ref: Option<String>,
    pub trigger: Option<i64>,
    pub trigger_ref: String,
}

/// Mathematical view of [`EventRefs`].
pub struct EventRefsView {
    pub rule: Option<i64>,
    pub rule_ref: Option<Seq<char>>,
    pub trigger: Option<i64>,
    pub trigger_ref: Seq<char>,
}

/// The view of an event's references.
pub open spec fn event_refs_view(e: EventRefs) -> EventRefsView {
    EventRefsView { rule: e.rule, rule_ref: opt_string_view(e.rule_ref), trigger: e.trigger, trigger_ref: e.trigger_ref@ }
}

/// What a reader sees of an event: everything with global event read;
/// otherwise the rule only when its rule scope covers it, and the trigger
/// only when its trigger scope covers it or, for a public trigger scope,
/// when the event shows no rule.
pub open spec fn event_visibility_spec(
    e: EventRefsView,
    rule_visible: bool,
    trigger_visible: bool,
    include_public: bool,
    global_read: bool,
) -> EventRefsView {
    if global_read {
        e
    } else {
        let rule_hidden = !rule_visible;
        let rule = if rule_hidden { None } else { e.rule };
        let rule_ref = if rule_hidden { None } else { e.rule_ref };
        if !trigger_visible && !(rule is None && include_public) {
            EventRefsView { rule, rule_ref, trigger: None, trigger_ref: redacted_ref() }
        } else {
            EventRefsView { rule, rule_ref, trigger: e.trigger, trigger_ref: e.trigger_ref }
        }
    }
}

/// Hides the rule and trigger of an event that the reader's scopes do not
/// cover; `rule_visible` and `trigger_visible` tell whether the rule and
/// trigger scopes cover the event's rule and trigger.
pub fn apply_event_visibility(
    event: &mut EventRefs,
    rule_visible: bool,
    trigger_visible: bool,
    include_public: bool,
    global_read: bool,
)
    ensures
        event_refs_view(*final(event)) == event_visibility_spec(
            event_refs_view(*old(event)),
            rule_visible,
            trigger_visible,
            include_public,
            global_read,
        ),
{
    if global_read {
        return;
    }
    if !rule_visible {
        event.rule = None;
        event.rule_ref = None;
    }
    if !trigger_visible && !(event.rule.is_none() && include_public) {
        event.trigger = None;
        event.trigger_ref = String::from_str("[redacted]");
    }
}

/// The references of an enforcement that visibility may hide.
#[derive(Debug, PartialEq, Eq)]
pub struct EnforcementRefs {
    pub rule: Option<i64>,
    pub rule_ref: String,
    pub trigger_ref: String,
}

/// What a reader sees of an enforcement: everything with global read;
/// otherwise the rule and trigger refs only when the reader's scopes cover
/// them.
pub open spec fn enforcement_visibility_spec(
    rule: Option<i64>,
    rule_ref: Seq<char>,
    trigger_ref: Seq<char>,
    rule_visible: bool,
    trigger_visible: bool,
    global_read: bool,
) -> (Option<i64>, Seq<char>, Seq<char>) {
    if global_read {
        (rule, rule_ref, trigger_ref)
    } else {
        (
            if rule_visible { rule } else { None },
            if rule_visible { rule_ref } else { redacted_ref() },
            if trigger_visible { trigger_ref } else { redacted_ref() },
        )
    }
}

/// Hides the rule and trigger refs of an enforcement that the reader's
/// scopes do not cover.
pub fn apply_enforcement_visibility(
    enforcement: &mut EnforcementRefs,
    rule_visible: bool,
    trigger_visible: bool,
    global_read: bool,
)
    ensures
        (final(enforcement).rule, final(enforcement).rule_ref@, final(enforcement).trigger_ref@)
            == enforcement_visibility_spec(
            old(enforcement).rule,
            old(enforcement).rule_ref@,
            old(enforcement).trigger_ref@,
            rule_visible,
            trigger_visible,
            global_read,
        ),
{
    if global_read {
        return;
    }
    if !rule_visible {
        enforcement.rule = None;
        enforcement.rule_ref = String::from_str("[redacted]");
    }
    if !trigger_visible {
        enforcement.trigger_ref = String::from_str("[redacted]");
    }
}

/// Whether an access token may read scoped event or enforcement
/// collections without a grant on the resource itself.
pub fn allows_scoped_collection_read_without_resource_grant(token_type: TokenType, is_event_or_enforcement: bool, is_read: bool) -> (b: bool)
    ensures
        b == (token_type == TokenType::Access && is_read && is_event_or_enforcement),
{
    token_type == TokenType::Access && is_read && is_event_or_enforcement
}

/// Whether an access token may read events of public triggers without a
/// grant on events.
pub fn allows_public_trigger_event_read_without_resource_grant(token_type: TokenType, is_read: bool) -> (b: bool)
    ensures
        b == (token_type == TokenType::Access && is_read),
{
    token_type == TokenType::Access && is_read
}

/// The next step of deciding whether a caller may access one event.
#[derive(Debug, Clone, Copy, PartialEq, Eq, Structural)]
pub enum EventAccessStep {
    /// Access is granted.
    Allowed,
    /// The caller has no grant on events and no public-trigger allowance.
    MissingGrant,
    /// Access depends on whether the event is visible through the caller's
    /// rule and trigger scopes.
    CheckVisibility,
}

/// How access to one event is decided. Callers without scoped grants
/// (`grants` is `None`) pass; otherwise a grant of `action` on events, or
/// the public-trigger allowance of access tokens reading, is needed; an
/// unconstrained grant of `action` on events suffices, and anything else
/// depends on the event's visibility.
pub open spec fn event_access_step_spec(
    grants: Option<Seq<Grant>>,
    token_type: TokenType,
    action: Action,
) -> EventAccessStep {
    match grants {
        None => EventAccessStep::Allowed,
        Some(g) => {
            let has_resource_grant = resource_action_exists(g, Resource::Events, action);
            let allow_public_trigger_read = token_type == TokenType::Access && action == Action::Read;
            if !has_resource_grant && !allow_public_trigger_read {
                EventAccessStep::MissingGrant
            } else if has_resource_grant && unconstrained_action_exists(g, Resource::Events, action) {
                EventAccessStep::Allowed
            } else {
                EventAccessStep::CheckVisibility
            }
        },
    }
}

/// The next step of deciding whether a caller may perform `action` on one
/// event, from the caller's grants (`None` when the caller is not scoped by
/// grants).
pub fn event_access_step(grants: Option<&Vec<Grant>>, token_type: TokenType, action: Action) -> (s: EventAccessStep)
    ensures
        s == event_access_step_spec(
            match grants {
                Some(g) => Some(g@),
                None => None,
            },
            token_type,
            action,
        ),
{
    let grants = match grants {
        None => return EventAccessStep::Allowed,
        Some(g) => g,
    };
    let has_resource_grant = resource_action_grant_exists(grants, Resource::Events, action);
    let allow_public_trigger_read = allows_public_trigger_event_read_without_resource_grant(
        token_type,
        action == Action::Read,
    );
    if !has_resource_grant && !allow_public_trigger_read {
        return EventAccessStep::MissingGrant;
    }
    if has_resource_grant && has_unconstrained_resource_action(grants, Resource::Events, action) {
        return EventAccessStep::Allowed;
    }
    EventAccessStep::CheckVisibility
}

/// The error for an event hidden by the caller's scopes.
pub open spec fn event_not_visible_message() -> Seq<char> {
    "Insufficient permissions: events visibility"@
}

/// The answer once the event's visibility is known.
pub fn event_visibility_result(visible: bool) -> (r: Result<(), ApiError>)
    ensures
        outcome(r) == if visible {
            Ok::<(), ErrorView>(())
        } else {
            Err(api_err(ErrorKind::Forbidden, event_not_visible_message()))
        },
{
    if visible {
        Ok(())
    } else {
        Err(ApiError::Forbidden(String::from_str("Insufficient permissions: events visibility")))
    }
}

/// A reader without global read never sees a rule its rule scope does not
/// cover, and every trigger ref it sees is either covered by its trigger
/// scope, the event's own (public trigger without a visible rule), or the
/// redaction marker.
pub proof fn law_event_visibility_hides_uncovered_refs(
    e: EventRefsView,
    rule_visible: bool,
    trigger_visible: bool,
    include_public: bool,
)
    ensures
        ({
            let v = event_visibility_spec(e, rule_visible, trigger_visible, include_public, false);
            &&& !rule_visible ==> v.rule is None && v.rule_ref is None
            &&& v.trigger_ref == e.trigger_ref || v.trigger_ref == redacted_ref()
            &&& (!trigger_visible && !include_public) ==> v.trigger is None && v.trigger_ref == redacted_ref()
            &&& event_visibility_spec(v, rule_visible, trigger_visible, include_public, false).rule == v.rule
        }),
{
}

/// The shape of one member of a trigger schema, as far as the choice of
/// section schemas reads it.
#[derive(Debug, Clone, Copy, PartialEq, Eq, Structural)]
pub struct SchemaMember {
    /// The member is a JSON object.
    pub is_object: bool,
    /// It has a `properties` key.
    pub has_properties: bool,
    /// Its `type` is the string `object`.
    pub type_is_object: bool,
}

/// The shape of a trigger's parameter schema.
#[derive(Debug, Clone, Copy, PartialEq, Eq, Structural)]
pub struct TriggerSchemaShape {
    /// The schema is a JSON object.
    pub is_object: bool,
    /// Its `type` is the string `object`.
    pub type_is_object: bool,
    /// Its `properties` is an object with a `payload` member.
    pub properties_payload: bool,
    /// Its `properties` is an object with a `config` member.
    pub properties_config: bool,
    /// Its top-level `payload` member, if any.
    pub payload: Option<SchemaMember>,
    /// Its top-level `config` member, if any.
    pub config: Option<SchemaMember>,
}

/// Where the schema of an event section comes from.
#[derive(Debug, Clone, Copy, PartialEq, Eq, Structural)]
pub enum SectionSchema {
    /// No schema applies.
    Absent,
    /// The whole trigger schema.
    Whole,
    /// The section's member under `properties`.
    Property,
    /// The section's top-level member.
    Member,
}

/// Whether a schema member looks like the schema of a whole section: an
/// object with `properties` or of type `object`.
pub open spec fn looks_like_section_schema_spec(m: SchemaMember) -> bool {
    m.is_object && (m.has_properties || m.type_is_object)
}

/// Whether a schema member looks like the schema of a whole section.
pub fn looks_like_section_schema(m: SchemaMember) -> (b: bool)
    ensures
        b == looks_like_section_schema_spec(m),
{
    m.is_object && (m.has_properties || m.type_is_object)
}

/// The section schemas of a trigger schema before the payload fallback:
/// for an object schema of type `object`, the `payload` and `config`
/// members of its `properties`; for another object, its top-level
/// `payload` and `config` members when they look like section schemas.
pub open spec fn section_schemas_spec(schema: Option<TriggerSchemaShape>) -> (bool, bool) {
    match schema {
        None => (false, false),
        Some(s) => if !s.is_object {
            (false, false)
        } else if s.type_is_object {
            (s.properties_payload, s.properties_config)
        } else {
            (
                s.payload matches Some(m) && looks_like_section_schema_spec(m),
                s.config matches Some(m) && looks_like_section_schema_spec(m),
            )
        },
    }
}

/// The schemas that redact an event's payload and config: the section
/// schemas found, the payload falling back to the whole schema (by
/// convention a trigger schema describes the payload).
pub open spec fn event_section_schemas_spec(schema: Option<TriggerSchemaShape>) -> (SectionSchema, SectionSchema) {
    let (p, c) = section_schemas_spec(schema);
    let nested = match schema {
        Some(s) => if s.is_object && s.type_is_object { SectionSchema::Property } else { SectionSchema::Member },
        None => SectionSchema::Member,
    };
    (
        if p { nested } else if schema is Some { SectionSchema::Whole } else { SectionSchema::Absent },
        if c { nested } else { SectionSchema::Absent },
    )
}

/// Chooses the schemas that redact an event's payload and config.
pub fn event_section_schemas(schema: Option<TriggerSchemaShape>) -> (r: (SectionSchema, SectionSchema))
    ensures
        r == event_section_schemas_spec(schema),
{
    match schema {
        None => (SectionSchema::Absent, SectionSchema::Absent),
        Some(s) => {
            if !s.is_object {
                return (SectionSchema::Whole, SectionSchema::Absent);
            }
            let (p, c, nested) = if s.type_is_object {
                (s.properties_payload, s.properties_config, SectionSchema::Property)
            } else {
                let p = match s.payload {
                    Some(m) => looks_like_section_schema(m),
                    None => false,
                };
                let c = match s.config {
                    Some(m) => looks_like_section_schema(m),
                    None => false,
                };
                (p, c, SectionSchema::Member)
            };
            (if p { nested } else { SectionSchema::Whole }, if c { nested } else { SectionSchema::Absent })
        },
    }
}

} // verus!
