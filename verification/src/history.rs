//! Entity history: who may list history records, who may read the history
//! of one execution or worker, and the walk up an execution's ancestors.

use vstd::prelude::*;
use crate::auth::{api_err, outcome, ApiError, ErrorKind, ErrorView, TokenType};
use crate::executions::{sorted_unique, strictly_increasing};
use crate::rbac::{has_unconstrained_read, unconstrained_read_exists, Grant, Resource};
use crate::text::find_char;

verus! {

/// The kinds of entities with a history.
#[derive(Debug, Clone, Copy, PartialEq, Eq, Structural)]
pub enum HistoryEntityType {
    Execution,
    Worker,
}

/// The name of an entity kind in messages.
pub open spec fn history_entity_name(t: HistoryEntityType) -> Seq<char> {
    match t {
        HistoryEntityType::Execution => "execution"@,
        HistoryEntityType::Worker => "worker"@,
    }
}

/// The resource whose read permission covers an entity kind's history.
pub open spec fn parent_resource_spec(t: HistoryEntityType) -> Resource {
    match t {
        HistoryEntityType::Execution => Resource::Executions,
        HistoryEntityType::Worker => Resource::Workers,
    }
}

/// The resource whose read permission covers an entity kind's history.
pub fn parent_resource_for_history(entity_type: HistoryEntityType) -> (r: Resource)
    ensures
        r == parent_resource_spec(entity_type),
{
    match entity_type {
        HistoryEntityType::Execution => Resource::Executions,
        HistoryEntityType::Worker => Resource::Workers,
    }
}

/// Whether a token carries an identity whose grants decide history access.
pub open spec fn identity_token(t: TokenType) -> bool {
    t == TokenType::Access || t == TokenType::Execution
}

/// The error for a history list by a token without an identity.
pub open spec fn list_needs_identity_message() -> Seq<char> {
    "History list requires access or execution identity"@
}

/// The error for a history list without an entity filter by a caller
/// whose read access is constrained.
pub open spec fn list_needs_filter_message(t: HistoryEntityType) -> Seq<char> {
    "Scoped history access requires an entity_id filter for "@ + history_entity_name(t) + " history"@
}

/// Listing history for one entity is decided per entity; listing all of
/// it needs an identity token with unconstrained read on the entity kind.
pub open spec fn history_list_access_spec(
    token_type: TokenType,
    entity_type: HistoryEntityType,
    entity_id: Option<i64>,
    grants: Seq<Grant>,
) -> Result<(), ErrorView> {
    if entity_id is Some {
        Ok(())
    } else if !identity_token(token_type) {
        Err(api_err(ErrorKind::Forbidden, list_needs_identity_message()))
    } else if unconstrained_read_exists(grants, parent_resource_spec(entity_type)) {
        Ok(())
    } else {
        Err(api_err(ErrorKind::Forbidden, list_needs_filter_message(entity_type)))
    }
}

/// Decides whether a history list may be served; `grants` are the caller's
/// effective grants, consulted only for an unfiltered list by an identity
/// token.
pub fn authorize_history_list_access(
    token_type: TokenType,
    entity_type: HistoryEntityType,
    entity_id: Option<i64>,
    grants: &Vec<Grant>,
) -> (r: Result<(), ApiError>)
    ensures
        outcome(r) == history_list_access_spec(token_type, entity_type, entity_id, grants@),
{
    if entity_id.is_some() {
        return Ok(());
    }
    if !matches!(token_type, TokenType::Access | TokenType::Execution) {
        return Err(ApiError::Forbidden(String::from_str("History list requires access or execution identity")));
    }
    if has_unconstrained_read(grants, parent_resource_for_history(entity_type)) {
        return Ok(());
    }
    let name = match entity_type {
        HistoryEntityType::Execution => "execution",
        HistoryEntityType::Worker => "worker",
    };
    let mut message = String::from_str("Scoped history access requires an entity_id filter for ");
    message.append(name);
    message.append(" history");
    Err(ApiError::Forbidden(message))
}

/// The error for reading an entity's history without an identity token.
pub open spec fn history_needs_identity_message() -> Seq<char> {
    "History requires access or execution identity"@
}

/// The error for reading an entity's history without read permission on
/// the entity.
pub open spec fn history_read_denied_message(t: HistoryEntityType) -> Seq<char> {
    match t {
        HistoryEntityType::Execution => "Insufficient permissions: executions:read"@,
        HistoryEntityType::Worker => "Insufficient permissions: workers:read"@,
    }
}

/// Reading one entity's history needs an identity token and, when the
/// entity exists, read permission on it; the history of an entity that no
/// longer exists is readable.
pub open spec fn history_parent_access_spec(
    token_type: TokenType,
    entity_type: HistoryEntityType,
    entity_found: bool,
    read_allowed: bool,
) -> Result<(), ErrorView> {
    if !identity_token(token_type) {
        Err(api_err(ErrorKind::Forbidden, history_needs_identity_message()))
    } else if !entity_found || read_allowed {
        Ok(())
    } else {
        Err(api_err(ErrorKind::Forbidden, history_read_denied_message(entity_type)))
    }
}

/// Decides whether one entity's history may be read; `read_allowed` is
/// whether the caller's grants allow reading the entity.
pub fn authorize_history_parent_access(
    token_type: TokenType,
    entity_type: HistoryEntityType,
    entity_found: bool,
    read_allowed: bool,
) -> (r: Result<(), ApiError>)
    ensures
        outcome(r) == history_parent_access_spec(token_type, entity_type, entity_found, read_allowed),
{
    if !matches!(token_type, TokenType::Access | TokenType::Execution) {
        return Err(ApiError::Forbidden(String::from_str("History requires access or execution identity")));
    }
    if !entity_found || read_allowed {
        return Ok(());
    }
    let message = match entity_type {
        HistoryEntityType::Execution => "Insufficient permissions: executions:read",
        HistoryEntityType::Worker => "Insufficient permissions: workers:read",
    };
    Err(ApiError::Forbidden(String::from_str(message)))
}

/// The pack of an action ref `pack.action`: the text before the first dot,
/// when there is one.
pub open spec fn pack_of_action_ref(action_ref: Seq<char>) -> Option<Seq<char>> {
    if action_ref.contains('.') {
        Some(action_ref.take(choose|i: int| 0 <= i < action_ref.len() && action_ref[i] == '.'
            && forall|j: int| 0 <= j < i ==> action_ref[j] != '.'))
    } else {
        None
    }
}

/// The pack ref of an action ref.
pub fn pack_ref_of_action_ref(action_ref: &str) -> (r: Option<String>)
    ensures
        match r {
            Some(p) => pack_of_action_ref(action_ref@) == Some(p@),
            None => pack_of_action_ref(action_ref@) is None,
        },
{
    match find_char(action_ref, '.') {
        Some(i) => {
            let pack = action_ref.substring_char(0, i);
            proof {
                assert(action_ref@.contains('.')) by {
                    assert(action_ref@[i as int] == '.');
                }
                let c = choose|c: int| 0 <= c < action_ref@.len() && action_ref@[c] == '.'
                    && forall|j: int| 0 <= j < c ==> action_ref@[j] != '.';
                if c < i {
                    assert(action_ref@[c] != '.');
                } else if c > i {
                    assert(action_ref@[i as int] != '.');
                }
                assert(pack@ =~= action_ref@.take(i as int));
            }
            Some(pack.to_string())
        },
        None => {
            proof {
                if action_ref@.contains('.') {
                    let k = choose|k: int| 0 <= k < action_ref@.len() && action_ref@[k] == '.';
                    assert(action_ref@[k] != '.');
                }
            }
            None
        },
    }
}

/// The most executions looked up on the way to the root.
pub const ANCESTOR_LOOKUP_LIMIT: u32 = 64;

/// A walk up an execution's parent chain that collects the executors of
/// the ancestors; the caller performs each lookup the walk asks for.
#[derive(Debug)]
pub struct AncestorWalk {
    next_parent: Option<i64>,
    lookups: u32,
    stopped: bool,
    identities: Vec<i64>,
}

impl AncestorWalk {
    /// The execution to look up next, if any.
    pub closed spec fn pending(&self) -> Option<i64> {
        if !self.stopped && self.lookups < ANCESTOR_LOOKUP_LIMIT {
            self.next_parent
        } else {
            None
        }
    }

    /// How many lookups were made.
    pub closed spec fn lookups_made(&self) -> nat {
        self.lookups as nat
    }

    /// The executors collected so far, nearest ancestor first.
    pub closed spec fn collected(&self) -> Seq<i64> {
        self.identities@
    }

    /// Starts at an execution's parent.
    pub fn start(parent: Option<i64>) -> (w: AncestorWalk)
        ensures
            w.pending() == parent,
            w.lookups_made() == 0,
            w.collected() == Seq::<i64>::empty(),
    {
        AncestorWalk { next_parent: parent, lookups: 0, stopped: false, identities: Vec::new() }
    }

    /// The execution to look up next: none when the chain ended, a lookup
    /// found nothing, or the lookup limit was reached.
    pub fn next_lookup(&self) -> (r: Option<i64>)
        ensures
            r == self.pending(),
    {
        if !self.stopped && self.lookups < ANCESTOR_LOOKUP_LIMIT {
            self.next_parent
        } else {
            None
        }
    }

    /// Records the result of looking up the pending execution: its executor
    /// and parent, or nothing when it does not exist (which ends the walk).
    pub fn record(&mut self, found: Option<(Option<i64>, Option<i64>)>)
        requires
            old(self).pending() is Some,
        ensures
            final(self).lookups_made() == old(self).lookups_made() + 1,
            final(self).lookups_made() <= ANCESTOR_LOOKUP_LIMIT,
            match found {
                None => final(self).pending() is None && final(self).collected() == old(self).collected(),
                Some((executor, parent)) => {
                    &&& final(self).collected() == match executor {
                        Some(e) => old(self).collected().push(e),
                        None => old(self).collected(),
                    }
                    &&& final(self).pending() == if final(self).lookups_made() < ANCESTOR_LOOKUP_LIMIT {
                        parent
                    } else {
                        None::<i64>
                    }
                },
            },
    {
        let lookups = self.lookups + 1;
        match found {
            None => {
                self.lookups = lookups;
                self.stopped = true;
            },
            Some((executor, parent)) => {
                if let Some(e) = executor {
                    self.identities.push(e);
                }
                self.lookups = lookups;
                self.next_parent = parent;
            },
        }
    }

    /// The distinct executors collected, in increasing order.
    pub fn finish(self) -> (r: Vec<i64>)
        ensures
            strictly_increasing(r@),
            forall|x: i64| r@.contains(x) <==> self.collected().contains(x),
    {
        sorted_unique(&self.identities)
    }
}

} // verus!
