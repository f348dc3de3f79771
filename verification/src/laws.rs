//! Properties that hold across the decisions of the library: round trips of
//! status names, what token scoping lets through, what redaction and
//! visibility hide, and the shape of deduplicated registry indices.

use vstd::prelude::*;
use crate::auth::{token_execution_id, Claims, ErrorView, TokenType};
use crate::executions::{
    cancel_plan_outcome, is_terminal_spec, log_tail_step_spec, parse_status_outcome, status_name_spec,
    token_scope_outcome, utf8_chunk_spec, ExecutionStatus, LogEventKind, LogTailProbe, LogTailState, LogTailStep,
};
use crate::inquiries::{inquiry_status_word, parse_inquiry_status_outcome, InquiryStatus};
use crate::packs::{header_views, redacted_marker, restore_headers_spec, stored_header};
use crate::registry::{
    dedup_managed_spec, effective_static_spec, first_per_registry, insertion_point, managed_keys,
    offset_priorities, registry_key_of, sort_by_priority, static_candidates, ManagedRegistryIndex,
    RegistryIndexConfig,
};
use crate::pack_index::unicode_lowercase;
use crate::rbac::{Action, Resource};
use crate::text::contains_seq;
use crate::rules::{ref_allowed, requested_trigger, rule_listing_outcome};
use crate::text::ascii_lower;
use vstd::utf8::{
    decode_utf8, decode_utf8_split, is_char_boundary, length_of_first_scalar, partial_valid_utf8_extend,
    pop_first_scalar, valid_first_scalar, valid_utf8, valid_utf8_split,
};

verus! {

proof fn lemma_lower_fixed(s: Seq<char>)
    requires
        forall|i: int| 0 <= i < s.len() ==> 'a' <= #[trigger] s[i] <= 'z',
    ensures
        ascii_lower(s) == s,
{
    assert(ascii_lower(s) =~= s);
}

/// Every execution status parses back from its name.
pub proof fn law_execution_status_name_round_trip(s: ExecutionStatus)
    ensures
        parse_status_outcome(status_name_spec(s)) == Ok::<ExecutionStatus, ErrorView>(s),
{
    reveal_strlit("requested");
    reveal_strlit("scheduling");
    reveal_strlit("scheduled");
    reveal_strlit("running");
    reveal_strlit("completed");
    reveal_strlit("failed");
    reveal_strlit("canceling");
    reveal_strlit("cancelled");
    reveal_strlit("timeout");
    reveal_strlit("abandoned");
    let name = status_name_spec(s);
    lemma_lower_fixed(name);
    assert(ascii_lower(name) == status_name_spec(s));
    let c = choose|st: ExecutionStatus| ascii_lower(name) == status_name_spec(st);
    crate::executions::lemma_status_names_distinct(c, s);
}

/// Every inquiry status parses back from its path-segment spelling.
pub proof fn law_inquiry_status_word_round_trip(s: InquiryStatus)
    ensures
        parse_inquiry_status_outcome(inquiry_status_word(s)) == Ok::<InquiryStatus, ErrorView>(s),
{
    reveal_strlit("pending");
    reveal_strlit("responded");
    reveal_strlit("timeout");
    reveal_strlit("canceled");
    let w = inquiry_status_word(s);
    lemma_lower_fixed(w);
    let p = "pending"@;
    let r = "responded"@;
    let t = "timeout"@;
    let c = "canceled"@;
    assert(p[0] != r[0] && p[0] != t[0] && p[0] != c[0] && r[0] != t[0] && r[0] != c[0] && t[0] != c[0]);
}

/// An execution can be cancelled exactly while it has not finished for
/// good: requested, scheduling, scheduled, running or canceling.
pub proof fn law_terminal_executions_are_not_cancellable(id: i64, s: ExecutionStatus)
    ensures
        cancel_plan_outcome(id, s) is Err <==> is_terminal_spec(s),
{
}

/// An execution token is accepted only for the execution it was minted
/// for.
pub proof fn law_execution_token_only_for_its_execution(claims: Claims, execution_id: i64)
    requires
        token_scope_outcome(claims, execution_id) is Ok,
    ensures
        token_execution_id(claims) == Some(execution_id),
{
}

/// A sensor token lists rules only for an explicit trigger in its scope;
/// other tokens are not restricted.
pub proof fn law_sensor_rule_listing_stays_in_scope(
    token_type: TokenType,
    allowed: Seq<Seq<char>>,
    requested: Option<Seq<char>>,
)
    ensures
        rule_listing_outcome(token_type, allowed, requested) is Ok <==> (token_type != TokenType::Sensor || (
        requested_trigger(requested) is Some && ref_allowed(allowed, requested_trigger(requested)->0))),
{
}

/// Decoding a log chunk never loses or invents bytes: the pending bytes are
/// a suffix of the chunk, empty for valid UTF-8, and a valid chunk is
/// decoded whole.
pub proof fn law_utf8_chunk_pending_is_suffix(bytes: Seq<u8>)
    ensures
        ({
            let (text, pending) = utf8_chunk_spec(bytes);
            &&& pending.len() <= bytes.len()
            &&& pending == bytes.skip(bytes.len() - pending.len())
            &&& valid_utf8(bytes) ==> pending.len() == 0 && text == decode_utf8(bytes)
        }),
{
    let (text, pending) = utf8_chunk_spec(bytes);
    if valid_utf8(bytes) {
        assert(bytes.skip(bytes.len() as int) =~= Seq::<u8>::empty());
    } else if crate::executions::starts_unfinished_scalar(
        bytes.skip(crate::executions::longest_valid_prefix(bytes)),
    ) {
        lemma_longest_valid_prefix_exists(bytes);
        assert(pending =~= bytes.skip(bytes.len() - pending.len()));
    } else {
        assert(bytes.skip(bytes.len() as int) =~= Seq::<u8>::empty());
    }
}

proof fn lemma_longest_valid_prefix_exists(bytes: Seq<u8>)
    ensures
        ({
            let k = crate::executions::longest_valid_prefix(bytes);
            0 <= k <= bytes.len() && valid_utf8(bytes.take(k))
        }),
{
    let w = lemma_top_valid(bytes, bytes.len() as int);
    assert(0 <= w <= bytes.len() && valid_utf8(bytes.take(w)) && forall|j: int|
        w < j <= bytes.len() ==> !valid_utf8(#[trigger] bytes.take(j)));
}

/// The largest `w <= n` whose prefix of `bytes` is valid UTF-8 (the empty
/// prefix always is).
proof fn lemma_top_valid(bytes: Seq<u8>, n: int) -> (w: int)
    requires
        0 <= n <= bytes.len(),
    ensures
        0 <= w <= n,
        valid_utf8(bytes.take(w)),
        forall|j: int| w < j <= n ==> !valid_utf8(#[trigger] bytes.take(j)),
    decreases n,
{
    assert(bytes.take(0) =~= Seq::<u8>::empty());
    if n == 0 {
        0
    } else if valid_utf8(bytes.take(n)) {
        n
    } else {
        lemma_top_valid(bytes, n - 1)
    }
}

/// Whether no element occurs twice.
pub open spec fn distinct_keys(s: Seq<Seq<char>>) -> bool {
    forall|i: int, j: int| 0 <= i < j < s.len() ==> s[i] != s[j]
}

/// Deduplicating managed registry indices keeps at most one index per
/// registry, reports exactly the registries of the kept indices, and keeps
/// a registry for every input row.
pub proof fn law_managed_dedup_one_index_per_registry(v: Seq<ManagedRegistryIndex>)
    ensures
        ({
            let (kept, keys) = dedup_managed_spec(v);
            &&& keys == managed_keys(kept)
            &&& distinct_keys(keys)
            &&& forall|i: int| 0 <= i < v.len() ==> keys.contains(registry_key_of(#[trigger] v[i].url@))
            &&& kept.len() <= v.len()
        }),
    decreases v.len(),
{
    if v.len() > 0 {
        law_managed_dedup_one_index_per_registry(v.drop_last());
        let (kept0, keys0) = dedup_managed_spec(v.drop_last());
        let k = registry_key_of(v.last().url@);
        let (kept, keys) = dedup_managed_spec(v);
        if !keys0.contains(k) {
            assert(managed_keys(kept) =~= managed_keys(kept0).push(k));
        }
        assert forall|i: int| 0 <= i < v.len() implies keys.contains(registry_key_of(#[trigger] v[i].url@)) by {
            if i < v.len() - 1 {
                assert(v.drop_last()[i] == v[i]);
                assert(keys0.contains(registry_key_of(v.drop_last()[i].url@)));
                if !keys0.contains(k) {
                    let m = choose|m: int| 0 <= m < keys0.len() && keys0[m] == registry_key_of(v[i].url@);
                    assert(keys[m] == keys0[m]);
                }
            } else {
                if !keys0.contains(k) {
                    assert(keys[keys.len() - 1] == k);
                }
            }
        }
    }
}

/// The registry identities of a list of configured indices.
pub open spec fn config_keys(v: Seq<RegistryIndexConfig>) -> Seq<Seq<char>> {
    v.map_values(|c: RegistryIndexConfig| registry_key_of(c.url@))
}

/// Keeping the first index of each registry not yet seen adds exactly the
/// registries of the kept indices to what was seen, never keeps a
/// registry that was seen before, and never keeps one registry twice.
pub proof fn law_first_per_registry_skips_seen(s: Seq<RegistryIndexConfig>, seen: Seq<Seq<char>>)
    ensures
        ({
            let (kept, seen_after) = first_per_registry(s, seen);
            &&& seen_after == seen + config_keys(kept)
            &&& forall|i: int| 0 <= i < kept.len() ==> !seen.contains(registry_key_of(#[trigger] kept[i].url@))
            &&& distinct_keys(config_keys(kept))
            &&& kept.len() <= s.len()
        }),
    decreases s.len(),
{
    if s.len() > 0 {
        law_first_per_registry_skips_seen(s.drop_last(), seen);
        let (kept0, seen0) = first_per_registry(s.drop_last(), seen);
        let k = registry_key_of(s.last().url@);
        let (kept, seen_after) = first_per_registry(s, seen);
        if !seen0.contains(k) {
            assert(config_keys(kept) =~= config_keys(kept0).push(k));
            assert(seen_after =~= seen + config_keys(kept));
            assert(!seen.contains(k)) by {
                if seen.contains(k) {
                    let m = choose|m: int| 0 <= m < seen.len() && seen[m] == k;
                    assert(seen0[m] == k);
                }
            }
            assert forall|a: int| 0 <= a < config_keys(kept0).len() implies config_keys(kept0)[a] != k by {
                assert(seen0[seen.len() + a] == config_keys(kept0)[a]);
            }
        }
    }
}

/// Restoring redacted registry headers keeps every header name and its
/// order, keeps every value that was not redacted, and, when no stored
/// value is itself the marker, leaves no redacted value behind.
pub proof fn law_restored_headers_keep_names(
    requested: Seq<(Seq<char>, Seq<char>)>,
    existing: Seq<(Seq<char>, Seq<char>)>,
)
    ensures
        match restore_headers_spec(requested, existing) {
            Ok(h) => {
                &&& h.len() == requested.len()
                &&& forall|i: int| 0 <= i < h.len() ==> #[trigger] h[i].0 == requested[i].0
                &&& forall|i: int| 0 <= i < h.len() && requested[i].1 != redacted_marker() ==> #[trigger] h[i].1
                    == requested[i].1
                &&& (forall|i: int| 0 <= i < existing.len() ==> #[trigger] existing[i].1 != redacted_marker())
                    ==> forall|i: int| 0 <= i < h.len() ==> #[trigger] h[i].1 != redacted_marker()
            },
            Err(_) => true,
        },
    decreases requested.len(),
{
    if requested.len() > 0 {
        law_restored_headers_keep_names(requested.drop_last(), existing);
        match restore_headers_spec(requested, existing) {
            Ok(h) => {
                let last = requested.last();
                if last.1 == redacted_marker() {
                    lemma_stored_header_is_stored(existing, last.0);
                }
                assert forall|i: int| 0 <= i < h.len() implies #[trigger] h[i].0 == requested[i].0 by {
                    if i < h.len() - 1 {
                        assert(requested.drop_last()[i] == requested[i]);
                    }
                }
            },
            Err(_) => {},
        }
    }
}

proof fn lemma_stored_header_is_stored(existing: Seq<(Seq<char>, Seq<char>)>, name: Seq<char>)
    ensures
        match stored_header(existing, name) {
            Some(v) => exists|i: int| 0 <= i < existing.len() && existing[i].1 == v,
            None => true,
        },
    decreases existing.len(),
{
    if existing.len() > 0 && existing[0].0 != name {
        lemma_stored_header_is_stored(existing.skip(1), name);
        match stored_header(existing, name) {
            Some(v) => {
                let i = choose|i: int| 0 <= i < existing.skip(1).len() && existing.skip(1)[i].1 == v;
                assert(existing[i + 1].1 == v);
            },
            None => {},
        }
    }
}

/// Whether configured indices come in non-decreasing priority order.
pub open spec fn priority_ordered(s: Seq<RegistryIndexConfig>) -> bool {
    forall|i: int, j: int| 0 <= i < j < s.len() ==> s[i].priority <= s[j].priority
}

proof fn lemma_insertion_point_splits(s: Seq<RegistryIndexConfig>, p: u32)
    requires
        priority_ordered(s),
    ensures
        0 <= insertion_point(s, p) <= s.len(),
        forall|k: int| 0 <= k < insertion_point(s, p) ==> #[trigger] s[k].priority <= p,
        forall|k: int| insertion_point(s, p) <= k < s.len() ==> #[trigger] s[k].priority > p,
    decreases s.len(),
{
    if s.len() > 0 && s[0].priority <= p {
        let t = s.skip(1);
        assert forall|i: int, j: int| 0 <= i < j < t.len() implies t[i].priority <= t[j].priority by {
            assert(t[i] == s[i + 1] && t[j] == s[j + 1]);
        }
        lemma_insertion_point_splits(t, p);
        assert forall|k: int| 0 <= k < insertion_point(s, p) implies #[trigger] s[k].priority <= p by {
            if k > 0 {
                assert(s[k] == t[k - 1]);
            }
        }
        assert forall|k: int| insertion_point(s, p) <= k < s.len() implies #[trigger] s[k].priority > p by {
            assert(s[k] == t[k - 1]);
        }
    } else if s.len() > 0 {
        assert forall|k: int| 0 <= k < s.len() implies #[trigger] s[k].priority > p by {
            if k > 0 {
                assert(s[0].priority <= s[k].priority);
            }
        }
    }
}

proof fn lemma_sort_by_priority(s: Seq<RegistryIndexConfig>)
    ensures
        priority_ordered(sort_by_priority(s)),
        sort_by_priority(s).len() == s.len(),
        forall|d: RegistryIndexConfig| s.contains(d) ==> #[trigger] sort_by_priority(s).contains(d),
    decreases s.len(),
{
    if s.len() > 0 {
        let prev = s.drop_last();
        lemma_sort_by_priority(prev);
        let sorted = sort_by_priority(prev);
        let last = s.last();
        let p = last.priority;
        lemma_insertion_point_splits(sorted, p);
        let ip = insertion_point(sorted, p);
        sorted.insert_ensures(ip, last);
        let r = sorted.insert(ip, last);
        assert(r == sort_by_priority(s));
        assert forall|i: int, j: int| 0 <= i < j < r.len() implies r[i].priority <= r[j].priority by {
            if j < ip {
                assert(r[i] == sorted[i] && r[j] == sorted[j]);
            } else if j == ip {
                assert(r[i] == sorted[i]);
            } else if i < ip {
                assert(r[i] == sorted[i] && r[j] == sorted[j - 1]);
            } else if i == ip {
                assert(r[j] == sorted[j - 1]);
            } else {
                assert(r[i] == sorted[i - 1] && r[j] == sorted[j - 1]);
            }
        }
        assert forall|d: RegistryIndexConfig| s.contains(d) implies #[trigger] r.contains(d) by {
            let k = choose|k: int| 0 <= k < s.len() && s[k] == d;
            if k == s.len() - 1 {
                assert(r[ip] == d);
            } else {
                assert(prev[k] == d);
                assert(prev.contains(d));
                assert(sorted.contains(d));
                let m = choose|m: int| 0 <= m < sorted.len() && sorted[m] == d;
                if m < ip {
                    assert(r[m] == d);
                } else {
                    assert(r[m + 1] == d);
                }
            }
        }
    }
}

proof fn lemma_first_per_registry_ordered(s: Seq<RegistryIndexConfig>, seen: Seq<Seq<char>>)
    requires
        priority_ordered(s),
    ensures
        priority_ordered(first_per_registry(s, seen).0),
        forall|x: RegistryIndexConfig| #[trigger] first_per_registry(s, seen).0.contains(x) ==> s.contains(x),
    decreases s.len(),
{
    if s.len() > 0 {
        let prev = s.drop_last();
        assert forall|i: int, j: int| 0 <= i < j < prev.len() implies prev[i].priority <= prev[j].priority by {
            assert(prev[i] == s[i] && prev[j] == s[j]);
        }
        lemma_first_per_registry_ordered(prev, seen);
        let kept0 = first_per_registry(prev, seen).0;
        let kept = first_per_registry(s, seen).0;
        assert forall|x: RegistryIndexConfig| #[trigger] kept.contains(x) implies s.contains(x) by {
            let m = choose|m: int| 0 <= m < kept.len() && kept[m] == x;
            if m < kept0.len() {
                assert(kept0[m] == x);
                assert(kept0.contains(x));
                let k = choose|k: int| 0 <= k < prev.len() && prev[k] == x;
                assert(s[k] == x);
            } else {
                assert(s[s.len() - 1] == x);
            }
        }
        assert forall|i: int, j: int| 0 <= i < j < kept.len() implies kept[i].priority <= kept[j].priority by {
            if j < kept0.len() {
                assert(kept[i] == kept0[i] && kept[j] == kept0[j]);
            } else {
                assert(kept[i] == kept0[i]);
                assert(kept0.contains(kept0[i]));
                let k = choose|k: int| 0 <= k < prev.len() && prev[k] == kept0[i];
                assert(s[k] == kept0[i]);
                assert(kept[j] == s.last());
            }
        }
    }
}

/// The statically configured indices that take effect come in priority
/// order.
pub proof fn law_effective_static_indices_in_priority_order(
    static_indices: Seq<RegistryIndexConfig>,
    managed_keys: Seq<Seq<char>>,
    position_offset: u32,
    include_disabled: bool,
)
    ensures
        priority_ordered(effective_static_spec(static_indices, managed_keys, position_offset, include_disabled)),
{
    let cands = static_candidates(static_indices, include_disabled);
    lemma_sort_by_priority(cands);
    let sorted = sort_by_priority(cands);
    lemma_first_per_registry_ordered(sorted, managed_keys);
    let kept = first_per_registry(sorted, managed_keys).0;
    let r = offset_priorities(kept, position_offset);
    assert forall|i: int, j: int| 0 <= i < j < r.len() implies r[i].priority <= r[j].priority by {
        assert(kept[i].priority <= kept[j].priority);
    }
}

proof fn lemma_first_per_registry_sees_all(s: Seq<RegistryIndexConfig>, seen: Seq<Seq<char>>)
    ensures
        forall|m: int| 0 <= m < s.len() ==> first_per_registry(s, seen).1.contains(registry_key_of(#[trigger] s[m].url@)),
        forall|k: Seq<char>| seen.contains(k) ==> #[trigger] first_per_registry(s, seen).1.contains(k),
    decreases s.len(),
{
    if s.len() > 0 {
        let prev = s.drop_last();
        lemma_first_per_registry_sees_all(prev, seen);
        let seen0 = first_per_registry(prev, seen).1;
        let seen1 = first_per_registry(s, seen).1;
        let k = registry_key_of(s.last().url@);
        assert forall|x: Seq<char>| seen0.contains(x) implies seen1.contains(x) by {
            if !seen0.contains(k) {
                let m = choose|m: int| 0 <= m < seen0.len() && seen0[m] == x;
                assert(seen1[m] == x);
            }
        }
        assert forall|m: int| 0 <= m < s.len() implies seen1.contains(registry_key_of(#[trigger] s[m].url@)) by {
            if m < s.len() - 1 {
                assert(s[m] == prev[m]);
                assert(seen0.contains(registry_key_of(prev[m].url@)));
            } else if !seen0.contains(k) {
                assert(seen1[seen0.len() as int] == k);
            }
        }
    }
}

proof fn lemma_first_kept_has_lowest_priority(s: Seq<RegistryIndexConfig>, seen: Seq<Seq<char>>)
    requires
        priority_ordered(s),
    ensures
        forall|i: int, m: int|
            0 <= i < first_per_registry(s, seen).0.len() && 0 <= m < s.len() && registry_key_of(s[m].url@)
                == registry_key_of(first_per_registry(s, seen).0[i].url@) ==> #[trigger] first_per_registry(s, seen).0[i].priority
                <= #[trigger] s[m].priority,
    decreases s.len(),
{
    if s.len() > 0 {
        let prev = s.drop_last();
        assert forall|i: int, j: int| 0 <= i < j < prev.len() implies prev[i].priority <= prev[j].priority by {
            assert(prev[i] == s[i] && prev[j] == s[j]);
        }
        lemma_first_kept_has_lowest_priority(prev, seen);
        lemma_first_per_registry_ordered(prev, seen);
        lemma_first_per_registry_sees_all(prev, seen);
        law_first_per_registry_skips_seen(prev, seen);
        let (kept0, seen0) = first_per_registry(prev, seen);
        let kept = first_per_registry(s, seen).0;
        let last = s.last();
        let k = registry_key_of(last.url@);
        assert forall|i: int, m: int|
            0 <= i < kept.len() && 0 <= m < s.len() && registry_key_of(s[m].url@) == registry_key_of(kept[i].url@)
            implies #[trigger] kept[i].priority <= #[trigger] s[m].priority by {
            if i < kept0.len() {
                assert(kept[i] == kept0[i]);
                if m < prev.len() {
                    assert(s[m] == prev[m]);
                } else {
                    assert(kept0.contains(kept0[i]));
                    let q = choose|q: int| 0 <= q < prev.len() && prev[q] == kept0[i];
                    assert(s[q] == kept0[i]);
                }
            } else {
                assert(kept[i] == last);
                assert(!seen0.contains(k));
                if m < prev.len() {
                    assert(s[m] == prev[m]);
                    assert(seen0.contains(registry_key_of(prev[m].url@)));
                }
            }
        }
    }
}

/// Of several statically configured indices naming one registry, the one
/// that takes effect has the highest priority (the lowest number): no
/// candidate for that registry comes before it.
pub proof fn law_duplicate_static_registry_keeps_highest_priority(
    static_indices: Seq<RegistryIndexConfig>,
    managed_keys: Seq<Seq<char>>,
    position_offset: u32,
    include_disabled: bool,
)
    ensures
        ({
            let r = effective_static_spec(static_indices, managed_keys, position_offset, include_disabled);
            forall|i: int, d: RegistryIndexConfig|
                0 <= i < r.len() && static_candidates(static_indices, include_disabled).contains(d)
                    && registry_key_of(d.url@) == registry_key_of(#[trigger] r[i].url@)
                    ==> r[i].priority <= position_offset.saturating_add(#[trigger] d.priority)
        }),
{
    let cands = static_candidates(static_indices, include_disabled);
    lemma_sort_by_priority(cands);
    let sorted = sort_by_priority(cands);
    lemma_first_kept_has_lowest_priority(sorted, managed_keys);
    let kept = first_per_registry(sorted, managed_keys).0;
    let r = offset_priorities(kept, position_offset);
    assert forall|i: int, d: RegistryIndexConfig|
        0 <= i < r.len() && cands.contains(d) && registry_key_of(d.url@) == registry_key_of(#[trigger] r[i].url@)
        implies r[i].priority <= position_offset.saturating_add(#[trigger] d.priority) by {
        assert(sorted.contains(d));
        let m = choose|m: int| 0 <= m < sorted.len() && sorted[m] == d;
        assert(r[i].url == kept[i].url);
        assert(kept[i].priority <= sorted[m].priority);
    }
}

/// Whether row `j` is the first row naming its registry.
#[verifier::opaque]
pub open spec fn first_row_of_registry(v: Seq<ManagedRegistryIndex>, j: int) -> bool {
    forall|m: int| 0 <= m < j ==> registry_key_of(#[trigger] v[m].url@) != registry_key_of(v[j].url@)
}

proof fn lemma_first_row_excludes(v: Seq<ManagedRegistryIndex>, q: int, j: int)
    requires
        0 <= q < j < v.len(),
        first_row_of_registry(v, j),
    ensures
        registry_key_of(v[q].url@) != registry_key_of(v[j].url@),
{
    reveal(first_row_of_registry);
}

proof fn lemma_last_row_first(v: Seq<ManagedRegistryIndex>, keys0: Seq<Seq<char>>)
    requires
        v.len() > 0,
        forall|m: int| 0 <= m < v.len() - 1 ==> keys0.contains(registry_key_of(#[trigger] v.drop_last()[m].url@)),
        !keys0.contains(registry_key_of(v.last().url@)),
    ensures
        first_row_of_registry(v, v.len() - 1),
{
    reveal(first_row_of_registry);
    assert forall|m: int| 0 <= m < v.len() - 1 implies registry_key_of(#[trigger] v[m].url@) != registry_key_of(
        v[v.len() - 1].url@,
    ) by {
        assert(v.drop_last()[m] == v[m]);
        assert(keys0.contains(registry_key_of(v.drop_last()[m].url@)));
    }
}

/// The rows that are the first to name their registry, in order.
pub open spec fn first_rows(v: Seq<ManagedRegistryIndex>) -> Seq<ManagedRegistryIndex>
    decreases v.len(),
{
    if v.len() == 0 {
        Seq::empty()
    } else if first_row_of_registry(v, v.len() - 1) {
        first_rows(v.drop_last()).push(v.last())
    } else {
        first_rows(v.drop_last())
    }
}

proof fn lemma_first_rows_from(v: Seq<ManagedRegistryIndex>)
    ensures
        forall|x: ManagedRegistryIndex| #[trigger] first_rows(v).contains(x) ==> v.contains(x),
    decreases v.len(),
{
    if v.len() > 0 {
        let prev = v.drop_last();
        lemma_first_rows_from(prev);
        assert forall|x: ManagedRegistryIndex| #[trigger] first_rows(v).contains(x) implies v.contains(x) by {
            let m = choose|m: int| 0 <= m < first_rows(v).len() && first_rows(v)[m] == x;
            if m < first_rows(prev).len() {
                assert(first_rows(prev)[m] == x);
                assert(first_rows(prev).contains(x));
                let q = choose|q: int| 0 <= q < prev.len() && prev[q] == x;
                assert(v[q] == x);
            } else {
                assert(v[v.len() - 1] == x);
            }
        }
    }
}

/// Deduplication is first-row-wins: the indices kept are exactly the rows
/// that are the first to name their registry, in their order.
pub proof fn law_managed_dedup_first_row_wins(v: Seq<ManagedRegistryIndex>)
    ensures
        dedup_managed_spec(v).0 == first_rows(v),
    decreases v.len(),
{
    if v.len() > 0 {
        let prev = v.drop_last();
        law_managed_dedup_first_row_wins(prev);
        law_managed_dedup_one_index_per_registry(prev);
        let (kept0, keys0) = dedup_managed_spec(prev);
        let n = v.len() - 1;
        let k = registry_key_of(v[n].url@);
        if keys0.contains(k) {
            let a = choose|a: int| 0 <= a < keys0.len() && keys0[a] == k;
            assert(keys0[a] == registry_key_of(kept0[a].url@));
            lemma_first_rows_from(prev);
            assert(first_rows(prev).contains(kept0[a]));
            let q = choose|q: int| 0 <= q < prev.len() && prev[q] == kept0[a];
            assert(v[q] == prev[q]);
            if first_row_of_registry(v, n) {
                lemma_first_row_excludes(v, q, n);
            }
        } else {
            lemma_last_row_first(v, keys0);
        }
    }
}

proof fn lemma_valid_prefix_is_boundary(b: Seq<u8>, k: int)
    requires
        valid_utf8(b),
        0 <= k <= b.len(),
        valid_utf8(b.take(k)),
    ensures
        is_char_boundary(b, k),
    decreases b.len(),
{
    if k > 0 {
        let c = b.take(k);
        assert(c[0] == b[0]);
        let l = length_of_first_scalar(b);
        assert(length_of_first_scalar(c) == l);
        assert(pop_first_scalar(c) =~= pop_first_scalar(b).take(k - l));
        lemma_valid_prefix_is_boundary(pop_first_scalar(b), k - l);
    }
}

proof fn lemma_last_boundary(b: Seq<u8>, k: int) -> (j: int)
    requires
        valid_utf8(b),
        0 <= k <= b.len(),
    ensures
        0 <= j <= k,
        is_char_boundary(b, j),
        forall|m: int| j < m <= k ==> !is_char_boundary(b, m),
    decreases k,
{
    if is_char_boundary(b, k) {
        k
    } else {
        assert(k > 0);
        lemma_last_boundary(b, k - 1)
    }
}

/// Log text cut anywhere, even inside a character, decodes whole: decoding
/// the first part and then the carried-over pending bytes together with the
/// rest gives back the text, with nothing left pending.
pub proof fn law_utf8_chunks_rejoin(b: Seq<u8>, k: int)
    requires
        valid_utf8(b),
        0 <= k <= b.len(),
    ensures
        ({
            let (a, p) = utf8_chunk_spec(b.take(k));
            let (c, q) = utf8_chunk_spec(p + b.skip(k));
            &&& a + c == decode_utf8(b) && q.len() == 0
            &&& valid_utf8(p + b.skip(k)) && a + decode_utf8(p + b.skip(k)) == decode_utf8(b)
        }),
{
    let n = b.len() as int;
    let j = lemma_last_boundary(b, k);
    valid_utf8_split(b, j);
    decode_utf8_split(b, j);
    let head = b.subrange(0, j);
    let tail = b.subrange(j, n);
    let c = b.take(k);
    if j == k {
        assert(c =~= head);
        assert(Seq::<u8>::empty() + b.skip(k) =~= tail);
        assert(utf8_chunk_spec(c).1 + b.skip(k) =~= tail);
    } else {
        if valid_utf8(c) {
            lemma_valid_prefix_is_boundary(b, k);
        }
        assert(!valid_utf8(c));
        assert forall|m: int| j < m <= k implies !valid_utf8(#[trigger] c.take(m)) by {
            assert(c.take(m) =~= b.take(m));
            if valid_utf8(b.take(m)) {
                lemma_valid_prefix_is_boundary(b, m);
            }
        }
        assert(c.take(j) =~= head);
        assert(0 <= j <= c.len() && valid_utf8(c.take(j)) && forall|m: int|
            j < m <= c.len() ==> !valid_utf8(#[trigger] c.take(m)));
        let lv = crate::executions::longest_valid_prefix(c);
        if lv > j {
            assert(!valid_utf8(c.take(lv)));
        } else if lv < j {
            assert(!valid_utf8(c.take(j)));
        }
        assert(lv == j);
        // The character starting at `j` ends after `k`.
        assert(tail.len() > 0);
        assert(valid_first_scalar(tail));
        let l = length_of_first_scalar(tail);
        assert(b.subrange(j, n) == tail);
        partial_valid_utf8_extend(b, j);
        assert(b.take(j + l) =~= b.subrange(0, j + l));
        lemma_valid_prefix_is_boundary(b, j + l);
        assert(j + l > k);
        let rest = c.skip(j);
        let t = b.skip(k);
        assert(rest + t =~= tail);
        assert(valid_first_scalar(rest + t) && length_of_first_scalar(rest + t) > rest.len());
        assert(crate::executions::starts_unfinished_scalar(rest));
        assert(c.take(lv) =~= head);
        assert(utf8_chunk_spec(c).1 + b.skip(k) =~= tail);
    }
}

/// The text and pending bytes after reading a log file's bytes `b` in
/// pieces ending at each of `cuts`, each piece decoded together with the
/// bytes held back from the previous one.
pub open spec fn read_log_pieces(b: Seq<u8>, cuts: Seq<int>) -> (Seq<char>, Seq<u8>)
    decreases cuts.len(),
{
    if cuts.len() == 0 {
        (Seq::empty(), Seq::empty())
    } else {
        let (text, pending) = read_log_pieces(b, cuts.drop_last());
        let from = if cuts.len() == 1 { 0 } else { cuts[cuts.len() - 2] };
        let (more, held) = utf8_chunk_spec(pending + b.subrange(from, cuts.last()));
        (text + more, held)
    }
}

/// Piece ends that never go back and stay inside the file.
pub open spec fn ordered_cuts(cuts: Seq<int>, n: int) -> bool {
    &&& forall|i: int| 0 <= i < cuts.len() ==> 0 <= #[trigger] cuts[i] <= n
    &&& forall|i: int, j: int| 0 <= i < j < cuts.len() ==> cuts[i] <= cuts[j]
}

proof fn lemma_read_log_pieces(b: Seq<u8>, cuts: Seq<int>)
    requires
        valid_utf8(b),
        ordered_cuts(cuts, b.len() as int),
    ensures
        ({
            let (text, pending) = read_log_pieces(b, cuts);
            let c = if cuts.len() == 0 { 0 } else { cuts.last() };
            valid_utf8(pending + b.skip(c)) && text + decode_utf8(pending + b.skip(c)) == decode_utf8(b)
        }),
    decreases cuts.len(),
{
    if cuts.len() == 0 {
        assert(Seq::<u8>::empty() + b.skip(0) =~= b);
        assert(Seq::<char>::empty() + decode_utf8(b) =~= decode_utf8(b));
    } else {
        let prev = cuts.drop_last();
        assert(ordered_cuts(prev, b.len() as int)) by {
            assert forall|i: int| 0 <= i < prev.len() implies 0 <= #[trigger] prev[i] <= b.len() by {
                assert(prev[i] == cuts[i]);
            }
            assert forall|i: int, j: int| 0 <= i < j < prev.len() implies prev[i] <= prev[j] by {
                assert(prev[i] == cuts[i] && prev[j] == cuts[j]);
            }
        }
        lemma_read_log_pieces(b, prev);
        let (text, pending) = read_log_pieces(b, prev);
        let from = if cuts.len() == 1 { 0 } else { cuts[cuts.len() - 2] };
        if cuts.len() > 1 {
            assert(prev.last() == cuts[cuts.len() - 2]);
        }
        let c = cuts.last();
        assert(0 <= c <= b.len());
        assert(from <= c) by {
            if cuts.len() > 1 {
                assert(cuts[cuts.len() - 2] <= cuts[cuts.len() - 1]);
            }
        }
        let big = pending + b.skip(from);
        let k = pending.len() + (c - from);
        assert(big.take(k) =~= pending + b.subrange(from, c));
        assert(big.skip(k) =~= b.skip(c));
        law_utf8_chunks_rejoin(big, k);
        let (more, held) = utf8_chunk_spec(big.take(k));
        assert(text + more + decode_utf8(held + b.skip(c)) =~= text + (more + decode_utf8(held + big.skip(k))));
    }
}

/// Reading a log file piece by piece, wherever the pieces end, streams
/// exactly its text: once the last piece reaches the end of the file, the
/// decoded pieces concatenate to the whole text and nothing is held back.
pub proof fn law_log_pieces_rebuild_the_text(b: Seq<u8>, cuts: Seq<int>)
    requires
        valid_utf8(b),
        ordered_cuts(cuts, b.len() as int),
        cuts.len() > 0,
        cuts.last() == b.len(),
    ensures
        read_log_pieces(b, cuts) == (decode_utf8(b), Seq::<u8>::empty()),
{
    lemma_read_log_pieces(b, cuts);
    let (text, pending) = read_log_pieces(b, cuts);
    assert(b.skip(b.len() as int) =~= Seq::<u8>::empty());
    assert(pending + b.skip(b.len() as int) =~= pending);
    // The last piece was decoded from valid bytes, so nothing is held back.
    let prev = cuts.drop_last();
    let (t0, p0) = read_log_pieces(b, prev);
    let from = if cuts.len() == 1 { 0 } else { cuts[cuts.len() - 2] };
    lemma_read_log_pieces(b, prev);
    let c0 = if prev.len() == 0 { 0 } else { prev.last() };
    if cuts.len() > 1 {
        assert(prev.last() == cuts[cuts.len() - 2]);
    }
    assert(c0 == from);
    assert(p0 + b.subrange(from, b.len() as int) =~= p0 + b.skip(from));
    law_utf8_chunk_pending_is_suffix(p0 + b.skip(from));
    assert(pending.len() == 0);
    assert(decode_utf8(pending) =~= Seq::<char>::empty());
    assert(text + Seq::<char>::empty() =~= text);
}

/// A run of the log stream: `states[0]` is where it starts and each step
/// follows the tail's rule from the state before it, with the probe taken
/// there, into the next state.
pub open spec fn log_tail_run(
    start_offset: u64,
    states: Seq<LogTailState>,
    probes: Seq<LogTailProbe>,
    steps: Seq<LogTailStep>,
) -> bool {
    &&& states.len() == steps.len() + 1
    &&& probes.len() == steps.len()
    &&& forall|i: int|
        0 <= i < steps.len() ==> log_tail_step_spec(states[i], start_offset, probes[i], #[trigger] steps[i])
            && states[i + 1] == steps[i].next
}

/// The offset a state has reached: the start offset while waiting for the
/// file, the read offset while sending or tailing, past every offset once
/// finished.
pub open spec fn tail_position(s: LogTailState, start_offset: u64) -> int {
    match s {
        LogTailState::WaitingForFile { .. } => start_offset as int,
        LogTailState::SendInitial { offset, .. } => offset as int,
        LogTailState::Tail { offset, .. } => offset as int,
        LogTailState::Finished => u64::MAX as int + 1,
    }
}

/// Every chunk of the run is read past the offset its state had reached.
pub open spec fn chunks_advance(states: Seq<LogTailState>, probes: Seq<LogTailProbe>) -> bool {
    forall|i: int|
        0 <= i < probes.len() ==> match (states[i], #[trigger] probes[i].chunk) {
            (LogTailState::SendInitial { offset, .. }, Some(c)) => offset < c.new_offset,
            (LogTailState::Tail { offset, .. }, Some(c)) => offset < c.new_offset,
            _ => true,
        }
}

/// The offset that the output event of step `i` carries as its id, if the
/// step sends output.
pub open spec fn output_offset(steps: Seq<LogTailStep>, probes: Seq<LogTailProbe>, i: int) -> Option<u64> {
    match steps[i].event {
        Some(e) => if e.kind == LogEventKind::Content || e.kind == LogEventKind::Append {
            match probes[i].chunk {
                Some(c) => Some(c.new_offset),
                None => None,
            }
        } else {
            None
        },
        None => None,
    }
}

proof fn lemma_finished_stays(
    start_offset: u64,
    states: Seq<LogTailState>,
    probes: Seq<LogTailProbe>,
    steps: Seq<LogTailStep>,
    i: int,
    j: int,
)
    requires
        log_tail_run(start_offset, states, probes, steps),
        0 <= i <= j <= steps.len(),
        states[i] == LogTailState::Finished,
    ensures
        states[j] == LogTailState::Finished,
    decreases j - i,
{
    if i < j {
        assert(log_tail_step_spec(states[i], start_offset, probes[i], steps[i]));
        lemma_finished_stays(start_offset, states, probes, steps, i + 1, j);
    }
}

proof fn lemma_position_grows(
    start_offset: u64,
    states: Seq<LogTailState>,
    probes: Seq<LogTailProbe>,
    steps: Seq<LogTailStep>,
    i: int,
    j: int,
)
    requires
        log_tail_run(start_offset, states, probes, steps),
        chunks_advance(states, probes),
        0 <= i <= j <= steps.len(),
    ensures
        tail_position(states[i], start_offset) <= tail_position(states[j], start_offset),
    decreases j - i,
{
    if i < j {
        assert(log_tail_step_spec(states[i], start_offset, probes[i], steps[i]));
        let ch = probes[i].chunk;
        assert(match (states[i], ch) {
            (LogTailState::SendInitial { offset, .. }, Some(c)) => offset < c.new_offset,
            (LogTailState::Tail { offset, .. }, Some(c)) => offset < c.new_offset,
            _ => true,
        });
        lemma_position_grows(start_offset, states, probes, steps, i + 1, j);
    }
}

/// A log stream ends once: after a `done` event no step sends anything, so
/// a stream carries at most one `done` event, as its last event. And the
/// ids of its output events (the offsets reached) strictly increase, as long
/// as every chunk is read past the offset already reached.
pub proof fn law_log_stream_done_is_last_and_ids_increase(
    start_offset: u64,
    states: Seq<LogTailState>,
    probes: Seq<LogTailProbe>,
    steps: Seq<LogTailStep>,
)
    requires
        log_tail_run(start_offset, states, probes, steps),
    ensures
        forall|i: int, j: int|
            0 <= i < j < steps.len() && (#[trigger] steps[i].event matches Some(e) && e.kind == LogEventKind::Done)
                ==> #[trigger] steps[j].event is None,
        chunks_advance(states, probes) ==> forall|i: int, j: int|
            0 <= i < j < steps.len() && #[trigger] output_offset(steps, probes, i) is Some && #[trigger] output_offset(
                steps,
                probes,
                j,
            ) is Some ==> output_offset(steps, probes, i)->0 < output_offset(steps, probes, j)->0,
{
    assert forall|i: int, j: int|
        0 <= i < j < steps.len() && (#[trigger] steps[i].event matches Some(e) && e.kind == LogEventKind::Done)
            implies #[trigger] steps[j].event is None by {
        assert(log_tail_step_spec(states[i], start_offset, probes[i], steps[i]));
        assert(states[i + 1] == LogTailState::Finished);
        lemma_finished_stays(start_offset, states, probes, steps, i + 1, j);
        assert(log_tail_step_spec(states[j], start_offset, probes[j], steps[j]));
    }
    if chunks_advance(states, probes) {
        assert forall|i: int, j: int|
            0 <= i < j < steps.len() && #[trigger] output_offset(steps, probes, i) is Some && #[trigger] output_offset(
                steps,
                probes,
                j,
            ) is Some implies output_offset(steps, probes, i)->0 < output_offset(steps, probes, j)->0 by {
            assert(log_tail_step_spec(states[i], start_offset, probes[i], steps[i]));
            assert(log_tail_step_spec(states[j], start_offset, probes[j], steps[j]));
            let ci = probes[i].chunk;
            let cj = probes[j].chunk;
            assert(match (states[j], cj) {
                (LogTailState::SendInitial { offset, .. }, Some(c)) => offset < c.new_offset,
                (LogTailState::Tail { offset, .. }, Some(c)) => offset < c.new_offset,
                _ => true,
            });
            assert(tail_position(states[i + 1], start_offset) == ci->0.new_offset);
            lemma_position_grows(start_offset, states, probes, steps, i + 1, j);
            assert(tail_position(states[j], start_offset) < cj->0.new_offset);
        }
    }
}

/// The text that the output events of some steps carry, in order.
pub open spec fn streamed_text(steps: Seq<LogTailStep>) -> Seq<char>
    decreases steps.len(),
{
    if steps.len() == 0 {
        Seq::empty()
    } else {
        let prev = streamed_text(steps.drop_last());
        match steps.last().event {
            Some(e) => if e.kind == LogEventKind::Content || e.kind == LogEventKind::Append {
                prev + e.data@
            } else {
                prev
            },
            None => prev,
        }
    }
}

/// Every chunk of the run holds the next bytes of the log file `file` after
/// the offset reached, decoded together with the bytes held back before.
pub open spec fn chunks_read_from(file: Seq<u8>, states: Seq<LogTailState>, probes: Seq<LogTailProbe>) -> bool {
    forall|i: int|
        0 <= i < probes.len() ==> match (states[i], #[trigger] probes[i].chunk) {
            (LogTailState::SendInitial { offset, pending_utf8, .. }, Some(c)) => offset < c.new_offset <= file.len()
                && (c.content@, c.pending_utf8@) == utf8_chunk_spec(
                pending_utf8@ + file.subrange(offset as int, c.new_offset as int),
            ),
            (LogTailState::Tail { offset, pending_utf8, .. }, Some(c)) => offset < c.new_offset <= file.len()
                && (c.content@, c.pending_utf8@) == utf8_chunk_spec(
                pending_utf8@ + file.subrange(offset as int, c.new_offset as int),
            ),
            _ => true,
        }
}

/// What holds between the text streamed so far and a state: the bytes held
/// back and the rest of the file decode to exactly what is still missing
/// from the file's text, and nothing is held back once the end is read.
pub open spec fn streamed_so_far(file: Seq<u8>, start_offset: u64, s: LogTailState, text: Seq<char>) -> bool {
    let n = file.len() as int;
    match s {
        LogTailState::WaitingForFile { .. } => text.len() == 0,
        LogTailState::SendInitial { offset, pending_utf8, .. } => {
            let rest = pending_utf8@ + file.subrange(offset as int, n);
            &&& start_offset <= offset <= n
            &&& valid_utf8(rest)
            &&& text + decode_utf8(rest) == decode_utf8(file.skip(start_offset as int))
            &&& offset == n ==> pending_utf8@.len() == 0
        },
        LogTailState::Tail { offset, pending_utf8, .. } => {
            let rest = pending_utf8@ + file.subrange(offset as int, n);
            &&& start_offset <= offset <= n
            &&& valid_utf8(rest)
            &&& text + decode_utf8(rest) == decode_utf8(file.skip(start_offset as int))
            &&& offset == n ==> pending_utf8@.len() == 0
        },
        LogTailState::Finished => true,
    }
}

proof fn lemma_chunk_keeps_text(file: Seq<u8>, start_offset: u64, offset: u64, p: Seq<u8>, text: Seq<char>, new_offset: u64, content: Seq<char>, q: Seq<u8>)
    requires
        ({
            let rest = p + file.subrange(offset as int, file.len() as int);
            &&& start_offset <= offset <= file.len()
            &&& valid_utf8(rest)
            &&& text + decode_utf8(rest) == decode_utf8(file.skip(start_offset as int))
        }),
        offset < new_offset <= file.len(),
        (content, q) == utf8_chunk_spec(p + file.subrange(offset as int, new_offset as int)),
    ensures
        ({
            let rest = q + file.subrange(new_offset as int, file.len() as int);
            &&& valid_utf8(rest)
            &&& (text + content) + decode_utf8(rest) == decode_utf8(file.skip(start_offset as int))
            &&& new_offset == file.len() ==> q.len() == 0
        }),
{
    let n = file.len() as int;
    let big = p + file.subrange(offset as int, n);
    let k = p.len() + (new_offset - offset);
    assert(big.take(k) =~= p + file.subrange(offset as int, new_offset as int));
    assert(big.skip(k) =~= file.subrange(new_offset as int, n));
    law_utf8_chunks_rejoin(big, k);
    assert((text + content) + decode_utf8(q + big.skip(k)) =~= text + (content + decode_utf8(q + big.skip(k))));
    if new_offset == n {
        assert(big.take(k) =~= big);
    }
}

proof fn lemma_streamed_text(
    file: Seq<u8>,
    start_offset: u64,
    states: Seq<LogTailState>,
    probes: Seq<LogTailProbe>,
    steps: Seq<LogTailStep>,
    k: int,
)
    requires
        log_tail_run(start_offset, states, probes, steps),
        chunks_read_from(file, states, probes),
        start_offset <= file.len(),
        valid_utf8(file.skip(start_offset as int)),
        streamed_so_far(file, start_offset, states[0], Seq::empty()),
        0 <= k <= steps.len(),
    ensures
        streamed_so_far(file, start_offset, states[k], streamed_text(steps.take(k))),
    decreases k,
{
    let n = file.len() as int;
    if k == 0 {
        assert(steps.take(0) =~= Seq::<LogTailStep>::empty());
    } else {
        let i = k - 1;
        lemma_streamed_text(file, start_offset, states, probes, steps, i);
        assert(steps.take(k).drop_last() =~= steps.take(i));
        assert(steps.take(k).last() == steps[i]);
        assert(log_tail_step_spec(states[i], start_offset, probes[i], steps[i]));
        assert(states[k] == steps[i].next);
        let text = streamed_text(steps.take(i));
        let ch = probes[i].chunk;
        assert(match (states[i], ch) {
            (LogTailState::SendInitial { offset, pending_utf8, .. }, Some(c)) => offset < c.new_offset <= file.len()
                && (c.content@, c.pending_utf8@) == utf8_chunk_spec(
                pending_utf8@ + file.subrange(offset as int, c.new_offset as int),
            ),
            (LogTailState::Tail { offset, pending_utf8, .. }, Some(c)) => offset < c.new_offset <= file.len()
                && (c.content@, c.pending_utf8@) == utf8_chunk_spec(
                pending_utf8@ + file.subrange(offset as int, c.new_offset as int),
            ),
            _ => true,
        });
        match states[i] {
            LogTailState::WaitingForFile { .. } => {
                if probes[i].file_exists {
                    assert(Seq::<u8>::empty() + file.subrange(start_offset as int, n) =~= file.skip(
                        start_offset as int,
                    ));
                    assert(text + decode_utf8(file.skip(start_offset as int)) =~= decode_utf8(
                        file.skip(start_offset as int),
                    ));
                }
            },
            LogTailState::SendInitial { offset, pending_utf8, .. } => {
                if let Some(c) = ch {
                    lemma_chunk_keeps_text(file, start_offset, offset, pending_utf8@, text, c.new_offset, c.content@, c.pending_utf8@);
                }
            },
            LogTailState::Tail { offset, pending_utf8, .. } => {
                if let Some(c) = ch {
                    lemma_chunk_keeps_text(file, start_offset, offset, pending_utf8@, text, c.new_offset, c.content@, c.pending_utf8@);
                }
            },
            LogTailState::Finished => {},
        }
    }
}

/// A log stream sends exactly the log file's text from the start offset,
/// however the file is cut into reads: at every point of the stream, the
/// text sent so far followed by the held-back bytes and the unread rest of
/// the file decodes to the file's text; once the reads reach the end of the
/// file, the text sent is the whole of it, nothing lost, repeated or held
/// back. The stream starts waiting for the file or sending from the start
/// offset with nothing held back, and the file's bytes from the start offset
/// are valid UTF-8.
pub proof fn law_log_stream_sends_the_file_text(
    file: Seq<u8>,
    start_offset: u64,
    states: Seq<LogTailState>,
    probes: Seq<LogTailProbe>,
    steps: Seq<LogTailStep>,
)
    requires
        log_tail_run(start_offset, states, probes, steps),
        chunks_read_from(file, states, probes),
        start_offset <= file.len(),
        valid_utf8(file.skip(start_offset as int)),
        states[0] is WaitingForFile || (states[0] matches LogTailState::SendInitial { offset, pending_utf8, .. }
            && offset == start_offset && pending_utf8@.len() == 0),
    ensures
        streamed_so_far(file, start_offset, states[steps.len() as int], streamed_text(steps)),
        match states[steps.len() as int] {
            LogTailState::SendInitial { offset, .. } => offset == file.len() ==> streamed_text(steps)
                == decode_utf8(file.skip(start_offset as int)),
            LogTailState::Tail { offset, .. } => offset == file.len() ==> streamed_text(steps) == decode_utf8(
                file.skip(start_offset as int),
            ),
            _ => true,
        },
{
    let n = file.len() as int;
    if let LogTailState::SendInitial { offset, pending_utf8, .. } = states[0] {
        assert(pending_utf8@ + file.subrange(offset as int, n) =~= file.skip(start_offset as int));
        assert(Seq::<char>::empty() + decode_utf8(file.skip(start_offset as int)) =~= decode_utf8(
            file.skip(start_offset as int),
        ));
    }
    lemma_streamed_text(file, start_offset, states, probes, steps, steps.len() as int);
    assert(steps.take(steps.len() as int) =~= steps);
    let last = states[steps.len() as int];
    match last {
        LogTailState::SendInitial { offset, pending_utf8, .. } => {
            if offset == n {
                assert(pending_utf8@ + file.subrange(n, n) =~= Seq::<u8>::empty());
                assert(decode_utf8(Seq::<u8>::empty()) =~= Seq::<char>::empty());
                assert(streamed_text(steps) + Seq::<char>::empty() =~= streamed_text(steps));
            }
        },
        LogTailState::Tail { offset, pending_utf8, .. } => {
            if offset == n {
                assert(pending_utf8@ + file.subrange(n, n) =~= Seq::<u8>::empty());
                assert(decode_utf8(Seq::<u8>::empty()) =~= Seq::<char>::empty());
                assert(streamed_text(steps) + Seq::<char>::empty() =~= streamed_text(steps));
            }
        },
        _ => {},
    }
}

/// Whether a grant on `r` may be limited to packs.
pub open spec fn pack_scoped_resource(r: crate::rbac::Resource) -> bool {
    r == Resource::Packs || r == Resource::Actions || r == Resource::Queues || r == Resource::Rules || r
        == Resource::Triggers || r == Resource::Executions || r == Resource::Enforcements || r == Resource::Artifacts
}

/// A permission-set grant's constraints are accepted exactly when each kind
/// of constraint it carries applies to the grant's resource: pack scope to
/// the pack-scoped resources; component refs to those and to keys; owners
/// to packs, keys and artifacts; owner types to keys and artifacts;
/// visibility to artifacts; execution scope to executions; encryption to
/// keys. Ids, owner refs and attributes apply everywhere. A grant limited
/// only by component refs on a resource they do not apply to is refused
/// with the component-ref message.
pub proof fn law_grant_constraints_accepted_where_they_apply(
    r: crate::rbac::Resource,
    c: crate::rbac::GrantConstraints,
)
    ensures
        (crate::rbac::grant_constraints_outcome(r, c) is Ok) == ({
            &&& c.pack_refs is Some ==> pack_scoped_resource(r)
            &&& c.refs is Some ==> pack_scoped_resource(r) || r == Resource::Keys
            &&& c.owner is Some ==> r == Resource::Packs || r == Resource::Keys || r == Resource::Artifacts
            &&& c.owner_types is Some ==> r == Resource::Keys || r == Resource::Artifacts
            &&& c.visibility is Some ==> r == Resource::Artifacts
            &&& c.execution_scope is Some ==> r == Resource::Executions
            &&& c.encrypted is Some ==> r == Resource::Keys
        }),
        crate::rbac::grant_constraints_outcome(r, c) is Err ==> crate::rbac::grant_constraints_outcome(
            r,
            c,
        )->Err_0.kind == crate::auth::ErrorKind::BadRequest,
        ({
            &&& c.pack_refs is None && c.owner is None && c.owner_types is None && c.visibility is None
            &&& c.execution_scope is None && c.encrypted is None && c.refs is Some
            &&& !(pack_scoped_resource(r) || r == crate::rbac::Resource::Keys)
        }) ==> crate::rbac::grant_constraints_outcome(r, c) == Err::<(), ErrorView>(
            crate::auth::api_err(
                crate::auth::ErrorKind::BadRequest,
                crate::rbac::resource_name(r) + " grants do not support component ref constraints"@,
            ),
        ),
{
}

/// What a reader without global event read sees of an event: the rule only
/// when the rule scope covers it; the trigger when the trigger scope covers
/// it, or, for a scope that includes public triggers, when the event shows no
/// rule; otherwise the trigger is hidden and its ref replaced by the
/// redaction marker, whether or not public triggers are included. With
/// global read nothing is hidden.
pub proof fn law_event_visibility_by_scope(
    e: crate::events::EventRefsView,
    rule_visible: bool,
    trigger_visible: bool,
    include_public: bool,
    global_read: bool,
)
    ensures
        ({
            let v = crate::events::event_visibility_spec(e, rule_visible, trigger_visible, include_public, global_read);
            &&& global_read ==> v == e
            &&& !global_read && rule_visible ==> v.rule == e.rule && v.rule_ref == e.rule_ref
            &&& !global_read && !rule_visible ==> v.rule is None && v.rule_ref is None
            &&& !global_read && trigger_visible ==> v.trigger == e.trigger && v.trigger_ref == e.trigger_ref
            &&& !global_read && !trigger_visible && v.rule is Some ==> v.trigger is None && v.trigger_ref
                == "[redacted]"@
            &&& !global_read && !trigger_visible && !include_public ==> v.trigger is None && v.trigger_ref
                == "[redacted]"@
            &&& !global_read && !trigger_visible && include_public && v.rule is None ==> v.trigger == e.trigger
                && v.trigger_ref == e.trigger_ref
        }),
{
    reveal_strlit("[redacted]");
}

/// An answer to an inquiry is taken only for a pending inquiry, from a caller
/// that is neither the creating execution nor one of its descendants, with a
/// resolvable identity that is the assignee when there is one. Such an
/// answer is recorded while the inquiry's deadline has not passed; once it
/// has, the inquiry expires instead and the answer is never recorded.
pub proof fn law_inquiry_answers_are_recorded_only_in_time(
    id: i64,
    status: InquiryStatus,
    token_execution: Option<i64>,
    creating: i64,
    descendant: bool,
    responded_by: Option<i64>,
    assigned_to: Option<i64>,
    expired: bool,
)
    ensures
        ({
            let r = crate::inquiries::respond_outcome(
                id,
                status,
                token_execution,
                creating,
                descendant,
                responded_by,
                assigned_to,
                expired,
            );
            let admitted = {
                &&& status == InquiryStatus::Pending
                &&& token_execution != Some(creating)
                &&& !(token_execution is Some && descendant)
                &&& responded_by is Some
                &&& (assigned_to is Some ==> assigned_to == responded_by)
            };
            &&& r is Ok <==> admitted
            &&& admitted && expired ==> r == Ok::<crate::inquiries::RespondVerdict, ErrorView>(
                crate::inquiries::RespondVerdict::Expire,
            )
            &&& admitted && !expired ==> r == Ok::<crate::inquiries::RespondVerdict, ErrorView>(
                crate::inquiries::RespondVerdict::Record,
            )
            &&& r == Ok::<crate::inquiries::RespondVerdict, ErrorView>(crate::inquiries::RespondVerdict::Record)
                ==> !expired
            &&& status != InquiryStatus::Pending ==> r is Err && r->Err_0.kind == crate::auth::ErrorKind::BadRequest
            &&& status == InquiryStatus::Pending && (token_execution == Some(creating) || (token_execution is Some
                && descendant)) ==> r is Err && r->Err_0.kind == crate::auth::ErrorKind::Forbidden
        }),
{
}

/// Sum of the counts of the rows whose status is one of `names`.
pub open spec fn count_with_status(rows: Seq<crate::executions::StatusCount>, names: Set<Seq<char>>) -> int
    decreases rows.len(),
{
    if rows.len() == 0 {
        0
    } else {
        count_with_status(rows.drop_last(), names) + if names.contains(rows.last().status@) {
            rows.last().count as int
        } else {
            0
        }
    }
}

/// Whether no status occurs in two rows (the per-status count query groups
/// by status).
pub open spec fn distinct_statuses(rows: Seq<crate::executions::StatusCount>) -> bool {
    forall|i: int, j: int| 0 <= i < j < rows.len() ==> rows[i].status@ != rows[j].status@
}

/// The execution statuses that the statistics name.
pub open spec fn named_statuses() -> Set<Seq<char>> {
    set![
        "completed"@,
        "failed"@,
        "running"@,
        "requested"@,
        "scheduling"@,
        "scheduled"@,
        "cancelled"@,
        "canceling"@,
        "timeout"@,
        "abandoned"@,
    ]
}

/// The sum of the per-status buckets of some statistics.
pub open spec fn bucket_sum(st: crate::executions::StatsSpec) -> int {
    st.completed + st.failed + st.running + st.pending + st.cancelled + st.timeout + st.abandoned
}

proof fn lemma_count_with_status_absent(rows: Seq<crate::executions::StatusCount>, names: Set<Seq<char>>)
    requires
        forall|i: int| 0 <= i < rows.len() ==> !names.contains(#[trigger] rows[i].status@),
    ensures
        count_with_status(rows, names) == 0,
    decreases rows.len(),
{
    if rows.len() > 0 {
        let p = rows.drop_last();
        assert forall|i: int| 0 <= i < p.len() implies !names.contains(#[trigger] p[i].status@) by {
            assert(p[i] == rows[i]);
        }
        lemma_count_with_status_absent(p, names);
        assert(!names.contains(rows[rows.len() - 1].status@));
    }
}

proof fn lemma_count_with_status_all(rows: Seq<crate::executions::StatusCount>, names: Set<Seq<char>>)
    requires
        forall|i: int| 0 <= i < rows.len() ==> names.contains(#[trigger] rows[i].status@),
    ensures
        count_with_status(rows, names) == crate::executions::count_sum(rows),
    decreases rows.len(),
{
    if rows.len() > 0 {
        let p = rows.drop_last();
        assert forall|i: int| 0 <= i < p.len() implies names.contains(#[trigger] p[i].status@) by {
            assert(p[i] == rows[i]);
        }
        lemma_count_with_status_all(p, names);
        assert(names.contains(rows[rows.len() - 1].status@));
    }
}

/// The named execution statuses are different texts.
proof fn lemma_status_names_differ()
    ensures
        "completed"@ != "failed"@,
        "completed"@ != "running"@,
        "completed"@ != "requested"@,
        "completed"@ != "scheduling"@,
        "completed"@ != "scheduled"@,
        "completed"@ != "cancelled"@,
        "completed"@ != "canceling"@,
        "completed"@ != "timeout"@,
        "completed"@ != "abandoned"@,
        "failed"@ != "running"@,
        "failed"@ != "requested"@,
        "failed"@ != "scheduling"@,
        "failed"@ != "scheduled"@,
        "failed"@ != "cancelled"@,
        "failed"@ != "canceling"@,
        "failed"@ != "timeout"@,
        "failed"@ != "abandoned"@,
        "running"@ != "requested"@,
        "running"@ != "scheduling"@,
        "running"@ != "scheduled"@,
        "running"@ != "cancelled"@,
        "running"@ != "canceling"@,
        "running"@ != "timeout"@,
        "running"@ != "abandoned"@,
        "requested"@ != "scheduling"@,
        "requested"@ != "scheduled"@,
        "requested"@ != "cancelled"@,
        "requested"@ != "canceling"@,
        "requested"@ != "timeout"@,
        "requested"@ != "abandoned"@,
        "scheduling"@ != "scheduled"@,
        "scheduling"@ != "cancelled"@,
        "scheduling"@ != "canceling"@,
        "scheduling"@ != "timeout"@,
        "scheduling"@ != "abandoned"@,
        "scheduled"@ != "cancelled"@,
        "scheduled"@ != "canceling"@,
        "scheduled"@ != "timeout"@,
        "scheduled"@ != "abandoned"@,
        "cancelled"@ != "canceling"@,
        "cancelled"@ != "timeout"@,
        "cancelled"@ != "abandoned"@,
        "canceling"@ != "timeout"@,
        "canceling"@ != "abandoned"@,
        "timeout"@ != "abandoned"@,
{
    reveal_strlit("completed");
    reveal_strlit("failed");
    reveal_strlit("running");
    reveal_strlit("requested");
    reveal_strlit("scheduling");
    reveal_strlit("scheduled");
    reveal_strlit("cancelled");
    reveal_strlit("canceling");
    reveal_strlit("timeout");
    reveal_strlit("abandoned");
    assert("completed"@.len() != "failed"@.len());
    assert("completed"@.len() != "running"@.len());
    assert("completed"@[0] != "requested"@[0]);
    assert("completed"@.len() != "scheduling"@.len());
    assert("completed"@[0] != "scheduled"@[0]);
    assert("completed"@[1] != "cancelled"@[1]);
    assert("completed"@[1] != "canceling"@[1]);
    assert("completed"@.len() != "timeout"@.len());
    assert("completed"@[0] != "abandoned"@[0]);
    assert("failed"@.len() != "running"@.len());
    assert("failed"@.len() != "requested"@.len());
    assert("failed"@.len() != "scheduling"@.len());
    assert("failed"@.len() != "scheduled"@.len());
    assert("failed"@.len() != "cancelled"@.len());
    assert("failed"@.len() != "canceling"@.len());
    assert("failed"@.len() != "timeout"@.len());
    assert("failed"@.len() != "abandoned"@.len());
    assert("running"@.len() != "requested"@.len());
    assert("running"@.len() != "scheduling"@.len());
    assert("running"@.len() != "scheduled"@.len());
    assert("running"@.len() != "cancelled"@.len());
    assert("running"@.len() != "canceling"@.len());
    assert("running"@[0] != "timeout"@[0]);
    assert("running"@.len() != "abandoned"@.len());
    assert("requested"@.len() != "scheduling"@.len());
    assert("requested"@[0] != "scheduled"@[0]);
    assert("requested"@[0] != "cancelled"@[0]);
    assert("requested"@[0] != "canceling"@[0]);
    assert("requested"@.len() != "timeout"@.len());
    assert("requested"@[0] != "abandoned"@[0]);
    assert("scheduling"@.len() != "scheduled"@.len());
    assert("scheduling"@.len() != "cancelled"@.len());
    assert("scheduling"@.len() != "canceling"@.len());
    assert("scheduling"@.len() != "timeout"@.len());
    assert("scheduling"@.len() != "abandoned"@.len());
    assert("scheduled"@[0] != "cancelled"@[0]);
    assert("scheduled"@[0] != "canceling"@[0]);
    assert("scheduled"@.len() != "timeout"@.len());
    assert("scheduled"@[0] != "abandoned"@[0]);
    assert("cancelled"@[6] != "canceling"@[6]);
    assert("cancelled"@.len() != "timeout"@.len());
    assert("cancelled"@[0] != "abandoned"@[0]);
    assert("canceling"@.len() != "timeout"@.len());
    assert("canceling"@[0] != "abandoned"@[0]);
    assert("timeout"@.len() != "abandoned"@.len());
}

proof fn lemma_stats_buckets(rows: Seq<crate::executions::StatusCount>)
    requires
        distinct_statuses(rows),
    ensures
        ({
            let st = crate::executions::stats_of(rows);
            &&& st.total == crate::executions::count_sum(rows)
            &&& st.completed == count_with_status(rows, set!["completed"@])
            &&& st.failed == count_with_status(rows, set!["failed"@])
            &&& st.running == count_with_status(rows, set!["running"@])
            &&& st.pending == count_with_status(rows, set!["requested"@, "scheduling"@, "scheduled"@])
            &&& st.cancelled == count_with_status(rows, set!["cancelled"@, "canceling"@])
            &&& st.timeout == count_with_status(rows, set!["timeout"@])
            &&& st.abandoned == count_with_status(rows, set!["abandoned"@])
        }),
    decreases rows.len(),
{
    lemma_status_names_differ();
    if rows.len() > 0 {
        let s = rows.last().status@;
        lemma_distinct_prefix(rows);
        lemma_stats_buckets(rows.drop_last());
        lemma_last_status_new(rows);
        // The status of the last row was counted in no earlier row.
        if s == "completed"@ {
            assert(set![s] =~= set!["completed"@]);
        } else if s == "failed"@ {
            assert(set![s] =~= set!["failed"@]);
        } else if s == "running"@ {
            assert(set![s] =~= set!["running"@]);
        } else if s == "timeout"@ {
            assert(set![s] =~= set!["timeout"@]);
        } else if s == "abandoned"@ {
            assert(set![s] =~= set!["abandoned"@]);
        }
    }
}

proof fn lemma_distinct_prefix(rows: Seq<crate::executions::StatusCount>)
    requires
        distinct_statuses(rows),
        rows.len() > 0,
    ensures
        distinct_statuses(rows.drop_last()),
{
    let p = rows.drop_last();
    assert forall|i: int, j: int| 0 <= i < j < p.len() implies p[i].status@ != p[j].status@ by {
        assert(p[i] == rows[i] && p[j] == rows[j]);
    }
}

/// The last row's status occurs in no earlier row.
proof fn lemma_last_status_new(rows: Seq<crate::executions::StatusCount>)
    requires
        distinct_statuses(rows),
        rows.len() > 0,
    ensures
        count_with_status(rows.drop_last(), set![rows.last().status@]) == 0,
{
    let p = rows.drop_last();
    let s = rows.last().status@;
    assert forall|i: int| 0 <= i < p.len() implies !set![s].contains(#[trigger] p[i].status@) by {
        assert(p[i] == rows[i]);
        assert(rows[i].status@ != rows[rows.len() - 1].status@);
    }
    lemma_count_with_status_absent(p, set![s]);
}

proof fn lemma_bucket_sum(rows: Seq<crate::executions::StatusCount>)
    requires
        distinct_statuses(rows),
    ensures
        bucket_sum(crate::executions::stats_of(rows)) == count_with_status(rows, named_statuses()),
    decreases rows.len(),
{
    lemma_status_names_differ();
    if rows.len() > 0 {
        let p = rows.drop_last();
        let s = rows.last().status@;
        lemma_distinct_prefix(rows);
        lemma_bucket_sum(p);
        lemma_stats_buckets(p);
        lemma_last_status_new(rows);
        if s == "completed"@ {
            assert(set![s] =~= set!["completed"@]);
        } else if s == "failed"@ {
            assert(set![s] =~= set!["failed"@]);
        } else if s == "running"@ {
            assert(set![s] =~= set!["running"@]);
        } else if s == "timeout"@ {
            assert(set![s] =~= set!["timeout"@]);
        } else if s == "abandoned"@ {
            assert(set![s] =~= set!["abandoned"@]);
        }
    }
}

/// Execution statistics put each count where its status belongs: the total
/// is the sum of all rows; `completed`, `failed`, `running`, `timeout` and
/// `abandoned` are the counts of their own status; `pending` sums
/// `requested`, `scheduling` and `scheduled`; `cancelled` sums `cancelled`
/// and `canceling`. So when every row has a named status, the buckets add up
/// to the total. Rows come one per status.
pub proof fn law_execution_stats_buckets(rows: Seq<crate::executions::StatusCount>)
    requires
        distinct_statuses(rows),
    ensures
        ({
            let st = crate::executions::stats_of(rows);
            &&& st.total == crate::executions::count_sum(rows)
            &&& st.completed == count_with_status(rows, set!["completed"@])
            &&& st.failed == count_with_status(rows, set!["failed"@])
            &&& st.running == count_with_status(rows, set!["running"@])
            &&& st.pending == count_with_status(rows, set!["requested"@, "scheduling"@, "scheduled"@])
            &&& st.cancelled == count_with_status(rows, set!["cancelled"@, "canceling"@])
            &&& st.timeout == count_with_status(rows, set!["timeout"@])
            &&& st.abandoned == count_with_status(rows, set!["abandoned"@])
            &&& (forall|i: int| 0 <= i < rows.len() ==> named_statuses().contains(#[trigger] rows[i].status@))
                ==> bucket_sum(st) == st.total
        }),
{
    lemma_stats_buckets(rows);
    lemma_bucket_sum(rows);
    if forall|i: int| 0 <= i < rows.len() ==> named_statuses().contains(#[trigger] rows[i].status@) {
        lemma_count_with_status_all(rows, named_statuses());
    }
}

/// Whether the lower-cased ref, label, description, use case (empty when
/// there is none) or one of the keywords of a pack contains `q`.
pub open spec fn some_field_contains(pack: crate::pack_index::IndexedPack, q: Seq<char>) -> bool {
    let use_case = match pack.use_case {
        Some(u) => u@,
        None => Seq::empty(),
    };
    ||| contains_seq(unicode_lowercase(pack.pack_ref@), q)
    ||| contains_seq(unicode_lowercase(pack.label@), q)
    ||| contains_seq(unicode_lowercase(pack.description@), q)
    ||| contains_seq(unicode_lowercase(use_case), q)
    ||| exists|k: int| 0 <= k < pack.keywords.len() && contains_seq(unicode_lowercase(#[trigger] pack.keywords@[k]@), q)
}

/// A search matches an indexed pack exactly when the query is empty or one
/// of the pack's fields, lower-cased, contains the lower-cased query.
pub proof fn law_pack_search_matches_any_field(pack: crate::pack_index::IndexedPack, q: Seq<char>)
    ensures
        crate::pack_index::pack_matches_spec(pack, q) == (q.len() == 0 || some_field_contains(pack, q)),
{
}

proof fn lemma_browse_seen_refs(items: Seq<(usize, crate::pack_index::IndexedPack)>, q: Seq<char>, r: Seq<char>)
    requires
        crate::pack_index::browse_spec(items, q).1.contains(r),
    ensures
        exists|j: int| 0 <= j < items.len() && #[trigger] items[j].1.pack_ref@ == r,
    decreases items.len(),
{
    let p = items.drop_last();
    let (kept, seen) = crate::pack_index::browse_spec(p, q);
    if seen.contains(r) {
        lemma_browse_seen_refs(p, q, r);
        let j = choose|j: int| 0 <= j < p.len() && #[trigger] p[j].1.pack_ref@ == r;
        assert(items[j] == p[j]);
    } else {
        assert(items[items.len() - 1].1.pack_ref@ == r);
    }
}

proof fn lemma_browse_keeps(items: Seq<(usize, crate::pack_index::IndexedPack)>, q: Seq<char>, i: int, n: int)
    requires
        0 <= i < n <= items.len(),
        forall|j: int| 0 <= j < i ==> items[j].1.pack_ref@ != items[i].1.pack_ref@,
        crate::pack_index::pack_matches_spec(items[i].1, q),
    ensures
        crate::pack_index::browse_spec(items.take(n), q).0.contains(items[i]),
    decreases n,
{
    let t = items.take(n);
    assert(t.drop_last() =~= items.take(n - 1));
    assert(t.last() == items[n - 1]);
    let (kept, seen) = crate::pack_index::browse_spec(items.take(n - 1), q);
    if n == i + 1 {
        if seen.contains(items[i].1.pack_ref@) {
            lemma_browse_seen_refs(items.take(i), q, items[i].1.pack_ref@);
            let j = choose|j: int| 0 <= j < items.take(i).len() && #[trigger] items.take(i)[j].1.pack_ref@ == items[i].1.pack_ref@;
            assert(items.take(i)[j] == items[j]);
        }
        assert(kept.push(items[i]).last() == items[i]);
    } else {
        lemma_browse_keeps(items, q, i, n - 1);
        let k = choose|k: int| 0 <= k < kept.len() && kept[k] == items[i];
        assert(kept.push(t.last())[k] == items[i]);
    }
}

/// A search lists every pack that matches the query at the first entry of
/// its ref, and lists only matching entries.
pub proof fn law_browse_lists_first_matching_entries(
    items: Seq<(usize, crate::pack_index::IndexedPack)>,
    q: Seq<char>,
)
    ensures
        forall|i: int|
            0 <= i < items.len() && (forall|j: int| 0 <= j < i ==> items[j].1.pack_ref@ != items[i].1.pack_ref@)
                && crate::pack_index::pack_matches_spec(#[trigger] items[i].1, q)
                ==> crate::pack_index::browse_spec(items, q).0.contains(items[i]),
        forall|k: int|
            0 <= k < crate::pack_index::browse_spec(items, q).0.len() ==> crate::pack_index::pack_matches_spec(
                #[trigger] crate::pack_index::browse_spec(items, q).0[k].1,
                q,
            ),
{
    assert forall|i: int|
        0 <= i < items.len() && (forall|j: int| 0 <= j < i ==> items[j].1.pack_ref@ != items[i].1.pack_ref@)
            && crate::pack_index::pack_matches_spec(#[trigger] items[i].1, q)
        implies crate::pack_index::browse_spec(items, q).0.contains(items[i]) by {
        lemma_browse_keeps(items, q, i, items.len() as int);
        assert(items.take(items.len() as int) =~= items);
    }
    lemma_browse_kept_match(items, q);
}

proof fn lemma_browse_kept_match(items: Seq<(usize, crate::pack_index::IndexedPack)>, q: Seq<char>)
    ensures
        forall|k: int|
            0 <= k < crate::pack_index::browse_spec(items, q).0.len() ==> crate::pack_index::pack_matches_spec(
                #[trigger] crate::pack_index::browse_spec(items, q).0[k].1,
                q,
            ),
    decreases items.len(),
{
    if items.len() > 0 {
        lemma_browse_kept_match(items.drop_last(), q);
        let kept = crate::pack_index::browse_spec(items.drop_last(), q).0;
        assert forall|k: int| 0 <= k < kept.push(items.last()).len() - 1 implies kept.push(items.last())[k] == kept[k] by {}
    }
}

/// The count of the last row whose status is `name`, or 0 when none is.
pub open spec fn last_count_with_status(rows: Seq<crate::executions::StatusCount>, name: Seq<char>) -> int
    decreases rows.len(),
{
    if rows.len() == 0 {
        0
    } else if rows.last().status@ == name {
        rows.last().count as int
    } else {
        last_count_with_status(rows.drop_last(), name)
    }
}

proof fn lemma_stats_any_rows(rows: Seq<crate::executions::StatusCount>)
    ensures
        ({
            let st = crate::executions::stats_of(rows);
            &&& st.total == crate::executions::count_sum(rows)
            &&& st.completed == last_count_with_status(rows, "completed"@)
            &&& st.failed == last_count_with_status(rows, "failed"@)
            &&& st.running == last_count_with_status(rows, "running"@)
            &&& st.pending == count_with_status(rows, set!["requested"@, "scheduling"@, "scheduled"@])
            &&& st.cancelled == count_with_status(rows, set!["cancelled"@, "canceling"@])
            &&& st.timeout == last_count_with_status(rows, "timeout"@)
            &&& st.abandoned == last_count_with_status(rows, "abandoned"@)
        }),
    decreases rows.len(),
{
    lemma_status_names_differ();
    if rows.len() > 0 {
        lemma_stats_any_rows(rows.drop_last());
    }
}

/// Execution statistics, whatever the rows: the total is the sum of all
/// counts; `pending` adds up every `requested`, `scheduling` and
/// `scheduled` row and `cancelled` every `cancelled` and `canceling` row;
/// `completed`, `failed`, `running`, `timeout` and `abandoned` take the
/// count of the last row of their status (0 when there is none); rows of
/// any other status count only in the total.
pub proof fn law_execution_stats_any_rows(rows: Seq<crate::executions::StatusCount>)
    ensures
        ({
            let st = crate::executions::stats_of(rows);
            &&& st.total == crate::executions::count_sum(rows)
            &&& st.completed == last_count_with_status(rows, "completed"@)
            &&& st.failed == last_count_with_status(rows, "failed"@)
            &&& st.running == last_count_with_status(rows, "running"@)
            &&& st.pending == count_with_status(rows, set!["requested"@, "scheduling"@, "scheduled"@])
            &&& st.cancelled == count_with_status(rows, set!["cancelled"@, "canceling"@])
            &&& st.timeout == last_count_with_status(rows, "timeout"@)
            &&& st.abandoned == last_count_with_status(rows, "abandoned"@)
        }),
{
    lemma_stats_any_rows(rows);
}

proof fn lemma_browse_shape(items: Seq<(usize, crate::pack_index::IndexedPack)>, q: Seq<char>)
    ensures
        ({
            let (kept, seen) = crate::pack_index::browse_spec(items, q);
            &&& forall|j: int| 0 <= j < items.len() ==> seen.contains(#[trigger] items[j].1.pack_ref@)
            &&& forall|k: int| 0 <= k < kept.len() ==> seen.contains(#[trigger] kept[k].1.pack_ref@)
            &&& forall|k: int|
                0 <= k < kept.len() ==> exists|i: int|
                    0 <= i < items.len() && items[i] == #[trigger] kept[k] && forall|j: int|
                        0 <= j < i ==> items[j].1.pack_ref@ != items[i].1.pack_ref@
            &&& forall|k1: int, k2: int|
                0 <= k1 < k2 < kept.len() ==> #[trigger] kept[k1].1.pack_ref@ != #[trigger] kept[k2].1.pack_ref@
        }),
    decreases items.len(),
{
    if items.len() > 0 {
        let p = items.drop_last();
        let n = items.len() - 1;
        lemma_browse_shape(p, q);
        let (kept0, seen0) = crate::pack_index::browse_spec(p, q);
        let last = items.last();
        let (kept, seen) = crate::pack_index::browse_spec(items, q);
        assert forall|j: int| 0 <= j < items.len() implies seen.contains(#[trigger] items[j].1.pack_ref@) by {
            if j < n {
                assert(items[j] == p[j]);
                assert(seen0.contains(p[j].1.pack_ref@));
                if !seen0.contains(last.1.pack_ref@) {
                    let w = choose|w: int| 0 <= w < seen0.len() && seen0[w] == p[j].1.pack_ref@;
                    assert(seen0.push(last.1.pack_ref@)[w] == p[j].1.pack_ref@);
                }
            } else {
                if !seen0.contains(last.1.pack_ref@) {
                    assert(seen0.push(last.1.pack_ref@)[seen0.len() as int] == last.1.pack_ref@);
                }
            }
        }
        assert forall|k: int| 0 <= k < kept.len() implies seen.contains(#[trigger] kept[k].1.pack_ref@) by {
            if k < kept0.len() {
                assert(kept[k] == kept0[k]);
                assert(seen0.contains(kept0[k].1.pack_ref@));
                if !seen0.contains(last.1.pack_ref@) {
                    let w = choose|w: int| 0 <= w < seen0.len() && seen0[w] == kept0[k].1.pack_ref@;
                    assert(seen0.push(last.1.pack_ref@)[w] == kept0[k].1.pack_ref@);
                }
            } else {
                assert(kept[k] == last);
                assert(seen0.push(last.1.pack_ref@)[seen0.len() as int] == last.1.pack_ref@);
            }
        }
        assert forall|k: int|
            0 <= k < kept.len() implies exists|i: int|
                0 <= i < items.len() && items[i] == #[trigger] kept[k] && forall|j: int|
                    0 <= j < i ==> items[j].1.pack_ref@ != items[i].1.pack_ref@ by {
            if k < kept0.len() {
                assert(kept[k] == kept0[k]);
                let i = choose|i: int|
                    0 <= i < p.len() && p[i] == #[trigger] kept0[k] && forall|j: int|
                        0 <= j < i ==> p[j].1.pack_ref@ != p[i].1.pack_ref@;
                assert(items[i] == p[i]);
                assert forall|j: int| 0 <= j < i implies items[j].1.pack_ref@ != items[i].1.pack_ref@ by {
                    assert(items[j] == p[j]);
                }
            } else {
                assert(kept[k] == last);
                assert(!seen0.contains(last.1.pack_ref@));
                assert forall|j: int| 0 <= j < n implies items[j].1.pack_ref@ != items[n].1.pack_ref@ by {
                    assert(items[j] == p[j]);
                    assert(seen0.contains(p[j].1.pack_ref@));
                }
            }
        }
        assert forall|k1: int, k2: int|
            0 <= k1 < k2 < kept.len() implies #[trigger] kept[k1].1.pack_ref@ != #[trigger] kept[k2].1.pack_ref@ by {
            if k2 < kept0.len() {
                assert(kept[k1] == kept0[k1] && kept[k2] == kept0[k2]);
            } else {
                assert(kept[k1] == kept0[k1] && kept[k2] == last);
                assert(seen0.contains(kept0[k1].1.pack_ref@));
                assert(!seen0.contains(last.1.pack_ref@));
            }
        }
    }
}

/// A search lists only first entries of their refs, and never two entries
/// of one ref.
pub proof fn law_browse_lists_each_ref_once(items: Seq<(usize, crate::pack_index::IndexedPack)>, q: Seq<char>)
    ensures
        ({
            let kept = crate::pack_index::browse_spec(items, q).0;
            &&& forall|k: int|
                0 <= k < kept.len() ==> exists|i: int|
                    0 <= i < items.len() && items[i] == #[trigger] kept[k] && forall|j: int|
                        0 <= j < i ==> items[j].1.pack_ref@ != items[i].1.pack_ref@
            &&& forall|k1: int, k2: int|
                0 <= k1 < k2 < kept.len() ==> #[trigger] kept[k1].1.pack_ref@ != #[trigger] kept[k2].1.pack_ref@
        }),
{
    lemma_browse_shape(items, q);
}

/// The error of a constraint kind that does not apply to the resource.
pub open spec fn constraint_refusal(r: Resource, what: Seq<char>) -> Result<(), ErrorView> {
    Err(crate::auth::api_err(crate::auth::ErrorKind::BadRequest, crate::rbac::resource_name(r) + what))
}

/// The checks of a grant's constraints run in a fixed order (pack scope,
/// component refs, owner, owner types, visibility, execution scope,
/// encryption) and the first constraint kind that does not apply to the
/// resource gives the error.
pub proof fn law_grant_constraint_refusals_in_order(r: Resource, c: crate::rbac::GrantConstraints)
    ensures
        ({
            let out = crate::rbac::grant_constraints_outcome(r, c);
            let pack_bad = c.pack_refs is Some && !pack_scoped_resource(r);
            let refs_bad = c.refs is Some && !(pack_scoped_resource(r) || r == Resource::Keys);
            let owner_bad = c.owner is Some && !(r == Resource::Packs || r == Resource::Keys || r == Resource::Artifacts);
            let types_bad = c.owner_types is Some && !(r == Resource::Keys || r == Resource::Artifacts);
            let vis_bad = c.visibility is Some && r != Resource::Artifacts;
            let scope_bad = c.execution_scope is Some && r != Resource::Executions;
            let enc_bad = c.encrypted is Some && r != Resource::Keys;
            &&& pack_bad ==> out == constraint_refusal(r, " grants do not support pack scope constraints"@)
            &&& !pack_bad && refs_bad ==> out == constraint_refusal(
                r,
                " grants do not support component ref constraints"@,
            )
            &&& !pack_bad && !refs_bad && owner_bad ==> out == constraint_refusal(
                r,
                " grants do not support owner constraints"@,
            )
            &&& !pack_bad && !refs_bad && !owner_bad && types_bad ==> out == constraint_refusal(
                r,
                " grants do not support owner type constraints"@,
            )
            &&& !pack_bad && !refs_bad && !owner_bad && !types_bad && vis_bad ==> out == Err::<(), ErrorView>(
                crate::auth::api_err(
                    crate::auth::ErrorKind::BadRequest,
                    "Visibility constraints only apply to artifacts grants"@,
                ),
            )
            &&& !pack_bad && !refs_bad && !owner_bad && !types_bad && !vis_bad && scope_bad ==> out == Err::<
                (),
                ErrorView,
            >(
                crate::auth::api_err(
                    crate::auth::ErrorKind::BadRequest,
                    "Execution scope constraints only apply to executions grants"@,
                ),
            )
            &&& !pack_bad && !refs_bad && !owner_bad && !types_bad && !vis_bad && !scope_bad && enc_bad ==> out
                == Err::<(), ErrorView>(
                crate::auth::api_err(
                    crate::auth::ErrorKind::BadRequest,
                    "Encryption constraints only apply to keys grants"@,
                ),
            )
        }),
{
}

/// Why an answer to an inquiry is refused, checked in order: an inquiry
/// that is not pending; a privilege loop (the creating execution itself,
/// then one of its descendants); a caller without an identity; a caller
/// other than the assignee.
pub proof fn law_inquiry_refusals_in_order(
    id: i64,
    status: InquiryStatus,
    token_execution: Option<i64>,
    creating: i64,
    descendant: bool,
    responded_by: Option<i64>,
    assigned_to: Option<i64>,
    expired: bool,
)
    ensures
        ({
            let r = crate::inquiries::respond_outcome(
                id,
                status,
                token_execution,
                creating,
                descendant,
                responded_by,
                assigned_to,
                expired,
            );
            let pending = status == InquiryStatus::Pending;
            let own = token_execution == Some(creating);
            let desc = token_execution is Some && descendant;
            &&& pending && own ==> r == Err::<crate::inquiries::RespondVerdict, ErrorView>(
                crate::auth::api_err(
                    crate::auth::ErrorKind::Forbidden,
                    "An execution cannot respond to an inquiry it created (privilege loop)"@,
                ),
            )
            &&& pending && !own && desc ==> r == Err::<crate::inquiries::RespondVerdict, ErrorView>(
                crate::auth::api_err(
                    crate::auth::ErrorKind::Forbidden,
                    "A descendant execution cannot respond to an ancestor's inquiry (privilege loop)"@,
                ),
            )
            &&& pending && !own && !desc && responded_by is None ==> r == Err::<
                crate::inquiries::RespondVerdict,
                ErrorView,
            >(
                crate::auth::api_err(
                    crate::auth::ErrorKind::Forbidden,
                    "Cannot record response: caller has no resolvable identity"@,
                ),
            )
            &&& pending && !own && !desc && responded_by is Some && assigned_to is Some && assigned_to
                != responded_by ==> r == Err::<crate::inquiries::RespondVerdict, ErrorView>(
                crate::auth::api_err(
                    crate::auth::ErrorKind::Forbidden,
                    "Inquiry "@ + crate::text::int_decimal(id as int) + " is assigned to identity "@
                        + crate::text::int_decimal(assigned_to->0 as int) + " and can only be answered by them"@,
                ),
            )
        }),
{
}

/// What a reader sees of an enforcement: everything with global read;
/// otherwise its rule and rule ref only when the rule scope covers them
/// (else no rule and the redaction marker), and its trigger ref only when
/// the trigger scope covers it (else the redaction marker); the rule and the
/// trigger are hidden independently of each other.
pub proof fn law_enforcement_visibility_by_scope(
    rule: Option<i64>,
    rule_ref: Seq<char>,
    trigger_ref: Seq<char>,
    rule_visible: bool,
    trigger_visible: bool,
    global_read: bool,
)
    ensures
        ({
            let (r, rr, tr) = crate::events::enforcement_visibility_spec(
                rule,
                rule_ref,
                trigger_ref,
                rule_visible,
                trigger_visible,
                global_read,
            );
            &&& global_read ==> r == rule && rr == rule_ref && tr == trigger_ref
            &&& !global_read && rule_visible ==> r == rule && rr == rule_ref
            &&& !global_read && !rule_visible ==> r is None && rr == "[redacted]"@
            &&& !global_read && trigger_visible ==> tr == trigger_ref
            &&& !global_read && !trigger_visible ==> tr == "[redacted]"@
        }),
{
    reveal_strlit("[redacted]");
}

/// The actions a permission-set grant on each resource may list.
pub open spec fn grantable_action(r: Resource, a: Action) -> bool {
    let crud = a == Action::Read || a == Action::Create || a == Action::Update || a == Action::Delete;
    match r {
        Resource::Packs => a == Action::Read || a == Action::Create || a == Action::Install || a == Action::Configure
            || a == Action::Delete,
        Resource::Actions => crud || a == Action::Execute,
        Resource::Executions => a == Action::Read || a == Action::Update || a == Action::Cancel || a == Action::Decrypt,
        Resource::Events => a == Action::Read || a == Action::Decrypt,
        Resource::Enforcements => a == Action::Read || a == Action::Decrypt,
        Resource::Inquiries => crud || a == Action::Respond,
        Resource::Keys => crud || a == Action::Decrypt,
        Resource::Workers => a == Action::Read || a == Action::Manage,
        Resource::Permissions => a == Action::Read || a == Action::Manage,
        Resource::Retention => a == Action::Read || a == Action::Update,
        Resource::AuditLog => a == Action::Read,
        Resource::Policies => crud,
        Resource::Queues => crud,
        Resource::QueueItems => crud,
        Resource::Rules => crud,
        Resource::Triggers => crud,
        Resource::Artifacts => crud,
        Resource::Runtimes => crud,
        Resource::Identities => crud,
    }
}

/// A permission-set grant's actions are accepted exactly when it lists at
/// least one and each is one its resource allows; otherwise the grant is
/// refused as listing unsupported actions.
pub proof fn law_grant_actions_accepted_where_allowed(g: crate::rbac::Grant)
    ensures
        (crate::rbac::grant_actions_outcome(g) is Ok) == (g.actions@.len() > 0 && forall|i: int|
            0 <= i < g.actions@.len() ==> grantable_action(g.resource, #[trigger] g.actions@[i])),
        crate::rbac::grant_actions_outcome(g) is Err ==> crate::rbac::grant_actions_outcome(g) == Err::<(), ErrorView>(
            crate::auth::api_err(
                crate::auth::ErrorKind::BadRequest,
                "Permission grant for "@ + crate::rbac::resource_name(g.resource) + " includes unsupported actions"@,
            ),
        ),
{
    assert forall|a: Action| #[trigger] grantable_action(g.resource, a) == crate::rbac::action_supported(g.resource, a) by {}

}

} // verus!
