//! Pack registry indices: the identity of a registry URL, which managed
//! indices are kept when several name the same registry, and which
//! statically configured indices still take effect.

use vstd::prelude::*;
use crate::auth::{api_err, outcome, ApiError, ErrorKind, ErrorView};
use crate::packs::RegistryHeader;
use crate::text::{ascii_lower, i64_to_string, int_decimal, str_eq, string_views};

verus! {

/// The serialization of the URL that `url::Url::parse` makes of a text, or
/// nothing on a parse error. A URL is held here as its serialization, which
/// `url::Url::parse` reads back to the same URL.
pub uninterp spec fn parsed_url(text: Seq<char>) -> Option<Seq<char>>;

/// What `url::Url::host_str` returns for the URL that a serialization
/// parses to.
pub uninterp spec fn url_host_text(url: Seq<char>) -> Option<Seq<char>>;

/// The serialization that `url::Url::set_host` leaves after setting the host.
pub uninterp spec fn url_with_host(url: Seq<char>, host: Seq<char>) -> Seq<char>;

/// What `url::Url::port` returns for the URL that a serialization parses to.
pub uninterp spec fn url_explicit_port(url: Seq<char>) -> Option<u16>;

/// What `url::Url::port_or_known_default` returns for the URL that a
/// serialization parses to.
pub uninterp spec fn url_effective_port(url: Seq<char>) -> Option<u16>;

/// The serialization that `url::Url::set_port(None)` leaves.
pub uninterp spec fn url_without_port(url: Seq<char>) -> Seq<char>;

/// Calls `url::Url::parse` and hands back the URL's serialization
/// (`url::Url::as_str`); a parse error becomes `None`. The result is named.
#[verifier::external_body]
fn parse_url(text: &str) -> (r: Option<String>)
    ensures
        match r {
            Some(s) => parsed_url(text@) == Some(s@),
            None => parsed_url(text@) is None,
        },
{
    match url::Url::parse(text) {
        Ok(u) => Some(u.as_str().to_string()),
        Err(_) => None,
    }
}

/// Calls `url::Url::host_str` on the URL that `url` serializes; the result
/// is named.
#[verifier::external_body]
fn url_host(url: &str) -> (r: Option<String>)
    ensures
        match r {
            Some(h) => url_host_text(url@) == Some(h@),
            None => url_host_text(url@) is None,
        },
{
    match url::Url::parse(url) {
        Ok(u) => match u.host_str() {
            Some(h) => Some(h.to_string()),
            None => None,
        },
        Err(_) => None,
    }
}

/// Calls `url::Url::set_host` with `Some(host)` on the URL that `url`
/// serializes, ignoring its error (the URL is then left as it was, which the
/// name covers), and hands back the serialization.
#[verifier::external_body]
fn url_set_host(url: &str, host: &str) -> (r: String)
    ensures
        r@ == url_with_host(url@, host@),
{
    match url::Url::parse(url) {
        Ok(mut u) => {
            let _ = u.set_host(Some(host));
            u.as_str().to_string()
        },
        Err(_) => url.to_string(),
    }
}

/// Calls `url::Url::port` on the URL that `url` serializes; the result is
/// named.
#[verifier::external_body]
fn url_port(url: &str) -> (r: Option<u16>)
    ensures
        r == url_explicit_port(url@),
{
    match url::Url::parse(url) {
        Ok(u) => u.port(),
        Err(_) => None,
    }
}

/// Calls `url::Url::port_or_known_default` on the URL that `url`
/// serializes. Its documentation: the URL's port when it has one, else the
/// default port of the scheme when known.
#[verifier::external_body]
fn url_port_or_known_default(url: &str) -> (r: Option<u16>)
    ensures
        r == url_effective_port(url@),
        url_explicit_port(url@) is Some ==> r == url_explicit_port(url@),
{
    match url::Url::parse(url) {
        Ok(u) => u.port_or_known_default(),
        Err(_) => None,
    }
}

/// Calls `url::Url::set_port(None)` on the URL that `url` serializes,
/// ignoring its error (the URL is then left as it was, which the name
/// covers), and hands back the serialization.
#[verifier::external_body]
fn url_clear_port(url: &str) -> (r: String)
    ensures
        r@ == url_without_port(url@),
{
    match url::Url::parse(url) {
        Ok(mut u) => {
            let _ = u.set_port(None);
            u.as_str().to_string()
        },
        Err(_) => url.to_string(),
    }
}

/// Calls `str::to_ascii_lowercase`, which std documents as mapping `A`-`Z`
/// to `a`-`z` and keeping every other character.
#[verifier::external_body]
pub(crate) fn to_ascii_lowercase(s: &str) -> (r: String)
    ensures
        r@ == ascii_lower(s@),
{
    s.to_ascii_lowercase()
}

/// Number of `.` characters that end `s`.
pub open spec fn trailing_dots(s: Seq<char>) -> nat
    decreases s.len(),
{
    if s.len() > 0 && s.last() == '.' {
        1 + trailing_dots(s.drop_last())
    } else {
        0
    }
}

/// `s` without its trailing `.` characters.
pub open spec fn trim_trailing_dots_spec(s: Seq<char>) -> Seq<char> {
    s.take(s.len() - trailing_dots(s))
}

/// Removes trailing `.` characters, as `trim_end_matches('.')` does.
pub fn trim_trailing_dots(s: &str) -> (t: &str)
    ensures
        t@ == trim_trailing_dots_spec(s@),
{
    let n = s.unicode_len();
    let mut end: usize = n;
    assert(s@.take(n as int) =~= s@);
    while end > 0 && s.get_char(end - 1) == '.'
        invariant
            n == s@.len(),
            end <= n,
            trailing_dots(s@) == (n - end) + trailing_dots(s@.take(end as int)),
        decreases end,
    {
        assert(s@.take(end as int).drop_last() =~= s@.take(end - 1));
        end = end - 1;
    }
    assert(trailing_dots(s@.take(end as int)) == 0);
    s.substring_char(0, end)
}

/// The host of a registry URL as compared: without trailing dots, in ASCII
/// lower case.
pub open spec fn normalized_host(host: Seq<char>) -> Seq<char> {
    ascii_lower(trim_trailing_dots_spec(host))
}

/// The identity of a registry URL: the text itself when it does not parse;
/// otherwise the URL with its host normalized and its port removed when
/// `port` and `port_or_known_default` agree.
pub open spec fn registry_key_of(url: Seq<char>) -> Seq<char> {
    match parsed_url(url) {
        None => url,
        Some(u) => {
            let u1 = match url_host_text(u) {
                Some(h) => url_with_host(u, normalized_host(h)),
                None => u,
            };
            if url_explicit_port(u1) == url_effective_port(u1) {
                url_without_port(u1)
            } else {
                u1
            }
        },
    }
}

/// The canonical text of a registry URL, under which URLs that name the
/// same registry compare equal.
pub fn registry_url_key(url: &str) -> (r: String)
    ensures
        r@ == registry_key_of(url@),
{
    match parse_url(url) {
        None => url.to_string(),
        Some(u) => {
            let u1 = match url_host(u.as_str()) {
                Some(h) => {
                    let trimmed = trim_trailing_dots(h.as_str());
                    let lowered = to_ascii_lowercase(trimmed);
                    url_set_host(u.as_str(), lowered.as_str())
                },
                None => u,
            };
            let explicit = url_port(u1.as_str());
            let effective = url_port_or_known_default(u1.as_str());
            let same = match (explicit, effective) {
                (Some(a), Some(b)) => a == b,
                (None, None) => true,
                _ => false,
            };
            if same {
                url_clear_port(u1.as_str())
            } else {
                u1
            }
        },
    }
}

/// The identity under which registry indices are deduplicated.
pub fn registry_identity_key(url: &str) -> (r: String)
    ensures
        r@ == registry_key_of(url@),
{
    registry_url_key(url)
}

/// A registry index managed through the API.
#[derive(Debug, PartialEq, Eq)]
pub struct ManagedRegistryIndex {
    pub id: i64,
    pub name: Option<String>,
    pub url: String,
    pub position: i32,
    pub enabled: bool,
    pub is_standard: bool,
}

fn copy_opt(o: &Option<String>) -> (r: Option<String>)
    ensures
        r == *o,
{
    match o {
        Some(s) => Some(s.clone()),
        None => None,
    }
}

fn copy_managed(m: &ManagedRegistryIndex) -> (r: ManagedRegistryIndex)
    ensures
        r == *m,
{
    ManagedRegistryIndex {
        id: m.id,
        name: copy_opt(&m.name),
        url: m.url.clone(),
        position: m.position,
        enabled: m.enabled,
        is_standard: m.is_standard,
    }
}

fn contains_key(keys: &Vec<String>, k: &str) -> (b: bool)
    ensures
        b == string_views(keys@).contains(k@),
{
    let ghost ks = string_views(keys@);
    let mut i: usize = 0;
    while i < keys.len()
        invariant
            i <= keys.len(),
            ks == string_views(keys@),
            forall|j: int| 0 <= j < i ==> ks[j] != k@,
        decreases keys.len() - i,
    {
        if str_eq(keys[i].as_str(), k) {
            assert(ks[i as int] == k@);
            return true;
        }
        i = i + 1;
    }
    false
}

/// Managed indices with later rows naming an already seen registry
/// dropped (the first row wins), and the registry identities seen, in
/// order of first appearance.
pub open spec fn dedup_managed_spec(v: Seq<ManagedRegistryIndex>) -> (Seq<ManagedRegistryIndex>, Seq<Seq<char>>)
    decreases v.len(),
{
    if v.len() == 0 {
        (Seq::empty(), Seq::empty())
    } else {
        let (kept, keys) = dedup_managed_spec(v.drop_last());
        let k = registry_key_of(v.last().url@);
        if keys.contains(k) {
            (kept, keys)
        } else {
            (kept.push(v.last()), keys.push(k))
        }
    }
}

/// Drops managed indices that name a registry already named by an earlier
/// row, and returns the registry identities of the rows kept.
pub fn deduplicate_managed_registry_indices(managed: Vec<ManagedRegistryIndex>) -> (r: (
    Vec<ManagedRegistryIndex>,
    Vec<String>,
))
    ensures
        (r.0@, string_views(r.1@)) == dedup_managed_spec(managed@),
{
    let mut kept: Vec<ManagedRegistryIndex> = Vec::new();
    let mut keys: Vec<String> = Vec::new();
    let mut i: usize = 0;
    assert(managed@.take(0) =~= Seq::<ManagedRegistryIndex>::empty());
    assert(string_views(keys@) =~= Seq::<Seq<char>>::empty());
    while i < managed.len()
        invariant
            i <= managed.len(),
            (kept@, string_views(keys@)) == dedup_managed_spec(managed@.take(i as int)),
        decreases managed.len() - i,
    {
        proof {
            assert(managed@.take(i + 1).drop_last() =~= managed@.take(i as int));
            assert(managed@.take(i + 1).last() == managed@[i as int]);
        }
        let ghost keys_before = keys@;
        let k = registry_identity_key(managed[i].url.as_str());
        if !contains_key(&keys, k.as_str()) {
            kept.push(copy_managed(&managed[i]));
            keys.push(k);
            assert(string_views(keys@) =~= string_views(keys_before).push(registry_key_of(managed@[i as int].url@)));
        }
        i = i + 1;
    }
    assert(managed@.take(managed.len() as int) =~= managed@);
    (kept, keys)
}

/// The statically configured indices take effect only while every managed
/// index is a standard one.
pub fn static_bootstrap_indices_are_effective(managed: &Vec<ManagedRegistryIndex>) -> (b: bool)
    ensures
        b == forall|i: int| 0 <= i < managed@.len() ==> managed@[i].is_standard,
{
    let mut i: usize = 0;
    while i < managed.len()
        invariant
            i <= managed.len(),
            forall|j: int| 0 <= j < i ==> managed@[j].is_standard,
        decreases managed.len() - i,
    {
        if !managed[i].is_standard {
            return false;
        }
        i = i + 1;
    }
    true
}

/// A registry index from the service configuration.
#[derive(Debug, PartialEq, Eq)]
pub struct RegistryIndexConfig {
    pub url: String,
    pub priority: u32,
    pub enabled: bool,
    pub name: Option<String>,
    pub headers: Vec<RegistryHeader>,
}

/// `c` with its priority replaced.
pub open spec fn with_priority(c: RegistryIndexConfig, priority: u32) -> RegistryIndexConfig {
    RegistryIndexConfig { url: c.url, priority, enabled: c.enabled, name: c.name, headers: c.headers }
}

/// The configured indices that are candidates: all of them, or only the
/// enabled ones.
pub open spec fn static_candidates(s: Seq<RegistryIndexConfig>, include_disabled: bool) -> Seq<RegistryIndexConfig>
    decreases s.len(),
{
    if s.len() == 0 {
        Seq::empty()
    } else {
        let prev = static_candidates(s.drop_last(), include_disabled);
        if include_disabled || s.last().enabled {
            prev.push(s.last())
        } else {
            prev
        }
    }
}

/// Where an index of priority `p` goes in a list: before the first index
/// of greater priority, after all others.
pub open spec fn insertion_point(s: Seq<RegistryIndexConfig>, p: u32) -> int
    decreases s.len(),
{
    if s.len() == 0 {
        0
    } else if s[0].priority > p {
        0
    } else {
        1 + insertion_point(s.skip(1), p)
    }
}

/// The indices ordered by priority, indices of equal priority keeping
/// their order (a stable sort).
pub open spec fn sort_by_priority(s: Seq<RegistryIndexConfig>) -> Seq<RegistryIndexConfig>
    decreases s.len(),
{
    if s.len() == 0 {
        s
    } else {
        let sorted = sort_by_priority(s.drop_last());
        sorted.insert(insertion_point(sorted, s.last().priority), s.last())
    }
}

/// The indices whose registry has not been seen yet, each registry kept at
/// its first index; `seen` grows with each registry kept.
pub open spec fn first_per_registry(s: Seq<RegistryIndexConfig>, seen: Seq<Seq<char>>) -> (
    Seq<RegistryIndexConfig>,
    Seq<Seq<char>>,
)
    decreases s.len(),
{
    if s.len() == 0 {
        (Seq::empty(), seen)
    } else {
        let (kept, seen2) = first_per_registry(s.drop_last(), seen);
        let k = registry_key_of(s.last().url@);
        if seen2.contains(k) {
            (kept, seen2)
        } else {
            (kept.push(s.last()), seen2.push(k))
        }
    }
}

/// The indices with `offset` added to each priority (saturating).
pub open spec fn offset_priorities(s: Seq<RegistryIndexConfig>, offset: u32) -> Seq<RegistryIndexConfig> {
    s.map_values(|c: RegistryIndexConfig| with_priority(c, offset.saturating_add(c.priority)))
}

/// The static indices that take effect: the candidates sorted by priority,
/// the first index of each registry not already managed, with priorities
/// placed after the managed positions.
pub open spec fn effective_static_spec(
    static_indices: Seq<RegistryIndexConfig>,
    managed_keys: Seq<Seq<char>>,
    position_offset: u32,
    include_disabled: bool,
) -> Seq<RegistryIndexConfig> {
    offset_priorities(
        first_per_registry(sort_by_priority(static_candidates(static_indices, include_disabled)), managed_keys).0,
        position_offset,
    )
}

fn insertion_index(sorted: &Vec<RegistryIndexConfig>, p: u32) -> (j: usize)
    ensures
        j == insertion_point(sorted@, p),
        j <= sorted@.len(),
{
    let mut j: usize = 0;
    assert(sorted@.skip(0) =~= sorted@);
    while j < sorted.len() && sorted[j].priority <= p
        invariant
            j <= sorted@.len(),
            insertion_point(sorted@, p) == j + insertion_point(sorted@.skip(j as int), p),
        decreases sorted@.len() - j,
    {
        assert(sorted@.skip(j as int).skip(1) =~= sorted@.skip(j + 1));
        assert(sorted@.skip(j as int)[0] == sorted@[j as int]);
        j = j + 1;
    }
    if j < sorted.len() {
        assert(sorted@.skip(j as int)[0] == sorted@[j as int]);
    } else {
        assert(sorted@.skip(j as int) =~= Seq::<RegistryIndexConfig>::empty());
    }
    j
}

/// The statically configured indices that still take effect next to the
/// managed ones.
pub fn effective_static_registry_indices(
    static_indices: Vec<RegistryIndexConfig>,
    managed_urls: &Vec<String>,
    position_offset: u32,
    include_disabled: bool,
) -> (r: Vec<RegistryIndexConfig>)
    ensures
        r@ == effective_static_spec(static_indices@, string_views(managed_urls@), position_offset, include_disabled),
{
    let ghost orig = static_indices@;
    let n = static_indices.len();
    let mut rest = static_indices;
    // Candidates, stably sorted by priority.
    let mut sorted: Vec<RegistryIndexConfig> = Vec::new();
    let mut i: usize = 0;
    assert(orig.take(0) =~= Seq::<RegistryIndexConfig>::empty());
    assert(orig.skip(0) =~= orig);
    while i < n
        invariant
            n == orig.len(),
            i <= n,
            rest@ == orig.skip(i as int),
            sorted@ == sort_by_priority(static_candidates(orig.take(i as int), include_disabled)),
        decreases n - i,
    {
        proof {
            assert(orig.take(i + 1).drop_last() =~= orig.take(i as int));
            assert(orig.take(i + 1).last() == orig[i as int]);
            assert(orig.skip(i as int)[0] == orig[i as int]);
            assert(orig.skip(i as int).remove(0) =~= orig.skip(i + 1));
        }
        let c = rest.remove(0);
        if include_disabled || c.enabled {
            let ghost cands = static_candidates(orig.take(i + 1), include_disabled);
            proof {
                assert(cands.drop_last() =~= static_candidates(orig.take(i as int), include_disabled));
            }
            let j = insertion_index(&sorted, c.priority);
            sorted.insert(j, c);
        }
        i = i + 1;
    }
    assert(orig.take(n as int) =~= orig);
    let ghost all_sorted = sorted@;
    let m = sorted.len();
    // First index per registry not already managed, priorities offset.
    let mut seen = crate::text::copy_strings(managed_urls);
    let mut out: Vec<RegistryIndexConfig> = Vec::new();
    let mut kept_view: Ghost<Seq<RegistryIndexConfig>> = Ghost(Seq::empty());
    let mut k: usize = 0;
    assert(all_sorted.take(0) =~= Seq::<RegistryIndexConfig>::empty());
    assert(all_sorted.skip(0) =~= all_sorted);
    assert(out@ =~= offset_priorities(kept_view@, position_offset));
    while k < m
        invariant
            m == all_sorted.len(),
            k <= m,
            sorted@ == all_sorted.skip(k as int),
            (kept_view@, string_views(seen@)) == first_per_registry(all_sorted.take(k as int), string_views(managed_urls@)),
            out@ == offset_priorities(kept_view@, position_offset),
        decreases m - k,
    {
        proof {
            assert(all_sorted.take(k + 1).drop_last() =~= all_sorted.take(k as int));
            assert(all_sorted.take(k + 1).last() == all_sorted[k as int]);
            assert(all_sorted.skip(k as int)[0] == all_sorted[k as int]);
            assert(all_sorted.skip(k as int).remove(0) =~= all_sorted.skip(k + 1));
        }
        let mut c = sorted.remove(0);
        let key = registry_identity_key(c.url.as_str());
        if !contains_key(&seen, key.as_str()) {
            let ghost seen_before = seen@;
            let ghost out_before = out@;
            c.priority = position_offset.saturating_add(c.priority);
            out.push(c);
            seen.push(key);
            proof {
                kept_view@ = kept_view@.push(all_sorted[k as int]);
                assert(string_views(seen@) =~= string_views(seen_before).push(registry_key_of(all_sorted[k as int].url@)));
                assert(out@ =~= offset_priorities(kept_view@, position_offset));
            }
        }
        k = k + 1;
    }
    assert(all_sorted.take(m as int) =~= all_sorted);
    out
}

/// The registry identities of a list of managed indices.
pub open spec fn managed_keys(v: Seq<ManagedRegistryIndex>) -> Seq<Seq<char>> {
    v.map_values(|m: ManagedRegistryIndex| registry_key_of(m.url@))
}

/// Whether a change of the managed indices from `before` to `after` would
/// bring statically configured indices back into effect.
pub open spec fn static_reactivation_spec(
    before: Seq<ManagedRegistryIndex>,
    after: Seq<ManagedRegistryIndex>,
    static_indices: Seq<RegistryIndexConfig>,
) -> bool {
    &&& !(forall|i: int| 0 <= i < before.len() ==> before[i].is_standard)
    &&& forall|i: int| 0 <= i < after.len() ==> after[i].is_standard
    &&& effective_static_spec(static_indices, managed_keys(after), 0, false).len() > 0
}

/// Decides whether changing the managed indices from `before` to `after`
/// would reactivate statically configured indices.
pub fn static_indices_would_reactivate(
    before: &Vec<ManagedRegistryIndex>,
    after: &Vec<ManagedRegistryIndex>,
    static_indices: Vec<RegistryIndexConfig>,
) -> (b: bool)
    ensures
        b == static_reactivation_spec(before@, after@, static_indices@),
{
    let mut keys: Vec<String> = Vec::new();
    let mut i: usize = 0;
    while i < after.len()
        invariant
            i <= after.len(),
            keys@.len() == i,
            forall|j: int| 0 <= j < i ==> keys@[j]@ == registry_key_of(after@[j].url@),
        decreases after.len() - i,
    {
        keys.push(registry_identity_key(after[i].url.as_str()));
        i = i + 1;
    }
    assert(string_views(keys@) =~= managed_keys(after@));
    if static_bootstrap_indices_are_effective(before) {
        return false;
    }
    if !static_bootstrap_indices_are_effective(after) {
        return false;
    }
    let effective = effective_static_registry_indices(static_indices, &keys, 0, false);
    effective.len() > 0
}

/// The priority of a managed index among registry indices: its position,
/// a negative position counting as 0.
pub open spec fn managed_priority(position: i32) -> u32 {
    if position < 0 {
        0
    } else {
        position as u32
    }
}

/// The priority of a managed index at `position`.
pub fn managed_index_priority(position: i32) -> (p: u32)
    ensures
        p == managed_priority(position),
{
    if position < 0 {
        0
    } else {
        position as u32
    }
}

/// The largest priority among managed indices (0 for none).
pub open spec fn max_managed_priority(v: Seq<ManagedRegistryIndex>) -> u32
    decreases v.len(),
{
    if v.len() == 0 {
        0
    } else {
        let m = max_managed_priority(v.drop_last());
        let p = managed_priority(v.last().position);
        if p > m {
            p
        } else {
            m
        }
    }
}

/// Where the priorities of static indices start: right after the largest
/// managed priority, or at 0 when nothing is managed.
pub open spec fn static_offset_spec(v: Seq<ManagedRegistryIndex>) -> u32 {
    if v.len() == 0 {
        0
    } else {
        (max_managed_priority(v) + 1) as u32
    }
}

proof fn lemma_max_managed_priority_bound(v: Seq<ManagedRegistryIndex>)
    ensures
        max_managed_priority(v) <= 0x7fff_ffff,
    decreases v.len(),
{
    if v.len() > 0 {
        lemma_max_managed_priority_bound(v.drop_last());
    }
}

/// Computes where the priorities of static indices start.
pub fn static_position_offset(managed: &Vec<ManagedRegistryIndex>) -> (o: u32)
    ensures
        o == static_offset_spec(managed@),
{
    let mut m: u32 = 0;
    let mut i: usize = 0;
    assert(managed@.take(0) =~= Seq::<ManagedRegistryIndex>::empty());
    while i < managed.len()
        invariant
            i <= managed@.len(),
            m == max_managed_priority(managed@.take(i as int)),
        decreases managed@.len() - i,
    {
        assert(managed@.take(i + 1).drop_last() =~= managed@.take(i as int));
        let p = managed_index_priority(managed[i].position);
        if p > m {
            m = p;
        }
        i = i + 1;
    }
    assert(managed@.take(i as int) =~= managed@);
    if managed.len() == 0 {
        return 0;
    }
    proof {
        lemma_max_managed_priority_bound(managed@);
    }
    m + 1
}

/// The position listed for a static index: its priority when it fits an
/// `i32`, else `i32::MAX`.
pub fn static_summary_position(priority: u32) -> (p: i32)
    ensures
        p == if priority <= 0x7fff_ffff { priority as i32 } else { 0x7fff_ffff },
{
    if priority <= 0x7fff_ffff {
        priority as i32
    } else {
        0x7fff_ffff
    }
}

/// The managed indices that are listed: all of them, or only the enabled
/// ones.
pub open spec fn listed_managed(v: Seq<ManagedRegistryIndex>, include_disabled: bool) -> Seq<ManagedRegistryIndex>
    decreases v.len(),
{
    if v.len() == 0 {
        Seq::empty()
    } else {
        let prev = listed_managed(v.drop_last(), include_disabled);
        if include_disabled || v.last().enabled {
            prev.push(v.last())
        } else {
            prev
        }
    }
}

/// The registry indices in effect, before managed credentials are
/// decrypted: the managed indices to use, in order, and the static
/// indices that still apply next to them.
#[derive(Debug, PartialEq, Eq)]
pub struct EffectiveRegistryPlan {
    pub managed: Vec<ManagedRegistryIndex>,
    pub static_indices: Vec<RegistryIndexConfig>,
}

/// The static indices in effect next to the deduplicated managed ones.
pub open spec fn effective_static_for(
    kept: Seq<ManagedRegistryIndex>,
    keys: Seq<Seq<char>>,
    static_indices: Seq<RegistryIndexConfig>,
    include_disabled: bool,
) -> Seq<RegistryIndexConfig> {
    if forall|i: int| 0 <= i < kept.len() ==> kept[i].is_standard {
        effective_static_spec(static_indices, keys, static_offset_spec(kept), include_disabled)
    } else {
        Seq::empty()
    }
}

/// Plans the registry indices in effect. With the registry disabled there
/// are none; otherwise the managed indices are deduplicated (first row
/// wins) and the listed ones kept, and the static indices apply while
/// every managed index is standard, placed after the managed positions.
pub fn plan_effective_pack_registry(
    registry_enabled: bool,
    managed: Vec<ManagedRegistryIndex>,
    static_indices: Vec<RegistryIndexConfig>,
    include_disabled: bool,
) -> (p: EffectiveRegistryPlan)
    ensures
        !registry_enabled ==> p.managed@.len() == 0 && p.static_indices@.len() == 0,
        registry_enabled ==> p.managed@ == listed_managed(dedup_managed_spec(managed@).0, include_disabled),
        registry_enabled ==> p.static_indices@ == effective_static_for(
            dedup_managed_spec(managed@).0,
            dedup_managed_spec(managed@).1,
            static_indices@,
            include_disabled,
        ),
{
    if !registry_enabled {
        return EffectiveRegistryPlan { managed: Vec::new(), static_indices: Vec::new() };
    }
    let (kept, keys) = deduplicate_managed_registry_indices(managed);
    let bootstrap = static_bootstrap_indices_are_effective(&kept);
    let offset = static_position_offset(&kept);
    let mut listed: Vec<ManagedRegistryIndex> = Vec::new();
    let mut i: usize = 0;
    assert(kept@.take(0) =~= Seq::<ManagedRegistryIndex>::empty());
    while i < kept.len()
        invariant
            i <= kept@.len(),
            listed@ == listed_managed(kept@.take(i as int), include_disabled),
        decreases kept@.len() - i,
    {
        assert(kept@.take(i + 1).drop_last() =~= kept@.take(i as int));
        if include_disabled || kept[i].enabled {
            listed.push(copy_managed(&kept[i]));
        }
        i = i + 1;
    }
    assert(kept@.take(i as int) =~= kept@);
    let statics = if bootstrap {
        effective_static_registry_indices(static_indices, &keys, offset, include_disabled)
    } else {
        Vec::new()
    };
    EffectiveRegistryPlan { managed: listed, static_indices: statics }
}

/// The error when registry resolution is switched off.
pub open spec fn registry_disabled_message() -> Seq<char> {
    "Pack registry resolution is disabled"@
}

/// Resolving through a chosen managed index needs the registry enabled.
pub fn require_registry_resolution(registry_enabled: bool) -> (r: Result<(), ApiError>)
    ensures
        outcome(r) == if registry_enabled {
            Ok::<(), ErrorView>(())
        } else {
            Err(api_err(ErrorKind::BadRequest, registry_disabled_message()))
        },
{
    if !registry_enabled {
        return Err(ApiError::BadRequest(String::from_str("Pack registry resolution is disabled")));
    }
    Ok(())
}

/// The error when a chosen managed index is missing or disabled.
pub open spec fn managed_index_missing_message(registry_id: i64) -> Seq<char> {
    "Enabled managed pack index "@ + int_decimal(registry_id as int) + " was not found"@
}

/// The managed index chosen by id (`found` is what storage holds under
/// that id): it must exist and be enabled.
pub fn selected_managed_index(registry_id: i64, found: Option<ManagedRegistryIndex>) -> (r: Result<
    ManagedRegistryIndex,
    ApiError,
>)
    ensures
        outcome(r) == match found {
            Some(index) => if index.enabled {
                Ok::<ManagedRegistryIndex, ErrorView>(index)
            } else {
                Err(api_err(ErrorKind::BadRequest, managed_index_missing_message(registry_id)))
            },
            None => Err(api_err(ErrorKind::BadRequest, managed_index_missing_message(registry_id))),
        },
{
    match found {
        Some(index) => {
            if index.enabled {
                return Ok(index);
            }
        },
        None => {},
    }
    let mut message = String::from_str("Enabled managed pack index ");
    let id = i64_to_string(registry_id);
    message.append(id.as_str());
    message.append(" was not found");
    Err(ApiError::BadRequest(message))
}

/// The first managed index with the given id.
pub open spec fn index_with_id(v: Seq<ManagedRegistryIndex>, id: i64) -> Option<ManagedRegistryIndex>
    decreases v.len(),
{
    if v.len() == 0 {
        None
    } else if v[0].id == id {
        Some(v[0])
    } else {
        index_with_id(v.drop_first(), id)
    }
}

/// The managed indices other than those with the given id, in order.
pub open spec fn without_id(v: Seq<ManagedRegistryIndex>, id: i64) -> Seq<ManagedRegistryIndex>
    decreases v.len(),
{
    if v.len() == 0 {
        Seq::empty()
    } else {
        let prev = without_id(v.drop_last(), id);
        if v.last().id == id {
            prev
        } else {
            prev.push(v.last())
        }
    }
}

/// The error for a managed index that does not exist.
pub open spec fn pack_index_missing_message(id: i64) -> Seq<char> {
    "Pack index "@ + int_decimal(id as int) + " not found"@
}

/// The error when deleting an index would bring static indices back.
pub open spec fn deletion_reactivates_message() -> Seq<char> {
    "Cannot delete the last non-standard managed index while enabled static pack indices are configured; remove or disable the static entries first"@
}

/// The outcome of deleting managed index `id`: it must exist, and deleting
/// a non-standard index must not bring statically configured indices
/// back into effect.
pub open spec fn index_deletion_spec(
    indices: Seq<ManagedRegistryIndex>,
    id: i64,
    static_indices: Seq<RegistryIndexConfig>,
) -> Result<ManagedRegistryIndex, ErrorView> {
    match index_with_id(indices, id) {
        None => Err(api_err(ErrorKind::NotFound, pack_index_missing_message(id))),
        Some(existing) => if !existing.is_standard && static_reactivation_spec(
            indices,
            without_id(indices, id),
            static_indices,
        ) {
            Err(api_err(ErrorKind::Conflict, deletion_reactivates_message()))
        } else {
            Ok(existing)
        },
    }
}

fn pack_index_missing(id: i64) -> (e: ApiError)
    ensures
        e@ == api_err(ErrorKind::NotFound, pack_index_missing_message(id)),
{
    let mut message = String::from_str("Pack index ");
    let text = i64_to_string(id);
    message.append(text.as_str());
    message.append(" not found");
    ApiError::NotFound(message)
}

/// Finds managed index `id` among `indices` (the first with that id).
pub fn find_pack_index(indices: &Vec<ManagedRegistryIndex>, id: i64) -> (r: Result<ManagedRegistryIndex, ApiError>)
    ensures
        outcome(r) == match index_with_id(indices@, id) {
            Some(existing) => Ok::<ManagedRegistryIndex, ErrorView>(existing),
            None => Err(api_err(ErrorKind::NotFound, pack_index_missing_message(id))),
        },
{
    let mut i: usize = 0;
    assert(indices@.skip(0) =~= indices@);
    while i < indices.len()
        invariant
            i <= indices@.len(),
            index_with_id(indices@, id) == index_with_id(indices@.skip(i as int), id),
        decreases indices@.len() - i,
    {
        assert(indices@.skip(i as int)[0] == indices@[i as int]);
        assert(indices@.skip(i as int).drop_first() =~= indices@.skip(i + 1));
        if indices[i].id == id {
            return Ok(copy_managed(&indices[i]));
        }
        i = i + 1;
    }
    assert(indices@.skip(i as int) =~= Seq::<ManagedRegistryIndex>::empty());
    Err(pack_index_missing(id))
}

/// Checks the deletion of managed index `id` and returns the index.
pub fn check_pack_index_deletion(
    indices: &Vec<ManagedRegistryIndex>,
    id: i64,
    static_indices: Vec<RegistryIndexConfig>,
) -> (r: Result<ManagedRegistryIndex, ApiError>)
    ensures
        outcome(r) == index_deletion_spec(indices@, id, static_indices@),
{
    let existing = find_pack_index(indices, id)?;
    let mut after: Vec<ManagedRegistryIndex> = Vec::new();
    let mut i: usize = 0;
    assert(indices@.take(0) =~= Seq::<ManagedRegistryIndex>::empty());
    while i < indices.len()
        invariant
            i <= indices@.len(),
            after@ == without_id(indices@.take(i as int), id),
        decreases indices@.len() - i,
    {
        assert(indices@.take(i + 1).drop_last() =~= indices@.take(i as int));
        if indices[i].id != id {
            after.push(copy_managed(&indices[i]));
        }
        i = i + 1;
    }
    assert(indices@.take(i as int) =~= indices@);
    if !existing.is_standard && static_indices_would_reactivate(indices, &after, static_indices) {
        return Err(ApiError::Conflict(String::from_str(
            "Cannot delete the last non-standard managed index while enabled static pack indices are configured; remove or disable the static entries first",
        )));
    }
    Ok(existing)
}

/// The configured indices whose URL is exactly `url`, in order.
pub open spec fn indices_at_url(v: Seq<RegistryIndexConfig>, url: Seq<char>) -> Seq<RegistryIndexConfig>
    decreases v.len(),
{
    if v.len() == 0 {
        Seq::empty()
    } else {
        let prev = indices_at_url(v.drop_last(), url);
        if v.last().url@ == url {
            prev.push(v.last())
        } else {
            prev
        }
    }
}

/// Narrows the indices an install may consult to the registry a search
/// resolved the pack in.
pub fn indices_for_resolved_registry(indices: Vec<RegistryIndexConfig>, registry_url: &str) -> (r: Vec<
    RegistryIndexConfig,
>)
    ensures
        r@ == indices_at_url(indices@, registry_url@),
{
    let ghost orig = indices@;
    let n = indices.len();
    let mut rest = indices;
    let mut out: Vec<RegistryIndexConfig> = Vec::new();
    let mut i: usize = 0;
    assert(orig.take(0) =~= Seq::<RegistryIndexConfig>::empty());
    assert(orig.skip(0) =~= orig);
    while i < n
        invariant
            n == orig.len(),
            i <= n,
            rest@ == orig.skip(i as int),
            out@ == indices_at_url(orig.take(i as int), registry_url@),
        decreases n - i,
    {
        proof {
            assert(orig.take(i + 1).drop_last() =~= orig.take(i as int));
            assert(orig.take(i + 1).last() == orig[i as int]);
            assert(orig.skip(i as int)[0] == orig[i as int]);
            assert(orig.skip(i as int).remove(0) =~= orig.skip(i + 1));
        }
        let c = rest.remove(0);
        if str_eq(c.url.as_str(), registry_url) {
            out.push(c);
        }
        i = i + 1;
    }
    assert(orig.take(n as int) =~= orig);
    out
}

} // verus!
