//! Browsing the packs that registry indices offer: which entries a search
//! lists, and where a single indexed pack is found.

use vstd::prelude::*;
use crate::auth::{api_err, outcome, ApiError, ErrorKind, ErrorView};
use crate::provenance::PackRegistryIndexSummary;
use crate::registry::RegistryIndexConfig;
use crate::text::{contains_seq, contains_str, str_eq};

verus! {

/// What `str::to_lowercase` returns for a string: its Unicode lower case.
pub uninterp spec fn unicode_lowercase(s: Seq<char>) -> Seq<char>;

/// Calls `str::to_lowercase`; the result is named.
#[verifier::external_body]
fn to_lowercase(s: &str) -> (r: String)
    ensures
        r@ == unicode_lowercase(s@),
{
    s.to_lowercase()
}

/// A pack as a registry index lists it, reduced to what a search reads.
#[derive(Debug, PartialEq, Eq)]
pub struct IndexedPack {
    pub pack_ref: String,
    pub label: String,
    pub description: String,
    pub use_case: Option<String>,
    pub keywords: Vec<String>,
}

/// Whether `text`, lower-cased, contains the lower-cased query `q`.
pub open spec fn mentions(text: Seq<char>, q: Seq<char>) -> bool {
    contains_seq(unicode_lowercase(text), q)
}

/// Whether an indexed pack matches a lower-cased query: an empty query
/// matches everything; otherwise the ref, label, description, use case
/// or one of the keywords must contain it, compared in lower case.
pub open spec fn pack_matches_spec(pack: IndexedPack, q: Seq<char>) -> bool {
    ||| q.len() == 0
    ||| mentions(pack.pack_ref@, q)
    ||| mentions(pack.label@, q)
    ||| mentions(pack.description@, q)
    ||| mentions(
        match pack.use_case {
            Some(u) => u@,
            None => Seq::empty(),
        },
        q,
    )
    ||| exists|k: int| 0 <= k < pack.keywords.len() && mentions(#[trigger] pack.keywords@[k]@, q)
}

fn mentions_text(text: &str, q: &str) -> (b: bool)
    ensures
        b == mentions(text@, q@),
{
    let lowered = to_lowercase(text);
    contains_str(lowered.as_str(), q)
}

/// Whether an indexed pack matches the lower-cased query `q`.
pub fn pack_matches_query(pack: &IndexedPack, q: &str) -> (b: bool)
    ensures
        b == pack_matches_spec(*pack, q@),
{
    if q.unicode_len() == 0 {
        return true;
    }
    if mentions_text(pack.pack_ref.as_str(), q) || mentions_text(pack.label.as_str(), q) || mentions_text(
        pack.description.as_str(),
        q,
    ) {
        return true;
    }
    proof {
        reveal_strlit("");
        assert(""@ =~= Seq::<char>::empty());
    }
    let use_case_hit = match &pack.use_case {
        Some(u) => mentions_text(u.as_str(), q),
        None => mentions_text("", q),
    };
    if use_case_hit {
        return true;
    }
    let mut k: usize = 0;
    while k < pack.keywords.len()
        invariant
            k <= pack.keywords.len(),
            forall|j: int| 0 <= j < k ==> !mentions(#[trigger] pack.keywords@[j]@, q@),
        decreases pack.keywords.len() - k,
    {
        if mentions_text(pack.keywords[k].as_str(), q) {
            return true;
        }
        k = k + 1;
    }
    false
}

/// The packs a search lists from the entries of the consulted indices,
/// taken in order (`items` pairs each entry with the index it came from):
/// each pack ref counts once, at its first entry, whether or not that entry
/// matches; of those, the entries that match `q` are listed. Also gives the
/// refs seen.
pub open spec fn browse_spec(items: Seq<(usize, IndexedPack)>, q: Seq<char>) -> (
    Seq<(usize, IndexedPack)>,
    Seq<Seq<char>>,
)
    decreases items.len(),
{
    if items.len() == 0 {
        (Seq::empty(), Seq::empty())
    } else {
        let (kept, seen) = browse_spec(items.drop_last(), q);
        let last = items.last();
        if seen.contains(last.1.pack_ref@) {
            (kept, seen)
        } else if pack_matches_spec(last.1, q) {
            (kept.push(last), seen.push(last.1.pack_ref@))
        } else {
            (kept, seen.push(last.1.pack_ref@))
        }
    }
}

fn seen_contains(seen: &Vec<String>, r: &str) -> (b: bool)
    ensures
        b == seen@.map_values(|s: String| s@).contains(r@),
{
    let ghost v = seen@.map_values(|s: String| s@);
    let mut i: usize = 0;
    while i < seen.len()
        invariant
            i <= seen.len(),
            v == seen@.map_values(|s: String| s@),
            forall|j: int| 0 <= j < i ==> v[j] != r@,
        decreases seen.len() - i,
    {
        if str_eq(seen[i].as_str(), r) {
            assert(v[i as int] == r@);
            return true;
        }
        i = i + 1;
    }
    false
}

/// Lists the indexed packs a search finds. `query` is the search text, if
/// any; it is compared in lower case.
pub fn browse_indexed_packs(items: Vec<(usize, IndexedPack)>, query: Option<&str>) -> (r: Vec<(usize, IndexedPack)>)
    ensures
        r@ == browse_spec(
            items@,
            unicode_lowercase(
                match query {
                    Some(q) => q@,
                    None => Seq::empty(),
                },
            ),
        ).0,
{
    let q = match query {
        Some(q) => to_lowercase(q),
        None => {
            proof {
                reveal_strlit("");
                assert(""@ =~= Seq::<char>::empty());
            }
            to_lowercase("")
        },
    };
    let ghost orig = items@;
    let n = items.len();
    let mut rest = items;
    let mut kept: Vec<(usize, IndexedPack)> = Vec::new();
    let mut seen: Vec<String> = Vec::new();
    let mut i: usize = 0;
    assert(orig.take(0) =~= Seq::<(usize, IndexedPack)>::empty());
    assert(orig.skip(0) =~= orig);
    assert(seen@.map_values(|s: String| s@) =~= Seq::<Seq<char>>::empty());
    while i < n
        invariant
            n == orig.len(),
            i <= n,
            rest@ == orig.skip(i as int),
            (kept@, seen@.map_values(|s: String| s@)) == browse_spec(orig.take(i as int), q@),
        decreases n - i,
    {
        proof {
            assert(orig.take(i + 1).drop_last() =~= orig.take(i as int));
            assert(orig.take(i + 1).last() == orig[i as int]);
            assert(orig.skip(i as int)[0] == orig[i as int]);
            assert(orig.skip(i as int).remove(0) =~= orig.skip(i + 1));
        }
        let item = rest.remove(0);
        if !seen_contains(&seen, item.1.pack_ref.as_str()) {
            let ghost seen_before = seen@;
            let matched = pack_matches_query(&item.1, q.as_str());
            seen.push(item.1.pack_ref.clone());
            proof {
                assert(seen@.map_values(|s: String| s@) =~= seen_before.map_values(|s: String| s@).push(
                    orig[i as int].1.pack_ref@,
                ));
            }
            if matched {
                kept.push(item);
            }
        }
        i = i + 1;
    }
    assert(orig.take(n as int) =~= orig);
    kept
}

/// The summary shown with an indexed pack: the listed summary of its
/// registry when there is one, else one made from the configured index
/// (its priority as a position, converted as `as i32` does).
pub open spec fn indexed_pack_summary_spec(
    listed: Option<PackRegistryIndexSummary>,
    registry: RegistryIndexConfig,
) -> PackRegistryIndexSummary {
    match listed {
        Some(s) => s,
        None => PackRegistryIndexSummary {
            id: None,
            name: registry.name,
            url: registry.url,
            position: registry.priority as i32,
        },
    }
}

/// Builds the summary shown with an indexed pack.
pub fn indexed_pack_summary(listed: Option<PackRegistryIndexSummary>, registry: RegistryIndexConfig) -> (s:
    PackRegistryIndexSummary)
    ensures
        s == indexed_pack_summary_spec(listed, registry),
{
    match listed {
        Some(s) => s,
        None => PackRegistryIndexSummary {
            id: None,
            name: registry.name,
            url: registry.url,
            position: registry.priority as i32,
        },
    }
}

/// The first entry listing the pack `pack_ref`.
pub open spec fn first_entry_for(items: Seq<(usize, IndexedPack)>, pack_ref: Seq<char>) -> Option<(usize, IndexedPack)>
    decreases items.len(),
{
    if items.len() == 0 {
        None
    } else if items[0].1.pack_ref@ == pack_ref {
        Some(items[0])
    } else {
        first_entry_for(items.drop_first(), pack_ref)
    }
}

/// The error for a pack no consulted index lists.
pub open spec fn indexed_pack_missing_message(pack_ref: Seq<char>) -> Seq<char> {
    "Indexed pack '"@ + pack_ref + "' not found"@
}

/// Finds a pack among the entries of the consulted indices, in order.
pub fn find_indexed_pack(items: Vec<(usize, IndexedPack)>, pack_ref: &str) -> (r: Result<(usize, IndexedPack), ApiError>)
    ensures
        outcome(r) == match first_entry_for(items@, pack_ref@) {
            Some(e) => Ok::<(usize, IndexedPack), ErrorView>(e),
            None => Err(api_err(ErrorKind::NotFound, indexed_pack_missing_message(pack_ref@))),
        },
{
    let mut i: usize = 0;
    let mut found: Option<usize> = None;
    assert(items@.skip(0) =~= items@);
    while i < items.len()
        invariant_except_break
            i <= items@.len(),
            found is None,
            first_entry_for(items@, pack_ref@) == first_entry_for(items@.skip(i as int), pack_ref@),
        ensures
            match found {
                Some(j) => j < items@.len() && first_entry_for(items@, pack_ref@) == Some(items@[j as int]),
                None => first_entry_for(items@, pack_ref@) is None,
            },
        decreases items@.len() - i,
    {
        assert(items@.skip(i as int)[0] == items@[i as int]);
        assert(items@.skip(i as int).drop_first() =~= items@.skip(i + 1));
        if str_eq(items[i].1.pack_ref.as_str(), pack_ref) {
            found = Some(i);
            break;
        }
        i = i + 1;
        if i == items.len() {
            assert(items@.skip(i as int) =~= Seq::<(usize, IndexedPack)>::empty());
        }
    }
    if items.len() == 0 {
        assert(first_entry_for(items@, pack_ref@) is None);
    }
    match found {
        Some(j) => {
            let mut items = items;
            let item = items.remove(j);
            Ok(item)
        },
        None => {
            let mut message = String::from_str("Indexed pack '");
            message.append(pack_ref);
            message.append("' not found");
            Err(ApiError::NotFound(message))
        },
    }
}

/// The first listed summary whose URL is exactly `url`.
pub open spec fn summary_at_url(summaries: Seq<PackRegistryIndexSummary>, url: Seq<char>) -> Option<
    PackRegistryIndexSummary,
>
    decreases summaries.len(),
{
    if summaries.len() == 0 {
        None
    } else if summaries[0].url@ == url {
        Some(summaries[0])
    } else {
        summary_at_url(summaries.drop_first(), url)
    }
}

fn copy_summary(s: &PackRegistryIndexSummary) -> (r: PackRegistryIndexSummary)
    ensures
        r == *s,
{
    PackRegistryIndexSummary {
        id: s.id,
        name: match &s.name {
            Some(n) => Some(n.clone()),
            None => None,
        },
        url: s.url.clone(),
        position: s.position,
    }
}

/// Finds the listed summary of the registry at `url`.
pub fn listed_summary_for(summaries: &Vec<PackRegistryIndexSummary>, url: &str) -> (r: Option<PackRegistryIndexSummary>)
    ensures
        r == summary_at_url(summaries@, url@),
{
    let mut i: usize = 0;
    assert(summaries@.skip(0) =~= summaries@);
    while i < summaries.len()
        invariant
            i <= summaries@.len(),
            summary_at_url(summaries@, url@) == summary_at_url(summaries@.skip(i as int), url@),
        decreases summaries@.len() - i,
    {
        assert(summaries@.skip(i as int)[0] == summaries@[i as int]);
        assert(summaries@.skip(i as int).drop_first() =~= summaries@.skip(i + 1));
        if str_eq(summaries[i].url.as_str(), url) {
            return Some(copy_summary(&summaries[i]));
        }
        i = i + 1;
    }
    assert(summaries@.skip(i as int) =~= Seq::<PackRegistryIndexSummary>::empty());
    None
}

} // verus!
