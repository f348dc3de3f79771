//! How a pack came to be installed: the canonical text of its checksum,
//! the provenance recorded with the install, and whether an installed
//! source is the one that a registry resolution chose.

use vstd::prelude::*;
use crate::auth::{api_err, opt_string_view, ApiError, ErrorKind, ErrorView};
use crate::packs::{
    concrete_source_metadata, get_source_type, source_metadata_spec, source_type_name, InstallSource,
    PackSource, PackSourceView, RegistryPackIdentity,
};
use crate::registry::{registry_key_of, registry_url_key, to_ascii_lowercase};
use crate::text::{ascii_lower, str_eq};

verus! {

/// A result whose text and error are replaced by their views.
pub open spec fn text_outcome(r: Result<String, ApiError>) -> Result<Seq<char>, ErrorView> {
    match r {
        Ok(s) => Ok(s@),
        Err(e) => Err(e@),
    }
}

/// Whether `c` is an ASCII hexadecimal digit.
pub open spec fn is_hex_digit(c: char) -> bool {
    ('0' <= c && c <= '9') || ('a' <= c && c <= 'f') || ('A' <= c && c <= 'F')
}

/// Whether `s` is a bare SHA-256 digest: exactly 64 hexadecimal digits.
pub open spec fn is_bare_sha256(s: Seq<char>) -> bool {
    s.len() == 64 && forall|i: int| 0 <= i < s.len() ==> is_hex_digit(#[trigger] s[i])
}

/// The error for a checksum that has no canonical form.
pub open spec fn noncanonical_checksum_message() -> Seq<char> {
    "Pack installer returned a checksum in a non-canonical format"@
}

/// The canonical text of an installer's checksum. `parsed` is what the
/// checksum parser makes of it (`None` where the parser refuses it); a
/// bare SHA-256 digest the parser refuses is prefixed with `sha256:` and
/// lower-cased; anything else is an internal error.
pub open spec fn canonical_checksum_spec(checksum: Seq<char>, parsed: Option<Seq<char>>) -> Result<
    Seq<char>,
    ErrorView,
> {
    match parsed {
        Some(p) => Ok(p),
        None => if is_bare_sha256(checksum) {
            Ok("sha256:"@ + ascii_lower(checksum))
        } else {
            Err(api_err(ErrorKind::InternalServerError, noncanonical_checksum_message()))
        },
    }
}

fn is_bare_sha256_text(s: &str) -> (b: bool)
    ensures
        b == is_bare_sha256(s@),
{
    let n = s.unicode_len();
    if n != 64 {
        return false;
    }
    let mut i: usize = 0;
    while i < n
        invariant
            n == s@.len(),
            i <= n,
            forall|j: int| 0 <= j < i ==> is_hex_digit(#[trigger] s@[j]),
        decreases n - i,
    {
        let c = s.get_char(i);
        if !(('0' <= c && c <= '9') || ('a' <= c && c <= 'f') || ('A' <= c && c <= 'F')) {
            assert(!is_hex_digit(s@[i as int]));
            return false;
        }
        i = i + 1;
    }
    true
}

/// The canonical text of the checksum an installer reported; `parsed` is
/// the checksum parser's canonical text of it, `None` where the parser
/// refused it.
pub fn canonical_pack_checksum(checksum: &str, parsed: Option<String>) -> (r: Result<String, ApiError>)
    ensures
        text_outcome(r) == canonical_checksum_spec(checksum@, opt_string_view(parsed)),
{
    if let Some(p) = parsed {
        return Ok(p);
    }
    if is_bare_sha256_text(checksum) {
        let mut out = String::from_str("sha256:");
        let lowered = to_ascii_lowercase(checksum);
        out.append(lowered.as_str());
        return Ok(out);
    }
    Err(ApiError::InternalServerError(
        String::from_str("Pack installer returned a checksum in a non-canonical format"),
    ))
}

/// What an installed pack's checksum was taken over.
#[derive(Debug, Clone, Copy, PartialEq, Eq, Structural)]
pub enum ChecksumSubject {
    ArchiveBytes,
    DirectoryContent,
}

/// A pack as the installer left it.
#[derive(Debug, PartialEq, Eq)]
pub struct InstalledPack {
    pub path: String,
    pub source: PackSource,
    pub checksum: Option<String>,
    pub checksum_subject: Option<ChecksumSubject>,
    pub checksum_verified: bool,
    pub registry_identity: Option<RegistryPackIdentity>,
}

/// A pack registry index as listed to callers.
#[derive(Debug, PartialEq, Eq)]
pub struct PackRegistryIndexSummary {
    pub id: Option<i64>,
    pub name: Option<String>,
    pub url: String,
    pub position: i32,
}

/// What is recorded about where an installed pack came from.
#[derive(Debug, PartialEq, Eq)]
pub struct PackInstallProvenance {
    pub artifact_type: String,
    pub artifact_url: Option<String>,
    pub git_ref: Option<String>,
    pub registry_id: Option<i64>,
    pub registry_url: Option<String>,
    pub resolved_pack: Option<String>,
    pub checksum: Option<String>,
    pub checksum_subject: Option<ChecksumSubject>,
    pub checksum_verified: bool,
    pub fallback_occurred: bool,
}

/// The first summary whose registry is the one with identity `key`.
pub open spec fn first_summary_for(summaries: Seq<PackRegistryIndexSummary>, key: Seq<char>) -> Option<
    PackRegistryIndexSummary,
>
    decreases summaries.len(),
{
    if summaries.len() == 0 {
        None
    } else if registry_key_of(summaries[0].url@) == key {
        Some(summaries[0])
    } else {
        first_summary_for(summaries.drop_first(), key)
    }
}

/// The id of the managed index a pack was resolved through: that of the
/// first listed index naming the same registry, when it has one.
pub open spec fn provenance_registry_id(
    identity: Option<RegistryPackIdentity>,
    summaries: Seq<PackRegistryIndexSummary>,
) -> Option<i64> {
    match identity {
        None => None,
        Some(id) => match first_summary_for(summaries, registry_key_of(id.registry_url@)) {
            Some(s) => s.id,
            None => None,
        },
    }
}

/// The registry entry a pack was resolved to, as `ref@version`.
pub open spec fn resolved_pack_text(identity: Option<RegistryPackIdentity>) -> Option<Seq<char>> {
    match identity {
        None => None,
        Some(id) => Some(id.pack_ref@ + "@"@ + id.version@),
    }
}

/// The registry a pack was resolved through.
pub open spec fn provenance_registry_url(identity: Option<RegistryPackIdentity>) -> Option<Seq<char>> {
    match identity {
        None => None,
        Some(id) => Some(id.registry_url@),
    }
}

fn registry_id_for(url: &str, summaries: &Vec<PackRegistryIndexSummary>) -> (r: Option<i64>)
    ensures
        r == match first_summary_for(summaries@, registry_key_of(url@)) {
            Some(s) => s.id,
            None => None,
        },
{
    let key = registry_url_key(url);
    let ghost k = registry_key_of(url@);
    let mut i: usize = 0;
    assert(summaries@.skip(0) =~= summaries@);
    while i < summaries.len()
        invariant
            i <= summaries@.len(),
            key@ == k,
            k == registry_key_of(url@),
            first_summary_for(summaries@, k) == first_summary_for(summaries@.skip(i as int), k),
        decreases summaries@.len() - i,
    {
        assert(summaries@.skip(i as int)[0] == summaries@[i as int]);
        assert(summaries@.skip(i as int).drop_first() =~= summaries@.skip(i + 1));
        let candidate = registry_url_key(summaries[i].url.as_str());
        if str_eq(candidate.as_str(), key.as_str()) {
            assert(first_summary_for(summaries@.skip(i as int), k) == Some(summaries@[i as int]));
            return summaries[i].id;
        }
        i = i + 1;
    }
    assert(summaries@.skip(i as int) =~= Seq::<PackRegistryIndexSummary>::empty());
    None
}

/// The provenance recorded for an installed pack: the kind and concrete
/// location of its artifact, the registry and entry it was resolved
/// through, and the checksum facts handed in.
pub fn build_pack_install_provenance(
    installed: &InstalledPack,
    registry_summaries: &Vec<PackRegistryIndexSummary>,
    checksum: Option<String>,
    checksum_subject: Option<ChecksumSubject>,
    checksum_verified: bool,
    fallback_occurred: bool,
) -> (p: PackInstallProvenance)
    ensures
        p.artifact_type@ == source_type_name(installed.source@),
        (opt_string_view(p.artifact_url), opt_string_view(p.git_ref)) == source_metadata_spec(installed.source@),
        opt_string_view(p.registry_url) == provenance_registry_url(installed.registry_identity),
        p.registry_id == provenance_registry_id(installed.registry_identity, registry_summaries@),
        opt_string_view(p.resolved_pack) == resolved_pack_text(installed.registry_identity),
        p.checksum == checksum,
        p.checksum_subject == checksum_subject,
        p.checksum_verified == checksum_verified,
        p.fallback_occurred == fallback_occurred,
{
    let (artifact_url, git_ref) = concrete_source_metadata(&installed.source);
    let (registry_url, registry_id, resolved_pack) = match &installed.registry_identity {
        Some(identity) => {
            let id = registry_id_for(identity.registry_url.as_str(), registry_summaries);
            let mut resolved = identity.pack_ref.clone();
            resolved.append("@");
            resolved.append(identity.version.as_str());
            (Some(identity.registry_url.clone()), id, Some(resolved))
        },
        None => (None, None, None),
    };
    PackInstallProvenance {
        artifact_type: String::from_str(get_source_type(&installed.source)),
        artifact_url,
        git_ref,
        registry_id,
        registry_url,
        resolved_pack,
        checksum,
        checksum_subject,
        checksum_verified,
        fallback_occurred,
    }
}

/// Whether two remote pack URLs name the same artifact: both passed
/// validation (`left` and `right` are the validated URLs, `None` where
/// validation refused one) and their canonical texts agree.
pub open spec fn equivalent_urls_spec(left: Option<Seq<char>>, right: Option<Seq<char>>) -> bool {
    match (left, right) {
        (Some(l), Some(r)) => registry_key_of(l) == registry_key_of(r),
        _ => false,
    }
}

/// Compares two validated remote pack URLs by their canonical text;
/// `None` stands for a URL that validation refused.
pub fn equivalent_remote_pack_urls(left: Option<&str>, right: Option<&str>) -> (b: bool)
    ensures
        b == equivalent_urls_spec(
            match left { Some(l) => Some(l@), None => None },
            match right { Some(r) => Some(r@), None => None },
        ),
{
    match (left, right) {
        (Some(l), Some(r)) => {
            let lk = registry_url_key(l);
            let rk = registry_url_key(r);
            str_eq(lk.as_str(), rk.as_str())
        },
        _ => false,
    }
}

/// The pack a registry search chose and the install source preferred for it.
#[derive(Debug, PartialEq, Eq)]
pub struct RegistryResolution {
    pub registry_url: String,
    pub entry_ref: String,
    pub entry_version: String,
    pub preferred_source: InstallSource,
}

/// Whether an installed source is the preferred source of a resolution:
/// the same kind, equivalent validated URLs, and for Git the same ref.
pub open spec fn resolution_matches_spec(
    preferred: InstallSource,
    installed: PackSourceView,
    expected_valid: Option<Seq<char>>,
    installed_valid: Option<Seq<char>>,
) -> bool {
    match (preferred, installed) {
        (InstallSource::Git { git_ref: expected_ref, .. }, PackSourceView::Git { git_ref, .. }) =>
            equivalent_urls_spec(expected_valid, installed_valid) && opt_string_view(expected_ref) == git_ref,
        (InstallSource::Archive { .. }, PackSourceView::Archive { .. }) =>
            equivalent_urls_spec(expected_valid, installed_valid),
        _ => false,
    }
}

fn same_opt_text(a: &Option<String>, b: &Option<String>) -> (r: bool)
    ensures
        r == (opt_string_view(*a) == opt_string_view(*b)),
{
    match (a, b) {
        (Some(x), Some(y)) => str_eq(x.as_str(), y.as_str()),
        (None, None) => true,
        _ => false,
    }
}

impl RegistryResolution {
    /// Whether `installed` is the source this resolution preferred.
    /// `expected_valid` and `installed_valid` are the two URLs as remote
    /// URL validation returned them (`None` where it refused one).
    pub fn matches(&self, installed: &PackSource, expected_valid: Option<&str>, installed_valid: Option<&str>) -> (b: bool)
        ensures
            b == resolution_matches_spec(
                self.preferred_source,
                installed@,
                match expected_valid { Some(l) => Some(l@), None => None },
                match installed_valid { Some(r) => Some(r@), None => None },
            ),
    {
        match (&self.preferred_source, installed) {
            (InstallSource::Git { git_ref: expected_ref, .. }, PackSource::Git { git_ref, .. }) => {
                equivalent_remote_pack_urls(expected_valid, installed_valid) && same_opt_text(expected_ref, git_ref)
            },
            (InstallSource::Archive { .. }, PackSource::Archive { .. }) => {
                equivalent_remote_pack_urls(expected_valid, installed_valid)
            },
            _ => false,
        }
    }
}

/// The checksum recorded for an install and what it was taken over: the
/// installer's own checksum in canonical form with its subject, else the
/// digest of the installed directory (`directory_digest`, when it could be
/// computed) as `sha256:` text over the directory content.
pub open spec fn install_checksum_spec(
    installed_checksum: Option<Seq<char>>,
    parsed: Option<Seq<char>>,
    installed_subject: Option<ChecksumSubject>,
    directory_digest: Option<Seq<char>>,
) -> Result<(Option<Seq<char>>, Option<ChecksumSubject>), ErrorView> {
    match installed_checksum {
        Some(c) => match canonical_checksum_spec(c, parsed) {
            Ok(t) => Ok((Some(t), installed_subject)),
            Err(e) => Err(e),
        },
        None => match directory_digest {
            Some(d) => Ok((Some("sha256:"@ + d), Some(ChecksumSubject::DirectoryContent))),
            None => Ok((None, None)),
        },
    }
}

/// The view of a checksum choice.
pub open spec fn checksum_choice_outcome(r: Result<(Option<String>, Option<ChecksumSubject>), ApiError>) -> Result<
    (Option<Seq<char>>, Option<ChecksumSubject>),
    ErrorView,
> {
    match r {
        Ok((c, s)) => Ok((opt_string_view(c), s)),
        Err(e) => Err(e@),
    }
}

/// Chooses the checksum recorded for an install. `parsed` is the checksum
/// parser's canonical text of the installer's checksum (`None` where it
/// refused it); `directory_digest` is the hex digest of the installed
/// directory, `None` where it could not be computed.
pub fn install_checksum(
    installed_checksum: Option<&str>,
    parsed: Option<String>,
    installed_subject: Option<ChecksumSubject>,
    directory_digest: Option<String>,
) -> (r: Result<(Option<String>, Option<ChecksumSubject>), ApiError>)
    ensures
        checksum_choice_outcome(r) == install_checksum_spec(
            match installed_checksum { Some(c) => Some(c@), None => None },
            opt_string_view(parsed),
            installed_subject,
            opt_string_view(directory_digest),
        ),
{
    match installed_checksum {
        Some(c) => {
            let canonical = canonical_pack_checksum(c, parsed)?;
            Ok((Some(canonical), installed_subject))
        },
        None => match directory_digest {
            Some(d) => {
                let mut text = String::from_str("sha256:");
                text.append(d.as_str());
                Ok((Some(text), Some(ChecksumSubject::DirectoryContent)))
            },
            None => Ok((None, None)),
        },
    }
}

/// Whether an install fell back from the source its registry resolution
/// preferred: only a registry install can, and it did when the installed
/// source is not the preferred one.
pub fn registry_fallback_occurred(
    resolution: Option<&RegistryResolution>,
    installed: &PackSource,
    expected_valid: Option<&str>,
    installed_valid: Option<&str>,
) -> (b: bool)
    ensures
        b == match resolution {
            Some(res) => !resolution_matches_spec(
                res.preferred_source,
                installed@,
                match expected_valid { Some(l) => Some(l@), None => None },
                match installed_valid { Some(r) => Some(r@), None => None },
            ),
            None => false,
        },
{
    match resolution {
        Some(res) => !res.matches(installed, expected_valid, installed_valid),
        None => false,
    }
}

} // verus!
