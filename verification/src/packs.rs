//! Pack management decisions: which tokens may run privileged pack
//! operations, where a temporary install lives, what a pack source string
//! denotes, which install source a registry entry offers, and the
//! runtimes a pack's tests need.

use vstd::prelude::*;
use crate::auth::{api_err, opt_str_view, opt_string_view, outcome, ApiError, ErrorKind, ErrorView, TokenType};
use crate::rbac::{
    action_debug_name, action_name, contains_action, has_unconstrained_resource_action, unconstrained_action_exists,
    Action, Grant, Resource,
};
use crate::text::{
    contains_seq, contains_str, copy_strings, ends_with, find_char, has_prefix, has_suffix, starts_with,
    str_eq, string_views,
};

verus! {

/// The error of a pack operation that needs an access token.
pub open spec fn access_token_required_message() -> Seq<char> {
    "This pack operation requires an access token"@
}

/// Privileged pack operations are open to access tokens only.
pub fn require_pack_access_token(token_type: &TokenType) -> (r: Result<(), ApiError>)
    ensures
        outcome(r) == if *token_type == TokenType::Access {
            Ok::<(), ErrorView>(())
        } else {
            Err(api_err(ErrorKind::Forbidden, access_token_required_message()))
        },
{
    if *token_type != TokenType::Access {
        return Err(ApiError::Forbidden(String::from_str("This pack operation requires an access token")));
    }
    Ok(())
}

/// The error when registry credentials cannot be stored.
pub open spec fn missing_encryption_key_message() -> Seq<char> {
    "Cannot store registry credentials without security.encryption_key"@
}

/// The configured encryption key that protects registry credentials.
pub fn registry_encryption_key(encryption_key: Option<&str>) -> (r: Result<&str, ApiError>)
    ensures
        match encryption_key {
            Some(k) => r matches Ok(v) && v@ == k@,
            None => outcome(r) == Err::<&str, ErrorView>(
                api_err(ErrorKind::InternalServerError, missing_encryption_key_message()),
            ),
        },
{
    match encryption_key {
        Some(k) => Ok(k),
        None => Err(ApiError::InternalServerError(
            String::from_str("Cannot store registry credentials without security.encryption_key"),
        )),
    }
}

/// The directory, under the temporary base directory, that holds every
/// pack install in progress.
pub open spec fn managed_install_root(temp_base_dir: Seq<Seq<char>>) -> Seq<Seq<char>> {
    temp_base_dir.push("pack-installs"@)
}

/// The install directory to remove when an install is abandoned: the first
/// component below the managed root on the way to the pack, or nothing when
/// the pack does not lie strictly below the managed root.
pub open spec fn install_cleanup_root(temp_base_dir: Seq<Seq<char>>, pack_path: Seq<Seq<char>>) -> Option<
    Seq<Seq<char>>,
> {
    let managed = managed_install_root(temp_base_dir);
    if managed.len() < pack_path.len() && pack_path.take(managed.len() as int) == managed {
        Some(managed.push(pack_path[managed.len() as int]))
    } else {
        None
    }
}

/// Removes a temporary pack install directory unless disarmed; paths are
/// sequences of path components.
#[derive(Debug)]
pub struct TemporaryInstallCleanup {
    root: Option<Vec<String>>,
}

impl TemporaryInstallCleanup {
    /// The directory this guard would remove, if any.
    pub closed spec fn root_view(&self) -> Option<Seq<Seq<char>>> {
        match self.root {
            Some(r) => Some(string_views(r@)),
            None => None,
        }
    }

    /// Guards the install root of `pack_path` under `temp_base_dir`.
    pub fn new(temp_base_dir: &Vec<String>, pack_path: &Vec<String>) -> (c: TemporaryInstallCleanup)
        ensures
            c.root_view() == install_cleanup_root(string_views(temp_base_dir@), string_views(pack_path@)),
    {
        let ghost base = string_views(temp_base_dir@);
        let ghost path = string_views(pack_path@);
        let n = temp_base_dir.len();
        if n >= pack_path.len() || pack_path.len() - n < 2 {
            proof {
                assert(!(managed_install_root(base).len() < path.len()));
            }
            return TemporaryInstallCleanup { root: None };
        }
        let mut i: usize = 0;
        while i < n
            invariant
                i <= n,
                n == temp_base_dir.len(),
                n + 2 <= pack_path.len(),
                base == string_views(temp_base_dir@),
                path == string_views(pack_path@),
                forall|j: int| 0 <= j < i ==> base[j] == path[j],
            decreases n - i,
        {
            if !str_eq(temp_base_dir[i].as_str(), pack_path[i].as_str()) {
                proof {
                    assert(path.take((n + 1) as int)[i as int] != managed_install_root(base)[i as int]);
                }
                return TemporaryInstallCleanup { root: None };
            }
            i = i + 1;
        }
        if !str_eq(pack_path[n].as_str(), "pack-installs") {
            proof {
                assert(path.take((n + 1) as int)[n as int] != managed_install_root(base)[n as int]);
            }
            return TemporaryInstallCleanup { root: None };
        }
        let mut root = copy_strings(temp_base_dir);
        root.push(String::from_str("pack-installs"));
        root.push(pack_path[n + 1].clone());
        proof {
            assert(path.take((n + 1) as int) =~= managed_install_root(base));
            assert(string_views(root@) =~= managed_install_root(base).push(path[n + 1]));
        }
        TemporaryInstallCleanup { root: Some(root) }
    }

    /// Keeps the install directory: nothing is removed afterwards.
    pub fn disarm(&mut self)
        ensures
            final(self).root_view() is None,
    {
        self.root = None;
    }

    /// The directory that would be removed, as path components.
    pub fn root(&self) -> (r: Option<Vec<String>>)
        ensures
            match r {
                Some(v) => self.root_view() == Some(string_views(v@)),
                None => self.root_view() is None,
            },
    {
        match &self.root {
            Some(r) => Some(copy_strings(r)),
            None => None,
        }
    }

    /// The directory still to be removed, as path components.
    pub fn into_root(self) -> (r: Option<Vec<String>>)
        ensures
            match r {
                Some(v) => self.root_view() == Some(string_views(v@)),
                None => self.root_view() is None,
            },
    {
        self.root
    }
}

/// Whether a test runner type needs a Python interpreter.
pub open spec fn runner_needs_python(runner_type: Seq<char>) -> bool {
    runner_type == "unittest"@ || runner_type == "pytest"@
}

/// The runtimes a worker must provide for a pack's tests: `python` when
/// some runner is `unittest` or `pytest`, nothing otherwise.
pub open spec fn required_runtimes_spec(runner_types: Seq<Seq<char>>) -> Seq<Seq<char>> {
    if exists|i: int| 0 <= i < runner_types.len() && runner_needs_python(runner_types[i]) {
        seq!["python"@]
    } else {
        Seq::empty()
    }
}

/// Derives the runtimes a worker must provide to run a pack's tests from the
/// types of the test runners.
pub fn required_runtimes_for_test_config(runner_types: &Vec<String>) -> (r: Vec<String>)
    ensures
        string_views(r@) == required_runtimes_spec(string_views(runner_types@)),
{
    let ghost types = string_views(runner_types@);
    let mut i: usize = 0;
    while i < runner_types.len()
        invariant
            i <= runner_types.len(),
            types == string_views(runner_types@),
            forall|j: int| 0 <= j < i ==> !runner_needs_python(types[j]),
        decreases runner_types.len() - i,
    {
        let t = runner_types[i].as_str();
        if str_eq(t, "unittest") || str_eq(t, "pytest") {
            let mut r: Vec<String> = Vec::new();
            r.push(String::from_str("python"));
            proof {
                assert(runner_needs_python(types[i as int]));
                assert(string_views(r@) =~= seq!["python"@]);
            }
            return r;
        }
        i = i + 1;
    }
    let r: Vec<String> = Vec::new();
    assert(string_views(r@) =~= Seq::<Seq<char>>::empty());
    r
}

/// The registry entry a pack was resolved from.
#[derive(Debug, PartialEq, Eq)]
pub struct RegistryPackIdentity {
    pub pack_ref: String,
    pub version: String,
    pub registry_url: String,
}

/// The error when a downloaded manifest differs from its registry entry.
pub open spec fn manifest_mismatch_message(
    entry_ref: Seq<char>,
    entry_version: Seq<char>,
    manifest_ref: Seq<char>,
    manifest_version: Seq<char>,
) -> Seq<char> {
    "Registry entry "@ + entry_ref + "@"@ + entry_version + " does not match downloaded manifest "@
        + manifest_ref + "@"@ + manifest_version
}

/// A pack downloaded through a registry must carry the ref and version of
/// its registry entry.
pub fn validate_registry_manifest_identity(
    identity: Option<&RegistryPackIdentity>,
    manifest_ref: &str,
    manifest_version: &str,
) -> (r: Result<(), ApiError>)
    ensures
        outcome(r) == match identity {
            Some(id) => if id.pack_ref@ == manifest_ref@ && id.version@ == manifest_version@ {
                Ok::<(), ErrorView>(())
            } else {
                Err(api_err(
                    ErrorKind::BadRequest,
                    manifest_mismatch_message(id.pack_ref@, id.version@, manifest_ref@, manifest_version@),
                ))
            },
            None => Ok(()),
        },
{
    if let Some(identity) = identity {
        if !str_eq(identity.pack_ref.as_str(), manifest_ref) || !str_eq(identity.version.as_str(), manifest_version) {
            let mut message = String::from_str("Registry entry ");
            message.append(identity.pack_ref.as_str());
            message.append("@");
            message.append(identity.version.as_str());
            message.append(" does not match downloaded manifest ");
            message.append(manifest_ref);
            message.append("@");
            message.append(manifest_version);
            return Err(ApiError::BadRequest(message));
        }
    }
    Ok(())
}

/// Where a pack's files come from.
#[derive(Debug, PartialEq, Eq)]
pub enum PackSource {
    Git { url: String, git_ref: Option<String> },
    Archive { url: String },
    LocalDirectory { path: String },
    LocalArchive { path: String },
    Registry { pack_ref: String, version: Option<String> },
}

/// Mathematical view of a [`PackSource`].
pub enum PackSourceView {
    Git { url: Seq<char>, git_ref: Option<Seq<char>> },
    Archive { url: Seq<char> },
    LocalDirectory { path: Seq<char> },
    LocalArchive { path: Seq<char> },
    Registry { pack_ref: Seq<char>, version: Option<Seq<char>> },
}

impl View for PackSource {
    type V = PackSourceView;

    open spec fn view(&self) -> PackSourceView {
        match self {
            PackSource::Git { url, git_ref } => PackSourceView::Git { url: url@, git_ref: opt_string_view(*git_ref) },
            PackSource::Archive { url } => PackSourceView::Archive { url: url@ },
            PackSource::LocalDirectory { path } => PackSourceView::LocalDirectory { path: path@ },
            PackSource::LocalArchive { path } => PackSourceView::LocalArchive { path: path@ },
            PackSource::Registry { pack_ref, version } => PackSourceView::Registry {
                pack_ref: pack_ref@,
                version: opt_string_view(*version),
            },
        }
    }
}

/// The name recorded for a kind of pack source.
pub open spec fn source_type_name(source: PackSourceView) -> Seq<char> {
    match source {
        PackSourceView::Git { .. } => "git"@,
        PackSourceView::Archive { .. } => "archive"@,
        PackSourceView::LocalDirectory { .. } => "local_directory"@,
        PackSourceView::LocalArchive { .. } => "local_archive"@,
        PackSourceView::Registry { .. } => "registry"@,
    }
}

/// The name recorded for the kind of `source`.
pub fn get_source_type(source: &PackSource) -> (r: &'static str)
    ensures
        r@ == source_type_name(source@),
{
    match source {
        PackSource::Git { .. } => "git",
        PackSource::Archive { .. } => "archive",
        PackSource::LocalDirectory { .. } => "local_directory",
        PackSource::LocalArchive { .. } => "local_archive",
        PackSource::Registry { .. } => "registry",
    }
}

fn copy_opt_string(o: &Option<String>) -> (r: Option<String>)
    ensures
        opt_string_view(r) == opt_string_view(*o),
{
    match o {
        Some(s) => Some(s.clone()),
        None => None,
    }
}

/// The concrete artifact location (URL or path) and Git ref of a source;
/// a registry reference has neither.
pub open spec fn source_metadata_spec(source: PackSourceView) -> (Option<Seq<char>>, Option<Seq<char>>) {
    match source {
        PackSourceView::Git { url, git_ref } => (Some(url), git_ref),
        PackSourceView::Archive { url } => (Some(url), None),
        PackSourceView::LocalDirectory { path } => (Some(path), None),
        PackSourceView::LocalArchive { path } => (Some(path), None),
        PackSourceView::Registry { .. } => (None, None),
    }
}

/// Extracts the concrete artifact location and Git ref of a source.
pub fn concrete_source_metadata(source: &PackSource) -> (r: (Option<String>, Option<String>))
    ensures
        (opt_string_view(r.0), opt_string_view(r.1)) == source_metadata_spec(source@),
{
    match source {
        PackSource::Git { url, git_ref } => (Some(url.clone()), copy_opt_string(git_ref)),
        PackSource::Archive { url } => (Some(url.clone()), None),
        PackSource::LocalDirectory { path } => (Some(path.clone()), None),
        PackSource::LocalArchive { path } => (Some(path.clone()), None),
        PackSource::Registry { .. } => (None, None),
    }
}

/// What the local filesystem holds at the path named by a source string.
#[derive(Debug, Clone, Copy, PartialEq, Eq, Structural)]
pub enum LocalPathKind {
    File,
    Directory,
}

/// A pack source string, classified: an HTTP(S) URL still to be validated,
/// or a source that is already fully known.
#[derive(Debug, PartialEq, Eq)]
pub enum PackSourceClass {
    RemoteUrl,
    Resolved(PackSource),
}

/// Mathematical view of a [`PackSourceClass`].
pub enum PackSourceClassView {
    RemoteUrl,
    Resolved(PackSourceView),
}

/// The view of a classification result.
pub open spec fn class_outcome(r: Result<PackSourceClass, ApiError>) -> Result<PackSourceClassView, ErrorView> {
    match r {
        Ok(PackSourceClass::RemoteUrl) => Ok(PackSourceClassView::RemoteUrl),
        Ok(PackSourceClass::Resolved(s)) => Ok(PackSourceClassView::Resolved(s@)),
        Err(e) => Err(e@),
    }
}

/// Whether `i` is the position of the first `@` in `s`.
pub open spec fn is_first_at(s: Seq<char>, i: int) -> bool {
    0 <= i < s.len() && s[i] == '@' && forall|j: int| 0 <= j < i ==> s[j] != '@'
}

/// A registry reference `pack` or `pack@version`, split at the first `@`.
pub open spec fn registry_reference(s: Seq<char>) -> PackSourceView {
    if s.contains('@') {
        let i = choose|i: int| is_first_at(s, i);
        PackSourceView::Registry { pack_ref: s.take(i), version: Some(s.skip(i + 1)) }
    } else {
        PackSourceView::Registry { pack_ref: s, version: None }
    }
}

/// The error for Git transports other than HTTPS.
pub open spec fn git_transport_message() -> Seq<char> {
    "Remote Git pack sources must use an approved HTTPS URL"@
}

/// The error for URL schemes other than HTTP(S).
pub open spec fn unsupported_scheme_message() -> Seq<char> {
    "Unsupported remote pack source scheme"@
}

/// The error for a bare reference where registries may not be consulted.
pub open spec fn registry_not_allowed_message() -> Seq<char> {
    "Source is not an explicit remote URL or existing local path"@
}

/// How a pack source string is read: HTTP(S) URLs are remote; SCP-style
/// `git@host:path` and `git://` sources are refused; an existing local
/// path is a local archive (file) or directory; any other `scheme://` is
/// refused; the rest is a registry reference when registries are allowed.
pub open spec fn pack_source_class_spec(
    source: Seq<char>,
    allow_registry: bool,
    local: Option<LocalPathKind>,
) -> Result<PackSourceClassView, ErrorView> {
    if has_prefix(source, "http://"@) || has_prefix(source, "https://"@) {
        Ok(PackSourceClassView::RemoteUrl)
    } else if (has_prefix(source, "git@"@) && source.contains(':')) || contains_seq(source, "git://"@) {
        Err(api_err(ErrorKind::BadRequest, git_transport_message()))
    } else {
        match local {
            Some(LocalPathKind::File) => Ok(
                PackSourceClassView::Resolved(PackSourceView::LocalArchive { path: source }),
            ),
            Some(LocalPathKind::Directory) => Ok(
                PackSourceClassView::Resolved(PackSourceView::LocalDirectory { path: source }),
            ),
            None => if contains_seq(source, "://"@) {
                Err(api_err(ErrorKind::BadRequest, unsupported_scheme_message()))
            } else if !allow_registry {
                Err(api_err(ErrorKind::BadRequest, registry_not_allowed_message()))
            } else {
                Ok(PackSourceClassView::Resolved(registry_reference(source)))
            },
        }
    }
}

/// Classifies a pack source string; `local` is what the filesystem holds
/// at that path, if anything.
pub fn detect_pack_source(source: &str, allow_registry: bool, local: Option<LocalPathKind>) -> (r: Result<
    PackSourceClass,
    ApiError,
>)
    ensures
        class_outcome(r) == pack_source_class_spec(source@, allow_registry, local),
{
    if starts_with(source, "http://") || starts_with(source, "https://") {
        return Ok(PackSourceClass::RemoteUrl);
    }
    let colon = find_char(source, ':');
    if (starts_with(source, "git@") && colon.is_some()) || contains_str(source, "git://") {
        return Err(ApiError::BadRequest(String::from_str("Remote Git pack sources must use an approved HTTPS URL")));
    }
    proof {
        if source@.contains(':') {
            let k = choose|k: int| 0 <= k < source@.len() && source@[k] == ':';
            assert(colon is Some);
        }
    }
    match local {
        Some(LocalPathKind::File) => {
            return Ok(PackSourceClass::Resolved(PackSource::LocalArchive { path: source.to_string() }));
        },
        Some(LocalPathKind::Directory) => {
            return Ok(PackSourceClass::Resolved(PackSource::LocalDirectory { path: source.to_string() }));
        },
        None => {},
    }
    if contains_str(source, "://") {
        return Err(ApiError::BadRequest(String::from_str("Unsupported remote pack source scheme")));
    }
    if !allow_registry {
        return Err(ApiError::BadRequest(String::from_str("Source is not an explicit remote URL or existing local path")));
    }
    match find_char(source, '@') {
        Some(i) => {
            let n = source.unicode_len();
            let pack_ref = source.substring_char(0, i);
            let version = source.substring_char(i + 1, n);
            proof {
                assert(source@.contains('@')) by {
                    assert(source@[i as int] == '@');
                }
                let c = choose|c: int| is_first_at(source@, c);
                assert(is_first_at(source@, i as int));
                if c < i {
                    assert(source@[c] != '@');
                } else if c > i {
                    assert(source@[i as int] != '@');
                }
                assert(pack_ref@ =~= source@.take(i as int));
                assert(version@ =~= source@.skip(i + 1));
            }
            Ok(PackSourceClass::Resolved(PackSource::Registry {
                pack_ref: pack_ref.to_string(),
                version: Some(version.to_string()),
            }))
        },
        None => {
            proof {
                if source@.contains('@') {
                    let k = choose|k: int| 0 <= k < source@.len() && source@[k] == '@';
                    assert(source@[k] != '@');
                }
            }
            Ok(PackSourceClass::Resolved(PackSource::Registry { pack_ref: source.to_string(), version: None }))
        },
    }
}

/// The source for a validated remote URL: Git when the URL path ends in
/// `.git` or a Git ref was requested, an archive otherwise.
pub fn remote_pack_source(validated_url: String, validated_path: &str, ref_spec: Option<&str>) -> (r: PackSource)
    ensures
        r@ == if has_suffix(validated_path@, ".git"@) || ref_spec is Some {
            PackSourceView::Git { url: validated_url@, git_ref: opt_str_view(ref_spec) }
        } else {
            PackSourceView::Archive { url: validated_url@ }
        },
{
    if ends_with(validated_path, ".git") || ref_spec.is_some() {
        let git_ref = match ref_spec {
            Some(r) => Some(r.to_string()),
            None => None,
        };
        PackSource::Git { url: validated_url, git_ref }
    } else {
        PackSource::Archive { url: validated_url }
    }
}

/// The error when a registry holds another version than was requested.
pub open spec fn version_not_found_message(pack_ref: Seq<char>, requested: Seq<char>, available: Seq<char>) -> Seq<char> {
    "Pack "@ + pack_ref + " version "@ + requested + " not found (available: "@ + available + ")"@
}

/// A requested registry version must be `latest` or the version the
/// registry offers.
pub fn check_requested_version(pack_ref: &str, requested: Option<&str>, available: &str) -> (r: Result<(), ApiError>)
    ensures
        outcome(r) == match requested {
            Some(v) => if v@ != "latest"@ && v@ != available@ {
                Err(api_err(ErrorKind::BadRequest, version_not_found_message(pack_ref@, v@, available@)))
            } else {
                Ok::<(), ErrorView>(())
            },
            None => Ok(()),
        },
{
    if let Some(v) = requested {
        if !str_eq(v, "latest") && !str_eq(v, available) {
            let mut message = String::from_str("Pack ");
            message.append(pack_ref);
            message.append(" version ");
            message.append(v);
            message.append(" not found (available: ");
            message.append(available);
            message.append(")");
            return Err(ApiError::BadRequest(message));
        }
    }
    Ok(())
}

/// A way a registry entry offers its pack.
#[derive(Debug, PartialEq, Eq)]
pub enum InstallSource {
    Git { url: String, git_ref: Option<String> },
    Archive { url: String },
}

/// Whether an install source is a Git repository.
pub open spec fn is_git_source(s: InstallSource) -> bool {
    s is Git
}

/// The error for a registry entry with no install source.
pub open spec fn no_install_sources_message(pack_ref: Seq<char>) -> Seq<char> {
    "Pack "@ + pack_ref + " has no install sources"@
}

/// The install source preferred for a registry entry: its first Git
/// source, else its first archive.
pub open spec fn preferred_source_index(sources: Seq<InstallSource>) -> Option<int> {
    if exists|i: int| 0 <= i < sources.len() && is_git_source(sources[i]) {
        Some(choose|i: int| 0 <= i < sources.len() && is_git_source(sources[i])
            && forall|j: int| 0 <= j < i ==> !is_git_source(sources[j]))
    } else if sources.len() > 0 {
        Some(0)
    } else {
        None
    }
}

fn copy_install_source(s: &InstallSource) -> (r: InstallSource)
    ensures
        r == *s,
{
    match s {
        InstallSource::Git { url, git_ref } => {
            let g = match git_ref {
                Some(x) => Some(x.clone()),
                None => None,
            };
            InstallSource::Git { url: url.clone(), git_ref: g }
        },
        InstallSource::Archive { url } => InstallSource::Archive { url: url.clone() },
    }
}

/// Picks the install source of a registry entry: the first Git source,
/// else the first archive, else an error.
pub fn preferred_install_source(pack_ref: &str, sources: &Vec<InstallSource>) -> (r: Result<InstallSource, ApiError>)
    ensures
        match preferred_source_index(sources@) {
            Some(i) => r == Ok::<InstallSource, ApiError>(sources@[i]),
            None => outcome(r) == Err::<InstallSource, ErrorView>(
                api_err(ErrorKind::BadRequest, no_install_sources_message(pack_ref@)),
            ),
        },
{
    let mut i: usize = 0;
    while i < sources.len()
        invariant
            i <= sources.len(),
            forall|j: int| 0 <= j < i ==> !is_git_source(sources@[j]),
        decreases sources.len() - i,
    {
        if matches!(sources[i], InstallSource::Git { .. }) {
            proof {
                assert(is_git_source(sources@[i as int]));
                let c = choose|c: int| 0 <= c < sources@.len() && is_git_source(sources@[c])
                    && forall|j: int| 0 <= j < c ==> !is_git_source(sources@[j]);
                if c < i {
                    assert(!is_git_source(sources@[c]));
                } else if c > i {
                    assert(!is_git_source(sources@[i as int]));
                }
            }
            return Ok(copy_install_source(&sources[i]));
        }
        i = i + 1;
    }
    if sources.len() > 0 {
        return Ok(copy_install_source(&sources[0]));
    }
    let mut message = String::from_str("Pack ");
    message.append(pack_ref);
    message.append(" has no install sources");
    Err(ApiError::BadRequest(message))
}

/// Whether constraints name particular packs or owners.
pub open spec fn pack_scoped_constraints(g: Grant) -> bool {
    g.constraints is Some && {
        let c = g.constraints->0;
        c.owner is Some || c.pack_refs is Some || c.refs is Some || c.ids is Some
    }
}

/// Whether a grant may decide `action` on a pack installed by someone
/// else: a pack-scoped grant on packs that lists the action.
pub open spec fn other_owner_pack_grant(g: Grant, action: Action) -> bool {
    g.resource == Resource::Packs && g.actions@.contains(action) && pack_scoped_constraints(g)
}

/// Whether some pack-scoped grant lists `action` and allows it in the
/// pack's authorization context (`grant_allows[i]` for `grants[i]`).
pub open spec fn constrained_pack_grants_allow(grants: Seq<Grant>, action: Action, grant_allows: Seq<bool>) -> bool {
    exists|i: int| 0 <= i < grants.len() && other_owner_pack_grant(grants[i], action) && grant_allows[i]
}

/// Whether a pack-scoped grant allows `action` on a pack installed by
/// someone else; `grant_allows[i]` tells whether `grants[i]` allows it in
/// the pack's authorization context.
pub fn constrained_pack_grant_allows(grants: &Vec<Grant>, action: Action, grant_allows: &Vec<bool>) -> (b: bool)
    requires
        grant_allows.len() == grants.len(),
    ensures
        b == constrained_pack_grants_allow(grants@, action, grant_allows@),
{
    let mut i: usize = 0;
    while i < grants.len()
        invariant
            i <= grants.len(),
            grant_allows.len() == grants.len(),
            forall|j: int| 0 <= j < i ==> !(other_owner_pack_grant(#[trigger] grants@[j], action) && grant_allows@[j]),
        decreases grants.len() - i,
    {
        let g = &grants[i];
        if let Some(c) = &g.constraints {
            let scoped = c.owner.is_some() || c.pack_refs.is_some() || c.refs.is_some() || c.ids.is_some();
            if g.resource == Resource::Packs && contains_action(&g.actions, action) && scoped && grant_allows[i] {
                assert(other_owner_pack_grant(grants@[i as int], action));
                return true;
            }
        }
        i = i + 1;
    }
    false
}

/// Whether `action` is allowed on a pack: standard packs always; packs
/// installed by someone else only through a pack-scoped grant; otherwise
/// as the grants decide for the caller (`service_allows`).
pub open spec fn pack_action_allowed_spec(
    is_standard: bool,
    installed_by: Option<i64>,
    identity_id: i64,
    grants: Seq<Grant>,
    action: Action,
    grant_allows: Seq<bool>,
    service_allows: bool,
) -> bool {
    if is_standard {
        true
    } else if installed_by is Some && installed_by != Some(identity_id) {
        constrained_pack_grants_allow(grants, action, grant_allows)
    } else {
        service_allows
    }
}

/// Decides whether the caller may perform `action` on a pack.
pub fn pack_action_allowed(
    is_standard: bool,
    installed_by: Option<i64>,
    identity_id: i64,
    grants: &Vec<Grant>,
    action: Action,
    grant_allows: &Vec<bool>,
    service_allows: bool,
) -> (b: bool)
    requires
        grant_allows.len() == grants.len(),
    ensures
        b == pack_action_allowed_spec(is_standard, installed_by, identity_id, grants@, action, grant_allows@, service_allows),
{
    if is_standard {
        return true;
    }
    if installed_by.is_some() && installed_by != Some(identity_id) {
        return constrained_pack_grant_allows(grants, action, grant_allows);
    }
    service_allows
}

/// A header sent to a pack registry.
#[derive(Debug, PartialEq, Eq)]
pub struct RegistryHeader {
    pub name: String,
    pub value: String,
}

/// The views of a list of headers, as (name, value) pairs.
pub open spec fn header_views(h: Seq<RegistryHeader>) -> Seq<(Seq<char>, Seq<char>)> {
    h.map_values(|x: RegistryHeader| (x.name@, x.value@))
}

/// The value that stands for a stored secret in requests and responses.
pub open spec fn redacted_marker() -> Seq<char> {
    "[REDACTED]"@
}

/// The stored value of the header called `name`, if any.
pub open spec fn stored_header(existing: Seq<(Seq<char>, Seq<char>)>, name: Seq<char>) -> Option<Seq<char>>
    decreases existing.len(),
{
    if existing.len() == 0 {
        None
    } else if existing[0].0 == name {
        Some(existing[0].1)
    } else {
        stored_header(existing.skip(1), name)
    }
}

/// Requested headers with each redacted value replaced by the stored value
/// of the same header; the name of the first redacted header with no
/// stored value is the error.
pub open spec fn restore_headers_spec(
    requested: Seq<(Seq<char>, Seq<char>)>,
    existing: Seq<(Seq<char>, Seq<char>)>,
) -> Result<Seq<(Seq<char>, Seq<char>)>, Seq<char>>
    decreases requested.len(),
{
    if requested.len() == 0 {
        Ok(Seq::empty())
    } else {
        match restore_headers_spec(requested.drop_last(), existing) {
            Err(name) => Err(name),
            Ok(prev) => {
                let h = requested.last();
                if h.1 == redacted_marker() {
                    match stored_header(existing, h.0) {
                        Some(v) => Ok(prev.push((h.0, v))),
                        None => Err(h.0),
                    }
                } else {
                    Ok(prev.push(h))
                }
            },
        }
    }
}

/// The error for a redacted header that has nothing to restore.
pub open spec fn unrestorable_header_message(name: Seq<char>) -> Seq<char> {
    "Redacted registry header '"@ + name + "' has no existing value"@
}

fn find_stored_header(existing: &Vec<RegistryHeader>, name: &str) -> (r: Option<String>)
    ensures
        opt_string_view(r) == stored_header(header_views(existing@), name@),
{
    let ghost ex = header_views(existing@);
    assert(ex.skip(0) =~= ex);
    let mut i: usize = 0;
    while i < existing.len()
        invariant
            i <= existing.len(),
            ex == header_views(existing@),
            stored_header(ex, name@) == stored_header(ex.skip(i as int), name@),
        decreases existing.len() - i,
    {
        proof {
            assert(ex.skip(i as int).skip(1) =~= ex.skip(i + 1));
            assert(ex.skip(i as int)[0] == ex[i as int]);
        }
        if str_eq(existing[i].name.as_str(), name) {
            return Some(existing[i].value.clone());
        }
        i = i + 1;
    }
    assert(ex.skip(i as int) =~= Seq::<(Seq<char>, Seq<char>)>::empty());
    None
}

/// Replaces each redacted header value by the stored value of the same
/// header, so that a client can resubmit headers it only saw redacted.
pub fn restore_redacted_headers(requested: &Vec<RegistryHeader>, existing: &Vec<RegistryHeader>) -> (r: Result<
    Vec<RegistryHeader>,
    ApiError,
>)
    ensures
        match restore_headers_spec(header_views(requested@), header_views(existing@)) {
            Ok(h) => r is Ok && header_views(r->Ok_0@) == h,
            Err(name) => outcome(r) == Err::<Vec<RegistryHeader>, ErrorView>(
                api_err(ErrorKind::BadRequest, unrestorable_header_message(name)),
            ),
        },
{
    let ghost req = header_views(requested@);
    let ghost ex = header_views(existing@);
    let mut out: Vec<RegistryHeader> = Vec::new();
    assert(req.take(0) =~= Seq::<(Seq<char>, Seq<char>)>::empty());
    assert(header_views(out@) =~= Seq::<(Seq<char>, Seq<char>)>::empty());
    let mut i: usize = 0;
    while i < requested.len()
        invariant
            i <= requested.len(),
            req == header_views(requested@),
            ex == header_views(existing@),
            restore_headers_spec(req.take(i as int), ex) == Ok::<Seq<(Seq<char>, Seq<char>)>, Seq<char>>(
                header_views(out@),
            ),
        decreases requested.len() - i,
    {
        proof {
            assert(req.take(i + 1).drop_last() =~= req.take(i as int));
            assert(req.take(i + 1).last() == req[i as int]);
        }
        let ghost before = out@;
        let h = &requested[i];
        if str_eq(h.value.as_str(), "[REDACTED]") {
            match find_stored_header(existing, h.name.as_str()) {
                Some(v) => {
                    out.push(RegistryHeader { name: h.name.clone(), value: v });
                    assert(header_views(out@) =~= header_views(before).push((req[i as int].0, header_views(out@).last().1)));
                },
                None => {
                    proof {
                        assert(restore_headers_spec(req.take(i + 1), ex) == Err::<Seq<(Seq<char>, Seq<char>)>, Seq<char>>(req[i as int].0));
                        lemma_restore_error_persists(req, ex, i as int + 1);
                        assert(req.take(req.len() as int) =~= req);
                    }
                    let mut message = String::from_str("Redacted registry header '");
                    message.append(h.name.as_str());
                    message.append("' has no existing value");
                    return Err(ApiError::BadRequest(message));
                },
            }
        } else {
            out.push(RegistryHeader { name: h.name.clone(), value: h.value.clone() });
            assert(header_views(out@) =~= header_views(before).push(req[i as int]));
        }
        i = i + 1;
    }
    assert(req.take(requested.len() as int) =~= req);
    Ok(out)
}

proof fn lemma_restore_error_persists(req: Seq<(Seq<char>, Seq<char>)>, ex: Seq<(Seq<char>, Seq<char>)>, k: int)
    requires
        0 <= k <= req.len(),
        restore_headers_spec(req.take(k), ex) is Err,
    ensures
        restore_headers_spec(req.take(req.len() as int), ex) == restore_headers_spec(req.take(k), ex),
    decreases req.len() - k,
{
    if k < req.len() {
        assert(req.take(k + 1).drop_last() =~= req.take(k));
        lemma_restore_error_persists(req, ex, k + 1);
    }
}

/// The view of a validation outcome: its error message, if any.
pub open spec fn check_view(c: Result<(), String>) -> Result<(), Seq<char>> {
    match c {
        Ok(_) => Ok(()),
        Err(e) => Err(e@),
    }
}

/// The error for a requested pack ref that fails validation.
pub open spec fn invalid_pack_ref_message(error: Seq<char>) -> Seq<char> {
    "Invalid pack ref: "@ + error
}

/// The error for a stored pack ref that fails validation.
pub open spec fn invalid_persisted_ref_message(error: Seq<char>) -> Seq<char> {
    "Persisted pack ref is invalid: "@ + error
}

/// The error when the requested and stored refs of a pack differ.
pub open spec fn removal_ref_mismatch_message() -> Seq<char> {
    "Requested and persisted pack refs do not match"@
}

/// The ref under which a pack's files are removed: the stored ref, once
/// the requested and the stored ref both passed validation and agree.
pub open spec fn removal_ref_spec(
    requested: Seq<char>,
    persisted: Seq<char>,
    requested_check: Result<(), Seq<char>>,
    persisted_check: Result<(), Seq<char>>,
) -> Result<Seq<char>, ErrorView> {
    match requested_check {
        Err(e) => Err(api_err(ErrorKind::BadRequest, invalid_pack_ref_message(e))),
        Ok(_) => match persisted_check {
            Err(e) => Err(api_err(ErrorKind::InternalServerError, invalid_persisted_ref_message(e))),
            Ok(_) => if requested == persisted {
                Ok(persisted)
            } else {
                Err(api_err(ErrorKind::InternalServerError, removal_ref_mismatch_message()))
            },
        },
    }
}

/// Checks the ref under which a pack is removed from storage.
/// `requested_check` and `persisted_check` are the pack-ref validator's
/// verdicts on the two refs.
pub fn validated_pack_removal_ref<'a>(
    requested_ref: &str,
    persisted_ref: &'a str,
    requested_check: Result<(), String>,
    persisted_check: Result<(), String>,
) -> (r: Result<&'a str, ApiError>)
    ensures
        match r {
            Ok(s) => removal_ref_spec(requested_ref@, persisted_ref@, check_view(requested_check), check_view(persisted_check))
                == Ok::<Seq<char>, ErrorView>(s@),
            Err(e) => removal_ref_spec(requested_ref@, persisted_ref@, check_view(requested_check), check_view(persisted_check))
                == Err::<Seq<char>, ErrorView>(e@),
        },
{
    if let Err(e) = requested_check {
        let mut message = String::from_str("Invalid pack ref: ");
        message.append(e.as_str());
        return Err(ApiError::BadRequest(message));
    }
    if let Err(e) = persisted_check {
        let mut message = String::from_str("Persisted pack ref is invalid: ");
        message.append(e.as_str());
        return Err(ApiError::InternalServerError(message));
    }
    if !str_eq(requested_ref, persisted_ref) {
        return Err(ApiError::InternalServerError(String::from_str("Requested and persisted pack refs do not match")));
    }
    Ok(persisted_ref)
}

/// The error when global pack index administration lacks an
/// unconstrained grant.
pub open spec fn global_index_denied_message(action: Action) -> Seq<char> {
    "Global pack index access requires an unconstrained Packs "@ + action_name(action) + " grant"@
}

/// Administration of the global pack index: an access token whose grants
/// include an unconstrained Packs grant for `action`.
pub fn authorize_global_pack_registry_action(
    token_type: &TokenType,
    grants: &Vec<Grant>,
    action: Action,
) -> (r: Result<(), ApiError>)
    ensures
        outcome(r) == if *token_type != TokenType::Access {
            Err(api_err(ErrorKind::Forbidden, access_token_required_message()))
        } else if !unconstrained_action_exists(grants@, Resource::Packs, action) {
            Err(api_err(ErrorKind::Forbidden, global_index_denied_message(action)))
        } else {
            Ok::<(), ErrorView>(())
        },
{
    require_pack_access_token(token_type)?;
    if !has_unconstrained_resource_action(grants, Resource::Packs, action) {
        let mut message = String::from_str("Global pack index access requires an unconstrained Packs ");
        message.append(action_debug_name(action));
        message.append(" grant");
        return Err(ApiError::Forbidden(message));
    }
    Ok(())
}

/// A change to an installed pack that needs authorization.
#[derive(Debug, Clone, Copy, PartialEq, Eq, Structural)]
pub enum PackMutation {
    Configure,
    Delete,
    Replace,
}

/// The action a pack change is authorized as.
pub open spec fn mutation_action(m: PackMutation) -> Action {
    match m {
        PackMutation::Configure => Action::Configure,
        PackMutation::Delete => Action::Delete,
        PackMutation::Replace => Action::Configure,
    }
}

/// The error when a pack change is refused.
pub open spec fn mutation_denied_message(m: PackMutation) -> Seq<char> {
    match m {
        PackMutation::Configure => "Not authorized to configure pack"@,
        PackMutation::Delete => "Not authorized to delete pack"@,
        PackMutation::Replace => "Not authorized to replace pack"@,
    }
}

/// Whether a pack change is allowed. Configuring or deleting a standard
/// pack is always allowed; replacing a pack is decided as for a pack that
/// is not standard.
pub open spec fn mutation_allowed_spec(
    m: PackMutation,
    is_standard: bool,
    installed_by: Option<i64>,
    identity_id: i64,
    grants: Seq<Grant>,
    grant_allows: Seq<bool>,
    service_allows: bool,
) -> bool {
    pack_action_allowed_spec(
        is_standard && m != PackMutation::Replace,
        installed_by,
        identity_id,
        grants,
        mutation_action(m),
        grant_allows,
        service_allows,
    )
}

/// Authorizes a change to an installed pack. On success, tells whether
/// the authorization service must still confirm the action in the pack's
/// own context: it must when the caller installed the pack or nobody did.
pub fn authorize_pack_mutation(
    m: PackMutation,
    is_standard: bool,
    installed_by: Option<i64>,
    identity_id: i64,
    grants: &Vec<Grant>,
    grant_allows: &Vec<bool>,
    service_allows: bool,
) -> (r: Result<bool, ApiError>)
    requires
        grant_allows.len() == grants.len(),
    ensures
        outcome(r) == if mutation_allowed_spec(m, is_standard, installed_by, identity_id, grants@, grant_allows@, service_allows) {
            Ok::<bool, ErrorView>(installed_by is None || installed_by == Some(identity_id))
        } else {
            Err(api_err(ErrorKind::Forbidden, mutation_denied_message(m)))
        },
{
    let action = match m {
        PackMutation::Configure => Action::Configure,
        PackMutation::Delete => Action::Delete,
        PackMutation::Replace => Action::Configure,
    };
    let standard = is_standard && m != PackMutation::Replace;
    if !pack_action_allowed(standard, installed_by, identity_id, grants, action, grant_allows, service_allows) {
        let message = match m {
            PackMutation::Configure => "Not authorized to configure pack",
            PackMutation::Delete => "Not authorized to delete pack",
            PackMutation::Replace => "Not authorized to replace pack",
        };
        return Err(ApiError::Forbidden(String::from_str(message)));
    }
    Ok(installed_by.is_none() || installed_by == Some(identity_id))
}

/// The error for a pack ref that is taken.
pub open spec fn pack_exists_message(pack_ref: Seq<char>) -> Seq<char> {
    "Pack with ref '"@ + pack_ref + "' already exists"@
}

/// A new pack's ref must not be in use.
pub fn check_pack_ref_available(pack_ref: &str, taken: bool) -> (r: Result<(), ApiError>)
    ensures
        outcome(r) == if taken {
            Err(api_err(ErrorKind::Conflict, pack_exists_message(pack_ref@)))
        } else {
            Ok::<(), ErrorView>(())
        },
{
    if taken {
        let mut message = String::from_str("Pack with ref '");
        message.append(pack_ref);
        message.append("' already exists");
        return Err(ApiError::Conflict(message));
    }
    Ok(())
}

/// The installer recorded for a pack created through the API: the
/// creating identity, unless the pack is standard.
pub fn created_pack_installer(creator: Option<i64>, is_standard: bool) -> (r: Option<i64>)
    ensures
        r == if is_standard { None } else { creator },
{
    if is_standard {
        None
    } else {
        creator
    }
}

/// The icon files a pack may ship, in the order they are looked for, each
/// with the content type it is served as.
pub open spec fn pack_icon_table() -> Seq<(Seq<char>, Seq<char>)> {
    seq![
        ("pack-icon.svg"@, "image/svg+xml"@),
        ("pack-icon.png"@, "image/png"@),
        ("pack-icon.jpg"@, "image/jpeg"@),
        ("pack-icon.jpeg"@, "image/jpeg"@),
        ("pack-icon.ico"@, "image/x-icon"@),
    ]
}

/// Lists the icon files a pack may ship, in priority order.
pub fn pack_icon_files() -> (r: Vec<(&'static str, &'static str)>)
    ensures
        r@.map_values(|p: (&'static str, &'static str)| (p.0@, p.1@)) == pack_icon_table(),
{
    let r = vec![
        ("pack-icon.svg", "image/svg+xml"),
        ("pack-icon.png", "image/png"),
        ("pack-icon.jpg", "image/jpeg"),
        ("pack-icon.jpeg", "image/jpeg"),
        ("pack-icon.ico", "image/x-icon"),
    ];
    assert(r@.map_values(|p: (&'static str, &'static str)| (p.0@, p.1@)) =~= pack_icon_table());
    r
}

/// Why a registry reference is refused by a plain download.
pub open spec fn registry_download_refusal() -> Seq<char> {
    "Registry references must use /api/v1/packs/install so identity, authorization, and verified provenance remain bound to registration"@
}

/// A plain download fetches direct sources only: a registry reference is
/// refused, with the reason recorded for that source.
pub fn direct_download_check(source: &PackSource) -> (r: Result<(), String>)
    ensures
        match r {
            Ok(_) => !(source@ is Registry),
            Err(reason) => source@ is Registry && reason@ == registry_download_refusal(),
        },
{
    match source {
        PackSource::Registry { .. } => Err(String::from_str(
            "Registry references must use /api/v1/packs/install so identity, authorization, and verified provenance remain bound to registration",
        )),
        _ => Ok(()),
    }
}

/// The error for registry headers that are not a JSON object.
pub open spec fn headers_not_object_message() -> Seq<char> {
    "Pack index headers must be a JSON object"@
}

/// The error for a registry header whose value is not a string.
pub open spec fn header_value_not_string_message() -> Seq<char> {
    "Pack index header values must be strings"@
}

/// Whether every header value is a string.
pub open spec fn all_header_values_text(entries: Seq<(String, Option<String>)>) -> bool {
    forall|i: int| 0 <= i < entries.len() ==> (#[trigger] entries[i]).1 is Some
}

/// The headers an entry list stands for, once every value is a string.
pub open spec fn entry_headers(entries: Seq<(String, Option<String>)>) -> Seq<(Seq<char>, Seq<char>)> {
    entries.map_values(|e: (String, Option<String>)| (e.0@, e.1->0@))
}

/// Registry headers read from JSON. `headers` is the JSON value's members
/// when it is an object (`None` otherwise), each value `None` when it is
/// not a string; `validation` is the header validator's outcome on them.
pub open spec fn headers_from_json_spec(
    headers: Option<Seq<(String, Option<String>)>>,
    validation: Result<(), Seq<char>>,
) -> Result<Seq<(Seq<char>, Seq<char>)>, ErrorView> {
    match headers {
        None => Err(api_err(ErrorKind::BadRequest, headers_not_object_message())),
        Some(entries) => if !all_header_values_text(entries) {
            Err(api_err(ErrorKind::BadRequest, header_value_not_string_message()))
        } else {
            match validation {
                Err(e) => Err(api_err(ErrorKind::BadRequest, e)),
                Ok(_) => Ok(entry_headers(entries)),
            }
        },
    }
}

/// Reads registry headers from the members of a JSON value.
pub fn headers_from_json(headers: Option<Vec<(String, Option<String>)>>, validation: Result<(), String>) -> (r: Result<
    Vec<RegistryHeader>,
    ApiError,
>)
    ensures
        match headers_from_json_spec(
            match headers { Some(v) => Some(v@), None => None },
            check_view(validation),
        ) {
            Ok(h) => r is Ok && header_views(r->Ok_0@) == h,
            Err(e) => outcome(r) == Err::<Vec<RegistryHeader>, ErrorView>(e),
        },
{
    let entries = match headers {
        None => {
            return Err(ApiError::BadRequest(String::from_str("Pack index headers must be a JSON object")));
        },
        Some(entries) => entries,
    };
    let ghost orig = entries@;
    let n = entries.len();
    let mut rest = entries;
    let mut out: Vec<RegistryHeader> = Vec::new();
    let mut all_text = true;
    let mut i: usize = 0;
    assert(orig.skip(0) =~= orig);
    while i < n
        invariant_except_break
            n == orig.len(),
            i <= n,
            all_text,
            rest@ == orig.skip(i as int),
            forall|j: int| 0 <= j < i ==> (#[trigger] orig[j]).1 is Some,
            header_views(out@) == entry_headers(orig.take(i as int)),
        ensures
            all_text ==> forall|j: int| 0 <= j < n ==> (#[trigger] orig[j]).1 is Some,
            all_text ==> header_views(out@) == entry_headers(orig),
            !all_text ==> !all_header_values_text(orig),
        decreases n - i,
    {
        proof {
            assert(orig.skip(i as int)[0] == orig[i as int]);
            assert(orig.skip(i as int).remove(0) =~= orig.skip(i + 1));
        }
        let (name, value) = rest.remove(0);
        match value {
            Some(v) => {
                let ghost before = out@;
                out.push(RegistryHeader { name, value: v });
                proof {
                    assert(header_views(out@) =~= header_views(before).push((orig[i as int].0@, orig[i as int].1->0@)));
                    assert(entry_headers(orig.take(i + 1)) =~= entry_headers(orig.take(i as int)).push(
                        (orig[i as int].0@, orig[i as int].1->0@),
                    ));
                }
            },
            None => {
                assert(!all_header_values_text(orig));
                all_text = false;
                break;
            },
        }
        i = i + 1;
        if i == n {
            assert(orig.take(n as int) =~= orig);
        }
    }
    if n == 0 {
        assert(orig.take(0) =~= orig);
    }
    if !all_text {
        return Err(ApiError::BadRequest(String::from_str("Pack index header values must be strings")));
    }
    match validation {
        Err(e) => Err(ApiError::BadRequest(e)),
        Ok(_) => Ok(out),
    }
}

/// What a filesystem entry is, as its metadata (not following symlinks)
/// reports it.
#[derive(Debug, Clone, Copy, PartialEq, Eq, Structural)]
pub struct EntryProbe {
    pub is_dir: bool,
    pub is_file: bool,
    pub is_symlink: bool,
}

/// The icon a pack serves: none unless the pack directory is a real
/// directory; otherwise the first icon file of [`pack_icon_table`] that is a
/// regular file and not a symlink. `candidates[i]` is the probe of the
/// `i`-th icon file, `None` when it does not exist.
pub open spec fn pack_icon_choice(pack_dir: Option<EntryProbe>, candidates: Seq<Option<EntryProbe>>) -> Option<int> {
    match pack_dir {
        Some(d) => if d.is_dir && !d.is_symlink && exists|i: int|
            0 <= i < candidates.len() && #[trigger] plain_file(candidates[i]) {
            Some(choose|i: int|
                0 <= i < candidates.len() && #[trigger] plain_file(candidates[i]) && forall|j: int|
                    0 <= j < i ==> !plain_file(candidates[j]))
        } else {
            None
        },
        None => None,
    }
}

/// Whether a probe shows a regular file that is not a symlink.
pub open spec fn plain_file(p: Option<EntryProbe>) -> bool {
    p matches Some(e) && e.is_file && !e.is_symlink
}

/// Picks the icon a pack serves, as a file name and content type.
pub fn find_pack_icon(pack_dir: Option<EntryProbe>, candidates: &Vec<Option<EntryProbe>>) -> (r: Option<(&'static str, &'static str)>)
    requires
        candidates.len() == 5,
    ensures
        match pack_icon_choice(pack_dir, candidates@) {
            Some(i) => r matches Some(p) && (p.0@, p.1@) == pack_icon_table()[i],
            None => r is None,
        },
{
    let dir_ok = match pack_dir {
        Some(d) => d.is_dir && !d.is_symlink,
        None => false,
    };
    if !dir_ok {
        return None;
    }
    let files = pack_icon_files();
    assert(files@.map_values(|p: (&'static str, &'static str)| (p.0@, p.1@)).len() == files@.len());
    assert(pack_icon_table().len() == 5);
    let mut i: usize = 0;
    while i < candidates.len()
        invariant
            i <= candidates.len(),
            candidates.len() == 5,
            files@.len() == 5,
            pack_dir matches Some(d) && d.is_dir && !d.is_symlink,
            files@.map_values(|p: (&'static str, &'static str)| (p.0@, p.1@)) == pack_icon_table(),
            forall|j: int| 0 <= j < i ==> !plain_file(#[trigger] candidates@[j]),
        decreases candidates.len() - i,
    {
        let hit = match candidates[i] {
            Some(e) => e.is_file && !e.is_symlink,
            None => false,
        };
        if hit {
            proof {
                assert(plain_file(candidates@[i as int]));
                let c = choose|c: int|
                    0 <= c < candidates@.len() && #[trigger] plain_file(candidates@[c]) && forall|j: int|
                        0 <= j < c ==> !plain_file(candidates@[j]);
                if c < i {
                    assert(!plain_file(candidates@[c]));
                } else if c > i {
                    assert(!plain_file(candidates@[i as int]));
                }
                assert(files@.map_values(|p: (&'static str, &'static str)| (p.0@, p.1@))[i as int] == (
                    files@[i as int].0@,
                    files@[i as int].1@,
                ));
            }
            return Some(files[i]);
        }
        i = i + 1;
    }
    None
}

} // verus!
