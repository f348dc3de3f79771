//! Pack registration and installation: what a pack manifest must hold,
//! which dependencies an install checks, and how failed test runs and
//! existing packs are handled.

use vstd::prelude::*;
use crate::auth::{api_err, outcome, ApiError, ErrorKind, ErrorView};
use crate::text::{
    ascii_lower, eq_ignore_ascii_case, find_char, join, join_spec, str_eq, string_views, trim, trim_spec, u64_to_string,
    nat_decimal,
};

verus! {

/// A value of a pack manifest, as the registration reads it: a string, a
/// list (whose string items are kept, `None` standing for the others), or
/// anything else.
#[derive(Debug, PartialEq, Eq)]
pub enum ManifestValue {
    Text(String),
    Sequence(Vec<Option<String>>),
    Other,
}

/// One top-level key of a pack manifest (`None` for a key that is not a
/// string, which no lookup by name finds).
#[derive(Debug, PartialEq, Eq)]
pub struct ManifestEntry {
    pub key: Option<String>,
    pub value: ManifestValue,
}

/// The value of the first entry called `key`.
pub open spec fn manifest_lookup(entries: Seq<ManifestEntry>, key: Seq<char>) -> Option<ManifestValue>
    decreases entries.len(),
{
    if entries.len() == 0 {
        None
    } else if entries[0].key matches Some(k) && k@ == key {
        Some(entries[0].value)
    } else {
        manifest_lookup(entries.skip(1), key)
    }
}

/// The string value of `key`, if it is a string.
pub open spec fn manifest_text(entries: Seq<ManifestEntry>, key: Seq<char>) -> Option<Seq<char>> {
    match manifest_lookup(entries, key) {
        Some(ManifestValue::Text(s)) => Some(s@),
        _ => None,
    }
}

/// The string items of a list, in order.
pub open spec fn string_items(items: Seq<Option<String>>) -> Seq<Seq<char>>
    decreases items.len(),
{
    if items.len() == 0 {
        Seq::empty()
    } else {
        let prev = string_items(items.drop_last());
        match items.last() {
            Some(s) => prev.push(s@),
            None => prev,
        }
    }
}

/// The string items of the list value of `key`; empty when `key` is
/// missing or not a list.
pub open spec fn manifest_strings(entries: Seq<ManifestEntry>, key: Seq<char>) -> Seq<Seq<char>> {
    match manifest_lookup(entries, key) {
        Some(ManifestValue::Sequence(items)) => string_items(items@),
        _ => Seq::empty(),
    }
}

fn find_entry<'a>(entries: &'a Vec<ManifestEntry>, key: &str) -> (r: Option<&'a ManifestValue>)
    ensures
        match r {
            Some(v) => manifest_lookup(entries@, key@) == Some(*v),
            None => manifest_lookup(entries@, key@) is None,
        },
{
    let mut i: usize = 0;
    assert(entries@.skip(0) =~= entries@);
    while i < entries.len()
        invariant
            i <= entries.len(),
            manifest_lookup(entries@, key@) == manifest_lookup(entries@.skip(i as int), key@),
        decreases entries.len() - i,
    {
        assert(entries@.skip(i as int).skip(1) =~= entries@.skip(i + 1));
        assert(entries@.skip(i as int)[0] == entries@[i as int]);
        let found = match &entries[i].key {
            Some(k) => str_eq(k.as_str(), key),
            None => false,
        };
        if found {
            return Some(&entries[i].value);
        }
        i = i + 1;
    }
    assert(entries@.skip(i as int) =~= Seq::<ManifestEntry>::empty());
    None
}

/// What `serde_yaml_ng::from_str` makes of a manifest text: the keys of its
/// top-level mapping in order (`None` for a key that is not a string; no
/// keys when the document is not a mapping), or the parse error's message.
pub uninterp spec fn yaml_mapping_keys(text: Seq<char>) -> Result<Seq<Option<Seq<char>>>, Seq<char>>;

/// What the value under `key` of a parsed manifest text is read as: its
/// string (`as_str`), and its items (`as_sequence`, each item's `as_str`).
pub uninterp spec fn yaml_entry(text: Seq<char>, key: Seq<char>) -> (Option<Seq<char>>, Option<Seq<Option<Seq<char>>>>);

/// The views of optional strings.
pub open spec fn opt_string_views(v: Seq<Option<String>>) -> Seq<Option<Seq<char>>> {
    Seq::new(
        v.len(),
        |i: int|
            match v[i] {
                Some(s) => Some(s@),
                None => None,
            },
    )
}

/// Calls `serde_yaml_ng::from_str` on a manifest text and lists the keys of
/// the top-level mapping (`as_mapping`) in order, a key that is not a string
/// becoming `None`; a parse error becomes its message. The result is named.
#[verifier::external_body]
fn yaml_keys(text: &str) -> (r: Result<Vec<Option<String>>, String>)
    ensures
        match r {
            Ok(keys) => yaml_mapping_keys(text@) == Ok::<Seq<Option<Seq<char>>>, Seq<char>>(opt_string_views(keys@)),
            Err(m) => yaml_mapping_keys(text@) == Err::<Seq<Option<Seq<char>>>, Seq<char>>(m@),
        },
{
    let doc: serde_yaml_ng::Value = match serde_yaml_ng::from_str(text) {
        Ok(doc) => doc,
        Err(e) => return Err(e.to_string()),
    };
    let mut keys = Vec::new();
    for (k, _) in doc.as_mapping().into_iter().flatten() {
        keys.push(match k {
            serde_yaml_ng::Value::String(s) => Some(s.clone()),
            _ => None,
        });
    }
    Ok(keys)
}

/// Calls `serde_yaml_ng::from_str` on a manifest text, then `get(key)` and
/// reads the value found with `as_str` and `as_sequence` (each item with
/// `as_str`). The result is named.
#[verifier::external_body]
fn yaml_value(text: &str, key: &str) -> (r: (Option<String>, Option<Vec<Option<String>>>))
    ensures
        yaml_entry(text@, key@) == (
            match r.0 {
                Some(s) => Some(s@),
                None => None,
            },
            match r.1 {
                Some(items) => Some(opt_string_views(items@)),
                None => None,
            },
        ),
{
    let doc: serde_yaml_ng::Value = serde_yaml_ng::from_str(text).unwrap_or(serde_yaml_ng::Value::Null);
    let node = doc.get(key);
    let text_value = node.and_then(serde_yaml_ng::Value::as_str).map(String::from);
    let mut items = None;
    if let Some(seq) = node.and_then(serde_yaml_ng::Value::as_sequence) {
        let mut out = Vec::new();
        for item in seq {
            out.push(item.as_str().map(String::from));
        }
        items = Some(out);
    }
    (text_value, items)
}

/// How a manifest reads a value that is a string or a list (or neither).
pub open spec fn manifest_value_from(node: (Option<Seq<char>>, Option<Seq<Option<Seq<char>>>>), v: ManifestValue) -> bool {
    match node.0 {
        Some(t) => v matches ManifestValue::Text(s) && s@ == t,
        None => match node.1 {
            Some(items) => v matches ManifestValue::Sequence(l) && opt_string_views(l@) == items,
            None => v is Other,
        },
    }
}

/// What a manifest text parses to: one entry per top-level key, in order,
/// each holding how its value reads; or the parse error.
pub open spec fn parsed_manifest(text: Seq<char>, r: Result<Vec<ManifestEntry>, String>) -> bool {
    match yaml_mapping_keys(text) {
        Err(m) => r matches Err(e) && e@ == m,
        Ok(keys) => r matches Ok(entries) && entries@.len() == keys.len() && forall|i: int|
            0 <= i < keys.len() ==> {
                let e = #[trigger] entries@[i];
                &&& match e.key {
                    Some(k) => keys[i] == Some(k@),
                    None => keys[i] is None,
                }
                &&& match keys[i] {
                    Some(k) => manifest_value_from(yaml_entry(text, k), e.value),
                    None => e.value is Other,
                }
            },
    }
}

/// Parses a pack manifest (`pack.yaml`) into its top-level entries.
pub fn parse_pack_manifest(text: &str) -> (r: Result<Vec<ManifestEntry>, String>)
    ensures
        parsed_manifest(text@, r),
{
    let keys = match yaml_keys(text) {
        Ok(keys) => keys,
        Err(m) => return Err(m),
    };
    let ghost key_views = opt_string_views(keys@);
    let mut entries: Vec<ManifestEntry> = Vec::new();
    let mut i: usize = 0;
    while i < keys.len()
        invariant
            i <= keys.len(),
            key_views == opt_string_views(keys@),
            yaml_mapping_keys(text@) == Ok::<Seq<Option<Seq<char>>>, Seq<char>>(key_views),
            entries@.len() == i,
            forall|j: int|
                0 <= j < i ==> {
                    let e = #[trigger] entries@[j];
                    &&& match e.key {
                        Some(k) => key_views[j] == Some(k@),
                        None => key_views[j] is None,
                    }
                    &&& match key_views[j] {
                        Some(k) => manifest_value_from(yaml_entry(text@, k), e.value),
                        None => e.value is Other,
                    }
                },
        decreases keys.len() - i,
    {
        let entry = match &keys[i] {
            Some(k) => {
                let (t, items) = yaml_value(text, k.as_str());
                let value = match t {
                    Some(s) => ManifestValue::Text(s),
                    None => match items {
                        Some(l) => ManifestValue::Sequence(l),
                        None => ManifestValue::Other,
                    },
                };
                ManifestEntry { key: Some(k.clone()), value }
            },
            None => ManifestEntry { key: None, value: ManifestValue::Other },
        };
        entries.push(entry);
        i = i + 1;
    }
    Ok(entries)
}

/// The string value of `key`, if it is a string.
pub fn manifest_text_value(entries: &Vec<ManifestEntry>, key: &str) -> (r: Option<String>)
    ensures
        match r {
            Some(s) => manifest_text(entries@, key@) == Some(s@),
            None => manifest_text(entries@, key@) is None,
        },
{
    match find_entry(entries, key) {
        Some(ManifestValue::Text(s)) => Some(s.clone()),
        _ => None,
    }
}

/// The string items of the list value of `key`.
pub fn manifest_string_list(entries: &Vec<ManifestEntry>, key: &str) -> (r: Vec<String>)
    ensures
        string_views(r@) == manifest_strings(entries@, key@),
{
    match find_entry(entries, key) {
        Some(ManifestValue::Sequence(items)) => {
            let mut out: Vec<String> = Vec::new();
            let mut i: usize = 0;
            assert(items@.take(0) =~= Seq::<Option<String>>::empty());
            assert(string_views(out@) =~= Seq::<Seq<char>>::empty());
            while i < items.len()
                invariant
                    i <= items.len(),
                    string_views(out@) == string_items(items@.take(i as int)),
                decreases items.len() - i,
            {
                assert(items@.take(i + 1).drop_last() =~= items@.take(i as int));
                assert(items@.take(i + 1).last() == items@[i as int]);
                let ghost before = out@;
                if let Some(s) = &items[i] {
                    out.push(s.clone());
                    assert(string_views(out@) =~= string_views(before).push(s@));
                }
                i = i + 1;
            }
            assert(items@.take(items.len() as int) =~= items@);
            out
        },
        _ => {
            let out: Vec<String> = Vec::new();
            assert(string_views(out@) =~= Seq::<Seq<char>>::empty());
            out
        },
    }
}

/// The error for a manifest without a `ref`.
pub open spec fn missing_ref_message() -> Seq<char> {
    "Missing 'ref' field in pack.yaml"@
}

/// The error for a manifest without a `version`.
pub open spec fn missing_version_message() -> Seq<char> {
    "Missing 'version' field in pack.yaml"@
}

/// The pack ref a manifest declares; it must be a string.
pub fn manifest_pack_ref(entries: &Vec<ManifestEntry>) -> (r: Result<String, ApiError>)
    ensures
        match manifest_text(entries@, "ref"@) {
            Some(s) => r matches Ok(v) && v@ == s,
            None => outcome(r) == Err::<String, ErrorView>(api_err(ErrorKind::BadRequest, missing_ref_message())),
        },
{
    match manifest_text_value(entries, "ref") {
        Some(s) => Ok(s),
        None => Err(ApiError::BadRequest(String::from_str("Missing 'ref' field in pack.yaml"))),
    }
}

/// The pack version a manifest declares; it must be a string.
pub fn manifest_version(entries: &Vec<ManifestEntry>) -> (r: Result<String, ApiError>)
    ensures
        match manifest_text(entries@, "version"@) {
            Some(s) => r matches Ok(v) && v@ == s,
            None => outcome(r) == Err::<String, ErrorView>(api_err(ErrorKind::BadRequest, missing_version_message())),
        },
{
    match manifest_text_value(entries, "version") {
        Some(s) => Ok(s),
        None => Err(ApiError::BadRequest(String::from_str("Missing 'version' field in pack.yaml"))),
    }
}

/// The metadata a registration takes from a pack manifest.
#[derive(Debug, PartialEq, Eq)]
pub struct PackManifest {
    pub pack_ref: String,
    pub label: String,
    pub version: String,
    pub description: Option<String>,
    pub tags: Vec<String>,
    pub runtime_deps: Vec<String>,
    pub dependencies: Vec<String>,
}

/// Reads a manifest's metadata for the pack `pack_ref` (already read and
/// validated): the label defaults to the ref, the version is required,
/// tags come from `keywords`, and lists keep their string items.
pub fn extract_pack_manifest(entries: &Vec<ManifestEntry>, pack_ref: String) -> (r: Result<PackManifest, ApiError>)
    ensures
        match manifest_text(entries@, "version"@) {
            Some(version) => r matches Ok(m) && m.pack_ref@ == pack_ref@ && m.version@ == version
                && m.label@ == (match manifest_text(entries@, "name"@) {
                Some(n) => n,
                None => pack_ref@,
            }) && (match m.description {
                Some(d) => manifest_text(entries@, "description"@) == Some(d@),
                None => manifest_text(entries@, "description"@) is None,
            }) && string_views(m.tags@) == manifest_strings(entries@, "keywords"@) && string_views(m.runtime_deps@)
                == manifest_strings(entries@, "runtime_deps"@) && string_views(m.dependencies@) == manifest_strings(
                entries@,
                "dependencies"@,
            ),
            None => outcome(r) == Err::<PackManifest, ErrorView>(
                api_err(ErrorKind::BadRequest, missing_version_message()),
            ),
        },
{
    let label = match manifest_text_value(entries, "name") {
        Some(n) => n,
        None => pack_ref.clone(),
    };
    let version = manifest_version(entries)?;
    let description = manifest_text_value(entries, "description");
    let tags = manifest_string_list(entries, "keywords");
    let runtime_deps = manifest_string_list(entries, "runtime_deps");
    let dependencies = manifest_string_list(entries, "dependencies");
    Ok(PackManifest { pack_ref, label, version, description, tags, runtime_deps, dependencies })
}

/// The runtime requirements an install checks: `python3>=v` for a
/// `python: v` entry and `nodejs>=v` for a `nodejs: v` entry.
pub open spec fn runtime_requirements_spec(entries: Seq<ManifestEntry>) -> Seq<Seq<char>> {
    let py: Seq<Seq<char>> = match manifest_text(entries, "python"@) {
        Some(v) => seq!["python3>="@ + v],
        None => Seq::empty(),
    };
    let node: Seq<Seq<char>> = match manifest_text(entries, "nodejs"@) {
        Some(v) => seq!["nodejs>="@ + v],
        None => Seq::empty(),
    };
    py + node
}

/// The runtime requirements declared by a manifest.
pub fn install_runtime_requirements(entries: &Vec<ManifestEntry>) -> (r: Vec<String>)
    ensures
        string_views(r@) == runtime_requirements_spec(entries@),
{
    let mut r: Vec<String> = Vec::new();
    if let Some(v) = manifest_text_value(entries, "python") {
        let mut req = String::from_str("python3>=");
        req.append(v.as_str());
        r.push(req);
    }
    let ghost after_py = string_views(r@);
    if let Some(v) = manifest_text_value(entries, "nodejs") {
        let mut req = String::from_str("nodejs>=");
        req.append(v.as_str());
        r.push(req);
    }
    assert(string_views(r@) =~= runtime_requirements_spec(entries@));
    r
}

/// A pack dependency an install checks: the ref and the accepted version.
#[derive(Debug, PartialEq, Eq)]
pub struct PackDependency {
    pub pack_ref: String,
    pub version: String,
}

/// The pack dependencies an install checks: each string of
/// `dependencies`, with any version (`*`).
pub fn install_pack_dependencies(entries: &Vec<ManifestEntry>) -> (r: Vec<PackDependency>)
    ensures
        r@.len() == manifest_strings(entries@, "dependencies"@).len(),
        forall|i: int| 0 <= i < r@.len() ==> r@[i].pack_ref@ == manifest_strings(entries@, "dependencies"@)[i]
            && r@[i].version@ == "*"@,
{
    let refs = manifest_string_list(entries, "dependencies");
    let ghost views = string_views(refs@);
    let mut r: Vec<PackDependency> = Vec::new();
    let mut i: usize = 0;
    while i < refs.len()
        invariant
            i <= refs.len(),
            views == string_views(refs@),
            r@.len() == i,
            forall|j: int| 0 <= j < i ==> r@[j].pack_ref@ == views[j] && r@[j].version@ == "*"@,
        decreases refs.len() - i,
    {
        r.push(PackDependency { pack_ref: refs[i].clone(), version: String::from_str("*") });
        i = i + 1;
    }
    r
}

/// The error listing failed dependency checks, one per line.
pub open spec fn dependency_failure_message(errors: Seq<Seq<char>>) -> Seq<char> {
    "Pack dependency validation failed:\n  - "@ + join_spec(errors, "\n  - "@)
}

/// The error returned when dependency validation fails.
pub fn dependency_validation_failed(errors: &Vec<String>) -> (e: ApiError)
    ensures
        e@ == api_err(ErrorKind::BadRequest, dependency_failure_message(string_views(errors@))),
{
    let mut message = String::from_str("Pack dependency validation failed:\n  - ");
    let body = join(errors, "\n  - ");
    message.append(body.as_str());
    ApiError::BadRequest(message)
}

/// The error for a registry id given with a source that is not a registry
/// reference.
pub open spec fn registry_id_misuse_message() -> Seq<char> {
    "registry_id can only be used with a registry pack reference"@
}

/// A managed registry may only be selected for a registry reference.
pub fn check_registry_id_usage(registry_id: Option<i64>, is_registry_source: bool) -> (r: Result<(), ApiError>)
    ensures
        outcome(r) == if registry_id is Some && !is_registry_source {
            Err(api_err(ErrorKind::BadRequest, registry_id_misuse_message()))
        } else {
            Ok::<(), ErrorView>(())
        },
{
    if registry_id.is_some() && !is_registry_source {
        return Err(ApiError::BadRequest(
            String::from_str("registry_id can only be used with a registry pack reference"),
        ));
    }
    Ok(())
}

/// The error for registering a pack that exists without `force`.
pub open spec fn pack_exists_message(pack_ref: Seq<char>) -> Seq<char> {
    "Pack '"@ + pack_ref + "' already exists. Use force=true to reinstall."@
}

/// An existing pack is replaced only with `force`.
pub fn check_pack_replacement(pack_ref: &str, exists: bool, force: bool) -> (r: Result<(), ApiError>)
    ensures
        outcome(r) == if exists && !force {
            Err(api_err(ErrorKind::Conflict, pack_exists_message(pack_ref@)))
        } else {
            Ok::<(), ErrorView>(())
        },
{
    if exists && !force {
        let mut message = String::from_str("Pack '");
        message.append(pack_ref);
        message.append("' already exists. Use force=true to reinstall.");
        return Err(ApiError::Conflict(message));
    }
    Ok(())
}

/// The reason recorded for a pack test run: `install` for a new pack,
/// `update` otherwise.
pub fn test_trigger_reason(is_new_pack: bool) -> (r: &'static str)
    ensures
        r@ == if is_new_pack { "install"@ } else { "update"@ },
{
    if is_new_pack {
        "install"
    } else {
        "update"
    }
}

/// What a registration does when its tests could not be dispatched.
#[derive(Debug, PartialEq, Eq)]
pub struct DispatchFailureHandling {
    /// Remove the pack that this registration created.
    pub roll_back_new_pack: bool,
    /// The error that fails the registration, if it fails.
    pub error: Option<ApiError>,
}

/// The error for a registration whose tests could not be dispatched.
pub open spec fn dispatch_failed_message(error: Seq<char>) -> Seq<char> {
    "Pack registration failed: could not dispatch tests. Error: "@ + error + ". Use force=true to register anyway."@
}

/// Without `force`, a registration whose tests cannot be dispatched fails
/// and a pack it created is rolled back; with `force` it goes on.
pub fn handle_test_dispatch_failure(force: bool, is_new_pack: bool, error: &str) -> (h: DispatchFailureHandling)
    ensures
        h.roll_back_new_pack == (!force && is_new_pack),
        force ==> h.error is None,
        !force ==> (h.error matches Some(e) && e@ == api_err(ErrorKind::BadRequest, dispatch_failed_message(error@))),
{
    if force {
        return DispatchFailureHandling { roll_back_new_pack: false, error: None };
    }
    let mut message = String::from_str("Pack registration failed: could not dispatch tests. Error: ");
    message.append(error);
    message.append(". Use force=true to register anyway.");
    DispatchFailureHandling { roll_back_new_pack: is_new_pack, error: Some(ApiError::BadRequest(message)) }
}

/// Whether an install stages the downloaded pack directly (with `force` or
/// when tests are skipped) rather than testing a candidate first.
pub fn stage_without_candidate_tests(force: bool, skip_tests: bool) -> (b: bool)
    ensures
        b == (force || skip_tests),
{
    force || skip_tests
}

/// The error when a candidate's tests did not succeed.
pub open spec fn candidate_failed_message(error_message: Option<Seq<char>>) -> Seq<char> {
    "Candidate pack tests failed: "@ + match error_message {
        Some(m) => m,
        None => "worker reported a failed test run"@,
    }
}

/// A tested candidate is installed only when its test run succeeded.
pub fn candidate_test_verdict(status: &str, error_message: Option<&str>) -> (r: Result<(), ApiError>)
    ensures
        outcome(r) == if status@ == "succeeded"@ {
            Ok::<(), ErrorView>(())
        } else {
            Err(api_err(
                ErrorKind::BadRequest,
                candidate_failed_message(match error_message {
                    Some(m) => Some(m@),
                    None => None,
                }),
            ))
        },
{
    if str_eq(status, "succeeded") {
        return Ok(());
    }
    let mut message = String::from_str("Candidate pack tests failed: ");
    match error_message {
        Some(m) => message.append(m),
        None => message.append("worker reported a failed test run"),
    }
    Err(ApiError::BadRequest(message))
}

/// The installer recorded for a registered pack: the existing pack's, when
/// it is replaced, else the caller.
pub fn recorded_installer(existing_installed_by: Option<Option<i64>>, caller: Option<i64>) -> (r: Option<i64>)
    ensures
        r == match existing_installed_by {
            Some(i) => i,
            None => caller,
        },
{
    match existing_installed_by {
        Some(i) => i,
        None => caller,
    }
}

/// The largest pack archive accepted by an upload, in bytes.
pub const PACK_UPLOAD_MAX_BYTES: usize = 104857600;

/// Whether an upload form flag is set: `true` in any case, surrounding
/// whitespace ignored.
pub open spec fn form_flag_set(value: Seq<char>) -> bool {
    ascii_lower(trim_spec(value)) == ascii_lower("true"@)
}

/// Reads an upload form flag.
pub fn upload_flag(value: &str) -> (b: bool)
    ensures
        b == form_flag_set(value@),
{
    eq_ignore_ascii_case(trim(value), "true")
}

/// The error for an oversized archive.
pub open spec fn archive_too_large_message(len: nat) -> Seq<char> {
    "Pack archive too large: "@ + nat_decimal(len) + " bytes (max "@ + nat_decimal(PACK_UPLOAD_MAX_BYTES as nat)
        + " bytes)"@
}

/// An uploaded archive may hold at most [`PACK_UPLOAD_MAX_BYTES`] bytes.
pub fn check_upload_size(len: usize) -> (r: Result<(), ApiError>)
    ensures
        outcome(r) == if len > PACK_UPLOAD_MAX_BYTES {
            Err(api_err(ErrorKind::BadRequest, archive_too_large_message(len as nat)))
        } else {
            Ok::<(), ErrorView>(())
        },
{
    if len > PACK_UPLOAD_MAX_BYTES {
        let mut message = String::from_str("Pack archive too large: ");
        let n = u64_to_string(len as u64);
        message.append(n.as_str());
        message.append(" bytes (max ");
        let m = u64_to_string(PACK_UPLOAD_MAX_BYTES as u64);
        message.append(m.as_str());
        message.append(" bytes)");
        return Err(ApiError::BadRequest(message));
    }
    Ok(())
}

/// A pack dependency found while analysing pack directories.
#[derive(Debug, PartialEq, Eq)]
pub struct DependencyRequirement {
    pub pack_ref: String,
    pub version_spec: String,
    pub required_by: String,
    pub already_installed: bool,
}

/// A dependency string `ref@spec` split at its first `@`; the spec is `*`
/// when there is none.
pub open spec fn split_dependency_spec(dep: Seq<char>) -> (Seq<char>, Seq<char>) {
    if dep.contains('@') {
        let i = choose|i: int| 0 <= i < dep.len() && dep[i] == '@' && forall|j: int| 0 <= j < i ==> dep[j] != '@';
        (dep.take(i), dep.skip(i + 1))
    } else {
        (dep, "*"@)
    }
}

/// Splits a dependency string into its ref and version spec.
pub fn split_dependency(dep: &str) -> (r: (String, String))
    ensures
        (r.0@, r.1@) == split_dependency_spec(dep@),
{
    match find_char(dep, '@') {
        Some(i) => {
            let n = dep.unicode_len();
            let head = dep.substring_char(0, i);
            let tail = dep.substring_char(i + 1, n);
            proof {
                assert(dep@.contains('@')) by {
                    assert(dep@[i as int] == '@');
                }
                let c = choose|c: int| 0 <= c < dep@.len() && dep@[c] == '@'
                    && forall|j: int| 0 <= j < c ==> dep@[j] != '@';
                if c < i {
                    assert(dep@[c] != '@');
                } else if c > i {
                    assert(dep@[i as int] != '@');
                }
                assert(head@ =~= dep@.take(i as int));
                assert(tail@ =~= dep@.skip(i + 1));
            }
            (head.to_string(), tail.to_string())
        },
        None => {
            proof {
                if dep@.contains('@') {
                    let k = choose|k: int| 0 <= k < dep@.len() && dep@[k] == '@';
                    assert(dep@[k] != '@');
                }
            }
            (dep.to_string(), String::from_str("*"))
        },
    }
}

/// The ref a manifest declares, or `unknown`.
pub fn manifest_ref_or_unknown(entries: &Vec<ManifestEntry>) -> (r: String)
    ensures
        r@ == match manifest_text(entries@, "ref"@) {
            Some(s) => s,
            None => "unknown"@,
        },
{
    match manifest_text_value(entries, "ref") {
        Some(s) => s,
        None => String::from_str("unknown"),
    }
}

fn contains_string(v: &Vec<String>, s: &str) -> (b: bool)
    ensures
        b == string_views(v@).contains(s@),
{
    let mut i: usize = 0;
    while i < v.len()
        invariant
            i <= v.len(),
            forall|j: int| 0 <= j < i ==> string_views(v@)[j] != s@,
        decreases v.len() - i,
    {
        if str_eq(v[i].as_str(), s) {
            assert(string_views(v@)[i as int] == s@);
            return true;
        }
        i = i + 1;
    }
    false
}

/// The dependencies a pack manifest declares: each string of
/// `dependencies`, split into ref and spec, attributed to the pack, and
/// marked as installed when its ref is among `installed_refs`.
pub fn pack_dependency_requirements(entries: &Vec<ManifestEntry>, installed_refs: &Vec<String>) -> (r: Vec<
    DependencyRequirement,
>)
    ensures
        r@.len() == manifest_strings(entries@, "dependencies"@).len(),
        forall|i: int|
            #![trigger r@[i]]
            0 <= i < r@.len() ==> {
                let (dep_ref, spec) = split_dependency_spec(manifest_strings(entries@, "dependencies"@)[i]);
                &&& r@[i].pack_ref@ == dep_ref
                &&& r@[i].version_spec@ == spec
                &&& r@[i].required_by@ == match manifest_text(entries@, "ref"@) {
                    Some(s) => s,
                    None => "unknown"@,
                }
                &&& r@[i].already_installed == string_views(installed_refs@).contains(dep_ref)
            },
{
    let required_by = manifest_ref_or_unknown(entries);
    let deps = manifest_string_list(entries, "dependencies");
    let ghost views = string_views(deps@);
    let mut r: Vec<DependencyRequirement> = Vec::new();
    let mut i: usize = 0;
    while i < deps.len()
        invariant
            i <= deps.len(),
            views == string_views(deps@),
            views == manifest_strings(entries@, "dependencies"@),
            required_by@ == match manifest_text(entries@, "ref"@) {
                Some(s) => s,
                None => "unknown"@,
            },
            r@.len() == i,
            forall|j: int|
                #![trigger r@[j]]
                0 <= j < i ==> {
                    let (dep_ref, spec) = split_dependency_spec(views[j]);
                    &&& r@[j].pack_ref@ == dep_ref
                    &&& r@[j].version_spec@ == spec
                    &&& r@[j].required_by@ == required_by@
                    &&& r@[j].already_installed == string_views(installed_refs@).contains(dep_ref)
                },
        decreases deps.len() - i,
    {
        let (dep_ref, spec) = split_dependency(deps[i].as_str());
        let installed = contains_string(installed_refs, dep_ref.as_str());
        r.push(DependencyRequirement {
            pack_ref: dep_ref,
            version_spec: spec,
            required_by: required_by.clone(),
            already_installed: installed,
        });
        i = i + 1;
    }
    r
}

/// Whether a finished pack test run succeeded.
pub open spec fn run_succeeded(status: Seq<char>) -> bool {
    status == "succeeded"@
}

/// What finalizing a registration does once its test run ended.
#[derive(Debug, Clone, Copy, PartialEq, Eq, Structural)]
pub struct FinalizeActions {
    /// Stamp the run as failed (it ended without a finish time).
    pub stamp_failure: bool,
    /// Remove the newly registered pack and mark the run rolled back.
    pub roll_back: bool,
    /// Mark the pack installed.
    pub mark_installed: bool,
}

/// How a registration is finalized: a successful run marks the pack
/// installed; a failed run of a new pack without `force` rolls it back,
/// otherwise the pack is kept and marked installed; a failed run without a
/// finish time is stamped failed; a vanished run changes nothing.
pub open spec fn finalize_spec(
    ended: Option<(Seq<char>, bool)>,
    is_new_pack: bool,
    force: bool,
    touch_pack_status: bool,
) -> FinalizeActions {
    match ended {
        None => FinalizeActions { stamp_failure: false, roll_back: false, mark_installed: false },
        Some((status, finished)) => if run_succeeded(status) {
            FinalizeActions { stamp_failure: false, roll_back: false, mark_installed: touch_pack_status }
        } else {
            let roll_back = is_new_pack && !force;
            FinalizeActions { stamp_failure: !finished, roll_back, mark_installed: !roll_back && touch_pack_status }
        },
    }
}

/// Decides how to finalize a registration from its ended test run (status
/// and whether it has a finish time), or `None` when the run vanished.
pub fn finalize_actions(
    ended: Option<(&str, bool)>,
    is_new_pack: bool,
    force: bool,
    touch_pack_status: bool,
) -> (a: FinalizeActions)
    ensures
        a == finalize_spec(
            match ended {
                Some((s, f)) => Some((s@, f)),
                None => None,
            },
            is_new_pack,
            force,
            touch_pack_status,
        ),
{
    match ended {
        None => FinalizeActions { stamp_failure: false, roll_back: false, mark_installed: false },
        Some((status, finished)) => {
            if str_eq(status, "succeeded") {
                FinalizeActions { stamp_failure: false, roll_back: false, mark_installed: touch_pack_status }
            } else {
                let roll_back = is_new_pack && !force;
                FinalizeActions { stamp_failure: !finished, roll_back, mark_installed: !roll_back && touch_pack_status }
            }
        },
    }
}

/// A pack whose tests failed is never both rolled back and marked
/// installed, and only a new pack registered without `force` is rolled back.
pub proof fn law_finalize_never_installs_rolled_back_pack(
    ended: Option<(Seq<char>, bool)>,
    is_new_pack: bool,
    force: bool,
    touch: bool,
)
    ensures
        ({
            let a = finalize_spec(ended, is_new_pack, force, touch);
            &&& !(a.roll_back && a.mark_installed)
            &&& a.roll_back ==> is_new_pack && !force && match ended {
                Some((status, _)) => !run_succeeded(status),
                None => false,
            }
        }),
{
}

/// What a check of one runtime of a pack found.
#[derive(Debug, PartialEq, Eq)]
pub enum RuntimeProbe {
    /// The runtime was skipped, is not declared, or its dependency file
    /// (`requirements.txt`, `package.json`) is missing: nothing to report.
    NotNeeded,
    /// The runtime's interpreter did not answer.
    Unavailable,
    /// The interpreter answered `version_output`; the environment directory
    /// and whether it exists.
    Available { version_output: String, env_path: String, env_exists: bool },
}

/// Whether a runtime of a pack must be checked: not skipped, declared in
/// the manifest, with its dependency file present.
pub fn runtime_probe_needed(skip: bool, declared: bool, dependency_file_exists: bool) -> (b: bool)
    ensures
        b == (!skip && declared && dependency_file_exists),
{
    !skip && declared && dependency_file_exists
}

/// The state of one runtime environment of a pack.
#[derive(Debug, PartialEq, Eq)]
pub struct EnvironmentReport {
    pub env_path: String,
    pub installed: bool,
    pub package_count: u32,
    pub runtime_version: String,
}

/// A runtime environment that could not be prepared.
#[derive(Debug, PartialEq, Eq)]
pub struct FailedEnvironment {
    pub pack_ref: String,
    pub pack_path: String,
    pub runtime: String,
    pub error: String,
}

/// The environments found for a pack.
#[derive(Debug, PartialEq, Eq)]
pub struct BuiltEnvironment {
    pub pack_ref: String,
    pub pack_path: String,
    pub python: Option<EnvironmentReport>,
    pub nodejs: Option<EnvironmentReport>,
}

/// The outcome of checking a pack's environments.
#[derive(Debug, PartialEq, Eq)]
pub struct PackEnvironmentOutcome {
    pub built: Option<BuiltEnvironment>,
    pub failure: Option<FailedEnvironment>,
}

/// The report of one runtime's environment, taken from that runtime's own
/// probe: its environment directory, whether that directory exists, no
/// package count, and the interpreter's trimmed version output. Nothing is
/// reported for a runtime that was not needed or did not answer.
pub open spec fn report_spec(probe: RuntimeProbe, report: Option<EnvironmentReport>) -> bool {
    match probe {
        RuntimeProbe::Available { version_output, env_path, env_exists } => report matches Some(rep)
            && rep.env_path@ == env_path@ && rep.installed == env_exists && rep.package_count == 0
            && rep.runtime_version@ == trim_spec(version_output@),
        _ => report is None,
    }
}

fn report_of(probe: &RuntimeProbe) -> (r: Option<EnvironmentReport>)
    ensures
        report_spec(*probe, r),
{
    match probe {
        RuntimeProbe::Available { version_output, env_path, env_exists } => Some(EnvironmentReport {
            env_path: env_path.clone(),
            installed: *env_exists,
            package_count: 0,
            runtime_version: trim(version_output.as_str()).to_string(),
        }),
        _ => None,
    }
}

/// The failure recorded for a runtime whose interpreter is unavailable.
pub open spec fn runtime_unavailable_message(python: bool) -> Seq<char> {
    if python {
        "Python 3 not available in system"@
    } else {
        "Node.js not available in system"@
    }
}

/// Combines the checks of a pack's runtimes: an unavailable Python fails
/// the pack (Node.js is then not considered), an unavailable Node.js fails
/// it too; otherwise the pack is reported when some environment was found.
pub fn evaluate_pack_environments(
    pack_ref: &str,
    pack_path: &str,
    python: &RuntimeProbe,
    nodejs: &RuntimeProbe,
) -> (r: PackEnvironmentOutcome)
    ensures
        *python == RuntimeProbe::Unavailable ==> r.built is None && (r.failure matches Some(f) && f.runtime@
            == "python"@ && f.error@ == runtime_unavailable_message(true) && f.pack_ref@ == pack_ref@
            && f.pack_path@ == pack_path@),
        *python != RuntimeProbe::Unavailable && *nodejs == RuntimeProbe::Unavailable ==> r.built is None && (
        r.failure matches Some(f) && f.runtime@ == "nodejs"@ && f.error@ == runtime_unavailable_message(false)
            && f.pack_ref@ == pack_ref@ && f.pack_path@ == pack_path@),
        *python != RuntimeProbe::Unavailable && *nodejs != RuntimeProbe::Unavailable ==> r.failure is None && (
        (python is Available || nodejs is Available) <==> r.built is Some),
        r.built matches Some(b) ==> b.pack_ref@ == pack_ref@ && b.pack_path@ == pack_path@ && report_spec(
            *python,
            b.python,
        ) && report_spec(*nodejs, b.nodejs),
{
    if matches!(python, RuntimeProbe::Unavailable) {
        return PackEnvironmentOutcome {
            built: None,
            failure: Some(FailedEnvironment {
                pack_ref: pack_ref.to_string(),
                pack_path: pack_path.to_string(),
                runtime: String::from_str("python"),
                error: String::from_str("Python 3 not available in system"),
            }),
        };
    }
    if matches!(nodejs, RuntimeProbe::Unavailable) {
        return PackEnvironmentOutcome {
            built: None,
            failure: Some(FailedEnvironment {
                pack_ref: pack_ref.to_string(),
                pack_path: pack_path.to_string(),
                runtime: String::from_str("nodejs"),
                error: String::from_str("Node.js not available in system"),
            }),
        };
    }
    let py = report_of(python);
    let node = report_of(nodejs);
    if py.is_none() && node.is_none() {
        return PackEnvironmentOutcome { built: None, failure: None };
    }
    PackEnvironmentOutcome {
        built: Some(BuiltEnvironment {
            pack_ref: pack_ref.to_string(),
            pack_path: pack_path.to_string(),
            python: py,
            nodejs: node,
        }),
        failure: None,
    }
}

/// The failure recorded for a pack whose manifest could not be had (missing,
/// unreadable or not parsable): its ref and runtime are not known.
pub fn manifest_failure(pack_path: &str, error: String) -> (f: FailedEnvironment)
    ensures
        f.pack_ref@ == "unknown"@,
        f.pack_path@ == pack_path@,
        f.runtime@ == "unknown"@,
        f.error@ == error@,
{
    FailedEnvironment {
        pack_ref: String::from_str("unknown"),
        pack_path: pack_path.to_string(),
        runtime: String::from_str("unknown"),
        error,
    }
}

/// The tallies of one request to check the environments of several packs.
#[derive(Debug, PartialEq, Eq)]
pub struct BuildSummary {
    pub total_packs: usize,
    pub success_count: usize,
    pub failure_count: usize,
    pub python_envs_built: usize,
    pub nodejs_envs_built: usize,
}

/// Whether a pack's Python environment is counted as built: Python
/// answered (even when Node.js then fails the pack).
pub open spec fn python_env_counted(python: RuntimeProbe) -> bool {
    python is Available
}

/// Whether a pack's Node.js environment is counted as built: Python did not
/// fail the pack and Node.js answered.
pub open spec fn nodejs_env_counted(python: RuntimeProbe, nodejs: RuntimeProbe) -> bool {
    !(python is Unavailable) && nodejs is Available
}

/// One more unit for `b`, none for `!b`.
pub open spec fn count_of(b: bool) -> int {
    if b {
        1
    } else {
        0
    }
}

impl BuildSummary {
    /// The tallies before any pack is looked at.
    pub fn new(total_packs: usize) -> (s: BuildSummary)
        ensures
            s.total_packs == total_packs,
            s.success_count == 0,
            s.failure_count == 0,
            s.python_envs_built == 0,
            s.nodejs_envs_built == 0,
    {
        BuildSummary { total_packs, success_count: 0, failure_count: 0, python_envs_built: 0, nodejs_envs_built: 0 }
    }

    /// Counts a pack whose manifest could not be had: one more failure.
    pub fn record_manifest_failure(&mut self)
        requires
            old(self).failure_count < usize::MAX,
        ensures
            final(self).total_packs == old(self).total_packs,
            final(self).success_count == old(self).success_count,
            final(self).failure_count == old(self).failure_count + 1,
            final(self).python_envs_built == old(self).python_envs_built,
            final(self).nodejs_envs_built == old(self).nodejs_envs_built,
    {
        self.failure_count = self.failure_count + 1;
    }

    /// Counts the outcome of checking one pack's runtimes from the probes
    /// that gave it: a success when environments are reported, a failure
    /// when one is recorded, and the Python and Node.js environments found.
    pub fn record_outcome(&mut self, outcome: &PackEnvironmentOutcome, python: &RuntimeProbe, nodejs: &RuntimeProbe)
        requires
            old(self).success_count < usize::MAX,
            old(self).failure_count < usize::MAX,
            old(self).python_envs_built < usize::MAX,
            old(self).nodejs_envs_built < usize::MAX,
        ensures
            final(self).total_packs == old(self).total_packs,
            final(self).success_count == old(self).success_count + count_of(outcome.built is Some),
            final(self).failure_count == old(self).failure_count + count_of(outcome.failure is Some),
            final(self).python_envs_built == old(self).python_envs_built + count_of(python_env_counted(*python)),
            final(self).nodejs_envs_built == old(self).nodejs_envs_built + count_of(
                nodejs_env_counted(*python, *nodejs),
            ),
    {
        if outcome.built.is_some() {
            self.success_count = self.success_count + 1;
        }
        if outcome.failure.is_some() {
            self.failure_count = self.failure_count + 1;
        }
        let python_answered = match python {
            RuntimeProbe::Available { .. } => true,
            _ => false,
        };
        let python_failed = match python {
            RuntimeProbe::Unavailable => true,
            _ => false,
        };
        let nodejs_answered = match nodejs {
            RuntimeProbe::Available { .. } => true,
            _ => false,
        };
        if python_answered {
            self.python_envs_built = self.python_envs_built + 1;
        }
        if !python_failed && nodejs_answered {
            self.nodejs_envs_built = self.nodejs_envs_built + 1;
        }
    }
}

/// How long an install waits for a worker's pack test run, in seconds.
pub const PACK_TEST_WAIT_SECS: u64 = 600;

/// How long an install sleeps between polls of a pack test run, in seconds.
pub const PACK_TEST_POLL_SECS: u64 = 2;

/// The failure recorded for a pack test run that did not finish in time.
pub open spec fn pack_test_timeout_message() -> Seq<char> {
    "Timed out waiting for worker to complete pack tests"@
}

/// The next step of waiting for a pack test run.
#[derive(Debug, PartialEq, Eq)]
pub enum PackTestWait {
    /// The run's record is terminal: hand it back.
    Finished,
    /// The wait is over: record the run as failed with this message.
    TimedOut(String),
    /// Sleep `PACK_TEST_POLL_SECS` and look again.
    Poll,
}

/// Decides the next step of waiting for a pack test run. `record_terminal`
/// tells whether the run's record was found and, if so, whether its status
/// is terminal; `deadline_passed` whether the wait has lasted
/// `PACK_TEST_WAIT_SECS`.
pub fn pack_test_wait_step(record_terminal: Option<bool>, deadline_passed: bool) -> (w: PackTestWait)
    ensures
        record_terminal == Some(true) ==> w == PackTestWait::Finished,
        record_terminal != Some(true) && deadline_passed ==> (w matches PackTestWait::TimedOut(m)
            && m@ == pack_test_timeout_message()),
        record_terminal != Some(true) && !deadline_passed ==> w == PackTestWait::Poll,
{
    if record_terminal == Some(true) {
        PackTestWait::Finished
    } else if deadline_passed {
        PackTestWait::TimedOut(String::from_str("Timed out waiting for worker to complete pack tests"))
    } else {
        PackTestWait::Poll
    }
}

/// The error when a manual test run finds no test configuration.
pub open spec fn no_test_configuration_message() -> Seq<char> {
    "No enabled testing configuration found in pack.yaml"@
}

/// The outcome of dispatching a manual pack test run: the dispatch's own
/// outcome, or, when the pack has no enabled test configuration
/// (`dispatched` is `None`), a bad request.
pub fn manual_test_dispatch(dispatched: Option<Result<i64, ApiError>>) -> (r: Result<i64, ApiError>)
    ensures
        match dispatched {
            Some(d) => r == d,
            None => outcome(r) == Err::<i64, ErrorView>(api_err(ErrorKind::BadRequest, no_test_configuration_message())),
        },
{
    match dispatched {
        Some(d) => d,
        None => Err(ApiError::BadRequest(String::from_str("No enabled testing configuration found in pack.yaml"))),
    }
}

} // verus!
