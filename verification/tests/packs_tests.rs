use attune_routes::auth::{ApiError, TokenType};
use attune_routes::packs::{
    authorize_global_pack_registry_action, authorize_pack_mutation, check_pack_ref_available, created_pack_installer,
    direct_download_check, find_pack_icon, headers_from_json, EntryProbe, pack_icon_files, validated_pack_removal_ref, PackMutation,
    check_requested_version, concrete_source_metadata, detect_pack_source, get_source_type, pack_action_allowed,
    preferred_install_source, registry_encryption_key, remote_pack_source, require_pack_access_token,
    required_runtimes_for_test_config, restore_redacted_headers, validate_registry_manifest_identity,
    InstallSource, LocalPathKind, PackSource, PackSourceClass, RegistryHeader, RegistryPackIdentity,
    TemporaryInstallCleanup,
};
use attune_routes::rbac::{
    has_unconstrained_resource_action, Action, Grant, GrantConstraints, OwnerConstraint, OwnerType, Resource,
};

fn path(parts: &[&str]) -> Vec<String> {
    parts.iter().map(|p| p.to_string()).collect()
}

fn no_constraints() -> GrantConstraints {
    GrantConstraints {
        pack_refs: None,
        owner: None,
        owner_types: None,
        owner_refs: None,
        visibility: None,
        execution_scope: None,
        refs: None,
        ids: None,
        encrypted: None,
        attributes: None,
    }
}

#[test]
fn privileged_pack_operations_reject_service_tokens() {
    assert!(require_pack_access_token(&TokenType::Access).is_ok());
    for token_type in [TokenType::Execution, TokenType::Sensor, TokenType::Worker, TokenType::Refresh] {
        assert!(require_pack_access_token(&token_type).is_err());
    }
}

#[test]
fn registry_manifest_identity_must_match_ref_and_version() {
    let identity = RegistryPackIdentity {
        pack_ref: "example".to_string(),
        version: "1.2.3".to_string(),
        registry_url: "https://registry.example/index.json".to_string(),
    };
    assert!(validate_registry_manifest_identity(Some(&identity), "example", "1.2.3").is_ok());
    assert!(validate_registry_manifest_identity(Some(&identity), "other", "1.2.3").is_err());
    assert!(validate_registry_manifest_identity(Some(&identity), "example", "2.0.0").is_err());
}

#[test]
fn no_registry_rejects_implicit_registry_references() {
    assert!(detect_pack_source("example", false, None).is_err());
    assert!(matches!(
        detect_pack_source("example", true, None).unwrap(),
        PackSourceClass::Resolved(PackSource::Registry { .. })
    ));
}

#[test]
fn manifest_mismatch_message_names_both_sides() {
    let identity = RegistryPackIdentity {
        pack_ref: "example".to_string(),
        version: "1.2.3".to_string(),
        registry_url: "https://registry.example/index.json".to_string(),
    };
    assert_eq!(
        validate_registry_manifest_identity(Some(&identity), "other", "2.0.0").unwrap_err(),
        ApiError::BadRequest("Registry entry example@1.2.3 does not match downloaded manifest other@2.0.0".to_string())
    );
    assert!(validate_registry_manifest_identity(None, "anything", "0").is_ok());
}

#[test]
fn unsafe_remote_transports_are_refused() {
    for source in ["git://example.com/repo.git", "git@example.com:repo.git", "file:///tmp/repo", "ftp://example.com/repo.zip"] {
        assert!(detect_pack_source(source, true, None).is_err(), "{}", source);
    }
    assert_eq!(
        detect_pack_source("git@example.com:repo.git", true, None).unwrap_err(),
        ApiError::BadRequest("Remote Git pack sources must use an approved HTTPS URL".to_string())
    );
    assert_eq!(
        detect_pack_source("ftp://example.com/repo.zip", true, None).unwrap_err(),
        ApiError::BadRequest("Unsupported remote pack source scheme".to_string())
    );
}

#[test]
fn pack_sources_are_classified() {
    assert_eq!(detect_pack_source("https://example.com/p.tar.gz", true, None).unwrap(), PackSourceClass::RemoteUrl);
    assert_eq!(
        detect_pack_source("/tmp/pack.tar.gz", true, Some(LocalPathKind::File)).unwrap(),
        PackSourceClass::Resolved(PackSource::LocalArchive { path: "/tmp/pack.tar.gz".to_string() })
    );
    assert_eq!(
        detect_pack_source("/tmp/pack", false, Some(LocalPathKind::Directory)).unwrap(),
        PackSourceClass::Resolved(PackSource::LocalDirectory { path: "/tmp/pack".to_string() })
    );
    assert_eq!(
        detect_pack_source("git@0.2.0", true, None).unwrap(),
        PackSourceClass::Resolved(PackSource::Registry { pack_ref: "git".to_string(), version: Some("0.2.0".to_string()) })
    );
    assert_eq!(
        detect_pack_source("pack@1@2", true, None).unwrap(),
        PackSourceClass::Resolved(PackSource::Registry { pack_ref: "pack".to_string(), version: Some("1@2".to_string()) })
    );
}

#[test]
fn remote_sources_are_git_for_dot_git_paths_or_refs() {
    assert_eq!(
        remote_pack_source("https://h/p.git".to_string(), "/p.git", None),
        PackSource::Git { url: "https://h/p.git".to_string(), git_ref: None }
    );
    assert_eq!(
        remote_pack_source("https://h/p".to_string(), "/p", Some("v1")),
        PackSource::Git { url: "https://h/p".to_string(), git_ref: Some("v1".to_string()) }
    );
    assert_eq!(
        remote_pack_source("https://h/p.tgz".to_string(), "/p.tgz", None),
        PackSource::Archive { url: "https://h/p.tgz".to_string() }
    );
}

#[test]
fn source_types_and_metadata() {
    let git = PackSource::Git { url: "https://h/p.git".to_string(), git_ref: Some("main".to_string()) };
    assert_eq!(get_source_type(&git), "git");
    assert_eq!(concrete_source_metadata(&git), (Some("https://h/p.git".to_string()), Some("main".to_string())));
    let reg = PackSource::Registry { pack_ref: "x".to_string(), version: None };
    assert_eq!(get_source_type(&reg), "registry");
    assert_eq!(concrete_source_metadata(&reg), (None, None));
    assert_eq!(get_source_type(&PackSource::LocalArchive { path: "/a".to_string() }), "local_archive");
}

#[test]
fn temporary_install_cleanup_targets_the_install_root() {
    let mut cleanup = TemporaryInstallCleanup::new(
        &path(&["tmp", "attune"]),
        &path(&["tmp", "attune", "pack-installs", "install-id", "nested-pack"]),
    );
    assert_eq!(cleanup.root(), Some(path(&["tmp", "attune", "pack-installs", "install-id"])));
    cleanup.disarm();
    assert_eq!(cleanup.root(), None);

    let outside = TemporaryInstallCleanup::new(&path(&["tmp", "attune"]), &path(&["srv", "packs", "demo"]));
    assert_eq!(outside.into_root(), None);
    let at_root = TemporaryInstallCleanup::new(&path(&["tmp"]), &path(&["tmp", "pack-installs"]));
    assert_eq!(at_root.into_root(), None);
}

#[test]
fn registry_credentials_need_an_encryption_key() {
    assert_eq!(registry_encryption_key(Some("k")).unwrap(), "k");
    assert_eq!(
        registry_encryption_key(None).unwrap_err(),
        ApiError::InternalServerError("Cannot store registry credentials without security.encryption_key".to_string())
    );
}

#[test]
fn python_runners_require_python() {
    assert_eq!(required_runtimes_for_test_config(&vec!["script".to_string()]), Vec::<String>::new());
    assert_eq!(
        required_runtimes_for_test_config(&vec!["pytest".to_string(), "unittest".to_string()]),
        vec!["python".to_string()]
    );
}

#[test]
fn registry_versions_and_install_sources() {
    assert!(check_requested_version("p", None, "1.0").is_ok());
    assert!(check_requested_version("p", Some("latest"), "1.0").is_ok());
    assert_eq!(
        check_requested_version("p", Some("2.0"), "1.0").unwrap_err(),
        ApiError::BadRequest("Pack p version 2.0 not found (available: 1.0)".to_string())
    );
    let sources = vec![
        InstallSource::Archive { url: "https://a".to_string() },
        InstallSource::Git { url: "https://g".to_string(), git_ref: None },
    ];
    assert_eq!(
        preferred_install_source("p", &sources).unwrap(),
        InstallSource::Git { url: "https://g".to_string(), git_ref: None }
    );
    let archives = vec![InstallSource::Archive { url: "https://a".to_string() }];
    assert_eq!(preferred_install_source("p", &archives).unwrap(), InstallSource::Archive { url: "https://a".to_string() });
    assert_eq!(
        preferred_install_source("p", &vec![]).unwrap_err(),
        ApiError::BadRequest("Pack p has no install sources".to_string())
    );
}

#[test]
fn redacted_headers_are_restored_from_stored_values() {
    let existing = vec![RegistryHeader { name: "Authorization".to_string(), value: "Bearer secret".to_string() }];
    let requested = vec![
        RegistryHeader { name: "Authorization".to_string(), value: "[REDACTED]".to_string() },
        RegistryHeader { name: "X-Other".to_string(), value: "plain".to_string() },
    ];
    let restored = restore_redacted_headers(&requested, &existing).unwrap();
    assert_eq!(restored[0].value, "Bearer secret");
    assert_eq!(restored[1].value, "plain");
    let new_redacted = vec![RegistryHeader { name: "Authorization".to_string(), value: "[REDACTED]".to_string() }];
    assert_eq!(
        restore_redacted_headers(&new_redacted, &vec![]).unwrap_err(),
        ApiError::BadRequest("Redacted registry header 'Authorization' has no existing value".to_string())
    );
}

#[test]
fn pack_actions_on_foreign_packs_need_pack_scoped_grants() {
    let unscoped = Grant { resource: Resource::Packs, actions: vec![Action::Delete], constraints: None };
    let mut c = no_constraints();
    c.owner = Some(OwnerConstraint::Any);
    let scoped = Grant { resource: Resource::Packs, actions: vec![Action::Delete], constraints: Some(c) };
    // Standard packs are always allowed.
    assert!(pack_action_allowed(true, Some(9), 1, &vec![], Action::Delete, &vec![], false));
    // Someone else's pack: only a pack-scoped grant that allows it counts.
    assert!(!pack_action_allowed(false, Some(9), 1, &vec![unscoped], Action::Delete, &vec![true], true));
    assert!(pack_action_allowed(false, Some(9), 1, &vec![scoped], Action::Delete, &vec![true], false));
    // Own or ownerless packs: as the grants decide.
    assert!(pack_action_allowed(false, Some(1), 1, &vec![], Action::Delete, &vec![], true));
    assert!(!pack_action_allowed(false, None, 1, &vec![], Action::Delete, &vec![], false));
}

#[test]
fn direct_pack_sources_reject_unsafe_remote_transports() {
    for source in ["git://example.com/repo.git", "git@example.com:repo.git", "file:///tmp/repo", "ftp://example.com/repo.zip"] {
        assert!(detect_pack_source(source, true, None).is_err(), "{}", source);
    }
    // An HTTPS source goes to remote URL validation and is not echoed back here.
    assert_eq!(
        detect_pack_source("https://github.com/attacker/pack.git?token=super-secret", true, None),
        Ok(PackSourceClass::RemoteUrl)
    );
}

fn ref_check(pack_ref: &str) -> Result<(), String> {
    // Pack refs are single path components of letters, digits, `_` and `-`.
    if !pack_ref.is_empty() && pack_ref.chars().all(|c| c.is_ascii_alphanumeric() || c == '_' || c == '-') {
        Ok(())
    } else {
        Err(format!("'{}' is not a valid pack ref", pack_ref))
    }
}

#[test]
fn malformed_pack_removal_refs_fail_before_storage_access() {
    assert!(validated_pack_removal_ref("../outside", "demo", ref_check("../outside"), ref_check("demo")).is_err());
    assert!(validated_pack_removal_ref("demo", "../outside", ref_check("demo"), ref_check("../outside")).is_err());
    assert!(validated_pack_removal_ref("demo", "other", ref_check("demo"), ref_check("other")).is_err());
    assert_eq!(validated_pack_removal_ref("demo", "demo", ref_check("demo"), ref_check("demo")).unwrap(), "demo");
}

#[test]
fn removal_ref_errors_name_their_cause() {
    assert_eq!(
        validated_pack_removal_ref("../x", "demo", Err("bad".to_string()), Ok(())),
        Err(ApiError::BadRequest("Invalid pack ref: bad".to_string()))
    );
    assert_eq!(
        validated_pack_removal_ref("demo", "../x", Ok(()), Err("bad".to_string())),
        Err(ApiError::InternalServerError("Persisted pack ref is invalid: bad".to_string()))
    );
    assert_eq!(
        validated_pack_removal_ref("demo", "other", Ok(()), Ok(())),
        Err(ApiError::InternalServerError("Requested and persisted pack refs do not match".to_string()))
    );
}

#[test]
fn global_pack_index_needs_an_access_token_and_an_unconstrained_grant() {
    let unconstrained = vec![Grant { resource: Resource::Packs, actions: vec![Action::Configure], constraints: None }];
    assert_eq!(authorize_global_pack_registry_action(&TokenType::Access, &unconstrained, Action::Configure), Ok(()));
    assert_eq!(
        authorize_global_pack_registry_action(&TokenType::Access, &unconstrained, Action::Read),
        Err(ApiError::Forbidden("Global pack index access requires an unconstrained Packs Read grant".to_string()))
    );
    let scoped = vec![Grant {
        resource: Resource::Packs,
        actions: vec![Action::Configure],
        constraints: Some(GrantConstraints { pack_refs: Some(vec!["example".to_string()]), ..no_constraints() }),
    }];
    assert_eq!(
        authorize_global_pack_registry_action(&TokenType::Access, &scoped, Action::Configure),
        Err(ApiError::Forbidden("Global pack index access requires an unconstrained Packs Configure grant".to_string()))
    );
    assert_eq!(
        authorize_global_pack_registry_action(&TokenType::Sensor, &unconstrained, Action::Configure),
        Err(ApiError::Forbidden("This pack operation requires an access token".to_string()))
    );
}

#[test]
fn global_pack_index_administration_rejects_every_constraint_dimension() {
    let constrained = [
        GrantConstraints { owner: Some(OwnerConstraint::Any), ..no_constraints() },
        GrantConstraints { owner: Some(OwnerConstraint::Unowned), ..no_constraints() },
        GrantConstraints { owner: Some(OwnerConstraint::SelfOnly), ..no_constraints() },
        GrantConstraints { pack_refs: Some(vec!["example".to_string()]), ..no_constraints() },
        GrantConstraints { owner_types: Some(vec![OwnerType::Pack]), ..no_constraints() },
        GrantConstraints { owner_refs: Some(vec!["example".to_string()]), ..no_constraints() },
        GrantConstraints { refs: Some(vec!["example".to_string()]), ..no_constraints() },
        GrantConstraints { ids: Some(vec![1]), ..no_constraints() },
        GrantConstraints { attributes: Some(vec!["team".to_string()]), ..no_constraints() },
    ];
    for constraints in constrained {
        let grants = vec![Grant { resource: Resource::Packs, actions: vec![Action::Configure], constraints: Some(constraints) }];
        assert!(!has_unconstrained_resource_action(&grants, Resource::Packs, Action::Configure));
    }
    for constraints in [None, Some(no_constraints())] {
        let grants = vec![Grant { resource: Resource::Packs, actions: vec![Action::Configure], constraints }];
        assert!(has_unconstrained_resource_action(&grants, Resource::Packs, Action::Configure));
    }
}

#[test]
fn pack_mutations_follow_ownership() {
    let scoped = Grant {
        resource: Resource::Packs,
        actions: vec![Action::Configure, Action::Delete],
        constraints: Some(GrantConstraints { owner: Some(OwnerConstraint::Any), ..no_constraints() }),
    };
    let grants = vec![scoped];
    // Own pack: the service decides, and must still confirm.
    assert_eq!(authorize_pack_mutation(PackMutation::Configure, false, Some(42), 42, &grants, &vec![false], true), Ok(true));
    assert_eq!(
        authorize_pack_mutation(PackMutation::Configure, false, Some(42), 42, &grants, &vec![true], false),
        Err(ApiError::Forbidden("Not authorized to configure pack".to_string()))
    );
    // Someone else's pack: only a pack-scoped grant that allows it.
    assert_eq!(authorize_pack_mutation(PackMutation::Delete, false, Some(7), 42, &grants, &vec![true], false), Ok(false));
    assert_eq!(
        authorize_pack_mutation(PackMutation::Delete, false, Some(7), 42, &grants, &vec![false], true),
        Err(ApiError::Forbidden("Not authorized to delete pack".to_string()))
    );
    // Standard packs may be configured, but replacing them is decided normally.
    assert_eq!(authorize_pack_mutation(PackMutation::Configure, true, Some(7), 42, &grants, &vec![false], false), Ok(false));
    assert_eq!(
        authorize_pack_mutation(PackMutation::Replace, true, Some(7), 42, &grants, &vec![false], false),
        Err(ApiError::Forbidden("Not authorized to replace pack".to_string()))
    );
    assert_eq!(authorize_pack_mutation(PackMutation::Replace, false, None, 42, &grants, &vec![false], true), Ok(true));
}

#[test]
fn new_packs_record_their_creator_unless_standard() {
    assert_eq!(check_pack_ref_available("demo", false), Ok(()));
    assert_eq!(
        check_pack_ref_available("demo", true),
        Err(ApiError::Conflict("Pack with ref 'demo' already exists".to_string()))
    );
    assert_eq!(created_pack_installer(Some(42), false), Some(42));
    assert_eq!(created_pack_installer(Some(42), true), None);
    assert_eq!(created_pack_installer(None, false), None);
}

#[test]
fn pack_icons_are_looked_for_in_priority_order() {
    let files = pack_icon_files();
    assert_eq!(files.len(), 5);
    assert_eq!(files[0], ("pack-icon.svg", "image/svg+xml"));
    assert_eq!(files[1], ("pack-icon.png", "image/png"));
    assert_eq!(files[4], ("pack-icon.ico", "image/x-icon"));
}

#[test]
fn plain_downloads_refuse_registry_references() {
    assert_eq!(direct_download_check(&PackSource::Archive { url: "https://example.com/p.tar.gz".to_string() }), Ok(()));
    assert_eq!(direct_download_check(&PackSource::LocalDirectory { path: "/srv/p".to_string() }), Ok(()));
    let refused = direct_download_check(&PackSource::Registry { pack_ref: "example".to_string(), version: None });
    assert!(refused.unwrap_err().starts_with("Registry references must use /api/v1/packs/install"));
}

#[test]
fn registry_headers_must_be_an_object_of_strings() {
    let headers = headers_from_json(
        Some(vec![("Authorization".to_string(), Some("Bearer x".to_string())), ("X-Team".to_string(), Some("ops".to_string()))]),
        Ok(()),
    )
    .unwrap();
    assert_eq!(headers.len(), 2);
    assert_eq!((headers[0].name.as_str(), headers[0].value.as_str()), ("Authorization", "Bearer x"));
    assert_eq!(headers_from_json(Some(vec![]), Ok(())).unwrap().len(), 0);
    assert_eq!(
        headers_from_json(None, Ok(())).map(|h| h.len()),
        Err(ApiError::BadRequest("Pack index headers must be a JSON object".to_string()))
    );
    assert_eq!(
        headers_from_json(Some(vec![("A".to_string(), Some("1".to_string())), ("B".to_string(), None)]), Ok(()))
            .map(|h| h.len()),
        Err(ApiError::BadRequest("Pack index header values must be strings".to_string()))
    );
    assert_eq!(
        headers_from_json(Some(vec![("Host".to_string(), Some("x".to_string()))]), Err("header Host is not allowed".to_string()))
            .map(|h| h.len()),
        Err(ApiError::BadRequest("header Host is not allowed".to_string()))
    );
}

#[test]
fn redacted_new_registry_header_is_rejected() {
    let requested = headers_from_json(Some(vec![("Authorization".to_string(), Some("[REDACTED]".to_string()))]), Ok(()))
        .unwrap();
    assert!(restore_redacted_headers(&requested, &vec![]).is_err());
}

#[test]
fn managed_registry_headers_are_encrypted_and_redactions_preserve_secrets() {
    // The encryption itself belongs to the platform's crypto module; what the
    // library decides is the plaintext that gets encrypted.
    let existing = headers_from_json(Some(vec![("Authorization".to_string(), Some("Bearer secret".to_string()))]), Ok(()))
        .unwrap();
    let requested = headers_from_json(Some(vec![("Authorization".to_string(), Some("[REDACTED]".to_string()))]), Ok(()))
        .unwrap();
    let plaintext = restore_redacted_headers(&requested, &existing).unwrap();
    assert_eq!(plaintext.len(), 1);
    assert_eq!(plaintext[0].name, "Authorization");
    assert_eq!(plaintext[0].value, "Bearer secret");
    assert!(plaintext.iter().all(|h| h.value != "[REDACTED]"));
}

const DIR: EntryProbe = EntryProbe { is_dir: true, is_file: false, is_symlink: false };
const FILE: EntryProbe = EntryProbe { is_dir: false, is_file: true, is_symlink: false };
const LINK: EntryProbe = EntryProbe { is_dir: false, is_file: false, is_symlink: true };

#[test]
fn finds_pack_icon_by_supported_filename_priority() {
    // pack-icon.svg and pack-icon.png exist in a plain pack directory.
    let candidates = vec![Some(FILE), Some(FILE), None, None, None];
    let (file_name, content_type) = find_pack_icon(Some(DIR), &candidates).expect("icon");
    assert_eq!(file_name, "pack-icon.svg");
    assert_eq!(content_type, "image/svg+xml");
    let (file_name, _) = find_pack_icon(Some(DIR), &vec![None, None, None, Some(FILE), Some(FILE)]).unwrap();
    assert_eq!(file_name, "pack-icon.jpeg");
}

#[test]
fn pack_icon_refuses_symlinks() {
    // pack-icon.svg is a symlink to a file outside the pack.
    assert!(find_pack_icon(Some(DIR), &vec![Some(LINK), None, None, None, None]).is_none());
    assert!(find_pack_icon(Some(LINK), &vec![Some(FILE), None, None, None, None]).is_none());
    assert!(find_pack_icon(None, &vec![Some(FILE), None, None, None, None]).is_none());
}
