use attune_routes::auth::ApiError;
use attune_routes::packs::{InstallSource, PackSource, RegistryPackIdentity};
use attune_routes::provenance::{
    build_pack_install_provenance, canonical_pack_checksum, install_checksum, registry_fallback_occurred, equivalent_remote_pack_urls, ChecksumSubject,
    InstalledPack, PackRegistryIndexSummary, RegistryResolution,
};

fn archive_install(checksum: &str, verified: bool) -> InstalledPack {
    InstalledPack {
        path: "/tmp/pack".to_string(),
        source: PackSource::Archive { url: "https://downloads.example.com/pack.tar.gz".to_string() },
        checksum: Some(checksum.to_string()),
        checksum_subject: Some(ChecksumSubject::ArchiveBytes),
        checksum_verified: verified,
        registry_identity: Some(RegistryPackIdentity {
            pack_ref: "example".to_string(),
            version: "1.2.3".to_string(),
            registry_url: "https://registry.example.com/index.json".to_string(),
        }),
    }
}

#[test]
fn registry_provenance_uses_concrete_artifact_and_detects_fallback() {
    let installed = archive_install(&format!("sha256:{}", "a".repeat(64)), true);
    let resolution = RegistryResolution {
        registry_url: "https://registry.example.com/index.json".to_string(),
        entry_ref: "example".to_string(),
        entry_version: "1.2.3".to_string(),
        preferred_source: InstallSource::Git {
            url: "https://github.com/example/pack.git".to_string(),
            git_ref: Some("v1.2.3".to_string()),
        },
    };
    assert!(!resolution.matches(
        &installed.source,
        Some("https://github.com/example/pack.git"),
        Some("https://downloads.example.com/pack.tar.gz"),
    ));

    let provenance = build_pack_install_provenance(
        &installed,
        &vec![PackRegistryIndexSummary {
            id: Some(42),
            name: Some("Example".to_string()),
            url: "https://registry.example.com/index.json".to_string(),
            position: 0,
        }],
        installed.checksum.clone(),
        installed.checksum_subject,
        true,
        true,
    );
    assert_eq!(provenance.artifact_type, "archive");
    assert_eq!(provenance.artifact_url.as_deref(), Some("https://downloads.example.com/pack.tar.gz"));
    assert_eq!(provenance.registry_id, Some(42));
    assert_eq!(provenance.resolved_pack.as_deref(), Some("example@1.2.3"));
    assert_eq!(provenance.checksum_subject, Some(ChecksumSubject::ArchiveBytes));
    assert!(provenance.checksum_verified);
    assert!(provenance.fallback_occurred);
}

#[test]
fn registry_source_matching_uses_canonical_validated_urls() {
    let resolution = RegistryResolution {
        registry_url: "https://registry.example.com/index.json".to_string(),
        entry_ref: "example".to_string(),
        entry_version: "1.2.3".to_string(),
        preferred_source: InstallSource::Git {
            url: "https://EXAMPLE.com.:443/pack.git".to_string(),
            git_ref: Some("a".repeat(40)),
        },
    };
    let installed = PackSource::Git { url: "https://example.com/pack.git".to_string(), git_ref: Some("a".repeat(40)) };

    assert!(resolution.matches(&installed, Some("https://EXAMPLE.com.:443/pack.git"), Some("https://example.com/pack.git")));
    assert!(!equivalent_remote_pack_urls(
        Some("https://example.com/pack.git?token=secret"),
        Some("https://example.com/pack.git"),
    ));
}

#[test]
fn unverified_archive_provenance_keeps_archive_checksum_subject() {
    let checksum = format!("sha256:{}", "c".repeat(64));
    let installed = archive_install(&checksum, false);

    let provenance = build_pack_install_provenance(
        &installed,
        &vec![],
        installed.checksum.clone(),
        installed.checksum_subject,
        installed.checksum_verified,
        false,
    );

    assert_eq!(provenance.checksum.as_deref(), Some(checksum.as_str()));
    assert_eq!(provenance.checksum_subject, Some(ChecksumSubject::ArchiveBytes));
    assert!(!provenance.checksum_verified);
}

#[test]
fn pack_checksums_are_canonicalized() {
    let raw = "A".repeat(64);
    // The checksum parser refuses a bare digest; it accepts the prefixed form.
    assert_eq!(canonical_pack_checksum(&raw, None).unwrap(), format!("sha256:{}", "a".repeat(64)));
    assert_eq!(
        canonical_pack_checksum(&format!("SHA256:{raw}"), Some(format!("sha256:{}", "a".repeat(64)))).unwrap(),
        format!("sha256:{}", "a".repeat(64))
    );
}

#[test]
fn checksums_without_a_canonical_form_are_internal_errors() {
    let expected = ApiError::InternalServerError(
        "Pack installer returned a checksum in a non-canonical format".to_string(),
    );
    assert_eq!(canonical_pack_checksum(&"a".repeat(63), None), Err(expected));
    assert!(canonical_pack_checksum(&"g".repeat(64), None).is_err());
    assert!(canonical_pack_checksum("md5:abc", None).is_err());
    assert_eq!(canonical_pack_checksum(&"0123456789ABCDEF".repeat(4), None).unwrap(), format!("sha256:{}", "0123456789abcdef".repeat(4)));
}

#[test]
fn provenance_registry_id_takes_the_first_summary_of_the_same_registry() {
    let installed = archive_install("sha256:x", true);
    let summaries = vec![
        PackRegistryIndexSummary { id: Some(1), name: None, url: "https://other.example/index.json".to_string(), position: 0 },
        PackRegistryIndexSummary { id: Some(7), name: None, url: "https://REGISTRY.example.com.:443/index.json".to_string(), position: 1 },
        PackRegistryIndexSummary { id: Some(9), name: None, url: "https://registry.example.com/index.json".to_string(), position: 2 },
    ];
    let provenance = build_pack_install_provenance(&installed, &summaries, None, None, false, false);
    assert_eq!(provenance.registry_id, Some(7));
    assert_eq!(provenance.registry_url.as_deref(), Some("https://registry.example.com/index.json"));
    assert_eq!(provenance.checksum, None);

    let local = InstalledPack {
        path: "/packs/demo".to_string(),
        source: PackSource::LocalDirectory { path: "/srv/demo".to_string() },
        checksum: None,
        checksum_subject: Some(ChecksumSubject::DirectoryContent),
        checksum_verified: false,
        registry_identity: None,
    };
    let provenance = build_pack_install_provenance(&local, &summaries, None, local.checksum_subject, false, false);
    assert_eq!(provenance.artifact_type, "local_directory");
    assert_eq!(provenance.artifact_url.as_deref(), Some("/srv/demo"));
    assert_eq!(provenance.registry_id, None);
    assert_eq!(provenance.resolved_pack, None);
    assert_eq!(provenance.checksum_subject, Some(ChecksumSubject::DirectoryContent));
}

#[test]
fn refused_urls_are_never_equivalent() {
    assert!(!equivalent_remote_pack_urls(None, Some("https://example.com/pack.git")));
    assert!(!equivalent_remote_pack_urls(Some("https://example.com/pack.git"), None));
    assert!(equivalent_remote_pack_urls(Some("https://example.com/a.tar.gz"), Some("https://EXAMPLE.COM/a.tar.gz")));

    let resolution = RegistryResolution {
        registry_url: "https://registry.example.com/index.json".to_string(),
        entry_ref: "example".to_string(),
        entry_version: "1.0.0".to_string(),
        preferred_source: InstallSource::Archive { url: "https://example.com/a.tar.gz".to_string() },
    };
    let installed = PackSource::Archive { url: "https://example.com/a.tar.gz".to_string() };
    assert!(resolution.matches(&installed, Some("https://example.com/a.tar.gz"), Some("https://example.com/a.tar.gz")));
    assert!(!resolution.matches(&installed, Some("https://example.com/a.tar.gz"), None));
    let git = PackSource::Git { url: "https://example.com/a.tar.gz".to_string(), git_ref: None };
    assert!(!resolution.matches(&git, Some("https://example.com/a.tar.gz"), Some("https://example.com/a.tar.gz")));
}

#[test]
fn install_checksums_prefer_the_installer_then_the_directory_digest() {
    let digest = "b".repeat(64);
    assert_eq!(
        install_checksum(Some(&"A".repeat(64)), None, Some(ChecksumSubject::ArchiveBytes), Some(digest.clone())),
        Ok((Some(format!("sha256:{}", "a".repeat(64))), Some(ChecksumSubject::ArchiveBytes)))
    );
    assert_eq!(
        install_checksum(None, None, Some(ChecksumSubject::ArchiveBytes), Some(digest.clone())),
        Ok((Some(format!("sha256:{}", digest)), Some(ChecksumSubject::DirectoryContent)))
    );
    assert_eq!(install_checksum(None, None, None, None), Ok((None, None)));
    assert!(install_checksum(Some("nonsense"), None, None, Some(digest)).is_err());
}

#[test]
fn only_registry_installs_can_fall_back() {
    let installed = PackSource::Archive { url: "https://example.com/a.tar.gz".to_string() };
    assert!(!registry_fallback_occurred(None, &installed, None, None));
    let resolution = RegistryResolution {
        registry_url: "https://registry.example.com/index.json".to_string(),
        entry_ref: "example".to_string(),
        entry_version: "1.0.0".to_string(),
        preferred_source: InstallSource::Git { url: "https://example.com/a.git".to_string(), git_ref: None },
    };
    assert!(registry_fallback_occurred(
        Some(&resolution),
        &installed,
        Some("https://example.com/a.git"),
        Some("https://example.com/a.tar.gz")
    ));
    let git = PackSource::Git { url: "https://example.com/a.git".to_string(), git_ref: None };
    assert!(!registry_fallback_occurred(Some(&resolution), &git, Some("https://example.com/a.git"), Some("https://example.com/a.git")));
}
