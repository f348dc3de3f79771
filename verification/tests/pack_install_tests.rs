use attune_routes::auth::ApiError;
use attune_routes::pack_install::{
    candidate_test_verdict, check_pack_replacement, check_registry_id_usage, check_upload_size,
    dependency_validation_failed, evaluate_pack_environments, extract_pack_manifest, finalize_actions,
    handle_test_dispatch_failure, install_pack_dependencies, install_runtime_requirements, manifest_pack_ref,
    pack_dependency_requirements, split_dependency, test_trigger_reason, upload_flag, ManifestEntry, ManifestValue,
    manifest_failure, manifest_ref_or_unknown, manifest_string_list, manifest_text_value, parse_pack_manifest,
    manual_test_dispatch, pack_test_wait_step, BuildSummary, PackTestWait, RuntimeProbe, PACK_TEST_POLL_SECS, PACK_TEST_WAIT_SECS,
    PACK_UPLOAD_MAX_BYTES,
};

fn text(key: &str, value: &str) -> ManifestEntry {
    ManifestEntry { key: Some(key.to_string()), value: ManifestValue::Text(value.to_string()) }
}

fn list(key: &str, values: Vec<Option<&str>>) -> ManifestEntry {
    ManifestEntry {
        key: Some(key.to_string()),
        value: ManifestValue::Sequence(values.into_iter().map(|v| v.map(String::from)).collect()),
    }
}

#[test]
fn manifests_supply_registration_metadata() {
    let entries = vec![
        text("ref", "demo"),
        text("version", "1.0.0"),
        list("keywords", vec![Some("a"), None, Some("b")]),
        list("dependencies", vec![Some("core@>=1"), Some("other")]),
    ];
    let pack_ref = manifest_pack_ref(&entries).unwrap();
    let manifest = extract_pack_manifest(&entries, pack_ref).unwrap();
    assert_eq!(manifest.label, "demo");
    assert_eq!(manifest.version, "1.0.0");
    assert_eq!(manifest.description, None);
    assert_eq!(manifest.tags, vec!["a".to_string(), "b".to_string()]);
    assert_eq!(manifest.runtime_deps, Vec::<String>::new());
    assert_eq!(manifest.dependencies.len(), 2);

    let no_version = vec![text("ref", "demo")];
    assert_eq!(
        extract_pack_manifest(&no_version, "demo".to_string()).unwrap_err(),
        ApiError::BadRequest("Missing 'version' field in pack.yaml".to_string())
    );
    assert_eq!(
        manifest_pack_ref(&vec![list("ref", vec![])]).unwrap_err(),
        ApiError::BadRequest("Missing 'ref' field in pack.yaml".to_string())
    );
}

#[test]
fn install_dependency_requirements() {
    let entries = vec![text("python", "3.11"), text("nodejs", "20"), list("dependencies", vec![Some("core")])];
    assert_eq!(install_runtime_requirements(&entries), vec!["python3>=3.11".to_string(), "nodejs>=20".to_string()]);
    let deps = install_pack_dependencies(&entries);
    assert_eq!(deps[0].pack_ref, "core");
    assert_eq!(deps[0].version, "*");
    assert_eq!(
        dependency_validation_failed(&vec!["a missing".to_string(), "b too old".to_string()]),
        ApiError::BadRequest("Pack dependency validation failed:\n  - a missing\n  - b too old".to_string())
    );
}

#[test]
fn dependency_analysis_splits_versions_and_marks_installed() {
    assert_eq!(split_dependency("core@>=1.0"), ("core".to_string(), ">=1.0".to_string()));
    assert_eq!(split_dependency("core"), ("core".to_string(), "*".to_string()));
    let entries = vec![list("dependencies", vec![Some("core@1"), Some("extra")])];
    let reqs = pack_dependency_requirements(&entries, &vec!["core".to_string()]);
    assert_eq!(reqs.len(), 2);
    assert_eq!(reqs[0].required_by, "unknown");
    assert!(reqs[0].already_installed);
    assert_eq!(reqs[1].version_spec, "*");
    assert!(!reqs[1].already_installed);
}

#[test]
fn registration_failure_handling() {
    assert!(check_registry_id_usage(Some(1), false).is_err());
    assert!(check_registry_id_usage(Some(1), true).is_ok());
    assert_eq!(
        check_pack_replacement("demo", true, false).unwrap_err(),
        ApiError::Conflict("Pack 'demo' already exists. Use force=true to reinstall.".to_string())
    );
    assert!(check_pack_replacement("demo", true, true).is_ok());
    assert_eq!(test_trigger_reason(true), "install");
    let forced = handle_test_dispatch_failure(true, true, "boom");
    assert!(!forced.roll_back_new_pack && forced.error.is_none());
    let failed = handle_test_dispatch_failure(false, true, "boom");
    assert!(failed.roll_back_new_pack);
    assert_eq!(
        failed.error,
        Some(ApiError::BadRequest(
            "Pack registration failed: could not dispatch tests. Error: boom. Use force=true to register anyway."
                .to_string()
        ))
    );
    assert!(candidate_test_verdict("succeeded", None).is_ok());
    assert_eq!(
        candidate_test_verdict("failed", None).unwrap_err(),
        ApiError::BadRequest("Candidate pack tests failed: worker reported a failed test run".to_string())
    );
}

#[test]
fn finalizing_rolls_back_only_new_unforced_packs() {
    let failed = finalize_actions(Some(("failed", false)), true, false, true);
    assert!(failed.roll_back && failed.stamp_failure && !failed.mark_installed);
    let forced = finalize_actions(Some(("failed", true)), true, true, true);
    assert!(!forced.roll_back && !forced.stamp_failure && forced.mark_installed);
    let ok = finalize_actions(Some(("succeeded", true)), true, false, true);
    assert!(ok.mark_installed && !ok.roll_back);
    let gone = finalize_actions(None, true, false, true);
    assert!(!gone.mark_installed && !gone.roll_back && !gone.stamp_failure);
}

#[test]
fn upload_form_flags_and_size_limit() {
    assert!(upload_flag(" TRUE "));
    assert!(!upload_flag("yes"));
    assert!(check_upload_size(PACK_UPLOAD_MAX_BYTES).is_ok());
    assert_eq!(
        check_upload_size(PACK_UPLOAD_MAX_BYTES + 1).unwrap_err(),
        ApiError::BadRequest("Pack archive too large: 104857601 bytes (max 104857600 bytes)".to_string())
    );
}

#[test]
fn environment_checks_report_failures_first() {
    let py = RuntimeProbe::Available {
        version_output: "Python 3.11.2\n".to_string(),
        env_path: "/p/venv".to_string(),
        env_exists: false,
    };
    let outcome = evaluate_pack_environments("demo", "/p", &py, &RuntimeProbe::NotNeeded);
    let built = outcome.built.unwrap();
    assert_eq!(built.python.unwrap().runtime_version, "Python 3.11.2");
    assert!(built.nodejs.is_none());
    let failed = evaluate_pack_environments("demo", "/p", &RuntimeProbe::Unavailable, &RuntimeProbe::NotNeeded);
    assert!(failed.built.is_none());
    assert_eq!(failed.failure.unwrap().error, "Python 3 not available in system");
    let nothing = evaluate_pack_environments("demo", "/p", &RuntimeProbe::NotNeeded, &RuntimeProbe::NotNeeded);
    assert!(nothing.built.is_none() && nothing.failure.is_none());
}

#[test]
fn waiting_for_pack_tests_polls_until_terminal_or_deadline() {
    assert_eq!(pack_test_wait_step(Some(true), false), PackTestWait::Finished);
    assert_eq!(pack_test_wait_step(Some(true), true), PackTestWait::Finished);
    assert_eq!(pack_test_wait_step(Some(false), false), PackTestWait::Poll);
    assert_eq!(pack_test_wait_step(None, false), PackTestWait::Poll);
    assert_eq!(
        pack_test_wait_step(None, true),
        PackTestWait::TimedOut("Timed out waiting for worker to complete pack tests".to_string())
    );
    assert_eq!(PACK_TEST_WAIT_SECS, 600);
    assert_eq!(PACK_TEST_POLL_SECS, 2);
}

#[test]
fn manual_test_runs_need_a_test_configuration() {
    assert_eq!(manual_test_dispatch(Some(Ok(7))), Ok(7));
    assert_eq!(
        manual_test_dispatch(Some(Err(ApiError::NotFound("x".to_string())))),
        Err(ApiError::NotFound("x".to_string()))
    );
    assert_eq!(
        manual_test_dispatch(None),
        Err(ApiError::BadRequest("No enabled testing configuration found in pack.yaml".to_string()))
    );
}

#[test]
fn environment_reports_come_from_their_own_runtime_probe() {
    let py = RuntimeProbe::Available {
        version_output: " Python 3.12.1\n".to_string(),
        env_path: "/p/venv".to_string(),
        env_exists: true,
    };
    let node = RuntimeProbe::Available {
        version_output: "v20.11.0\n".to_string(),
        env_path: "/p/node_modules".to_string(),
        env_exists: false,
    };
    let built = evaluate_pack_environments("demo", "/p", &py, &node).built.unwrap();
    let python = built.python.unwrap();
    assert_eq!(python.env_path, "/p/venv");
    assert!(python.installed);
    assert_eq!(python.package_count, 0);
    assert_eq!(python.runtime_version, "Python 3.12.1");
    let nodejs = built.nodejs.unwrap();
    assert_eq!(nodejs.env_path, "/p/node_modules");
    assert!(!nodejs.installed);
    assert_eq!(nodejs.runtime_version, "v20.11.0");
    let node_fails = evaluate_pack_environments("demo", "/p", &py, &RuntimeProbe::Unavailable);
    assert!(node_fails.built.is_none());
    assert_eq!(node_fails.failure.unwrap().runtime, "nodejs");
}

#[test]
fn build_summary_counts_packs_and_environments() {
    let py = RuntimeProbe::Available {
        version_output: "Python 3.12.1".to_string(),
        env_path: "/a/venv".to_string(),
        env_exists: false,
    };
    let node = RuntimeProbe::Available {
        version_output: "v20".to_string(),
        env_path: "/a/node_modules".to_string(),
        env_exists: false,
    };
    let mut summary = BuildSummary::new(4);
    let both = evaluate_pack_environments("a", "/a", &py, &node);
    summary.record_outcome(&both, &py, &node);
    // Python answers, Node.js does not: the pack fails, its Python environment still counts.
    let half = evaluate_pack_environments("b", "/b", &py, &RuntimeProbe::Unavailable);
    summary.record_outcome(&half, &py, &RuntimeProbe::Unavailable);
    // Python fails: Node.js is not looked at.
    let no_python = evaluate_pack_environments("c", "/c", &RuntimeProbe::Unavailable, &node);
    summary.record_outcome(&no_python, &RuntimeProbe::Unavailable, &node);
    summary.record_manifest_failure();
    assert_eq!(
        summary,
        BuildSummary { total_packs: 4, success_count: 1, failure_count: 3, python_envs_built: 2, nodejs_envs_built: 1 }
    );
    let missing = manifest_failure("/d", "pack.yaml not found".to_string());
    assert_eq!(missing.pack_ref, "unknown");
    assert_eq!(missing.pack_path, "/d");
    assert_eq!(missing.runtime, "unknown");
    assert_eq!(missing.error, "pack.yaml not found");
}

#[test]
fn pack_manifests_are_parsed_from_yaml() {
    let yaml = "ref: demo\nversion: \"1.2.0\"\npython: 3.11\ndependencies:\n  - core\n  - 7\n  - tools\n1: numeric key\n";
    let entries = parse_pack_manifest(yaml).unwrap();
    assert_eq!(entries.len(), 5);
    assert_eq!(entries[0], ManifestEntry { key: Some("ref".to_string()), value: ManifestValue::Text("demo".to_string()) });
    assert_eq!(entries[2], ManifestEntry { key: Some("python".to_string()), value: ManifestValue::Other });
    assert_eq!(
        entries[3].value,
        ManifestValue::Sequence(vec![Some("core".to_string()), None, Some("tools".to_string())])
    );
    assert_eq!(entries[4], ManifestEntry { key: None, value: ManifestValue::Other });
    assert_eq!(manifest_text_value(&entries, "version"), Some("1.2.0".to_string()));
    assert_eq!(manifest_text_value(&entries, "python"), None);
    assert_eq!(manifest_string_list(&entries, "dependencies"), vec!["core".to_string(), "tools".to_string()]);
    assert_eq!(manifest_ref_or_unknown(&entries), "demo");
    assert!(parse_pack_manifest("- a\n- b\n").unwrap().is_empty());
    assert_eq!(manifest_ref_or_unknown(&parse_pack_manifest("name: x\n").unwrap()), "unknown");
    assert!(parse_pack_manifest("ref: [unclosed\n").is_err());
}
