use attune_routes::auth::{AuthenticatedUser, Claims, MetadataEntry, MetadataValue, TokenType};
use attune_routes::files::{
    check_pack_archive_ref_shape, file_authorization_scope, file_transfer_verdict, mime_from_extension,
    pack_archive_scope, pack_archive_verdict, pack_candidate_worker_id, pack_ref_from_component_ref,
    candidate_token_from_header, check_candidate_token_hash, validate_pack_archive_ref, FileAuthorizationScope, FileOperation, HttpStatus, PackArchiveScope,
    SizeLimitedWriter,
};

fn file_user(token_type: TokenType, metadata: Option<Vec<MetadataEntry>>) -> AuthenticatedUser {
    AuthenticatedUser {
        claims: Claims {
            sub: "1".to_string(),
            login: "test".to_string(),
            iat: 0,
            exp: i64::MAX,
            token_type,
            scope: None,
            metadata,
        },
    }
}

fn text_entry(key: &str, value: &str) -> Vec<MetadataEntry> {
    vec![MetadataEntry { key: key.to_string(), value: MetadataValue::Text(value.to_string()) }]
}

fn int_entry(key: &str, value: i64) -> Vec<MetadataEntry> {
    vec![MetadataEntry { key: key.to_string(), value: MetadataValue::Integer(value) }]
}

#[test]
fn candidate_archive_writer_enforces_its_heap_limit() {
    let mut writer = SizeLimitedWriter::new(4);
    assert_eq!(writer.write(b"abc").unwrap(), 3);
    assert!(writer.write(b"de").is_err());
    assert_eq!(writer.into_inner(), b"abc");
}

#[test]
fn candidate_archives_require_scoped_worker_tokens() {
    assert_eq!(
        pack_candidate_worker_id(&file_user(TokenType::Worker, Some(text_entry("worker_id", "42")))).unwrap(),
        42
    );

    for candidate in [
        file_user(TokenType::Worker, None),
        file_user(TokenType::Execution, Some(int_entry("execution_id", 42))),
        file_user(TokenType::Sensor, Some(text_entry("sensor_ref", "core.timer"))),
        file_user(TokenType::Access, None),
    ] {
        assert_eq!(pack_candidate_worker_id(&candidate).unwrap_err().status, HttpStatus::Forbidden);
    }
}

#[test]
fn operation_classes_follow_http_capabilities() {
    assert_eq!(
        file_authorization_scope(&file_user(TokenType::Worker, None), FileOperation::Mutate).unwrap(),
        FileAuthorizationScope::Worker
    );
    assert_eq!(
        file_authorization_scope(
            &file_user(TokenType::Execution, Some(int_entry("execution_id", 42))),
            FileOperation::Read,
        )
        .unwrap(),
        FileAuthorizationScope::ExecutionRead
    );
    assert_eq!(
        file_authorization_scope(
            &file_user(TokenType::Execution, Some(int_entry("execution_id", 42))),
            FileOperation::Mutate,
        )
        .unwrap(),
        FileAuthorizationScope::ExecutionMutation(42)
    );
    assert_eq!(
        file_authorization_scope(
            &file_user(TokenType::Sensor, Some(text_entry("sensor_ref", "core.timer"))),
            FileOperation::Read,
        )
        .unwrap(),
        FileAuthorizationScope::Sensor("core.timer".to_string())
    );
    assert_eq!(
        file_authorization_scope(&file_user(TokenType::Execution, None), FileOperation::Mutate)
            .unwrap_err()
            .status,
        HttpStatus::Forbidden
    );
    assert_eq!(
        file_authorization_scope(
            &file_user(TokenType::Execution, Some(int_entry("execution_id", 43))),
            FileOperation::Mutate,
        )
        .unwrap(),
        FileAuthorizationScope::ExecutionMutation(43)
    );
}

#[test]
fn size_limited_writer_accepts_exact_fill_and_keeps_content_after_refusal() {
    let mut writer = SizeLimitedWriter::new(5);
    assert_eq!(writer.write(b"ab").unwrap(), 2);
    assert_eq!(writer.write(b"cde").unwrap(), 3);
    assert!(writer.write(b"f").is_err());
    assert!(writer.flush().is_ok());
    assert_eq!(writer.into_inner(), b"abcde");
}

#[test]
fn mime_types_follow_the_last_extension() {
    assert_eq!(mime_from_extension("report.json"), "application/json");
    assert_eq!(mime_from_extension("archive.tar.gz"), "application/gzip");
    assert_eq!(mime_from_extension("noext"), "application/octet-stream");
}

#[test]
fn pack_archive_refs_must_be_one_visible_component() {
    for pack_ref in ["core", "my_pack", "my-pack-2"] {
        assert!(check_pack_archive_ref_shape(pack_ref).is_ok(), "{pack_ref}");
    }
    for pack_ref in ["", ".pack-test-1", "..", "../core", "core/other"] {
        let err = check_pack_archive_ref_shape(pack_ref).unwrap_err();
        assert_eq!(err.status, HttpStatus::BadRequest);
        assert_eq!(err.message, "Invalid pack_ref: expected one non-hidden path component");
    }
}

#[test]
fn component_refs_name_their_pack_before_the_first_dot() {
    assert_eq!(pack_ref_from_component_ref("core.echo", true).as_deref(), Some("core"));
    assert_eq!(pack_ref_from_component_ref("other.echo", true).as_deref(), Some("other"));
    assert_eq!(pack_ref_from_component_ref("core.echo.extra", false), None);
    assert_eq!(pack_ref_from_component_ref("nodot", true), None);
}

#[test]
fn pack_archive_scopes_follow_the_token_kind() {
    assert_eq!(
        pack_archive_scope(&file_user(TokenType::Worker, Some(text_entry("worker_id", "7")))).unwrap(),
        PackArchiveScope::Worker
    );
    assert_eq!(
        pack_archive_scope(&file_user(TokenType::Execution, Some(int_entry("execution_id", 9)))).unwrap(),
        PackArchiveScope::Execution(9)
    );
    assert_eq!(
        pack_archive_scope(&file_user(TokenType::Sensor, Some(text_entry("sensor_ref", " core.timer ")))).unwrap(),
        PackArchiveScope::Sensor("core.timer".to_string())
    );
    let worker_err = pack_archive_scope(&file_user(TokenType::Worker, None)).unwrap_err();
    assert_eq!(worker_err.message, "Worker token is missing its worker_id scope");
    let access_err = pack_archive_scope(&file_user(TokenType::Access, None)).unwrap_err();
    assert_eq!(access_err.status, HttpStatus::Forbidden);
    assert_eq!(access_err.message, "Token is not authorized for this pack archive");
}

#[test]
fn pack_archive_downloads_need_the_owning_pack() {
    assert!(pack_archive_verdict(Some("core"), "core").is_ok());
    assert!(pack_archive_verdict(Some("other"), "core").is_err());
    assert!(pack_archive_verdict(None, "core").is_err());
    assert!(file_transfer_verdict(true).is_ok());
    assert_eq!(
        file_transfer_verdict(false).unwrap_err().message,
        "Token is not authorized for this artifact file path"
    );
}

fn is_ref_word(part: &str) -> bool {
    !part.is_empty() && part.chars().all(|c| c.is_ascii_alphanumeric() || c == '_' || c == '-')
}

// Pack refs, as the ref validator accepts them: letters, digits, `_` and `-`.
fn pack_ref_check(pack_ref: &str) -> Result<(), String> {
    if is_ref_word(pack_ref) {
        Ok(())
    } else {
        Err(format!("'{}' is not a valid pack ref", pack_ref))
    }
}

// Component refs, as the ref validator accepts them: `pack.name`.
fn component_ref_valid(component_ref: &str) -> bool {
    match component_ref.split_once('.') {
        Some((pack, name)) => is_ref_word(pack) && is_ref_word(name),
        None => false,
    }
}

#[test]
fn pack_archive_refs_are_single_visible_components() {
    for pack_ref in ["core", "my_pack", "my-pack-2"] {
        assert!(validate_pack_archive_ref(pack_ref, pack_ref_check(pack_ref)).is_ok(), "{pack_ref}");
    }
    for pack_ref in ["", ".pack-test-1", "..", "../core", "core/other", "core\\other"] {
        assert!(validate_pack_archive_ref(pack_ref, pack_ref_check(pack_ref)).is_err(), "{pack_ref}");
    }
}

#[test]
fn execution_archive_scope_uses_a_valid_component_pack_ref() {
    let pack_of = |r: &str| pack_ref_from_component_ref(r, component_ref_valid(r));
    assert_eq!(pack_of("core.echo").as_deref(), Some("core"));
    assert_eq!(pack_of("other.echo").as_deref(), Some("other"));
    assert_eq!(pack_of("core.echo.extra"), None);
    assert_eq!(pack_of(".hidden"), None);
}

#[test]
fn archive_ref_errors_report_their_cause() {
    let shape = validate_pack_archive_ref("../core", Ok(())).unwrap_err();
    assert_eq!(shape.status, HttpStatus::BadRequest);
    assert_eq!(shape.message, "Invalid pack_ref: expected one non-hidden path component");
    let rejected = validate_pack_archive_ref("core\\other", Err("bad character".to_string())).unwrap_err();
    assert_eq!(rejected.message, "Invalid pack_ref: bad character");
}

#[test]
fn access_tokens_use_their_users_artifact_grants() {
    for op in [FileOperation::Read, FileOperation::Mutate] {
        assert_eq!(
            file_authorization_scope(&file_user(TokenType::Access, None), op).unwrap(),
            FileAuthorizationScope::User(op)
        );
    }
    let refused = file_authorization_scope(&file_user(TokenType::Refresh, None), FileOperation::Read).unwrap_err();
    assert_eq!(refused.status, HttpStatus::Forbidden);
    assert_eq!(refused.message, "Internal file transfer endpoints require access, execution, sensor, or worker tokens");
}

// Stands in for the integration-token hash of the platform's auth module:
// any deterministic digest serves to check how the header is handled.
fn token_hash(token: &str) -> String {
    format!("sha256-of:{}", token)
}

fn authorize_candidate(header: Option<&str>, expected_hash: &str) -> Result<(), HttpStatus> {
    let token = candidate_token_from_header(header).map_err(|e| e.status)?;
    check_candidate_token_hash(&token_hash(token), expected_hash).map_err(|e| e.status)
}

#[test]
fn candidate_archives_require_the_attempt_secret() {
    let secret = "attempt-secret";
    let expected_hash = token_hash(secret);
    assert_eq!(authorize_candidate(None, &expected_hash).unwrap_err(), HttpStatus::Forbidden);
    assert_eq!(authorize_candidate(Some("wrong-secret"), &expected_hash).unwrap_err(), HttpStatus::NotFound);
    assert!(authorize_candidate(Some(secret), &expected_hash).is_ok());
    assert!(authorize_candidate(Some("  attempt-secret "), &expected_hash).is_ok());
    assert_eq!(authorize_candidate(Some("   "), &expected_hash).unwrap_err(), HttpStatus::Forbidden);
}
