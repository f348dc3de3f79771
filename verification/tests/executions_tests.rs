use attune_routes::auth::{ApiError, AuthenticatedUser, Claims, MetadataEntry, MetadataValue, TokenType};
use attune_routes::executions::{
    advance_log_tail, check_action_enabled, check_artifact_retention_limit, check_execution_permission_delegation,
    check_reschedulable, decode_utf8_chunk, log_chunk_from_read, effective_retention_limit, executor_identity, parse_execution_status,
    plan_cancellation, secret_parameters_key, sorted_unique, status_name, tally_execution_stats,
    validate_execution_log_stream_user, validate_execution_updates_stream_user, CancelPlan, ExecutionLogStream,
    ExecutionStatus, LogChunk, LogEventKind, LogTailProbe, LogTailState, StatusCount,
};

fn execution_user(execution_id: i64) -> AuthenticatedUser {
    AuthenticatedUser {
        claims: Claims {
            sub: "42".to_string(),
            login: "execution:123".to_string(),
            iat: 0,
            exp: 3600,
            token_type: TokenType::Execution,
            scope: Some("execution".to_string()),
            metadata: Some(vec![
                MetadataEntry { key: "execution_id".to_string(), value: MetadataValue::Integer(execution_id) },
                MetadataEntry { key: "action_ref".to_string(), value: MetadataValue::Text("core.echo".to_string()) },
            ]),
        },
    }
}

#[test]
fn execution_token_scope_must_match_requested_execution() {
    let user = execution_user(123);
    let err = validate_execution_log_stream_user(&user, 456).unwrap_err();
    assert!(matches!(err, ApiError::Forbidden(_)));
}

#[test]
fn execution_tokens_stream_only_their_own_execution() {
    let user = execution_user(123);
    assert!(validate_execution_log_stream_user(&user, 123).is_ok());
    assert_eq!(
        validate_execution_log_stream_user(&user, 456).unwrap_err(),
        ApiError::Forbidden("Execution token is not valid for execution 456".to_string())
    );
    assert!(matches!(validate_execution_updates_stream_user(&user, None), Err(ApiError::Forbidden(_))));
    assert!(validate_execution_updates_stream_user(&user, Some(123)).is_ok());
}

#[test]
fn statuses_parse_case_insensitively_and_round_trip() {
    for status in [
        ExecutionStatus::Requested,
        ExecutionStatus::Scheduling,
        ExecutionStatus::Scheduled,
        ExecutionStatus::Running,
        ExecutionStatus::Completed,
        ExecutionStatus::Failed,
        ExecutionStatus::Canceling,
        ExecutionStatus::Cancelled,
        ExecutionStatus::Timeout,
        ExecutionStatus::Abandoned,
    ] {
        assert_eq!(parse_execution_status(status_name(status)).unwrap(), status);
    }
    assert_eq!(parse_execution_status("RUNNING").unwrap(), ExecutionStatus::Running);
    assert_eq!(
        parse_execution_status("sleeping").unwrap_err(),
        ApiError::BadRequest("Invalid execution status: sleeping".to_string())
    );
}

#[test]
fn cancellation_depends_on_where_the_execution_is() {
    assert_eq!(plan_cancellation(1, ExecutionStatus::Requested).unwrap(), CancelPlan::CancelImmediately);
    assert_eq!(plan_cancellation(1, ExecutionStatus::Running).unwrap(), CancelPlan::RequestWorkerStop);
    assert_eq!(plan_cancellation(1, ExecutionStatus::Canceling).unwrap(), CancelPlan::AlreadyCanceling);
    assert_eq!(
        plan_cancellation(7, ExecutionStatus::Completed).unwrap_err(),
        ApiError::Conflict("Execution 7 is in status 'completed' and cannot be cancelled".to_string())
    );
    assert!(check_reschedulable(7, ExecutionStatus::Requested).is_ok());
    assert!(matches!(check_reschedulable(7, ExecutionStatus::Running), Err(ApiError::Conflict(_))));
}

#[test]
fn log_chunks_keep_incomplete_characters_pending() {
    let (text, pending) = decode_utf8_chunk("héllo".as_bytes().to_vec());
    assert_eq!(text, "héllo");
    assert!(pending.is_empty());

    let mut bytes = b"ab".to_vec();
    bytes.push(0xC3);
    let (text, pending) = decode_utf8_chunk(bytes);
    assert_eq!(text, "ab");
    assert_eq!(pending, vec![0xC3]);

    let (text, pending) = decode_utf8_chunk(vec![b'a', 0xFF, b'b']);
    assert_eq!(text, "a\u{FFFD}b");
    assert!(pending.is_empty());
}

#[test]
fn log_streams_parse_and_name_their_files() {
    assert_eq!(ExecutionLogStream::parse("stdout").unwrap(), ExecutionLogStream::Stdout);
    assert_eq!(ExecutionLogStream::parse("stderr").unwrap().file_name(), "stderr.log");
    assert_eq!(ExecutionLogStream::Stdout.artifact_ref(42), "execution.42.stdout");
    assert_eq!(
        ExecutionLogStream::parse("STDOUT").unwrap_err(),
        ApiError::BadRequest("Unsupported log stream 'STDOUT'. Expected 'stdout' or 'stderr'.".to_string())
    );
}

#[test]
fn log_tail_waits_then_streams_then_finishes() {
    let waiting = LogTailState::WaitingForFile { full_path: "/logs/1/stdout.log".to_string(), execution_id: 1 };
    let step = advance_log_tail(waiting, 0, LogTailProbe { file_exists: true, chunk: None, execution_terminal: false });
    assert_eq!(step.event.as_ref().unwrap().kind, LogEventKind::Waiting);
    let step = advance_log_tail(
        step.next,
        0,
        LogTailProbe {
            file_exists: true,
            chunk: Some(LogChunk { content: "hi".to_string(), new_offset: 2, pending_utf8: vec![] }),
            execution_terminal: false,
        },
    );
    let event = step.event.unwrap();
    assert_eq!(event.kind, LogEventKind::Content);
    assert_eq!(event.id.as_deref(), Some("2"));
    let mut state = advance_log_tail(step.next, 0, LogTailProbe { file_exists: true, chunk: None, execution_terminal: false }).next;
    let mut last_kind = LogEventKind::Comment;
    for _ in 0..3 {
        let step = advance_log_tail(state, 0, LogTailProbe { file_exists: true, chunk: None, execution_terminal: true });
        last_kind = step.event.unwrap().kind;
        state = step.next;
    }
    assert_eq!(last_kind, LogEventKind::Done);
    assert_eq!(state, LogTailState::Finished);
}

#[test]
fn execution_stats_are_tallied_by_status() {
    let rows = vec![
        StatusCount { status: "completed".to_string(), count: 3 },
        StatusCount { status: "failed".to_string(), count: 2 },
        StatusCount { status: "running".to_string(), count: 1 },
        StatusCount { status: "requested".to_string(), count: 4 },
    ];
    let stats = tally_execution_stats(&rows);
    assert_eq!(stats.total, 10);
    assert_eq!(stats.completed, 3);
    assert_eq!(stats.failed, 2);
    assert_eq!(stats.running, 1);
}

#[test]
fn manual_execution_defaults_and_checks() {
    assert_eq!(effective_retention_limit(None, None), 5);
    assert_eq!(effective_retention_limit(None, Some(9)), 9);
    assert_eq!(effective_retention_limit(Some(2), Some(9)), 2);
    assert!(check_artifact_retention_limit(Some(0)).is_err());
    assert!(check_artifact_retention_limit(None).is_ok());
    assert_eq!(executor_identity(TokenType::Execution, Some(1), Some(5), Some(7)), Some(7));
    assert_eq!(executor_identity(TokenType::Execution, Some(1), Some(5), None), Some(1));
    assert_eq!(executor_identity(TokenType::Access, Some(1), Some(5), Some(7)), Some(1));
    assert_eq!(
        check_action_enabled("core.echo", false).unwrap_err(),
        ApiError::BadRequest("Action 'core.echo' is disabled".to_string())
    );
    assert!(check_execution_permission_delegation(0, false).is_ok());
    assert!(matches!(check_execution_permission_delegation(2, false), Err(ApiError::Forbidden(_))));
    assert_eq!(secret_parameters_key(false, None).unwrap(), None);
    assert!(matches!(secret_parameters_key(true, None), Err(ApiError::InternalServerError(_))));
    assert_eq!(sorted_unique(&vec![5, 1, 5, 3, 1]), vec![1, 3, 5]);
}

#[test]
fn log_text_cut_anywhere_decodes_whole() {
    let text = "héllo → wörld 🎉 done";
    let bytes = text.as_bytes();
    for k in 0..=bytes.len() {
        let (a, p) = decode_utf8_chunk(bytes[..k].to_vec());
        let (b, q) = decode_utf8_chunk([p, bytes[k..].to_vec()].concat());
        assert_eq!(format!("{a}{b}"), text, "cut at {k}");
        assert!(q.is_empty());
    }
}

#[test]
fn log_reads_of_any_size_stream_the_whole_text() {
    let text = "línea 1 → ok\n日本語のログ\nend 🎉";
    let bytes = text.as_bytes();
    for size in 1..=7 {
        let mut offset = 0u64;
        let mut pending = Vec::new();
        let mut streamed = String::new();
        while (offset as usize) < bytes.len() {
            let end = (offset as usize + size).min(bytes.len());
            let chunk = log_chunk_from_read(offset, pending, bytes[offset as usize..end].to_vec()).unwrap();
            streamed.push_str(&chunk.content);
            offset = chunk.new_offset;
            pending = chunk.pending_utf8;
        }
        assert_eq!(streamed, text, "read size {size}");
        assert!(pending.is_empty());
        assert!(log_chunk_from_read(offset, pending, vec![]).is_none());
    }
}

#[test]
fn a_log_stream_sends_the_file_text_once_and_ends_once() {
    let file = "héllo wörld ✓ done".as_bytes().to_vec();
    let mut state = LogTailState::WaitingForFile { full_path: "/logs/9/stdout.log".to_string(), execution_id: 9 };
    let mut text = String::new();
    let mut ids: Vec<u64> = Vec::new();
    let mut done_events = 0;
    let mut steps_after_done = 0;
    for _ in 0..40 {
        let (offset, pending) = match &state {
            LogTailState::SendInitial { offset, pending_utf8, .. } => (Some(*offset), pending_utf8.clone()),
            LogTailState::Tail { offset, pending_utf8, .. } => (Some(*offset), pending_utf8.clone()),
            _ => (None, Vec::new()),
        };
        // Reads of three bytes at a time, cutting inside multibyte characters.
        let chunk = offset.and_then(|o| {
            let from = o as usize;
            let to = (from + 3).min(file.len());
            log_chunk_from_read(o, pending, file[from..to].to_vec())
        });
        let was_finished = matches!(state, LogTailState::Finished);
        let step = advance_log_tail(state, 0, LogTailProbe { file_exists: true, chunk, execution_terminal: true });
        if let Some(e) = &step.event {
            if done_events > 0 {
                steps_after_done += 1;
            }
            match e.kind {
                LogEventKind::Content | LogEventKind::Append => {
                    text.push_str(&e.data);
                    ids.push(e.id.as_ref().unwrap().parse().unwrap());
                },
                LogEventKind::Done => done_events += 1,
                _ => {},
            }
        } else {
            assert!(was_finished);
        }
        state = step.next;
    }
    assert_eq!(text, "héllo wörld ✓ done");
    assert_eq!(done_events, 1);
    assert_eq!(steps_after_done, 0);
    assert!(ids.windows(2).all(|w| w[0] < w[1]));
    assert_eq!(*ids.last().unwrap(), file.len() as u64);
    assert_eq!(state, LogTailState::Finished);
}
