use barepdf::tools::job::{password_fits, ToolJobSlot, ToolWorkerError};
use barepdf::tools::output::{split_dir_step, SplitStep};
use barepdf::tools::job::{tool_event_effect, ToolEventEffect};
use barepdf::tools::job::{
    answer_password, cancel_pending, finish_execution, operation_error, settle_execution,
    ExecutionResult, PasswordReply, PdfProblem, PendingPassword, SecretPassword, ToolEvent,
    ToolFailure, ToolJobKey, ToolRequest,
};
use barepdf::tools::output::{pages_or_all, parent_directory, unique_output_directory};

#[test]
fn password_is_redacted_and_zeroized_when_cleared() {
    let mut password = SecretPassword::new("not-for-logs".to_owned());

    assert_eq!(password.redacted_debug(), "SecretPassword([REDACTED])");
    password.clear();
    assert!(password.bytes_for_test().iter().all(|byte| *byte == 0));
}

#[test]
fn password_reads_back_as_its_text() {
    let password = SecretPassword::new("pässword".to_owned());
    assert_eq!(password.expose(), "pässword");
    assert_eq!(password.bytes_for_test(), "pässword".as_bytes());
}

#[test]
fn job_key_rejects_stale_generation_and_source_tokens() {
    let key = ToolJobKey::new(3, 19, 23);

    assert!(key.is_current(19, 23));
    assert!(!key.is_current(20, 23));
    assert!(!key.is_current(19, 24));
}

#[test]
fn replaced_password_is_the_one_given_for_its_source() {
    let mut request = ToolRequest::new(ToolJobKey::new(1, 1, 1), ());
    assert_eq!(request.password_for("a.pdf"), None);
    request.replace_password("a.pdf".to_string(), "first".to_string());
    request.replace_password("b.pdf".to_string(), "other".to_string());
    request.replace_password("a.pdf".to_string(), "second".to_string());
    assert_eq!(request.password_for("a.pdf"), Some("second"));
    assert_eq!(request.password_for("b.pdf"), Some("other"));
    assert_eq!(request.passwords.len(), 2);
}

#[test]
fn password_retry_stays_on_the_same_job_and_source() {
    let key = ToolJobKey::new(4, 29, 31);
    let mut pending: Option<PendingPassword<()>> = None;
    let event: ToolEvent<()> = settle_execution(
        ToolRequest::new(key, ()),
        ExecutionResult::PasswordRequired { source: "protected.pdf".to_string(), wrong_password: false },
        &mut pending,
    );
    assert!(matches!(
        event,
        ToolEvent::PasswordRequired { key: event_key, ref source, wrong_password: false }
            if event_key == key && source == "protected.pdf"
    ));

    let reply = answer_password(&mut pending, key, "other.pdf".to_string(), "wrong-target".to_owned());
    assert!(matches!(
        reply,
        PasswordReply::StillRequired { key: event_key, ref source, wrong_password: false }
            if event_key == key && source == "protected.pdf"
    ));
    assert!(pending.is_some());

    let reply = answer_password(&mut pending, key, "protected.pdf".to_string(), "bad".to_owned());
    let PasswordReply::Retry(request) = reply else {
        panic!("the waiting job runs again");
    };
    assert_eq!(request.key, key);
    assert_eq!(request.password_for("protected.pdf"), Some("bad"));
    assert!(pending.is_none());

    let event: ToolEvent<()> = settle_execution(
        request,
        ExecutionResult::PasswordRequired { source: "protected.pdf".to_string(), wrong_password: true },
        &mut pending,
    );
    assert!(matches!(
        event,
        ToolEvent::PasswordRequired { key: event_key, ref source, wrong_password: true }
            if event_key == key && source == "protected.pdf"
    ));
}

#[test]
fn password_for_no_waiting_job_is_ignored() {
    let mut pending: Option<PendingPassword<()>> = None;
    assert!(matches!(
        answer_password(&mut pending, ToolJobKey::new(1, 1, 1), "a.pdf".into(), "x".into()),
        PasswordReply::Ignored
    ));
}

#[test]
fn cancelling_drops_only_the_named_waiting_job() {
    let key = ToolJobKey::new(2, 1, 1);
    let mut pending: Option<PendingPassword<()>> = None;
    let _ = settle_execution::<(), ()>(
        ToolRequest::new(key, ()),
        ExecutionResult::PasswordRequired { source: "a.pdf".into(), wrong_password: false },
        &mut pending,
    );
    assert!(!cancel_pending(&mut pending, ToolJobKey::new(3, 1, 1)));
    assert!(pending.is_some());
    assert!(cancel_pending(&mut pending, key));
    assert!(pending.is_none());
}

#[test]
fn finished_runs_become_terminal_events() {
    let key = ToolJobKey::new(5, 1, 1);
    let mut pending: Option<PendingPassword<()>> = None;
    let event = settle_execution(ToolRequest::new(key, ()), ExecutionResult::Completed(7_u32), &mut pending);
    assert!(event.is_terminal());
    assert_eq!(event.key(), key);
    assert!(matches!(event, ToolEvent::Completed { outcome: 7, .. }));
    let failed: ToolEvent<u32> =
        settle_execution(ToolRequest::new(key, ()), ExecutionResult::Failed("boom".into()), &mut pending);
    assert!(matches!(failed, ToolEvent::Failed { ref message, .. } if message == "boom"));
    assert!(pending.is_none());
}

#[test]
fn work_finished_after_cancellation_counts_as_cancelled() {
    assert!(matches!(finish_execution(true, Ok::<u8, ToolFailure>(1)), ExecutionResult::Cancelled));
    assert!(matches!(finish_execution(false, Ok::<u8, ToolFailure>(1)), ExecutionResult::Completed(1)));
    assert!(matches!(
        finish_execution::<u8>(false, Err(ToolFailure::Failed("x".into()))),
        ExecutionResult::Failed(ref m) if m == "x"
    ));
    assert!(matches!(
        operation_error(Some("a.pdf".into()), PdfProblem::IncorrectPassword),
        ToolFailure::PasswordRequired { ref source, wrong_password: true } if source == "a.pdf"
    ));
    assert!(matches!(
        operation_error(None, PdfProblem::PasswordRequired),
        ToolFailure::PasswordRequired { ref source, wrong_password: false } if source.is_empty()
    ));
}

#[test]
fn all_pages_are_chosen_by_blank_all_or_star() {
    assert_eq!(pages_or_all("  ", 3), Some(vec![0, 1, 2]));
    assert_eq!(pages_or_all("all", 2), Some(vec![0, 1]));
    assert_eq!(pages_or_all(" * ", 1), Some(vec![0]));
    assert_eq!(pages_or_all("1-2", 3), None);
}

#[test]
fn split_output_directory_is_a_fresh_name_under_the_parent() {
    let directory = tempfile::tempdir().expect("temporary directory");
    let parent = directory.path().to_string_lossy().into_owned();
    let first = unique_output_directory(&parent, "book").ok().expect("a name is free");
    assert_eq!(first, directory.path().join("book_pages").to_string_lossy());
    let _taken = tempfile::Builder::new()
        .prefix("book_pages")
        .rand_bytes(0)
        .tempdir_in(directory.path())
        .expect("first directory");
    let second = unique_output_directory(&parent, "book").ok().expect("a name is free");
    assert_eq!(second, directory.path().join("book_pages_2").to_string_lossy());
}

#[test]
fn staging_directory_is_the_parent() {
    assert_eq!(parent_directory("/tmp/out/file.pdf"), "/tmp/out");
    assert_eq!(parent_directory("/"), ".");
}

#[test]
fn only_the_current_job_reaches_the_window() {
    let key = ToolJobKey::new(3, 10, 20);
    let active = Some(key);

    let done = ToolEvent::Completed { key, outcome: "out.pdf" };
    assert!(matches!(tool_event_effect(done, active, 10, 20), ToolEventEffect::Completed("out.pdf")));

    let ask = ToolEvent::<&str>::PasswordRequired { key, source: "a.pdf".into(), wrong_password: true };
    assert!(matches!(
        tool_event_effect(ask, active, 10, 20),
        ToolEventEffect::AskPassword { ref source, wrong_password: true } if source == "a.pdf"
    ));

    let stale_end = ToolEvent::<&str>::Failed { key, message: "boom".into() };
    assert!(matches!(tool_event_effect(stale_end, active, 11, 20), ToolEventEffect::ForgetStale));

    let stale_ask = ToolEvent::<&str>::PasswordRequired { key, source: "a.pdf".into(), wrong_password: false };
    assert!(matches!(tool_event_effect(stale_ask, active, 10, 21), ToolEventEffect::Ignore));

    let other = ToolEvent::<&str>::Cancelled { key: ToolJobKey::new(4, 10, 20) };
    assert!(matches!(tool_event_effect(other, active, 10, 20), ToolEventEffect::Ignore));

    let cancelled = ToolEvent::<&str>::Cancelled { key };
    assert!(matches!(tool_event_effect(cancelled, None, 10, 20), ToolEventEffect::Ignore));
}

#[test]
fn split_directory_takes_the_first_free_candidate() {
    assert_eq!(split_dir_step(1, false), SplitStep::Use);
    assert_eq!(split_dir_step(1, true), SplitStep::Next(2));
    assert_eq!(split_dir_step(9_999, true), SplitStep::Next(10_000));
    assert_eq!(split_dir_step(10_000, true), SplitStep::GiveUp);
    assert_eq!(split_dir_step(10_000, false), SplitStep::Use);
}

#[test]
fn tool_slot_allows_only_one_active_or_queued_job() {
    let mut slot = ToolJobSlot::new();
    assert!(slot.claim().is_ok());
    assert_eq!(slot.claim(), Err(ToolWorkerError::Busy));
    let key = ToolJobKey::new(1, 7, 11);
    slot.settle(&ToolEvent::<()>::PasswordRequired { key, source: "a.pdf".into(), wrong_password: false });
    assert!(slot.is_busy());
    slot.settle(&ToolEvent::<()>::Cancelled { key });
    assert!(!slot.is_busy());
    assert!(slot.claim().is_ok());
    assert_eq!(slot.send_failed(ToolWorkerError::Disconnected), ToolWorkerError::Disconnected);
    assert!(!slot.is_busy());
}

#[test]
fn passwords_are_limited_by_their_utf8_length() {
    assert!(password_fits("abc", 3));
    assert!(!password_fits("abcd", 3));
    assert!(!password_fits("çç", 3));
}
