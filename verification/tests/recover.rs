//! Surviving panics, stuck tasks, bad frames and lost agents; external editors.

use wizard::app::recover::{
    answer_for, panic_message, rebuild_recovery, turn_failure, within, DrawFaults, PanicPayload,
    RebuildRecovery, TerminalWatchdog, TurnOutcome, AGENT_REBUILD_DEADLINE, COMPACTION_DEADLINE,
    DRAW_FAULT_LIMIT, MAX_REBUILD_RETRIES, REARM_COOLDOWN,
};
use wizard::app::term::{
    draft_name, editor_command, is_stale_draft, resolve_editor, DRAFT_TTL, SHELL,
};

#[test]
fn a_panic_payload_still_names_what_broke() {
    let literal = PanicPayload::Literal("index out of bounds".to_string());
    assert_eq!(panic_message(&literal), "index out of bounds");

    let formatted = PanicPayload::Formatted(format!("row {} of {}", 9, 4));
    assert_eq!(panic_message(&formatted), "row 9 of 4");

    // A payload without text still gives the caller a string it can put in
    // the transcript.
    assert_eq!(panic_message(&PanicPayload::Opaque), "panicked with no message");
}

#[test]
fn a_background_task_that_panics_still_releases_its_latch() {
    assert_eq!(answer_for(None, "btw finished"), Some("btw finished"));
}

#[test]
fn a_background_task_that_succeeds_answers_with_its_own_event() {
    assert_eq!(answer_for(Some(Some("done")), "btw finished"), Some("done"));
}

#[test]
fn a_task_that_holds_no_latch_answers_with_nothing() {
    assert_eq!(answer_for(Some(None), "btw finished"), None);
}

#[test]
fn a_crashed_turn_reports_itself_instead_of_hanging_the_ui() {
    // A turn that returned cleanly already said how it ended; a second notice
    // here would be the same turn told twice.
    assert!(turn_failure(TurnOutcome::Finished).is_none());

    // A reported failure keeps the agent's own words, with the full chain —
    // the cause is usually the part that matters.
    let message =
        turn_failure(TurnOutcome::Failed("streaming completion: provider is down".to_string()))
            .expect("a failure is reported");
    assert!(message.starts_with("turn failed: streaming completion"), "{message}");
    assert!(message.contains("provider is down"), "{message}");

    // An unwind says nothing itself, so this message is the only thing that
    // will ever unblock the composer.
    let payload = PanicPayload::Literal("attempt to index out of bounds".to_string());
    let message = turn_failure(TurnOutcome::Crashed(payload)).expect("a crash is reported");
    assert!(
        message.contains("attempt to index out of bounds"),
        "the crash must name itself: {message}"
    );
    assert!(
        message.contains("send it again"),
        "the agent survives the crash, and the user should be told: {message}"
    );
}

#[test]
fn a_task_holding_the_agent_is_given_up_on_rather_than_waited_on_forever() {
    // A task that finishes inside its budget hands its value straight back.
    let done = within("restarting the agent", 60, Some(7));
    assert_eq!(done, Ok(7));

    // One that never completes is abandoned.
    let stuck = within::<()>("restarting the agent", AGENT_REBUILD_DEADLINE, None);
    let message = stuck.expect_err("a future that never resolves must be abandoned");
    assert!(
        message.contains("restarting the agent") && message.contains("giving up"),
        "the notice has to name what was abandoned: {message}"
    );
    assert_eq!(
        within::<()>("compaction", COMPACTION_DEADLINE, None),
        Err("compaction did not finish within 600s — giving up on it".to_string())
    );
}

#[test]
fn one_bad_frame_is_not_a_dead_terminal() {
    let mut faults = DrawFaults::new();
    for _ in 0..DRAW_FAULT_LIMIT - 1 {
        assert!(!faults.failed(), "a transient write error must be ridden out");
    }
    // A frame that lands proves the terminal is alive; the streak resets.
    faults.succeeded();
    assert_eq!(faults.consecutive(), 0);
    for _ in 0..DRAW_FAULT_LIMIT - 1 {
        assert!(!faults.failed());
    }
    assert!(faults.failed(), "an unbroken streak of failures must eventually be believed");
}

#[test]
fn the_watchdog_retakes_the_terminal_at_once_then_paces_itself() {
    let mut watchdog = TerminalWatchdog::new();
    let start = 5_000;

    // Healthy: nothing to do, and nothing recorded.
    assert!(!watchdog.should_rearm(true, start));

    // A spawned task panicked and the panic hook left raw mode: take it
    // back on the very next frame, not two seconds later.
    assert!(watchdog.should_rearm(false, start));
    // Still disarmed a frame later (the re-arm failed): do not try again
    // yet, or every tick posts another failure notice.
    assert!(!watchdog.should_rearm(false, start + 100));
    assert!(!watchdog.should_rearm(false, start + REARM_COOLDOWN - 1));
    assert!(watchdog.should_rearm(false, start + REARM_COOLDOWN));

    // Once it comes back, the next loss is again handled immediately.
    assert!(!watchdog.should_rearm(true, start + REARM_COOLDOWN));
    assert!(watchdog.should_rearm(false, start + REARM_COOLDOWN));
}

#[test]
fn a_lost_agent_is_retried_a_bounded_number_of_times() {
    // An agent in the slot: never retry, whatever the history.
    assert_eq!(rebuild_recovery(true, 0), RebuildRecovery::Idle);
    assert_eq!(rebuild_recovery(true, 99), RebuildRecovery::Idle);

    // An empty slot is invisible on screen, so it must not be left alone.
    assert_eq!(rebuild_recovery(false, 1), RebuildRecovery::Retry);
    assert_eq!(rebuild_recovery(false, MAX_REBUILD_RETRIES), RebuildRecovery::Retry);
    assert_eq!(
        rebuild_recovery(false, MAX_REBUILD_RETRIES + 1),
        RebuildRecovery::GiveUp,
        "retrying forever buries the notice that says what is wrong"
    );
}

#[test]
fn the_editor_runs_as_a_command_line_not_a_program_name() {
    // `$EDITOR` is routinely "code --wait" or "emacsclient -t", so the whole
    // string has to reach a shell as one argument.
    let command = editor_command("code --wait", "/some/draft.md");
    let (program, args) = (command.program, command.args);
    assert_ne!(program, "code --wait", "the editor setting is not a program name");
    assert_eq!(program, SHELL);
    assert_eq!(args.len(), 2, "expected <flag> <line>, got {args:?}");
    assert_eq!(args[1], "code --wait \"/some/draft.md\"");
}

#[test]
fn abandoned_drafts_are_swept_and_live_ones_are_not() {
    let old = draft_name(101);
    let fresh = draft_name(102);
    let unrelated = "notes.md";
    let ancient = Some(30 * 86_400);

    assert!(is_stale_draft(&old, ancient, DRAFT_TTL), "an abandoned draft must be swept");
    assert!(!is_stale_draft(&fresh, Some(0), DRAFT_TTL), "a draft in use must survive");
    assert!(
        !is_stale_draft(unrelated, ancient, DRAFT_TTL),
        "the sweep must only touch its own file names"
    );

    // A file whose age cannot be read is left alone.
    assert!(!is_stale_draft(&old, None, DRAFT_TTL));

    assert!(is_stale_draft(&fresh, Some(0), 0), "the age threshold is what decides");
    assert!(!is_stale_draft(unrelated, ancient, 0));
}

#[test]
fn visual_wins_over_editor_and_nvim_is_the_last_resort() {
    let some = |text: &str| Some(text.to_string());
    assert_eq!(resolve_editor(some("vim"), some("nano"), true), some("vim"));
    assert_eq!(resolve_editor(some("  "), some("nano"), true), some("nano"));
    assert_eq!(resolve_editor(None, some(""), true), some("nvim"));
    assert_eq!(resolve_editor(None, None, false), None);
}

#[test]
fn every_attempt_to_rearm_is_paced_from_the_one_before() {
    let mut watchdog = TerminalWatchdog::new();
    let calls = [
        (false, 0, true),
        (false, 1_999, false),
        (false, 2_000, true),
        (false, 3_999, false),
        (false, 4_000, true),
        (true, 4_001, false),
        (false, 4_002, true),
        (false, 4_003, false),
    ];
    for (armed, now, expected) in calls {
        assert_eq!(watchdog.should_rearm(armed, now), expected, "at {now}");
    }
}

#[test]
fn pacing_holds_to_the_end_of_the_clock() {
    let mut watchdog = TerminalWatchdog::new();
    assert!(watchdog.should_rearm(false, u64::MAX - 2_000));
    assert!(!watchdog.should_rearm(false, u64::MAX - 1));
    assert!(watchdog.should_rearm(false, u64::MAX));
    // The next attempt would be due after the last moment there is.
    assert!(!watchdog.should_rearm(false, u64::MAX));
    assert!(!watchdog.should_rearm(true, u64::MAX));
    assert!(watchdog.should_rearm(false, u64::MAX));
}
