//! Benchmark cases, runs and comparisons; the command line's bench commands.

use wizard::bench::cases::{
    case_path, cases_dir, head_and_dirty, id_width, is_recorded, list_case, list_record,
    listed_records, manual_case, may_write_case, pad_to, promote, record, record_lines,
    resolved_ref, results_dir, trajectories_path, truncate, validate_case_id, worktree_added,
    BenchCase, GitOutput, TrajectoryRecord,
};
use wizard::bench::compare::{
    compare_rows, compare_table, summarize, CaseResult, CompareRow,
};
use wizard::bench::runner::{
    cases_to_run, default_runner, render_template, select_cases, shell_escape, shell_log,
    CaseEvent, CaseRun, CaseStep, ShellOutcome, NOTHING_TO_RUN,
};
use wizard::claude_session::line::Stamp;
use wizard::cli::{BenchCmd, FleetCmd};

fn case_result(id: &str, status: &str) -> CaseResult {
    CaseResult {
        id: id.to_string(),
        status: status.to_string(),
        passed: status == "pass",
        harness_exit: Some(0),
        check_exit: Some(if status == "pass" { 0 } else { 1 }),
        error: None,
    }
}

fn case(id: &str, tags: &[&str]) -> BenchCase {
    BenchCase {
        id: id.to_string(),
        prompt: "p".to_string(),
        base_ref: "deadbeef".to_string(),
        check: "true".to_string(),
        timeout_secs: 10,
        check_timeout_secs: 10,
        tags: tags.iter().map(|t| (*t).to_string()).collect(),
        source: "manual".to_string(),
        created: Stamp { secs: 0, nanos: 0 },
        notes: None,
    }
}

fn ids(cases: &[BenchCase]) -> Vec<&str> {
    cases.iter().map(|c| c.id.as_str()).collect()
}

fn trajectory(id: &str, git_ref: Option<&str>, dirty: bool) -> TrajectoryRecord {
    TrajectoryRecord {
        id: id.to_string(),
        timestamp: Stamp { secs: 1_700_000_000, nanos: 0 },
        prompt: "fix the flaky test".to_string(),
        git_ref: git_ref.map(str::to_string),
        dirty,
        done_reason: "Completed".to_string(),
        model: "qwen3.5:9b".to_string(),
        mode: "sovereign".to_string(),
    }
}

fn promoted(records: &Vec<TrajectoryRecord>, prefix: &str) -> Result<BenchCase, String> {
    promote(
        records,
        prefix,
        "cargo test".to_string(),
        None,
        900,
        300,
        vec!["smoke".to_string()],
        Stamp { secs: 5, nanos: 0 },
        None,
    )
}

#[test]
fn case_id_validation() {
    for ok in ["touch-case", "abc_123", "X", "0-9_a"] {
        assert!(validate_case_id(ok).is_ok(), "{ok:?} must be accepted");
    }
    for bad in ["", "../evil", "a b", "a/b", "a.b", "café"] {
        assert!(validate_case_id(bad).is_err(), "{bad:?} must be rejected");
    }
}

#[test]
fn summarize_aggregation_math() {
    let results = summarize(
        "label".to_string(),
        "true".to_string(),
        vec![
            case_result("a", "pass"),
            case_result("b", "fail"),
            case_result("c", "pass"),
            case_result("d", "timeout"),
        ],
    );
    assert_eq!(results.total, 4);
    assert_eq!(results.passed, 2);
    assert_eq!(results.exit_code(), 1);

    let empty = summarize("e".to_string(), "true".to_string(), Vec::new());
    assert_eq!((empty.passed, empty.total), (0, 0));
    assert_eq!(empty.exit_code(), 0);
}

#[test]
fn compare_rows_marks_gains_losses_and_missing() {
    let a = summarize(
        "a".to_string(),
        "true".to_string(),
        vec![case_result("x", "pass"), case_result("y", "fail")],
    );
    let b = summarize(
        "b".to_string(),
        "true".to_string(),
        vec![case_result("y", "pass"), case_result("z", "fail")],
    );
    let rows = compare_rows(&a, &b);
    assert_eq!(
        rows,
        vec![
            CompareRow {
                id: "x".to_string(),
                a_status: "pass".to_string(),
                b_status: "—".to_string(),
                marker: "↓",
            },
            CompareRow {
                id: "y".to_string(),
                a_status: "fail".to_string(),
                b_status: "pass".to_string(),
                marker: "↑",
            },
            CompareRow {
                id: "z".to_string(),
                a_status: "—".to_string(),
                b_status: "fail".to_string(),
                marker: "",
            },
        ]
    );
    assert_eq!(
        compare_table(&rows),
        "case  A         B       \n\
         x     pass      —         ↓\n\
         y     fail      pass      ↑\n\
         z     —         fail      "
    );
}

#[test]
fn a_corrupt_line_does_not_brick_the_log() {
    // Blank lines are skipped; which of the others decode is for the reader
    // of each line.
    assert_eq!(
        record_lines("{\"prompt\":\"before\"}\n{not json at all\n\n{\"prompt\":\"after\"}\n"),
        vec!["{\"prompt\":\"before\"}", "{not json at all", "{\"prompt\":\"after\"}"]
    );
    assert!(record_lines("").is_empty());
}

#[test]
fn select_cases_no_filter_keeps_everything() {
    let cases = vec![case("a", &[]), case("b", &["rust"])];
    let out = select_cases(cases, &vec![], &vec![]).expect("selects");
    assert_eq!(ids(&out), vec!["a", "b"]);
}

#[test]
fn select_cases_by_id_tag_and_their_union() {
    let all = || {
        vec![
            case("a", &["rust"]),
            case("b", &["docs"]),
            case("c", &["rust", "slow"]),
        ]
    };
    let out = select_cases(all(), &vec!["b".to_string()], &vec![]).expect("id filter");
    assert_eq!(ids(&out), vec!["b"]);

    let out = select_cases(all(), &vec![], &vec!["rust".to_string()]).expect("tag filter");
    assert_eq!(ids(&out), vec!["a", "c"]);

    let out = select_cases(all(), &vec!["b".to_string()], &vec!["slow".to_string()])
        .expect("union of id and tag");
    assert_eq!(ids(&out), vec!["b", "c"]);
}

#[test]
fn select_cases_rejects_unknown_id_or_tag() {
    let cases = vec![case("a", &["rust"])];
    let err = select_cases(cases.clone(), &vec!["nope".to_string()], &vec![]).unwrap_err();
    assert!(err.contains("no such case"), "{err}");
    let err = select_cases(cases, &vec![], &vec!["nope".to_string()]).unwrap_err();
    assert!(err.contains("no case carries tag"), "{err}");
}

#[test]
fn shell_log_records_command_output_and_timeouts() {
    let text = shell_log(
        "echo out; echo err >&2; exit 3",
        Some((Some(3), "out\n".to_string(), "err\n".to_string())),
    );
    assert!(text.starts_with("$ echo out"), "{text}");
    assert!(text.contains("exit: Some(3)"), "{text}");
    assert!(text.contains("out\n"), "{text}");
    assert!(text.contains("err\n"), "{text}");

    let text = shell_log("sleep 999", None);
    assert!(text.contains("timed out"), "{text}");
    // A command that a signal ended, and a negative code.
    assert!(shell_log("x", Some((None, String::new(), String::new()))).contains("exit: None"));
    assert!(shell_log("x", Some((Some(-9), String::new(), String::new())))
        .contains("exit: Some(-9)"));
}

#[test]
fn shell_escape_plain_string() {
    assert_eq!(shell_escape("hello world"), "'hello world'");
}

#[test]
fn shell_escape_single_quotes() {
    assert_eq!(shell_escape("it's a test"), r"'it'\''s a test'");
}

#[test]
fn shell_escape_empty_string() {
    assert_eq!(shell_escape(""), "''");
}

#[test]
fn render_template_substitutes_prompt() {
    assert_eq!(render_template("wizard -p {prompt}", "add tests"), "wizard -p 'add tests'");
}

#[test]
fn render_template_without_placeholder_is_unchanged() {
    assert_eq!(render_template("touch marker.txt", "ignored prompt"), "touch marker.txt");
}

#[test]
fn the_default_runner_is_this_program() {
    assert_eq!(default_runner("/bin/wizard"), "/bin/wizard --mode sovereign -p {prompt}");
}

#[test]
fn a_prompt_that_holds_the_placeholder_is_not_expanded_again() {
    assert_eq!(render_template("run {prompt}", "say {prompt}"), "run 'say {prompt}'");
}

/// What a shell makes of a word of quoted text: the quotes go, and a backslash
/// outside them keeps the next character.
fn unquoted(word: &str) -> String {
    let mut out = String::new();
    let mut inside = false;
    let mut chars = word.chars();
    while let Some(c) = chars.next() {
        match c {
            '\'' => inside = !inside,
            '\\' if !inside => out.extend(chars.next()),
            c => out.push(c),
        }
    }
    out
}

#[test]
fn a_shell_reads_back_what_was_escaped() {
    for text in ["", "plain", "it's", "''", "a'b'c", "\\'", "$(rm) `x` \"y\""] {
        assert_eq!(unquoted(&shell_escape(text)), text);
    }
}

#[test]
fn only_the_check_passes_a_case() {
    // A harness that fails does not decide; the check does.
    let mut run = CaseRun::start("a");
    assert_eq!(run.step, CaseStep::Resolve);
    run.advance(CaseEvent::Resolved(Ok(())));
    assert_eq!(run.step, CaseStep::AddWorktree);
    run.advance(CaseEvent::WorktreeAdded(Ok(())));
    assert_eq!(run.step, CaseStep::RunHarness);
    run.advance(CaseEvent::Ended(ShellOutcome::Finished { exit: Some(1) }));
    assert_eq!(run.step, CaseStep::RunCheck);
    run.advance(CaseEvent::Ended(ShellOutcome::Finished { exit: Some(0) }));
    assert_eq!(run.step, CaseStep::Finish);
    assert!(run.result.passed);
    assert_eq!(run.result.status, "pass");
    assert_eq!(run.result.harness_exit, Some(1));
    assert_eq!(run.result.check_exit, Some(0));
}

#[test]
fn a_case_fails_times_out_or_errs() {
    let started = || {
        let mut run = CaseRun::start("a");
        run.advance(CaseEvent::Resolved(Ok(())));
        run.advance(CaseEvent::WorktreeAdded(Ok(())));
        run
    };
    let mut failed = started();
    failed.advance(CaseEvent::Ended(ShellOutcome::Finished { exit: Some(0) }));
    failed.advance(CaseEvent::Ended(ShellOutcome::Finished { exit: Some(2) }));
    assert_eq!(failed.result.status, "fail");
    assert!(!failed.result.passed);

    let mut late = started();
    late.advance(CaseEvent::Ended(ShellOutcome::TimedOut));
    assert_eq!((late.step, late.result.status.as_str()), (CaseStep::Finish, "timeout"));

    let mut unspawned = started();
    unspawned.advance(CaseEvent::Ended(ShellOutcome::SpawnFailed("no sh".to_string())));
    assert_eq!(unspawned.result.status, "error");
    assert_eq!(unspawned.result.error.as_deref(), Some("spawning harness: no sh"));

    let mut unresolved = CaseRun::start("a");
    unresolved.advance(CaseEvent::Resolved(Err("bad ref".to_string())));
    assert_eq!(unresolved.step, CaseStep::Abandon);
    assert_eq!(unresolved.result.error.as_deref(), Some("base ref not resolvable: bad ref"));

    let mut unplaced = CaseRun::start("a");
    unplaced.advance(CaseEvent::Resolved(Ok(())));
    unplaced.advance(CaseEvent::WorktreeAdded(Err("busy".to_string())));
    assert_eq!(unplaced.step, CaseStep::Abandon);
    assert_eq!(unplaced.result.error.as_deref(), Some("worktree setup failed: busy"));
}

#[test]
fn a_recorded_turn_becomes_a_case_only_when_it_can_be_replayed() {
    let records = vec![
        trajectory("aaa1", Some("c0ffee"), false),
        trajectory("aab2", None, false),
        trajectory("abc3", Some("c0ffee"), true),
    ];
    let case = promoted(&records, "aaa").expect("promotes");
    assert_eq!(case.id, "aaa1");
    assert_eq!(case.base_ref, "c0ffee");
    assert_eq!(case.prompt, "fix the flaky test");
    assert_eq!(case.source, "recorded");
    assert_eq!(case.tags, vec!["smoke"]);

    assert_eq!(
        promoted(&records, "zz"),
        Err("no recorded trajectory matches \"zz\" — see `wizard bench list --trajectories`"
            .to_string())
    );
    assert_eq!(
        promoted(&records, "aa"),
        Err("2 trajectories match \"aa\" — use a longer prefix".to_string())
    );
    assert!(promoted(&records, "aab").unwrap_err().contains("not recorded in a git repo"));
    assert!(promoted(&records, "abc").unwrap_err().contains("repo was dirty"));
}

#[test]
fn a_case_is_never_overwritten() {
    assert_eq!(may_write_case("new", "/r/new.toml", false), Ok(()));
    assert_eq!(
        may_write_case("new", "/r/new.toml", true),
        Err("case 'new' already exists at /r/new.toml".to_string())
    );
    assert!(may_write_case("../x", "/r/x.toml", false).is_err());
    let manual = manual_case(
        "id".to_string(),
        "p".to_string(),
        "c0ffee".to_string(),
        "true".to_string(),
        1,
        2,
        vec![],
        Stamp { secs: 0, nanos: 0 },
        None,
    );
    assert_eq!(manual.source, "manual");
    assert_eq!((manual.timeout_secs, manual.check_timeout_secs), (1, 2));
}

#[test]
fn everything_lives_under_the_projects_state_directory() {
    assert_eq!(cases_dir("/r"), "/r/.wizard/bench/cases");
    assert_eq!(case_path("/r", "a"), "/r/.wizard/bench/cases/a.toml");
    assert_eq!(results_dir("/r"), "/r/.wizard/bench/results");
    assert_eq!(trajectories_path("/r"), "/r/.wizard/trajectories.jsonl");
}

#[test]
fn listings_are_padded_and_cut() {
    assert_eq!(pad_to("ab", 4), "ab  ");
    assert_eq!(pad_to("abcde", 4), "abcde");
    assert_eq!(truncate("abcdef", 4), "abc…");
    assert_eq!(truncate("abcd", 4), "abcd");
    let cases = vec![case("a", &["x", "y"]), case("long-id", &[])];
    assert_eq!(id_width(&cases), 7);
    assert_eq!(
        list_case(&cases[0], 7),
        format!("a        deadbeef  manual    {:<40}  x,y", "true")
    );
    assert_eq!(
        list_record(&trajectory("0123456789", None, true)),
        "01234567  2023-11-14 22:13:20  Completed       dirty  fix the flaky test"
    );
    assert_eq!(listed_records(3), vec![2, 1, 0]);
    assert_eq!(listed_records(30).len(), 20);
    assert_eq!(listed_records(30)[0], 29);
}

#[test]
fn turns_are_recorded_outside_bench_and_fleet_with_their_commit() {
    assert!(is_recorded(false, false));
    assert!(!is_recorded(true, false));
    assert!(!is_recorded(false, true));

    let git = |success: bool, stdout: &str| {
        Some(GitOutput {
            success,
            stdout: stdout.to_string(),
            stderr: "fatal: no\n".to_string(),
        })
    };
    let head = head_and_dirty(git(true, "c0ffee\n"), git(true, " M a.rs\n"));
    assert_eq!(head, Some(("c0ffee".to_string(), true)));
    assert_eq!(
        head_and_dirty(git(true, "c0ffee\n"), git(true, "\n")),
        Some(("c0ffee".to_string(), false))
    );
    assert_eq!(head_and_dirty(git(false, ""), git(true, "")), None);
    assert_eq!(head_and_dirty(None, git(true, "")), None);

    let stamp = Stamp { secs: 1, nanos: 2 };
    let with = record("t".to_string(), stamp, "p", head, "Completed", "m", "genie");
    assert_eq!(with.git_ref.as_deref(), Some("c0ffee"));
    assert!(with.dirty);
    let without = record("t".to_string(), stamp, "p", None, "Completed", "m", "genie");
    assert_eq!(without.git_ref, None);
    assert!(!without.dirty);

    let failed = git(false, "").expect("an answer");
    assert_eq!(
        resolved_ref("/r", "ma\"in", &failed),
        Err("git rev-parse --verify \"ma\\\"in\" failed in /r: fatal: no".to_string())
    );
    let found = git(true, "c0ffee\n").expect("an answer");
    assert_eq!(resolved_ref("/r", "main", &found), Ok("c0ffee".to_string()));
    assert_eq!(
        worktree_added("/w", "main", &failed),
        Err("git worktree add /w main failed: fatal: no".to_string())
    );
    assert_eq!(worktree_added("/w", "main", &found), Ok(()));
}

#[test]
fn a_bench_command_is_checked_before_it_runs() {
    let add = |id: &str| BenchCmd::Add {
        id: id.to_string(),
        prompt: "p".to_string(),
        check: "true".to_string(),
        git_ref: "HEAD".to_string(),
        timeout: 900,
        check_timeout: 300,
        tag: vec![],
        notes: None,
    };
    assert!(add("fine").check().is_ok());
    assert!(add("a/b").check().is_err());
    assert!(BenchCmd::List { trajectories: false }.check().is_ok());
    assert_ne!(FleetCmd::Status, FleetCmd::Stop);
}

#[test]
fn truncation_never_exceeds_its_limit() {
    assert_eq!(truncate("abc", 0), "");
    assert_eq!(truncate("", 0), "");
    assert_eq!(truncate("abc", 1), "…");
    assert_eq!(truncate("ééé", 2), "é…");
}

#[test]
fn a_run_of_nothing_is_refused() {
    let none: Vec<String> = vec![];
    assert_eq!(cases_to_run(vec![], &none, &none).unwrap_err(), NOTHING_TO_RUN);
    assert_eq!(
        NOTHING_TO_RUN,
        "no cases to run — create one with `wizard bench add` or `wizard bench promote`"
    );
    let err = cases_to_run(vec![case("a", &[])], &vec!["b".to_string()], &none).unwrap_err();
    assert_eq!(err, "no such case 'b' — see `wizard bench list`");
    let chosen = cases_to_run(vec![case("a", &[]), case("b", &["x"])], &none, &none).expect("all");
    assert_eq!(chosen.len(), 2);
    let tags = vec!["x".to_string()];
    let chosen = cases_to_run(vec![case("a", &[]), case("b", &["x"])], &none, &tags).expect("b");
    assert_eq!(chosen.len(), 1);
    assert_eq!(chosen[0].id, "b");
}

#[test]
fn comparing_the_other_way_round_mirrors_the_rows() {
    let run = |cases: Vec<CaseResult>| summarize("r".to_string(), "t".to_string(), cases);
    let a = run(vec![case_result("one", "pass"), case_result("two", "fail")]);
    let b = run(vec![case_result("two", "pass"), case_result("three", "fail")]);
    let there = compare_rows(&a, &b);
    let back = compare_rows(&b, &a);
    assert_eq!(there.len(), 3);
    assert_eq!(there.len(), back.len());
    for (x, y) in there.iter().zip(&back) {
        assert_eq!(x.id, y.id);
        assert_eq!((&x.a_status, &x.b_status), (&y.b_status, &y.a_status));
        let mirrored = match x.marker {
            "↑" => "↓",
            "↓" => "↑",
            other => other,
        };
        assert_eq!(y.marker, mirrored);
    }
    assert_eq!(there[0].marker, "↓");
    assert_eq!(there[1].marker, "");
    assert_eq!(there[2].marker, "↑");
}
