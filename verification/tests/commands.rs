//! Slash commands, what the main loop reports back, pastes and the clipboard.

use wizard::app::agent::{AgentEvent, DoneReason};
use wizard::app::done::{
    set_standing_goal, GoalOutcome, Mission, ServersReload, SubagentInfo,
};
use wizard::app::engine::{
    publish_report, server_start_report, xai_provider, Download, Health, StopOutcome,
};
use wizard::app::keys::{KeyCode, KeyEvent, KeyModifiers};
use wizard::app::menus::SessionSummary;
use wizard::app::paste::{
    accept_image, check_image_size, clean_path, clipboard_escape, clipboard_image_bytes,
    clipboard_search, decode_pasted_image, extension_for, looks_like_image_path_token,
    parse_data_image_url, resolve_pasted_image_path, ClipboardImage, ClipboardSearch, Probe,
    ProbeReply,
};
use wizard::app::picker::PickerKind;
use wizard::app::replay::{PastMessage, Role};
use wizard::app::session::Dispatched;
use wizard::app::state::{
    App, AppAction, Effect, SessionRecord, SessionState, Surroundings, TodoItem, TodoStatus,
    WebBackend,
};
use wizard::app::tasks::{AgentFacts, RewindCandidate, Task, TaskRow};
use wizard::app::term::{
    clipboard_writers, copy_to_clipboard, ConfigEdit, PromptEdit,
};
use wizard::app::transcript::{
    replayed_refs, Image, ImageRef, ImageSource, PaneStatus, SubagentPane, TranscriptEntry,
};
use wizard::commands::{
    CustomCommand, FusionAction, ImportSelection, MemoryAction, ProviderAction, ServerAction,
    SlashCommand, UltraAction,
};
use wizard::json::Json;
use wizard::config::{
    Config, FusionConfig, Mode, Peer, ProviderConfig, ProviderKind, ReasoningEffort, StepBudget,
    UltraConfig,
};

fn provider(name: &str) -> ProviderConfig {
    ProviderConfig {
        name: name.to_string(),
        kind: ProviderKind::Ollama,
        base_url: "http://localhost:11434".to_string(),
        model: "qwen3".to_string(),
        api_key_env: None,
    }
}

fn config() -> Config {
    Config {
        mode: Mode::Genie,
        plan_first: false,
        omakase: false,
        continuous: false,
        plan_each_cycle: false,
        rollback_failed_cycles: false,
        max_steps: StepBudget::Limited(50),
        reasoning_effort: None,
        spinner_verbs: vec![],
        vim: false,
        web_search_backend: "duckduckgo".to_string(),
        web_allow_local: false,
        fleet_synthesize: false,
        providers: vec![],
        active_provider: None,
        fallback: provider("default"),
        fusion: None,
        ultra: None,
    }
}

fn surroundings() -> Surroundings {
    Surroundings {
        peer: Peer {
            name: "Other Agent".to_string(),
            word: "other".to_string(),
            home: "~/.other".to_string(),
        },
        claude_home: false,
        claude_mcp: 0,
        claude_commands: 0,
        claude_verbs: 0,
        config_path: "/home/u/.wizard/config.toml".to_string(),
        xai_session: false,
        xai_key: false,
        pid: 1,
        provider_types: vec![],
        presets: vec![],
        web_backends: vec![],
    }
}

fn app_with(config: Config) -> App {
    let mut app = App::new(config, "/project".to_string(), surroundings());
    app.now = 60_000;
    app
}

fn app() -> App {
    app_with(config())
}


fn press(app: &mut App, code: KeyCode) -> Option<AppAction> {
    app.handle_key(KeyEvent::new(code, KeyModifiers::none()))
}

fn run(app: &mut App, command: SlashCommand) -> Option<Task> {
    app.run_command(command, Some(&facts()), StepBudget::Limited(40))
}

fn run_without_agent(app: &mut App, command: SlashCommand) -> Option<Task> {
    app.run_command(command, None, StepBudget::Limited(40))
}

fn facts() -> AgentFacts {
    AgentFacts {
        session_id: "sess-1".to_string(),
        prompt_tokens: 100,
        completion_tokens: 20,
        running_tasks: 1,
        tasks: vec![TaskRow {
            id: 3,
            status: "running".to_string(),
            command: "sleep 5".to_string(),
        }],
        candidates: vec![RewindCandidate {
            turn: 9,
            prompt: "fix tests".to_string(),
            files: vec!["/project/notes.txt".to_string()],
        }],
    }
}

fn last_notice(app: &App) -> &str {
    match app.chat.transcript.last() {
        Some(TranscriptEntry::Notice(text)) => text,
        other => panic!("expected a notice, got {other:?}"),
    }
}

fn prompt(role: Role, content: &str) -> PastMessage {
    PastMessage {
        role,
        content: content.to_string(),
        images: vec![],
        tool_calls: vec![],
        tool_name: None,
    }
}

fn llama() -> Config {
    let mut config = config();
    config.fallback.kind = ProviderKind::LlamaCpp;
    config.fallback.base_url = "http://localhost:8080".to_string();
    config
}

// --- commands that act at once ---

#[test]
fn panels_toggle_and_quit_quits() {
    let mut app = app();
    assert_eq!(run(&mut app, SlashCommand::Diff), Some(Task::ReadDiff));
    assert!(app.panels.show_diff);
    assert_eq!(run(&mut app, SlashCommand::Diff), None);
    assert!(!app.panels.show_diff);
    run(&mut app, SlashCommand::Todos);
    assert!(app.panels.show_todos);
    run(&mut app, SlashCommand::Dashboard);
    assert!(app.dashboard.open);
    run(&mut app, SlashCommand::Quit);
    assert!(app.pending.should_quit);
}

#[test]
fn help_lists_the_commands_and_keys() {
    let mut app = app();
    run(&mut app, SlashCommand::Help);
    let text = last_notice(&app);
    assert!(text.starts_with("available commands:\n  /help"));
    assert!(text.ends_with("Ctrl-C                      interrupt · press twice to quit"));
}

#[test]
fn commands_that_need_the_agent_wait_for_the_turn() {
    let mut app = app();
    app.turn.status.busy = true;
    let effort = SlashCommand::Effort(Some(Some(ReasoningEffort::High)));
    assert_eq!(run(&mut app, effort), None);
    assert_eq!(last_notice(&app), "cannot change effort while a turn is running");
    assert_eq!(app.config.reasoning_effort, None);

    app.turn.status.busy = false;
    app.turn.rebuilding = Some("switching".to_string());
    let import = SlashCommand::ImportClaude(ImportSelection {
        mcp: true,
        commands: false,
        verbs: false,
    });
    assert_eq!(run(&mut app, import), None);
    assert!(last_notice(&app).starts_with("cannot import from Other Agent while"));
}

#[test]
fn mode_and_effort_are_saved_and_handed_to_the_agent() {
    let mut app = app();
    assert_eq!(
        run(&mut app, SlashCommand::Mode(Some(Mode::Sovereign))),
        Some(Task::SetMode(Mode::Sovereign))
    );
    assert_eq!(app.mode, Mode::Sovereign);
    assert_eq!(app.config.mode, Mode::Sovereign);
    let Some(Effect::SaveConfig(note)) = app.effects.pop() else {
        panic!("the settings are written");
    };
    assert_eq!(note.note.as_deref(), Some("switched to sovereign mode"));
    app.config_saved(note, Some("disk full".to_string()));
    // This notice appears whatever became of the write.
    assert_eq!(last_notice(&app), "switched to sovereign mode");
    assert!(app.chat.transcript.iter().any(|entry| matches!(
        entry,
        TranscriptEntry::Notice(text) if text == "could not save config: disk full"
    )));

    let high = Some(ReasoningEffort::High);
    assert_eq!(run(&mut app, SlashCommand::Effort(Some(high))), Some(Task::SetEffort(high)));
    assert_eq!(run_without_agent(&mut app, SlashCommand::Effort(Some(None))), None);
    assert_eq!(app.config.reasoning_effort, None);
}

#[test]
fn omakase_implies_plan_mode() {
    let mut app = app();
    assert_eq!(run(&mut app, SlashCommand::Omakase), Some(Task::SetOmakase(true)));
    assert!(app.planning.plan_mode && app.planning.omakase);
    assert_eq!(run(&mut app, SlashCommand::Plan), Some(Task::SetPlanMode(false)));
    assert!(!app.planning.plan_mode && !app.planning.omakase);
}

#[test]
fn fusion_and_ultra_are_never_both_on() {
    let mut app = app();
    app.config.fusion = Some(FusionConfig {
        panel: vec!["a".to_string(), "b".to_string()],
        synthesizer: "a".to_string(),
        rounds: 1,
    });
    let Some(Task::BuildFusion(_)) = run(&mut app, SlashCommand::Fusion(FusionAction::Toggle))
    else {
        panic!("the panel is built");
    };
    let task = app.fusion_built(Ok("fusion ×2".to_string()));
    assert!(matches!(task, Some(Task::RebuildAgent { label, .. }) if label == "fusion ×2"));
    assert!(app.turn.fusion_active);

    assert_eq!(run(&mut app, SlashCommand::Ultra(UltraAction::Toggle)), None);
    assert_eq!(app.turn.ultra, None);

    // Off again, and ultra may start.
    let off = run(&mut app, SlashCommand::Fusion(FusionAction::Toggle));
    assert!(matches!(off, Some(Task::RebuildProvider { .. })));
    assert_eq!(run(&mut app, SlashCommand::Ultra(UltraAction::Toggle)), Some(Task::BuildUltra));
    assert_eq!(app.ultra_built(Ok("ultra ×3".to_string()), true), Some(Task::SetUltra));
    assert_eq!(app.turn.ultra.as_deref(), Some("ultra ×3"));
    assert_eq!(run(&mut app, SlashCommand::Fusion(FusionAction::Toggle)), None);
    assert!(!app.turn.fusion_active);
    assert_eq!(
        run(&mut app, SlashCommand::Ultra(UltraAction::Toggle)),
        Some(Task::StopUltra)
    );
    assert_eq!(app.turn.ultra, None);
}

#[test]
fn a_roster_is_kept_only_when_it_builds() {
    let roster = || UltraConfig { lenses: vec!["skeptic".to_string()], judges: 0 };
    let mut app = app();
    let Some(Task::CheckUltra(checked)) =
        run(&mut app, SlashCommand::Ultra(UltraAction::Apply(roster())))
    else {
        panic!("the roster is checked");
    };
    assert_eq!(app.ultra_checked(checked, Err("no such lens".to_string())), None);
    assert_eq!(last_notice(&app), "ultra roster rejected: no such lens");
    assert_eq!(app.config.ultra, None);

    assert_eq!(
        app.ultra_checked(roster(), Ok("ultra ×1".to_string())),
        Some(Task::SaveUltra("ultra ×1".to_string()))
    );
    assert_eq!(app.config.ultra, Some(roster()));
    assert_eq!(app.ultra_saved("ultra ×1".to_string(), Ok(()), true), None);
    assert_eq!(last_notice(&app), "ultra ×1 — /ultra to turn on");
    app.turn.ultra = Some("old".to_string());
    assert_eq!(app.ultra_saved("new".to_string(), Ok(()), true), Some(Task::SetUltra));
    assert_eq!(app.turn.ultra.as_deref(), Some("new"));
    assert_eq!(app.ultra_saved("newer".to_string(), Ok(()), false), None);
    assert_eq!(app.turn.ultra.as_deref(), Some("new"), "the badge follows the agent");
    app.ultra_saved("x".to_string(), Err("disk".to_string()), true);
    assert_eq!(last_notice(&app), "could not save ultra config: disk");
}

#[test]
fn status_and_bashes_tell_what_the_agent_knows() {
    let mut app = app();
    app.turn.status.model = "qwen3".to_string();
    app.panels.todos = vec![TodoItem {
        content: "one".to_string(),
        status: TodoStatus::Completed,
    }];
    run(&mut app, SlashCommand::Status);
    assert_eq!(
        last_notice(&app),
        "model: qwen3\nprovider: default (Ollama @ http://localhost:11434)\nmode: genie\n\
         effort: default\nsession: sess-1\nusage: 100 prompt + 20 completion tokens\n\
         background tasks: 1 running\ntodos: 1/1 done\nplan mode: off\nultra: off"
    );
    run(&mut app, SlashCommand::Bashes);
    assert!(last_notice(&app).contains("sleep 5"));
    run_without_agent(&mut app, SlashCommand::Bashes);
    assert_eq!(last_notice(&app), "background tasks: unavailable while a turn is running");
}

#[test]
fn rewinding_offers_the_turns_and_replays_what_is_left() {
    let mut app = app();
    run(&mut app, SlashCommand::Rewind(None));
    let picker = app.composer.picker.take().expect("the turns are offered");
    assert_eq!(picker.kind, PickerKind::Rewind);
    assert_eq!(picker.items[0].value, "9");
    assert!(picker.items[0].detail.contains("notes.txt"));

    assert_eq!(run(&mut app, SlashCommand::Rewind(Some(9))), Some(Task::Rewind(9)));
    assert_eq!(run_without_agent(&mut app, SlashCommand::Rewind(Some(9))), None);
    app.rewound(9, Ok((vec![prompt(Role::User, "hi")], vec!["notes.txt".to_string()])));
    assert_eq!(
        last_notice(&app),
        "rewound to before turn 9 — restored notes.txt; conversation truncated"
    );
    assert!(matches!(&app.chat.transcript[0], TranscriptEntry::User(text) if text == "hi"));
    app.rewound(9, Err("gone".to_string()));
    assert_eq!(last_notice(&app), "rewind failed: gone");
}

#[test]
fn resuming_takes_the_sessions_place() {
    let mut app = app();
    app.session.id = "here".to_string();
    assert_eq!(run(&mut app, SlashCommand::Resume(Some("here".to_string()))), None);
    assert_eq!(last_notice(&app), "already in this session");
    assert_eq!(run(&mut app, SlashCommand::Resume(None)), Some(Task::ListSessions));
    app.open_resume_picker(Ok(vec![SessionSummary {
        id: "there".to_string(),
        summary: "add resume".to_string(),
        messages: 4,
    }]));
    assert_eq!(app.composer.picker.as_ref().expect("open").items[0].value, "there");
    app.composer.picker = None;
    assert_eq!(
        run(&mut app, SlashCommand::Resume(Some("there".to_string()))),
        Some(Task::Resume("there".to_string()))
    );
    app.session_resumed(Ok((
        "there".to_string(),
        vec![prompt(Role::User, "add resume"), prompt(Role::Assistant, "done")],
    )));
    assert_eq!(app.session.id, "there");
    assert_eq!(last_notice(&app), "resumed session there · 1 turns");
    app.session_resumed(Err("locked".to_string()));
    assert_eq!(last_notice(&app), "could not resume session: locked");
}

#[test]
fn clearing_forgets_the_conversation_once_the_session_is_rotated() {
    let mut app = app();
    app.chat.transcript.push(TranscriptEntry::User("hi".to_string()));
    assert_eq!(run(&mut app, SlashCommand::Clear), Some(Task::ClearSession));
    assert_eq!(app.chat.transcript.len(), 1);
    app.session_cleared(Err("no disk".to_string()));
    assert_eq!(last_notice(&app), "failed to rotate session: no disk");
    app.session_cleared(Ok(7));
    assert!(!app.has_conversation());
    assert_eq!(app.turn.status.context_tokens, 7);
}

#[test]
fn models_are_listed_with_the_current_one_marked() {
    let mut app = app();
    app.turn.status.model = "b".to_string();
    assert_eq!(run(&mut app, SlashCommand::Model(None)), Some(Task::ListModels));
    app.models_listed(Ok(vec!["a".to_string(), "b".to_string()]));
    let picker = app.composer.picker.take().expect("open");
    assert_eq!(picker.selected, 1);
    assert!(picker.items[1].current && !picker.items[0].current);
    app.models_listed(Ok(vec![]));
    assert!(last_notice(&app).starts_with("no models installed"));
    app.models_listed(Err("down".to_string()));
    assert_eq!(last_notice(&app), "could not list models: down");

    let switch = run(&mut app, SlashCommand::Model(Some("c".to_string())));
    assert_eq!(switch, Some(Task::SwitchModel("c".to_string())));
    assert_eq!(app.turn.rebuilding.as_deref(), Some("switching to c"));
}

#[test]
fn goals_are_shown_and_set() {
    let mut app = app();
    assert_eq!(run(&mut app, SlashCommand::Goal(None)), Some(Task::ReadGoal));
    app.goal_read(Ok(None));
    assert!(last_notice(&app).starts_with("no standing goal set"));
    app.goal_read(Ok(Some(Mission {
        goal: "ship".to_string(),
        cycles: 2,
        updated: "today".to_string(),
        notes: vec![],
    })));
    assert_eq!(last_notice(&app), "goal: ship\ncycles: 2  ·  updated today");
    app.goal_read(Err("torn".to_string()));
    assert_eq!(last_notice(&app), "could not read mission: torn");

    assert_eq!(
        run(&mut app, SlashCommand::Goal(Some("  ship it ".to_string()))),
        Some(Task::SetGoal("ship it".to_string()))
    );
    app.goal_set("ship it", GoalOutcome::Unread("torn".to_string()));
    assert_eq!(last_notice(&app), "could not read mission: torn");
    app.goal_set("ship it", GoalOutcome::Unsaved("full".to_string()));
    assert_eq!(last_notice(&app), "could not save mission: full");
    assert!(app.turn.message_queue.is_empty());
    app.goal_set("ship it", GoalOutcome::Stored);
    assert_eq!(app.turn.message_queue.len(), 1);
}

#[test]
fn setting_a_goal_keeps_the_cycles_and_the_notes() {
    let first = set_standing_goal(None, "ship", "monday");
    assert_eq!(first.goal, "ship");
    assert_eq!(first.cycles, 0);
    assert_eq!(first.updated, "monday");
    assert!(first.notes.is_empty());

    let kept = Mission {
        goal: "ship".to_string(),
        cycles: 3,
        updated: "monday".to_string(),
        notes: vec!["half way".to_string()],
    };
    let next = set_standing_goal(Some(kept), "rest", "tuesday");
    assert_eq!(next.goal, "rest");
    assert_eq!(next.cycles, 3);
    assert_eq!(next.updated, "tuesday");
    assert_eq!(next.notes, vec!["half way", "goal changed to: rest"]);
}

#[test]
fn background_commands_are_announced_and_handed_on() {
    let mut app = app();
    let evolve = SlashCommand::Evolve { deep: true, description: "more".to_string() };
    assert_eq!(
        run(&mut app, evolve),
        Some(Task::Evolve { deep: true, description: "more".to_string() })
    );
    assert_eq!(last_notice(&app), "evolving (deep): more");
    let publish = SlashCommand::Publish { branch: Some("b".to_string()) };
    assert!(run(&mut app, publish).is_some());
    assert_eq!(last_notice(&app), "publishing Wizard (branch: b)…");
    assert_eq!(run(&mut app, SlashCommand::Login("xai".to_string())), Some(Task::Login));
    assert_eq!(run(&mut app, SlashCommand::Login("other".to_string())), None);
    assert_eq!(run(&mut app, SlashCommand::Doctor), Some(Task::Doctor));
    app.diagnosed("all good");
    assert_eq!(last_notice(&app), "doctor:\nall good");
    assert_eq!(
        run(&mut app, SlashCommand::Memory(MemoryAction::List)),
        Some(Task::Memory(MemoryAction::List))
    );
    assert_eq!(run(&mut app, SlashCommand::Compact), None);
    assert!(app.pending.compact);
    run(&mut app, SlashCommand::Btw("why?".to_string()));
    assert_eq!(app.pending.btw.as_deref(), Some("why?"));
    run(&mut app, SlashCommand::Btw("again?".to_string()));
    assert_eq!(last_notice(&app), "already answering a /btw — wait for it to finish");
}

#[test]
fn costs_are_estimated_where_prices_are_known() {
    let mut app = app();
    app.turn.status.prompt_tokens = 5;
    app.turn.status.completion_tokens = 2;
    assert_eq!(run(&mut app, SlashCommand::Cost), Some(Task::EstimateCost));
    app.cost_estimated(Some("0.01".to_string()));
    assert_eq!(
        last_notice(&app),
        "session usage: 5 prompt + 2 completion tokens · est. $0.01"
    );
    app.cost_estimated(None);
    assert!(last_notice(&app).contains("on provider 'default'"));
}

#[test]
fn the_local_server_is_probed_started_and_stopped() {
    let mut app = app();
    assert_eq!(run(&mut app, SlashCommand::Server(ServerAction::Status)), None);
    assert!(last_notice(&app).contains("only manages a local llama.cpp server"));

    let mut app = app_with(llama());
    assert_eq!(
        run(&mut app, SlashCommand::Server(ServerAction::Status)),
        Some(Task::ProbeServer)
    );
    app.server_probed(Health::Ready, Some(7));
    assert_eq!(
        last_notice(&app),
        "llama-server at http://localhost:8080: ready (PID 7, started by wizard)"
    );
    app.server_probed(Health::Loading, None);
    assert!(last_notice(&app).ends_with(": loading its model"));
    app.server_probed(Health::Down, Some(7));
    assert!(last_notice(&app).ends_with("not running — start it with /server start"));

    assert_eq!(
        run(&mut app, SlashCommand::Server(ServerAction::Start)),
        Some(Task::ProbeBeforeStart)
    );
    assert_eq!(app.server_start_probed(Health::Ready), None);
    assert_eq!(app.server_start_probed(Health::Down), Some(Task::StartServer));
    assert_eq!(
        server_start_report("http://l", Ok(())),
        "llama-server at http://l is ready"
    );
    assert_eq!(server_start_report("http://l", Err("no".to_string())), "llama-server: no");

    assert_eq!(
        run(&mut app, SlashCommand::Server(ServerAction::Stop)),
        Some(Task::StopServer)
    );
    app.server_stopped(Ok(StopOutcome::Stopped(7)));
    assert_eq!(last_notice(&app), "stopped llama-server (PID 7)");
    app.server_stopped(Ok(StopOutcome::NotRecorded));
    assert!(last_notice(&app).ends_with("nothing to stop"));
    app.server_stopped(Ok(StopOutcome::NotRunning(7)));
    assert_eq!(last_notice(&app), "llama-server (PID 7) already exited");
    app.server_stopped(Ok(StopOutcome::NotOurs { pid: 7, name: "vim".to_string() }));
    assert_eq!(last_notice(&app), "refusing to stop PID 7: it is 'vim', not llama-server");
    app.server_stopped(Err("denied".to_string()));
    assert_eq!(last_notice(&app), "could not stop llama-server: denied");
}

#[test]
fn providers_are_added_listed_used_and_removed() {
    let mut app = app();
    let add = |name: &str| {
        SlashCommand::Provider(ProviderAction::Add {
            name: name.to_string(),
            kind: ProviderKind::Openai,
            base_url: "https://e.com".to_string(),
            model: "m".to_string(),
            api_key_env: None,
        })
    };
    run(&mut app, SlashCommand::Provider(ProviderAction::List));
    assert!(last_notice(&app).starts_with("no providers configured — using the default: default"));
    run(&mut app, add("one"));
    assert_eq!(app.config.providers.len(), 1);
    let used = run(&mut app, SlashCommand::Provider(ProviderAction::Use("one".to_string())));
    assert!(matches!(used, Some(Task::RebuildProvider { .. })));
    assert_eq!(app.config.active_provider.as_deref(), Some("one"));
    run(&mut app, SlashCommand::Provider(ProviderAction::List));
    assert_eq!(
        last_notice(&app),
        "configured providers:\n* one (openai) m @ https://e.com\n(* = active)"
    );
    run(&mut app, SlashCommand::Provider(ProviderAction::Use("none".to_string())));
    assert!(last_notice(&app).contains("'none'"));
}

#[test]
fn a_provider_that_was_built_brings_the_agent_back() {
    let mut app = app_with(llama());
    let tasks = app.provider_built(Ok(true), "now on llama".to_string());
    assert_eq!(tasks.len(), 2);
    assert_eq!(tasks[0], Task::StartServer);
    assert!(matches!(
        &tasks[1],
        Task::RebuildAgent { label, summary, context }
            if label == "qwen3" && summary == "now on llama" && context == "switched provider"
    ));
    assert!(app.provider_built(Err("bad url".to_string()), String::new()).is_empty());
    assert_eq!(last_notice(&app), "could not build provider 'default': bad url");

    app.planning.plan_mode = true;
    let rebuilt = app.agent_rebuilt("m2".to_string(), "ready".to_string(), "started", Ok(()));
    assert_eq!(rebuilt, Some(Task::SetPlanMode(true)), "plan mode outlives the rebuild");
    assert_eq!(app.turn.status.model, "m2");
    assert_eq!(last_notice(&app), "ready");
    let failed =
        app.agent_rebuilt("m3".to_string(), String::new(), "started", Err("no".to_string()));
    assert_eq!(failed, None);
    assert_eq!(
        last_notice(&app),
        "started but could not start the agent: no — /quit and relaunch"
    );
    assert_eq!(app.turn.status.model, "m2");

    let signed_in = app.provider_activated(xai_provider(), "signed in".to_string());
    assert!(matches!(signed_in, Task::RebuildProvider { summary } if summary == "signed in"));
    assert_eq!(app.config.active_provider.as_deref(), Some("xai-oauth"));
    app.provider_key_stored("xai", Err("locked".to_string()));
    assert!(last_notice(&app).contains("locked"));
    app.fusion_built(Err("one provider".to_string()));
    assert_eq!(last_notice(&app), "could not start fusion: one provider");
    app.ultra_built(Err("no lens".to_string()), true);
    assert_eq!(last_notice(&app), "could not start ultra: no lens");
    app.tools_merged(Err("mcp".to_string()));
    assert!(last_notice(&app).contains("mcp"));
}

#[test]
fn a_publication_and_a_download_report_their_progress() {
    assert_eq!(
        publish_report(Ok(("u/w".to_string(), "main".to_string(), "curl x".to_string()))),
        "publish: forked to u/w  (branch: main)\n\nInstall one-liner:\ncurl x"
    );
    assert_eq!(publish_report(Err("no gh".to_string())), "publish failed: no gh");

    let mut download = Download::new(Some(200));
    assert_eq!(download.inc(1), None);
    assert_eq!(download.inc(1), Some(1));
    assert_eq!(download.inc(0), None);
    assert_eq!(download.inc(198), Some(100));
    let mut unsized_download = Download::new(Some(0));
    assert_eq!(unsized_download.inc(10), None);
}

#[test]
fn reloads_and_imports_say_what_came() {
    let command = || CustomCommand {
        name: "deploy".to_string(),
        description: None,
        template: "Deploy".to_string(),
        path: String::new(),
    };
    let mut app = app();
    assert_eq!(run(&mut app, SlashCommand::Reload), Some(Task::Reload));
    app.reloaded(vec![command()], ServersReload::Done, Some(Ok(4)), 2);
    assert_eq!(last_notice(&app), "reloaded: 4 tools, 2 skills");
    assert_eq!(app.composer.custom_commands.len(), 1);
    app.reloaded(vec![], ServersReload::Warned("slow".to_string()), None, 0);
    assert_eq!(last_notice(&app), "MCP reload warning: slow");
    app.reloaded(
        vec![],
        ServersReload::Unread("torn".to_string()),
        Some(Err("boom".to_string())),
        0,
    );
    assert_eq!(last_notice(&app), "reload failed: boom");

    app.import_failed("unreadable");
    assert_eq!(last_notice(&app), "Other Agent import failed: unreadable");
    app.imported(vec![], vec![], ServersReload::Done, "");
    assert_eq!(last_notice(&app), "nothing to import from Other Agent");
    app.effects.clear();
    app.imported(vec!["Musing".to_string()], vec![command()], ServersReload::Done, "1 verb");
    assert_eq!(last_notice(&app), "imported from Other Agent:\n1 verb");
    assert_eq!(app.config.spinner_verbs, vec!["Musing"]);
    assert!(matches!(app.effects.as_slice(), [Effect::SaveConfig(_)]));
}

#[test]
fn subagents_are_listed_with_what_they_may_use() {
    let mut app = app();
    assert_eq!(run(&mut app, SlashCommand::Agents), Some(Task::ListAgents));
    app.open_agents_picker(&vec![]);
    assert_eq!(last_notice(&app), "no subagents available");
    app.open_agents_picker(&vec![SubagentInfo {
        name: "worker".to_string(),
        description: "general".to_string(),
        tool_scope: Some(vec!["read".to_string()]),
        max_steps: StepBudget::Limited(5),
    }]);
    let picker = app.composer.picker.as_ref().expect("open");
    assert_eq!(picker.kind, PickerKind::Subagent);
    assert_eq!(picker.items[0].value, "worker");
}

#[test]
fn a_diff_that_cannot_be_read_says_so() {
    let mut app = app();
    app.diff_read(Ok("+line".to_string()));
    assert_eq!(app.panels.diff_text, "+line");
    app.diff_read(Err("not a repo".to_string()));
    assert_eq!(app.panels.diff_text, "could not read git diff: not a repo");
}

// --- the import menu ---

#[test]
fn the_import_menu_counts_what_there_is() {
    let mut app = app();
    app.open_settings_picker();
    let rows = app.composer.picker.as_ref().expect("open");
    let at = rows.items.iter().position(|row| row.value == "Import from Other Agent").expect("row");
    assert_eq!(rows.items[at].detail, "no ~/.other found");

    app.surroundings.claude_home = true;
    app.surroundings.claude_mcp = 2;
    app.composer.picker.as_mut().expect("open").selected = at;
    press(&mut app, KeyCode::Enter);
    let menu = app.composer.picker.as_ref().expect("the import menu");
    assert_eq!(menu.title, " import from other agent · space toggles · enter runs ");
    assert_eq!(menu.items[0].value, "MCP servers (2)");
    assert_eq!(menu.items[2].detail, "adopt Other Agent's spinner verbs");
    press(&mut app, KeyCode::Char(' '));
    let action = press(&mut app, KeyCode::Enter);
    assert!(matches!(
        action,
        Some(AppAction::Command(SlashCommand::ImportClaude(ImportSelection {
            mcp: true,
            commands: false,
            verbs: false,
        })))
    ));
}

#[test]
fn a_web_search_key_is_stored_and_then_used() {
    let mut app = app();
    app.surroundings.web_backends = vec![WebBackend {
        id: "brave".to_string(),
        label: "Brave".to_string(),
        detail: String::new(),
        needs_key: true,
    }];
    app.open_web_backend_picker();
    press(&mut app, KeyCode::Enter);
    assert_eq!(app.composer.web_key_backend.as_deref(), Some("brave"));
    assert!(app.prompt_is_masked());
    for c in "k3y".chars() {
        press(&mut app, KeyCode::Char(c));
    }
    press(&mut app, KeyCode::Enter);
    assert_eq!(
        app.effects.pop(),
        Some(Effect::StoreWebKey { backend: "brave".to_string(), key: "k3y".to_string() })
    );
    app.web_key_stored("brave", Some("locked".to_string()));
    assert_eq!(last_notice(&app), "could not save the brave API key: locked");
    app.web_key_stored("brave", None);
    assert_eq!(app.config.web_search_backend, "brave");
}

// --- sessions and runs ---

#[test]
fn sessions_are_listed_peeked_dispatched_and_stopped() {
    let record = |id: &str| SessionRecord {
        id: id.to_string(),
        name: id.to_string(),
        cwd: "/tmp".to_string(),
        model: "m".to_string(),
        mode: "genie".to_string(),
        state: SessionState::Idle,
        activity: String::new(),
        pid: 1,
        started_unix: 0,
        updated_unix: 0,
    };
    let mut app = app();
    app.dashboard.selected = 5;
    app.refresh_sessions(vec![record("a"), record("b")]);
    assert_eq!(app.dashboard.selected, 1, "the selection stays on the list");
    app.refresh_peek(vec![("user".to_string(), "hi".to_string())]);
    assert_eq!(app.dashboard.peek_lines.len(), 1);
    app.refresh_sessions(vec![]);
    app.refresh_peek(vec![("user".to_string(), "hi".to_string())]);
    assert!(app.dashboard.peek_lines.is_empty());

    app.session_dispatched("fix it", Dispatched::Started);
    assert_eq!(last_notice(&app), "dispatched background session: fix it");
    assert_eq!(app.effects.pop(), Some(Effect::RefreshSessions));
    app.session_dispatched("fix it", Dispatched::NoBinary("gone".to_string()));
    assert!(last_notice(&app).starts_with("could not locate the wizard binary: gone"));
    app.session_dispatched("fix it", Dispatched::Failed("fork".to_string()));
    assert!(last_notice(&app).contains("fork"));
    app.session_stopped("a");
    assert_eq!(last_notice(&app), "stopped session: a");
}

#[test]
fn a_background_session_runs_in_the_same_project() {
    let app = app();
    assert_eq!(
        app.dispatch_args("fix it"),
        vec![
            "--bg",
            "--mode",
            "sovereign",
            "-p",
            "fix it",
            "--cwd",
            app.session.project_root.as_str(),
        ]
    );
}

#[test]
fn a_killed_run_is_failed_unless_it_had_finished() {
    let mut app = app();
    app.handle_agent_event(AgentEvent::SubagentRunStarted {
        run: 4,
        bg: Some(2),
        name: "worker".to_string(),
        task: "dig".to_string(),
    });
    app.subagent_killed(4, 2, "worker", false);
    assert_eq!(last_notice(&app), "subagent 'worker' (#2) already finished");
    assert_eq!(app.rail.panes[0].status, PaneStatus::Running);
    app.subagent_killed(4, 2, "worker", true);
    assert_eq!(last_notice(&app), "killed subagent 'worker' (#2)");
    assert_eq!(app.rail.panes[0].status, PaneStatus::Failed);
    assert_eq!(app.rail.panes[0].glyph(0), PaneStatus::Failed.glyph());
    assert_eq!(PaneStatus::Running.glyph(), "●");
    assert_eq!(PaneStatus::Done.glyph(), "✔");
    assert_eq!(PaneStatus::Failed.glyph(), "✗");
}

#[test]
fn a_runs_clock_stops_when_it_ends() {
    let mut pane = SubagentPane::new(1, None, "w".to_string(), "t".to_string(), 100);
    assert_eq!(pane.elapsed(350), 250);
    pane.finished = Some(300);
    assert_eq!(pane.elapsed(9_000), 200);
    assert_eq!(pane.elapsed(0), 200);
}

#[test]
fn images_stand_beside_what_made_them() {
    let image = || ImageRef {
        path: "/img/a.png".to_string(),
        mime: "image/png".to_string(),
        bytes: 3,
    };
    let mut app = app();
    app.handle_agent_event(AgentEvent::TextDelta("here it is".to_string()));
    app.handle_agent_event(AgentEvent::Images {
        source: ImageSource::Assistant,
        images: vec![image()],
    });
    assert_eq!(
        app.chat.transcript.last(),
        Some(&TranscriptEntry::Image { source: ImageSource::Assistant, image: image() })
    );
    app.handle_agent_event(AgentEvent::SubagentRunStarted {
        run: 1,
        bg: None,
        name: "researcher".to_string(),
        task: "look".to_string(),
    });
    let before = app.chat.transcript.len();
    app.handle_agent_event(AgentEvent::SubagentRunImages {
        run: 1,
        source: ImageSource::Tool("screenshot".to_string()),
        images: vec![image()],
    });
    assert_eq!(app.chat.transcript.len(), before, "a run's images are its own");
    assert_eq!(app.rail.panes[0].transcript.len(), 1);

    // An image that has no file is not shown.
    let kept = replayed_refs(&vec![
        Image { path: None, mime: "image/png".to_string(), bytes: 1 },
        Image { path: Some("/b.png".to_string()), mime: "image/png".to_string(), bytes: 2 },
    ]);
    assert_eq!(kept.len(), 1);
    assert_eq!(kept[0].path, "/b.png");
}

#[test]
fn a_finished_turn_frees_the_composer() {
    let mut app = app();
    app.turn.status.busy = true;
    app.handle_agent_event(AgentEvent::TextDelta("the answer".to_string()));
    app.handle_agent_event(AgentEvent::Done { reason: DoneReason::Completed });
    assert!(!app.turn.status.busy);
    assert!(app.chat.streaming.is_empty());
    assert!(app.chat.transcript.iter().any(|entry| matches!(
        entry,
        TranscriptEntry::Assistant(text) if text == "the answer"
    )));
}

// --- external editors ---

#[test]
fn an_edited_config_is_adopted_and_a_broken_one_is_not() {
    let mut app = app();
    app.config_file_edited(ConfigEdit::Unparsed("line 3".to_string()));
    assert_eq!(last_notice(&app), "config not reloaded (parse error): line 3");
    app.config_file_edited(ConfigEdit::NoPath("no home".to_string()));
    assert_eq!(last_notice(&app), "could not locate config: no home");
    app.config_file_edited(ConfigEdit::NoEditor("/c.toml".to_string()));
    assert_eq!(last_notice(&app), "no $EDITOR set — edit /c.toml by hand, then /reload");
    app.config_file_edited(ConfigEdit::NotSuspended("tty".to_string()));
    assert_eq!(last_notice(&app), "could not suspend the TUI: tty");
    app.config_file_edited(ConfigEdit::NotRestored("tty".to_string()));
    assert_eq!(last_notice(&app), "could not restore the TUI: tty — /quit and relaunch");
    app.config_file_edited(ConfigEdit::NotLaunched("vi".to_string()));
    assert_eq!(last_notice(&app), "could not launch editor: vi");
    app.config_file_edited(ConfigEdit::Unsuccessful);
    assert_eq!(last_notice(&app), "editor exited without success — config not reloaded");

    let mut edited = config();
    edited.mode = Mode::Sovereign;
    edited.fallback.model = "other".to_string();
    app.config_file_edited(ConfigEdit::Reloaded(edited));
    assert_eq!(app.turn.status.mode, Mode::Sovereign);
    assert_eq!(app.turn.status.model, "other");
}

#[test]
fn an_edited_draft_replaces_the_input_only_on_success() {
    let mut app = app();
    press(&mut app, KeyCode::Char('a'));
    let failures = [
        (PromptEdit::NoEditor, "no $VISUAL/$EDITOR set and nvim not on PATH — cannot edit the prompt"),
        (PromptEdit::NotStaged("full".to_string()), "could not stage the prompt: full"),
        (PromptEdit::NotSuspended("tty".to_string()), "could not suspend the TUI: tty"),
        (
            PromptEdit::NotRestored("tty".to_string()),
            "could not restore the TUI: tty — /quit and relaunch",
        ),
        (PromptEdit::NotLaunched("vi".to_string()), "could not launch editor: vi"),
        (PromptEdit::Unsuccessful, "editor exited without success — prompt unchanged"),
        (PromptEdit::Unreadable("gone".to_string()), "could not read the edited prompt: gone"),
    ];
    for (edit, notice) in failures {
        app.draft_edited(edit);
        assert_eq!(last_notice(&app), notice);
        assert_eq!(app.composer.input, "a");
    }
    app.draft_edited(PromptEdit::Edited("b\n".to_string()));
    assert_eq!(app.composer.input, "b");
}

// --- pastes and the clipboard ---

#[test]
fn data_urls_of_images_are_decoded_and_bounded() {
    assert_eq!(
        parse_data_image_url("data:image/png;base64, aGk= "),
        Some(("image/png".to_string(), "aGk=".to_string()))
    );
    assert_eq!(parse_data_image_url("data:text/plain;base64,aGk="), None);
    assert_eq!(parse_data_image_url("data:image/png,aGk="), None);
    assert_eq!(parse_data_image_url("https://e/a.png"), None);

    assert_eq!(
        decode_pasted_image("image/jpeg", " aGk= ", 100),
        Ok((b"hi".to_vec(), "jpg"))
    );
    assert!(decode_pasted_image("image/png", "not base64!", 100)
        .unwrap_err()
        .starts_with("invalid base64: "));
    assert_eq!(
        decode_pasted_image("image/png", "aGk=", 1),
        Err("image is 2 bytes (max 0 MB)".to_string())
    );
    assert_eq!(accept_image("image/x", Ok(vec![1]), 5), Ok((vec![1], "bin")));
    assert_eq!(check_image_size(5_242_881, 5_242_880).as_deref(), Some("image is 5242881 bytes (max 5 MB)"));
    assert_eq!(check_image_size(5_242_880, 5_242_880), None);
    assert_eq!(extension_for("image/webp"), "webp");
    assert_eq!(extension_for("image/jpg"), "jpg");
    assert_eq!(extension_for("image/gif"), "gif");
}

#[test]
fn a_pasted_data_url_is_saved_and_staged() {
    let mut app = app();
    app.handle_paste("data:image/png;base64,aGk=");
    assert_eq!(
        app.effects.pop(),
        Some(Effect::SavePastedImage { mime: "image/png".to_string(), data: "aGk=".to_string() })
    );
    app.pasted_image_saved(Err("full".to_string()));
    assert_eq!(last_notice(&app), "could not save pasted image: full");
    app.pasted_image_saved(Ok("/img/paste.png".to_string()));
    assert_eq!(app.composer.pending_images, vec!["/img/paste.png"]);
    assert_eq!(app.composer.input, "[Image #1]");
}

#[test]
fn the_clipboard_is_searched_reader_by_reader() {
    assert_eq!(clipboard_search(true), ClipboardSearch::Ask(Probe::WaylandTypes));
    assert_eq!(clipboard_search(false), ClipboardSearch::Ask(Probe::X11Png));
    let listing = ProbeReply::Listing("text/plain\nimage/webp\n".to_string());
    assert_eq!(
        clipboard_image_bytes(Probe::WaylandTypes, listing),
        ClipboardSearch::Ask(Probe::Wayland("image/webp".to_string()))
    );
    assert_eq!(
        clipboard_image_bytes(Probe::WaylandTypes, ProbeReply::Nothing),
        ClipboardSearch::Ask(Probe::X11Png)
    );
    assert_eq!(
        clipboard_image_bytes(Probe::X11Png, ProbeReply::Bytes(b"text".to_vec())),
        ClipboardSearch::Ask(Probe::X11Jpeg)
    );
    assert_eq!(
        clipboard_image_bytes(Probe::X11Jpeg, ProbeReply::Bytes(vec![0xff, 0xd8, 0xff])),
        ClipboardSearch::Found(vec![0xff, 0xd8, 0xff])
    );
    assert_eq!(
        clipboard_image_bytes(Probe::X11Jpeg, ProbeReply::Nothing),
        ClipboardSearch::Empty
    );
}

#[test]
fn a_clipboard_image_is_staged_or_missed_aloud() {
    let mut app = app();
    app.clipboard_read(false, ClipboardImage::Absent);
    assert!(app.chat.transcript.is_empty(), "an empty paste is no news");
    app.clipboard_read(true, ClipboardImage::Absent);
    assert!(!last_notice(&app).is_empty());
    app.clipboard_read(true, ClipboardImage::Unsaved("full".to_string()));
    assert!(last_notice(&app).contains("full"));
    app.clipboard_read(true, ClipboardImage::Saved("/img/c.png".to_string()));
    assert_eq!(app.composer.pending_images, vec!["/img/c.png"]);
}

#[test]
fn pasted_paths_lose_their_wrapping() {
    assert_eq!(clean_path(" \"file:///tmp/a b.png\" "), "/tmp/a b.png");
    assert_eq!(clean_path("'x.png'"), "x.png");
    assert!(looks_like_image_path_token("'x.PNG'"));
    assert!(!looks_like_image_path_token("x.txt"));
    assert_eq!(
        resolve_pasted_image_path("shot.png", "/project"),
        Some("/project/shot.png".to_string())
    );
    assert_eq!(resolve_pasted_image_path("/abs/s.png", "/project"), Some("/abs/s.png".to_string()));
    assert_eq!(resolve_pasted_image_path("notes.md", "/project"), None);
    // A leading tilde is not a directory of the project.
    assert_ne!(
        resolve_pasted_image_path("~/s.png", "/project"),
        Some("/project/~/s.png".to_string())
    );
}

#[test]
fn a_copy_goes_out_in_base64_and_through_a_native_tool() {
    assert_eq!(clipboard_escape("hi"), "\x1b]52;c;aGk=\x07");
    assert_eq!(clipboard_escape("hi?>"), "\x1b]52;c;aGk/Pg==\x07");
    let programs = |wayland: bool| -> Vec<String> {
        clipboard_writers(wayland).into_iter().map(|tool| tool.program).collect()
    };
    assert_eq!(programs(true), ["wl-copy", "xclip", "xsel", "pbcopy", "clip.exe"]);
    assert_eq!(programs(false), ["xclip", "xsel", "pbcopy", "clip.exe", "wl-copy"]);
    assert_eq!(clipboard_writers(false)[1].args, ["--clipboard", "--input"]);
    assert!(copy_to_clipboard(true, false).is_ok());
    assert!(copy_to_clipboard(false, true).is_ok());
    assert!(copy_to_clipboard(false, false).unwrap_err().contains("OSC 52"));
}

#[test]
fn a_reader_who_scrolled_up_stays_there_whatever_the_agent_reports() {
    let mut app = app();
    app.chat.max_scroll = 50;
    app.chat.scroll_transcript(10);
    assert_eq!((app.chat.scroll, app.chat.scroll_follow), (40, false));
    app.handle_agent_event(AgentEvent::TextDelta("more".to_string()));
    app.handle_agent_event(AgentEvent::Notice("look".to_string()));
    app.handle_agent_event(AgentEvent::PlanReady { plan: "1. go".to_string() });
    app.handle_agent_event(AgentEvent::Done { reason: DoneReason::Completed });
    assert_eq!((app.chat.scroll, app.chat.scroll_follow), (40, false));
}

#[test]
fn the_conversation_reads_the_same_whatever_key_was_entered() {
    let entered = |key: &str| {
        let mut app = app();
        app.composer.web_key_backend = Some("brave".to_string());
        app.handle_paste(key);
        press(&mut app, KeyCode::Enter);
        assert!(app.composer.history.is_empty());
        app
    };
    let (one, other) = (entered("key-one"), entered("another-key"));
    assert_eq!(one.chat.transcript, other.chat.transcript);
    assert_eq!(
        one.effects,
        vec![Effect::StoreWebKey { backend: "brave".to_string(), key: "key-one".to_string() }]
    );
}

#[test]
fn a_roster_that_does_not_build_is_not_kept() {
    let mut app = app();
    let roster = UltraConfig { lenses: vec!["speed".to_string()], judges: 1 };
    let task = app.ultra_checked(roster, Err("no such lens".to_string()));
    assert!(task.is_none());
    assert!(app.config.ultra.is_none());
    assert_eq!(last_notice(&app), "ultra roster rejected: no such lens");
}

#[test]
fn normal_mode_keeps_the_cursor_on_a_character() {
    let mut config = config();
    config.vim = true;
    let mut app = app_with(config);
    for c in "go on".chars() {
        press(&mut app, KeyCode::Char(c));
    }
    assert_eq!(app.composer.cursor, 5);
    press(&mut app, KeyCode::Esc);
    assert_eq!(app.composer.cursor, 4);
    for c in ['l', '$', 'w', 'e', 'x', 'p', 'X', 'u', '^', 'D', 'x'] {
        press(&mut app, KeyCode::Char(c));
        let len = app.composer.input.chars().count();
        assert!(app.composer.cursor == 0 || app.composer.cursor < len, "after {c}");
    }
    assert_eq!(app.composer.input, "");
}

#[test]
fn ctrl_t_passes_over_a_card_that_still_runs() {
    let mut app = app();
    let card = |name: &str, output: Option<&str>, collapsed: bool| TranscriptEntry::ToolCard {
        name: name.to_string(),
        args: Json::Null,
        output: output.map(str::to_string),
        is_error: false,
        collapsed,
    };
    app.chat.transcript = vec![card("a", Some("x"), true), card("b", None, false)];
    let control = KeyModifiers { control: true, ..KeyModifiers::none() };
    app.handle_key(KeyEvent::new(KeyCode::Char('t'), control));
    assert_eq!(app.chat.transcript, vec![card("a", Some("x"), false), card("b", None, false)]);
}

#[test]
fn a_completion_lists_the_directory_that_is_meant() {
    let app = app();
    assert_eq!(app.directory_to_list("src/"), "/project/src/");
    assert_eq!(app.directory_to_list("/etc/"), "/etc/");
    assert_ne!(app.directory_to_list("~/"), "/project/~/");
}
