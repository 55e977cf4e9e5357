//! The application's keys, events and commands.

use wizard::app::agent::AgentEvent;
use wizard::app::complete::DirEntry;
use wizard::app::diff::{git_diff_text, is_wizard_state_path, untracked_files};
use wizard::app::input::Event;
use wizard::app::keys::{KeyCode, KeyEvent, KeyModifiers, MouseEvent, MouseEventKind};
use wizard::app::menus::Lens;
use wizard::app::paste::{resolve_pasted_image_path, sniff_image_ext, ResolvedPath};
use wizard::app::picker::{Picker, PickerItem, PickerKind};
use wizard::app::prompts::{InterviewQuestion, PlanVerdict};
use wizard::app::replay::{PastCall, PastMessage, Role};
use wizard::app::state::{
    App, AppAction, Effect, InputMode, SessionRecord, SessionState, Surroundings, TodoItem,
    TodoStatus, MESSAGE_QUEUE_CAP,
};
use wizard::app::transcript::{
    collapse_long, scroll_step, Image, ImageSource, PaneStatus, ToolOutput,
    TranscriptEntry,
};
use wizard::app::vim::VimMode;
use wizard::commands::{
    CustomCommand, FusionAction, Preprocessed, ProviderAction, ServerAction, SlashCommand,
    UltraAction,
};
use wizard::config::{
    default_spinner_verbs, Config, Mode, Peer, ProviderConfig, ProviderKind, ReasoningEffort,
    StepBudget,
};
use wizard::json::Json;

fn provider(name: &str) -> ProviderConfig {
    ProviderConfig {
        name: name.to_string(),
        kind: ProviderKind::Ollama,
        base_url: "http://localhost:11434".to_string(),
        model: "qwen3".to_string(),
        api_key_env: None,
    }
}

fn config() -> Config {
    Config {
        mode: Mode::Genie,
        plan_first: false,
        omakase: false,
        continuous: false,
        plan_each_cycle: false,
        rollback_failed_cycles: false,
        max_steps: StepBudget::Limited(50),
        reasoning_effort: None,
        spinner_verbs: vec![],
        vim: false,
        web_search_backend: "duckduckgo".to_string(),
        web_allow_local: false,
        fleet_synthesize: false,
        providers: vec![],
        active_provider: None,
        fallback: provider("default"),
        fusion: None,
        ultra: None,
    }
}

fn surroundings() -> Surroundings {
    Surroundings {
        peer: Peer {
            name: "Other Agent".to_string(),
            word: "other".to_string(),
            home: "~/.other".to_string(),
        },
        claude_home: false,
        claude_mcp: 0,
        claude_commands: 0,
        claude_verbs: 0,
        config_path: "/home/u/.wizard/config.toml".to_string(),
        xai_session: false,
        xai_key: false,
        pid: 1,
        provider_types: vec![],
        presets: vec![],
        web_backends: vec![],
    }
}

fn app_with(config: Config) -> App {
    let mut app = App::new(config, "/project".to_string(), surroundings());
    app.now = 60_000;
    app
}

fn app() -> App {
    app_with(config())
}

fn control() -> KeyModifiers {
    KeyModifiers { control: true, ..KeyModifiers::none() }
}

fn shift() -> KeyModifiers {
    KeyModifiers { shift: true, ..KeyModifiers::none() }
}

fn alt() -> KeyModifiers {
    KeyModifiers { alt: true, ..KeyModifiers::none() }
}

fn ok_output(content: &str) -> ToolOutput {
    ToolOutput { content: content.to_string(), is_error: false }
}

fn error_output(content: &str) -> ToolOutput {
    ToolOutput { content: content.to_string(), is_error: true }
}

fn object(fields: &[(&str, &str)]) -> Json {
    Json::Object(
        fields
            .iter()
            .map(|(name, text)| (name.to_string(), Json::Text(text.to_string())))
            .collect(),
    )
}

/// Pastes `text` where the files in `files` exist.
fn paste(app: &mut App, files: &[&str], text: &str) {
    app.handle_paste(text);
    for effect in std::mem::take(&mut app.effects) {
        if let Effect::ResolvePaths { text, tokens } = effect {
            let resolved: Vec<ResolvedPath> = tokens
                .into_iter()
                .map(|token| {
                    let path = resolve_pasted_image_path(&token, &app.session.project_root)
                        .filter(|path| files.contains(&path.as_str()));
                    ResolvedPath { token, path }
                })
                .collect();
            app.pasted_paths_resolved(&text, &resolved);
        }
    }
}

/// Presses Tab where `listings` says what each directory holds.
fn press_tab(app: &mut App, listings: &[(&str, &[(&str, bool)])]) {
    press(app, KeyCode::Tab);
    for effect in std::mem::take(&mut app.effects) {
        if let Effect::ListDirectory { dir, prefix } = effect {
            let (_, entries) = listings
                .iter()
                .find(|(name, _)| *name == dir)
                .unwrap_or_else(|| panic!("no directory {dir:?}"));
            let entries: Vec<DirEntry> = entries
                .iter()
                .map(|(name, is_dir)| DirEntry { name: name.to_string(), is_dir: *is_dir })
                .collect();
            app.directory_listed(&prefix, &entries);
        }
    }
}

/// The verdict the open review was answered with, if it was.
fn verdict(app: &mut App) -> Option<PlanVerdict> {
    std::mem::take(&mut app.effects).into_iter().find_map(|effect| match effect {
        Effect::Verdict(verdict) => Some(verdict),
        _ => None,
    })
}

/// The answers the open interview was closed with, if it was.
fn answers(app: &mut App) -> Option<Option<Vec<String>>> {
    std::mem::take(&mut app.effects).into_iter().find_map(|effect| match effect {
        Effect::Answers(answers) => Some(answers),
        _ => None,
    })
}

fn lenses() -> Vec<Lens> {
    ["architect", "skeptic", "pragmatist", "researcher"]
        .iter()
        .map(|name| Lens { name: name.to_string(), description: "a lens".to_string() })
        .collect()
}

fn message(role: Role, content: &str) -> PastMessage {
    PastMessage {
        role,
        content: content.to_string(),
        images: vec![],
        tool_calls: vec![],
        tool_name: None,
    }
}

fn press(app: &mut App, code: KeyCode) -> Option<AppAction> {
    app.handle_key(KeyEvent::new(code, KeyModifiers::none()))
}

fn press_ctrl(app: &mut App, c: char) -> Option<AppAction> {
    app.handle_key(KeyEvent::new(KeyCode::Char(c), control()))
}

/// An app with `n` subagent runs on the rail, all still running.
fn app_with_panes(n: u64) -> App {
    let mut app = app();
    for i in 0..n {
        app.handle_agent_event(AgentEvent::SubagentRunStarted {
            run: i,
            bg: Some(i as u32),
            name: format!("agent{i}"),
            task: format!("task {i}"),
        });
    }
    app
}

fn press_mod(app: &mut App, code: KeyCode, mods: KeyModifiers) -> Option<AppAction> {
    app.handle_key(KeyEvent::new(code, mods))
}

fn type_str(app: &mut App, text: &str) {
    for c in text.chars() {
        press(app, KeyCode::Char(c));
    }
}

/// What git says of a new file.
fn new_file_diff(file: &str, content: &str) -> String {
    format!("diff --git a/{file} b/{file}\nnew file mode 100644\n+++ b/{file}\n+{content}\n")
}

/// Untracked (new) files are invisible to plain `git diff`, so `/diff`
/// must surface them itself — otherwise a tree whose only change is a new
/// file reads as "(working tree clean)".
#[test]
fn diff_text_includes_untracked_files() {
    let files = untracked_files("brand_new.txt\n");
    let diffs: Vec<String> =
        files.iter().map(|file| new_file_diff(file, "fresh content")).collect();
    let text = git_diff_text("", "", &diffs);
    assert!(
        text.contains("brand_new.txt") && text.contains("fresh content"),
        "untracked file missing from /diff output:\n{text}"
    );
    assert!(text.contains("# --- untracked ---"));
}

/// Wizard's own `.wizard/` session state (checkpoints, snapshots) is an
/// implementation detail — it must never show up in `/diff`, or the
/// sidebar fills with internal noise and looks broken.
#[test]
fn diff_text_omits_wizard_state() {
    let files = untracked_files(".wizard/checkpoints/1/0.snap\nreal_change.txt\n");
    let diffs: Vec<String> =
        files.iter().map(|file| new_file_diff(file, "user content")).collect();
    let text = git_diff_text("", "", &diffs);
    assert!(text.contains("real_change.txt"), "real untracked change missing:\n{text}");
    assert!(
        !text.contains(".wizard/checkpoints"),
        "wizard internal state leaked into /diff:\n{text}"
    );
}

#[test]
fn is_wizard_state_path_matches_state_dir_only() {
    assert!(is_wizard_state_path(".wizard/checkpoints/1/0.snap"));
    assert!(is_wizard_state_path("sub/.wizard/x"));
    assert!(is_wizard_state_path(".wizard"));
    assert!(!is_wizard_state_path("src/wizard.rs"));
    assert!(!is_wizard_state_path(".wizardrc"));
}

#[test]
fn the_state_dir_itself_counts_in_any_subdir() {
    assert!(is_wizard_state_path("sub/.wizard"));
    assert!(is_wizard_state_path("sub\\deep\\.wizard"));
    assert!(is_wizard_state_path("sub\\.wizard\\x"));
    assert!(!is_wizard_state_path("sub/.wizardrc"));
    assert!(!is_wizard_state_path("sub/my.wizard"));
    assert!(!is_wizard_state_path(""));
}

/// The diff sidebar paginates with PgUp/PgDn (offset from the top) and Esc
/// closes it — without this a diff taller than the pane is unreadable.
#[test]
fn diff_sidebar_pages_and_closes() {
    let mut app = app();
    app.panels.show_diff = true;
    assert_eq!(app.panels.diff_scroll, 0);

    press(&mut app, KeyCode::PageDown);
    assert_eq!(app.panels.diff_scroll, 10, "PgDn scrolls the diff down");
    press(&mut app, KeyCode::PageUp);
    assert_eq!(app.panels.diff_scroll, 0, "PgUp scrolls back up");
    // PgUp at the top stays clamped (no underflow).
    press(&mut app, KeyCode::PageUp);
    assert_eq!(app.panels.diff_scroll, 0);

    // While the diff owns paging, the transcript scroll is untouched.
    assert_eq!(app.chat.scroll, 0);

    app.panels.diff_scroll = 30;
    press(&mut app, KeyCode::Esc);
    assert!(!app.panels.show_diff, "Esc closes the diff sidebar");
    assert_eq!(app.panels.diff_scroll, 0, "closing resets the diff scroll");
}

#[test]
fn welcome_stays_up_for_empty_and_notice_only_transcripts() {
    let mut app = app();
    // Fresh launch: nothing typed, welcome screen.
    assert!(!app.has_conversation());

    // Early system notices (provider health, partial MCP failure) land
    // before the first message; they alone must not dismiss the welcome.
    app.notice("error: 1 of 2 MCP servers failed to connect (see logs)".to_string());
    app.notice("just a status line".to_string());
    assert!(
        !app.has_conversation(),
        "notices alone should not count as conversation"
    );
}

#[test]
fn slash_command_dismisses_the_welcome_screen() {
    let mut app = app();
    assert!(app.welcome_visible());

    // Startup notices land before anything is submitted; they alone must
    // leave the welcome screen up.
    app.notice("error: 1 of 2 MCP servers failed to connect (see logs)".to_string());
    assert!(app.welcome_visible());

    // A slash command dispatches without adding transcript entries, but
    // it still begins the session.
    type_str(&mut app, "/effort high");
    press(&mut app, KeyCode::Enter);
    assert!(
        !app.welcome_visible(),
        "a slash command dismisses the welcome screen"
    );
}

#[test]
fn welcome_dismisses_once_real_entries_appear() {
    for entry in [
        TranscriptEntry::User("hi".to_string()),
        TranscriptEntry::Assistant("hello".to_string()),
        TranscriptEntry::ToolCard {
            name: "read".to_string(),
            args: Json::Object(vec![]),
            output: None,
            is_error: false,
            collapsed: false,
        },
    ] {
        let mut app = app();
        app.chat.transcript.push(entry);
        assert!(
            app.has_conversation(),
            "a User/Assistant/ToolCard entry begins the conversation"
        );
    }
}

#[test]
fn spinner_verb_starts_from_the_default_list() {
    let app = app();
    assert!(default_spinner_verbs().contains(&app.turn.spinner_verb));
}

#[test]
fn spinner_verb_is_deterministic_and_stable_within_a_busy_period() {
    let verbs = || Config {
        spinner_verbs: vec![
            "Pondering".to_string(),
            "Musing".to_string(),
            "Noodling".to_string(),
        ],
        ..config()
    };
    let mut a = app_with(verbs());
    let mut b = app_with(verbs());
    a.tick = 17;
    b.tick = 17;
    a.roll_spinner_verb();
    b.roll_spinner_verb();
    // Same tick and roll count -> same verb.
    assert_eq!(a.turn.spinner_verb, b.turn.spinner_verb);
    // Ticks advancing mid-turn must not change the verb until a re-roll.
    let during = a.turn.spinner_verb.clone();
    a.tick += 5;
    assert_eq!(a.turn.spinner_verb, during);
}

#[test]
fn spinner_verb_rerolls_across_busy_periods() {
    let mut app = app();
    let mut seen = std::collections::HashSet::new();
    for turn in 0..40u64 {
        app.tick = turn * 13;
        app.roll_spinner_verb();
        seen.insert(app.turn.spinner_verb.clone());
    }
    assert!(seen.len() > 1, "verb never varied across busy periods");
}

#[test]
fn slash_filters_suggestions_by_prefix() {
    let mut app = app();
    type_str(&mut app, "/mo");
    let names: Vec<&str> = app.composer.suggestions.iter().map(|s| s.name.as_str()).collect();
    // Prefix matches first, then substring matches ("me*mo*ry").
    assert_eq!(names, ["model", "mode", "memory"]);
    assert_eq!(app.composer.input_mode, InputMode::Command);
}

#[test]
fn suggestions_hide_once_args_are_typed() {
    let mut app = app();
    type_str(&mut app, "/evolve add");
    assert!(app.composer.suggestions.is_empty());
}

#[test]
fn arrow_keys_cycle_suggestions_with_wraparound() {
    let mut app = app();
    type_str(&mut app, "/mo");
    assert_eq!(app.composer.suggestion_index, 0);
    press(&mut app, KeyCode::Down);
    assert_eq!(app.composer.suggestion_index, 1);
    press(&mut app, KeyCode::Down);
    assert_eq!(app.composer.suggestion_index, 2);
    press(&mut app, KeyCode::Down);
    assert_eq!(app.composer.suggestion_index, 0);
    press(&mut app, KeyCode::Up);
    assert_eq!(app.composer.suggestion_index, 2);
}

#[test]
fn tab_completes_the_selected_suggestion() {
    let mut app = app();
    // "/re" would be ambiguous between /rewind and /reload.
    type_str(&mut app, "/rel");
    press(&mut app, KeyCode::Tab);
    assert_eq!(app.composer.input, "/reload");
    assert_eq!(app.composer.cursor, "/reload".chars().count());
}

#[test]
fn tab_completion_appends_space_for_commands_taking_args() {
    let mut app = app();
    type_str(&mut app, "/ev");
    press(&mut app, KeyCode::Tab);
    assert_eq!(app.composer.input, "/evolve ");
}

#[test]
fn enter_completes_and_runs_argless_commands() {
    let mut app = app();
    type_str(&mut app, "/d");
    let action = press(&mut app, KeyCode::Enter);
    assert!(matches!(
        action,
        Some(AppAction::Command(SlashCommand::Diff))
    ));
    assert!(app.composer.input.is_empty());
}

#[test]
fn enter_on_partial_arg_command_completes_and_waits() {
    let mut app = app();
    type_str(&mut app, "/ev");
    let action = press(&mut app, KeyCode::Enter);
    assert!(action.is_none());
    assert_eq!(app.composer.input, "/evolve ");
}

#[test]
fn exactly_typed_command_wins_over_longer_completion() {
    // "model" prefix-matches the typed "mode"; Enter must still run
    // /mode itself, not complete to /model.
    let mut app = app();
    type_str(&mut app, "/mode");
    assert_eq!(app.composer.suggestions[0].name, "mode");
    let action = press(&mut app, KeyCode::Enter);
    assert!(matches!(
        action,
        Some(AppAction::Command(SlashCommand::Mode(None)))
    ));
}

fn custom(name: &str, template: &str, description: Option<&str>) -> CustomCommand {
    CustomCommand {
        name: name.to_string(),
        description: description.map(str::to_string),
        template: template.to_string(),
        path: String::new(),
    }
}

#[test]
fn custom_commands_appear_in_suggestions_after_builtins() {
    let mut app = app();
    app.composer.custom_commands = vec![custom(
        "models-report",
        "Report on $ARGUMENTS",
        Some("report"),
    )];
    type_str(&mut app, "/mo");
    let names: Vec<&str> = app.composer.suggestions.iter().map(|s| s.name.as_str()).collect();
    assert_eq!(names, ["model", "mode", "models-report", "memory"]);
    let spec = &app.composer.suggestions[2];
    assert_eq!(spec.description, "report");
    assert!(spec.takes_args);
}

#[test]
fn typed_custom_command_submits_the_expanded_prompt() {
    let mut app = app();
    app.composer.custom_commands = vec![custom("review", "Review $1 with care.", None)];
    type_str(&mut app, "/review src/app.rs");
    // The main loop expands what is about to be submitted.
    app.turn.expansion = Some((
        "/review src/app.rs".to_string(),
        Preprocessed::text_only("Review src/app.rs with care.".to_string()),
    ));
    let action = press(&mut app, KeyCode::Enter);
    let Some(AppAction::Submit(prepared)) = action else {
        panic!("expected a submit, got {action:?}");
    };
    assert_eq!(prepared.text, "Review src/app.rs with care.");
    // The transcript shows what the user actually typed.
    assert!(matches!(
        app.chat.transcript.last(),
        Some(TranscriptEntry::User(text)) if text == "/review src/app.rs"
    ));
}

#[test]
fn unknown_slash_command_passes_through_as_a_prompt() {
    let mut app = app();
    type_str(&mut app, "/frobnicate the build");
    let action = press(&mut app, KeyCode::Enter);
    assert!(matches!(
        action,
        Some(AppAction::Submit(prepared)) if prepared.text == "/frobnicate the build"
    ));
}

#[test]
fn builtin_command_with_bad_args_keeps_its_usage_notice() {
    let mut app = app();
    type_str(&mut app, "/mode warlock");
    let action = press(&mut app, KeyCode::Enter);
    assert!(action.is_none());
    assert!(matches!(
        app.chat.transcript.last(),
        Some(TranscriptEntry::Notice(text)) if text.contains("unknown mode")
    ));
}

/// A 1x1 PNG for tests that only need a real image file on disk.
const MINI_PNG: [u8; 70] = [
    0x89, 0x50, 0x4e, 0x47, 0x0d, 0x0a, 0x1a, 0x0a, 0x00, 0x00, 0x00, 0x0d, 0x49, 0x48, 0x44, 0x52,
    0x00, 0x00, 0x00, 0x01, 0x00, 0x00, 0x00, 0x01, 0x08, 0x02, 0x00, 0x00, 0x00, 0x90, 0x77, 0x53,
    0xde, 0x00, 0x00, 0x00, 0x0c, 0x49, 0x44, 0x41, 0x54, 0x08, 0xd7, 0x63, 0xf8, 0xcf, 0xc0, 0x00,
    0x00, 0x00, 0x03, 0x00, 0x01, 0x00, 0x05, 0xfe, 0xd4, 0xef, 0x00, 0x00, 0x00, 0x00, 0x49, 0x45,
    0x4e, 0x44, 0xae, 0x42, 0x60, 0x82,
];

#[test]
fn pasting_image_paths_shows_numbered_indicators() {
    let mut app = app();
    let files = ["/project/a.png", "/project/b.png"];

    paste(&mut app, &files, "/project/a.png");
    paste(&mut app, &files, "/project/b.png");

    assert!(app.composer.input.contains("[Image #1]"), "input: {}", app.composer.input);
    assert!(app.composer.input.contains("[Image #2]"), "input: {}", app.composer.input);
    assert_eq!(app.composer.pending_images.len(), 2);
}

#[test]
fn an_image_is_one_however_its_path_is_written() {
    let mut app = app();
    let resolved = |path: &str| ResolvedPath { token: path.to_string(), path: Some(path.to_string()) };
    let paths = ["/t/a.png", "/t//a.png", "/t/./a.png", "/t/b/../a.png", "/t/A.png"];
    app.pasted_paths_resolved("", &paths.map(resolved).into_iter().collect());
    // Slashes and dots do not tell places apart; `..` and letters do.
    assert_eq!(app.composer.pending_images, vec!["/t/a.png", "/t/b/../a.png", "/t/A.png"]);

    let images = vec!["/t//a.png".to_string()];
    app.turn.expansion =
        Some(("look".to_string(), Preprocessed { text: "look".to_string(), images }));
    app.composer.input = "look".to_string();
    app.composer.cursor = 4;
    let Some(AppAction::Submit(sent)) = press(&mut app, KeyCode::Enter) else {
        panic!("a prompt is sent");
    };
    assert_eq!(sent.images, vec!["/t//a.png", "/t/b/../a.png", "/t/A.png"]);
}

#[test]
fn pasting_the_same_image_twice_stages_it_once() {
    let mut app = app();
    let files = ["/project/a.png"];

    let token = "/project/a.png";
    paste(&mut app, &files, token);
    paste(&mut app, &files, token);

    assert_eq!(app.composer.pending_images.len(), 1);
    assert!(!app.composer.input.contains("[Image #2]"), "input: {}", app.composer.input);
}

#[test]
fn clearing_the_composer_drops_staged_images() {
    let mut app = app();
    let files = ["/project/a.png"];

    paste(&mut app, &files, "/project/a.png");
    assert_eq!(app.composer.pending_images.len(), 1);

    app.composer.clear_input();
    assert!(app.composer.pending_images.is_empty());
    assert!(app.composer.input.is_empty());
}

#[test]
fn backspace_deletes_a_pasted_image_token_in_one_press() {
    let mut app = app();
    let files = ["/project/a.png"];

    paste(&mut app, &files, "/project/a.png");
    assert_eq!(app.composer.input, "[Image #1]");
    assert_eq!(app.composer.pending_images.len(), 1);
    assert_eq!(app.composer.cursor, app.composer.input.chars().count());

    // One Backspace at the end of the token removes the whole attachment.
    press(&mut app, KeyCode::Backspace);
    assert!(app.composer.input.is_empty(), "input: {}", app.composer.input);
    assert!(app.composer.pending_images.is_empty());
    assert_eq!(app.composer.cursor, 0);
}

#[test]
fn delete_removes_image_token_under_the_cursor() {
    let mut app = app();
    let files = ["/project/a.png"];

    type_str(&mut app, "see ");
    paste(&mut app, &files, "/project/a.png");
    assert!(app.composer.input.ends_with("[Image #1]"), "input: {}", app.composer.input);

    // Park the cursor on the '[' of the token, then Delete.
    app.composer.cursor = "see ".chars().count();
    press(&mut app, KeyCode::Delete);
    assert_eq!(app.composer.input, "see ");
    assert!(app.composer.pending_images.is_empty());
    assert_eq!(app.composer.cursor, "see ".chars().count());
}

#[test]
fn deleting_one_image_renumbers_the_rest() {
    let mut app = app();
    let files = ["/project/a.png", "/project/b.png"];

    paste(&mut app, &files, "/project/a.png");
    paste(&mut app, &files, "/project/b.png");
    assert_eq!(app.composer.input, "[Image #1] [Image #2]");
    let first = app.composer.pending_images[0].clone();
    let second = app.composer.pending_images[1].clone();

    // Cursor after token #1; Backspace drops #1 and renumbers #2 → #1.
    app.composer.cursor = "[Image #1]".chars().count();
    press(&mut app, KeyCode::Backspace);
    assert_eq!(app.composer.input, " [Image #1]");
    assert_eq!(app.composer.pending_images, vec![second]);
    assert!(!app.composer.pending_images.contains(&first));
}

#[test]
fn sniff_identifies_supported_image_formats() {
    assert_eq!(sniff_image_ext(&MINI_PNG), Some("png"));
    assert_eq!(sniff_image_ext(&[0xff, 0xd8, 0xff, 0xe0]), Some("jpg"));
    assert_eq!(sniff_image_ext(b"GIF89a\x01\x00"), Some("gif"));
    let mut webp = b"RIFF".to_vec();
    webp.extend_from_slice(&[0x1a, 0x00, 0x00, 0x00]);
    webp.extend_from_slice(b"WEBPVP8 ");
    assert_eq!(sniff_image_ext(&webp), Some("webp"));
    assert_eq!(sniff_image_ext(b"not an image at all"), None);
    assert_eq!(sniff_image_ext(&[]), None);
}

#[test]
fn tab_completes_at_paths_from_the_directory_listing() {
    let listings: [(&str, &[(&str, bool)]); 1] =
        [("", &[("readme.md", false), ("reach", true)])];
    let mut app = app();

    // Common prefix of readme.md / reach.
    type_str(&mut app, "see @re");
    press_tab(&mut app, &listings);
    assert_eq!(app.composer.input, "see @rea");

    // Unique file completes fully.
    type_str(&mut app, "d");
    press_tab(&mut app, &listings);
    assert_eq!(app.composer.input, "see @readme.md");
}

#[test]
fn tab_completes_unique_directory_with_a_trailing_slash() {
    let listings: [(&str, &[(&str, bool)]); 2] =
        [("", &[("sources", true)]), ("sources/", &[("inner.rs", false)])];
    let mut app = app();
    type_str(&mut app, "@so");
    press_tab(&mut app, &listings);
    assert_eq!(app.composer.input, "@sources/");
    type_str(&mut app, "in");
    press_tab(&mut app, &listings);
    assert_eq!(app.composer.input, "@sources/inner.rs");
}

#[test]
fn genie_and_sovereign_parse_as_mode_switches() {
    assert_eq!(
        SlashCommand::parse("/genie"),
        Some(Ok(SlashCommand::Mode(Some(Mode::Genie))))
    );
    assert_eq!(
        SlashCommand::parse("/sovereign"),
        Some(Ok(SlashCommand::Mode(Some(Mode::Sovereign))))
    );
}

#[test]
fn effort_parses_levels_default_and_bare() {
    assert_eq!(
        SlashCommand::parse("/effort"),
        Some(Ok(SlashCommand::Effort(None))),
        "bare /effort opens the picker"
    );
    assert_eq!(
        SlashCommand::parse("/effort low"),
        Some(Ok(SlashCommand::Effort(Some(Some(ReasoningEffort::Low)))))
    );
    assert_eq!(
        SlashCommand::parse("/effort HIGH"),
        Some(Ok(SlashCommand::Effort(Some(Some(ReasoningEffort::High))))),
        "level is case-insensitive"
    );
    assert_eq!(
        SlashCommand::parse("/effort default"),
        Some(Ok(SlashCommand::Effort(Some(None)))),
        "default clears back to the provider default"
    );
    assert!(
        matches!(SlashCommand::parse("/effort turbo"), Some(Err(_))),
        "unknown level is an error"
    );
}

#[test]
fn goal_parses_show_and_set() {
    assert_eq!(
        SlashCommand::parse("/goal"),
        Some(Ok(SlashCommand::Goal(None)))
    );
    assert_eq!(
        SlashCommand::parse("/goal ship the thing"),
        Some(Ok(SlashCommand::Goal(Some("ship the thing".into()))))
    );
}

#[test]
fn server_subcommands_parse() {
    assert_eq!(
        SlashCommand::parse("/server"),
        Some(Ok(SlashCommand::Server(ServerAction::Status)))
    );
    assert_eq!(
        SlashCommand::parse("/server status"),
        Some(Ok(SlashCommand::Server(ServerAction::Status)))
    );
    assert_eq!(
        SlashCommand::parse("/server start"),
        Some(Ok(SlashCommand::Server(ServerAction::Start)))
    );
    assert_eq!(
        SlashCommand::parse("/server stop"),
        Some(Ok(SlashCommand::Server(ServerAction::Stop)))
    );
    let parsed = SlashCommand::parse("/server restart").expect("is a slash command");
    let message = parsed.expect_err("unknown subcommand");
    assert!(message.contains("status|start|stop"), "got: {message}");
}

#[test]
fn provider_add_accepts_xai_kinds() {
    let parsed =
        SlashCommand::parse("/provider add xai xai https://api.x.ai/v1 grok-4.3 XAI_API_KEY")
            .expect("is a slash command")
            .expect("parses");
    assert_eq!(
        parsed,
        SlashCommand::Provider(ProviderAction::Add {
            name: "xai".to_string(),
            kind: ProviderKind::Xai,
            base_url: "https://api.x.ai/v1".to_string(),
            model: "grok-4.3".to_string(),
            api_key_env: Some("XAI_API_KEY".to_string()),
        })
    );

    let parsed = SlashCommand::parse("/provider add grok xaioauth https://api.x.ai/v1 grok-4.3")
        .expect("is a slash command")
        .expect("parses");
    assert_eq!(
        parsed,
        SlashCommand::Provider(ProviderAction::Add {
            name: "grok".to_string(),
            kind: ProviderKind::XaiOauth,
            base_url: "https://api.x.ai/v1".to_string(),
            model: "grok-4.3".to_string(),
            api_key_env: None,
        })
    );

    // The error for an unknown kind names the xai kinds too.
    let parsed =
        SlashCommand::parse("/provider add x bogus https://e.com m").expect("is a slash command");
    let message = parsed.expect_err("unknown kind");
    assert!(message.contains("xai|xaioauth"), "got: {message}");
}

#[test]
fn provider_add_accepts_openrouter_kind() {
    let parsed = SlashCommand::parse(
            "/provider add openrouter openrouter https://openrouter.ai/api/v1 openrouter/auto OPENROUTER_API_KEY",
        )
        .expect("is a slash command")
        .expect("parses");
    assert_eq!(
        parsed,
        SlashCommand::Provider(ProviderAction::Add {
            name: "openrouter".to_string(),
            kind: ProviderKind::OpenRouter,
            base_url: "https://openrouter.ai/api/v1".to_string(),
            model: "openrouter/auto".to_string(),
            api_key_env: Some("OPENROUTER_API_KEY".to_string()),
        })
    );

    // The error for an unknown kind names openrouter too.
    let parsed =
        SlashCommand::parse("/provider add x bogus https://e.com m").expect("is a slash command");
    let message = parsed.expect_err("unknown kind");
    assert!(message.contains("openrouter"), "got: {message}");
}

#[test]
fn provider_add_accepts_cloudflare_kind() {
    let parsed = SlashCommand::parse(
            "/provider add cf cloudflare https://api.cloudflare.com/client/v4/accounts/acc/ai/v1 @cf/zai-org/glm-5.2 CLOUDFLARE_API_TOKEN",
        )
        .expect("is a slash command")
        .expect("parses");
    assert_eq!(
        parsed,
        SlashCommand::Provider(ProviderAction::Add {
            name: "cf".to_string(),
            kind: ProviderKind::Cloudflare,
            base_url: "https://api.cloudflare.com/client/v4/accounts/acc/ai/v1".to_string(),
            model: "@cf/zai-org/glm-5.2".to_string(),
            api_key_env: Some("CLOUDFLARE_API_TOKEN".to_string()),
        })
    );
}

#[test]
fn provider_no_args_opens_the_menu_and_list_still_lists() {
    // Bare `/provider` opens the interactive picker; `/provider list` keeps
    // the scripting/text behavior.
    assert_eq!(
        SlashCommand::parse("/provider"),
        Some(Ok(SlashCommand::Provider(ProviderAction::Menu)))
    );
    assert_eq!(
        SlashCommand::parse("/provider list"),
        Some(Ok(SlashCommand::Provider(ProviderAction::List)))
    );
}

#[test]
fn login_parses_with_a_provider_argument() {
    assert_eq!(
        SlashCommand::parse("/login xai"),
        Some(Ok(SlashCommand::Login("xai".to_string())))
    );
    let parsed = SlashCommand::parse("/login").expect("is a slash command");
    let message = parsed.expect_err("missing provider");
    assert!(message.contains("/login xai"), "got: {message}");
}

#[test]
fn fusion_parses_toggle_config_and_rejects_unknown() {
    assert_eq!(
        SlashCommand::parse("/fusion"),
        Some(Ok(SlashCommand::Fusion(FusionAction::Toggle)))
    );
    assert_eq!(
        SlashCommand::parse("/fusion config"),
        Some(Ok(SlashCommand::Fusion(FusionAction::Config)))
    );
    assert!(matches!(SlashCommand::parse("/fusion bogus"), Some(Err(_))));
}

#[test]
fn ultra_parses_toggle_config_and_rejects_unknown() {
    assert_eq!(
        SlashCommand::parse("/ultra"),
        Some(Ok(SlashCommand::Ultra(UltraAction::Toggle)))
    );
    assert_eq!(
        SlashCommand::parse("/ultra config"),
        Some(Ok(SlashCommand::Ultra(UltraAction::Config)))
    );
    assert!(matches!(SlashCommand::parse("/ultra bogus"), Some(Err(_))));
}

/// The `/ultra config` picker offers every lens in the catalog plus a trailing
/// judge row, pre-toggled to the configured roster, and Enter turns exactly the
/// toggled rows into the roster to save. The lens rows are compared as a set:
/// a user `~/.wizard/subagents/` entry that shadows a built-in moves it to the
/// end of the catalog, which is a legitimate reordering, not a failure.
#[test]
fn ultra_picker_saves_the_toggled_lenses_and_the_judge_row() {
    let mut app = app();
    app.open_ultra_picker(&lenses());
    let picker = app.composer.picker.as_ref().expect("the ultra picker is open");
    assert_eq!(picker.kind, PickerKind::UltraLenses);
    let (judge, lenses) = picker.items.split_last().expect("rows");
    assert_eq!(judge.value, "judge");
    assert!(judge.current, "the default roster runs one judge");
    for name in config().effective_ultra().lenses {
        let row = lenses
            .iter()
            .find(|item| item.value == name)
            .unwrap_or_else(|| panic!("{name} has a row"));
        assert!(row.current, "{name} is in the default roster");
    }

    let action = press(&mut app, KeyCode::Enter);
    let Some(AppAction::Command(SlashCommand::Ultra(UltraAction::Apply(saved)))) = action else {
        panic!("Enter saves the roster, got {action:?}");
    };
    let mut got = saved.lenses;
    got.sort();
    let mut want = config().effective_ultra().lenses;
    want.sort();
    assert_eq!(got, want);
    assert_eq!(saved.judges, 1, "the judge row was left on");
    assert!(app.composer.picker.is_none(), "the picker closed");
}

/// Untoggling the judge row is how the compare phase is turned off — it must
/// reach `[ultra]` as `judges = 0`, not be silently floored back to one.
#[test]
fn ultra_picker_untoggling_the_judge_row_drops_the_compare_phase() {
    let mut app = app();
    app.open_ultra_picker(&lenses());
    let picker = app.composer.picker.as_mut().expect("the ultra picker is open");
    picker.selected = picker.items.len() - 1;
    press(&mut app, KeyCode::Char(' '));

    let action = press(&mut app, KeyCode::Enter);
    let Some(AppAction::Command(SlashCommand::Ultra(UltraAction::Apply(saved)))) = action else {
        panic!("Enter saves the roster, got {action:?}");
    };
    assert_eq!(saved.judges, 0);
    assert!(!saved.lenses.is_empty(), "the lens roster is untouched");
}

/// An empty roster has nothing to fan out over, so Enter refuses it rather
/// than persisting an `[ultra]` that `UltraEngine::build` would then reject
/// at the next toggle.
#[test]
fn ultra_picker_refuses_an_empty_roster() {
    let mut app = app();
    app.open_ultra_picker(&lenses());
    let picker = app.composer.picker.as_mut().expect("the ultra picker is open");
    for item in &mut picker.items {
        item.current = false;
    }

    assert!(press(&mut app, KeyCode::Enter).is_none(), "nothing to save");
    assert!(matches!(
        app.chat.transcript.last(),
        Some(TranscriptEntry::Notice(text)) if text.contains("at least one lens")
    ));
}

#[test]
fn rewind_parses_with_and_without_a_turn() {
    assert_eq!(
        SlashCommand::parse("/rewind"),
        Some(Ok(SlashCommand::Rewind(None)))
    );
    assert_eq!(
        SlashCommand::parse("/rewind 7"),
        Some(Ok(SlashCommand::Rewind(Some(7))))
    );
    let parsed = SlashCommand::parse("/rewind soon").expect("is a slash command");
    let message = parsed.expect_err("non-numeric turn");
    assert!(message.contains("/rewind [turn]"), "got: {message}");
}

#[test]
fn resume_parses_with_and_without_an_id() {
    assert_eq!(
        SlashCommand::parse("/resume"),
        Some(Ok(SlashCommand::Resume(None)))
    );
    assert_eq!(
        SlashCommand::parse("/resume 2026-06-09T09-30-00"),
        Some(Ok(SlashCommand::Resume(Some(
            "2026-06-09T09-30-00".to_string()
        ))))
    );
}

#[test]
fn resume_picker_selection_becomes_a_resume_command() {
    let mut app = app();
    app.composer.picker = Some(Picker {
        kind: PickerKind::Resume,
        title: " resume session ".to_string(),
        items: vec![PickerItem {
            value: "2026-06-09T09-30-00".to_string(),
            detail: "add resume · 4 msgs".to_string(),
            current: false,
        }],
        selected: 0,
    });
    let action = press(&mut app, KeyCode::Enter);
    assert!(matches!(
        action,
        Some(AppAction::Command(SlashCommand::Resume(Some(id)))) if id == "2026-06-09T09-30-00"
    ));
    assert!(app.composer.picker.is_none(), "the picker closed");
}

#[test]
fn load_transcript_replays_messages_and_pairs_tool_results() {
    let mut app = app();
    let mut assistant = message(Role::Assistant, "reading it");
    assistant.tool_calls.push(PastCall {
        name: "read_file".to_string(),
        arguments: object(&[("path", "x.rs")]),
    });
    let mut result = message(Role::Tool, "fn main() {}");
    result.tool_name = Some("read_file".to_string());
    app.load_transcript(vec![
        message(Role::System, "ignored system prompt"),
        message(Role::User, "read x.rs"),
        assistant,
        result,
    ]);
    // System dropped; user + assistant + one filled tool card remain.
    assert!(matches!(
        app.chat.transcript.first(),
        Some(TranscriptEntry::User(text)) if text == "read x.rs"
    ));
    assert!(matches!(
        app.chat.transcript.get(1),
        Some(TranscriptEntry::Assistant(text)) if text == "reading it"
    ));
    assert!(matches!(
        app.chat.transcript.get(2),
        Some(TranscriptEntry::ToolCard { name, output: Some(out), .. })
            if name == "read_file" && out == "fn main() {}"
    ));
    assert_eq!(app.chat.transcript.len(), 3);
}

#[test]
fn rewind_picker_selection_becomes_a_rewind_command() {
    let mut app = app();
    app.composer.picker = Some(Picker {
        kind: PickerKind::Rewind,
        title: " rewind to before turn ".to_string(),
        items: vec![
            PickerItem {
                value: "9".to_string(),
                detail: "fix tests · notes.txt".to_string(),
                current: false,
            },
            PickerItem {
                value: "8".to_string(),
                detail: String::new(),
                current: false,
            },
        ],
        selected: 0,
    });
    press(&mut app, KeyCode::Down);
    let action = press(&mut app, KeyCode::Enter);
    assert!(matches!(
        action,
        Some(AppAction::Command(SlashCommand::Rewind(Some(8))))
    ));
    assert!(app.composer.picker.is_none(), "the picker closed");
}

#[test]
fn rewind_picker_esc_cancels() {
    let mut app = app();
    app.composer.picker = Some(Picker {
        kind: PickerKind::Rewind,
        title: " rewind to before turn ".to_string(),
        items: vec![PickerItem {
            value: "3".to_string(),
            detail: String::new(),
            current: false,
        }],
        selected: 0,
    });
    let action = press(&mut app, KeyCode::Esc);
    assert!(action.is_none());
    assert!(app.composer.picker.is_none(), "Esc closed the picker");
}

#[test]
fn agents_parses_to_the_roster_picker() {
    // /agents opens the roster picker. Live runs are watched on the
    // subagent rail below the composer — no separate slash command.
    assert!(matches!(
        SlashCommand::parse("/agents"),
        Some(Ok(SlashCommand::Agents))
    ));
    assert!(
        matches!(
            SlashCommand::parse("/subagents"),
            Some(Err(message)) if message.contains("unknown command")
        ),
        "/subagents was removed; the rail is always on screen"
    );
}

#[test]
fn subagent_picker_selection_prefills_a_delegation_request() {
    let mut app = app();
    app.composer.picker = Some(Picker {
        kind: PickerKind::Subagent,
        title: " delegate to subagent ".to_string(),
        items: vec![
            PickerItem {
                value: "worker".to_string(),
                detail: "general-purpose".to_string(),
                current: false,
            },
            PickerItem {
                value: "auditor".to_string(),
                detail: "code review".to_string(),
                current: false,
            },
        ],
        selected: 0,
    });
    press(&mut app, KeyCode::Down);
    let action = press(&mut app, KeyCode::Enter);
    // Subagents are model-invoked, so Enter pre-fills input instead of
    // emitting a command.
    assert!(action.is_none());
    assert!(app.composer.picker.is_none(), "the picker closed");
    assert_eq!(app.composer.input, "Use the auditor subagent to ");
    assert_eq!(app.composer.cursor, app.composer.input.chars().count());
}

#[test]
fn ctrl_c_idle_arms_then_exits() {
    let mut app = app();
    assert!(press_ctrl(&mut app, 'c').is_none());
    assert!(app.pending.ctrl_c_armed);
    assert!(!app.pending.should_quit, "first press only arms");
    assert!(press_ctrl(&mut app, 'c').is_none());
    assert!(app.pending.should_quit, "second press exits");
}

#[test]
fn ctrl_c_busy_interrupts_then_exits() {
    let mut app = app();
    app.turn.status.busy = true;
    // First press while busy interrupts the turn, doesn't quit.
    assert!(matches!(
        press_ctrl(&mut app, 'c'),
        Some(AppAction::Interrupt)
    ));
    assert!(!app.pending.should_quit);
    // Armed now: a second press exits even while busy.
    assert!(press_ctrl(&mut app, 'c').is_none());
    assert!(app.pending.should_quit);
}

#[test]
fn any_other_key_disarms_ctrl_c() {
    let mut app = app();
    press_ctrl(&mut app, 'c');
    assert!(app.pending.ctrl_c_armed);
    press(&mut app, KeyCode::Char('x'));
    assert!(!app.pending.ctrl_c_armed);
    // So the next Ctrl-C re-arms rather than quitting.
    assert!(press_ctrl(&mut app, 'c').is_none());
    assert!(!app.pending.should_quit);
}

#[test]
fn dashboard_navigates_and_esc_closes() {
    let mut app = app();
    let make = |id: &str, state: SessionState| SessionRecord {
        id: id.to_string(),
        name: id.to_string(),
        cwd: "/tmp".to_string(),
        model: "m".to_string(),
        mode: "genie".to_string(),
        state,
        activity: String::new(),
        pid: 1,
        started_unix: 0,
        updated_unix: 0,
    };
    app.dashboard.sessions = vec![
        make("a", SessionState::Working),
        make("b", SessionState::Idle),
    ];
    app.dashboard.open = true;

    // ↓ moves the selection and wraps; ↑ wraps back.
    press(&mut app, KeyCode::Down);
    assert_eq!(app.dashboard.selected, 1);
    press(&mut app, KeyCode::Down);
    assert_eq!(app.dashboard.selected, 0, "wraps to the top");
    press(&mut app, KeyCode::Up);
    assert_eq!(app.dashboard.selected, 1, "wraps to the bottom");

    // Esc closes the modal.
    press(&mut app, KeyCode::Esc);
    assert!(!app.dashboard.open);
}

#[test]
fn dashboard_input_composes_and_esc_clears_then_closes() {
    let mut app = app();
    app.dashboard.open = true;
    press(&mut app, KeyCode::Char('h'));
    press(&mut app, KeyCode::Char('i'));
    assert_eq!(app.dashboard.input, "hi");
    press(&mut app, KeyCode::Backspace);
    assert_eq!(app.dashboard.input, "h");
    // Esc with text clears it but keeps the modal open.
    press(&mut app, KeyCode::Esc);
    assert_eq!(app.dashboard.input, "");
    assert!(app.dashboard.open);
    // Esc again, now empty, closes the modal.
    press(&mut app, KeyCode::Esc);
    assert!(!app.dashboard.open);
}

#[test]
fn session_record_reflects_state() {
    let mut app = app();
    app.session.id = "sess-1".to_string();
    app.session.name = "fix bug".to_string();
    assert_eq!(app.session_record().state, SessionState::Idle);
    app.turn.status.busy = true;
    assert_eq!(app.session_record().state, SessionState::Working);
}

#[test]
fn todo_update_mirrors_the_list_and_auto_shows_the_overlay_once() {
    let mut app = app();
    assert!(!app.panels.show_todos);

    let items = vec![TodoItem {
        content: "first".to_string(),
        status: TodoStatus::InProgress,
    }];
    app.handle_agent_event(AgentEvent::TodoUpdated(items.clone()));
    assert_eq!(app.panels.todos, items);
    assert!(app.panels.show_todos, "first update auto-shows the overlay");

    // The user hides it; later updates respect that.
    app.panels.show_todos = false;
    app.handle_agent_event(AgentEvent::TodoUpdated(items.clone()));
    assert!(!app.panels.show_todos, "auto-show happens only once");
    assert_eq!(app.panels.todos, items, "the list still updates");
}

#[test]
fn esc_dismisses_the_todo_overlay_after_the_diff_sidebar() {
    let mut app = app();
    app.panels.show_todos = true;
    press(&mut app, KeyCode::Esc);
    assert!(!app.panels.show_todos, "Esc dismisses the todo band");

    // Diff sidebar and todo band are independent: Esc closes the
    // diff first, then the overlay, then falls through to the input.
    app.panels.show_todos = true;
    app.panels.show_diff = true;
    app.composer.input = "draft".to_string();
    press(&mut app, KeyCode::Esc);
    assert!(!app.panels.show_diff, "diff closes first");
    assert!(app.panels.show_todos, "todos stay open until the next Esc");
    press(&mut app, KeyCode::Esc);
    assert!(!app.panels.show_todos);
    assert_eq!(app.composer.input, "draft", "input untouched while panels close");
    press(&mut app, KeyCode::Esc);
    assert_eq!(app.composer.input, "", "Esc finally clears the input");

    // Vim Normal mode keeps the same escape hatch.
    let mut app = vim_app();
    press(&mut app, KeyCode::Esc); // insert -> normal
    app.panels.show_todos = true;
    press(&mut app, KeyCode::Esc);
    assert!(!app.panels.show_todos, "Normal-mode Esc dismisses the todo band");
}

#[test]
fn usage_events_drive_session_totals_and_the_context_meter() {
    let mut app = app();
    app.handle_agent_event(AgentEvent::Usage {
        prompt_tokens: 100,
        completion_tokens: 20,
    });
    app.handle_agent_event(AgentEvent::Usage {
        prompt_tokens: 50,
        completion_tokens: 5,
    });
    // Session lifetime still accumulates for /cost.
    assert_eq!(app.turn.status.prompt_tokens, 150);
    assert_eq!(app.turn.status.completion_tokens, 25);
    // Context meter tracks the most recent prompt size, not the sum.
    assert_eq!(app.turn.status.context_tokens, 50);

    // Auto-compaction replaces the meter without touching lifetime totals.
    app.handle_agent_event(AgentEvent::ContextSize { tokens: 12 });
    assert_eq!(app.turn.status.context_tokens, 12);
    assert_eq!(app.turn.status.prompt_tokens, 150);
    assert_eq!(app.turn.status.completion_tokens, 25);
}

#[test]
fn background_task_events_drive_the_live_status_bar_counter() {
    let mut app = app();
    assert_eq!(app.turn.status.background_tasks, 0);

    app.handle_agent_event(AgentEvent::TaskStarted);
    assert_eq!(
        app.turn.status.background_tasks, 1,
        "marker appears while running"
    );

    app.handle_agent_event(AgentEvent::TaskStarted);
    assert_eq!(app.turn.status.background_tasks, 2);

    app.handle_agent_event(AgentEvent::TaskFinished {
        id: 1,
        command: "sleep 5".to_string(),
        status: "exited 0".to_string(),
    });
    assert_eq!(
        app.turn.status.background_tasks, 1,
        "counter drops back down as tasks finish"
    );
    assert!(matches!(
        app.chat.transcript.last(),
        Some(TranscriptEntry::Notice(text))
            if text.contains("background task #1 finished")
    ));

    app.handle_agent_event(AgentEvent::TaskFinished {
        id: 2,
        command: "ping -c 1 example.com".to_string(),
        status: "exited 0".to_string(),
    });
    assert_eq!(
        app.turn.status.background_tasks, 0,
        "marker clears once all finish"
    );
}

#[test]
fn failed_tool_cards_start_collapsed() {
    let mut app = app();
    app.handle_agent_event(AgentEvent::ToolStarted {
        name: "web_fetch".to_string(),
        args: object(&[("url", "https://example.com")]),
    });
    app.handle_agent_event(AgentEvent::ToolFinished {
        name: "web_fetch".to_string(),
        output: error_output("HTTP 403 Forbidden\n<!DOCTYPE html>\n..."),
    });
    assert!(
        matches!(
            app.chat.transcript.last(),
            Some(TranscriptEntry::ToolCard {
                is_error: true,
                collapsed: true,
                ..
            })
        ),
        "errors show only the ✗ card line until expanded via Ctrl-T"
    );

    // Short successful outputs still arrive expanded.
    app.handle_agent_event(AgentEvent::ToolStarted {
        name: "read_file".to_string(),
        args: object(&[("path", "a.txt")]),
    });
    app.handle_agent_event(AgentEvent::ToolFinished {
        name: "read_file".to_string(),
        output: ok_output("one line"),
    });
    assert!(matches!(
        app.chat.transcript.last(),
        Some(TranscriptEntry::ToolCard {
            is_error: false,
            collapsed: false,
            ..
        })
    ));
}

#[test]
fn stream_retry_discards_the_partial_streamed_text() {
    let mut app = app();
    app.handle_agent_event(AgentEvent::TextDelta("half an ans".to_string()));
    app.handle_agent_event(AgentEvent::StreamRetrying);
    app.handle_agent_event(AgentEvent::Error(
        "LLM unavailable (stream stalled); sleeping 5s then retrying (attempt 1)".to_string(),
    ));
    assert!(
        app.chat.streaming.is_empty(),
        "the doomed attempt's partial text is dropped, not flushed"
    );
    assert!(
            !app
                .chat.transcript
                .iter()
                .any(|entry| matches!(entry, TranscriptEntry::Assistant(text) if text.contains("half an ans"))),
            "no assistant entry made of the discarded partial"
        );

    // The retry streams the full answer; only that lands.
    app.handle_agent_event(AgentEvent::TextDelta("the full answer".to_string()));
    assert_eq!(app.chat.streaming, "the full answer");
}

#[test]
fn long_outputs_start_collapsed_by_lines_or_length() {
    assert!(!collapse_long("short output"));
    assert!(!collapse_long(&"line\n".repeat(6)));
    assert!(collapse_long(&"line\n".repeat(7)), "more than six lines");
    assert!(
        collapse_long(&"x".repeat(601)),
        "a giant single line wraps to fill the screen just the same"
    );
}

fn click(app: &mut App, column: u16, row: u16) {
    for kind in [MouseEventKind::LeftDown, MouseEventKind::LeftUp] {
        app.handle_event(Event::Mouse(MouseEvent { kind, column, row }));
    }
}

#[test]
fn clicking_a_tool_card_header_toggles_its_output() {
    let mut app = app();
    app.handle_agent_event(AgentEvent::ToolStarted {
        name: "execute".to_string(),
        args: object(&[("command", "ls")]),
    });
    app.handle_agent_event(AgentEvent::ToolFinished {
        name: "execute".to_string(),
        output: ok_output("a\nb\nc\nd\ne\nf\ng\nh"),
    });
    let index = app.chat.transcript.len() - 1;
    assert!(matches!(
        app.chat.transcript.last(),
        Some(TranscriptEntry::ToolCard { collapsed: true, .. })
    ));

    // Where the last frame drew the card's header.
    let row = 1;
    app.chat.card_hits = vec![(row, index)];

    // A plain click on the header expands the card...
    click(&mut app, 2, row);
    assert!(matches!(
        app.chat.transcript.get(index),
        Some(TranscriptEntry::ToolCard { collapsed: false, .. })
    ));

    // ...and a second click (at its possibly-shifted row) collapses it.
    let row = 3;
    app.chat.card_hits = vec![(row, index)];
    click(&mut app, 2, row);
    assert!(matches!(
        app.chat.transcript.get(index),
        Some(TranscriptEntry::ToolCard { collapsed: true, .. })
    ));
}

#[test]
fn a_resumed_session_replays_the_images_it_left_on_disk() {
    let png = || Image {
        path: Some("/img/a.png".to_string()),
        mime: "image/png".to_string(),
        bytes: 3,
    };

    let mut app = app();
    let mut assistant = message(Role::Assistant, "done");
    assistant.images.push(png());
    let mut result = message(Role::Tool, "ok");
    result.tool_name = Some("render".to_string());
    // The images `render` returned, riding back to the model. Not a
    // prompt — the agent wrote it, not the user.
    let mut carrier = message(Role::User, "Image(s) returned by `render`:");
    carrier.images.push(png());
    app.load_transcript(vec![message(Role::User, "draw"), assistant, result, carrier]);

    let images: Vec<&TranscriptEntry> = app
        .chat.transcript
        .iter()
        .filter(|entry| matches!(entry, TranscriptEntry::Image { .. }))
        .collect();
    assert!(
        matches!(
            images.as_slice(),
            [
                TranscriptEntry::Image {
                    source: ImageSource::Assistant,
                    ..
                },
                TranscriptEntry::Image {
                    source: ImageSource::Tool(tool),
                    image,
                },
            ] if tool == "render" && image.path == "/img/a.png"
        ),
        "both directions came back, attributed: {images:?}"
    );
    assert!(
            !app.chat.transcript
                .iter()
                .any(|entry| matches!(entry, TranscriptEntry::User(text) if text.contains("Image(s) returned"))),
            "the carrier message is not replayed as something the user said"
        );
}

#[test]
fn backtab_toggles_plan_mode() {
    let mut app = app();
    let action = press(&mut app, KeyCode::BackTab);
    assert!(matches!(
        action,
        Some(AppAction::Command(SlashCommand::Plan))
    ));
}

#[test]
fn backtab_in_a_picker_still_navigates() {
    let mut app = app();
    app.composer.picker = Some(Picker {
        kind: PickerKind::Mode,
        title: " select mode ".to_string(),
        items: vec![
            PickerItem {
                value: "genie".to_string(),
                detail: String::new(),
                current: true,
            },
            PickerItem {
                value: "sovereign".to_string(),
                detail: String::new(),
                current: false,
            },
        ],
        selected: 0,
    });
    let action = press(&mut app, KeyCode::BackTab);
    assert!(action.is_none(), "the picker captured the key");
    assert_eq!(app.composer.picker.as_ref().expect("open").selected, 1);
}

/// Open a plan review via the agent event.
fn open_review(app: &mut App, plan: &str) {
    app.handle_agent_event(AgentEvent::PlanReady { plan: plan.to_string() });
}

#[test]
fn plan_ready_opens_a_review_and_y_approves() {
    let mut app = app();
    open_review(&mut app, "# the plan");
    let review = app.planning.plan_review.as_ref().expect("review open");
    assert_eq!(review.plan, "# the plan");
    assert!(app.planning.plan_mode, "a pending plan implies plan mode");

    // Review keys never leak into the input line.
    press(&mut app, KeyCode::Char('y'));
    assert!(app.composer.input.is_empty());
    assert!(app.planning.plan_review.is_none(), "review closed");
    assert!(!app.planning.plan_mode, "approval clears the plan-mode mirror");
    assert_eq!(verdict(&mut app), Some(PlanVerdict::approve()));
}

#[test]
fn leaving_plan_mode_by_approval_leaves_omakase_too() {
    let mut app = app();
    app.planning.omakase = true;
    app.planning.plan_mode = true;
    open_review(&mut app, "# p");
    press(&mut app, KeyCode::Char('y'));
    assert!(!app.planning.plan_mode);
    assert!(!app.planning.omakase, "omakase implies plan mode");
}

#[test]
fn plan_review_enter_also_approves() {
    let mut app = app();
    open_review(&mut app, "# p");
    let action = press(&mut app, KeyCode::Enter);
    assert!(action.is_none());
    assert_eq!(verdict(&mut app), Some(PlanVerdict::approve()));
}

#[test]
fn plan_review_rejection_collects_feedback() {
    let mut app = app();
    open_review(&mut app, "# p");

    press(&mut app, KeyCode::Char('n'));
    let review = app.planning.plan_review.as_ref().expect("still open");
    assert_eq!(review.feedback.as_deref(), Some(""));

    type_str(&mut app, "add testz");
    press(&mut app, KeyCode::Backspace);
    type_str(&mut app, "s first");
    assert!(app.composer.input.is_empty(), "feedback typing never hits the input");
    press(&mut app, KeyCode::Enter);

    assert!(app.planning.plan_review.is_none(), "review closed");
    assert!(app.planning.plan_mode, "rejection keeps plan mode on");
    assert_eq!(verdict(&mut app), Some(PlanVerdict::reject("add tests first".to_string())));
}

#[test]
fn plan_review_esc_leaves_feedback_entry() {
    let mut app = app();
    open_review(&mut app, "# p");
    press(&mut app, KeyCode::Char('n'));
    type_str(&mut app, "half a thought");
    press(&mut app, KeyCode::Esc);
    let review = app.planning.plan_review.as_ref().expect("still open");
    assert!(review.feedback.is_none(), "back to the review state");
    assert!(verdict(&mut app).is_none(), "no verdict sent yet");
    // 'n' again starts fresh feedback.
    press(&mut app, KeyCode::Char('n'));
    assert_eq!(
        app.planning.plan_review.as_ref().expect("open").feedback.as_deref(),
        Some("")
    );
}

/// Open an interview via the agent event.
fn open_interview(app: &mut App, questions: Vec<InterviewQuestion>) {
    app.handle_agent_event(AgentEvent::Interview { questions });
}

fn question(q: &str, options: &[&str]) -> InterviewQuestion {
    InterviewQuestion {
        question: q.to_string(),
        options: options.iter().map(|s| s.to_string()).collect(),
    }
}

/// Parse `input` and return the agent-runnable verdict, asserting it is a
/// well-formed command first.
fn runnable(input: &str) -> Result<(), String> {
    match SlashCommand::parse(input) {
        Some(Ok(command)) => command.agent_runnable(),
        other => panic!("{input} did not parse to a command: {other:?}"),
    }
}

#[test]
fn agent_runnable_allows_self_config_and_info_commands() {
    for input in [
        "/effort high",
        "/model sonnet-5",
        "/mode sovereign",
        "/goal ship it",
        "/goal",
        "/status",
        "/diff",
        "/compact",
        "/reload",
        "/settings",
        "/fusion",
        "/ultra",
    ] {
        assert!(runnable(input).is_ok(), "{input} should be runnable");
    }
}

#[test]
fn command_requested_event_queues_for_post_turn_dispatch() {
    let mut app = app();
    assert!(app.turn.pending_agent_commands.is_empty());
    app.handle_agent_event(AgentEvent::CommandRequested("/effort high".into()));
    assert_eq!(app.turn.pending_agent_commands, vec!["/effort high".to_string()]);
    // A second request accumulates rather than replacing.
    app.handle_agent_event(AgentEvent::CommandRequested("/compact".into()));
    assert_eq!(
        app.turn.pending_agent_commands,
        vec!["/effort high".to_string(), "/compact".to_string()]
    );
}

#[test]
fn agent_runnable_refuses_pickers_and_dangerous_commands() {
    for input in [
        "/effort",   // interactive picker without an argument
        "/model",    // interactive picker without an argument
        "/mode",     // interactive picker without an argument
        "/quit",     // ends the session
        "/clear",    // wipes the conversation
        "/rewind 2", // restores checkpoints
        "/resume",   // switches sessions
        "/login xai",
        "/provider list",
        "/publish",
        "/agents",
        "/fusion config",
        "/ultra config",
    ] {
        assert!(runnable(input).is_err(), "{input} should be refused");
    }
}

#[test]
fn interview_collects_answers_and_advances() {
    let mut app = app();
    open_interview(
        &mut app,
        vec![
            question("which db?", &["sqlite", "postgres"]),
            question("any auth?", &[]),
        ],
    );
    assert!(app.planning.interview.is_some(), "interview modal open");

    // Pick option 2 for the first question, then accept it with Enter.
    press(&mut app, KeyCode::Char('2'));
    assert_eq!(
        app.planning.interview.as_ref().expect("open").input,
        "postgres",
        "digit fills the matching option"
    );
    assert!(
        app.composer.input.is_empty(),
        "interview keys never hit the input line"
    );
    press(&mut app, KeyCode::Enter);
    assert_eq!(app.planning.interview.as_ref().expect("still open").current, 1);

    // Free-text the second answer.
    type_str(&mut app, "yes, oauth");
    press(&mut app, KeyCode::Enter);

    assert!(
        app.planning.interview.is_none(),
        "interview closed after the last answer"
    );
    assert_eq!(
        answers(&mut app),
        Some(Some(vec!["postgres".to_string(), "yes, oauth".to_string()]))
    );
}

#[test]
fn interview_esc_dismisses_with_no_answers() {
    let mut app = app();
    open_interview(&mut app, vec![question("which db?", &[])]);
    press(&mut app, KeyCode::Esc);
    assert!(app.planning.interview.is_none(), "dismissed");
    assert_eq!(answers(&mut app), Some(None), "decline sent to the tool");
}

#[test]
fn empty_interview_declines_immediately() {
    let mut app = app();
    open_interview(&mut app, vec![]);
    assert!(app.planning.interview.is_none(), "nothing to ask");
    assert_eq!(answers(&mut app), Some(None));
}

#[test]
fn omakase_proceeding_clears_flags_and_shows_the_plan() {
    let mut app = app();
    app.planning.plan_mode = true;
    app.planning.omakase = true;
    app.handle_agent_event(AgentEvent::OmakaseProceeding {
        plan: "# chef plan".to_string(),
    });
    assert!(!app.planning.plan_mode, "chef's choice leaves plan mode");
    assert!(!app.planning.omakase, "omakase cleared once proceeding");
    let shown = app.chat.transcript.iter().any(|e| {
        matches!(
            e,
            TranscriptEntry::ToolCard { output: Some(p), .. } if p == "# chef plan"
        )
    });
    assert!(shown, "the chosen plan is surfaced in the transcript");
}

#[test]
fn cursor_editing_inserts_mid_line() {
    let mut app = app();
    type_str(&mut app, "helo");
    press(&mut app, KeyCode::Left);
    press(&mut app, KeyCode::Char('l'));
    assert_eq!(app.composer.input, "hello");
    press(&mut app, KeyCode::Home);
    press(&mut app, KeyCode::Delete);
    assert_eq!(app.composer.input, "ello");
    press(&mut app, KeyCode::End);
    press(&mut app, KeyCode::Backspace);
    assert_eq!(app.composer.input, "ell");
}

#[test]
fn history_recall_restores_draft() {
    let mut app = app();
    type_str(&mut app, "first message");
    press(&mut app, KeyCode::Enter);
    type_str(&mut app, "second message");
    press(&mut app, KeyCode::Enter);

    type_str(&mut app, "draft");
    press(&mut app, KeyCode::Up);
    assert_eq!(app.composer.input, "second message");
    press(&mut app, KeyCode::Up);
    assert_eq!(app.composer.input, "first message");
    press(&mut app, KeyCode::Down);
    assert_eq!(app.composer.input, "second message");
    press(&mut app, KeyCode::Down);
    assert_eq!(app.composer.input, "draft");
}

#[test]
fn picker_navigation_wraps_and_enter_selects() {
    let mut app = app();
    app.composer.picker = Some(Picker {
        kind: PickerKind::Model,
        title: " select model ".to_string(),
        items: vec![
            PickerItem {
                value: "qwen3.6:27b".to_string(),
                detail: String::new(),
                current: true,
            },
            PickerItem {
                value: "llama4:8b".to_string(),
                detail: String::new(),
                current: false,
            },
        ],
        selected: 0,
    });

    press(&mut app, KeyCode::Up);
    assert_eq!(app.composer.picker.as_ref().expect("open").selected, 1);
    let action = press(&mut app, KeyCode::Enter);
    match action {
        Some(AppAction::Command(SlashCommand::Model(Some(tag)))) => {
            assert_eq!(tag, "llama4:8b");
        }
        other => panic!("expected model switch, got {other:?}"),
    }
    assert!(app.composer.picker.is_none());
}

#[test]
fn picker_escape_cancels() {
    let mut app = app();
    app.composer.picker = Some(Picker {
        kind: PickerKind::Mode,
        title: " select mode ".to_string(),
        items: vec![PickerItem {
            value: "genie".to_string(),
            detail: String::new(),
            current: true,
        }],
        selected: 0,
    });
    press(&mut app, KeyCode::Esc);
    assert!(app.composer.picker.is_none());
}

#[test]
fn ctrl_w_kills_previous_word() {
    let mut app = app();
    type_str(&mut app, "fix the parser bug");
    app.handle_key(KeyEvent::new(KeyCode::Char('w'), control()));
    assert_eq!(app.composer.input, "fix the parser ");
}

#[test]
fn history_recall_of_slash_command_keeps_browsing_history() {
    let mut app = app();
    type_str(&mut app, "older message");
    press(&mut app, KeyCode::Enter);
    type_str(&mut app, "/model");
    press(&mut app, KeyCode::Enter);

    press(&mut app, KeyCode::Up);
    assert_eq!(app.composer.input, "/model");
    // The recalled slash command repopulates suggestions; ↑ must keep
    // walking history instead of cycling them.
    press(&mut app, KeyCode::Up);
    assert_eq!(app.composer.input, "older message");
}

#[test]
fn unbound_ctrl_chords_do_not_insert_literal_chars() {
    let mut app = app();
    type_str(&mut app, "abc");
    app.handle_key(KeyEvent::new(KeyCode::Char('f'), control()));
    assert_eq!(app.composer.input, "abc");
}

#[test]
fn ctrl_g_requests_external_prompt_edit() {
    let mut app = app();
    type_str(&mut app, "draft in progress");
    let action = press_ctrl(&mut app, 'g');
    assert!(action.is_none());
    assert!(app.pending.edit_prompt);
    // The buffer is only replaced after the editor exits cleanly.
    assert_eq!(app.composer.input, "draft in progress");
}

#[test]
fn ctrl_g_is_inert_during_masked_key_entry() {
    // An API key being typed must never be staged into a temp file.
    let mut app = app();
    app.composer.web_key_backend = Some("brave".to_string());
    type_str(&mut app, "sk-secret");
    press_ctrl(&mut app, 'g');
    assert!(!app.pending.edit_prompt);
    assert_eq!(app.composer.input, "sk-secret", "chord must not insert a literal g");
}

#[test]
fn editor_text_replaces_input_with_cursor_at_end() {
    let mut app = app();
    type_str(&mut app, "old draft");
    app.composer.set_input_from_editor("hello\nworld\n".to_string());
    // Exactly one trailing newline (the editor's) is trimmed.
    assert_eq!(app.composer.input, "hello\nworld");
    assert_eq!(app.composer.cursor, app.composer.input.chars().count());
}

#[test]
fn editor_text_trims_at_most_one_line_ending() {
    let mut app = app();
    app.composer.set_input_from_editor("two\n\n".to_string());
    assert_eq!(app.composer.input, "two\n");
    app.composer.set_input_from_editor("crlf\r\n".to_string());
    assert_eq!(app.composer.input, "crlf");
}

#[test]
fn busy_submit_queues_the_message() {
    let mut app = app();
    app.turn.status.busy = true;
    type_str(&mut app, "queued message");
    let action = press(&mut app, KeyCode::Enter);
    assert!(action.is_none(), "queued submit is not an AppAction");
    assert_eq!(app.composer.history, vec!["queued message".to_string()]);
    assert_eq!(app.turn.message_queue.len(), 1);
    assert_eq!(app.turn.message_queue[0].text, "queued message");
    assert!(app.composer.input.is_empty(), "composer clears on queue");
    assert!(
        matches!(
            app.chat.transcript.iter().find(|e| matches!(e, TranscriptEntry::User(_))),
            Some(TranscriptEntry::User(t)) if t == "queued message"
        ),
        "queued text lands in the transcript"
    );
    assert!(
        matches!(
            app.chat.transcript.last(),
            Some(TranscriptEntry::Notice(n)) if n.contains("queued")
        ),
        "a notice announces the queue position"
    );
}

#[test]
fn busy_submit_respects_the_queue_cap() {
    let mut app = app();
    app.turn.status.busy = true;
    for i in 0..MESSAGE_QUEUE_CAP {
        type_str(&mut app, &format!("msg {i}"));
        let action = press(&mut app, KeyCode::Enter);
        assert!(action.is_none());
    }
    assert_eq!(app.turn.message_queue.len(), MESSAGE_QUEUE_CAP);
    type_str(&mut app, "one too many");
    let action = press(&mut app, KeyCode::Enter);
    assert!(action.is_none());
    assert_eq!(app.turn.message_queue.len(), MESSAGE_QUEUE_CAP);
    assert_eq!(app.composer.input, "one too many", "overflow keeps the composer");
    assert!(
        matches!(
            app.chat.transcript.last(),
            Some(TranscriptEntry::Notice(n)) if n.contains("full")
        ),
        "overflow surfaces a full-queue notice"
    );
}

#[test]
fn goal_kickoff_queues_a_working_turn() {
    let mut app = app();
    app.queue_goal_kickoff("rewrite spore in assembly");
    assert_eq!(app.turn.message_queue.len(), 1);
    assert!(
        app.turn.message_queue[0]
            .text
            .contains("rewrite spore in assembly")
    );
    assert!(
        matches!(
            app.chat.transcript.last(),
            Some(TranscriptEntry::User(t)) if t.contains("rewrite spore in assembly")
        ),
        "the kickoff prompt lands in the transcript"
    );
}

#[test]
fn goal_kickoff_respects_the_queue_cap() {
    let mut app = app();
    app.turn.status.busy = true;
    for i in 0..MESSAGE_QUEUE_CAP {
        type_str(&mut app, &format!("msg {i}"));
        press(&mut app, KeyCode::Enter);
    }
    app.queue_goal_kickoff("rewrite spore in assembly");
    assert_eq!(app.turn.message_queue.len(), MESSAGE_QUEUE_CAP);
    assert!(
        matches!(
            app.chat.transcript.last(),
            Some(TranscriptEntry::Notice(n)) if n.contains("full")
        ),
        "a full queue surfaces a notice instead of auto-starting"
    );
}

#[test]
fn pop_queued_message_is_fifo() {
    let mut app = app();
    app.turn.status.busy = true;
    type_str(&mut app, "first");
    press(&mut app, KeyCode::Enter);
    type_str(&mut app, "second");
    press(&mut app, KeyCode::Enter);
    let a = app.pop_queued_message().expect("first");
    let b = app.pop_queued_message().expect("second");
    assert_eq!(a.text, "first");
    assert_eq!(b.text, "second");
    assert!(app.pop_queued_message().is_none());
}

#[test]
fn ctrl_u_kills_to_line_start_keeping_tail() {
    let mut app = app();
    type_str(&mut app, "hello world");
    for _ in 0..6 {
        press(&mut app, KeyCode::Left);
    }
    app.handle_key(KeyEvent::new(KeyCode::Char('u'), control()));
    assert_eq!(app.composer.input, " world");
    assert_eq!(app.composer.cursor, 0);
}

#[test]
fn submit_rejected_while_agent_rebuilds() {
    let mut app = app();
    app.turn.rebuilding = Some("switching to qwen3:0.6b".to_string());
    type_str(&mut app, "hello");
    let action = press(&mut app, KeyCode::Enter);
    assert!(action.is_none());
    assert!(app.composer.history.is_empty());
    assert!(matches!(
        app.chat.transcript.last(),
        Some(TranscriptEntry::Notice(_))
    ));
}

#[test]
fn ctrl_p_is_a_noop_while_busy() {
    let mut app = app();
    app.turn.status.busy = true;
    let action = app
        .handle_key(KeyEvent::new(KeyCode::Char('p'), control()));
    assert!(action.is_none());
    assert!(app.composer.picker.is_none());
}

// --- vim modal editing ---

fn vim_app() -> App {
    let mut app = app();
    app.toggle_vim();
    assert!(app.composer.vim.enabled);
    assert_eq!(app.composer.vim.mode, VimMode::Insert);
    app
}

#[test]
fn esc_enters_normal_x_deletes_and_i_returns_to_insert() {
    let mut app = vim_app();
    type_str(&mut app, "hello");
    assert_eq!(app.composer.vim.mode, VimMode::Insert);
    press(&mut app, KeyCode::Esc);
    assert_eq!(app.composer.vim.mode, VimMode::Normal);
    // Leaving insert nudges the cursor left onto the last char ('o').
    assert_eq!(app.composer.cursor, 4);
    // In normal mode 'x' deletes the char under the cursor, not insert 'x'.
    press(&mut app, KeyCode::Char('x'));
    assert_eq!(app.composer.input, "hell");
    press(&mut app, KeyCode::Char('i'));
    assert_eq!(app.composer.vim.mode, VimMode::Insert);
}

#[test]
fn word_motions_and_dw_in_normal_mode() {
    let mut app = vim_app();
    type_str(&mut app, "foo bar baz");
    press(&mut app, KeyCode::Esc); // normal, cursor on last 'z'
    press(&mut app, KeyCode::Char('0')); // start of line
    assert_eq!(app.composer.cursor, 0);
    press(&mut app, KeyCode::Char('w')); // -> "bar"
    assert_eq!(app.composer.cursor, 4);
    // dw deletes the word + trailing space.
    press(&mut app, KeyCode::Char('d'));
    press(&mut app, KeyCode::Char('w'));
    assert_eq!(app.composer.input, "foo baz");
}

#[test]
fn insert_transitions_append() {
    let mut app = vim_app();
    type_str(&mut app, "ab");
    press(&mut app, KeyCode::Esc); // normal, cursor on 'b' (index 1)
    press(&mut app, KeyCode::Char('0')); // index 0 ('a')
    press(&mut app, KeyCode::Char('a')); // insert after 'a'
    assert_eq!(app.composer.vim.mode, VimMode::Insert);
    press(&mut app, KeyCode::Char('X'));
    assert_eq!(app.composer.input, "aXb");
    press(&mut app, KeyCode::Esc);
    press(&mut app, KeyCode::Char('A')); // append at end
    type_str(&mut app, "Z");
    assert_eq!(app.composer.input, "aXbZ");
}

#[test]
fn dd_clears_line_and_u_undoes() {
    let mut app = vim_app();
    type_str(&mut app, "scratch");
    press(&mut app, KeyCode::Esc);
    press(&mut app, KeyCode::Char('d'));
    press(&mut app, KeyCode::Char('d'));
    assert_eq!(app.composer.input, "");
    press(&mut app, KeyCode::Char('u'));
    assert_eq!(app.composer.input, "scratch");
}

#[test]
fn count_prefix_repeats_motion() {
    let mut app = vim_app();
    type_str(&mut app, "abcdef");
    press(&mut app, KeyCode::Esc);
    press(&mut app, KeyCode::Char('0'));
    press(&mut app, KeyCode::Char('3'));
    press(&mut app, KeyCode::Char('l')); // 3 right -> index 3
    assert_eq!(app.composer.cursor, 3);
    press(&mut app, KeyCode::Char('2'));
    press(&mut app, KeyCode::Char('x')); // delete 2 chars
    assert_eq!(app.composer.input, "abcf");
}

#[test]
fn delete_then_paste_register() {
    let mut app = vim_app();
    type_str(&mut app, "ab");
    press(&mut app, KeyCode::Esc); // cursor on 'b' (index 1)
    press(&mut app, KeyCode::Char('0')); // index 0
    press(&mut app, KeyCode::Char('x')); // delete 'a' -> register "a", input "b"
    assert_eq!(app.composer.input, "b");
    press(&mut app, KeyCode::Char('p')); // paste after 'b'
    assert_eq!(app.composer.input, "ba");
}

#[test]
fn enter_submits_in_normal_mode() {
    let mut app = vim_app();
    type_str(&mut app, "/help");
    press(&mut app, KeyCode::Esc);
    let action = press(&mut app, KeyCode::Enter);
    assert!(matches!(
        action,
        Some(AppAction::Command(SlashCommand::Help))
    ));
    assert_eq!(app.composer.input, "");
}

#[test]
fn disabled_vim_inserts_hjkl_literally() {
    let mut app = app(); // vim off
    type_str(&mut app, "hjkl");
    press(&mut app, KeyCode::Esc); // plain clear, not a mode switch
    assert_eq!(app.composer.input, "");
}

// --- Shift/Alt+Enter newline ---

#[test]
fn shift_enter_inserts_newline_without_submitting() {
    let mut app = app();
    type_str(&mut app, "line one");
    let action = press_mod(&mut app, KeyCode::Enter, shift());
    assert!(action.is_none());
    type_str(&mut app, "line two");
    assert_eq!(app.composer.input, "line one\nline two");
    // Nothing was submitted.
    assert!(!app.has_conversation());
}

#[test]
fn alt_enter_also_inserts_newline() {
    let mut app = app();
    type_str(&mut app, "a");
    press_mod(&mut app, KeyCode::Enter, alt());
    type_str(&mut app, "b");
    assert_eq!(app.composer.input, "a\nb");
}

#[test]
fn plain_enter_submits_multiline_input() {
    let mut app = app();
    type_str(&mut app, "first");
    press_mod(&mut app, KeyCode::Enter, shift());
    type_str(&mut app, "second");
    let action = press(&mut app, KeyCode::Enter);
    match action {
        Some(AppAction::Submit(prepared)) => {
            assert!(
                prepared.text.contains("first")
                    && prepared.text.contains('\n')
                    && prepared.text.contains("second")
            );
        }
        other => panic!("expected a submit action, got {other:?}"),
    }
    assert_eq!(app.composer.input, "");
}

#[test]
fn shift_enter_inserts_newline_in_vim_normal_mode() {
    let mut app = vim_app();
    type_str(&mut app, "xy");
    press(&mut app, KeyCode::Esc); // NORMAL, cursor on the last char
    let action = press_mod(&mut app, KeyCode::Enter, shift());
    // A break is inserted (never submits); the cursor sits on a char, so it
    // lands before it rather than at the very end.
    assert!(action.is_none());
    assert!(app.composer.input.contains('\n'));
    assert_eq!(app.composer.input.chars().filter(|c| !c.is_whitespace()).count(), 2);
}

// ---- Subagent rail ---------------------------------------------------

#[test]
fn subagent_run_events_build_a_pane() {
    let mut app = app_with_panes(1);
    assert_eq!(app.rail.panes.len(), 1);
    assert_eq!(app.rail.panes[0].name, "agent0");
    assert_eq!(app.rail.panes[0].status, PaneStatus::Running);

    app.handle_agent_event(AgentEvent::SubagentRunToolStarted {
        run: 0,
        name: "read_file".to_string(),
        args: object(&[("path", "src/app.rs")]),
    });
    app.handle_agent_event(AgentEvent::SubagentRunText {
        run: 0,
        text: "found it".to_string(),
    });

    // The subagent's work lands in *its* pane, not the main transcript.
    assert_eq!(app.rail.panes[0].transcript.len(), 2);
    assert!(app.chat.transcript.is_empty());
    // …and it is flagged as unread, since the user is not watching it.
    assert_eq!(app.rail.panes[0].unread, 2);
}

#[test]
fn concurrent_runs_of_one_subagent_stay_in_separate_panes() {
    let mut app = app();
    for run in [7, 9] {
        app.handle_agent_event(AgentEvent::SubagentRunStarted {
            run,
            bg: None,
            name: "worker".to_string(),
            task: format!("task {run}"),
        });
    }
    app.handle_agent_event(AgentEvent::SubagentRunText {
        run: 9,
        text: "from the second".to_string(),
    });

    assert_eq!(app.rail.panes.len(), 2);
    assert!(app.rail.panes[0].transcript.is_empty());
    assert_eq!(app.rail.panes[1].transcript.len(), 1);
}

#[test]
fn tool_output_lands_on_the_panes_open_card() {
    let mut app = app_with_panes(1);
    app.handle_agent_event(AgentEvent::SubagentRunToolStarted {
        run: 0,
        name: "read_file".to_string(),
        args: Json::Null,
    });
    app.handle_agent_event(AgentEvent::SubagentRunToolFinished {
        run: 0,
        name: "read_file".to_string(),
        output: ok_output("contents"),
    });

    assert_eq!(app.rail.panes[0].transcript.len(), 1);
    let TranscriptEntry::ToolCard { output, .. } = &app.rail.panes[0].transcript[0] else {
        panic!("expected a tool card");
    };
    assert_eq!(output.as_deref(), Some("contents"));
}

#[test]
fn down_from_the_composer_focuses_the_rail_then_enter_attaches() {
    let mut app = app_with_panes(2);
    assert_eq!(app.rail.rail_focus, None);

    press(&mut app, KeyCode::Down);
    assert_eq!(app.rail.rail_focus, Some(0));

    press(&mut app, KeyCode::Down);
    assert_eq!(app.rail.rail_focus, Some(1));
    // Clamped at the bottom rather than wrapping — you cannot fall off.
    press(&mut app, KeyCode::Down);
    assert_eq!(app.rail.rail_focus, Some(1));

    press(&mut app, KeyCode::Enter);
    assert_eq!(app.rail.attached, Some(1));
    assert_eq!(
        app.rail.attached_pane().map(|pane| pane.name.as_str()),
        Some("agent1")
    );

    // Esc backs out to the main chat, all the way to the composer.
    press(&mut app, KeyCode::Esc);
    assert_eq!(app.rail.attached, None);
    assert_eq!(app.rail.rail_focus, None);
}

#[test]
fn up_off_the_top_of_the_rail_returns_to_the_composer() {
    let mut app = app_with_panes(2);
    press(&mut app, KeyCode::Down);
    assert_eq!(app.rail.rail_focus, Some(0));

    press(&mut app, KeyCode::Up);
    assert_eq!(app.rail.rail_focus, None);

    // Focus really is back in the composer: typing goes to the input.
    press(&mut app, KeyCode::Char('h'));
    assert_eq!(app.composer.input, "h");
}

#[test]
fn down_still_walks_history_when_there_are_no_subagents() {
    let mut app = app();
    app.composer.history.push("earlier".to_string());
    press(&mut app, KeyCode::Up);
    assert_eq!(app.composer.input, "earlier");
    press(&mut app, KeyCode::Down);
    assert_eq!(app.rail.rail_focus, None);
    assert!(app.composer.input.is_empty());
}

#[test]
fn typing_on_the_rail_hands_focus_back_to_the_composer() {
    let mut app = app_with_panes(1);
    press(&mut app, KeyCode::Down);
    assert_eq!(app.rail.rail_focus, Some(0));

    // The keystroke must not be swallowed by the rail.
    press(&mut app, KeyCode::Char('x'));
    assert_eq!(app.rail.rail_focus, None);
    assert_eq!(app.composer.input, "x");
}

#[test]
fn vim_normal_j_and_k_drive_the_rail_like_arrows() {
    let mut app = app_with_panes(2);
    app.toggle_vim();
    press(&mut app, KeyCode::Esc);
    assert!(app.composer.vim.is_normal());

    // j from the composer drops into the rail, then walks it down,
    // clamping at the bottom just like ↓.
    press(&mut app, KeyCode::Char('j'));
    assert_eq!(app.rail.rail_focus, Some(0));
    press(&mut app, KeyCode::Char('j'));
    assert_eq!(app.rail.rail_focus, Some(1));
    press(&mut app, KeyCode::Char('j'));
    assert_eq!(app.rail.rail_focus, Some(1));

    // k walks back up; off the top it returns to the composer.
    press(&mut app, KeyCode::Char('k'));
    assert_eq!(app.rail.rail_focus, Some(0));
    press(&mut app, KeyCode::Char('k'));
    assert_eq!(app.rail.rail_focus, None);

    // Insert mode is still text: on the rail, j hands focus back and
    // types.
    press(&mut app, KeyCode::Char('j'));
    assert_eq!(app.rail.rail_focus, Some(0));
    press(&mut app, KeyCode::Char('i'));
    assert_eq!(app.rail.rail_focus, None);
    press(&mut app, KeyCode::Char('j'));
    assert_eq!(app.composer.input, "j");
}

#[test]
fn vim_normal_j_finishes_history_before_dropping_into_the_rail() {
    let mut app = app_with_panes(1);
    app.toggle_vim();
    app.composer.history.push("earlier".to_string());
    press(&mut app, KeyCode::Esc);

    press(&mut app, KeyCode::Char('k'));
    assert_eq!(app.composer.input, "earlier");
    // Mid-history j walks forward (back to the empty draft) rather than
    // jumping to the rail.
    press(&mut app, KeyCode::Char('j'));
    assert_eq!(app.rail.rail_focus, None);
    assert!(app.composer.input.is_empty());
    press(&mut app, KeyCode::Char('j'));
    assert_eq!(app.rail.rail_focus, Some(0));
}

#[test]
fn vim_normal_j_keeps_walking_subagents_while_attached() {
    let mut app = app_with_panes(2);
    app.toggle_vim();
    press(&mut app, KeyCode::Esc);
    app.rail.attach_pane(0);

    press(&mut app, KeyCode::Char('j'));
    assert_eq!(app.rail.attached, Some(1));
    press(&mut app, KeyCode::Char('k'));
    assert_eq!(app.rail.attached, Some(0));

    // In insert mode the composer under the pane is live again: j types.
    press(&mut app, KeyCode::Char('i'));
    press(&mut app, KeyCode::Char('j'));
    assert_eq!(app.rail.attached, Some(0));
    assert_eq!(app.composer.input, "j");
}

#[test]
fn attaching_clears_the_unread_badge_and_live_entries_stay_read() {
    let mut app = app_with_panes(1);
    app.handle_agent_event(AgentEvent::SubagentRunText {
        run: 0,
        text: "one".to_string(),
    });
    assert_eq!(app.rail.panes[0].unread, 1);

    app.rail.attach_pane(0);
    assert_eq!(app.rail.panes[0].unread, 0);

    // While you are watching, new work is not "unread".
    app.handle_agent_event(AgentEvent::SubagentRunText {
        run: 0,
        text: "two".to_string(),
    });
    assert_eq!(app.rail.panes[0].unread, 0);
}

#[test]
fn run_done_retires_the_pane() {
    let mut app = app_with_panes(1);
    app.handle_agent_event(AgentEvent::SubagentRunDone {
        run: 0,
        completed: true,
        output: "report".to_string(),
        error: None,
    });
    assert_eq!(app.rail.panes[0].status, PaneStatus::Done);
    assert!(app.rail.panes[0].finished.is_some());
    assert_eq!(app.rail.running_panes(), 0);
}

#[test]
fn the_final_report_lands_in_the_pane() {
    let mut app = app_with_panes(1);
    // The report is the step that made no tool call, so the sub-loop ends
    // on it and never streams it as text — it only arrives on the Done
    // event. The pane must still show it.
    app.handle_agent_event(AgentEvent::SubagentRunDone {
        run: 0,
        completed: true,
        output: "the auth flow starts in login.rs".to_string(),
        error: None,
    });
    let TranscriptEntry::Assistant(text) = app.rail.panes[0].transcript.last().unwrap() else {
        panic!("expected the report as an assistant message");
    };
    assert_eq!(text, "the auth flow starts in login.rs");
    assert_eq!(app.rail.panes[0].activity(), "the auth flow starts in login.rs");
}

#[test]
fn the_report_is_not_duplicated_when_it_also_streamed() {
    let mut app = app_with_panes(1);
    app.handle_agent_event(AgentEvent::SubagentRunText {
        run: 0,
        text: "all done".to_string(),
    });
    app.handle_agent_event(AgentEvent::SubagentRunDone {
        run: 0,
        completed: true,
        output: "all done".to_string(),
        error: None,
    });
    assert_eq!(app.rail.panes[0].transcript.len(), 1);
}

#[test]
fn a_failed_run_shows_its_error_in_the_pane() {
    let mut app = app_with_panes(1);
    app.handle_agent_event(AgentEvent::SubagentRunDone {
        run: 0,
        completed: false,
        output: String::new(),
        error: Some("provider is down".to_string()),
    });
    assert_eq!(app.rail.panes[0].status, PaneStatus::Failed);
    let TranscriptEntry::Notice(text) = &app.rail.panes[0].transcript[0] else {
        panic!("expected a notice");
    };
    assert!(text.contains("provider is down"));
}

#[test]
fn focus_rail_prefers_a_running_pane_over_a_finished_one() {
    let mut app = app_with_panes(2);
    app.handle_agent_event(AgentEvent::SubagentRunDone {
        run: 0,
        completed: true,
        output: "done".to_string(),
        error: None,
    });
    // agent0 has finished; ↓ should land on the one still working.
    press(&mut app, KeyCode::Down);
    assert_eq!(app.rail.rail_focus, Some(1));
}

#[test]
fn arrows_walk_from_one_pane_straight_into_the_next() {
    let mut app = app_with_panes(3);
    app.rail.attach_pane(0);

    press(&mut app, KeyCode::Down);
    assert_eq!(app.rail.attached, Some(1));
    press(&mut app, KeyCode::Down);
    assert_eq!(app.rail.attached, Some(2));
    // Wraps rather than dead-ending at the last run.
    press(&mut app, KeyCode::Down);
    assert_eq!(app.rail.attached, Some(0));

    press(&mut app, KeyCode::Up);
    assert_eq!(app.rail.attached, Some(2));
    // Browsing runs never scrolls the one you passed through.
    assert!(app.rail.panes.iter().all(|pane| pane.scroll == 0));
}

#[test]
fn shift_arrows_scroll_the_pane_you_are_reading() {
    let mut app = app_with_panes(3);
    app.rail.attach_pane(1);
    // Pretend the last frame had room to scroll (renderer fills this).
    app.rail.panes[1].max_scroll = 100;

    press_mod(&mut app, KeyCode::Up, shift());
    press_mod(&mut app, KeyCode::Up, shift());
    assert_eq!(app.rail.attached, Some(1), "shift+↑ must not change pane");
    assert!(!app.rail.panes[1].scroll_follow, "scrolling up leaves the tail");
    assert_eq!(
        app.rail.panes[1].scroll, 98,
        "top-anchored: two lines up from max"
    );

    press_mod(&mut app, KeyCode::Down, shift());
    assert_eq!(app.rail.panes[1].scroll, 99);
    assert!(!app.rail.panes[1].scroll_follow);
}

#[test]
fn arrows_in_a_pane_scroll_it_instead_of_recalling_history() {
    let mut app = app_with_panes(1);
    app.composer.history.push("an earlier prompt".to_string());
    app.rail.attach_pane(0);
    app.rail.panes[0].max_scroll = 100;

    // The bug: ↑/↓ fell through to the composer and walked the main chat's
    // history while the user was plainly looking at a subagent.
    press(&mut app, KeyCode::Up);
    assert!(app.composer.input.is_empty(), "↑ must not recall history in a pane");
    assert!(!app.rail.panes[0].scroll_follow);
    assert_eq!(app.rail.panes[0].scroll, 99);

    press(&mut app, KeyCode::Up);
    assert_eq!(app.rail.panes[0].scroll, 98);
    press(&mut app, KeyCode::Down);
    assert_eq!(app.rail.panes[0].scroll, 99);
    // Pinned at the live tail; it cannot scroll past the bottom.
    press(&mut app, KeyCode::Down);
    press(&mut app, KeyCode::Down);
    assert!(app.rail.panes[0].scroll_follow, "reaching the bottom re-follows");
    assert_eq!(app.rail.panes[0].scroll, 0);
    assert!(app.composer.input.is_empty());
    assert_eq!(app.rail.attached, Some(0));
}

#[test]
fn scroll_step_clamps_and_tracks_follow() {
    // Following the tail: scrolling up unsticks and moves off the bottom.
    assert_eq!(scroll_step(true, 0, 10, 3), (7, false));
    // Scrolling further up clamps at the oldest content.
    assert_eq!(scroll_step(false, 2, 10, 5), (0, false));
    // Scrolling down past the bottom clamps and re-enables follow.
    assert_eq!(scroll_step(false, 8, 10, -5), (0, true));
    // While following, scrolling down stays stuck to the bottom.
    assert_eq!(scroll_step(true, 0, 10, -1), (0, true));
}

#[test]
fn transcript_stays_put_while_streaming_after_scroll_up() {
    let mut app = app();
    // Viewport is full and we are following the live tail.
    app.chat.max_scroll = 50;
    assert!(app.chat.scroll_follow);

    // User scrolls up to re-read earlier output.
    app.chat.scroll_transcript(10);
    assert!(!app.chat.scroll_follow);
    assert_eq!(app.chat.scroll, 40);

    // Content grows (renderer would bump max_scroll); the top-anchored
    // offset must not change — that is the whole stick-to-bottom contract.
    app.chat.max_scroll = 80;
    assert_eq!(app.chat.scroll, 40, "scroll offset holds while content grows");
    assert!(!app.chat.scroll_follow);

    // Scrolling down to the (new) bottom re-enables follow.
    app.chat.scroll_transcript(-100);
    assert!(app.chat.scroll_follow);
    assert_eq!(app.chat.scroll, 0);

    // Ctrl-End is the explicit jump-to-tail chord.
    app.chat.scroll_transcript(5);
    assert!(!app.chat.scroll_follow);
    app.scroll_to_bottom();
    assert!(app.chat.scroll_follow);
    assert_eq!(app.chat.scroll, 0);
}

#[test]
fn wheel_and_page_keys_drive_stick_to_bottom() {
    let mut app = app();
    app.chat.max_scroll = 30;

    press(&mut app, KeyCode::PageUp);
    assert!(!app.chat.scroll_follow);
    assert_eq!(app.chat.scroll, 20);

    // One PgDn of 10 lands exactly on the bottom and re-enables follow.
    press(&mut app, KeyCode::PageDown);
    assert!(
        app.chat.scroll_follow,
        "PgDn onto the bottom should re-enable follow"
    );
    assert_eq!(app.chat.scroll, 0);

    // Esc while scrolled away jumps to the tail (instead of clearing input).
    app.chat.scroll_transcript(5);
    assert!(!app.chat.scroll_follow);
    press(&mut app, KeyCode::Esc);
    assert!(app.chat.scroll_follow);

    // Ctrl-End does the same.
    app.chat.scroll_transcript(5);
    press_mod(&mut app, KeyCode::End, control());
    assert!(app.chat.scroll_follow);
}

#[test]
fn esc_from_a_pane_lands_in_the_composer_in_one_press() {
    let mut app = app_with_panes(2);
    app.rail.attach_pane(1);

    press(&mut app, KeyCode::Esc);
    assert_eq!(app.rail.attached, None);
    // Focus is all the way back in the composer, not parked on the rail —
    // one Esc, and you are typing again.
    assert_eq!(app.rail.rail_focus, None);
    press(&mut app, KeyCode::Char('h'));
    assert_eq!(app.composer.input, "h");
}

#[test]
fn an_aborted_turn_closes_out_the_panes_it_left_running() {
    let mut app = app_with_panes(3);
    // The first run finished before the interrupt; the other two were still
    // streaming when the task was killed, so their loops were dropped
    // mid-poll and no SubagentRunDone is ever coming for them.
    app.handle_agent_event(AgentEvent::SubagentRunDone {
        run: 0,
        completed: true,
        output: "report".to_string(),
        error: None,
    });

    app.rail.fail_running_panes("interrupted", app.now);

    assert_eq!(
        app.rail.running_panes(),
        0,
        "nothing is left pulsing on the rail"
    );
    assert_eq!(
        app.rail.panes[0].status,
        PaneStatus::Done,
        "the finished one is untouched"
    );
    for pane in &app.rail.panes[1..] {
        assert_eq!(pane.status, PaneStatus::Failed);
        assert!(pane.finished.is_some(), "so its linger clock can start");
    }

    // And they retire like any other finished run, instead of sitting on the
    // rail with a live clock for the rest of the session.
    for pane in &mut app.rail.panes {
        pane.finished = Some(0);
    }
    app.rail.retire_finished_panes(app.now);
    assert!(app.rail.panes.is_empty());
}

#[test]
fn the_ultra_pre_phase_leaves_its_drafts_in_the_transcript() {
    let mut app = app();
    app.handle_agent_event(AgentEvent::UltraGuidance {
        label: "ultra ×2 · implementer+skeptic · 1 judge".to_string(),
        guidance: "[Ultra] 2 agent(s)…\n\ndraft from the implementer".to_string(),
    });

    // The candidates' panes retire seconds after they finish, while the main
    // agent works on for minutes — so the card is the only place the drafts
    // the user paid 3× for can still be read.
    let card = app
        .chat.transcript
        .iter()
        .find_map(|entry| match entry {
            TranscriptEntry::ToolCard {
                name,
                output,
                collapsed,
                ..
            } => Some((name, output, collapsed)),
            _ => None,
        })
        .expect("the guidance card");
    assert_eq!(card.0, "ultra ×2 · implementer+skeptic · 1 judge");
    assert!(
        card.1
            .as_deref()
            .is_some_and(|body| body.contains("draft from the implementer"))
    );
    assert!(*card.2, "folded: the answer is the point of the turn");
}

#[test]
fn a_finished_run_retires_off_the_rail() {
    let mut app = app_with_panes(2);
    app.handle_agent_event(AgentEvent::SubagentRunDone {
        run: 0,
        completed: true,
        output: "report".to_string(),
        error: None,
    });
    // It lingers first, so you actually see it land.
    app.rail.retire_finished_panes(app.now);
    assert_eq!(app.rail.panes.len(), 2);

    // Once its linger is up it drops off, leaving the rail showing live work.
    app.rail.panes[0].finished = Some(0);
    app.rail.retire_finished_panes(app.now);
    assert_eq!(app.rail.panes.len(), 1);
    assert_eq!(app.rail.panes[0].name, "agent1");
    assert_eq!(app.rail.running_panes(), 1);
}

#[test]
fn the_pane_you_are_watching_never_retires_under_you() {
    let mut app = app_with_panes(1);
    app.rail.attach_pane(0);
    app.handle_agent_event(AgentEvent::SubagentRunDone {
        run: 0,
        completed: true,
        output: "report".to_string(),
        error: None,
    });
    app.rail.panes[0].finished = Some(0);

    // Long past its linger, but you are reading it.
    app.rail.retire_finished_panes(app.now);
    assert_eq!(app.rail.panes.len(), 1);
    assert_eq!(app.rail.attached, Some(0));

    // Esc lets it go, and lands you back in the composer.
    press(&mut app, KeyCode::Esc);
    assert!(app.rail.panes.is_empty());
    assert_eq!(app.rail.attached, None);
    assert_eq!(app.rail.rail_focus, None);
}

#[test]
fn retiring_keeps_the_selection_on_the_run_it_pointed_at() {
    let mut app = app_with_panes(3);
    // Focus the third run, then retire the first.
    app.rail.rail_focus = Some(2);
    app.handle_agent_event(AgentEvent::SubagentRunDone {
        run: 0,
        completed: true,
        output: "done".to_string(),
        error: None,
    });
    app.rail.panes[0].finished = Some(0);
    app.rail.retire_finished_panes(app.now);

    // Indices shifted, but the selection still points at the same run.
    assert_eq!(app.rail.panes.len(), 2);
    assert_eq!(app.rail.rail_focus, Some(1));
    assert_eq!(app.rail.panes[1].name, "agent2");
}

#[test]
fn a_background_report_survives_its_pane_retiring() {
    let mut app = app_with_panes(1);
    // The card the model got back when it delegated: a placeholder.
    app.chat.transcript.push(TranscriptEntry::ToolCard {
        name: "spawn_subagent".to_string(),
        args: object(&[("subagent", "agent0"), ("task", "task 0")]),
        output: Some("Delegated to subagent 'agent0' (#0)".to_string()),
        is_error: false,
        collapsed: false,
    });
    app.handle_agent_event(AgentEvent::SubagentRunDone {
        run: 0,
        completed: true,
        output: "the auth flow starts in login.rs".to_string(),
        error: None,
    });
    app.rail.panes[0].finished = Some(0);
    app.rail.retire_finished_panes(app.now);
    assert!(app.rail.panes.is_empty());

    // The pane is gone, but the run is still readable in the main chat.
    let TranscriptEntry::ToolCard { output, .. } = &app.chat.transcript[0] else {
        panic!("expected the spawn card");
    };
    assert_eq!(output.as_deref(), Some("the auth flow starts in login.rs"));
}

#[test]
fn the_composer_stays_live_while_attached() {
    let mut app = app_with_panes(1);
    app.rail.attach_pane(0);
    // Better than a modal: you can keep driving the main conversation
    // while you watch a subagent work.
    press(&mut app, KeyCode::Char('h'));
    press(&mut app, KeyCode::Char('i'));
    assert_eq!(app.composer.input, "hi");
    assert_eq!(app.rail.attached, Some(0));
}

#[test]
fn activity_reports_the_tool_in_flight_then_the_last_message() {
    let mut app = app_with_panes(1);
    // Nothing yet: fall back to the task.
    assert_eq!(app.rail.panes[0].activity(), "task 0");

    app.handle_agent_event(AgentEvent::SubagentRunToolStarted {
        run: 0,
        name: "grep".to_string(),
        args: Json::Null,
    });
    assert_eq!(app.rail.panes[0].activity(), "grep");

    app.handle_agent_event(AgentEvent::SubagentRunToolFinished {
        run: 0,
        name: "grep".to_string(),
        output: ok_output("hit"),
    });
    app.handle_agent_event(AgentEvent::SubagentRunText {
        run: 0,
        text: "narrowing it down".to_string(),
    });
    assert_eq!(app.rail.panes[0].activity(), "narrowing it down");
}

#[test]
fn a_tool_in_flight_reads_before_a_later_message() {
    let mut app = app_with_panes(1);
    app.handle_agent_event(AgentEvent::SubagentRunToolStarted {
        run: 0,
        name: "grep".to_string(),
        args: Json::Null,
    });
    app.handle_agent_event(AgentEvent::SubagentRunText {
        run: 0,
        text: "still looking".to_string(),
    });
    assert_eq!(app.rail.panes[0].activity(), "grep");

    app.handle_agent_event(AgentEvent::SubagentRunToolFinished {
        run: 0,
        name: "grep".to_string(),
        output: ok_output("hit"),
    });
    assert_eq!(app.rail.panes[0].activity(), "still looking");
}

#[test]
fn bare_commands_parse_to_their_variants() {
    for (input, expected) in [
        ("/plan", SlashCommand::Plan),
        ("/todos", SlashCommand::Todos),
        ("/cost", SlashCommand::Cost),
        ("/compact", SlashCommand::Compact),
        ("/dashboard", SlashCommand::Dashboard),
        ("/omakase", SlashCommand::Omakase),
    ] {
        assert_eq!(SlashCommand::parse(input), Some(Ok(expected)), "{input}");
    }
}

#[test]
fn welcome_hides_while_a_turn_is_in_flight_and_returns_after() {
    let mut app = app();
    assert!(app.welcome_visible());

    app.turn.status.busy = true;
    assert!(
        !app.welcome_visible(),
        "a running turn replaces the welcome"
    );
    app.turn.status.busy = false;
    assert!(app.welcome_visible(), "an aborted turn brings it back");

    app.chat.streaming = "partial".to_string();
    assert!(!app.welcome_visible(), "streamed text replaces the welcome");
    app.chat.streaming.clear();
    assert!(app.welcome_visible());
}

#[test]
fn builtin_with_bad_args_still_dismisses_the_welcome_screen() {
    let mut app = app();
    assert!(app.welcome_visible());
    type_str(&mut app, "/mode warlock");
    press(&mut app, KeyCode::Enter);
    assert!(
        !app.welcome_visible(),
        "a mistyped builtin still begins the session"
    );
}
