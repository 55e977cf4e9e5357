//! The application's state, and the work it hands to the main loop.

use crate::app::picker::{picker_opt, Picker, PickerView, Selection, StatusLine, StatusView};
use crate::app::prompts::{
    interview_opt, prompt_opt, review_opt, Interview, InterviewView, PlanReview, PlanVerdict,
    PromptView, ProviderPrompt, ReviewView, VerdictView,
};
use crate::app::transcript::{
    entries, panes_view, EntryView, PaneView, SubagentPane, TranscriptEntry,
};
use crate::app::vim::{VimState, VimView};
use crate::commands::{
    suggestions_view, CommandView, CustomCommand, PreparedView, Preprocessed, SlashCommand,
    Suggestion, SuggestionView,
};
use crate::config::{Config, ConfigView, Mode, Peer, PeerView};
use crate::json::text_opt;
use crate::text::texts;
use std::collections::VecDeque;
use vstd::prelude::*;

verus! {

/// What the input line is currently doing.
#[derive(Debug, Clone, Copy, PartialEq, Eq, Structural)]
pub enum InputMode {
    /// Composing a chat message.
    Chat,
    /// Composing a `/slash` command.
    Command,
    /// Answering an inline prompt.
    Prompt,
}

impl Default for InputMode {
    fn default() -> (r: InputMode)
        ensures
            r == InputMode::Chat,
    {
        InputMode::Chat
    }
}

/// How far a todo item is.
#[derive(Debug, Clone, Copy, PartialEq, Eq, Structural)]
pub enum TodoStatus {
    Pending,
    InProgress,
    Completed,
}

/// One item of the agent's todo list.
#[derive(Debug, Clone, PartialEq, Eq)]
pub struct TodoItem {
    pub content: String,
    pub status: TodoStatus,
}

pub struct TodoView {
    pub content: Seq<char>,
    pub status: TodoStatus,
}

impl View for TodoItem {
    type V = TodoView;

    open spec fn view(&self) -> TodoView {
        TodoView { content: self.content@, status: self.status }
    }
}

pub open spec fn todos_view(t: Seq<TodoItem>) -> Seq<TodoView> {
    t.map_values(|x: TodoItem| x@)
}

/// What a session is doing.
#[derive(Debug, Clone, Copy, PartialEq, Eq, Structural)]
pub enum SessionState {
    Idle,
    Working,
    NeedsInput,
}

/// A session's heartbeat.
#[derive(Debug, PartialEq, Eq)]
pub struct SessionRecord {
    pub id: String,
    pub name: String,
    pub cwd: String,
    pub model: String,
    pub mode: String,
    pub state: SessionState,
    pub activity: String,
    pub pid: u32,
    pub started_unix: u64,
    pub updated_unix: u64,
}

pub struct SessionView {
    pub id: Seq<char>,
    pub name: Seq<char>,
    pub cwd: Seq<char>,
    pub model: Seq<char>,
    pub mode: Seq<char>,
    pub state: SessionState,
    pub activity: Seq<char>,
    pub pid: u32,
    pub started_unix: u64,
    pub updated_unix: u64,
}

impl View for SessionRecord {
    type V = SessionView;

    open spec fn view(&self) -> SessionView {
        SessionView {
            id: self.id@,
            name: self.name@,
            cwd: self.cwd@,
            model: self.model@,
            mode: self.mode@,
            state: self.state,
            activity: self.activity@,
            pid: self.pid,
            started_unix: self.started_unix,
            updated_unix: self.updated_unix,
        }
    }
}

pub open spec fn sessions_view(s: Seq<SessionRecord>) -> Seq<SessionView> {
    s.map_values(|x: SessionRecord| x@)
}

pub open spec fn pairs_view(s: Seq<(String, String)>) -> Seq<(Seq<char>, Seq<char>)> {
    s.map_values(|x: (String, String)| (x.0@, x.1@))
}

pub open spec fn queue_view(s: Seq<Preprocessed>) -> Seq<PreparedView> {
    s.map_values(|x: Preprocessed| x@)
}

pub open spec fn expansion_view(e: Option<(String, Preprocessed)>) -> Option<
    (Seq<char>, PreparedView),
> {
    match e {
        Some(x) => Some((x.0@, x.1@)),
        None => None,
    }
}

/// A provider kind on the "add provider" menu.
pub struct MenuRow {
    pub label: String,
    pub detail: String,
}

/// A ready-made OpenAI-compatible provider.
pub struct Preset {
    pub name: String,
    pub label: String,
    pub detail: String,
    pub base_url: String,
    pub model: String,
}

/// A web search backend.
pub struct WebBackend {
    pub id: String,
    pub label: String,
    pub detail: String,
    pub needs_key: bool,
}

pub struct MenuRowView {
    pub label: Seq<char>,
    pub detail: Seq<char>,
}

pub struct PresetView {
    pub name: Seq<char>,
    pub label: Seq<char>,
    pub detail: Seq<char>,
    pub base_url: Seq<char>,
    pub model: Seq<char>,
}

pub struct WebBackendView {
    pub id: Seq<char>,
    pub label: Seq<char>,
    pub detail: Seq<char>,
    pub needs_key: bool,
}

impl View for MenuRow {
    type V = MenuRowView;

    open spec fn view(&self) -> MenuRowView {
        MenuRowView { label: self.label@, detail: self.detail@ }
    }
}

impl View for Preset {
    type V = PresetView;

    open spec fn view(&self) -> PresetView {
        PresetView {
            name: self.name@,
            label: self.label@,
            detail: self.detail@,
            base_url: self.base_url@,
            model: self.model@,
        }
    }
}

impl View for WebBackend {
    type V = WebBackendView;

    open spec fn view(&self) -> WebBackendView {
        WebBackendView {
            id: self.id@,
            label: self.label@,
            detail: self.detail@,
            needs_key: self.needs_key,
        }
    }
}

/// What the main loop reads from the machine and its catalogs for the menus.
pub struct Surroundings {
    /// The agent to import from.
    pub peer: Peer,
    /// It is installed.
    pub claude_home: bool,
    /// MCP servers, commands and spinner verbs it has.
    pub claude_mcp: u64,
    pub claude_commands: u64,
    pub claude_verbs: u64,
    /// Where the settings are kept.
    pub config_path: String,
    /// An xAI sign-in is stored.
    pub xai_session: bool,
    /// An xAI API key is stored.
    pub xai_key: bool,
    /// This process.
    pub pid: u32,
    /// The fixed rows of the "add provider" menu.
    pub provider_types: Vec<MenuRow>,
    /// The ready-made providers that follow them.
    pub presets: Vec<Preset>,
    /// The web search backends.
    pub web_backends: Vec<WebBackend>,
}

pub struct SurroundingsView {
    pub peer: PeerView,
    pub claude_home: bool,
    pub claude_mcp: u64,
    pub claude_commands: u64,
    pub claude_verbs: u64,
    pub config_path: Seq<char>,
    pub xai_session: bool,
    pub xai_key: bool,
    pub pid: u32,
    pub provider_types: Seq<MenuRowView>,
    pub presets: Seq<PresetView>,
    pub web_backends: Seq<WebBackendView>,
}

impl View for Surroundings {
    type V = SurroundingsView;

    open spec fn view(&self) -> SurroundingsView {
        SurroundingsView {
            peer: self.peer@,
            claude_home: self.claude_home,
            claude_mcp: self.claude_mcp,
            claude_commands: self.claude_commands,
            claude_verbs: self.claude_verbs,
            config_path: self.config_path@,
            xai_session: self.xai_session,
            xai_key: self.xai_key,
            pid: self.pid,
            provider_types: self.provider_types@.map_values(|x: MenuRow| x@),
            presets: self.presets@.map_values(|x: Preset| x@),
            web_backends: self.web_backends@.map_values(|x: WebBackend| x@),
        }
    }
}

/// What to say once the settings are written.
#[derive(Debug, PartialEq, Eq)]
pub struct SaveNote {
    /// What is being saved, for the failure notice.
    pub subject: String,
    /// The notice that follows.
    pub note: Option<String>,
    /// The notice follows a failure too.
    pub always: bool,
}

pub struct SaveView {
    pub subject: Seq<char>,
    pub note: Option<Seq<char>>,
    pub always: bool,
}

impl View for SaveNote {
    type V = SaveView;

    open spec fn view(&self) -> SaveView {
        SaveView { subject: self.subject@, note: text_opt(self.note), always: self.always }
    }
}

/// Work the main loop does on the state's behalf.
#[derive(Debug, PartialEq, Eq)]
pub enum Effect {
    /// Write the settings, then call [`App::config_saved`].
    SaveConfig(SaveNote),
    /// Store an API key for a web search backend, then call
    /// [`App::web_key_stored`].
    StoreWebKey { backend: String, key: String },
    /// Store a provider's API key, then call [`App::provider_key_stored`].
    StoreProviderKey { name: String, key: String },
    /// Look for an image on the clipboard, then call [`App::clipboard_read`].
    ReadClipboard { explicit: bool },
    /// Save a pasted image, then call [`App::pasted_image_saved`].
    SavePastedImage { mime: String, data: String },
    /// Resolve pasted paths, then call [`App::pasted_paths_resolved`].
    ResolvePaths { text: String, tokens: Vec<String> },
    /// List a directory, the one that [`App::directory_to_list`] says, then call
    /// [`App::directory_listed`].
    ListDirectory { dir: String, prefix: String },
    /// Reload the live sessions, then call [`App::refresh_sessions`].
    RefreshSessions,
    /// Reload the peek panel, then call [`App::refresh_peek`].
    RefreshPeek,
    /// Start a background session, then call [`App::session_dispatched`].
    DispatchSession(String),
    /// Stop a session, then call [`App::session_stopped`].
    StopSession { id: String, name: String, pid: u32 },
    /// Kill a background run, then call [`App::subagent_killed`].
    KillSubagent { run: u64, bg: u32, name: String },
    /// Answer the paused plan.
    Verdict(PlanVerdict),
    /// Answer the paused interview.
    Answers(Option<Vec<String>>),
}

pub enum EffectView {
    SaveConfig(SaveView),
    StoreWebKey { backend: Seq<char>, key: Seq<char> },
    StoreProviderKey { name: Seq<char>, key: Seq<char> },
    ReadClipboard { explicit: bool },
    SavePastedImage { mime: Seq<char>, data: Seq<char> },
    ResolvePaths { text: Seq<char>, tokens: Seq<Seq<char>> },
    ListDirectory { dir: Seq<char>, prefix: Seq<char> },
    RefreshSessions,
    RefreshPeek,
    DispatchSession(Seq<char>),
    StopSession { id: Seq<char>, name: Seq<char>, pid: u32 },
    KillSubagent { run: u64, bg: u32, name: Seq<char> },
    Verdict(VerdictView),
    Answers(Option<Seq<Seq<char>>>),
}

pub open spec fn answers_view(a: Option<Vec<String>>) -> Option<Seq<Seq<char>>> {
    match a {
        Some(v) => Some(texts(v@)),
        None => None,
    }
}

impl View for Effect {
    type V = EffectView;

    open spec fn view(&self) -> EffectView {
        match self {
            Effect::SaveConfig(n) => EffectView::SaveConfig(n@),
            Effect::StoreWebKey { backend, key } => EffectView::StoreWebKey {
                backend: backend@,
                key: key@,
            },
            Effect::StoreProviderKey { name, key } => EffectView::StoreProviderKey {
                name: name@,
                key: key@,
            },
            Effect::ReadClipboard { explicit } => EffectView::ReadClipboard { explicit: *explicit },
            Effect::SavePastedImage { mime, data } => EffectView::SavePastedImage {
                mime: mime@,
                data: data@,
            },
            Effect::ResolvePaths { text, tokens } => EffectView::ResolvePaths {
                text: text@,
                tokens: texts(tokens@),
            },
            Effect::ListDirectory { dir, prefix } => EffectView::ListDirectory {
                dir: dir@,
                prefix: prefix@,
            },
            Effect::RefreshSessions => EffectView::RefreshSessions,
            Effect::RefreshPeek => EffectView::RefreshPeek,
            Effect::DispatchSession(p) => EffectView::DispatchSession(p@),
            Effect::StopSession { id, name, pid } => EffectView::StopSession {
                id: id@,
                name: name@,
                pid: *pid,
            },
            Effect::KillSubagent { run, bg, name } => EffectView::KillSubagent {
                run: *run,
                bg: *bg,
                name: name@,
            },
            Effect::Verdict(v) => EffectView::Verdict(v@),
            Effect::Answers(a) => EffectView::Answers(answers_view(*a)),
        }
    }
}

pub open spec fn effects_view(e: Seq<Effect>) -> Seq<EffectView> {
    e.map_values(|x: Effect| x@)
}

/// Side effects the main loop performs on behalf of [`App`].
#[derive(Debug, PartialEq, Eq)]
pub enum AppAction {
    /// Start an agent turn with this user message.
    Submit(Preprocessed),
    /// Execute a parsed slash command.
    Command(SlashCommand),
    /// Interrupt the running turn.
    Interrupt,
    /// Copy the current mouse selection to the clipboard.
    CopySelection,
}

pub enum ActionView {
    Submit(PreparedView),
    Command(CommandView),
    Interrupt,
    CopySelection,
}

impl View for AppAction {
    type V = ActionView;

    open spec fn view(&self) -> ActionView {
        match self {
            AppAction::Submit(p) => ActionView::Submit(p@),
            AppAction::Command(c) => ActionView::Command(c@),
            AppAction::Interrupt => ActionView::Interrupt,
            AppAction::CopySelection => ActionView::CopySelection,
        }
    }
}

/// What an optional action says.
pub open spec fn action_opt(a: Option<AppAction>) -> Option<ActionView> {
    match a {
        Some(x) => Some(x@),
        None => None,
    }
}

/// How many user prompts may sit behind a running turn.
pub const MESSAGE_QUEUE_CAP: usize = 32;

/// The composer, and the popups and prompts that share its line.
pub struct Composer {
    /// The text being typed.
    pub input: String,
    /// Cursor position in `input`, in characters.
    pub cursor: usize,
    /// What the input line is doing.
    pub input_mode: InputMode,
    /// Modal editing state.
    pub vim: VimState,
    /// Commands that match the typed `/input`.
    pub suggestions: Vec<Suggestion>,
    /// Highlighted row in `suggestions`.
    pub suggestion_index: usize,
    /// The user's own commands.
    pub custom_commands: Vec<CustomCommand>,
    /// Open selection popup.
    pub picker: Option<Picker>,
    /// Provider setup in progress.
    pub prompt: Option<ProviderPrompt>,
    /// The web search backend whose key is being entered.
    pub web_key_backend: Option<String>,
    /// Image files staged for the next submit.
    pub pending_images: Vec<String>,
    /// Submitted inputs, oldest first.
    pub history: Vec<String>,
    /// Position while browsing `history`.
    pub history_pos: Option<usize>,
    /// The input saved when browsing starts.
    pub history_draft: String,
}

/// What a [`Composer`] holds.
pub struct ComposerView {
    pub input: Seq<char>,
    pub cursor: usize,
    pub input_mode: InputMode,
    pub vim: VimView,
    pub suggestions: Seq<SuggestionView>,
    pub suggestion_index: usize,
    pub custom_commands: Seq<CustomCommand>,
    pub picker: Option<PickerView>,
    pub prompt: Option<PromptView>,
    pub web_key_backend: Option<Seq<char>>,
    pub pending_images: Seq<Seq<char>>,
    pub history: Seq<Seq<char>>,
    pub history_pos: Option<usize>,
    pub history_draft: Seq<char>,
}

impl View for Composer {
    type V = ComposerView;

    open spec fn view(&self) -> ComposerView {
        ComposerView {
            input: self.input@,
            cursor: self.cursor,
            input_mode: self.input_mode,
            vim: self.vim@,
            suggestions: suggestions_view(self.suggestions@),
            suggestion_index: self.suggestion_index,
            custom_commands: self.custom_commands@,
            picker: picker_opt(self.picker),
            prompt: prompt_opt(self.prompt),
            web_key_backend: text_opt(self.web_key_backend),
            pending_images: texts(self.pending_images@),
            history: texts(self.history@),
            history_pos: self.history_pos,
            history_draft: self.history_draft@,
        }
    }
}

/// The conversation and how it is viewed.
pub struct Chat {
    /// The conversation.
    pub transcript: Vec<TranscriptEntry>,
    /// Partial assistant text of the in-flight turn.
    pub streaming: String,
    /// Partial model reasoning of the in-flight turn.
    pub streaming_thinking: String,
    /// First visible line, while not following.
    pub scroll: u16,
    /// The view sticks to the bottom.
    pub scroll_follow: bool,
    /// Last-drawn maximum scroll.
    pub max_scroll: u16,
    /// Mouse text selection.
    pub selection: Option<Selection>,
    /// Screen rows of tool-card headers in the last frame, each with its entry.
    pub card_hits: Vec<(u16, usize)>,
    /// Latched once the user submits anything.
    pub welcome_dismissed: bool,
}

/// What a [`Chat`] holds.
pub struct ChatView {
    pub transcript: Seq<EntryView>,
    pub streaming: Seq<char>,
    pub streaming_thinking: Seq<char>,
    pub scroll: u16,
    pub scroll_follow: bool,
    pub max_scroll: u16,
    pub selection: Option<Selection>,
    pub card_hits: Seq<(u16, usize)>,
    pub welcome_dismissed: bool,
}

impl View for Chat {
    type V = ChatView;

    open spec fn view(&self) -> ChatView {
        ChatView {
            transcript: entries(self.transcript@),
            streaming: self.streaming@,
            streaming_thinking: self.streaming_thinking@,
            scroll: self.scroll,
            scroll_follow: self.scroll_follow,
            max_scroll: self.max_scroll,
            selection: self.selection,
            card_hits: self.card_hits@,
            welcome_dismissed: self.welcome_dismissed,
        }
    }
}

/// The subagent runs below the composer.
pub struct Rail {
    /// Every run on the rail, oldest first.
    pub panes: Vec<SubagentPane>,
    /// Selected row while the rail has keyboard focus.
    pub rail_focus: Option<usize>,
    /// The pane the user is inside.
    pub attached: Option<usize>,
    /// Background runs can be killed: their registry is up.
    pub subagents: bool,
}

/// What a [`Rail`] holds.
pub struct RailView {
    pub panes: Seq<PaneView>,
    pub rail_focus: Option<usize>,
    pub attached: Option<usize>,
    pub subagents: bool,
}

impl View for Rail {
    type V = RailView;

    open spec fn view(&self) -> RailView {
        RailView {
            panes: panes_view(self.panes@),
            rail_focus: self.rail_focus,
            attached: self.attached,
            subagents: self.subagents,
        }
    }
}

/// The machine-wide session manager.
pub struct Dashboard {
    /// The dashboard covers the screen.
    pub open: bool,
    /// Live sessions on the machine.
    pub sessions: Vec<SessionRecord>,
    /// Selected row.
    pub selected: usize,
    /// The prompt for a new background session.
    pub input: String,
    /// Recent transcript of the selected session, as role and text.
    pub peek_lines: Vec<(String, String)>,
}

/// What a [`Dashboard`] holds.
pub struct DashboardView {
    pub open: bool,
    pub sessions: Seq<SessionView>,
    pub selected: usize,
    pub input: Seq<char>,
    pub peek_lines: Seq<(Seq<char>, Seq<char>)>,
}

impl View for Dashboard {
    type V = DashboardView;

    open spec fn view(&self) -> DashboardView {
        DashboardView {
            open: self.open,
            sessions: sessions_view(self.sessions@),
            selected: self.selected,
            input: self.input@,
            peek_lines: pairs_view(self.peek_lines@),
        }
    }
}

/// The diff sidebar and the todo band.
pub struct Panels {
    /// The git diff sidebar is open.
    pub show_diff: bool,
    /// The sidebar's contents.
    pub diff_text: String,
    /// First visible line of the sidebar.
    pub diff_scroll: u16,
    /// The todo band is open.
    pub show_todos: bool,
    /// The agent's todo list.
    pub todos: Vec<TodoItem>,
    /// A todo update has arrived.
    pub todos_seen: bool,
}

/// What a [`Panels`] holds.
pub struct PanelsView {
    pub show_diff: bool,
    pub diff_text: Seq<char>,
    pub diff_scroll: u16,
    pub show_todos: bool,
    pub todos: Seq<TodoView>,
    pub todos_seen: bool,
}

impl View for Panels {
    type V = PanelsView;

    open spec fn view(&self) -> PanelsView {
        PanelsView {
            show_diff: self.show_diff,
            diff_text: self.diff_text@,
            diff_scroll: self.diff_scroll,
            show_todos: self.show_todos,
            todos: todos_view(self.todos@),
            todos_seen: self.todos_seen,
        }
    }
}

/// Plan mode and its modals.
pub struct Planning {
    /// Plan mode is on.
    pub plan_mode: bool,
    /// Omakase mode is on.
    pub omakase: bool,
    /// Open plan review.
    pub plan_review: Option<PlanReview>,
    /// Open interview.
    pub interview: Option<Interview>,
}

/// What a [`Planning`] holds.
pub struct PlanningView {
    pub plan_mode: bool,
    pub omakase: bool,
    pub plan_review: Option<ReviewView>,
    pub interview: Option<InterviewView>,
}

impl View for Planning {
    type V = PlanningView;

    open spec fn view(&self) -> PlanningView {
        PlanningView {
            plan_mode: self.plan_mode,
            omakase: self.omakase,
            plan_review: review_opt(self.plan_review),
            interview: interview_opt(self.interview),
        }
    }
}

/// This session's identity.
pub struct Identity {
    /// The session's id.
    pub id: String,
    /// Its display name.
    pub name: String,
    /// Unix start time.
    pub started_unix: u64,
    /// Project root that `@file` references resolve against.
    pub project_root: String,
}

/// What a [`Identity`] holds.
pub struct IdentityView {
    pub id: Seq<char>,
    pub name: Seq<char>,
    pub started_unix: u64,
    pub project_root: Seq<char>,
}

impl View for Identity {
    type V = IdentityView;

    open spec fn view(&self) -> IdentityView {
        IdentityView {
            id: self.id@,
            name: self.name@,
            started_unix: self.started_unix,
            project_root: self.project_root@,
        }
    }
}

/// The agent's turn and what waits for it.
pub struct Turn {
    /// The status bar.
    pub status: StatusLine,
    /// When the in-flight turn started.
    pub turn_started: Option<u64>,
    /// Label of an agent rebuild in progress.
    pub rebuilding: Option<String>,
    /// Verb shown next to the busy spinner.
    pub spinner_verb: String,
    /// Number of verb rolls so far.
    pub verb_rolls: u64,
    /// Prompts submitted while a turn runs, oldest first.
    pub message_queue: VecDeque<Preprocessed>,
    /// Commands the agent asked for, to run after the turn.
    pub pending_agent_commands: Vec<String>,
    /// An input the main loop has already expanded, and its expansion.
    pub expansion: Option<(String, Preprocessed)>,
    /// The active client is a fusion panel.
    pub fusion_active: bool,
    /// Label of the running mixture-of-agents roster.
    pub ultra: Option<String>,
}

/// What a [`Turn`] holds.
pub struct TurnView {
    pub status: StatusView,
    pub turn_started: Option<u64>,
    pub rebuilding: Option<Seq<char>>,
    pub spinner_verb: Seq<char>,
    pub verb_rolls: u64,
    pub message_queue: Seq<PreparedView>,
    pub pending_agent_commands: Seq<Seq<char>>,
    pub expansion: Option<(Seq<char>, PreparedView)>,
    pub fusion_active: bool,
    pub ultra: Option<Seq<char>>,
}

impl View for Turn {
    type V = TurnView;

    open spec fn view(&self) -> TurnView {
        TurnView {
            status: self.status@,
            turn_started: self.turn_started,
            rebuilding: text_opt(self.rebuilding),
            spinner_verb: self.spinner_verb@,
            verb_rolls: self.verb_rolls,
            message_queue: queue_view(self.message_queue@),
            pending_agent_commands: texts(self.pending_agent_commands@),
            expansion: expansion_view(self.expansion),
            fusion_active: self.fusion_active,
            ultra: text_opt(self.ultra),
        }
    }
}

/// What the main loop is to do, or is doing.
pub struct Pending {
    /// The program is to exit.
    pub should_quit: bool,
    /// A second Ctrl-C exits.
    pub ctrl_c_armed: bool,
    /// The config file is to be opened in an editor.
    pub edit_config: bool,
    /// The draft is to be opened in an editor.
    pub edit_prompt: bool,
    /// The history is to be compacted.
    pub compact: bool,
    /// A compaction is running.
    pub compacting: bool,
    /// Connected tools wait for the agent's return.
    pub mcp_merge: bool,
    /// Tool servers are connecting.
    pub mcp_connecting: bool,
    /// A side question to be asked.
    pub btw: Option<String>,
    /// A side question is being answered.
    pub btw_inflight: bool,
    /// Why the provider failed its health probe.
    pub provider_health_error: Option<String>,
}

/// What a [`Pending`] holds.
pub struct PendingView {
    pub should_quit: bool,
    pub ctrl_c_armed: bool,
    pub edit_config: bool,
    pub edit_prompt: bool,
    pub compact: bool,
    pub compacting: bool,
    pub mcp_merge: bool,
    pub mcp_connecting: bool,
    pub btw: Option<Seq<char>>,
    pub btw_inflight: bool,
    pub provider_health_error: Option<Seq<char>>,
}

impl View for Pending {
    type V = PendingView;

    open spec fn view(&self) -> PendingView {
        PendingView {
            should_quit: self.should_quit,
            ctrl_c_armed: self.ctrl_c_armed,
            edit_config: self.edit_config,
            edit_prompt: self.edit_prompt,
            compact: self.compact,
            compacting: self.compacting,
            mcp_merge: self.mcp_merge,
            mcp_connecting: self.mcp_connecting,
            btw: text_opt(self.btw),
            btw_inflight: self.btw_inflight,
            provider_health_error: text_opt(self.provider_health_error),
        }
    }
}

/// Full state of the terminal application.
pub struct App {
    /// The user's settings.
    pub config: Config,
    /// Personality mode.
    pub mode: Mode,
    /// The composer, and the popups and prompts that share its line.
    pub composer: Composer,
    /// The conversation and how it is viewed.
    pub chat: Chat,
    /// The subagent runs below the composer.
    pub rail: Rail,
    /// The machine-wide session manager.
    pub dashboard: Dashboard,
    /// The diff sidebar and the todo band.
    pub panels: Panels,
    /// Plan mode and its modals.
    pub planning: Planning,
    /// This session's identity.
    pub session: Identity,
    /// The agent's turn and what waits for it.
    pub turn: Turn,
    /// What the main loop is to do, or is doing.
    pub pending: Pending,
    /// Tick counter.
    pub tick: u64,
    /// Milliseconds on a clock that never goes back; the main loop sets it before each event.
    pub now: u64,
    /// What the main loop last read from the machine.
    pub surroundings: Surroundings,
    /// Work for the main loop, in order.
    pub effects: Vec<Effect>,
}

/// What a [`App`] holds.
pub struct AppView {
    pub config: ConfigView,
    pub mode: Mode,
    pub composer: ComposerView,
    pub chat: ChatView,
    pub rail: RailView,
    pub dashboard: DashboardView,
    pub panels: PanelsView,
    pub planning: PlanningView,
    pub session: IdentityView,
    pub turn: TurnView,
    pub pending: PendingView,
    pub tick: u64,
    pub now: u64,
    pub surroundings: SurroundingsView,
    pub effects: Seq<EffectView>,
}

impl View for App {
    type V = AppView;

    open spec fn view(&self) -> AppView {
        AppView {
            config: self.config@,
            mode: self.mode,
            composer: self.composer@,
            chat: self.chat@,
            rail: self.rail@,
            dashboard: self.dashboard@,
            panels: self.panels@,
            planning: self.planning@,
            session: self.session@,
            turn: self.turn@,
            pending: self.pending@,
            tick: self.tick,
            now: self.now,
            surroundings: self.surroundings@,
            effects: effects_view(self.effects@),
        }
    }
}

impl ComposerView {
    /// The cursor is inside the line, and so are the cursors of undo; a
    /// browsing position is one of the history's.
    pub open spec fn wf(self) -> bool {
        &&& self.cursor <= self.input.len()
        &&& self.vim.wf()
        &&& self.history_pos matches Some(i) ==> i < self.history.len()
    }
}

impl RailView {
    /// Selections point at panes that exist.
    pub open spec fn wf(self) -> bool {
        &&& self.rail_focus matches Some(i) ==> i < self.panes.len()
        &&& self.attached matches Some(i) ==> i < self.panes.len()
    }
}

impl AppView {
    /// The state is consistent: the composer and the rail are, an open
    /// interview has a question to answer, and the queue is within its cap.
    pub open spec fn wf(self) -> bool {
        &&& self.composer.wf()
        &&& self.rail.wf()
        &&& self.planning.interview matches Some(i) ==> i.wf()
        &&& self.turn.message_queue.len() <= MESSAGE_QUEUE_CAP
    }
}

} // verus!
