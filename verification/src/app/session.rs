//! The application at start, this session's heartbeat, and the dashboard of
//! every session on the machine.

use crate::app::picker::{StatusLine, StatusView};
use crate::app::rail::pane_of;
use crate::app::state::{
    pairs_view, sessions_view, App, AppView, Chat, ChatView, Composer, ComposerView, Dashboard,
    DashboardView, Effect, EffectView, Identity, IdentityView, InputMode, Panels, PanelsView,
    Pending, PendingView, Planning, PlanningView, Rail, RailView, SessionRecord, SessionState,
    SessionView, Surroundings, SurroundingsView, Turn, TurnView,
};
use crate::app::transcript::{
    open_tool, running_tool, EntryView, PaneStatus, PaneView, TranscriptEntry,
};
use crate::app::vim::{VimState, VimView};
use crate::config::{Config, ConfigView};
use crate::text::{decimal, number, same, texts};
use std::collections::VecDeque;
use vstd::prelude::*;

verus! {

impl ComposerView {
    /// An empty line.
    pub open spec fn fresh(vim: bool) -> ComposerView {
        ComposerView {
            input: Seq::empty(),
            cursor: 0,
            input_mode: InputMode::Chat,
            vim: VimView::fresh(vim),
            suggestions: Seq::empty(),
            suggestion_index: 0,
            custom_commands: Seq::empty(),
            picker: None,
            prompt: None,
            web_key_backend: None,
            pending_images: Seq::empty(),
            history: Seq::empty(),
            history_pos: None,
            history_draft: Seq::empty(),
        }
    }
}

impl Composer {
    /// An empty line.
    pub fn fresh(vim: bool) -> (r: Composer)
        ensures
            r@ == ComposerView::fresh(vim),
    {
        let r = Composer {
            input: String::new(),
            cursor: 0,
            input_mode: InputMode::Chat,
            vim: VimState::fresh(vim),
            suggestions: Vec::new(),
            suggestion_index: 0,
            custom_commands: Vec::new(),
            picker: None,
            prompt: None,
            web_key_backend: None,
            pending_images: Vec::new(),
            history: Vec::new(),
            history_pos: None,
            history_draft: String::new(),
        };
        assert(r@.input =~= Seq::empty());
        assert(r@.suggestions =~= Seq::empty());
        assert(r@.custom_commands =~= Seq::empty());
        assert(r@.pending_images =~= Seq::empty());
        assert(r@.history =~= Seq::empty());
        assert(r@.history_draft =~= Seq::empty());
        r
    }
}

impl ChatView {
    /// Nothing said, following the tail.
    pub open spec fn fresh() -> ChatView {
        ChatView {
            transcript: Seq::empty(),
            streaming: Seq::empty(),
            streaming_thinking: Seq::empty(),
            scroll: 0,
            scroll_follow: true,
            max_scroll: 0,
            selection: None,
            card_hits: Seq::empty(),
            welcome_dismissed: false,
        }
    }
}

impl Chat {
    /// Nothing said, following the tail.
    pub fn fresh() -> (r: Chat)
        ensures
            r@ == ChatView::fresh(),
    {
        let r = Chat {
            transcript: Vec::new(),
            streaming: String::new(),
            streaming_thinking: String::new(),
            scroll: 0,
            scroll_follow: true,
            max_scroll: 0,
            selection: None,
            card_hits: Vec::new(),
            welcome_dismissed: false,
        };
        assert(r@.transcript =~= Seq::empty());
        assert(r@.streaming =~= Seq::empty());
        assert(r@.streaming_thinking =~= Seq::empty());
        assert(r@.card_hits =~= Seq::empty());
        r
    }
}

impl TurnView {
    /// No turn yet, under the settings' model, mode and step budget.
    pub open spec fn fresh(config: ConfigView) -> TurnView {
        TurnView {
            status: StatusView {
                model: config.active().model,
                mode: config.mode,
                step: 0,
                max_steps: config.max_steps,
                busy: false,
                prompt_tokens: 0,
                completion_tokens: 0,
                context_tokens: 0,
                background_tasks: 0,
                background_subagents: 0,
            },
            turn_started: None,
            rebuilding: None,
            spinner_verb: config.verb(0),
            verb_rolls: 0,
            message_queue: Seq::empty(),
            pending_agent_commands: Seq::empty(),
            expansion: None,
            fusion_active: false,
            ultra: None,
        }
    }
}

impl Turn {
    /// No turn yet.
    pub fn fresh(config: &Config) -> (r: Turn)
        ensures
            r@ == TurnView::fresh(config@),
    {
        let r = Turn {
            status: StatusLine {
                model: config.active().model.clone(),
                mode: config.mode,
                step: 0,
                max_steps: config.max_steps,
                busy: false,
                prompt_tokens: 0,
                completion_tokens: 0,
                context_tokens: 0,
                background_tasks: 0,
                background_subagents: 0,
            },
            turn_started: None,
            rebuilding: None,
            spinner_verb: config.spinner_verb(0),
            verb_rolls: 0,
            message_queue: VecDeque::new(),
            pending_agent_commands: Vec::new(),
            expansion: None,
            fusion_active: false,
            ultra: None,
        };
        assert(r@.message_queue =~= Seq::empty());
        assert(r@.pending_agent_commands =~= Seq::empty());
        r
    }
}

/// The arguments that start this program as a background session on `prompt` in
/// the project at `root`.
pub open spec fn background_args(prompt: Seq<char>, root: Seq<char>) -> Seq<Seq<char>> {
    seq!["--bg"@, "--mode"@, "sovereign"@, "-p"@, prompt, "--cwd"@, root]
}

impl AppView {
    /// The application at start.
    pub open spec fn fresh(
        config: ConfigView,
        project_root: Seq<char>,
        surroundings: SurroundingsView,
    ) -> AppView {
        AppView {
            config,
            mode: config.mode,
            composer: ComposerView::fresh(config.vim),
            chat: ChatView::fresh(),
            rail: RailView {
                panes: Seq::empty(),
                rail_focus: None,
                attached: None,
                subagents: false,
            },
            dashboard: DashboardView {
                open: false,
                sessions: Seq::empty(),
                selected: 0,
                input: Seq::empty(),
                peek_lines: Seq::empty(),
            },
            panels: PanelsView {
                show_diff: false,
                diff_text: Seq::empty(),
                diff_scroll: 0,
                show_todos: false,
                todos: Seq::empty(),
                todos_seen: false,
            },
            planning: PlanningView {
                plan_mode: config.plan_first || config.omakase,
                omakase: config.omakase,
                plan_review: None,
                interview: None,
            },
            session: IdentityView {
                id: Seq::empty(),
                name: Seq::empty(),
                started_unix: 0,
                project_root,
            },
            turn: TurnView::fresh(config),
            pending: PendingView {
                should_quit: false,
                ctrl_c_armed: false,
                edit_config: false,
                edit_prompt: false,
                compact: false,
                compacting: false,
                mcp_merge: false,
                mcp_connecting: false,
                btw: None,
                btw_inflight: false,
                provider_health_error: None,
            },
            tick: 0,
            now: 0,
            surroundings,
            effects: Seq::empty(),
        }
    }

    /// The welcome screen is up: nothing was said or submitted, and no turn
    /// runs.
    pub open spec fn welcoming(self) -> bool {
        &&& !self.chat.begun()
        &&& !self.chat.welcome_dismissed
        &&& self.chat.streaming.len() == 0
        &&& !self.turn.status.busy
    }

    /// The next spinner verb.
    pub open spec fn verb_rolled(self) -> AppView {
        let rolls = (self.turn.verb_rolls + 1) % 0x1_0000_0000_0000_0000;
        let seed = (self.tick + rolls) % 0x1_0000_0000_0000_0000;
        self.with_turn(
            TurnView {
                verb_rolls: rolls as u64,
                spinner_verb: self.config.verb(seed as u64),
                ..self.turn
            },
        )
    }

    /// What this session is doing.
    pub open spec fn state(self) -> SessionState {
        if self.planning.plan_review is Some || self.planning.interview is Some {
            SessionState::NeedsInput
        } else if self.turn.status.busy {
            SessionState::Working
        } else {
            SessionState::Idle
        }
    }

    /// What this session is doing, in one line: the newest tool still running
    /// reads best.
    pub open spec fn doing(self) -> Seq<char> {
        if self.planning.plan_review is Some {
            "waiting for plan approval"@
        } else if self.planning.interview is Some {
            "waiting for interview answers"@
        } else if !self.turn.status.busy {
            "idle"@
        } else {
            match running_tool(self.chat.transcript) {
                Some(name) => name,
                None => self.turn.spinner_verb + "…"@,
            }
        }
    }

    /// This session's heartbeat.
    pub open spec fn heartbeat(self) -> SessionView {
        SessionView {
            id: self.session.id,
            name: self.session.name,
            cwd: self.session.project_root,
            model: self.turn.status.model,
            mode: self.mode.label(),
            state: self.state(),
            activity: self.doing(),
            pid: self.surroundings.pid,
            started_unix: self.session.started_unix,
            updated_unix: 0,
        }
    }

    pub open spec fn with_dashboard(self, dashboard: DashboardView) -> AppView {
        AppView { dashboard, ..self }
    }

    /// The selected session is asked to stop; the session one is in is not.
    pub open spec fn session_stopping(self) -> AppView {
        let d = self.dashboard;
        if d.selected >= d.sessions.len() {
            self
        } else {
            let s = d.sessions[d.selected as int];
            if s.id == self.session.id {
                self.noticed("that's this session — use /quit to leave it"@)
            } else {
                self.asking(EffectView::StopSession { id: s.id, name: s.name, pid: s.pid })
            }
        }
    }

    /// A background session was started, or could not be.
    pub open spec fn dispatched(self, prompt: Seq<char>, outcome: Dispatched) -> AppView {
        match outcome {
            Dispatched::Started => self.noticed(
                "dispatched background session: "@ + prompt,
            ).asking(EffectView::RefreshSessions),
            Dispatched::NoBinary(e) => self.noticed(
                "could not locate the wizard binary: "@ + e@,
            ),
            Dispatched::Failed(e) => self.noticed("dispatch failed: "@ + e@),
        }
    }

    /// The selection moved a row.
    pub open spec fn session_moved(self, down: bool) -> AppView {
        let s = self.with_dashboard(self.dashboard.moved(down));
        if self.dashboard.sessions.len() == 0 {
            s
        } else {
            s.asking(EffectView::RefreshPeek)
        }
    }

    /// A run is asked to stop: a background run is killed, a foreground one
    /// ends with the turn that waits for it.
    pub open spec fn killing(self, index: usize) -> AppView {
        if index >= self.rail.panes.len() {
            self
        } else {
            let pane = self.rail.panes[index as int];
            match pane.bg {
                None => self.noticed(
                    "subagent '"@ + pane.name
                        + "' is running in the foreground — Ctrl-C interrupts the turn it is blocking"@,
                ),
                Some(bg) => if self.rail.subagents {
                    self.asking(EffectView::KillSubagent { run: pane.run, bg, name: pane.name })
                } else {
                    self
                },
            }
        }
    }

    /// A background run was killed, or had finished already.
    pub open spec fn killed(self, run: u64, bg: u32, name: Seq<char>, dead: bool) -> AppView {
        if dead {
            self.with_rail(self.rail.killed(run, self.now)).noticed(
                "killed subagent '"@ + name + "' (#"@ + decimal(bg as nat) + ")"@,
            )
        } else {
            self.noticed(
                "subagent '"@ + name + "' (#"@ + decimal(bg as nat) + ") already finished"@,
            )
        }
    }
}

impl RailView {
    /// A run closed out on request.
    pub open spec fn killed(self, run: u64, now: u64) -> RailView {
        match pane_of(self.panes, run) {
            None => self,
            Some(i) => {
                let pane = self.panes[i as int];
                RailView {
                    panes: self.panes.update(
                        i as int,
                        PaneView {
                            status: PaneStatus::Failed,
                            finished: Some(now),
                            transcript: pane.transcript.push(
                                EntryView::Notice("killed on request"@),
                            ),
                            ..pane
                        },
                    ),
                    ..self
                }
            },
        }
    }
}

impl DashboardView {
    /// The selection moved a row, around the ends.
    pub open spec fn moved(self, down: bool) -> DashboardView {
        let n = self.sessions.len();
        DashboardView {
            selected: if n == 0 {
                0
            } else if down {
                if self.selected >= n - 1 {
                    0
                } else {
                    (self.selected + 1) as usize
                }
            } else if self.selected == 0 {
                (n - 1) as usize
            } else {
                (self.selected - 1) as usize
            },
            ..self
        }
    }

    /// The sessions found, the selection kept in range.
    pub open spec fn listed(self, sessions: Seq<SessionView>) -> DashboardView {
        DashboardView {
            selected: if self.selected < sessions.len() {
                self.selected
            } else if sessions.len() == 0 {
                0
            } else {
                (sessions.len() - 1) as usize
            },
            sessions,
            ..self
        }
    }

    /// The selected session's recent transcript; empty without one.
    pub open spec fn peeked(self, lines: Seq<(Seq<char>, Seq<char>)>) -> DashboardView {
        DashboardView {
            peek_lines: if self.selected < self.sessions.len() {
                lines
            } else {
                Seq::empty()
            },
            ..self
        }
    }
}

/// What became of starting a background session.
pub enum Dispatched {
    Started,
    NoBinary(String),
    Failed(String),
}

impl Dashboard {
    fn select(&mut self, down: bool)
        ensures
            final(self)@ == old(self)@.moved(down),
    {
        let n = self.sessions.len();
        assert(self@.sessions.len() == n);
        self.selected = if n == 0 {
            0
        } else if down {
            if self.selected >= n - 1 {
                0
            } else {
                self.selected + 1
            }
        } else if self.selected == 0 {
            n - 1
        } else {
            self.selected - 1
        };
    }
}

impl Rail {
    fn kill(&mut self, run: u64, now: u64)
        requires
            old(self)@.wf(),
        ensures
            final(self)@ == old(self)@.killed(run, now),
            final(self)@.wf(),
    {
        if let Some(i) = self.pane_index(run) {
            let ghost before = self@;
            self.panes[i].status = PaneStatus::Failed;
            self.panes[i].finished = Some(now);
            self.panes[i].transcript.push(
                TranscriptEntry::Notice("killed on request".to_string()),
            );
            assert(self.panes@[i as int]@.transcript =~= before.panes[i as int].transcript.push(
                EntryView::Notice("killed on request"@),
            ));
            assert(self@.panes =~= before.killed(run, now).panes);
        }
    }
}

impl App {
    /// The application at start, for a project and what its surroundings are.
    pub fn new(config: Config, project_root: String, surroundings: Surroundings) -> (r: App)
        ensures
            r@ == AppView::fresh(config@, project_root@, surroundings@),
            r@.wf(),
    {
        let mode = config.mode;
        let omakase = config.omakase;
        let plan_mode = config.plan_first || omakase;
        let composer = Composer::fresh(config.vim);
        let turn = Turn::fresh(&config);
        let rail = Rail { panes: Vec::new(), rail_focus: None, attached: None, subagents: false };
        assert(rail@.panes =~= Seq::empty());
        let dashboard = Dashboard {
            open: false,
            sessions: Vec::new(),
            selected: 0,
            input: String::new(),
            peek_lines: Vec::new(),
        };
        assert(dashboard@.sessions =~= Seq::empty());
        assert(dashboard@.input =~= Seq::empty());
        assert(dashboard@.peek_lines =~= Seq::empty());
        let panels = Panels {
            show_diff: false,
            diff_text: String::new(),
            diff_scroll: 0,
            show_todos: false,
            todos: Vec::new(),
            todos_seen: false,
        };
        assert(panels@.diff_text =~= Seq::empty());
        assert(panels@.todos =~= Seq::empty());
        let session = Identity {
            id: String::new(),
            name: String::new(),
            started_unix: 0,
            project_root,
        };
        assert(session@.id =~= Seq::empty());
        assert(session@.name =~= Seq::empty());
        let effects: Vec<Effect> = Vec::new();
        assert(crate::app::state::effects_view(effects@) =~= Seq::empty());
        App {
            config,
            mode,
            composer,
            chat: Chat::fresh(),
            rail,
            dashboard,
            panels,
            planning: Planning { plan_mode, omakase, plan_review: None, interview: None },
            session,
            turn,
            pending: Pending {
                should_quit: false,
                ctrl_c_armed: false,
                edit_config: false,
                edit_prompt: false,
                compact: false,
                compacting: false,
                mcp_merge: false,
                mcp_connecting: false,
                btw: None,
                btw_inflight: false,
                provider_health_error: None,
            },
            tick: 0,
            now: 0,
            surroundings,
            effects,
        }
    }

    /// True while the home screen should remain up.
    pub fn has_conversation(&self) -> (r: bool)
        ensures
            r == self@.chat.begun(),
    {
        self.chat.has_conversation()
    }

    /// True while the welcome screen should render.
    pub fn welcome_visible(&self) -> (r: bool)
        ensures
            r == self@.welcoming(),
    {
        !self.chat.has_conversation() && !self.chat.welcome_dismissed
            && crate::text::is_empty_text(&self.chat.streaming) && !self.turn.status.busy
    }

    /// Pick a fresh spinner verb for a new busy period.
    pub fn roll_spinner_verb(&mut self)
        requires
            old(self)@.wf(),
        ensures
            final(self)@ == old(self)@.verb_rolled(),
            final(self)@.wf(),
    {
        let rolls = self.turn.verb_rolls.wrapping_add(1);
        let seed = self.tick.wrapping_add(rolls);
        self.turn.verb_rolls = rolls;
        self.turn.spinner_verb = self.config.spinner_verb(seed);
    }

    /// Current state for this session's heartbeat.
    fn session_state(&self) -> (r: SessionState)
        ensures
            r == self@.state(),
    {
        if self.planning.plan_review.is_some() || self.planning.interview.is_some() {
            SessionState::NeedsInput
        } else if self.turn.status.busy {
            SessionState::Working
        } else {
            SessionState::Idle
        }
    }

    /// One-line summary of what this session is doing.
    fn session_activity(&self) -> (r: String)
        ensures
            r@ == self@.doing(),
    {
        if self.planning.plan_review.is_some() {
            return "waiting for plan approval".to_string();
        }
        if self.planning.interview.is_some() {
            return "waiting for interview answers".to_string();
        }
        if !self.turn.status.busy {
            return "idle".to_string();
        }
        if let Some(name) = open_tool(&self.chat.transcript) {
            return name.to_string();
        }
        let mut s = self.turn.spinner_verb.clone();
        s.append("…");
        s
    }

    /// The arguments that start a background session on `prompt` in this
    /// session's project.
    pub fn dispatch_args(&self, prompt: &str) -> (r: Vec<String>)
        ensures
            texts(r@) == background_args(prompt@, self@.session.project_root),
    {
        let mut args: Vec<String> = Vec::new();
        args.push("--bg".to_string());
        args.push("--mode".to_string());
        args.push("sovereign".to_string());
        args.push("-p".to_string());
        args.push(prompt.to_string());
        args.push("--cwd".to_string());
        args.push(self.session.project_root.clone());
        assert(texts(args@) =~= background_args(prompt@, self@.session.project_root));
        args
    }

    /// Build this session's heartbeat record from current state.
    pub fn session_record(&self) -> (r: SessionRecord)
        ensures
            r@ == self@.heartbeat(),
    {
        SessionRecord {
            id: self.session.id.clone(),
            name: self.session.name.clone(),
            cwd: self.session.project_root.clone(),
            model: self.turn.status.model.clone(),
            mode: self.mode.name().to_string(),
            state: self.session_state(),
            activity: self.session_activity(),
            pid: self.surroundings.pid,
            started_unix: self.session.started_unix,
            updated_unix: 0,
        }
    }

    /// Takes the live-session list from the registry, keeping the selection
    /// in range.
    pub fn refresh_sessions(&mut self, sessions: Vec<SessionRecord>)
        requires
            old(self)@.wf(),
        ensures
            final(self)@ == old(self)@.with_dashboard(
                old(self)@.dashboard.listed(sessions_view(sessions@)),
            ),
            final(self)@.wf(),
    {
        let n = sessions.len();
        assert(sessions_view(sessions@).len() == n);
        if self.dashboard.selected >= n {
            self.dashboard.selected = n.saturating_sub(1);
        }
        self.dashboard.sessions = sessions;
    }

    /// Takes the selected session's recent transcript for the peek panel.
    pub fn refresh_peek(&mut self, lines: Vec<(String, String)>)
        requires
            old(self)@.wf(),
        ensures
            final(self)@ == old(self)@.with_dashboard(
                old(self)@.dashboard.peeked(pairs_view(lines@)),
            ),
            final(self)@.wf(),
    {
        assert(self@.dashboard.sessions.len() == self.dashboard.sessions@.len());
        if self.dashboard.selected < self.dashboard.sessions.len() {
            self.dashboard.peek_lines = lines;
        } else {
            self.dashboard.peek_lines = Vec::new();
            assert(self@.dashboard.peek_lines =~= Seq::empty());
        }
    }

    /// The main loop started a background session for `prompt`, or failed to.
    pub fn session_dispatched(&mut self, prompt: &str, outcome: Dispatched)
        requires
            old(self)@.wf(),
        ensures
            final(self)@ == old(self)@.dispatched(prompt@, outcome),
            final(self)@.wf(),
    {
        match outcome {
            Dispatched::Started => {
                let mut m = "dispatched background session: ".to_string();
                m.append(prompt);
                self.notice(m);
                self.ask(Effect::RefreshSessions);
            },
            Dispatched::NoBinary(e) => {
                let mut m = "could not locate the wizard binary: ".to_string();
                m.append(&e);
                self.notice(m);
            },
            Dispatched::Failed(e) => {
                let mut m = "dispatch failed: ".to_string();
                m.append(&e);
                self.notice(m);
            },
        }
    }

    /// Stop the selected background session.  Refuses to stop the session
    /// you're in.
    pub(crate) fn stop_selected_session(&mut self)
        requires
            old(self)@.wf(),
        ensures
            final(self)@ == old(self)@.session_stopping(),
            final(self)@.wf(),
    {
        let i = self.dashboard.selected;
        assert(self@.dashboard.sessions.len() == self.dashboard.sessions@.len());
        if i >= self.dashboard.sessions.len() {
            return ;
        }
        assert(self@.dashboard.sessions[i as int] == self.dashboard.sessions@[i as int]@);
        if same(&self.dashboard.sessions[i].id, &self.session.id) {
            self.notice("that's this session — use /quit to leave it".to_string());
            return ;
        }
        let id = self.dashboard.sessions[i].id.clone();
        let name = self.dashboard.sessions[i].name.clone();
        let pid = self.dashboard.sessions[i].pid;
        self.ask(Effect::StopSession { id, name, pid });
    }

    /// The main loop stopped a session.
    pub fn session_stopped(&mut self, name: &str)
        requires
            old(self)@.wf(),
        ensures
            final(self)@ == old(self)@.noticed("stopped session: "@ + name@).asking(
                EffectView::RefreshSessions,
            ),
            final(self)@.wf(),
    {
        let mut m = "stopped session: ".to_string();
        m.append(name);
        self.notice(m);
        self.ask(Effect::RefreshSessions);
    }

    /// Move the dashboard selection up or down, around the ends.
    pub(crate) fn dashboard_select(&mut self, down: bool)
        requires
            old(self)@.wf(),
        ensures
            final(self)@ == old(self)@.session_moved(down),
            final(self)@.wf(),
    {
        let n = self.dashboard.sessions.len();
        assert(self@.dashboard.sessions.len() == n);
        self.dashboard.select(down);
        if n > 0 {
            self.ask(Effect::RefreshPeek);
        }
    }

    /// Kill the selected run.  Only background runs can be killed.
    pub(crate) fn kill_pane(&mut self, index: usize)
        requires
            old(self)@.wf(),
        ensures
            final(self)@ == old(self)@.killing(index),
            final(self)@.wf(),
    {
        assert(self@.rail.panes.len() == self.rail.panes@.len());
        if index >= self.rail.panes.len() {
            return ;
        }
        assert(self@.rail.panes[index as int] == self.rail.panes@[index as int]@);
        let name = self.rail.panes[index].name.clone();
        let run = self.rail.panes[index].run;
        match self.rail.panes[index].bg {
            None => {
                let mut m = "subagent '".to_string();
                m.append(&name);
                m.append(
                    "' is running in the foreground — Ctrl-C interrupts the turn it is blocking",
                );
                self.notice(m);
            },
            Some(bg) => {
                if self.rail.subagents {
                    self.ask(Effect::KillSubagent { run, bg, name });
                }
            },
        }
    }

    /// The main loop killed a background run, or found it finished.
    pub fn subagent_killed(&mut self, run: u64, bg: u32, name: &str, dead: bool)
        requires
            old(self)@.wf(),
        ensures
            final(self)@ == old(self)@.killed(run, bg, name@, dead),
            final(self)@.wf(),
    {
        if dead {
            let now = self.now;
            self.rail.kill(run, now);
            let mut m = "killed subagent '".to_string();
            m.append(name);
            m.append("' (#");
            m.append(&number(bg as u64));
            m.append(")");
            self.notice(m);
        } else {
            let mut m = "subagent '".to_string();
            m.append(name);
            m.append("' (#");
            m.append(&number(bg as u64));
            m.append(") already finished");
            self.notice(m);
        }
    }
}

} // verus!
