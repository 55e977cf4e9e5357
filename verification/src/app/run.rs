//! Running a slash command.

use crate::app::command::{
    candidate_item, candidate_items, count_finished, drop_named, effort_items, effort_text,
    finished, help, help_text, mode_items, provider_lines, show_providers, show_tasks, show_usage,
    task_lines, usage_text, without,
};
use crate::app::picker::{
    add_item, find_current, first_current, items_view, ItemView, Picker, PickerItem, PickerKind,
    PickerView, StatusLine, StatusView,
};
use crate::app::state::{
    App, AppView, Chat, ChatView, ComposerView, Dashboard, DashboardView, Effect, EffectView,
    Panels, PanelsView, Pending, PendingView, Planning, PlanningView, Turn, TurnView,
};
use crate::app::tasks::{
    facts_opt, task_opt, AgentFacts, CandidateView, FactsView, Task, TaskView,
};
use crate::commands::{
    CommandView, FusionAction, ImportSelection, ProviderAction, ProviderActionView, ServerAction,
    SlashCommand, UltraAction, UltraActionView,
};
use crate::config::{
    find_provider, provider_named, Config, ConfigView, Mode, ProviderConfig, ProviderKind,
    ProviderView, ReasoningEffort, StepBudget,
};
use crate::json::text_opt;
use crate::text::{is_empty_text, number, decimal, same, trim, trim_end, trimmed};
use vstd::prelude::*;

verus! {

impl AppView {
    /// Why the agent cannot be touched right now, if it cannot.
    pub open spec fn unavailable(self, action: Seq<char>) -> Option<Seq<char>> {
        if self.turn.status.busy {
            Some("cannot "@ + action + " while a turn is running"@)
        } else if self.turn.rebuilding is Some {
            Some("cannot "@ + action + " while the agent is rebuilding"@)
        } else {
            None
        }
    }

    /// `outcome`, unless the agent cannot be touched right now.
    pub open spec fn guarded(
        self,
        action: Seq<char>,
        outcome: (AppView, Option<TaskView>),
    ) -> (AppView, Option<TaskView>) {
        match self.unavailable(action) {
            Some(why) => (self.noticed(why), None),
            None => outcome,
        }
    }

    /// What is said when the agent is out of its slot.
    pub open spec fn slot_empty(self) -> (AppView, Option<TaskView>) {
        (self.noticed("the agent is busy — try again in a moment"@), None)
    }

    /// `/diff`.
    #[verifier::opaque]
    pub open spec fn diff_toggled(self) -> (AppView, Option<TaskView>) {
        if self.panels.show_diff {
            (self.with_panels(PanelsView { show_diff: false, ..self.panels }), None)
        } else {
            (
                self.with_panels(PanelsView { show_diff: true, diff_scroll: 0, ..self.panels }),
                Some(TaskView::ReadDiff),
            )
        }
    }

    /// `/todos`.
    #[verifier::opaque]
    pub open spec fn todos_toggled(self) -> AppView {
        let on = !self.panels.show_todos;
        let s = self.with_panels(PanelsView { show_todos: on, ..self.panels });
        if on && self.panels.todos.len() == 0 {
            s.noticed("todo list is empty — the agent fills it via the `todo` tool"@)
        } else {
            s
        }
    }

    /// `/dashboard`.
    #[verifier::opaque]
    pub open spec fn dashboard_toggled(self) -> AppView {
        let on = !self.dashboard.open;
        let s = self.with_dashboard(DashboardView { open: on, ..self.dashboard });
        if on {
            s.asking(EffectView::RefreshSessions).asking(EffectView::RefreshPeek)
        } else {
            s
        }
    }

    /// `/subagents`.
    #[verifier::opaque]
    pub open spec fn subagents_toggled(self) -> AppView {
        if self.rail.attached is Some {
            self.with_rail(self.rail.left(self.now))
        } else if self.rail.panes.len() > 0 {
            self.with_rail(self.rail.focused())
        } else {
            self.noticed("no subagents yet — the agent spawns them with `spawn_subagent`"@)
        }
    }

    /// What `/status` says of the model and provider.
    pub open spec fn status_head(self) -> Seq<char> {
        let p = self.config.active();
        "model: "@ + self.turn.status.model + "\nprovider: "@ + p.name + " ("@ + p.kind.variant()
            + " @ "@ + p.base_url + ")\nmode: "@ + self.mode.label() + "\neffort: "@ + effort_text(
            self.config.reasoning_effort,
        )
    }

    /// What `/status` says of the session.
    pub open spec fn status_session(self, facts: Option<FactsView>) -> Seq<char> {
        match facts {
            Some(f) => "\nsession: "@ + f.session_id + "\nusage: "@ + usage_text(
                f.prompt_tokens,
                f.completion_tokens,
            ) + "\nbackground tasks: "@ + decimal(f.running_tasks as nat) + " running"@,
            None => "\nsession: (turn running)\nusage: "@ + usage_text(
                self.turn.status.prompt_tokens,
                self.turn.status.completion_tokens,
            ),
        }
    }

    /// What `/status` says of the todo list.
    pub open spec fn status_todos(self) -> Seq<char> {
        if self.panels.todos.len() > 0 {
            "\ntodos: "@ + decimal(finished(self.panels.todos)) + "/"@ + decimal(
                self.panels.todos.len(),
            ) + " done"@
        } else {
            "\ntodos: none"@
        }
    }

    /// What `/status` says of the modes.
    pub open spec fn status_modes(self) -> Seq<char> {
        "\nplan mode: "@ + (if self.planning.omakase {
            "on (omakase — chef's choice)"@
        } else if self.planning.plan_mode {
            "on"@
        } else {
            "off"@
        }) + "\nultra: "@ + (match self.turn.ultra {
            Some(label) => label,
            None => "off"@,
        })
    }

    /// `/status`.
    #[verifier::opaque]
    pub open spec fn status_told(self, facts: Option<FactsView>) -> AppView {
        self.noticed(
            self.status_head() + self.status_session(facts) + self.status_todos()
                + self.status_modes(),
        )
    }

    /// `/bashes`.
    #[verifier::opaque]
    pub open spec fn bashes_told(self, facts: Option<FactsView>) -> AppView {
        self.noticed(
            match facts {
                None => "background tasks: unavailable while a turn is running"@,
                Some(f) => if f.tasks.len() == 0 {
                    "background tasks: none"@
                } else {
                    trim_end(task_lines(f.tasks))
                },
            },
        )
    }

    /// The conversation gone, with the prompts that waited behind it.
    #[verifier::opaque]
    pub open spec fn conversation_cleared(self, context_tokens: u64) -> AppView {
        let s = self.with_chat(
            ChatView { transcript: Seq::empty(), ..self.chat }.unstreamed(),
        ).with_turn(
            TurnView {
                message_queue: Seq::empty(),
                status: StatusView {
                    prompt_tokens: 0,
                    completion_tokens: 0,
                    context_tokens,
                    ..self.turn.status
                },
                ..self.turn
            },
        );
        s.at_tail().noticed("conversation cleared"@)
    }

    /// `/clear`.
    #[verifier::opaque]
    pub open spec fn clear_run(self, slot: bool) -> (AppView, Option<TaskView>) {
        self.guarded(
            "clear"@,
            if slot {
                (self, Some(TaskView::ClearSession))
            } else {
                (self.conversation_cleared(0), None)
            },
        )
    }

    /// A menu opened on its row in effect.
    pub open spec fn choosing_current(
        self,
        kind: PickerKind,
        title: Seq<char>,
        items: Seq<ItemView>,
    ) -> AppView {
        self.with_composer(
            ComposerView {
                picker: Some(
                    PickerView { kind, title, items, selected: first_current(items) as usize },
                ),
                ..self.composer
            },
        )
    }

    /// `/model <tag>`.
    #[verifier::opaque]
    pub open spec fn model_run(self, tag: Seq<char>) -> (AppView, Option<TaskView>) {
        self.guarded(
            "switch models"@,
            (
                self.with_turn(
                    TurnView { rebuilding: Some("switching to "@ + tag), ..self.turn },
                ),
                Some(TaskView::SwitchModel(tag)),
            ),
        )
    }

    /// `/mode`.
    #[verifier::opaque]
    pub open spec fn mode_menu(self) -> AppView {
        self.guarded(
            "switch modes"@,
            (
                self.choosing_current(PickerKind::Mode, " select mode "@, mode_items(self.mode)),
                None,
            ),
        ).0
    }

    /// The mode set everywhere it is kept; the step budget follows it.
    #[verifier::opaque]
    pub open spec fn with_mode(self, mode: Mode, genie: StepBudget) -> AppView {
        let budget = match mode {
            Mode::Sovereign => self.config.max_steps.in_mode(Mode::Sovereign),
            Mode::Genie => genie,
        };
        AppView {
            mode,
            config: ConfigView { mode, max_steps: budget, ..self.config },
            turn: TurnView {
                status: StatusView { mode, max_steps: budget, ..self.turn.status },
                ..self.turn
            },
            ..self
        }
    }

    /// `/mode <mode>`.
    #[verifier::opaque]
    pub open spec fn mode_run(self, mode: Mode, genie: StepBudget, slot: bool) -> (
        AppView,
        Option<TaskView>,
    ) {
        self.guarded(
            "switch modes"@,
            (
                self.with_mode(mode, genie).saving(
                    "config"@,
                    Some("switched to "@ + mode.label() + " mode"@),
                    true,
                ),
                if slot {
                    Some(TaskView::SetMode(mode))
                } else {
                    None
                },
            ),
        )
    }

    /// `/effort`.
    #[verifier::opaque]
    pub open spec fn effort_menu(self) -> AppView {
        self.guarded(
            "change effort"@,
            (
                self.choosing_current(
                    PickerKind::Effort,
                    " reasoning effort "@,
                    effort_items(self.config.reasoning_effort),
                ),
                None,
            ),
        ).0
    }

    /// `/effort <level>`.
    #[verifier::opaque]
    pub open spec fn effort_run(self, effort: Option<ReasoningEffort>, slot: bool) -> (
        AppView,
        Option<TaskView>,
    ) {
        self.guarded(
            "change effort"@,
            (
                self.with_config(ConfigView { reasoning_effort: effort, ..self.config }).saving(
                    "config"@,
                    Some(
                        match effort {
                            Some(e) => "reasoning effort: "@ + e.label(),
                            None => "reasoning effort: provider default"@,
                        },
                    ),
                    true,
                ),
                if slot {
                    Some(TaskView::SetEffort(effort))
                } else {
                    None
                },
            ),
        )
    }

    /// `/plan`.
    #[verifier::opaque]
    pub open spec fn plan_run(self, slot: bool) -> (AppView, Option<TaskView>) {
        let on = !self.planning.plan_mode;
        self.guarded(
            "toggle plan mode"@,
            (
                self.with_planning(
                    PlanningView {
                        plan_mode: on,
                        omakase: self.planning.omakase && on,
                        ..self.planning
                    },
                ).noticed(
                    if on {
                        "plan mode on — the agent investigates read-only and presents a plan via exit_plan for approval (/plan or Shift+Tab to leave)"@
                    } else {
                        "plan mode off"@
                    },
                ),
                if slot {
                    Some(TaskView::SetPlanMode(on))
                } else {
                    None
                },
            ),
        )
    }

    /// `/omakase`.
    #[verifier::opaque]
    pub open spec fn omakase_run(self, slot: bool) -> (AppView, Option<TaskView>) {
        let on = !self.planning.omakase;
        self.guarded(
            "toggle omakase"@,
            (
                self.with_planning(
                    PlanningView {
                        omakase: on,
                        plan_mode: self.planning.plan_mode || on,
                        ..self.planning
                    },
                ).noticed(
                    if on {
                        "omakase on — chef's choice: the agent explores read-only, decides the approach itself, and executes its own plan (/omakase to leave)"@
                    } else {
                        "omakase off — back to plan mode (you review the plan)"@
                    },
                ),
                if slot {
                    Some(TaskView::SetOmakase(on))
                } else {
                    None
                },
            ),
        )
    }

    /// `/rewind`.
    #[verifier::opaque]
    pub open spec fn rewind_menu(self, facts: Option<FactsView>) -> AppView {
        self.guarded(
            "rewind"@,
            match facts {
                None => self.slot_empty(),
                Some(f) => if f.candidates.len() == 0 {
                    (self.noticed("nothing to rewind yet"@), None)
                } else {
                    (
                        self.choosing(
                            PickerKind::Rewind,
                            " rewind to before turn "@,
                            f.candidates.map_values(|c: CandidateView| candidate_item(c)),
                        ),
                        None,
                    )
                },
            },
        ).0
    }

    /// `/rewind <turn>`.
    #[verifier::opaque]
    pub open spec fn rewind_run(self, turn: u64, slot: bool) -> (AppView, Option<TaskView>) {
        self.guarded(
            "rewind"@,
            if slot {
                (self, Some(TaskView::Rewind(turn)))
            } else {
                self.slot_empty()
            },
        )
    }

    /// `/resume <id>`.
    #[verifier::opaque]
    pub open spec fn resume_run(self, id: Seq<char>, slot: bool) -> (AppView, Option<TaskView>) {
        if id == self.session.id {
            (self.noticed("already in this session"@), None)
        } else {
            self.guarded(
                "resume a session"@,
                if slot {
                    (self, Some(TaskView::Resume(id)))
                } else {
                    self.slot_empty()
                },
            )
        }
    }

    /// `/compact`.
    #[verifier::opaque]
    pub open spec fn compact_run(self, slot: bool) -> AppView {
        self.guarded(
            "compact"@,
            if self.pending.compacting {
                (self.noticed("already compacting"@), None)
            } else if !slot {
                self.slot_empty()
            } else {
                (self.with_pending(PendingView { compact: true, ..self.pending }), None)
            },
        ).0
    }

    /// `/btw <question>`; a running turn is no hindrance.
    #[verifier::opaque]
    pub open spec fn btw_run(self, question: Seq<char>) -> AppView {
        if self.turn.rebuilding is Some {
            self.noticed("cannot ask a side question while the agent is rebuilding"@)
        } else if self.pending.btw is Some || self.pending.btw_inflight {
            self.noticed("already answering a /btw — wait for it to finish"@)
        } else {
            self.noticed("answering /btw…"@).with_pending(
                PendingView { btw: Some(question), ..self.pending },
            )
        }
    }

    /// `/fusion`: off again, or on unless it would multiply with ultra.
    #[verifier::opaque]
    pub open spec fn fusion_run(self) -> (AppView, Option<TaskView>) {
        self.guarded(
            "toggle fusion"@,
            if self.turn.fusion_active {
                (
                    self.with_turn(TurnView { fusion_active: false, ..self.turn }),
                    Some(
                        TaskView::RebuildProvider {
                            summary: "fusion off — back to the single model"@,
                        },
                    ),
                )
            } else if self.turn.ultra is Some {
                (
                    self.noticed(
                        "fusion cannot run under ultra — each of ultra's candidates would re-run the whole panel; /ultra to turn ultra off first"@,
                    ),
                    None,
                )
            } else {
                match self.config.panel() {
                    Some(f) => (self, Some(TaskView::BuildFusion(f))),
                    None => (
                        self.noticed(
                            "fusion needs at least one configured provider — add one with /provider, then /fusion config"@,
                        ),
                        None,
                    ),
                }
            },
        )
    }

    /// `/ultra`: off again, or on unless it would multiply with fusion.
    #[verifier::opaque]
    pub open spec fn ultra_run(self, slot: bool) -> (AppView, Option<TaskView>) {
        self.guarded(
            "toggle ultra"@,
            if self.turn.ultra is Some {
                (
                    self.with_turn(TurnView { ultra: None, ..self.turn }).noticed(
                        "ultra off — one agent per turn again, no pre-phase"@,
                    ),
                    if slot {
                        Some(TaskView::StopUltra)
                    } else {
                        None
                    },
                )
            } else if self.turn.fusion_active {
                (
                    self.noticed(
                        "ultra cannot run on top of fusion — every candidate would re-run the whole panel; /fusion to turn fusion off first"@,
                    ),
                    None,
                )
            } else {
                (self, Some(TaskView::BuildUltra))
            },
        )
    }

    /// `/provider list`.
    #[verifier::opaque]
    pub open spec fn providers_told(self) -> AppView {
        let p = self.config.active();
        self.noticed(
            if self.config.providers.len() == 0 {
                "no providers configured — using the default: "@ + p.name + " ("@ + p.kind.label()
                    + ") "@ + p.model + " @ "@ + p.base_url
                    + "\nadd one with /provider (interactive)"@
            } else {
                provider_lines(self.config.providers, p.name) + "\n(* = active)"@
            },
        )
    }

    /// `/provider use <name>`.
    #[verifier::opaque]
    pub open spec fn provider_used(self, name: Seq<char>) -> (AppView, Option<TaskView>) {
        self.guarded(
            "switch providers"@,
            if provider_named(self.config.providers, name) is None {
                (
                    self.noticed("no provider named '"@ + name + "' — try /provider list"@),
                    None,
                )
            } else {
                (
                    self.with_config(
                        ConfigView { active_provider: Some(name), ..self.config },
                    ).saving("config"@, None, false),
                    Some(
                        TaskView::RebuildProvider {
                            summary: "switched to provider '"@ + name + "'"@,
                        },
                    ),
                )
            },
        )
    }

    /// A provider added, in place of one with its name, and switched to.
    #[verifier::opaque]
    pub open spec fn with_provider(self, p: ProviderView) -> AppView {
        self.with_config(
            ConfigView {
                providers: without(self.config.providers, p.name).push(p),
                active_provider: Some(p.name),
                ..self.config
            },
        ).saving("config"@, None, false)
    }

    /// `/provider add`.
    #[verifier::opaque]
    pub open spec fn provider_added(self, p: ProviderView) -> (AppView, Option<TaskView>) {
        self.guarded(
            "add a provider"@,
            (
                self.with_provider(p),
                Some(
                    TaskView::RebuildProvider {
                        summary: "added and switched to provider '"@ + p.name + "'"@ + (
                        match p.api_key_env {
                            Some(env) => " — remember to `export "@ + env
                                + "=<key>` for this provider"@,
                            None => ""@,
                        }),
                    },
                ),
            ),
        )
    }

    /// An interactive provider setup is complete: its key is stored, then the
    /// provider is added.
    #[verifier::opaque]
    pub open spec fn provider_set_up(self, p: ProviderView, key: Option<Seq<char>>) -> (
        AppView,
        Option<TaskView>,
    ) {
        let keyed = if key is Some && (key->0).len() > 0 {
            self.asking(EffectView::StoreProviderKey { name: p.name, key: key->0 })
        } else {
            self
        };
        self.guarded(
            "add a provider"@,
            (
                keyed.with_provider(p),
                Some(
                    TaskView::RebuildProvider {
                        summary: "added and switched to provider '"@ + p.name + "'"@,
                    },
                ),
            ),
        )
    }

    /// `/provider remove <name>`; the one in use stays.
    #[verifier::opaque]
    pub open spec fn provider_removed(self, name: Seq<char>) -> AppView {
        let rest = without(self.config.providers, name);
        if self.config.active().name == name {
            self.noticed(
                "'"@ + name + "' is the active provider — switch with /provider use <other> first"@,
            )
        } else if rest.len() == self.config.providers.len() {
            self.noticed("no provider named '"@ + name + "'"@)
        } else {
            self.with_config(ConfigView { providers: rest, ..self.config }).saving(
                "config"@,
                Some("removed provider '"@ + name + "'"@),
                true,
            )
        }
    }

    /// `/server`.
    #[verifier::opaque]
    pub open spec fn server_run(self, action: ServerAction) -> (AppView, Option<TaskView>) {
        let p = self.config.active();
        if action == ServerAction::Stop {
            (self, Some(TaskView::StopServer))
        } else if p.kind != ProviderKind::LlamaCpp {
            (
                self.noticed(
                    "the active provider '"@ + p.name + "' is "@ + p.kind.label()
                        + " — /server only manages a local llama.cpp server"@,
                ),
                None,
            )
        } else if action == ServerAction::Status {
            (self, Some(TaskView::ProbeServer))
        } else {
            (self, Some(TaskView::ProbeBeforeStart))
        }
    }

    /// `/login <provider>`.
    #[verifier::opaque]
    pub open spec fn login_run(self, provider: Seq<char>) -> (AppView, Option<TaskView>) {
        if provider == "xai"@ {
            (
                self.noticed("starting the xAI sign-in; your browser should open shortly"@),
                Some(TaskView::Login),
            )
        } else {
            (
                self.noticed(
                    "unknown login provider '"@ + provider + "' (supported: xai)"@,
                ),
                None,
            )
        }
    }

    /// `/evolve`.
    #[verifier::opaque]
    pub open spec fn evolve_run(self, deep: bool, description: Seq<char>) -> (
        AppView,
        Option<TaskView>,
    ) {
        (
            self.noticed(
                "evolving ("@ + (if deep {
                    "deep"@
                } else {
                    "runtime"@
                }) + "): "@ + description,
            ),
            Some(TaskView::Evolve { deep, description }),
        )
    }

    /// `/publish`.
    #[verifier::opaque]
    pub open spec fn publish_run(self, branch: Option<Seq<char>>) -> (AppView, Option<TaskView>) {
        (
            self.noticed(
                "publishing Wizard"@ + (match branch {
                    Some(b) => " (branch: "@ + b + ")"@,
                    None => ""@,
                }) + "…"@,
            ),
            Some(TaskView::Publish { branch }),
        )
    }

    /// `/goal <text>`.
    #[verifier::opaque]
    pub open spec fn goal_run(self, text: Seq<char>) -> (AppView, Option<TaskView>) {
        let goal = trim(text);
        if goal.len() == 0 {
            (self.noticed("usage: /goal <text>"@), None)
        } else {
            (self, Some(TaskView::SetGoal(goal)))
        }
    }

    /// `/model`.
    #[verifier::opaque]
    pub open spec fn models_run(self) -> (AppView, Option<TaskView>) {
        self.guarded("switch models"@, (self, Some(TaskView::ListModels)))
    }

    /// `/reload`.
    #[verifier::opaque]
    pub open spec fn reload_run(self) -> (AppView, Option<TaskView>) {
        self.guarded("reload"@, (self, Some(TaskView::Reload)))
    }

    /// The chosen import from another agent.
    #[verifier::opaque]
    pub open spec fn import_run(self, selection: ImportSelection) -> (AppView, Option<TaskView>) {
        self.guarded(
            "import from "@ + self.surroundings.peer.name,
            (self, Some(TaskView::Import(selection))),
        )
    }

    /// `/provider`.
    #[verifier::opaque]
    pub open spec fn provider_run(self, action: ProviderActionView) -> (
        AppView,
        Option<TaskView>,
    ) {
        match action {
            ProviderActionView::Menu => (self.providers_open(), None),
            ProviderActionView::List => (self.providers_told(), None),
            ProviderActionView::Use(name) => self.provider_used(name),
            ProviderActionView::Add { name, kind, base_url, model, api_key_env } =>
                self.provider_added(ProviderView { name, kind, base_url, model, api_key_env }),
            ProviderActionView::Remove(name) => (self.provider_removed(name), None),
        }
    }

    /// A command about providers, models or the roster.
    #[verifier::opaque]
    pub open spec fn provider_command(self, c: CommandView, slot: bool) -> (
        AppView,
        Option<TaskView>,
    ) {
        match c {
            CommandView::Provider(action) => self.provider_run(action),
            CommandView::ProviderSetup { name, kind, base_url, model, api_key } =>
                self.provider_set_up(
                ProviderView { name, kind, base_url, model, api_key_env: None },
                api_key,
            ),
            CommandView::Fusion(FusionAction::Toggle) => self.fusion_run(),
            CommandView::Fusion(FusionAction::Config) => (self.fusion_open(), None),
            CommandView::Ultra(UltraActionView::Toggle) => self.ultra_run(slot),
            CommandView::Ultra(UltraActionView::Config) => (self, Some(TaskView::ListLenses)),
            CommandView::Ultra(UltraActionView::Apply(u)) => (self, Some(TaskView::CheckUltra(u))),
            CommandView::Server(action) => self.server_run(action),
            CommandView::Login(provider) => self.login_run(provider),
            _ => (self, None),
        }
    }

    /// A command about the agent and its session.
    #[verifier::opaque]
    pub open spec fn agent_command(
        self,
        c: CommandView,
        facts: Option<FactsView>,
        genie: StepBudget,
    ) -> (AppView, Option<TaskView>) {
        let slot = facts is Some;
        match c {
            CommandView::Clear => self.clear_run(slot),
            CommandView::Model(None) => self.models_run(),
            CommandView::Model(Some(tag)) => self.model_run(tag),
            CommandView::Mode(None) => (self.mode_menu(), None),
            CommandView::Mode(Some(mode)) => self.mode_run(mode, genie, slot),
            CommandView::Effort(None) => (self.effort_menu(), None),
            CommandView::Effort(Some(e)) => self.effort_run(e, slot),
            CommandView::Plan => self.plan_run(slot),
            CommandView::Omakase => self.omakase_run(slot),
            CommandView::Rewind(None) => (self.rewind_menu(facts), None),
            CommandView::Rewind(Some(turn)) => self.rewind_run(turn, slot),
            CommandView::Resume(None) => (self, Some(TaskView::ListSessions)),
            CommandView::Resume(Some(id)) => self.resume_run(id, slot),
            CommandView::Compact => (self.compact_run(slot), None),
            CommandView::Reload => self.reload_run(),
            CommandView::ImportClaude(selection) => self.import_run(selection),
            _ => self.provider_command(c, slot),
        }
    }

    /// A command that asks or tells something.
    #[verifier::opaque]
    pub open spec fn report_command(
        self,
        c: CommandView,
        facts: Option<FactsView>,
        genie: StepBudget,
    ) -> (AppView, Option<TaskView>) {
        match c {
            CommandView::Cost => (self, Some(TaskView::EstimateCost)),
            CommandView::Memory(action) => (self, Some(TaskView::Memory(action))),
            CommandView::Doctor => (self, Some(TaskView::Doctor)),
            CommandView::Status => (self.status_told(facts), None),
            CommandView::Bashes => (self.bashes_told(facts), None),
            CommandView::Goal(None) => (self, Some(TaskView::ReadGoal)),
            CommandView::Goal(Some(text)) => self.goal_run(text),
            CommandView::Btw(question) => (self.btw_run(question), None),
            CommandView::Agents => (self, Some(TaskView::ListAgents)),
            CommandView::Evolve { deep, description } => self.evolve_run(deep, description),
            CommandView::Publish { branch } => self.publish_run(branch),
            _ => self.agent_command(c, facts, genie),
        }
    }

    /// A slash command: what it changes at once, and the work it leaves to the
    /// main loop.  `facts` says what the agent in its slot knows, `genie` the
    /// step budget of the interactive mode.
    #[verifier::opaque]
    pub open spec fn command(self, c: CommandView, facts: Option<FactsView>, genie: StepBudget) -> (
        AppView,
        Option<TaskView>,
    ) {
        match c {
            CommandView::Help => (self.noticed(help_text()), None),
            CommandView::Quit => (self.quitting(), None),
            CommandView::Diff => self.diff_toggled(),
            CommandView::Todos => (self.todos_toggled(), None),
            CommandView::Dashboard => (self.dashboard_toggled(), None),
            CommandView::Subagents => (self.subagents_toggled(), None),
            CommandView::Settings => (self.settings_open(), None),
            CommandView::Vim => (self.vim_toggled(), None),
            _ => self.report_command(c, facts, genie),
        }
    }

    /// `/quit`.
    #[verifier::opaque]
    pub open spec fn quitting(self) -> AppView {
        self.with_pending(PendingView { should_quit: true, ..self.pending })
    }
}

impl Panels {
    fn show_diff(&mut self, on: bool)
        ensures
            final(self)@ == (PanelsView {
                show_diff: on,
                diff_scroll: if on {
                    0
                } else {
                    old(self)@.diff_scroll
                },
                ..old(self)@
            }),
    {
        self.show_diff = on;
        if on {
            self.diff_scroll = 0;
        }
    }

    fn show_todos(&mut self, on: bool)
        ensures
            final(self)@ == (PanelsView { show_todos: on, ..old(self)@ }),
    {
        self.show_todos = on;
    }
}

impl Dashboard {
    fn show(&mut self, on: bool)
        ensures
            final(self)@ == (DashboardView { open: on, ..old(self)@ }),
    {
        self.open = on;
    }
}

impl Chat {
    fn wipe(&mut self)
        ensures
            final(self)@ == (ChatView { transcript: Seq::empty(), ..old(self)@ }).unstreamed(),
    {
        self.transcript = Vec::new();
        assert(self@.transcript =~= Seq::empty());
        self.clear_streaming();
    }
}

impl Turn {
    fn wipe(&mut self, context_tokens: u64)
        ensures
            final(self)@ == (TurnView {
                message_queue: Seq::empty(),
                status: StatusView {
                    prompt_tokens: 0,
                    completion_tokens: 0,
                    context_tokens,
                    ..old(self)@.status
                },
                ..old(self)@
            }),
    {
        self.message_queue = std::collections::VecDeque::new();
        assert(self@.message_queue =~= Seq::empty());
        self.status.prompt_tokens = 0;
        self.status.completion_tokens = 0;
        self.status.context_tokens = context_tokens;
    }

    pub(crate) fn set_fusion(&mut self, on: bool)
        ensures
            final(self)@ == (TurnView { fusion_active: on, ..old(self)@ }),
    {
        self.fusion_active = on;
    }

    pub(crate) fn set_ultra(&mut self, label: Option<String>)
        ensures
            final(self)@ == (TurnView { ultra: text_opt(label), ..old(self)@ }),
    {
        self.ultra = label;
    }
}

impl StatusLine {
    fn set_mode(&mut self, mode: Mode, budget: StepBudget)
        ensures
            final(self)@ == (StatusView { mode, max_steps: budget, ..old(self)@ }),
    {
        self.mode = mode;
        self.max_steps = budget;
    }
}

impl Config {
    fn set_mode(&mut self, mode: Mode, budget: StepBudget)
        ensures
            final(self)@ == (ConfigView { mode, max_steps: budget, ..old(self)@ }),
    {
        self.mode = mode;
        self.max_steps = budget;
    }

    fn add_provider(&mut self, provider: ProviderConfig)
        ensures
            final(self)@ == (ConfigView {
                providers: without(old(self)@.providers, provider@.name).push(provider@),
                active_provider: Some(provider@.name),
                ..old(self)@
            }),
    {
        let name = provider.name.clone();
        let mut rest = drop_named(&self.providers, &name);
        let ghost before = rest@;
        rest.push(provider);
        assert(crate::config::providers_view(rest@) =~= crate::config::providers_view(before).push(
            provider@,
        ));
        self.providers = rest;
        self.active_provider = Some(name);
    }
}

impl Planning {
    fn set(&mut self, plan_mode: bool, omakase: bool)
        ensures
            final(self)@ == (PlanningView { plan_mode, omakase, ..old(self)@ }),
    {
        self.plan_mode = plan_mode;
        self.omakase = omakase;
    }
}

impl Pending {
    fn quit(&mut self)
        ensures
            final(self)@ == (PendingView { should_quit: true, ..old(self)@ }),
    {
        self.should_quit = true;
    }

    fn want_compaction(&mut self)
        ensures
            final(self)@ == (PendingView { compact: true, ..old(self)@ }),
    {
        self.compact = true;
    }

    fn want_answer(&mut self, question: String)
        ensures
            final(self)@ == (PendingView { btw: Some(question@), ..old(self)@ }),
    {
        self.btw = Some(question);
    }
}

impl Config {
    fn set_effort(&mut self, effort: Option<ReasoningEffort>)
        ensures
            final(self)@ == (ConfigView { reasoning_effort: effort, ..old(self)@ }),
    {
        self.reasoning_effort = effort;
    }
}

impl App {
    /// True (with a notice) when the agent cannot be touched right now: a turn
    /// is running or a rebuild is in flight.
    fn agent_unavailable(&mut self, action: &str) -> (r: bool)
        requires
            old(self)@.wf(),
        ensures
            match old(self)@.unavailable(action@) {
                Some(why) => r && final(self)@ == old(self)@.noticed(why),
                None => !r && final(self)@ == old(self)@,
            },
            final(self)@.wf(),
    {
        let why = if self.turn.status.busy {
            " while a turn is running"
        } else if self.turn.rebuilding.is_some() {
            " while the agent is rebuilding"
        } else {
            return false;
        };
        let mut m = "cannot ".to_string();
        m.append(action);
        m.append(why);
        self.notice(m);
        true
    }

    fn tell_slot_empty(&mut self) -> (r: Option<Task>)
        requires
            old(self)@.wf(),
        ensures
            (final(self)@, task_opt(r)) == old(self)@.slot_empty(),
            final(self)@.wf(),
    {
        self.notice("the agent is busy — try again in a moment".to_string());
        None
    }

    /// `/diff`.
    fn toggle_diff(&mut self) -> (r: Option<Task>)
        requires
            old(self)@.wf(),
        ensures
            (final(self)@, task_opt(r)) == old(self)@.diff_toggled(),
            final(self)@.wf(),
    {
        proof {
            reveal(AppView::diff_toggled);
        }
        if self.panels.show_diff {
            self.panels.show_diff(false);
            None
        } else {
            self.panels.show_diff(true);
            Some(Task::ReadDiff)
        }
    }

    /// `/todos`: toggle the compact todo band above the composer.
    fn toggle_todos(&mut self)
        requires
            old(self)@.wf(),
        ensures
            final(self)@ == old(self)@.todos_toggled(),
            final(self)@.wf(),
    {
        proof {
            reveal(AppView::todos_toggled);
        }
        assert(self@.panels.todos.len() == self.panels.todos@.len());
        let on = !self.panels.show_todos;
        self.panels.show_todos(on);
        if on && self.panels.todos.len() == 0 {
            self.notice(
                "todo list is empty — the agent fills it via the `todo` tool".to_string(),
            );
        }
    }

    /// `/dashboard`: toggle the machine-wide session manager.
    fn toggle_dashboard(&mut self)
        requires
            old(self)@.wf(),
        ensures
            final(self)@ == old(self)@.dashboard_toggled(),
            final(self)@.wf(),
    {
        proof {
            reveal(AppView::dashboard_toggled);
        }
        let on = !self.dashboard.open;
        self.dashboard.show(on);
        if on {
            self.ask(Effect::RefreshSessions);
            self.ask(Effect::RefreshPeek);
        }
    }

    /// `/subagents`: jump to the rail.
    fn toggle_subagents(&mut self)
        requires
            old(self)@.wf(),
        ensures
            final(self)@ == old(self)@.subagents_toggled(),
            final(self)@.wf(),
    {
        proof {
            reveal(AppView::subagents_toggled);
        }
        assert(self@.rail.panes.len() == self.rail.panes@.len());
        if self.rail.attached.is_some() {
            let now = self.now;
            self.rail.detach_pane(now);
        } else if self.rail.panes.len() > 0 {
            self.rail.focus_rail();
        } else {
            self.notice(
                "no subagents yet — the agent spawns them with `spawn_subagent`".to_string(),
            );
        }
    }

    fn status_head(&self) -> (r: String)
        ensures
            r@ == self@.status_head(),
    {
        let p = self.config.active();
        let mut s = "model: ".to_string();
        s.append(&self.turn.status.model);
        s.append("\nprovider: ");
        s.append(&p.name);
        s.append(" (");
        s.append(p.kind.variant_name());
        s.append(" @ ");
        s.append(&p.base_url);
        s.append(")\nmode: ");
        s.append(self.mode.name());
        s.append("\neffort: ");
        s.append(
            match self.config.reasoning_effort {
                Some(e) => e.name(),
                None => "default",
            },
        );
        s
    }

    fn status_session(&self, agent: Option<&AgentFacts>) -> (r: String)
        ensures
            r@ == self@.status_session(facts_opt(agent)),
    {
        match agent {
            Some(f) => {
                let mut s = "\nsession: ".to_string();
                s.append(&f.session_id);
                s.append("\nusage: ");
                s.append(&show_usage(f.prompt_tokens, f.completion_tokens));
                s.append("\nbackground tasks: ");
                s.append(&number(f.running_tasks as u64));
                s.append(" running");
                s
            },
            None => {
                let mut s = "\nsession: (turn running)\nusage: ".to_string();
                s.append(
                    &show_usage(
                        self.turn.status.prompt_tokens,
                        self.turn.status.completion_tokens,
                    ),
                );
                s
            },
        }
    }

    fn status_todos(&self) -> (r: String)
        ensures
            r@ == self@.status_todos(),
    {
        assert(self@.panels.todos.len() == self.panels.todos@.len());
        let total = self.panels.todos.len();
        if total > 0 {
            let mut s = "\ntodos: ".to_string();
            s.append(&number(count_finished(&self.panels.todos) as u64));
            s.append("/");
            s.append(&number(total as u64));
            s.append(" done");
            s
        } else {
            "\ntodos: none".to_string()
        }
    }

    fn status_modes(&self) -> (r: String)
        ensures
            r@ == self@.status_modes(),
    {
        let mut s = "\nplan mode: ".to_string();
        s.append(
            if self.planning.omakase {
                "on (omakase — chef's choice)"
            } else if self.planning.plan_mode {
                "on"
            } else {
                "off"
            },
        );
        s.append("\nultra: ");
        match &self.turn.ultra {
            Some(label) => {
                s.append(label);
            },
            None => {
                s.append("off");
            },
        }
        s
    }

    /// `/status`: one snapshot of the session.
    fn status(&mut self, agent: Option<&AgentFacts>)
        requires
            old(self)@.wf(),
        ensures
            final(self)@ == old(self)@.status_told(facts_opt(agent)),
            final(self)@.wf(),
    {
        proof {
            reveal(AppView::status_told);
        }
        let mut s = self.status_head();
        s.append(&self.status_session(agent));
        s.append(&self.status_todos());
        s.append(&self.status_modes());
        self.notice(s);
    }

    /// `/bashes`: list every background task of the session.
    fn bashes(&mut self, agent: Option<&AgentFacts>)
        requires
            old(self)@.wf(),
        ensures
            final(self)@ == old(self)@.bashes_told(facts_opt(agent)),
            final(self)@.wf(),
    {
        proof {
            reveal(AppView::bashes_told);
        }
        let text = match agent {
            None => "background tasks: unavailable while a turn is running".to_string(),
            Some(f) => {
                assert(f@.tasks.len() == f.tasks@.len());
                if f.tasks.len() == 0 {
                    "background tasks: none".to_string()
                } else {
                    show_tasks(&f.tasks)
                }
            },
        };
        self.notice(text);
    }

    pub(crate) fn clear_conversation(&mut self, context_tokens: u64)
        requires
            old(self)@.wf(),
        ensures
            final(self)@ == old(self)@.conversation_cleared(context_tokens),
            final(self)@.wf(),
    {
        proof {
            reveal(AppView::conversation_cleared);
        }
        self.chat.wipe();
        self.turn.wipe(context_tokens);
        self.scroll_to_bottom();
        self.notice("conversation cleared".to_string());
    }

    fn clear(&mut self, slot: bool) -> (r: Option<Task>)
        requires
            old(self)@.wf(),
        ensures
            (final(self)@, task_opt(r)) == old(self)@.clear_run(slot),
            final(self)@.wf(),
    {
        proof {
            reveal(AppView::clear_run);
        }
        if self.agent_unavailable("clear") {
            return None;
        }
        if slot {
            return Some(Task::ClearSession);
        }
        self.clear_conversation(0);
        None
    }

    pub(crate) fn open_menu_on_current(
        &mut self,
        kind: PickerKind,
        title: &str,
        items: Vec<PickerItem>,
    )
        requires
            old(self)@.wf(),
        ensures
            final(self)@ == old(self)@.choosing_current(kind, title@, items_view(items@)),
            final(self)@.wf(),
    {
        let selected = find_current(&items);
        self.composer.picker = Some(Picker { kind, title: title.to_string(), items, selected });
    }

    fn list_models(&mut self) -> (r: Option<Task>)
        requires
            old(self)@.wf(),
        ensures
            (final(self)@, task_opt(r)) == old(self)@.models_run(),
            final(self)@.wf(),
    {
        proof {
            reveal(AppView::models_run);
        }
        if self.agent_unavailable("switch models") {
            return None;
        }
        Some(Task::ListModels)
    }

    fn switch_model(&mut self, tag: String) -> (r: Option<Task>)
        requires
            old(self)@.wf(),
        ensures
            (final(self)@, task_opt(r)) == old(self)@.model_run(tag@),
            final(self)@.wf(),
    {
        proof {
            reveal(AppView::model_run);
        }
        if self.agent_unavailable("switch models") {
            return None;
        }
        let mut label = "switching to ".to_string();
        label.append(&tag);
        self.turn.rebuilding = Some(label);
        Some(Task::SwitchModel(tag))
    }

    fn open_mode_picker(&mut self)
        requires
            old(self)@.wf(),
        ensures
            final(self)@ == old(self)@.mode_menu(),
            final(self)@.wf(),
    {
        proof {
            reveal(AppView::mode_menu);
        }
        if self.agent_unavailable("switch modes") {
            return ;
        }
        let mode = self.mode;
        let mut items: Vec<PickerItem> = Vec::new();
        assert(items_view(items@) =~= Seq::empty());
        add_item(
            &mut items,
            "genie".to_string(),
            "interactive — bypass permissions; acts without asking".to_string(),
            mode == Mode::Genie,
        );
        add_item(
            &mut items,
            "sovereign".to_string(),
            "autonomous — works continuously; self-directing".to_string(),
            mode == Mode::Sovereign,
        );
        assert(items_view(items@) =~= mode_items(mode));
        self.open_menu_on_current(PickerKind::Mode, " select mode ", items);
    }

    fn set_mode(&mut self, mode: Mode, genie: StepBudget)
        requires
            old(self)@.wf(),
        ensures
            final(self)@ == old(self)@.with_mode(mode, genie),
            final(self)@.wf(),
    {
        proof {
            reveal(AppView::with_mode);
        }
        let budget = match mode {
            Mode::Sovereign => self.config.max_steps.for_mode(Mode::Sovereign),
            Mode::Genie => genie,
        };
        self.mode = mode;
        self.config.set_mode(mode, budget);
        self.turn.status.set_mode(mode, budget);
    }

    fn switch_mode(&mut self, mode: Mode, genie: StepBudget, slot: bool) -> (r: Option<Task>)
        requires
            old(self)@.wf(),
        ensures
            (final(self)@, task_opt(r)) == old(self)@.mode_run(mode, genie, slot),
            final(self)@.wf(),
    {
        proof {
            reveal(AppView::mode_run);
        }
        if self.agent_unavailable("switch modes") {
            return None;
        }
        self.set_mode(mode, genie);
        let mut note = "switched to ".to_string();
        note.append(mode.name());
        note.append(" mode");
        self.save_config("config", Some(note), true);
        if slot {
            Some(Task::SetMode(mode))
        } else {
            None
        }
    }

    fn open_effort_picker(&mut self)
        requires
            old(self)@.wf(),
        ensures
            final(self)@ == old(self)@.effort_menu(),
            final(self)@.wf(),
    {
        proof {
            reveal(AppView::effort_menu);
        }
        if self.agent_unavailable("change effort") {
            return ;
        }
        let e = self.config.reasoning_effort;
        let mut items: Vec<PickerItem> = Vec::new();
        assert(items_view(items@) =~= Seq::empty());
        add_item(
            &mut items,
            "high".to_string(),
            "most reasoning — slowest, best on hard tasks".to_string(),
            matches!(e, Some(ReasoningEffort::High)),
        );
        add_item(
            &mut items,
            "medium".to_string(),
            "balanced reasoning".to_string(),
            matches!(e, Some(ReasoningEffort::Medium)),
        );
        add_item(
            &mut items,
            "low".to_string(),
            "least reasoning — fastest, cheapest".to_string(),
            matches!(e, Some(ReasoningEffort::Low)),
        );
        add_item(
            &mut items,
            "default".to_string(),
            "leave the provider default (e.g. Grok 4.5 → high)".to_string(),
            e.is_none(),
        );
        assert(items_view(items@) =~= effort_items(e));
        self.open_menu_on_current(PickerKind::Effort, " reasoning effort ", items);
    }

    fn change_effort(&mut self, effort: Option<ReasoningEffort>, slot: bool) -> (r: Option<Task>)
        requires
            old(self)@.wf(),
        ensures
            (final(self)@, task_opt(r)) == old(self)@.effort_run(effort, slot),
            final(self)@.wf(),
    {
        proof {
            reveal(AppView::effort_run);
        }
        if self.agent_unavailable("change effort") {
            return None;
        }
        self.config.set_effort(effort);
        let note = match effort {
            Some(e) => {
                let mut n = "reasoning effort: ".to_string();
                n.append(e.name());
                n
            },
            None => "reasoning effort: provider default".to_string(),
        };
        self.save_config("config", Some(note), true);
        if slot {
            Some(Task::SetEffort(effort))
        } else {
            None
        }
    }

    /// `/plan` (and Shift+Tab): toggle plan mode.
    fn toggle_plan(&mut self, slot: bool) -> (r: Option<Task>)
        requires
            old(self)@.wf(),
        ensures
            (final(self)@, task_opt(r)) == old(self)@.plan_run(slot),
            final(self)@.wf(),
    {
        proof {
            reveal(AppView::plan_run);
        }
        if self.agent_unavailable("toggle plan mode") {
            return None;
        }
        let on = !self.planning.plan_mode;
        let omakase = self.planning.omakase && on;
        self.planning.set(on, omakase);
        let note = if on {
            "plan mode on — the agent investigates read-only and presents a plan via exit_plan for approval (/plan or Shift+Tab to leave)"
        } else {
            "plan mode off"
        };
        self.notice(note.to_string());
        if slot {
            Some(Task::SetPlanMode(on))
        } else {
            None
        }
    }

    /// `/omakase`: toggle chef's-choice mode.
    fn toggle_omakase(&mut self, slot: bool) -> (r: Option<Task>)
        requires
            old(self)@.wf(),
        ensures
            (final(self)@, task_opt(r)) == old(self)@.omakase_run(slot),
            final(self)@.wf(),
    {
        proof {
            reveal(AppView::omakase_run);
        }
        if self.agent_unavailable("toggle omakase") {
            return None;
        }
        let on = !self.planning.omakase;
        let plan = self.planning.plan_mode || on;
        self.planning.set(plan, on);
        let note = if on {
            "omakase on — chef's choice: the agent explores read-only, decides the approach itself, and executes its own plan (/omakase to leave)"
        } else {
            "omakase off — back to plan mode (you review the plan)"
        };
        self.notice(note.to_string());
        if slot {
            Some(Task::SetOmakase(on))
        } else {
            None
        }
    }

    /// `/rewind`: open the turn picker.
    fn open_rewind_picker(&mut self, agent: Option<&AgentFacts>)
        requires
            old(self)@.wf(),
        ensures
            final(self)@ == old(self)@.rewind_menu(facts_opt(agent)),
            final(self)@.wf(),
    {
        proof {
            reveal(AppView::rewind_menu);
        }
        if self.agent_unavailable("rewind") {
            return ;
        }
        match agent {
            None => {
                self.tell_slot_empty();
            },
            Some(f) => {
                assert(f@.candidates.len() == f.candidates@.len());
                if f.candidates.len() == 0 {
                    self.notice("nothing to rewind yet".to_string());
                    return ;
                }
                let items = candidate_items(&f.candidates);
                self.open_menu(PickerKind::Rewind, " rewind to before turn ", items);
            },
        }
    }

    fn rewind(&mut self, turn: u64, slot: bool) -> (r: Option<Task>)
        requires
            old(self)@.wf(),
        ensures
            (final(self)@, task_opt(r)) == old(self)@.rewind_run(turn, slot),
            final(self)@.wf(),
    {
        proof {
            reveal(AppView::rewind_run);
        }
        if self.agent_unavailable("rewind") {
            return None;
        }
        if !slot {
            return self.tell_slot_empty();
        }
        Some(Task::Rewind(turn))
    }

    fn resume_session(&mut self, id: String, slot: bool) -> (r: Option<Task>)
        requires
            old(self)@.wf(),
        ensures
            (final(self)@, task_opt(r)) == old(self)@.resume_run(id@, slot),
            final(self)@.wf(),
    {
        proof {
            reveal(AppView::resume_run);
        }
        if same(&id, &self.session.id) {
            self.notice("already in this session".to_string());
            return None;
        }
        if self.agent_unavailable("resume a session") {
            return None;
        }
        if !slot {
            return self.tell_slot_empty();
        }
        Some(Task::Resume(id))
    }

    /// `/compact`: ask the main loop to compact the history.
    fn request_compact(&mut self, slot: bool)
        requires
            old(self)@.wf(),
        ensures
            final(self)@ == old(self)@.compact_run(slot),
            final(self)@.wf(),
    {
        proof {
            reveal(AppView::compact_run);
        }
        if self.agent_unavailable("compact") {
            return ;
        }
        if self.pending.compacting {
            self.notice("already compacting".to_string());
            return ;
        }
        if !slot {
            self.tell_slot_empty();
            return ;
        }
        self.pending.want_compaction();
    }

    /// `/btw <question>`: one-shot side question.
    fn btw(&mut self, question: String)
        requires
            old(self)@.wf(),
        ensures
            final(self)@ == old(self)@.btw_run(question@),
            final(self)@.wf(),
    {
        proof {
            reveal(AppView::btw_run);
        }
        if self.turn.rebuilding.is_some() {
            self.notice(
                "cannot ask a side question while the agent is rebuilding".to_string(),
            );
            return ;
        }
        if self.pending.btw.is_some() || self.pending.btw_inflight {
            self.notice("already answering a /btw — wait for it to finish".to_string());
            return ;
        }
        self.notice("answering /btw…".to_string());
        self.pending.want_answer(question);
    }

    /// Toggle `/fusion`.
    fn toggle_fusion(&mut self) -> (r: Option<Task>)
        requires
            old(self)@.wf(),
        ensures
            (final(self)@, task_opt(r)) == old(self)@.fusion_run(),
            final(self)@.wf(),
    {
        proof {
            reveal(AppView::fusion_run);
        }
        if self.agent_unavailable("toggle fusion") {
            return None;
        }
        if self.turn.fusion_active {
            self.turn.set_fusion(false);
            return Some(
                Task::RebuildProvider {
                    summary: "fusion off — back to the single model".to_string(),
                },
            );
        }
        if self.turn.ultra.is_some() {
            self.notice(
                "fusion cannot run under ultra — each of ultra's candidates would re-run the whole panel; /ultra to turn ultra off first".to_string(),
            );
            return None;
        }
        match self.config.effective_fusion() {
            Some(fusion) => Some(Task::BuildFusion(fusion)),
            None => {
                self.notice(
                    "fusion needs at least one configured provider — add one with /provider, then /fusion config".to_string(),
                );
                None
            },
        }
    }

    /// Toggle `/ultra`.
    fn toggle_ultra(&mut self, slot: bool) -> (r: Option<Task>)
        requires
            old(self)@.wf(),
        ensures
            (final(self)@, task_opt(r)) == old(self)@.ultra_run(slot),
            final(self)@.wf(),
    {
        proof {
            reveal(AppView::ultra_run);
        }
        if self.agent_unavailable("toggle ultra") {
            return None;
        }
        if self.turn.ultra.is_some() {
            self.turn.set_ultra(None);
            self.notice("ultra off — one agent per turn again, no pre-phase".to_string());
            return if slot {
                Some(Task::StopUltra)
            } else {
                None
            };
        }
        if self.turn.fusion_active {
            self.notice(
                "ultra cannot run on top of fusion — every candidate would re-run the whole panel; /fusion to turn fusion off first".to_string(),
            );
            return None;
        }
        Some(Task::BuildUltra)
    }

    fn provider_list(&mut self)
        requires
            old(self)@.wf(),
        ensures
            final(self)@ == old(self)@.providers_told(),
            final(self)@.wf(),
    {
        proof {
            reveal(AppView::providers_told);
        }
        assert(self@.config.providers.len() == self.config.providers@.len());
        let p = self.config.active();
        let text = if self.config.providers.len() == 0 {
            let mut s = "no providers configured — using the default: ".to_string();
            s.append(&p.name);
            s.append(" (");
            s.append(p.kind.name());
            s.append(") ");
            s.append(&p.model);
            s.append(" @ ");
            s.append(&p.base_url);
            s.append("\nadd one with /provider (interactive)");
            s
        } else {
            let mut s = show_providers(&self.config.providers, &p.name);
            s.append("\n(* = active)");
            s
        };
        self.notice(text);
    }

    fn provider_use(&mut self, name: String) -> (r: Option<Task>)
        requires
            old(self)@.wf(),
        ensures
            (final(self)@, task_opt(r)) == old(self)@.provider_used(name@),
            final(self)@.wf(),
    {
        proof {
            reveal(AppView::provider_used);
        }
        if self.agent_unavailable("switch providers") {
            return None;
        }
        if find_provider(&self.config.providers, &name).is_none() {
            let mut m = "no provider named '".to_string();
            m.append(&name);
            m.append("' — try /provider list");
            self.notice(m);
            return None;
        }
        let mut summary = "switched to provider '".to_string();
        summary.append(&name);
        summary.append("'");
        self.config.active_provider = Some(name);
        self.save_config("config", None, false);
        Some(Task::RebuildProvider { summary })
    }

    /// Add (or replace) a provider and switch to it.
    pub(crate) fn add_provider_config(&mut self, provider: ProviderConfig)
        requires
            old(self)@.wf(),
        ensures
            final(self)@ == old(self)@.with_provider(provider@),
            final(self)@.wf(),
    {
        proof {
            reveal(AppView::with_provider);
        }
        self.config.add_provider(provider);
        self.save_config("config", None, false);
    }

    fn provider_add(&mut self, provider: ProviderConfig) -> (r: Option<Task>)
        requires
            old(self)@.wf(),
        ensures
            (final(self)@, task_opt(r)) == old(self)@.provider_added(provider@),
            final(self)@.wf(),
    {
        proof {
            reveal(AppView::provider_added);
        }
        if self.agent_unavailable("add a provider") {
            return None;
        }
        let mut summary = "added and switched to provider '".to_string();
        summary.append(&provider.name);
        summary.append("'");
        let reminder = match &provider.api_key_env {
            Some(env) => {
                let mut r = " — remember to `export ".to_string();
                r.append(env);
                r.append("=<key>` for this provider");
                r
            },
            None => "".to_string(),
        };
        summary.append(&reminder);
        self.add_provider_config(provider);
        Some(Task::RebuildProvider { summary })
    }

    /// Finalize an interactive provider setup.
    fn provider_setup(&mut self, provider: ProviderConfig, api_key: Option<String>) -> (r: Option<Task>)
        requires
            old(self)@.wf(),
        ensures
            (final(self)@, task_opt(r)) == old(self)@.provider_set_up(provider@, text_opt(api_key)),
            final(self)@.wf(),
    {
        proof {
            reveal(AppView::provider_set_up);
        }
        if self.agent_unavailable("add a provider") {
            return None;
        }
        let mut summary = "added and switched to provider '".to_string();
        summary.append(&provider.name);
        summary.append("'");
        if let Some(key) = api_key {
            if !is_empty_text(&key) {
                self.ask(Effect::StoreProviderKey { name: provider.name.clone(), key });
            }
        }
        self.add_provider_config(provider);
        Some(Task::RebuildProvider { summary })
    }

    fn provider_remove(&mut self, name: String)
        requires
            old(self)@.wf(),
        ensures
            final(self)@ == old(self)@.provider_removed(name@),
            final(self)@.wf(),
    {
        proof {
            reveal(AppView::provider_removed);
        }
        let mut quoted = "'".to_string();
        quoted.append(&name);
        if same(&self.config.active().name, &name) {
            quoted.append("' is the active provider — switch with /provider use <other> first");
            self.notice(quoted);
            return ;
        }
        let rest = drop_named(&self.config.providers, &name);
        assert(self@.config.providers.len() == self.config.providers@.len());
        assert(crate::config::providers_view(rest@).len() == rest@.len());
        if rest.len() == self.config.providers.len() {
            let mut m = "no provider named '".to_string();
            m.append(&name);
            m.append("'");
            self.notice(m);
            return ;
        }
        self.config.providers = rest;
        let mut m = "removed provider '".to_string();
        m.append(&name);
        m.append("'");
        self.save_config("config", Some(m), true);
    }

    /// Handle `/server` subcommands.
    fn server(&mut self, action: ServerAction) -> (r: Option<Task>)
        requires
            old(self)@.wf(),
        ensures
            (final(self)@, task_opt(r)) == old(self)@.server_run(action),
            final(self)@.wf(),
    {
        proof {
            reveal(AppView::server_run);
        }
        if action == ServerAction::Stop {
            return Some(Task::StopServer);
        }
        let p = self.config.active();
        if p.kind != ProviderKind::LlamaCpp {
            let mut m = "the active provider '".to_string();
            m.append(&p.name);
            m.append("' is ");
            m.append(p.kind.name());
            m.append(" — /server only manages a local llama.cpp server");
            self.notice(m);
            return None;
        }
        if action == ServerAction::Status {
            Some(Task::ProbeServer)
        } else {
            Some(Task::ProbeBeforeStart)
        }
    }

    fn login(&mut self, provider: String) -> (r: Option<Task>)
        requires
            old(self)@.wf(),
        ensures
            (final(self)@, task_opt(r)) == old(self)@.login_run(provider@),
            final(self)@.wf(),
    {
        proof {
            reveal(AppView::login_run);
        }
        if !same(&provider, "xai") {
            let mut m = "unknown login provider '".to_string();
            m.append(&provider);
            m.append("' (supported: xai)");
            self.notice(m);
            return None;
        }
        self.notice("starting the xAI sign-in; your browser should open shortly".to_string());
        Some(Task::Login)
    }

    fn evolve(&mut self, deep: bool, description: String) -> (r: Option<Task>)
        requires
            old(self)@.wf(),
        ensures
            (final(self)@, task_opt(r)) == old(self)@.evolve_run(deep, description@),
            final(self)@.wf(),
    {
        proof {
            reveal(AppView::evolve_run);
        }
        let mut m = "evolving (".to_string();
        m.append(
            if deep {
                "deep"
            } else {
                "runtime"
            },
        );
        m.append("): ");
        m.append(&description);
        self.notice(m);
        Some(Task::Evolve { deep, description })
    }

    fn publish(&mut self, branch: Option<String>) -> (r: Option<Task>)
        requires
            old(self)@.wf(),
        ensures
            (final(self)@, task_opt(r)) == old(self)@.publish_run(text_opt(branch)),
            final(self)@.wf(),
    {
        proof {
            reveal(AppView::publish_run);
        }
        let mut m = "publishing Wizard".to_string();
        let part = match &branch {
            Some(b) => {
                let mut p = " (branch: ".to_string();
                p.append(b);
                p.append(")");
                p
            },
            None => "".to_string(),
        };
        m.append(&part);
        m.append("…");
        self.notice(m);
        Some(Task::Publish { branch })
    }

    fn set_goal(&mut self, text: String) -> (r: Option<Task>)
        requires
            old(self)@.wf(),
        ensures
            (final(self)@, task_opt(r)) == old(self)@.goal_run(text@),
            final(self)@.wf(),
    {
        proof {
            reveal(AppView::goal_run);
        }
        let goal = trimmed(&text);
        if is_empty_text(&goal) {
            self.notice("usage: /goal <text>".to_string());
            return None;
        }
        Some(Task::SetGoal(goal))
    }

    fn reload(&mut self) -> (r: Option<Task>)
        requires
            old(self)@.wf(),
        ensures
            (final(self)@, task_opt(r)) == old(self)@.reload_run(),
            final(self)@.wf(),
    {
        proof {
            reveal(AppView::reload_run);
        }
        if self.agent_unavailable("reload") {
            return None;
        }
        Some(Task::Reload)
    }

    fn import_claude(&mut self, selection: ImportSelection) -> (r: Option<Task>)
        requires
            old(self)@.wf(),
        ensures
            (final(self)@, task_opt(r)) == old(self)@.import_run(selection),
            final(self)@.wf(),
    {
        proof {
            reveal(AppView::import_run);
        }
        let mut action = "import from ".to_string();
        action.append(&self.surroundings.peer.name);
        if self.agent_unavailable(&action) {
            return None;
        }
        Some(Task::Import(selection))
    }

    /// Handle `/provider` subcommands: list, switch, add, or remove providers.
    fn provider(&mut self, action: ProviderAction) -> (r: Option<Task>)
        requires
            old(self)@.wf(),
        ensures
            (final(self)@, task_opt(r)) == old(self)@.provider_run(action@),
            final(self)@.wf(),
    {
        proof {
            reveal(AppView::provider_run);
        }
        match action {
            ProviderAction::Menu => {
                self.open_provider_picker();
                None
            },
            ProviderAction::List => {
                self.provider_list();
                None
            },
            ProviderAction::Use(name) => self.provider_use(name),
            ProviderAction::Add { name, kind, base_url, model, api_key_env } => self.provider_add(
                ProviderConfig { name, kind, base_url, model, api_key_env },
            ),
            ProviderAction::Remove(name) => {
                self.provider_remove(name);
                None
            },
        }
    }

    fn run_provider_command(&mut self, command: SlashCommand, slot: bool) -> (r: Option<Task>)
        requires
            old(self)@.wf(),
        ensures
            (final(self)@, task_opt(r)) == old(self)@.provider_command(command@, slot),
            final(self)@.wf(),
    {
        proof {
            reveal(AppView::provider_command);
        }
        match command {
            SlashCommand::Provider(action) => self.provider(action),
            SlashCommand::ProviderSetup { name, kind, base_url, model, api_key } =>
                self.provider_setup(
                ProviderConfig { name, kind, base_url, model, api_key_env: None },
                api_key,
            ),
            SlashCommand::Fusion(FusionAction::Toggle) => self.toggle_fusion(),
            SlashCommand::Fusion(FusionAction::Config) => {
                self.open_fusion_picker();
                None
            },
            SlashCommand::Ultra(UltraAction::Toggle) => self.toggle_ultra(slot),
            SlashCommand::Ultra(UltraAction::Config) => Some(Task::ListLenses),
            SlashCommand::Ultra(UltraAction::Apply(u)) => Some(Task::CheckUltra(u)),
            SlashCommand::Server(action) => self.server(action),
            SlashCommand::Login(provider) => self.login(provider),
            _ => None,
        }
    }

    fn run_agent_command(
        &mut self,
        command: SlashCommand,
        agent: Option<&AgentFacts>,
        genie: StepBudget,
    ) -> (r: Option<Task>)
        requires
            old(self)@.wf(),
        ensures
            (final(self)@, task_opt(r)) == old(self)@.agent_command(command@, facts_opt(agent), genie),
            final(self)@.wf(),
    {
        proof {
            reveal(AppView::agent_command);
        }
        let slot = agent.is_some();
        match command {
            SlashCommand::Clear => self.clear(slot),
            SlashCommand::Model(None) => self.list_models(),
            SlashCommand::Model(Some(tag)) => self.switch_model(tag),
            SlashCommand::Mode(None) => {
                self.open_mode_picker();
                None
            },
            SlashCommand::Mode(Some(mode)) => self.switch_mode(mode, genie, slot),
            SlashCommand::Effort(None) => {
                self.open_effort_picker();
                None
            },
            SlashCommand::Effort(Some(e)) => self.change_effort(e, slot),
            SlashCommand::Plan => self.toggle_plan(slot),
            SlashCommand::Omakase => self.toggle_omakase(slot),
            SlashCommand::Rewind(None) => {
                self.open_rewind_picker(agent);
                None
            },
            SlashCommand::Rewind(Some(turn)) => self.rewind(turn, slot),
            SlashCommand::Resume(None) => Some(Task::ListSessions),
            SlashCommand::Resume(Some(id)) => self.resume_session(id, slot),
            SlashCommand::Compact => {
                self.request_compact(slot);
                None
            },
            SlashCommand::Reload => self.reload(),
            SlashCommand::ImportClaude(selection) => self.import_claude(selection),
            other => self.run_provider_command(other, slot),
        }
    }

    fn quit(&mut self)
        requires
            old(self)@.wf(),
        ensures
            final(self)@ == old(self)@.quitting(),
            final(self)@.wf(),
    {
        proof {
            reveal(AppView::quitting);
        }
        self.pending.quit();
    }

    fn run_report_command(
        &mut self,
        command: SlashCommand,
        agent: Option<&AgentFacts>,
        genie: StepBudget,
    ) -> (r: Option<Task>)
        requires
            old(self)@.wf(),
        ensures
            (final(self)@, task_opt(r)) == old(self)@.report_command(
                command@,
                facts_opt(agent),
                genie,
            ),
            final(self)@.wf(),
    {
        proof {
            reveal(AppView::report_command);
        }
        match command {
            SlashCommand::Cost => Some(Task::EstimateCost),
            SlashCommand::Memory(action) => Some(Task::Memory(action)),
            SlashCommand::Doctor => Some(Task::Doctor),
            SlashCommand::Status => {
                self.status(agent);
                None
            },
            SlashCommand::Bashes => {
                self.bashes(agent);
                None
            },
            SlashCommand::Goal(None) => Some(Task::ReadGoal),
            SlashCommand::Goal(Some(text)) => self.set_goal(text),
            SlashCommand::Btw(question) => {
                self.btw(question);
                None
            },
            SlashCommand::Agents => Some(Task::ListAgents),
            SlashCommand::Evolve { deep, description } => self.evolve(deep, description),
            SlashCommand::Publish { branch } => self.publish(branch),
            other => self.run_agent_command(other, agent, genie),
        }
    }

    /// Execute one slash command: what it changes at once happens here, the work
    /// it leaves to the main loop is handed back.  `agent` is what the agent in
    /// its slot knows, `None` while a turn holds it.
    pub fn run_command(
        &mut self,
        command: SlashCommand,
        agent: Option<&AgentFacts>,
        genie_max_steps: StepBudget,
    ) -> (r: Option<Task>)
        requires
            old(self)@.wf(),
        ensures
            (final(self)@, task_opt(r)) == old(self)@.command(
                command@,
                facts_opt(agent),
                genie_max_steps,
            ),
            final(self)@.wf(),
    {
        proof {
            reveal(AppView::command);
        }
        match command {
            SlashCommand::Help => {
                self.notice(help());
                None
            },
            SlashCommand::Quit => {
                self.quit();
                None
            },
            SlashCommand::Diff => self.toggle_diff(),
            SlashCommand::Todos => {
                self.toggle_todos();
                None
            },
            SlashCommand::Dashboard => {
                self.toggle_dashboard();
                None
            },
            SlashCommand::Subagents => {
                self.toggle_subagents();
                None
            },
            SlashCommand::Settings => {
                self.open_settings_picker();
                None
            },
            SlashCommand::Vim => {
                self.toggle_vim();
                None
            },
            other => self.run_report_command(other, agent, genie_max_steps),
        }
    }
}

} // verus!
