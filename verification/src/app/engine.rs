//! What the main loop reports back of providers, fusion, ultra and the local
//! server.

use crate::app::picker::{StatusLine, StatusView};
use crate::app::state::{App, AppView, TurnView};
use crate::app::tasks::{task_opt, Task, TaskView};
use crate::config::{
    Config, ConfigView, ProviderConfig, ProviderKind, ProviderView, UltraConfig, UltraView,
};
use crate::text::{decimal, number};
use vstd::prelude::*;

verus! {

/// Where the xAI sign-in's models are served.
pub const XAI_BASE_URL: &'static str = "https://api.x.ai/v1";

/// The model that the xAI sign-in starts with.
pub const XAI_MODEL: &'static str = "grok-4.3";

/// What probing the local server found.
#[derive(Debug, Clone, Copy, PartialEq, Eq, Structural)]
pub enum Health {
    Ready,
    Loading,
    Down,
}

/// How stopping the local server went.
pub enum StopOutcome {
    Stopped(u32),
    /// No server was started from here.
    NotRecorded,
    NotRunning(u32),
    /// The recorded process is another program by now.
    NotOurs { pid: u32, name: String },
}

/// What an attempt gave: nothing but success, or why it failed.
pub open spec fn done_view(r: Result<(), String>) -> Result<(), Seq<char>> {
    match r {
        Ok(_) => Ok(()),
        Err(e) => Err(e@),
    }
}

/// What an attempt gave: a label, or why it failed.
pub open spec fn label_view(r: Result<String, String>) -> Result<Seq<char>, Seq<char>> {
    match r {
        Ok(label) => Ok(label@),
        Err(e) => Err(e@),
    }
}

/// Several tasks, as they are said.
pub open spec fn tasks_view(t: Seq<Task>) -> Seq<TaskView> {
    t.map_values(|x: Task| x@)
}

fn joined(a: &str, b: &str) -> (r: String)
    ensures
        r@ == a@ + b@,
{
    let mut m = a.to_string();
    m.append(b);
    m
}

fn joined3(a: &str, b: &str, c: &str) -> (r: String)
    ensures
        r@ == a@ + b@ + c@,
{
    let mut m = joined(a, b);
    m.append(c);
    m
}

/// What is said after the health of a server that was started from here.
pub open spec fn pid_text(pid: Option<u32>) -> Seq<char> {
    match pid {
        Some(p) => " (PID "@ + decimal(p as nat) + ", started by wizard)"@,
        None => ""@,
    }
}

/// What `/server status` says of the server at an address.
pub open spec fn health_text(url: Seq<char>, health: Health, pid: Option<u32>) -> Seq<char> {
    "llama-server at "@ + url + (match health {
        Health::Ready => ": ready"@ + pid_text(pid),
        Health::Loading => ": loading its model"@ + pid_text(pid),
        Health::Down => ": not running — start it with /server start"@,
    })
}

fn show_health(url: &str, health: Health, pid: Option<u32>) -> (r: String)
    ensures
        r@ == health_text(url@, health, pid),
{
    let spawned = match pid {
        Some(p) => joined3(" (PID ", &number(p as u64), ", started by wizard)"),
        None => "".to_string(),
    };
    let tail = match health {
        Health::Ready => joined(": ready", &spawned),
        Health::Loading => joined(": loading its model", &spawned),
        Health::Down => ": not running — start it with /server start".to_string(),
    };
    joined3("llama-server at ", url, &tail)
}

/// What `/server stop` says.
pub open spec fn stop_text(r: Result<StopOutcome, String>) -> Seq<char> {
    match r {
        Ok(StopOutcome::Stopped(pid)) => "stopped llama-server (PID "@ + decimal(pid as nat) + ")"@,
        Ok(StopOutcome::NotRecorded) =>
            "wizard has not started a llama-server — nothing to stop"@,
        Ok(StopOutcome::NotRunning(pid)) => "llama-server (PID "@ + decimal(pid as nat)
            + ") already exited"@,
        Ok(StopOutcome::NotOurs { pid, name }) => "refusing to stop PID "@ + decimal(pid as nat)
            + ": it is '"@ + name@ + "', not llama-server"@,
        Err(e) => "could not stop llama-server: "@ + e@,
    }
}

fn show_stop(r: Result<StopOutcome, String>) -> (s: String)
    ensures
        s@ == stop_text(r),
{
    match r {
        Ok(StopOutcome::Stopped(pid)) => joined3(
            "stopped llama-server (PID ",
            &number(pid as u64),
            ")",
        ),
        Ok(StopOutcome::NotRecorded) =>
            "wizard has not started a llama-server — nothing to stop".to_string(),
        Ok(StopOutcome::NotRunning(pid)) => joined3(
            "llama-server (PID ",
            &number(pid as u64),
            ") already exited",
        ),
        Ok(StopOutcome::NotOurs { pid, name }) => {
            let mut m = joined3("refusing to stop PID ", &number(pid as u64), ": it is '");
            m.append(&name);
            m.append("', not llama-server");
            m
        },
        Err(e) => joined("could not stop llama-server: ", &e),
    }
}

/// What a background start of the server at an address reports.
pub fn server_start_report(url: &str, r: Result<(), String>) -> (s: String)
    ensures
        s@ == match r {
            Ok(_) => "llama-server at "@ + url@ + " is ready"@,
            Err(e) => "llama-server: "@ + e@,
        },
{
    match r {
        Ok(_) => joined3("llama-server at ", url, " is ready"),
        Err(e) => joined("llama-server: ", &e),
    }
}

/// The provider that a successful xAI sign-in adds.
pub fn xai_provider() -> (r: ProviderConfig)
    ensures
        r@ == (ProviderView {
            name: "xai-oauth"@,
            kind: ProviderKind::XaiOauth,
            base_url: XAI_BASE_URL@,
            model: XAI_MODEL@,
            api_key_env: None,
        }),
{
    ProviderConfig {
        name: "xai-oauth".to_string(),
        kind: ProviderKind::XaiOauth,
        base_url: XAI_BASE_URL.to_string(),
        model: XAI_MODEL.to_string(),
        api_key_env: None,
    }
}

/// What a background publication reports: the fork, its branch and the command
/// that installs it.
pub fn publish_report(r: Result<(String, String, String), String>) -> (s: String)
    ensures
        s@ == match r {
            Ok(p) => "publish: forked to "@ + p.0@ + "  (branch: "@ + p.1@
                + ")\n\nInstall one-liner:\n"@ + p.2@,
            Err(e) => "publish failed: "@ + e@,
        },
{
    match r {
        Ok(p) => {
            let mut m = joined3("publish: forked to ", &p.0, "  (branch: ");
            m.append(&p.1);
            m.append(")\n\nInstall one-liner:\n");
            m.append(&p.2);
            m
        },
        Err(e) => joined("publish failed: ", &e),
    }
}

/// Progress of a download, told in whole percents.
pub struct Download {
    /// The size, where it is known and not nothing.
    pub total: Option<u64>,
    pub written: u64,
    pub last_percent: u64,
}

impl Download {
    pub open spec fn wf(self) -> bool {
        self.total != Some(0u64)
    }

    /// A download of which nothing has arrived.
    pub fn new(total: Option<u64>) -> (r: Download)
        ensures
            r.total == (if total == Some(0u64) {
                None
            } else {
                total
            }),
            r.written == 0,
            r.last_percent == 0,
            r.wf(),
    {
        let total = match total {
            Some(t) => if t > 0 {
                Some(t)
            } else {
                None
            },
            None => None,
        };
        Download { total, written: 0, last_percent: 0 }
    }

    /// More bytes arrived: the percentage to tell, where it advanced.
    pub fn inc(&mut self, n: u64) -> (r: Option<u64>)
        requires
            old(self).wf(),
            (old(self).written + n) * 100 <= u64::MAX,
        ensures
            final(self).total == old(self).total,
            final(self).written == old(self).written + n,
            match old(self).total {
                None => r is None && final(self).last_percent == old(self).last_percent,
                Some(t) => {
                    let percent = final(self).written * 100 / t as int;
                    final(self).last_percent == percent && r == (if percent
                        > old(self).last_percent {
                        Some(percent as u64)
                    } else {
                        None
                    })
                },
            },
            final(self).wf(),
    {
        self.written = self.written + n;
        match self.total {
            None => None,
            Some(t) => {
                let percent: u64 = self.written * 100 / t;
                let before = self.last_percent;
                self.last_percent = percent;
                if percent > before {
                    Some(percent)
                } else {
                    None
                }
            },
        }
    }
}

impl AppView {
    /// The client of the active provider was built, or was not; a local server
    /// that is down is started beside the agent's rebuild.
    #[verifier::opaque]
    pub open spec fn provider_done(self, r: Result<bool, Seq<char>>, summary: Seq<char>) -> (
        AppView,
        Seq<TaskView>,
    ) {
        let p = self.config.active();
        let rebuild = TaskView::RebuildAgent {
            label: p.model,
            summary,
            context: "switched provider"@,
        };
        match r {
            Err(e) => (
                self.noticed("could not build provider '"@ + p.name + "': "@ + e),
                Seq::empty(),
            ),
            Ok(down) => if down && p.kind == ProviderKind::LlamaCpp {
                (
                    self.noticed(
                        "llama-server at "@ + p.base_url + " is not running — starting it…"@,
                    ),
                    seq![TaskView::StartServer, rebuild],
                )
            } else {
                (self, seq![rebuild])
            },
        }
    }

    pub open spec fn with_model(self, model: Seq<char>) -> AppView {
        AppView {
            turn: TurnView {
                status: StatusView { model, ..self.turn.status },
                ..self.turn
            },
            ..self
        }
    }

    pub open spec fn with_fusion(self, on: bool) -> AppView {
        AppView { turn: TurnView { fusion_active: on, ..self.turn }, ..self }
    }

    pub open spec fn with_ultra(self, label: Option<Seq<char>>) -> AppView {
        AppView { turn: TurnView { ultra: label, ..self.turn }, ..self }
    }

    /// The agent was rebuilt, or was not; plan mode outlives the rebuild.
    #[verifier::opaque]
    pub open spec fn rebuild_done(
        self,
        label: Seq<char>,
        summary: Seq<char>,
        context: Seq<char>,
        r: Result<(), Seq<char>>,
    ) -> (AppView, Option<TaskView>) {
        match r {
            Ok(_) => (
                self.with_model(label).noticed(summary),
                if self.planning.plan_mode {
                    Some(TaskView::SetPlanMode(true))
                } else {
                    None
                },
            ),
            Err(e) => (
                self.noticed(
                    context + " but could not start the agent: "@ + e
                        + " — /quit and relaunch"@,
                ),
                None,
            ),
        }
    }

    /// The fused client was built, or was not.
    #[verifier::opaque]
    pub open spec fn fusion_done(self, r: Result<Seq<char>, Seq<char>>) -> (
        AppView,
        Option<TaskView>,
    ) {
        match r {
            Err(e) => (self.noticed("could not start fusion: "@ + e), None),
            Ok(label) => (
                self.with_fusion(true),
                Some(
                    TaskView::RebuildAgent {
                        label,
                        summary: label
                            + " — every turn now fuses the panel; /fusion to turn off"@,
                        context: "started fusion"@,
                    },
                ),
            ),
        }
    }

    /// The configured roster was built, or was not.
    #[verifier::opaque]
    pub open spec fn ultra_done(self, r: Result<Seq<char>, Seq<char>>, slot: bool) -> (
        AppView,
        Option<TaskView>,
    ) {
        match r {
            Err(e) => (self.noticed("could not start ultra: "@ + e), None),
            Ok(label) => (
                self.with_ultra(Some(label)).noticed(
                    label
                        + " — each turn now drafts on the active model, compares, then acts; /ultra to turn off"@,
                ),
                if slot {
                    Some(TaskView::SetUltra)
                } else {
                    None
                },
            ),
        }
    }

    /// A chosen roster was built, or was not; only one that builds is kept.
    #[verifier::opaque]
    pub open spec fn roster_done(self, ultra: UltraView, r: Result<Seq<char>, Seq<char>>) -> (
        AppView,
        Option<TaskView>,
    ) {
        match r {
            Err(e) => (self.noticed("ultra roster rejected: "@ + e), None),
            Ok(label) => (
                self.with_config(ConfigView { ultra: Some(ultra), ..self.config }),
                Some(TaskView::SaveUltra(label)),
            ),
        }
    }

    /// The settings with a new roster were written, or were not. With ultra on,
    /// the agent and the badge move to it together or not at all.
    #[verifier::opaque]
    pub open spec fn roster_saved(
        self,
        label: Seq<char>,
        r: Result<(), Seq<char>>,
        slot: bool,
    ) -> (AppView, Option<TaskView>) {
        match r {
            Err(e) => (self.noticed("could not save ultra config: "@ + e), None),
            Ok(_) => if self.turn.ultra is None {
                (self.noticed(label + " — /ultra to turn on"@), None)
            } else if slot {
                (
                    self.with_ultra(Some(label)).noticed(label + " — applied"@),
                    Some(TaskView::SetUltra),
                )
            } else {
                (
                    self.noticed(
                        label
                            + " — saved; the running turn keeps the old roster, /ultra off then on to pick this one up"@,
                    ),
                    None,
                )
            },
        }
    }

    /// The server was probed before a start.
    pub open spec fn start_probed(self, health: Health) -> (AppView, Option<TaskView>) {
        let url = self.config.active().base_url;
        if health == Health::Ready {
            (self.noticed("llama-server at "@ + url + " is already running"@), None)
        } else {
            (
                self.noticed("starting llama-server at "@ + url + "…"@),
                Some(TaskView::StartServer),
            )
        }
    }
}

impl StatusLine {
    fn set_model(&mut self, model: String)
        ensures
            final(self)@ == (StatusView { model: model@, ..old(self)@ }),
    {
        self.model = model;
    }
}

impl Config {
    fn set_ultra(&mut self, ultra: UltraConfig)
        ensures
            final(self)@ == (ConfigView { ultra: Some(ultra@), ..old(self)@ }),
    {
        self.ultra = Some(ultra);
    }
}

impl App {
    /// The main loop built the active provider's client, or failed to; on
    /// success, whether its local server is down.
    pub fn provider_built(&mut self, r: Result<bool, String>, summary: String) -> (tasks: Vec<Task>)
        requires
            old(self)@.wf(),
        ensures
            (final(self)@, tasks_view(tasks@)) == old(self)@.provider_done(
                match r {
                    Ok(down) => Ok(down),
                    Err(e) => Err(e@),
                },
                summary@,
            ),
            final(self)@.wf(),
    {
        proof {
            reveal(AppView::provider_done);
        }
        let p = self.config.active().copy();
        let mut tasks: Vec<Task> = Vec::new();
        match r {
            Err(e) => {
                let mut m = joined3("could not build provider '", &p.name, "': ");
                m.append(&e);
                self.notice(m);
                assert(tasks_view(tasks@) =~= Seq::empty());
                tasks
            },
            Ok(down) => {
                let ghost rebuild = TaskView::RebuildAgent {
                    label: p@.model,
                    summary: summary@,
                    context: "switched provider"@,
                };
                let local = p.kind == ProviderKind::LlamaCpp;
                if down && local {
                    self.notice(
                        joined3(
                            "llama-server at ",
                            &p.base_url,
                            " is not running — starting it…",
                        ),
                    );
                    tasks.push(Task::StartServer);
                }
                tasks.push(
                    Task::RebuildAgent {
                        label: p.model.clone(),
                        summary,
                        context: "switched provider".to_string(),
                    },
                );
                assert(tasks_view(tasks@) =~= (if down && local {
                    seq![TaskView::StartServer, rebuild]
                } else {
                    seq![rebuild]
                }));
                tasks
            },
        }
    }

    /// Another provider was activated from outside a command (a sign-in): add
    /// it and switch to it.
    pub fn provider_activated(&mut self, provider: ProviderConfig, summary: String) -> (r: Task)
        requires
            old(self)@.wf(),
        ensures
            final(self)@ == old(self)@.with_provider(provider@),
            r@ == (TaskView::RebuildProvider { summary: summary@ }),
            final(self)@.wf(),
    {
        self.add_provider_config(provider);
        Task::RebuildProvider { summary }
    }

    /// The main loop rebuilt the agent, or failed to and left its slot empty.
    pub fn agent_rebuilt(
        &mut self,
        label: String,
        summary: String,
        context: &str,
        r: Result<(), String>,
    ) -> (task: Option<Task>)
        requires
            old(self)@.wf(),
        ensures
            (final(self)@, task_opt(task)) == old(self)@.rebuild_done(
                label@,
                summary@,
                context@,
                done_view(r),
            ),
            final(self)@.wf(),
    {
        proof {
            reveal(AppView::rebuild_done);
        }
        match r {
            Ok(_) => {
                let plan = self.planning.plan_mode;
                self.turn.status.set_model(label);
                self.notice(summary);
                if plan {
                    Some(Task::SetPlanMode(true))
                } else {
                    None
                }
            },
            Err(e) => {
                let mut m = joined3(context, " but could not start the agent: ", &e);
                m.append(" — /quit and relaunch");
                self.notice(m);
                None
            },
        }
    }

    /// The main loop built the fused client, or failed to: its label.
    pub fn fusion_built(&mut self, r: Result<String, String>) -> (task: Option<Task>)
        requires
            old(self)@.wf(),
        ensures
            (final(self)@, task_opt(task)) == old(self)@.fusion_done(label_view(r)),
            final(self)@.wf(),
    {
        proof {
            reveal(AppView::fusion_done);
        }
        match r {
            Err(e) => {
                self.notice(joined("could not start fusion: ", &e));
                None
            },
            Ok(label) => {
                self.turn.set_fusion(true);
                let summary = joined(
                    &label,
                    " — every turn now fuses the panel; /fusion to turn off",
                );
                Some(Task::RebuildAgent { label, summary, context: "started fusion".to_string() })
            },
        }
    }

    /// The main loop built the configured roster, or failed to: its label.
    pub fn ultra_built(&mut self, r: Result<String, String>, slot: bool) -> (task: Option<Task>)
        requires
            old(self)@.wf(),
        ensures
            (final(self)@, task_opt(task)) == old(self)@.ultra_done(label_view(r), slot),
            final(self)@.wf(),
    {
        proof {
            reveal(AppView::ultra_done);
        }
        match r {
            Err(e) => {
                self.notice(joined("could not start ultra: ", &e));
                None
            },
            Ok(label) => {
                let m = joined(
                    &label,
                    " — each turn now drafts on the active model, compares, then acts; /ultra to turn off",
                );
                self.turn.set_ultra(Some(label));
                self.notice(m);
                if slot {
                    Some(Task::SetUltra)
                } else {
                    None
                }
            },
        }
    }

    /// The main loop built the roster chosen at the editor, or failed to.
    pub fn ultra_checked(&mut self, ultra: UltraConfig, r: Result<String, String>) -> (task: Option<
        Task,
    >)
        requires
            old(self)@.wf(),
        ensures
            (final(self)@, task_opt(task)) == old(self)@.roster_done(ultra@, label_view(r)),
            final(self)@.wf(),
    {
        proof {
            reveal(AppView::roster_done);
        }
        match r {
            Err(e) => {
                self.notice(joined("ultra roster rejected: ", &e));
                None
            },
            Ok(label) => {
                self.config.set_ultra(ultra);
                Some(Task::SaveUltra(label))
            },
        }
    }

    /// The main loop wrote the settings with the new roster, or failed to.
    pub fn ultra_saved(&mut self, label: String, r: Result<(), String>, slot: bool) -> (task:
        Option<Task>)
        requires
            old(self)@.wf(),
        ensures
            (final(self)@, task_opt(task)) == old(self)@.roster_saved(label@, done_view(r), slot),
            final(self)@.wf(),
    {
        proof {
            reveal(AppView::roster_saved);
        }
        match r {
            Err(e) => {
                self.notice(joined("could not save ultra config: ", &e));
                None
            },
            Ok(_) => {
                if self.turn.ultra.is_none() {
                    self.notice(joined(&label, " — /ultra to turn on"));
                    None
                } else if slot {
                    let m = joined(&label, " — applied");
                    self.turn.set_ultra(Some(label));
                    self.notice(m);
                    Some(Task::SetUltra)
                } else {
                    self.notice(
                        joined(
                            &label,
                            " — saved; the running turn keeps the old roster, /ultra off then on to pick this one up",
                        ),
                    );
                    None
                }
            },
        }
    }

    /// The main loop stored a provider's key, or failed to.
    pub fn provider_key_stored(&mut self, name: &str, r: Result<(), String>)
        requires
            old(self)@.wf(),
        ensures
            final(self)@ == match r {
                Ok(_) => old(self)@,
                Err(e) => old(self)@.noticed(
                    "could not save API key for '"@ + name@ + "': "@ + e@,
                ),
            },
            final(self)@.wf(),
    {
        if let Err(e) = r {
            let mut m = joined3("could not save API key for '", name, "': ");
            m.append(&e);
            self.notice(m);
        }
    }

    /// The main loop probed the local server for `/server status`; the process
    /// that was started from here, if any.
    pub fn server_probed(&mut self, health: Health, pid: Option<u32>)
        requires
            old(self)@.wf(),
        ensures
            final(self)@ == old(self)@.noticed(
                health_text(old(self)@.config.active().base_url, health, pid),
            ),
            final(self)@.wf(),
    {
        let p = self.config.active();
        self.notice(show_health(&p.base_url, health, pid));
    }

    /// The main loop probed the local server for `/server start`.
    pub fn server_start_probed(&mut self, health: Health) -> (task: Option<Task>)
        requires
            old(self)@.wf(),
        ensures
            (final(self)@, task_opt(task)) == old(self)@.start_probed(health),
            final(self)@.wf(),
    {
        let p = self.config.active();
        if health == Health::Ready {
            self.notice(joined3("llama-server at ", &p.base_url, " is already running"));
            None
        } else {
            self.notice(joined3("starting llama-server at ", &p.base_url, "…"));
            Some(Task::StartServer)
        }
    }

    /// The main loop stopped the local server, or did not.
    pub fn server_stopped(&mut self, r: Result<StopOutcome, String>)
        requires
            old(self)@.wf(),
        ensures
            final(self)@ == old(self)@.noticed(stop_text(r)),
            final(self)@.wf(),
    {
        self.notice(show_stop(r));
    }

    /// The main loop merged the tools of servers that connected late; success
    /// says nothing.
    pub fn tools_merged(&mut self, r: Result<(), String>)
        requires
            old(self)@.wf(),
        ensures
            final(self)@ == match r {
                Ok(_) => old(self)@,
                Err(e) => old(self)@.noticed(
                    "MCP connected but registry rebuild failed: "@ + e@,
                ),
            },
            final(self)@.wf(),
    {
        if let Err(e) = r {
            self.notice(joined("MCP connected but registry rebuild failed: ", &e));
        }
    }
}

} // verus!
