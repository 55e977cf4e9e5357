//! Work that slash commands ask of the main loop, and what they read of the
//! live agent.

use crate::commands::{ImportSelection, MemoryAction, MemoryActionView};
use crate::config::{
    FusionConfig, FusionView, Mode, ReasoningEffort, UltraConfig, UltraView,
};
use crate::json::text_opt;
use crate::text::texts;
use vstd::prelude::*;

verus! {

/// Work on the agent and its surroundings that a command asks of the main loop.
#[derive(Debug, PartialEq, Eq)]
pub enum Task {
    /// Read git's diffs, then call [`App::diff_read`].
    ReadDiff,
    /// Estimate what the session cost, then call [`App::cost_estimated`].
    EstimateCost,
    /// Answer `/memory` with a notice.
    Memory(MemoryAction),
    /// Run the diagnostics, then call [`App::diagnosed`].
    Doctor,
    /// Read the standing goal, then call [`App::goal_read`].
    ReadGoal,
    /// Store the standing goal, then call [`App::goal_set`].
    SetGoal(String),
    /// Clear the agent's session, then call [`App::session_cleared`].
    ClearSession,
    /// List the installed models, then call [`App::models_listed`].
    ListModels,
    /// Switch the agent to another model in the background.
    SwitchModel(String),
    /// Set the live agent's mode.
    SetMode(Mode),
    /// Set the live agent's reasoning effort.
    SetEffort(Option<ReasoningEffort>),
    /// Set the live agent's plan mode.
    SetPlanMode(bool),
    /// Set the live agent's omakase mode.
    SetOmakase(bool),
    /// Rewind files and session to before a turn, then call [`App::rewound`].
    Rewind(u64),
    /// List the past sessions, then call [`App::open_resume_picker`].
    ListSessions,
    /// Reopen a session, then call [`App::session_resumed`].
    Resume(String),
    /// List the subagents, then call [`App::open_agents_picker`].
    ListAgents,
    /// Reload skills, commands and tools, then call [`App::reloaded`].
    Reload,
    /// Import from the other agent, then call [`App::imported`].
    Import(ImportSelection),
    /// Extend Wizard in the background.
    Evolve { deep: bool, description: String },
    /// Publish a fork in the background.
    Publish { branch: Option<String> },
    /// Rebuild the client from the active provider, then the agent.
    RebuildProvider { summary: String },
    /// Build the fused client, then call [`App::fusion_built`].
    BuildFusion(FusionConfig),
    /// Rebuild the agent on the current client, then call [`App::agent_rebuilt`].
    RebuildAgent { label: String, summary: String, context: String },
    /// Take the roster off the live agent.
    StopUltra,
    /// Build the configured roster, then call [`App::ultra_built`].
    BuildUltra,
    /// Build a chosen roster, then call [`App::ultra_checked`].
    CheckUltra(UltraConfig),
    /// Write the settings with the new roster, then call [`App::ultra_saved`].
    SaveUltra(String),
    /// Put the newly built roster on the live agent.
    SetUltra,
    /// List the lenses, then call [`App::open_ultra_picker`].
    ListLenses,
    /// Probe the local server, then call [`App::server_probed`].
    ProbeServer,
    /// Probe the local server, then call [`App::server_start_probed`].
    ProbeBeforeStart,
    /// Start the local server in the background.
    StartServer,
    /// Stop the local server, then call [`App::server_stopped`].
    StopServer,
    /// Sign in to xAI in the background.
    Login,
}

/// What a [`Task`] says.
pub enum TaskView {
    ReadDiff,
    EstimateCost,
    Memory(MemoryActionView),
    Doctor,
    ReadGoal,
    SetGoal(Seq<char>),
    ClearSession,
    ListModels,
    SwitchModel(Seq<char>),
    SetMode(Mode),
    SetEffort(Option<ReasoningEffort>),
    SetPlanMode(bool),
    SetOmakase(bool),
    Rewind(u64),
    ListSessions,
    Resume(Seq<char>),
    ListAgents,
    Reload,
    Import(ImportSelection),
    Evolve { deep: bool, description: Seq<char> },
    Publish { branch: Option<Seq<char>> },
    RebuildProvider { summary: Seq<char> },
    BuildFusion(FusionView),
    RebuildAgent { label: Seq<char>, summary: Seq<char>, context: Seq<char> },
    StopUltra,
    BuildUltra,
    CheckUltra(UltraView),
    SaveUltra(Seq<char>),
    SetUltra,
    ListLenses,
    ProbeServer,
    ProbeBeforeStart,
    StartServer,
    StopServer,
    Login,
}

impl View for Task {
    type V = TaskView;

    open spec fn view(&self) -> TaskView {
        match self {
            Task::ReadDiff => TaskView::ReadDiff,
            Task::EstimateCost => TaskView::EstimateCost,
            Task::Memory(x) => TaskView::Memory(x@),
            Task::Doctor => TaskView::Doctor,
            Task::ReadGoal => TaskView::ReadGoal,
            Task::SetGoal(x) => TaskView::SetGoal(x@),
            Task::ClearSession => TaskView::ClearSession,
            Task::ListModels => TaskView::ListModels,
            Task::SwitchModel(x) => TaskView::SwitchModel(x@),
            Task::SetMode(x) => TaskView::SetMode(*x),
            Task::SetEffort(x) => TaskView::SetEffort(*x),
            Task::SetPlanMode(x) => TaskView::SetPlanMode(*x),
            Task::SetOmakase(x) => TaskView::SetOmakase(*x),
            Task::Rewind(x) => TaskView::Rewind(*x),
            Task::ListSessions => TaskView::ListSessions,
            Task::Resume(x) => TaskView::Resume(x@),
            Task::ListAgents => TaskView::ListAgents,
            Task::Reload => TaskView::Reload,
            Task::Import(x) => TaskView::Import(*x),
            Task::Evolve { deep, description } => TaskView::Evolve {
                deep: *deep,
                description: description@,
            },
            Task::Publish { branch } => TaskView::Publish {
                branch: text_opt(*branch),
            },
            Task::RebuildProvider { summary } => TaskView::RebuildProvider {
                summary: summary@,
            },
            Task::BuildFusion(x) => TaskView::BuildFusion(x@),
            Task::RebuildAgent { label, summary, context } => TaskView::RebuildAgent {
                label: label@,
                summary: summary@,
                context: context@,
            },
            Task::StopUltra => TaskView::StopUltra,
            Task::BuildUltra => TaskView::BuildUltra,
            Task::CheckUltra(x) => TaskView::CheckUltra(x@),
            Task::SaveUltra(x) => TaskView::SaveUltra(x@),
            Task::SetUltra => TaskView::SetUltra,
            Task::ListLenses => TaskView::ListLenses,
            Task::ProbeServer => TaskView::ProbeServer,
            Task::ProbeBeforeStart => TaskView::ProbeBeforeStart,
            Task::StartServer => TaskView::StartServer,
            Task::StopServer => TaskView::StopServer,
            Task::Login => TaskView::Login,
        }
    }
}

/// What an optional task says.
pub open spec fn task_opt(t: Option<Task>) -> Option<TaskView> {
    match t {
        Some(x) => Some(x@),
        None => None,
    }
}

/// A background task of the session.
pub struct TaskRow {
    pub id: u32,
    pub status: String,
    pub command: String,
}

pub struct RowView {
    pub id: u32,
    pub status: Seq<char>,
    pub command: Seq<char>,
}

impl View for TaskRow {
    type V = RowView;

    open spec fn view(&self) -> RowView {
        RowView { id: self.id, status: self.status@, command: self.command@ }
    }
}

/// A turn that can be rewound: its prompt's first line and the files it edited.
pub struct RewindCandidate {
    pub turn: u64,
    pub prompt: String,
    pub files: Vec<String>,
}

pub struct CandidateView {
    pub turn: u64,
    pub prompt: Seq<char>,
    pub files: Seq<Seq<char>>,
}

impl View for RewindCandidate {
    type V = CandidateView;

    open spec fn view(&self) -> CandidateView {
        CandidateView { turn: self.turn, prompt: self.prompt@, files: texts(self.files@) }
    }
}

pub open spec fn rows_view(r: Seq<TaskRow>) -> Seq<RowView> {
    r.map_values(|x: TaskRow| x@)
}

pub open spec fn candidates_view(c: Seq<RewindCandidate>) -> Seq<CandidateView> {
    c.map_values(|x: RewindCandidate| x@)
}

/// What commands read of the agent while it is in its slot.
pub struct AgentFacts {
    pub session_id: String,
    pub prompt_tokens: u64,
    pub completion_tokens: u64,
    pub running_tasks: usize,
    /// Every background task, newest last.
    pub tasks: Vec<TaskRow>,
    /// The turns that can be rewound, newest first.
    pub candidates: Vec<RewindCandidate>,
}

pub struct FactsView {
    pub session_id: Seq<char>,
    pub prompt_tokens: u64,
    pub completion_tokens: u64,
    pub running_tasks: usize,
    pub tasks: Seq<RowView>,
    pub candidates: Seq<CandidateView>,
}

impl View for AgentFacts {
    type V = FactsView;

    open spec fn view(&self) -> FactsView {
        FactsView {
            session_id: self.session_id@,
            prompt_tokens: self.prompt_tokens,
            completion_tokens: self.completion_tokens,
            running_tasks: self.running_tasks,
            tasks: rows_view(self.tasks@),
            candidates: candidates_view(self.candidates@),
        }
    }
}

/// What is known of the agent's slot; `None` while a turn holds the agent.
pub open spec fn facts_opt(f: Option<&AgentFacts>) -> Option<FactsView> {
    match f {
        Some(x) => Some(x@),
        None => None,
    }
}

} // verus!
