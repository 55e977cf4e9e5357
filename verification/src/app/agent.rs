//! What the agent reports, folded into the transcript, the status bar and the
//! rail.

use crate::app::picker::{StatusLine, StatusView};
use crate::app::prompts::{
    questions_view, Interview, InterviewQuestion, InterviewView, PlanReview, QuestionView,
    ReviewView,
};
use crate::app::rail::pane_of;
use crate::app::state::{
    todos_view, App, AppView, Chat, ChatView, Effect, EffectView, Panels, PanelsView, Planning,
    PlanningView, Rail, RailView, TodoItem, TodoView, TurnView,
};
use crate::app::transcript::{
    collapse_long, entries, fill_open_card, filled, image_entries, is_long, open_card, refs_view,
    shown, EntryView, ImageRef, ImageSource, ImageView, PaneStatus, PaneView, SourceView,
    SubagentPane, ToolOutput, TranscriptEntry,
};
use crate::json::{text_opt, Json, JsonView};
use crate::text::{blank, decimal, is_blank, number, same};
use vstd::prelude::*;

verus! {

/// Why a turn ended.
#[derive(Debug, Clone, Copy, PartialEq, Eq, Structural)]
pub enum DoneReason {
    Completed,
    MaxSteps,
    TimeLimit,
    Stopped,
    CircuitBreaker,
}

/// What the agent reports while a turn runs.
#[allow(inconsistent_fields)]
pub enum AgentEvent {
    TextDelta(String),
    ThinkingDelta(String),
    ToolStarted { name: String, args: Json },
    ToolFinished { name: String, output: ToolOutput },
    Images { source: ImageSource, images: Vec<ImageRef> },
    StepCompleted { step: u32 },
    Error(String),
    Notice(String),
    StreamRetrying,
    HookFired { event: String, command: String, outcome: String },
    PlanReady { plan: String },
    Interview { questions: Vec<InterviewQuestion> },
    OmakaseProceeding { plan: String },
    Usage { prompt_tokens: u64, completion_tokens: u64 },
    ContextSize { tokens: u64 },
    UltraGuidance { label: String, guidance: String },
    TaskStarted,
    TaskFinished { id: u32, command: String, status: String },
    SubagentStarted,
    SubagentFinished { id: u32, name: String, task: String, completed: bool },
    SubagentRunStarted { run: u64, bg: Option<u32>, name: String, task: String },
    SubagentRunText { run: u64, text: String },
    SubagentRunToolStarted { run: u64, name: String, args: Json },
    SubagentRunToolFinished { run: u64, name: String, output: ToolOutput },
    SubagentRunImages { run: u64, source: ImageSource, images: Vec<ImageRef> },
    SubagentRunStep { run: u64, step: u32 },
    SubagentRunDone { run: u64, completed: bool, output: String, error: Option<String> },
    TodoUpdated(Vec<TodoItem>),
    CommandRequested(String),
    Done { reason: DoneReason },
}

/// What an [`AgentEvent`] says.
pub enum AgentEventView {
    TextDelta(Seq<char>),
    ThinkingDelta(Seq<char>),
    ToolStarted { name: Seq<char>, args: JsonView },
    ToolFinished { name: Seq<char>, content: Seq<char>, is_error: bool },
    Images { source: SourceView, images: Seq<ImageView> },
    StepCompleted { step: u32 },
    Error(Seq<char>),
    Notice(Seq<char>),
    StreamRetrying,
    HookFired { event: Seq<char>, command: Seq<char>, outcome: Seq<char> },
    PlanReady { plan: Seq<char> },
    Interview { questions: Seq<QuestionView> },
    OmakaseProceeding { plan: Seq<char> },
    Usage { prompt_tokens: u64, completion_tokens: u64 },
    ContextSize { tokens: u64 },
    UltraGuidance { label: Seq<char>, guidance: Seq<char> },
    TaskStarted,
    TaskFinished { id: u32, command: Seq<char>, status: Seq<char> },
    SubagentStarted,
    SubagentFinished { id: u32, name: Seq<char>, task: Seq<char>, completed: bool },
    SubagentRunStarted { run: u64, bg: Option<u32>, name: Seq<char>, task: Seq<char> },
    SubagentRunText { run: u64, text: Seq<char> },
    SubagentRunToolStarted { run: u64, name: Seq<char>, args: JsonView },
    SubagentRunToolFinished { run: u64, name: Seq<char>, content: Seq<char>, is_error: bool },
    SubagentRunImages { run: u64, source: SourceView, images: Seq<ImageView> },
    SubagentRunStep { run: u64, step: u32 },
    SubagentRunDone {
        run: u64,
        completed: bool,
        output: Seq<char>,
        error: Option<Seq<char>>,
    },
    TodoUpdated(Seq<TodoView>),
    CommandRequested(Seq<char>),
    Done { reason: DoneReason },
}

impl View for AgentEvent {
    type V = AgentEventView;

    open spec fn view(&self) -> AgentEventView {
        match self {
            AgentEvent::TextDelta(t) => AgentEventView::TextDelta(t@),
            AgentEvent::ThinkingDelta(t) => AgentEventView::ThinkingDelta(t@),
            AgentEvent::ToolStarted { name, args } => AgentEventView::ToolStarted {
                name: name@,
                args: args@,
            },
            AgentEvent::ToolFinished { name, output } => AgentEventView::ToolFinished {
                name: name@,
                content: output.content@,
                is_error: output.is_error,
            },
            AgentEvent::Images { source, images } => AgentEventView::Images {
                source: source@,
                images: refs_view(images@),
            },
            AgentEvent::StepCompleted { step } => AgentEventView::StepCompleted { step: *step },
            AgentEvent::Error(t) => AgentEventView::Error(t@),
            AgentEvent::Notice(t) => AgentEventView::Notice(t@),
            AgentEvent::StreamRetrying => AgentEventView::StreamRetrying,
            AgentEvent::HookFired { event, command, outcome } => AgentEventView::HookFired {
                event: event@,
                command: command@,
                outcome: outcome@,
            },
            AgentEvent::PlanReady { plan } => AgentEventView::PlanReady { plan: plan@ },
            AgentEvent::Interview { questions } => AgentEventView::Interview {
                questions: questions_view(questions@),
            },
            AgentEvent::OmakaseProceeding { plan } => AgentEventView::OmakaseProceeding {
                plan: plan@,
            },
            AgentEvent::Usage { prompt_tokens, completion_tokens } => AgentEventView::Usage {
                prompt_tokens: *prompt_tokens,
                completion_tokens: *completion_tokens,
            },
            AgentEvent::ContextSize { tokens } => AgentEventView::ContextSize { tokens: *tokens },
            AgentEvent::UltraGuidance { label, guidance } => AgentEventView::UltraGuidance {
                label: label@,
                guidance: guidance@,
            },
            AgentEvent::TaskStarted => AgentEventView::TaskStarted,
            AgentEvent::TaskFinished { id, command, status } => AgentEventView::TaskFinished {
                id: *id,
                command: command@,
                status: status@,
            },
            AgentEvent::SubagentStarted => AgentEventView::SubagentStarted,
            AgentEvent::SubagentFinished { id, name, task, completed } =>
                AgentEventView::SubagentFinished {
                id: *id,
                name: name@,
                task: task@,
                completed: *completed,
            },
            AgentEvent::SubagentRunStarted { run, bg, name, task } =>
                AgentEventView::SubagentRunStarted {
                run: *run,
                bg: *bg,
                name: name@,
                task: task@,
            },
            AgentEvent::SubagentRunText { run, text } => AgentEventView::SubagentRunText {
                run: *run,
                text: text@,
            },
            AgentEvent::SubagentRunToolStarted { run, name, args } =>
                AgentEventView::SubagentRunToolStarted { run: *run, name: name@, args: args@ },
            AgentEvent::SubagentRunToolFinished { run, name, output } =>
                AgentEventView::SubagentRunToolFinished {
                run: *run,
                name: name@,
                content: output.content@,
                is_error: output.is_error,
            },
            AgentEvent::SubagentRunImages { run, source, images } =>
                AgentEventView::SubagentRunImages {
                run: *run,
                source: source@,
                images: refs_view(images@),
            },
            AgentEvent::SubagentRunStep { run, step } => AgentEventView::SubagentRunStep {
                run: *run,
                step: *step,
            },
            AgentEvent::SubagentRunDone { run, completed, output, error } =>
                AgentEventView::SubagentRunDone {
                run: *run,
                completed: *completed,
                output: output@,
                error: text_opt(*error),
            },
            AgentEvent::TodoUpdated(t) => AgentEventView::TodoUpdated(todos_view(t@)),
            AgentEvent::CommandRequested(t) => AgentEventView::CommandRequested(t@),
            AgentEvent::Done { reason } => AgentEventView::Done { reason: *reason },
        }
    }
}

/// A finished card that no call opened.
pub open spec fn result_card(
    name: Seq<char>,
    content: Seq<char>,
    is_error: bool,
    collapsed: bool,
) -> EntryView {
    EntryView::ToolCard {
        name,
        args: JsonView::Null,
        output: Some(content),
        is_error,
        collapsed,
    }
}

/// A card of a call that has started.
pub open spec fn started_card(name: Seq<char>, args: JsonView) -> EntryView {
    EntryView::ToolCard { name, args, output: None, is_error: false, collapsed: false }
}

fn new_result_card(name: String, content: String, is_error: bool, collapsed: bool) -> (r:
    TranscriptEntry)
    ensures
        r@ == result_card(name@, content@, is_error, collapsed),
{
    TranscriptEntry::ToolCard {
        name,
        args: Json::Null,
        output: Some(content),
        is_error,
        collapsed,
    }
}

fn new_started_card(name: String, args: Json) -> (r: TranscriptEntry)
    ensures
        r@ == started_card(name@, args@),
{
    TranscriptEntry::ToolCard { name, args, output: None, is_error: false, collapsed: false }
}

impl ChatView {
    /// A tool's result: in the newest open card of that tool, else in a card
    /// of its own.
    pub open spec fn tool_finished(
        self,
        name: Seq<char>,
        content: Seq<char>,
        is_error: bool,
    ) -> ChatView {
        let i = open_card(self.transcript, name);
        let collapsed = is_error || is_long(content);
        if i < 0 {
            self.with(result_card(name, content, is_error, collapsed))
        } else {
            ChatView {
                transcript: self.transcript.update(
                    i,
                    filled(self.transcript[i], content, is_error, collapsed),
                ),
                ..self
            }
        }
    }

    /// More entries.
    pub open spec fn with_all(self, more: Seq<EntryView>) -> ChatView {
        ChatView { transcript: self.transcript + more, ..self }
    }
}

impl Chat {
    fn finish_tool(&mut self, name: String, output: ToolOutput)
        ensures
            final(self)@ == old(self)@.tool_finished(name@, output.content@, output.is_error),
    {
        let left = fill_open_card(&mut self.transcript, &name, output);
        if let Some(out) = left {
            let collapsed = out.is_error || collapse_long(&out.content);
            self.push(new_result_card(name, out.content, out.is_error, collapsed));
        }
    }

    /// Appends entries.
    pub(crate) fn push_all(&mut self, more: Vec<TranscriptEntry>)
        ensures
            final(self)@ == old(self)@.with_all(entries(more@)),
    {
        let mut more = more;
        let ghost all = more@;
        self.transcript.append(&mut more);
        assert(self@.transcript =~= old(self)@.transcript + entries(all));
    }
}

/// `a + b`, no more than the largest number.
pub open spec fn added(a: u64, b: u64) -> u64 {
    if a + b > u64::MAX {
        u64::MAX
    } else {
        (a + b) as u64
    }
}

/// One more, no more than the largest number.
pub open spec fn one_more(n: usize) -> usize {
    if n == usize::MAX {
        n
    } else {
        (n + 1) as usize
    }
}

/// One less, no less than zero.
pub open spec fn one_less(n: usize) -> usize {
    if n == 0 {
        0
    } else {
        (n - 1) as usize
    }
}

impl StatusView {
    /// A call's tokens: on top of the totals, and its prompt is the context
    /// now.
    pub open spec fn used(self, prompt: u64, completion: u64) -> StatusView {
        StatusView {
            prompt_tokens: added(self.prompt_tokens, prompt),
            completion_tokens: added(self.completion_tokens, completion),
            context_tokens: if prompt > 0 {
                prompt
            } else {
                self.context_tokens
            },
            ..self
        }
    }
}

impl AgentEventView {
    /// The event only changes what the status bar counts.
    pub open spec fn is_tally(self) -> bool {
        self is StepCompleted || self is Usage || self is ContextSize || self is TaskStarted
            || self is SubagentStarted
    }
}

impl StatusView {
    /// What the status bar counts after an event.
    #[verifier::opaque]
    pub open spec fn tallied(self, event: AgentEventView) -> StatusView {
        match event {
            AgentEventView::StepCompleted { step } => StatusView { step, ..self },
            AgentEventView::Usage { prompt_tokens, completion_tokens } => self.used(
                prompt_tokens,
                completion_tokens,
            ),
            AgentEventView::ContextSize { tokens } => StatusView { context_tokens: tokens, ..self },
            AgentEventView::TaskStarted => StatusView {
                background_tasks: one_more(self.background_tasks),
                ..self
            },
            AgentEventView::SubagentStarted => StatusView {
                background_subagents: one_more(self.background_subagents),
                ..self
            },
            _ => self,
        }
    }
}

impl StatusLine {
    fn tally(&mut self, event: &AgentEvent)
        ensures
            final(self)@ == old(self)@.tallied(event@),
    {
        proof {
            reveal(StatusView::tallied);
        }
        match event {
            AgentEvent::StepCompleted { step } => {
                self.step = *step;
            },
            AgentEvent::Usage { prompt_tokens, completion_tokens } => {
                self.count_usage(*prompt_tokens, *completion_tokens);
            },
            AgentEvent::ContextSize { tokens } => {
                self.context_tokens = *tokens;
            },
            AgentEvent::TaskStarted => {
                self.background_tasks = self.background_tasks.saturating_add(1);
            },
            AgentEvent::SubagentStarted => {
                self.background_subagents = self.background_subagents.saturating_add(1);
            },
            _ => {},
        }
    }

    fn count_usage(&mut self, prompt: u64, completion: u64)
        ensures
            final(self)@ == old(self)@.used(prompt, completion),
    {
        self.prompt_tokens = self.prompt_tokens.saturating_add(prompt);
        self.completion_tokens = self.completion_tokens.saturating_add(completion);
        if prompt > 0 {
            self.context_tokens = prompt;
        }
    }
}

impl PaneView {
    /// The run over: its report and how it failed at the end of its
    /// transcript, unread unless it is being watched.
    pub open spec fn concluded(
        self,
        completed: bool,
        output: Seq<char>,
        error: Option<Seq<char>>,
        now: u64,
        watched: bool,
    ) -> PaneView {
        let told = if is_blank(output) || (self.transcript.len() > 0 && self.transcript.last()
            == EntryView::Assistant(output)) {
            self.transcript
        } else {
            self.transcript.push(EntryView::Assistant(output))
        };
        PaneView {
            status: if completed {
                PaneStatus::Done
            } else {
                PaneStatus::Failed
            },
            finished: Some(now),
            transcript: match error {
                Some(e) => told.push(EntryView::Notice("failed: "@ + e)),
                None => if completed {
                    told
                } else {
                    told.push(EntryView::Notice("hit its step budget"@))
                },
            },
            unread: if watched {
                self.unread
            } else {
                one_more(self.unread)
            },
            ..self
        }
    }
}

/// What is written back of a run to the card that launched it.
pub open spec fn run_report(
    steps: u32,
    completed: bool,
    output: Seq<char>,
    error: Option<Seq<char>>,
) -> Seq<char> {
    match error {
        Some(e) => "failed: "@ + e,
        None => if completed {
            output
        } else {
            "hit its step budget after "@ + decimal(steps as nat) + " step(s).\n\n"@ + output
        },
    }
}

fn report_text(steps: u32, completed: bool, output: String, error: Option<String>) -> (r: String)
    ensures
        r@ == run_report(steps, completed, output@, text_opt(error)),
{
    match error {
        Some(e) => {
            let mut m = "failed: ".to_string();
            m.append(&e);
            m
        },
        None => {
            if completed {
                output
            } else {
                let mut m = "hit its step budget after ".to_string();
                m.append(&number(steps as u64));
                m.append(" step(s).\n\n");
                m.append(&output);
                m
            }
        },
    }
}

impl SubagentPane {
    fn says_last(&self, output: &str) -> (r: bool)
        ensures
            r == (self@.transcript.len() > 0 && self@.transcript.last() == EntryView::Assistant(
                output@,
            )),
    {
        let n = self.transcript.len();
        assert(self@.transcript.len() == n);
        if n == 0 {
            return false;
        }
        assert(self@.transcript.last() == self.transcript@[n - 1]@);
        match &self.transcript[n - 1] {
            TranscriptEntry::Assistant(text) => same(text, output),
            _ => false,
        }
    }

    fn write(&mut self, entry: TranscriptEntry)
        ensures
            final(self)@ == (PaneView {
                transcript: old(self)@.transcript.push(entry@),
                ..old(self)@
            }),
    {
        self.transcript.push(entry);
        assert(self@.transcript =~= old(self)@.transcript.push(entry@));
    }

    fn conclude(
        &mut self,
        completed: bool,
        output: &str,
        error: &Option<String>,
        now: u64,
        watched: bool,
    )
        ensures
            final(self)@ == old(self)@.concluded(
                completed,
                output@,
                text_opt(*error),
                now,
                watched,
            ),
    {
        let last = self.says_last(output);
        if !(blank(output) || last) {
            self.write(TranscriptEntry::Assistant(output.to_string()));
        }
        match error {
            Some(e) => {
                let mut m = "failed: ".to_string();
                m.append(e);
                self.write(TranscriptEntry::Notice(m));
            },
            None => {
                if !completed {
                    self.write(TranscriptEntry::Notice("hit its step budget".to_string()));
                }
            },
        }
        self.status = if completed {
            PaneStatus::Done
        } else {
            PaneStatus::Failed
        };
        self.finished = Some(now);
        if !watched {
            self.unread = self.unread.saturating_add(1);
        }
    }
}

impl RailView {
    /// Another run.
    pub open spec fn with_run(self, pane: PaneView) -> RailView {
        RailView { panes: self.panes.push(pane), ..self }
    }

    /// More entries in a run's pane.
    pub open spec fn with_entries(self, run: u64, more: Seq<EntryView>) -> RailView
        decreases more.len(),
    {
        if more.len() == 0 {
            self
        } else {
            self.with_entries(run, more.drop_last()).with_entry(run, more.last())
        }
    }

    /// A pane changed.
    pub open spec fn with_pane(self, i: int, pane: PaneView) -> RailView {
        RailView { panes: self.panes.update(i, pane), ..self }
    }

    /// A tool's result in the newest open card of a run's pane; dropped
    /// without one.
    pub open spec fn tool_finished(
        self,
        run: u64,
        name: Seq<char>,
        content: Seq<char>,
        is_error: bool,
    ) -> RailView {
        match pane_of(self.panes, run) {
            None => self,
            Some(index) => {
                let pane = self.panes[index as int];
                let i = open_card(pane.transcript, name);
                if i < 0 {
                    self
                } else {
                    self.with_pane(
                        index as int,
                        PaneView {
                            transcript: pane.transcript.update(
                                i,
                                filled(
                                    pane.transcript[i],
                                    content,
                                    is_error,
                                    is_error || is_long(content),
                                ),
                            ),
                            ..pane
                        },
                    )
                }
            },
        }
    }

    /// A run's step count.
    pub open spec fn stepped_to(self, run: u64, step: u32) -> RailView {
        match pane_of(self.panes, run) {
            None => self,
            Some(i) => self.with_pane(
                i as int,
                PaneView { steps: step, ..self.panes[i as int] },
            ),
        }
    }
}

impl Rail {
    fn add_run(&mut self, pane: SubagentPane)
        requires
            old(self)@.wf(),
        ensures
            final(self)@ == old(self)@.with_run(pane@),
            final(self)@.wf(),
    {
        self.panes.push(pane);
        assert(self@.panes =~= old(self)@.panes.push(pane@));
    }

    fn push_entries(&mut self, run: u64, more: Vec<TranscriptEntry>)
        requires
            old(self)@.wf(),
        ensures
            final(self)@ == old(self)@.with_entries(run, entries(more@)),
            final(self)@.wf(),
    {
        let ghost all = more@;
        assert(entries(all).take(0) =~= Seq::empty());
        for entry in it: more
            invariant
                it.seq() == all,
                self@ == old(self)@.with_entries(run, entries(all).take(it.index() as int)),
                self@.wf(),
        {
            proof {
                let k = it.index() as int;
                assert(entries(all).take(k + 1).drop_last() =~= entries(all).take(k));
                assert(entries(all).take(k + 1).last() == entry@);
            }
            self.push_pane(run, entry);
        }
        assert(entries(all).take(all.len() as int) =~= entries(all));
    }

    fn finish_tool(&mut self, run: u64, name: &str, output: ToolOutput)
        requires
            old(self)@.wf(),
        ensures
            final(self)@ == old(self)@.tool_finished(
                run,
                name@,
                output.content@,
                output.is_error,
            ),
            final(self)@.wf(),
    {
        if let Some(index) = self.pane_index(run) {
            let ghost before = self@;
            assert(before.panes[index as int] == self.panes@[index as int]@);
            fill_open_card(&mut self.panes[index].transcript, name, output);
            assert(self@.panes =~= before.tool_finished(
                run,
                name@,
                output.content@,
                output.is_error,
            ).panes);
        }
    }

    fn set_step(&mut self, run: u64, step: u32)
        requires
            old(self)@.wf(),
        ensures
            final(self)@ == old(self)@.stepped_to(run, step),
            final(self)@.wf(),
    {
        if let Some(index) = self.pane_index(run) {
            let ghost before = self@;
            self.panes[index].steps = step;
            assert(self@.panes =~= before.stepped_to(run, step).panes);
        }
    }

    fn conclude_run(
        &mut self,
        index: usize,
        completed: bool,
        output: &str,
        error: &Option<String>,
        now: u64,
    )
        requires
            old(self)@.wf(),
            index < old(self)@.panes.len(),
        ensures
            final(self)@ == old(self)@.with_pane(
                index as int,
                old(self)@.panes[index as int].concluded(
                    completed,
                    output@,
                    text_opt(*error),
                    now,
                    old(self)@.attached == Some(index),
                ),
            ),
            final(self)@.wf(),
    {
        let watched = match self.attached {
            Some(i) => i == index,
            None => false,
        };
        let ghost before = self@;
        assert(before.panes[index as int] == self.panes@[index as int]@);
        self.panes[index].conclude(completed, output, error, now, watched);
        assert(self@.panes =~= before.panes.update(
            index as int,
            before.panes[index as int].concluded(
                completed,
                output@,
                text_opt(*error),
                now,
                before.attached == Some(index),
            ),
        ));
    }
}

impl PanelsView {
    /// The agent's todo list; the first one that is not empty opens the band.
    pub open spec fn todos_updated(self, todos: Seq<TodoView>) -> PanelsView {
        let first = !self.todos_seen && todos.len() > 0;
        PanelsView {
            todos,
            todos_seen: self.todos_seen || first,
            show_todos: self.show_todos || first,
            ..self
        }
    }
}

impl Panels {
    fn update_todos(&mut self, items: Vec<TodoItem>)
        ensures
            final(self)@ == old(self)@.todos_updated(todos_view(items@)),
    {
        assert(todos_view(items@).len() == items@.len());
        let first = !self.todos_seen && items.len() > 0;
        self.todos = items;
        if first {
            self.todos_seen = true;
            self.show_todos = true;
        }
    }
}

impl AppView {
    pub open spec fn with_status(self, status: StatusView) -> AppView {
        self.with_turn(TurnView { status, ..self.turn })
    }

    pub open spec fn with_planning(self, planning: PlanningView) -> AppView {
        AppView { planning, ..self }
    }

    /// Partial text moved into the transcript.
    pub open spec fn flushed(self) -> AppView {
        self.with_chat(self.chat.flushed())
    }

    /// Partial text moved, then one more entry.
    pub open spec fn recorded(self, entry: EntryView) -> AppView {
        self.with_chat(self.chat.flushed().with(entry))
    }

    /// A plan waits for review, which puts plan mode on.
    #[verifier::opaque]
    pub open spec fn plan_ready(self, plan: Seq<char>) -> AppView {
        let s = self.flushed();
        s.with_planning(
            PlanningView {
                plan_mode: true,
                plan_review: Some(ReviewView { plan, feedback: None, scroll: 0 }),
                ..s.planning
            },
        )
    }

    /// An interview opens; one without questions is declined at once.
    #[verifier::opaque]
    pub open spec fn interview_asked(self, questions: Seq<QuestionView>) -> AppView {
        let s = self.flushed();
        if questions.len() == 0 {
            s.asking(EffectView::Answers(None))
        } else {
            s.with_interview(
                Some(
                    InterviewView {
                        questions,
                        answers: Seq::empty(),
                        current: 0,
                        input: Seq::empty(),
                    },
                ),
            )
        }
    }

    /// The agent goes ahead with its own plan.
    #[verifier::opaque]
    pub open spec fn omakase_started(self, plan: Seq<char>) -> AppView {
        let s = self.recorded(result_card("omakase plan (chef's choice)"@, plan, false, false));
        s.with_planning(PlanningView { plan_mode: false, omakase: false, ..s.planning }).noticed(
            "omakase — chef's choice: proceeding with the agent's own plan"@,
        )
    }

    #[verifier::opaque]
    pub open spec fn task_finished(self, id: u32, command: Seq<char>, status: Seq<char>) -> AppView {
        let st = self.turn.status;
        self.with_status(
            StatusView { background_tasks: one_less(st.background_tasks), ..st },
        ).noticed(
            "background task #"@ + decimal(id as nat) + " finished ("@ + status + "): "@ + command,
        )
    }

    #[verifier::opaque]
    pub open spec fn subagent_finished(
        self,
        id: u32,
        name: Seq<char>,
        task: Seq<char>,
        completed: bool,
    ) -> AppView {
        let st = self.turn.status;
        self.with_status(
            StatusView { background_subagents: one_less(st.background_subagents), ..st },
        ).noticed(
            "background subagent #"@ + decimal(id as nat) + " '"@ + name + "' "@ + (if completed {
                "finished"@
            } else {
                "hit its step budget"@
            }) + ": "@ + task,
        )
    }

    /// A run is over: its pane is closed out, and a detached run's report goes
    /// back to the card that launched it.
    #[verifier::opaque]
    pub open spec fn run_done(
        self,
        run: u64,
        completed: bool,
        output: Seq<char>,
        error: Option<Seq<char>>,
    ) -> AppView {
        match pane_of(self.rail.panes, run) {
            None => self,
            Some(i) => {
                let pane = self.rail.panes[i as int];
                let s = self.with_rail(
                    self.rail.with_pane(
                        i as int,
                        pane.concluded(
                            completed,
                            output,
                            error,
                            self.now,
                            self.rail.attached == Some(i),
                        ),
                    ),
                );
                if pane.bg is None {
                    s
                } else {
                    s.with_chat(
                        s.chat.reported(
                            pane.name,
                            pane.task,
                            run_report(pane.steps, completed, output, error),
                            !completed,
                        ),
                    )
                }
            },
        }
    }

    /// A command the agent asked for waits for the turn to end.
    #[verifier::opaque]
    pub open spec fn command_requested(self, line: Seq<char>) -> AppView {
        let s = self.noticed("agent requested "@ + line + " (runs after this turn)"@);
        s.with_turn(
            TurnView { pending_agent_commands: s.turn.pending_agent_commands.push(line), ..s.turn },
        )
    }

    /// The turn is over.
    #[verifier::opaque]
    pub open spec fn turn_done(self, reason: DoneReason) -> AppView {
        let f = self.flushed();
        let s = f.with_turn(
            TurnView {
                status: StatusView { busy: false, ..f.turn.status },
                turn_started: None,
                ..f.turn
            },
        );
        match reason {
            DoneReason::Completed => s,
            DoneReason::MaxSteps => s.noticed(
                "step budget reached ("@ + s.turn.status.max_steps.label()
                    + ") — send another message to continue"@,
            ),
            DoneReason::TimeLimit => s.noticed("time limit reached"@),
            DoneReason::Stopped => s.noticed("turn stopped"@),
            DoneReason::CircuitBreaker => s.noticed(
                "circuit breaker tripped: repeated identical failures"@,
            ),
        }
    }

    /// An event of a subagent run; any other leaves the state as it is.
    #[verifier::opaque]
    pub open spec fn run_event(self, event: AgentEventView) -> AppView {
        match event {
            AgentEventView::SubagentRunStarted { run, bg, name, task } => self.with_rail(
                self.rail.with_run(PaneView::fresh(run, bg, name, task, self.now)),
            ),
            AgentEventView::SubagentRunText { run, text } => self.with_rail(
                self.rail.with_entry(run, EntryView::Assistant(text)),
            ),
            AgentEventView::SubagentRunToolStarted { run, name, args } => self.with_rail(
                self.rail.with_entry(run, started_card(name, args)),
            ),
            AgentEventView::SubagentRunToolFinished { run, name, content, is_error } =>
                self.with_rail(self.rail.tool_finished(run, name, content, is_error)),
            AgentEventView::SubagentRunImages { run, source, images } => self.with_rail(
                self.rail.with_entries(run, shown(source, images)),
            ),
            AgentEventView::SubagentRunStep { run, step } => self.with_rail(
                self.rail.stepped_to(run, step),
            ),
            AgentEventView::SubagentRunDone { run, completed, output, error } => self.run_done(
                run,
                completed,
                output,
                error,
            ),
            _ => self,
        }
    }

    /// An event about the turn as a whole, or of a run.
    #[verifier::opaque]
    pub open spec fn turn_event(self, event: AgentEventView) -> AppView {
        match event {
            AgentEventView::PlanReady { plan } => self.plan_ready(plan),
            AgentEventView::Interview { questions } => self.interview_asked(questions),
            AgentEventView::OmakaseProceeding { plan } => self.omakase_started(plan),
            AgentEventView::TaskFinished { id, command, status } => self.task_finished(
                id,
                command,
                status,
            ),
            AgentEventView::SubagentFinished { id, name, task, completed } =>
                self.subagent_finished(id, name, task, completed),
            AgentEventView::TodoUpdated(todos) => self.with_panels(
                self.panels.todos_updated(todos),
            ),
            AgentEventView::CommandRequested(line) => self.command_requested(line),
            AgentEventView::Done { reason } => self.turn_done(reason),
            _ => if event.is_tally() {
                self.with_status(self.turn.status.tallied(event))
            } else {
                self.run_event(event)
            },
        }
    }

    /// An event of the agent folded into the state.
    #[verifier::opaque]
    pub open spec fn agent_event(self, event: AgentEventView) -> AppView {
        let chat = self.chat;
        match event {
            AgentEventView::TextDelta(t) => self.with_chat(
                ChatView { streaming: chat.streaming + t, ..chat },
            ),
            AgentEventView::ThinkingDelta(t) => self.with_chat(
                ChatView { streaming_thinking: chat.streaming_thinking + t, ..chat },
            ),
            AgentEventView::ToolStarted { name, args } => self.recorded(started_card(name, args)),
            AgentEventView::ToolFinished { name, content, is_error } => self.with_chat(
                chat.tool_finished(name, content, is_error),
            ),
            AgentEventView::Images { source, images } => self.with_chat(
                chat.flushed().with_all(shown(source, images)),
            ),
            AgentEventView::Error(t) => self.flushed().noticed("error: "@ + t),
            AgentEventView::Notice(t) => self.flushed().noticed(t),
            AgentEventView::StreamRetrying => self.with_chat(chat.unstreamed()),
            AgentEventView::HookFired { event, command, outcome } => self.noticed(
                "hook "@ + event + ": "@ + outcome + " ("@ + command + ")"@,
            ),
            AgentEventView::UltraGuidance { label, guidance } => self.recorded(
                result_card(label, guidance, false, true),
            ),
            _ => self.turn_event(event),
        }
    }
}

fn is_tally(event: &AgentEvent) -> (r: bool)
    ensures
        r == event@.is_tally(),
{
    matches!(
        event,
        AgentEvent::StepCompleted { .. } | AgentEvent::Usage { .. } | AgentEvent::ContextSize { .. }
            | AgentEvent::TaskStarted | AgentEvent::SubagentStarted
    )
}

impl Chat {
    fn stream(&mut self, text: &str)
        ensures
            final(self)@ == (ChatView { streaming: old(self)@.streaming + text@, ..old(self)@ }),
    {
        self.streaming.append(text);
    }

    fn stream_thinking(&mut self, text: &str)
        ensures
            final(self)@ == (ChatView {
                streaming_thinking: old(self)@.streaming_thinking + text@,
                ..old(self)@
            }),
    {
        self.streaming_thinking.append(text);
    }
}

impl Planning {
    fn review(&mut self, plan: String)
        ensures
            final(self)@ == (PlanningView {
                plan_mode: true,
                plan_review: Some(ReviewView { plan: plan@, feedback: None, scroll: 0 }),
                ..old(self)@
            }),
    {
        self.plan_mode = true;
        self.plan_review = Some(PlanReview { plan, feedback: None, scroll: 0 });
    }

    fn leave(&mut self)
        ensures
            final(self)@ == (PlanningView { plan_mode: false, omakase: false, ..old(self)@ }),
    {
        self.plan_mode = false;
        self.omakase = false;
    }
}

impl StatusLine {
    fn end_task(&mut self)
        ensures
            final(self)@ == (StatusView {
                background_tasks: one_less(old(self)@.background_tasks),
                ..old(self)@
            }),
    {
        self.background_tasks = self.background_tasks.saturating_sub(1);
    }

    fn end_subagent(&mut self)
        ensures
            final(self)@ == (StatusView {
                background_subagents: one_less(old(self)@.background_subagents),
                ..old(self)@
            }),
    {
        self.background_subagents = self.background_subagents.saturating_sub(1);
    }
}

impl App {
    fn record(&mut self, entry: TranscriptEntry)
        requires
            old(self)@.wf(),
        ensures
            final(self)@ == old(self)@.recorded(entry@),
            final(self)@.wf(),
    {
        self.chat.flush_streaming();
        self.chat.push(entry);
    }

    fn open_review(&mut self, plan: String)
        requires
            old(self)@.wf(),
        ensures
            final(self)@ == old(self)@.plan_ready(plan@),
            final(self)@.wf(),
    {
        proof {
            reveal(AppView::plan_ready);
        }
        self.chat.flush_streaming();
        self.planning.review(plan);
    }

    fn open_interview(&mut self, questions: Vec<InterviewQuestion>)
        requires
            old(self)@.wf(),
        ensures
            final(self)@ == old(self)@.interview_asked(questions_view(questions@)),
            final(self)@.wf(),
    {
        proof {
            reveal(AppView::interview_asked);
        }
        self.chat.flush_streaming();
        assert(questions_view(questions@).len() == questions@.len());
        if questions.len() == 0 {
            self.ask(Effect::Answers(None));
            return ;
        }
        let interview = Interview {
            questions,
            answers: Vec::new(),
            current: 0,
            input: String::new(),
        };
        assert(interview@.answers =~= Seq::empty());
        assert(interview@.input =~= Seq::empty());
        self.planning.interview = Some(interview);
    }

    fn start_omakase(&mut self, plan: String)
        requires
            old(self)@.wf(),
        ensures
            final(self)@ == old(self)@.omakase_started(plan@),
            final(self)@.wf(),
    {
        proof {
            reveal(AppView::omakase_started);
        }
        self.record(
            new_result_card("omakase plan (chef's choice)".to_string(), plan, false, false),
        );
        self.planning.leave();
        self.notice(
            "omakase — chef's choice: proceeding with the agent's own plan".to_string(),
        );
    }

    fn finish_task(&mut self, id: u32, command: &str, status: &str)
        requires
            old(self)@.wf(),
        ensures
            final(self)@ == old(self)@.task_finished(id, command@, status@),
            final(self)@.wf(),
    {
        proof {
            reveal(AppView::task_finished);
        }
        self.turn.status.end_task();
        let mut m = "background task #".to_string();
        m.append(&number(id as u64));
        m.append(" finished (");
        m.append(status);
        m.append("): ");
        m.append(command);
        self.notice(m);
    }

    fn finish_subagent(&mut self, id: u32, name: &str, task: &str, completed: bool)
        requires
            old(self)@.wf(),
        ensures
            final(self)@ == old(self)@.subagent_finished(id, name@, task@, completed),
            final(self)@.wf(),
    {
        proof {
            reveal(AppView::subagent_finished);
        }
        self.turn.status.end_subagent();
        let mut m = "background subagent #".to_string();
        m.append(&number(id as u64));
        m.append(" '");
        m.append(name);
        m.append("' ");
        m.append(
            if completed {
                "finished"
            } else {
                "hit its step budget"
            },
        );
        m.append(": ");
        m.append(task);
        self.notice(m);
    }

    fn finish_run(&mut self, run: u64, completed: bool, output: String, error: Option<String>)
        requires
            old(self)@.wf(),
        ensures
            final(self)@ == old(self)@.run_done(run, completed, output@, text_opt(error)),
            final(self)@.wf(),
    {
        proof {
            reveal(AppView::run_done);
        }
        let index = match self.rail.pane_index(run) {
            Some(i) => i,
            None => {
                return ;
            },
        };
        let ghost before = self@;
        assert(before.rail.panes[index as int] == self.rail.panes@[index as int]@);
        let name = self.rail.panes[index].name.clone();
        let task = self.rail.panes[index].task.clone();
        let bg = self.rail.panes[index].bg;
        let steps = self.rail.panes[index].steps;
        let now = self.now;
        self.rail.conclude_run(index, completed, &output, &error, now);
        if bg.is_some() {
            let report = report_text(steps, completed, output, error);
            self.chat.record_subagent_report(&name, &task, report, !completed);
        }
    }

    fn request_command(&mut self, line: String)
        requires
            old(self)@.wf(),
        ensures
            final(self)@ == old(self)@.command_requested(line@),
            final(self)@.wf(),
    {
        proof {
            reveal(AppView::command_requested);
        }
        let mut m = "agent requested ".to_string();
        m.append(&line);
        m.append(" (runs after this turn)");
        self.notice(m);
        let ghost before = self@;
        self.turn.pending_agent_commands.push(line);
        assert(self@.turn.pending_agent_commands =~= before.turn.pending_agent_commands.push(line@));
    }

    fn end_turn(&mut self, reason: DoneReason)
        requires
            old(self)@.wf(),
        ensures
            final(self)@ == old(self)@.turn_done(reason),
            final(self)@.wf(),
    {
        proof {
            reveal(AppView::turn_done);
        }
        self.chat.flush_streaming();
        self.turn.status.busy = false;
        self.turn.turn_started = None;
        match reason {
            DoneReason::Completed => {},
            DoneReason::MaxSteps => {
                let mut m = "step budget reached (".to_string();
                m.append(&self.turn.status.max_steps.describe());
                m.append(") — send another message to continue");
                self.notice(m);
            },
            DoneReason::TimeLimit => {
                self.notice("time limit reached".to_string());
            },
            DoneReason::Stopped => {
                self.notice("turn stopped".to_string());
            },
            DoneReason::CircuitBreaker => {
                self.notice("circuit breaker tripped: repeated identical failures".to_string());
            },
        }
    }

    fn tally(&mut self, event: &AgentEvent)
        requires
            old(self)@.wf(),
        ensures
            final(self)@ == old(self)@.with_status(old(self)@.turn.status.tallied(event@)),
            final(self)@.wf(),
    {
        self.turn.status.tally(event);
    }

    fn take_todos(&mut self, items: Vec<TodoItem>)
        requires
            old(self)@.wf(),
        ensures
            final(self)@ == old(self)@.with_panels(
                old(self)@.panels.todos_updated(todos_view(items@)),
            ),
            final(self)@.wf(),
    {
        self.panels.update_todos(items);
    }

    fn note_hook(&mut self, event: &str, command: &str, outcome: &str)
        requires
            old(self)@.wf(),
        ensures
            final(self)@ == old(self)@.noticed(
                "hook "@ + event@ + ": "@ + outcome@ + " ("@ + command@ + ")"@,
            ),
            final(self)@.wf(),
    {
        let mut m = "hook ".to_string();
        m.append(event);
        m.append(": ");
        m.append(outcome);
        m.append(" (");
        m.append(command);
        m.append(")");
        self.notice(m);
    }

    fn handle_run_event(&mut self, event: AgentEvent)
        requires
            old(self)@.wf(),
        ensures
            final(self)@ == old(self)@.run_event(event@),
            final(self)@.wf(),
    {
        proof {
            reveal(AppView::run_event);
        }
        match event {
            AgentEvent::SubagentRunStarted { run, bg, name, task } => {
                let now = self.now;
                self.rail.add_run(SubagentPane::new(run, bg, name, task, now));
            },
            AgentEvent::SubagentRunText { run, text } => {
                self.rail.push_pane(run, TranscriptEntry::Assistant(text));
            },
            AgentEvent::SubagentRunToolStarted { run, name, args } => {
                self.rail.push_pane(run, new_started_card(name, args));
            },
            AgentEvent::SubagentRunToolFinished { run, name, output } => {
                self.rail.finish_tool(run, &name, output);
            },
            AgentEvent::SubagentRunImages { run, source, images } => {
                self.rail.push_entries(run, image_entries(&source, images));
            },
            AgentEvent::SubagentRunStep { run, step } => {
                self.rail.set_step(run, step);
            },
            AgentEvent::SubagentRunDone { run, completed, output, error } => {
                self.finish_run(run, completed, output, error);
            },
            _ => {},
        }
    }

    fn handle_turn_event(&mut self, event: AgentEvent)
        requires
            old(self)@.wf(),
        ensures
            final(self)@ == old(self)@.turn_event(event@),
            final(self)@.wf(),
    {
        proof {
            reveal(AppView::turn_event);
        }
        match event {
            AgentEvent::PlanReady { plan } => {
                self.open_review(plan);
            },
            AgentEvent::Interview { questions } => {
                self.open_interview(questions);
            },
            AgentEvent::OmakaseProceeding { plan } => {
                self.start_omakase(plan);
            },
            AgentEvent::TaskFinished { id, command, status } => {
                self.finish_task(id, &command, &status);
            },
            AgentEvent::SubagentFinished { id, name, task, completed } => {
                self.finish_subagent(id, &name, &task, completed);
            },
            AgentEvent::TodoUpdated(items) => {
                self.take_todos(items);
            },
            AgentEvent::CommandRequested(line) => {
                self.request_command(line);
            },
            AgentEvent::Done { reason } => {
                self.end_turn(reason);
            },
            other => {
                if is_tally(&other) {
                    self.tally(&other);
                } else {
                    self.handle_run_event(other);
                }
            },
        }
    }

    /// Fold an agent event into the transcript, the status bar and the rail.
    pub fn handle_agent_event(&mut self, event: AgentEvent)
        requires
            old(self)@.wf(),
        ensures
            final(self)@ == old(self)@.agent_event(event@),
            final(self)@.wf(),
    {
        proof {
            reveal(AppView::agent_event);
        }
        match event {
            AgentEvent::TextDelta(t) => {
                self.chat.stream(&t);
            },
            AgentEvent::ThinkingDelta(t) => {
                self.chat.stream_thinking(&t);
            },
            AgentEvent::ToolStarted { name, args } => {
                self.record(new_started_card(name, args));
            },
            AgentEvent::ToolFinished { name, output } => {
                self.chat.finish_tool(name, output);
            },
            AgentEvent::Images { source, images } => {
                self.chat.flush_streaming();
                self.chat.push_all(image_entries(&source, images));
            },
            AgentEvent::Error(t) => {
                self.chat.flush_streaming();
                let mut m = "error: ".to_string();
                m.append(&t);
                self.notice(m);
            },
            AgentEvent::Notice(t) => {
                self.chat.flush_streaming();
                self.notice(t);
            },
            AgentEvent::StreamRetrying => {
                self.chat.clear_streaming();
            },
            AgentEvent::HookFired { event, command, outcome } => {
                self.note_hook(&event, &command, &outcome);
            },
            AgentEvent::UltraGuidance { label, guidance } => {
                self.record(new_result_card(label, guidance, false, true));
            },
            other => {
                self.handle_turn_event(other);
            },
        }
    }
}

} // verus!
