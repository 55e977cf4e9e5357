//! What the main loop reports back of the work that commands handed to it.

use crate::app::picker::{add_item, item, items_view, ItemView, PickerItem, PickerKind};
use crate::app::replay::{messages_view, MessageView, PastMessage, Role};
use crate::app::command::usage_text;
use crate::app::state::{
    App, AppView, Composer, ComposerView, Identity, IdentityView, Panels, PanelsView,
};
use crate::commands::CustomCommand;
use crate::config::{Config, ConfigView, StepBudget};
use crate::json::text_opt;
use crate::text::{
    chars_of, decimal, find_char, index_of_char, is_empty_text, join, join_texts,
    lemma_index_of_char, lines, number, same, slice_text, split_lines, texts, trim, trimmed,
};
use vstd::prelude::*;

verus! {

/// What an attempt gave: a text, or why it failed.
pub open spec fn told_view(r: Result<String, String>) -> Result<Seq<char>, Seq<char>> {
    match r {
        Ok(t) => Ok(t@),
        Err(e) => Err(e@),
    }
}

/// A label before a reason.
fn because(label: &str, reason: &str) -> (r: String)
    ensures
        r@ == label@ + reason@,
{
    let mut m = label.to_string();
    m.append(reason);
    m
}

/// The standing goal as it is kept.
pub struct Mission {
    pub goal: String,
    pub cycles: u64,
    /// When it was last changed, as it is shown.
    pub updated: String,
    pub notes: Vec<String>,
}

pub struct MissionView {
    pub goal: Seq<char>,
    pub cycles: u64,
    pub updated: Seq<char>,
    pub notes: Seq<Seq<char>>,
}

impl View for Mission {
    type V = MissionView;

    open spec fn view(&self) -> MissionView {
        MissionView {
            goal: self.goal@,
            cycles: self.cycles,
            updated: self.updated@,
            notes: texts(self.notes@),
        }
    }
}

/// One line for each note.
pub open spec fn note_lines(notes: Seq<Seq<char>>) -> Seq<char>
    decreases notes.len(),
{
    if notes.len() == 0 {
        "\nrecent:"@
    } else {
        note_lines(notes.drop_last()) + "\n  - "@ + notes.last()
    }
}

/// The last five of the notes.
pub open spec fn recent(notes: Seq<Seq<char>>) -> Seq<Seq<char>> {
    if notes.len() > 5 {
        notes.skip(notes.len() - 5)
    } else {
        notes
    }
}

impl MissionView {
    /// What `/goal` says of it.
    pub open spec fn told(self) -> Seq<char> {
        "goal: "@ + self.goal + "\ncycles: "@ + decimal(self.cycles as nat) + "  ·  updated "@
            + self.updated + (if self.notes.len() == 0 {
            ""@
        } else {
            note_lines(recent(self.notes))
        })
    }
}

/// A standing goal set at `now`: on one kept before, the cycles and the notes
/// stay, and one more note tells of the change.
pub open spec fn goal_set(
    kept: Option<MissionView>,
    goal: Seq<char>,
    now: Seq<char>,
) -> MissionView {
    match kept {
        Some(m) => MissionView {
            goal,
            cycles: m.cycles,
            updated: now,
            notes: m.notes.push("goal changed to: "@ + goal),
        },
        None => MissionView { goal, cycles: 0, updated: now, notes: Seq::empty() },
    }
}

/// The standing goal to keep when `goal` is set at `now`.
pub fn set_standing_goal(kept: Option<Mission>, goal: &str, now: &str) -> (r: Mission)
    ensures
        r@ == goal_set(
            match kept {
                Some(m) => Some(m@),
                None => None,
            },
            goal@,
            now@,
        ),
{
    let (cycles, notes) = match kept {
        Some(m) => {
            let ghost before = m@.notes;
            let mut notes = m.notes;
            notes.push(because("goal changed to: ", goal));
            assert(texts(notes@) =~= before.push("goal changed to: "@ + goal@));
            (m.cycles, notes)
        },
        None => {
            let notes: Vec<String> = Vec::new();
            assert(texts(notes@) =~= Seq::empty());
            (0, notes)
        },
    };
    Mission { goal: goal.to_string(), cycles, updated: now.to_string(), notes }
}

fn show_notes(notes: &Vec<String>) -> (r: String)
    ensures
        r@ == note_lines(recent(texts(notes@))),
{
    let n = notes.len();
    let skip: usize = if n > 5 {
        n - 5
    } else {
        0
    };
    let ghost all = recent(texts(notes@));
    assert(all.len() == n - skip);
    assert(all =~= texts(notes@).skip(skip as int));
    let mut text = "\nrecent:".to_string();
    let mut i: usize = skip;
    assert(all.take(0) =~= Seq::empty());
    while i < n
        invariant
            skip <= i <= n == notes.len(),
            all == texts(notes@).skip(skip as int),
            text@ == note_lines(all.take(i - skip)),
        decreases n - i,
    {
        assert(all.take(i - skip + 1).drop_last() =~= all.take(i - skip));
        assert(all.take(i - skip + 1).last() == notes@[i as int]@);
        text.append("\n  - ");
        text.append(&notes[i]);
        i += 1;
    }
    assert(all.take(n - skip) =~= all);
    text
}

fn show_mission(m: &Mission) -> (r: String)
    ensures
        r@ == m@.told(),
{
    let mut s = "goal: ".to_string();
    s.append(&m.goal);
    s.append("\ncycles: ");
    s.append(&number(m.cycles));
    s.append("  ·  updated ");
    s.append(&m.updated);
    assert(m@.notes.len() == m.notes@.len());
    let notes = if m.notes.len() == 0 {
        "".to_string()
    } else {
        show_notes(&m.notes)
    };
    s.append(&notes);
    s
}

/// Whether a model is the one in use: by its name, or by its name before a tag.
pub open spec fn is_model(model: Seq<char>, current: Seq<char>) -> bool {
    model == current || model.take(index_of_char(model, ':') as int) == current
}

fn model_matches(model: &str, current: &str) -> (r: bool)
    ensures
        r == is_model(model@, current@),
{
    if same(model, current) {
        return true;
    }
    let cs = chars_of(model);
    let colon = find_char(&cs, 0, ':');
    proof {
        assert(cs@.skip(0) =~= cs@);
        lemma_index_of_char(model@, ':');
    }
    let head = slice_text(&cs, 0, colon);
    assert(head@ =~= model@.take(colon as int));
    same(&head, current)
}

fn model_items(models: &Vec<String>, current: &str) -> (r: Vec<PickerItem>)
    ensures
        items_view(r@) == texts(models@).map_values(
            |m: Seq<char>| item(m, ""@, is_model(m, current@)),
        ),
{
    let mut items: Vec<PickerItem> = Vec::new();
    let mut i: usize = 0;
    while i < models.len()
        invariant
            i <= models.len(),
            items_view(items@).len() == i,
            forall|j: int|
                0 <= j < i ==> #[trigger] items_view(items@)[j] == item(
                    models@[j]@,
                    ""@,
                    is_model(models@[j]@, current@),
                ),
        decreases models.len() - i,
    {
        let now = model_matches(&models[i], current);
        add_item(&mut items, models[i].clone(), "".to_string(), now);
        i += 1;
    }
    assert(items_view(items@) =~= texts(models@).map_values(
        |m: Seq<char>| item(m, ""@, is_model(m, current@)),
    ));
    items
}

/// A subagent as the roster lists it; no scope means all tools.
pub struct SubagentInfo {
    pub name: String,
    pub description: String,
    pub tool_scope: Option<Vec<String>>,
    pub max_steps: StepBudget,
}

pub struct SubagentView {
    pub name: Seq<char>,
    pub description: Seq<char>,
    pub tool_scope: Option<Seq<Seq<char>>>,
    pub max_steps: StepBudget,
}

impl View for SubagentInfo {
    type V = SubagentView;

    open spec fn view(&self) -> SubagentView {
        SubagentView {
            name: self.name@,
            description: self.description@,
            tool_scope: match self.tool_scope {
                Some(names) => Some(texts(names@)),
                None => None,
            },
            max_steps: self.max_steps,
        }
    }
}

pub open spec fn subagents_view(s: Seq<SubagentInfo>) -> Seq<SubagentView> {
    s.map_values(|x: SubagentInfo| x@)
}

/// A subagent's row on the delegation menu.
pub open spec fn subagent_item(s: SubagentView) -> ItemView {
    item(
        s.name,
        s.description + " · "@ + (match s.tool_scope {
            Some(names) => join(names, ", "@),
            None => "all tools"@,
        }) + " · "@ + s.max_steps.label(),
        false,
    )
}

fn subagent_items(list: &Vec<SubagentInfo>) -> (r: Vec<PickerItem>)
    ensures
        items_view(r@) == subagents_view(list@).map_values(|s: SubagentView| subagent_item(s)),
{
    let mut items: Vec<PickerItem> = Vec::new();
    let mut i: usize = 0;
    while i < list.len()
        invariant
            i <= list.len(),
            items_view(items@).len() == i,
            forall|j: int|
                0 <= j < i ==> #[trigger] items_view(items@)[j] == subagent_item(list@[j]@),
        decreases list.len() - i,
    {
        let s = &list[i];
        let mut detail = s.description.clone();
        detail.append(" · ");
        let scope = match &s.tool_scope {
            Some(names) => join_texts(names, ", "),
            None => "all tools".to_string(),
        };
        detail.append(&scope);
        detail.append(" · ");
        detail.append(&s.max_steps.describe());
        add_item(&mut items, s.name.clone(), detail, false);
        i += 1;
    }
    assert(items_view(items@) =~= subagents_view(list@).map_values(
        |s: SubagentView| subagent_item(s),
    ));
    items
}

/// How the tool servers took a reload.
pub enum ServersReload {
    Done,
    /// They were reloaded, but not without trouble.
    Warned(String),
    /// Their settings could not be read.
    Unread(String),
}

impl AppView {
    /// What a reload of the tool servers leaves in the transcript.
    pub open spec fn servers_reloaded(self, r: ServersReload) -> AppView {
        match r {
            ServersReload::Done => self,
            ServersReload::Warned(e) => self.noticed("MCP reload warning: "@ + e@),
            ServersReload::Unread(e) => self.noticed("could not reload MCP config: "@ + e@),
        }
    }

    /// The diffs were read, or were not.
    pub open spec fn diff_shown(self, r: Result<Seq<char>, Seq<char>>) -> AppView {
        self.with_panels(
            PanelsView {
                diff_text: match r {
                    Ok(t) => t,
                    Err(e) => "could not read git diff: "@ + e,
                },
                ..self.panels
            },
        )
    }

    /// `/cost`: the session's tokens, and an estimate where prices are known.
    pub open spec fn cost_told(self, estimate: Option<Seq<char>>) -> AppView {
        self.noticed(
            "session usage: "@ + usage_text(
                self.turn.status.prompt_tokens,
                self.turn.status.completion_tokens,
            ) + (match estimate {
                Some(cost) => " · est. $"@ + cost,
                None => "\nset usd_per_mtok_in / usd_per_mtok_out on provider '"@
                    + self.config.active().name
                    + "' in ~/.wizard/config.toml for cost estimates"@,
            }),
        )
    }

    /// `/goal`.
    pub open spec fn goal_told(self, r: Result<Option<MissionView>, Seq<char>>) -> AppView {
        match r {
            Err(e) => self.noticed("could not read mission: "@ + e),
            Ok(None) => self.noticed(
                "no standing goal set — use `/goal <text>` to set one (drives sovereign/continuous mode)"@,
            ),
            Ok(Some(m)) => self.noticed(m.told()),
        }
    }

    /// The standing goal was stored, or was not; work on it is queued.
    pub open spec fn goal_stored(self, text: Seq<char>, outcome: GoalOutcome) -> AppView {
        match outcome {
            GoalOutcome::Unread(e) => self.noticed("could not read mission: "@ + e@),
            GoalOutcome::Unsaved(e) => self.noticed("could not save mission: "@ + e@),
            GoalOutcome::Stored => self.noticed("standing goal set:\n"@ + text).goal_queued(text),
        }
    }

    /// The agent's session was cleared, or was not.
    pub open spec fn clear_done(self, r: Result<u64, Seq<char>>) -> AppView {
        match r {
            Ok(context_tokens) => self.conversation_cleared(context_tokens),
            Err(e) => self.noticed("failed to rotate session: "@ + e),
        }
    }

    /// The models were listed, or were not.
    pub open spec fn models_told(self, r: Result<Seq<Seq<char>>, Seq<char>>) -> AppView {
        match r {
            Err(e) => self.noticed("could not list models: "@ + e),
            Ok(models) => if models.len() == 0 {
                self.noticed("no models installed — try `ollama pull <model>`"@)
            } else {
                let current = self.turn.status.model;
                self.choosing_current(
                    PickerKind::Model,
                    " select model "@,
                    models.map_values(|m: Seq<char>| item(m, ""@, is_model(m, current))),
                )
            },
        }
    }

    /// Files and session were rewound: the conversation as it is now, and what
    /// was restored.
    pub open spec fn rewind_done(
        self,
        turn: u64,
        r: Result<(Seq<MessageView>, Seq<Seq<char>>), Seq<char>>,
    ) -> AppView {
        match r {
            Err(e) => self.noticed("rewind failed: "@ + e),
            Ok((messages, restored)) => self.replayed(messages).noticed(
                "rewound to before turn "@ + decimal(turn as nat) + " — "@ + (if restored.len()
                    == 0 {
                    "no files needed restoring"@
                } else {
                    "restored "@ + join(restored, ", "@)
                }) + "; conversation truncated"@,
            ),
        }
    }

    /// A session was reopened, or was not: its conversation and identity take
    /// the place of the current ones.
    pub open spec fn resume_done(self, r: Result<(Seq<char>, Seq<MessageView>), Seq<char>>) -> AppView {
        match r {
            Err(e) => self.noticed("could not resume session: "@ + e),
            Ok((id, messages)) => {
                let s = self.replayed(messages);
                AppView {
                    session: IdentityView { id, name: session_title(messages, id), ..s.session },
                    ..s
                }.noticed(
                    "resumed session "@ + id + " · "@ + decimal(user_turns(messages)) + " turns"@,
                )
            },
        }
    }

    /// `/agents`.
    pub open spec fn agents_open(self, list: Seq<SubagentView>) -> AppView {
        if list.len() == 0 {
            self.noticed("no subagents available"@)
        } else {
            self.choosing(
                PickerKind::Subagent,
                " delegate to subagent "@,
                list.map_values(|s: SubagentView| subagent_item(s)),
            )
        }
    }

    pub open spec fn with_custom_commands(self, c: Seq<CustomCommand>) -> AppView {
        self.with_composer(ComposerView { custom_commands: c, ..self.composer })
    }

    /// Commands and servers were reloaded; `tools` says how the registry came
    /// out, where there was an agent to give it to.
    pub open spec fn reload_done(
        self,
        commands: Seq<CustomCommand>,
        servers: ServersReload,
        tools: Option<Result<usize, String>>,
        skills: usize,
    ) -> AppView {
        let s = self.with_custom_commands(commands).servers_reloaded(servers);
        match tools {
            None => s,
            Some(Ok(n)) => s.noticed(
                "reloaded: "@ + decimal(n as nat) + " tools, "@ + decimal(skills as nat)
                    + " skills"@,
            ),
            Some(Err(e)) => s.noticed("reload failed: "@ + e@),
        }
    }

    /// Imported spinner verbs replace the configured ones, where there are any.
    #[verifier::opaque]
    pub open spec fn verbs_adopted(self, verbs: Seq<Seq<char>>) -> AppView {
        if verbs.len() == 0 {
            self
        } else {
            self.with_config(ConfigView { spinner_verbs: verbs, ..self.config }).saving(
                "config"@,
                None,
                false,
            )
        }
    }

    /// An import succeeded.
    pub open spec fn import_done(
        self,
        verbs: Seq<Seq<char>>,
        commands: Seq<CustomCommand>,
        servers: ServersReload,
        summary: Seq<char>,
    ) -> AppView {
        self.verbs_adopted(verbs).with_custom_commands(commands).servers_reloaded(servers).noticed(
            if summary.len() == 0 {
                "nothing to import from "@ + self.surroundings.peer.name
            } else {
                "imported from "@ + self.surroundings.peer.name + ":\n"@ + summary
            },
        )
    }
}

/// What became of storing the standing goal.
pub enum GoalOutcome {
    Unread(String),
    Unsaved(String),
    Stored,
}

/// The number of user messages.
pub open spec fn user_turns(m: Seq<MessageView>) -> nat
    decreases m.len(),
{
    if m.len() == 0 {
        0
    } else {
        user_turns(m.drop_last()) + if m.last().role == Role::User {
            1nat
        } else {
            0nat
        }
    }
}

/// The number of messages before the first of a user's.
pub open spec fn first_user(m: Seq<MessageView>) -> int
    decreases m.len(),
{
    if m.len() == 0 || m[0].role == Role::User {
        0
    } else {
        1 + first_user(m.drop_first())
    }
}

/// The start of a text's first line, no more than 48 characters.
pub open spec fn headline(text: Seq<char>) -> Seq<char> {
    let l = lines(text);
    if l.len() == 0 {
        Seq::empty()
    } else {
        let line = trim(l[0]);
        if line.len() > 48 {
            line.take(48)
        } else {
            line
        }
    }
}

/// What a session is called: the start of the user's first message, else its
/// id.
pub open spec fn session_title(m: Seq<MessageView>, id: Seq<char>) -> Seq<char> {
    let i = first_user(m);
    if i < m.len() && headline(m[i].content).len() > 0 {
        headline(m[i].content)
    } else {
        id
    }
}

fn show_headline(text: &str) -> (r: String)
    ensures
        r@ == headline(text@),
{
    let l = split_lines(text);
    assert(texts(l@).len() == l@.len());
    if l.len() == 0 {
        let out = String::new();
        assert(out@ =~= Seq::empty());
        return out;
    }
    assert(texts(l@)[0] == l@[0]@);
    let line = trimmed(&l[0]);
    let cs = chars_of(&line);
    if cs.len() > 48 {
        let out = slice_text(&cs, 0, 48);
        assert(out@ =~= line@.take(48));
        out
    } else {
        line
    }
}

fn count_turns(m: &Vec<PastMessage>) -> (r: usize)
    ensures
        r == user_turns(messages_view(m@)),
{
    let ghost all = messages_view(m@);
    let mut n: usize = 0;
    let mut i: usize = 0;
    assert(all.take(0) =~= Seq::empty());
    while i < m.len()
        invariant
            i <= m.len(),
            n <= i,
            all == messages_view(m@),
            n == user_turns(all.take(i as int)),
        decreases m.len() - i,
    {
        assert(all.take(i + 1).drop_last() =~= all.take(i as int));
        assert(all.take(i + 1).last() == m@[i as int]@);
        if m[i].role == Role::User {
            n += 1;
        }
        i += 1;
    }
    assert(all.take(all.len() as int) =~= all);
    n
}

fn title_of(m: &Vec<PastMessage>, id: &str) -> (r: String)
    ensures
        r@ == session_title(messages_view(m@), id@),
{
    let ghost all = messages_view(m@);
    let mut i: usize = 0;
    assert(all.skip(0) =~= all);
    while i < m.len() && m[i].role != Role::User
        invariant
            i <= m.len(),
            all == messages_view(m@),
            first_user(all) == i + first_user(all.skip(i as int)),
        decreases m.len() - i,
    {
        assert(all.skip(i as int)[0] == m@[i as int]@);
        assert(all.skip(i as int).drop_first() =~= all.skip(i + 1));
        i += 1;
    }
    if i < m.len() {
        assert(all.skip(i as int)[0] == m@[i as int]@);
        assert(all[i as int] == m@[i as int]@);
        let head = show_headline(&m[i].content);
        if !is_empty_text(&head) {
            return head;
        }
    }
    id.to_string()
}

impl Panels {
    fn set_diff(&mut self, text: String)
        ensures
            final(self)@ == (PanelsView { diff_text: text@, ..old(self)@ }),
    {
        self.diff_text = text;
    }
}

impl App {
    /// The main loop read git's diffs, or failed to.
    pub fn diff_read(&mut self, r: Result<String, String>)
        requires
            old(self)@.wf(),
        ensures
            final(self)@ == old(self)@.diff_shown(told_view(r)),
            final(self)@.wf(),
    {
        let text = match r {
            Ok(t) => t,
            Err(e) => because("could not read git diff: ", &e),
        };
        self.panels.set_diff(text);
    }

    /// The main loop estimated the session's cost, where prices are known.
    pub fn cost_estimated(&mut self, estimate: Option<String>)
        requires
            old(self)@.wf(),
        ensures
            final(self)@ == old(self)@.cost_told(text_opt(estimate)),
            final(self)@.wf(),
    {
        let mut m = "session usage: ".to_string();
        m.append(
            &crate::app::command::show_usage(
                self.turn.status.prompt_tokens,
                self.turn.status.completion_tokens,
            ),
        );
        let tail = match estimate {
            Some(cost) => because(" · est. $", &cost),
            None => {
                let mut t = "\nset usd_per_mtok_in / usd_per_mtok_out on provider '".to_string();
                t.append(&self.config.active().name);
                t.append("' in ~/.wizard/config.toml for cost estimates");
                t
            },
        };
        m.append(&tail);
        self.notice(m);
    }

    /// The main loop ran the diagnostics.
    pub fn diagnosed(&mut self, report: &str)
        requires
            old(self)@.wf(),
        ensures
            final(self)@ == old(self)@.noticed("doctor:\n"@ + report@),
            final(self)@.wf(),
    {
        self.notice(because("doctor:\n", report));
    }

    /// The main loop read the standing goal, or failed to.
    pub fn goal_read(&mut self, r: Result<Option<Mission>, String>)
        requires
            old(self)@.wf(),
        ensures
            final(self)@ == old(self)@.goal_told(
                match r {
                    Ok(Some(m)) => Ok(Some(m@)),
                    Ok(None) => Ok(None),
                    Err(e) => Err(e@),
                },
            ),
            final(self)@.wf(),
    {
        let text = match r {
            Err(e) => because("could not read mission: ", &e),
            Ok(None) =>
                "no standing goal set — use `/goal <text>` to set one (drives sovereign/continuous mode)".to_string(),
            Ok(Some(m)) => show_mission(&m),
        };
        self.notice(text);
    }

    /// The main loop stored the standing goal, or failed to.
    pub fn goal_set(&mut self, text: &str, outcome: GoalOutcome)
        requires
            old(self)@.wf(),
        ensures
            final(self)@ == old(self)@.goal_stored(text@, outcome),
            final(self)@.wf(),
    {
        match outcome {
            GoalOutcome::Unread(e) => {
                self.notice(because("could not read mission: ", &e));
            },
            GoalOutcome::Unsaved(e) => {
                self.notice(because("could not save mission: ", &e));
            },
            GoalOutcome::Stored => {
                self.notice(because("standing goal set:\n", text));
                self.queue_goal_kickoff(text);
            },
        }
    }

    /// The main loop cleared the agent's session, or failed to; on success the
    /// agent's context size.
    pub fn session_cleared(&mut self, r: Result<u64, String>)
        requires
            old(self)@.wf(),
        ensures
            final(self)@ == old(self)@.clear_done(
                match r {
                    Ok(n) => Ok(n),
                    Err(e) => Err(e@),
                },
            ),
            final(self)@.wf(),
    {
        match r {
            Ok(n) => {
                self.clear_conversation(n);
            },
            Err(e) => {
                self.notice(because("failed to rotate session: ", &e));
            },
        }
    }

    /// The main loop listed the installed models, or failed to.
    pub fn models_listed(&mut self, r: Result<Vec<String>, String>)
        requires
            old(self)@.wf(),
        ensures
            final(self)@ == old(self)@.models_told(
                match r {
                    Ok(v) => Ok(texts(v@)),
                    Err(e) => Err(e@),
                },
            ),
            final(self)@.wf(),
    {
        match r {
            Err(e) => {
                self.notice(because("could not list models: ", &e));
            },
            Ok(models) => {
                assert(texts(models@).len() == models@.len());
                if models.len() == 0 {
                    self.notice("no models installed — try `ollama pull <model>`".to_string());
                    return ;
                }
                let items = model_items(&models, &self.turn.status.model);
                self.open_menu_on_current(PickerKind::Model, " select model ", items);
            },
        }
    }

    /// The main loop rewound to before `turn`, or failed to: the conversation
    /// that is left, and the files restored.
    pub fn rewound(&mut self, turn: u64, r: Result<(Vec<PastMessage>, Vec<String>), String>)
        requires
            old(self)@.wf(),
        ensures
            final(self)@ == old(self)@.rewind_done(
                turn,
                match r {
                    Ok(x) => Ok((messages_view(x.0@), texts(x.1@))),
                    Err(e) => Err(e@),
                },
            ),
            final(self)@.wf(),
    {
        match r {
            Err(e) => {
                self.notice(because("rewind failed: ", &e));
            },
            Ok((messages, restored)) => {
                assert(texts(restored@).len() == restored@.len());
                let files = if restored.len() == 0 {
                    "no files needed restoring".to_string()
                } else {
                    because("restored ", &join_texts(&restored, ", "))
                };
                self.load_transcript(messages);
                let mut m = "rewound to before turn ".to_string();
                m.append(&number(turn));
                m.append(" — ");
                m.append(&files);
                m.append("; conversation truncated");
                self.notice(m);
            },
        }
    }

    /// The main loop reopened a session, or failed to: its id and conversation.
    /// The heartbeat of the session left behind is the main loop's to drop.
    pub fn session_resumed(&mut self, r: Result<(String, Vec<PastMessage>), String>)
        requires
            old(self)@.wf(),
        ensures
            final(self)@ == old(self)@.resume_done(
                match r {
                    Ok(x) => Ok((x.0@, messages_view(x.1@))),
                    Err(e) => Err(e@),
                },
            ),
            final(self)@.wf(),
    {
        match r {
            Err(e) => {
                self.notice(because("could not resume session: ", &e));
            },
            Ok((id, messages)) => {
                let turns = count_turns(&messages);
                let name = title_of(&messages, &id);
                self.load_transcript(messages);
                let mut m = "resumed session ".to_string();
                m.append(&id);
                m.append(" · ");
                m.append(&number(turns as u64));
                m.append(" turns");
                self.session.rename(id, name);
                self.notice(m);
            },
        }
    }

    /// Open the subagent roster over the subagents found.
    pub fn open_agents_picker(&mut self, list: &Vec<SubagentInfo>)
        requires
            old(self)@.wf(),
        ensures
            final(self)@ == old(self)@.agents_open(subagents_view(list@)),
            final(self)@.wf(),
    {
        assert(subagents_view(list@).len() == list@.len());
        if list.len() == 0 {
            self.notice("no subagents available".to_string());
            return ;
        }
        let items = subagent_items(list);
        self.open_menu(PickerKind::Subagent, " delegate to subagent ", items);
    }

    fn tell_servers(&mut self, servers: ServersReload)
        requires
            old(self)@.wf(),
        ensures
            final(self)@ == old(self)@.servers_reloaded(servers),
            final(self)@.wf(),
    {
        match servers {
            ServersReload::Done => {},
            ServersReload::Warned(e) => {
                self.notice(because("MCP reload warning: ", &e));
            },
            ServersReload::Unread(e) => {
                self.notice(because("could not reload MCP config: ", &e));
            },
        }
    }

    /// The main loop reloaded commands, servers and skills; `tools` is what the
    /// registry holds now, where there was an agent to give it to.
    pub fn reloaded(
        &mut self,
        commands: Vec<CustomCommand>,
        servers: ServersReload,
        tools: Option<Result<usize, String>>,
        skills: usize,
    )
        requires
            old(self)@.wf(),
        ensures
            final(self)@ == old(self)@.reload_done(commands@, servers, tools, skills),
            final(self)@.wf(),
    {
        self.composer.set_commands(commands);
        self.tell_servers(servers);
        match tools {
            None => {},
            Some(Ok(n)) => {
                let mut m = "reloaded: ".to_string();
                m.append(&number(n as u64));
                m.append(" tools, ");
                m.append(&number(skills as u64));
                m.append(" skills");
                self.notice(m);
            },
            Some(Err(e)) => {
                self.notice(because("reload failed: ", &e));
            },
        }
    }

    fn adopt_verbs(&mut self, verbs: Vec<String>)
        requires
            old(self)@.wf(),
        ensures
            final(self)@ == old(self)@.verbs_adopted(texts(verbs@)),
            final(self)@.wf(),
    {
        reveal(AppView::verbs_adopted);
        assert(texts(verbs@).len() == verbs@.len());
        if verbs.len() > 0 {
            self.config.set_spinner_verbs(verbs);
            self.save_config("config", None, false);
        }
    }

    /// The main loop could not import.
    pub fn import_failed(&mut self, why: &str)
        requires
            old(self)@.wf(),
        ensures
            final(self)@ == old(self)@.noticed(
                old(self)@.surroundings.peer.name + " import failed: "@ + why@,
            ),
            final(self)@.wf(),
    {
        let mut m = self.surroundings.peer.name.clone();
        m.append(" import failed: ");
        m.append(why);
        self.notice(m);
    }

    /// The main loop imported from another agent: spinner verbs to adopt, the
    /// commands there are now, how the servers took it, and a summary.
    pub fn imported(
        &mut self,
        verbs: Vec<String>,
        commands: Vec<CustomCommand>,
        servers: ServersReload,
        summary: &str,
    )
        requires
            old(self)@.wf(),
        ensures
            final(self)@ == old(self)@.import_done(texts(verbs@), commands@, servers, summary@),
            final(self)@.wf(),
    {
        let text = if is_empty_text(summary) {
            because("nothing to import from ", &self.surroundings.peer.name)
        } else {
            let mut m = because("imported from ", &self.surroundings.peer.name);
            m.append(":\n");
            m.append(summary);
            m
        };
        self.adopt_verbs(verbs);
        self.composer.set_commands(commands);
        self.tell_servers(servers);
        self.notice(text);
    }
}

impl Config {
    fn set_spinner_verbs(&mut self, verbs: Vec<String>)
        ensures
            final(self)@ == (ConfigView { spinner_verbs: texts(verbs@), ..old(self)@ }),
    {
        self.spinner_verbs = verbs;
    }
}

impl Identity {
    fn rename(&mut self, id: String, name: String)
        ensures
            final(self)@ == (IdentityView { id: id@, name: name@, ..old(self)@ }),
    {
        self.id = id;
        self.name = name;
    }
}

impl Composer {
    fn set_commands(&mut self, commands: Vec<CustomCommand>)
        requires
            old(self)@.wf(),
        ensures
            final(self)@ == (ComposerView { custom_commands: commands@, ..old(self)@ }),
            final(self)@.wf(),
    {
        self.custom_commands = commands;
    }
}

} // verus!
