//! Slash commands: what each one changes at once, and the work it hands to the
//! main loop.

use crate::app::picker::{add_item, item, items_view, ItemView, PickerItem};
use crate::app::state::{TodoItem, TodoStatus, TodoView};
use crate::app::tasks::{
    candidates_view, rows_view, CandidateView, RewindCandidate, RowView, TaskRow,
};
use crate::config::{providers_view, Mode, ProviderConfig, ProviderView, ReasoningEffort};
use crate::paths::{file_name, name_of};
use crate::text::{
    chars_of, decimal, drop_white, is_empty_text, join, join_texts, number, same, slice_text,
    texts, trim_end,
};
use vstd::prelude::*;

verus! {

/// What `/help` says.
pub open spec fn help_text() -> Seq<char> {
    "available commands:\n  /help                       show this help\n  /clear                      clear the conversation\n  /model [tag]                pick a model interactively, or switch directly\n  /mode [genie|sovereign]     pick or switch personality mode\n  /genie · /sovereign         switch mode directly\n  /effort [low|med|high]      set reasoning effort (Grok 4.x, OpenAI o-series/gpt-5)\n  /plan                       toggle plan mode (read-only until a plan is approved)\n  /omakase                    toggle omakase: chef's-choice plan mode, the agent decides\n  /rewind [turn]              rewind files and conversation to before a turn\n  /resume                     reopen and continue a past session\n  /compact                    summarize older history into a progress note now\n  /btw <question>             ask a side question without adding it to the conversation\n  /agents                     browse subagents and delegate to one\n  /subagents                  monitor the subagents running in this session\n  /evolve [--deep] <desc>     self-extension (skill / MCP / scripted tool)\n  /publish [branch]           fork Wizard to your GitHub, get a one-line installer\n  /provider                   add or switch LLM providers (interactive picker)\n  /fusion [config]            toggle model fusion (panel debate → synthesis), or configure the panel\n  /ultra [config]             toggle mixture of agents (candidates draft → judge rules → agent acts)\n  /server [status|start|stop] manage the local llama-server\n  /login xai                  sign in with your xAI account (OAuth, no API key)\n  /reload                     reload skills, scripted tools, and MCP servers\n  /diff                       toggle the git diff sidebar\n  /todos                      toggle the todo list above the input\n  /dashboard                  session manager: all live wizard sessions on this machine\n  /cost                       show session token usage and cost\n  /memory [read|forget <name>] list, show, or forget saved project memories\n  /status                     show session status (model, usage, todos, tasks)\n  /bashes                     list background tasks (id, status, command)\n  /goal [text]                show the standing goal, or set one and start working on it\n  /settings                   open the settings menu (change config anytime)\n  /vim                        toggle vim-style modal editing of the input line\n  /doctor                     diagnose config, providers, MCP, hooks, state dirs\n  /quit                       exit\nkeys:\n  Tab / →                     accept command completion\n  Shift+Tab                   toggle plan mode\n  ↑ / ↓                       select suggestion · browse input history\n  PgUp/PgDn · wheel           scroll the transcript (stays put while streaming)\n  Esc · Ctrl-End              jump back to the live tail\n  drag                        select text — copied to the clipboard on release\n  click a tool card           expand / collapse its output\n  Ctrl-P                      model picker  ·  Ctrl-T toggle last tool card\n  Ctrl-A/E Home/End ←/→       move cursor   ·  Ctrl-W/U/K kill word/to start/to end\n  Ctrl-G                      edit the prompt in $EDITOR\n  Ctrl-C                      interrupt · press twice to quit"@
}

pub(crate) fn help() -> (r: String)
    ensures
        r@ == help_text(),
{
    "available commands:\n  /help                       show this help\n  /clear                      clear the conversation\n  /model [tag]                pick a model interactively, or switch directly\n  /mode [genie|sovereign]     pick or switch personality mode\n  /genie · /sovereign         switch mode directly\n  /effort [low|med|high]      set reasoning effort (Grok 4.x, OpenAI o-series/gpt-5)\n  /plan                       toggle plan mode (read-only until a plan is approved)\n  /omakase                    toggle omakase: chef's-choice plan mode, the agent decides\n  /rewind [turn]              rewind files and conversation to before a turn\n  /resume                     reopen and continue a past session\n  /compact                    summarize older history into a progress note now\n  /btw <question>             ask a side question without adding it to the conversation\n  /agents                     browse subagents and delegate to one\n  /subagents                  monitor the subagents running in this session\n  /evolve [--deep] <desc>     self-extension (skill / MCP / scripted tool)\n  /publish [branch]           fork Wizard to your GitHub, get a one-line installer\n  /provider                   add or switch LLM providers (interactive picker)\n  /fusion [config]            toggle model fusion (panel debate → synthesis), or configure the panel\n  /ultra [config]             toggle mixture of agents (candidates draft → judge rules → agent acts)\n  /server [status|start|stop] manage the local llama-server\n  /login xai                  sign in with your xAI account (OAuth, no API key)\n  /reload                     reload skills, scripted tools, and MCP servers\n  /diff                       toggle the git diff sidebar\n  /todos                      toggle the todo list above the input\n  /dashboard                  session manager: all live wizard sessions on this machine\n  /cost                       show session token usage and cost\n  /memory [read|forget <name>] list, show, or forget saved project memories\n  /status                     show session status (model, usage, todos, tasks)\n  /bashes                     list background tasks (id, status, command)\n  /goal [text]                show the standing goal, or set one and start working on it\n  /settings                   open the settings menu (change config anytime)\n  /vim                        toggle vim-style modal editing of the input line\n  /doctor                     diagnose config, providers, MCP, hooks, state dirs\n  /quit                       exit\nkeys:\n  Tab / →                     accept command completion\n  Shift+Tab                   toggle plan mode\n  ↑ / ↓                       select suggestion · browse input history\n  PgUp/PgDn · wheel           scroll the transcript (stays put while streaming)\n  Esc · Ctrl-End              jump back to the live tail\n  drag                        select text — copied to the clipboard on release\n  click a tool card           expand / collapse its output\n  Ctrl-P                      model picker  ·  Ctrl-T toggle last tool card\n  Ctrl-A/E Home/End ←/→       move cursor   ·  Ctrl-W/U/K kill word/to start/to end\n  Ctrl-G                      edit the prompt in $EDITOR\n  Ctrl-C                      interrupt · press twice to quit".to_string()
}

/// The number of finished items.
pub open spec fn finished(t: Seq<TodoView>) -> nat
    decreases t.len(),
{
    if t.len() == 0 {
        0
    } else {
        finished(t.drop_last()) + if t.last().status == TodoStatus::Completed {
            1nat
        } else {
            0nat
        }
    }
}

pub(crate) fn count_finished(t: &Vec<TodoItem>) -> (r: usize)
    ensures
        r == finished(crate::app::state::todos_view(t@)),
{
    let ghost all = crate::app::state::todos_view(t@);
    let mut n: usize = 0;
    let mut i: usize = 0;
    assert(all.take(0) =~= Seq::empty());
    while i < t.len()
        invariant
            i <= t.len(),
            n <= i,
            all == crate::app::state::todos_view(t@),
            n == finished(all.take(i as int)),
        decreases t.len() - i,
    {
        assert(all.take(i + 1).drop_last() =~= all.take(i as int));
        assert(all.take(i + 1).last() == t@[i as int]@);
        if t[i].status == TodoStatus::Completed {
            n += 1;
        }
        i += 1;
    }
    assert(all.take(all.len() as int) =~= all);
    n
}

/// What `/status` says of the effort.
pub open spec fn effort_text(e: Option<ReasoningEffort>) -> Seq<char> {
    match e {
        Some(x) => x.label(),
        None => "default"@,
    }
}

/// Token counts as they are shown.
pub open spec fn usage_text(prompt: u64, completion: u64) -> Seq<char> {
    decimal(prompt as nat) + " prompt + "@ + decimal(completion as nat) + " completion tokens"@
}

pub(crate) fn show_usage(prompt: u64, completion: u64) -> (r: String)
    ensures
        r@ == usage_text(prompt, completion),
{
    let mut s = number(prompt);
    s.append(" prompt + ");
    s.append(&number(completion));
    s.append(" completion tokens");
    s
}

/// One line of `/bashes` for each task.
pub open spec fn task_lines(r: Seq<RowView>) -> Seq<char>
    decreases r.len(),
{
    if r.len() == 0 {
        "background tasks:\n"@
    } else {
        let x = r.last();
        task_lines(r.drop_last()) + ("  #"@ + decimal(x.id as nat) + " ["@ + x.status + "] "@
            + x.command + "\n"@)
    }
}

pub(crate) fn show_tasks(rows: &Vec<TaskRow>) -> (r: String)
    ensures
        r@ == trim_end(task_lines(rows_view(rows@))),
{
    let ghost all = rows_view(rows@);
    let mut text = "background tasks:\n".to_string();
    let mut i: usize = 0;
    assert(all.take(0) =~= Seq::empty());
    while i < rows.len()
        invariant
            i <= rows.len(),
            all == rows_view(rows@),
            text@ == task_lines(all.take(i as int)),
        decreases rows.len() - i,
    {
        assert(all.take(i + 1).drop_last() =~= all.take(i as int));
        assert(all.take(i + 1).last() == rows@[i as int]@);
        let mut line = "  #".to_string();
        line.append(&number(rows[i].id as u64));
        line.append(" [");
        line.append(&rows[i].status);
        line.append("] ");
        line.append(&rows[i].command);
        line.append("\n");
        text.append(&line);
        i += 1;
    }
    assert(all.take(all.len() as int) =~= all);
    let cs = chars_of(&text);
    let end = drop_white(&cs, 0);
    let out = slice_text(&cs, 0, end);
    assert(cs@.skip(0) =~= cs@);
    assert(out@ =~= cs@.subrange(0, end as int));
    out
}

/// A file as a rewind row names it.
pub open spec fn short_name(path: Seq<char>) -> Seq<char> {
    match file_name(path) {
        Some(name) => name,
        None => path,
    }
}

/// A turn's row on the rewind menu: its prompt, its files, or both.
pub open spec fn candidate_item(c: CandidateView) -> ItemView {
    let files = join(c.files.map_values(|f: Seq<char>| short_name(f)), ", "@);
    item(
        decimal(c.turn as nat),
        if c.prompt.len() == 0 {
            files
        } else if files.len() == 0 {
            c.prompt
        } else {
            c.prompt + " · "@ + files
        },
        false,
    )
}

fn short_names(files: &Vec<String>) -> (r: Vec<String>)
    ensures
        texts(r@) == texts(files@).map_values(|f: Seq<char>| short_name(f)),
{
    let mut out: Vec<String> = Vec::new();
    let mut i: usize = 0;
    while i < files.len()
        invariant
            i <= files.len(),
            out@.len() == i,
            forall|j: int| 0 <= j < i ==> (#[trigger] out@[j])@ == short_name(files@[j]@),
        decreases files.len() - i,
    {
        let name = match name_of(&files[i]) {
            Some(n) => n,
            None => files[i].clone(),
        };
        out.push(name);
        i += 1;
    }
    assert(texts(out@) =~= texts(files@).map_values(|f: Seq<char>| short_name(f)));
    out
}

pub(crate) fn candidate_items(c: &Vec<RewindCandidate>) -> (r: Vec<PickerItem>)
    ensures
        items_view(r@) == candidates_view(c@).map_values(|x: CandidateView| candidate_item(x)),
{
    let mut items: Vec<PickerItem> = Vec::new();
    let mut i: usize = 0;
    while i < c.len()
        invariant
            i <= c.len(),
            items_view(items@).len() == i,
            forall|j: int|
                0 <= j < i ==> #[trigger] items_view(items@)[j] == candidate_item(c@[j]@),
        decreases c.len() - i,
    {
        let files = join_texts(&short_names(&c[i].files), ", ");
        let detail = if is_empty_text(&c[i].prompt) {
            files
        } else if is_empty_text(&files) {
            c[i].prompt.clone()
        } else {
            let mut d = c[i].prompt.clone();
            d.append(" · ");
            d.append(&files);
            d
        };
        add_item(&mut items, number(c[i].turn), detail, false);
        i += 1;
    }
    assert(items_view(items@) =~= candidates_view(c@).map_values(
        |x: CandidateView| candidate_item(x),
    ));
    items
}

/// The rows of the mode menu.
pub open spec fn mode_items(mode: Mode) -> Seq<ItemView> {
    seq![
        item(
            "genie"@,
            "interactive — bypass permissions; acts without asking"@,
            mode == Mode::Genie,
        ),
        item(
            "sovereign"@,
            "autonomous — works continuously; self-directing"@,
            mode == Mode::Sovereign,
        ),
    ]
}

/// The rows of the effort menu.
pub open spec fn effort_items(e: Option<ReasoningEffort>) -> Seq<ItemView> {
    seq![
        item(
            "high"@,
            "most reasoning — slowest, best on hard tasks"@,
            e == Some(ReasoningEffort::High),
        ),
        item("medium"@, "balanced reasoning"@, e == Some(ReasoningEffort::Medium)),
        item("low"@, "least reasoning — fastest, cheapest"@, e == Some(ReasoningEffort::Low)),
        item("default"@, "leave the provider default (e.g. Grok 4.5 → high)"@, e is None),
    ]
}

/// A provider's line on `/provider list`.
pub open spec fn provider_line(p: ProviderView, active: Seq<char>) -> Seq<char> {
    "\n"@ + (if p.name == active {
        "* "@
    } else {
        "  "@
    }) + p.name + " ("@ + p.kind.label() + ") "@ + p.model + " @ "@ + p.base_url + (
    match p.api_key_env {
        Some(env) => " [key: $"@ + env + "]"@,
        None => ""@,
    })
}

/// The lines of `/provider list`.
pub open spec fn provider_lines(p: Seq<ProviderView>, active: Seq<char>) -> Seq<char>
    decreases p.len(),
{
    if p.len() == 0 {
        "configured providers:"@
    } else {
        provider_lines(p.drop_last(), active) + provider_line(p.last(), active)
    }
}

fn show_provider(p: &ProviderConfig, active: &str) -> (r: String)
    ensures
        r@ == provider_line(p@, active@),
{
    let mut s = "\n".to_string();
    s.append(
        if same(&p.name, active) {
            "* "
        } else {
            "  "
        },
    );
    s.append(&p.name);
    s.append(" (");
    s.append(p.kind.name());
    s.append(") ");
    s.append(&p.model);
    s.append(" @ ");
    s.append(&p.base_url);
    let key = match &p.api_key_env {
        Some(env) => {
            let mut k = " [key: $".to_string();
            k.append(env);
            k.append("]");
            k
        },
        None => "".to_string(),
    };
    s.append(&key);
    s
}

pub(crate) fn show_providers(p: &Vec<ProviderConfig>, active: &str) -> (r: String)
    ensures
        r@ == provider_lines(providers_view(p@), active@),
{
    let ghost all = providers_view(p@);
    let mut text = "configured providers:".to_string();
    let mut i: usize = 0;
    assert(all.take(0) =~= Seq::empty());
    while i < p.len()
        invariant
            i <= p.len(),
            all == providers_view(p@),
            text@ == provider_lines(all.take(i as int), active@),
        decreases p.len() - i,
    {
        assert(all.take(i + 1).drop_last() =~= all.take(i as int));
        assert(all.take(i + 1).last() == p@[i as int]@);
        text.append(&show_provider(&p[i], active));
        i += 1;
    }
    assert(all.take(all.len() as int) =~= all);
    text
}

/// The providers that have another name.
pub open spec fn without(p: Seq<ProviderView>, name: Seq<char>) -> Seq<ProviderView>
    decreases p.len(),
{
    if p.len() == 0 {
        Seq::empty()
    } else {
        let before = without(p.drop_last(), name);
        if p.last().name == name {
            before
        } else {
            before.push(p.last())
        }
    }
}

pub(crate) fn drop_named(p: &Vec<ProviderConfig>, name: &str) -> (r: Vec<ProviderConfig>)
    ensures
        providers_view(r@) == without(providers_view(p@), name@),
{
    let ghost all = providers_view(p@);
    let mut out: Vec<ProviderConfig> = Vec::new();
    let mut i: usize = 0;
    assert(providers_view(out@) =~= without(all.take(0), name@));
    while i < p.len()
        invariant
            i <= p.len(),
            all == providers_view(p@),
            providers_view(out@) == without(all.take(i as int), name@),
        decreases p.len() - i,
    {
        assert(all.take(i + 1).drop_last() =~= all.take(i as int));
        assert(all.take(i + 1).last() == p@[i as int]@);
        if !same(&p[i].name, name) {
            let ghost before = out@;
            out.push(p[i].copy());
            assert(providers_view(out@) =~= providers_view(before).push(p@[i as int]@));
        }
        i += 1;
    }
    assert(all.take(all.len() as int) =~= all);
    out
}

} // verus!
