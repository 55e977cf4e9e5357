//! What holds of what the commands list and tell.

use crate::app::command::{finished, provider_lines};
use crate::app::command_laws::{at_rest, kept, told};
use crate::app::menus::backend_pos;
use crate::app::picker::{current_pos, first_current, ItemView, PickerKind};
use crate::app::state::{AppView, ComposerView, TodoStatus, TodoView, WebBackendView};
use crate::app::tasks::{FactsView, TaskView};
use crate::commands::{CommandView, ProviderActionView};
use crate::config::{ConfigView, Mode, ProviderView, ReasoningEffort, StepBudget};
use crate::text::decimal;
use vstd::prelude::*;

verus! {

/// A menu opens on the first row that is in effect, or on its first row.
pub proof fn law_a_menu_opens_on_what_is_in_effect(items: Seq<ItemView>, i: int)
    requires
        0 <= i <= items.len(),
        forall|k: int| 0 <= k < i ==> !(#[trigger] items[k]).current,
        i < items.len() ==> items[i].current,
    ensures
        first_current(items) == if i < items.len() {
            i
        } else {
            0
        },
{
    lemma_current(items, i);
}

proof fn lemma_current(items: Seq<ItemView>, i: int)
    requires
        0 <= i <= items.len(),
        forall|k: int| 0 <= k < i ==> !(#[trigger] items[k]).current,
        i < items.len() ==> items[i].current,
    ensures
        current_pos(items) == i,
    decreases items.len(),
{
    if i > 0 {
        assert(!items[0].current);
        let d = items.drop_first();
        assert forall|k: int| 0 <= k < i - 1 implies !(#[trigger] d[k]).current by {
            assert(d[k] == items[k + 1]);
        }
        lemma_current(d, i - 1);
    }
}

/// The mode menu has both modes, with the one in effect marked and selected.
pub proof fn law_the_mode_menu_marks_the_mode(
    s: AppView,
    facts: Option<FactsView>,
    genie: StepBudget,
)
    requires
        at_rest(s),
    ensures
        ({
            let (t, task) = s.command(CommandView::Mode(None), facts, genie);
            let m = t.composer.picker;
            &&& task is None
            &&& m is Some
            &&& m->0.kind == PickerKind::Mode
            &&& m->0.items.len() == 2
            &&& m->0.items[0].value == "genie"@
            &&& m->0.items[1].value == "sovereign"@
            &&& m->0.items[0].current == (s.mode == Mode::Genie)
            &&& m->0.items[1].current == (s.mode == Mode::Sovereign)
            &&& m->0.selected == if s.mode == Mode::Genie {
                0usize
            } else {
                1usize
            }
            &&& t == (AppView { composer: ComposerView { picker: m, ..s.composer }, ..s })
        }),
{
    reveal(AppView::command);
    reveal(AppView::report_command);
    reveal(AppView::agent_command);
    reveal(AppView::mode_menu);
    let items = crate::app::command::mode_items(s.mode);
    lemma_current(
        items,
        if s.mode == Mode::Genie {
            0
        } else {
            1
        },
    );
}

/// The effort menu has every effort, with the one in effect marked and selected.
pub proof fn law_the_effort_menu_marks_the_effort(
    s: AppView,
    facts: Option<FactsView>,
    genie: StepBudget,
)
    requires
        at_rest(s),
    ensures
        ({
            let (t, task) = s.command(CommandView::Effort(None), facts, genie);
            let m = t.composer.picker;
            let e = s.config.reasoning_effort;
            &&& task is None
            &&& m is Some
            &&& m->0.kind == PickerKind::Effort
            &&& m->0.items.len() == 4
            &&& m->0.items[0].value == "high"@
            &&& m->0.items[1].value == "medium"@
            &&& m->0.items[2].value == "low"@
            &&& m->0.items[3].value == "default"@
            &&& m->0.items[0].current == (e == Some(ReasoningEffort::High))
            &&& m->0.items[1].current == (e == Some(ReasoningEffort::Medium))
            &&& m->0.items[2].current == (e == Some(ReasoningEffort::Low))
            &&& m->0.items[3].current == (e is None)
            &&& m->0.items[m->0.selected as int].current
        }),
{
    reveal(AppView::command);
    reveal(AppView::report_command);
    reveal(AppView::agent_command);
    reveal(AppView::effort_menu);
    let items = crate::app::command::effort_items(s.config.reasoning_effort);
    lemma_current(
        items,
        match s.config.reasoning_effort {
            Some(ReasoningEffort::High) => 0,
            Some(ReasoningEffort::Medium) => 1,
            Some(ReasoningEffort::Low) => 2,
            None => 3,
        },
    );
}

/// The rewind menu has a row for each turn that can be undone, in order, by its
/// number.
pub proof fn law_the_rewind_menu_lists_every_turn(
    s: AppView,
    f: FactsView,
    genie: StepBudget,
    i: int,
)
    requires
        at_rest(s),
    ensures
        ({
            let (t, task) = s.command(CommandView::Rewind(None), Some(f), genie);
            let m = t.composer.picker;
            &&& task is None
            &&& f.candidates.len() == 0 ==> t == told(s, "nothing to rewind yet"@)
            &&& f.candidates.len() > 0 ==> {
                &&& m is Some
                &&& m->0.kind == PickerKind::Rewind
                &&& m->0.items.len() == f.candidates.len()
                &&& 0 <= i < f.candidates.len() ==> m->0.items[i].value == decimal(
                    f.candidates[i].turn as nat,
                )
                &&& t == (AppView { composer: ComposerView { picker: m, ..s.composer }, ..s })
            }
        }),
{
    reveal(AppView::command);
    reveal(AppView::report_command);
    reveal(AppView::agent_command);
    reveal(AppView::rewind_menu);
}

/// The list of providers has a line for each, in order: its name, behind a star if
/// it is in use, its kind, its model and its address, and the variable of its key.
pub proof fn law_every_provider_is_listed(p: Seq<ProviderView>, x: ProviderView, active: Seq<char>)
    ensures
        provider_lines(Seq::empty(), active) == "configured providers:"@,
        provider_lines(p.push(x), active) == provider_lines(p, active) + ("\n"@ + (if x.name
            == active {
            "* "@
        } else {
            "  "@
        }) + x.name + " ("@ + x.kind.label() + ") "@ + x.model + " @ "@ + x.base_url + (
        match x.api_key_env {
            Some(env) => " [key: $"@ + env + "]"@,
            None => ""@,
        })),
{
    assert(p.push(x).drop_last() =~= p);
}

/// Listing the providers tells the list of all that are configured, with the one
/// in use starred.
pub proof fn law_the_provider_list_is_told(
    s: AppView,
    facts: Option<FactsView>,
    genie: StepBudget,
)
    ensures
        s.config.providers.len() > 0 ==> s.command(
            CommandView::Provider(ProviderActionView::List),
            facts,
            genie,
        ) == (
            told(
                s,
                provider_lines(s.config.providers, s.config.active().name) + "\n(* = active)"@,
            ),
            None::<TaskView>,
        ),
{
    reveal(AppView::command);
    reveal(AppView::report_command);
    reveal(AppView::agent_command);
    reveal(AppView::provider_command);
    reveal(AppView::provider_run);
    reveal(AppView::providers_told);
}

/// The todo items that count as done are those that are completed.
pub proof fn law_done_items_are_counted(t: Seq<TodoView>)
    ensures
        finished(t) == t.filter(|x: TodoView| x.status == TodoStatus::Completed).len(),
    decreases t.len(),
{
    reveal(Seq::filter);
    if t.len() > 0 {
        law_done_items_are_counted(t.drop_last());
    }
}

/// The status tells the model and the provider in use, the tokens used and whether
/// the modes are on, and changes nothing.
pub proof fn law_the_status_is_told(s: AppView, f: FactsView, genie: StepBudget)
    ensures
        ({
            let (t, task) = s.command(CommandView::Status, Some(f), genie);
            let p = s.config.active();
            let head = "model: "@ + s.turn.status.model + "\nprovider: "@ + p.name + " ("@
                + p.kind.variant() + " @ "@ + p.base_url + ")\nmode: "@ + s.mode.label()
                + "\neffort: "@ + (match s.config.reasoning_effort {
                Some(e) => e.label(),
                None => "default"@,
            });
            let used = "\nsession: "@ + f.session_id + "\nusage: "@ + (decimal(
                f.prompt_tokens as nat,
            ) + " prompt + "@ + decimal(f.completion_tokens as nat) + " completion tokens"@)
                + "\nbackground tasks: "@ + decimal(f.running_tasks as nat) + " running"@;
            let todos = if s.panels.todos.len() > 0 {
                "\ntodos: "@ + decimal(finished(s.panels.todos)) + "/"@ + decimal(
                    s.panels.todos.len(),
                ) + " done"@
            } else {
                "\ntodos: none"@
            };
            let modes = "\nplan mode: "@ + (if s.planning.omakase {
                "on (omakase — chef's choice)"@
            } else if s.planning.plan_mode {
                "on"@
            } else {
                "off"@
            }) + "\nultra: "@ + (match s.turn.ultra {
                Some(label) => label,
                None => "off"@,
            });
            (t, task) == (told(s, head + used + todos + modes), None::<TaskView>)
        }),
{
    reveal(AppView::command);
    reveal(AppView::report_command);
    reveal(AppView::status_told);
}

/// A web search backend that needs no key is used at once, and written to disk; one
/// that needs a key is asked for it first.
pub proof fn law_a_backend_is_used_or_asked_for_its_key(s: AppView, id: Seq<char>, i: int)
    requires
        0 <= i < s.surroundings.web_backends.len(),
        s.surroundings.web_backends[i].id == id,
        forall|k: int|
            0 <= k < i ==> (#[trigger] s.surroundings.web_backends[k]).id != id,
        id != "xai"@,
        id != "grok"@,
    ensures
        ({
            let t = s.web_backend_selected(id);
            let b = s.surroundings.web_backends[i];
            &&& !b.needs_key ==> t == kept(
                s,
                ConfigView { web_search_backend: id, ..s.config },
                Some("web search: using "@ + b.label),
                false,
            )
            &&& b.needs_key ==> t.config == s.config && t.effects == s.effects
                && t.composer.web_key_backend == Some(id) && t.composer.input.len() == 0
        }),
{
    lemma_backend(s.surroundings.web_backends, id, i);
    crate::app::editor::lemma_synced(
        ComposerView {
            web_key_backend: Some(id),
            input_mode: crate::app::state::InputMode::Prompt,
            input: Seq::empty(),
            cursor: 0,
            history_pos: None,
            pending_images: Seq::empty(),
            ..s.composer
        },
    );
}

proof fn lemma_backend(b: Seq<WebBackendView>, id: Seq<char>, i: int)
    requires
        0 <= i < b.len(),
        b[i].id == id,
        forall|k: int| 0 <= k < i ==> (#[trigger] b[k]).id != id,
    ensures
        backend_pos(b, id) == i,
    decreases b.len(),
{
    if i > 0 {
        assert(b[0].id != id);
        let d = b.drop_first();
        assert forall|k: int| 0 <= k < i - 1 implies (#[trigger] d[k]).id != id by {
            assert(d[k] == b[k + 1]);
        }
        lemma_backend(d, id, i - 1);
    }
}

} // verus!
