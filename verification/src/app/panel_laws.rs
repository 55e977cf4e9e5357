//! What holds of the commands and keys that open, close and move what stands
//! beside the line.

use crate::app::command_laws::{at_rest, told};
use crate::app::edit_laws::{quiet, types_line};
use crate::app::editor::lemma_synced;
use crate::app::keys::{KeyCode, KeyEvent, KeyEventKind};
use crate::app::state::{
    ActionView, AppView, ChatView, ComposerView, DashboardView, EffectView, PanelsView,
    PendingView, RailView, TurnView,
};
use crate::app::tasks::{FactsView, TaskView};
use crate::app::transcript::PaneView;
use crate::app::vim::VimView;
use crate::commands::{CommandView, FusionAction, ServerAction, UltraActionView};
use crate::config::{ConfigView, ProviderKind, StepBudget};
use vstd::prelude::*;

verus! {

/// A command that opens a panel closes it the second time: the changes, which are
/// read when they are opened, the todo list, the dashboard, which is refreshed.
pub proof fn law_panels_open_and_close(s: AppView, facts: Option<FactsView>, genie: StepBudget)
    ensures
        ({
            let (t, task) = s.command(CommandView::Diff, facts, genie);
            &&& s.panels.show_diff ==> task is None && t == (AppView {
                panels: PanelsView { show_diff: false, ..s.panels },
                ..s
            })
            &&& !s.panels.show_diff ==> task == Some(TaskView::ReadDiff) && t == (AppView {
                panels: PanelsView { show_diff: true, diff_scroll: 0, ..s.panels },
                ..s
            })
        }),
        ({
            let (t, task) = s.command(CommandView::Todos, facts, genie);
            let p = AppView {
                panels: PanelsView { show_todos: !s.panels.show_todos, ..s.panels },
                ..s
            };
            &&& task is None
            &&& t.panels == p.panels
            &&& s.panels.show_todos || s.panels.todos.len() > 0 ==> t == p
        }),
        ({
            let (t, task) = s.command(CommandView::Dashboard, facts, genie);
            let d = AppView {
                dashboard: DashboardView { open: !s.dashboard.open, ..s.dashboard },
                ..s
            };
            &&& task is None
            &&& s.dashboard.open ==> t == d
            &&& !s.dashboard.open ==> t == (AppView {
                effects: s.effects.push(EffectView::RefreshSessions).push(EffectView::RefreshPeek),
                ..d
            })
        }),
        s.command(CommandView::Quit, facts, genie) == (
            AppView { pending: PendingView { should_quit: true, ..s.pending }, ..s },
            None::<TaskView>,
        ),
{
    reveal(AppView::command);
    reveal(AppView::diff_toggled);
    reveal(AppView::todos_toggled);
    reveal(AppView::dashboard_toggled);
    reveal(AppView::quitting);
}

/// Modal editing goes on and off by turns, in the settings and on the line, which
/// keeps its text; it starts in Insert mode.
pub proof fn law_modal_editing_toggles(s: AppView, facts: Option<FactsView>, genie: StepBudget)
    ensures
        ({
            let (t, task) = s.command(CommandView::Vim, facts, genie);
            let on = !s.composer.vim.enabled;
            &&& task is None
            &&& t.config == (ConfigView { vim: on, ..s.config })
            &&& t.composer == (ComposerView { vim: VimView::fresh(on), ..s.composer })
            &&& t.effects.len() == s.effects.len() + 1
            &&& t.effects.last() is SaveConfig
            &&& t.chat == s.chat
            &&& t.turn == s.turn
        }),
{
    reveal(AppView::command);
}

/// Work that a command hands on is handed on as it was asked for.
pub proof fn law_work_is_handed_on_as_asked(
    s: AppView,
    facts: Option<FactsView>,
    genie: StepBudget,
    deep: bool,
    text: Seq<char>,
    branch: Option<Seq<char>>,
)
    ensures
        s.command(CommandView::Evolve { deep, description: text }, facts, genie).1 == Some(
            TaskView::Evolve { deep, description: text },
        ),
        s.command(CommandView::Publish { branch }, facts, genie).1 == Some(
            TaskView::Publish { branch },
        ),
        s.command(CommandView::Login("xai"@), facts, genie).1 == Some(TaskView::Login),
        text != "xai"@ ==> s.command(CommandView::Login(text), facts, genie) == (
            told(s, "unknown login provider '"@ + text + "' (supported: xai)"@),
            None::<TaskView>,
        ),
        s.command(CommandView::Cost, facts, genie) == (s, Some(TaskView::EstimateCost)),
        s.command(CommandView::Doctor, facts, genie) == (s, Some(TaskView::Doctor)),
        s.command(CommandView::Agents, facts, genie) == (s, Some(TaskView::ListAgents)),
        s.command(CommandView::Server(ServerAction::Stop), facts, genie) == (
            s,
            Some(TaskView::StopServer),
        ),
        s.config.active().kind == ProviderKind::LlamaCpp ==> s.command(
            CommandView::Server(ServerAction::Status),
            facts,
            genie,
        ) == (s, Some(TaskView::ProbeServer)),
        s.config.active().kind == ProviderKind::LlamaCpp ==> s.command(
            CommandView::Server(ServerAction::Start),
            facts,
            genie,
        ) == (s, Some(TaskView::ProbeBeforeStart)),
        s.config.active().kind != ProviderKind::LlamaCpp ==> s.command(
            CommandView::Server(ServerAction::Start),
            facts,
            genie,
        ).1 is None,
{
    reveal(AppView::command);
    reveal(AppView::report_command);
    reveal(AppView::agent_command);
    reveal(AppView::provider_command);
    reveal(AppView::evolve_run);
    reveal(AppView::publish_run);
    reveal(AppView::login_run);
    reveal(AppView::server_run);
}

/// Fusion is switched off by a rebuild on the single model and on by building the
/// panel in effect; ultra likewise, on the live agent; and neither goes on while
/// the other is.
pub proof fn law_fusion_and_ultra_toggle(s: AppView, facts: Option<FactsView>, genie: StepBudget)
    requires
        at_rest(s),
    ensures
        ({
            let (t, task) = s.command(CommandView::Fusion(FusionAction::Toggle), facts, genie);
            &&& s.turn.fusion_active ==> {
                &&& t == (AppView { turn: TurnView { fusion_active: false, ..s.turn }, ..s })
                &&& task is Some && task->0 is RebuildProvider
            }
            &&& !s.turn.fusion_active && s.turn.ultra is Some ==> task is None && t.turn == s.turn
            &&& !s.turn.fusion_active && s.turn.ultra is None && s.config.providers.len() == 0
                && s.config.fusion is None ==> task is None && t.turn == s.turn
            &&& !s.turn.fusion_active && s.turn.ultra is None && s.config.fusion is Some ==> (
            t,
            task,
            ) == (s, Some(TaskView::BuildFusion(s.config.fusion->0)))
        }),
        ({
            let (t, task) = s.command(CommandView::Ultra(UltraActionView::Toggle), facts, genie);
            &&& s.turn.ultra is Some ==> {
                &&& t.turn == (TurnView { ultra: None, ..s.turn })
                &&& task == if facts is Some {
                    Some(TaskView::StopUltra)
                } else {
                    None
                }
            }
            &&& s.turn.ultra is None && s.turn.fusion_active ==> task is None && t.turn == s.turn
            &&& s.turn.ultra is None && !s.turn.fusion_active ==> (t, task) == (
                s,
                Some(TaskView::BuildUltra),
            )
        }),
{
    reveal(AppView::command);
    reveal(AppView::report_command);
    reveal(AppView::agent_command);
    reveal(AppView::provider_command);
    reveal(AppView::fusion_run);
    reveal(AppView::ultra_run);
}

/// Esc closes one thing at a time: the changes first, then the todo list; then the
/// view goes back to its end, and only then the line is emptied, with the images
/// staged on it.
pub proof fn law_escape_closes_one_thing_at_a_time(s: AppView, key: KeyEvent)
    requires
        types_line(s, key),
        key.code == KeyCode::Esc,
        !s.composer.vim.enabled,
    ensures
        ({
            let (t, action) = s.key(key);
            let q = quiet(s);
            let (a, b, c) = (s.panels.show_diff, s.panels.show_todos, s.chat.scroll_follow);
            &&& action is None
            &&& a ==> t.panels == (PanelsView { show_diff: false, diff_scroll: 0, ..s.panels })
                && t.composer.input == s.composer.input && t.chat == q.chat
            &&& !a && b ==> t.panels == (PanelsView { show_todos: false, ..s.panels })
                && t.composer.input == s.composer.input && t.chat == q.chat
            &&& !a && !b && !c ==> t.panels == s.panels && t.composer.input == s.composer.input
                && t.chat == (ChatView { scroll: 0, scroll_follow: true, ..q.chat })
            &&& !a && !b && c ==> {
                &&& t.panels == s.panels
                &&& t.chat == q.chat
                &&& t.composer.input.len() == 0
                &&& t.composer.cursor == 0
                &&& t.composer.pending_images.len() == 0
                &&& t.composer.history == s.composer.history
                &&& t.composer.history_pos is None
            }
        }),
{
    reveal(AppView::key);
    reveal(AppView::screen_key);
    reveal(AppView::composer_key);
    reveal(AppView::line_keyed);
    reveal(AppView::escaped);
    lemma_synced(s.composer);
    let e = ComposerView {
        input: Seq::empty(),
        cursor: 0,
        history_pos: None,
        pending_images: Seq::empty(),
        ..s.composer
    };
    lemma_synced(e);
    lemma_synced(e.synced());
}

/// A chord works wherever the keys go: Ctrl-D ends the program, Ctrl-End goes to
/// the end of the view, Ctrl-P asks for the models unless a turn runs, and Ctrl-V
/// for an image on the clipboard unless a secret is typed.
pub proof fn law_chords_work_everywhere(s: AppView, key: KeyEvent)
    requires
        key.kind != KeyEventKind::Release,
        key.modifiers.control,
    ensures
        ({
            let (t, action) = s.key(key);
            let q = quiet(s);
            &&& key.code == KeyCode::Char('d') ==> (t, action) == (
                AppView { pending: PendingView { should_quit: true, ..q.pending }, ..q },
                None::<ActionView>,
            )
            &&& key.code == KeyCode::End && s.rail.attached is None ==> (t, action) == (
                AppView { chat: ChatView { scroll: 0, scroll_follow: true, ..q.chat }, ..q },
                None::<ActionView>,
            )
            &&& key.code == KeyCode::Char('p') && !s.turn.status.busy ==> (t, action) == (
                q,
                Some(ActionView::Command(CommandView::Model(None))),
            )
            &&& key.code == KeyCode::Char('p') && s.turn.status.busy ==> (t, action) == (
                q,
                None::<ActionView>,
            )
            &&& key.code == KeyCode::Char('v') && !s.masked() ==> (t, action) == (
                AppView {
                    effects: s.effects.push(EffectView::ReadClipboard { explicit: true }),
                    ..q
                },
                None::<ActionView>,
            )
        }),
{
    reveal(AppView::key);
    reveal(AppView::chord);
}

/// The user is inside the pane `i`.
pub open spec fn inside_pane(s: AppView, key: KeyEvent, i: int) -> bool {
    &&& key.kind != KeyEventKind::Release
    &&& !key.modifiers.control
    &&& !key.modifiers.shift
    &&& !s.dashboard.open
    &&& s.rail.attached == Some(i as usize)
    &&& 0 <= i < s.rail.panes.len() <= usize::MAX
}

/// Inside a pane, with others beside it, the arrows go to the next one, around the
/// rail; it is read then, and at its end.  Typing still reaches the line.
pub proof fn law_arrows_go_from_pane_to_pane(s: AppView, key: KeyEvent, i: int)
    requires
        inside_pane(s, key, i),
        s.rail.panes.len() >= 2,
        key.code == KeyCode::Down || key.code == KeyCode::Up,
    ensures
        ({
            let r = s.rail;
            let n = r.panes.len() as int;
            let to: int = if key.code == KeyCode::Down {
                if i + 1 < n {
                    i + 1
                } else {
                    0
                }
            } else if i > 0 {
                i - 1
            } else {
                n - 1
            };
            s.key(key) == (
                AppView {
                    rail: RailView {
                        panes: r.panes.update(
                            to,
                            PaneView { unread: 0, scroll: 0, scroll_follow: true, ..r.panes[to] },
                        ),
                        attached: Some(to as usize),
                        rail_focus: Some(to as usize),
                        ..r
                    },
                    ..quiet(s)
                },
                None::<ActionView>,
            )
        }),
{
    reveal(AppView::key);
    reveal(AppView::screen_key);
    reveal(AppView::pane_key);
}

/// Esc leaves a pane for the line: the pane is read, and its run goes from the
/// rail if it has rested.
pub proof fn law_escape_leaves_the_pane(s: AppView, key: KeyEvent, i: int)
    requires
        inside_pane(s, key, i),
        key.code == KeyCode::Esc,
        forall|j: int|
            0 <= j < s.rail.panes.len() ==> (#[trigger] s.rail.panes[j]).finished is None,
    ensures
        ({
            let r = s.rail;
            s.key(key) == (
                AppView {
                    rail: RailView {
                        panes: r.panes.update(i, PaneView { unread: 0, ..r.panes[i] }),
                        attached: None,
                        rail_focus: None,
                        ..r
                    },
                    ..quiet(s)
                },
                None::<ActionView>,
            )
        }),
{
    reveal(AppView::key);
    reveal(AppView::screen_key);
    reveal(AppView::pane_key);
    let r = s.rail;
    let panes = r.panes.update(i, PaneView { unread: 0, ..r.panes[i] });
    assert forall|j: int| 0 <= j < panes.len() implies (#[trigger] panes[j]).finished is None by {
        assert(r.panes[j].finished is None);
    }
    lemma_all_stay(panes, None, s.now);
}

proof fn lemma_all_stay(panes: Seq<PaneView>, watched: Option<u64>, now: u64)
    requires
        forall|j: int| 0 <= j < panes.len() ==> (#[trigger] panes[j]).finished is None,
    ensures
        crate::app::rail::staying(panes, watched, now) == panes,
    decreases panes.len(),
{
    if panes.len() > 0 {
        let d = panes.drop_last();
        assert(panes[panes.len() - 1].finished is None);
        assert forall|j: int| 0 <= j < d.len() implies (#[trigger] d[j]).finished is None by {
            assert(d[j] == panes[j]);
        }
        lemma_all_stay(d, watched, now);
        assert(d.push(panes.last()) =~= panes);
    }
}

} // verus!
