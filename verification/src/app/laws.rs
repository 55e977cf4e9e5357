//! What holds of the application across its keys and commands.

use crate::app::keys::{KeyCode, KeyEvent, KeyEventKind};
use crate::app::prompts::{InterviewView, ReviewView};
use crate::app::picker::{ItemView, PickerView};
use crate::app::state::{
    AppView, ComposerView, PanelsView, SurroundingsView, TodoView, MESSAGE_QUEUE_CAP,
};
use crate::app::tasks::TaskView;
use crate::config::ConfigView;
use vstd::prelude::*;

verus! {

/// Whether a step left the exit latch and the wish to quit as they were.
pub open spec fn keeps_exit(s: AppView, t: AppView) -> bool {
    t.pending.ctrl_c_armed == s.pending.ctrl_c_armed && t.pending.should_quit
        == s.pending.should_quit
}

/// Whether a step asked for no editor.
pub open spec fn keeps_editor(s: AppView, t: AppView) -> bool {
    t.pending.edit_prompt == s.pending.edit_prompt
}

proof fn lemma_submitted(s: AppView)
    ensures
        keeps_exit(s, s.submitted().0),
        keeps_editor(s, s.submitted().0),
{
    let t = s.with_composer(s.composer.accepted());
    lemma_line_submitted(s);
    lemma_line_submitted(t);
}

proof fn lemma_line_submitted(s: AppView)
    ensures
        keeps_exit(s, s.line_submitted().0),
        keeps_editor(s, s.line_submitted().0),
{
}

proof fn lemma_line(s: AppView, key: KeyEvent)
    ensures
        keeps_exit(s, s.line_key(key).0),
        s.masked() ==> keeps_editor(s, s.line_key(key).0),
{
    reveal(AppView::line_keyed);
    reveal(AppView::typed);
    reveal(AppView::arrowed);
    reveal(AppView::paged);
    reveal(AppView::escaped);
    lemma_submitted(s);
}

proof fn lemma_normal(s: AppView, key: KeyEvent)
    ensures
        keeps_exit(s, s.normal_key(key).0),
        keeps_editor(s, s.normal_key(key).0),
{
    reveal(AppView::normal_keyed);
    reveal(AppView::escaped);
    lemma_submitted(s.with_composer(s.composer.vim_key(key).0));
}

proof fn lemma_review(s: AppView, key: KeyEvent, review: ReviewView)
    ensures
        keeps_exit(s, s.review_key(key, review)),
        keeps_editor(s, s.review_key(key, review)),
{
}

proof fn lemma_interview(s: AppView, key: KeyEvent, open: InterviewView)
    ensures
        keeps_exit(s, s.interview_key(key, open)),
        keeps_editor(s, s.interview_key(key, open)),
{
}

proof fn lemma_setting(s: AppView, selected: usize)
    ensures
        keeps_exit(s, s.setting_applied(selected).0),
        keeps_editor(s, s.setting_applied(selected).0),
{
}

proof fn lemma_checked(s: AppView, items: Seq<ItemView>)
    ensures
        keeps_exit(s, s.import_picked(items).0),
        keeps_editor(s, s.import_picked(items).0),
        keeps_exit(s, s.panel_picked(items)),
        keeps_editor(s, s.panel_picked(items)),
        keeps_exit(s, s.roster_picked(items).0),
        keeps_editor(s, s.roster_picked(items).0),
{
}

proof fn lemma_provider(s: AppView, index: usize, id: Seq<char>)
    ensures
        keeps_exit(s, s.types_open()),
        keeps_editor(s, s.types_open()),
        keeps_exit(s, s.type_picked(index).0),
        keeps_editor(s, s.type_picked(index).0),
        keeps_exit(s, s.web_backend_selected(id)),
        keeps_editor(s, s.web_backend_selected(id)),
{
}

#[verifier::rlimit(40)]
#[verifier::spinoff_prover]
proof fn lemma_picked(s: AppView, p: PickerView)
    ensures
        keeps_exit(s, s.picked(p).0),
        keeps_editor(s, s.picked(p).0),
{
    reveal(AppView::picked);
    lemma_setting(s, p.selected);
    lemma_checked(s, p.items);
    if p.selected < p.items.len() {
        lemma_provider(s, p.selected, p.items[p.selected as int].value);
    }
}

proof fn lemma_picker(s: AppView, key: KeyEvent, p: PickerView)
    ensures
        keeps_exit(s, s.picker_key(key, p).0),
        keeps_editor(s, s.picker_key(key, p).0),
{
    reveal(AppView::picker_key);
    lemma_picked(s.with_picker(None), p);
}

proof fn lemma_composer(s: AppView, key: KeyEvent)
    ensures
        keeps_exit(s, s.composer_key(key).0),
        s.masked() ==> keeps_editor(s, s.composer_key(key).0),
{
    reveal(AppView::composer_key);
    lemma_line(s, key);
    lemma_normal(s, key);
    if s.planning.plan_review is Some {
        lemma_review(s, key, s.planning.plan_review->0);
    }
    if s.planning.interview is Some {
        lemma_interview(s, key, s.planning.interview->0);
    }
    if s.composer.picker is Some {
        lemma_picker(s, key, s.composer.picker->0);
    }
}

proof fn lemma_screen(s: AppView, key: KeyEvent)
    ensures
        keeps_exit(s, s.screen_key(key).0),
        s.masked() ==> keeps_editor(s, s.screen_key(key).0),
{
    reveal(AppView::screen_key);
    reveal(AppView::pane_key);
    reveal(AppView::rail_key);
    lemma_composer(s, key);
    lemma_composer(s.unfocused(), key);
}

proof fn lemma_dashboard(s: AppView, key: KeyEvent)
    ensures
        keeps_exit(s, s.dashboard_key(key)),
        keeps_editor(s, s.dashboard_key(key)),
{
    reveal(AppView::dashboard_key);
}

/// Ctrl-C twice in a row asks to quit, whatever is going on.
pub proof fn law_ctrl_c_twice_quits(s: AppView, key: KeyEvent)
    requires
        key.is_ctrl_c(),
        key.kind != KeyEventKind::Release,
    ensures
        s.key(key).0.key(key).0.pending.should_quit,
{
    reveal(AppView::key);
    reveal(AppView::chord);
}

/// Any other key press between them takes the first Ctrl-C back.
pub proof fn law_another_key_disarms_ctrl_c(s: AppView, key: KeyEvent)
    requires
        !key.is_ctrl_c(),
        key.kind != KeyEventKind::Release,
    ensures
        !s.key(key).0.pending.ctrl_c_armed,
{
    reveal(AppView::key);
    let t = s.touched(key);
    lemma_screen(t, key);
    lemma_dashboard(t, key);
    if key.modifiers.control {
        reveal(AppView::chord);
    }
}

/// Only Ctrl-C and Ctrl-D ask to quit.
pub proof fn law_no_other_key_quits(s: AppView, key: KeyEvent)
    requires
        !key.is_ctrl_c(),
        !(key.modifiers.control && key.code == KeyCode::Char('d')),
    ensures
        s.key(key).0.pending.should_quit == s.pending.should_quit,
{
    reveal(AppView::key);
    let t = s.touched(key);
    lemma_screen(t, key);
    lemma_dashboard(t, key);
    if key.modifiers.control {
        reveal(AppView::chord);
    }
}

/// While a secret is being typed no key hands the line to an editor.
pub proof fn law_a_secret_never_reaches_an_editor(s: AppView, key: KeyEvent)
    requires
        s.masked(),
    ensures
        s.key(key).0.pending.edit_prompt == s.pending.edit_prompt,
{
    reveal(AppView::key);
    let t = s.touched(key);
    lemma_screen(t, key);
    lemma_dashboard(t, key);
    if key.modifiers.control {
        reveal(AppView::chord);
    }
}

/// Undo brings back the line as it was before the change, and forgets it.
pub proof fn law_undo_takes_a_change_back(before: ComposerView, after: ComposerView)
    requires
        before.cursor <= before.input.len(),
        after.vim.undo == before.snapshot().vim.undo,
    ensures
        after.undone().input == before.input,
        after.undone().vim.undo == before.vim.undo,
        after.undone().cursor == (ComposerView {
            input: before.input,
            cursor: before.cursor,
            ..after
        }).on_char().cursor,
{
    assert(before.snapshot().vim.undo.last() == (before.input, before.cursor));
    assert(before.snapshot().vim.undo.drop_last() =~= before.vim.undo);
}

/// The composer after recalling `n` older inputs.
pub open spec fn back(c: ComposerView, n: nat) -> ComposerView
    decreases n,
{
    if n == 0 {
        c
    } else {
        back(c, (n - 1) as nat).recalled_prev()
    }
}

/// The composer after recalling `n` newer inputs.
pub open spec fn forth(c: ComposerView, n: nat) -> ComposerView
    decreases n,
{
    if n == 0 {
        c
    } else {
        forth(c, (n - 1) as nat).recalled_next()
    }
}

proof fn lemma_back(c: ComposerView, n: nat)
    requires
        c.history_pos is None,
        c.history.len() <= usize::MAX,
        0 < n <= c.history.len(),
    ensures
        back(c, n).history == c.history,
        back(c, n).history_draft == c.input,
        back(c, n).history_pos == Some((c.history.len() - n) as usize),
        back(c, n).input == c.history[c.history.len() - n],
    decreases n,
{
    crate::app::editor::lemma_synced(
        ComposerView {
            input: c.history[c.history.len() - n],
            cursor: c.history[c.history.len() - n].len() as usize,
            history_draft: c.input,
            ..back(c, (n - 1) as nat)
        },
    );
    if n > 1 {
        lemma_back(c, (n - 1) as nat);
        let b = back(c, (n - 1) as nat);
        crate::app::editor::lemma_synced(
            ComposerView {
                input: c.history[c.history.len() - n],
                cursor: c.history[c.history.len() - n].len() as usize,
                ..b
            },
        );
    }
}

/// Going back through submitted inputs and forth again as often ends at the
/// draft that was there.
pub proof fn law_history_gives_the_draft_back(c: ComposerView, n: nat)
    requires
        c.history_pos is None,
        c.history.len() <= usize::MAX,
        0 < n <= c.history.len(),
    ensures
        forth(back(c, n), n).input == c.input,
        forth(back(c, n), n).history_pos is None,
        forth(back(c, n), n).history == c.history,
{
    lemma_forth(c, n, n);
}

proof fn lemma_forth(c: ComposerView, n: nat, k: nat)
    requires
        c.history_pos is None,
        c.history.len() <= usize::MAX,
        0 < n <= c.history.len(),
        k <= n,
    ensures
        ({
            let f = forth(back(c, n), k);
            &&& f.history == c.history
            &&& k < n ==> f.history_draft == c.input && f.history_pos == Some(
                (c.history.len() - n + k) as usize,
            )
            &&& k == n ==> f.input == c.input && f.history_pos is None
        }),
    decreases k,
{
    lemma_back(c, n);
    if k > 0 {
        lemma_forth(c, n, (k - 1) as nat);
        let f = forth(back(c, n), (k - 1) as nat);
        let p = f.history_pos->0;
        if p + 1 < f.history.len() {
            crate::app::editor::lemma_synced(
                ComposerView {
                    input: f.history[p + 1],
                    cursor: f.history[p + 1].len() as usize,
                    ..f
                },
            );
        } else {
            crate::app::editor::lemma_synced(
                ComposerView {
                    input: f.history_draft,
                    cursor: f.history_draft.len() as usize,
                    history_draft: Seq::empty(),
                    ..f
                },
            );
        }
    }
}

/// A prompt sent while a turn runs waits behind all that already wait, as it
/// would have been sent; nothing that waits is lost or moved, and no more wait
/// than there is room for.
pub proof fn law_queued_prompts_wait_their_turn(s: AppView, input: Seq<char>)
    requires
        s.wf(),
        s.turn.status.busy,
    ensures
        ({
            let q = s.turn.message_queue;
            let (t, action) = s.prompt_submitted(input);
            &&& action is None
            &&& t.turn.message_queue == (if s.turn.rebuilding is None && q.len()
                < MESSAGE_QUEUE_CAP {
                q.push(s.prepared(input))
            } else {
                q
            })
            &&& t.turn.message_queue.len() <= MESSAGE_QUEUE_CAP
        }),
{
}

/// Only the first list of todos opens the band: once one was seen, a later list
/// leaves it open or closed as it is.
pub proof fn law_todos_open_the_band_once(p: PanelsView, first: Seq<TodoView>, later: Seq<TodoView>)
    requires
        first.len() > 0,
    ensures
        !p.todos_seen ==> p.todos_updated(first).show_todos,
        p.todos_updated(first).todos_seen,
        p.todos_seen ==> p.todos_updated(later).show_todos == p.show_todos,
{
}

/// Whether fusion and ultra, which would multiply, are both on.
pub open spec fn both_on(s: AppView) -> bool {
    s.turn.fusion_active && s.turn.ultra is Some
}

/// The commands that turn fusion and ultra on never turn on one beside the
/// other, also not when the main loop has built what they asked for.
pub proof fn law_fusion_and_ultra_are_never_both_on(
    s: AppView,
    slot: bool,
    built: Result<Seq<char>, Seq<char>>,
)
    requires
        !both_on(s),
    ensures
        !both_on(s.fusion_run().0),
        !both_on(s.ultra_run(slot).0),
        s.fusion_run().1 matches Some(TaskView::BuildFusion(_)) ==> !both_on(
            s.fusion_run().0.fusion_done(built).0,
        ),
        s.ultra_run(slot).1 == Some(TaskView::BuildUltra) ==> !both_on(
            s.ultra_run(slot).0.ultra_done(built, slot).0,
        ),
{
    reveal(AppView::fusion_run);
    reveal(AppView::ultra_run);
    reveal(AppView::fusion_done);
    reveal(AppView::ultra_done);
}

/// Omakase is on only while plan mode is.
pub open spec fn plans_if_omakase(s: AppView) -> bool {
    s.planning.omakase ==> s.planning.plan_mode
}

/// Omakase is a way of planning: it is on only while plan mode is, from the
/// first moment, whichever of the two is toggled, however a plan under review
/// is answered, and when a plan arrives or the agent goes ahead with its own.
pub proof fn law_omakase_implies_plan_mode(
    s: AppView,
    slot: bool,
    key: KeyEvent,
    review: ReviewView,
    plan: Seq<char>,
    config: ConfigView,
    root: Seq<char>,
    around: SurroundingsView,
)
    requires
        plans_if_omakase(s),
    ensures
        plans_if_omakase(AppView::fresh(config, root, around)),
        plans_if_omakase(s.plan_run(slot).0),
        plans_if_omakase(s.omakase_run(slot).0),
        plans_if_omakase(s.review_key(key, review)),
        plans_if_omakase(s.plan_ready(plan)),
        plans_if_omakase(s.omakase_started(plan)),
{
    reveal(AppView::plan_run);
    reveal(AppView::omakase_run);
    reveal(AppView::plan_ready);
    reveal(AppView::omakase_started);
}

} // verus!
