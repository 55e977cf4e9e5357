//! What the application leaves as it is: the reader's place, the line under a
//! modal, the welcome, the runs that are only passed by.

use crate::app::agent::AgentEventView;
use crate::app::chat::is_conversation;
use crate::app::diff::{in_state_dir, users_files};
use crate::app::keys::{KeyCode, KeyEvent, KeyEventKind};
use crate::app::state::{AppView, ComposerView, RailView};
use crate::app::vim::{
    back_by, char_kind, motion_range, prev_word, run_end, run_start, Pending, VimMode, VimOp,
};
use crate::config::UltraView;
use crate::text::{is_blank, trim};
use vstd::prelude::*;

verus! {

/// Whether a step left the reader's place in the transcript.
pub open spec fn keeps_place(s: AppView, t: AppView) -> bool {
    t.chat.scroll == s.chat.scroll && t.chat.scroll_follow == s.chat.scroll_follow
}

proof fn lemma_run_event(s: AppView, event: AgentEventView)
    ensures
        keeps_place(s, s.run_event(event)),
{
    reveal(AppView::run_event);
    reveal(AppView::run_done);
}

proof fn lemma_turn_event(s: AppView, event: AgentEventView)
    ensures
        keeps_place(s, s.turn_event(event)),
{
    reveal(AppView::turn_event);
    reveal(AppView::plan_ready);
    reveal(AppView::interview_asked);
    reveal(AppView::omakase_started);
    reveal(AppView::task_finished);
    reveal(AppView::subagent_finished);
    reveal(AppView::command_requested);
    reveal(AppView::turn_done);
    lemma_run_event(s, event);
}

/// Whatever the agent reports, a reader who scrolled up stays where they are,
/// and one at the tail stays at the tail.
pub proof fn law_output_never_moves_the_reader(s: AppView, event: AgentEventView)
    ensures
        keeps_place(s, s.agent_event(event)),
{
    reveal(AppView::agent_event);
    lemma_turn_event(s, event);
}

/// While a plan or an interview waits for its answer, no key without Ctrl
/// reaches the line under it.
pub proof fn law_modal_keys_stay_out_of_the_line(s: AppView, key: KeyEvent)
    requires
        s.planning.plan_review is Some || s.planning.interview is Some,
        !key.modifiers.control,
    ensures
        s.key(key).0.composer == s.composer,
{
    reveal(AppView::key);
    reveal(AppView::dashboard_key);
    reveal(AppView::screen_key);
    reveal(AppView::pane_key);
    reveal(AppView::rail_key);
    reveal(AppView::composer_key);
}

/// A character typed while the rail has the focus is not lost to it: it lands
/// in the composer, which has the focus again.
pub proof fn law_the_rail_swallows_no_typing(s: AppView, key: KeyEvent)
    requires
        key.kind != KeyEventKind::Release,
        key.code is Char,
        key.is_plain(),
        !s.composer.vim.normal(),
        !s.dashboard.open,
        s.rail.attached is None,
        s.rail.rail_focus is Some,
    ensures
        s.key(key) == s.touched(key).unfocused().composer_key(key),
{
    reveal(AppView::key);
    reveal(AppView::screen_key);
    reveal(AppView::rail_key);
}

/// A character key with Ctrl or Alt held types nothing.
pub proof fn law_a_held_key_types_nothing(s: AppView, key: KeyEvent)
    requires
        key.code is Char,
        !key.is_plain(),
    ensures
        s.line_key(key).0.composer.input == s.composer.input,
        s.line_key(key).1 is None,
{
    reveal(AppView::line_keyed);
    reveal(AppView::typed);
    reveal(ComposerView::suggested);
}

/// What a secret is cannot be seen in the conversation, and the recall of inputs
/// does not hold it: whatever key is entered, the conversation reads the same.
pub proof fn law_a_secret_is_never_shown(s: AppView, other: Seq<char>)
    requires
        s.masked(),
        trim(s.composer.input).len() == 0 <==> trim(other).len() == 0,
    ensures
        s.submitted().0.chat == s.with_composer(
            (ComposerView { input: other, ..s.composer }),
        ).submitted().0.chat,
        s.submitted().0.composer.history == s.composer.history,
{
    reveal(ComposerView::suggested);
}

/// A notice alone neither ends the welcome nor brings it back.
pub proof fn law_notices_keep_the_welcome(s: AppView, text: Seq<char>)
    ensures
        s.noticed(text).welcoming() == s.welcoming(),
{
    let t = s.noticed(text).chat.transcript;
    let old_t = s.chat.transcript;
    if s.chat.begun() {
        let i = choose|i: int| 0 <= i < old_t.len() && is_conversation(#[trigger] old_t[i]);
        assert(t[i] == old_t[i]);
    }
    if s.noticed(text).chat.begun() {
        let i = choose|i: int| 0 <= i < t.len() && is_conversation(#[trigger] t[i]);
        assert(i < old_t.len());
        assert(t[i] == old_t[i]);
    }
}

/// Time passing changes nothing of the turn: its verb stays until the next one
/// is rolled.
pub proof fn law_ticks_keep_the_turn(s: AppView)
    ensures
        s.ticked().turn == s.turn,
{
    reveal(AppView::ticked);
}

/// A roster that cannot be built is never kept, and nothing is asked for it.
pub proof fn law_a_rejected_roster_is_not_kept(s: AppView, ultra: UltraView, why: Seq<char>)
    ensures
        s.roster_done(ultra, Err(why)).0.config == s.config,
        s.roster_done(ultra, Err(why)).0.turn == s.turn,
        s.roster_done(ultra, Err(why)).1 is None,
{
    reveal(AppView::roster_done);
}

/// Stepping from run to run: always to another one, back again by the opposite
/// step, and without touching the runs that are not stepped to.
pub proof fn law_browsing_goes_round(s: RailView, index: usize, down: bool)
    requires
        s.panes.len() >= 2,
        s.panes.len() <= usize::MAX,
        index < s.panes.len(),
    ensures
        ({
            let t = s.stepped(index, down);
            &&& t.attached matches Some(to) && to < s.panes.len() && to != index
            &&& t.panes.len() == s.panes.len()
            &&& t.stepped(t.attached->0, !down).attached == Some(index)
            &&& forall|i: int|
                0 <= i < s.panes.len() && i != t.attached->0 ==> #[trigger] t.panes[i]
                    == s.panes[i]
        }),
{
}

/// The sidebar names every file of the listing but those of our own state.
pub proof fn law_the_sidebar_hides_our_own_state(l: Seq<Seq<char>>)
    ensures
        forall|f: Seq<char>| #[trigger]
            users_files(l).contains(f) <==> l.contains(f) && !is_blank(f) && !in_state_dir(f),
    decreases l.len(),
{
    if l.len() > 0 {
        let before = l.drop_last();
        law_the_sidebar_hides_our_own_state(before);
        assert forall|f: Seq<char>| #[trigger] users_files(l).contains(f) <==> l.contains(f)
            && !is_blank(f) && !in_state_dir(f) by {
            assert(l =~= before.push(l.last()));
            vstd::seq_lib::lemma_seq_contains_after_push(before, l.last(), f);
            vstd::seq_lib::lemma_seq_contains_after_push(users_files(before), l.last(), f);
        }
    }
}

/// The cursor is on a character, or at the start of the line.
pub open spec fn sits(c: ComposerView) -> bool {
    c.cursor == 0 || c.cursor < c.input.len()
}

proof fn lemma_run_end(s: Seq<char>, i: int, k: int)
    requires
        0 <= i,
    ensures
        i <= run_end(s, i, k),
    decreases s.len() - i,
{
    if i < s.len() && char_kind(s[i]) == k {
        lemma_run_end(s, i + 1, k);
    }
}

proof fn lemma_run_start(s: Seq<char>, i: int, k: int)
    requires
        0 <= i,
    ensures
        0 <= run_start(s, i, k) <= i,
    decreases i,
{
    if 0 < i <= s.len() && char_kind(s[i - 1]) == k {
        lemma_run_start(s, i - 1, k);
    }
}

proof fn lemma_back_by(s: Seq<char>, i: int, n: nat)
    requires
        0 <= i,
    ensures
        0 <= back_by(s, i, n) <= i,
    decreases n,
{
    if n > 0 {
        let before = back_by(s, i, (n - 1) as nat);
        lemma_back_by(s, i, (n - 1) as nat);
        lemma_run_start(s, before, 0);
        let j = run_start(s, before, 0);
        if j > 0 {
            lemma_run_start(s, j, char_kind(s[j - 1]));
        }
        assert(back_by(s, i, n) == prev_word(s, before));
    }
}

/// What a step from `c` to `d` owes: Normal mode left, or the cursor on a
/// character.
spec fn settles(c: ComposerView, d: ComposerView) -> bool {
    c.vim.mode == VimMode::Normal && sits(c) && d.vim.mode == VimMode::Normal ==> sits(d)
}

proof fn lemma_move_sits(c: ComposerView, code: KeyCode)
    requires
        c.input.len() <= usize::MAX,
        c.cursor <= c.input.len(),
        code != KeyCode::Up && code != KeyCode::Down,
        code != KeyCode::Char('k') && code != KeyCode::Char('j'),
    ensures
        settles(c, c.vim_move(code).0),
{
    lemma_run_end(c.input, 0, 0);
    lemma_back_by(c.input, c.cursor as int, c.times());
}

proof fn lemma_cut_sits(c: ComposerView, start: int, end: int)
    requires
        0 <= start <= c.cursor,
        c.cursor < c.input.len() || c.cursor == 0,
        c.input.len() <= usize::MAX,
        end <= c.cursor,
    ensures
        sits(c.cut(start, end)),
{
}

proof fn lemma_change_sits(c: ComposerView, code: KeyCode)
    requires
        c.input.len() <= usize::MAX,
        c.cursor <= c.input.len(),
    ensures
        settles(c, c.vim_change(code)),
{
    if sits(c) && code == KeyCode::Char('X') {
        let n = c.times() as int;
        let start = if c.cursor >= n {
            c.cursor - n
        } else {
            0
        };
        lemma_cut_sits(c.no_count().snapshot(), start, c.cursor as int);
    }
}

proof fn lemma_other_sits(c: ComposerView, key: KeyEvent)
    requires
        c.cursor <= c.input.len(),
        !key.is_line_break(),
    ensures
        settles(c, c.vim_other(key).0),
{
}

proof fn lemma_operator_sits(c: ComposerView, op: VimOp)
    ensures
        settles(c, c.line_operated(op)),
{
}

proof fn lemma_operated_sits(c: ComposerView, op: VimOp, x: int, y: int)
    ensures
        settles(c, c.operated(op, x, y)),
{
}

/// In Normal mode the cursor sits on a character and never behind the last one,
/// from the Esc that enters it on; recalling an input and breaking the line
/// aside, every key that stays in Normal mode keeps it so.
pub proof fn law_normal_mode_sits_on_a_character(c: ComposerView, key: KeyEvent)
    requires
        c.wf(),
        c.input.len() <= usize::MAX,
        key.code != KeyCode::Up && key.code != KeyCode::Down,
        key.code != KeyCode::Char('k') && key.code != KeyCode::Char('j'),
        !key.is_line_break(),
    ensures
        sits(c.to_normal()),
        c.vim.mode == VimMode::Normal && sits(c) && c.vim_key(key).0.vim.mode == VimMode::Normal
            ==> sits(c.vim_key(key).0),
{
    reveal(ComposerView::vim_key);
    lemma_move_sits(c, key.code);
    lemma_change_sits(c, key.code);
    lemma_other_sits(c, key);
    if let Some(Pending::Operator(op)) = c.vim.pending {
        let s = c.with_vim(c.vim.cleared());
        lemma_operator_sits(s, op);
        if let KeyCode::Char(m) = key.code {
            if let Some((x, y)) = motion_range(m, c.times(), c.input, c.cursor as int) {
                lemma_operated_sits(s, op, x, y);
            }
        }
    }
}

} // verus!
