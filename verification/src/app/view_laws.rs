//! What holds of the keys and the mouse over the conversation, the rail and the
//! dashboard.

use crate::app::chat::{hit_at, last_card};
use crate::app::agent::AgentEventView;
use crate::app::command_laws::told;
use crate::app::edit_laws::quiet;
use crate::app::input::EventView;
use crate::app::keys::{KeyCode, KeyEvent, KeyEventKind, MouseEvent, MouseEventKind};
use crate::app::picker::Selection;
use crate::app::rail::staying;
use crate::app::state::{
    ActionView, AppView, ChatView, DashboardView, EffectView, RailView,
};
use crate::app::stream_laws::{lemma_pane_at, pane_at};
use crate::app::transcript::{EntryView, PaneStatus, PaneView};
use crate::text::{decimal, trim};
use crate::text_laws::{law_blank_says_nothing, says_something};
use vstd::prelude::*;

verus! {

/// A card that has its result.
pub open spec fn has_result(e: EntryView) -> bool {
    e is ToolCard && e->output is Some
}

/// The card folded or unfolded, with all that it holds.
pub open spec fn turned(e: EntryView) -> EntryView {
    EntryView::ToolCard {
        name: e->ToolCard_name,
        args: e->args,
        output: e->output,
        is_error: e->is_error,
        collapsed: !e->collapsed,
    }
}

proof fn lemma_newest_card(t: Seq<EntryView>, i: int)
    requires
        forall|j: int| i < j < t.len() ==> !has_result(#[trigger] t[j]),
        i == -1 || (0 <= i < t.len() && has_result(t[i])),
    ensures
        last_card(t) == i,
    decreases t.len(),
{
    if t.len() > 0 && i < t.len() - 1 {
        assert(!has_result(t[t.len() - 1]));
        let d = t.drop_last();
        assert forall|j: int| i < j < d.len() implies !has_result(#[trigger] d[j]) by {
            assert(d[j] == t[j]);
        }
        lemma_newest_card(d, i);
    }
}

/// Ctrl-T folds or unfolds the newest card that has its result, and no other.
pub proof fn law_ctrl_t_turns_the_newest_card(s: AppView, key: KeyEvent, i: int)
    requires
        key.kind != KeyEventKind::Release,
        key.modifiers.control,
        key.code == KeyCode::Char('t'),
        forall|j: int|
            i < j < s.chat.transcript.len() ==> !has_result(#[trigger] s.chat.transcript[j]),
        i == -1 || (0 <= i < s.chat.transcript.len() && has_result(s.chat.transcript[i])),
    ensures
        ({
            let t = s.chat.transcript;
            let q = quiet(s);
            s.key(key) == (
                if i == -1 {
                    q
                } else {
                    AppView {
                        chat: ChatView { transcript: t.update(i, turned(t[i])), ..q.chat },
                        ..q
                    }
                },
                None::<ActionView>,
            )
        }),
{
    reveal(AppView::key);
    reveal(AppView::chord);
    lemma_newest_card(s.chat.transcript, i);
}

proof fn lemma_hit(hits: Seq<(u16, usize)>, row: u16, k: int)
    requires
        0 <= k < hits.len(),
        hits[k].0 == row,
        forall|j: int| 0 <= j < k ==> (#[trigger] hits[j]).0 != row,
    ensures
        hit_at(hits, row) == hits[k].1,
    decreases hits.len(),
{
    if k > 0 {
        assert(hits[0].0 != row);
        let d = hits.drop_first();
        assert forall|j: int| 0 <= j < k - 1 implies (#[trigger] d[j]).0 != row by {
            assert(d[j] == hits[j + 1]);
        }
        lemma_hit(d, row, k - 1);
    }
}

/// A click on the row of a card that has its result folds or unfolds that card,
/// and no other.
pub proof fn law_a_click_turns_the_card_under_it(s: AppView, m: MouseEvent, k: int)
    requires
        m.kind == MouseEventKind::LeftUp,
        s.chat.selection matches Some(sel) && sel.anchor == (m.column, m.row),
        0 <= k < s.chat.card_hits.len(),
        s.chat.card_hits[k].0 == m.row,
        forall|j: int| 0 <= j < k ==> (#[trigger] s.chat.card_hits[j]).0 != m.row,
        s.chat.card_hits[k].1 < s.chat.transcript.len(),
        has_result(s.chat.transcript[s.chat.card_hits[k].1 as int]),
    ensures
        ({
            let i = s.chat.card_hits[k].1 as int;
            let t = s.chat.transcript;
            s.mouse(m) == (
                AppView {
                    chat: ChatView {
                        transcript: t.update(i, turned(t[i])),
                        selection: None,
                        ..s.chat
                    },
                    ..s
                },
                None::<ActionView>,
            )
        }),
{
    lemma_hit(s.chat.card_hits, m.row, k);
}

/// A drag selects from where the button went down to where it came up, and then
/// the selection is copied.
pub proof fn law_a_drag_selects_and_copies(s: AppView, m: MouseEvent)
    ensures
        ({
            let cell = (m.column, m.row);
            let held = |sel: Selection|
                AppView { chat: ChatView { selection: Some(sel), ..s.chat }, ..s };
            let was = s.chat.selection->0;
            &&& m.kind == MouseEventKind::LeftDown ==> s.mouse(m) == (
                held(Selection { anchor: cell, head: cell, dragging: true }),
                None::<ActionView>,
            )
            &&& m.kind == MouseEventKind::LeftDrag && s.chat.selection is Some ==> s.mouse(m) == (
                held(Selection { anchor: was.anchor, head: cell, dragging: was.dragging }),
                None::<ActionView>,
            )
            &&& m.kind == MouseEventKind::LeftUp && s.chat.selection is Some && was.anchor != cell
                ==> s.mouse(m) == (
                held(Selection { anchor: was.anchor, head: cell, dragging: false }),
                Some(ActionView::CopySelection),
            )
        }),
{
}

/// The line at the top of the view after scrolling by `up` lines.
pub open spec fn top_line(c: ChatView, up: int) -> int {
    let from = if c.scroll_follow || c.scroll > c.max_scroll {
        c.max_scroll as int
    } else {
        c.scroll as int
    };
    if from - up < 0 {
        0
    } else {
        from - up
    }
}

/// The wheel and the page keys move the view by three and by ten lines, stopping
/// at the first line; at the last the view follows what is said again.
pub proof fn law_scrolling_moves_by_lines(s: AppView, m: MouseEvent)
    requires
        m.kind == MouseEventKind::ScrollUp || m.kind == MouseEventKind::ScrollDown,
    ensures
        ({
            let up: int = if m.kind == MouseEventKind::ScrollUp {
                3
            } else {
                -3
            };
            let top = top_line(s.chat, up);
            let at_end = top >= s.chat.max_scroll;
            s.mouse(m) == (
                AppView {
                    chat: ChatView {
                        selection: None,
                        scroll: if at_end {
                            0
                        } else {
                            top as u16
                        },
                        scroll_follow: at_end,
                        ..s.chat
                    },
                    ..s
                },
                None::<ActionView>,
            )
        }),
{
}

/// The rail has the focus, at the row `i`.
pub open spec fn on_rail(s: AppView, key: KeyEvent, i: int) -> bool {
    &&& key.kind != KeyEventKind::Release
    &&& !key.modifiers.control
    &&& !s.dashboard.open
    &&& s.rail.attached is None
    &&& s.rail.rail_focus == Some(i as usize)
    &&& 0 <= i < s.rail.panes.len() <= usize::MAX
}

pub open spec fn rail_is(s: AppView, key: KeyEvent, rail: RailView) -> bool {
    s.key(key) == (AppView { rail, ..quiet(s) }, None::<ActionView>)
}

/// On the rail the arrows go from run to run; up from the first and Esc go back
/// to the line, and Enter opens the run that is selected, read and at its end.
pub proof fn law_the_rail_goes_run_by_run(s: AppView, key: KeyEvent, i: int)
    requires
        on_rail(s, key, i),
    ensures
        ({
            let r = s.rail;
            let n = r.panes.len() as int;
            &&& key.code == KeyCode::Down ==> rail_is(
                s,
                key,
                RailView {
                    rail_focus: Some(
                        if i + 1 < n {
                            (i + 1) as usize
                        } else {
                            i as usize
                        },
                    ),
                    ..r
                },
            )
            &&& key.code == KeyCode::Up ==> rail_is(
                s,
                key,
                RailView {
                    rail_focus: if i > 0 {
                        Some((i - 1) as usize)
                    } else {
                        None
                    },
                    ..r
                },
            )
            &&& key.code == KeyCode::Esc ==> rail_is(s, key, RailView { rail_focus: None, ..r })
            &&& key.code == KeyCode::Enter ==> rail_is(
                s,
                key,
                RailView {
                    panes: r.panes.update(
                        i,
                        PaneView { unread: 0, scroll: 0, scroll_follow: true, ..r.panes[i] },
                    ),
                    attached: Some(i as usize),
                    ..r
                },
            )
        }),
{
    reveal(AppView::key);
    reveal(AppView::screen_key);
    reveal(AppView::rail_key);
}

/// A run stays on the rail while it runs, for eight seconds after, and as long as one
/// is inside it.
pub open spec fn lingers(p: PaneView, inside: Option<u64>, now: u64) -> bool {
    p.finished is None || now < p.finished->0 + 8_000 || inside == Some(p.run)
}

proof fn lemma_staying(panes: Seq<PaneView>, inside: Option<u64>, now: u64)
    ensures
        staying(panes, inside, now) == panes.filter(|p: PaneView| lingers(p, inside, now)),
        staying(panes, inside, now).len() <= panes.len(),
        staying(panes, inside, now).len() == panes.len() ==> staying(panes, inside, now) == panes,
    decreases panes.len(),
{
    reveal(Seq::filter);
    if panes.len() > 0 {
        lemma_staying(panes.drop_last(), inside, now);
        assert(panes =~= panes.drop_last().push(panes.last()));
    }
}

/// A tick takes from the rail exactly the runs that no longer linger; the others
/// stay as they are, in order, and so does the conversation.
pub proof fn law_a_tick_retires_what_has_rested(s: AppView)
    ensures
        ({
            let inside = match s.rail.attached {
                Some(i) => if i < s.rail.panes.len() {
                    Some(s.rail.panes[i as int].run)
                } else {
                    None
                },
                None => None,
            };
            let t = s.ticked();
            &&& t.rail.panes == s.rail.panes.filter(|p: PaneView| lingers(p, inside, s.now))
            &&& t.chat == s.chat
            &&& t.turn == s.turn
            &&& t.composer == s.composer
            &&& t.config == s.config
        }),
{
    reveal(AppView::ticked);
    let inside = s.rail.run_at(s.rail.attached);
    lemma_staying(s.rail.panes, inside, s.now);
}

/// Ctrl-X on the rail asks for the end of the run that is selected, if it is
/// detached; one that the turn waits for is left, and the reason told.
pub proof fn law_ctrl_x_stops_the_selected_run(s: AppView, key: KeyEvent, i: int)
    requires
        key.kind != KeyEventKind::Release,
        key.modifiers.control,
        key.code == KeyCode::Char('x'),
        !s.dashboard.open,
        s.rail.attached is None,
        s.rail.rail_focus == Some(i as usize),
        0 <= i < s.rail.panes.len() <= usize::MAX,
    ensures
        ({
            let p = s.rail.panes[i];
            let q = quiet(s);
            &&& (p.bg matches Some(bg) && s.rail.subagents) ==> s.key(key) == (
                AppView {
                    effects: s.effects.push(
                        EffectView::KillSubagent { run: p.run, bg: p.bg->0, name: p.name },
                    ),
                    ..q
                },
                None::<ActionView>,
            )
            &&& p.bg is None ==> s.key(key) == (
                AppView {
                    chat: ChatView {
                        transcript: s.chat.transcript.push(
                            EntryView::Notice(
                                "subagent '"@ + p.name
                                    + "' is running in the foreground — Ctrl-C interrupts the turn it is blocking"@,
                            ),
                        ),
                        ..q.chat
                    },
                    ..q
                },
                None::<ActionView>,
            )
        }),
{
    reveal(AppView::key);
    reveal(AppView::chord);
    reveal(AppView::screen_key);
    reveal(AppView::rail_key);
}

/// A run that was killed is closed out in its own pane; no other changes.
pub proof fn law_a_killed_run_is_closed_out(
    s: AppView,
    run: u64,
    bg: u32,
    name: Seq<char>,
    i: int,
)
    requires
        pane_at(s.rail.panes, run, i),
    ensures
        ({
            let p = s.rail.panes[i];
            s.killed(run, bg, name, true) == (AppView {
                rail: RailView {
                    panes: s.rail.panes.update(
                        i,
                        PaneView {
                            status: PaneStatus::Failed,
                            finished: Some(s.now),
                            transcript: p.transcript.push(
                                EntryView::Notice("killed on request"@),
                            ),
                            ..p
                        },
                    ),
                    ..s.rail
                },
                chat: ChatView {
                    transcript: s.chat.transcript.push(
                        EntryView::Notice(
                            "killed subagent '"@ + name + "' (#"@ + decimal(bg as nat) + ")"@,
                        ),
                    ),
                    ..s.chat
                },
                ..s
            })
        }),
{
    lemma_pane_at(s.rail.panes, run, i);
}

/// The dashboard gets the key.
pub open spec fn on_dashboard(s: AppView, key: KeyEvent) -> bool {
    &&& key.kind != KeyEventKind::Release
    &&& !key.modifiers.control
    &&& s.dashboard.open
}

/// On the dashboard a prompt is typed and, with Enter, handed out without the
/// white space around it to a session of its own; Esc empties the line first and
/// then closes the dashboard.  The arrows go from session to session, around the
/// ends.
pub proof fn law_the_dashboard_hands_a_prompt_out(s: AppView, key: KeyEvent, c: char)
    requires
        on_dashboard(s, key),
        s.dashboard.sessions.len() <= usize::MAX,
        s.dashboard.selected < s.dashboard.sessions.len() || s.dashboard.sessions.len() == 0,
    ensures
        ({
            let d = s.dashboard;
            let q = quiet(s);
            let n = d.sessions.len() as int;
            let becomes = |e: DashboardView|
                s.key(key) == (AppView { dashboard: e, ..q }, None::<ActionView>);
            let peeks = |to: int|
                s.key(key) == (
                    AppView {
                        dashboard: DashboardView { selected: to as usize, ..d },
                        effects: s.effects.push(EffectView::RefreshPeek),
                        ..q
                    },
                    None::<ActionView>,
                );
            &&& key.code == KeyCode::Char(c) ==> becomes(
                DashboardView { input: d.input.push(c), ..d },
            )
            &&& key.code == KeyCode::Backspace && d.input.len() > 0 ==> becomes(
                DashboardView { input: d.input.drop_last(), ..d },
            )
            &&& key.code == KeyCode::Esc ==> becomes(
                if d.input.len() > 0 {
                    DashboardView { input: Seq::empty(), ..d }
                } else {
                    DashboardView { open: false, ..d }
                },
            )
            &&& key.code == KeyCode::Enter && !says_something(d.input) ==> becomes(d)
            &&& key.code == KeyCode::Enter && says_something(d.input) ==> s.key(key) == (
                AppView {
                    dashboard: DashboardView { input: Seq::empty(), ..d },
                    effects: s.effects.push(EffectView::DispatchSession(trim(d.input))),
                    ..q
                },
                None::<ActionView>,
            )
            &&& key.code == KeyCode::Down && n > 0 ==> peeks(
                if d.selected + 1 < n {
                    d.selected + 1
                } else {
                    0
                },
            )
            &&& key.code == KeyCode::Up && n > 0 ==> peeks(
                if d.selected > 0 {
                    d.selected - 1
                } else {
                    n - 1
                },
            )
        }),
{
    reveal(AppView::key);
    reveal(AppView::dashboard_key);
    law_blank_says_nothing(s.dashboard.input);
}

/// An event goes where it belongs: a key to the keys, the mouse to the mouse, what
/// is pasted to the line, what the agent does to the conversation, and a notice
/// behind it.
pub proof fn law_an_event_goes_where_it_belongs(
    s: AppView,
    k: KeyEvent,
    m: MouseEvent,
    e: AgentEventView,
    text: Seq<char>,
)
    ensures
        s.event(EventView::Key(k)) == s.key(k),
        s.event(EventView::Mouse(m)) == s.mouse(m),
        s.event(EventView::Paste(text)) == (s.pasted_text(text), None::<ActionView>),
        s.event(EventView::Agent(e)) == (s.agent_event(e), None::<ActionView>),
        s.event(EventView::Tick) == (s.ticked(), None::<ActionView>),
        s.event(EventView::Notice(text)) == (told(s, text), None::<ActionView>),
        s.event(EventView::Elsewhere) == (s, None::<ActionView>),
{
}

} // verus!
