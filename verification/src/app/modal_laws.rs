//! What holds of the keys of what is open over the prompt line: a plan under
//! review, an interview, a menu.

use crate::app::edit_laws::quiet;
use crate::app::keys::{KeyCode, KeyEvent, KeyEventKind};
use crate::app::picker::{ItemView, PickerKind, PickerView};
use crate::app::prompts::{InterviewView, ReviewView, VerdictView};
use crate::app::state::{
    ActionView, AppView, ChatView, ComposerView, EffectView, PlanningView,
};
use crate::app::transcript::EntryView;
use crate::commands::{CommandView, ProviderActionView};
use crate::config::{Mode, ReasoningEffort};
use crate::text::trim;
use vstd::prelude::*;

verus! {

/// The key reaches what is open over the line: nothing is open beside it.
pub open spec fn reaches_modal(s: AppView, key: KeyEvent) -> bool {
    &&& key.kind != KeyEventKind::Release
    &&& !key.modifiers.control
    &&& !s.dashboard.open
    &&& s.rail.attached is None
    &&& s.rail.rail_focus is None
}

/// A notice and work for the main loop.
pub open spec fn answered_with(s: AppView, effect: EffectView, text: Seq<char>) -> AppView {
    AppView {
        effects: s.effects.push(effect),
        chat: ChatView { transcript: s.chat.transcript.push(EntryView::Notice(text)), ..s.chat },
        ..s
    }
}

/// `y` or Enter approves the plan, which ends plan mode; `n` asks what to change,
/// and Enter then rejects the plan with just what was typed, and plan mode stays.
/// Esc takes the rejection back.  Up and Down scroll.
pub proof fn law_a_plan_gets_the_verdict_given(s: AppView, key: KeyEvent, r: ReviewView, c: char)
    requires
        reaches_modal(s, key),
        s.planning.plan_review == Some(r),
    ensures
        ({
            let (t, action) = s.key(key);
            let q = quiet(s);
            let review = |v: ReviewView|
                t == (AppView {
                    planning: PlanningView { plan_review: Some(v), ..s.planning },
                    ..q
                });
            &&& action is None
            &&& r.feedback is None && (key.code == KeyCode::Char('y') || key.code
                == KeyCode::Enter) ==> t == (AppView {
                planning: PlanningView {
                    plan_review: None,
                    plan_mode: false,
                    omakase: false,
                    ..s.planning
                },
                ..answered_with(
                    q,
                    EffectView::Verdict(VerdictView { approved: true, feedback: None }),
                    "plan approved — executing it"@,
                )
            })
            &&& r.feedback is None && key.code == KeyCode::Char('n') ==> review(
                ReviewView { feedback: Some(Seq::empty()), ..r },
            )
            &&& r.feedback is None && (key.code == KeyCode::Up || key.code == KeyCode::Char('k'))
                ==> review(
                ReviewView {
                    scroll: if r.scroll > 0 {
                        (r.scroll - 1) as u16
                    } else {
                        0
                    },
                    ..r
                },
            )
            &&& r.feedback is None && (key.code == KeyCode::Down || key.code == KeyCode::Char('j'))
                ==> review(
                ReviewView {
                    scroll: if r.scroll < u16::MAX {
                        (r.scroll + 1) as u16
                    } else {
                        r.scroll
                    },
                    ..r
                },
            )
            &&& r.feedback is Some && key.code == KeyCode::Enter ==> t == (AppView {
                planning: PlanningView { plan_review: None, ..s.planning },
                ..answered_with(
                    q,
                    EffectView::Verdict(VerdictView { approved: false, feedback: r.feedback }),
                    "plan rejected — still in plan mode"@,
                )
            })
            &&& r.feedback is Some && key.code == KeyCode::Esc ==> review(
                ReviewView { feedback: None, ..r },
            )
            &&& r.feedback is Some && key.code == KeyCode::Char(c) && !key.modifiers.alt ==> review(
                ReviewView { feedback: Some(r.feedback->0.push(c)), ..r },
            )
            &&& r.feedback is Some && r.feedback->0.len() > 0 && key.code == KeyCode::Backspace
                ==> review(ReviewView { feedback: Some(r.feedback->0.drop_last()), ..r })
        }),
{
    reveal(AppView::key);
    reveal(AppView::screen_key);
    reveal(AppView::composer_key);
}

/// In an interview Enter keeps what was typed as the answer to the question shown
/// and goes on to the next; after the last one all answers are sent, in the order
/// of the questions.  Esc dismisses it, and nothing is answered.
pub proof fn law_an_interview_sends_every_answer(
    s: AppView,
    key: KeyEvent,
    v: InterviewView,
    c: char,
)
    requires
        reaches_modal(s, key),
        s.planning.plan_review is None,
        s.planning.interview == Some(v),
    ensures
        ({
            let (t, action) = s.key(key);
            let q = quiet(s);
            let answers = v.answers.push(trim(v.input));
            let goes_on = |w: InterviewView|
                t == (AppView {
                    planning: PlanningView { interview: Some(w), ..s.planning },
                    ..q
                });
            let closed = PlanningView { interview: None, ..s.planning };
            &&& action is None
            &&& key.code == KeyCode::Enter && v.current + 1 < v.questions.len() <= usize::MAX
                ==> goes_on(
                InterviewView {
                    answers,
                    input: Seq::empty(),
                    current: (v.current + 1) as usize,
                    ..v
                },
            )
            &&& key.code == KeyCode::Enter && v.current + 1 >= v.questions.len() ==> t == (AppView {
                planning: closed,
                ..answered_with(
                    q,
                    EffectView::Answers(Some(answers)),
                    "answers sent — the agent is finishing its plan"@,
                )
            })
            &&& key.code == KeyCode::Esc ==> t == (AppView {
                planning: closed,
                ..answered_with(
                    q,
                    EffectView::Answers(None),
                    "interview dismissed — the agent will use its best judgment"@,
                )
            })
            &&& key.code == KeyCode::Char(c) && !key.modifiers.alt && !('1' <= c <= '9')
                ==> goes_on(InterviewView { input: v.input.push(c), ..v })
            &&& key.code == KeyCode::Backspace && v.input.len() > 0 ==> goes_on(
                InterviewView { input: v.input.drop_last(), ..v },
            )
        }),
{
    reveal(AppView::key);
    reveal(AppView::screen_key);
    reveal(AppView::composer_key);
}

/// A menu is open, and gets the keys.
pub open spec fn reaches_menu(s: AppView, key: KeyEvent, p: PickerView) -> bool {
    &&& reaches_modal(s, key)
    &&& s.planning.plan_review is None
    &&& s.planning.interview is None
    &&& s.composer.picker == Some(p)
}

/// The menu as it is now, and nothing else changed.
pub open spec fn menu_is(s: AppView, key: KeyEvent, p: Option<PickerView>) -> bool {
    s.key(key) == (
        AppView { composer: ComposerView { picker: p, ..s.composer }, ..quiet(s) },
        None::<ActionView>,
    )
}

/// The arrows go from row to row, Esc closes the menu, and only in a menu of many
/// choices Space checks the row or unchecks it.
pub proof fn law_a_menu_moves_row_by_row(s: AppView, key: KeyEvent, p: PickerView)
    requires
        reaches_menu(s, key, p),
        p.selected < p.items.len() <= usize::MAX,
    ensures
        ({
            let n = p.items.len() as int;
            let at = p.selected as int;
            let many = p.kind == PickerKind::ClaudeImport || p.kind == PickerKind::FusionPanel
                || p.kind == PickerKind::UltraLenses;
            &&& key.code == KeyCode::Down || key.code == KeyCode::Char('j') || key.code
                == KeyCode::Tab ==> menu_is(
                s,
                key,
                Some(PickerView { selected: if at + 1 < n { (at + 1) as usize } else { 0 }, ..p }),
            )
            &&& key.code == KeyCode::Up || key.code == KeyCode::Char('k') || key.code
                == KeyCode::BackTab ==> menu_is(
                s,
                key,
                Some(PickerView { selected: if at > 0 { (at - 1) as usize } else { (n - 1) as usize }, ..p }),
            )
            &&& key.code == KeyCode::Esc ==> menu_is(s, key, None)
            &&& key.code == KeyCode::Char(' ') && many ==> menu_is(
                s,
                key,
                Some(
                    PickerView {
                        items: p.items.update(
                            at,
                            ItemView { current: !p.items[at].current, ..p.items[at] },
                        ),
                        ..p
                    },
                ),
            )
            &&& key.code == KeyCode::Char(' ') && !many ==> menu_is(s, key, Some(p))
        }),
{
    reveal(AppView::key);
    reveal(AppView::screen_key);
    reveal(AppView::composer_key);
    reveal(AppView::picker_key);
}

/// Enter closes a menu and runs the command of the row that is selected, and of
/// no other.
pub proof fn law_a_menu_runs_the_selected_row(s: AppView, key: KeyEvent, p: PickerView)
    requires
        reaches_menu(s, key, p),
        p.selected < p.items.len(),
        key.code == KeyCode::Enter,
    ensures
        ({
            let row = p.items[p.selected as int].value;
            let closed = AppView {
                composer: ComposerView { picker: None, ..s.composer },
                ..quiet(s)
            };
            let runs = |c: CommandView|
                s.key(key) == (closed, Some(ActionView::Command(c)));
            &&& p.kind == PickerKind::Model ==> runs(CommandView::Model(Some(row)))
            &&& p.kind == PickerKind::Resume ==> runs(CommandView::Resume(Some(row)))
            &&& p.kind == PickerKind::Provider && p.selected + 1 < p.items.len() && row
                != crate::app::menus::add_row() ==> runs(
                CommandView::Provider(ProviderActionView::Use(row)),
            )
            &&& p.kind == PickerKind::Mode && row == "sovereign"@ ==> runs(
                CommandView::Mode(Some(Mode::Sovereign)),
            )
            &&& p.kind == PickerKind::Mode && row == "genie"@ ==> runs(
                CommandView::Mode(Some(Mode::Genie)),
            )
            &&& p.kind == PickerKind::Effort && row == "low"@ ==> runs(
                CommandView::Effort(Some(Some(ReasoningEffort::Low))),
            )
            &&& p.kind == PickerKind::Effort && row == "medium"@ ==> runs(
                CommandView::Effort(Some(Some(ReasoningEffort::Medium))),
            )
            &&& p.kind == PickerKind::Effort && row == "high"@ ==> runs(
                CommandView::Effort(Some(Some(ReasoningEffort::High))),
            )
            &&& p.kind == PickerKind::Effort && row == "default"@ ==> runs(
                CommandView::Effort(Some(None)),
            )
            &&& forall|turn: u64|
                p.kind == PickerKind::Rewind && row == #[trigger] crate::text::decimal(turn as nat)
                    ==> runs(CommandView::Rewind(Some(turn)))
        }),
{
    reveal(AppView::key);
    reveal(AppView::screen_key);
    reveal(AppView::composer_key);
    reveal(AppView::picker_key);
    reveal(AppView::picked);
    reveal_strlit("sovereign");
    reveal_strlit("genie");
    reveal_strlit("low");
    reveal_strlit("medium");
    reveal_strlit("high");
    reveal_strlit("default");
    let row = p.items[p.selected as int].value;
    assert("sovereign"@.len() != "genie"@.len());
    assert("low"@.len() == 3 && "medium"@.len() == 6 && "high"@.len() == 4 && "default"@.len()
        == 7);
    assert forall|turn: u64| p.kind == PickerKind::Rewind && row == #[trigger] crate::text::decimal(
        turn as nat,
    ) implies s.key(key) == (
        AppView { composer: ComposerView { picker: None, ..s.composer }, ..quiet(s) },
        Some(ActionView::Command(CommandView::Rewind(Some(turn)))),
    ) by {
        crate::text_laws::law_a_number_reads_back(turn as nat);
    }
}

/// In an interview a digit fills in the suggestion it stands for, where the
/// question has so many; else it is typed.
pub proof fn law_a_digit_fills_in_its_suggestion(
    s: AppView,
    key: KeyEvent,
    v: InterviewView,
    c: char,
)
    requires
        reaches_modal(s, key),
        s.planning.plan_review is None,
        s.planning.interview == Some(v),
        v.current < v.questions.len(),
        '1' <= c <= '9',
        key.code == KeyCode::Char(c),
        !key.modifiers.alt,
    ensures
        ({
            let options = v.questions[v.current as int].options;
            let d = c as int - '1' as int;
            s.key(key) == (
                AppView {
                    planning: PlanningView {
                        interview: Some(
                            InterviewView {
                                input: if d < options.len() {
                                    options[d]
                                } else {
                                    v.input.push(c)
                                },
                                ..v
                            },
                        ),
                        ..s.planning
                    },
                    ..quiet(s)
                },
                None::<ActionView>,
            )
        }),
{
    reveal(AppView::key);
    reveal(AppView::screen_key);
    reveal(AppView::composer_key);
}

} // verus!
