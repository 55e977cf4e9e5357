//! The modals that pause a turn: plan review and interview.

use crate::app::keys::{KeyCode, KeyEvent};
use crate::app::prompts::{
    Interview, InterviewView, PlanReview, PlanVerdict, ReviewView, VerdictView,
};
use crate::app::state::{answers_view, App, AppView, Effect, EffectView, PlanningView};
use crate::text::{pop_char, popped, texts, trim, trimmed};
use vstd::prelude::*;

verus! {

/// `x` lines up, stopping at the top.
pub open spec fn lines_up(scroll: u16, x: int) -> u16 {
    (if scroll >= x {
        scroll - x
    } else {
        0
    }) as u16
}

/// `x` lines down, stopping at the limit.
pub open spec fn lines_down(scroll: u16, x: int) -> u16 {
    (if scroll + x <= u16::MAX {
        scroll + x
    } else {
        u16::MAX as int
    }) as u16
}

impl AppView {
    pub open spec fn with_review(self, review: Option<ReviewView>) -> AppView {
        AppView { planning: PlanningView { plan_review: review, ..self.planning }, ..self }
    }

    pub open spec fn with_interview(self, interview: Option<InterviewView>) -> AppView {
        AppView { planning: PlanningView { interview, ..self.planning }, ..self }
    }

    /// The plan was answered: approval leaves plan mode, and omakase with it;
    /// rejection stays in it.
    pub open spec fn plan_answered(self, verdict: VerdictView) -> AppView {
        let s = self.with_review(None).asking(EffectView::Verdict(verdict));
        if verdict.approved {
            AppView {
                planning: PlanningView { plan_mode: false, omakase: false, ..s.planning },
                ..s
            }.noticed("plan approved — executing it"@)
        } else {
            s.noticed("plan rejected — still in plan mode"@)
        }
    }

    /// A key while a plan is under review.
    pub open spec fn review_key(self, key: KeyEvent, review: ReviewView) -> AppView {
        let code = key.code;
        match review.feedback {
            Some(text) => if code == KeyCode::Enter {
                self.plan_answered(VerdictView { approved: false, feedback: Some(text) })
            } else if code == KeyCode::Esc {
                self.with_review(Some(ReviewView { feedback: None, ..review }))
            } else if code == KeyCode::Backspace {
                self.with_review(Some(ReviewView { feedback: Some(popped(text)), ..review }))
            } else {
                match code {
                    KeyCode::Char(c) if key.is_plain() => self.with_review(
                        Some(ReviewView { feedback: Some(text.push(c)), ..review }),
                    ),
                    _ => self,
                }
            },
            None => if code == KeyCode::Char('y') || code == KeyCode::Enter {
                self.plan_answered(VerdictView { approved: true, feedback: None })
            } else if code == KeyCode::Char('n') {
                self.with_review(Some(ReviewView { feedback: Some(Seq::empty()), ..review }))
            } else if code == KeyCode::Up || code == KeyCode::Char('k') {
                self.with_review(Some(ReviewView { scroll: lines_up(review.scroll, 1), ..review }))
            } else if code == KeyCode::Down || code == KeyCode::Char('j') {
                self.with_review(
                    Some(ReviewView { scroll: lines_down(review.scroll, 1), ..review }),
                )
            } else if code == KeyCode::PageUp {
                self.with_review(Some(ReviewView { scroll: lines_up(review.scroll, 10), ..review }))
            } else if code == KeyCode::PageDown {
                self.with_review(
                    Some(ReviewView { scroll: lines_down(review.scroll, 10), ..review }),
                )
            } else {
                self
            },
        }
    }

    /// The interview closed: with every answer, or dismissed.
    pub open spec fn interviewed(self, answers: Option<Seq<Seq<char>>>) -> AppView {
        self.with_interview(None).asking(EffectView::Answers(answers)).noticed(
            if answers is Some {
                "answers sent — the agent is finishing its plan"@
            } else {
                "interview dismissed — the agent will use its best judgment"@
            },
        )
    }

    /// A key while an interview is open.
    pub open spec fn interview_key(self, key: KeyEvent, open: InterviewView) -> AppView {
        match open.step(key) {
            InterviewStep::Stay(next) => self.with_interview(Some(next)),
            InterviewStep::Finish(answers) => self.interviewed(answers),
        }
    }
}

/// Where a key leads in an interview.
pub enum InterviewStep {
    /// It goes on.
    Stay(InterviewView),
    /// It is over: with every answer, or dismissed.
    Finish(Option<Seq<Seq<char>>>),
}

impl InterviewView {
    /// A key in the interview: Enter commits the typed answer, a digit fills
    /// in the suggestion it stands for, Esc dismisses.
    pub open spec fn step(self, key: KeyEvent) -> InterviewStep {
        match key.code {
            KeyCode::Esc => InterviewStep::Finish(None),
            KeyCode::Enter => {
                let answers = self.answers.push(trim(self.input));
                if self.current + 1 >= self.questions.len() {
                    InterviewStep::Finish(Some(answers))
                } else {
                    InterviewStep::Stay(
                        InterviewView {
                            answers,
                            input: Seq::empty(),
                            current: (self.current + 1) as usize,
                            ..self
                        },
                    )
                }
            },
            KeyCode::Backspace => InterviewStep::Stay(
                InterviewView { input: popped(self.input), ..self },
            ),
            KeyCode::Char(c) => if !key.is_plain() {
                InterviewStep::Stay(self)
            } else {
                InterviewStep::Stay(InterviewView { input: self.typed(c), ..self })
            },
            _ => InterviewStep::Stay(self),
        }
    }

    /// The answer line once `c` is typed.
    pub open spec fn typed(self, c: char) -> Seq<char> {
        match self.option(c as int - '1' as int) {
            Some(text) if '1' <= c <= '9' => text,
            _ => self.input.push(c),
        }
    }
}

/// Where a key leads in an interview.
pub enum InterviewNext {
    Stay(Interview),
    Finish(Option<Vec<String>>),
}

impl View for InterviewNext {
    type V = InterviewStep;

    open spec fn view(&self) -> InterviewStep {
        match self {
            InterviewNext::Stay(i) => InterviewStep::Stay(i@),
            InterviewNext::Finish(a) => InterviewStep::Finish(answers_view(*a)),
        }
    }
}

impl Interview {
    fn typed(&self, c: char) -> (r: String)
        requires
            self@.wf(),
        ensures
            r@ == self@.typed(c),
    {
        assert(self@.questions.len() == self.questions@.len());
        assert(self@.questions[self.current as int] == self.questions@[self.current as int]@);
        assert(self@.questions[self.current as int].options.len()
            == self.questions@[self.current as int].options@.len());
        if '1' <= c && c <= '9' {
            let d: usize = (c as u32 - 49) as usize;
            if d < self.questions[self.current].options.len() {
                return self.questions[self.current].options[d].clone();
            }
        }
        let mut text = self.input.clone();
        text.push(c);
        text
    }

    /// Takes a key.
    pub(crate) fn step(self, key: KeyEvent) -> (r: InterviewNext)
        requires
            self@.wf(),
        ensures
            r@ == self@.step(key),
            r matches InterviewNext::Stay(i) ==> i@.wf(),
    {
        let ghost o = self@;
        assert(o.questions.len() == self.questions@.len());
        let mut open = self;
        match key.code {
            KeyCode::Esc => InterviewNext::Finish(None),
            KeyCode::Enter => {
                let answer = trimmed(&open.input);
                open.answers.push(answer);
                assert(texts(open.answers@) =~= o.answers.push(answer@));
                let n = open.questions.len();
                if open.current >= n - 1 {
                    InterviewNext::Finish(Some(open.answers))
                } else {
                    open.input = String::new();
                    assert(open.input@ =~= Seq::empty());
                    open.current = open.current + 1;
                    InterviewNext::Stay(open)
                }
            },
            KeyCode::Backspace => {
                open.input = pop_char(&open.input);
                InterviewNext::Stay(open)
            },
            KeyCode::Char(c) => {
                if key.plain() {
                    open.input = open.typed(c);
                }
                InterviewNext::Stay(open)
            },
            _ => InterviewNext::Stay(open),
        }
    }
}

impl App {
    /// Close the plan review and hand the verdict to the paused turn.
    fn finish_plan_review(&mut self, verdict: PlanVerdict)
        requires
            old(self)@.wf(),
        ensures
            final(self)@ == old(self)@.plan_answered(verdict@),
            final(self)@.wf(),
    {
        self.planning.plan_review = None;
        let approved = verdict.approved;
        self.ask(Effect::Verdict(verdict));
        if approved {
            self.planning.plan_mode = false;
            self.planning.omakase = false;
            self.notice("plan approved — executing it".to_string());
        } else {
            self.notice("plan rejected — still in plan mode".to_string());
        }
    }

    /// Keys while the plan-review modal is open.
    pub(crate) fn handle_plan_review_key(&mut self, key: KeyEvent)
        requires
            old(self)@.wf(),
            old(self)@.planning.plan_review is Some,
        ensures
            final(self)@ == old(self)@.review_key(key, old(self)@.planning.plan_review->0),
            final(self)@.wf(),
    {
        if let Some(review) = self.planning.plan_review.take() {
            let ghost r = review@;
            let PlanReview { plan, feedback, scroll } = review;
            if let Some(text) = feedback {
                match key.code {
                    KeyCode::Enter => {
                        self.finish_plan_review(PlanVerdict::reject(text));
                    },
                    KeyCode::Esc => {
                        self.planning.plan_review = Some(
                            PlanReview { plan, feedback: None, scroll },
                        );
                    },
                    KeyCode::Backspace => {
                        self.planning.plan_review = Some(
                            PlanReview { plan, feedback: Some(pop_char(&text)), scroll },
                        );
                    },
                    KeyCode::Char(c) => {
                        let mut text = text;
                        if key.plain() {
                            text.push(c);
                        }
                        self.planning.plan_review = Some(
                            PlanReview { plan, feedback: Some(text), scroll },
                        );
                    },
                    _ => {
                        self.planning.plan_review = Some(
                            PlanReview { plan, feedback: Some(text), scroll },
                        );
                    },
                }
                return ;
            }
            let mut scroll = scroll;
            let mut feedback: Option<String> = None;
            match key.code {
                KeyCode::Char('y') | KeyCode::Enter => {
                    self.finish_plan_review(PlanVerdict::approve());
                    return ;
                },
                KeyCode::Char('n') => {
                    let empty = String::new();
                    assert(empty@ =~= Seq::empty());
                    feedback = Some(empty);
                },
                KeyCode::Up | KeyCode::Char('k') => {
                    scroll = scroll.saturating_sub(1);
                },
                KeyCode::Down | KeyCode::Char('j') => {
                    scroll = scroll.saturating_add(1);
                },
                KeyCode::PageUp => {
                    scroll = scroll.saturating_sub(10);
                },
                KeyCode::PageDown => {
                    scroll = scroll.saturating_add(10);
                },
                _ => {},
            }
            self.planning.plan_review = Some(PlanReview { plan, feedback, scroll });
        }
    }

    /// Close the interview and hand the answers to the paused turn.
    fn finish_interview(&mut self, answers: Option<Vec<String>>)
        requires
            old(self)@.wf(),
        ensures
            final(self)@ == old(self)@.interviewed(answers_view(answers)),
            final(self)@.wf(),
    {
        self.planning.interview = None;
        let answered = answers.is_some();
        self.ask(Effect::Answers(answers));
        self.notice(
            if answered {
                "answers sent — the agent is finishing its plan".to_string()
            } else {
                "interview dismissed — the agent will use its best judgment".to_string()
            },
        );
    }

    /// Drive the interview modal: number keys pick a suggested option, typing
    /// composes a free-text answer, Enter commits the current question.
    pub(crate) fn handle_interview_key(&mut self, key: KeyEvent)
        requires
            old(self)@.wf(),
            old(self)@.planning.interview is Some,
        ensures
            final(self)@ == old(self)@.interview_key(key, old(self)@.planning.interview->0),
            final(self)@.wf(),
    {
        if let Some(open) = self.planning.interview.take() {
            match open.step(key) {
                InterviewNext::Stay(next) => {
                    self.planning.interview = Some(next);
                },
                InterviewNext::Finish(answers) => {
                    self.finish_interview(answers);
                },
            }
        }
    }
}

} // verus!
