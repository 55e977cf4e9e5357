//! The inline prompts and modals: provider setup, plan review, interview.

use crate::config::ProviderKind;
use crate::json::text_opt;
use crate::text::texts;
use vstd::prelude::*;

verus! {

/// One field the provider setup asks for.
#[derive(Debug, Clone, Copy, PartialEq, Eq, Structural)]
pub enum PromptField {
    Name,
    AccountId,
    BaseUrl,
    Model,
    ApiKey,
}

/// A provider being set up, and the fields still to ask for.
pub struct ProviderPrompt {
    pub kind: ProviderKind,
    pub name: String,
    pub base_url: String,
    pub model: String,
    pub api_key: Option<String>,
    /// The fields still to ask for, in order.
    pub queue: Vec<PromptField>,
}

pub struct PromptView {
    pub kind: ProviderKind,
    pub name: Seq<char>,
    pub base_url: Seq<char>,
    pub model: Seq<char>,
    pub api_key: Option<Seq<char>>,
    pub queue: Seq<PromptField>,
}

impl View for ProviderPrompt {
    type V = PromptView;

    open spec fn view(&self) -> PromptView {
        PromptView {
            kind: self.kind,
            name: self.name@,
            base_url: self.base_url@,
            model: self.model@,
            api_key: text_opt(self.api_key),
            queue: self.queue@,
        }
    }
}

pub open spec fn prompt_opt(p: Option<ProviderPrompt>) -> Option<PromptView> {
    match p {
        Some(x) => Some(x@),
        None => None,
    }
}

/// What the setup asks for a field.
pub open spec fn question_text(field: PromptField, p: PromptView) -> Seq<char> {
    match field {
        PromptField::Name => "provider name, then Enter (Esc to cancel):"@,
        PromptField::AccountId => "account id for "@ + p.name + ", then Enter (Esc to cancel):"@,
        PromptField::BaseUrl => "base URL, then Enter (Esc to cancel):"@,
        PromptField::Model => "model for "@ + p.name + ", then Enter (Esc to cancel):"@,
        PromptField::ApiKey => "paste your "@ + p.name + " API key, then Enter (Esc to cancel):"@,
    }
}

/// What the setup asks for a field.
pub fn prompt_question(field: PromptField, p: &ProviderPrompt) -> (r: String)
    ensures
        r@ == question_text(field, p@),
{
    match field {
        PromptField::Name => "provider name, then Enter (Esc to cancel):".to_string(),
        PromptField::AccountId => {
            let mut m = "account id for ".to_string();
            m.append(&p.name);
            m.append(", then Enter (Esc to cancel):");
            m
        },
        PromptField::BaseUrl => "base URL, then Enter (Esc to cancel):".to_string(),
        PromptField::Model => {
            let mut m = "model for ".to_string();
            m.append(&p.name);
            m.append(", then Enter (Esc to cancel):");
            m
        },
        PromptField::ApiKey => {
            let mut m = "paste your ".to_string();
            m.append(&p.name);
            m.append(" API key, then Enter (Esc to cancel):");
            m
        },
    }
}

/// The user's decision about a plan.
#[derive(Debug, PartialEq, Eq)]
pub struct PlanVerdict {
    pub approved: bool,
    pub feedback: Option<String>,
}

pub struct VerdictView {
    pub approved: bool,
    pub feedback: Option<Seq<char>>,
}

impl View for PlanVerdict {
    type V = VerdictView;

    open spec fn view(&self) -> VerdictView {
        VerdictView { approved: self.approved, feedback: text_opt(self.feedback) }
    }
}

impl PlanVerdict {
    /// The plan may be executed.
    pub fn approve() -> (r: PlanVerdict)
        ensures
            r@ == (VerdictView { approved: true, feedback: None }),
    {
        PlanVerdict { approved: true, feedback: None }
    }

    /// The plan is sent back with feedback.
    pub fn reject(feedback: String) -> (r: PlanVerdict)
        ensures
            r@ == (VerdictView { approved: false, feedback: Some(feedback@) }),
    {
        PlanVerdict { approved: false, feedback: Some(feedback) }
    }
}

/// An open plan review.
pub struct PlanReview {
    pub plan: String,
    /// The feedback line, while one is being typed.
    pub feedback: Option<String>,
    pub scroll: u16,
}

pub struct ReviewView {
    pub plan: Seq<char>,
    pub feedback: Option<Seq<char>>,
    pub scroll: u16,
}

impl View for PlanReview {
    type V = ReviewView;

    open spec fn view(&self) -> ReviewView {
        ReviewView { plan: self.plan@, feedback: text_opt(self.feedback), scroll: self.scroll }
    }
}

pub open spec fn review_opt(p: Option<PlanReview>) -> Option<ReviewView> {
    match p {
        Some(x) => Some(x@),
        None => None,
    }
}

/// One question of an interview, with suggested answers.
pub struct InterviewQuestion {
    pub question: String,
    pub options: Vec<String>,
}

pub struct QuestionView {
    pub question: Seq<char>,
    pub options: Seq<Seq<char>>,
}

impl View for InterviewQuestion {
    type V = QuestionView;

    open spec fn view(&self) -> QuestionView {
        QuestionView { question: self.question@, options: texts(self.options@) }
    }
}

pub open spec fn questions_view(q: Seq<InterviewQuestion>) -> Seq<QuestionView> {
    q.map_values(|x: InterviewQuestion| x@)
}

/// An open interview: the questions, and the answers given so far.
pub struct Interview {
    pub questions: Vec<InterviewQuestion>,
    pub answers: Vec<String>,
    pub current: usize,
    pub input: String,
}

pub struct InterviewView {
    pub questions: Seq<QuestionView>,
    pub answers: Seq<Seq<char>>,
    pub current: usize,
    pub input: Seq<char>,
}

impl View for Interview {
    type V = InterviewView;

    open spec fn view(&self) -> InterviewView {
        InterviewView {
            questions: questions_view(self.questions@),
            answers: texts(self.answers@),
            current: self.current,
            input: self.input@,
        }
    }
}

pub open spec fn interview_opt(p: Option<Interview>) -> Option<InterviewView> {
    match p {
        Some(x) => Some(x@),
        None => None,
    }
}

impl InterviewView {
    /// One question is open and every earlier one has its answer.
    pub open spec fn wf(self) -> bool {
        self.current < self.questions.len() && self.answers.len() == self.current
    }

    /// The suggested answer that digit `d` stands for, if the question has it.
    pub open spec fn option(self, d: int) -> Option<Seq<char>> {
        if self.current < self.questions.len() && 0 <= d
            < self.questions[self.current as int].options.len() {
            Some(self.questions[self.current as int].options[d])
        } else {
            None
        }
    }
}

} // verus!
