//! What holds of the agent's events: what each of them leaves in the
//! conversation, on the rail and in the status.

use crate::app::agent::{AgentEventView, DoneReason};
use crate::app::chat::{is_spawn_card, spawn_card};
use crate::app::picker::StatusView;
use crate::app::prompts::{InterviewView, QuestionView, ReviewView};
use crate::app::rail::{pane_of, run_pos};
use crate::app::state::{
    AppView, ChatView, EffectView, PanelsView, PlanningView, RailView, TodoView,
    TurnView,
};
use crate::app::transcript::{
    is_open_card, lemma_open_card, open_card, shown, EntryView, ImageView, PaneStatus, PaneView,
    SourceView,
};
use crate::config::StepBudget;
use crate::json::JsonView;
use crate::text::{decimal, lines};
use crate::text_laws::{law_blank_says_nothing, says_something};
use vstd::prelude::*;

verus! {

/// The entry that reasoning becomes; none for no reasoning.
pub open spec fn thought(text: Seq<char>) -> Seq<EntryView> {
    if text.len() > 0 {
        seq![EntryView::Thinking(text)]
    } else {
        Seq::empty()
    }
}

/// The entry that a reply becomes; none for no text.
pub open spec fn reply(text: Seq<char>) -> Seq<EntryView> {
    if text.len() > 0 {
        seq![EntryView::Assistant(text)]
    } else {
        Seq::empty()
    }
}

/// The conversation once its stream has ended and `more` was added: reasoning,
/// then the reply, then what is new.
pub open spec fn stream_ended(s: AppView, more: Seq<EntryView>) -> ChatView {
    ChatView {
        transcript: s.chat.transcript + thought(s.chat.streaming_thinking) + reply(
            s.chat.streaming,
        ) + more,
        streaming: Seq::empty(),
        streaming_thinking: Seq::empty(),
        ..s.chat
    }
}

proof fn lemma_flushed(s: AppView, more: Seq<EntryView>)
    ensures
        s.chat.flushed().with_all(more) == stream_ended(s, more),
        s.chat.flushed() == stream_ended(s, Seq::empty()),
        more.len() == 1 ==> s.chat.flushed().with(more[0]) == stream_ended(s, more),
{
    let c = s.chat;
    let f = c.flushed();
    assert(c.streaming.len() == 0 ==> c.streaming =~= Seq::empty());
    assert(c.streaming_thinking.len() == 0 ==> c.streaming_thinking =~= Seq::empty());
    assert(f.transcript =~= c.transcript + thought(c.streaming_thinking) + reply(c.streaming));
    assert(f.transcript + more =~= stream_ended(s, more).transcript);
    assert(f.transcript =~= stream_ended(s, Seq::empty()).transcript);
    if more.len() == 1 {
        assert(f.transcript.push(more[0]) =~= stream_ended(s, more).transcript);
    }
}

/// Text and reasoning stream into places of their own, behind what is there, and
/// nothing else moves.
pub proof fn law_deltas_gather(s: AppView, t: Seq<char>)
    ensures
        s.agent_event(AgentEventView::TextDelta(t)) == (AppView {
            chat: ChatView { streaming: s.chat.streaming + t, ..s.chat },
            ..s
        }),
        s.agent_event(AgentEventView::ThinkingDelta(t)) == (AppView {
            chat: ChatView { streaming_thinking: s.chat.streaming_thinking + t, ..s.chat },
            ..s
        }),
        s.agent_event(AgentEventView::StreamRetrying) == (AppView {
            chat: ChatView {
                streaming: Seq::empty(),
                streaming_thinking: Seq::empty(),
                ..s.chat
            },
            ..s
        }),
{
    reveal(AppView::agent_event);
}

/// Text as it streams: the deltas of one kind among events, put together.
pub open spec fn streamed(events: Seq<AgentEventView>, reasoning: bool) -> Seq<char>
    decreases events.len(),
{
    if events.len() == 0 {
        Seq::empty()
    } else {
        let before = streamed(events.drop_last(), reasoning);
        match events.last() {
            AgentEventView::TextDelta(t) => if reasoning {
                before
            } else {
                before + t
            },
            AgentEventView::ThinkingDelta(t) => if reasoning {
                before + t
            } else {
                before
            },
            _ => before,
        }
    }
}

/// The state after events, one after the other.
pub open spec fn after_events(s: AppView, events: Seq<AgentEventView>) -> AppView
    decreases events.len(),
{
    if events.len() == 0 {
        s
    } else {
        after_events(s, events.drop_last()).agent_event(events.last())
    }
}

/// The event is a piece of text or of reasoning, or only counts something.
pub open spec fn only_streams(e: AgentEventView) -> bool {
    ||| e is TextDelta
    ||| e is ThinkingDelta
    ||| e is StepCompleted
    ||| e is Usage
    ||| e is ContextSize
}

/// What gathers while a stream goes on: text with text, reasoning with
/// reasoning, in the order it came.
pub proof fn law_a_stream_keeps_text_and_reasoning_apart(s: AppView, events: Seq<AgentEventView>)
    requires
        forall|i: int| 0 <= i < events.len() ==> only_streams(#[trigger] events[i]),
    ensures
        after_events(s, events).chat == (ChatView {
            streaming: s.chat.streaming + streamed(events, false),
            streaming_thinking: s.chat.streaming_thinking + streamed(events, true),
            ..s.chat
        }),
    decreases events.len(),
{
    reveal(AppView::agent_event);
    reveal(AppView::turn_event);
    let c = s.chat;
    if events.len() == 0 {
        assert(c.streaming + Seq::<char>::empty() =~= c.streaming);
        assert(c.streaming_thinking + Seq::<char>::empty() =~= c.streaming_thinking);
    } else {
        let init = events.drop_last();
        assert forall|i: int| 0 <= i < init.len() implies only_streams(#[trigger] init[i]) by {
            assert(init[i] == events[i]);
        }
        law_a_stream_keeps_text_and_reasoning_apart(s, init);
        assert(only_streams(events[events.len() - 1]));
        let t = after_events(s, events).chat;
        assert(t.streaming =~= c.streaming + streamed(events, false));
        assert(t.streaming_thinking =~= c.streaming_thinking + streamed(events, true));
    }
}

/// The notice of why a turn ended; none when it was done.
pub open spec fn end_notice(reason: DoneReason, budget: StepBudget) -> Seq<EntryView> {
    match reason {
        DoneReason::Completed => Seq::empty(),
        DoneReason::MaxSteps => seq![
            EntryView::Notice(
                "step budget reached ("@ + (match budget {
                    StepBudget::Limited(n) => decimal(n as nat),
                    StepBudget::Unlimited => "unlimited"@,
                }) + ") — send another message to continue"@,
            ),
        ],
        DoneReason::TimeLimit => seq![EntryView::Notice("time limit reached"@)],
        DoneReason::Stopped => seq![EntryView::Notice("turn stopped"@)],
        DoneReason::CircuitBreaker => seq![
            EntryView::Notice("circuit breaker tripped: repeated identical failures"@),
        ],
    }
}

/// When a turn ends, what streamed stands in the conversation, reasoning before
/// the reply, and the turn is over.
pub proof fn law_the_end_of_a_turn_is_recorded(s: AppView, reason: DoneReason)
    ensures
        s.agent_event(AgentEventView::Done { reason }) == (AppView {
            chat: stream_ended(s, end_notice(reason, s.turn.status.max_steps)),
            turn: TurnView {
                status: StatusView { busy: false, ..s.turn.status },
                turn_started: None,
                ..s.turn
            },
            ..s
        }),
{
    reveal(AppView::agent_event);
    reveal(AppView::turn_event);
    reveal(AppView::turn_done);
    lemma_flushed(s, end_notice(reason, s.turn.status.max_steps));
    let c = stream_ended(s, Seq::empty());
    let e = stream_ended(s, end_notice(reason, s.turn.status.max_steps));
    assert(s.agent_event(AgentEventView::Done { reason }).chat.transcript =~= e.transcript);
}

/// A tool that starts, a failure, a notice, guidance: what streamed before stands
/// before it.
pub proof fn law_what_streamed_stands_before_what_follows(
    s: AppView,
    name: Seq<char>,
    args: JsonView,
    t: Seq<char>,
)
    ensures
        s.agent_event(AgentEventView::ToolStarted { name, args }) == (AppView {
            chat: stream_ended(
                s,
                seq![
                    EntryView::ToolCard {
                        name,
                        args,
                        output: None,
                        is_error: false,
                        collapsed: false,
                    },
                ],
            ),
            ..s
        }),
        s.agent_event(AgentEventView::Error(t)) == (AppView {
            chat: stream_ended(s, seq![EntryView::Notice("error: "@ + t)]),
            ..s
        }),
        s.agent_event(AgentEventView::Notice(t)) == (AppView {
            chat: stream_ended(s, seq![EntryView::Notice(t)]),
            ..s
        }),
        s.agent_event(AgentEventView::UltraGuidance { label: name, guidance: t }) == (AppView {
            chat: stream_ended(
                s,
                seq![
                    EntryView::ToolCard {
                        name,
                        args: JsonView::Null,
                        output: Some(t),
                        is_error: false,
                        collapsed: true,
                    },
                ],
            ),
            ..s
        }),
{
    reveal(AppView::agent_event);
    lemma_flushed(
        s,
        seq![
            EntryView::ToolCard { name, args, output: None, is_error: false, collapsed: false },
        ],
    );
    lemma_flushed(s, seq![EntryView::Notice("error: "@ + t)]);
    lemma_flushed(s, seq![EntryView::Notice(t)]);
    lemma_flushed(
        s,
        seq![
            EntryView::ToolCard {
                name,
                args: JsonView::Null,
                output: Some(t),
                is_error: false,
                collapsed: true,
            },
        ],
    );
}

/// Images stand behind what streamed, one entry each, in order, with where they
/// came from.
pub proof fn law_images_are_shown_in_order(s: AppView, source: SourceView, images: Seq<ImageView>)
    ensures
        ({
            let e = AgentEventView::Images { source, images };
            let t = s.agent_event(e).chat.transcript;
            let n = stream_ended(s, Seq::empty()).transcript.len() as int;
            &&& t.take(n) == stream_ended(s, Seq::empty()).transcript
            &&& t.len() == n + images.len()
            &&& forall|i: int|
                0 <= i < images.len() ==> #[trigger] t[n + i] == (EntryView::Image {
                    source,
                    image: images[i],
                })
            &&& s.agent_event(e) == (AppView {
                chat: ChatView { transcript: t, ..stream_ended(s, Seq::empty()) },
                ..s
            })
        }),
{
    reveal(AppView::agent_event);
    lemma_flushed(s, shown(source, images));
    let t = s.agent_event(AgentEventView::Images { source, images }).chat.transcript;
    let b = stream_ended(s, Seq::empty()).transcript;
    assert(t.take(b.len() as int) =~= b);
}

/// A plan opens its review, an interview its questions, and a plan of the
/// agent's own is shown; what streamed stands before.
pub proof fn law_plans_and_interviews_open(
    s: AppView,
    plan: Seq<char>,
    questions: Seq<QuestionView>,
)
    ensures
        s.agent_event(AgentEventView::PlanReady { plan }) == (AppView {
            chat: stream_ended(s, Seq::empty()),
            planning: PlanningView {
                plan_mode: true,
                plan_review: Some(ReviewView { plan, feedback: None, scroll: 0 }),
                ..s.planning
            },
            ..s
        }),
        questions.len() > 0 ==> s.agent_event(AgentEventView::Interview { questions }) == (AppView {
            chat: stream_ended(s, Seq::empty()),
            planning: PlanningView {
                interview: Some(
                    InterviewView {
                        questions,
                        answers: Seq::empty(),
                        current: 0,
                        input: Seq::empty(),
                    },
                ),
                ..s.planning
            },
            ..s
        }),
        questions.len() == 0 ==> s.agent_event(AgentEventView::Interview { questions }) == (
        AppView {
            chat: stream_ended(s, Seq::empty()),
            effects: s.effects.push(EffectView::Answers(None)),
            ..s
        }),
        s.agent_event(AgentEventView::OmakaseProceeding { plan }) == (AppView {
            chat: stream_ended(
                s,
                seq![
                    EntryView::ToolCard {
                        name: "omakase plan (chef's choice)"@,
                        args: JsonView::Null,
                        output: Some(plan),
                        is_error: false,
                        collapsed: false,
                    },
                    EntryView::Notice(
                        "omakase — chef's choice: proceeding with the agent's own plan"@,
                    ),
                ],
            ),
            planning: PlanningView { plan_mode: false, omakase: false, ..s.planning },
            ..s
        }),
{
    reveal(AppView::agent_event);
    reveal(AppView::turn_event);
    reveal(AppView::plan_ready);
    reveal(AppView::interview_asked);
    reveal(AppView::omakase_started);
    let card = EntryView::ToolCard {
        name: "omakase plan (chef's choice)"@,
        args: JsonView::Null,
        output: Some(plan),
        is_error: false,
        collapsed: false,
    };
    let said = EntryView::Notice(
        "omakase — chef's choice: proceeding with the agent's own plan"@,
    );
    lemma_flushed(s, seq![card]);
    assert(stream_ended(s, seq![card]).transcript.push(said) =~= stream_ended(
        s,
        seq![card, said],
    ).transcript);
}

/// The event ends what streams: something else comes after it.
pub open spec fn ends_stream(e: AgentEventView) -> bool {
    match e {
        AgentEventView::ToolStarted { .. } => true,
        AgentEventView::Images { .. } => true,
        AgentEventView::Error(_) => true,
        AgentEventView::Notice(_) => true,
        AgentEventView::UltraGuidance { .. } => true,
        AgentEventView::PlanReady { .. } => true,
        AgentEventView::Interview { .. } => true,
        AgentEventView::OmakaseProceeding { .. } => true,
        AgentEventView::Done { .. } => true,
        _ => false,
    }
}

/// Neither a reply nor reasoning.
pub open spec fn is_aside(e: EntryView) -> bool {
    e !is Assistant && e !is Thinking
}

/// However a stream ends, the reasoning that streamed stands in the conversation
/// as one entry, and directly behind it the reply, which is the text that
/// streamed; nothing else that the end adds is a reply or reasoning.
pub proof fn law_a_stream_ends_as_reasoning_and_reply(
    s: AppView,
    events: Seq<AgentEventView>,
    e: AgentEventView,
)
    requires
        s.chat.streaming.len() == 0,
        s.chat.streaming_thinking.len() == 0,
        forall|i: int| 0 <= i < events.len() ==> only_streams(#[trigger] events[i]),
        ends_stream(e),
    ensures
        ({
            let c = after_events(s, events).agent_event(e).chat;
            let told = s.chat.transcript + thought(streamed(events, true)) + reply(
                streamed(events, false),
            );
            &&& c.transcript.len() >= told.len()
            &&& c.transcript.take(told.len() as int) == told
            &&& forall|i: int|
                told.len() <= i < c.transcript.len() ==> is_aside(#[trigger] c.transcript[i])
            &&& c.streaming.len() == 0
            &&& c.streaming_thinking.len() == 0
        }),
{
    law_a_stream_keeps_text_and_reasoning_apart(s, events);
    let t = after_events(s, events);
    assert(t.chat.streaming =~= streamed(events, false));
    assert(t.chat.streaming_thinking =~= streamed(events, true));
    let told = s.chat.transcript + thought(streamed(events, true)) + reply(
        streamed(events, false),
    );
    assert(stream_ended(t, Seq::empty()).transcript =~= told);
    let c = t.agent_event(e).chat;
    match e {
        AgentEventView::ToolStarted { name, args } => {
            law_what_streamed_stands_before_what_follows(t, name, args, Seq::empty());
        },
        AgentEventView::Images { source, images } => {
            law_images_are_shown_in_order(t, source, images);
            assert forall|i: int| told.len() <= i < c.transcript.len() implies is_aside(
                #[trigger] c.transcript[i],
            ) by {
                assert(c.transcript[told.len() + (i - told.len())] is Image);
            }
        },
        AgentEventView::Error(x) => {
            law_what_streamed_stands_before_what_follows(t, x, JsonView::Null, x);
        },
        AgentEventView::Notice(x) => {
            law_what_streamed_stands_before_what_follows(t, x, JsonView::Null, x);
        },
        AgentEventView::UltraGuidance { label, guidance } => {
            law_what_streamed_stands_before_what_follows(t, label, JsonView::Null, guidance);
        },
        AgentEventView::PlanReady { plan } => {
            law_plans_and_interviews_open(t, plan, Seq::empty());
        },
        AgentEventView::Interview { questions } => {
            law_plans_and_interviews_open(t, Seq::empty(), questions);
        },
        AgentEventView::OmakaseProceeding { plan } => {
            law_plans_and_interviews_open(t, plan, Seq::empty());
        },
        AgentEventView::Done { reason } => {
            law_the_end_of_a_turn_is_recorded(t, reason);
        },
        _ => {},
    }
    assert(c.transcript.take(told.len() as int) =~= told);
}

/// The card is of a call of `name` that still runs.
pub open spec fn runs(e: EntryView, name: Seq<char>) -> bool {
    e matches EntryView::ToolCard { name: n, output: None, .. } && n == name
}

/// The newest call of `name` that still runs is at `i`.
pub open spec fn newest_running(t: Seq<EntryView>, name: Seq<char>, i: int) -> bool {
    &&& 0 <= i < t.len()
    &&& runs(t[i], name)
    &&& forall|j: int| i < j < t.len() ==> !runs(#[trigger] t[j], name)
}

/// The call answered: what it was called with stays, and a failure or a result
/// of more than six lines or six hundred characters starts folded.
pub open spec fn with_result(e: EntryView, content: Seq<char>, is_error: bool) -> EntryView {
    EntryView::ToolCard {
        name: e->ToolCard_name,
        args: e->args,
        output: Some(content),
        is_error,
        collapsed: is_error || lines(content).len() > 6 || content.len() > 600,
    }
}

proof fn lemma_newest(t: Seq<EntryView>, name: Seq<char>, i: int)
    ensures
        newest_running(t, name, i) ==> open_card(t, name) == i,
        (forall|j: int| 0 <= j < t.len() ==> !runs(#[trigger] t[j], name)) ==> open_card(t, name)
            == -1,
{
    lemma_open_card(t, name);
    let k = open_card(t, name);
    if k >= 0 {
        assert(runs(t[k], name));
    }
    if newest_running(t, name, i) {
        assert(is_open_card(t[i], name));
    }
}

/// A result goes into the newest call of its tool that still runs, and into no
/// other entry; without one it gets a card of its own at the end.
pub proof fn law_a_result_answers_the_newest_running_call(
    s: AppView,
    name: Seq<char>,
    content: Seq<char>,
    is_error: bool,
    i: int,
)
    ensures
        ({
            let t = s.chat.transcript;
            let after = s.agent_event(AgentEventView::ToolFinished { name, content, is_error });
            &&& newest_running(t, name, i) ==> after == (AppView {
                chat: ChatView {
                    transcript: t.update(i, with_result(t[i], content, is_error)),
                    ..s.chat
                },
                ..s
            })
            &&& (forall|j: int| 0 <= j < t.len() ==> !runs(#[trigger] t[j], name)) ==> after
                == (AppView {
                chat: ChatView {
                    transcript: t.push(
                        EntryView::ToolCard {
                            name,
                            args: JsonView::Null,
                            output: Some(content),
                            is_error,
                            collapsed: is_error || lines(content).len() > 6 || content.len() > 600,
                        },
                    ),
                    ..s.chat
                },
                ..s
            })
        }),
{
    reveal(AppView::agent_event);
    lemma_newest(s.chat.transcript, name, i);
}

/// No more than the largest number.
pub open spec fn at_most(n: int, max: int) -> int {
    if n > max {
        max
    } else {
        n
    }
}

/// What the status counts: tokens add up, the prompt of the last call is the
/// context, and steps and background work are told one by one.
pub proof fn law_the_status_counts(s: AppView, a: u64, b: u64, step: u32)
    ensures
        s.agent_event(AgentEventView::Usage { prompt_tokens: a, completion_tokens: b }) == (
        AppView {
            turn: TurnView {
                status: StatusView {
                    prompt_tokens: at_most(
                        s.turn.status.prompt_tokens + a,
                        u64::MAX as int,
                    ) as u64,
                    completion_tokens: at_most(
                        s.turn.status.completion_tokens + b,
                        u64::MAX as int,
                    ) as u64,
                    context_tokens: if a > 0 {
                        a
                    } else {
                        s.turn.status.context_tokens
                    },
                    ..s.turn.status
                },
                ..s.turn
            },
            ..s
        }),
        s.agent_event(AgentEventView::ContextSize { tokens: a }) == (AppView {
            turn: TurnView {
                status: StatusView { context_tokens: a, ..s.turn.status },
                ..s.turn
            },
            ..s
        }),
        s.agent_event(AgentEventView::StepCompleted { step }) == (AppView {
            turn: TurnView { status: StatusView { step, ..s.turn.status }, ..s.turn },
            ..s
        }),
        s.agent_event(AgentEventView::TaskStarted) == (AppView {
            turn: TurnView {
                status: StatusView {
                    background_tasks: at_most(
                        s.turn.status.background_tasks + 1,
                        usize::MAX as int,
                    ) as usize,
                    ..s.turn.status
                },
                ..s.turn
            },
            ..s
        }),
        s.agent_event(AgentEventView::SubagentStarted) == (AppView {
            turn: TurnView {
                status: StatusView {
                    background_subagents: at_most(
                        s.turn.status.background_subagents + 1,
                        usize::MAX as int,
                    ) as usize,
                    ..s.turn.status
                },
                ..s.turn
            },
            ..s
        }),
{
    reveal(AppView::agent_event);
    reveal(AppView::turn_event);
    reveal(StatusView::tallied);
}

/// One fewer, but not fewer than none.
pub open spec fn one_fewer(n: usize) -> usize {
    if n > 0 {
        (n - 1) as usize
    } else {
        n
    }
}

/// Background work that ends is counted down and told, with its number and what
/// it was; a hook and a command that the agent asks for are told too.
pub proof fn law_the_end_of_background_work_is_told(
    s: AppView,
    id: u32,
    name: Seq<char>,
    what: Seq<char>,
    how: Seq<char>,
    completed: bool,
)
    ensures
        s.agent_event(AgentEventView::TaskFinished { id, command: what, status: how }) == (AppView {
            chat: ChatView {
                transcript: s.chat.transcript.push(
                    EntryView::Notice(
                        "background task #"@ + decimal(id as nat) + " finished ("@ + how + "): "@
                            + what,
                    ),
                ),
                ..s.chat
            },
            turn: TurnView {
                status: StatusView {
                    background_tasks: one_fewer(s.turn.status.background_tasks),
                    ..s.turn.status
                },
                ..s.turn
            },
            ..s
        }),
        s.agent_event(AgentEventView::SubagentFinished { id, name, task: what, completed }) == (
        AppView {
            chat: ChatView {
                transcript: s.chat.transcript.push(
                    EntryView::Notice(
                        "background subagent #"@ + decimal(id as nat) + " '"@ + name + "' "@ + (
                        if completed {
                            "finished"@
                        } else {
                            "hit its step budget"@
                        }) + ": "@ + what,
                    ),
                ),
                ..s.chat
            },
            turn: TurnView {
                status: StatusView {
                    background_subagents: one_fewer(s.turn.status.background_subagents),
                    ..s.turn.status
                },
                ..s.turn
            },
            ..s
        }),
        s.agent_event(AgentEventView::HookFired { event: name, command: what, outcome: how }) == (
        AppView {
            chat: ChatView {
                transcript: s.chat.transcript.push(
                    EntryView::Notice("hook "@ + name + ": "@ + how + " ("@ + what + ")"@),
                ),
                ..s.chat
            },
            ..s
        }),
        s.agent_event(AgentEventView::CommandRequested(what)) == (AppView {
            chat: ChatView {
                transcript: s.chat.transcript.push(
                    EntryView::Notice("agent requested "@ + what + " (runs after this turn)"@),
                ),
                ..s.chat
            },
            turn: TurnView {
                pending_agent_commands: s.turn.pending_agent_commands.push(what),
                ..s.turn
            },
            ..s
        }),
{
    reveal(AppView::agent_event);
    reveal(AppView::turn_event);
    reveal(AppView::task_finished);
    reveal(AppView::subagent_finished);
    reveal(AppView::command_requested);
}

/// The todo list is the one that came last; the first that is not empty opens
/// its band.
pub proof fn law_the_latest_todos_are_shown(s: AppView, todos: Seq<TodoView>)
    ensures
        ({
            let first = !s.panels.todos_seen && todos.len() > 0;
            s.agent_event(AgentEventView::TodoUpdated(todos)) == (AppView {
                panels: PanelsView {
                    todos,
                    todos_seen: s.panels.todos_seen || first,
                    show_todos: s.panels.show_todos || first,
                    ..s.panels
                },
                ..s
            })
        }),
{
    reveal(AppView::agent_event);
    reveal(AppView::turn_event);
}

/// The pane of `run` is at `i`: the first of that run.
pub open spec fn pane_at(panes: Seq<PaneView>, run: u64, i: int) -> bool {
    &&& 0 <= i < panes.len() <= usize::MAX
    &&& panes[i].run == run
    &&& forall|j: int| 0 <= j < i ==> (#[trigger] panes[j]).run != run
}

pub proof fn lemma_pane_at(panes: Seq<PaneView>, run: u64, i: int)
    requires
        pane_at(panes, run, i),
    ensures
        pane_of(panes, run) == Some(i as usize),
        run_pos(panes, run) == i,
    decreases panes.len(),
{
    if panes[0].run != run {
        let d = panes.drop_first();
        assert forall|j: int| 0 <= j < i - 1 implies (#[trigger] d[j]).run != run by {
            assert(d[j] == panes[j + 1]);
        }
        lemma_pane_at(d, run, i - 1);
    }
}

/// One more unread entry, unless the pane is being watched.
pub open spec fn counted(n: usize, watched: bool) -> usize {
    if watched || n == usize::MAX {
        n
    } else {
        (n + 1) as usize
    }
}

/// A run that starts gets a pane at the end of the rail, empty and running.
pub proof fn law_a_run_gets_a_pane(
    s: AppView,
    run: u64,
    bg: Option<u32>,
    name: Seq<char>,
    task: Seq<char>,
)
    ensures
        s.agent_event(AgentEventView::SubagentRunStarted { run, bg, name, task }) == (AppView {
            rail: RailView {
                panes: s.rail.panes.push(
                    PaneView {
                        run,
                        bg,
                        name,
                        task,
                        status: PaneStatus::Running,
                        transcript: Seq::empty(),
                        steps: 0,
                        started: s.now,
                        finished: None,
                        unread: 0,
                        scroll: 0,
                        scroll_follow: true,
                        max_scroll: 0,
                    },
                ),
                ..s.rail
            },
            ..s
        }),
{
    reveal(AppView::agent_event);
    reveal(AppView::turn_event);
    reveal(AppView::run_event);
}

/// What a run says and calls goes into its own pane, at the end, and its step
/// count too; no other pane and nothing else changes.
pub proof fn law_a_run_writes_into_its_own_pane(
    s: AppView,
    run: u64,
    i: int,
    text: Seq<char>,
    name: Seq<char>,
    args: JsonView,
    step: u32,
)
    requires
        pane_at(s.rail.panes, run, i),
    ensures
        ({
            let p = s.rail.panes[i];
            let unread = counted(p.unread, s.rail.attached == Some(i as usize));
            &&& s.agent_event(AgentEventView::SubagentRunText { run, text }) == (AppView {
                rail: RailView {
                    panes: s.rail.panes.update(
                        i,
                        PaneView {
                            transcript: p.transcript.push(EntryView::Assistant(text)),
                            unread,
                            ..p
                        },
                    ),
                    ..s.rail
                },
                ..s
            })
            &&& s.agent_event(AgentEventView::SubagentRunToolStarted { run, name, args }) == (
            AppView {
                rail: RailView {
                    panes: s.rail.panes.update(
                        i,
                        PaneView {
                            transcript: p.transcript.push(
                                EntryView::ToolCard {
                                    name,
                                    args,
                                    output: None,
                                    is_error: false,
                                    collapsed: false,
                                },
                            ),
                            unread,
                            ..p
                        },
                    ),
                    ..s.rail
                },
                ..s
            })
            &&& s.agent_event(AgentEventView::SubagentRunStep { run, step }) == (AppView {
                rail: RailView {
                    panes: s.rail.panes.update(i, PaneView { steps: step, ..p }),
                    ..s.rail
                },
                ..s
            })
        }),
{
    reveal(AppView::agent_event);
    reveal(AppView::turn_event);
    reveal(AppView::run_event);
    lemma_pane_at(s.rail.panes, run, i);
}

/// A result of a run goes into the newest call of its tool that still runs in
/// its pane; without one it is dropped.
pub proof fn law_a_runs_result_answers_its_own_call(
    s: AppView,
    run: u64,
    i: int,
    name: Seq<char>,
    content: Seq<char>,
    is_error: bool,
    k: int,
)
    requires
        pane_at(s.rail.panes, run, i),
    ensures
        ({
            let p = s.rail.panes[i];
            let t = p.transcript;
            let after = s.agent_event(
                AgentEventView::SubagentRunToolFinished { run, name, content, is_error },
            );
            &&& newest_running(t, name, k) ==> after == (AppView {
                rail: RailView {
                    panes: s.rail.panes.update(
                        i,
                        PaneView {
                            transcript: t.update(k, with_result(t[k], content, is_error)),
                            ..p
                        },
                    ),
                    ..s.rail
                },
                ..s
            })
            &&& (forall|j: int| 0 <= j < t.len() ==> !runs(#[trigger] t[j], name)) ==> after == s
        }),
{
    reveal(AppView::agent_event);
    reveal(AppView::turn_event);
    reveal(AppView::run_event);
    lemma_pane_at(s.rail.panes, run, i);
    lemma_newest(s.rail.panes[i].transcript, name, k);
}

/// Images of a run stand at the end of its pane, one entry each.
pub proof fn law_a_runs_images_are_shown(
    s: AppView,
    run: u64,
    i: int,
    source: SourceView,
    images: Seq<ImageView>,
)
    requires
        pane_at(s.rail.panes, run, i),
    ensures
        ({
            let after = s.agent_event(AgentEventView::SubagentRunImages { run, source, images });
            let t = s.rail.panes[i].transcript;
            let u = after.rail.panes[i].transcript;
            &&& after.rail.panes.len() == s.rail.panes.len()
            &&& u.len() == t.len() + images.len()
            &&& u.take(t.len() as int) == t
            &&& forall|k: int|
                0 <= k < images.len() ==> #[trigger] u[t.len() + k] == (EntryView::Image {
                    source,
                    image: images[k],
                })
            &&& forall|j: int|
                0 <= j < s.rail.panes.len() && j != i ==> #[trigger] after.rail.panes[j]
                    == s.rail.panes[j]
            &&& pane_at(after.rail.panes, run, i)
            &&& after.chat == s.chat
            &&& after.turn == s.turn
        }),
    decreases images.len(),
{
    reveal(AppView::agent_event);
    reveal(AppView::turn_event);
    reveal(AppView::run_event);
    let after = s.agent_event(AgentEventView::SubagentRunImages { run, source, images });
    let t = s.rail.panes[i].transcript;
    if images.len() == 0 {
        assert(t.take(t.len() as int) =~= t);
    } else {
        let init = images.drop_last();
        law_a_runs_images_are_shown(s, run, i, source, init);
        let mid = s.agent_event(AgentEventView::SubagentRunImages { run, source, images: init });
        assert(shown(source, images).drop_last() =~= shown(source, init));
        lemma_pane_at(mid.rail.panes, run, i);
        let m = mid.rail.panes[i].transcript;
        let u = after.rail.panes[i].transcript;
        assert(u == m.push(EntryView::Image { source, image: images.last() }));
        assert(u.take(t.len() as int) =~= t) by {
            assert(m.take(t.len() as int) == t);
            assert forall|x: int| 0 <= x < t.len() implies u[x] == t[x] by {
                assert(m.take(t.len() as int)[x] == m[x]);
            }
        }
        assert forall|k: int| 0 <= k < images.len() implies #[trigger] u[t.len() + k]
            == (EntryView::Image { source, image: images[k] }) by {
            if k < init.len() {
                assert(m[t.len() + k] == (EntryView::Image { source, image: init[k] }));
            }
        }
    }
}

/// What a run that ended leaves at the end of its pane: its report, unless it
/// says nothing or was said last, and how it failed.
pub open spec fn closing(
    t: Seq<EntryView>,
    completed: bool,
    output: Seq<char>,
    error: Option<Seq<char>>,
) -> Seq<EntryView> {
    (if says_something(output) && !(t.len() > 0 && t.last() == EntryView::Assistant(output)) {
        seq![EntryView::Assistant(output)]
    } else {
        Seq::empty()
    }) + (match error {
        Some(e) => seq![EntryView::Notice("failed: "@ + e)],
        None => if completed {
            Seq::empty()
        } else {
            seq![EntryView::Notice("hit its step budget"@)]
        },
    })
}

/// A run that ends is closed out in its own pane: done or failed, with its
/// report.  A run that the turn waits for changes nothing else.
pub proof fn law_a_run_that_ends_is_closed_out(
    s: AppView,
    run: u64,
    i: int,
    completed: bool,
    output: Seq<char>,
    error: Option<Seq<char>>,
)
    requires
        pane_at(s.rail.panes, run, i),
    ensures
        ({
            let p = s.rail.panes[i];
            let after = s.agent_event(
                AgentEventView::SubagentRunDone { run, completed, output, error },
            );
            &&& after.rail == (RailView {
                panes: s.rail.panes.update(
                    i,
                    PaneView {
                        status: if completed {
                            PaneStatus::Done
                        } else {
                            PaneStatus::Failed
                        },
                        finished: Some(s.now),
                        transcript: p.transcript + closing(p.transcript, completed, output, error),
                        unread: counted(p.unread, s.rail.attached == Some(i as usize)),
                        ..p
                    },
                ),
                ..s.rail
            })
            &&& p.bg is None ==> after.chat == s.chat
            &&& after == (AppView { rail: after.rail, chat: after.chat, ..s })
        }),
{
    reveal(AppView::agent_event);
    reveal(AppView::turn_event);
    reveal(AppView::run_event);
    reveal(AppView::run_done);
    lemma_pane_at(s.rail.panes, run, i);
    law_blank_says_nothing(output);
    let p = s.rail.panes[i];
    let after = s.agent_event(AgentEventView::SubagentRunDone { run, completed, output, error });
    assert(after.rail.panes[i].transcript =~= p.transcript + closing(
        p.transcript,
        completed,
        output,
        error,
    ));
}

/// The card called `spawn_subagent` for `name` on `task`.
pub open spec fn launched(e: EntryView, name: Seq<char>, task: Seq<char>) -> bool {
    &&& e is ToolCard
    &&& e->ToolCard_name == "spawn_subagent"@
    &&& e->args.field_text("subagent"@) == Some(name)
    &&& e->args.field_text("task"@) == Some(task)
}

proof fn lemma_spawn(t: Seq<EntryView>, name: Seq<char>, task: Seq<char>, k: int)
    requires
        0 <= k < t.len(),
        launched(t[k], name, task),
        forall|j: int| k < j < t.len() ==> !launched(#[trigger] t[j], name, task),
    ensures
        spawn_card(t, name, task) == k,
    decreases t.len(),
{
    if k < t.len() - 1 {
        assert(!launched(t[t.len() - 1], name, task));
        assert(!is_spawn_card(t.last(), name, task));
        let d = t.drop_last();
        assert forall|j: int| k < j < d.len() implies !launched(#[trigger] d[j], name, task) by {
            assert(d[j] == t[j]);
        }
        lemma_spawn(d, name, task, k);
    } else {
        assert(is_spawn_card(t.last(), name, task));
    }
}

/// What a detached run reports goes into the newest card that launched it, folded;
/// what the card was called with and every other entry stay.
pub proof fn law_a_detached_run_reports_to_its_card(
    s: AppView,
    run: u64,
    i: int,
    completed: bool,
    output: Seq<char>,
    error: Option<Seq<char>>,
    k: int,
)
    requires
        pane_at(s.rail.panes, run, i),
        s.rail.panes[i].bg is Some,
        0 <= k < s.chat.transcript.len(),
        launched(s.chat.transcript[k], s.rail.panes[i].name, s.rail.panes[i].task),
        forall|j: int|
            k < j < s.chat.transcript.len() ==> !launched(
                #[trigger] s.chat.transcript[j],
                s.rail.panes[i].name,
                s.rail.panes[i].task,
            ),
    ensures
        ({
            let p = s.rail.panes[i];
            let t = s.chat.transcript;
            s.agent_event(AgentEventView::SubagentRunDone { run, completed, output, error }).chat
                == (ChatView {
                transcript: t.update(
                    k,
                    EntryView::ToolCard {
                        name: t[k]->ToolCard_name,
                        args: t[k]->args,
                        output: Some(
                            match error {
                                Some(e) => "failed: "@ + e,
                                None => if completed {
                                    output
                                } else {
                                    "hit its step budget after "@ + decimal(p.steps as nat)
                                        + " step(s).\n\n"@ + output
                                },
                            },
                        ),
                        is_error: !completed,
                        collapsed: true,
                    },
                ),
                ..s.chat
            })
        }),
{
    reveal(AppView::agent_event);
    reveal(AppView::turn_event);
    reveal(AppView::run_event);
    reveal(AppView::run_done);
    let p = s.rail.panes[i];
    lemma_pane_at(s.rail.panes, run, i);
    lemma_spawn(s.chat.transcript, p.name, p.task, k);
}

/// An event of a run that is not on the rail changes nothing.
pub proof fn law_a_run_that_left_changes_nothing(
    s: AppView,
    run: u64,
    text: Seq<char>,
    args: JsonView,
    flag: bool,
    step: u32,
    error: Option<Seq<char>>,
)
    requires
        forall|j: int| 0 <= j < s.rail.panes.len() ==> (#[trigger] s.rail.panes[j]).run != run,
    ensures
        s.agent_event(AgentEventView::SubagentRunText { run, text }) == s,
        s.agent_event(AgentEventView::SubagentRunToolStarted { run, name: text, args }) == s,
        s.agent_event(
            AgentEventView::SubagentRunToolFinished {
                run,
                name: text,
                content: text,
                is_error: flag,
            },
        ) == s,
        s.agent_event(AgentEventView::SubagentRunStep { run, step }) == s,
        s.agent_event(
            AgentEventView::SubagentRunDone { run, completed: flag, output: text, error },
        ) == s,
{
    reveal(AppView::agent_event);
    reveal(AppView::turn_event);
    reveal(AppView::run_event);
    reveal(AppView::run_done);
    lemma_no_pane(s.rail.panes, run);
}

proof fn lemma_no_pane(panes: Seq<PaneView>, run: u64)
    requires
        forall|j: int| 0 <= j < panes.len() ==> (#[trigger] panes[j]).run != run,
    ensures
        pane_of(panes, run) is None,
        run_pos(panes, run) == panes.len(),
    decreases panes.len(),
{
    if panes.len() > 0 {
        let d = panes.drop_first();
        assert(panes[0].run != run);
        assert forall|j: int| 0 <= j < d.len() implies (#[trigger] d[j]).run != run by {
            assert(d[j] == panes[j + 1]);
        }
        lemma_no_pane(d, run);
    }
}

} // verus!
