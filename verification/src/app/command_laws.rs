//! What holds of the slash commands.

use crate::app::command::without;
use crate::app::picker::StatusView;
use crate::app::state::{
    AppView, ChatView, EffectView, PendingView, PlanningView, SaveView, TurnView,
};
use crate::app::tasks::{FactsView, TaskView};
use crate::app::transcript::EntryView;
use crate::commands::{
    CommandView, FusionAction, ImportSelection, ProviderActionView, UltraActionView,
};
use crate::config::{provider_named, ConfigView, Mode, ProviderView, ReasoningEffort, StepBudget};
use crate::text_laws::{law_trim_cuts_white_ends, says_something};
use vstd::prelude::*;

verus! {

/// No turn runs and the agent is not being rebuilt.
pub open spec fn at_rest(s: AppView) -> bool {
    !s.turn.status.busy && s.turn.rebuilding is None
}

/// A notice behind the conversation, and nothing else.
pub open spec fn told(s: AppView, text: Seq<char>) -> AppView {
    AppView {
        chat: ChatView { transcript: s.chat.transcript.push(EntryView::Notice(text)), ..s.chat },
        ..s
    }
}

/// New settings that are to be written to disk, and nothing else.
pub open spec fn kept(
    s: AppView,
    config: ConfigView,
    note: Option<Seq<char>>,
    always: bool,
) -> AppView {
    AppView {
        config,
        effects: s.effects.push(
            EffectView::SaveConfig(SaveView { subject: "config"@, note, always }),
        ),
        ..s
    }
}

/// The providers that are not called `name`, in order.
pub open spec fn others(p: Seq<ProviderView>, name: Seq<char>) -> Seq<ProviderView> {
    p.filter(|x: ProviderView| x.name != name)
}

/// How many providers are called `name`.
pub open spec fn called(p: Seq<ProviderView>, name: Seq<char>) -> nat {
    p.filter(|x: ProviderView| x.name == name).len()
}

proof fn lemma_without(p: Seq<ProviderView>, name: Seq<char>)
    ensures
        without(p, name) == others(p, name),
        called(without(p, name), name) == 0,
        without(p, name).len() + called(p, name) == p.len(),
        forall|i: int|
            0 <= i < without(p, name).len() ==> (#[trigger] without(p, name)[i]).name != name,
        forall|i: int|
            0 <= i < p.len() && (#[trigger] p[i]).name != name ==> without(p, name).contains(p[i]),
    decreases p.len(),
{
    reveal(Seq::filter);
    if p.len() > 0 {
        let q = p.drop_last();
        lemma_without(q, name);
        let w = without(p, name);
        if p.last().name != name {
            assert(w.drop_last() =~= without(q, name));
            assert(w[w.len() - 1] == p.last());
        }
        assert forall|i: int| 0 <= i < p.len() && (#[trigger] p[i]).name != name implies w.contains(
            p[i],
        ) by {
            if i < q.len() {
                assert(q[i] == p[i]);
                let k = choose|k: int|
                    0 <= k < without(q, name).len() && without(q, name)[k] == q[i];
                assert(w[k] == p[i]);
            }
        }
    }
}

proof fn lemma_named(p: Seq<ProviderView>, x: ProviderView)
    requires
        forall|i: int| 0 <= i < p.len() ==> (#[trigger] p[i]).name != x.name,
    ensures
        provider_named(p.push(x), x.name) == Some(x),
        called(p.push(x), x.name) == 1,
    decreases p.len(),
{
    reveal(Seq::filter);
    assert(p.push(x).drop_last() =~= p);
    assert(called(p, x.name) == 0) by {
        lemma_called_none(p, x.name);
    }
    if p.len() > 0 {
        let d = p.drop_first();
        assert(p[0].name != x.name);
        assert forall|i: int| 0 <= i < d.len() implies (#[trigger] d[i]).name != x.name by {
            assert(d[i] == p[i + 1]);
        }
        lemma_named(d, x);
        assert(p.push(x).drop_first() =~= d.push(x));
    }
}

proof fn lemma_called_none(p: Seq<ProviderView>, name: Seq<char>)
    requires
        forall|i: int| 0 <= i < p.len() ==> (#[trigger] p[i]).name != name,
    ensures
        called(p, name) == 0,
    decreases p.len(),
{
    reveal(Seq::filter);
    if p.len() > 0 {
        assert(p[p.len() - 1].name != name);
        assert forall|i: int| 0 <= i < p.len() - 1 implies (#[trigger] p.drop_last()[i]).name
            != name by {
            assert(p.drop_last()[i] == p[i]);
        }
        lemma_called_none(p.drop_last(), name);
    }
}

/// After `p` was added to `before`: those of other names as they were, in order,
/// and `p` behind them, the one of its name and the one in use.
pub open spec fn provider_joined(before: ConfigView, after: ConfigView, p: ProviderView) -> bool {
    let rest = others(before.providers, p.name);
    &&& after.providers == rest.push(p)
    &&& called(after.providers, p.name) == 1
    &&& called(rest, p.name) == 0
    &&& forall|i: int|
        0 <= i < before.providers.len() && (#[trigger] before.providers[i]).name != p.name
            ==> after.providers.contains(before.providers[i])
    &&& after.active_provider == Some(p.name)
    &&& after.active() == p
    &&& after == (ConfigView {
        providers: after.providers,
        active_provider: after.active_provider,
        ..before
    })
}

proof fn lemma_joined(s: AppView, p: ProviderView)
    ensures
        provider_joined(s.config, s.with_provider(p).config, p),
        s.with_provider(p) == kept(s, s.with_provider(p).config, None, false),
{
    reveal(AppView::with_provider);
    let before = s.config;
    let after = s.with_provider(p).config;
    lemma_without(before.providers, p.name);
    let rest = without(before.providers, p.name);
    lemma_named(rest, p);
    lemma_called_none(rest, p.name);
    assert forall|i: int|
        0 <= i < before.providers.len() && (#[trigger] before.providers[i]).name
            != p.name implies after.providers.contains(before.providers[i]) by {
        let k = choose|k: int| 0 <= k < rest.len() && rest[k] == before.providers[i];
        assert(after.providers[k] == before.providers[i]);
    }
}

/// A provider that is added, by a command, by the interactive setup or by a
/// sign-in, takes the place of one with its name; the others stay as they are, in
/// order, and it is the one in use.
pub proof fn law_adding_a_provider_keeps_the_others(
    s: AppView,
    p: ProviderView,
    key: Option<Seq<char>>,
    facts: Option<FactsView>,
    genie: StepBudget,
)
    requires
        at_rest(s),
    ensures
        ({
            let c = CommandView::Provider(
                ProviderActionView::Add {
                    name: p.name,
                    kind: p.kind,
                    base_url: p.base_url,
                    model: p.model,
                    api_key_env: p.api_key_env,
                },
            );
            let (t, task) = s.command(c, facts, genie);
            &&& provider_joined(s.config, t.config, p)
            &&& t == kept(s, t.config, None, false)
            &&& task is Some && task->0 is RebuildProvider
        }),
        p.api_key_env is None ==> ({
            let c = CommandView::ProviderSetup {
                name: p.name,
                kind: p.kind,
                base_url: p.base_url,
                model: p.model,
                api_key: key,
            };
            let (t, task) = s.command(c, facts, genie);
            let keyed = if key is Some && key->0.len() > 0 {
                AppView {
                    effects: s.effects.push(
                        EffectView::StoreProviderKey { name: p.name, key: key->0 },
                    ),
                    ..s
                }
            } else {
                s
            };
            &&& provider_joined(s.config, t.config, p)
            &&& t == kept(keyed, t.config, None, false)
            &&& task is Some && task->0 is RebuildProvider
        }),
        provider_joined(s.config, s.with_provider(p).config, p),
        s.with_provider(p) == kept(s, s.with_provider(p).config, None, false),
{
    reveal(AppView::command);
    reveal(AppView::report_command);
    reveal(AppView::agent_command);
    reveal(AppView::provider_command);
    reveal(AppView::provider_run);
    reveal(AppView::provider_added);
    reveal(AppView::provider_set_up);
    lemma_joined(s, p);
    if key is Some && key->0.len() > 0 {
        lemma_joined(
            AppView {
                effects: s.effects.push(
                    EffectView::StoreProviderKey { name: p.name, key: key->0 },
                ),
                ..s
            },
            p,
        );
    }
}

/// After a provider was removed none has its name, and the others stay as they
/// are, in order.  The one in use stays, and a name that none has changes nothing.
pub proof fn law_removing_a_provider_keeps_the_others(
    s: AppView,
    name: Seq<char>,
    facts: Option<FactsView>,
    genie: StepBudget,
)
    ensures
        ({
            let (t, task) = s.command(
                CommandView::Provider(ProviderActionView::Remove(name)),
                facts,
                genie,
            );
            let before = s.config.providers;
            &&& task is None
            &&& s.config.active().name == name ==> t == told(
                s,
                "'"@ + name
                    + "' is the active provider — switch with /provider use <other> first"@,
            )
            &&& s.config.active().name != name && called(before, name) == 0 ==> t == told(
                s,
                "no provider named '"@ + name + "'"@,
            )
            &&& s.config.active().name != name && called(before, name) > 0 ==> {
                &&& t == kept(
                    s,
                    ConfigView { providers: others(before, name), ..s.config },
                    Some("removed provider '"@ + name + "'"@),
                    true,
                )
                &&& called(t.config.providers, name) == 0
                &&& forall|i: int|
                    0 <= i < before.len() && (#[trigger] before[i]).name != name
                        ==> t.config.providers.contains(before[i])
            }
        }),
{
    reveal(AppView::command);
    reveal(AppView::report_command);
    reveal(AppView::agent_command);
    reveal(AppView::provider_command);
    reveal(AppView::provider_run);
    reveal(AppView::provider_removed);
    lemma_without(s.config.providers, name);
}

proof fn lemma_provider_named(p: Seq<ProviderView>, name: Seq<char>)
    ensures
        provider_named(p, name) is Some <==> called(p, name) > 0,
        provider_named(p, name) is Some ==> provider_named(p, name)->0.name == name
            && p.contains(provider_named(p, name)->0),
    decreases p.len(),
{
    reveal(Seq::filter);
    if p.len() > 0 {
        let d = p.drop_first();
        lemma_provider_named(d, name);
        lemma_called_first(p, name);
        if provider_named(p, name) is Some {
            if p[0].name == name {
                assert(p.contains(p[0]));
            } else {
                let x = provider_named(d, name)->0;
                let k = choose|k: int| 0 <= k < d.len() && d[k] == x;
                assert(p[k + 1] == x);
            }
        }
    }
}

proof fn lemma_called_first(p: Seq<ProviderView>, name: Seq<char>)
    requires
        p.len() > 0,
    ensures
        called(p, name) == called(p.drop_first(), name) + if p[0].name == name {
            1nat
        } else {
            0nat
        },
    decreases p.len(),
{
    reveal(Seq::filter);
    if p.len() == 1 {
        assert(p.drop_first() =~= Seq::empty());
        assert(p.drop_last() =~= Seq::empty());
        assert(called(p.drop_last(), name) == 0);
    } else {
        lemma_called_first(p.drop_last(), name);
        assert(p.drop_last().drop_first() =~= p.drop_first().drop_last());
        assert(p.drop_first().last() == p.last());
    }
}

/// Another provider is used only if one has that name; the list stays as it is,
/// and from then on the one in use has that name.
pub proof fn law_using_a_provider_switches_to_it(
    s: AppView,
    name: Seq<char>,
    facts: Option<FactsView>,
    genie: StepBudget,
)
    requires
        at_rest(s),
    ensures
        ({
            let (t, task) = s.command(
                CommandView::Provider(ProviderActionView::Use(name)),
                facts,
                genie,
            );
            &&& called(s.config.providers, name) == 0 ==> t == told(
                s,
                "no provider named '"@ + name + "' — try /provider list"@,
            ) && task is None
            &&& called(s.config.providers, name) > 0 ==> {
                &&& t == kept(
                    s,
                    ConfigView { active_provider: Some(name), ..s.config },
                    None,
                    false,
                )
                &&& t.config.active().name == name
                &&& s.config.providers.contains(t.config.active())
                &&& task == Some(
                    TaskView::RebuildProvider {
                        summary: "switched to provider '"@ + name + "'"@,
                    },
                )
            }
        }),
{
    reveal(AppView::command);
    reveal(AppView::report_command);
    reveal(AppView::agent_command);
    reveal(AppView::provider_command);
    reveal(AppView::provider_run);
    reveal(AppView::provider_used);
    lemma_provider_named(s.config.providers, name);
}

/// The mode is the one asked for wherever it is kept, and its step budget with
/// it: none in sovereign mode, the configured one in genie mode.
pub proof fn law_a_mode_is_set_everywhere(
    s: AppView,
    mode: Mode,
    facts: Option<FactsView>,
    genie: StepBudget,
)
    requires
        at_rest(s),
    ensures
        ({
            let (t, task) = s.command(CommandView::Mode(Some(mode)), facts, genie);
            let budget = if mode == Mode::Sovereign {
                StepBudget::Unlimited
            } else {
                genie
            };
            let name = if mode == Mode::Sovereign {
                "sovereign"@
            } else {
                "genie"@
            };
            &&& t == kept(
                AppView {
                    mode,
                    turn: TurnView {
                        status: StatusView { mode, max_steps: budget, ..s.turn.status },
                        ..s.turn
                    },
                    ..s
                },
                ConfigView { mode, max_steps: budget, ..s.config },
                Some("switched to "@ + name + " mode"@),
                true,
            )
            &&& task == if facts is Some {
                Some(TaskView::SetMode(mode))
            } else {
                None
            }
        }),
{
    reveal(AppView::command);
    reveal(AppView::report_command);
    reveal(AppView::agent_command);
    reveal(AppView::mode_run);
    reveal(AppView::with_mode);
}

/// The effort is the one asked for, in the settings and on the agent.
pub proof fn law_an_effort_is_set(
    s: AppView,
    effort: Option<ReasoningEffort>,
    facts: Option<FactsView>,
    genie: StepBudget,
)
    requires
        at_rest(s),
    ensures
        ({
            let (t, task) = s.command(CommandView::Effort(Some(effort)), facts, genie);
            &&& t == kept(
                s,
                ConfigView { reasoning_effort: effort, ..s.config },
                Some(
                    "reasoning effort: "@ + (match effort {
                        Some(ReasoningEffort::Low) => "low"@,
                        Some(ReasoningEffort::Medium) => "medium"@,
                        Some(ReasoningEffort::High) => "high"@,
                        None => "provider default"@,
                    }),
                ),
                true,
            )
            &&& task == if facts is Some {
                Some(TaskView::SetEffort(effort))
            } else {
                None
            }
        }),
{
    reveal(AppView::command);
    reveal(AppView::report_command);
    reveal(AppView::agent_command);
    reveal(AppView::effort_run);
    reveal_strlit("reasoning effort: ");
    reveal_strlit("provider default");
    reveal_strlit("reasoning effort: provider default");
    assert("reasoning effort: "@ + "provider default"@ =~= "reasoning effort: provider default"@);
}

/// Plan mode goes on and off by turns, and omakase never outlives it; the other
/// way round, omakase brings plan mode with it, and plan mode stays when omakase
/// goes.  Two in a row leave the modes as they were, where omakase was off.
pub proof fn law_plan_mode_toggles(s: AppView, facts: Option<FactsView>, genie: StepBudget)
    requires
        at_rest(s),
    ensures
        ({
            let (t, task) = s.command(CommandView::Plan, facts, genie);
            let on = !s.planning.plan_mode;
            &&& t.planning == (PlanningView {
                plan_mode: on,
                omakase: s.planning.omakase && on,
                ..s.planning
            })
            &&& t.chat.transcript.len() == s.chat.transcript.len() + 1
            &&& t == (AppView { planning: t.planning, ..told(s, t.chat.transcript.last()->Notice_0) })
            &&& task == if facts is Some {
                Some(TaskView::SetPlanMode(on))
            } else {
                None
            }
            &&& !s.planning.omakase ==> t.command(CommandView::Plan, facts, genie).0.planning
                == s.planning
        }),
        ({
            let (t, task) = s.command(CommandView::Omakase, facts, genie);
            let on = !s.planning.omakase;
            &&& t.planning == (PlanningView {
                omakase: on,
                plan_mode: s.planning.plan_mode || on,
                ..s.planning
            })
            &&& t.chat.transcript.len() == s.chat.transcript.len() + 1
            &&& t == (AppView { planning: t.planning, ..told(s, t.chat.transcript.last()->Notice_0) })
            &&& task == if facts is Some {
                Some(TaskView::SetOmakase(on))
            } else {
                None
            }
        }),
{
    reveal(AppView::command);
    reveal(AppView::report_command);
    reveal(AppView::agent_command);
    reveal(AppView::plan_run);
    reveal(AppView::omakase_run);
}

/// A rewind and a resume are handed on for the very turn and session asked for,
/// while an agent is there to take them; the session one is in stays.
pub proof fn law_rewind_and_resume_are_handed_on(
    s: AppView,
    turn: u64,
    id: Seq<char>,
    facts: Option<FactsView>,
    genie: StepBudget,
)
    requires
        at_rest(s),
    ensures
        facts is Some ==> s.command(CommandView::Rewind(Some(turn)), facts, genie) == (
            s,
            Some(TaskView::Rewind(turn)),
        ),
        facts is None ==> s.command(CommandView::Rewind(Some(turn)), facts, genie) == (
            told(s, "the agent is busy — try again in a moment"@),
            None::<TaskView>,
        ),
        id == s.session.id ==> s.command(CommandView::Resume(Some(id)), facts, genie) == (
            told(s, "already in this session"@),
            None::<TaskView>,
        ),
        id != s.session.id && facts is Some ==> s.command(
            CommandView::Resume(Some(id)),
            facts,
            genie,
        ) == (s, Some(TaskView::Resume(id))),
        id != s.session.id && facts is None ==> s.command(
            CommandView::Resume(Some(id)),
            facts,
            genie,
        ) == (told(s, "the agent is busy — try again in a moment"@), None::<TaskView>),
        s.command(CommandView::Resume(None), facts, genie) == (s, Some(TaskView::ListSessions)),
{
    reveal(AppView::command);
    reveal(AppView::report_command);
    reveal(AppView::agent_command);
    reveal(AppView::rewind_run);
    reveal(AppView::resume_run);
}

/// A goal is handed on without the white space around it; one of white space
/// alone is refused.
pub proof fn law_a_goal_is_handed_on(
    s: AppView,
    text: Seq<char>,
    facts: Option<FactsView>,
    genie: StepBudget,
) -> (goal: Seq<char>)
    ensures
        s.command(CommandView::Goal(None), facts, genie) == (s, Some(TaskView::ReadGoal)),
        says_something(text) ==> s.command(CommandView::Goal(Some(text)), facts, genie) == (
            s,
            Some(TaskView::SetGoal(goal)),
        ),
        !says_something(text) ==> s.command(CommandView::Goal(Some(text)), facts, genie) == (
            told(s, "usage: /goal <text>"@),
            None::<TaskView>,
        ),
        goal == crate::text::trim(text),
{
    reveal(AppView::command);
    reveal(AppView::report_command);
    reveal(AppView::goal_run);
    crate::text_laws::law_blank_says_nothing(text);
    law_trim_cuts_white_ends(text);
    crate::text::trim(text)
}

/// Clearing is left to the agent where there is one; otherwise the conversation,
/// what streams, the prompts that wait and the token counts go at once, and only
/// a notice is left.
pub proof fn law_clearing_leaves_only_a_notice(
    s: AppView,
    facts: Option<FactsView>,
    genie: StepBudget,
)
    requires
        at_rest(s),
    ensures
        ({
            let (t, task) = s.command(CommandView::Clear, facts, genie);
            &&& facts is Some ==> t == s && task == Some(TaskView::ClearSession)
            &&& facts is None ==> {
                &&& task is None
                &&& t.chat.transcript == seq![EntryView::Notice("conversation cleared"@)]
                &&& t.chat.streaming.len() == 0
                &&& t.chat.streaming_thinking.len() == 0
                &&& t.turn == (TurnView {
                    message_queue: Seq::empty(),
                    status: StatusView {
                        prompt_tokens: 0,
                        completion_tokens: 0,
                        context_tokens: 0,
                        ..s.turn.status
                    },
                    ..s.turn
                })
                &&& t == (AppView { chat: t.chat, turn: t.turn, rail: t.rail, ..s })
            }
        }),
{
    reveal(AppView::command);
    reveal(AppView::report_command);
    reveal(AppView::agent_command);
    reveal(AppView::clear_run);
    reveal(AppView::conversation_cleared);
    let t = s.command(CommandView::Clear, facts, genie).0;
    if facts is None {
        assert(t.chat.transcript =~= seq![EntryView::Notice("conversation cleared"@)]);
    }
}

/// A model is switched to by a rebuild, which is shown while it lasts; a menu of
/// models, a reload and an import ask for nothing but their work.
pub proof fn law_a_model_is_switched_by_a_rebuild(
    s: AppView,
    tag: Seq<char>,
    selection: ImportSelection,
    facts: Option<FactsView>,
    genie: StepBudget,
)
    requires
        at_rest(s),
    ensures
        s.command(CommandView::Model(Some(tag)), facts, genie) == (
            AppView {
                turn: TurnView { rebuilding: Some("switching to "@ + tag), ..s.turn },
                ..s
            },
            Some(TaskView::SwitchModel(tag)),
        ),
        s.command(CommandView::Model(None), facts, genie) == (s, Some(TaskView::ListModels)),
        s.command(CommandView::Reload, facts, genie) == (s, Some(TaskView::Reload)),
        s.command(CommandView::ImportClaude(selection), facts, genie) == (
            s,
            Some(TaskView::Import(selection)),
        ),
{
    reveal(AppView::command);
    reveal(AppView::report_command);
    reveal(AppView::agent_command);
    reveal(AppView::model_run);
    reveal(AppView::models_run);
    reveal(AppView::reload_run);
    reveal(AppView::import_run);
}

/// A side question waits until it is taken, one at a time, a running turn or not;
/// a summary is asked for once, while an agent is there.
pub proof fn law_a_side_question_waits(
    s: AppView,
    question: Seq<char>,
    facts: Option<FactsView>,
    genie: StepBudget,
)
    ensures
        ({
            let (t, task) = s.command(CommandView::Btw(question), facts, genie);
            &&& task is None
            &&& s.turn.rebuilding is Some ==> t == told(
                s,
                "cannot ask a side question while the agent is rebuilding"@,
            )
            &&& s.turn.rebuilding is None && (s.pending.btw is Some || s.pending.btw_inflight)
                ==> t == told(s, "already answering a /btw — wait for it to finish"@)
            &&& s.turn.rebuilding is None && s.pending.btw is None && !s.pending.btw_inflight ==> t
                == (AppView {
                pending: PendingView { btw: Some(question), ..s.pending },
                ..told(s, "answering /btw…"@)
            })
        }),
        at_rest(s) ==> ({
            let (t, task) = s.command(CommandView::Compact, facts, genie);
            &&& task is None
            &&& s.pending.compacting ==> t == told(s, "already compacting"@)
            &&& !s.pending.compacting && facts is None ==> t == told(
                s,
                "the agent is busy — try again in a moment"@,
            )
            &&& !s.pending.compacting && facts is Some ==> t == (AppView {
                pending: PendingView { compact: true, ..s.pending },
                ..s
            })
        }),
{
    reveal(AppView::command);
    reveal(AppView::report_command);
    reveal(AppView::agent_command);
    reveal(AppView::btw_run);
    reveal(AppView::compact_run);
}

/// The command works on the agent, which a running turn or a rebuild holds.
pub open spec fn needs_rest(c: CommandView) -> Option<Seq<char>> {
    match c {
        CommandView::Clear => Some("clear"@),
        CommandView::Model(_) => Some("switch models"@),
        CommandView::Mode(_) => Some("switch modes"@),
        CommandView::Effort(_) => Some("change effort"@),
        CommandView::Plan => Some("toggle plan mode"@),
        CommandView::Omakase => Some("toggle omakase"@),
        CommandView::Rewind(_) => Some("rewind"@),
        CommandView::Compact => Some("compact"@),
        CommandView::Reload => Some("reload"@),
        CommandView::Provider(ProviderActionView::Use(_)) => Some("switch providers"@),
        CommandView::Provider(ProviderActionView::Add { .. }) => Some("add a provider"@),
        CommandView::ProviderSetup { .. } => Some("add a provider"@),
        CommandView::Fusion(FusionAction::Toggle) => Some("toggle fusion"@),
        CommandView::Ultra(UltraActionView::Toggle) => Some("toggle ultra"@),
        _ => None,
    }
}

/// While a turn runs or the agent is rebuilt, a command that works on the agent
/// says why it cannot, and changes nothing else.
pub proof fn law_a_held_agent_is_left_alone(
    s: AppView,
    c: CommandView,
    facts: Option<FactsView>,
    genie: StepBudget,
)
    requires
        !at_rest(s),
        needs_rest(c) is Some,
    ensures
        s.command(c, facts, genie) == (
            told(
                s,
                "cannot "@ + needs_rest(c)->0 + (if s.turn.status.busy {
                    " while a turn is running"@
                } else {
                    " while the agent is rebuilding"@
                }),
            ),
            None::<TaskView>,
        ),
{
    reveal(AppView::command);
    reveal(AppView::report_command);
    reveal(AppView::agent_command);
    reveal(AppView::provider_command);
    reveal(AppView::provider_run);
    reveal(AppView::clear_run);
    reveal(AppView::models_run);
    reveal(AppView::model_run);
    reveal(AppView::mode_menu);
    reveal(AppView::mode_run);
    reveal(AppView::effort_menu);
    reveal(AppView::effort_run);
    reveal(AppView::plan_run);
    reveal(AppView::omakase_run);
    reveal(AppView::rewind_menu);
    reveal(AppView::rewind_run);
    reveal(AppView::compact_run);
    reveal(AppView::reload_run);
    reveal(AppView::provider_used);
    reveal(AppView::provider_added);
    reveal(AppView::provider_set_up);
    reveal(AppView::fusion_run);
    reveal(AppView::ultra_run);
}

} // verus!
