//! What holds of the work that commands leave to the main loop, once it is done.

use crate::app::command_laws::told;
use crate::app::done::{
    first_user, goal_set, user_turns, GoalOutcome, MissionView, ServersReload, SubagentView,
};
use crate::app::editor::lemma_synced;
use crate::app::menus::SummaryView;
use crate::app::paste::{ClipboardImage, ResolvedView};
use crate::app::picker::{PickerKind, StatusView};
use crate::app::recover::{failure_text, PanicPayload, TurnOutcome};
use crate::app::replay::{MessageView, Role};
use crate::app::replay_laws::reread;
use crate::app::session::Dispatched;
use crate::app::state::{AppView, ComposerView, EffectView, TurnView, MESSAGE_QUEUE_CAP};
use crate::app::tasks::TaskView;
use crate::app::term::{ConfigEdit, PromptEdit};
use crate::app::transcript::EntryView;
use crate::commands::CustomCommand;
use crate::config::{Config, ConfigView, ProviderKind};
use crate::order::lists_path;
use crate::text::{decimal, has_text, join, lines, starts_with, trim};
use vstd::prelude::*;

verus! {

/// The messages of a user.
pub open spec fn of_user(m: Seq<MessageView>) -> Seq<MessageView> {
    m.filter(|x: MessageView| x.role == Role::User)
}

proof fn lemma_user_turns(m: Seq<MessageView>)
    ensures
        user_turns(m) == of_user(m).len(),
    decreases m.len(),
{
    reveal(Seq::filter);
    if m.len() > 0 {
        lemma_user_turns(m.drop_last());
    }
}

/// A session that was reopened takes the place of the current one: its id and its
/// conversation, with a notice that counts the user's messages.  One that could
/// not be leaves all as it was, and the reason is told.
pub proof fn law_a_resumed_session_takes_over(
    s: AppView,
    id: Seq<char>,
    m: Seq<MessageView>,
    e: Seq<char>,
)
    ensures
        ({
            let t = s.resume_done(Ok((id, m)));
            &&& t.session.id == id
            &&& t.chat.transcript == reread(s, m).push(
                EntryView::Notice(
                    "resumed session "@ + id + " · "@ + decimal(of_user(m).len()) + " turns"@,
                ),
            )
            &&& t.chat.streaming.len() == 0
            &&& t.chat.streaming_thinking.len() == 0
            &&& t.turn == s.turn
            &&& t.config == s.config
            &&& t.composer == s.composer
            &&& t.planning == s.planning
        }),
        s.resume_done(Err(e)) == told(s, "could not resume session: "@ + e),
{
    lemma_user_turns(m);
}

/// A rewind leaves the conversation as it was before the turn, and says what was
/// put back; one that failed leaves all as it was.
pub proof fn law_a_rewound_session_is_reread(
    s: AppView,
    turn: u64,
    m: Seq<MessageView>,
    restored: Seq<Seq<char>>,
    e: Seq<char>,
)
    ensures
        ({
            let t = s.rewind_done(turn, Ok((m, restored)));
            &&& t.chat.transcript.len() == reread(s, m).len() + 1
            &&& t.chat.transcript.drop_last() == reread(s, m)
            &&& t.chat.transcript.last() is Notice
            &&& restored.len() == 0 ==> t.chat.transcript.last() == EntryView::Notice(
                "rewound to before turn "@ + decimal(turn as nat) + " — "@
                    + "no files needed restoring"@ + "; conversation truncated"@,
            )
            &&& t.session == s.session
            &&& t.turn == s.turn
            &&& t.config == s.config
            &&& t.composer == s.composer
        }),
        s.rewind_done(turn, Err(e)) == told(s, "rewind failed: "@ + e),
{
    let t = s.rewind_done(turn, Ok((m, restored)));
    assert(t.chat.transcript.drop_last() =~= reread(s, m));
}

/// A goal that is set anew keeps the cycles and the notes of the one before, and
/// notes the change behind them; a first goal starts with none.
pub proof fn law_a_new_goal_keeps_the_record(
    before: Option<MissionView>,
    goal: Seq<char>,
    now: Seq<char>,
)
    ensures
        ({
            let m = goal_set(before, goal, now);
            &&& m.goal == goal
            &&& m.updated == now
            &&& before is None ==> m.cycles == 0 && m.notes.len() == 0
            &&& before is Some ==> {
                &&& m.cycles == before->0.cycles
                &&& m.notes.len() == before->0.notes.len() + 1
                &&& m.notes.drop_last() == before->0.notes
                &&& m.notes.last() == "goal changed to: "@ + goal
            }
        }),
{
    if let Some(b) = before {
        assert(goal_set(before, goal, now).notes.drop_last() =~= b.notes);
    }
}

/// A goal that was stored is told, and the first turn of work on it waits at the
/// end of the queue, if there is room; nothing waits for one that was not.
pub proof fn law_a_stored_goal_starts_work(s: AppView, text: Seq<char>, e: String)
    ensures
        ({
            let t = s.goal_stored(text, GoalOutcome::Stored);
            let q = s.turn.message_queue;
            &&& q.len() < MESSAGE_QUEUE_CAP ==> {
                &&& t.turn.message_queue.len() == q.len() + 1
                &&& t.turn.message_queue.drop_last() == q
                &&& t.turn.message_queue.last().images.len() == 0
                &&& t.chat.transcript == s.chat.transcript.push(
                    EntryView::Notice("standing goal set:\n"@ + text),
                ).push(EntryView::User(t.turn.message_queue.last().text))
            }
            &&& q.len() >= MESSAGE_QUEUE_CAP ==> t.turn == s.turn
        }),
        s.goal_stored(text, GoalOutcome::Unread(e)) == told(
            s,
            "could not read mission: "@ + e@,
        ),
        s.goal_stored(text, GoalOutcome::Unsaved(e)) == told(
            s,
            "could not save mission: "@ + e@,
        ),
{
    let t = s.goal_stored(text, GoalOutcome::Stored);
    let q = s.turn.message_queue;
    if q.len() < MESSAGE_QUEUE_CAP {
        assert(t.turn.message_queue.drop_last() =~= q);
    }
}

/// A session that was cleared leaves an empty conversation with a notice, no
/// prompt waiting and no tokens counted but the context's.
pub proof fn law_a_cleared_session_starts_over(s: AppView, context: u64, e: Seq<char>)
    ensures
        ({
            let t = s.clear_done(Ok(context));
            &&& t.chat.transcript == seq![EntryView::Notice("conversation cleared"@)]
            &&& t.chat.streaming.len() == 0
            &&& t.chat.streaming_thinking.len() == 0
            &&& t.turn == (TurnView {
                message_queue: Seq::empty(),
                status: StatusView {
                    prompt_tokens: 0,
                    completion_tokens: 0,
                    context_tokens: context,
                    ..s.turn.status
                },
                ..s.turn
            })
            &&& t.config == s.config
            &&& t.composer == s.composer
            &&& t.session == s.session
        }),
        s.clear_done(Err(e)) == told(s, "failed to rotate session: "@ + e),
{
    reveal(AppView::conversation_cleared);
    let t = s.clear_done(Ok(context));
    assert(t.chat.transcript =~= seq![EntryView::Notice("conversation cleared"@)]);
}

/// An agent that was rebuilt runs the model asked for, and plan mode outlives the
/// rebuild; one that was not keeps the model, and the reason is told.
pub proof fn law_a_rebuilt_agent_runs_the_model(
    s: AppView,
    label: Seq<char>,
    summary: Seq<char>,
    context: Seq<char>,
    e: Seq<char>,
)
    ensures
        s.rebuild_done(label, summary, context, Ok(())) == (
            AppView {
                turn: TurnView {
                    status: StatusView { model: label, ..s.turn.status },
                    ..s.turn
                },
                ..told(s, summary)
            },
            if s.planning.plan_mode {
                Some(TaskView::SetPlanMode(true))
            } else {
                None
            },
        ),
        s.rebuild_done(label, summary, context, Err(e)) == (
            told(
                s,
                context + " but could not start the agent: "@ + e + " — /quit and relaunch"@,
            ),
            None::<TaskView>,
        ),
{
    reveal(AppView::rebuild_done);
}

/// Fusion and ultra are on only once what they need was built; what was not built
/// leaves them as they were, and the reason is told.
pub proof fn law_fusion_and_ultra_start_once_built(
    s: AppView,
    label: Seq<char>,
    e: Seq<char>,
    slot: bool,
)
    ensures
        s.fusion_done(Ok(label)).0 == (AppView {
            turn: TurnView { fusion_active: true, ..s.turn },
            ..s
        }),
        s.fusion_done(Ok(label)).1 is Some,
        s.fusion_done(Err(e)) == (
            told(s, "could not start fusion: "@ + e),
            None::<TaskView>,
        ),
        s.ultra_done(Ok(label), slot).0.turn == (TurnView { ultra: Some(label), ..s.turn }),
        s.ultra_done(Ok(label), slot).1 == if slot {
            Some(TaskView::SetUltra)
        } else {
            None
        },
        s.ultra_done(Err(e), slot) == (
            told(s, "could not start ultra: "@ + e),
            None::<TaskView>,
        ),
{
    reveal(AppView::fusion_done);
    reveal(AppView::ultra_done);
}

/// The model menu has a row for each model, in order, by its name; one that is in
/// use is marked.  Without models, or where they could not be listed, that is told.
pub proof fn law_the_model_menu_lists_every_model(s: AppView, models: Seq<Seq<char>>, e: Seq<char>, i: int)
    ensures
        s.models_told(Err(e)) == told(s, "could not list models: "@ + e),
        models.len() > 0 ==> ({
            let m = s.models_told(Ok(models)).composer.picker;
            &&& m is Some
            &&& m->0.kind == PickerKind::Model
            &&& m->0.items.len() == models.len()
            &&& 0 <= i < models.len() ==> m->0.items[i].value == models[i]
            &&& 0 <= i < models.len() && models[i] == s.turn.status.model
                ==> m->0.items[i].current
            &&& s.models_told(Ok(models)) == (AppView {
                composer: ComposerView { picker: m, ..s.composer },
                ..s
            })
        }),
{
}

/// The resume menu has a row for each session, in order, by its id, with the one
/// that is open marked.
pub proof fn law_the_resume_menu_lists_every_session(
    s: AppView,
    found: Seq<SummaryView>,
    e: Seq<char>,
    i: int,
)
    ensures
        s.resume_open(Err(e)) == told(s, "cannot locate sessions: "@ + e),
        found.len() == 0 ==> s.resume_open(Ok(found)) == told(s, "no past sessions to resume"@),
        found.len() > 0 ==> ({
            let m = s.resume_open(Ok(found)).composer.picker;
            &&& m is Some
            &&& m->0.kind == PickerKind::Resume
            &&& m->0.items.len() == found.len()
            &&& 0 <= i < found.len() ==> m->0.items[i].value == found[i].id && m->0.items[i].current
                == (found[i].id == s.session.id)
            &&& s.resume_open(Ok(found)) == (AppView {
                composer: ComposerView { picker: m, ..s.composer },
                ..s
            })
        }),
{
}

/// The delegation menu has a row for each subagent, in order, by its name.
pub proof fn law_the_delegation_menu_lists_every_subagent(
    s: AppView,
    list: Seq<SubagentView>,
    i: int,
)
    ensures
        list.len() == 0 ==> s.agents_open(list) == told(s, "no subagents available"@),
        list.len() > 0 ==> ({
            let m = s.agents_open(list).composer.picker;
            &&& m is Some
            &&& m->0.kind == PickerKind::Subagent
            &&& m->0.items.len() == list.len()
            &&& 0 <= i < list.len() ==> m->0.items[i].value == list[i].name
        }),
{
}

/// What was reloaded takes the place of the custom commands there were; imported
/// verbs take the place of the configured ones, if there are any, and are written
/// to disk.
pub proof fn law_what_was_reloaded_takes_over(
    s: AppView,
    commands: Seq<CustomCommand>,
    servers: ServersReload,
    verbs: Seq<Seq<char>>,
    summary: Seq<char>,
    skills: usize,
)
    ensures
        s.reload_done(commands, servers, None, skills).composer == (ComposerView {
            custom_commands: commands,
            ..s.composer
        }),
        s.reload_done(commands, servers, None, skills).config == s.config,
        ({
            let t = s.import_done(verbs, commands, servers, summary);
            &&& t.composer == (ComposerView { custom_commands: commands, ..s.composer })
            &&& verbs.len() > 0 ==> t.config == (ConfigView {
                spinner_verbs: verbs,
                ..s.config
            }) && t.effects.len() == s.effects.len() + 1 && t.effects.last() is SaveConfig
            &&& verbs.len() == 0 ==> t.config == s.config && t.effects == s.effects
        }),
{
    reveal(AppView::verbs_adopted);
}

/// A client that was built is followed by the rebuild of the agent on the model of
/// the provider in use, with its local server started first where it is down; one
/// that was not is told.
pub proof fn law_a_built_client_rebuilds_the_agent(
    s: AppView,
    down: bool,
    summary: Seq<char>,
    e: Seq<char>,
)
    ensures
        ({
            let (t, tasks) = s.provider_done(Ok(down), summary);
            let p = s.config.active();
            let starts = down && p.kind == ProviderKind::LlamaCpp;
            let rebuild = TaskView::RebuildAgent {
                label: p.model,
                summary,
                context: "switched provider"@,
            };
            &&& starts ==> tasks == seq![TaskView::StartServer, rebuild]
            &&& !starts ==> t == s && tasks == seq![rebuild]
        }),
        s.provider_done(Err(e), summary) == (
            told(s, "could not build provider '"@ + s.config.active().name + "': "@ + e),
            Seq::<TaskView>::empty(),
        ),
{
    reveal(AppView::provider_done);
}

/// A roster that was saved is on the agent and on the badge together, or on
/// neither.
pub proof fn law_a_saved_roster_is_applied_whole(
    s: AppView,
    label: Seq<char>,
    e: Seq<char>,
    slot: bool,
)
    ensures
        s.roster_saved(label, Err(e), slot) == (
            told(s, "could not save ultra config: "@ + e),
            None::<TaskView>,
        ),
        ({
            let (t, task) = s.roster_saved(label, Ok(()), slot);
            let on = s.turn.ultra is Some && slot;
            &&& on ==> t.turn == (TurnView { ultra: Some(label), ..s.turn }) && task == Some(
                TaskView::SetUltra,
            )
            &&& !on ==> t.turn == s.turn && task is None
        }),
{
    reveal(AppView::roster_saved);
}

/// An image that was saved is staged; one that was not is told, and so is an empty
/// clipboard, if the user asked for it.
pub proof fn law_a_saved_image_is_staged(
    s: AppView,
    path: String,
    e: String,
    explicit: bool,
    label: Seq<char>,
)
    requires
        !lists_path(s.composer.pending_images, path@),
    ensures
        s.pasted_saved(Ok(path@)).composer.pending_images == s.composer.pending_images.push(path@),
        s.pasted_saved(Err(e@)).composer.pending_images == s.composer.pending_images,
        s.pasted_saved(Err(e@)).chat == told(s, "could not save pasted image: "@ + e@).chat,
        s.clipboard_seen(explicit, ClipboardImage::Saved(path)).composer.pending_images
            == s.composer.pending_images.push(path@),
        s.clipboard_seen(explicit, ClipboardImage::Unsaved(e)).composer.pending_images
            == s.composer.pending_images,
        s.clipboard_seen(false, ClipboardImage::Absent).chat == s.chat,
        s.clipboard_seen(true, ClipboardImage::Absent).chat == told(
            s,
            "no image on the clipboard to attach"@,
        ).chat,
        s.clipboard_seen(explicit, ClipboardImage::Absent).composer.input == s.composer.input,
{
    lemma_synced(s.composer);
    lemma_synced(s.composer.with_image(path@));
}

/// Pasted paths are staged one by one, in order, and those that name no image are
/// left out; text of which none does goes in at the cursor as it is.
pub proof fn law_pasted_paths_are_staged_in_order(
    s: AppView,
    text: Seq<char>,
    r: Seq<ResolvedView>,
    x: ResolvedView,
)
    ensures
        s.all_staged(Seq::empty()) == s,
        x.path is None ==> s.all_staged(r.push(x)) == s.all_staged(r),
        x.path is Some && lists_path(s.all_staged(r).composer.pending_images, x.path->0)
            ==> s.all_staged(r.push(x)).composer == s.all_staged(r).composer,
        x.path is Some && !lists_path(s.all_staged(r).composer.pending_images, x.path->0)
            ==> s.all_staged(r.push(x)).composer.pending_images == s.all_staged(
            r,
        ).composer.pending_images.push(x.path->0),
        (forall|i: int| 0 <= i < r.len() ==> (#[trigger] r[i]).path is None) ==> ({
            let c = s.composer;
            let at = c.cursor as int;
            let t = s.paths_resolved(text, r);
            &&& t.composer.input == c.input.take(at) + text + c.input.skip(at)
            &&& t.composer.pending_images == c.pending_images
        }),
{
    assert(r.push(x).drop_last() =~= r);
    lemma_synced(s.composer.inserted(text));
}

/// A session that was started in the background is told and looked for; one that
/// could not be is told.
pub proof fn law_a_dispatched_session_is_looked_for(s: AppView, prompt: Seq<char>, e: String)
    ensures
        s.dispatched(prompt, Dispatched::Started) == (AppView {
            effects: s.effects.push(EffectView::RefreshSessions),
            ..told(s, "dispatched background session: "@ + prompt)
        }),
        s.dispatched(prompt, Dispatched::NoBinary(e)) == told(
            s,
            "could not locate the wizard binary: "@ + e@,
        ),
        s.dispatched(prompt, Dispatched::Failed(e)) == told(s, "dispatch failed: "@ + e@),
{
}

/// A prompt that was edited elsewhere is on the line as it was left, without the
/// one line ending that an editor puts at the end; one that was not edited stays.
pub proof fn law_an_edited_prompt_is_on_the_line(s: AppView, text: String)
    requires
        text@.len() <= usize::MAX,
    ensures
        ({
            let t = s.prompt_edited(PromptEdit::Edited(text));
            &&& t.composer.history == s.composer.history
            &&& t.composer.pending_images == s.composer.pending_images
            &&& text@.len() == 0 || text@.last() != '\n' ==> t.composer.input == text@
            &&& text@.len() > 0 && text@.last() == '\n' && (text@.len() == 1 || text@[text@.len()
                - 2] != '\r') ==> t.composer.input == text@.drop_last()
            &&& t.composer.cursor == t.composer.input.len()
            &&& t.turn == s.turn
        }),
        s.prompt_edited(PromptEdit::Unsuccessful).composer == s.composer,
        s.prompt_edited(PromptEdit::NoEditor).composer == s.composer,
        s.prompt_edited(PromptEdit::NotLaunched(text)).composer == s.composer,
{
    reveal(AppView::prompt_edited);
    let kept = if text@.len() > 0 && text@.last() == '\n' {
        crate::text::strip_cr(text@.drop_last())
    } else {
        text@
    };
    lemma_synced(
        ComposerView {
            history_pos: None,
            input: kept,
            cursor: kept.len() as usize,
            ..s.composer
        },
    );
}

/// Settings that were edited and read back take the place of the ones there were,
/// and the status follows them; an edit that failed changes no setting.
pub proof fn law_edited_settings_take_over(s: AppView, config: Config, e: String)
    ensures
        ({
            let t = s.config_edited(ConfigEdit::Reloaded(config));
            &&& t.config == config@
            &&& t.turn == (TurnView {
                status: StatusView {
                    mode: config@.mode,
                    model: config@.active().model,
                    ..s.turn.status
                },
                ..s.turn
            })
            &&& t.composer == s.composer
            &&& t.planning == s.planning
        }),
        s.config_edited(ConfigEdit::Unparsed(e)) == told(
            s,
            "config not reloaded (parse error): "@ + e@,
        ),
        s.config_edited(ConfigEdit::NotLaunched(e)) == told(s, "could not launch editor: "@ + e@),
        s.config_edited(ConfigEdit::Unsuccessful) == told(
            s,
            "editor exited without success — config not reloaded"@,
        ),
{
    reveal(AppView::config_edited);
}

/// A turn that failed or crashed is told with the reason; one that ended by itself
/// is not.
pub proof fn law_a_failed_turn_is_told(e: String)
    ensures
        failure_text(TurnOutcome::Finished) is None,
        failure_text(TurnOutcome::Failed(e)) == Some("turn failed: "@ + e@),
        failure_text(TurnOutcome::Crashed(PanicPayload::Literal(e))) == Some(
            "the turn crashed: "@ + e@ + " — the conversation is intact; send it again"@,
        ),
        failure_text(TurnOutcome::Crashed(PanicPayload::Formatted(e))) == Some(
            "the turn crashed: "@ + e@ + " — the conversation is intact; send it again"@,
        ),
{
}

/// The start of a text's first line, without the white space around it and no
/// longer than a name is.
pub open spec fn first_words(text: Seq<char>) -> Seq<char> {
    let l = lines(text);
    if l.len() == 0 {
        Seq::empty()
    } else if trim(l[0]).len() > 48 {
        trim(l[0]).take(48)
    } else {
        trim(l[0])
    }
}

/// A session that is reopened is called by the start of the user's first message,
/// and by its id where that says nothing.
pub proof fn law_a_resumed_session_is_called_by_its_first_prompt(
    s: AppView,
    id: Seq<char>,
    m: Seq<MessageView>,
    i: int,
)
    requires
        0 <= i <= m.len(),
        forall|k: int| 0 <= k < i ==> (#[trigger] m[k]).role != Role::User,
        i < m.len() ==> m[i].role == Role::User,
    ensures
        s.resume_done(Ok((id, m))).session.name == if i < m.len() && first_words(
            m[i].content,
        ).len() > 0 {
            first_words(m[i].content)
        } else {
            id
        },
{
    lemma_first_user(m, i);
}

proof fn lemma_first_user(m: Seq<MessageView>, i: int)
    requires
        0 <= i <= m.len(),
        forall|k: int| 0 <= k < i ==> (#[trigger] m[k]).role != Role::User,
        i < m.len() ==> m[i].role == Role::User,
    ensures
        first_user(m) == i,
    decreases m.len(),
{
    if i > 0 {
        assert(m[0].role != Role::User);
        let d = m.drop_first();
        assert forall|k: int| 0 <= k < i - 1 implies (#[trigger] d[k]).role != Role::User by {
            assert(d[k] == m[k + 1]);
        }
        lemma_first_user(d, i - 1);
    }
}

/// The first turn of work on a goal hands the goal on as it was stored.
pub proof fn law_work_starts_with_the_goal(s: AppView, text: Seq<char>)
    requires
        s.turn.message_queue.len() < MESSAGE_QUEUE_CAP,
    ensures
        has_text(
            s.goal_stored(text, GoalOutcome::Stored).turn.message_queue.last().text,
            text,
        ),
{
    let head = "A standing goal was just set for this project:\n\n"@;
    let all = s.goal_stored(text, GoalOutcome::Stored).turn.message_queue.last().text;
    let at = head.len() as int;
    let rest = all.skip(at);
    assert(rest.take(text.len() as int) =~= text);
    assert(starts_with(all.skip(at), text));
}

/// A rewind names the files that it put back.
pub proof fn law_a_rewind_names_what_it_put_back(
    s: AppView,
    turn: u64,
    m: Seq<MessageView>,
    restored: Seq<Seq<char>>,
)
    requires
        restored.len() > 0,
    ensures
        s.rewind_done(turn, Ok((m, restored))).chat.transcript.last() == EntryView::Notice(
            "rewound to before turn "@ + decimal(turn as nat) + " — "@ + ("restored "@ + join(
                restored,
                ", "@,
            )) + "; conversation truncated"@,
        ),
{
}

} // verus!
