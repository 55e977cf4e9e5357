//! What holds of a line that is sent.

use crate::app::edit_laws::{quiet, types_line};
use crate::app::editor::lemma_synced;
use crate::app::keys::{KeyCode, KeyEvent, KeyEventKind};
use crate::app::prompts::{PromptField, PromptView};
use crate::app::state::{
    ActionView, AppView, ChatView, ComposerView, EffectView, TurnView, MESSAGE_QUEUE_CAP,
};
use crate::app::submit::merged;
use crate::app::transcript::EntryView;
use crate::app::vim::VimMode;
use crate::commands::{is_builtin, parsed_command, CommandView, PreparedView};
use crate::order::{lists_path, same_path};
use crate::text::{decimal, trim};
use crate::text_laws::{law_blank_says_nothing, says_something};
use vstd::prelude::*;

verus! {

/// Enter on a line that is no command half typed.
pub open spec fn sends(s: AppView, key: KeyEvent) -> bool {
    &&& types_line(s, key)
    &&& key.code == KeyCode::Enter
    &&& !key.modifiers.shift
    &&& !key.modifiers.alt
    &&& !s.composer.completes()
}

/// The line is empty again, with no image staged, and what was sent is the newest
/// of the history, once.
pub open spec fn line_taken(c: ComposerView, d: ComposerView, sent: Seq<char>) -> bool {
    &&& d.input.len() == 0
    &&& d.cursor == 0
    &&& d.pending_images.len() == 0
    &&& d.history_pos is None
    &&& d.history == (if c.history.len() > 0 && c.history.last() == sent {
        c.history
    } else {
        c.history.push(sent)
    })
    &&& d.history_draft == c.history_draft
    &&& d.vim == c.vim
    &&& d.custom_commands == c.custom_commands
}

/// The images are those of `first`, then those of `more` at other places, in
/// order.
pub open spec fn joins(all: Seq<Seq<char>>, first: Seq<Seq<char>>, more: Seq<Seq<char>>) -> bool {
    &&& first.len() <= all.len() <= first.len() + more.len()
    &&& all.take(first.len() as int) == first
    &&& forall|i: int| 0 <= i < more.len() ==> lists_path(all, #[trigger] more[i])
    &&& forall|i: int|
        first.len() <= i < all.len() ==> more.contains(#[trigger] all[i]) && !lists_path(
            all.take(i),
            all[i],
        )
}

proof fn lemma_joins(first: Seq<Seq<char>>, more: Seq<Seq<char>>)
    ensures
        joins(merged(first, more), first, more),
    decreases more.len(),
{
    let all = merged(first, more);
    if more.len() == 0 {
        assert(all.take(first.len() as int) =~= first);
    } else {
        let init = more.drop_last();
        let m = merged(first, init);
        lemma_joins(first, init);
        let x = more.last();
        assert(same_path(x, x));
        assert(all.take(first.len() as int) =~= m.take(first.len() as int));
        assert forall|i: int| 0 <= i < more.len() implies lists_path(all, #[trigger] more[i]) by {
            if i < init.len() {
                assert(init[i] == more[i]);
                assert(lists_path(m, init[i]));
                let k = choose|k: int| 0 <= k < m.len() && same_path(#[trigger] m[k], more[i]);
                assert(all[k] == m[k]);
            } else if !lists_path(m, x) {
                assert(all[m.len() as int] == x);
            }
        }
        assert forall|i: int| first.len() <= i < all.len() implies more.contains(
            #[trigger] all[i],
        ) && !lists_path(all.take(i), all[i]) by {
            assert(all.take(i) =~= m.take(i));
            assert(m.take(m.len() as int) =~= m);
            if i < m.len() {
                assert(init.contains(m[i]));
                let k = choose|k: int| 0 <= k < init.len() && init[k] == m[i];
                assert(more[k] == all[i]);
            } else {
                assert(more[more.len() - 1] == all[i]);
            }
        }
    }
}

/// How `text` goes to the agent: as it was expanded beforehand, or as it stands.
pub open spec fn goes_as(s: AppView, text: Seq<char>) -> PreparedView {
    match s.turn.expansion {
        Some((of, p)) => if of == text {
            p
        } else {
            PreparedView { text, images: Seq::empty() }
        },
        None => PreparedView { text, images: Seq::empty() },
    }
}

proof fn lemma_sent(s: AppView, key: KeyEvent)
    requires
        sends(s, key),
    ensures
        ({
            let (t, action) = quiet(s).line_submitted();
            s.key(key) == (AppView { composer: t.composer.synced(), ..t }, action)
        }),
{
    reveal(AppView::key);
    reveal(AppView::screen_key);
    reveal(AppView::composer_key);
    reveal(AppView::line_keyed);
}

/// A prompt goes out as it was typed, without the white space around it and with
/// the staged images, is told in the conversation and leaves the line empty.
/// While a turn runs it waits in the queue instead, behind those that wait
/// already; while the agent is rebuilt, or the queue is full, it stays on the
/// line.
pub proof fn law_a_prompt_is_sent_as_typed(s: AppView, key: KeyEvent)
    requires
        sends(s, key),
        says_something(s.composer.input),
        parsed_command(trim(s.composer.input)) is None,
    ensures
        ({
            let c = s.composer;
            let text = trim(c.input);
            let (t, action) = s.key(key);
            let d = t.composer;
            let p = goes_as(s, text);
            let spoken = s.chat.transcript.push(EntryView::User(text));
            let full = s.turn.message_queue.len() >= MESSAGE_QUEUE_CAP;
            &&& s.turn.rebuilding is Some ==> {
                &&& action is None
                &&& d.input == c.input
                &&& d.pending_images == c.pending_images
                &&& t.turn == s.turn
                &&& t.chat.transcript.drop_last() == s.chat.transcript
                &&& t.chat.transcript.last() is Notice
            }
            &&& s.turn.rebuilding is None && !s.turn.status.busy ==> {
                &&& action is Some && action->0 is Submit
                &&& action->0->Submit_0.text == p.text
                &&& joins(action->0->Submit_0.images, p.images, c.pending_images)
                &&& t.chat.transcript == spoken
                &&& line_taken(c, d, text)
                &&& t.turn == (TurnView { expansion: None, ..s.turn })
            }
            &&& s.turn.rebuilding is None && s.turn.status.busy && !full ==> {
                let q = t.turn.message_queue;
                &&& action is None
                &&& q.len() == s.turn.message_queue.len() + 1
                &&& q.drop_last() == s.turn.message_queue
                &&& q.last().text == p.text
                &&& joins(q.last().images, p.images, c.pending_images)
                &&& t.chat.transcript == spoken.push(
                    EntryView::Notice(
                        "queued — will send after this turn (#"@ + decimal(q.len()) + ")"@,
                    ),
                )
                &&& line_taken(c, d, text)
                &&& t.turn == (TurnView { expansion: None, message_queue: q, ..s.turn })
            }
            &&& s.turn.rebuilding is None && s.turn.status.busy && full ==> {
                &&& action is None
                &&& d.input == c.input
                &&& joins(d.pending_images, p.images, c.pending_images)
                &&& t.turn == (TurnView { expansion: None, ..s.turn })
                &&& t.chat.transcript.drop_last() == s.chat.transcript
                &&& t.chat.transcript.last() is Notice
            }
            &&& t == (AppView { composer: d, chat: t.chat, turn: t.turn, ..quiet(s) })
        }),
{
    let c = s.composer;
    let text = trim(c.input);
    law_blank_says_nothing(c.input);
    lemma_sent(s, key);
    lemma_joins(goes_as(s, text).images, c.pending_images);
    let q = quiet(s);
    let (t, action) = q.line_submitted();
    assert((t, action) == q.prompt_submitted(text));
    let taken = ComposerView {
        input: Seq::empty(),
        cursor: 0,
        history_pos: None,
        pending_images: Seq::empty(),
        ..c.remembered(text)
    };
    lemma_synced(taken);
    lemma_synced(t.composer);
    assert(q.prepared(text).images == merged(goes_as(s, text).images, c.pending_images));
    assert(s.turn.message_queue.push(q.prepared(text)).drop_last() =~= s.turn.message_queue);
    assert forall|e: EntryView| #[trigger] s.chat.transcript.push(e).drop_last()
        =~= s.chat.transcript by {}
}

/// A slash command that parses is run, whatever the agent does; one that does not
/// is explained, if its name is a built-in one.  Either way the line is empty
/// again.  A line of white space alone does nothing.
pub proof fn law_a_command_line_is_run(s: AppView, key: KeyEvent, c: CommandView, m: Seq<char>)
    requires
        sends(s, key),
    ensures
        ({
            let text = trim(s.composer.input);
            let (t, action) = s.key(key);
            let q = quiet(s);
            let shown = ChatView { welcome_dismissed: true, ..q.chat };
            &&& !says_something(s.composer.input) ==> action is None && t.composer.input
                == s.composer.input && t == (AppView { composer: t.composer, ..q })
            &&& says_something(s.composer.input) && parsed_command(text) == Some(
                Ok::<CommandView, Seq<char>>(c),
            ) ==> {
                &&& action == Some(ActionView::Command(c))
                &&& line_taken(s.composer, t.composer, text)
                &&& t == (AppView { composer: t.composer, chat: shown, ..q })
            }
            &&& says_something(s.composer.input) && parsed_command(text) == Some(
                Err::<CommandView, Seq<char>>(m),
            ) && is_builtin(crate::app::submit::command_word(text)) ==> {
                &&& action is None
                &&& line_taken(s.composer, t.composer, text)
                &&& t == (AppView {
                    composer: t.composer,
                    chat: ChatView {
                        transcript: s.chat.transcript.push(EntryView::Notice(m)),
                        ..shown
                    },
                    ..q
                })
            }
        }),
{
    let k = s.composer;
    let text = trim(k.input);
    law_blank_says_nothing(k.input);
    lemma_sent(s, key);
    let (t, action) = quiet(s).line_submitted();
    lemma_synced(
        ComposerView {
            input: Seq::empty(),
            cursor: 0,
            history_pos: None,
            pending_images: Seq::empty(),
            ..k.remembered(text)
        },
    );
    lemma_synced(t.composer);
    lemma_synced(k);
}

/// In the setup of a provider each answer goes into the field that was asked for,
/// and into no other; an empty account or key gives the setup up.
pub proof fn law_a_setup_answer_goes_where_asked(p: PromptView, value: Seq<char>)
    requires
        p.queue.len() > 0,
    ensures
        ({
            let rest = p.queue.skip(1);
            match p.queue[0] {
                PromptField::Name => p.answered(value) == Some(
                    PromptView { name: value, queue: rest, ..p },
                ),
                PromptField::BaseUrl => p.answered(value) == Some(
                    PromptView { base_url: value, queue: rest, ..p },
                ),
                PromptField::Model => p.answered(value) == Some(
                    PromptView { model: value, queue: rest, ..p },
                ),
                PromptField::ApiKey => p.answered(value) == if value.len() == 0 {
                    None
                } else {
                    Some(PromptView { api_key: Some(value), queue: rest, ..p })
                },
                PromptField::AccountId => p.answered(value) == if value.len() == 0 {
                    None
                } else {
                    Some(
                        PromptView {
                            base_url: crate::text::replace(p.base_url, "{account_id}"@, value),
                            queue: rest,
                            ..p
                        },
                    )
                },
            }
        }),
        p.command() == (CommandView::ProviderSetup {
            name: p.name,
            kind: p.kind,
            base_url: p.base_url,
            model: p.model,
            api_key: p.api_key,
        }),
{
    assert(p.queue.drop_first() =~= p.queue.skip(1));
}

/// Enter on the line while it asks for something else than a prompt.
pub open spec fn answers_question(s: AppView, key: KeyEvent) -> bool {
    &&& key.kind != KeyEventKind::Release
    &&& !key.modifiers.control
    &&& !key.modifiers.shift
    &&& !key.modifiers.alt
    &&& key.code == KeyCode::Enter
    &&& !s.dashboard.open
    &&& s.rail.attached is None
    &&& s.rail.rail_focus is None
    &&& s.planning.plan_review is None
    &&& s.planning.interview is None
    &&& s.composer.picker is None
    &&& !(s.composer.vim.enabled && s.composer.vim.mode == VimMode::Normal)
}

/// The setup of a provider asks for one field after the other; with the last one
/// answered the provider is set up with just what was answered, without the white
/// space around it.
pub proof fn law_a_setup_asks_field_by_field(s: AppView, key: KeyEvent, p: PromptView)
    requires
        answers_question(s, key),
        s.composer.web_key_backend is None,
        s.composer.prompt == Some(p),
        p.queue.len() > 0,
    ensures
        ({
            let (t, action) = s.key(key);
            let next = p.answered(trim(s.composer.input));
            &&& next is None ==> action is None && t.composer.prompt is None
            &&& next is Some && next->0.queue.len() > 0 ==> action is None && t.composer.prompt
                == next
            &&& next is Some && next->0.queue.len() == 0 ==> {
                &&& t.composer.prompt is None
                &&& action == Some(
                    ActionView::Command(
                        CommandView::ProviderSetup {
                            name: next->0.name,
                            kind: next->0.kind,
                            base_url: next->0.base_url,
                            model: next->0.model,
                            api_key: next->0.api_key,
                        },
                    ),
                )
            }
            &&& t.composer.input.len() == 0
            &&& t.composer.history == s.composer.history
            &&& t.config == s.config
            &&& t.turn == s.turn
        }),
{
    reveal(AppView::key);
    reveal(AppView::screen_key);
    reveal(AppView::composer_key);
    reveal(AppView::line_keyed);
    let c = s.composer;
    let freed = ComposerView {
        prompt: None,
        web_key_backend: None,
        input: Seq::empty(),
        cursor: 0,
        input_mode: crate::app::state::InputMode::Chat,
        ..c
    };
    lemma_synced(freed);
    lemma_synced(freed.synced());
}

/// A key for web search goes to the store for the backend it was asked for,
/// without the white space around it, and nowhere else; an empty one is not
/// stored.
pub proof fn law_a_web_key_goes_to_the_store(s: AppView, key: KeyEvent, backend: Seq<char>)
    requires
        answers_question(s, key),
        s.composer.web_key_backend == Some(backend),
    ensures
        ({
            let (t, action) = s.key(key);
            &&& action is None
            &&& t.composer.web_key_backend is None
            &&& t.composer.input.len() == 0
            &&& t.composer.history == s.composer.history
            &&& says_something(s.composer.input) ==> t.chat == quiet(s).chat && t.effects
                == s.effects.push(
                EffectView::StoreWebKey { backend, key: trim(s.composer.input) },
            )
            &&& !says_something(s.composer.input) ==> t.effects == s.effects
        }),
{
    reveal(AppView::key);
    reveal(AppView::screen_key);
    reveal(AppView::composer_key);
    reveal(AppView::line_keyed);
    law_blank_says_nothing(s.composer.input);
    let freed = ComposerView {
        web_key_backend: None,
        input: Seq::empty(),
        cursor: 0,
        input_mode: crate::app::state::InputMode::Chat,
        ..s.composer
    };
    lemma_synced(freed);
    lemma_synced(freed.synced());
}

} // verus!
