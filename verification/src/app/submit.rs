//! Submitting the composer: commands, prompts for the agent, and the answers
//! to inline prompts.

use crate::app::prompts::{
    prompt_opt, prompt_question, question_text, PromptField, PromptView, ProviderPrompt,
};
use crate::app::rail;
use crate::app::state::{
    action_opt, ActionView, App, AppAction, AppView, ChatView, Composer, ComposerView, Effect,
    EffectView, InputMode, RailView, TurnView, MESSAGE_QUEUE_CAP,
};
use crate::app::transcript::{EntryView, TranscriptEntry};
use crate::commands::{
    is_builtin, is_builtin_command, parsed_command, CommandView, CustomCommand, PreparedView,
    Preprocessed, SlashCommand, SuggestionView,
};
use crate::order::{has_same_path, lists_path};
use crate::text::{
    chars_of, decimal, is_empty_text, number, replace, replaced, same, skip_white,
    slice_text, split_words, texts, trim, trim_start, trimmed, words,
};
use vstd::prelude::*;

verus! {

/// The mark in a base URL that the account id takes the place of.
pub open spec fn account_mark() -> Seq<char> {
    "{account_id}"@
}

/// The paths of `extra` appended to `images`, each place once.
pub open spec fn merged(images: Seq<Seq<char>>, extra: Seq<Seq<char>>) -> Seq<Seq<char>>
    decreases extra.len(),
{
    if extra.len() == 0 {
        images
    } else {
        let m = merged(images, extra.drop_last());
        if lists_path(m, extra.last()) {
            m
        } else {
            m.push(extra.last())
        }
    }
}

/// The first word after the slash.
pub open spec fn command_word(input: Seq<char>) -> Seq<char> {
    let t = trim_start(input);
    if t.len() > 0 && t[0] == '/' && words(t.drop_first()).len() > 0 {
        words(t.drop_first())[0]
    } else {
        Seq::empty()
    }
}

/// One of the custom commands is called `name`.
pub open spec fn is_custom(c: Seq<CustomCommand>, name: Seq<char>) -> bool {
    exists|i: int| 0 <= i < c.len() && (#[trigger] c[i]).name@ == name
}

impl PromptView {
    /// The answer to the first field filled in; `None` where an empty answer
    /// means "never mind".
    pub open spec fn answered(self, value: Seq<char>) -> Option<PromptView> {
        let rest = PromptView { queue: self.queue.drop_first(), ..self };
        match self.queue[0] {
            PromptField::Name => Some(PromptView { name: value, ..rest }),
            PromptField::AccountId => if value.len() == 0 {
                None
            } else {
                Some(PromptView { base_url: replace(self.base_url, account_mark(), value), ..rest })
            },
            PromptField::BaseUrl => Some(PromptView { base_url: value, ..rest }),
            PromptField::Model => Some(PromptView { model: value, ..rest }),
            PromptField::ApiKey => if value.len() == 0 {
                None
            } else {
                Some(PromptView { api_key: Some(value), ..rest })
            },
        }
    }

    /// The setup command once every field is filled in.
    pub open spec fn command(self) -> CommandView {
        CommandView::ProviderSetup {
            name: self.name,
            kind: self.kind,
            base_url: self.base_url,
            model: self.model,
            api_key: self.api_key,
        }
    }
}

impl ComposerView {
    /// The line emptied and back in ordinary use.
    pub open spec fn released(self) -> ComposerView {
        ComposerView { input: Seq::empty(), cursor: 0, input_mode: InputMode::Chat, ..self }.synced()
    }

    /// What is typed after the slash, or nothing.
    pub open spec fn typed_command(self) -> Seq<char> {
        let t = trim_start(self.input);
        if t.len() > 0 && t[0] == '/' {
            t.drop_first()
        } else {
            Seq::empty()
        }
    }

    /// The highlighted suggestion; the last one when the highlight is past it.
    pub open spec fn highlighted(self) -> SuggestionView {
        self.suggestions[if self.suggestion_index < self.suggestions.len() {
            self.suggestion_index as int
        } else {
            self.suggestions.len() - 1
        }]
    }

    /// Enter completes the highlighted suggestion first: a command is being
    /// typed, and not one that is complete as it stands.
    pub open spec fn completes(self) -> bool {
        &&& self.input_mode == InputMode::Command
        &&& self.suggestions.len() > 0
        &&& !is_builtin(self.typed_command())
        &&& !is_custom(self.custom_commands, self.typed_command())
        &&& self.typed_command() != self.highlighted().name
    }
}

impl AppView {
    /// The chat, or the pane the user is inside, at its live tail.
    pub open spec fn at_tail(self) -> AppView {
        match self.rail.attached {
            Some(i) => if i < self.rail.panes.len() {
                AppView {
                    rail: RailView {
                        panes: self.rail.panes.update(
                            i as int,
                            self.rail.panes[i as int].at_tail(),
                        ),
                        ..self.rail
                    },
                    ..self
                }
            } else {
                self
            },
            None => AppView { chat: self.chat.at_tail(), ..self },
        }
    }

    pub open spec fn with_composer(self, composer: ComposerView) -> AppView {
        AppView { composer, ..self }
    }

    pub open spec fn with_chat(self, chat: ChatView) -> AppView {
        AppView { chat, ..self }
    }

    pub open spec fn with_turn(self, turn: TurnView) -> AppView {
        AppView { turn, ..self }
    }

    pub open spec fn with_rail(self, rail: RailView) -> AppView {
        AppView { rail, ..self }
    }

    /// How `input` goes to the agent: the way the main loop expanded it, or as
    /// typed, with the staged images.
    pub open spec fn prepared(self, input: Seq<char>) -> PreparedView {
        let p = match self.turn.expansion {
            Some((text, p)) if text == input => p,
            _ => PreparedView::plain(input),
        };
        PreparedView { images: merged(p.images, self.composer.pending_images), ..p }
    }

    /// The user's words in the history and the transcript, the composer empty,
    /// and the view at the tail.
    pub open spec fn said(self, input: Seq<char>) -> AppView {
        let s = self.with_composer(self.composer.remembered(input).emptied());
        s.with_chat(s.chat.with(EntryView::User(input))).at_tail()
    }

    /// A prompt for the agent.  While the agent is being rebuilt it is
    /// refused; while a turn runs it waits in the queue, if there is room.
    pub open spec fn prompt_submitted(self, input: Seq<char>) -> (AppView, Option<ActionView>) {
        let p = self.prepared(input);
        let s = self.with_turn(TurnView { expansion: None, ..self.turn });
        if self.turn.rebuilding is Some {
            (self.noticed("the agent is rebuilding — try again in a moment"@), None)
        } else if !self.turn.status.busy {
            (s.said(input), Some(ActionView::Submit(p)))
        } else if self.turn.message_queue.len() >= MESSAGE_QUEUE_CAP {
            (
                s.with_composer(ComposerView { pending_images: p.images, ..s.composer }).noticed(
                    "message queue is full (32) — wait for a turn to finish"@,
                ),
                None,
            )
        } else {
            let t = s.said(input);
            let queue = t.turn.message_queue.push(p);
            (
                t.with_turn(TurnView { message_queue: queue, ..t.turn }).noticed(
                    "queued — will send after this turn (#"@ + decimal(queue.len()) + ")"@,
                ),
                None,
            )
        }
    }

    /// The inline prompt given up.
    pub open spec fn prompt_cancelled(self) -> AppView {
        self.with_composer(
            ComposerView { prompt: None, web_key_backend: None, ..self.composer }.released(),
        ).noticed("cancelled"@)
    }

    /// The line taken as the answer to the first field of the setup.
    pub open spec fn field_submitted(self, prompt: PromptView) -> (AppView, Option<ActionView>) {
        if prompt.queue.len() == 0 {
            (self, None)
        } else {
            match prompt.answered(trim(self.composer.input)) {
                None => (self.prompt_cancelled(), None),
                Some(next) => if next.queue.len() > 0 {
                    (
                        self.with_composer(
                            ComposerView {
                                prompt: Some(next),
                                input: Seq::empty(),
                                cursor: 0,
                                ..self.composer
                            },
                        ).noticed(question_text(next.queue[0], next)),
                        None,
                    )
                } else {
                    (
                        self.with_composer(
                            ComposerView { prompt: None, ..self.composer }.released(),
                        ),
                        Some(ActionView::Command(next.command())),
                    )
                },
            }
        }
    }

    /// The line taken as the pasted key of a web search backend; an empty one
    /// cancels.
    pub open spec fn web_key_submitted(self, backend: Seq<char>) -> AppView {
        let key = trim(self.composer.input);
        let s = self.with_composer(
            ComposerView { web_key_backend: None, ..self.composer }.released(),
        );
        if key.len() == 0 {
            s.noticed("cancelled (no key entered)"@)
        } else {
            s.asking(EffectView::StoreWebKey { backend, key })
        }
    }

    /// A line submitted: a command that parses is run, a built-in with bad
    /// arguments is explained, and anything else goes to the agent.
    pub open spec fn line_submitted(self) -> (AppView, Option<ActionView>) {
        let input = trim(self.composer.input);
        let done = self.with_chat(ChatView { welcome_dismissed: true, ..self.chat }).with_composer(
            self.composer.remembered(input).emptied(),
        );
        if input.len() == 0 {
            (self, None)
        } else {
            match parsed_command(input) {
                Some(Ok(command)) => (done, Some(ActionView::Command(command))),
                Some(Err(message)) => if is_builtin(command_word(input)) {
                    (done.noticed(message), None)
                } else {
                    self.prompt_submitted(input)
                },
                None => self.prompt_submitted(input),
            }
        }
    }

    /// Enter.
    pub open spec fn submitted(self) -> (AppView, Option<ActionView>) {
        match (self.composer.web_key_backend, self.composer.prompt) {
            (Some(backend), _) => (self.web_key_submitted(backend), None),
            (None, Some(prompt)) => self.field_submitted(prompt),
            (None, None) => if self.composer.completes() {
                let s = self.with_composer(self.composer.accepted());
                if self.composer.highlighted().takes_args {
                    (s, None)
                } else {
                    s.line_submitted()
                }
            } else {
                self.line_submitted()
            },
        }
    }
}

fn merge_images(images: Vec<String>, extra: &Vec<String>) -> (r: Vec<String>)
    ensures
        texts(r@) == merged(texts(images@), texts(extra@)),
{
    let mut out = images;
    let ghost all = texts(extra@);
    let mut i: usize = 0;
    while i < extra.len()
        invariant
            i <= extra.len(),
            all == texts(extra@),
            texts(out@) == merged(texts(images@), all.take(i as int)),
        decreases extra.len() - i,
    {
        assert(all.take(i + 1).drop_last() =~= all.take(i as int));
        assert(all.take(i + 1).last() == extra@[i as int]@);
        let ghost before = texts(out@);
        if !has_same_path(&out, &extra[i]) {
            let path = extra[i].clone();
            out.push(path);
            assert(texts(out@) =~= before.push(path@));
        }
        i += 1;
    }
    assert(all.take(i as int) =~= all);
    out
}

fn word_of(input: &str) -> (r: String)
    ensures
        r@ == command_word(input@),
{
    let cs = chars_of(input);
    let start = skip_white(&cs, 0);
    assert(cs@.skip(0) =~= cs@);
    if start < cs.len() && cs[start] == '/' {
        let body = slice_text(&cs, start + 1, cs.len());
        assert(body@ =~= trim_start(input@).drop_first());
        let parts = split_words(&body);
        assert(texts(parts@).len() == parts@.len());
        if parts.len() > 0 {
            assert(texts(parts@)[0] == parts@[0]@);
            return parts[0].clone();
        }
    }
    let empty = String::new();
    assert(empty@ =~= Seq::empty());
    empty
}

impl Composer {
    fn is_custom_command(&self, name: &str) -> (r: bool)
        ensures
            r == is_custom(self@.custom_commands, name@),
    {
        let mut i: usize = 0;
        while i < self.custom_commands.len()
            invariant
                i <= self.custom_commands.len(),
                forall|j: int|
                    0 <= j < i ==> (#[trigger] self.custom_commands@[j]).name@ != name@,
            decreases self.custom_commands.len() - i,
        {
            if same(&self.custom_commands[i].name, name) {
                return true;
            }
            i += 1;
        }
        false
    }

    fn typed_after_slash(&self) -> (r: String)
        ensures
            r@ == self@.typed_command(),
    {
        let cs = chars_of(&self.input);
        let start = skip_white(&cs, 0);
        assert(cs@.skip(0) =~= cs@);
        let out = if start < cs.len() && cs[start] == '/' {
            slice_text(&cs, start + 1, cs.len())
        } else {
            String::new()
        };
        assert(out@ =~= self@.typed_command());
        out
    }

    /// Whether Enter completes the highlighted suggestion first, and whether
    /// that suggestion waits for arguments.
    fn completion(&self) -> (r: (bool, bool))
        ensures
            r.0 == self@.completes(),
            r.0 ==> r.1 == self@.highlighted().takes_args,
    {
        assert(self@.suggestions.len() == self.suggestions@.len());
        if self.input_mode != InputMode::Command || self.suggestions.len() == 0 {
            return (false, false);
        }
        let typed = self.typed_after_slash();
        let at: usize = if self.suggestion_index < self.suggestions.len() {
            self.suggestion_index
        } else {
            self.suggestions.len() - 1
        };
        assert(self@.suggestions[at as int] == self.suggestions@[at as int]@);
        let exact = is_builtin_command(&typed) || self.is_custom_command(&typed);
        let row = &self.suggestions[at];
        (!exact && !same(&typed, &row.name), row.takes_args)
    }

    /// Empty the line and return it to ordinary use.
    pub(crate) fn release(&mut self)
        ensures
            final(self)@ == old(self)@.released(),
            old(self)@.wf() ==> final(self)@.wf(),
    {
        self.input = String::new();
        assert(self@.input =~= Seq::empty());
        self.cursor = 0;
        self.input_mode = InputMode::Chat;
        self.sync_input_mode();
    }
}

impl App {
    /// Jump the chat (or the attached pane) to the live tail and re-enable
    /// stick-to-bottom.
    pub fn scroll_to_bottom(&mut self)
        requires
            old(self)@.wf(),
        ensures
            final(self)@ == old(self)@.at_tail(),
            final(self)@.wf(),
    {
        assert(self@.rail.panes.len() == self.rail.panes@.len());
        match self.rail.attached {
            Some(i) => {
                assert(self@.rail.panes[i as int] == self.rail.panes@[i as int]@);
                self.rail.panes[i].scroll = 0;
                self.rail.panes[i].scroll_follow = true;
                assert(self@.rail.panes =~= old(self)@.at_tail().rail.panes);
            },
            None => {
                self.chat.scroll = 0;
                self.chat.scroll_follow = true;
            },
        }
    }

    fn say(&mut self, input: String)
        requires
            old(self)@.wf(),
        ensures
            final(self)@ == old(self)@.said(input@),
            final(self)@.wf(),
            final(self)@.turn == old(self)@.turn,
    {
        self.composer.push_history(&input);
        self.composer.clear_input();
        self.chat.push(TranscriptEntry::User(input));
        self.scroll_to_bottom();
    }

    fn prepare(&mut self, input: &str) -> (r: Preprocessed)
        requires
            old(self)@.wf(),
        ensures
            r@ == old(self)@.prepared(input@),
            final(self)@ == old(self)@.with_turn(
                TurnView { expansion: None, ..old(self)@.turn },
            ),
            final(self)@.wf(),
    {
        let base = match self.turn.expansion.take() {
            Some(e) => if same(&e.0, input) {
                e.1
            } else {
                Preprocessed::text_only(input.to_string())
            },
            None => Preprocessed::text_only(input.to_string()),
        };
        let images = merge_images(base.images, &self.composer.pending_images);
        Preprocessed { text: base.text, images }
    }

    /// Submit `input` as a user prompt: start a turn with it, or queue it
    /// behind the running one.
    pub(crate) fn submit_prompt(&mut self, input: String) -> (r: Option<AppAction>)
        requires
            old(self)@.wf(),
        ensures
            (final(self)@, action_opt(r)) == old(self)@.prompt_submitted(input@),
            final(self)@.wf(),
    {
        if self.turn.rebuilding.is_some() {
            self.notice("the agent is rebuilding — try again in a moment".to_string());
            return None;
        }
        let prepared = self.prepare(&input);
        if !self.turn.status.busy {
            self.say(input);
            return Some(AppAction::Submit(prepared));
        }
        assert(self@.turn.message_queue.len() == self.turn.message_queue@.len());
        if self.turn.message_queue.len() >= MESSAGE_QUEUE_CAP {
            self.composer.pending_images = prepared.images;
            self.notice("message queue is full (32) — wait for a turn to finish".to_string());
            return None;
        }
        self.say(input);
        let ghost before = self@;
        self.turn.message_queue.push_back(prepared);
        assert(self@.turn.message_queue =~= before.turn.message_queue.push(prepared@));
        assert(self@.turn.message_queue.len() == self.turn.message_queue@.len());
        let mut text = "queued — will send after this turn (#".to_string();
        text.append(&number(self.turn.message_queue.len() as u64));
        text.append(")");
        self.notice(text);
        None
    }

    /// Cancel an in-progress inline prompt and return to normal input.
    pub(crate) fn cancel_prompt(&mut self)
        requires
            old(self)@.wf(),
        ensures
            final(self)@ == old(self)@.prompt_cancelled(),
            final(self)@.wf(),
    {
        self.composer.prompt = None;
        self.composer.web_key_backend = None;
        self.composer.release();
        self.notice("cancelled".to_string());
    }

    /// Pop the next queued user prompt, if any.
    pub fn pop_queued_message(&mut self) -> (r: Option<Preprocessed>)
        requires
            old(self)@.wf(),
        ensures
            ({
                let queue = old(self)@.turn.message_queue;
                if queue.len() == 0 {
                    r is None && final(self)@ == old(self)@
                } else {
                    r is Some && r->0@ == queue[0] && final(self)@ == old(self)@.with_turn(
                        TurnView { message_queue: queue.drop_first(), ..old(self)@.turn },
                    )
                }
            }),
            final(self)@.wf(),
    {
        let ghost q = self.turn.message_queue@;
        assert(self@.turn.message_queue.len() == q.len());
        let r = self.turn.message_queue.pop_front();
        proof {
            if q.len() > 0 {
                assert(old(self)@.turn.message_queue[0] == q[0]@);
                assert(self@.turn.message_queue =~= old(self)@.turn.message_queue.drop_first());
            } else {
                assert(self@.turn.message_queue =~= old(self)@.turn.message_queue);
            }
        }
        r
    }
}

impl ProviderPrompt {
    /// Fills in the first field; `None` when an empty answer gives up.
    fn answer(self, value: String) -> (r: Option<ProviderPrompt>)
        requires
            self@.queue.len() > 0,
        ensures
            prompt_opt(r) == self@.answered(value@),
    {
        let mut p = self;
        let field = p.queue.remove(0);
        assert(p@.queue =~= self@.queue.drop_first());
        let empty = is_empty_text(&value);
        match field {
            PromptField::Name => {
                p.name = value;
            },
            PromptField::AccountId => {
                if empty {
                    return None;
                }
                proof {
                    reveal_strlit("{account_id}");
                }
                p.base_url = replaced(&p.base_url, "{account_id}", &value);
            },
            PromptField::BaseUrl => {
                p.base_url = value;
            },
            PromptField::Model => {
                p.model = value;
            },
            PromptField::ApiKey => {
                if empty {
                    return None;
                }
                p.api_key = Some(value);
            },
        }
        Some(p)
    }
}

impl AppView {
    /// The composer collecting the fields of `prompt`, the first one asked
    /// for.
    pub open spec fn prompting(self, prompt: PromptView) -> AppView {
        let s = self.with_composer(
            ComposerView {
                suggestions: Seq::empty(),
                suggestion_index: 0,
                ..ComposerView {
                    prompt: Some(prompt),
                    input_mode: InputMode::Prompt,
                    ..self.composer
                }.emptied()
            },
        );
        if prompt.queue.len() > 0 {
            s.noticed(question_text(prompt.queue[0], prompt))
        } else {
            s
        }
    }

    /// The composer collecting the API key of a web search backend.
    pub open spec fn prompting_web_key(self, backend: Seq<char>, label: Seq<char>) -> AppView {
        self.with_composer(
            ComposerView {
                suggestions: Seq::empty(),
                suggestion_index: 0,
                ..ComposerView {
                    web_key_backend: Some(backend),
                    input_mode: InputMode::Prompt,
                    ..self.composer
                }.emptied()
            },
        ).noticed("paste your "@ + label + " API key, then Enter (Esc to cancel):"@)
    }

    /// What is being typed is a secret.
    pub open spec fn masked(self) -> bool {
        ||| self.composer.web_key_backend is Some
        ||| self.composer.input_mode == InputMode::Prompt && (self.composer.prompt matches Some(p)
            && p.queue.len() > 0 && p.queue[0] == PromptField::ApiKey)
    }

    /// The first working turn for a goal, queued.
    pub open spec fn goal_queued(self, goal: Seq<char>) -> AppView {
        if self.turn.message_queue.len() >= MESSAGE_QUEUE_CAP {
            self.noticed(
                "goal saved, but the message queue is full (32) — work will not auto-start; send a message once a turn finishes"@,
            )
        } else {
            let kickoff = "A standing goal was just set for this project:\n\n"@ + goal
                + "\n\nStart working toward it now: break it into concrete steps and begin executing them. Keep going until you reach a natural checkpoint, then summarize the progress made and what remains."@;
            let s = self.with_chat(self.chat.with(EntryView::User(kickoff))).at_tail();
            s.with_turn(
                TurnView {
                    message_queue: s.turn.message_queue.push(PreparedView::plain(kickoff)),
                    ..s.turn
                },
            )
        }
    }
}

impl App {
    /// Start the inline provider-setup prompt and ask the first queued field.
    pub fn begin_provider_prompt(&mut self, prompt: ProviderPrompt)
        requires
            old(self)@.wf(),
        ensures
            final(self)@ == old(self)@.prompting(prompt@),
            final(self)@.wf(),
    {
        let question: Option<String> = if prompt.queue.len() > 0 {
            Some(prompt_question(prompt.queue[0], &prompt))
        } else {
            None
        };
        self.composer.prompt = Some(prompt);
        self.composer.input_mode = InputMode::Prompt;
        self.composer.clear_input();
        self.composer.suggestions = Vec::new();
        self.composer.suggestion_index = 0;
        assert(self@.composer.suggestions =~= Seq::empty());
        if let Some(text) = question {
            self.notice(text);
        }
    }

    /// Start the inline prompt that collects a pasted API key for a keyed
    /// `web_search` backend.
    pub(crate) fn begin_web_key_prompt(&mut self, backend: &str, label: &str)
        requires
            old(self)@.wf(),
        ensures
            final(self)@ == old(self)@.prompting_web_key(backend@, label@),
            final(self)@.wf(),
    {
        self.composer.web_key_backend = Some(backend.to_string());
        self.composer.input_mode = InputMode::Prompt;
        self.composer.clear_input();
        self.composer.suggestions = Vec::new();
        self.composer.suggestion_index = 0;
        assert(self@.composer.suggestions =~= Seq::empty());
        let mut text = "paste your ".to_string();
        text.append(label);
        text.append(" API key, then Enter (Esc to cancel):");
        self.notice(text);
    }

    /// True when the composer is collecting a masked field (an API key).
    pub fn prompt_is_masked(&self) -> (r: bool)
        ensures
            r == self@.masked(),
    {
        if self.composer.web_key_backend.is_some() {
            return true;
        }
        if self.composer.input_mode != InputMode::Prompt {
            return false;
        }
        match &self.composer.prompt {
            Some(p) => p.queue.len() > 0 && p.queue[0] == PromptField::ApiKey,
            None => false,
        }
    }

    /// Consume the line as the answer to the first prompt field.
    fn submit_prompt_field(&mut self) -> (r: Option<AppAction>)
        requires
            old(self)@.wf(),
            old(self)@.composer.prompt is Some,
        ensures
            (final(self)@, action_opt(r)) == old(self)@.field_submitted(
                old(self)@.composer.prompt->0,
            ),
            final(self)@.wf(),
    {
        let value = trimmed(&self.composer.input);
        match self.composer.prompt.take() {
            Some(prompt) => {
                if prompt.queue.len() == 0 {
                    self.composer.prompt = Some(prompt);
                    return None;
                }
                match prompt.answer(value) {
                    None => {
                        self.cancel_prompt();
                        None
                    },
                    Some(next) => {
                        if next.queue.len() > 0 {
                            let question = prompt_question(next.queue[0], &next);
                            self.composer.prompt = Some(next);
                            self.composer.input = String::new();
                            assert(self@.composer.input =~= Seq::empty());
                            self.composer.cursor = 0;
                            self.notice(question);
                            return None;
                        }
                        self.composer.release();
                        Some(
                            AppAction::Command(
                                SlashCommand::ProviderSetup {
                                    name: next.name,
                                    kind: next.kind,
                                    base_url: next.base_url,
                                    model: next.model,
                                    api_key: next.api_key,
                                },
                            ),
                        )
                    },
                }
            },
            None => None,
        }
    }

    /// Consume the line as a pasted API key; an empty entry cancels.
    fn submit_web_key(&mut self)
        requires
            old(self)@.wf(),
            old(self)@.composer.web_key_backend is Some,
        ensures
            final(self)@ == old(self)@.web_key_submitted(
                old(self)@.composer.web_key_backend->0,
            ),
            final(self)@.wf(),
    {
        let key = trimmed(&self.composer.input);
        if let Some(backend) = self.composer.web_key_backend.take() {
            self.composer.release();
            if is_empty_text(&key) {
                self.notice("cancelled (no key entered)".to_string());
            } else {
                self.ask(Effect::StoreWebKey { backend, key });
            }
        }
    }

    fn submit_line(&mut self) -> (r: Option<AppAction>)
        requires
            old(self)@.wf(),
        ensures
            (final(self)@, action_opt(r)) == old(self)@.line_submitted(),
            final(self)@.wf(),
    {
        let input = trimmed(&self.composer.input);
        if is_empty_text(&input) {
            return None;
        }
        match SlashCommand::parse(&input) {
            Some(Ok(command)) => {
                self.chat.welcome_dismissed = true;
                self.composer.push_history(&input);
                self.composer.clear_input();
                Some(AppAction::Command(command))
            },
            Some(Err(message)) => {
                let word = word_of(&input);
                if is_builtin_command(&word) {
                    self.chat.welcome_dismissed = true;
                    self.composer.push_history(&input);
                    self.composer.clear_input();
                    self.notice(message);
                    None
                } else {
                    self.submit_prompt(input)
                }
            },
            None => self.submit_prompt(input),
        }
    }

    /// Enter pressed: complete the highlighted suggestion if the command is
    /// still partial, then parse the input line into an action.
    pub(crate) fn submit(&mut self) -> (r: Option<AppAction>)
        requires
            old(self)@.wf(),
        ensures
            (final(self)@, action_opt(r)) == old(self)@.submitted(),
            final(self)@.wf(),
    {
        if self.composer.web_key_backend.is_some() {
            self.submit_web_key();
            return None;
        }
        if self.composer.prompt.is_some() {
            return self.submit_prompt_field();
        }
        let (completes, takes_args) = self.composer.completion();
        if completes {
            self.composer.accept_suggestion();
            if takes_args {
                return None;
            }
        }
        self.submit_line()
    }

    /// Queue the first working turn for a freshly set goal.
    pub fn queue_goal_kickoff(&mut self, goal: &str)
        requires
            old(self)@.wf(),
        ensures
            final(self)@ == old(self)@.goal_queued(goal@),
            final(self)@.wf(),
    {
        assert(self@.turn.message_queue.len() == self.turn.message_queue@.len());
        if self.turn.message_queue.len() >= MESSAGE_QUEUE_CAP {
            self.notice(
                "goal saved, but the message queue is full (32) — work will not auto-start; send a message once a turn finishes".to_string(),
            );
            return ;
        }
        let mut kickoff = "A standing goal was just set for this project:\n\n".to_string();
        kickoff.append(goal);
        kickoff.append(
            "\n\nStart working toward it now: break it into concrete steps and begin executing them. Keep going until you reach a natural checkpoint, then summarize the progress made and what remains.",
        );
        self.chat.push(TranscriptEntry::User(kickoff.clone()));
        self.scroll_to_bottom();
        let ghost before = self@;
        let prepared = Preprocessed::text_only(kickoff);
        self.turn.message_queue.push_back(prepared);
        assert(self@.turn.message_queue =~= before.turn.message_queue.push(prepared@));
    }
}

} // verus!
