//! The merged event stream, and where each key goes.

use crate::app::agent::{AgentEvent, AgentEventView};
use crate::app::keys::{KeyCode, KeyEvent, KeyEventKind, MouseEvent, MouseEventKind};
use crate::app::picker::Selection;
use crate::app::state::{
    action_opt, ActionView, App, AppAction, AppView, Chat, ChatView, Effect, EffectView,
};
use crate::app::vim::VimMode;
use vstd::prelude::*;

verus! {

/// What became of an agent rebuild (a model switch, a recovery).
#[derive(Debug, PartialEq, Eq)]
pub struct AgentRebuild {
    /// An agent came back for the main loop's slot.
    pub agent: bool,
    /// On a successful model switch, the tag to record.
    pub model: Option<String>,
    /// Notice appended to the transcript.
    pub notice: String,
}

/// One event of the merged stream.
pub enum Event {
    Key(KeyEvent),
    Mouse(MouseEvent),
    Paste(String),
    Resize(u16, u16),
    Tick,
    Agent(AgentEvent),
    Notice(String),
    /// Handled by the main loop, which owns the agent.
    AgentRebuilt(AgentRebuild),
    /// Handled by the main loop.
    ProviderActivated(String),
    /// Handled by the main loop.
    McpConnected,
    /// Handled by the main loop.
    ProviderHealthFailed(String),
    /// Handled by the main loop.
    BtwFinished,
}

/// What an [`Event`] says; `Elsewhere` is one the state has no part in.
pub enum EventView {
    Key(KeyEvent),
    Mouse(MouseEvent),
    Paste(Seq<char>),
    Tick,
    Agent(AgentEventView),
    Notice(Seq<char>),
    Elsewhere,
}

impl View for Event {
    type V = EventView;

    open spec fn view(&self) -> EventView {
        match self {
            Event::Key(k) => EventView::Key(*k),
            Event::Mouse(m) => EventView::Mouse(*m),
            Event::Paste(t) => EventView::Paste(t@),
            Event::Tick => EventView::Tick,
            Event::Agent(e) => EventView::Agent(e@),
            Event::Notice(t) => EventView::Notice(t@),
            _ => EventView::Elsewhere,
        }
    }
}

impl ChatView {
    /// The mouse did something over the transcript.  Scrolling moves it and
    /// drops the selection; a drag selects; a click without one toggles the
    /// card under it.
    pub open spec fn moused(self, m: MouseEvent) -> (ChatView, bool) {
        let cell = (m.column, m.row);
        match m.kind {
            MouseEventKind::ScrollUp => (
                ChatView { selection: None, ..self.scrolled_by(3) },
                false,
            ),
            MouseEventKind::ScrollDown => (
                ChatView { selection: None, ..self.scrolled_by((-3) as i16) },
                false,
            ),
            MouseEventKind::LeftDown => (
                ChatView {
                    selection: Some(Selection { anchor: cell, head: cell, dragging: true }),
                    ..self
                },
                false,
            ),
            MouseEventKind::LeftDrag => match self.selection {
                Some(sel) => (
                    ChatView { selection: Some(Selection { head: cell, ..sel }), ..self },
                    false,
                ),
                None => (self, false),
            },
            MouseEventKind::LeftUp => match self.selection {
                Some(sel) => if sel.anchor == cell {
                    (ChatView { selection: None, ..self }.card_flipped_at(m.row), false)
                } else {
                    (
                        ChatView {
                            selection: Some(Selection { head: cell, dragging: false, ..sel }),
                            ..self
                        },
                        true,
                    )
                },
                None => (self, false),
            },
            MouseEventKind::Other => (self, false),
        }
    }
}

impl AppView {
    /// The key goes to the composer, or to what is open over it: a plan
    /// review, an interview, a menu, an inline prompt that Esc cancels.
    #[verifier::opaque]
    pub open spec fn composer_key(self, key: KeyEvent) -> (AppView, Option<ActionView>) {
        let c = self.composer;
        if self.planning.plan_review is Some {
            (self.review_key(key, self.planning.plan_review->0), None)
        } else if self.planning.interview is Some {
            (self.interview_key(key, self.planning.interview->0), None)
        } else if c.picker is Some {
            self.picker_key(key, c.picker->0)
        } else if (c.prompt is Some || c.web_key_backend is Some) && key.code == KeyCode::Esc {
            (self.prompt_cancelled(), None)
        } else if c.vim.enabled && c.vim.mode == VimMode::Normal {
            self.normal_key(key)
        } else if c.vim.enabled && key.code == KeyCode::Esc && key.is_plain() {
            (self.with_composer(c.to_normal()), None)
        } else {
            self.line_key(key)
        }
    }

    /// The key goes to the open pane, to the rail that has the focus, or to
    /// the composer.
    #[verifier::opaque]
    pub open spec fn screen_key(self, key: KeyEvent) -> (AppView, Option<ActionView>) {
        match self.rail.attached {
            Some(i) => match self.pane_key(key, i) {
                Some(s) => (s, None),
                None => self.composer_key(key),
            },
            None => match self.rail.rail_focus {
                Some(i) => match self.rail_key(key, i) {
                    Some(s) => (s, None),
                    None => self.unfocused().composer_key(key),
                },
                None => self.composer_key(key),
            },
        }
    }

    /// A key.  A release does nothing; a global chord comes first, then the
    /// dashboard, then what is on the screen.
    #[verifier::opaque]
    pub open spec fn key(self, key: KeyEvent) -> (AppView, Option<ActionView>) {
        if key.kind == KeyEventKind::Release {
            (self, None)
        } else {
            let s = self.touched(key);
            if key.modifiers.control && s.chord(key.code) is Some {
                s.chord(key.code)->0
            } else if s.dashboard.open {
                (s.dashboard_key(key), None)
            } else {
                s.screen_key(key)
            }
        }
    }

    /// A tick: an open dashboard is refreshed now and then, and finished runs
    /// age off the rail.
    #[verifier::opaque]
    pub open spec fn ticked(self) -> AppView {
        let t = (self.tick + 1) % 0x1_0000_0000_0000_0000;
        let s = AppView { tick: t as u64, ..self };
        let listed = if s.dashboard.open && t % 4 == 0 {
            s.asking(EffectView::RefreshSessions)
        } else {
            s
        };
        let peeked = if s.dashboard.open && t % 10 == 0 {
            listed.asking(EffectView::RefreshPeek)
        } else {
            listed
        };
        peeked.with_rail(peeked.rail.retired(peeked.now))
    }

    /// The mouse did something.
    pub open spec fn mouse(self, m: MouseEvent) -> (AppView, Option<ActionView>) {
        let (chat, copy) = self.chat.moused(m);
        (
            self.with_chat(chat),
            if copy {
                Some(ActionView::CopySelection)
            } else {
                None
            },
        )
    }

    /// One event.
    pub open spec fn event(self, event: EventView) -> (AppView, Option<ActionView>) {
        match event {
            EventView::Key(k) => self.key(k),
            EventView::Mouse(m) => self.mouse(m),
            EventView::Paste(t) => (self.pasted_text(t), None),
            EventView::Tick => (self.ticked(), None),
            EventView::Agent(e) => (self.agent_event(e), None),
            EventView::Notice(t) => (self.noticed(t), None),
            EventView::Elsewhere => (self, None),
        }
    }
}

impl Chat {
    fn handle_mouse(&mut self, m: MouseEvent) -> (copy: bool)
        ensures
            (final(self)@, copy) == old(self)@.moused(m),
    {
        let cell = (m.column, m.row);
        match m.kind {
            MouseEventKind::ScrollUp => {
                self.scroll_transcript(3);
                self.selection = None;
                false
            },
            MouseEventKind::ScrollDown => {
                self.scroll_transcript(-3);
                self.selection = None;
                false
            },
            MouseEventKind::LeftDown => {
                self.selection = Some(Selection { anchor: cell, head: cell, dragging: true });
                false
            },
            MouseEventKind::LeftDrag => {
                if let Some(sel) = self.selection {
                    self.selection = Some(
                        Selection { anchor: sel.anchor, head: cell, dragging: sel.dragging },
                    );
                }
                false
            },
            MouseEventKind::LeftUp => {
                if let Some(sel) = self.selection {
                    let ended = Selection { anchor: sel.anchor, head: cell, dragging: false };
                    if ended.is_empty() {
                        self.selection = None;
                        self.toggle_card_at(m.row);
                        false
                    } else {
                        self.selection = Some(ended);
                        true
                    }
                } else {
                    false
                }
            },
            MouseEventKind::Other => false,
        }
    }
}

impl App {
    fn handle_composer_key(&mut self, key: KeyEvent) -> (r: Option<AppAction>)
        requires
            old(self)@.wf(),
        ensures
            (final(self)@, action_opt(r)) == old(self)@.composer_key(key),
            final(self)@.wf(),
    {
        proof {
            reveal(AppView::composer_key);
        }
        if self.planning.plan_review.is_some() {
            self.handle_plan_review_key(key);
            return None;
        }
        if self.planning.interview.is_some() {
            self.handle_interview_key(key);
            return None;
        }
        if self.composer.picker.is_some() {
            return self.handle_picker_key(key);
        }
        if (self.composer.prompt.is_some() || self.composer.web_key_backend.is_some()) && key.code
            == KeyCode::Esc {
            self.cancel_prompt();
            return None;
        }
        if self.composer.vim.enabled {
            if self.composer.vim.mode == VimMode::Normal {
                return self.handle_vim_normal(key);
            }
            if key.code == KeyCode::Esc && key.plain() {
                self.composer.enter_normal_mode();
                return None;
            }
        }
        self.handle_line_key(key)
    }

    fn handle_screen_key(&mut self, key: KeyEvent) -> (r: Option<AppAction>)
        requires
            old(self)@.wf(),
        ensures
            (final(self)@, action_opt(r)) == old(self)@.screen_key(key),
            final(self)@.wf(),
    {
        proof {
            reveal(AppView::screen_key);
        }
        if let Some(i) = self.rail.attached {
            if self.handle_pane_key(key, i) {
                return None;
            }
            return self.handle_composer_key(key);
        }
        if let Some(i) = self.rail.rail_focus {
            if self.handle_rail_key(key, i) {
                return None;
            }
        }
        self.handle_composer_key(key)
    }

    /// Keyboard handling for the current input mode.  Priority: global
    /// chords, the dashboard, an open pane, the rail, then the composer and
    /// what is open over it.
    pub fn handle_key(&mut self, key: KeyEvent) -> (r: Option<AppAction>)
        requires
            old(self)@.wf(),
        ensures
            (final(self)@, action_opt(r)) == old(self)@.key(key),
            final(self)@.wf(),
    {
        proof {
            reveal(AppView::key);
        }
        if key.kind == KeyEventKind::Release {
            return None;
        }
        self.touch(key);
        if key.modifiers.control {
            let chord = self.handle_chord(key.code);
            if let Some(action) = chord {
                return action;
            }
        }
        if self.dashboard.open {
            self.handle_dashboard_key(key);
            return None;
        }
        self.handle_screen_key(key)
    }

    fn handle_tick(&mut self)
        requires
            old(self)@.wf(),
        ensures
            final(self)@ == old(self)@.ticked(),
            final(self)@.wf(),
    {
        proof {
            reveal(AppView::ticked);
        }
        let t = self.tick.wrapping_add(1);
        self.tick = t;
        if self.dashboard.open && t % 4 == 0 {
            self.ask(Effect::RefreshSessions);
        }
        if self.dashboard.open && t % 10 == 0 {
            self.ask(Effect::RefreshPeek);
        }
        let now = self.now;
        self.rail.retire_finished_panes(now);
    }

    /// Dispatch one event from the merged stream.  Returns the user action
    /// the main loop must perform.
    pub fn handle_event(&mut self, event: Event) -> (r: Option<AppAction>)
        requires
            old(self)@.wf(),
        ensures
            (final(self)@, action_opt(r)) == old(self)@.event(event@),
            final(self)@.wf(),
    {
        match event {
            Event::Key(key) => self.handle_key(key),
            Event::Mouse(mouse) => {
                if self.chat.handle_mouse(mouse) {
                    Some(AppAction::CopySelection)
                } else {
                    None
                }
            },
            Event::Paste(text) => {
                self.handle_paste(&text);
                None
            },
            Event::Tick => {
                self.handle_tick();
                None
            },
            Event::Agent(e) => {
                self.handle_agent_event(e);
                None
            },
            Event::Notice(message) => {
                self.notice(message);
                None
            },
            _ => None,
        }
    }
}

} // verus!
