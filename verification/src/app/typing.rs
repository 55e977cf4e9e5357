//! Keys in the composer: line editing and modal editing.

use crate::app::keys::{KeyCode, KeyEvent};
use crate::app::modal::{lines_down, lines_up};
use crate::app::state::{
    action_opt, ActionView, App, AppAction, AppView, ChatView, Composer, ComposerView, Panels,
    PanelsView, Pending, PendingView,
};
use crate::app::vim_edit::VimStep;
use crate::commands::{CommandView, SlashCommand};
use crate::text::chars_of;
use vstd::prelude::*;

verus! {

impl PanelsView {
    pub open spec fn diff_closed(self) -> PanelsView {
        PanelsView { show_diff: false, diff_scroll: 0, ..self }
    }

    pub open spec fn todos_closed(self) -> PanelsView {
        PanelsView { show_todos: false, ..self }
    }
}

impl Panels {
    fn close_diff(&mut self)
        ensures
            final(self)@ == old(self)@.diff_closed(),
    {
        self.show_diff = false;
        self.diff_scroll = 0;
    }

    fn close_todos(&mut self)
        ensures
            final(self)@ == old(self)@.todos_closed(),
    {
        self.show_todos = false;
    }

    fn scroll_diff(&mut self, down: bool)
        ensures
            final(self)@ == (PanelsView {
                diff_scroll: if down {
                    lines_down(old(self)@.diff_scroll, 10)
                } else {
                    lines_up(old(self)@.diff_scroll, 10)
                },
                ..old(self)@
            }),
    {
        self.diff_scroll = if down {
            self.diff_scroll.saturating_add(10)
        } else {
            self.diff_scroll.saturating_sub(10)
        };
    }
}

impl ComposerView {
    /// The highlight moved a row, around the ends.
    pub open spec fn highlight_moved(self, down: bool) -> ComposerView {
        let n = self.suggestions.len();
        ComposerView {
            suggestion_index: if down {
                if self.suggestion_index + 1 >= n {
                    0
                } else {
                    (self.suggestion_index + 1) as usize
                }
            } else if self.suggestion_index == 0 {
                (n - 1) as usize
            } else {
                (self.suggestion_index - 1) as usize
            },
            ..self
        }
    }

    /// Right: the cursor moves on, or at the end the suggestion is accepted.
    pub open spec fn moved_right(self) -> ComposerView {
        if self.cursor < self.input.len() {
            self.at(self.cursor + 1)
        } else if self.suggestions.len() > 0 {
            self.accepted()
        } else {
            self
        }
    }
}

impl Composer {
    fn move_highlight(&mut self, down: bool)
        requires
            old(self)@.wf(),
            old(self)@.suggestions.len() > 0,
        ensures
            final(self)@ == old(self)@.highlight_moved(down),
            final(self)@.wf(),
    {
        let n = self.suggestions.len();
        assert(self@.suggestions.len() == n);
        self.suggestion_index = if down {
            if self.suggestion_index >= n - 1 {
                0
            } else {
                self.suggestion_index + 1
            }
        } else if self.suggestion_index == 0 {
            n - 1
        } else {
            self.suggestion_index - 1
        };
    }

    fn move_right(&mut self)
        requires
            old(self)@.wf(),
        ensures
            final(self)@ == old(self)@.moved_right(),
            final(self)@.wf(),
    {
        let len = chars_of(&self.input).len();
        assert(self@.suggestions.len() == self.suggestions@.len());
        if self.cursor < len {
            self.cursor += 1;
        } else if self.suggestions.len() > 0 {
            self.accept_suggestion();
        }
    }
}

impl AppView {
    pub open spec fn with_panels(self, panels: PanelsView) -> AppView {
        AppView { panels, ..self }
    }

    /// Esc: the diff sidebar closes first, then the todo band, then the view
    /// returns to the tail; `None` when there was none of these.
    #[verifier::opaque]
    pub open spec fn escaped(self) -> Option<AppView> {
        if self.panels.show_diff {
            Some(self.with_panels(self.panels.diff_closed()))
        } else if self.panels.show_todos {
            Some(self.with_panels(self.panels.todos_closed()))
        } else if !self.chat.scroll_follow {
            Some(self.at_tail())
        } else {
            None
        }
    }

    /// Up or down in the composer: a popup's highlight, the history, or the
    /// rail.
    #[verifier::opaque]
    pub open spec fn arrowed(self, down: bool) -> AppView {
        let c = self.composer;
        if c.suggestions.len() > 0 && c.history_pos is None {
            self.with_composer(c.highlight_moved(down))
        } else if !down {
            self.with_composer(c.recalled_prev())
        } else if c.history_pos is None && self.rail.panes.len() > 0 {
            self.with_rail(self.rail.focused())
        } else {
            self.with_composer(c.recalled_next())
        }
    }

    /// Page up or down: the diff sidebar while it is open, the transcript
    /// otherwise.
    #[verifier::opaque]
    pub open spec fn paged(self, down: bool) -> AppView {
        if self.panels.show_diff {
            self.with_panels(
                PanelsView {
                    diff_scroll: if down {
                        lines_down(self.panels.diff_scroll, 10)
                    } else {
                        lines_up(self.panels.diff_scroll, 10)
                    },
                    ..self.panels
                },
            )
        } else {
            self.with_chat(
                self.chat.scrolled_by(
                    if down {
                        (-10) as i16
                    } else {
                        10
                    },
                ),
            )
        }
    }

    /// A character key: Ctrl-G asks for an editor unless a secret is being
    /// typed, other chords do nothing, a plain one is typed.
    #[verifier::opaque]
    pub open spec fn typed(self, key: KeyEvent, c: char) -> AppView {
        if c == 'g' && key.modifiers.control && !self.masked() {
            self.with_pending(PendingView { edit_prompt: true, ..self.pending })
        } else if key.is_plain() {
            self.with_composer(self.composer.inserted(seq![c]))
        } else {
            self
        }
    }

    /// Esc in the composer; with nothing to close, the line is emptied.
    pub open spec fn composer_escaped(self) -> AppView {
        match self.escaped() {
            Some(s) => s,
            None => self.with_composer(self.composer.emptied()),
        }
    }

    /// Tab: the suggestion is accepted, or the `@path` completed.
    pub open spec fn tabbed(self) -> AppView {
        if self.composer.suggestions.len() > 0 {
            self.with_composer(self.composer.accepted())
        } else {
            self.completing()
        }
    }

    /// A key in the composer, before the input mode follows the text.
    #[verifier::opaque]
    pub open spec fn line_keyed(self, key: KeyEvent) -> (AppView, Option<ActionView>) {
        let c = self.composer;
        match key.code {
            KeyCode::Enter => if key.modifiers.shift || key.modifiers.alt {
                (self.with_composer(c.inserted(seq!['\n'])), None)
            } else {
                self.submitted()
            },
            KeyCode::Backspace => (self.with_composer(c.deleted_back()), None),
            KeyCode::Delete => (self.with_composer(c.deleted_forward()), None),
            KeyCode::Left => (
                self.with_composer(
                    c.at(
                        if c.cursor == 0 {
                            0
                        } else {
                            c.cursor - 1
                        },
                    ),
                ),
                None,
            ),
            KeyCode::Right => (self.with_composer(c.moved_right()), None),
            KeyCode::Home => (self.with_composer(c.at(0)), None),
            KeyCode::End => (self.with_composer(c.at(c.input.len() as int)), None),
            KeyCode::Tab => (self.tabbed(), None),
            KeyCode::BackTab => (
                self.with_chat(ChatView { welcome_dismissed: true, ..self.chat }),
                Some(ActionView::Command(CommandView::Plan)),
            ),
            KeyCode::Esc => (self.composer_escaped(), None),
            KeyCode::PageUp => (self.paged(false), None),
            KeyCode::PageDown => (self.paged(true), None),
            KeyCode::Up => (self.arrowed(false), None),
            KeyCode::Down => (self.arrowed(true), None),
            KeyCode::Char(ch) => (self.typed(key, ch), None),
            KeyCode::Other => (self, None),
        }
    }

    /// A key in the composer.
    pub open spec fn line_key(self, key: KeyEvent) -> (AppView, Option<ActionView>) {
        let (s, action) = self.line_keyed(key);
        (s.resynced(), action)
    }

    /// A key in Normal mode, before the input mode follows the text.
    #[verifier::opaque]
    pub open spec fn normal_keyed(self, key: KeyEvent) -> (AppView, Option<ActionView>) {
        let (composer, step) = self.composer.vim_key(key);
        let s = self.with_composer(composer);
        match step {
            VimStep::Done => (s, None),
            VimStep::FocusRail => (s.with_rail(s.rail.focused()), None),
            VimStep::Submit => s.submitted(),
            VimStep::Escape => (
                match s.escaped() {
                    Some(t) => t,
                    None => s,
                },
                None,
            ),
            VimStep::Scroll(n) => (s.with_chat(s.chat.scrolled_by(n)), None),
        }
    }

    /// A key in Normal mode.
    pub open spec fn normal_key(self, key: KeyEvent) -> (AppView, Option<ActionView>) {
        let (s, action) = self.normal_keyed(key);
        (s.resynced(), action)
    }
}

impl Pending {
    fn want_editor(&mut self)
        ensures
            final(self)@ == (PendingView { edit_prompt: true, ..old(self)@ }),
    {
        self.edit_prompt = true;
    }
}

impl App {
    /// Esc's escape hatches; the result says whether one was taken.
    fn escape(&mut self) -> (taken: bool)
        requires
            old(self)@.wf(),
        ensures
            taken ==> old(self)@.escaped() == Some(final(self)@),
            !taken ==> old(self)@.escaped() is None && final(self)@ == old(self)@,
            final(self)@.wf(),
    {
        proof {
            reveal(AppView::escaped);
        }
        if self.panels.show_diff {
            self.panels.close_diff();
            true
        } else if self.panels.show_todos {
            self.panels.close_todos();
            true
        } else if !self.chat.scroll_follow {
            self.scroll_to_bottom();
            true
        } else {
            false
        }
    }

    fn arrow(&mut self, down: bool)
        requires
            old(self)@.wf(),
        ensures
            final(self)@ == old(self)@.arrowed(down),
            final(self)@.wf(),
    {
        proof {
            reveal(AppView::arrowed);
        }
        assert(self@.composer.suggestions.len() == self.composer.suggestions@.len());
        assert(self@.rail.panes.len() == self.rail.panes@.len());
        if self.composer.suggestions.len() > 0 && self.composer.history_pos.is_none() {
            self.composer.move_highlight(down);
        } else if !down {
            self.composer.history_prev();
        } else if self.composer.history_pos.is_none() && self.rail.panes.len() > 0 {
            self.rail.focus_rail();
        } else {
            self.composer.history_next();
        }
    }

    fn page(&mut self, down: bool)
        requires
            old(self)@.wf(),
        ensures
            final(self)@ == old(self)@.paged(down),
            final(self)@.wf(),
    {
        proof {
            reveal(AppView::paged);
        }
        if self.panels.show_diff {
            self.panels.scroll_diff(down);
        } else if down {
            self.chat.scroll_transcript(-10);
        } else {
            self.chat.scroll_transcript(10);
        }
    }

    fn type_char(&mut self, key: KeyEvent, c: char)
        requires
            old(self)@.wf(),
        ensures
            final(self)@ == old(self)@.typed(key, c),
            final(self)@.wf(),
    {
        proof {
            reveal(AppView::typed);
        }
        if c == 'g' && key.modifiers.control && !self.prompt_is_masked() {
            self.pending.want_editor();
        } else if key.plain() {
            self.composer.insert_char(c);
        }
    }

    fn press_escape(&mut self)
        requires
            old(self)@.wf(),
        ensures
            final(self)@ == old(self)@.composer_escaped(),
            final(self)@.wf(),
    {
        let taken = self.escape();
        if !taken {
            self.composer.clear_input();
        }
    }

    fn press_tab(&mut self)
        requires
            old(self)@.wf(),
        ensures
            final(self)@ == old(self)@.tabbed(),
            final(self)@.wf(),
    {
        assert(self@.composer.suggestions.len() == self.composer.suggestions@.len());
        if self.composer.suggestions.len() > 0 {
            self.composer.accept_suggestion();
        } else {
            self.complete_at_path();
        }
    }

    fn edit_line(&mut self, key: KeyEvent) -> (r: Option<AppAction>)
        requires
            old(self)@.wf(),
        ensures
            (final(self)@, action_opt(r)) == old(self)@.line_keyed(key),
            final(self)@.wf(),
    {
        proof {
            reveal(AppView::line_keyed);
        }
        match key.code {
            KeyCode::Enter => {
                if key.modifiers.shift || key.modifiers.alt {
                    self.composer.insert_newline();
                    return None;
                }
                return self.submit();
            },
            KeyCode::Backspace => {
                self.composer.delete_back();
            },
            KeyCode::Delete => {
                self.composer.delete_forward();
            },
            KeyCode::Left => {
                self.composer.cursor = self.composer.cursor.saturating_sub(1);
            },
            KeyCode::Right => {
                self.composer.move_right();
            },
            KeyCode::Home => {
                self.composer.cursor = 0;
            },
            KeyCode::End => {
                self.composer.cursor = chars_of(&self.composer.input).len();
            },
            KeyCode::Tab => {
                self.press_tab();
            },
            KeyCode::BackTab => {
                self.chat.welcome_dismissed = true;
                return Some(AppAction::Command(SlashCommand::Plan));
            },
            KeyCode::Esc => {
                self.press_escape();
            },
            KeyCode::PageUp => {
                self.page(false);
            },
            KeyCode::PageDown => {
                self.page(true);
            },
            KeyCode::Up => {
                self.arrow(false);
            },
            KeyCode::Down => {
                self.arrow(true);
            },
            KeyCode::Char(c) => {
                self.type_char(key, c);
            },
            KeyCode::Other => {},
        }
        None
    }

    /// A key for ordinary line editing.
    pub(crate) fn handle_line_key(&mut self, key: KeyEvent) -> (r: Option<AppAction>)
        requires
            old(self)@.wf(),
        ensures
            (final(self)@, action_opt(r)) == old(self)@.line_key(key),
            final(self)@.wf(),
    {
        let action = self.edit_line(key);
        self.composer.sync_input_mode();
        action
    }

    fn edit_normal(&mut self, key: KeyEvent) -> (r: Option<AppAction>)
        requires
            old(self)@.wf(),
        ensures
            (final(self)@, action_opt(r)) == old(self)@.normal_keyed(key),
            final(self)@.wf(),
    {
        proof {
            reveal(AppView::normal_keyed);
        }
        let step = self.composer.vim_key(key);
        match step {
            VimStep::Done => None,
            VimStep::FocusRail => {
                self.rail.focus_rail();
                None
            },
            VimStep::Submit => self.submit(),
            VimStep::Escape => {
                self.escape();
                None
            },
            VimStep::Scroll(n) => {
                self.chat.scroll_transcript(n);
                None
            },
        }
    }

    /// Handle one key in Normal mode.  Returns an action only for keys that
    /// submit.
    pub(crate) fn handle_vim_normal(&mut self, key: KeyEvent) -> (r: Option<AppAction>)
        requires
            old(self)@.wf(),
        ensures
            (final(self)@, action_opt(r)) == old(self)@.normal_key(key),
            final(self)@.wf(),
    {
        let action = self.edit_normal(key);
        self.composer.sync_input_mode();
        action
    }
}

} // verus!
