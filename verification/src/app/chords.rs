//! Keys that do not reach the composer: global chords, the dashboard, an open
//! pane, and the rail.

use crate::app::keys::{KeyCode, KeyEvent};
use crate::app::state::{
    action_opt, ActionView, App, AppAction, AppView, Chat, ChatView, Composer, ComposerView,
    DashboardView, Effect, EffectView, Pending, PendingView, RailView,
};
use crate::commands::{CommandView, SlashCommand};
use crate::text::{chars_of, is_empty_text, pop_char, popped, slice_text, trim, trimmed};
use vstd::prelude::*;

verus! {

impl ComposerView {
    /// The text before the cursor gone.
    pub open spec fn head_killed(self) -> ComposerView {
        ComposerView { input: self.input.skip(self.cursor as int), cursor: 0, ..self }
    }

    /// The text behind the cursor gone.
    pub open spec fn tail_killed(self) -> ComposerView {
        ComposerView { input: self.input.take(self.cursor as int), ..self }
    }
}

impl KeyEvent {
    pub open spec fn is_ctrl_c(self) -> bool {
        self.modifiers.control && self.code == KeyCode::Char('c')
    }
}

impl AppView {
    pub open spec fn with_pending(self, pending: PendingView) -> AppView {
        AppView { pending, ..self }
    }

    /// Any key: a text selection goes, and any but Ctrl-C disarms the exit.
    pub open spec fn touched(self, key: KeyEvent) -> AppView {
        self.with_chat(ChatView { selection: None, ..self.chat }).with_pending(
            PendingView {
                ctrl_c_armed: self.pending.ctrl_c_armed && key.is_ctrl_c(),
                ..self.pending
            },
        )
    }

    /// Ctrl-C: a second one exits; the first interrupts a running turn.
    pub open spec fn ctrl_c(self) -> (AppView, Option<ActionView>) {
        if self.pending.ctrl_c_armed {
            (self.with_pending(PendingView { should_quit: true, ..self.pending }), None)
        } else {
            let s = self.with_pending(PendingView { ctrl_c_armed: true, ..self.pending });
            if self.turn.status.busy {
                (
                    s.noticed("interrupting… (Ctrl-C again to exit)"@),
                    Some(ActionView::Interrupt),
                )
            } else {
                (s.noticed("press Ctrl-C again to exit"@), None)
            }
        }
    }

    /// What a key means with Ctrl held, whatever else is going on; `None` when
    /// it has no such meaning.
    #[verifier::opaque]
    pub open spec fn chord(self, code: KeyCode) -> Option<(AppView, Option<ActionView>)> {
        match code {
            KeyCode::Char('c') => Some(self.ctrl_c()),
            KeyCode::Char('d') => Some(
                (self.with_pending(PendingView { should_quit: true, ..self.pending }), None),
            ),
            KeyCode::End => Some((self.at_tail(), None)),
            KeyCode::Char('u') => Some(
                (self.with_composer(self.composer.head_killed().synced()), None),
            ),
            KeyCode::Char('w') => Some(
                (self.with_composer(self.composer.word_deleted().synced()), None),
            ),
            KeyCode::Char('a') => Some((self.with_composer(self.composer.at(0)), None)),
            KeyCode::Char('e') => Some(
                (self.with_composer(self.composer.at(self.composer.input.len() as int)), None),
            ),
            KeyCode::Char('k') => Some(
                (self.with_composer(self.composer.tail_killed().synced()), None),
            ),
            KeyCode::Char('t') => Some((self.with_chat(self.chat.last_card_flipped()), None)),
            KeyCode::Char('v') => if self.masked() {
                None
            } else {
                Some((self.asking(EffectView::ReadClipboard { explicit: true }), None))
            },
            KeyCode::Char('p') => Some(
                (
                    self,
                    if self.turn.status.busy {
                        None
                    } else {
                        Some(ActionView::Command(CommandView::Model(None)))
                    },
                ),
            ),
            _ => None,
        }
    }

    /// A key while the dashboard is open.
    #[verifier::opaque]
    pub open spec fn dashboard_key(self, key: KeyEvent) -> AppView {
        let d = self.dashboard;
        match key.code {
            KeyCode::Up => self.session_moved(false),
            KeyCode::BackTab => self.session_moved(false),
            KeyCode::Down => self.session_moved(true),
            KeyCode::Tab => self.session_moved(true),
            KeyCode::Enter => {
                let prompt = trim(d.input);
                if prompt.len() == 0 {
                    self
                } else {
                    self.with_dashboard(DashboardView { input: Seq::empty(), ..d }).asking(
                        EffectView::DispatchSession(prompt),
                    )
                }
            },
            KeyCode::Backspace => self.with_dashboard(
                DashboardView { input: popped(d.input), ..d },
            ),
            KeyCode::Esc => self.with_dashboard(
                if d.input.len() == 0 {
                    DashboardView { open: false, ..d }
                } else {
                    DashboardView { input: Seq::empty(), ..d }
                },
            ),
            KeyCode::Char(c) => if !key.modifiers.control {
                self.with_dashboard(DashboardView { input: d.input.push(c), ..d })
            } else if c == 'x' {
                self.session_stopping()
            } else {
                self
            },
            _ => self,
        }
    }

    /// A key inside the pane at `index`; `None` lets the composer have it.
    #[verifier::opaque]
    pub open spec fn pane_key(self, key: KeyEvent, index: usize) -> Option<AppView> {
        let moves = self.composer.vim.normal() && key.is_plain();
        match key.code {
            KeyCode::Esc => Some(self.with_rail(self.rail.left(self.now))),
            KeyCode::Up => Some(
                self.with_rail(
                    if key.modifiers.shift {
                        self.rail.pane_scrolled(index, 1)
                    } else {
                        self.rail.stepped(index, false)
                    },
                ),
            ),
            KeyCode::Down => Some(
                self.with_rail(
                    if key.modifiers.shift {
                        self.rail.pane_scrolled(index, (-1) as i16)
                    } else {
                        self.rail.stepped(index, true)
                    },
                ),
            ),
            KeyCode::PageUp => Some(self.with_rail(self.rail.pane_scrolled(index, 10))),
            KeyCode::PageDown => Some(
                self.with_rail(self.rail.pane_scrolled(index, (-10) as i16)),
            ),
            KeyCode::Char(c) => if c == 'k' && moves {
                Some(self.with_rail(self.rail.stepped(index, false)))
            } else if c == 'j' && moves {
                Some(self.with_rail(self.rail.stepped(index, true)))
            } else if c == 'x' && key.modifiers.control {
                Some(self.killing(index))
            } else {
                None
            },
            _ => None,
        }
    }

    /// A key on the rail at `index`; `None` hands it, and the focus, to the
    /// composer.
    #[verifier::opaque]
    pub open spec fn rail_key(self, key: KeyEvent, index: usize) -> Option<AppView> {
        let moves = self.composer.vim.normal() && key.is_plain();
        match key.code {
            KeyCode::Up => Some(self.with_rail(self.rail.moved(false))),
            KeyCode::Down => Some(self.with_rail(self.rail.moved(true))),
            KeyCode::Enter => Some(self.with_rail(self.rail.inside(index))),
            KeyCode::Esc => Some(self.unfocused()),
            KeyCode::Char(c) => if c == 'k' && moves {
                Some(self.with_rail(self.rail.moved(false)))
            } else if c == 'j' && moves {
                Some(self.with_rail(self.rail.moved(true)))
            } else if c == 'x' && key.modifiers.control {
                Some(self.killing(index))
            } else {
                None
            },
            _ => None,
        }
    }

    /// The focus back in the composer.
    pub open spec fn unfocused(self) -> AppView {
        self.with_rail(RailView { rail_focus: None, ..self.rail })
    }
}

impl Composer {
    fn kill_head(&mut self)
        requires
            old(self)@.wf(),
        ensures
            final(self)@ == old(self)@.head_killed(),
            final(self)@.wf(),
    {
        let cs = chars_of(&self.input);
        self.input = slice_text(&cs, self.cursor, cs.len());
        assert(self@.input =~= old(self)@.input.skip(old(self)@.cursor as int));
        self.cursor = 0;
    }

    fn kill_tail(&mut self)
        requires
            old(self)@.wf(),
        ensures
            final(self)@ == old(self)@.tail_killed(),
            final(self)@.wf(),
    {
        let cs = chars_of(&self.input);
        self.input = slice_text(&cs, 0, self.cursor);
        assert(self@.input =~= old(self)@.input.take(old(self)@.cursor as int));
    }
}

impl Chat {
    fn deselect(&mut self)
        ensures
            final(self)@ == (ChatView { selection: None, ..old(self)@ }),
    {
        self.selection = None;
    }
}

impl Pending {
    fn arm(&mut self, armed: bool)
        ensures
            final(self)@ == (PendingView { ctrl_c_armed: armed, ..old(self)@ }),
    {
        self.ctrl_c_armed = armed;
    }
}

/// A chord's effect: whether it had one, and the action it asks for.
pub open spec fn chord_view(r: Option<Option<AppAction>>, s: AppView) -> Option<
    (AppView, Option<ActionView>),
> {
    match r {
        Some(a) => Some((s, action_opt(a))),
        None => None,
    }
}

impl App {
    pub(crate) fn touch(&mut self, key: KeyEvent)
        requires
            old(self)@.wf(),
        ensures
            final(self)@ == old(self)@.touched(key),
            final(self)@.wf(),
    {
        let armed = self.pending.ctrl_c_armed && key.modifiers.control && key.code
            == KeyCode::Char('c');
        self.chat.deselect();
        self.pending.arm(armed);
    }

    fn press_ctrl_c(&mut self) -> (r: Option<AppAction>)
        requires
            old(self)@.wf(),
        ensures
            (final(self)@, action_opt(r)) == old(self)@.ctrl_c(),
            final(self)@.wf(),
    {
        if self.pending.ctrl_c_armed {
            self.pending.should_quit = true;
            return None;
        }
        self.pending.ctrl_c_armed = true;
        if self.turn.status.busy {
            self.notice("interrupting… (Ctrl-C again to exit)".to_string());
            return Some(AppAction::Interrupt);
        }
        self.notice("press Ctrl-C again to exit".to_string());
        None
    }

    /// A key with Ctrl held; `None` when it has no global meaning.
    pub(crate) fn handle_chord(&mut self, code: KeyCode) -> (r: Option<Option<AppAction>>)
        requires
            old(self)@.wf(),
        ensures
            chord_view(r, final(self)@) == old(self)@.chord(code),
            r is None ==> final(self)@ == old(self)@,
            final(self)@.wf(),
    {
        proof {
            reveal(AppView::chord);
        }
        match code {
            KeyCode::Char('c') => {
                let action = self.press_ctrl_c();
                Some(action)
            },
            KeyCode::Char('d') => {
                self.pending.should_quit = true;
                Some(None)
            },
            KeyCode::End => {
                self.scroll_to_bottom();
                Some(None)
            },
            KeyCode::Char('u') => {
                self.composer.kill_head();
                self.composer.sync_input_mode();
                Some(None)
            },
            KeyCode::Char('w') => {
                self.composer.delete_word_back();
                self.composer.sync_input_mode();
                Some(None)
            },
            KeyCode::Char('a') => {
                self.composer.cursor = 0;
                Some(None)
            },
            KeyCode::Char('e') => {
                self.composer.cursor = chars_of(&self.composer.input).len();
                Some(None)
            },
            KeyCode::Char('k') => {
                self.composer.kill_tail();
                self.composer.sync_input_mode();
                Some(None)
            },
            KeyCode::Char('t') => {
                self.chat.toggle_last_tool_card();
                Some(None)
            },
            KeyCode::Char('v') => {
                if self.prompt_is_masked() {
                    return None;
                }
                self.ask(Effect::ReadClipboard { explicit: true });
                Some(None)
            },
            KeyCode::Char('p') => {
                if self.turn.status.busy {
                    Some(None)
                } else {
                    Some(Some(AppAction::Command(SlashCommand::Model(None))))
                }
            },
            _ => None,
        }
    }

    /// A key while the dashboard is open: arrows move the selection, typing
    /// fills the dispatch input, Enter dispatches, Ctrl-X stops the selected
    /// session, Esc clears the input or closes.
    pub(crate) fn handle_dashboard_key(&mut self, key: KeyEvent)
        requires
            old(self)@.wf(),
        ensures
            final(self)@ == old(self)@.dashboard_key(key),
            final(self)@.wf(),
    {
        proof {
            reveal(AppView::dashboard_key);
        }
        match key.code {
            KeyCode::Up | KeyCode::BackTab => {
                self.dashboard_select(false);
            },
            KeyCode::Down | KeyCode::Tab => {
                self.dashboard_select(true);
            },
            KeyCode::Enter => {
                let prompt = trimmed(&self.dashboard.input);
                if !is_empty_text(&prompt) {
                    self.dashboard.input = String::new();
                    assert(self@.dashboard.input =~= Seq::empty());
                    self.ask(Effect::DispatchSession(prompt));
                }
            },
            KeyCode::Backspace => {
                self.dashboard.input = pop_char(&self.dashboard.input);
            },
            KeyCode::Esc => {
                if is_empty_text(&self.dashboard.input) {
                    self.dashboard.open = false;
                } else {
                    self.dashboard.input = String::new();
                    assert(self@.dashboard.input =~= Seq::empty());
                }
            },
            KeyCode::Char(c) => {
                if !key.modifiers.control {
                    self.dashboard.input.push(c);
                } else if c == 'x' {
                    self.stop_selected_session();
                }
            },
            _ => {},
        }
    }

    /// A key inside a subagent's pane.  Navigation belongs to the pane; the
    /// result says whether the key was taken.
    pub(crate) fn handle_pane_key(&mut self, key: KeyEvent, index: usize) -> (taken: bool)
        requires
            old(self)@.wf(),
        ensures
            taken ==> old(self)@.pane_key(key, index) == Some(final(self)@),
            !taken ==> old(self)@.pane_key(key, index) is None && final(self)@ == old(self)@,
            final(self)@.wf(),
    {
        proof {
            reveal(AppView::pane_key);
        }
        let moves = self.composer.vim.is_normal() && key.plain();
        match key.code {
            KeyCode::Esc => {
                let now = self.now;
                self.rail.detach_pane(now);
                true
            },
            KeyCode::Up => {
                if key.modifiers.shift {
                    self.rail.scroll_pane(index, 1);
                } else {
                    self.rail.step_pane(index, false);
                }
                true
            },
            KeyCode::Down => {
                if key.modifiers.shift {
                    self.rail.scroll_pane(index, -1);
                } else {
                    self.rail.step_pane(index, true);
                }
                true
            },
            KeyCode::PageUp => {
                self.rail.scroll_pane(index, 10);
                true
            },
            KeyCode::PageDown => {
                self.rail.scroll_pane(index, -10);
                true
            },
            KeyCode::Char(c) => {
                if c == 'k' && moves {
                    self.rail.step_pane(index, false);
                    true
                } else if c == 'j' && moves {
                    self.rail.step_pane(index, true);
                    true
                } else if c == 'x' && key.modifiers.control {
                    self.kill_pane(index);
                    true
                } else {
                    false
                }
            },
            _ => false,
        }
    }

    /// A key while the rail has the focus.  A key the rail has no use for
    /// hands the focus back to the composer, so that no keystroke is lost.
    pub(crate) fn handle_rail_key(&mut self, key: KeyEvent, index: usize) -> (taken: bool)
        requires
            old(self)@.wf(),
        ensures
            taken ==> old(self)@.rail_key(key, index) == Some(final(self)@),
            !taken ==> old(self)@.rail_key(key, index) is None && final(self)@
                == old(self)@.unfocused(),
            final(self)@.wf(),
    {
        proof {
            reveal(AppView::rail_key);
        }
        let moves = self.composer.vim.is_normal() && key.plain();
        match key.code {
            KeyCode::Up => {
                self.rail.rail_select(false);
                true
            },
            KeyCode::Down => {
                self.rail.rail_select(true);
                true
            },
            KeyCode::Enter => {
                self.rail.attach_pane(index);
                true
            },
            KeyCode::Esc => {
                self.rail.rail_focus = None;
                true
            },
            KeyCode::Char(c) => {
                if c == 'k' && moves {
                    self.rail.rail_select(false);
                    true
                } else if c == 'j' && moves {
                    self.rail.rail_select(true);
                    true
                } else if c == 'x' && key.modifiers.control {
                    self.kill_pane(index);
                    true
                } else {
                    self.rail.rail_focus = None;
                    false
                }
            },
            _ => {
                self.rail.rail_focus = None;
                false
            },
        }
    }
}

} // verus!
