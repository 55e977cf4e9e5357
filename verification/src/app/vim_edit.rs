//! Modal editing of the composer: what each key does in Normal mode.

use crate::app::editor::splice;
use crate::app::keys::{KeyCode, KeyEvent};
use crate::app::state::{Composer, ComposerView};
use crate::app::vim::{
    back_by, end_by, first_non_blank, first_text, forward_by, motion_range, resolve_motion,
    word_ends, words_back, words_forward, Pending, VimMode, VimOp, VimView,
};
use crate::text::{chars_of, slice_text};
use vstd::prelude::*;

verus! {

/// What a Normal-mode key asks of the rest of the application.
#[derive(Debug, Clone, Copy, PartialEq, Eq, Structural)]
pub enum VimStep {
    /// Nothing more.
    Done,
    /// Move into the subagent rail.
    FocusRail,
    /// Submit the line.
    Submit,
    /// Close what is open over the chat.
    Escape,
    /// Scroll the chat.
    Scroll(i16),
}

/// `s` written `n` times.
pub open spec fn repeated(s: Seq<char>, n: nat) -> Seq<char>
    decreases n,
{
    if n == 0 {
        Seq::empty()
    } else {
        repeated(s, (n - 1) as nat) + s
    }
}

pub open spec fn least(a: int, b: int) -> int {
    if a <= b {
        a
    } else {
        b
    }
}

/// The digit a key types, or -1.
pub open spec fn key_digit(code: KeyCode) -> int {
    match code {
        KeyCode::Char(c) => if '0' <= c <= '9' {
            c as int - '0' as int
        } else {
            -1
        },
        _ => -1,
    }
}

/// The key repeats the operator: the whole line is meant.
pub open spec fn is_linewise(op: VimOp, code: KeyCode) -> bool {
    ||| op == VimOp::Delete && code == KeyCode::Char('d')
    ||| op == VimOp::Change && code == KeyCode::Char('c')
    ||| op == VimOp::Yank && code == KeyCode::Char('y')
}

impl ComposerView {
    /// The cursor at `c`.
    pub open spec fn at(self, c: int) -> ComposerView {
        ComposerView { cursor: c as usize, ..self }
    }

    pub open spec fn with_vim(self, vim: VimView) -> ComposerView {
        ComposerView { vim, ..self }
    }

    pub open spec fn no_count(self) -> ComposerView {
        self.with_vim(VimView { count: None, ..self.vim })
    }

    pub open spec fn with_register(self, text: Seq<char>) -> ComposerView {
        self.with_vim(VimView { register: text, ..self.vim })
    }

    /// How often a motion or edit repeats.
    pub open spec fn times(self) -> nat {
        match self.vim.count {
            Some(n) => n as nat,
            None => 1,
        }
    }

    /// Typing resumes.
    pub open spec fn inserting(self) -> ComposerView {
        self.with_vim(VimView { mode: VimMode::Insert, ..self.vim.cleared() })
    }

    /// In Normal mode the cursor sits on a character, never past the last.
    pub open spec fn on_char(self) -> ComposerView {
        if self.vim.mode != VimMode::Normal {
            self
        } else if self.input.len() == 0 {
            self.at(0)
        } else {
            self.at(least(self.cursor as int, self.input.len() - 1))
        }
    }

    /// Esc in Insert mode: Normal mode, one cell back.
    pub open spec fn to_normal(self) -> ComposerView {
        self.with_vim(VimView { mode: VimMode::Normal, ..self.vim.cleared() }).at(
            if self.cursor == 0 {
                0
            } else {
                self.cursor - 1
            },
        ).on_char()
    }

    /// The line remembered for undo.
    pub open spec fn snapshot(self) -> ComposerView {
        self.with_vim(
            VimView { undo: self.vim.undo.push((self.input, self.cursor)), ..self.vim },
        )
    }

    /// `u`: the newest snapshot comes back.
    pub open spec fn undone(self) -> ComposerView {
        if self.vim.undo.len() == 0 {
            self
        } else {
            let (input, cursor) = self.vim.undo.last();
            ComposerView {
                input,
                cursor,
                vim: VimView { undo: self.vim.undo.drop_last(), ..self.vim },
                ..self
            }.on_char()
        }
    }

    /// The characters from `start` to `end` removed into the register; the
    /// cursor goes where they were.
    pub open spec fn cut(self, start: int, end: int) -> ComposerView {
        let len = self.input.len() as int;
        let (a, b) = (least(start, len), least(end, len));
        if a >= b {
            self.with_register(Seq::empty())
        } else {
            ComposerView {
                input: self.input.take(a) + self.input.skip(b),
                cursor: a as usize,
                ..self
            }.with_register(self.input.subrange(a, b))
        }
    }

    /// `r`: the character under the cursor becomes `c`.
    pub open spec fn char_replaced(self, c: char) -> ComposerView {
        if self.cursor >= self.input.len() {
            self
        } else {
            let s = self.snapshot();
            ComposerView { input: s.input.update(s.cursor as int, c), ..s }
        }
    }

    /// An operator over a range.
    pub open spec fn operated(self, op: VimOp, x: int, y: int) -> ComposerView {
        let (start, end) = if x <= y {
            (x, y)
        } else {
            (y, x)
        };
        if start >= end {
            self
        } else {
            match op {
                VimOp::Yank => self.with_register(self.input.subrange(start, end)),
                VimOp::Delete => self.snapshot().cut(start, end).on_char(),
                VimOp::Change => self.snapshot().cut(start, end).inserting(),
            }
        }
    }

    /// An operator over the whole line.
    pub open spec fn line_operated(self, op: VimOp) -> ComposerView {
        let taken = ComposerView {
            input: Seq::empty(),
            cursor: 0,
            ..self.snapshot().with_register(self.input)
        };
        match op {
            VimOp::Yank => self.with_register(self.input),
            VimOp::Delete => taken,
            VimOp::Change => taken.inserting(),
        }
    }

    /// The register pasted `n` times, after the cursor or before it; the
    /// cursor lands on the last pasted character.
    pub open spec fn pasted(self, after: bool, n: nat) -> ComposerView {
        if self.vim.register.len() == 0 {
            self
        } else {
            let s = self.snapshot();
            let text = repeated(s.vim.register, if n == 0 {
                1
            } else {
                n
            });
            let at = if after && s.input.len() > 0 {
                least(s.cursor + 1, s.input.len() as int)
            } else {
                s.cursor as int
            };
            ComposerView {
                input: s.input.take(at) + text + s.input.skip(at),
                cursor: (at + text.len() - 1) as usize,
                ..s
            }.on_char()
        }
    }

    /// Motions, history recall and the ways into Insert mode.
    pub open spec fn vim_move(self, code: KeyCode) -> (ComposerView, VimStep) {
        let n = self.times() as int;
        let len = self.input.len() as int;
        let s = self.no_count();
        let c = self.cursor as int;
        if code == KeyCode::Char('h') || code == KeyCode::Left {
            (s.at(if c >= n {
                c - n
            } else {
                0
            }), VimStep::Done)
        } else if code == KeyCode::Char('l') || code == KeyCode::Right || code == KeyCode::Char(' ') {
            (s.at(least(c + n, len)).on_char(), VimStep::Done)
        } else if code == KeyCode::Char('0') {
            (s.at(0), VimStep::Done)
        } else if code == KeyCode::Char('^') {
            (s.at(first_text(self.input)), VimStep::Done)
        } else if code == KeyCode::Char('$') {
            (s.at(len).on_char(), VimStep::Done)
        } else if code == KeyCode::Char('w') {
            (s.at(forward_by(self.input, c, n as nat)).on_char(), VimStep::Done)
        } else if code == KeyCode::Char('b') {
            (s.at(back_by(self.input, c, n as nat)), VimStep::Done)
        } else if code == KeyCode::Char('e') {
            (s.at(end_by(self.input, c, n as nat)).on_char(), VimStep::Done)
        } else if code == KeyCode::Char('k') || code == KeyCode::Up {
            (s.recalled_prev(), VimStep::Done)
        } else if code == KeyCode::Char('j') || code == KeyCode::Down {
            if self.history_pos is Some {
                (s.recalled_next(), VimStep::Done)
            } else {
                (s, VimStep::FocusRail)
            }
        } else if code == KeyCode::Char('i') {
            (self.inserting(), VimStep::Done)
        } else if code == KeyCode::Char('I') {
            (self.at(first_text(self.input)).inserting(), VimStep::Done)
        } else if code == KeyCode::Char('a') {
            (self.at(least(c + 1, len)).inserting(), VimStep::Done)
        } else if code == KeyCode::Char('A') || code == KeyCode::Char('o') {
            (self.at(len).inserting(), VimStep::Done)
        } else {
            (self.at(0).inserting(), VimStep::Done)
        }
    }

    /// Edits, operators, paste and undo.
    pub open spec fn vim_change(self, code: KeyCode) -> ComposerView {
        let n = self.times() as int;
        let len = self.input.len() as int;
        let s = self.no_count();
        let c = self.cursor as int;
        if code == KeyCode::Char('x') {
            s.snapshot().cut(c, c + n).on_char()
        } else if code == KeyCode::Char('X') {
            s.snapshot().cut(if c >= n {
                c - n
            } else {
                0
            }, c)
        } else if code == KeyCode::Char('D') {
            s.snapshot().cut(c, len).on_char()
        } else if code == KeyCode::Char('C') {
            s.snapshot().cut(c, len).inserting()
        } else if code == KeyCode::Char('s') {
            s.snapshot().cut(c, c + n).inserting()
        } else if code == KeyCode::Char('S') {
            s.line_operated(VimOp::Change)
        } else if code == KeyCode::Char('r') {
            self.awaiting(Pending::Replace)
        } else if code == KeyCode::Char('d') {
            self.awaiting(Pending::Operator(VimOp::Delete))
        } else if code == KeyCode::Char('c') {
            self.awaiting(Pending::Operator(VimOp::Change))
        } else if code == KeyCode::Char('y') {
            self.awaiting(Pending::Operator(VimOp::Yank))
        } else if code == KeyCode::Char('p') {
            s.pasted(true, n as nat)
        } else if code == KeyCode::Char('P') {
            s.pasted(false, n as nat)
        } else {
            s.undone()
        }
    }

    /// The editing keys that keep their meaning in Normal mode.
    pub open spec fn vim_other(self, key: KeyEvent) -> (ComposerView, VimStep) {
        let code = key.code;
        let s = self.no_count();
        let c = self.cursor as int;
        if key.is_line_break() {
            (s.inserted(seq!['\n']), VimStep::Done)
        } else if code == KeyCode::Enter {
            (s, VimStep::Submit)
        } else if code == KeyCode::Backspace {
            (s.at(if c == 0 {
                0
            } else {
                c - 1
            }), VimStep::Done)
        } else if code == KeyCode::Esc {
            (self.with_vim(self.vim.cleared()), VimStep::Escape)
        } else if code == KeyCode::PageUp {
            (self, VimStep::Scroll(10))
        } else if code == KeyCode::PageDown {
            (self, VimStep::Scroll((-10) as i16))
        } else {
            (s, VimStep::Done)
        }
    }

    /// A key in Normal mode with no operator, count digit or replacement
    /// under way.
    pub open spec fn vim_command(self, key: KeyEvent) -> (ComposerView, VimStep) {
        if is_move(key.code) {
            self.vim_move(key.code)
        } else if is_change(key.code) {
            (self.vim_change(key.code), VimStep::Done)
        } else {
            self.vim_other(key)
        }
    }

    pub open spec fn awaiting(self, pending: Pending) -> ComposerView {
        self.with_vim(VimView { pending: Some(pending), ..self.vim })
    }

    /// A key in Normal mode.  An armed `r` takes it as the replacement, a
    /// digit extends the count, a waiting operator takes it as its motion;
    /// any other key is a command of its own.
    #[verifier::opaque]
    pub open spec fn vim_key(self, key: KeyEvent) -> (ComposerView, VimStep) {
        let digit = key_digit(key.code);
        if self.vim.pending == Some(Pending::Replace) {
            let s = self.with_vim(VimView { pending: None, ..self.vim });
            (match key.code {
                KeyCode::Char(c) if key.is_plain() => s.char_replaced(c),
                _ => s,
            }, VimStep::Done)
        } else if digit >= 0 && key.is_plain() && !(digit == 0 && self.vim.count is None) {
            let so_far = match self.vim.count {
                Some(n) => n as int,
                None => 0,
            };
            (
                self.with_vim(
                    VimView {
                        count: Some(least(so_far * 10 + digit, 100_000) as usize),
                        ..self.vim
                    },
                ),
                VimStep::Done,
            )
        } else {
            match self.vim.pending {
                Some(Pending::Operator(op)) => {
                    let s = self.with_vim(self.vim.cleared());
                    (
                        if is_linewise(op, key.code) {
                            s.line_operated(op)
                        } else {
                            match key.code {
                                KeyCode::Char(m) => match motion_range(
                                    m,
                                    self.times(),
                                    self.input,
                                    self.cursor as int,
                                ) {
                                    Some((x, y)) => s.operated(op, x, y),
                                    None => s,
                                },
                                _ => s,
                            }
                        },
                        VimStep::Done,
                    )
                },
                _ => self.vim_command(key),
            }
        }
    }
}

fn repeat_text(s: &str, n: usize) -> (r: String)
    ensures
        r@ == repeated(s@, n as nat),
{
    let mut out = String::new();
    let mut i: usize = 0;
    assert(out@ =~= repeated(s@, 0));
    while i < n
        invariant
            i <= n,
            out@ == repeated(s@, i as nat),
        decreases n - i,
    {
        out.append(s);
        i += 1;
    }
    out
}

proof fn lemma_repeated_len(s: Seq<char>, n: nat)
    requires
        n > 0,
    ensures
        repeated(s, n).len() >= s.len(),
    decreases n,
{
    if n > 1 {
        lemma_repeated_len(s, (n - 1) as nat);
    }
}

impl Composer {
    /// Enter Insert mode (text entry resumes).
    pub(crate) fn enter_insert(&mut self)
        requires
            old(self)@.wf(),
        ensures
            final(self)@ == old(self)@.inserting(),
            final(self)@.wf(),
    {
        self.vim.set_mode(VimMode::Insert);
        self.vim.clear_pending();
    }

    /// Leave Insert for Normal mode; the cursor nudges one cell left.
    pub(crate) fn enter_normal_mode(&mut self)
        requires
            old(self)@.wf(),
        ensures
            final(self)@ == old(self)@.to_normal(),
            final(self)@.wf(),
    {
        self.vim.set_mode(VimMode::Normal);
        self.vim.clear_pending();
        self.cursor = self.cursor.saturating_sub(1);
        self.clamp_normal_cursor();
    }

    fn clamp_normal_cursor(&mut self)
        requires
            old(self)@.wf(),
        ensures
            final(self)@ == old(self)@.on_char(),
            final(self)@.wf(),
    {
        if self.vim.mode != VimMode::Normal {
            return ;
        }
        let len = chars_of(&self.input).len();
        if len == 0 {
            self.cursor = 0;
        } else if self.cursor > len - 1 {
            self.cursor = len - 1;
        }
    }

    fn vim_snapshot(&mut self)
        requires
            old(self)@.wf(),
        ensures
            final(self)@ == old(self)@.snapshot(),
            final(self)@.wf(),
    {
        let input = self.input.clone();
        let cursor = self.cursor;
        self.vim.push_undo(&input, cursor);
    }

    fn vim_undo(&mut self)
        requires
            old(self)@.wf(),
        ensures
            final(self)@ == old(self)@.undone(),
            final(self)@.wf(),
    {
        let ghost undo = self.vim.undo@;
        assert(self@.vim.undo.len() == undo.len());
        match self.vim.undo.pop() {
            Some(snapshot) => {
                assert(old(self)@.vim.undo.last() == (snapshot.0@, snapshot.1));
                assert(self@.vim.undo =~= old(self)@.vim.undo.drop_last());
                self.input = snapshot.0;
                self.cursor = snapshot.1;
                self.clamp_normal_cursor();
            },
            None => {
                assert(self@.vim.undo =~= old(self)@.vim.undo);
            },
        }
    }

    fn vim_cut(&mut self, start: usize, end: usize)
        requires
            old(self)@.wf(),
        ensures
            final(self)@ == old(self)@.cut(start as int, end as int),
            final(self)@.wf(),
    {
        let cs = chars_of(&self.input);
        let a: usize = if start <= cs.len() {
            start
        } else {
            cs.len()
        };
        let b: usize = if end <= cs.len() {
            end
        } else {
            cs.len()
        };
        if a >= b {
            self.vim.set_register(String::new());
            assert(self@.vim.register =~= Seq::empty());
            return ;
        }
        self.vim.set_register(slice_text(&cs, a, b));
        let (input, cursor) = splice(&self.input, a, b, "");
        proof {
            reveal_strlit("");
        }
        assert(input@ =~= self.input@.take(a as int) + self.input@.skip(b as int));
        self.input = input;
        self.cursor = cursor;
    }

    fn vim_replace_char(&mut self, c: char)
        requires
            old(self)@.wf(),
        ensures
            final(self)@ == old(self)@.char_replaced(c),
            final(self)@.wf(),
    {
        let len = chars_of(&self.input).len();
        if self.cursor >= len {
            return ;
        }
        self.vim_snapshot();
        let mut text = String::new();
        text.push(c);
        let (input, behind) = splice(&self.input, self.cursor, self.cursor + 1, &text);
        assert(text@ =~= seq![c]);
        assert(input@ =~= self.input@.update(self.cursor as int, c));
        self.input = input;
    }

    fn vim_apply_op(&mut self, op: VimOp, x: usize, y: usize)
        requires
            old(self)@.wf(),
            x <= old(self)@.input.len(),
            y <= old(self)@.input.len(),
        ensures
            final(self)@ == old(self)@.operated(op, x as int, y as int),
            final(self)@.wf(),
    {
        let (start, end) = if x <= y {
            (x, y)
        } else {
            (y, x)
        };
        if start >= end {
            return ;
        }
        match op {
            VimOp::Yank => {
                let cs = chars_of(&self.input);
                self.vim.set_register(slice_text(&cs, start, end));
            },
            VimOp::Delete => {
                self.vim_snapshot();
                self.vim_cut(start, end);
                self.clamp_normal_cursor();
            },
            VimOp::Change => {
                self.vim_snapshot();
                self.vim_cut(start, end);
                self.enter_insert();
            },
        }
    }

    fn vim_apply_linewise(&mut self, op: VimOp)
        requires
            old(self)@.wf(),
        ensures
            final(self)@ == old(self)@.line_operated(op),
            final(self)@.wf(),
    {
        match op {
            VimOp::Yank => {
                let taken = self.input.clone();
                self.vim.set_register(taken);
            },
            VimOp::Delete => {
                self.vim_snapshot();
                let taken = self.input.clone();
                self.vim.set_register(taken);
                self.input = String::new();
                assert(self@.input =~= Seq::empty());
                self.cursor = 0;
            },
            VimOp::Change => {
                self.vim_snapshot();
                let taken = self.input.clone();
                self.vim.set_register(taken);
                self.input = String::new();
                assert(self@.input =~= Seq::empty());
                self.cursor = 0;
                self.enter_insert();
            },
        }
    }

    fn vim_paste(&mut self, after: bool, n: usize)
        requires
            old(self)@.wf(),
        ensures
            final(self)@ == old(self)@.pasted(after, n as nat),
            final(self)@.wf(),
    {
        if crate::text::is_empty_text(&self.vim.register) {
            return ;
        }
        self.vim_snapshot();
        let text = repeat_text(&self.vim.register, if n == 0 {
            1
        } else {
            n
        });
        proof {
            lemma_repeated_len(self.vim.register@, if n == 0 {
                1
            } else {
                n as nat
            });
        }
        let len = chars_of(&self.input).len();
        let at: usize = if after && self.cursor < len {
            self.cursor + 1
        } else {
            self.cursor
        };
        let (input, behind) = splice(&self.input, at, at, &text);
        self.input = input;
        self.cursor = behind - 1;
        self.clamp_normal_cursor();
    }

    fn vim_move(&mut self, code: KeyCode) -> (r: VimStep)
        requires
            old(self)@.wf(),
            is_move(code),
        ensures
            (final(self)@, r) == old(self)@.vim_move(code),
            final(self)@.wf(),
    {
        let cs = chars_of(&self.input);
        let len = cs.len();
        match code {
            KeyCode::Char('h') | KeyCode::Left => {
                let n = self.vim.take_count();
                self.cursor = self.cursor.saturating_sub(n);
            },
            KeyCode::Char('l') | KeyCode::Right | KeyCode::Char(' ') => {
                let n = self.vim.take_count();
                self.cursor = if n <= len - self.cursor {
                    self.cursor + n
                } else {
                    len
                };
                self.clamp_normal_cursor();
            },
            KeyCode::Char('0') => {
                self.vim.set_count(None);
                self.cursor = 0;
            },
            KeyCode::Char('^') => {
                self.vim.set_count(None);
                self.cursor = first_non_blank(&cs);
            },
            KeyCode::Char('$') => {
                self.vim.set_count(None);
                self.cursor = len;
                self.clamp_normal_cursor();
            },
            KeyCode::Char('w') => {
                let n = self.vim.take_count();
                self.cursor = words_forward(&cs, self.cursor, n);
                self.clamp_normal_cursor();
            },
            KeyCode::Char('b') => {
                let n = self.vim.take_count();
                self.cursor = words_back(&cs, self.cursor, n);
            },
            KeyCode::Char('e') => {
                let n = self.vim.take_count();
                self.cursor = word_ends(&cs, self.cursor, n);
                self.clamp_normal_cursor();
            },
            KeyCode::Char('k') | KeyCode::Up => {
                self.vim.set_count(None);
                self.history_prev();
            },
            KeyCode::Char('j') | KeyCode::Down => {
                self.vim.set_count(None);
                if self.history_pos.is_some() {
                    self.history_next();
                } else {
                    return VimStep::FocusRail;
                }
            },
            KeyCode::Char('i') => self.enter_insert(),
            KeyCode::Char('I') => {
                self.cursor = first_non_blank(&cs);
                self.enter_insert();
            },
            KeyCode::Char('a') => {
                if self.cursor < len {
                    self.cursor = self.cursor + 1;
                }
                self.enter_insert();
            },
            KeyCode::Char('A') | KeyCode::Char('o') => {
                self.cursor = len;
                self.enter_insert();
            },
            _ => {
                self.cursor = 0;
                self.enter_insert();
            },
        }
        VimStep::Done
    }

    #[verifier::rlimit(50)]
    fn vim_change(&mut self, code: KeyCode)
        requires
            old(self)@.wf(),
            is_change(code),
        ensures
            final(self)@ == old(self)@.vim_change(code),
            final(self)@.wf(),
    {
        let len = chars_of(&self.input).len();
        let c = self.cursor;
        match code {
            KeyCode::Char('x') => {
                let n = self.vim.take_count();
                self.vim_snapshot();
                self.vim_cut(c, c.saturating_add(n));
                self.clamp_normal_cursor();
            },
            KeyCode::Char('X') => {
                let n = self.vim.take_count();
                self.vim_snapshot();
                self.vim_cut(c.saturating_sub(n), c);
            },
            KeyCode::Char('D') => {
                self.vim.set_count(None);
                self.vim_snapshot();
                self.vim_cut(c, len);
                self.clamp_normal_cursor();
            },
            KeyCode::Char('C') => {
                self.vim.set_count(None);
                self.vim_snapshot();
                self.vim_cut(c, len);
                self.enter_insert();
            },
            KeyCode::Char('s') => {
                let n = self.vim.take_count();
                self.vim_snapshot();
                self.vim_cut(c, c.saturating_add(n));
                self.enter_insert();
            },
            KeyCode::Char('S') => {
                self.vim.set_count(None);
                self.vim_apply_linewise(VimOp::Change);
            },
            KeyCode::Char('r') => {
                self.vim.set_pending(Some(Pending::Replace));
            },
            KeyCode::Char('d') => {
                self.vim.set_pending(Some(Pending::Operator(VimOp::Delete)));
            },
            KeyCode::Char('c') => {
                self.vim.set_pending(Some(Pending::Operator(VimOp::Change)));
            },
            KeyCode::Char('y') => {
                self.vim.set_pending(Some(Pending::Operator(VimOp::Yank)));
            },
            KeyCode::Char('p') => {
                let n = self.vim.take_count();
                self.vim_paste(true, n);
            },
            KeyCode::Char('P') => {
                let n = self.vim.take_count();
                self.vim_paste(false, n);
            },
            _ => {
                self.vim.set_count(None);
                self.vim_undo();
            },
        }
    }

    fn vim_other(&mut self, key: KeyEvent) -> (r: VimStep)
        requires
            old(self)@.wf(),
        ensures
            (final(self)@, r) == old(self)@.vim_other(key),
            final(self)@.wf(),
    {
        match key.code {
            KeyCode::Enter => {
                self.vim.set_count(None);
                if key.modifiers.shift || key.modifiers.alt {
                    self.insert_newline();
                } else {
                    return VimStep::Submit;
                }
            },
            KeyCode::Backspace => {
                self.vim.set_count(None);
                self.cursor = self.cursor.saturating_sub(1);
            },
            KeyCode::Esc => {
                self.vim.clear_pending();
                return VimStep::Escape;
            },
            KeyCode::PageUp => {
                return VimStep::Scroll(10);
            },
            KeyCode::PageDown => {
                return VimStep::Scroll(-10);
            },
            _ => {
                self.vim.set_count(None);
            },
        }
        VimStep::Done
    }

    fn vim_command(&mut self, key: KeyEvent) -> (r: VimStep)
        requires
            old(self)@.wf(),
        ensures
            (final(self)@, r) == old(self)@.vim_command(key),
            final(self)@.wf(),
    {
        if moves(key.code) {
            self.vim_move(key.code)
        } else if changes(key.code) {
            self.vim_change(key.code);
            VimStep::Done
        } else {
            self.vim_other(key)
        }
    }

    /// Handle one key in Normal mode; the result says what else it asks for.
    pub(crate) fn vim_key(&mut self, key: KeyEvent) -> (r: VimStep)
        requires
            old(self)@.wf(),
        ensures
            (final(self)@, r) == old(self)@.vim_key(key),
            final(self)@.wf(),
    {
        proof {
            reveal(ComposerView::vim_key);
        }
        let printable = key.plain();
        if self.vim.pending == Some(Pending::Replace) {
            self.vim.set_pending(None);
            if let KeyCode::Char(c) = key.code {
                if printable {
                    self.vim_replace_char(c);
                }
            }
            return VimStep::Done;
        }
        if let KeyCode::Char(c) = key.code {
            if '0' <= c && c <= '9' && printable && !(c == '0' && self.vim.count.is_none()) {
                let digit: usize = (c as u32 - 48) as usize;
                let so_far: usize = match self.vim.count {
                    Some(n) => n,
                    None => 0,
                };
                let next: usize = so_far * 10 + digit;
                self.vim.set_count(Some(if next > 100_000 {
                    100_000
                } else {
                    next
                }));
                return VimStep::Done;
            }
        }
        if let Some(Pending::Operator(op)) = self.vim.pending {
            self.vim.set_pending(None);
            let n = self.vim.take_count();
            let linewise = match (op, key.code) {
                (VimOp::Delete, KeyCode::Char('d')) => true,
                (VimOp::Change, KeyCode::Char('c')) => true,
                (VimOp::Yank, KeyCode::Char('y')) => true,
                _ => false,
            };
            if linewise {
                self.vim_apply_linewise(op);
            } else if let KeyCode::Char(motion) = key.code {
                let cs = chars_of(&self.input);
                if let Some(m) = resolve_motion(motion, n, &cs, self.cursor) {
                    self.vim_apply_op(op, m.start, m.end);
                }
            }
            return VimStep::Done;
        }
        self.vim_command(key)
    }
}

/// The keys that move, recall or start typing.
pub open spec fn is_move(code: KeyCode) -> bool {
    match code {
        KeyCode::Left | KeyCode::Right | KeyCode::Up | KeyCode::Down => true,
        KeyCode::Char(c) => c == 'h' || c == 'l' || c == ' ' || c == '0' || c == '^' || c == '$' || c
            == 'w' || c == 'b' || c == 'e' || c == 'k' || c == 'j' || c == 'i' || c == 'I' || c
            == 'a' || c == 'A' || c == 'o' || c == 'O',
        _ => false,
    }
}

/// The keys that edit.
pub open spec fn is_change(code: KeyCode) -> bool {
    match code {
        KeyCode::Char(c) => c == 'x' || c == 'X' || c == 'D' || c == 'C' || c == 's' || c == 'S' || c
            == 'r' || c == 'd' || c == 'c' || c == 'y' || c == 'p' || c == 'P' || c == 'u',
        _ => false,
    }
}

fn moves(code: KeyCode) -> (r: bool)
    ensures
        r == is_move(code),
{
    match code {
        KeyCode::Left | KeyCode::Right | KeyCode::Up | KeyCode::Down => true,
        KeyCode::Char(c) => c == 'h' || c == 'l' || c == ' ' || c == '0' || c == '^' || c == '$' || c
            == 'w' || c == 'b' || c == 'e' || c == 'k' || c == 'j' || c == 'i' || c == 'I' || c
            == 'a' || c == 'A' || c == 'o' || c == 'O',
        _ => false,
    }
}

fn changes(code: KeyCode) -> (r: bool)
    ensures
        r == is_change(code),
{
    match code {
        KeyCode::Char(c) => c == 'x' || c == 'X' || c == 'D' || c == 'C' || c == 's' || c == 'S' || c
            == 'r' || c == 'd' || c == 'c' || c == 'y' || c == 'p' || c == 'P' || c == 'u',
        _ => false,
    }
}

} // verus!
