//! What holds of the keys that edit the prompt line.

use crate::app::editor::lemma_synced;
use crate::app::keys::{KeyCode, KeyEvent, KeyEventKind};
use crate::app::state::{AppView, ChatView, ComposerView, PendingView};
use crate::app::vim::{Pending, VimMode, VimOp, VimView};
use crate::app::vim_edit::{repeated, VimStep};
use vstd::prelude::*;

verus! {

/// The key reaches the prompt line: nothing is open over it or beside it.
pub open spec fn reaches_line(s: AppView, key: KeyEvent) -> bool {
    &&& key.kind != KeyEventKind::Release
    &&& !key.modifiers.control
    &&& !s.dashboard.open
    &&& s.rail.attached is None
    &&& s.rail.rail_focus is None
    &&& s.planning.plan_review is None
    &&& s.planning.interview is None
    &&& s.composer.picker is None
    &&& s.composer.prompt is None
    &&& s.composer.web_key_backend is None
    &&& s.composer.wf()
    &&& s.composer.input.len() <= usize::MAX
}

/// The key is a command of Normal mode.
pub open spec fn commands_line(s: AppView, key: KeyEvent) -> bool {
    &&& reaches_line(s, key)
    &&& !key.modifiers.alt
    &&& s.composer.vim.enabled
    &&& s.composer.vim.mode == VimMode::Normal
}

/// The key types: modal editing is off, or it is in Insert mode.
pub open spec fn types_line(s: AppView, key: KeyEvent) -> bool {
    &&& reaches_line(s, key)
    &&& !(s.composer.vim.enabled && s.composer.vim.mode == VimMode::Normal)
}

/// The state that a key leaves beside the line: a selection of text goes, and the
/// exit is disarmed.
pub open spec fn quiet(s: AppView) -> AppView {
    AppView {
        chat: ChatView { selection: None, ..s.chat },
        pending: PendingView { ctrl_c_armed: false, ..s.pending },
        ..s
    }
}

/// The key leaves this line, this cursor and this modal state, and nothing else
/// changes but the suggestions.
pub open spec fn comes_to(
    s: AppView,
    key: KeyEvent,
    input: Seq<char>,
    cursor: int,
    vim: VimView,
) -> bool {
    let (t, action) = s.key(key);
    let (c, d) = (s.composer, t.composer);
    &&& action is None
    &&& d.input == input
    &&& d.cursor == cursor
    &&& d.vim == vim
    &&& d.pending_images == c.pending_images
    &&& d.history == c.history
    &&& d.history_pos == c.history_pos
    &&& d.history_draft == c.history_draft
    &&& d.custom_commands == c.custom_commands
    &&& d.picker == c.picker
    &&& d.prompt == c.prompt
    &&& d.web_key_backend == c.web_key_backend
    &&& t == (AppView { composer: d, ..quiet(s) })
}

pub proof fn lemma_command(s: AppView, key: KeyEvent)
    requires
        commands_line(s, key),
        s.composer.vim_key(key).1 == VimStep::Done,
    ensures
        s.key(key) == (
            AppView { composer: s.composer.vim_key(key).0.synced(), ..quiet(s) },
            None::<crate::app::state::ActionView>,
        ),
        ({
            let d = s.composer.vim_key(key).0;
            let e = d.synced();
            &&& e.input == d.input
            &&& e.cursor == d.cursor
            &&& e.vim == d.vim
            &&& e.pending_images == d.pending_images
            &&& e.history == d.history
            &&& e.history_pos == d.history_pos
            &&& e.history_draft == d.history_draft
            &&& e.custom_commands == d.custom_commands
            &&& e.picker == d.picker
            &&& e.prompt == d.prompt
            &&& e.web_key_backend == d.web_key_backend
        }),
{
    reveal(AppView::key);
    reveal(AppView::screen_key);
    reveal(AppView::composer_key);
    reveal(AppView::normal_keyed);
    lemma_synced(s.composer.vim_key(key).0);
}

/// How often a command is to be done: the count typed before it, or once.
pub open spec fn how_often(v: VimView) -> int {
    match v.count {
        Some(n) => n as int,
        None => 1,
    }
}

/// The cursor on a character of a line of `len`, where there is one.
pub open spec fn upon(cursor: int, len: int) -> int {
    if len == 0 {
        0
    } else if cursor > len - 1 {
        len - 1
    } else {
        cursor
    }
}

pub open spec fn fewer(a: int, b: int) -> int {
    if a < b {
        a
    } else {
        b
    }
}

/// The modal state once `taken` went into the register, the line is kept for
/// undo and the count is used up.
pub open spec fn took(c: ComposerView, taken: Seq<char>, mode: VimMode) -> VimView {
    VimView {
        mode,
        pending: None,
        count: None,
        register: taken,
        undo: c.vim.undo.push((c.input, c.cursor)),
        ..c.vim
    }
}

/// `D` leaves exactly the characters before the cursor on the line, and puts
/// exactly those from the cursor to the end into the register; `C` does too, and
/// types on.
pub proof fn law_the_rest_of_the_line_is_cut(s: AppView, key: KeyEvent)
    requires
        commands_line(s, key),
        s.composer.vim.pending is None,
        key.code == KeyCode::Char('D') || key.code == KeyCode::Char('C'),
    ensures
        ({
            let c = s.composer;
            let at = c.cursor as int;
            let (before, behind) = (c.input.take(at), c.input.skip(at));
            &&& key.code == KeyCode::Char('D') ==> comes_to(
                s,
                key,
                before,
                upon(at, at),
                took(c, behind, VimMode::Normal),
            )
            &&& key.code == KeyCode::Char('C') ==> comes_to(
                s,
                key,
                before,
                at,
                took(c, behind, VimMode::Insert),
            )
            &&& before + behind == c.input
        }),
{
    reveal(ComposerView::vim_key);
    let c = s.composer;
    let at = c.cursor as int;
    lemma_command(s, key);
    let d = c.vim_key(key).0;
    assert(c.input.take(at) + c.input.skip(at) =~= c.input);
    if at < c.input.len() {
        assert(c.input.take(at) + c.input.skip(c.input.len() as int) =~= c.input.take(at));
        assert(c.input.subrange(at, c.input.len() as int) =~= c.input.skip(at));
    } else {
        assert(c.input.take(at) =~= c.input);
        assert(c.input.skip(at) =~= Seq::empty());
    }
    assert(d.input =~= c.input.take(at));
    assert(d.vim.register =~= c.input.skip(at));
}

/// `x` and `s` take the characters under and behind the cursor, `X` those before
/// it, as many as the count says and the line has; they go into the register and
/// all others stay.
pub proof fn law_counted_characters_are_cut(s: AppView, key: KeyEvent)
    requires
        commands_line(s, key),
        s.composer.vim.pending is None,
        key.code == KeyCode::Char('x') || key.code == KeyCode::Char('s') || key.code
            == KeyCode::Char('X'),
    ensures
        ({
            let c = s.composer;
            let at = c.cursor as int;
            let len = c.input.len() as int;
            let n = how_often(c.vim);
            let k = fewer(n, len - at);
            let b = fewer(n, at);
            &&& key.code == KeyCode::Char('x') ==> comes_to(
                s,
                key,
                c.input.take(at) + c.input.skip(at + k),
                upon(at, len - k),
                took(c, c.input.subrange(at, at + k), VimMode::Normal),
            )
            &&& key.code == KeyCode::Char('s') ==> comes_to(
                s,
                key,
                c.input.take(at) + c.input.skip(at + k),
                at,
                took(c, c.input.subrange(at, at + k), VimMode::Insert),
            )
            &&& key.code == KeyCode::Char('X') ==> comes_to(
                s,
                key,
                c.input.take(at - b) + c.input.skip(at),
                at - b,
                took(c, c.input.subrange(at - b, at), VimMode::Normal),
            )
        }),
{
    reveal(ComposerView::vim_key);
    let c = s.composer;
    let at = c.cursor as int;
    let len = c.input.len() as int;
    let n = how_often(c.vim);
    let k = fewer(n, len - at);
    let b = fewer(n, at);
    lemma_command(s, key);
    assert(c.input.take(at) + c.input.skip(at) =~= c.input);
    assert(c.input.subrange(at, at) =~= Seq::empty());
    let d = c.vim_key(key).0;
    if key.code == KeyCode::Char('X') {
        assert(d.input =~= c.input.take(at - b) + c.input.skip(at));
        assert(d.vim.register =~= c.input.subrange(at - b, at));
    } else {
        assert(d.input =~= c.input.take(at) + c.input.skip(at + k));
        assert(d.vim.register =~= c.input.subrange(at, at + k));
    }
}

/// The key repeats the operator.
pub open spec fn doubles(op: VimOp, code: KeyCode) -> bool {
    match op {
        VimOp::Delete => code == KeyCode::Char('d'),
        VimOp::Change => code == KeyCode::Char('c'),
        VimOp::Yank => code == KeyCode::Char('y'),
    }
}

/// `dd`, `cc`, `yy` and `S` put the whole line into the register; but for `yy`
/// the line is empty after it, and `cc` and `S` type on.
pub proof fn law_the_whole_line_is_taken(s: AppView, key: KeyEvent)
    requires
        commands_line(s, key),
    ensures
        ({
            let c = s.composer;
            let empty = Seq::<char>::empty();
            &&& c.vim.pending is None && key.code == KeyCode::Char('S') ==> comes_to(
                s,
                key,
                empty,
                0,
                took(c, c.input, VimMode::Insert),
            )
            &&& forall|op: VimOp|
                c.vim.pending == Some(Pending::Operator(op)) && #[trigger] doubles(op, key.code)
                    ==> (match op {
                    VimOp::Delete => comes_to(
                        s,
                        key,
                        empty,
                        0,
                        took(c, c.input, VimMode::Normal),
                    ),
                    VimOp::Change => comes_to(
                        s,
                        key,
                        empty,
                        0,
                        took(c, c.input, VimMode::Insert),
                    ),
                    VimOp::Yank => comes_to(
                        s,
                        key,
                        c.input,
                        c.cursor as int,
                        VimView { pending: None, count: None, register: c.input, ..c.vim },
                    ),
                })
        }),
{
    reveal(ComposerView::vim_key);
    let c = s.composer;
    if c.vim.pending is None && key.code == KeyCode::Char('S') {
        lemma_command(s, key);
    }
    assert forall|op: VimOp|
        c.vim.pending == Some(Pending::Operator(op)) && #[trigger] doubles(op, key.code) implies (
    match op {
        VimOp::Delete => comes_to(
            s,
            key,
            Seq::empty(),
            0,
            took(c, c.input, VimMode::Normal),
        ),
        VimOp::Change => comes_to(
            s,
            key,
            Seq::empty(),
            0,
            took(c, c.input, VimMode::Insert),
        ),
        VimOp::Yank => comes_to(
            s,
            key,
            c.input,
            c.cursor as int,
            VimView { pending: None, count: None, register: c.input, ..c.vim },
        ),
    }) by {
        lemma_command(s, key);
    }
}

/// Keys that wait for the next one, and digits, only change what is waited for.
pub proof fn law_operators_and_counts_wait(s: AppView, key: KeyEvent, digit: int)
    requires
        commands_line(s, key),
    ensures
        ({
            let c = s.composer;
            let waits = |p: Pending|
                comes_to(
                    s,
                    key,
                    c.input,
                    c.cursor as int,
                    VimView { pending: Some(p), ..c.vim },
                );
            &&& c.vim.pending is None && key.code == KeyCode::Char('d') ==> waits(
                Pending::Operator(VimOp::Delete),
            )
            &&& c.vim.pending is None && key.code == KeyCode::Char('c') ==> waits(
                Pending::Operator(VimOp::Change),
            )
            &&& c.vim.pending is None && key.code == KeyCode::Char('y') ==> waits(
                Pending::Operator(VimOp::Yank),
            )
            &&& c.vim.pending is None && key.code == KeyCode::Char('r') ==> waits(
                Pending::Replace,
            )
            &&& c.vim.pending != Some(Pending::Replace) && 0 <= digit <= 9 && key.code
                == KeyCode::Char(('0' as int + digit) as char) && (digit > 0 || c.vim.count
                is Some) ==> comes_to(
                s,
                key,
                c.input,
                c.cursor as int,
                VimView {
                    count: Some(
                        fewer(
                            10 * (match c.vim.count {
                                Some(n) => n as int,
                                None => 0,
                            }) + digit,
                            100_000,
                        ) as usize,
                    ),
                    ..c.vim
                },
            )
        }),
{
    reveal(ComposerView::vim_key);
    let c = s.composer;
    if c.vim.pending is None && (key.code == KeyCode::Char('d') || key.code == KeyCode::Char('c')
        || key.code == KeyCode::Char('y') || key.code == KeyCode::Char('r')) {
        lemma_command(s, key);
    }
    if c.vim.pending != Some(Pending::Replace) && 0 <= digit <= 9 && key.code == KeyCode::Char(
        ('0' as int + digit) as char,
    ) && (digit > 0 || c.vim.count is Some) {
        lemma_command(s, key);
    }
}

/// `r` puts the next character in place of the one under the cursor.
pub proof fn law_a_character_is_replaced(s: AppView, key: KeyEvent, with: char)
    requires
        commands_line(s, key),
        s.composer.vim.pending == Some(Pending::Replace),
        key.code == KeyCode::Char(with),
        s.composer.cursor < s.composer.input.len(),
    ensures
        ({
            let c = s.composer;
            comes_to(
                s,
                key,
                c.input.update(c.cursor as int, with),
                c.cursor as int,
                VimView {
                    pending: None,
                    undo: c.vim.undo.push((c.input, c.cursor)),
                    ..c.vim
                },
            )
        }),
{
    reveal(ComposerView::vim_key);
    lemma_command(s, key);
}

/// `text` `n` times in a row.
pub open spec fn in_a_row(text: Seq<char>, n: int) -> Seq<char>
    decreases n,
{
    if n <= 0 {
        Seq::empty()
    } else {
        text + in_a_row(text, n - 1)
    }
}

proof fn lemma_in_a_row(text: Seq<char>, n: nat)
    ensures
        in_a_row(text, n as int) == repeated(text, n),
        n > 0 ==> in_a_row(text, n as int) == in_a_row(text, n - 1) + text,
    decreases n,
{
    if n > 0 {
        lemma_in_a_row(text, (n - 1) as nat);
        if n > 1 {
            assert(text + (in_a_row(text, n - 2) + text) =~= (text + in_a_row(text, n - 2)) + text);
        } else {
            assert(text + Seq::<char>::empty() =~= Seq::<char>::empty() + text);
        }
    }
}

/// The register is pasted as often as the count says, behind the character under
/// the cursor with `p` and before it with `P`; the cursor is on the last
/// character pasted.
pub proof fn law_the_register_is_pasted(s: AppView, key: KeyEvent)
    requires
        commands_line(s, key),
        s.composer.vim.pending is None,
        s.composer.vim.register.len() > 0,
        s.composer.vim.count != Some(0usize),
        s.composer.input.len() + in_a_row(
            s.composer.vim.register,
            how_often(s.composer.vim),
        ).len() <= usize::MAX,
        key.code == KeyCode::Char('p') || key.code == KeyCode::Char('P'),
    ensures
        ({
            let c = s.composer;
            let text = in_a_row(c.vim.register, how_often(c.vim));
            let at = if key.code == KeyCode::Char('p') {
                fewer(c.cursor + 1, c.input.len() as int)
            } else {
                c.cursor as int
            };
            comes_to(
                s,
                key,
                c.input.take(at) + text + c.input.skip(at),
                at + text.len() - 1,
                VimView {
                    count: None,
                    undo: c.vim.undo.push((c.input, c.cursor)),
                    ..c.vim
                },
            )
        }),
{
    reveal(ComposerView::vim_key);
    let c = s.composer;
    lemma_in_a_row(c.vim.register, how_often(c.vim) as nat);
    lemma_command(s, key);
}

/// `u` gives back the line and the cursor of the newest change, and forgets it.
pub proof fn law_undo_gives_the_line_back(s: AppView, key: KeyEvent)
    requires
        commands_line(s, key),
        s.composer.vim.pending is None,
        key.code == KeyCode::Char('u'),
    ensures
        ({
            let c = s.composer;
            let u = c.vim.undo;
            &&& u.len() > 0 ==> comes_to(
                s,
                key,
                u.last().0,
                upon(u.last().1 as int, u.last().0.len() as int),
                VimView { count: None, undo: u.drop_last(), ..c.vim },
            )
            &&& u.len() == 0 ==> comes_to(
                s,
                key,
                c.input,
                c.cursor as int,
                VimView { count: None, ..c.vim },
            )
        }),
{
    reveal(ComposerView::vim_key);
    lemma_command(s, key);
}

} // verus!
