//! What holds of the motions over the prompt line, and of operators over them.

use crate::app::edit_laws::{
    comes_to, commands_line, fewer, how_often, lemma_command, took, upon,
};
use crate::app::keys::{KeyCode, KeyEvent};
use crate::app::state::{AppView, ComposerView};
use crate::app::vim::{
    back_by, char_kind, end_by, end_of_word, forward_by, motion_range, next_word, prev_word, run_end,
    run_start, Pending, VimMode, VimOp, VimView,
};
use crate::app::vim_edit::VimStep;
use crate::text::{is_alphanumeric, is_white};
use vstd::prelude::*;

verus! {

/// Whether two characters that are not white stand in one word: letters, digits,
/// `_` and all that is not ASCII go together, and so does the rest.
pub open spec fn alike(a: char, b: char) -> bool {
    &&& !is_white(a)
    &&& !is_white(b)
    &&& in_word(a) == in_word(b)
}

pub open spec fn in_word(c: char) -> bool {
    is_alphanumeric(c) || c == '_' || c as int > 127
}

/// A word starts at `j`.
pub open spec fn begins_word(s: Seq<char>, j: int) -> bool {
    &&& 0 <= j < s.len()
    &&& !is_white(s[j])
    &&& j > 0 ==> !alike(s[j - 1], s[j])
}

/// A word ends with the character at `j`.
pub open spec fn ends_word(s: Seq<char>, j: int) -> bool {
    &&& 0 <= j < s.len()
    &&& !is_white(s[j])
    &&& j + 1 < s.len() ==> !alike(s[j], s[j + 1])
}

/// The first start of a word behind `i`, or the end of the line.
pub open spec fn word_after(s: Seq<char>, i: int) -> int
    decreases s.len() - i,
{
    if i + 1 >= s.len() {
        s.len() as int
    } else if begins_word(s, i + 1) {
        i + 1
    } else {
        word_after(s, i + 1)
    }
}

/// The last start of a word before `i`, or the start of the line.
pub open spec fn word_before(s: Seq<char>, i: int) -> int
    decreases i,
{
    if i <= 1 {
        0
    } else if begins_word(s, i - 1) {
        i - 1
    } else {
        word_before(s, i - 1)
    }
}

/// The first end of a word behind `i`, or the last character of the line.
pub open spec fn end_after(s: Seq<char>, i: int) -> int
    decreases s.len() - i,
{
    if s.len() == 0 {
        0
    } else if i + 1 >= s.len() {
        s.len() - 1
    } else if ends_word(s, i + 1) {
        i + 1
    } else {
        end_after(s, i + 1)
    }
}

/// The first character from `i` on that is not white, or the start of the line.
pub open spec fn ink_from(s: Seq<char>, i: int) -> int
    decreases s.len() - i,
{
    if i >= s.len() {
        0
    } else if !is_white(s[i]) {
        i
    } else {
        ink_from(s, i + 1)
    }
}

/// A motion done `n` times.
pub open spec fn over(s: Seq<char>, i: int, motion: char, n: int) -> int
    decreases n,
{
    if n <= 0 {
        i
    } else {
        let j = over(s, i, motion, n - 1);
        if motion == 'w' {
            word_after(s, j)
        } else if motion == 'b' {
            word_before(s, j)
        } else {
            end_after(s, j)
        }
    }
}

proof fn lemma_next(s: Seq<char>, i: int)
    requires
        0 <= i <= s.len(),
    ensures
        next_word(s, i) == word_after(s, i),
        i <= next_word(s, i) <= s.len(),
        i < s.len() ==> i < next_word(s, i),
    decreases s.len() - i,
{
    reveal_with_fuel(run_end, 2);
    if i + 1 < s.len() {
        lemma_next(s, i + 1);
    } else if i < s.len() {
        assert(run_end(s, i + 1, char_kind(s[i])) == i + 1);
        assert(run_end(s, i + 1, 0) == i + 1);
    }
}

proof fn lemma_prev(s: Seq<char>, i: int)
    requires
        0 <= i <= s.len(),
    ensures
        prev_word(s, i) == word_before(s, i),
        0 <= prev_word(s, i) <= i,
    decreases i,
{
    reveal_with_fuel(run_start, 2);
    if i > 0 {
        lemma_prev(s, i - 1);
        if i > 1 {
            assert(run_start(s, i - 1, char_kind(s[i - 1])) == i - 1 || char_kind(s[i - 2])
                == char_kind(s[i - 1]));
        }
    }
}

proof fn lemma_end(s: Seq<char>, i: int)
    requires
        0 <= i <= s.len(),
    ensures
        end_of_word(s, i) == end_after(s, i),
        s.len() > 0 ==> 0 <= end_of_word(s, i) < s.len(),
        s.len() == 0 ==> end_of_word(s, i) == 0,
    decreases s.len() - i,
{
    reveal_with_fuel(run_end, 2);
    if i + 1 < s.len() {
        lemma_end(s, i + 1);
    }
}

proof fn lemma_ink(s: Seq<char>, i: int)
    requires
        0 <= i <= s.len(),
    ensures
        ink_from(s, i) == (if run_end(s, i, 0) >= s.len() {
            0
        } else {
            run_end(s, i, 0)
        }),
        0 <= ink_from(s, i) <= s.len(),
    decreases s.len() - i,
{
    if i < s.len() && is_white(s[i]) {
        lemma_ink(s, i + 1);
    }
}

proof fn lemma_over(s: Seq<char>, i: int, n: nat)
    requires
        0 <= i <= s.len(),
    ensures
        forward_by(s, i, n) == over(s, i, 'w', n as int),
        back_by(s, i, n) == over(s, i, 'b', n as int),
        end_by(s, i, n) == over(s, i, 'e', n as int),
        0 <= forward_by(s, i, n) <= s.len(),
        0 <= back_by(s, i, n) <= i,
        0 <= end_by(s, i, n) <= s.len(),
    decreases n,
{
    if n > 0 {
        let m = (n - 1) as nat;
        lemma_over(s, i, m);
        lemma_next(s, forward_by(s, i, m));
        lemma_prev(s, back_by(s, i, m));
        lemma_end(s, end_by(s, i, m));
    }
}

/// A motion moves the cursor and nothing else, and uses up the count: `h` and `l`
/// by characters, `0`, `^` and `$` to the ends of the line and its first text,
/// `w`, `b` and `e` by words, to the start of the next, the start of the last and
/// the end of the next.
pub proof fn law_motions_move_the_cursor(s: AppView, key: KeyEvent)
    requires
        commands_line(s, key),
        s.composer.vim.pending is None,
    ensures
        ({
            let c = s.composer;
            let at = c.cursor as int;
            let len = c.input.len() as int;
            let n = how_often(c.vim);
            let moves = |to: int|
                comes_to(s, key, c.input, to, VimView { count: None, ..c.vim });
            &&& key.code == KeyCode::Char('h') || key.code == KeyCode::Left ==> moves(
                at - fewer(n, at),
            )
            &&& key.code == KeyCode::Char('l') || key.code == KeyCode::Right ==> moves(
                upon(at + fewer(n, len - at), len),
            )
            &&& key.code == KeyCode::Char('0') && c.vim.count is None ==> moves(0)
            &&& key.code == KeyCode::Char('^') ==> moves(ink_from(c.input, 0))
            &&& key.code == KeyCode::Char('$') ==> moves(upon(len, len))
            &&& key.code == KeyCode::Char('w') ==> moves(upon(over(c.input, at, 'w', n), len))
            &&& key.code == KeyCode::Char('b') ==> moves(over(c.input, at, 'b', n))
            &&& key.code == KeyCode::Char('e') ==> moves(upon(over(c.input, at, 'e', n), len))
        }),
{
    reveal(ComposerView::vim_key);
    let c = s.composer;
    let n = how_often(c.vim) as nat;
    lemma_over(c.input, c.cursor as int, n);
    lemma_ink(c.input, 0);
    let moving = key.code == KeyCode::Char('h') || key.code == KeyCode::Left || key.code
        == KeyCode::Char('l') || key.code == KeyCode::Right || (key.code == KeyCode::Char('0')
        && c.vim.count is None) || key.code == KeyCode::Char('^') || key.code == KeyCode::Char('$')
        || key.code == KeyCode::Char('w') || key.code == KeyCode::Char('b') || key.code
        == KeyCode::Char('e');
    if moving {
        lemma_command(s, key);
    }
}

/// Typing starts where the key says: at the cursor, behind it, at the line's
/// first text, or at one of its ends.
pub proof fn law_insert_starts_where_asked(s: AppView, key: KeyEvent)
    requires
        commands_line(s, key),
        s.composer.vim.pending is None,
    ensures
        ({
            let c = s.composer;
            let at = c.cursor as int;
            let len = c.input.len() as int;
            let types = |from: int|
                comes_to(
                    s,
                    key,
                    c.input,
                    from,
                    VimView { mode: VimMode::Insert, pending: None, count: None, ..c.vim },
                );
            &&& key.code == KeyCode::Char('i') ==> types(at)
            &&& key.code == KeyCode::Char('a') ==> types(fewer(at + 1, len))
            &&& key.code == KeyCode::Char('I') ==> types(ink_from(c.input, 0))
            &&& key.code == KeyCode::Char('A') ==> types(len)
            &&& key.code == KeyCode::Char('o') ==> types(len)
            &&& key.code == KeyCode::Char('O') ==> types(0)
        }),
{
    reveal(ComposerView::vim_key);
    let c = s.composer;
    lemma_ink(c.input, 0);
    if key.code == KeyCode::Char('i') || key.code == KeyCode::Char('a') || key.code
        == KeyCode::Char('I') || key.code == KeyCode::Char('A') || key.code == KeyCode::Char('o')
        || key.code == KeyCode::Char('O') {
        lemma_command(s, key);
    }
}

/// The characters that a motion spans: from the cursor to where it goes, with the
/// end of a word inside.
pub open spec fn span(s: Seq<char>, at: int, motion: char, n: int) -> Option<(int, int)> {
    if motion == 'h' {
        Some((at - fewer(n, at), at))
    } else if motion == 'l' || motion == ' ' {
        Some((at, at + fewer(n, s.len() - at)))
    } else if motion == '0' {
        Some((0, at))
    } else if motion == '^' {
        if ink_from(s, 0) <= at {
            Some((ink_from(s, 0), at))
        } else {
            Some((at, ink_from(s, 0)))
        }
    } else if motion == '$' {
        Some((at, s.len() as int))
    } else if motion == 'w' {
        Some((at, over(s, at, 'w', n)))
    } else if motion == 'b' {
        Some((over(s, at, 'b', n), at))
    } else if motion == 'e' {
        Some((at, fewer(over(s, at, 'e', n) + 1, s.len() as int)))
    } else {
        None
    }
}

proof fn lemma_ends_go_on(s: Seq<char>, i: int, n: nat)
    requires
        0 <= i <= s.len(),
    ensures
        over(s, i, 'w', n as int) >= i,
        over(s, i, 'e', n as int) >= i || over(s, i, 'e', n as int) == s.len() - 1 || s.len() == 0,
    decreases n,
{
    if n > 0 {
        let m = (n - 1) as nat;
        lemma_ends_go_on(s, i, m);
        lemma_over(s, i, m);
        lemma_next(s, over(s, i, 'w', m as int));
        lemma_end_on(s, over(s, i, 'e', m as int));
    }
}

proof fn lemma_end_on(s: Seq<char>, i: int)
    requires
        0 <= i <= s.len(),
    ensures
        end_after(s, i) > i || end_after(s, i) == s.len() - 1 || s.len() == 0,
    decreases s.len() - i,
{
    if i + 1 < s.len() && !ends_word(s, i + 1) {
        lemma_end_on(s, i + 1);
    }
}

/// A range from its lower end to its upper one.
pub open spec fn ordered(r: (int, int)) -> (int, int) {
    if r.0 <= r.1 {
        r
    } else {
        (r.1, r.0)
    }
}

proof fn lemma_span(s: Seq<char>, at: int, motion: char, n: nat)
    requires
        0 <= at <= s.len(),
    ensures
        span(s, at, motion, n as int) is Some <==> motion_range(motion, n, s, at) is Some,
        span(s, at, motion, n as int) matches Some(r) ==> {
            &&& ordered(motion_range(motion, n, s, at)->0) == ordered(r)
            &&& 0 <= r.0 <= s.len()
            &&& 0 <= r.1 <= s.len()
            &&& s.len() > 0 ==> r.0 <= r.1
        },
{
    lemma_over(s, at, n);
    lemma_ends_go_on(s, at, n);
    lemma_ink(s, 0);
}

/// An operator takes exactly the characters that its motion spans into the
/// register: `d` and `c` off the line, all others staying, and `c` types on; `y`
/// leaves the line as it is.  A motion that spans nothing, and a key that is no
/// motion, only ends the wait.
pub proof fn law_an_operator_takes_what_its_motion_spans(
    s: AppView,
    key: KeyEvent,
    op: VimOp,
    motion: char,
)
    requires
        commands_line(s, key),
        s.composer.vim.pending == Some(Pending::Operator(op)),
        key.code == KeyCode::Char(motion),
        !('1' <= motion <= '9'),
        motion == '0' ==> s.composer.vim.count is None,
        !crate::app::edit_laws::doubles(op, key.code),
    ensures
        ({
            let c = s.composer;
            let r = span(c.input, c.cursor as int, motion, how_often(c.vim));
            let (a, b) = r->0;
            let rest = c.input.take(a) + c.input.skip(b);
            let taken = c.input.subrange(a, b);
            if r is None || a >= b {
                comes_to(
                    s,
                    key,
                    c.input,
                    c.cursor as int,
                    VimView { pending: None, count: None, ..c.vim },
                )
            } else {
                match op {
                    VimOp::Delete => comes_to(
                        s,
                        key,
                        rest,
                        upon(a, rest.len() as int),
                        took(c, taken, VimMode::Normal),
                    ),
                    VimOp::Change => comes_to(s, key, rest, a, took(c, taken, VimMode::Insert)),
                    VimOp::Yank => comes_to(
                        s,
                        key,
                        c.input,
                        c.cursor as int,
                        VimView { pending: None, count: None, register: taken, ..c.vim },
                    ),
                }
            }
        }),
{
    reveal(ComposerView::vim_key);
    let c = s.composer;
    let at = c.cursor as int;
    let n = how_often(c.vim) as nat;
    lemma_span(c.input, at, motion, n);
    let r = span(c.input, at, motion, n as int);
    let d = c.vim_key(key).0;
    assert(c.vim_key(key).1 == VimStep::Done);
    lemma_command(s, key);
    let t = c.with_vim(c.vim.cleared());
    let u = match motion_range(motion, n, c.input, at) {
        Some((x, y)) => t.operated(op, x, y),
        None => t,
    };
    assert(d == u);
    if r is Some {
        let (a, b) = r->0;
        if a < b {
            assert(u == t.operated(op, a, b));
        }
    }
}

} // verus!
