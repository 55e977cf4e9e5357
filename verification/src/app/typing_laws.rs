//! What holds of the keys that type, and of a line that is sent.

use crate::app::edit_laws::{comes_to, fewer, quiet, types_line, upon};
use crate::app::editor::{image_token, lemma_synced, ranked, token_ending, token_starting};
use crate::app::keys::{KeyCode, KeyEvent, KeyEventKind};
use crate::app::state::{ActionView, AppView, ComposerView, InputMode};
use crate::app::vim::{VimMode, VimView};
use crate::commands::{command_table, custom_rows, CommandView};
use crate::text::{decimal, is_white, trim_end, trim_start, word_len};
use vstd::prelude::*;

verus! {

proof fn lemma_line(s: AppView, key: KeyEvent)
    requires
        types_line(s, key),
        !(s.composer.vim.enabled && key.code == KeyCode::Esc && !key.modifiers.alt),
    ensures
        s.key(key) == quiet(s).line_key(key),
{
    reveal(AppView::key);
    reveal(AppView::screen_key);
    reveal(AppView::composer_key);
}

/// A character is put in at the cursor, which goes behind it; Enter with Shift or
/// Alt puts in a line break.
pub proof fn law_typing_inserts(s: AppView, key: KeyEvent, typed: char)
    requires
        types_line(s, key),
        s.composer.input.len() < usize::MAX,
        (key.code == KeyCode::Char(typed) && !key.modifiers.alt) || (typed == '\n' && key.code
            == KeyCode::Enter && (key.modifiers.shift || key.modifiers.alt)),
    ensures
        ({
            let c = s.composer;
            let at = c.cursor as int;
            comes_to(
                s,
                key,
                c.input.take(at) + seq![typed] + c.input.skip(at),
                at + 1,
                c.vim,
            )
        }),
{
    reveal(AppView::line_keyed);
    reveal(AppView::typed);
    lemma_line(s, key);
    lemma_synced(s.composer.inserted(seq![typed]));
}

/// The arrows, Home and End move the cursor, inside the line, and nothing else.
pub proof fn law_arrows_move_the_cursor(s: AppView, key: KeyEvent)
    requires
        types_line(s, key),
    ensures
        ({
            let c = s.composer;
            let at = c.cursor as int;
            let len = c.input.len() as int;
            &&& key.code == KeyCode::Left ==> comes_to(s, key, c.input, at - fewer(1, at), c.vim)
            &&& key.code == KeyCode::Right && (at < len || c.suggestions.len() == 0) ==> comes_to(
                s,
                key,
                c.input,
                fewer(at + 1, len),
                c.vim,
            )
            &&& key.code == KeyCode::Home ==> comes_to(s, key, c.input, 0, c.vim)
            &&& key.code == KeyCode::End ==> comes_to(s, key, c.input, len, c.vim)
        }),
{
    reveal(AppView::line_keyed);
    let c = s.composer;
    if key.code == KeyCode::Left || key.code == KeyCode::Right || key.code == KeyCode::Home
        || key.code == KeyCode::End {
        lemma_line(s, key);
        lemma_synced(c.at(if c.cursor == 0 {
            0
        } else {
            c.cursor - 1
        }));
        lemma_synced(c.moved_right());
        lemma_synced(c.at(0));
        lemma_synced(c.at(c.input.len() as int));
    }
}

/// The mark of a staged image.
pub open spec fn mark(n: int) -> Seq<char> {
    "[Image #"@ + decimal(n as nat) + "]"@
}

/// The mark of the staged image `n` ends `s`.
pub open spec fn mark_ends(s: Seq<char>, n: int) -> bool {
    mark(n).len() <= s.len() && s.skip(s.len() - mark(n).len()) == mark(n)
}

/// The mark of the staged image `n` begins `s`.
pub open spec fn mark_begins(s: Seq<char>, n: int) -> bool {
    mark(n).len() <= s.len() && s.take(mark(n).len() as int) == mark(n)
}

proof fn lemma_mark_ends(s: Seq<char>, count: nat, n: int)
    ensures
        (forall|i: int| 1 <= i <= count ==> !#[trigger] mark_ends(s, i)) ==> token_ending(s, count)
            == 0,
        1 <= n <= count && mark_ends(s, n) && (forall|i: int|
            1 <= i < n ==> !#[trigger] mark_ends(s, i)) ==> token_ending(s, count) == n,
    decreases count,
{
    if count > 0 {
        lemma_mark_ends(s, (count - 1) as nat, n);
        assert(mark_ends(s, count as int) == crate::app::editor::ends_with(s, image_token(count)));
        if n == count {
            lemma_mark_ends(s, (count - 1) as nat, 0);
        }
    }
}

proof fn lemma_mark_begins(s: Seq<char>, count: nat, n: int)
    ensures
        (forall|i: int| 1 <= i <= count ==> !#[trigger] mark_begins(s, i)) ==> token_starting(
            s,
            count,
        ) == 0,
        1 <= n <= count && mark_begins(s, n) && (forall|i: int|
            1 <= i < n ==> !#[trigger] mark_begins(s, i)) ==> token_starting(s, count) == n,
    decreases count,
{
    if count > 0 {
        lemma_mark_begins(s, (count - 1) as nat, n);
        assert(mark_begins(s, count as int) == crate::text::starts_with(s, image_token(count)));
        if n == count {
            lemma_mark_begins(s, (count - 1) as nat, 0);
        }
    }
}

/// Backspace takes the character before the cursor, and all others stay, where no
/// mark of a staged image ends there.
pub proof fn law_backspace_takes_the_character_before(s: AppView, key: KeyEvent)
    requires
        types_line(s, key),
        key.code == KeyCode::Backspace,
        forall|i: int|
            1 <= i <= s.composer.pending_images.len() ==> !#[trigger] mark_ends(
                s.composer.input.take(s.composer.cursor as int),
                i,
            ),
    ensures
        ({
            let c = s.composer;
            let at = c.cursor as int;
            &&& at > 0 ==> comes_to(
                s,
                key,
                c.input.take(at - 1) + c.input.skip(at),
                at - 1,
                c.vim,
            )
            &&& at == 0 ==> comes_to(s, key, c.input, 0, c.vim)
        }),
{
    reveal(AppView::line_keyed);
    reveal(ComposerView::deleted_back);
    let c = s.composer;
    let at = c.cursor as int;
    lemma_line(s, key);
    lemma_synced(c.deleted_back());
    lemma_mark_ends(c.input.take(at), c.pending_images.len(), 0);
    if at > 0 {
        assert(c.input.remove(at - 1) =~= c.input.take(at - 1) + c.input.skip(at));
    }
}

/// Delete takes the character under the cursor, and all others stay, where no
/// mark of a staged image begins there.
pub proof fn law_delete_takes_the_character_under(s: AppView, key: KeyEvent)
    requires
        types_line(s, key),
        key.code == KeyCode::Delete,
        forall|i: int|
            1 <= i <= s.composer.pending_images.len() ==> !#[trigger] mark_begins(
                s.composer.input.skip(s.composer.cursor as int),
                i,
            ),
    ensures
        ({
            let c = s.composer;
            let at = c.cursor as int;
            &&& at < c.input.len() ==> comes_to(
                s,
                key,
                c.input.take(at) + c.input.skip(at + 1),
                at,
                c.vim,
            )
            &&& at == c.input.len() ==> comes_to(s, key, c.input, at, c.vim)
        }),
{
    reveal(AppView::line_keyed);
    reveal(ComposerView::deleted_forward);
    let c = s.composer;
    let at = c.cursor as int;
    lemma_line(s, key);
    lemma_synced(c.deleted_forward());
    lemma_mark_begins(c.input.skip(at), c.pending_images.len(), 0);
    if at < c.input.len() {
        assert(c.input.remove(at) =~= c.input.take(at) + c.input.skip(at + 1));
    }
}

/// Backspace behind the mark of a staged image, and Delete before it, take the
/// whole mark and unstage that image, and no other; where it was the last one
/// staged, the rest of the line stays as it is.
pub proof fn law_a_mark_goes_with_its_image(s: AppView, key: KeyEvent, n: int)
    requires
        types_line(s, key),
        1 <= n <= s.composer.pending_images.len(),
        ({
            let c = s.composer;
            let at = c.cursor as int;
            ||| key.code == KeyCode::Backspace && mark_ends(c.input.take(at), n) && (forall|i: int|
                1 <= i < n ==> !#[trigger] mark_ends(c.input.take(at), i))
            ||| key.code == KeyCode::Delete && mark_begins(c.input.skip(at), n) && (forall|i: int|
                1 <= i < n ==> !#[trigger] mark_begins(c.input.skip(at), i))
        }),
    ensures
        ({
            let c = s.composer;
            let at = c.cursor as int;
            let (t, action) = s.key(key);
            let images = c.pending_images;
            let size = mark(n).len() as int;
            &&& action is None
            &&& t.composer.pending_images == images.take(n - 1) + images.skip(n)
            &&& t == (AppView { composer: t.composer, ..quiet(s) })
            &&& n == images.len() && key.code == KeyCode::Backspace ==> t.composer.input
                == c.input.take(at - size) + c.input.skip(at) && t.composer.cursor == at - size
            &&& n == images.len() && key.code == KeyCode::Delete ==> t.composer.input
                == c.input.take(at) + c.input.skip(at + size) && t.composer.cursor == at
        }),
{
    reveal(AppView::line_keyed);
    reveal(ComposerView::deleted_back);
    reveal(ComposerView::deleted_forward);
    let c = s.composer;
    let at = c.cursor as int;
    let images = c.pending_images;
    lemma_line(s, key);
    lemma_synced(c.deleted_back());
    lemma_synced(c.deleted_forward());
    lemma_mark_ends(c.input.take(at), images.len(), n);
    lemma_mark_begins(c.input.skip(at), images.len(), n);
    assert(images.remove(n - 1) =~= images.take(n - 1) + images.skip(n));
    let size = mark(n).len() as int;
    assert(mark(n) == image_token(n as nat));
    reveal_strlit("[Image #");
    if key.code == KeyCode::Backspace {
        assert(at > 0);
        assert(c.input.take(at).take(at - size) =~= c.input.take(at - size));
    } else {
        assert(c.input.skip(at).skip(size) =~= c.input.skip(at + size));
    }
}

/// A key with Ctrl held.
pub open spec fn chorded(s: AppView, key: KeyEvent, code: char) -> bool {
    &&& key.kind != KeyEventKind::Release
    &&& key.modifiers.control
    &&& key.code == KeyCode::Char(code)
    &&& s.composer.wf()
    &&& s.composer.input.len() <= usize::MAX
}

/// Ctrl-U leaves what is behind the cursor, Ctrl-K what is before it; Ctrl-A and
/// Ctrl-E go to the ends of the line.
pub proof fn law_chords_cut_and_jump(s: AppView, key: KeyEvent)
    ensures
        ({
            let c = s.composer;
            let at = c.cursor as int;
            &&& chorded(s, key, 'u') ==> comes_to(s, key, c.input.skip(at), 0, c.vim)
            &&& chorded(s, key, 'k') ==> comes_to(s, key, c.input.take(at), at, c.vim)
            &&& chorded(s, key, 'a') ==> comes_to(s, key, c.input, 0, c.vim)
            &&& chorded(s, key, 'e') ==> comes_to(s, key, c.input, c.input.len() as int, c.vim)
        }),
{
    reveal(AppView::key);
    reveal(AppView::chord);
    lemma_synced(s.composer.head_killed());
    lemma_synced(s.composer.tail_killed());
}

/// The place to the left of `i` where the run of white space, or of text, that
/// ends there starts.
pub open spec fn run_left(s: Seq<char>, i: int, white: bool) -> int
    decreases i,
{
    if 0 < i <= s.len() && is_white(s[i - 1]) == white {
        run_left(s, i - 1, white)
    } else {
        i
    }
}

proof fn lemma_white_left(s: Seq<char>, i: int)
    requires
        0 <= i <= s.len(),
    ensures
        trim_end(s.take(i)).len() == run_left(s, i, true),
        0 <= run_left(s, i, true) <= i,
    decreases i,
{
    if i > 0 {
        assert(s.take(i).drop_last() =~= s.take(i - 1));
        assert(s.take(i).last() == s[i - 1]);
        lemma_white_left(s, i - 1);
    }
}

proof fn lemma_word_left(s: Seq<char>, t: Seq<char>, i: int)
    requires
        0 <= i <= s.len(),
        i <= t.len(),
        forall|j: int| 0 <= j < i ==> s[j] == t[j],
    ensures
        crate::app::editor::before_word(t, i) == run_left(s, i, false),
        0 <= run_left(s, i, false) <= i,
    decreases i,
{
    if i > 0 {
        lemma_word_left(s, t, i - 1);
    }
}

proof fn lemma_deleted_to(c: ComposerView, end: int)
    requires
        c.wf(),
        c.pending_images.len() == 0,
        0 <= end <= c.cursor,
    ensures
        c.deleted_to(end) == (ComposerView {
            input: c.input.take(end) + c.input.skip(c.cursor as int),
            cursor: end as usize,
            ..c
        }),
    decreases c.cursor,
{
    reveal(ComposerView::deleted_back);
    let at = c.cursor as int;
    if at == end {
        assert(c.input.take(end) + c.input.skip(at) =~= c.input);
    } else {
        let d = c.deleted_back();
        assert(token_ending(c.input.take(at), 0) == 0);
        assert(d.input == c.input.remove(at - 1));
        lemma_deleted_to(d, end);
        assert(d.input.take(end) + d.input.skip(at - 1) =~= c.input.take(end) + c.input.skip(at));
    }
}

/// Ctrl-W takes the word before the cursor and the white space behind it, and
/// nothing else, on a line without staged images.
pub proof fn law_a_word_is_deleted(s: AppView, key: KeyEvent)
    requires
        chorded(s, key, 'w'),
        s.composer.pending_images.len() == 0,
    ensures
        ({
            let c = s.composer;
            let at = c.cursor as int;
            let start = run_left(c.input, run_left(c.input, at, true), false);
            comes_to(s, key, c.input.take(start) + c.input.skip(at), start, c.vim)
        }),
{
    reveal(AppView::key);
    reveal(AppView::chord);
    let c = s.composer;
    let at = c.cursor as int;
    let w = run_left(c.input, at, true);
    lemma_white_left(c.input, at);
    lemma_deleted_to(c, w);
    let d = c.deleted_to(c.white_start());
    lemma_word_left(c.input, d.input, w);
    let start = run_left(c.input, w, false);
    lemma_deleted_to(d, start);
    assert(d.input.take(start) + d.input.skip(w) =~= c.input.take(start) + c.input.skip(at));
    lemma_synced(c.word_deleted());
}

/// Esc leaves Insert mode: the cursor goes one back, onto a character.
pub proof fn law_escape_leaves_insert_mode(s: AppView, key: KeyEvent)
    requires
        types_line(s, key),
        s.composer.vim.enabled,
        key.code == KeyCode::Esc,
        !key.modifiers.alt,
    ensures
        ({
            let c = s.composer;
            let at = c.cursor as int;
            comes_to(
                s,
                key,
                c.input,
                upon(at - fewer(1, at), c.input.len() as int),
                VimView { mode: VimMode::Normal, pending: None, count: None, ..c.vim },
            )
        }),
{
    reveal(AppView::key);
    reveal(AppView::screen_key);
    reveal(AppView::composer_key);
}

/// Up goes to the input before the one shown, from the draft to the newest, and
/// Down back again, from the newest to the draft; the draft is kept meanwhile.
pub proof fn law_history_goes_back_and_forth(s: AppView, key: KeyEvent)
    requires
        types_line(s, key),
        s.composer.history.len() > 0,
        s.composer.history_pos is Some || s.composer.suggestions.len() == 0,
        forall|i: int|
            0 <= i < s.composer.history.len() ==> (#[trigger] s.composer.history[i]).len()
                <= usize::MAX,
        s.composer.history_draft.len() <= usize::MAX,
        s.composer.history.len() <= usize::MAX,
    ensures
        ({
            let c = s.composer;
            let h = c.history;
            let p = c.history_pos->0;
            let (t, action) = s.key(key);
            let shows = |text: Seq<char>, pos: Option<usize>, draft: Seq<char>|
                {
                    &&& action is None
                    &&& t.composer.input == text
                    &&& t.composer.cursor == text.len()
                    &&& t.composer.history == h
                    &&& t.composer.history_pos == pos
                    &&& t.composer.history_draft == draft
                    &&& t.composer.vim == c.vim
                    &&& t.composer.pending_images == c.pending_images
                    &&& t == (AppView { composer: t.composer, ..quiet(s) })
                };
            &&& key.code == KeyCode::Up && c.history_pos is None ==> shows(
                h.last(),
                Some((h.len() - 1) as usize),
                c.input,
            )
            &&& key.code == KeyCode::Up && c.history_pos is Some && p > 0 ==> shows(
                h[p - 1],
                Some((p - 1) as usize),
                c.history_draft,
            )
            &&& key.code == KeyCode::Down && c.history_pos is Some && p + 1 < h.len() ==> shows(
                h[p + 1],
                Some((p + 1) as usize),
                c.history_draft,
            )
            &&& key.code == KeyCode::Down && c.history_pos is Some && p + 1 == h.len() ==> shows(
                c.history_draft,
                None,
                Seq::empty(),
            )
        }),
{
    reveal(AppView::line_keyed);
    reveal(AppView::arrowed);
    let c = s.composer;
    if key.code == KeyCode::Up || key.code == KeyCode::Down {
        lemma_line(s, key);
        let r = if key.code == KeyCode::Up {
            c.recalled_prev()
        } else {
            c.recalled_next()
        };
        lemma_synced(r);
        let h = c.history;
        lemma_synced(
            ComposerView {
                input: h.last(),
                cursor: h.last().len() as usize,
                history_draft: c.input,
                ..c
            },
        );
        if let Some(p) = c.history_pos {
            lemma_synced(
                ComposerView { input: h[p - 1], cursor: h[p - 1].len() as usize, ..c },
            );
            lemma_synced(
                ComposerView { input: h[p + 1], cursor: h[p + 1].len() as usize, ..c },
            );
            lemma_synced(
                ComposerView {
                    input: c.history_draft,
                    cursor: c.history_draft.len() as usize,
                    history_draft: Seq::empty(),
                    ..c
                },
            );
        }
    }
}

proof fn lemma_white_before(s: Seq<char>, i: int)
    requires
        0 <= i <= s.len(),
        forall|k: int| 0 <= k < i ==> is_white(#[trigger] s[k]),
        i < s.len() ==> !is_white(s[i]),
    ensures
        trim_start(s) == s.skip(i),
    decreases s.len(),
{
    if i > 0 {
        assert(is_white(s[0]));
        let d = s.drop_first();
        assert forall|k: int| 0 <= k < i - 1 implies is_white(#[trigger] d[k]) by {
            assert(d[k] == s[k + 1]);
        }
        if i < s.len() {
            assert(d[i - 1] == s[i]);
        }
        lemma_white_before(d, i - 1);
        assert(d.skip(i - 1) =~= s.skip(i));
    } else {
        assert(s.skip(0) =~= s);
    }
}

proof fn lemma_one_word(s: Seq<char>)
    requires
        forall|k: int| 0 <= k < s.len() ==> !is_white(#[trigger] s[k]),
    ensures
        word_len(s) == s.len(),
    decreases s.len(),
{
    if s.len() > 0 {
        let d = s.drop_first();
        assert(!is_white(s[0]));
        assert forall|k: int| 0 <= k < d.len() implies !is_white(#[trigger] d[k]) by {
            assert(d[k] == s[k + 1]);
        }
        lemma_one_word(d);
    }
}

/// While the name of a command is typed, the commands that answer it are
/// suggested, built-in and custom; any other line has no suggestions.
pub proof fn law_suggestions_follow_the_line(c: ComposerView, i: int)
    requires
        c.prompt is None,
        c.web_key_backend is None,
        c.picker is None,
        0 <= i <= c.input.len(),
        forall|k: int| 0 <= k < i ==> is_white(#[trigger] c.input[k]),
        i < c.input.len() ==> !is_white(c.input[i]),
    ensures
        ({
            let d = c.synced();
            let name = c.input.skip(i + 1);
            let slash = i < c.input.len() && c.input[i] == '/';
            &&& slash ==> d.input_mode == InputMode::Command
            &&& !slash ==> d.input_mode == InputMode::Chat && d.suggestions.len() == 0
            &&& slash && (forall|k: int| 0 <= k < name.len() ==> !is_white(#[trigger] name[k]))
                ==> d.suggestions == ranked(
                command_table() + custom_rows(c.custom_commands),
                name,
            )
        }),
{
    reveal(ComposerView::suggested);
    lemma_white_before(c.input, i);
    let t = c.input.skip(i);
    if i < c.input.len() {
        let name = c.input.skip(i + 1);
        assert(t.drop_first() =~= name);
        assert(t[0] == c.input[i]);
        if forall|k: int| 0 <= k < name.len() ==> !is_white(#[trigger] name[k]) {
            lemma_one_word(name);
        }
    }
}

/// Tab takes the highlighted suggestion, or completes the path at the cursor; Up
/// and Down move the highlight, around the ends.
pub proof fn law_tab_and_arrows_work_the_suggestions(s: AppView, key: KeyEvent)
    requires
        types_line(s, key),
        s.composer.suggestions.len() <= usize::MAX,
    ensures
        ({
            let c = s.composer;
            let n = c.suggestions.len() as int;
            let at = c.suggestion_index as int;
            let (t, action) = s.key(key);
            &&& key.code == KeyCode::Tab && 0 <= at < n ==> {
                let row = c.suggestions[at];
                &&& action is None
                &&& t.composer.input == "/"@ + row.name + if row.takes_args {
                    " "@
                } else {
                    Seq::empty()
                }
                &&& t == (AppView { composer: t.composer, ..quiet(s) })
            }
            &&& key.code == KeyCode::BackTab ==> {
                &&& action == Some(ActionView::Command(CommandView::Plan))
                &&& t.composer.input == c.input
            }
            &&& (key.code == KeyCode::Up || key.code == KeyCode::Down) && n > 0 && c.history_pos
                is None ==> {
                &&& action is None
                &&& t.composer.input == c.input
                &&& t.composer.cursor == c.cursor
                &&& t.composer.history_pos is None
            }
        }),
{
    reveal(AppView::line_keyed);
    reveal(AppView::arrowed);
    let c = s.composer;
    if key.code == KeyCode::Tab || key.code == KeyCode::BackTab || key.code == KeyCode::Up
        || key.code == KeyCode::Down {
        lemma_line(s, key);
        lemma_synced(c);
        lemma_synced(c.accepted());
        if c.suggestion_index < c.suggestions.len() {
            let row = c.suggestions[c.suggestion_index as int];
            let text = if row.takes_args {
                "/"@ + row.name + " "@
            } else {
                "/"@ + row.name
            };
            lemma_synced(ComposerView { input: text, cursor: text.len() as usize, ..c });
            assert("/"@ + row.name + Seq::<char>::empty() =~= "/"@ + row.name);
        }
        if c.suggestions.len() > 0 {
            lemma_synced(c.highlight_moved(true));
            lemma_synced(c.highlight_moved(false));
        }
    }
}

/// The highlight goes from row to row, around the ends.
pub proof fn law_the_highlight_goes_round(c: ComposerView)
    requires
        c.suggestion_index < c.suggestions.len() <= usize::MAX,
    ensures
        ({
            let n = c.suggestions.len() as int;
            let at = c.suggestion_index as int;
            &&& c.highlight_moved(true) == (ComposerView {
                suggestion_index: if at + 1 < n {
                    (at + 1) as usize
                } else {
                    0
                },
                ..c
            })
            &&& c.highlight_moved(false) == (ComposerView {
                suggestion_index: if at > 0 {
                    (at - 1) as usize
                } else {
                    (n - 1) as usize
                },
                ..c
            })
        }),
{
}

} // verus!
