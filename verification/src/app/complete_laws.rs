//! What holds of the completion of paths on the line.

use crate::app::complete::{common, completion, matching, shared_len, DirEntryView};
use crate::app::editor::{before_word, lemma_synced};
use crate::app::state::{AppView, EffectView};
use crate::path_laws::law_a_character_is_found_last;
use crate::text::{is_white, starts_with};
use crate::text_laws::lacks;
use vstd::prelude::*;

verus! {

/// The entries that fit are exactly those whose name starts with what is typed, in
/// order.
pub proof fn law_entries_fit_by_their_start(e: Seq<DirEntryView>, typed: Seq<char>)
    ensures
        matching(e, typed) == e.filter(|x: DirEntryView| starts_with(x.name, typed)),
    decreases e.len(),
{
    reveal(Seq::filter);
    if e.len() > 0 {
        law_entries_fit_by_their_start(e.drop_last(), typed);
    }
}

/// The name that is alone in fitting is completed whole, with a slash behind a
/// directory; nothing is completed where none fits.
pub proof fn law_the_only_name_is_completed_whole(e: Seq<DirEntryView>, typed: Seq<char>)
    ensures
        ({
            let fit = e.filter(|x: DirEntryView| starts_with(x.name, typed));
            &&& fit.len() == 0 ==> completion(e, typed) is None
            &&& fit.len() == 1 && fit[0].is_dir ==> completion(e, typed) == Some(
                fit[0].name.push('/'),
            )
            &&& fit.len() == 1 && !fit[0].is_dir ==> completion(e, typed) == Some(fit[0].name)
        }),
{
    law_entries_fit_by_their_start(e, typed);
}

/// The names go on differently behind `n` characters: one of them ends there, or
/// two have different characters there.
pub open spec fn part_at(e: Seq<DirEntryView>, n: int) -> bool {
    ||| exists|i: int| 0 <= i < e.len() && (#[trigger] e[i]).name.len() == n
    ||| exists|i: int, j: int|
        0 <= i < e.len() && 0 <= j < e.len() && n < (#[trigger] e[i]).name.len() && n < (
        #[trigger] e[j]).name.len() && e[i].name[n] != e[j].name[n]
}

proof fn lemma_shared_len(a: Seq<char>, b: Seq<char>)
    ensures
        shared_len(a, b) <= a.len(),
        shared_len(a, b) <= b.len(),
        forall|i: int| 0 <= i < shared_len(a, b) ==> #[trigger] a[i] == b[i],
        shared_len(a, b) < a.len() && shared_len(a, b) < b.len() ==> a[shared_len(a, b) as int]
            != b[shared_len(a, b) as int],
    decreases a.len(),
{
    if a.len() > 0 && b.len() > 0 && a[0] == b[0] {
        let (c, d) = (a.drop_first(), b.drop_first());
        lemma_shared_len(c, d);
        assert forall|i: int| 0 <= i < shared_len(a, b) implies #[trigger] a[i] == b[i] by {
            if i > 0 {
                assert(c[i - 1] == a[i] && d[i - 1] == b[i]);
            }
        }
        let n = shared_len(c, d) as int;
        if n < c.len() && n < d.len() {
            assert(c[n] == a[n + 1] && d[n] == b[n + 1]);
        }
    }
}

proof fn lemma_common_parts(e: Seq<DirEntryView>)
    requires
        e.len() > 0,
    ensures
        part_at(e, common(e).len() as int),
        forall|i: int| 0 <= i < e.len() ==> starts_with((#[trigger] e[i]).name, common(e)),
    decreases e.len(),
{
    if e.len() == 1 {
        assert(e[0].name.take(e[0].name.len() as int) =~= e[0].name);
        assert(e[0].name.len() == common(e).len());
    } else {
        let d = e.drop_last();
        lemma_common_parts(d);
        let was = common(d);
        let last = e[e.len() - 1].name;
        let n = shared_len(was, last) as int;
        let now = common(e);
        lemma_shared_len(was, last);
        assert(now == was.take(n));
        assert forall|i: int| 0 <= i < e.len() implies starts_with(
            (#[trigger] e[i]).name,
            now,
        ) by {
            if i < d.len() {
                assert(starts_with(d[i].name, was));
                assert(e[i].name.take(n) =~= e[i].name.take(was.len() as int).take(n));
            } else {
                assert(last.take(n) =~= now);
            }
        }
        if n == last.len() {
            assert(e[e.len() - 1].name.len() == n);
        } else if n < was.len() {
            let x = d[0].name;
            assert(starts_with(d[0].name, was));
            assert(x.take(was.len() as int)[n] == x[n]);
            assert(e[0].name == x);
            assert(e[0].name[n] != e[e.len() - 1].name[n]);
        } else {
            if exists|i: int| 0 <= i < d.len() && (#[trigger] d[i]).name.len() == was.len() {
                let i = choose|i: int| 0 <= i < d.len() && (#[trigger] d[i]).name.len()
                    == was.len();
                assert(e[i].name.len() == n);
            } else {
                let (i, j) = choose|i: int, j: int|
                    0 <= i < d.len() && 0 <= j < d.len() && n < (#[trigger] d[i]).name.len() && n
                        < (#[trigger] d[j]).name.len() && d[i].name[n] != d[j].name[n];
                assert(e[i].name == d[i].name && e[j].name == d[j].name);
                assert(e[i].name[n] != e[j].name[n]);
            }
        }
    }
}

/// Where more names fit, what is typed is completed as far as they all go together,
/// and no less far.
pub proof fn law_names_are_completed_as_far_as_they_agree(e: Seq<DirEntryView>, typed: Seq<char>)
    ensures
        ({
            let fit = e.filter(|x: DirEntryView| starts_with(x.name, typed));
            fit.len() > 1 ==> {
                &&& completion(e, typed) is Some
                &&& part_at(fit, completion(e, typed)->0.len() as int)
                &&& forall|i: int|
                    0 <= i < fit.len() ==> starts_with(
                        (#[trigger] fit[i]).name,
                        completion(e, typed)->0,
                    )
            }
        }),
{
    law_entries_fit_by_their_start(e, typed);
    let fit = matching(e, typed);
    if fit.len() > 1 {
        lemma_common_parts(fit);
    }
}

proof fn lemma_word_starts(s: Seq<char>, from: int, i: int)
    requires
        0 <= from <= i <= s.len(),
        forall|k: int| from <= k < i ==> !is_white(#[trigger] s[k]),
        from == 0 || is_white(s[from - 1]),
    ensures
        before_word(s, i) == from,
    decreases i,
{
    if i > from {
        assert(!is_white(s[i - 1]));
        lemma_word_starts(s, from, i - 1);
    }
}

/// Behind an `@` the directory that is typed is listed for the name that is begun:
/// what is typed up to the last slash, and what is behind it.
pub proof fn law_a_path_behind_an_at_is_listed(
    s: AppView,
    from: int,
    dir: Seq<char>,
    name: Seq<char>,
)
    requires
        s.composer.wf(),
        0 <= from <= s.composer.cursor,
        from == 0 || is_white(s.composer.input[from - 1]),
        forall|k: int| from <= k < s.composer.cursor ==> !is_white(#[trigger] s.composer.input[k]),
        s.composer.input.subrange(from, s.composer.cursor as int) == seq!['@'] + dir + seq!['/']
            + name,
        lacks(name, '/'),
        dir.len() == 0 || dir[0] != '@',
    ensures
        s.completing() == (AppView {
            effects: s.effects.push(
                EffectView::ListDirectory { dir: dir + seq!['/'], prefix: name },
            ),
            ..s
        }),
{
    let c = s.composer;
    lemma_word_starts(c.input, from, c.cursor as int);
    let token = seq!['@'] + dir + seq!['/'] + name;
    let path = dir + seq!['/'] + name;
    assert(token[0] == '@');
    assert(token.skip(1) =~= path);
    assert(token[1] == path[0]);
    assert(path[0] != '@');
    law_a_character_is_found_last(dir, '/', name);
    assert(path.take(dir.len() as int + 1) =~= dir + seq!['/']);
    assert(path.skip(dir.len() as int + 1) =~= name);
}

/// What a listing completes goes in at the cursor, behind what is typed; the rest
/// of the line stays.
pub proof fn law_a_completion_goes_in_at_the_cursor(
    s: AppView,
    typed: Seq<char>,
    e: Seq<DirEntryView>,
    more: Seq<char>,
)
    requires
        s.composer.wf(),
        completion(e, typed) == Some(typed + more),
        s.composer.input.len() + more.len() <= usize::MAX,
    ensures
        ({
            let c = s.composer;
            let at = c.cursor as int;
            let d = s.listed(typed, e).composer;
            &&& more.len() > 0 ==> d.input == c.input.take(at) + more + c.input.skip(at)
                && d.cursor == at + more.len()
            &&& more.len() == 0 ==> s.listed(typed, e) == s
        }),
{
    let text = typed + more;
    assert(text.skip(typed.len() as int) =~= more);
    lemma_synced(s.composer.inserted(more));
}

} // verus!
