//! Completing `@path` references from a directory listing.

use crate::app::editor::before_word;
use crate::app::state::{App, AppView, Composer, ComposerView, Effect, EffectView};
use crate::paths::{after_last, expanded, is_homed, joined, last_index, resolve};
use crate::text::{begins_with, chars_of, is_whitespace, slice_text, starts_with};
use vstd::prelude::*;

verus! {

/// A file or directory in a listing.
pub struct DirEntry {
    pub name: String,
    pub is_dir: bool,
}

pub struct DirEntryView {
    pub name: Seq<char>,
    pub is_dir: bool,
}

impl View for DirEntry {
    type V = DirEntryView;

    open spec fn view(&self) -> DirEntryView {
        DirEntryView { name: self.name@, is_dir: self.is_dir }
    }
}

pub open spec fn listing_view(e: Seq<DirEntry>) -> Seq<DirEntryView> {
    e.map_values(|x: DirEntry| x@)
}

/// The entries whose name starts with `prefix`, in order.
pub open spec fn matching(e: Seq<DirEntryView>, prefix: Seq<char>) -> Seq<DirEntryView>
    decreases e.len(),
{
    if e.len() == 0 {
        Seq::empty()
    } else {
        let before = matching(e.drop_last(), prefix);
        if starts_with(e.last().name, prefix) {
            before.push(e.last())
        } else {
            before
        }
    }
}

/// The number of characters `a` and `b` start with in common.
pub open spec fn shared_len(a: Seq<char>, b: Seq<char>) -> nat
    decreases a.len(),
{
    if a.len() == 0 || b.len() == 0 || a[0] != b[0] {
        0
    } else {
        1 + shared_len(a.drop_first(), b.drop_first())
    }
}

/// The longest text that every name of `e` starts with.
pub open spec fn common(e: Seq<DirEntryView>) -> Seq<char>
    decreases e.len(),
{
    if e.len() == 0 {
        Seq::empty()
    } else if e.len() == 1 {
        e[0].name
    } else {
        let before = common(e.drop_last());
        before.take(shared_len(before, e.last().name) as int)
    }
}

/// What a listing completes `prefix` to: the only match, with a slash behind
/// a directory, or what all matches have in common.
pub open spec fn completion(e: Seq<DirEntryView>, prefix: Seq<char>) -> Option<Seq<char>> {
    let m = matching(e, prefix);
    if m.len() == 0 {
        None
    } else if m.len() == 1 {
        Some(
            if m[0].is_dir {
                m[0].name.push('/')
            } else {
                m[0].name
            },
        )
    } else {
        Some(common(m))
    }
}

/// A partial path as the directory to list and the start of a name.
pub open spec fn split_path(partial: Seq<char>) -> (Seq<char>, Seq<char>) {
    let slash = last_index(partial, '/');
    (partial.take(slash + 1), partial.skip(slash + 1))
}

impl ComposerView {
    /// The partial path of the `@path` reference that ends at the cursor, split
    /// into its directory and the start of a name.
    pub open spec fn at_path(self) -> Option<(Seq<char>, Seq<char>)> {
        let token = self.input.subrange(self.word_start(), self.cursor as int);
        if token.len() == 0 || token[0] != '@' || (token.len() > 1 && token[1] == '@') {
            None
        } else {
            Some(split_path(token.skip(1)))
        }
    }
}

impl AppView {
    /// Tab: the directory of the `@path` reference at the cursor is listed.
    pub open spec fn completing(self) -> AppView {
        match self.composer.at_path() {
            Some((dir, prefix)) => self.asking(EffectView::ListDirectory { dir, prefix }),
            None => self,
        }
    }

    /// A listing arrived: what it adds to the reference is inserted.
    pub open spec fn listed(self, prefix: Seq<char>, e: Seq<DirEntryView>) -> AppView {
        match completion(e, prefix) {
            Some(text) => if text.len() > prefix.len() {
                self.with_composer(
                    self.composer.inserted(text.skip(prefix.len() as int)),
                ).resynced()
            } else {
                self
            },
            None => self,
        }
    }
}

proof fn lemma_shared(a: Seq<char>, b: Seq<char>)
    ensures
        shared_len(a, b) <= a.len(),
        shared_len(a, b) <= b.len(),
        a.take(shared_len(a, b) as int) == b.take(shared_len(a, b) as int),
    decreases a.len(),
{
    if !(a.len() == 0 || b.len() == 0 || a[0] != b[0]) {
        lemma_shared(a.drop_first(), b.drop_first());
        let n = shared_len(a, b) as int;
        let x = a.drop_first().take(n - 1);
        let y = b.drop_first().take(n - 1);
        assert(a.take(n) =~= seq![a[0]] + x);
        assert(b.take(n) =~= seq![b[0]] + y);
    } else {
        assert(a.take(0) =~= b.take(0));
    }
}

proof fn lemma_shares(a: Seq<char>, b: Seq<char>, p: Seq<char>)
    requires
        starts_with(a, p),
        starts_with(b, p),
    ensures
        p.len() <= shared_len(a, b),
    decreases p.len(),
{
    if p.len() > 0 {
        assert(a[0] == a.take(p.len() as int)[0]);
        assert(b[0] == b.take(p.len() as int)[0]);
        assert(a.drop_first().take(p.len() - 1) =~= a.take(p.len() as int).drop_first());
        assert(b.drop_first().take(p.len() - 1) =~= b.take(p.len() as int).drop_first());
        lemma_shares(a.drop_first(), b.drop_first(), p.drop_first());
    }
}

proof fn lemma_matching(e: Seq<DirEntryView>, prefix: Seq<char>)
    ensures
        forall|i: int|
            0 <= i < matching(e, prefix).len() ==> starts_with(
                (#[trigger] matching(e, prefix)[i]).name,
                prefix,
            ),
    decreases e.len(),
{
    if e.len() > 0 {
        lemma_matching(e.drop_last(), prefix);
        let before = matching(e.drop_last(), prefix);
        assert forall|i: int| 0 <= i < matching(e, prefix).len() implies starts_with(
            (#[trigger] matching(e, prefix)[i]).name,
            prefix,
        ) by {
            if i < before.len() {
                assert(matching(e, prefix)[i] == before[i]);
            }
        }
    }
}

proof fn lemma_common(e: Seq<DirEntryView>, prefix: Seq<char>)
    requires
        e.len() > 0,
        forall|i: int| 0 <= i < e.len() ==> starts_with((#[trigger] e[i]).name, prefix),
    ensures
        starts_with(common(e), prefix),
        forall|i: int| 0 <= i < e.len() ==> starts_with((#[trigger] e[i]).name, common(e)),
    decreases e.len(),
{
    if e.len() == 1 {
        assert(e[0].name.take(e[0].name.len() as int) =~= e[0].name);
    } else {
        let rest = e.drop_last();
        assert forall|i: int| 0 <= i < rest.len() implies starts_with(
            (#[trigger] rest[i]).name,
            prefix,
        ) by {
            assert(rest[i] == e[i]);
        }
        lemma_common(rest, prefix);
        let c = common(rest);
        let last = e.last().name;
        lemma_shared(c, last);
        lemma_shares(c, last, prefix);
        let n = shared_len(c, last) as int;
        assert(c.take(n).take(prefix.len() as int) =~= c.take(prefix.len() as int));
        assert(last.take(n) == common(e));
        assert forall|i: int| 0 <= i < e.len() implies starts_with(
            (#[trigger] e[i]).name,
            common(e),
        ) by {
            if i < rest.len() {
                assert(rest[i] == e[i]);
                let name = e[i].name;
                assert(name.take(n) =~= name.take(c.len() as int).take(n));
            }
        }
    }
}

/// A completion extends what was typed, and while more than one entry matches
/// it is the start of each of them.
pub proof fn law_completion_extends_and_is_shared(e: Seq<DirEntryView>, prefix: Seq<char>)
    ensures
        completion(e, prefix) matches Some(text) ==> starts_with(text, prefix),
        matching(e, prefix).len() > 1 ==> forall|i: int|
            0 <= i < matching(e, prefix).len() ==> starts_with(
                (#[trigger] matching(e, prefix)[i]).name,
                completion(e, prefix)->0,
            ),
{
    let m = matching(e, prefix);
    lemma_matching(e, prefix);
    if m.len() == 1 {
        let name = m[0].name;
        assert(starts_with(name, prefix));
        assert(name.push('/').take(prefix.len() as int) =~= name.take(prefix.len() as int));
    } else if m.len() > 1 {
        lemma_common(m, prefix);
    }
}

/// The characters `a` and `b` start with in common.
fn shared(a: &[char], b: &[char]) -> (r: usize)
    ensures
        r == shared_len(a@, b@),
        r <= a@.len(),
{
    let mut i: usize = 0;
    assert(a@.skip(0) =~= a@);
    assert(b@.skip(0) =~= b@);
    while i < a.len() && i < b.len() && a[i] == b[i]
        invariant
            i <= a@.len(),
            i <= b@.len(),
            shared_len(a@, b@) == i + shared_len(a@.skip(i as int), b@.skip(i as int)),
        decreases a@.len() - i,
    {
        assert(a@.skip(i as int).drop_first() =~= a@.skip(i + 1));
        assert(b@.skip(i as int).drop_first() =~= b@.skip(i + 1));
        i += 1;
    }
    i
}

/// What a listing completes `prefix` to.
pub fn complete(entries: &Vec<DirEntry>, prefix: &str) -> (r: Option<String>)
    ensures
        crate::json::text_opt(r) == completion(listing_view(entries@), prefix@),
{
    let ghost all = listing_view(entries@);
    let mut found: usize = 0;
    let mut is_dir = false;
    let mut text = String::new();
    assert(all.take(0) =~= Seq::empty());
    let mut i: usize = 0;
    while i < entries.len()
        invariant
            i <= entries.len(),
            all == listing_view(entries@),
            found == matching(all.take(i as int), prefix@).len(),
            found <= i,
            found > 0 ==> text@ == common(matching(all.take(i as int), prefix@)),
            found == 1 ==> is_dir == matching(all.take(i as int), prefix@)[0].is_dir,
        decreases entries.len() - i,
    {
        let ghost before = matching(all.take(i as int), prefix@);
        assert(all.take(i + 1).drop_last() =~= all.take(i as int));
        assert(all.take(i + 1).last() == entries@[i as int]@);
        if begins_with(&entries[i].name, prefix) {
            let ghost after = matching(all.take(i + 1), prefix@);
            assert(after == before.push(entries@[i as int]@));
            if found == 0 {
                text = entries[i].name.clone();
                is_dir = entries[i].is_dir;
            } else {
                assert(after.drop_last() =~= before);
                let a = chars_of(&text);
                let b = chars_of(&entries[i].name);
                let n = shared(&a, &b);
                text = slice_text(&a, 0, n);
                assert(text@ =~= a@.take(n as int));
            }
            found += 1;
        }
        i += 1;
    }
    assert(all.take(all.len() as int) =~= all);
    if found == 0 {
        None
    } else {
        if found == 1 && is_dir {
            text.push('/');
        }
        Some(text)
    }
}

impl Composer {
    fn at_path(&self) -> (r: Option<(String, String)>)
        requires
            self@.wf(),
        ensures
            match r {
                Some(x) => self@.at_path() == Some((x.0@, x.1@)),
                None => self@.at_path() is None,
            },
    {
        let cs = chars_of(&self.input);
        let mut start: usize = self.cursor;
        while start > 0 && !is_whitespace(cs[start - 1])
            invariant
                start <= self.cursor <= cs.len(),
                cs@ == self.input@,
                before_word(self.input@, self.cursor as int) == before_word(
                    self.input@,
                    start as int,
                ),
            decreases start,
        {
            start -= 1;
        }
        let ghost token = self@.input.subrange(start as int, self.cursor as int);
        if start == self.cursor || cs[start] != '@' {
            return None;
        }
        assert(token[0] == '@');
        if start + 1 < self.cursor && cs[start + 1] == '@' {
            assert(token[1] == '@');
            return None;
        }
        let partial = slice_text(&cs, start + 1, self.cursor);
        assert(partial@ =~= token.skip(1));
        let ps = chars_of(&partial);
        assert(ps@.take(ps@.len() as int) =~= ps@);
        let cut = after_last(&ps, ps.len(), '/');
        let dir = slice_text(&ps, 0, cut);
        let prefix = slice_text(&ps, cut, ps.len());
        assert(dir@ =~= partial@.take(cut as int));
        assert(prefix@ =~= partial@.skip(cut as int));
        Some((dir, prefix))
    }
}

impl App {
    /// Tab path-completion for `@path` tokens: asks for the listing of the
    /// token's directory.
    pub(crate) fn complete_at_path(&mut self)
        requires
            old(self)@.wf(),
        ensures
            final(self)@ == old(self)@.completing(),
            final(self)@.wf(),
    {
        if let Some((dir, prefix)) = self.composer.at_path() {
            self.ask(Effect::ListDirectory { dir, prefix });
        }
    }

    /// The directory that a listing asked for as `dir` is of: `~` means the home
    /// directory, and the rest is seen from the project's root.  Which directory
    /// is the home directory depends on the machine.
    pub fn directory_to_list(&self, dir: &str) -> (r: String)
        ensures
            exists|home: Option<Seq<char>>|
                r@ == joined(self@.session.project_root, #[trigger] expanded(dir@, home)),
            !is_homed(dir@) ==> r@ == joined(self@.session.project_root, dir@),
    {
        resolve(dir, &self.session.project_root)
    }

    /// The main loop listed a directory.
    pub fn directory_listed(&mut self, prefix: &str, entries: &Vec<DirEntry>)
        requires
            old(self)@.wf(),
        ensures
            final(self)@ == old(self)@.listed(prefix@, listing_view(entries@)),
            final(self)@.wf(),
    {
        if let Some(text) = complete(entries, prefix) {
            let cs = chars_of(&text);
            let n = chars_of(prefix).len();
            if cs.len() > n {
                let rest = slice_text(&cs, n, cs.len());
                assert(rest@ =~= text@.skip(n as int));
                self.composer.insert_str(&rest);
                self.composer.sync_input_mode();
            }
        }
    }
}

} // verus!
