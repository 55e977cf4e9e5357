//! The composer: line editing, suggestions and input history.

use crate::app::state::{
    App, AppView, Chat, ChatView, Composer, ComposerView, Effect, EffectView, InputMode,
};
use crate::app::transcript::{EntryView, TranscriptEntry};
use crate::commands::{
    command_table, commands, custom_rows, suggestions_view, Suggestion, SuggestionView,
};
use crate::text::{
    begins_with, chars_of, contains_text, decimal, drop_white, has_text, is_white, is_whitespace, matches_at,
    number, replace, replaced, same, skip_white, slice_text, starts_with, string_of, texts,
    trim_start, word_len,
};
use vstd::prelude::*;

verus! {

/// How well a command name answers what was typed: exactly, as a prefix,
/// somewhere inside, or not at all.
pub open spec fn match_rank(name: Seq<char>, token: Seq<char>) -> int {
    if name == token {
        0
    } else if starts_with(name, token) {
        1
    } else if has_text(name, token) {
        2
    } else {
        3
    }
}

/// The rows of one rank, in order.
pub open spec fn of_rank(rows: Seq<SuggestionView>, token: Seq<char>, rank: int) -> Seq<
    SuggestionView,
>
    decreases rows.len(),
{
    if rows.len() == 0 {
        Seq::empty()
    } else {
        let before = of_rank(rows.drop_last(), token, rank);
        if match_rank(rows.last().name, token) == rank {
            before.push(rows.last())
        } else {
            before
        }
    }
}

/// The rows that answer `token`: exact matches, then prefixes, then names
/// that hold it.
pub open spec fn ranked(rows: Seq<SuggestionView>, token: Seq<char>) -> Seq<SuggestionView> {
    of_rank(rows, token, 0) + of_rank(rows, token, 1) + of_rank(rows, token, 2)
}

/// The number of rows before the first one called `name`.
pub open spec fn row_pos(rows: Seq<SuggestionView>, name: Seq<char>) -> int
    decreases rows.len(),
{
    if rows.len() == 0 || rows[0].name == name {
        0
    } else {
        1 + row_pos(rows.drop_first(), name)
    }
}

/// The position of the first row called `name`, or 0.
pub open spec fn row_named(rows: Seq<SuggestionView>, name: Seq<char>) -> int {
    if row_pos(rows, name) < rows.len() {
        row_pos(rows, name)
    } else {
        0
    }
}

/// The composer's mark for the staged image number `n`.
pub open spec fn image_token(n: nat) -> Seq<char> {
    "[Image #"@ + decimal(n) + "]"@
}

/// `s` ends with `p`.
pub open spec fn ends_with(s: Seq<char>, p: Seq<char>) -> bool {
    p.len() <= s.len() && s.skip(s.len() - p.len()) == p
}

/// The number of the staged image whose mark ends `s`, or 0.
pub open spec fn token_ending(s: Seq<char>, count: nat) -> nat
    decreases count,
{
    if count == 0 {
        0
    } else if token_ending(s, (count - 1) as nat) > 0 {
        token_ending(s, (count - 1) as nat)
    } else if ends_with(s, image_token(count)) {
        count
    } else {
        0
    }
}

/// The number of the staged image whose mark begins `s`, or 0.
pub open spec fn token_starting(s: Seq<char>, count: nat) -> nat
    decreases count,
{
    if count == 0 {
        0
    } else if token_starting(s, (count - 1) as nat) > 0 {
        token_starting(s, (count - 1) as nat)
    } else if starts_with(s, image_token(count)) {
        count
    } else {
        0
    }
}

/// `s` with the marks above `gone`, up to `count`, each one lower.
pub open spec fn renumbered(s: Seq<char>, gone: nat, count: nat) -> Seq<char>
    decreases count,
{
    if count <= gone {
        s
    } else {
        replace(
            renumbered(s, gone, (count - 1) as nat),
            image_token(count),
            image_token((count - 1) as nat),
        )
    }
}

impl AppView {
    /// A notice at the end of the transcript.
    pub open spec fn noticed(self, text: Seq<char>) -> AppView {
        AppView { chat: self.chat.noticed(text), ..self }
    }

    /// Work for the main loop.
    pub open spec fn asking(self, effect: EffectView) -> AppView {
        AppView { effects: self.effects.push(effect), ..self }
    }
}

impl ChatView {
    /// A notice at the end of the transcript.
    pub open spec fn noticed(self, text: Seq<char>) -> ChatView {
        ChatView { transcript: self.transcript.push(EntryView::Notice(text)), ..self }
    }
}

impl ComposerView {
    /// Every command a suggestion can come from.
    pub open spec fn candidates(self) -> Seq<SuggestionView> {
        command_table() + custom_rows(self.custom_commands)
    }

    /// What is typed after the slash, while it is one word.
    pub open spec fn command_token(self) -> Option<Seq<char>> {
        let t = trim_start(self.input);
        if self.input_mode != InputMode::Command || self.picker is Some {
            None
        } else if t.len() == 0 || t[0] != '/' {
            None
        } else if word_len(t.drop_first()) < t.drop_first().len() {
            None
        } else {
            Some(t.drop_first())
        }
    }

    /// The suggestions rebuilt.  A highlight the user moved off the first row
    /// stays on the same command.
    #[verifier::opaque]
    pub open spec fn suggested(self) -> ComposerView {
        match self.command_token() {
            None => ComposerView { suggestions: Seq::empty(), suggestion_index: 0, ..self },
            Some(token) => {
                let rows = ranked(self.candidates(), token);
                let index = if 0 < self.suggestion_index < self.suggestions.len() {
                    row_named(rows, self.suggestions[self.suggestion_index as int].name)
                } else {
                    0
                };
                ComposerView { suggestions: rows, suggestion_index: index as usize, ..self }
            },
        }
    }

    /// The input mode recomputed from the text, and the suggestions with it.
    /// An inline prompt keeps the composer to itself.
    pub open spec fn synced(self) -> ComposerView {
        if self.prompt is Some || self.web_key_backend is Some {
            self
        } else {
            let t = trim_start(self.input);
            ComposerView {
                input_mode: if t.len() > 0 && t[0] == '/' {
                    InputMode::Command
                } else {
                    InputMode::Chat
                },
                ..self
            }.suggested()
        }
    }

    /// The composer holding `text`, with the cursor at its end.
    pub open spec fn with_input(self, text: Seq<char>) -> ComposerView {
        ComposerView { input: text, cursor: text.len() as usize, ..self }.synced()
    }

    /// The composer emptied; staged images go with its contents.
    pub open spec fn emptied(self) -> ComposerView {
        ComposerView {
            input: Seq::empty(),
            cursor: 0,
            history_pos: None,
            pending_images: Seq::empty(),
            ..self
        }.synced()
    }

    /// `text` inserted at the cursor, which lands behind it.
    pub open spec fn inserted(self, text: Seq<char>) -> ComposerView {
        ComposerView {
            input: self.input.take(self.cursor as int) + text + self.input.skip(self.cursor as int),
            cursor: (self.cursor + text.len()) as usize,
            ..self
        }
    }

    /// The staged image `n` dropped, its mark gone from between `before` and
    /// `after`, and later marks renumbered.
    pub open spec fn without_image(self, n: nat, before: Seq<char>, after: Seq<char>) -> ComposerView {
        let count = self.pending_images.len();
        let left = renumbered(before, n, count);
        ComposerView {
            input: left + renumbered(after, n, count),
            cursor: left.len() as usize,
            pending_images: self.pending_images.remove(n - 1),
            ..self
        }
    }

    /// Backspace: the character before the cursor goes, or the whole mark of
    /// a staged image that ends there.
    #[verifier::opaque]
    pub open spec fn deleted_back(self) -> ComposerView {
        let c = self.cursor as int;
        let before = self.input.take(c);
        let n = token_ending(before, self.pending_images.len());
        if c == 0 {
            self
        } else if n > 0 {
            self.without_image(n, before.take(c - image_token(n).len()), self.input.skip(c))
        } else {
            ComposerView {
                input: self.input.remove(c - 1),
                cursor: (c - 1) as usize,
                ..self
            }
        }
    }

    /// Delete: the character under the cursor goes, or the whole mark of a
    /// staged image that starts there.
    #[verifier::opaque]
    pub open spec fn deleted_forward(self) -> ComposerView {
        let c = self.cursor as int;
        let after = self.input.skip(c);
        let n = token_starting(after, self.pending_images.len());
        if c >= self.input.len() {
            self
        } else if n > 0 {
            self.without_image(n, self.input.take(c), after.skip(image_token(n).len() as int))
        } else {
            ComposerView { input: self.input.remove(c), ..self }
        }
    }

    /// Backspace pressed until the cursor is at `end` or before it.
    pub open spec fn deleted_to(self, end: int) -> ComposerView
        decreases self.cursor,
    {
        if self.cursor <= end || self.deleted_back().cursor >= self.cursor {
            self
        } else {
            self.deleted_back().deleted_to(end)
        }
    }

    /// The end of the text before the cursor once its trailing white space is
    /// gone.
    pub open spec fn white_start(self) -> int {
        crate::text::trim_end(self.input.take(self.cursor as int)).len() as int
    }

    /// The start of the word that ends at the cursor.
    pub open spec fn word_start(self) -> int {
        before_word(self.input, self.cursor as int)
    }

    /// Ctrl-W: the white space before the cursor goes, then the word before
    /// it.
    pub open spec fn word_deleted(self) -> ComposerView {
        let s = self.deleted_to(self.white_start());
        s.deleted_to(s.word_start())
    }

    /// Recalls the previous submitted input; the first recall keeps the draft.
    pub open spec fn recalled_prev(self) -> ComposerView {
        if self.history.len() == 0 || self.history_pos == Some(0usize) {
            self
        } else {
            match self.history_pos {
                None => {
                    let pos = (self.history.len() - 1) as usize;
                    ComposerView {
                        history_pos: Some(pos),
                        ..ComposerView { history_draft: self.input, ..self }.with_input(
                            self.history[pos as int],
                        )
                    }
                },
                Some(p) => {
                    let pos = (p - 1) as usize;
                    ComposerView {
                        history_pos: Some(pos),
                        ..self.with_input(self.history[pos as int])
                    }
                },
            }
        }
    }

    /// Recalls the next submitted input; past the newest comes the draft.
    pub open spec fn recalled_next(self) -> ComposerView {
        match self.history_pos {
            None => self,
            Some(p) => if p + 1 < self.history.len() {
                ComposerView {
                    history_pos: Some((p + 1) as usize),
                    ..self.with_input(self.history[p + 1])
                }
            } else {
                ComposerView {
                    history_pos: None,
                    ..ComposerView { history_draft: Seq::empty(), ..self }.with_input(self.history_draft)
                }
            },
        }
    }

    /// A submitted input remembered, unless it repeats the newest.
    pub open spec fn remembered(self, input: Seq<char>) -> ComposerView {
        if self.history.len() > 0 && self.history.last() == input {
            self
        } else {
            ComposerView { history: self.history.push(input), ..self }
        }
    }

    /// The highlighted suggestion in the composer, with a blank behind it when
    /// arguments follow.
    pub open spec fn accepted(self) -> ComposerView {
        if self.suggestion_index < self.suggestions.len() {
            let row = self.suggestions[self.suggestion_index as int];
            self.with_input(if row.takes_args {
                "/"@ + row.name + " "@
            } else {
                "/"@ + row.name
            })
        } else {
            self
        }
    }

    /// The composer with text edited elsewhere: one line ending at the end is
    /// the editor's, not the user's.
    pub open spec fn edited(self, text: Seq<char>) -> ComposerView {
        let kept = if text.len() > 0 && text.last() == '\n' {
            crate::text::strip_cr(text.drop_last())
        } else {
            text
        };
        ComposerView { history_pos: None, ..self }.with_input(kept)
    }
}

/// Rebuilding the suggestions changes nothing else.
pub proof fn lemma_synced(s: ComposerView)
    ensures
        s.synced().input == s.input,
        s.synced().cursor == s.cursor,
        s.synced().vim == s.vim,
        s.synced().picker == s.picker,
        s.synced().prompt == s.prompt,
        s.synced().web_key_backend == s.web_key_backend,
        s.synced().custom_commands == s.custom_commands,
        s.synced().pending_images == s.pending_images,
        s.synced().history == s.history,
        s.synced().history_pos == s.history_pos,
        s.synced().history_draft == s.history_draft,
        s.wf() ==> s.synced().wf(),
{
    reveal(ComposerView::suggested);
}

/// The start of the run of characters that are not white before `i`.
pub open spec fn before_word(s: Seq<char>, i: int) -> int
    decreases i,
{
    if 0 < i <= s.len() && !is_white(s[i - 1]) {
        before_word(s, i - 1)
    } else {
        i
    }
}

proof fn lemma_rank_take(rows: Seq<SuggestionView>, token: Seq<char>, rank: int, i: int)
    requires
        0 <= i < rows.len(),
    ensures
        of_rank(rows.take(i + 1), token, rank) == (if match_rank(rows[i].name, token) == rank {
            of_rank(rows.take(i), token, rank).push(rows[i])
        } else {
            of_rank(rows.take(i), token, rank)
        }),
{
    assert(rows.take(i + 1).drop_last() == rows.take(i));
}

fn rank_of(name: &str, token: &str) -> (r: u8)
    ensures
        r == match_rank(name@, token@),
{
    if same(name, token) {
        0
    } else if begins_with(name, token) {
        1
    } else if contains_text(name, token) {
        2
    } else {
        3
    }
}

fn push_rank(out: &mut Vec<Suggestion>, rows: &Vec<Suggestion>, token: &str, rank: u8)
    ensures
        suggestions_view(final(out)@) == suggestions_view(old(out)@) + of_rank(
            suggestions_view(rows@),
            token@,
            rank as int,
        ),
{
    let ghost all = suggestions_view(rows@);
    let ghost start = suggestions_view(out@);
    let mut i: usize = 0;
    assert(start + of_rank(all.take(0), token@, rank as int) =~= start);
    while i < rows.len()
        invariant
            i <= rows.len(),
            all == suggestions_view(rows@),
            suggestions_view(out@) == start + of_rank(all.take(i as int), token@, rank as int),
        decreases rows.len() - i,
    {
        proof {
            lemma_rank_take(all, token@, rank as int, i as int);
        }
        assert(all[i as int] == rows@[i as int]@);
        if rank_of(&rows[i].name, token) == rank {
            let row = rows[i].copy();
            let ghost before = suggestions_view(out@);
            out.push(row);
            assert(suggestions_view(out@) =~= before.push(row@));
            assert(before.push(row@) =~= start + of_rank(
                all.take(i as int),
                token@,
                rank as int,
            ).push(row@));
        }
        i += 1;
    }
    assert(all.take(i as int) =~= all);
}

fn find_row(rows: &Vec<Suggestion>, name: &str) -> (r: usize)
    ensures
        r == row_named(suggestions_view(rows@), name@),
{
    let ghost all = suggestions_view(rows@);
    let mut i: usize = 0;
    assert(all.skip(0) =~= all);
    while i < rows.len()
        invariant
            i <= rows.len(),
            all == suggestions_view(rows@),
            row_pos(all, name@) == i + row_pos(all.skip(i as int), name@),
        decreases rows.len() - i,
    {
        assert(all.skip(i as int)[0] == rows@[i as int]@);
        if same(&rows[i].name, name) {
            return i;
        }
        assert(all.skip(i as int).drop_first() =~= all.skip(i + 1));
        i += 1;
    }
    0
}

/// `s[..at] + text + s[end..]`, and the position behind `text`.
pub fn splice(s: &str, at: usize, end: usize, text: &str) -> (r: (String, usize))
    requires
        at <= end <= s@.len(),
    ensures
        r.0@ == s@.take(at as int) + text@ + s@.skip(end as int),
        r.1 == at + text@.len(),
{
    let cs = chars_of(s);
    let ts = chars_of(text);
    let mut out: Vec<char> = Vec::new();
    let mut i: usize = 0;
    while i < at
        invariant
            i <= at <= end <= cs.len(),
            cs@ == s@,
            out@ == s@.take(i as int),
        decreases at - i,
    {
        out.push(cs[i]);
        i += 1;
    }
    let mut j: usize = 0;
    while j < ts.len()
        invariant
            j <= ts.len(),
            ts@ == text@,
            out@ == s@.take(at as int) + text@.take(j as int),
        decreases ts.len() - j,
    {
        out.push(ts[j]);
        j += 1;
    }
    assert(text@.take(j as int) =~= text@);
    let behind = out.len();
    let mut k: usize = end;
    while k < cs.len()
        invariant
            end <= k <= cs.len(),
            cs@ == s@,
            out@ == s@.take(at as int) + text@ + s@.subrange(end as int, k as int),
        decreases cs.len() - k,
    {
        out.push(cs[k]);
        k += 1;
    }
    assert(s@.subrange(end as int, k as int) =~= s@.skip(end as int));
    (string_of(&out), behind)
}

/// The composer's mark for the staged image number `n`.
pub fn image_mark(n: usize) -> (r: String)
    ensures
        r@ == image_token(n as nat),
{
    let mut m = "[Image #".to_string();
    m.append(&number(n as u64));
    m.append("]");
    m
}

proof fn lemma_token_len(n: nat)
    ensures
        image_token(n).len() >= 2,
{
    reveal_strlit("[Image #");
    reveal_strlit("]");
}

proof fn lemma_token_ending(s: Seq<char>, count: nat)
    ensures
        token_ending(s, count) <= count,
        token_ending(s, count) > 0 ==> ends_with(s, image_token(token_ending(s, count))),
    decreases count,
{
    if count > 0 {
        lemma_token_ending(s, (count - 1) as nat);
    }
}

proof fn lemma_token_starting(s: Seq<char>, count: nat)
    ensures
        token_starting(s, count) <= count,
        token_starting(s, count) > 0 ==> starts_with(s, image_token(token_starting(s, count))),
    decreases count,
{
    if count > 0 {
        lemma_token_starting(s, (count - 1) as nat);
    }
}

fn find_token_ending(s: &[char], count: usize) -> (r: usize)
    ensures
        r == token_ending(s@, count as nat),
{
    let mut n: usize = 0;
    while n < count
        invariant
            n <= count,
            token_ending(s@, n as nat) == 0,
        decreases count - n,
    {
        n += 1;
        let mark = chars_of(&image_mark(n));
        if mark.len() <= s.len() && matches_at(s, s.len() - mark.len(), &mark) {
            assert(s@.skip(s.len() - mark.len()).take(mark.len() as int) =~= s@.skip(
                s.len() - mark.len(),
            ));
            assert(token_ending(s@, n as nat) == n);
            proof {
                lemma_token_stays(s@, n as nat, count as nat, true);
            }
            return n;
        }
        proof {
            if ends_with(s@, image_token(n as nat)) {
                assert(s@.skip(s.len() - mark.len()).take(mark.len() as int) =~= s@.skip(
                    s.len() - mark.len(),
                ));
            }
        }
    }
    0
}

proof fn lemma_token_stays(s: Seq<char>, n: nat, count: nat, ending: bool)
    requires
        0 < n <= count,
        ending ==> token_ending(s, n) == n,
        !ending ==> token_starting(s, n) == n,
    ensures
        ending ==> token_ending(s, count) == n,
        !ending ==> token_starting(s, count) == n,
    decreases count,
{
    if n < count {
        lemma_token_stays(s, n, (count - 1) as nat, ending);
    }
}

fn find_token_starting(s: &[char], count: usize) -> (r: usize)
    ensures
        r == token_starting(s@, count as nat),
{
    let mut n: usize = 0;
    while n < count
        invariant
            n <= count,
            token_starting(s@, n as nat) == 0,
        decreases count - n,
    {
        n += 1;
        let mark = chars_of(&image_mark(n));
        assert(s@.skip(0) =~= s@);
        if matches_at(s, 0, &mark) {
            proof {
                lemma_token_stays(s@, n as nat, count as nat, false);
            }
            return n;
        }
    }
    0
}

fn renumber(s: &str, gone: usize, count: usize) -> (r: String)
    requires
        gone <= count,
    ensures
        r@ == renumbered(s@, gone as nat, count as nat),
{
    let mut out = s.to_string();
    let mut m: usize = gone;
    while m < count
        invariant
            gone <= m <= count,
            out@ == renumbered(s@, gone as nat, m as nat),
        decreases count - m,
    {
        let lower = image_mark(m);
        m += 1;
        let mark = image_mark(m);
        proof {
            lemma_token_len(m as nat);
        }
        out = replaced(&out, &mark, &lower);
    }
    out
}

impl Chat {
    /// Append a system notice to the transcript.
    pub fn notice(&mut self, message: String)
        ensures
            final(self)@ == old(self)@.noticed(message@),
    {
        self.transcript.push(TranscriptEntry::Notice(message));
        assert(self@.transcript =~= old(self)@.noticed(message@).transcript);
    }
}

impl App {
    /// Append a system notice to the transcript.
    pub fn notice(&mut self, message: String)
        ensures
            final(self)@ == old(self)@.noticed(message@),
    {
        self.chat.notice(message);
    }

    /// Hand work to the main loop.
    pub(crate) fn ask(&mut self, effect: Effect)
        ensures
            final(self)@ == old(self)@.asking(effect@),
    {
        self.effects.push(effect);
        assert(self@.effects =~= old(self)@.asking(effect@).effects);
    }
}

impl Composer {
    /// Rebuild the suggestion list from the typed `/command` prefix.  Prefix
    /// matches rank above substring matches; suggestions disappear once
    /// arguments are being typed.
    pub(crate) fn refresh_suggestions(&mut self)
        ensures
            final(self)@ == old(self)@.suggested(),
    {
        proof {
            reveal(ComposerView::suggested);
        }
        let previous: Option<String> = if self.suggestion_index > 0 && self.suggestion_index
            < self.suggestions.len() {
            Some(self.suggestions[self.suggestion_index].name.clone())
        } else {
            None
        };
        assert(old(self)@.suggestions.len() == self.suggestions@.len());
        assert(previous matches Some(name) ==> name@
            == old(self)@.suggestions[self.suggestion_index as int].name);
        self.suggestions = Vec::new();
        self.suggestion_index = 0;
        assert(self@.suggestions =~= Seq::empty());
        if self.input_mode != InputMode::Command || self.picker.is_some() {
            return ;
        }
        let cs = chars_of(&self.input);
        let start = skip_white(&cs, 0);
        assert(cs@.skip(0) =~= cs@);
        if start >= cs.len() || cs[start] != '/' {
            return ;
        }
        let ghost t = trim_start(self.input@);
        let token = slice_text(&cs, start + 1, cs.len());
        assert(token@ =~= t.drop_first());
        let mut i: usize = start + 1;
        while i < cs.len() && !is_whitespace(cs[i])
            invariant
                start < i <= cs.len(),
                word_len(cs@.skip(start + 1)) == (i - start - 1) + word_len(cs@.skip(i as int)),
            decreases cs.len() - i,
        {
            assert(cs@.skip(i as int).drop_first() =~= cs@.skip(i + 1));
            i += 1;
        }
        assert(cs@.skip(start + 1) =~= token@);
        if i < cs.len() {
            return ;
        }
        let mut rows = commands();
        let mut k: usize = 0;
        let ghost table = suggestions_view(rows@);
        assert(custom_rows(self.custom_commands@.take(0)) =~= Seq::empty());
        assert(table + Seq::empty() =~= table);
        while k < self.custom_commands.len()
            invariant
                k <= self.custom_commands.len(),
                suggestions_view(rows@) == table + custom_rows(
                    self.custom_commands@.take(k as int),
                ),
            decreases self.custom_commands.len() - k,
        {
            let row = self.custom_commands[k].suggestion();
            let ghost before = suggestions_view(rows@);
            rows.push(row);
            assert(suggestions_view(rows@) =~= before.push(row@));
            assert(custom_rows(self.custom_commands@.take(k + 1)) =~= custom_rows(
                self.custom_commands@.take(k as int),
            ).push(row@));
            assert(before.push(row@) =~= table + custom_rows(self.custom_commands@.take(k + 1)));
            k += 1;
        }
        assert(self.custom_commands@.take(k as int) =~= self.custom_commands@);
        let ghost all = suggestions_view(rows@);
        assert(all == old(self)@.candidates());
        let mut out: Vec<Suggestion> = Vec::new();
        push_rank(&mut out, &rows, &token, 0);
        push_rank(&mut out, &rows, &token, 1);
        push_rank(&mut out, &rows, &token, 2);
        assert(suggestions_view(out@) =~= ranked(all, token@));
        if let Some(name) = &previous {
            self.suggestion_index = find_row(&out, name);
        }
        self.suggestions = out;
    }

    /// Recompute [`InputMode`] from the input text, then refresh the command
    /// suggestions.
    pub(crate) fn sync_input_mode(&mut self)
        ensures
            final(self)@ == old(self)@.synced(),
            old(self)@.wf() ==> final(self)@.wf(),
    {
        proof {
            lemma_synced(self@);
        }
        if self.prompt.is_some() || self.web_key_backend.is_some() {
            return ;
        }
        let cs = chars_of(&self.input);
        let start = skip_white(&cs, 0);
        assert(cs@.skip(0) =~= cs@);
        self.input_mode = if start < cs.len() && cs[start] == '/' {
            InputMode::Command
        } else {
            InputMode::Chat
        };
        self.refresh_suggestions();
    }

    /// Replace the composer's text; the cursor lands at its end.
    pub(crate) fn set_input(&mut self, text: String)
        ensures
            final(self)@ == old(self)@.with_input(text@),
            final(self)@.input == text@,
            final(self)@.history == old(self)@.history,
            old(self)@.wf() ==> final(self)@.wf(),
    {
        self.cursor = chars_of(&text).len();
        self.input = text;
        proof {
            lemma_synced(self@);
        }
        self.sync_input_mode();
    }

    /// Empty the composer, dropping staged attachments with its contents.
    pub fn clear_input(&mut self)
        ensures
            final(self)@ == old(self)@.emptied(),
            old(self)@.wf() ==> final(self)@.wf(),
    {
        self.input = String::new();
        self.cursor = 0;
        self.history_pos = None;
        self.pending_images = Vec::new();
        assert(self@.input =~= Seq::empty());
        assert(self@.pending_images =~= Seq::empty());
        proof {
            lemma_synced(self@);
        }
        self.sync_input_mode();
    }

    /// Replace the composer with text edited externally.  Editors append a
    /// trailing newline, so at most one line ending is trimmed.
    pub fn set_input_from_editor(&mut self, text: String)
        ensures
            final(self)@ == old(self)@.edited(text@),
            old(self)@.wf() ==> final(self)@.wf(),
    {
        let cs = chars_of(&text);
        let mut end: usize = cs.len();
        if end > 0 && cs[end - 1] == '\n' {
            end -= 1;
            if end > 0 && cs[end - 1] == '\r' {
                end -= 1;
            }
        }
        let kept = slice_text(&cs, 0, end);
        assert(kept@ =~= (if text@.len() > 0 && text@.last() == '\n' {
            crate::text::strip_cr(text@.drop_last())
        } else {
            text@
        }));
        self.history_pos = None;
        self.set_input(kept);
    }

    /// Insert text at the cursor.
    pub(crate) fn insert_str(&mut self, text: &str)
        requires
            old(self)@.wf(),
        ensures
            final(self)@ == old(self)@.inserted(text@),
            final(self)@.wf(),
    {
        let (input, cursor) = splice(&self.input, self.cursor, self.cursor, text);
        self.input = input;
        self.cursor = cursor;
    }

    /// Insert one character at the cursor.
    pub(crate) fn insert_char(&mut self, c: char)
        requires
            old(self)@.wf(),
        ensures
            final(self)@ == old(self)@.inserted(seq![c]),
            final(self)@.wf(),
    {
        let mut text = String::new();
        text.push(c);
        assert(text@ =~= seq![c]);
        self.insert_str(&text);
    }

    /// Insert a hard line break at the cursor.
    pub(crate) fn insert_newline(&mut self)
        requires
            old(self)@.wf(),
        ensures
            final(self)@ == old(self)@.inserted(seq!['\n']),
            final(self)@.wf(),
    {
        self.insert_char('\n');
    }

    fn drop_image(&mut self, n: usize, before: String, after: String)
        requires
            0 < n <= old(self).pending_images.len(),
            old(self)@.wf(),
        ensures
            final(self)@ == old(self)@.without_image(n as nat, before@, after@),
            final(self)@.wf(),
    {
        let count = self.pending_images.len();
        assert(self@.pending_images.len() == count);
        let left = renumber(&before, n, count);
        let right = renumber(&after, n, count);
        self.cursor = chars_of(&left).len();
        let mut input = left;
        input.append(&right);
        self.input = input;
        let ghost images = self.pending_images@;
        self.pending_images.remove(n - 1);
        assert(self@.pending_images =~= texts(images).remove(n - 1));
    }

    /// Backspace.
    pub(crate) fn delete_back(&mut self)
        requires
            old(self)@.wf(),
        ensures
            final(self)@ == old(self)@.deleted_back(),
            final(self)@.wf(),
    {
        proof {
            reveal(ComposerView::deleted_back);
        }
        if self.cursor == 0 {
            return ;
        }
        let cs = chars_of(&self.input);
        let before = slice_text(&cs, 0, self.cursor);
        assert(before@ =~= self.input@.take(self.cursor as int));
        let bs = chars_of(&before);
        assert(self@.pending_images.len() == self.pending_images@.len());
        let n = find_token_ending(&bs, self.pending_images.len());
        if n > 0 {
            proof {
                lemma_token_ending(before@, self.pending_images.len() as nat);
            }
            let mark = chars_of(&image_mark(n));
            let head = slice_text(&bs, 0, bs.len() - mark.len());
            let tail = slice_text(&cs, self.cursor, cs.len());
            assert(head@ =~= before@.take(self.cursor - image_token(n as nat).len()));
            assert(tail@ =~= self.input@.skip(self.cursor as int));
            self.drop_image(n, head, tail);
        } else {
            let (input, cursor) = splice(&self.input, self.cursor - 1, self.cursor, "");
            proof {
                reveal_strlit("");
            }
            assert(input@ =~= self.input@.remove(self.cursor - 1));
            self.input = input;
            self.cursor = cursor;
        }
    }

    /// Delete.
    pub(crate) fn delete_forward(&mut self)
        requires
            old(self)@.wf(),
        ensures
            final(self)@ == old(self)@.deleted_forward(),
            final(self)@.wf(),
    {
        proof {
            reveal(ComposerView::deleted_forward);
        }
        let cs = chars_of(&self.input);
        if self.cursor >= cs.len() {
            return ;
        }
        let after = slice_text(&cs, self.cursor, cs.len());
        assert(after@ =~= self.input@.skip(self.cursor as int));
        let as_ = chars_of(&after);
        assert(self@.pending_images.len() == self.pending_images@.len());
        let n = find_token_starting(&as_, self.pending_images.len());
        if n > 0 {
            proof {
                lemma_token_starting(after@, self.pending_images.len() as nat);
            }
            let mark = chars_of(&image_mark(n));
            let head = slice_text(&cs, 0, self.cursor);
            let tail = slice_text(&as_, mark.len(), as_.len());
            assert(head@ =~= self.input@.take(self.cursor as int));
            assert(tail@ =~= after@.skip(image_token(n as nat).len() as int));
            self.drop_image(n, head, tail);
        } else {
            let (input, cursor) = splice(&self.input, self.cursor, self.cursor + 1, "");
            proof {
                reveal_strlit("");
            }
            assert(input@ =~= self.input@.remove(self.cursor as int));
            self.input = input;
        }
    }

    fn delete_to(&mut self, end: usize)
        requires
            old(self)@.wf(),
        ensures
            final(self)@ == old(self)@.deleted_to(end as int),
            final(self)@.wf(),
    {
        let ghost goal = self@.deleted_to(end as int);
        while self.cursor > end
            invariant
                self@.wf(),
                self@.deleted_to(end as int) == goal,
            decreases self.cursor,
        {
            proof {
                lemma_deleted_back_moves(self@);
            }
            self.delete_back();
        }
    }

    /// Delete the word before the cursor (Ctrl-W).
    pub(crate) fn delete_word_back(&mut self)
        requires
            old(self)@.wf(),
        ensures
            final(self)@ == old(self)@.word_deleted(),
            final(self)@.wf(),
    {
        let cs = chars_of(&self.input);
        let head = chars_of(&slice_text(&cs, 0, self.cursor));
        assert(head@ =~= self.input@.take(self.cursor as int));
        let end = drop_white(&head, 0);
        assert(head@.skip(0) =~= head@);
        self.delete_to(end);
        let cs = chars_of(&self.input);
        let mut start: usize = self.cursor;
        while start > 0 && !is_whitespace(cs[start - 1])
            invariant
                start <= self.cursor <= cs.len(),
                cs@ == self.input@,
                before_word(self.input@, self.cursor as int) == before_word(
                    self.input@,
                    start as int,
                ),
            decreases start,
        {
            start -= 1;
        }
        self.delete_to(start);
    }

    /// Recall the previous submitted input.
    pub(crate) fn history_prev(&mut self)
        requires
            old(self)@.wf(),
        ensures
            final(self)@ == old(self)@.recalled_prev(),
            final(self)@.wf(),
    {
        assert(self@.history.len() == self.history@.len());
        if self.history.len() == 0 {
            return ;
        }
        let pos: usize = match self.history_pos {
            None => {
                self.history_draft = self.input.clone();
                self.history.len() - 1
            },
            Some(p) => {
                if p == 0 {
                    return ;
                }
                p - 1
            },
        };
        let text = self.history[pos].clone();
        assert(text@ == old(self)@.history[pos as int]);
        self.set_input(text);
        self.history_pos = Some(pos);
    }

    /// Recall the next submitted input, or the draft past the newest.
    pub(crate) fn history_next(&mut self)
        requires
            old(self)@.wf(),
        ensures
            final(self)@ == old(self)@.recalled_next(),
            final(self)@.wf(),
    {
        assert(self@.history.len() == self.history@.len());
        if let Some(p) = self.history_pos {
            if p < self.history.len() - 1 {
                let text = self.history[p + 1].clone();
                assert(text@ == old(self)@.history[p + 1]);
                self.set_input(text);
                self.history_pos = Some(p + 1);
            } else {
                let draft = self.history_draft.clone();
                self.history_draft = String::new();
                assert(self@.history_draft =~= Seq::empty());
                self.set_input(draft);
                self.history_pos = None;
            }
        }
    }

    /// Record a submitted input for recall, skipping immediate repeats.
    pub(crate) fn push_history(&mut self, input: &str)
        ensures
            final(self)@ == old(self)@.remembered(input@),
    {
        assert(self@.history.len() == self.history@.len());
        let n = self.history.len();
        if n > 0 && same(&self.history[n - 1], input) {
            return ;
        }
        self.history.push(input.to_string());
        assert(self@.history =~= old(self)@.history.push(input@));
    }

    /// Replace the input with the highlighted suggestion.
    pub(crate) fn accept_suggestion(&mut self)
        ensures
            final(self)@ == old(self)@.accepted(),
            old(self)@.wf() ==> final(self)@.wf(),
    {
        assert(self@.suggestions.len() == self.suggestions@.len());
        if self.suggestion_index < self.suggestions.len() {
            let mut text = "/".to_string();
            text.append(&self.suggestions[self.suggestion_index].name);
            if self.suggestions[self.suggestion_index].takes_args {
                text.append(" ");
            }
            assert(self@.suggestions[self.suggestion_index as int]
                == self.suggestions@[self.suggestion_index as int]@);
            self.set_input(text);
        }
    }
}

proof fn lemma_replace_shrinks(s: Seq<char>, p: Seq<char>, by: Seq<char>)
    requires
        by.len() <= p.len(),
    ensures
        replace(s, p, by).len() <= s.len(),
    decreases s.len(),
{
    if s.len() == 0 {
    } else if p.len() > 0 && starts_with(s, p) {
        lemma_replace_shrinks(s.skip(p.len() as int), p, by);
    } else {
        lemma_replace_shrinks(s.drop_first(), p, by);
    }
}

proof fn lemma_decimal_grows(n: nat)
    requires
        n >= 1,
    ensures
        decimal((n - 1) as nat).len() <= decimal(n).len(),
        decimal(n).len() >= 1,
    decreases n,
{
    if n >= 10 {
        lemma_decimal_grows(n / 10);
        if n > 10 {
            assert((n - 1) as nat / 10 == n / 10 || (n - 1) as nat / 10 == (n / 10 - 1) as nat);
        }
    }
}

proof fn lemma_renumbered_shrinks(s: Seq<char>, gone: nat, count: nat)
    ensures
        renumbered(s, gone, count).len() <= s.len(),
    decreases count,
{
    if count > gone {
        lemma_renumbered_shrinks(s, gone, (count - 1) as nat);
        lemma_decimal_grows(count);
        lemma_replace_shrinks(
            renumbered(s, gone, (count - 1) as nat),
            image_token(count),
            image_token((count - 1) as nat),
        );
    }
}

/// Backspace always moves the cursor back, unless it is at the start.
pub proof fn lemma_deleted_back_moves(s: ComposerView)
    requires
        s.wf(),
        s.cursor > 0,
    ensures
        s.deleted_back().cursor < s.cursor,
{
    reveal(ComposerView::deleted_back);
    let c = s.cursor as int;
    let before = s.input.take(c);
    let count = s.pending_images.len();
    let n = token_ending(before, count);
    lemma_token_ending(before, count);
    if n > 0 {
        lemma_token_len(n);
        lemma_renumbered_shrinks(before.take(c - image_token(n).len()), n, count);
    }
}

} // verus!
