//! The conversation: what streams into it, its tool cards, and its scroll.

use crate::app::state::{Chat, ChatView};
use crate::app::transcript::{
    entries, filled, scroll_step, scrolled, EntryView, TranscriptEntry,
};
use crate::text::{is_empty_text, same};
use vstd::prelude::*;

verus! {

/// Whether an entry is more than a notice.
pub open spec fn is_conversation(e: EntryView) -> bool {
    !(e is Notice)
}

/// Whether an entry is the card of a tool that has finished.
pub open spec fn is_finished_card(e: EntryView) -> bool {
    e matches EntryView::ToolCard { output, .. } && output is Some
}

/// The position of the newest finished tool card, or -1.
pub open spec fn last_card(t: Seq<EntryView>) -> int
    decreases t.len(),
{
    if t.len() == 0 {
        -1
    } else if is_finished_card(t.last()) {
        t.len() - 1
    } else {
        last_card(t.drop_last())
    }
}

/// A card with its output shown if it was folded, and folded if it was shown.
pub open spec fn flipped(e: EntryView) -> EntryView {
    match e {
        EntryView::ToolCard { name, args, output, is_error, collapsed } => EntryView::ToolCard {
            name,
            args,
            output,
            is_error,
            collapsed: !collapsed,
        },
        _ => e,
    }
}

/// The entry drawn on screen row `row` in the last frame, or -1.
pub open spec fn hit_at(hits: Seq<(u16, usize)>, row: u16) -> int
    decreases hits.len(),
{
    if hits.len() == 0 {
        -1
    } else if hits[0].0 == row {
        hits[0].1 as int
    } else {
        hit_at(hits.drop_first(), row)
    }
}

/// The card that launched the background run `name` on `task`.
pub open spec fn is_spawn_card(e: EntryView, name: Seq<char>, task: Seq<char>) -> bool {
    e matches EntryView::ToolCard { name: n, args, .. } && n == "spawn_subagent"@
        && args.field_text("subagent"@) == Some(name) && args.field_text("task"@) == Some(task)
}

/// The position of the newest such card, or -1.
pub open spec fn spawn_card(t: Seq<EntryView>, name: Seq<char>, task: Seq<char>) -> int
    decreases t.len(),
{
    if t.len() == 0 {
        -1
    } else if is_spawn_card(t.last(), name, task) {
        t.len() - 1
    } else {
        spawn_card(t.drop_last(), name, task)
    }
}

impl ChatView {
    /// Something other than notices has been said.
    pub open spec fn begun(self) -> bool {
        exists|i: int| 0 <= i < self.transcript.len() && is_conversation(#[trigger] self.transcript[i])
    }

    /// One more entry.
    pub open spec fn with(self, entry: EntryView) -> ChatView {
        ChatView { transcript: self.transcript.push(entry), ..self }
    }

    /// Partial text moved into the transcript, reasoning first.
    pub open spec fn flushed(self) -> ChatView {
        let s = if self.streaming_thinking.len() > 0 {
            ChatView { streaming_thinking: Seq::empty(), ..self }.with(
                EntryView::Thinking(self.streaming_thinking),
            )
        } else {
            self
        };
        if s.streaming.len() > 0 {
            ChatView { streaming: Seq::empty(), ..s }.with(EntryView::Assistant(s.streaming))
        } else {
            s
        }
    }

    /// Partial text thrown away.
    pub open spec fn unstreamed(self) -> ChatView {
        ChatView { streaming: Seq::empty(), streaming_thinking: Seq::empty(), ..self }
    }

    /// The newest finished tool card flipped.
    pub open spec fn last_card_flipped(self) -> ChatView {
        let i = last_card(self.transcript);
        if i < 0 {
            self
        } else {
            ChatView {
                transcript: self.transcript.update(i, flipped(self.transcript[i])),
                ..self
            }
        }
    }

    /// The finished card whose header was drawn on `row` flipped.
    pub open spec fn card_flipped_at(self, row: u16) -> ChatView {
        let i = hit_at(self.card_hits, row);
        if 0 <= i < self.transcript.len() && is_finished_card(self.transcript[i]) {
            ChatView {
                transcript: self.transcript.update(i, flipped(self.transcript[i])),
                ..self
            }
        } else {
            self
        }
    }

    /// The view moved by `delta` lines.
    pub open spec fn scrolled_by(self, delta: i16) -> ChatView {
        let (scroll, follow) = scrolled(self.scroll_follow, self.scroll, self.max_scroll, delta);
        ChatView { scroll, scroll_follow: follow, ..self }
    }

    /// The view at the live tail.
    pub open spec fn at_tail(self) -> ChatView {
        ChatView { scroll: 0, scroll_follow: true, ..self }
    }

    /// The report of a background run written into the card that launched it.
    pub open spec fn reported(
        self,
        name: Seq<char>,
        task: Seq<char>,
        report: Seq<char>,
        is_error: bool,
    ) -> ChatView {
        let i = spawn_card(self.transcript, name, task);
        if i < 0 {
            self
        } else {
            ChatView {
                transcript: self.transcript.update(
                    i,
                    filled(self.transcript[i], report, is_error, true),
                ),
                ..self
            }
        }
    }
}

proof fn lemma_last_card(t: Seq<EntryView>)
    ensures
        -1 <= last_card(t) < t.len(),
    decreases t.len(),
{
    if t.len() > 0 {
        lemma_last_card(t.drop_last());
    }
}

fn flip_card(transcript: &mut Vec<TranscriptEntry>, i: usize)
    requires
        i < old(transcript).len(),
    ensures
        entries(final(transcript)@) == entries(old(transcript)@).update(
            i as int,
            flipped(entries(old(transcript)@)[i as int]),
        ),
{
    if let TranscriptEntry::ToolCard { collapsed, .. } = &mut transcript[i] {
        let was = *collapsed;
        *collapsed = !was;
    }
    assert(entries(transcript@) =~= entries(old(transcript)@).update(
        i as int,
        flipped(entries(old(transcript)@)[i as int]),
    ));
}

impl Chat {
    /// Append an entry.
    pub(crate) fn push(&mut self, entry: TranscriptEntry)
        ensures
            final(self)@ == old(self)@.with(entry@),
    {
        self.transcript.push(entry);
        assert(self@.transcript =~= old(self)@.transcript.push(entry@));
    }

    /// Whether the conversation has begun; notices alone do not count.
    pub fn has_conversation(&self) -> (r: bool)
        ensures
            r == self@.begun(),
    {
        let mut i: usize = 0;
        while i < self.transcript.len()
            invariant
                i <= self.transcript.len(),
                forall|j: int| 0 <= j < i ==> !is_conversation(#[trigger] self@.transcript[j]),
            decreases self.transcript.len() - i,
        {
            assert(self@.transcript[i as int] == self.transcript@[i as int]@);
            match &self.transcript[i] {
                TranscriptEntry::Notice(_) => {},
                _ => {
                    assert(is_conversation(self@.transcript[i as int]));
                    return true;
                },
            }
            i += 1;
        }
        assert(self@.transcript.len() == self.transcript@.len());
        false
    }

    /// Move any in-flight streaming text into the transcript, reasoning
    /// first.
    pub(crate) fn flush_streaming(&mut self)
        ensures
            final(self)@ == old(self)@.flushed(),
    {
        if !is_empty_text(&self.streaming_thinking) {
            let text = self.streaming_thinking.clone();
            self.streaming_thinking = String::new();
            assert(self.streaming_thinking@ =~= Seq::empty());
            self.push(TranscriptEntry::Thinking(text));
        }
        if !is_empty_text(&self.streaming) {
            let text = self.streaming.clone();
            self.streaming = String::new();
            assert(self.streaming@ =~= Seq::empty());
            self.push(TranscriptEntry::Assistant(text));
        }
    }

    /// Throw partial text away.
    pub(crate) fn clear_streaming(&mut self)
        ensures
            final(self)@ == old(self)@.unstreamed(),
    {
        self.streaming = String::new();
        self.streaming_thinking = String::new();
        assert(self.streaming@ =~= Seq::empty());
        assert(self.streaming_thinking@ =~= Seq::empty());
    }

    /// Toggle the expansion of the most recent finished tool card (Ctrl-T).  A
    /// card that is still running is passed over.
    pub(crate) fn toggle_last_tool_card(&mut self)
        ensures
            final(self)@ == old(self)@.last_card_flipped(),
    {
        let ghost all = self@.transcript;
        let mut i: usize = self.transcript.len();
        assert(all.take(i as int) =~= all);
        proof {
            lemma_last_card(all);
        }
        while i > 0
            invariant
                i <= self.transcript.len(),
                self@ == old(self)@,
                all == self@.transcript,
                all.len() == self.transcript@.len(),
                last_card(all) == last_card(all.take(i as int)),
            decreases i,
        {
            assert(all.take(i as int).drop_last() =~= all.take(i - 1));
            i -= 1;
            assert(all.take(i + 1).last() == self.transcript@[i as int]@);
            if let TranscriptEntry::ToolCard { output: Some(_), .. } = &self.transcript[i] {
                flip_card(&mut self.transcript, i);
                return ;
            }
        }
    }

    /// Toggle the tool card whose header line was drawn on screen row `row`
    /// in the last frame.  Nothing happens off-card or on a running card.
    pub(crate) fn toggle_card_at(&mut self, row: u16)
        ensures
            final(self)@ == old(self)@.card_flipped_at(row),
    {
        let ghost hits = self.card_hits@;
        let mut i: usize = 0;
        assert(hits.skip(0) =~= hits);
        while i < self.card_hits.len()
            invariant
                i <= self.card_hits.len(),
                self@ == old(self)@,
                hits == self.card_hits@,
                hit_at(hits, row) == hit_at(hits.skip(i as int), row),
            decreases self.card_hits.len() - i,
        {
            assert(hits.skip(i as int)[0] == hits[i as int]);
            assert(hits.skip(i as int).drop_first() =~= hits.skip(i + 1));
            let (y, index) = self.card_hits[i];
            if y == row {
                assert(self@.transcript.len() == self.transcript@.len());
                if index < self.transcript.len() {
                    assert(self@.transcript[index as int] == self.transcript@[index as int]@);
                    let done = match &self.transcript[index] {
                        TranscriptEntry::ToolCard { output, .. } => output.is_some(),
                        _ => false,
                    };
                    if done {
                        flip_card(&mut self.transcript, index);
                    }
                }
                return ;
            }
            i += 1;
        }
    }

    /// Scroll the transcript by `delta` lines.
    pub fn scroll_transcript(&mut self, delta: i16)
        ensures
            final(self)@ == old(self)@.scrolled_by(delta),
    {
        let (scroll, follow) = scroll_step(self.scroll_follow, self.scroll, self.max_scroll, delta);
        self.scroll = scroll;
        self.scroll_follow = follow;
    }

    /// Write a finished background run's report into the card that launched
    /// it, replacing its placeholder.
    pub(crate) fn record_subagent_report(
        &mut self,
        name: &str,
        task: &str,
        report: String,
        is_error: bool,
    )
        ensures
            final(self)@ == old(self)@.reported(name@, task@, report@, is_error),
    {
        let ghost all = self@.transcript;
        let mut i: usize = self.transcript.len();
        assert(all.take(i as int) =~= all);
        while i > 0
            invariant
                i <= self.transcript.len(),
                self@ == old(self)@,
                all == self@.transcript,
                all.len() == self.transcript@.len(),
                spawn_card(all, name@, task@) == spawn_card(all.take(i as int), name@, task@),
            decreases i,
        {
            assert(all.take(i as int).drop_last() =~= all.take(i - 1));
            i -= 1;
            assert(all.take(i + 1).last() == self.transcript@[i as int]@);
            if launches(&self.transcript[i], name, task) {
                crate::app::transcript::fill_card(
                    &mut self.transcript,
                    i,
                    report,
                    is_error,
                    true,
                );
                return ;
            }
        }
    }
}

fn launches(e: &TranscriptEntry, name: &str, task: &str) -> (r: bool)
    ensures
        r == is_spawn_card(e@, name@, task@),
{
    match e {
        TranscriptEntry::ToolCard { name: card, args, .. } => {
            same(card, "spawn_subagent") && (match args.get_text("subagent") {
                Some(n) => same(n, name),
                None => false,
            }) && (match args.get_text("task") {
                Some(t) => same(t, task),
                None => false,
            })
        },
        _ => false,
    }
}

} // verus!
