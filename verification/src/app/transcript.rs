//! The chat transcript and the subagent rail: entries, pane state, and the
//! shared scroll and collapse rules.

use crate::json::{text_opt, Json, JsonView};
use crate::text::{blank, chars_of, is_blank, lines, same, split_lines};
use vstd::prelude::*;

verus! {

/// Who made an image.
#[derive(Debug, PartialEq, Eq)]
pub enum ImageSource {
    Assistant,
    Tool(String),
}

/// What an [`ImageSource`] says.
pub enum SourceView {
    Assistant,
    Tool(Seq<char>),
}

impl View for ImageSource {
    type V = SourceView;

    open spec fn view(&self) -> SourceView {
        match self {
            ImageSource::Assistant => SourceView::Assistant,
            ImageSource::Tool(name) => SourceView::Tool(name@),
        }
    }
}

impl ImageSource {
    /// A copy of the source.
    pub fn copy(&self) -> (r: ImageSource)
        ensures
            r@ == self@,
    {
        match self {
            ImageSource::Assistant => ImageSource::Assistant,
            ImageSource::Tool(name) => ImageSource::Tool(name.clone()),
        }
    }
}

/// An image on disk.
#[derive(Debug, PartialEq, Eq)]
pub struct ImageRef {
    pub path: String,
    pub mime: String,
    /// Size of the decoded image.
    pub bytes: usize,
}

/// What an [`ImageRef`] says.
pub struct ImageView {
    pub path: Seq<char>,
    pub mime: Seq<char>,
    pub bytes: usize,
}

impl View for ImageRef {
    type V = ImageView;

    open spec fn view(&self) -> ImageView {
        ImageView { path: self.path@, mime: self.mime@, bytes: self.bytes }
    }
}

/// One rendered entry in the chat transcript.
#[derive(Debug, PartialEq, Eq)]
pub enum TranscriptEntry {
    User(String),
    Assistant(String),
    /// Model reasoning that preceded an assistant reply.
    Thinking(String),
    /// Collapsible tool invocation card.
    ToolCard {
        name: String,
        args: Json,
        /// `None` while the tool is still running.
        output: Option<String>,
        is_error: bool,
        collapsed: bool,
    },
    /// An image the turn produced.
    Image { source: ImageSource, image: ImageRef },
    /// System notice (mode switch, reload result, errors).
    Notice(String),
}

/// What a [`TranscriptEntry`] says.
pub enum EntryView {
    User(Seq<char>),
    Assistant(Seq<char>),
    Thinking(Seq<char>),
    ToolCard {
        name: Seq<char>,
        args: JsonView,
        output: Option<Seq<char>>,
        is_error: bool,
        collapsed: bool,
    },
    Image { source: SourceView, image: ImageView },
    Notice(Seq<char>),
}

impl View for TranscriptEntry {
    type V = EntryView;

    open spec fn view(&self) -> EntryView {
        match self {
            TranscriptEntry::User(t) => EntryView::User(t@),
            TranscriptEntry::Assistant(t) => EntryView::Assistant(t@),
            TranscriptEntry::Thinking(t) => EntryView::Thinking(t@),
            TranscriptEntry::ToolCard { name, args, output, is_error, collapsed } =>
                EntryView::ToolCard {
                name: name@,
                args: args@,
                output: text_opt(*output),
                is_error: *is_error,
                collapsed: *collapsed,
            },
            TranscriptEntry::Image { source, image } => EntryView::Image {
                source: source@,
                image: image@,
            },
            TranscriptEntry::Notice(t) => EntryView::Notice(t@),
        }
    }
}

/// What a transcript says.
pub open spec fn entries(t: Seq<TranscriptEntry>) -> Seq<EntryView> {
    t.map_values(|e: TranscriptEntry| e@)
}

/// Lifecycle of one subagent run, as shown on its rail dot.
#[derive(Debug, Clone, Copy, PartialEq, Eq, Structural)]
pub enum PaneStatus {
    /// The run is still going.
    Running,
    /// The run finished on its own and reported back.
    Done,
    /// The run hit its step budget, errored out, or was killed.
    Failed,
}

impl PaneStatus {
    /// The resting glyph of each status.
    pub open spec fn resting(self) -> Seq<char> {
        match self {
            PaneStatus::Running => "●"@,
            PaneStatus::Done => "✔"@,
            PaneStatus::Failed => "✗"@,
        }
    }

    /// The rail's status glyph, at rest.
    pub fn glyph(self) -> (r: &'static str)
        ensures
            r@ == self.resting(),
    {
        match self {
            PaneStatus::Running => "●",
            PaneStatus::Done => "✔",
            PaneStatus::Failed => "✗",
        }
    }
}

/// How long a finished run rests on the rail before it retires, in
/// milliseconds.
pub const PANE_LINGER: u64 = 8_000;

/// One subagent run, surfaced on the rail below the composer and openable as
/// a full chat view.  Times are in milliseconds.
pub struct SubagentPane {
    /// Session-unique run id.
    pub run: u64,
    /// Background id, when the run was detached.
    pub bg: Option<u32>,
    /// Subagent name.
    pub name: String,
    /// The task it was handed.
    pub task: String,
    pub status: PaneStatus,
    /// The subagent's own conversation.
    pub transcript: Vec<TranscriptEntry>,
    /// Steps completed so far.
    pub steps: u32,
    pub started: u64,
    /// Set once the run ends.
    pub finished: Option<u64>,
    /// Entries appended since the user last had this pane open.
    pub unread: usize,
    /// First visible line, consulted while not following.
    pub scroll: u16,
    /// The pane sticks to the bottom as output arrives.
    pub scroll_follow: bool,
    /// Last-drawn maximum scroll.
    pub max_scroll: u16,
}

/// What a [`SubagentPane`] holds.
pub struct PaneView {
    pub run: u64,
    pub bg: Option<u32>,
    pub name: Seq<char>,
    pub task: Seq<char>,
    pub status: PaneStatus,
    pub transcript: Seq<EntryView>,
    pub steps: u32,
    pub started: u64,
    pub finished: Option<u64>,
    pub unread: usize,
    pub scroll: u16,
    pub scroll_follow: bool,
    pub max_scroll: u16,
}

impl View for SubagentPane {
    type V = PaneView;

    open spec fn view(&self) -> PaneView {
        PaneView {
            run: self.run,
            bg: self.bg,
            name: self.name@,
            task: self.task@,
            status: self.status,
            transcript: entries(self.transcript@),
            steps: self.steps,
            started: self.started,
            finished: self.finished,
            unread: self.unread,
            scroll: self.scroll,
            scroll_follow: self.scroll_follow,
            max_scroll: self.max_scroll,
        }
    }
}

/// What the rail holds.
pub open spec fn panes_view(p: Seq<SubagentPane>) -> Seq<PaneView> {
    p.map_values(|x: SubagentPane| x@)
}

/// The newest of `t` that is an assistant's reply.
pub open spec fn last_reply(t: Seq<EntryView>) -> Option<Seq<char>>
    decreases t.len(),
{
    if t.len() == 0 {
        None
    } else if t.last() is Assistant {
        Some(t.last()->Assistant_0)
    } else {
        last_reply(t.drop_last())
    }
}

/// The name of the newest card still running.
pub open spec fn running_tool(t: Seq<EntryView>) -> Option<Seq<char>>
    decreases t.len(),
{
    if t.len() == 0 {
        None
    } else {
        match t.last() {
            EntryView::ToolCard { name, output: None, .. } => Some(name),
            _ => running_tool(t.drop_last()),
        }
    }
}

/// The newest of `t` that is a reply and not blank.
pub open spec fn last_message(t: Seq<EntryView>) -> Option<Seq<char>>
    decreases t.len(),
{
    if t.len() == 0 {
        None
    } else {
        match t.last() {
            EntryView::Assistant(text) if !is_blank(text) => Some(text),
            _ => last_message(t.drop_last()),
        }
    }
}

impl PaneView {
    /// A run that has just started.
    pub open spec fn fresh(
        run: u64,
        bg: Option<u32>,
        name: Seq<char>,
        task: Seq<char>,
        now: u64,
    ) -> PaneView {
        PaneView {
            run,
            bg,
            name,
            task,
            status: PaneStatus::Running,
            transcript: Seq::empty(),
            steps: 0,
            started: now,
            finished: None,
            unread: 0,
            scroll: 0,
            scroll_follow: true,
            max_scroll: 0,
        }
    }

    /// What the run is doing, in one line: the tool it is in the middle of,
    /// else its latest message, else the task. One that has ended is in the
    /// middle of nothing.
    pub open spec fn doing(self) -> Seq<char> {
        let said = if self.status != PaneStatus::Running {
            last_reply(self.transcript)
        } else if running_tool(self.transcript) is Some {
            running_tool(self.transcript)
        } else {
            last_message(self.transcript)
        };
        match said {
            Some(text) => text,
            None => self.task,
        }
    }
}

/// The tool that the newest card still running names.
pub(crate) fn open_tool(transcript: &Vec<TranscriptEntry>) -> (r: Option<&str>)
    ensures
        match r {
            Some(name) => running_tool(entries(transcript@)) == Some(name@),
            None => running_tool(entries(transcript@)) is None,
        },
{
    let ghost all = entries(transcript@);
    let mut i: usize = transcript.len();
    assert(all.take(i as int) == all);
    while i > 0
        invariant
            i <= transcript.len(),
            all == entries(transcript@),
            running_tool(all) == running_tool(all.take(i as int)),
        decreases i,
    {
        assert(all.take(i as int).drop_last() == all.take(i - 1));
        i -= 1;
        assert(all.take(i + 1).last() == transcript@[i as int]@);
        if let TranscriptEntry::ToolCard { name, output: None, .. } = &transcript[i] {
            return Some(name.as_str());
        }
    }
    None
}

impl SubagentPane {
    /// A run that starts at `now`.
    pub fn new(run: u64, bg: Option<u32>, name: String, task: String, now: u64) -> (r: SubagentPane)
        ensures
            r@ == PaneView::fresh(run, bg, name@, task@, now),
    {
        let r = SubagentPane {
            run,
            bg,
            name,
            task,
            status: PaneStatus::Running,
            transcript: Vec::new(),
            steps: 0,
            started: now,
            finished: None,
            unread: 0,
            scroll: 0,
            scroll_follow: true,
            max_scroll: 0,
        };
        assert(r@.transcript =~= Seq::empty());
        r
    }

    /// How long the run has been going at `now`, frozen once it ends.
    pub fn elapsed(&self, now: u64) -> (r: u64)
        ensures
            ({
                let end = match self.finished {
                    Some(at) => at,
                    None => now,
                };
                r == if end >= self.started {
                    end - self.started
                } else {
                    0
                }
            }),
    {
        let end: u64 = match self.finished {
            Some(at) => at,
            None => now,
        };
        end.saturating_sub(self.started)
    }

    /// The rail dot: a pulsing glyph while running, a resting one once done.
    pub fn glyph(&self, tick: u64) -> (r: &'static str)
        ensures
            r@ == (if self.status != PaneStatus::Running {
                self.status.resting()
            } else if (tick / 2) % 4 == 0 {
                "●"@
            } else if (tick / 2) % 4 == 2 {
                "○"@
            } else {
                "◉"@
            }),
    {
        match self.status {
            PaneStatus::Running => {
                let frame: u64 = (tick / 2) % 4;
                if frame == 0 {
                    "●"
                } else if frame == 2 {
                    "○"
                } else {
                    "◉"
                }
            },
            other => other.glyph(),
        }
    }

    /// One-line summary of what the subagent is doing right now: the tool it
    /// is in the middle of, else its latest message, else the task.
    pub fn activity(&self) -> (r: &str)
        ensures
            r@ == self@.doing(),
    {
        let ghost all = entries(self.transcript@);
        let mut i: usize = self.transcript.len();
        assert(all.take(i as int) == all);
        if self.status != PaneStatus::Running {
            while i > 0
                invariant
                    i <= self.transcript.len(),
                    all == entries(self.transcript@),
                    self.status != PaneStatus::Running,
                    last_reply(all) == last_reply(all.take(i as int)),
                decreases i,
            {
                assert(all.take(i as int).drop_last() == all.take(i - 1));
                i -= 1;
                assert(all.take(i + 1).last() == self.transcript@[i as int]@);
                if let TranscriptEntry::Assistant(text) = &self.transcript[i] {
                    return text.as_str();
                }
            }
            return self.task.as_str();
        }
        if let Some(name) = open_tool(&self.transcript) {
            return name;
        }
        while i > 0
            invariant
                i <= self.transcript.len(),
                all == entries(self.transcript@),
                self.status == PaneStatus::Running,
                running_tool(all) is None,
                last_message(all) == last_message(all.take(i as int)),
            decreases i,
        {
            assert(all.take(i as int).drop_last() == all.take(i - 1));
            i -= 1;
            assert(all.take(i + 1).last() == self.transcript@[i as int]@);
            if let TranscriptEntry::Assistant(text) = &self.transcript[i] {
                if !blank(text) {
                    return text.as_str();
                }
            }
        }
        self.task.as_str()
    }
}

/// Whether an output starts collapsed: more than six lines, or long enough to
/// wrap well past that.
pub open spec fn is_long(content: Seq<char>) -> bool {
    lines(content).len() > 6 || content.len() > 600
}

/// Whether a finished tool's output is long enough to start collapsed.
pub fn collapse_long(content: &str) -> (r: bool)
    ensures
        r == is_long(content@),
{
    let parts = split_lines(content);
    assert(crate::text::texts(parts@).len() == parts@.len());
    let cs = chars_of(content);
    parts.len() > 6 || cs.len() > 600
}

/// What a tool returned.
pub struct ToolOutput {
    pub content: String,
    pub is_error: bool,
}

/// `e` is the card of a call of `name` that has not finished.
pub open spec fn is_open_card(e: EntryView, name: Seq<char>) -> bool {
    e matches EntryView::ToolCard { name: n, output, .. } && n == name && output is None
}

/// The position of the newest open card for `name`, or -1.
pub open spec fn open_card(t: Seq<EntryView>, name: Seq<char>) -> int
    decreases t.len(),
{
    if t.len() == 0 {
        -1
    } else if is_open_card(t.last(), name) {
        t.len() - 1
    } else {
        open_card(t.drop_last(), name)
    }
}

/// The card `e` with its result filled in.
pub open spec fn filled(e: EntryView, content: Seq<char>, is_error: bool, collapsed: bool) -> EntryView {
    match e {
        EntryView::ToolCard { name, args, .. } => EntryView::ToolCard {
            name,
            args,
            output: Some(content),
            is_error,
            collapsed,
        },
        _ => e,
    }
}

pub proof fn lemma_open_card(t: Seq<EntryView>, name: Seq<char>)
    ensures
        -1 <= open_card(t, name) < t.len(),
        open_card(t, name) >= 0 ==> is_open_card(t[open_card(t, name)], name),
        forall|j: int| open_card(t, name) < j < t.len() ==> !is_open_card(#[trigger] t[j], name),
    decreases t.len(),
{
    if t.len() > 0 && !is_open_card(t.last(), name) {
        lemma_open_card(t.drop_last(), name);
        assert forall|j: int| open_card(t, name) < j < t.len() implies !is_open_card(
            #[trigger] t[j],
            name,
        ) by {
            if j < t.len() - 1 {
                assert(t.drop_last()[j] == t[j]);
            }
        }
    }
}

/// The newest open card for `name`, if there is one.
pub fn find_open_card(transcript: &Vec<TranscriptEntry>, name: &str) -> (r: Option<usize>)
    ensures
        r is None <==> open_card(entries(transcript@), name@) == -1,
        r matches Some(i) ==> i == open_card(entries(transcript@), name@) && i < transcript.len(),
{
    let ghost all = entries(transcript@);
    let mut i: usize = transcript.len();
    assert(all.take(i as int) == all);
    proof {
        lemma_open_card(all, name@);
    }
    while i > 0
        invariant
            i <= transcript.len(),
            all == entries(transcript@),
            open_card(all, name@) == open_card(all.take(i as int), name@),
        decreases i,
    {
        assert(all.take(i as int).drop_last() == all.take(i - 1));
        i -= 1;
        assert(all.take(i + 1).last() == transcript@[i as int]@);
        if let TranscriptEntry::ToolCard { name: card, output, .. } = &transcript[i] {
            if output.is_none() && same(card, name) {
                return Some(i);
            }
        }
    }
    None
}

/// Writes a result into the card at `i`.
pub fn fill_card(
    transcript: &mut Vec<TranscriptEntry>,
    i: usize,
    content: String,
    is_error: bool,
    collapsed: bool,
)
    requires
        i < old(transcript).len(),
    ensures
        entries(final(transcript)@) == entries(old(transcript)@).update(
            i as int,
            filled(entries(old(transcript)@)[i as int], content@, is_error, collapsed),
        ),
{
    if let TranscriptEntry::ToolCard { output, is_error: e, collapsed: c, .. } = &mut transcript[i] {
        *output = Some(content);
        *e = is_error;
        *c = collapsed;
    }
}

/// Fills the newest still-open card for `name` with `output`.  Long outputs
/// and errors start collapsed.  Gives the output back when no open card
/// matched, so the caller can decide what to do with it.
pub fn fill_open_card(
    transcript: &mut Vec<TranscriptEntry>,
    name: &str,
    output: ToolOutput,
) -> (r: Option<ToolOutput>)
    ensures
        ({
            let before = entries(old(transcript)@);
            let i = open_card(before, name@);
            if i < 0 {
                entries(final(transcript)@) == before && r == Some(output)
            } else {
                r is None && entries(final(transcript)@) == before.update(
                    i,
                    filled(
                        before[i],
                        output.content@,
                        output.is_error,
                        output.is_error || is_long(output.content@),
                    ),
                )
            }
        }),
{
    match find_open_card(transcript, name) {
        Some(i) => {
            let collapsed = output.is_error || collapse_long(&output.content);
            fill_card(transcript, i, output.content, output.is_error, collapsed);
            None
        },
        None => {
            proof {
                lemma_open_card(entries(transcript@), name@);
            }
            Some(output)
        },
    }
}

/// `x` brought into `0..=max`.
pub open spec fn clamp(x: int, max: int) -> int {
    if x < 0 {
        0
    } else if x > max {
        max
    } else {
        x
    }
}

/// Where one scroll step leads: `delta` lines toward older content (when
/// positive) from the current top line, which is the last one while following.
/// Reaching the bottom means following again.
pub open spec fn scrolled(follow: bool, current: u16, max: u16, delta: i16) -> (u16, bool) {
    let from = if follow {
        max as int
    } else {
        clamp(current as int, max as int)
    };
    let next = clamp(from - delta, max as int);
    if next >= max {
        (0, true)
    } else {
        (next as u16, false)
    }
}

/// One step of the shared stick-to-bottom scroll rule.  Positive `delta` moves
/// toward older content, negative toward the live tail; the result is the new
/// offset and whether the view follows the tail.
pub fn scroll_step(follow: bool, current: u16, max: u16, delta: i16) -> (r: (u16, bool))
    ensures
        r == scrolled(follow, current, max, delta),
{
    let from: u16 = if follow || current > max {
        max
    } else {
        current
    };
    let next: i32 = from as i32 - delta as i32;
    if next >= max as i32 {
        (0, true)
    } else if next < 0 {
        (0, max == 0)
    } else {
        (next as u16, false)
    }
}

/// A scroll step always leaves an offset that is drawn inside the content:
/// either the view follows the tail, or it starts before the last page.
pub proof fn law_scroll_stays_in_range(follow: bool, current: u16, max: u16, delta: i16)
    ensures
        ({
            let (next, follows) = scrolled(follow, current, max, delta);
            &&& follows ==> next == 0
            &&& !follows ==> next < max
        }),
{
}

/// Scrolling up leaves the tail, and scrolling as far back down returns to it.
pub proof fn law_scroll_back_down_follows_again(max: u16, delta: i16)
    requires
        0 < delta,
        0 < max,
    ensures
        ({
            let (up, left) = scrolled(true, 0, max, delta);
            &&& !left
            &&& scrolled(left, up, max, (-delta) as i16) == (0u16, true)
        }),
{
}

/// An image kept with a message: where the store put it, if it could.
pub struct Image {
    pub path: Option<String>,
    pub mime: String,
    /// Size of the decoded image.
    pub bytes: usize,
}

/// The reference to a stored image; nothing for one without a file.
pub open spec fn image_ref(i: Image) -> Option<ImageView> {
    match i.path {
        Some(p) => Some(ImageView { path: p@, mime: i.mime@, bytes: i.bytes }),
        None => None,
    }
}

/// The references to those of `images` that have a file, in order.
pub open spec fn stored_refs(images: Seq<Image>) -> Seq<ImageView>
    decreases images.len(),
{
    if images.len() == 0 {
        Seq::empty()
    } else {
        let before = stored_refs(images.drop_last());
        match image_ref(images.last()) {
            Some(r) => before.push(r),
            None => before,
        }
    }
}

/// What a list of references says.
pub open spec fn refs_view(r: Seq<ImageRef>) -> Seq<ImageView> {
    r.map_values(|i: ImageRef| i@)
}

/// The images on a replayed message, as references.  An image the store could
/// not write has no file to draw, so it is not replayed.
pub fn replayed_refs(images: &Vec<Image>) -> (r: Vec<ImageRef>)
    ensures
        refs_view(r@) == stored_refs(images@),
{
    let mut out: Vec<ImageRef> = Vec::new();
    let mut i: usize = 0;
    assert(refs_view(out@) == stored_refs(images@.take(0)));
    while i < images.len()
        invariant
            i <= images.len(),
            refs_view(out@) == stored_refs(images@.take(i as int)),
        decreases images.len() - i,
    {
        assert(images@.take(i + 1).drop_last() == images@.take(i as int));
        let ghost before = refs_view(out@);
        if let Some(path) = &images[i].path {
            let image = ImageRef {
                path: path.clone(),
                mime: images[i].mime.clone(),
                bytes: images[i].bytes,
            };
            out.push(image);
            assert(refs_view(out@) == before.push(image@));
        }
        i += 1;
    }
    assert(images@.take(i as int) == images@);
    out
}

/// One entry for each image, carrying where it came from.
pub open spec fn shown(source: SourceView, images: Seq<ImageView>) -> Seq<EntryView> {
    images.map_values(|image: ImageView| EntryView::Image { source, image })
}

/// The transcript entries images become: one per image, each carrying where
/// it came from and where it landed.
pub fn image_entries(source: &ImageSource, images: Vec<ImageRef>) -> (r: Vec<TranscriptEntry>)
    ensures
        entries(r@) == shown(source@, refs_view(images@)),
{
    let mut out: Vec<TranscriptEntry> = Vec::new();
    let ghost all = images@;
    for image in it: images
        invariant
            it.seq() == all,
            out@.len() == it.index(),
            forall|j: int|
                0 <= j < it.index() ==> (#[trigger] out@[j])@ == (EntryView::Image {
                    source: source@,
                    image: all[j]@,
                }),
    {
        out.push(TranscriptEntry::Image { source: source.copy(), image });
    }
    assert(entries(out@) =~= shown(source@, refs_view(all)));
    out
}

} // verus!
