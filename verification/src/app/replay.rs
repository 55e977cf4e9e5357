//! A past conversation read back into the transcript.

use crate::app::agent::result_card;
use crate::app::state::{App, AppView, ChatView};
use crate::app::transcript::{
    entries, find_open_card, image_entries, lemma_open_card, open_card, replayed_refs, shown,
    stored_refs, EntryView, Image, ImageSource, SourceView, TranscriptEntry,
};
use crate::json::{text_opt, Json, JsonView};
use crate::text::{blank, is_blank};
use vstd::prelude::*;

verus! {

/// Who a message is from.
#[derive(Debug, Clone, Copy, PartialEq, Eq, Structural)]
pub enum Role {
    System,
    User,
    Assistant,
    Tool,
}

/// A tool call on a past message.
pub struct PastCall {
    pub name: String,
    pub arguments: Json,
}

pub struct CallView {
    pub name: Seq<char>,
    pub arguments: JsonView,
}

impl View for PastCall {
    type V = CallView;

    open spec fn view(&self) -> CallView {
        CallView { name: self.name@, arguments: self.arguments@ }
    }
}

/// A message of a session's file.
pub struct PastMessage {
    pub role: Role,
    pub content: String,
    pub images: Vec<Image>,
    pub tool_calls: Vec<PastCall>,
    /// The tool a result is of.
    pub tool_name: Option<String>,
}

pub struct MessageView {
    pub role: Role,
    pub content: Seq<char>,
    pub images: Seq<Image>,
    pub tool_calls: Seq<CallView>,
    pub tool_name: Option<Seq<char>>,
}

pub open spec fn calls_view(c: Seq<PastCall>) -> Seq<CallView> {
    c.map_values(|x: PastCall| x@)
}

impl View for PastMessage {
    type V = MessageView;

    open spec fn view(&self) -> MessageView {
        MessageView {
            role: self.role,
            content: self.content@,
            images: self.images@,
            tool_calls: calls_view(self.tool_calls@),
            tool_name: text_opt(self.tool_name),
        }
    }
}

pub open spec fn messages_view(m: Seq<PastMessage>) -> Seq<MessageView> {
    m.map_values(|x: PastMessage| x@)
}

/// A card of a past call, folded.
pub open spec fn past_card(c: CallView) -> EntryView {
    EntryView::ToolCard {
        name: c.name,
        args: c.arguments,
        output: None,
        is_error: false,
        collapsed: true,
    }
}

/// The card `e` with its output written in.
pub open spec fn answered(e: EntryView, content: Seq<char>) -> EntryView {
    match e {
        EntryView::ToolCard { name, args, is_error, collapsed, .. } => EntryView::ToolCard {
            name,
            args,
            output: Some(content),
            is_error,
            collapsed,
        },
        _ => e,
    }
}

/// What is read back so far: the transcript, and the tool that has just
/// answered.
pub struct Playback {
    pub transcript: Seq<EntryView>,
    pub answered: Option<Seq<char>>,
}

impl Playback {
    pub open spec fn with(self, entry: EntryView) -> Playback {
        Playback { transcript: self.transcript.push(entry), ..self }
    }

    /// A text that is not blank becomes an entry.
    pub open spec fn unless_blank(self, text: Seq<char>, entry: EntryView) -> Playback {
        if is_blank(text) {
            self
        } else {
            self.with(entry)
        }
    }

    /// One more message.  System messages are dropped.  A user's message full
    /// of images right after a tool answered holds that tool's images.  A
    /// result fills the newest open card of its tool.
    pub open spec fn then_read(self, m: MessageView) -> Playback {
        match m.role {
            Role::System => self,
            Role::User => if self.answered is Some && m.images.len() > 0 {
                Playback {
                    transcript: self.transcript + shown(
                        SourceView::Tool(self.answered->0),
                        stored_refs(m.images),
                    ),
                    answered: None,
                }
            } else {
                Playback { answered: None, ..self }.unless_blank(
                    m.content,
                    EntryView::User(m.content),
                )
            },
            Role::Assistant => {
                let s = Playback { answered: None, ..self }.unless_blank(
                    m.content,
                    EntryView::Assistant(m.content),
                );
                Playback {
                    transcript: s.transcript + shown(SourceView::Assistant, stored_refs(m.images))
                        + m.tool_calls.map_values(|c: CallView| past_card(c)),
                    ..s
                }
            },
            Role::Tool => {
                let name = match m.tool_name {
                    Some(n) => n,
                    None => Seq::empty(),
                };
                let i = open_card(self.transcript, name);
                Playback {
                    transcript: if i < 0 {
                        self.transcript.push(result_card(name, m.content, false, true))
                    } else {
                        self.transcript.update(i, answered(self.transcript[i], m.content))
                    },
                    answered: Some(name),
                }
            },
        }
    }
}

/// The messages read back, in order.
pub open spec fn read_back(m: Seq<MessageView>) -> Playback
    decreases m.len(),
{
    if m.len() == 0 {
        Playback { transcript: Seq::empty(), answered: None }
    } else {
        read_back(m.drop_last()).then_read(m.last())
    }
}

impl AppView {
    /// The transcript of a past session in place of the current one.
    pub open spec fn replayed(self, m: Seq<MessageView>) -> AppView {
        self.with_chat(
            ChatView { transcript: read_back(m).transcript, ..self.chat }.unstreamed(),
        ).at_tail()
    }
}

struct Reader {
    transcript: Vec<TranscriptEntry>,
    answered: Option<String>,
}

impl View for Reader {
    type V = Playback;

    closed spec fn view(&self) -> Playback {
        Playback { transcript: entries(self.transcript@), answered: text_opt(self.answered) }
    }
}

impl Reader {
    fn write(&mut self, entry: TranscriptEntry)
        ensures
            final(self)@ == old(self)@.with(entry@),
    {
        self.transcript.push(entry);
        assert(self@.transcript =~= old(self)@.transcript.push(entry@));
    }

    fn write_all(&mut self, more: Vec<TranscriptEntry>)
        ensures
            final(self)@ == (Playback {
                transcript: old(self)@.transcript + entries(more@),
                ..old(self)@
            }),
    {
        let mut more = more;
        let ghost all = more@;
        self.transcript.append(&mut more);
        assert(self@.transcript =~= old(self)@.transcript + entries(all));
    }

    fn write_calls(&mut self, calls: Vec<PastCall>)
        ensures
            final(self)@ == (Playback {
                transcript: old(self)@.transcript + calls_view(calls@).map_values(
                    |c: CallView| past_card(c),
                ),
                ..old(self)@
            }),
    {
        let ghost all = calls@;
        let mut cards: Vec<TranscriptEntry> = Vec::new();
        for call in it: calls
            invariant
                it.seq() == all,
                cards@.len() == it.index(),
                forall|j: int|
                    0 <= j < it.index() ==> (#[trigger] cards@[j])@ == past_card(all[j]@),
        {
            cards.push(
                TranscriptEntry::ToolCard {
                    name: call.name,
                    args: call.arguments,
                    output: None,
                    is_error: false,
                    collapsed: true,
                },
            );
        }
        assert(entries(cards@) =~= calls_view(all).map_values(|c: CallView| past_card(c)));
        self.write_all(cards);
    }

    fn answer(&mut self, name: String, content: String)
        ensures
            ({
                let before = old(self)@;
                let i = open_card(before.transcript, name@);
                final(self)@ == (Playback {
                    transcript: if i < 0 {
                        before.transcript.push(result_card(name@, content@, false, true))
                    } else {
                        before.transcript.update(i, answered(before.transcript[i], content@))
                    },
                    answered: Some(name@),
                })
            }),
    {
        let ghost before = self@;
        proof {
            lemma_open_card(before.transcript, name@);
        }
        self.answered = Some(name.clone());
        match find_open_card(&self.transcript, &name) {
            Some(i) => {
                if let TranscriptEntry::ToolCard { output, .. } = &mut self.transcript[i] {
                    *output = Some(content);
                }
                assert(self@.transcript =~= before.transcript.update(
                    i as int,
                    answered(before.transcript[i as int], content@),
                ));
            },
            None => {
                self.write(
                    TranscriptEntry::ToolCard {
                        name,
                        args: Json::Null,
                        output: Some(content),
                        is_error: false,
                        collapsed: true,
                    },
                );
            },
        }
    }

    fn read(&mut self, m: PastMessage)
        ensures
            final(self)@ == old(self)@.then_read(m@),
    {
        match m.role {
            Role::System => {},
            Role::User => {
                if let Some(tool) = self.answered.take() {
                    if m.images.len() > 0 {
                        self.write_all(
                            image_entries(&ImageSource::Tool(tool), replayed_refs(&m.images)),
                        );
                        return ;
                    }
                }
                if !blank(&m.content) {
                    self.write(TranscriptEntry::User(m.content));
                }
            },
            Role::Assistant => {
                self.answered = None;
                if !blank(&m.content) {
                    self.write(TranscriptEntry::Assistant(m.content));
                }
                self.write_all(image_entries(&ImageSource::Assistant, replayed_refs(&m.images)));
                self.write_calls(m.tool_calls);
            },
            Role::Tool => {
                let name = match m.tool_name {
                    Some(n) => n,
                    None => String::new(),
                };
                assert(m.tool_name is None ==> name@ =~= Seq::empty());
                self.answer(name, m.content);
            },
        }
    }
}

impl App {
    /// Rebuild the transcript view from a session's persisted messages, so a
    /// resumed conversation reads back the way it was left.
    pub fn load_transcript(&mut self, messages: Vec<PastMessage>)
        requires
            old(self)@.wf(),
        ensures
            final(self)@ == old(self)@.replayed(messages_view(messages@)),
            final(self)@.wf(),
    {
        let ghost all = messages@;
        let mut reader = Reader { transcript: Vec::new(), answered: None };
        assert(reader@.transcript =~= Seq::empty());
        assert(messages_view(all).take(0) =~= Seq::empty());
        for m in it: messages
            invariant
                it.seq() == all,
                reader@ == read_back(messages_view(all).take(it.index() as int)),
        {
            proof {
                let k = it.index() as int;
                assert(messages_view(all).take(k + 1).drop_last() =~= messages_view(all).take(k));
                assert(messages_view(all).take(k + 1).last() == m@);
            }
            reader.read(m);
        }
        assert(messages_view(all).take(all.len() as int) =~= messages_view(all));
        self.chat.transcript = reader.transcript;
        self.chat.clear_streaming();
        self.scroll_to_bottom();
    }
}

} // verus!
