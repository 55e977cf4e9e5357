//! `wizard resume` with another agent's session: choosing a session, and turning its conversation
//! into messages that can be carried on.

use crate::app::replay::Role;
use crate::claude_session::line::{BlockView, ClaudeBlock, ClaudeNode, NodeKind, NodeView, Stamp};
use crate::claude_session::preview::SessionPreview;
use crate::claude_session::session::{
    chain_of, picked, refs_view, replayed, session_of, Chain, ChainStop, ClaudeSession, ChainView,
    SessionView, StopView,
};
use crate::json::{json_text, text_opt, write_json, Json, JsonView};
use crate::config::{Peer, PeerView};
use crate::text::{
    begins_with, blank, debug_text, decimal, is_blank, is_empty_text, lower, lowered, number,
    parse_u64, parsed_u64, quoted, same, starts_with, trim, trimmed,
};
use vstd::hash_map::StringHashMap;
use vstd::prelude::*;
use vstd::utf8::encode_utf8;

verus! {

/// What `wizard resume` was asked for.
#[derive(Debug, PartialEq, Eq)]
pub struct Request {
    /// Take the conversation from the other agent.
    pub peer: bool,
    /// The session id, or a unique start of it.
    pub session: Option<String>,
    /// The line to walk the conversation back from.
    pub leaf: Option<String>,
    /// Print the listing and stop.
    pub list: bool,
}

/// What a resume does first.
#[derive(Clone, Copy, Debug, PartialEq, Eq, Structural)]
pub enum Route {
    /// Run with the latest session.
    Run,
    /// There is nothing to choose from.
    Refuse,
    /// Print the listing.
    List,
    /// Choose a session and import it.
    Import,
}

impl Request {
    /// What a request does first, in a directory with this many sessions.
    pub fn route(&self, sessions: usize) -> (r: Route)
        ensures
            r == (if !self.peer {
                Route::Run
            } else if sessions == 0 {
                Route::Refuse
            } else if self.list {
                Route::List
            } else {
                Route::Import
            }),
    {
        if !self.peer {
            Route::Run
        } else if sessions == 0 {
            Route::Refuse
        } else if self.list {
            Route::List
        } else {
            Route::Import
        }
    }
}

/// Why a directory without sessions is refused.
pub fn no_sessions(peer: &Peer, root: &str) -> (r: String)
    ensures
        r@ == peer.name@ + " has no sessions recorded for "@ + root@
            + ". It files them under a slug of the working directory, so this is also what you get when it was run somewhere else."@,
{
    let mut m = peer.name.clone();
    m.append(" has no sessions recorded for ");
    m.append(root);
    m.append(
        ". It files them under a slug of the working directory, so this is also what you get when it was run somewhere else.",
    );
    m
}

/// How often a history forked, in words.
pub open spec fn branches_text(n: nat) -> Seq<char> {
    if n == 0 {
        "unbranched"@
    } else if n == 1 {
        "1 branch point"@
    } else {
        decimal(n) + " branch points"@
    }
}

/// A number on the right of three columns.
pub open spec fn padded(n: nat) -> Seq<char> {
    let d = decimal(n);
    if d.len() == 1 {
        "  "@ + d
    } else if d.len() == 2 {
        " "@ + d
    } else {
        d
    }
}

fn pad(n: u64) -> (r: String)
    ensures
        r@ == padded(n as nat),
{
    let d = number(n);
    let len = crate::text::chars_of(&d).len();
    let mut m = if len == 1 {
        "  ".to_string()
    } else if len == 2 {
        " ".to_string()
    } else {
        return d;
    };
    m.append(&d);
    m
}

/// The text that chrono writes for a moment, by a format, in UTC; nothing for a
/// moment that chrono cannot hold.
pub uninterp spec fn stamp_text(secs: i64, nanos: u32, format: Seq<char>) -> Option<Seq<char>>;

/// chrono's `DateTime::from_timestamp`, and `format` on what it gives: a function
/// of the moment and the format.
#[verifier::external_body]
pub(crate) fn format_stamp(secs: i64, nanos: u32, format: &str) -> (r: Option<String>)
    requires
        format@ == "%Y-%m-%d %H:%M"@ || format@ == "%Y-%m-%d %H:%M:%S"@,
    ensures
        text_opt(r) == stamp_text(secs, nanos, format@),
{
    chrono::DateTime::from_timestamp(secs, nanos).map(|stamp| stamp.format(format).to_string())
}

/// When a session was last updated, in words.
pub open spec fn updated_text(updated: Option<Stamp>) -> Seq<char> {
    match updated {
        Some(s) => match stamp_text(s.secs, s.nanos, "%Y-%m-%d %H:%M"@) {
            Some(t) => t,
            None => "undated"@,
        },
        None => "undated"@,
    }
}

/// The three lines of a picker row: what the session was about, how much of it
/// would come back, and its id.
pub open spec fn row_text(row: nat, updated: Seq<char>, p: SessionPreview) -> Seq<char> {
    padded(row) + "  "@ + p.title@ + "\n     "@ + updated + "  "@ + decimal(
        p.message_count as nat,
    ) + " message(s)  "@ + branches_text(p.branch_points as nat) + "\n     "@ + p.session_id@
}

/// The three lines of the picker row `row`.
pub fn preview_row(row: u64, p: &SessionPreview) -> (r: String)
    ensures
        r@ == row_text(row as nat, updated_text(p.updated), *p),
{
    let updated = match p.updated {
        Some(s) => match format_stamp(s.secs, s.nanos, "%Y-%m-%d %H:%M") {
            Some(t) => t,
            None => "undated".to_string(),
        },
        None => "undated".to_string(),
    };
    let branches = if p.branch_points == 0 {
        "unbranched".to_string()
    } else if p.branch_points == 1 {
        "1 branch point".to_string()
    } else {
        let mut b = number(p.branch_points as u64);
        b.append(" branch points");
        b
    };
    let mut m = pad(row);
    m.append("  ");
    m.append(&p.title);
    m.append("\n     ");
    m.append(&updated);
    m.append("  ");
    m.append(&number(p.message_count as u64));
    m.append(" message(s)  ");
    m.append(&branches);
    m.append("\n     ");
    m.append(&p.session_id);
    m
}

/// The places of the rows whose id starts with a text.
pub open spec fn hits(ids: Seq<Seq<char>>, wanted: Seq<char>) -> Seq<int>
    decreases ids.len(),
{
    if ids.len() == 0 {
        Seq::empty()
    } else {
        let init = hits(ids.drop_last(), wanted);
        if starts_with(ids.last(), wanted) {
            init.push(ids.len() - 1)
        } else {
            init
        }
    }
}

/// The one row that a text names, or why it names none.
pub open spec fn named_row(ids: Seq<Seq<char>>, wanted: Seq<char>, peer: PeerView) -> Result<
    int,
    Seq<char>,
> {
    let found = hits(ids, wanted);
    if found.len() == 0 {
        Err(
            "no "@ + peer.name + " session for this directory has an id starting with "@
                + debug_text(wanted) + "; `wizard resume --"@ + peer.word
                + " --list` prints the ids"@,
        )
    } else if found.len() == 1 {
        Ok(found[0])
    } else {
        Err(
            debug_text(wanted) + " matches "@ + decimal(found.len())
                + " sessions; give more of the id"@,
        )
    }
}

pub open spec fn row_view(r: Result<usize, String>) -> Result<int, Seq<char>> {
    match r {
        Ok(i) => Ok(i as int),
        Err(e) => Err(e@),
    }
}

pub open spec fn ids_of(previews: Seq<SessionPreview>) -> Seq<Seq<char>> {
    previews.map_values(|p: SessionPreview| p.session_id@)
}

/// The row of the session that `--session` names.
pub fn pick_session(previews: &Vec<SessionPreview>, wanted: &str, peer: &Peer) -> (r: Result<
    usize,
    String,
>)
    ensures
        row_view(r) == named_row(ids_of(previews@), wanted@, peer@),
{
    let ghost ids = ids_of(previews@);
    let mut count: u64 = 0;
    let mut at: usize = 0;
    let mut i: usize = 0;
    assert(ids.take(0) =~= Seq::empty());
    while i < previews.len()
        invariant
            i <= previews.len(),
            ids == ids_of(previews@),
            count <= i,
            count == hits(ids.take(i as int), wanted@).len(),
            count > 0 ==> at == hits(ids.take(i as int), wanted@)[0],
        decreases previews.len() - i,
    {
        assert(ids.take(i + 1).drop_last() =~= ids.take(i as int));
        assert(ids.take(i + 1).last() == previews@[i as int].session_id@);
        if begins_with(&previews[i].session_id, wanted) {
            if count == 0 {
                at = i;
            }
            count += 1;
        }
        i += 1;
    }
    assert(ids.take(ids.len() as int) =~= ids);
    if count == 0 {
        let mut m = "no ".to_string();
        m.append(&peer.name);
        m.append(" session for this directory has an id starting with ");
        m.append(&quoted(wanted));
        m.append("; `wizard resume --");
        m.append(&peer.word);
        m.append(" --list` prints the ids");
        Err(m)
    } else if count == 1 {
        Ok(at)
    } else {
        let mut m = quoted(wanted);
        m.append(" matches ");
        m.append(&number(count));
        m.append(" sessions; give more of the id");
        Err(m)
    }
}

/// What an answer at the picker chooses among `rows`: nothing for a
/// cancellation, a row counted from zero, or why it is none.
pub open spec fn answered(line: Seq<char>, rows: nat) -> Result<Option<int>, Seq<char>> {
    let answer = trim(line);
    if answer.len() == 0 || lower(answer) == "q"@ {
        Ok(None)
    } else {
        match parsed_u64(answer) {
            None => Err(debug_text(answer) + " is not one of the row numbers above"@),
            Some(row) => if 1 <= row <= rows {
                Ok(Some(row - 1))
            } else {
                Err("there is no row "@ + decimal(row as nat))
            },
        }
    }
}

/// The row that an answer at the picker chooses.
pub fn pick_row(line: &str, rows: usize) -> (r: Result<Option<usize>, String>)
    ensures
        answered(line@, rows as nat) == match r {
            Ok(Some(i)) => Ok(Some(i as int)),
            Ok(None) => Ok(None),
            Err(e) => Err(e@),
        },
{
    let answer = trimmed(line);
    if is_empty_text(&answer) || same(&lowered(&answer), "q") {
        return Ok(None);
    }
    match parse_u64(&answer) {
        None => {
            let mut m = quoted(&answer);
            m.append(" is not one of the row numbers above");
            Err(m)
        },
        Some(row) => {
            if 1 <= row && row <= rows as u64 {
                Ok(Some((row - 1) as usize))
            } else {
                let mut m = "there is no row ".to_string();
                m.append(&number(row));
                Err(m)
            }
        },
    }
}

/// One block of a message.  Reasoning is none of them: its signature holds for
/// the client that it was issued to.
#[derive(Debug, PartialEq, Eq)]
pub enum ContentBlock {
    Text(String),
    /// An image's base64 text and its media type.
    Image { data: String, mime: String },
    ToolUse { id: String, name: String, arguments: Json },
    ToolResult { tool_use_id: String, name: String, content: String },
}

pub enum ContentView {
    Text(Seq<char>),
    Image { data: Seq<char>, mime: Seq<char> },
    ToolUse { id: Seq<char>, name: Seq<char>, arguments: JsonView },
    ToolResult { tool_use_id: Seq<char>, name: Seq<char>, content: Seq<char> },
}

impl View for ContentBlock {
    type V = ContentView;

    open spec fn view(&self) -> ContentView {
        match self {
            ContentBlock::Text(t) => ContentView::Text(t@),
            ContentBlock::Image { data, mime } => ContentView::Image { data: data@, mime: mime@ },
            ContentBlock::ToolUse { id, name, arguments } => ContentView::ToolUse {
                id: id@,
                name: name@,
                arguments: arguments@,
            },
            ContentBlock::ToolResult { tool_use_id, name, content } => ContentView::ToolResult {
                tool_use_id: tool_use_id@,
                name: name@,
                content: content@,
            },
        }
    }
}

pub open spec fn contents_view(c: Seq<ContentBlock>) -> Seq<ContentView> {
    c.map_values(|x: ContentBlock| x@)
}

/// One message of the history that a resume carries on.
#[derive(Debug, PartialEq, Eq)]
pub struct ChatMessage {
    pub role: Role,
    pub content: Vec<ContentBlock>,
}

pub struct ChatView {
    pub role: Role,
    pub content: Seq<ContentView>,
}

impl View for ChatMessage {
    type V = ChatView;

    open spec fn view(&self) -> ChatView {
        ChatView { role: self.role, content: contents_view(self.content@) }
    }
}

pub open spec fn chats_view(m: Seq<ChatMessage>) -> Seq<ChatView> {
    m.map_values(|x: ChatMessage| x@)
}

/// The name recorded for a tool result whose call is not on the chain.
pub const UNKNOWN_TOOL: &'static str = "unknown";

/// The texts of an array's items that have one, one per line.
pub open spec fn item_texts(items: Seq<JsonView>) -> Seq<char>
    decreases items.len(),
{
    if items.len() == 0 {
        Seq::empty()
    } else {
        let before = item_texts(items.drop_last());
        match items.last().field_text("text"@) {
            Some(t) => if before.len() == 0 {
                t
            } else {
                before + "\n"@ + t
            },
            None => before,
        }
    }
}

/// What a tool result says, as one text; a failure says so first.
pub open spec fn result_of(content: JsonView, is_error: bool) -> Seq<char> {
    let text = match content {
        JsonView::Text(t) => t,
        JsonView::Array(items) => item_texts(items),
        JsonView::Null => Seq::empty(),
        other => json_text(other),
    };
    if is_error {
        "error: "@ + text
    } else {
        text
    }
}

fn joined_texts(items: &Vec<Json>) -> (r: String)
    ensures
        r@ == item_texts(items@.map_values(|j: Json| j@)),
{
    let ghost all = items@.map_values(|j: Json| j@);
    let mut out = String::new();
    let mut i: usize = 0;
    assert(all.take(0) =~= Seq::empty());
    assert(out@ =~= Seq::empty());
    while i < items.len()
        invariant
            i <= items.len(),
            all == items@.map_values(|j: Json| j@),
            out@ == item_texts(all.take(i as int)),
        decreases items.len() - i,
    {
        assert(all.take(i + 1).drop_last() =~= all.take(i as int));
        assert(all.take(i + 1).last() == items@[i as int]@);
        if let Some(t) = items[i].get_text("text") {
            if is_empty_text(&out) {
                out = t.clone();
            } else {
                out.append("\n");
                out.append(t);
            }
        }
        i += 1;
    }
    assert(all.take(all.len() as int) =~= all);
    out
}

/// Flatten a tool result's payload into one text.
pub fn result_text(content: &Json, is_error: bool) -> (r: String)
    ensures
        r@ == result_of(content@, is_error),
{
    let text = match content {
        Json::Text(t) => t.clone(),
        Json::Array(items) => {
            assert(content@->Array_0 =~= items@.map_values(|j: Json| j@));
            joined_texts(items)
        },
        Json::Null => {
            let s = String::new();
            assert(s@ =~= Seq::empty());
            s
        },
        other => write_json(other),
    };
    if is_error {
        let mut m = "error: ".to_string();
        m.append(&text);
        m
    } else {
        text
    }
}

/// The image that a source holds, where it holds one that is small enough:
/// three bytes for four characters of base64.
pub open spec fn image_of(source: JsonView, limit: nat) -> Option<ContentView> {
    match (source.field_text("data"@), source.field_text("media_type"@)) {
        (Some(data), Some(mime)) => if encode_utf8(data).len() / 4 * 3 > limit {
            None
        } else {
            Some(ContentView::Image { data, mime })
        },
        _ => None,
    }
}

/// The image that a source holds; none for a link or one past the limit in
/// bytes.
pub fn image_block(source: &Json, limit: usize) -> (r: Option<ContentBlock>)
    ensures
        image_of(source@, limit as nat) == match r {
            Some(b) => Some(b@),
            None => None,
        },
{
    match (source.get_text("data"), source.get_text("media_type")) {
        (Some(data), Some(mime)) => {
            let size = data.as_str().as_bytes().len();
            if size / 4 * 3 > limit {
                None
            } else {
                Some(ContentBlock::Image { data: data.clone(), mime: mime.clone() })
            }
        },
        _ => None,
    }
}

/// The blocks of an assistant's message, and the tools named so far.
pub open spec fn assistant_blocks(
    content: Seq<BlockView>,
    names: Map<Seq<char>, Seq<char>>,
) -> (Seq<ContentView>, Map<Seq<char>, Seq<char>>)
    decreases content.len(),
{
    if content.len() == 0 {
        (Seq::empty(), names)
    } else {
        let (blocks, known) = assistant_blocks(content.drop_last(), names);
        match content.last() {
            BlockView::Text(t) => if is_blank(t) {
                (blocks, known)
            } else {
                (blocks.push(ContentView::Text(t)), known)
            },
            BlockView::ToolUse { id, name, input } => (
                blocks.push(ContentView::ToolUse { id, name, arguments: input }),
                known.insert(id, name),
            ),
            _ => (blocks, known),
        }
    }
}

/// The tool results on a user's line, with the names of the calls they answer.
pub open spec fn result_blocks(
    content: Seq<BlockView>,
    names: Map<Seq<char>, Seq<char>>,
) -> Seq<ContentView>
    decreases content.len(),
{
    if content.len() == 0 {
        Seq::empty()
    } else {
        let results = result_blocks(content.drop_last(), names);
        match content.last() {
            BlockView::ToolResult { tool_use_id, content: payload, is_error } => results.push(
                ContentView::ToolResult {
                    tool_use_id,
                    name: if names.contains_key(tool_use_id) {
                        names[tool_use_id]
                    } else {
                        UNKNOWN_TOOL@
                    },
                    content: result_of(payload, is_error),
                },
            ),
            _ => results,
        }
    }
}

/// What the user said on a line: its texts and images.
pub open spec fn said_blocks(content: Seq<BlockView>, limit: nat) -> Seq<ContentView>
    decreases content.len(),
{
    if content.len() == 0 {
        Seq::empty()
    } else {
        let said = said_blocks(content.drop_last(), limit);
        match content.last() {
            BlockView::Text(t) => if is_blank(t) {
                said
            } else {
                said.push(ContentView::Text(t))
            },
            BlockView::Image { source } => match image_of(source, limit) {
                Some(image) => said.push(image),
                None => said,
            },
            _ => said,
        }
    }
}

/// A message, unless there is nothing in it.
pub open spec fn with_message(out: Seq<ChatView>, role: Role, content: Seq<ContentView>) -> Seq<
    ChatView,
> {
    if content.len() == 0 {
        out
    } else {
        out.push(ChatView { role, content })
    }
}

/// The history that replayed nodes make, and the tools they named.  A user's
/// line is up to two messages, results first.
pub open spec fn converted(nodes: Seq<NodeView>, limit: nat) -> (
    Seq<ChatView>,
    Map<Seq<char>, Seq<char>>,
)
    decreases nodes.len(),
{
    if nodes.len() == 0 {
        (Seq::empty(), Map::empty())
    } else {
        let (out, names) = converted(nodes.drop_last(), limit);
        let n = nodes.last();
        match n.kind {
            NodeKind::Assistant => {
                let (blocks, known) = assistant_blocks(n.content, names);
                (with_message(out, Role::Assistant, blocks), known)
            },
            NodeKind::User => (
                with_message(
                    with_message(out, Role::Tool, result_blocks(n.content, names)),
                    Role::User,
                    said_blocks(n.content, limit),
                ),
                names,
            ),
            _ => (out, names),
        }
    }
}

/// The names of calls, as a map of texts.
spec fn knows(names: Map<Seq<char>, String>, known: Map<Seq<char>, Seq<char>>) -> bool {
    &&& forall|k: Seq<char>| #[trigger] names.contains_key(k) <==> known.contains_key(k)
    &&& forall|k: Seq<char>| #[trigger] names.contains_key(k) ==> names[k]@ == known[k]
}

fn take_assistant(node: &ClaudeNode, names: &mut StringHashMap<String>, Ghost(known): Ghost<
    Map<Seq<char>, Seq<char>>,
>) -> (r: Vec<ContentBlock>)
    requires
        knows(old(names)@, known),
    ensures
        contents_view(r@) == assistant_blocks(node@.content, known).0,
        knows(final(names)@, assistant_blocks(node@.content, known).1),
{
    let ghost all = node@.content;
    let mut out: Vec<ContentBlock> = Vec::new();
    let mut i: usize = 0;
    assert(all.take(0) =~= Seq::empty());
    assert(contents_view(out@) =~= Seq::empty());
    while i < node.content.len()
        invariant
            i <= node.content.len(),
            all == node@.content,
            contents_view(out@) == assistant_blocks(all.take(i as int), known).0,
            knows(names@, assistant_blocks(all.take(i as int), known).1),
        decreases node.content.len() - i,
    {
        assert(all.take(i + 1).drop_last() =~= all.take(i as int));
        assert(all.take(i + 1).last() == node.content@[i as int]@);
        let ghost was = out@;
        match &node.content[i] {
            ClaudeBlock::Text(t) => {
                if !blank(t) {
                    out.push(ContentBlock::Text(t.clone()));
                    assert(contents_view(out@) =~= contents_view(was).push(
                        ContentView::Text(t@),
                    ));
                }
            },
            ClaudeBlock::ToolUse { id, name, input } => {
                names.insert(id.clone(), name.clone());
                let block = ContentBlock::ToolUse {
                    id: id.clone(),
                    name: name.clone(),
                    arguments: input.copy(),
                };
                out.push(block);
                assert(contents_view(out@) =~= contents_view(was).push(
                    ContentView::ToolUse { id: id@, name: name@, arguments: input@ },
                ));
            },
            _ => {},
        }
        i += 1;
    }
    assert(all.take(all.len() as int) =~= all);
    out
}

fn take_results(node: &ClaudeNode, names: &StringHashMap<String>, Ghost(known): Ghost<
    Map<Seq<char>, Seq<char>>,
>) -> (r: Vec<ContentBlock>)
    requires
        knows(names@, known),
    ensures
        contents_view(r@) == result_blocks(node@.content, known),
{
    let ghost all = node@.content;
    let mut out: Vec<ContentBlock> = Vec::new();
    let mut i: usize = 0;
    assert(all.take(0) =~= Seq::empty());
    assert(contents_view(out@) =~= Seq::empty());
    while i < node.content.len()
        invariant
            i <= node.content.len(),
            all == node@.content,
            knows(names@, known),
            contents_view(out@) == result_blocks(all.take(i as int), known),
        decreases node.content.len() - i,
    {
        assert(all.take(i + 1).drop_last() =~= all.take(i as int));
        assert(all.take(i + 1).last() == node.content@[i as int]@);
        if let ClaudeBlock::ToolResult { tool_use_id, content, is_error } = &node.content[i] {
            let ghost was = out@;
            assert(names@.contains_key(tool_use_id@) <==> known.contains_key(tool_use_id@));
            let name = match names.get(tool_use_id) {
                Some(n) => n.clone(),
                None => UNKNOWN_TOOL.to_string(),
            };
            let block = ContentBlock::ToolResult {
                tool_use_id: tool_use_id.clone(),
                name,
                content: result_text(content, *is_error),
            };
            let ghost b = block@;
            out.push(block);
            assert(contents_view(out@) =~= contents_view(was).push(b));
        }
        i += 1;
    }
    assert(all.take(all.len() as int) =~= all);
    out
}

fn take_said(node: &ClaudeNode, limit: usize) -> (r: Vec<ContentBlock>)
    ensures
        contents_view(r@) == said_blocks(node@.content, limit as nat),
{
    let ghost all = node@.content;
    let mut out: Vec<ContentBlock> = Vec::new();
    let mut i: usize = 0;
    assert(all.take(0) =~= Seq::empty());
    assert(contents_view(out@) =~= Seq::empty());
    while i < node.content.len()
        invariant
            i <= node.content.len(),
            all == node@.content,
            contents_view(out@) == said_blocks(all.take(i as int), limit as nat),
        decreases node.content.len() - i,
    {
        assert(all.take(i + 1).drop_last() =~= all.take(i as int));
        assert(all.take(i + 1).last() == node.content@[i as int]@);
        let ghost was = out@;
        match &node.content[i] {
            ClaudeBlock::Text(t) => {
                if !blank(t) {
                    out.push(ContentBlock::Text(t.clone()));
                    assert(contents_view(out@) =~= contents_view(was).push(
                        ContentView::Text(t@),
                    ));
                }
            },
            ClaudeBlock::Image { source } => {
                if let Some(block) = image_block(source, limit) {
                    let ghost b = block@;
                    out.push(block);
                    assert(contents_view(out@) =~= contents_view(was).push(b));
                }
            },
            _ => {},
        }
        i += 1;
    }
    assert(all.take(all.len() as int) =~= all);
    out
}

fn add_message(out: &mut Vec<ChatMessage>, role: Role, content: Vec<ContentBlock>)
    ensures
        chats_view(final(out)@) == with_message(
            chats_view(old(out)@),
            role,
            contents_view(content@),
        ),
{
    assert(contents_view(content@).len() == content@.len());
    if content.len() > 0 {
        let ghost was = out@;
        let ghost m = ChatView { role, content: contents_view(content@) };
        out.push(ChatMessage { role, content });
        assert(chats_view(out@) =~= chats_view(was).push(m));
    }
}

/// Convert the replayable part of a chain into a message history.
pub fn to_chat_messages(session: &ClaudeSession, chain: &Chain, limit: usize) -> (r: Vec<ChatMessage>)
    ensures
        chats_view(r@) == converted(
            picked(session@.nodes, chain@.positions, replayed()),
            limit as nat,
        ).0,
{
    let nodes = chain.replayable(session);
    let ghost all = refs_view(nodes@);
    let mut names: StringHashMap<String> = StringHashMap::new();
    let mut out: Vec<ChatMessage> = Vec::new();
    let mut i: usize = 0;
    assert(all.take(0) =~= Seq::empty());
    assert(chats_view(out@) =~= Seq::empty());
    while i < nodes.len()
        invariant
            i <= nodes.len(),
            all == refs_view(nodes@),
            chats_view(out@) == converted(all.take(i as int), limit as nat).0,
            knows(names@, converted(all.take(i as int), limit as nat).1),
        decreases nodes.len() - i,
    {
        let ghost known = converted(all.take(i as int), limit as nat).1;
        assert(all.take(i + 1).drop_last() =~= all.take(i as int));
        assert(all.take(i + 1).last() == nodes@[i as int]@);
        let node = nodes[i];
        match node.kind {
            NodeKind::Assistant => {
                let blocks = take_assistant(node, &mut names, Ghost(known));
                add_message(&mut out, Role::Assistant, blocks);
            },
            NodeKind::User => {
                let results = take_results(node, &names, Ghost(known));
                let said = take_said(node, limit);
                add_message(&mut out, Role::Tool, results);
                add_message(&mut out, Role::User, said);
            },
            _ => {},
        }
        i += 1;
    }
    assert(all.take(all.len() as int) =~= all);
    out
}

/// A conversation ready to be written into a new session.
#[derive(Debug, PartialEq, Eq)]
pub struct Draft {
    pub messages: Vec<ChatMessage>,
    pub source_id: String,
    pub stop: ChainStop,
}

/// A draft's messages, the session it is from, and why its chain stopped.
pub struct DraftView {
    pub messages: Seq<ChatView>,
    pub source_id: Seq<char>,
    pub stop: StopView,
}

impl View for Draft {
    type V = DraftView;

    open spec fn view(&self) -> DraftView {
        DraftView {
            messages: chats_view(self.messages@),
            source_id: self.source_id@,
            stop: self.stop@,
        }
    }
}

/// The chain that a leaf names, or the one to resume.
pub open spec fn wanted_chain(s: SessionView, leaf: Option<Seq<char>>) -> ChainView {
    match leaf {
        Some(l) => chain_of(s.nodes, l),
        None => s.resume_chain(),
    }
}

/// What importing a conversation of a session gives, or why it is refused: a
/// leaf that the file does not have, or nothing to replay.
pub open spec fn import_of(s: SessionView, leaf: Option<Seq<char>>, limit: nat) -> Result<
    DraftView,
    Seq<char>,
> {
    let chain = wanted_chain(s, leaf);
    let messages = converted(picked(s.nodes, chain.positions, replayed()), limit).0;
    match chain.stop {
        StopView::UnknownLeaf(uuid) => Err(
            s.path + " has no line "@ + debug_text(uuid) + "; a leaf is a uuid from that file"@,
        ),
        stop => if messages.len() == 0 {
            Err(
                "nothing in "@ + s.path
                    + " would replay: the chain holds no user or assistant messages"@,
            )
        } else {
            Ok(DraftView { messages, source_id: s.session_id, stop })
        },
    }
}

pub open spec fn draft_view(r: Result<Draft, String>) -> Result<DraftView, Seq<char>> {
    match r {
        Ok(d) => Ok(d@),
        Err(e) => Err(e@),
    }
}

/// Import a conversation of a parsed session.
pub fn import_session(session: ClaudeSession, leaf: Option<&str>, limit: usize) -> (r: Result<
    Draft,
    String,
>)
    requires
        session.wf(),
    ensures
        draft_view(r) == import_of(
            session@,
            match leaf {
                Some(l) => Some(l@),
                None => None,
            },
            limit as nat,
        ),
{
    let chain = match leaf {
        Some(l) => session.resolve_chain(l),
        None => session.resume_chain(),
    };
    if let ChainStop::UnknownLeaf(uuid) = &chain.stop {
        let mut m = session.path.clone();
        m.append(" has no line ");
        m.append(&quoted(uuid));
        m.append("; a leaf is a uuid from that file");
        return Err(m);
    }
    let messages = to_chat_messages(&session, &chain, limit);
    assert(chats_view(messages@).len() == messages@.len());
    if messages.len() == 0 {
        let mut m = "nothing in ".to_string();
        m.append(&session.path);
        m.append(" would replay: the chain holds no user or assistant messages");
        return Err(m);
    }
    Ok(Draft { messages, source_id: session.session_id, stop: chain.stop })
}

/// Import a conversation out of a session file's text: the chain back from
/// `leaf`, or the one to resume.
pub fn import(source: &str, text: &str, leaf: Option<&str>, limit: usize) -> (r: Result<
    Draft,
    String,
>)
    ensures
        draft_view(r) == import_of(
            session_of(source@, text@),
            match leaf {
                Some(l) => Some(l@),
                None => None,
            },
            limit as nat,
        ),
{
    import_session(ClaudeSession::parse(source, text), leaf, limit)
}

/// What an import produced.
#[derive(Debug, PartialEq, Eq)]
pub struct Imported {
    /// The new session's id.
    pub id: String,
    /// The session file that was written.
    pub path: String,
    /// The transcript it was read from.
    pub source: String,
    /// The name of the agent that wrote it.
    pub agent: String,
    /// That transcript's session id.
    pub source_id: String,
    /// How many messages replayed.
    pub messages: usize,
    /// Why the chain ended.
    pub stop: ChainStop,
}

/// What a chain ran into, where that is worth saying.
pub open spec fn caveat_of(stop: StopView, agent: Seq<char>) -> Option<Seq<char>> {
    match stop {
        StopView::MissingParent(uuid) => Some(
            "The chain stops at "@ + uuid
                + ", which is not in that file: normal after a /clear or a compaction, and everything before it is not recoverable here."@,
        ),
        StopView::Cycle(uuid) => Some(
            "The chain loops back at "@ + uuid
                + ", which "@ + agent + " does not write; that file has been edited or damaged, and the import stops at the loop."@,
        ),
        _ => None,
    }
}

/// The import of a draft, once its messages were written into the session `id`
/// at `path`.
pub fn import_into(id: String, path: String, source: String, agent: String, draft: Draft) -> (r:
    Imported)
    ensures
        r.id == id,
        r.path == path,
        r.source == source,
        r.agent == agent,
        r.source_id@ == draft@.source_id,
        r.messages == draft@.messages.len(),
        r.stop@ == draft@.stop,
{
    let messages = draft.messages.len();
    Imported { id, path, source, agent, source_id: draft.source_id, messages, stop: draft.stop }
}

impl Imported {
    /// What the chain ran into, where that is worth saying.
    pub fn caveat(&self) -> (r: Option<String>)
        ensures
            text_opt(r) == caveat_of(self.stop@, self.agent@),
    {
        match &self.stop {
            ChainStop::MissingParent(uuid) => {
                let mut m = "The chain stops at ".to_string();
                m.append(uuid);
                m.append(
                    ", which is not in that file: normal after a /clear or a compaction, and everything before it is not recoverable here.",
                );
                Some(m)
            },
            ChainStop::Cycle(uuid) => {
                let mut m = "The chain loops back at ".to_string();
                m.append(uuid);
                m.append(", which ");
                m.append(&self.agent);
                m.append(
                    " does not write; that file has been edited or damaged, and the import stops at the loop.",
                );
                Some(m)
            },
            _ => None,
        }
    }

    /// The whole outcome as prose.
    pub fn summary(&self) -> (r: String)
        ensures
            r@ == ({
                let text = "imported "@ + decimal(self.messages as nat)
                    + " message(s) from "@ + self.agent@ + " session "@ + self.source_id@
                    + " — its file was read, not modified"@;
                match caveat_of(self.stop@, self.agent@) {
                    Some(caveat) => text + "\n"@ + caveat,
                    None => text,
                }
            }),
    {
        let mut text = "imported ".to_string();
        text.append(&number(self.messages as u64));
        text.append(" message(s) from ");
        text.append(&self.agent);
        text.append(" session ");
        text.append(&self.source_id);
        text.append(" — its file was read, not modified");
        if let Some(caveat) = self.caveat() {
            text.append("\n");
            text.append(&caveat);
        }
        text
    }
}

/// Whether a block may stand on a message of a role: results on tool messages,
/// calls on an assistant's, images on a user's, and texts on either of the two.
pub open spec fn belongs(b: ContentView, role: Role) -> bool {
    match b {
        ContentView::Text(_) => role == Role::Assistant || role == Role::User,
        ContentView::Image { .. } => role == Role::User,
        ContentView::ToolUse { .. } => role == Role::Assistant,
        ContentView::ToolResult { .. } => role == Role::Tool,
    }
}

/// Whether a message has something in it and every block is where it belongs.
pub open spec fn well_placed(m: ChatView) -> bool {
    &&& m.content.len() > 0
    &&& forall|i: int| 0 <= i < m.content.len() ==> belongs(#[trigger] m.content[i], m.role)
}

proof fn lemma_assistant_blocks(content: Seq<BlockView>, names: Map<Seq<char>, Seq<char>>)
    ensures
        ({
            let (blocks, known) = assistant_blocks(content, names);
            &&& forall|i: int|
                0 <= i < blocks.len() ==> belongs(#[trigger] blocks[i], Role::Assistant)
            &&& forall|k: Seq<char>| #[trigger]
                known.contains_key(k) ==> (names.contains_key(k) && names[k] == known[k]) || exists|
                    i: int,
                |
                    0 <= i < blocks.len() && is_call(#[trigger] blocks[i], k, known[k])
        }),
    decreases content.len(),
{
    if content.len() > 0 {
        let init = content.drop_last();
        lemma_assistant_blocks(init, names);
        let (before, knew) = assistant_blocks(init, names);
        let (blocks, known) = assistant_blocks(content, names);
        assert forall|i: int| 0 <= i < blocks.len() implies belongs(
            #[trigger] blocks[i],
            Role::Assistant,
        ) by {
            if i < before.len() {
                assert(blocks[i] == before[i]);
            }
        }
        assert forall|k: Seq<char>| #[trigger] known.contains_key(k) implies (names.contains_key(k)
            && names[k] == known[k]) || exists|i: int|
            0 <= i < blocks.len() && is_call(#[trigger] blocks[i], k, known[k]) by {
            match content.last() {
                BlockView::ToolUse { id, name, input } => {
                    if k == id {
                        assert(is_call(blocks[before.len() as int], k, known[k]));
                    } else {
                        assert(knew.contains_key(k) && knew[k] == known[k]);
                        if exists|i: int|
                            0 <= i < before.len() && is_call(#[trigger] before[i], k, knew[k]) {
                            let i = choose|i: int|
                                0 <= i < before.len() && is_call(#[trigger] before[i], k, knew[k]);
                            assert(blocks[i] == before[i]);
                        }
                    }
                },
                _ => {
                    assert(knew.contains_key(k) && knew[k] == known[k]);
                    if exists|i: int|
                        0 <= i < before.len() && is_call(#[trigger] before[i], k, knew[k]) {
                        let i = choose|i: int|
                            0 <= i < before.len() && is_call(#[trigger] before[i], k, knew[k]);
                        assert(blocks[i] == before[i]);
                    }
                },
            }
        }
    }
}

proof fn lemma_result_blocks(content: Seq<BlockView>, names: Map<Seq<char>, Seq<char>>)
    ensures
        forall|i: int|
            0 <= i < result_blocks(content, names).len() ==> {
                let b = #[trigger] result_blocks(content, names)[i];
                &&& belongs(b, Role::Tool)
                &&& b matches ContentView::ToolResult { tool_use_id, name, .. } && (name
                    == UNKNOWN_TOOL@ || (names.contains_key(tool_use_id) && names[tool_use_id]
                    == name))
            },
    decreases content.len(),
{
    if content.len() > 0 {
        let init = content.drop_last();
        lemma_result_blocks(init, names);
        let before = result_blocks(init, names);
        assert forall|i: int| 0 <= i < result_blocks(content, names).len() implies {
            let b = #[trigger] result_blocks(content, names)[i];
            &&& belongs(b, Role::Tool)
            &&& b matches ContentView::ToolResult { tool_use_id, name, .. } && (name
                == UNKNOWN_TOOL@ || (names.contains_key(tool_use_id) && names[tool_use_id]
                == name))
        } by {
            if i < before.len() {
                assert(result_blocks(content, names)[i] == before[i]);
            }
        }
    }
}

proof fn lemma_said_blocks(content: Seq<BlockView>, limit: nat)
    ensures
        forall|i: int|
            0 <= i < said_blocks(content, limit).len() ==> belongs(
                #[trigger] said_blocks(content, limit)[i],
                Role::User,
            ),
    decreases content.len(),
{
    if content.len() > 0 {
        let init = content.drop_last();
        lemma_said_blocks(init, limit);
        let before = said_blocks(init, limit);
        assert forall|i: int| 0 <= i < said_blocks(content, limit).len() implies belongs(
            #[trigger] said_blocks(content, limit)[i],
            Role::User,
        ) by {
            if i < before.len() {
                assert(said_blocks(content, limit)[i] == before[i]);
            }
        }
    }
}

/// Every message of an imported history has something in it, results stand on
/// tool messages only, and calls on an assistant's only.
pub proof fn law_blocks_stand_where_they_belong(nodes: Seq<NodeView>, limit: nat)
    ensures
        forall|m: int|
            0 <= m < converted(nodes, limit).0.len() ==> well_placed(
                #[trigger] converted(nodes, limit).0[m],
            ),
    decreases nodes.len(),
{
    if nodes.len() > 0 {
        let init = nodes.drop_last();
        law_blocks_stand_where_they_belong(init, limit);
        let (before, names) = converted(init, limit);
        let out = converted(nodes, limit).0;
        let n = nodes.last();
        lemma_assistant_blocks(n.content, names);
        lemma_result_blocks(n.content, names);
        lemma_said_blocks(n.content, limit);
        assert forall|m: int| 0 <= m < out.len() implies well_placed(#[trigger] out[m]) by {
            if m < before.len() {
                assert(out[m] == before[m]);
            }
        }
    }
}

/// Whether a block is the call `id` of the tool `name`.
pub open spec fn is_call(b: ContentView, id: Seq<char>, name: Seq<char>) -> bool {
    b matches ContentView::ToolUse { id: i, name: n, .. } && i == id && n == name
}

/// Whether a history holds the call `id` of the tool `name`.
pub open spec fn called(out: Seq<ChatView>, id: Seq<char>, name: Seq<char>) -> bool {
    exists|m: int| 0 <= m < out.len() && calls(#[trigger] out[m], id, name)
}

/// Whether a message holds the call `id` of the tool `name`.
pub open spec fn calls(m: ChatView, id: Seq<char>, name: Seq<char>) -> bool {
    exists|b: int| 0 <= b < m.content.len() && is_call(#[trigger] m.content[b], id, name)
}

/// Whether every result of a message answers a call that came before, by its id
/// and its name, or has no name.
pub open spec fn answers(m: ChatView, earlier: Seq<ChatView>) -> bool {
    forall|b: int|
        0 <= b < m.content.len() ==> match #[trigger] m.content[b] {
            ContentView::ToolResult { tool_use_id, name, .. } => name == UNKNOWN_TOOL@ || called(
                earlier,
                tool_use_id,
                name,
            ),
            _ => true,
        }
}

proof fn lemma_called_later(out: Seq<ChatView>, more: Seq<ChatView>, id: Seq<char>, name: Seq<char>)
    requires
        called(out, id, name),
        out.len() <= more.len(),
        forall|m: int| 0 <= m < out.len() ==> #[trigger] more[m] == out[m],
    ensures
        called(more, id, name),
{
    let m = choose|m: int| 0 <= m < out.len() && calls(#[trigger] out[m], id, name);
    assert(calls(more[m], id, name));
}

/// A tool result of an imported history has the name of an earlier call with its
/// id, or a placeholder.
pub proof fn law_results_answer_earlier_calls(nodes: Seq<NodeView>, limit: nat)
    ensures
        forall|m: int|
            0 <= m < converted(nodes, limit).0.len() ==> answers(
                #[trigger] converted(nodes, limit).0[m],
                converted(nodes, limit).0.take(m),
            ),
        forall|k: Seq<char>| #[trigger]
            converted(nodes, limit).1.contains_key(k) ==> called(
                converted(nodes, limit).0,
                k,
                converted(nodes, limit).1[k],
            ),
    decreases nodes.len(),
{
    if nodes.len() > 0 {
        let init = nodes.drop_last();
        law_results_answer_earlier_calls(init, limit);
        let (before, names) = converted(init, limit);
        let (out, known) = converted(nodes, limit);
        let n = nodes.last();
        lemma_assistant_blocks(n.content, names);
        lemma_result_blocks(n.content, names);
        lemma_said_blocks(n.content, limit);
        assert forall|m: int| 0 <= m < before.len() implies #[trigger] out[m] == before[m] by {}
        assert forall|m: int| 0 <= m < out.len() implies answers(
            #[trigger] out[m],
            out.take(m),
        ) by {
            if m < before.len() {
                assert(answers(before[m], before.take(m)));
                assert(out.take(m) =~= before.take(m));
            } else if n.kind == NodeKind::User && m == before.len() && result_blocks(
                n.content,
                names,
            ).len() > 0 {
                assert(out.take(m) =~= before);
                let c = out[m].content;
                assert(c == result_blocks(n.content, names));
                assert forall|b: int| 0 <= b < c.len() implies match #[trigger] c[b] {
                    ContentView::ToolResult { tool_use_id, name, .. } => name == UNKNOWN_TOOL@
                        || called(before, tool_use_id, name),
                    _ => true,
                } by {
                    assert(c[b] == result_blocks(n.content, names)[b]);
                }
            } else if n.kind == NodeKind::User {
                let c = out[m].content;
                assert(c == said_blocks(n.content, limit));
                assert forall|b: int| 0 <= b < c.len() implies match #[trigger] c[b] {
                    ContentView::ToolResult { tool_use_id, name, .. } => name == UNKNOWN_TOOL@
                        || called(out.take(m), tool_use_id, name),
                    _ => true,
                } by {
                    assert(belongs(said_blocks(n.content, limit)[b], Role::User));
                }
            } else {
                let c = out[m].content;
                assert(c == assistant_blocks(n.content, names).0);
                assert forall|b: int| 0 <= b < c.len() implies match #[trigger] c[b] {
                    ContentView::ToolResult { tool_use_id, name, .. } => name == UNKNOWN_TOOL@
                        || called(out.take(m), tool_use_id, name),
                    _ => true,
                } by {
                    assert(belongs(assistant_blocks(n.content, names).0[b], Role::Assistant));
                }
            }
        }
        assert forall|k: Seq<char>| #[trigger] known.contains_key(k) implies called(
            out,
            k,
            known[k],
        ) by {
            if names.contains_key(k) && names[k] == known[k] {
                lemma_called_later(before, out, k, known[k]);
            } else {
                let blocks = assistant_blocks(n.content, names).0;
                let i = choose|i: int|
                    0 <= i < blocks.len() && is_call(#[trigger] blocks[i], k, known[k]);
                assert(out[before.len() as int].content == blocks);
                assert(calls(out[before.len() as int], k, known[k]));
            }
        }
    }
}

} // verus!
