//! One line of a session file.

use crate::json::{json_of, json_skips, parse_json, skips_json, text_opt, Json, JsonView};
use crate::members::{
    field_names, find_written, is_object_text, items, keep_fields, members, members_view, named,
    names_read, object_text, of_fields, only, only_fields, opens_object, read_name, reads_names,
    repeats, repeats_a_field, split_items, spread, spread_fields, write_object, written,
};
use crate::text::{
    begins_with, chars_of, is_empty_text, join, join_texts, same, slice_text, starts_with, texts,
    trim_start, trimmed_start,
};
use vstd::prelude::*;

verus! {

/// The line types that carry `uuid` and `parentUuid` and therefore take part in
/// the conversation graph.
#[derive(Clone, Copy, Debug, PartialEq, Eq, Structural)]
pub enum NodeKind {
    /// A user turn: a typed prompt, a slash-command echo, or the results
    /// answering the previous assistant turn.
    User,
    /// An assistant turn.
    Assistant,
    /// Context injected around a turn.
    Attachment,
    /// A local notice.
    System,
    /// A long-running operation's progress record.
    Progress,
}

/// The kind that a `type` names, if lines of it take part in the chain.
pub open spec fn kind_of(name: Seq<char>) -> Option<NodeKind> {
    if name == "user"@ {
        Some(NodeKind::User)
    } else if name == "assistant"@ {
        Some(NodeKind::Assistant)
    } else if name == "attachment"@ {
        Some(NodeKind::Attachment)
    } else if name == "system"@ {
        Some(NodeKind::System)
    } else if name == "progress"@ {
        Some(NodeKind::Progress)
    } else {
        None
    }
}

impl NodeKind {
    /// The kind that a `type` names, if lines of it take part in the chain.
    pub fn from_type(kind: &str) -> (r: Option<NodeKind>)
        ensures
            r == kind_of(kind@),
    {
        if same(kind, "user") {
            Some(NodeKind::User)
        } else if same(kind, "assistant") {
            Some(NodeKind::Assistant)
        } else if same(kind, "attachment") {
            Some(NodeKind::Attachment)
        } else if same(kind, "system") {
            Some(NodeKind::System)
        } else if same(kind, "progress") {
            Some(NodeKind::Progress)
        } else {
            None
        }
    }

    /// The kind carries a model-visible message.
    pub open spec fn is_spoken(self) -> bool {
        self == NodeKind::User || self == NodeKind::Assistant
    }

    /// True for the two kinds that carry a model-visible message.
    pub fn is_message(self) -> (r: bool)
        ensures
            r == self.is_spoken(),
    {
        self == NodeKind::User || self == NodeKind::Assistant
    }
}

/// One content block.  A block of a type that is not modelled is kept whole.
#[derive(Debug, PartialEq, Eq)]
pub enum ClaudeBlock {
    Text(String),
    Thinking { thinking: String, signature: Option<String> },
    /// A tool call; its id is what the matching result refers to.
    ToolUse { id: String, name: String, input: Json },
    ToolResult { tool_use_id: String, content: Json, is_error: bool },
    Image { source: Json },
    Other { kind: String, raw: Json },
}

pub enum BlockView {
    Text(Seq<char>),
    Thinking { thinking: Seq<char>, signature: Option<Seq<char>> },
    ToolUse { id: Seq<char>, name: Seq<char>, input: JsonView },
    ToolResult { tool_use_id: Seq<char>, content: JsonView, is_error: bool },
    Image { source: JsonView },
    Other { kind: Seq<char>, raw: JsonView },
}

impl View for ClaudeBlock {
    type V = BlockView;

    open spec fn view(&self) -> BlockView {
        match self {
            ClaudeBlock::Text(t) => BlockView::Text(t@),
            ClaudeBlock::Thinking { thinking, signature } => BlockView::Thinking {
                thinking: thinking@,
                signature: text_opt(*signature),
            },
            ClaudeBlock::ToolUse { id, name, input } => BlockView::ToolUse {
                id: id@,
                name: name@,
                input: input@,
            },
            ClaudeBlock::ToolResult { tool_use_id, content, is_error } => BlockView::ToolResult {
                tool_use_id: tool_use_id@,
                content: content@,
                is_error: *is_error,
            },
            ClaudeBlock::Image { source } => BlockView::Image { source: source@ },
            ClaudeBlock::Other { kind, raw } => BlockView::Other { kind: kind@, raw: raw@ },
        }
    }
}

pub open spec fn blocks_view(b: Seq<ClaudeBlock>) -> Seq<BlockView> {
    b.map_values(|x: ClaudeBlock| x@)
}

/// A string field, or nothing where there is none.
pub open spec fn text_or_empty(j: JsonView, key: Seq<char>) -> Seq<char> {
    match j.field_text(key) {
        Some(t) => t,
        None => Seq::empty(),
    }
}

/// A field, or null where there is none.
pub open spec fn field_or_null(j: JsonView, key: Seq<char>) -> JsonView {
    match j.field(key) {
        Some(v) => v,
        None => JsonView::Null,
    }
}

/// What a content block says.
pub open spec fn block_of(j: JsonView) -> BlockView {
    let kind = text_or_empty(j, "type"@);
    if kind == "text"@ {
        BlockView::Text(text_or_empty(j, "text"@))
    } else if kind == "thinking"@ {
        BlockView::Thinking {
            thinking: text_or_empty(j, "thinking"@),
            signature: j.field_text("signature"@),
        }
    } else if kind == "tool_use"@ {
        BlockView::ToolUse {
            id: text_or_empty(j, "id"@),
            name: text_or_empty(j, "name"@),
            input: field_or_null(j, "input"@),
        }
    } else if kind == "tool_result"@ {
        BlockView::ToolResult {
            tool_use_id: text_or_empty(j, "tool_use_id"@),
            content: field_or_null(j, "content"@),
            is_error: j.field("is_error"@) == Some(JsonView::Bool(true)),
        }
    } else if kind == "image"@ {
        BlockView::Image { source: field_or_null(j, "source"@) }
    } else {
        BlockView::Other { kind, raw: j }
    }
}

/// The blocks of a message's content.  A bare string is one text block.
pub open spec fn blocks_of(content: JsonView) -> Seq<BlockView> {
    match content {
        JsonView::Text(t) => seq![BlockView::Text(t)],
        JsonView::Array(items) => items.map_values(|j: JsonView| block_of(j)),
        JsonView::Null => Seq::empty(),
        other => seq![BlockView::Other { kind: Seq::empty(), raw: other }],
    }
}

fn text_field(j: &Json, key: &str) -> (r: String)
    ensures
        r@ == text_or_empty(j@, key@),
{
    match j.get_text(key) {
        Some(t) => t.clone(),
        None => {
            let s = String::new();
            assert(s@ =~= Seq::empty());
            s
        },
    }
}

fn json_field(j: &Json, key: &str) -> (r: Json)
    ensures
        r@ == field_or_null(j@, key@),
{
    match j.get(key) {
        Some(v) => v.copy(),
        None => Json::Null,
    }
}

fn text_field_opt(j: &Json, key: &str) -> (r: Option<String>)
    ensures
        text_opt(r) == j@.field_text(key@),
{
    match j.get_text(key) {
        Some(t) => Some(t.clone()),
        None => None,
    }
}

fn parse_block(j: &Json) -> (r: ClaudeBlock)
    ensures
        r@ == block_of(j@),
{
    let kind = text_field(j, "type");
    if same(&kind, "text") {
        ClaudeBlock::Text(text_field(j, "text"))
    } else if same(&kind, "thinking") {
        ClaudeBlock::Thinking {
            thinking: text_field(j, "thinking"),
            signature: text_field_opt(j, "signature"),
        }
    } else if same(&kind, "tool_use") {
        ClaudeBlock::ToolUse {
            id: text_field(j, "id"),
            name: text_field(j, "name"),
            input: json_field(j, "input"),
        }
    } else if same(&kind, "tool_result") {
        let is_error = match j.get("is_error") {
            Some(Json::Bool(b)) => *b,
            _ => false,
        };
        ClaudeBlock::ToolResult {
            tool_use_id: text_field(j, "tool_use_id"),
            content: json_field(j, "content"),
            is_error,
        }
    } else if same(&kind, "image") {
        ClaudeBlock::Image { source: json_field(j, "source") }
    } else {
        ClaudeBlock::Other { kind, raw: j.copy() }
    }
}

/// The blocks of a message's content.
pub fn parse_blocks(content: &Json) -> (r: Vec<ClaudeBlock>)
    ensures
        blocks_view(r@) == blocks_of(content@),
{
    let mut out: Vec<ClaudeBlock> = Vec::new();
    match content {
        Json::Text(t) => {
            out.push(ClaudeBlock::Text(t.clone()));
        },
        Json::Array(items) => {
            let mut i: usize = 0;
            while i < items.len()
                invariant
                    i <= items.len(),
                    out@.len() == i,
                    forall|k: int| 0 <= k < i ==> (#[trigger] out@[k])@ == block_of(items@[k]@),
                decreases items.len() - i,
            {
                out.push(parse_block(&items[i]));
                i += 1;
            }
            assert(content@->Array_0.len() == items@.len());
        },
        Json::Null => {},
        other => {
            let kind = String::new();
            assert(kind@ =~= Seq::empty());
            out.push(ClaudeBlock::Other { kind, raw: other.copy() });
        },
    }
    assert(blocks_view(out@) =~= blocks_of(content@));
    out
}

/// A moment, in seconds since the epoch and nanoseconds within the second.
#[derive(Clone, Copy, Debug, PartialEq, Eq, PartialOrd, Ord, Structural)]
pub struct Stamp {
    pub secs: i64,
    pub nanos: u32,
}

/// The moment that chrono reads in an RFC 3339 text, as seconds since the epoch
/// and nanoseconds within the second; nothing when the text is none.
pub uninterp spec fn rfc3339_of(text: Seq<char>) -> Option<(i64, u32)>;

/// `chrono::DateTime::parse_from_rfc3339`, and the moment it gives by its
/// `timestamp` and `timestamp_subsec_nanos`: a function of the text alone.
#[verifier::external_body]
fn parse_rfc3339(text: &str) -> (r: Option<(i64, u32)>)
    ensures
        r == rfc3339_of(text@),
{
    chrono::DateTime::parse_from_rfc3339(text).ok().map(
        |stamped| (stamped.timestamp(), stamped.timestamp_subsec_nanos()),
    )
}

/// One line of a session file that takes part in the conversation graph.
#[derive(Debug, PartialEq, Eq)]
pub struct ClaudeNode {
    pub uuid: String,
    /// `None` for a root.
    pub parent_uuid: Option<String>,
    pub kind: NodeKind,
    /// The line's position in the file.
    pub index: usize,
    pub timestamp: Option<Stamp>,
    pub cwd: Option<String>,
    pub git_branch: Option<String>,
    /// True for a subagent's conversation.
    pub is_sidechain: bool,
    /// True for lines injected on the user's behalf.
    pub is_meta: bool,
    /// True for a failed API call.
    pub is_api_error: bool,
    pub role: Option<String>,
    pub content: Vec<ClaudeBlock>,
    pub model: Option<String>,
    pub message_id: Option<String>,
    pub stop_reason: Option<String>,
    pub usage: Option<Json>,
    pub tool_use_result: Option<Json>,
    pub attachment: Option<Json>,
    pub subtype: Option<String>,
    pub system_content: Option<String>,
}

pub struct NodeView {
    pub uuid: Seq<char>,
    pub parent_uuid: Option<Seq<char>>,
    pub kind: NodeKind,
    pub index: usize,
    pub timestamp: Option<Stamp>,
    pub cwd: Option<Seq<char>>,
    pub git_branch: Option<Seq<char>>,
    pub is_sidechain: bool,
    pub is_meta: bool,
    pub is_api_error: bool,
    pub role: Option<Seq<char>>,
    pub content: Seq<BlockView>,
    pub model: Option<Seq<char>>,
    pub message_id: Option<Seq<char>>,
    pub stop_reason: Option<Seq<char>>,
    pub usage: Option<JsonView>,
    pub tool_use_result: Option<JsonView>,
    pub attachment: Option<JsonView>,
    pub subtype: Option<Seq<char>>,
    pub system_content: Option<Seq<char>>,
}

pub open spec fn json_opt(j: Option<Json>) -> Option<JsonView> {
    match j {
        Some(v) => Some(v@),
        None => None,
    }
}

impl View for ClaudeNode {
    type V = NodeView;

    open spec fn view(&self) -> NodeView {
        NodeView {
            uuid: self.uuid@,
            parent_uuid: text_opt(self.parent_uuid),
            kind: self.kind,
            index: self.index,
            timestamp: self.timestamp,
            cwd: text_opt(self.cwd),
            git_branch: text_opt(self.git_branch),
            is_sidechain: self.is_sidechain,
            is_meta: self.is_meta,
            is_api_error: self.is_api_error,
            role: text_opt(self.role),
            content: blocks_view(self.content@),
            model: text_opt(self.model),
            message_id: text_opt(self.message_id),
            stop_reason: text_opt(self.stop_reason),
            usage: json_opt(self.usage),
            tool_use_result: json_opt(self.tool_use_result),
            attachment: json_opt(self.attachment),
            subtype: text_opt(self.subtype),
            system_content: text_opt(self.system_content),
        }
    }
}

/// Whether a field, where it is there and not null, is a string.
pub open spec fn text_fits(j: JsonView, key: Seq<char>) -> bool {
    match j.field(key) {
        None | Some(JsonView::Null) | Some(JsonView::Text(_)) => true,
        _ => false,
    }
}

/// Whether a field, where it is there and not null, is a boolean.
pub open spec fn bool_fits(j: JsonView, key: Seq<char>) -> bool {
    match j.field(key) {
        None | Some(JsonView::Null) | Some(JsonView::Bool(_)) => true,
        _ => false,
    }
}

/// The string fields that lines carry.
pub open spec fn line_texts() -> Seq<Seq<char>> {
    seq![
        "type"@,
        "uuid"@,
        "parentUuid"@,
        "sessionId"@,
        "timestamp"@,
        "cwd"@,
        "gitBranch"@,
        "subtype"@,
        "leafUuid"@,
        "lastPrompt"@,
        "aiTitle"@,
        "mode"@,
        "permissionMode"@,
        "agentName"@,
        "prRepository"@,
        "prUrl"@,
    ]
}

/// The fields of a line, in the order in which a list would give them.
pub open spec fn line_fields() -> Seq<Seq<char>> {
    seq![
        "type"@,
        "uuid"@,
        "parentUuid"@,
        "sessionId"@,
        "timestamp"@,
        "cwd"@,
        "gitBranch"@,
        "isSidechain"@,
        "isMeta"@,
        "isApiErrorMessage"@,
        "subtype"@,
        "content"@,
        "message"@,
        "toolUseResult"@,
        "attachment"@,
        "leafUuid"@,
        "lastPrompt"@,
        "aiTitle"@,
        "mode"@,
        "permissionMode"@,
        "agentName"@,
        "prNumber"@,
        "prRepository"@,
        "prUrl"@,
    ]
}

/// The fields of a message, in the order in which a list would give them.
pub open spec fn message_fields() -> Seq<Seq<char>> {
    seq!["id"@, "role"@, "model"@, "stop_reason"@, "usage"@, "content"@]
}

fn line_field_names() -> (r: Vec<&'static str>)
    ensures
        field_names(r@) == line_fields(),
{
    let r: Vec<&'static str> = vec![
        "type",
        "uuid",
        "parentUuid",
        "sessionId",
        "timestamp",
        "cwd",
        "gitBranch",
        "isSidechain",
        "isMeta",
        "isApiErrorMessage",
        "subtype",
        "content",
        "message",
        "toolUseResult",
        "attachment",
        "leafUuid",
        "lastPrompt",
        "aiTitle",
        "mode",
        "permissionMode",
        "agentName",
        "prNumber",
        "prRepository",
        "prUrl",
    ];
    assert(field_names(r@) =~= line_fields());
    r
}

fn message_field_names() -> (r: Vec<&'static str>)
    ensures
        field_names(r@) == message_fields(),
{
    let r: Vec<&'static str> = vec!["id", "role", "model", "stop_reason", "usage", "content"];
    assert(field_names(r@) =~= message_fields());
    r
}

/// The text of a line's message: what is written for its name, or in its place
/// of a list.
pub open spec fn message_text(raw: Seq<char>) -> Option<Seq<char>> {
    if items(raw).len() == line_fields().len() {
        Some(items(raw)[12])
    } else {
        written(members(raw), "message"@)
    }
}

/// Whether a line, or the message in it, gives a field twice.
pub open spec fn line_repeats(raw: Seq<char>) -> bool {
    ||| repeats(raw, line_fields())
    ||| message_text(raw) matches Some(m) && repeats(m, message_fields())
}

fn find_message(raw: &str) -> (r: Option<String>)
    ensures
        text_opt(r) == message_text(raw@),
{
    let parts = split_items(raw);
    assert(items(raw@).len() == parts@.len());
    assert(line_fields().len() == 24);
    if parts.len() == 24 {
        assert(items(raw@)[12] == parts@[12]@);
        Some(parts[12].clone())
    } else {
        find_written(raw, "message")
    }
}

fn repeats_in_line(raw: &str) -> (r: bool)
    ensures
        r == line_repeats(raw@),
{
    if repeats_a_field(raw, &line_field_names()) {
        return true;
    }
    match find_message(raw) {
        Some(m) => repeats_a_field(&m, &message_field_names()),
        None => false,
    }
}

/// Whether the names that a line, and the message in it, write can be read.
pub open spec fn line_names_read(raw: Seq<char>) -> bool {
    &&& names_read(raw)
    &&& message_text(raw) matches Some(m) ==> names_read(m)
}

fn reads_line_names(raw: &str) -> (r: bool)
    ensures
        r == line_names_read(raw@),
{
    if !reads_names(raw) {
        return false;
    }
    match find_message(raw) {
        Some(m) => reads_names(&m),
        None => true,
    }
}

/// A member of a line; of a message nothing but its fields.
pub open spec fn slim_member(m: (Seq<char>, Seq<char>)) -> (Seq<char>, Seq<char>) {
    if named(m.0) == Some("message"@) {
        (m.0, only(m.1, message_fields()))
    } else {
        m
    }
}

/// The text of a line with nothing but the fields of a line in it, and nothing
/// but the fields of a message in its message.
pub open spec fn slim_line(raw: Seq<char>) -> Seq<char> {
    if opens_object(raw) {
        object_text(
            of_fields(members(raw), line_fields()).map_values(
                |m: (Seq<char>, Seq<char>)| slim_member(m),
            ),
        )
    } else if items(raw).len() == line_fields().len() {
        "["@ + join(
            items(raw).update(12, only(items(raw)[12], message_fields())),
            ","@,
        ) + "]"@
    } else {
        raw
    }
}

fn slim_members(parts: Vec<(String, String)>) -> (r: Vec<(String, String)>)
    ensures
        members_view(r@) == members_view(parts@).map_values(
            |m: (Seq<char>, Seq<char>)| slim_member(m),
        ),
{
    let ghost m = members_view(parts@);
    let fields = message_field_names();
    let mut out: Vec<(String, String)> = Vec::new();
    let mut i: usize = 0;
    while i < parts.len()
        invariant
            i <= parts.len(),
            m == members_view(parts@),
            field_names(fields@) == message_fields(),
            out.len() == i,
            forall|k: int|
                0 <= k < i ==> ((#[trigger] out@[k]).0@, out@[k].1@) == slim_member(m[k]),
        decreases parts.len() - i,
    {
        assert(m[i as int] == (parts@[i as int].0@, parts@[i as int].1@));
        let is_message = match read_name(&parts[i].0) {
            Some(name) => same(&name, "message"),
            None => false,
        };
        let value = if is_message {
            only_fields(&parts[i].1, &fields)
        } else {
            parts[i].1.clone()
        };
        out.push((parts[i].0.clone(), value));
        i += 1;
    }
    assert(members_view(out@) =~= m.map_values(|m: (Seq<char>, Seq<char>)| slim_member(m)));
    out
}

fn slim(raw: &str) -> (r: String)
    ensures
        r@ == slim_line(raw@),
{
    if is_object_text(raw) {
        return write_object(&slim_members(keep_fields(raw, &line_field_names())));
    }
    let mut parts = split_items(raw);
    assert(items(raw@).len() == parts@.len());
    assert(line_fields().len() == 24);
    if parts.len() != 24 {
        return raw.to_string();
    }
    let ghost was = parts@;
    assert(items(raw@)[12] == parts@[12]@);
    let message = only_fields(&parts[12], &message_field_names());
    parts.set(12, message);
    assert(texts(parts@) =~= texts(was).update(12, message@));
    let mut out = "[".to_string();
    out.append(&join_texts(&parts, ","));
    out.append("]");
    out
}

/// The line that a text writes down, as an object of its fields; nothing for
/// damage.  What stands beside the fields, in a line or in its message, is read
/// past.
pub open spec fn line_of(raw: Seq<char>) -> Option<JsonView> {
    if !json_skips(raw) || !line_names_read(raw) || line_repeats(raw) {
        None
    } else {
        match json_of(slim_line(raw)) {
            Some(j) => if line_fits(spread(j, line_fields())) {
                Some(spread(j, line_fields()))
            } else {
                None
            },
            None => None,
        }
    }
}

/// Decode one line of a session file.
pub fn read_line(raw: &str) -> (r: Option<Json>)
    ensures
        json_opt(r) == line_of(raw@),
{
    if !skips_json(raw) || !reads_line_names(raw) || repeats_in_line(raw) {
        return None;
    }
    match parse_json(&slim(raw)) {
        Some(j) => {
            let line = spread_fields(j, &line_field_names());
            if fits_line(&line) {
                Some(line)
            } else {
                None
            }
        },
        None => None,
    }
}

/// The string fields that messages carry.
pub open spec fn message_texts() -> Seq<Seq<char>> {
    seq!["id"@, "role"@, "model"@, "stop_reason"@]
}

pub open spec fn texts_fit(j: JsonView, keys: Seq<Seq<char>>) -> bool {
    forall|i: int| 0 <= i < keys.len() ==> text_fits(j, #[trigger] keys[i])
}

/// Whether a decoded line has the shape that lines have: every field that is
/// read is absent, null, or of its type.
pub open spec fn line_fits(j: JsonView) -> bool {
    &&& j is Object
    &&& texts_fit(j, line_texts())
    &&& bool_fits(j, "isSidechain"@)
    &&& bool_fits(j, "isMeta"@)
    &&& bool_fits(j, "isApiErrorMessage"@)
    &&& match j.field("prNumber"@) {
        None | Some(JsonView::Null) | Some(JsonView::Number(Some(_), _)) => true,
        _ => false,
    }
    &&& match j.field("message"@) {
        None | Some(JsonView::Null) => true,
        Some(m) => spread(m, message_fields()) is Object && texts_fit(
            spread(m, message_fields()),
            message_texts(),
        ),
    }
}

fn fits_text(j: &Json, key: &str) -> (r: bool)
    ensures
        r == text_fits(j@, key@),
{
    match j.get(key) {
        None => true,
        Some(Json::Null) => true,
        Some(Json::Text(_)) => true,
        _ => false,
    }
}

fn fits_bool(j: &Json, key: &str) -> (r: bool)
    ensures
        r == bool_fits(j@, key@),
{
    match j.get(key) {
        None => true,
        Some(Json::Null) => true,
        Some(Json::Bool(_)) => true,
        _ => false,
    }
}

fn texts_of_line_fit(j: &Json) -> (r: bool)
    ensures
        r == texts_fit(j@, line_texts()),
{
    let a = fits_text(j, "type") && fits_text(j, "uuid") && fits_text(j, "parentUuid")
        && fits_text(j, "sessionId") && fits_text(j, "timestamp") && fits_text(j, "cwd");
    let b = fits_text(j, "gitBranch") && fits_text(j, "subtype") && fits_text(j, "leafUuid")
        && fits_text(j, "lastPrompt") && fits_text(j, "aiTitle");
    let c = fits_text(j, "mode") && fits_text(j, "permissionMode") && fits_text(j, "agentName")
        && fits_text(j, "prRepository") && fits_text(j, "prUrl");
    proof {
        let k = line_texts();
        assert(k[0] == "type"@ && k[1] == "uuid"@ && k[2] == "parentUuid"@ && k[3] == "sessionId"@
            && k[4] == "timestamp"@ && k[5] == "cwd"@ && k[6] == "gitBranch"@ && k[7] == "subtype"@
            && k[8] == "leafUuid"@ && k[9] == "lastPrompt"@ && k[10] == "aiTitle"@ && k[11]
            == "mode"@ && k[12] == "permissionMode"@ && k[13] == "agentName"@ && k[14]
            == "prRepository"@ && k[15] == "prUrl"@);
    }
    a && b && c
}

/// Whether a decoded line has the shape that lines have.
pub fn fits_line(j: &Json) -> (r: bool)
    ensures
        r == line_fits(j@),
{
    let object = match j {
        Json::Object(_) => true,
        _ => false,
    };
    let number = match j.get("prNumber") {
        None => true,
        Some(Json::Null) => true,
        Some(Json::Number(Some(_), _)) => true,
        _ => false,
    };
    let message = match j.get("message") {
        None => true,
        Some(Json::Null) => true,
        Some(m) => {
            proof {
                let k = message_texts();
                assert(k[0] == "id"@ && k[1] == "role"@ && k[2] == "model"@ && k[3]
                    == "stop_reason"@);
            }
            let m = spread_fields(m.copy(), &message_field_names());
            match &m {
                Json::Object(_) => fits_text(&m, "id") && fits_text(&m, "role") && fits_text(
                    &m,
                    "model",
                ) && fits_text(&m, "stop_reason"),
                _ => false,
            }
        },
    };
    object && texts_of_line_fit(j) && fits_bool(j, "isSidechain") && fits_bool(j, "isMeta")
        && fits_bool(j, "isApiErrorMessage") && number && message
}

/// A field that is there and not null.
pub open spec fn value_at(j: JsonView, key: Seq<char>) -> Option<JsonView> {
    match j.field(key) {
        None | Some(JsonView::Null) => None,
        Some(v) => Some(v),
    }
}

/// A boolean field; false where there is none.
pub open spec fn flag_at(j: JsonView, key: Seq<char>) -> bool {
    j.field(key) == Some(JsonView::Bool(true))
}

/// A line's message, or null where there is none.
pub open spec fn message_of(j: JsonView) -> JsonView {
    spread(field_or_null(j, "message"@), message_fields())
}

/// The moment that a line's `timestamp` gives; an unreadable one is dropped.
pub open spec fn stamp_of(j: JsonView) -> Option<Stamp> {
    match j.field_text("timestamp"@) {
        Some(t) => match rfc3339_of(t) {
            Some((secs, nanos)) => Some(Stamp { secs, nanos }),
            None => None,
        },
        None => None,
    }
}

/// The text of a system line.
pub open spec fn system_text(kind: NodeKind, j: JsonView) -> Option<Seq<char>> {
    if kind == NodeKind::System {
        j.field_text("content"@)
    } else {
        None
    }
}

/// The node that a chain-bearing line stands for.  Who spoke, what was said and
/// by which model stand on user and assistant lines only, an attachment on
/// attachment lines only, a subtype and a text of its own on system lines only.
pub open spec fn node_of(index: usize, uuid: Seq<char>, kind: NodeKind, j: JsonView) -> NodeView {
    let m = message_of(j);
    NodeView {
        uuid,
        parent_uuid: j.field_text("parentUuid"@),
        kind,
        index,
        timestamp: stamp_of(j),
        cwd: j.field_text("cwd"@),
        git_branch: j.field_text("gitBranch"@),
        is_sidechain: flag_at(j, "isSidechain"@),
        is_meta: flag_at(j, "isMeta"@),
        is_api_error: flag_at(j, "isApiErrorMessage"@),
        role: if kind.is_spoken() {
            m.field_text("role"@)
        } else {
            None
        },
        content: if kind.is_spoken() {
            blocks_of(field_or_null(m, "content"@))
        } else {
            Seq::empty()
        },
        model: if kind.is_spoken() {
            m.field_text("model"@)
        } else {
            None
        },
        message_id: m.field_text("id"@),
        stop_reason: m.field_text("stop_reason"@),
        usage: value_at(m, "usage"@),
        tool_use_result: value_at(j, "toolUseResult"@),
        attachment: if kind == NodeKind::Attachment {
            value_at(j, "attachment"@)
        } else {
            None
        },
        subtype: if kind == NodeKind::System {
            j.field_text("subtype"@)
        } else {
            None
        },
        system_content: system_text(kind, j),
    }
}

fn value_field(j: &Json, key: &str) -> (r: Option<Json>)
    ensures
        json_opt(r) == value_at(j@, key@),
{
    match j.get(key) {
        None => None,
        Some(Json::Null) => None,
        Some(v) => Some(v.copy()),
    }
}

fn flag_field(j: &Json, key: &str) -> (r: bool)
    ensures
        r == flag_at(j@, key@),
{
    match j.get(key) {
        Some(Json::Bool(b)) => *b,
        _ => false,
    }
}

fn stamp_field(j: &Json) -> (r: Option<Stamp>)
    ensures
        r == stamp_of(j@),
{
    match j.get_text("timestamp") {
        Some(t) => match parse_rfc3339(t) {
            Some((secs, nanos)) => Some(Stamp { secs, nanos }),
            None => None,
        },
        None => None,
    }
}

/// Build one node from a decoded chain-bearing line.
pub fn node(index: usize, uuid: String, kind: NodeKind, line: &Json) -> (r: ClaudeNode)
    ensures
        r@ == node_of(index, uuid@, kind, line@),
{
    let m = spread_fields(json_field(line, "message"), &message_field_names());
    let (role, content, model) = if kind.is_message() {
        (
            text_field_opt(&m, "role"),
            parse_blocks(&json_field(&m, "content")),
            text_field_opt(&m, "model"),
        )
    } else {
        let nothing: Vec<ClaudeBlock> = Vec::new();
        assert(blocks_view(nothing@) =~= Seq::empty());
        (None, nothing, None)
    };
    let attachment = if kind == NodeKind::Attachment {
        value_field(line, "attachment")
    } else {
        None
    };
    let (subtype, system_content) = if kind == NodeKind::System {
        (text_field_opt(line, "subtype"), text_field_opt(line, "content"))
    } else {
        (None, None)
    };
    ClaudeNode {
        uuid,
        parent_uuid: text_field_opt(line, "parentUuid"),
        kind,
        index,
        timestamp: stamp_field(line),
        cwd: text_field_opt(line, "cwd"),
        git_branch: text_field_opt(line, "gitBranch"),
        is_sidechain: flag_field(line, "isSidechain"),
        is_meta: flag_field(line, "isMeta"),
        is_api_error: flag_field(line, "isApiErrorMessage"),
        role,
        content,
        model,
        message_id: text_field_opt(&m, "id"),
        stop_reason: text_field_opt(&m, "stop_reason"),
        usage: value_field(&m, "usage"),
        tool_use_result: value_field(line, "toolUseResult"),
        attachment,
        subtype,
        system_content,
    }
}

/// The texts of a message's text blocks, one per line.
pub open spec fn said(content: Seq<BlockView>) -> Seq<char>
    decreases content.len(),
{
    if content.len() == 0 {
        Seq::empty()
    } else {
        let before = said(content.drop_last());
        match content.last() {
            BlockView::Text(t) => if before.len() == 0 {
                t
            } else {
                before + "\n"@ + t
            },
            _ => before,
        }
    }
}

/// Whether a text is one that was written on the user's behalf: blank, or
/// opening with one of the tags around command echoes and reminders.
pub open spec fn is_synthetic(text: Seq<char>) -> bool {
    let t = trim_start(text);
    if t.len() > 0 && t[0] == '<' {
        let rest = t.drop_first();
        ||| starts_with(rest, "local-command-"@)
        ||| starts_with(rest, "command-"@)
        ||| starts_with(rest, "system-reminder"@)
        ||| starts_with(rest, "user-prompt-submit-hook"@)
    } else {
        t.len() == 0
    }
}

/// True when a text is one of the synthetic user turns.
pub fn is_synthetic_prompt(text: &str) -> (r: bool)
    ensures
        r == is_synthetic(text@),
{
    let t = trimmed_start(text);
    let cs = chars_of(&t);
    if cs.len() > 0 && cs[0] == '<' {
        let rest = slice_text(&cs, 1, cs.len());
        assert(rest@ =~= t@.drop_first());
        begins_with(&rest, "local-command-") || begins_with(&rest, "command-") || begins_with(
            &rest,
            "system-reminder",
        ) || begins_with(&rest, "user-prompt-submit-hook")
    } else {
        cs.len() == 0
    }
}

/// Whether a message is nothing but text.
pub open spec fn all_text(content: Seq<BlockView>) -> bool {
    forall|i: int| 0 <= i < content.len() ==> (#[trigger] content[i]) is Text
}

impl NodeView {
    pub open spec fn text(self) -> Seq<char> {
        said(self.content)
    }

    /// Whether a resume replays the node: a user or assistant message of the
    /// main conversation with something in it, that someone typed or a model
    /// answered.
    pub open spec fn replayable(self) -> bool {
        &&& self.kind == NodeKind::User || self.kind == NodeKind::Assistant
        &&& !self.is_sidechain
        &&& !self.is_meta
        &&& self.content.len() > 0
        &&& !self.is_api_error
        &&& !(self.kind == NodeKind::User && all_text(self.content) && is_synthetic(self.text()))
    }
}

impl ClaudeNode {
    /// The texts of the message's text blocks, one per line.
    pub fn text(&self) -> (r: String)
        ensures
            r@ == self@.text(),
    {
        let ghost all = blocks_view(self.content@);
        let mut out = String::new();
        let mut i: usize = 0;
        assert(all.take(0) =~= Seq::empty());
        assert(out@ =~= Seq::empty());
        while i < self.content.len()
            invariant
                i <= self.content.len(),
                all == blocks_view(self.content@),
                out@ == said(all.take(i as int)),
            decreases self.content.len() - i,
        {
            assert(all.take(i + 1).drop_last() =~= all.take(i as int));
            assert(all.take(i + 1).last() == self.content@[i as int]@);
            if let ClaudeBlock::Text(t) = &self.content[i] {
                if is_empty_text(&out) {
                    out = t.clone();
                } else {
                    out.append("\n");
                    out.append(t);
                }
            }
            i += 1;
        }
        assert(all.take(all.len() as int) =~= all);
        out
    }

    fn is_all_text(&self) -> (r: bool)
        ensures
            r == all_text(self@.content),
    {
        let mut i: usize = 0;
        while i < self.content.len()
            invariant
                i <= self.content.len(),
                forall|k: int| 0 <= k < i ==> (#[trigger] self@.content[k]) is Text,
            decreases self.content.len() - i,
        {
            assert(self@.content[i as int] == self.content@[i as int]@);
            match &self.content[i] {
                ClaudeBlock::Text(_) => {},
                _ => {
                    return false;
                },
            }
            i += 1;
        }
        true
    }

    /// True for a node that a resume should replay.
    pub fn is_replayable(&self) -> (r: bool)
        ensures
            r == self@.replayable(),
    {
        assert(self@.content.len() == self.content@.len());
        if !self.kind.is_message() || self.is_sidechain || self.is_meta || self.content.len() == 0 {
            return false;
        }
        if self.is_api_error {
            return false;
        }
        !(self.kind == NodeKind::User && self.is_all_text() && is_synthetic_prompt(&self.text()))
    }
}

} // verus!
