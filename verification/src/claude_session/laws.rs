//! What holds of a session file that is read.

use crate::claude_session::line::{
    is_synthetic, kind_of, line_of, message_of, node_of, said, BlockView, NodeKind, NodeView, Stamp,
};
use crate::claude_session::preview::{
    clipped, find, is_prompt, slug, slugged, started, updated, SessionPreview, TitleSource,
};
use crate::claude_session::session::{
    children, folded, picked, replayed, session_of, Fold, MetaView, SessionView,
};
use crate::json::JsonView;
use crate::order::{before, in_order, keys_of, law_in_order_sorts, Keyed};
use crate::paths::{file_name, stem};
use crate::text::{is_white, join, lines, words};
use crate::text_laws::{law_blank_says_nothing, says_something};
use vstd::prelude::*;

verus! {

/// The id that a file's lines give, once one more was read: the first given.
pub open spec fn id_after(f: Fold, j: JsonView) -> Option<Seq<char>> {
    if f.session_id is Some {
        f.session_id
    } else {
        j.field_text("sessionId"@)
    }
}

/// The kind of node that a line's type names.
pub open spec fn names_kind(name: Seq<char>, kind: NodeKind) -> bool {
    name == match kind {
        NodeKind::User => "user"@,
        NodeKind::Assistant => "assistant"@,
        NodeKind::Attachment => "attachment"@,
        NodeKind::System => "system"@,
        NodeKind::Progress => "progress"@,
    }
}

proof fn lemma_kinds(name: Seq<char>, kind: NodeKind)
    requires
        names_kind(name, kind),
    ensures
        kind_of(name) == Some(kind),
{
    reveal_strlit("user");
    reveal_strlit("assistant");
    reveal_strlit("attachment");
    reveal_strlit("system");
    reveal_strlit("progress");
    assert("user"@.len() == 4 && "assistant"@.len() == 9 && "attachment"@.len() == 10
        && "system"@.len() == 6 && "progress"@.len() == 8);
}

/// A file is read line by line: white lines say nothing, a line that cannot be
/// read is counted and costs nothing else, and a line of the conversation is one
/// more node, in the order of the file.
pub proof fn law_a_file_is_read_line_by_line(
    ls: Seq<Seq<char>>,
    raw: Seq<char>,
    j: JsonView,
    kind: NodeKind,
    name: Seq<char>,
    uuid: Seq<char>,
)
    ensures
        folded(Seq::empty()).nodes.len() == 0,
        folded(Seq::empty()).malformed == 0,
        ({
            let f = folded(ls);
            let g = folded(ls.push(raw));
            let read = says_something(raw) && line_of(raw) == Some(j);
            &&& !says_something(raw) ==> g == f
            &&& says_something(raw) && line_of(raw) is None ==> g == (Fold {
                malformed: f.malformed + 1,
                ..f
            })
            &&& read && j.field_text("type"@) is None ==> g == (Fold {
                malformed: f.malformed + 1,
                session_id: id_after(f, j),
                ..f
            })
            &&& read && j.field_text("type"@) == Some(name) && names_kind(name, kind)
                && j.field_text("uuid"@) is None ==> g == (Fold {
                malformed: f.malformed + 1,
                session_id: id_after(f, j),
                ..f
            })
            &&& read && j.field_text("type"@) == Some(name) && names_kind(name, kind)
                && j.field_text("uuid"@) == Some(uuid) ==> {
                &&& g.nodes.len() == f.nodes.len() + 1
                &&& g.nodes.drop_last() == f.nodes
                &&& g.nodes.last() == node_of(ls.len() as usize, uuid, kind, j)
                &&& g == (Fold { nodes: g.nodes, session_id: id_after(f, j), ..f })
            }
        }),
{
    let all = ls.push(raw);
    assert(all.drop_last() =~= ls);
    assert(all.last() == raw);
    law_blank_says_nothing(raw);
    if names_kind(name, kind) {
        lemma_kinds(name, kind);
    }
    let f = folded(ls);
    let g = folded(all);
    assert(f.nodes.push(node_of(ls.len() as usize, uuid, kind, j)).drop_last() =~= f.nodes);
}

/// A line beside the conversation is kept for what it says of the session: its
/// title, and the node that it was left at; the nodes stay.
pub proof fn law_a_title_and_a_leaf_are_kept(ls: Seq<Seq<char>>, raw: Seq<char>, j: JsonView)
    requires
        says_something(raw),
        line_of(raw) == Some(j),
    ensures
        ({
            let f = folded(ls);
            let g = folded(ls.push(raw));
            &&& j.field_text("type"@) == Some("ai-title"@) ==> g == (Fold {
                meta: MetaView { ai_title: j.field_text("aiTitle"@), ..f.meta },
                session_id: id_after(f, j),
                ..f
            })
            &&& j.field_text("type"@) == Some("last-prompt"@) ==> {
                &&& g.nodes == f.nodes
                &&& g.malformed == f.malformed
                &&& g.meta.ai_title == f.meta.ai_title
                &&& g.meta.leaf_uuid == if j.field_text("leafUuid"@) is Some {
                    j.field_text("leafUuid"@)
                } else {
                    f.meta.leaf_uuid
                }
            }
        }),
{
    let all = ls.push(raw);
    assert(all.drop_last() =~= ls);
    law_blank_says_nothing(raw);
    reveal_strlit("user");
    reveal_strlit("assistant");
    reveal_strlit("attachment");
    reveal_strlit("system");
    reveal_strlit("progress");
    reveal_strlit("ai-title");
    reveal_strlit("last-prompt");
    assert("ai-title"@[0] == 'a' && "progress"@[0] == 'p');
    assert("user"@.len() == 4 && "assistant"@.len() == 9 && "attachment"@.len() == 10
        && "system"@.len() == 6 && "progress"@.len() == 8 && "ai-title"@.len() == 8
        && "last-prompt"@.len() == 11);
}

/// The block says what its part of a message says.
pub open spec fn reads_block(j: JsonView, b: BlockView) -> bool {
    let text = |key: Seq<char>|
        match j.field_text(key) {
            Some(t) => t,
            None => Seq::empty(),
        };
    let value = |key: Seq<char>|
        match j.field(key) {
            Some(v) => v,
            None => JsonView::Null,
        };
    let kind = text("type"@);
    match b {
        BlockView::Text(t) => kind == "text"@ && t == text("text"@),
        BlockView::Thinking { thinking, signature } => {
            &&& kind == "thinking"@
            &&& thinking == text("thinking"@)
            &&& signature == j.field_text("signature"@)
        },
        BlockView::ToolUse { id, name, input } => {
            &&& kind == "tool_use"@
            &&& id == text("id"@)
            &&& name == text("name"@)
            &&& input == value("input"@)
        },
        BlockView::ToolResult { tool_use_id, content, is_error } => {
            &&& kind == "tool_result"@
            &&& tool_use_id == text("tool_use_id"@)
            &&& content == value("content"@)
            &&& is_error == (j.field("is_error"@) == Some(JsonView::Bool(true)))
        },
        BlockView::Image { source } => kind == "image"@ && source == value("source"@),
        BlockView::Other { kind: k, raw } => {
            &&& k == kind
            &&& raw == j
            &&& kind != "text"@ && kind != "thinking"@ && kind != "tool_use"@ && kind
                != "tool_result"@ && kind != "image"@
        },
    }
}

/// A node says what its line says: who it is and whose child, where and when it
/// was said, and on a user's or an assistant's line every part of the message, in
/// order.
pub proof fn law_a_node_says_what_its_line_says(
    index: usize,
    uuid: Seq<char>,
    kind: NodeKind,
    j: JsonView,
)
    ensures
        ({
            let n = node_of(index, uuid, kind, j);
            let message = message_of(j);
            let flag = |key: Seq<char>| j.field(key) == Some(JsonView::Bool(true));
            &&& n.uuid == uuid
            &&& n.kind == kind
            &&& n.index == index
            &&& n.parent_uuid == j.field_text("parentUuid"@)
            &&& n.cwd == j.field_text("cwd"@)
            &&& n.git_branch == j.field_text("gitBranch"@)
            &&& n.is_sidechain == flag("isSidechain"@)
            &&& n.is_meta == flag("isMeta"@)
            &&& n.is_api_error == flag("isApiErrorMessage"@)
            &&& kind != NodeKind::User && kind != NodeKind::Assistant ==> n.content.len() == 0
            &&& (kind == NodeKind::User || kind == NodeKind::Assistant) ==> match message.field(
                "content"@,
            ) {
                Some(JsonView::Text(t)) => n.content == seq![BlockView::Text(t)],
                Some(JsonView::Array(items)) => {
                    &&& n.content.len() == items.len()
                    &&& forall|i: int|
                        0 <= i < items.len() ==> reads_block(items[i], #[trigger] n.content[i])
                },
                None => n.content.len() == 0,
                _ => true,
            }
        }),
{
}

/// What a message says is the text of its text blocks, in order, each on lines of
/// its own; other blocks say nothing.
pub proof fn law_text_blocks_are_what_is_said(content: Seq<BlockView>, b: BlockView)
    ensures
        said(Seq::empty()).len() == 0,
        ({
            let before = said(content);
            let after = said(content.push(b));
            match b {
                BlockView::Text(t) => after == if before.len() == 0 {
                    t
                } else {
                    before + "\n"@ + t
                },
                _ => after == before,
            }
        }),
{
    assert(content.push(b).drop_last() =~= content);
}

/// The node is part of the conversation proper: a user's or an assistant's
/// message with something in it, not of a side chain, not written by the program,
/// no failure of the service, and not one of the texts put in the user's mouth.
pub open spec fn is_replayed(n: NodeView) -> bool {
    &&& n.kind == NodeKind::User || n.kind == NodeKind::Assistant
    &&& !n.is_sidechain && !n.is_meta && !n.is_api_error
    &&& n.content.len() > 0
    &&& n.kind == NodeKind::Assistant || !put_in_mouth(n.text()) || exists|i: int|
        0 <= i < n.content.len() && !((#[trigger] n.content[i]) is Text)
}

/// The text is white, or opens with a tag of a command echo or a reminder.
pub open spec fn put_in_mouth(text: Seq<char>) -> bool {
    !says_something(text) || is_synthetic(text)
}

/// A conversation is replayed node by node along its chain: exactly those that
/// are part of the conversation proper, in the order of the chain.
pub proof fn law_the_conversation_proper_is_replayed(nodes: Seq<NodeView>, positions: Seq<int>)
    requires
        forall|i: int| 0 <= i < positions.len() ==> 0 <= #[trigger] positions[i] < nodes.len(),
    ensures
        picked(nodes, positions, replayed()) == positions.map_values(|p: int| nodes[p]).filter(
            |n: NodeView| is_replayed(n),
        ),
    decreases positions.len(),
{
    reveal(Seq::filter);
    let all = positions.map_values(|p: int| nodes[p]);
    if positions.len() > 0 {
        let init = positions.drop_last();
        assert forall|i: int| 0 <= i < init.len() implies 0 <= #[trigger] init[i]
            < nodes.len() by {
            assert(init[i] == positions[i]);
        }
        law_the_conversation_proper_is_replayed(nodes, init);
        assert(all.drop_last() =~= init.map_values(|p: int| nodes[p]));
        let p = positions[positions.len() - 1];
        let n = nodes[p];
        lemma_put_in_mouth(n.text());
        assert(n.replayable() == is_replayed(n));
    }
}

proof fn lemma_put_in_mouth(text: Seq<char>)
    ensures
        put_in_mouth(text) == is_synthetic(text),
{
    if !says_something(text) {
        law_blank_says_nothing(text);
        lemma_white_start(text);
    }
}

proof fn lemma_white_start(text: Seq<char>)
    requires
        !says_something(text),
    ensures
        crate::text::trim_start(text).len() == 0,
    decreases text.len(),
{
    if text.len() > 0 {
        assert(is_white(text[0]));
        let d = text.drop_first();
        assert forall|i: int| 0 <= i < d.len() implies is_white(#[trigger] d[i]) by {
            assert(d[i] == text[i + 1]);
        }
        lemma_white_start(d);
    }
}

/// `a` is before `b`, or the same moment.
pub open spec fn not_after(a: Stamp, b: Stamp) -> bool {
    a.secs < b.secs || (a.secs == b.secs && a.nanos <= b.nanos)
}

/// A session started at the earliest moment that one of its lines gives and was
/// last written at the latest; without such a line neither is known.
pub proof fn law_a_session_spans_its_moments(nodes: Seq<NodeView>)
    ensures
        started(nodes) is Some <==> exists|i: int|
            0 <= i < nodes.len() && (#[trigger] nodes[i]).timestamp is Some,
        updated(nodes) is Some <==> started(nodes) is Some,
        forall|i: int|
            0 <= i < nodes.len() && (#[trigger] nodes[i]).timestamp is Some ==> {
                &&& not_after(started(nodes)->0, nodes[i].timestamp->0)
                &&& not_after(nodes[i].timestamp->0, updated(nodes)->0)
            },
        started(nodes) is Some ==> exists|i: int|
            0 <= i < nodes.len() && (#[trigger] nodes[i]).timestamp == started(nodes),
        updated(nodes) is Some ==> exists|i: int|
            0 <= i < nodes.len() && (#[trigger] nodes[i]).timestamp == updated(nodes),
    decreases nodes.len(),
{
    if nodes.len() > 0 {
        let init = nodes.drop_last();
        law_a_session_spans_its_moments(init);
        let last = nodes[nodes.len() - 1];
        assert(last == nodes.last());
        assert forall|i: int| 0 <= i < init.len() implies #[trigger] init[i] == nodes[i] by {}
        if exists|i: int| 0 <= i < init.len() && (#[trigger] init[i]).timestamp is Some {
            let k = choose|i: int| 0 <= i < init.len() && (#[trigger] init[i]).timestamp is Some;
            assert(nodes[k].timestamp is Some);
        }
        if exists|i: int| 0 <= i < nodes.len() && (#[trigger] nodes[i]).timestamp is Some {
            let k = choose|i: int| 0 <= i < nodes.len() && (#[trigger] nodes[i]).timestamp is Some;
            if k < init.len() {
                assert(init[k].timestamp is Some);
            }
        }
        if started(init) is Some {
            let k = choose|i: int|
                0 <= i < init.len() && (#[trigger] init[i]).timestamp == started(init);
            assert(nodes[k].timestamp == started(init));
            let m = choose|i: int|
                0 <= i < init.len() && (#[trigger] init[i]).timestamp == updated(init);
            assert(nodes[m].timestamp == updated(init));
        }
        assert forall|i: int|
            0 <= i < nodes.len() && (#[trigger] nodes[i]).timestamp is Some implies {
            &&& not_after(started(nodes)->0, nodes[i].timestamp->0)
            &&& not_after(nodes[i].timestamp->0, updated(nodes)->0)
        } by {
            if i < init.len() {
                assert(init[i].timestamp is Some);
            }
        }
    }
}

proof fn lemma_find(nodes: Seq<NodeView>, wanted: spec_fn(NodeView) -> bool, i: int)
    requires
        0 <= i <= nodes.len(),
        forall|k: int| 0 <= k < i ==> !wanted(#[trigger] nodes[k]),
        i < nodes.len() ==> wanted(nodes[i]),
    ensures
        find(nodes, wanted) == if i < nodes.len() {
            Some(nodes[i])
        } else {
            None
        },
    decreases nodes.len(),
{
    if i > 0 {
        assert(!wanted(nodes[0]));
        let d = nodes.drop_first();
        assert forall|k: int| 0 <= k < i - 1 implies !wanted(#[trigger] d[k]) by {
            assert(d[k] == nodes[k + 1]);
        }
        lemma_find(d, wanted, i - 1);
    }
}

/// A session is called by its recorded title; without one by the first thing
/// that the user typed, and without that by its id.
pub proof fn law_a_session_is_called_by_what_was_asked(s: SessionView, i: int)
    requires
        0 <= i <= s.nodes.len(),
        forall|k: int| 0 <= k < i ==> !is_typed(#[trigger] s.nodes[k]),
        i < s.nodes.len() ==> is_typed(s.nodes[i]),
    ensures
        ({
            let titled = s.meta.ai_title is Some && says_something(s.meta.ai_title->0);
            &&& titled ==> s.title() == (clipped(s.meta.ai_title->0), TitleSource::AiTitle)
            &&& !titled && i < s.nodes.len() ==> s.title() == (
                clipped(s.nodes[i].text()),
                TitleSource::FirstPrompt,
            )
            &&& !titled && i == s.nodes.len() ==> s.title() == (
                s.session_id,
                TitleSource::SessionId,
            )
        }),
{
    if s.meta.ai_title is Some {
        law_blank_says_nothing(s.meta.ai_title->0);
    }
    let wanted = |n: NodeView| is_prompt(n);
    assert forall|k: int| 0 <= k < s.nodes.len() implies wanted(#[trigger] s.nodes[k]) == is_typed(
        s.nodes[k],
    ) by {
        lemma_put_in_mouth(s.nodes[k].text());
    }
    lemma_find(s.nodes, wanted, i);
}

/// The user typed the node's text.
pub open spec fn is_typed(n: NodeView) -> bool {
    n.kind == NodeKind::User && !n.is_meta && !n.is_sidechain && !put_in_mouth(n.text())
}

/// The children of a node are the nodes that name it as their parent, in the
/// order of the file.
pub proof fn law_children_name_their_parent(nodes: Seq<NodeView>, parent: Seq<char>)
    ensures
        children(nodes, parent) == nodes.filter(
            |n: NodeView| n.parent_uuid == Some(parent),
        ).map_values(|n: NodeView| n.uuid),
    decreases nodes.len(),
{
    reveal(Seq::filter);
    let of = |n: NodeView| n.parent_uuid == Some(parent);
    let uuid = |n: NodeView| n.uuid;
    if nodes.len() == 0 {
        assert(nodes.filter(of).map_values(uuid) =~= Seq::empty());
    } else {
        law_children_name_their_parent(nodes.drop_last(), parent);
        assert(nodes.filter(of).map_values(uuid) =~= children(nodes, parent));
    }
}

proof fn lemma_key_first(a: SessionPreview, b: SessionPreview)
    requires
        a.updated is Some,
        b.updated is None || (!not_after(a.updated->0, b.updated->0)),
    ensures
        before(a.key(), b.key()),
{
    reveal_with_fuel(before, 4);
    let (x, y) = (a.key(), b.key());
    if b.updated is Some {
        let (s, t) = (a.updated->0, b.updated->0);
        assert(x[0] == 0u64 && y[0] == 0u64);
        assert(x[1] == (0x7fff_ffff_ffff_ffff - s.secs) as u64);
        assert(y[1] == (0x7fff_ffff_ffff_ffff - t.secs) as u64);
        assert(x[2] == (0xffff_ffff - s.nanos) as u64);
        assert(y[2] == (0xffff_ffff - t.nanos) as u64);
        assert(x.drop_first()[0] == x[1] && y.drop_first()[0] == y[1]);
        assert(x.drop_first().drop_first()[0] == x[2] && y.drop_first().drop_first()[0] == y[2]);
    } else {
        assert(x[0] == 0u64 && y[0] == 1u64);
    }
}

/// Sessions are listed with the one last written to first; those of which no
/// moment is known come last.
pub proof fn law_the_latest_session_comes_first(rows: Seq<SessionPreview>, i: int, j: int)
    requires
        0 <= i < j < rows.len(),
    ensures
        ({
            let (a, b) = (in_order(rows)[i].updated, in_order(rows)[j].updated);
            &&& a is None ==> b is None
            &&& a is Some && b is Some ==> not_after(b->0, a->0)
        }),
        in_order(rows).to_multiset() == rows.to_multiset(),
{
    law_in_order_sorts(rows);
    let l = in_order(rows);
    assert(!before(keys_of(l)[j], keys_of(l)[i]));
    if l[j].updated is Some && (l[i].updated is None || !not_after(
        l[j].updated->0,
        l[i].updated->0,
    )) {
        lemma_key_first(l[j], l[i]);
    }
}

/// A directory's name is made of its path: letters and digits of ASCII stay, and
/// every other character is a dash, or two for one beyond the basic plane.
pub proof fn law_a_directory_is_named_after_its_path(cwd: Seq<char>, c: char)
    ensures
        slugged(Seq::empty()).len() == 0,
        ({
            let plain = 'a' <= c <= 'z' || 'A' <= c <= 'Z' || '0' <= c <= '9';
            slugged(cwd.push(c)) == slugged(cwd) + if plain {
                seq![c]
            } else if (c as u32) < 0x10000 {
                seq!['-']
            } else {
                seq!['-', '-']
            }
        }),
        slugged(cwd).len() <= 200 ==> slug(cwd) == (slugged(cwd), true),
        slugged(cwd).len() > 200 ==> slug(cwd) == (slugged(cwd).take(200), false),
{
    assert(cwd.push(c).drop_last() =~= cwd);
}

/// A file holds the session whose lines it has; without a line that gives its id
/// the id is the file's name.
pub proof fn law_a_file_holds_its_session(path: Seq<char>, text: Seq<char>)
    ensures
        ({
            let s = session_of(path, text);
            let f = folded(lines(text));
            &&& s.path == path
            &&& s.nodes == f.nodes
            &&& s.meta == f.meta
            &&& s.malformed_lines == f.malformed
            &&& f.session_id is Some ==> s.session_id == f.session_id->0
            &&& f.session_id is None && file_name(path) is Some ==> s.session_id == stem(
                file_name(path)->0,
            )
        }),
{
}

/// A title is its text on one line, whole if it is no longer than a row keeps, and
/// else its first characters with a mark that there was more.
pub proof fn law_a_title_is_the_start_of_its_text(text: Seq<char>)
    ensures
        ({
            let flat = join(words(text), " "@);
            &&& flat.len() <= 80 ==> clipped(text) == flat
            &&& flat.len() > 80 ==> clipped(text) == flat.take(79).push('\u{2026}')
        }),
{
}

} // verus!
