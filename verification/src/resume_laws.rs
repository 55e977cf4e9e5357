//! What holds of an imported conversation, whatever the session it is from.

use crate::app::replay::Role;
use crate::claude_resume::{
    answered, assistant_blocks, converted, hits, import_of, named_row, result_blocks, result_of,
    said_blocks, wanted_chain,
};
use crate::claude_resume::{ChatView, ContentView};
use crate::claude_session::line::{BlockView, NodeKind, NodeView};
use crate::json::JsonView;
use crate::config::PeerView;
use crate::claude_session::laws::is_replayed;
use crate::claude_session::session::{first, SessionView};
use crate::text::{decimal, join, starts_with, trim};
use crate::text_laws::{law_blank_says_nothing, says_something};
use vstd::prelude::*;
use vstd::utf8::encode_utf8;

verus! {

/// A user's block that the conversation carries on: a text that says something,
/// or an image with its data and media type within the limit, three bytes for
/// four bytes of base64.
pub open spec fn is_sent(b: BlockView, limit: nat) -> bool {
    match b {
        BlockView::Text(t) => says_something(t),
        BlockView::Image { source } => {
            &&& source.field_text("data"@) is Some
            &&& source.field_text("media_type"@) is Some
            &&& encode_utf8(source.field_text("data"@)->0).len() / 4 * 3 <= limit
        },
        _ => false,
    }
}

/// The block that a user's block becomes.
pub open spec fn as_sent(b: BlockView) -> ContentView {
    match b {
        BlockView::Text(t) => ContentView::Text(t),
        BlockView::Image { source } => ContentView::Image {
            data: source.field_text("data"@)->0,
            mime: source.field_text("media_type"@)->0,
        },
        _ => ContentView::Text(Seq::empty()),
    }
}

/// An assistant's block that the conversation carries on.
pub open spec fn is_spoken(b: BlockView) -> bool {
    match b {
        BlockView::Text(t) => says_something(t),
        BlockView::ToolUse { .. } => true,
        _ => false,
    }
}

/// The block that an assistant's block becomes.
pub open spec fn as_spoken(b: BlockView) -> ContentView {
    match b {
        BlockView::Text(t) => ContentView::Text(t),
        BlockView::ToolUse { id, name, input } => ContentView::ToolUse {
            id,
            name,
            arguments: input,
        },
        _ => ContentView::Text(Seq::empty()),
    }
}

/// The call that a result's block answers, and what it says.
pub open spec fn answer_in(b: ContentView) -> (Seq<char>, Seq<char>) {
    match b {
        ContentView::ToolResult { tool_use_id, content, .. } => (tool_use_id, content),
        _ => (Seq::empty(), Seq::empty()),
    }
}

/// The call that a result on a user's line answers, and what it says.
pub open spec fn answer_on(b: BlockView) -> (Seq<char>, Seq<char>) {
    match b {
        BlockView::ToolResult { tool_use_id, content, is_error } => (
            tool_use_id,
            result_of(content, is_error),
        ),
        _ => (Seq::empty(), Seq::empty()),
    }
}

/// What the messages of a role hold, message by message.
pub open spec fn held_by(out: Seq<ChatView>, role: Role) -> Seq<Seq<ContentView>>
    decreases out.len(),
{
    if out.len() == 0 {
        Seq::empty()
    } else if out.last().role == role {
        held_by(out.drop_last(), role).push(out.last().content)
    } else {
        held_by(out.drop_last(), role)
    }
}

/// What `part` makes of the nodes of a kind, where that is anything.
pub open spec fn parts_of<T>(
    nodes: Seq<NodeView>,
    kind: NodeKind,
    part: spec_fn(Seq<BlockView>) -> Seq<T>,
) -> Seq<Seq<T>>
    decreases nodes.len(),
{
    if nodes.len() == 0 {
        Seq::empty()
    } else if nodes.last().kind == kind && part(nodes.last().content).len() > 0 {
        parts_of(nodes.drop_last(), kind, part).push(part(nodes.last().content))
    } else {
        parts_of(nodes.drop_last(), kind, part)
    }
}

/// What a user sent on a line.
pub open spec fn sent_on(limit: nat) -> spec_fn(Seq<BlockView>) -> Seq<ContentView> {
    |c: Seq<BlockView>| c.filter(|b: BlockView| is_sent(b, limit)).map_values(|b: BlockView| as_sent(b))
}

/// What an assistant said and called on a line.
pub open spec fn spoken_on() -> spec_fn(Seq<BlockView>) -> Seq<ContentView> {
    |c: Seq<BlockView>| c.filter(|b: BlockView| is_spoken(b)).map_values(|b: BlockView| as_spoken(b))
}

/// What the tools answered on a line.
pub open spec fn answered_on() -> spec_fn(Seq<BlockView>) -> Seq<(Seq<char>, Seq<char>)> {
    |c: Seq<BlockView>|
        c.filter(|b: BlockView| b is ToolResult).map_values(|b: BlockView| answer_on(b))
}


proof fn lemma_said(content: Seq<BlockView>, limit: nat)
    ensures
        said_blocks(content, limit) == sent_on(limit)(content),
    decreases content.len(),
{
    reveal(Seq::filter);
    let p = |b: BlockView| is_sent(b, limit);
    let f = |b: BlockView| as_sent(b);
    if content.len() > 0 {
        let init = content.drop_last();
        lemma_said(init, limit);
        if let BlockView::Text(t) = content.last() {
            law_blank_says_nothing(t);
        }
        if p(content.last()) {
            assert(content.filter(p).map_values(f) =~= init.filter(p).map_values(f).push(
                f(content.last()),
            ));
        } else {
            assert(content.filter(p) =~= init.filter(p));
        }
    } else {
        assert(content.filter(p).map_values(f) =~= Seq::empty());
    }
}

proof fn lemma_spoken(content: Seq<BlockView>, names: Map<Seq<char>, Seq<char>>)
    ensures
        assistant_blocks(content, names).0 == spoken_on()(content),
    decreases content.len(),
{
    reveal(Seq::filter);
    let p = |b: BlockView| is_spoken(b);
    let f = |b: BlockView| as_spoken(b);
    if content.len() > 0 {
        let init = content.drop_last();
        lemma_spoken(init, names);
        if let BlockView::Text(t) = content.last() {
            law_blank_says_nothing(t);
        }
        if p(content.last()) {
            assert(content.filter(p).map_values(f) =~= init.filter(p).map_values(f).push(
                f(content.last()),
            ));
        } else {
            assert(content.filter(p) =~= init.filter(p));
        }
    } else {
        assert(content.filter(p).map_values(f) =~= Seq::empty());
    }
}

proof fn lemma_answers(content: Seq<BlockView>, names: Map<Seq<char>, Seq<char>>)
    ensures
        result_blocks(content, names).map_values(|b: ContentView| answer_in(b)) == answered_on()(
            content,
        ),
    decreases content.len(),
{
    reveal(Seq::filter);
    let p = |b: BlockView| b is ToolResult;
    let f = |b: BlockView| answer_on(b);
    let g = |b: ContentView| answer_in(b);
    let r = result_blocks(content, names);
    if content.len() > 0 {
        let init = content.drop_last();
        lemma_answers(init, names);
        if p(content.last()) {
            assert(content.filter(p).map_values(f) =~= init.filter(p).map_values(f).push(
                f(content.last()),
            ));
            assert(r.map_values(g) =~= result_blocks(init, names).map_values(g).push(g(r.last())));
        } else {
            assert(content.filter(p) =~= init.filter(p));
        }
    } else {
        assert(content.filter(p).map_values(f) =~= Seq::empty());
        assert(r.map_values(g) =~= Seq::empty());
    }
}

/// What the messages of a role answer, message by message.
pub open spec fn answers_held(out: Seq<ChatView>) -> Seq<Seq<(Seq<char>, Seq<char>)>> {
    held_by(out, Role::Tool).map_values(
        |c: Seq<ContentView>| c.map_values(|b: ContentView| answer_in(b)),
    )
}

proof fn lemma_held(out: Seq<ChatView>, m: ChatView, role: Role)
    ensures
        held_by(out.push(m), role) == if m.role == role {
            held_by(out, role).push(m.content)
        } else {
            held_by(out, role)
        },
{
    assert(out.push(m).drop_last() =~= out);
}

/// Nothing of a conversation is lost or made up.  The user's messages are, line
/// by line and in order, every text that says something and every image that is
/// within the limit; the assistant's every text that says something and every
/// call, with its id, name and arguments; and the tools' every result, with the
/// call it answers and what it says.
pub proof fn law_a_conversation_is_carried_over_whole(nodes: Seq<NodeView>, limit: nat)
    ensures
        held_by(converted(nodes, limit).0, Role::User) == parts_of(
            nodes,
            NodeKind::User,
            sent_on(limit),
        ),
        held_by(converted(nodes, limit).0, Role::Assistant) == parts_of(
            nodes,
            NodeKind::Assistant,
            spoken_on(),
        ),
        answers_held(converted(nodes, limit).0) == parts_of(nodes, NodeKind::User, answered_on()),
    decreases nodes.len(),
{
    let g = |c: Seq<ContentView>| c.map_values(|b: ContentView| answer_in(b));
    if nodes.len() > 0 {
        let init = nodes.drop_last();
        law_a_conversation_is_carried_over_whole(init, limit);
        let (before, names) = converted(init, limit);
        let n = nodes.last();
        lemma_said(n.content, limit);
        lemma_spoken(n.content, names);
        lemma_answers(n.content, names);
        let said = ChatView { role: Role::User, content: said_blocks(n.content, limit) };
        let spoken = ChatView {
            role: Role::Assistant,
            content: assistant_blocks(n.content, names).0,
        };
        let results = ChatView { role: Role::Tool, content: result_blocks(n.content, names) };
        let mid = if results.content.len() > 0 {
            before.push(results)
        } else {
            before
        };
        lemma_held(before, results, Role::User);
        lemma_held(before, results, Role::Assistant);
        lemma_held(before, results, Role::Tool);
        lemma_held(before, spoken, Role::User);
        lemma_held(before, spoken, Role::Assistant);
        lemma_held(before, spoken, Role::Tool);
        lemma_held(mid, said, Role::User);
        lemma_held(mid, said, Role::Assistant);
        lemma_held(mid, said, Role::Tool);
        assert(g(results.content) == answered_on()(n.content));
        assert(g(results.content).len() == results.content.len());
        if n.kind == NodeKind::User && results.content.len() > 0 {
            assert(held_by(before, Role::Tool).push(results.content).map_values(g) =~= held_by(
                before,
                Role::Tool,
            ).map_values(g).push(g(results.content)));
        }
    } else {
        assert(held_by(Seq::<ChatView>::empty(), Role::Tool).map_values(g) =~= Seq::empty());
    }
}

/// Each line adds to the end of the conversation: a user's line the results on
/// it and then what the user said, an assistant's line one message, and any
/// other line nothing.
pub proof fn law_lines_add_in_order(nodes: Seq<NodeView>, limit: nat)
    requires
        nodes.len() > 0,
    ensures
        ({
            let before = converted(nodes.drop_last(), limit).0;
            let after = converted(nodes, limit).0;
            let kind = nodes.last().kind;
            let n = before.len() as int;
            &&& before.len() <= after.len()
            &&& after.take(n) == before
            &&& kind == NodeKind::User ==> after.len() <= n + 2
            &&& kind == NodeKind::User && after.len() == n + 2 ==> after[n].role == Role::Tool
                && after[n + 1].role == Role::User
            &&& kind == NodeKind::User && after.len() == n + 1 ==> after[n].role == Role::Tool
                || after[n].role == Role::User
            &&& kind == NodeKind::Assistant ==> after.len() <= n + 1
            &&& kind == NodeKind::Assistant && after.len() == n + 1 ==> after[n].role
                == Role::Assistant
            &&& kind != NodeKind::User && kind != NodeKind::Assistant ==> after == before
        }),
{
    let before = converted(nodes.drop_last(), limit).0;
    let after = converted(nodes, limit).0;
    assert(after.take(before.len() as int) =~= before);
}

/// Every block of a conversation, in order.
pub open spec fn all_blocks(out: Seq<ChatView>) -> Seq<ContentView>
    decreases out.len(),
{
    if out.len() == 0 {
        Seq::empty()
    } else {
        all_blocks(out.drop_last()) + out.last().content
    }
}

/// The block is the call `id`.
pub open spec fn calls_id(b: ContentView, id: Seq<char>) -> bool {
    b matches ContentView::ToolUse { id: i, .. } && i == id
}

/// The name of the last call `id` among the first `n` blocks, where there is one.
pub open spec fn is_last_call(blocks: Seq<ContentView>, n: int, q: int, id: Seq<char>) -> bool {
    &&& 0 <= q < n
    &&& calls_id(blocks[q], id)
    &&& forall|k: int| q < k < n ==> !calls_id(#[trigger] blocks[k], id)
}

/// `names` gives each call among `blocks` the name it was last made by.
pub open spec fn knows_last(blocks: Seq<ContentView>, names: Map<Seq<char>, Seq<char>>) -> bool {
    &&& forall|id: Seq<char>, q: int| #[trigger]
        is_last_call(blocks, blocks.len() as int, q, id) ==> names.contains_key(id) && blocks[q]
            == (ContentView::ToolUse { id, name: names[id], arguments: blocks[q]->arguments })
    &&& forall|id: Seq<char>| #[trigger]
        names.contains_key(id) ==> exists|q: int| 0 <= q < blocks.len() && calls_id(
            #[trigger] blocks[q],
            id,
        )
}

proof fn lemma_knows_plain(
    blocks: Seq<ContentView>,
    names: Map<Seq<char>, Seq<char>>,
    more: Seq<ContentView>,
)
    requires
        knows_last(blocks, names),
        forall|i: int| 0 <= i < more.len() ==> !((#[trigger] more[i]) is ToolUse),
    ensures
        knows_last(blocks + more, names),
{
    let all = blocks + more;
    assert forall|id: Seq<char>, q: int| #[trigger]
        is_last_call(all, all.len() as int, q, id) implies names.contains_key(id) && all[q]
        == (ContentView::ToolUse { id, name: names[id], arguments: all[q]->arguments }) by {
        if q >= blocks.len() {
            assert(all[q] == more[q - blocks.len()]);
        }
        assert(all[q] == blocks[q]);
        assert forall|k: int| q < k < blocks.len() implies !calls_id(#[trigger] blocks[k], id) by {
            assert(all[k] == blocks[k]);
        }
        assert(is_last_call(blocks, blocks.len() as int, q, id));
    }
    assert forall|id: Seq<char>| #[trigger] names.contains_key(id) implies exists|q: int|
        0 <= q < all.len() && calls_id(#[trigger] all[q], id) by {
        let q = choose|q: int| 0 <= q < blocks.len() && calls_id(#[trigger] blocks[q], id);
        assert(calls_id(all[q], id));
    }
}

proof fn lemma_knows_calls(
    blocks: Seq<ContentView>,
    names: Map<Seq<char>, Seq<char>>,
    content: Seq<BlockView>,
)
    requires
        knows_last(blocks, names),
    ensures
        knows_last(
            blocks + assistant_blocks(content, names).0,
            assistant_blocks(content, names).1,
        ),
    decreases content.len(),
{
    if content.len() > 0 {
        let init = content.drop_last();
        lemma_knows_calls(blocks, names, init);
        let (b, known) = assistant_blocks(init, names);
        let (c, knows) = assistant_blocks(content, names);
        if c.len() > b.len() {
            let x = c.last();
            assert(c =~= b.push(x));
            assert(blocks + c =~= (blocks + b) + seq![x]);
            if x is ToolUse {
                let all = blocks + c;
                let was = blocks + b;
                let last = all.len() - 1;
                assert forall|id: Seq<char>, q: int| #[trigger]
                    is_last_call(all, all.len() as int, q, id) implies knows.contains_key(id)
                    && all[q] == (ContentView::ToolUse {
                    id,
                    name: knows[id],
                    arguments: all[q]->arguments,
                }) by {
                    if q < last {
                        assert(!calls_id(all[last], id));
                        assert(all[q] == was[q]);
                        assert forall|k: int| q < k < was.len() implies !calls_id(
                            #[trigger] was[k],
                            id,
                        ) by {
                            assert(all[k] == was[k]);
                        }
                        assert(is_last_call(was, was.len() as int, q, id));
                    }
                }
                assert forall|id: Seq<char>| #[trigger] knows.contains_key(id) implies exists|
                    q: int,
                |
                    0 <= q < all.len() && calls_id(#[trigger] all[q], id) by {
                    if calls_id(all[last], id) {
                    } else {
                        assert(known.contains_key(id));
                        let q = choose|q: int| 0 <= q < was.len() && calls_id(#[trigger] was[q], id);
                        assert(calls_id(all[q], id));
                    }
                }
            } else {
                lemma_knows_plain(blocks + b, known, seq![x]);
            }
        } else {
            assert(c == b);
        }
    } else {
        assert(blocks + assistant_blocks(content, names).0 =~= blocks);
    }
}

proof fn lemma_no_calls(content: Seq<BlockView>, names: Map<Seq<char>, Seq<char>>, limit: nat)
    ensures
        forall|i: int|
            0 <= i < result_blocks(content, names).len() ==> !((#[trigger] result_blocks(
                content,
                names,
            )[i]) is ToolUse),
        forall|i: int|
            0 <= i < said_blocks(content, limit).len() ==> !((#[trigger] said_blocks(
                content,
                limit,
            )[i]) is ToolUse),
        forall|i: int|
            0 <= i < said_blocks(content, limit).len() ==> !((#[trigger] said_blocks(
                content,
                limit,
            )[i]) is ToolResult),
        forall|i: int|
            0 <= i < assistant_blocks(content, names).0.len() ==> !((#[trigger] assistant_blocks(
                content,
                names,
            ).0[i]) is ToolResult),
        forall|i: int|
            0 <= i < result_blocks(content, names).len() ==> names_its_call(
                #[trigger] result_blocks(content, names)[i],
                names,
            ),
    decreases content.len(),
{
    if content.len() > 0 {
        lemma_no_calls(content.drop_last(), names, limit);
    }
}

/// A result has the name that `names` has for its call, or a placeholder where
/// there is none.
pub open spec fn names_its_call(b: ContentView, names: Map<Seq<char>, Seq<char>>) -> bool {
    b matches ContentView::ToolResult { tool_use_id, name, .. } ==> name == (
    if names.contains_key(tool_use_id) {
        names[tool_use_id]
    } else {
        "unknown"@
    })
}

/// The name of a result at `p`: that of the last call before it with its id, or
/// a placeholder where no call before it has that id.
pub open spec fn named_by_its_call(blocks: Seq<ContentView>, p: int) -> bool {
    blocks[p] matches ContentView::ToolResult { tool_use_id, name, .. } ==> {
        &&& forall|q: int| #[trigger]
            is_last_call(blocks, p, q, tool_use_id) ==> blocks[q] == (ContentView::ToolUse {
                id: tool_use_id,
                name,
                arguments: blocks[q]->arguments,
            })
        &&& (forall|q: int| 0 <= q < p ==> !calls_id(#[trigger] blocks[q], tool_use_id)) ==> name
            == "unknown"@
    }
}

proof fn lemma_named_extends(
    blocks: Seq<ContentView>,
    names: Map<Seq<char>, Seq<char>>,
    more: Seq<ContentView>,
)
    requires
        knows_last(blocks, names),
        forall|p: int| 0 <= p < blocks.len() ==> named_by_its_call(blocks, p),
        forall|i: int| 0 <= i < more.len() ==> names_its_call(#[trigger] more[i], names),
        (forall|i: int| 0 <= i < more.len() ==> !((#[trigger] more[i]) is ToolUse)) || (forall|
            i: int,
        |
            0 <= i < more.len() ==> !((#[trigger] more[i]) is ToolResult)),
    ensures
        forall|p: int| 0 <= p < (blocks + more).len() ==> named_by_its_call(blocks + more, p),
{
    let all = blocks + more;
    let n = blocks.len() as int;
    assert forall|p: int| 0 <= p < all.len() implies named_by_its_call(all, p) by {
        if p < n {
            assert(named_by_its_call(blocks, p));
            assert(all[p] == blocks[p]);
            if let ContentView::ToolResult { tool_use_id, name, .. } = all[p] {
                assert forall|q: int| #[trigger] is_last_call(all, p, q, tool_use_id) implies all[q]
                    == (ContentView::ToolUse {
                    id: tool_use_id,
                    name,
                    arguments: all[q]->arguments,
                }) by {
                    assert(all[q] == blocks[q]);
                    assert forall|k: int| q < k < p implies !calls_id(
                        #[trigger] blocks[k],
                        tool_use_id,
                    ) by {
                        assert(all[k] == blocks[k]);
                    }
                    assert(is_last_call(blocks, p, q, tool_use_id));
                }
                if forall|q: int| 0 <= q < p ==> !calls_id(#[trigger] all[q], tool_use_id) {
                    assert forall|q: int| 0 <= q < p implies !calls_id(
                        #[trigger] blocks[q],
                        tool_use_id,
                    ) by {
                        assert(all[q] == blocks[q]);
                    }
                }
            }
        } else if all[p] is ToolResult {
            assert(all[p] == more[p - n]);
            assert(names_its_call(more[p - n], names));
            let id = all[p]->tool_use_id;
            let name = all[p]->ToolResult_name;
            assert(more[p - n] is ToolResult);
            assert forall|i: int| 0 <= i < more.len() implies !((#[trigger] more[i]) is ToolUse) by {}
            assert forall|q: int| #[trigger] is_last_call(all, p, q, id) implies all[q]
                == (ContentView::ToolUse { id, name, arguments: all[q]->arguments }) by {
                if q >= n {
                    assert(all[q] == more[q - n]);
                }
                assert(all[q] == blocks[q]);
                assert forall|k: int| q < k < n implies !calls_id(#[trigger] blocks[k], id) by {
                    assert(all[k] == blocks[k]);
                }
                assert(is_last_call(blocks, n, q, id));
            }
            if forall|q: int| 0 <= q < p ==> !calls_id(#[trigger] all[q], id) {
                if names.contains_key(id) {
                    let q = choose|q: int| 0 <= q < n && calls_id(#[trigger] blocks[q], id);
                    assert(all[q] == blocks[q]);
                }
            }
        }
    }
}

/// Every result carries the name of the call it answers: the last call before it
/// with its id, or a placeholder exactly where there is none.
pub proof fn law_a_result_is_named_by_its_call(nodes: Seq<NodeView>, limit: nat)
    ensures
        forall|p: int|
            0 <= p < all_blocks(converted(nodes, limit).0).len() ==> named_by_its_call(
                all_blocks(converted(nodes, limit).0),
                p,
            ),
        knows_last(all_blocks(converted(nodes, limit).0), converted(nodes, limit).1),
    decreases nodes.len(),
{
    if nodes.len() > 0 {
        let init = nodes.drop_last();
        law_a_result_is_named_by_its_call(init, limit);
        let (before, names) = converted(init, limit);
        let (after, known) = converted(nodes, limit);
        let n = nodes.last();
        let was = all_blocks(before);
        lemma_no_calls(n.content, names, limit);
        let results = result_blocks(n.content, names);
        let said = said_blocks(n.content, limit);
        let spoken = assistant_blocks(n.content, names).0;
        if n.kind == NodeKind::Assistant {
            assert forall|i: int| 0 <= i < spoken.len() implies names_its_call(
                #[trigger] spoken[i],
                names,
            ) by {}
            lemma_named_extends(was, names, spoken);
            lemma_knows_calls(was, names, n.content);
            if spoken.len() > 0 {
                assert(after.drop_last() =~= before);
            } else {
                assert(was + spoken =~= was);
            }
        } else if n.kind == NodeKind::User {
            assert forall|i: int| 0 <= i < said.len() implies names_its_call(
                #[trigger] said[i],
                names,
            ) by {}
            lemma_named_extends(was, names, results);
            lemma_knows_plain(was, names, results);
            lemma_named_extends(was + results, names, said);
            lemma_knows_plain(was + results, names, said);
            let mid = if results.len() > 0 {
                before.push(ChatView { role: Role::Tool, content: results })
            } else {
                before
            };
            assert(all_blocks(mid) =~= was + results) by {
                if results.len() > 0 {
                    assert(mid.drop_last() =~= before);
                }
            }
            assert(all_blocks(after) =~= was + results + said) by {
                if said.len() > 0 {
                    assert(after.drop_last() =~= mid);
                }
            }
        }
    }
}

/// A failed result says so and then what it would have said; a text is told as
/// it is, and of a list every item that has a text, one per line.
pub proof fn law_a_result_is_told_as_it_is(content: JsonView, t: Seq<char>)
    ensures
        result_of(content, true) == "error: "@ + result_of(content, false),
        result_of(JsonView::Text(t), false) == t,
        result_of(JsonView::Null, false).len() == 0,
{
}

/// The items of a list that have a text are told in order, one per line.
pub proof fn law_a_list_is_told_line_by_line(items: Seq<JsonView>, texts: Seq<Seq<char>>)
    requires
        items.len() == texts.len(),
        forall|i: int|
            0 <= i < items.len() ==> (#[trigger] items[i]).field_text("text"@) == Some(texts[i])
                && texts[i].len() > 0,
    ensures
        result_of(JsonView::Array(items), false) == join(texts, "\n"@),
        items.len() > 0 ==> result_of(JsonView::Array(items), false).len() > 0,
    decreases items.len(),
{
    if items.len() > 0 {
        let init = items.drop_last();
        assert forall|i: int| 0 <= i < init.len() implies (#[trigger] init[i]).field_text("text"@)
            == Some(texts.drop_last()[i]) && texts.drop_last()[i].len() > 0 by {
            assert(init[i] == items[i]);
        }
        law_a_list_is_told_line_by_line(init, texts.drop_last());
        assert(items.last() == items[items.len() - 1]);
    }
}

proof fn lemma_hits(ids: Seq<Seq<char>>, wanted: Seq<char>)
    ensures
        forall|k: int|
            0 <= k < hits(ids, wanted).len() ==> 0 <= #[trigger] hits(ids, wanted)[k] < ids.len()
                && starts_with(ids[hits(ids, wanted)[k]], wanted),
        forall|i: int|
            0 <= i < ids.len() && starts_with(#[trigger] ids[i], wanted) ==> hits(
                ids,
                wanted,
            ).contains(i),
        forall|a: int, b: int|
            0 <= a < b < hits(ids, wanted).len() ==> #[trigger] hits(ids, wanted)[a]
                < #[trigger] hits(ids, wanted)[b],
    decreases ids.len(),
{
    if ids.len() > 0 {
        let init = ids.drop_last();
        let h = hits(init, wanted);
        let g = hits(ids, wanted);
        lemma_hits(init, wanted);
        assert forall|k: int| 0 <= k < g.len() implies 0 <= #[trigger] g[k] < ids.len()
            && starts_with(ids[g[k]], wanted) by {
            if k < h.len() {
                assert(0 <= h[k] < init.len());
                assert(init[h[k]] == ids[h[k]]);
            }
        }
        assert forall|i: int| 0 <= i < ids.len() && starts_with(
            #[trigger] ids[i],
            wanted,
        ) implies g.contains(i) by {
            if i < init.len() {
                assert(init[i] == ids[i]);
                let k = choose|k: int| 0 <= k < h.len() && h[k] == i;
                assert(g[k] == i);
            } else {
                assert(g[g.len() - 1] == i);
            }
        }
    }
}

/// The start of an id names a session if it is the start of that one's id and of
/// no other's; otherwise it is refused.
pub proof fn law_the_start_of_an_id_names_one_session(
    ids: Seq<Seq<char>>,
    wanted: Seq<char>,
    peer: PeerView,
    i: int,
)
    requires
        0 <= i < ids.len(),
    ensures
        named_row(ids, wanted, peer) == Ok::<int, Seq<char>>(i) <==> {
            &&& starts_with(ids[i], wanted)
            &&& forall|k: int|
                0 <= k < ids.len() && k != i ==> !starts_with(#[trigger] ids[k], wanted)
        },
        named_row(ids, wanted, peer) matches Ok(k) ==> 0 <= k < ids.len(),
{
    lemma_hits(ids, wanted);
    let h = hits(ids, wanted);
    let alone = starts_with(ids[i], wanted) && forall|k: int|
        0 <= k < ids.len() && k != i ==> !starts_with(#[trigger] ids[k], wanted);
    if alone {
        assert(h.contains(i));
        let a = choose|a: int| 0 <= a < h.len() && h[a] == i;
        if h.len() > 1 {
            let b: int = if a == 0 {
                1
            } else {
                0
            };
            assert(h[a] != h[b]);
            assert(starts_with(ids[h[b]], wanted));
        }
        assert(h.len() == 1);
        assert(h[0] == i);
    }
    if h.len() == 1 && h[0] == i {
        assert forall|k: int| 0 <= k < ids.len() && k != i implies !starts_with(
            #[trigger] ids[k],
            wanted,
        ) by {
            if starts_with(ids[k], wanted) {
                assert(h.contains(k));
            }
        }
    }
}

/// At the picker the number of a row chooses that row, counted from one; a number
/// beyond the rows is refused, and nothing chooses nothing.
pub proof fn law_a_number_chooses_its_row(line: Seq<char>, rows: nat, k: u64)
    ensures
        trim(line) == decimal(k as nat) && 1 <= k <= rows ==> answered(line, rows) == Ok::<
            Option<int>,
            Seq<char>,
        >(Some(k - 1)),
        trim(line) == decimal(k as nat) && !(1 <= k <= rows) ==> answered(line, rows) is Err,
        !says_something(line) ==> answered(line, rows) == Ok::<Option<int>, Seq<char>>(None),
{
    law_blank_says_nothing(line);
    crate::text_laws::law_a_number_reads_back(k as nat);
    if trim(line) == decimal(k as nat) {
        let t = trim(line);
        assert(crate::text::is_digit(t[0]));
        crate::text_laws::law_only_capitals_become_small(t, 0);
        reveal_strlit("q");
        assert("q"@[0] == 'q');
        assert(crate::text::lower(t)[0] == t[0]);
    }
}

/// An import carries the conversation over that ends in the leaf asked for, or in
/// the one the session was left at: the nodes of its chain that are part of the
/// conversation proper, in order.  It is refused where the file has no such leaf,
/// or nothing of the chain is carried over.
pub proof fn law_an_import_carries_its_chain_over(
    s: SessionView,
    leaf: Option<Seq<char>>,
    limit: nat,
)
    ensures
        ({
            let chain = wanted_chain(s, leaf);
            let nodes = chain.positions.map_values(|p: int| s.nodes[p]).filter(
                |n: NodeView| is_replayed(n),
            );
            let messages = converted(nodes, limit).0;
            let r = import_of(s, leaf, limit);
            &&& r is Ok <==> messages.len() > 0 && !(chain.stop is UnknownLeaf)
            &&& r matches Ok(d) ==> {
                &&& d.messages == messages
                &&& d.source_id == s.session_id
                &&& d.stop == chain.stop
            }
            &&& leaf is Some && first(s.nodes, leaf->0) is None ==> r is Err
            &&& leaf is Some && first(s.nodes, leaf->0) is Some ==> s.nodes[
            chain.positions.last()].uuid == leaf->0
        }),
{
    let chain = wanted_chain(s, leaf);
    let tip = match leaf {
        Some(l) => Some(l),
        None => s.tip(),
    };
    crate::claude_session::session::law_resume_ends_in_the_tip(s);
    if tip is Some {
        crate::claude_session::session::law_chain_is_a_path(s.nodes, tip->0);
    }
    assert(forall|i: int|
        0 <= i < chain.positions.len() ==> 0 <= #[trigger] chain.positions[i] < s.nodes.len());
    crate::claude_session::laws::law_the_conversation_proper_is_replayed(
        s.nodes,
        chain.positions,
    );
}

} // verus!
