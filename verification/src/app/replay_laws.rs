//! What holds of a past conversation that is read back.

use crate::app::replay::{read_back, CallView, MessageView, Role};
use crate::app::state::{AppView, ChatView};
use crate::app::stream_laws::{newest_running, runs};
use crate::app::transcript::{
    is_open_card, lemma_open_card, open_card, shown, stored_refs, EntryView, Image, ImageView,
    SourceView,
};
use crate::json::JsonView;
use crate::text_laws::{law_blank_says_nothing, says_something};
use vstd::prelude::*;

verus! {

/// The conversation on screen once `m` was read back.
pub open spec fn reread(s: AppView, m: Seq<MessageView>) -> Seq<EntryView> {
    s.replayed(m).chat.transcript
}

/// The entry of a text that says something.
pub open spec fn spoken(text: Seq<char>, e: EntryView) -> Seq<EntryView> {
    if says_something(text) {
        seq![e]
    } else {
        Seq::empty()
    }
}

/// The tool whose result is the last message, system messages aside.
pub open spec fn last_answer(m: Seq<MessageView>) -> Option<Seq<char>>
    decreases m.len(),
{
    if m.len() == 0 {
        None
    } else {
        match m.last().role {
            Role::System => last_answer(m.drop_last()),
            Role::Tool => Some(tool_of(m.last())),
            _ => None,
        }
    }
}

/// The tool that a result names; without a name, the empty one.
pub open spec fn tool_of(m: MessageView) -> Seq<char> {
    match m.tool_name {
        Some(n) => n,
        None => Seq::empty(),
    }
}

/// Entries of the images that have a file, in order.
pub open spec fn pictures(images: Seq<Image>, source: SourceView) -> Seq<EntryView>
    decreases images.len(),
{
    if images.len() == 0 {
        Seq::empty()
    } else {
        let i = images[0];
        let rest = pictures(images.drop_first(), source);
        match i.path {
            Some(p) => seq![
                EntryView::Image {
                    source,
                    image: ImageView { path: p@, mime: i.mime@, bytes: i.bytes },
                },
            ] + rest,
            None => rest,
        }
    }
}

proof fn lemma_pictures(images: Seq<Image>, source: SourceView)
    ensures
        shown(source, stored_refs(images)) == pictures(images, source),
        images.len() > 0 ==> pictures(images, source) == pictures(images.drop_last(), source)
            + pictures(seq![images.last()], source),
    decreases images.len(),
{
    if images.len() == 0 {
        assert(shown(source, stored_refs(images)) =~= Seq::empty());
    } else {
        let init = images.drop_last();
        let last = seq![images.last()];
        assert(last.drop_first() =~= Seq::empty());
        if images.len() == 1 {
            assert(images =~= last);
            assert(init =~= Seq::empty());
            assert(pictures(images, source) =~= pictures(init, source) + pictures(last, source));
        } else {
            let d = images.drop_first();
            lemma_pictures(d, source);
            assert(d.drop_last() =~= init.drop_first());
            assert(d.last() == images.last());
            assert(pictures(images, source) =~= pictures(init, source) + pictures(last, source));
        }
        lemma_pictures(init, source);
        assert(last[0] == images.last());
        assert(pictures(last.drop_first(), source) == Seq::<EntryView>::empty());
        assert(shown(source, stored_refs(images)) =~= shown(source, stored_refs(init)) + pictures(
            last,
            source,
        ));
    }
}

proof fn lemma_last_answer(m: Seq<MessageView>)
    ensures
        read_back(m).answered == last_answer(m),
    decreases m.len(),
{
    if m.len() > 0 {
        lemma_last_answer(m.drop_last());
    }
}

/// The cards of past calls: each with its call's name and arguments, folded, with
/// no result yet.
pub open spec fn call_cards(calls: Seq<CallView>) -> Seq<EntryView> {
    Seq::new(
        calls.len(),
        |i: int|
            EntryView::ToolCard {
                name: calls[i].name,
                args: calls[i].arguments,
                output: None,
                is_error: false,
                collapsed: true,
            },
    )
}

/// What each message adds to the conversation that is read back: a system message
/// nothing; a user's its text; an assistant's its text, its images and one card
/// for each of its calls.  Images that follow a tool's result are that tool's.
pub proof fn law_each_message_is_read_back(s: AppView, m: Seq<MessageView>, x: MessageView)
    ensures
        ({
            let t = reread(s, m);
            let u = reread(s, m.push(x));
            &&& x.role == Role::System ==> u == t
            &&& x.role == Role::User && (last_answer(m) is None || x.images.len() == 0) ==> u == t
                + spoken(x.content, EntryView::User(x.content))
            &&& x.role == Role::User && last_answer(m) is Some && x.images.len() > 0 ==> u == t
                + pictures(x.images, SourceView::Tool(last_answer(m)->0))
            &&& x.role == Role::Assistant ==> u == t + spoken(
                x.content,
                EntryView::Assistant(x.content),
            ) + pictures(x.images, SourceView::Assistant) + call_cards(x.tool_calls)
        }),
        reread(s, Seq::empty()) == Seq::<EntryView>::empty(),
{
    let n = m.push(x);
    assert(n.drop_last() =~= m);
    assert(n.last() == x);
    lemma_last_answer(m);
    law_blank_says_nothing(x.content);
    lemma_pictures(x.images, SourceView::Assistant);
    if last_answer(m) is Some {
        lemma_pictures(x.images, SourceView::Tool(last_answer(m)->0));
    }
    let t = reread(s, m);
    let u = reread(s, n);
    assert(t == read_back(m).transcript);
    assert(u == read_back(m).then_read(x).transcript);
    if x.role == Role::User && (last_answer(m) is None || x.images.len() == 0) {
        assert(u =~= t + spoken(x.content, EntryView::User(x.content)));
    }
    if x.role == Role::Assistant {
        assert(u =~= t + spoken(x.content, EntryView::Assistant(x.content)) + pictures(
            x.images,
            SourceView::Assistant,
        ) + call_cards(x.tool_calls));
    }
}

/// A result that is read back goes into the newest call of its tool that has
/// none, and the call's name and arguments stay; without one it stands alone.
pub proof fn law_a_past_result_answers_its_call(
    s: AppView,
    m: Seq<MessageView>,
    x: MessageView,
    i: int,
)
    requires
        x.role == Role::Tool,
    ensures
        ({
            let t = reread(s, m);
            let u = reread(s, m.push(x));
            &&& newest_running(t, tool_of(x), i) ==> u == t.update(
                i,
                EntryView::ToolCard {
                    name: t[i]->ToolCard_name,
                    args: t[i]->args,
                    output: Some(x.content),
                    is_error: t[i]->is_error,
                    collapsed: t[i]->collapsed,
                },
            )
            &&& (forall|j: int| 0 <= j < t.len() ==> !runs(#[trigger] t[j], tool_of(x))) ==> u
                == t.push(
                EntryView::ToolCard {
                    name: tool_of(x),
                    args: JsonView::Null,
                    output: Some(x.content),
                    is_error: false,
                    collapsed: true,
                },
            )
        }),
{
    let n = m.push(x);
    assert(n.drop_last() =~= m);
    assert(n.last() == x);
    let t = read_back(m).transcript;
    let name = tool_of(x);
    lemma_open_card(t, name);
    let k = open_card(t, name);
    if k >= 0 {
        assert(runs(t[k], name));
    }
    if newest_running(t, name, i) {
        assert(is_open_card(t[i], name));
    }
}

/// A call as its card shows it.
pub open spec fn call_on(e: EntryView) -> Option<CallView> {
    match e {
        EntryView::ToolCard { name, args, .. } => Some(CallView { name, arguments: args }),
        _ => None,
    }
}

/// The calls on the cards, in order.
pub open spec fn calls_on(t: Seq<EntryView>) -> Seq<CallView>
    decreases t.len(),
{
    if t.len() == 0 {
        Seq::empty()
    } else {
        match call_on(t.last()) {
            Some(c) => calls_on(t.drop_last()).push(c),
            None => calls_on(t.drop_last()),
        }
    }
}

/// The calls of all of an assistant's messages, in order.
pub open spec fn calls_made(m: Seq<MessageView>) -> Seq<CallView>
    decreases m.len(),
{
    if m.len() == 0 {
        Seq::empty()
    } else if m.last().role == Role::Assistant {
        calls_made(m.drop_last()) + m.last().tool_calls
    } else {
        calls_made(m.drop_last())
    }
}

/// `a` stands in `b`, in order, maybe with more between.
pub open spec fn stands_in(a: Seq<CallView>, b: Seq<CallView>) -> bool
    decreases b.len(),
{
    if a.len() == 0 {
        true
    } else if b.len() == 0 {
        false
    } else {
        (a.last() == b.last() && stands_in(a.drop_last(), b.drop_last())) || stands_in(
            a,
            b.drop_last(),
        )
    }
}

proof fn lemma_stands_len(a: Seq<CallView>, b: Seq<CallView>)
    requires
        stands_in(a, b),
    ensures
        a.len() <= b.len(),
        a.len() == b.len() ==> a == b,
    decreases b.len(),
{
    if a.len() > 0 {
        if stands_in(a, b.drop_last()) {
            lemma_stands_len(a, b.drop_last());
        } else {
            lemma_stands_len(a.drop_last(), b.drop_last());
            if a.len() == b.len() {
                assert(a =~= a.drop_last().push(a.last()));
                assert(b =~= b.drop_last().push(b.last()));
            }
        }
    } else if b.len() == 0 {
        assert(a =~= b);
    }
}

proof fn lemma_stands_more(a: Seq<CallView>, b: Seq<CallView>, c: Seq<CallView>)
    requires
        stands_in(a, b),
    ensures
        stands_in(a + c, b + c),
    decreases c.len(),
{
    if c.len() == 0 {
        assert(a + c =~= a);
        assert(b + c =~= b);
    } else {
        lemma_stands_more(a, b, c.drop_last());
        assert((a + c).drop_last() =~= a + c.drop_last());
        assert((b + c).drop_last() =~= b + c.drop_last());
        assert((a + c).last() == c.last());
        assert((b + c).last() == c.last());
    }
}

proof fn lemma_calls_add(t: Seq<EntryView>, u: Seq<EntryView>)
    ensures
        calls_on(t + u) == calls_on(t) + calls_on(u),
    decreases u.len(),
{
    if u.len() == 0 {
        assert(t + u =~= t);
        assert(calls_on(t) + calls_on(u) =~= calls_on(t));
    } else {
        lemma_calls_add(t, u.drop_last());
        assert((t + u).drop_last() =~= t + u.drop_last());
        assert((t + u).last() == u.last());
        assert(calls_on(t + u) =~= calls_on(t) + calls_on(u));
    }
}

proof fn lemma_calls_kept(t: Seq<EntryView>, i: int, e: EntryView)
    requires
        0 <= i < t.len(),
        call_on(e) == call_on(t[i]),
    ensures
        calls_on(t.update(i, e)) == calls_on(t),
    decreases t.len(),
{
    let u = t.update(i, e);
    if i == t.len() - 1 {
        assert(u.drop_last() =~= t.drop_last());
    } else {
        lemma_calls_kept(t.drop_last(), i, e);
        assert(u.drop_last() =~= t.drop_last().update(i, e));
        assert(u.last() == t.last());
    }
}

proof fn lemma_no_calls(t: Seq<EntryView>)
    requires
        forall|i: int| 0 <= i < t.len() ==> call_on(#[trigger] t[i]) is None,
    ensures
        calls_on(t) == Seq::<CallView>::empty(),
    decreases t.len(),
{
    if t.len() > 0 {
        assert(call_on(t[t.len() - 1]) is None);
        assert forall|i: int| 0 <= i < t.len() - 1 implies call_on(
            #[trigger] t.drop_last()[i],
        ) is None by {
            assert(t.drop_last()[i] == t[i]);
        }
        lemma_no_calls(t.drop_last());
    }
}

proof fn lemma_call_cards(calls: Seq<CallView>)
    ensures
        calls_on(call_cards(calls)) == calls,
    decreases calls.len(),
{
    if calls.len() == 0 {
        assert(call_cards(calls) =~= Seq::empty());
        assert(calls =~= Seq::empty());
    } else {
        let init = calls.drop_last();
        lemma_call_cards(init);
        assert(call_cards(calls).drop_last() =~= call_cards(init));
        assert(calls =~= init.push(calls.last()));
    }
}

proof fn lemma_pictures_call_nothing(images: Seq<Image>, source: SourceView)
    ensures
        calls_on(pictures(images, source)) == Seq::<CallView>::empty(),
    decreases images.len(),
{
    if images.len() > 0 {
        lemma_pictures_call_nothing(images.drop_first(), source);
        if let Some(p) = images[0].path {
            let i = images[0];
            let one = seq![
                EntryView::Image {
                    source,
                    image: ImageView { path: p@, mime: i.mime@, bytes: i.bytes },
                },
            ];
            lemma_no_calls(one);
            lemma_calls_add(one, pictures(images.drop_first(), source));
            assert(Seq::<CallView>::empty() + Seq::<CallView>::empty() =~= Seq::empty());
        }
    }
}

/// Every call of every message stands in the conversation that is read back, in
/// order, on a card with its name and exactly its arguments.  The only other
/// cards are those of results that no call waited for, so where there are as many
/// cards as calls, the cards are the calls.
pub proof fn law_every_call_is_read_back(s: AppView, m: Seq<MessageView>)
    ensures
        stands_in(calls_made(m), calls_on(reread(s, m))),
        calls_on(reread(s, m)).len() == calls_made(m).len() ==> calls_on(reread(s, m))
            == calls_made(m),
    decreases m.len(),
{
    if m.len() > 0 {
        let init = m.drop_last();
        let x = m.last();
        law_every_call_is_read_back(s, init);
        assert(init.push(x) =~= m);
        law_each_message_is_read_back(s, init, x);
        let t = reread(s, init);
        let u = reread(s, m);
        let none = Seq::<CallView>::empty();
        match x.role {
            Role::System => {},
            Role::User => {
                let more = if last_answer(init) is None || x.images.len() == 0 {
                    spoken(x.content, EntryView::User(x.content))
                } else {
                    pictures(x.images, SourceView::Tool(last_answer(init)->0))
                };
                if last_answer(init) is None || x.images.len() == 0 {
                    lemma_no_calls(more);
                } else {
                    lemma_pictures_call_nothing(
                        x.images,
                        SourceView::Tool(last_answer(init)->0),
                    );
                }
                lemma_calls_add(t, more);
                assert(calls_on(t) + none =~= calls_on(t));
            },
            Role::Assistant => {
                let said = spoken(x.content, EntryView::Assistant(x.content));
                let pics = pictures(x.images, SourceView::Assistant);
                lemma_no_calls(said);
                lemma_pictures_call_nothing(x.images, SourceView::Assistant);
                lemma_call_cards(x.tool_calls);
                lemma_calls_add(t, said);
                lemma_calls_add(t + said, pics);
                lemma_calls_add(t + said + pics, call_cards(x.tool_calls));
                assert(calls_on(t) + none =~= calls_on(t));
                lemma_stands_more(calls_made(init), calls_on(t), x.tool_calls);
            },
            Role::Tool => {
                let name = tool_of(x);
                lemma_open_card(t, name);
                let k = open_card(t, name);
                law_a_past_result_answers_its_call(s, init, x, k);
                if k >= 0 {
                    assert(newest_running(t, name, k)) by {
                        assert forall|j: int| k < j < t.len() implies !runs(
                            #[trigger] t[j],
                            name,
                        ) by {
                            assert(!is_open_card(t[j], name));
                        }
                    }
                    lemma_calls_kept(t, k, u[k]);
                } else {
                    assert forall|j: int| 0 <= j < t.len() implies !runs(
                        #[trigger] t[j],
                        name,
                    ) by {
                        assert(!is_open_card(t[j], name));
                    }
                    assert(u.drop_last() =~= t);
                    assert(calls_on(u).drop_last() =~= calls_on(t));
                }
            },
        }
    }
    lemma_stands_len(calls_made(m), calls_on(reread(s, m)));
}

/// Reading back puts the past conversation in place of the current one, at its
/// end, with nothing streaming; all else stays.
pub proof fn law_reading_back_replaces_the_conversation(s: AppView, m: Seq<MessageView>)
    ensures
        s.rail.attached is None ==> s.replayed(m) == (AppView {
            chat: ChatView {
                transcript: reread(s, m),
                streaming: Seq::empty(),
                streaming_thinking: Seq::empty(),
                scroll: 0,
                scroll_follow: true,
                ..s.chat
            },
            ..s
        }),
{
}

} // verus!
