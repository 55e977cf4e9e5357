//! What holds of a session as a whole: how it starts, what it shows of its work,
//! which providers it uses, and images that are pasted into it.

use crate::app::diff::{concat, diff_sidebar, in_state_dir, users_files};
use crate::app::paste::{accepted_image, data_image, mime_extension, pasted_path, unquoted};
use crate::app::rail::all_failed;
use crate::app::state::{AppView, SessionState, SurroundingsView};
use crate::app::transcript::{running_tool, EntryView, PaneStatus, PaneView};
use crate::config::{provider_named, ConfigView, ProviderView};
use crate::text::{is_white, starts_with, trim};
use crate::text_laws::{
    lacks, law_a_character_is_found_first, law_blank_says_nothing, says_something,
};
use vstd::prelude::*;

verus! {

/// The card is of a call that still runs.
pub open spec fn still_runs(e: EntryView) -> bool {
    e is ToolCard && e->output is None
}

proof fn lemma_newest_tool(t: Seq<EntryView>, i: int)
    requires
        -1 <= i < t.len(),
        i >= 0 ==> still_runs(t[i]),
        forall|j: int| i < j < t.len() ==> !still_runs(#[trigger] t[j]),
    ensures
        running_tool(t) == if i < 0 {
            None
        } else {
            Some(t[i]->ToolCard_name)
        },
    decreases t.len(),
{
    if t.len() > 0 && i < t.len() - 1 {
        assert(!still_runs(t[t.len() - 1]));
        let d = t.drop_last();
        assert forall|j: int| i < j < d.len() implies !still_runs(#[trigger] d[j]) by {
            assert(d[j] == t[j]);
        }
        lemma_newest_tool(d, i);
    }
}

/// A session waits for its user while a plan or an interview is open, works while
/// a turn runs and is idle otherwise; at work it names the newest call that still
/// runs.
pub proof fn law_a_heartbeat_tells_what_is_done(s: AppView, i: int)
    requires
        -1 <= i < s.chat.transcript.len(),
        i >= 0 ==> still_runs(s.chat.transcript[i]),
        forall|j: int|
            i < j < s.chat.transcript.len() ==> !still_runs(#[trigger] s.chat.transcript[j]),
    ensures
        ({
            let h = s.heartbeat();
            let asked = s.planning.plan_review is Some || s.planning.interview is Some;
            &&& h.id == s.session.id
            &&& h.name == s.session.name
            &&& h.cwd == s.session.project_root
            &&& h.model == s.turn.status.model
            &&& h.pid == s.surroundings.pid
            &&& h.started_unix == s.session.started_unix
            &&& asked ==> h.state == SessionState::NeedsInput
            &&& !asked && s.turn.status.busy ==> h.state == SessionState::Working
            &&& !asked && !s.turn.status.busy ==> h.state == SessionState::Idle && h.activity
                == "idle"@
            &&& !asked && s.turn.status.busy && i >= 0 ==> h.activity
                == s.chat.transcript[i]->ToolCard_name
            &&& !asked && s.turn.status.busy && i < 0 ==> h.activity == s.turn.spinner_verb + "…"@
        }),
{
    lemma_newest_tool(s.chat.transcript, i);
}

/// The untracked files that are shown are those of the user, in order.
pub proof fn law_only_the_users_files_are_shown(l: Seq<Seq<char>>)
    ensures
        users_files(l) == l.filter(|f: Seq<char>| says_something(f) && !in_state_dir(f)),
    decreases l.len(),
{
    reveal(Seq::filter);
    if l.len() > 0 {
        law_only_the_users_files_are_shown(l.drop_last());
        law_blank_says_nothing(l.last());
    }
}

/// The sidebar shows what is not staged, what is and what is untracked, each
/// whole and in this order, each under its heading; a kind of change that there
/// is none of is left out.
pub proof fn law_the_sidebar_shows_every_change(
    unstaged: Seq<char>,
    staged: Seq<char>,
    untracked: Seq<Seq<char>>,
)
    ensures
        ({
            let new = concat(untracked);
            let shown = diff_sidebar(unstaged, staged, untracked);
            let (a, b, c) = (says_something(unstaged), says_something(staged), says_something(new));
            let (hb, hc) = ("# --- staged ---\n"@, "# --- untracked ---\n"@);
            &&& !a && !b && !c ==> shown == "(working tree clean)"@
            &&& a && !b && !c ==> shown == unstaged
            &&& !a && b && !c ==> shown == hb + staged
            &&& !a && !b && c ==> shown == hc + new
            &&& a && b && !c ==> shown == unstaged.push('\n') + hb + staged
            &&& a && !b && c ==> shown == unstaged.push('\n') + hc + new
            &&& !a && b && c ==> shown == (hb + staged).push('\n') + hc + new
            &&& a && b && c ==> shown == (unstaged.push('\n') + hb + staged).push('\n') + hc + new
        }),
{
    let new = concat(untracked);
    law_blank_says_nothing(unstaged);
    law_blank_says_nothing(staged);
    law_blank_says_nothing(new);
    let none = Seq::<char>::empty();
    assert(none + none + unstaged =~= unstaged);
    assert(none + "# --- staged ---\n"@ + staged =~= "# --- staged ---\n"@ + staged);
    assert(none + "# --- untracked ---\n"@ + new =~= "# --- untracked ---\n"@ + new);
}

/// The new files are shown one after the other.
pub proof fn law_new_files_are_shown_in_order(t: Seq<Seq<char>>, x: Seq<char>)
    ensures
        concat(Seq::empty()).len() == 0,
        concat(t.push(x)) == concat(t) + x,
{
    assert(t.push(x).drop_last() =~= t);
}

/// An image in a data URL is read with its media type and its data.
pub proof fn law_a_data_url_gives_its_image(mime: Seq<char>, data: Seq<char>)
    requires
        lacks(mime, ','),
        lacks(mime, ';'),
        starts_with(trim(mime), "image/"@),
    ensures
        data_image("data:"@ + mime + ";base64,"@ + data) == Some((trim(mime), trim(data))),
{
    reveal_strlit("data:");
    reveal_strlit(";base64,");
    reveal_strlit(";base64");
    let text = "data:"@ + mime + ";base64,"@ + data;
    let rest = text.skip(5);
    let meta = mime + ";base64"@;
    assert(text.take(5) =~= "data:"@);
    assert(rest =~= meta + seq![','] + data);
    assert(lacks(meta, ',')) by {
        assert forall|i: int| 0 <= i < meta.len() implies #[trigger] meta[i] != ',' by {
            if i < mime.len() {
                assert(meta[i] == mime[i]);
            } else {
                assert(meta[i] == ";base64"@[i - mime.len()]);
            }
        }
    }
    law_a_character_is_found_first(meta, ',', data);
    assert(rest.take(meta.len() as int) =~= meta);
    assert(rest.skip(meta.len() as int + 1) =~= data);
    let tail = ";base64"@.skip(1);
    assert(meta =~= mime + seq![';'] + tail);
    law_a_character_is_found_first(mime, ';', tail);
    assert(meta.take(mime.len() as int) =~= mime);
    assert(meta.skip(mime.len() as int) =~= ";base64"@);
    assert(";base64"@.take(7) =~= ";base64"@);
    assert(starts_with(meta.skip(mime.len() as int), ";base64"@));
}

/// A pasted image is kept as it is decoded, within the limit; one that is too
/// large, or cannot be decoded, is refused.
pub proof fn law_an_image_is_kept_as_decoded(
    mime: Seq<char>,
    bytes: Seq<u8>,
    limit: nat,
    e: Seq<char>,
)
    ensures
        bytes.len() <= limit ==> accepted_image(mime, Ok(bytes), limit) == Ok::<
            (Seq<u8>, Seq<char>),
            Seq<char>,
        >((bytes, mime_extension(mime))),
        bytes.len() > limit ==> accepted_image(mime, Ok(bytes), limit) is Err,
        accepted_image(mime, Err(e), limit) == Err::<(Seq<u8>, Seq<char>), Seq<char>>(
            "invalid base64: "@ + e,
        ),
{
}

/// The provider in use is the one chosen by name; without a choice, or with one
/// that is not configured, the first there is, and without any the fallback.
pub proof fn law_the_provider_in_use_is_the_one_chosen(c: ConfigView, i: int)
    requires
        0 <= i <= c.providers.len(),
        c.active_provider is Some,
        forall|k: int| 0 <= k < i ==> (#[trigger] c.providers[k]).name != c.active_provider->0,
        i < c.providers.len() ==> c.providers[i].name == c.active_provider->0,
    ensures
        i < c.providers.len() ==> c.active() == c.providers[i],
        i == c.providers.len() && i > 0 ==> c.active() == c.providers[0],
        i == c.providers.len() && i == 0 ==> c.active() == c.fallback,
        (ConfigView { active_provider: None, ..c }).active() == if c.providers.len() > 0 {
            c.providers[0]
        } else {
            c.fallback
        },
{
    lemma_provider_at(c.providers, c.active_provider->0, i);
}

proof fn lemma_provider_at(p: Seq<ProviderView>, name: Seq<char>, i: int)
    requires
        0 <= i <= p.len(),
        forall|k: int| 0 <= k < i ==> (#[trigger] p[k]).name != name,
        i < p.len() ==> p[i].name == name,
    ensures
        provider_named(p, name) == if i < p.len() {
            Some(p[i])
        } else {
            None
        },
    decreases p.len(),
{
    if i > 0 {
        assert(p[0].name != name);
        let d = p.drop_first();
        assert forall|k: int| 0 <= k < i - 1 implies (#[trigger] d[k]).name != name by {
            assert(d[k] == p[k + 1]);
        }
        lemma_provider_at(d, name, i - 1);
    }
}

/// Without a panel of its own fusion asks every provider, in order, and the first
/// brings the answers together; a configured panel stands as it is.
pub proof fn law_every_provider_is_on_the_panel(c: ConfigView, i: int)
    ensures
        c.fusion is Some ==> c.panel() == c.fusion,
        c.fusion is None && c.providers.len() == 0 ==> c.panel() is None,
        c.fusion is None && c.providers.len() > 0 ==> {
            &&& c.panel() is Some
            &&& c.panel()->0.panel.len() == c.providers.len()
            &&& 0 <= i < c.providers.len() ==> c.panel()->0.panel[i] == c.providers[i].name
            &&& c.panel()->0.synthesizer == c.providers[0].name
            &&& c.panel()->0.rounds == 1
        },
{
}

/// When the turn that owns them is killed, the runs that still go are closed out
/// with the reason, and those that have ended stay as they are.
pub proof fn law_an_abort_closes_what_runs(
    panes: Seq<PaneView>,
    why: Seq<char>,
    now: u64,
    i: int,
)
    requires
        0 <= i < panes.len(),
    ensures
        all_failed(panes, why, now).len() == panes.len(),
        panes[i].status != PaneStatus::Running ==> all_failed(panes, why, now)[i] == panes[i],
        panes[i].status == PaneStatus::Running ==> all_failed(panes, why, now)[i] == (PaneView {
            status: PaneStatus::Failed,
            finished: Some(now),
            transcript: panes[i].transcript.push(EntryView::Notice("failed: "@ + why)),
            ..panes[i]
        }),
{
}

/// The application starts with nothing said, nothing typed and nothing open, in
/// the mode that is configured, and in plan mode if that is.
pub proof fn law_a_session_starts_empty(
    config: ConfigView,
    root: Seq<char>,
    around: SurroundingsView,
)
    ensures
        ({
            let s = AppView::fresh(config, root, around);
            &&& s.config == config
            &&& s.mode == config.mode
            &&& s.chat.transcript.len() == 0
            &&& s.chat.streaming.len() == 0
            &&& s.chat.streaming_thinking.len() == 0
            &&& s.composer.input.len() == 0
            &&& s.composer.history.len() == 0
            &&& s.composer.vim.enabled == config.vim
            &&& s.composer.picker is None
            &&& s.rail.panes.len() == 0
            &&& !s.dashboard.open
            &&& s.planning.omakase == config.omakase
            &&& s.planning.plan_mode == (config.plan_first || config.omakase)
            &&& s.planning.plan_review is None
            &&& s.planning.interview is None
            &&& s.turn.message_queue.len() == 0
            &&& !s.turn.status.busy
            &&& s.turn.status.model == config.active().model
            &&& s.turn.status.max_steps == config.max_steps
            &&& s.effects.len() == 0
            &&& !s.pending.should_quit
        }),
{
}

/// A path that is pasted in quotation marks, or as the address of a file, stands
/// for the path itself.
pub proof fn law_a_pasted_path_stands_for_itself(p: Seq<char>)
    requires
        p.len() > 0,
        forall|i: int|
            0 <= i < p.len() ==> !is_white(#[trigger] p[i]) && p[i] != '"' && p[i] != '\'',
        !starts_with(p, "file://"@),
    ensures
        pasted_path(p) == p,
        pasted_path(seq!['"'] + p + seq!['"']) == p,
        pasted_path(seq!['\''] + p + seq!['\'']) == p,
        pasted_path("file://"@ + p) == p,
{
    reveal_strlit("file://");
    lemma_untrimmed(p);
    lemma_unquoted(p, '"');
    lemma_unquoted(p, '\'');
    let f = "file://"@ + p;
    assert forall|i: int| 0 <= i < f.len() implies !is_white(#[trigger] f[i]) && f[i] != '"' && f[i]
        != '\'' by {
        if i >= 7 {
            assert(f[i] == p[i - 7]);
        } else {
            assert(f[i] == "file://"@[i]);
        }
    }
    lemma_untrimmed(f);
    assert(f[0] == 'f');
    assert(f.last() == p.last());
    assert(p[p.len() - 1] != '"' && p[p.len() - 1] != '\'');
    assert(f.take(7) =~= "file://"@);
    assert(f.skip(7) =~= p);
    assert(p[0] != '"' && p[0] != '\'');
}

proof fn lemma_untrimmed(p: Seq<char>)
    requires
        p.len() > 0,
        !is_white(p[0]),
        !is_white(p.last()),
    ensures
        trim(p) == p,
{
}

proof fn lemma_unquoted(p: Seq<char>, q: char)
    requires
        p.len() > 0,
        q == '"' || q == '\'',
        forall|i: int|
            0 <= i < p.len() ==> !is_white(#[trigger] p[i]) && p[i] != '"' && p[i] != '\'',
    ensures
        trim(seq![q] + p + seq![q]) == seq![q] + p + seq![q],
        unquoted(seq![q] + p + seq![q]) == p,
        unquoted(p) == p,
{
    let s = seq![q] + p + seq![q];
    assert(!is_white(q));
    assert(s[0] == q && s.last() == q);
    lemma_untrimmed(s);
    let t = s.drop_first();
    assert(t =~= p + seq![q]);
    assert(t[0] == p[0] && t.last() == q);
    assert(p[0] != '"');
    assert(t.drop_last() =~= p);
    assert(p[p.len() - 1] != '"');
    assert(unquoted(p) == p);
    assert(unquoted(t) == unquoted(t.drop_last()));
    assert(unquoted(s) == unquoted(t));
}

} // verus!
