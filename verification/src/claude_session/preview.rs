//! Picker rows for sessions, and the files they come from.

use crate::claude_session::line::{is_synthetic, is_synthetic_prompt, NodeKind, NodeView, Stamp};
use crate::claude_session::session::{lists_forks, picked, replayed, ClaudeSession, SessionView};
use crate::json::text_opt;
use crate::order::{in_order, path_key, sort, ByPath, Keyed};
use crate::paths::{extension, extension_of, join_path, joined};
use crate::text::{
    begins_with, blank, chars_of, is_blank, is_white, join, join_texts, lemma_trim_start,
    lemma_word_len, lower, lowered, same, slice_text, split_words, starts_with, texts, trim_start,
    word_len, words,
};
use vstd::prelude::*;

verus! {

/// Longest title that a picker row keeps, in characters.
pub const TITLE_CHARS: usize = 80;

/// A text on one line, clipped to a title's length.
pub open spec fn clipped(text: Seq<char>) -> Seq<char> {
    let flat = join(words(text), " "@);
    if flat.len() <= TITLE_CHARS {
        flat
    } else {
        flat.take(TITLE_CHARS - 1).push('\u{2026}')
    }
}

/// Collapse whitespace and clip to [`TITLE_CHARS`].
pub fn clip(text: &str) -> (r: String)
    ensures
        r@ == clipped(text@),
{
    let flat = join_texts(&split_words(text), " ");
    let cs = chars_of(&flat);
    if cs.len() <= TITLE_CHARS {
        return flat;
    }
    let mut out = slice_text(&cs, 0, TITLE_CHARS - 1);
    assert(out@ =~= flat@.take(TITLE_CHARS - 1));
    out.push('\u{2026}');
    out
}

/// A text on one line: it neither starts nor ends white, and between its words
/// is one blank.
pub open spec fn is_flat(s: Seq<char>) -> bool {
    &&& s.len() > 0 ==> !is_white(s[0]) && !is_white(s.last())
    &&& forall|i: int| 0 <= i < s.len() && is_white(#[trigger] s[i]) ==> s[i] == ' '
    &&& forall|i: int| 0 <= i < s.len() - 1 && is_white(#[trigger] s[i]) ==> !is_white(s[i + 1])
}

/// The first part stands in front of the others joined.
proof fn lemma_join_first(first: Seq<char>, rest: Seq<Seq<char>>, sep: Seq<char>)
    requires
        rest.len() > 0,
    ensures
        join(seq![first] + rest, sep) == first + sep + join(rest, sep),
    decreases rest.len(),
{
    let all = seq![first] + rest;
    assert(all.last() == rest.last());
    if rest.len() == 1 {
        assert(all.drop_last() =~= seq![first]);
        assert(join(seq![first], sep) == first);
        assert(join(rest, sep) == rest.last());
        assert(join(all, sep) =~= first + sep + join(rest, sep));
    } else {
        assert(all.drop_last() =~= seq![first] + rest.drop_last());
        lemma_join_first(first, rest.drop_last(), sep);
        assert(join(all, sep) =~= first + sep + join(rest, sep));
    }
}

proof fn lemma_words_flat(s: Seq<char>)
    ensures
        is_flat(join(words(s), " "@)),
        words(s).len() > 0 ==> join(words(s), " "@).len() > 0,
    decreases s.len(),
{
    reveal_strlit(" ");
    let t = trim_start(s);
    lemma_trim_start(s);
    lemma_word_len(t);
    if t.len() > 0 {
        let n = word_len(t) as int;
        let word = t.take(n);
        let rest = words(t.skip(n));
        lemma_words_flat(t.skip(n));
        let tail = join(rest, " "@);
        if rest.len() == 0 {
            assert(words(s) =~= seq![word]);
        } else {
            lemma_join_first(word, rest, " "@);
            let r = word + " "@ + tail;
            assert(r.last() == tail.last());
            assert forall|i: int| 0 <= i < r.len() - 1 && is_white(#[trigger] r[i]) implies !is_white(
                r[i + 1],
            ) by {
                if i > n {
                    assert(r[i] == tail[i - n - 1]);
                    assert(r[i + 1] == tail[i - n]);
                } else if i == n {
                    assert(r[i + 1] == tail[0]);
                } else {
                    assert(r[i] == t[i]);
                }
            }
            assert forall|i: int| 0 <= i < r.len() && is_white(#[trigger] r[i]) implies r[i] == ' ' by {
                if i > n {
                    assert(r[i] == tail[i - n - 1]);
                } else if i < n {
                    assert(r[i] == t[i]);
                }
            }
        }
    }
}

proof fn lemma_flat_stays(s: Seq<char>)
    requires
        is_flat(s),
    ensures
        join(words(s), " "@) == s,
        s.len() > 0 ==> words(s).len() > 0,
    decreases s.len(),
{
    reveal_strlit(" ");
    lemma_word_len(s);
    if s.len() > 0 {
        let n = word_len(s) as int;
        let rest = s.skip(n);
        if n == s.len() {
            assert(rest.len() == 0);
            assert(trim_start(rest).len() == 0);
            assert(words(rest) =~= Seq::empty());
            assert(words(s) =~= seq![s.take(n)]);
            assert(s.take(n) =~= s);
        } else {
            let tail = s.skip(n + 1);
            assert(is_white(s[n]) && !is_white(s[s.len() - 1]));
            assert(tail[0] == s[n + 1]);
            assert(rest.drop_first() =~= tail);
            assert(rest[0] == s[n]);
            assert(trim_start(tail) == tail);
            assert(trim_start(rest) == tail);
            assert(tail.last() == s.last());
            assert forall|i: int| 0 <= i < tail.len() && is_white(#[trigger] tail[i]) implies tail[i]
                == ' ' by {
                assert(tail[i] == s[i + n + 1]);
            }
            assert forall|i: int| 0 <= i < tail.len() - 1 && is_white(#[trigger] tail[i]) implies !is_white(
                tail[i + 1],
            ) by {
                assert(tail[i] == s[i + n + 1]);
                assert(tail[i + 1] == s[i + n + 2]);
            }
            lemma_flat_stays(tail);
            assert(words(rest) == words(tail));
            lemma_join_first(s.take(n), words(rest), " "@);
            assert(s.take(n) + " "@ + tail =~= s);
        }
    }
}

/// A title is on one line and no longer than a row keeps; clipping it again
/// changes nothing more.
pub proof fn law_a_clipped_title_stays(text: Seq<char>)
    ensures
        is_flat(clipped(text)),
        clipped(text).len() <= TITLE_CHARS,
        clipped(clipped(text)) == clipped(text),
{
    let flat = join(words(text), " "@);
    let c = clipped(text);
    lemma_words_flat(text);
    if flat.len() > TITLE_CHARS {
        assert forall|i: int| 0 <= i < c.len() - 1 && is_white(#[trigger] c[i]) implies !is_white(
            c[i + 1],
        ) by {
            assert(c[i] == flat[i]);
            if i + 1 < c.len() - 1 {
                assert(c[i + 1] == flat[i + 1]);
            }
        }
        assert forall|i: int| 0 <= i < c.len() && is_white(#[trigger] c[i]) implies c[i] == ' ' by {
            if i < c.len() - 1 {
                assert(c[i] == flat[i]);
            }
        }
        assert(c[0] == flat[0]);
    }
    lemma_flat_stays(c);
}

/// Where a title came from.
#[derive(Clone, Copy, Debug, PartialEq, Eq, Structural)]
pub enum TitleSource {
    AiTitle,
    FirstPrompt,
    SessionId,
}

/// Whether a node is a prompt that the user typed.
pub open spec fn is_prompt(n: NodeView) -> bool {
    n.kind == NodeKind::User && !n.is_meta && !n.is_sidechain && !is_synthetic(n.text())
}

/// The first node of a list that `wanted` holds of.
pub open spec fn find(nodes: Seq<NodeView>, wanted: spec_fn(NodeView) -> bool) -> Option<NodeView>
    decreases nodes.len(),
{
    if nodes.len() == 0 {
        None
    } else if wanted(nodes[0]) {
        Some(nodes[0])
    } else {
        find(nodes.drop_first(), wanted)
    }
}

/// Whether one moment comes before another.
pub open spec fn earlier(a: Stamp, b: Stamp) -> bool {
    a.secs < b.secs || (a.secs == b.secs && a.nanos < b.nanos)
}

/// The earliest moment of a list of nodes.
pub open spec fn started(nodes: Seq<NodeView>) -> Option<Stamp>
    decreases nodes.len(),
{
    if nodes.len() == 0 {
        None
    } else {
        let before = started(nodes.drop_last());
        match (before, nodes.last().timestamp) {
            (Some(seen), Some(stamp)) => if earlier(stamp, seen) {
                Some(stamp)
            } else {
                before
            },
            (None, Some(stamp)) => Some(stamp),
            (_, None) => before,
        }
    }
}

/// The latest moment of a list of nodes.
pub open spec fn updated(nodes: Seq<NodeView>) -> Option<Stamp>
    decreases nodes.len(),
{
    if nodes.len() == 0 {
        None
    } else {
        let before = updated(nodes.drop_last());
        match (before, nodes.last().timestamp) {
            (Some(seen), Some(stamp)) => if earlier(seen, stamp) {
                Some(stamp)
            } else {
                before
            },
            (None, Some(stamp)) => Some(stamp),
            (_, None) => before,
        }
    }
}

impl SessionView {
    /// The title of a picker row: the recorded one, else the first thing that
    /// the user typed, else the id.
    pub open spec fn title(self) -> (Seq<char>, TitleSource) {
        if self.meta.ai_title is Some && !is_blank(self.meta.ai_title->0) {
            (clipped(self.meta.ai_title->0), TitleSource::AiTitle)
        } else {
            match find(self.nodes, |n: NodeView| is_prompt(n)) {
                Some(n) => (clipped(n.text()), TitleSource::FirstPrompt),
                None => (self.session_id, TitleSource::SessionId),
            }
        }
    }

    /// The first working directory that a line records.
    pub open spec fn cwd(self) -> Option<Seq<char>> {
        match find(self.nodes, |n: NodeView| n.cwd is Some) {
            Some(n) => n.cwd,
            None => None,
        }
    }

    /// The first branch that a line records.
    pub open spec fn git_branch(self) -> Option<Seq<char>> {
        match find(self.nodes, |n: NodeView| n.git_branch is Some) {
            Some(n) => n.git_branch,
            None => None,
        }
    }
}

/// One row of a session picker.
#[derive(Debug, PartialEq, Eq)]
pub struct SessionPreview {
    pub path: String,
    pub session_id: String,
    pub title: String,
    pub title_source: TitleSource,
    /// The earliest and latest moment anywhere in the file.
    pub started: Option<Stamp>,
    pub updated: Option<Stamp>,
    /// The messages that a resume would replay.
    pub message_count: usize,
    pub cwd: Option<String>,
    pub git_branch: Option<String>,
    pub leaf_uuid: Option<String>,
    /// How many places the history forked.
    pub branch_points: usize,
}

/// Whether a row is the one of a session.
pub open spec fn is_preview(r: SessionPreview, s: SessionView) -> bool {
    &&& r.path@ == s.path
    &&& r.session_id@ == s.session_id
    &&& r.title@ == s.title().0
    &&& r.title_source == s.title().1
    &&& r.started == started(s.nodes)
    &&& r.updated == updated(s.nodes)
    &&& r.message_count == picked(s.nodes, s.resume_chain().positions, replayed()).len()
    &&& text_opt(r.cwd) == s.cwd()
    &&& text_opt(r.git_branch) == s.git_branch()
    &&& text_opt(r.leaf_uuid) == s.tip()
    &&& exists|points: Seq<crate::claude_session::session::BranchPoint>| #[trigger]
        lists_forks(points, s.nodes) && r.branch_points == points.len()
}

fn comes_before(a: Stamp, b: Stamp) -> (r: bool)
    ensures
        r == earlier(a, b),
{
    a.secs < b.secs || (a.secs == b.secs && a.nanos < b.nanos)
}

impl ClaudeSession {
    fn span(&self) -> (r: (Option<Stamp>, Option<Stamp>))
        ensures
            r.0 == started(self@.nodes),
            r.1 == updated(self@.nodes),
    {
        let ghost all = self@.nodes;
        let mut low: Option<Stamp> = None;
        let mut high: Option<Stamp> = None;
        let mut i: usize = 0;
        assert(all.take(0) =~= Seq::empty());
        while i < self.nodes.len()
            invariant
                i <= self.nodes.len(),
                all == self@.nodes,
                low == started(all.take(i as int)),
                high == updated(all.take(i as int)),
            decreases self.nodes.len() - i,
        {
            assert(all.take(i + 1).drop_last() =~= all.take(i as int));
            assert(all.take(i + 1).last() == self.nodes@[i as int]@);
            if let Some(stamp) = self.nodes[i].timestamp {
                low = match low {
                    Some(seen) => if comes_before(stamp, seen) {
                        Some(stamp)
                    } else {
                        low
                    },
                    None => Some(stamp),
                };
                high = match high {
                    Some(seen) => if comes_before(seen, stamp) {
                        Some(stamp)
                    } else {
                        high
                    },
                    None => Some(stamp),
                };
            }
            i += 1;
        }
        assert(all.take(all.len() as int) =~= all);
        (low, high)
    }

    /// The title of a picker row, and where it came from.
    pub fn title(&self) -> (r: (String, TitleSource))
        ensures
            (r.0@, r.1) == self@.title(),
    {
        if let Some(title) = &self.meta.ai_title {
            if !blank(title) {
                return (clip(title), TitleSource::AiTitle);
            }
        }
        let ghost all = self@.nodes;
        let ghost wanted = |n: NodeView| is_prompt(n);
        let mut i: usize = 0;
        assert(all.skip(0) =~= all);
        while i < self.nodes.len()
            invariant
                i <= self.nodes.len(),
                all == self@.nodes,
                wanted == (|n: NodeView| is_prompt(n)),
                find(all, wanted) == find(all.skip(i as int), wanted),
                !(self@.meta.ai_title is Some && !is_blank(self@.meta.ai_title->0)),
            decreases self.nodes.len() - i,
        {
            let n = &self.nodes[i];
            assert(all.skip(i as int)[0] == n@);
            if n.kind == NodeKind::User && !n.is_meta && !n.is_sidechain {
                let text = n.text();
                if !is_synthetic_prompt(&text) {
                    return (clip(&text), TitleSource::FirstPrompt);
                }
            }
            assert(all.skip(i as int).drop_first() =~= all.skip(i + 1));
            i += 1;
        }
        (self.session_id.clone(), TitleSource::SessionId)
    }

    fn first_cwd(&self) -> (r: Option<String>)
        ensures
            text_opt(r) == self@.cwd(),
    {
        let ghost all = self@.nodes;
        let ghost wanted = |n: NodeView| n.cwd is Some;
        let mut i: usize = 0;
        assert(all.skip(0) =~= all);
        while i < self.nodes.len()
            invariant
                i <= self.nodes.len(),
                all == self@.nodes,
                wanted == (|n: NodeView| n.cwd is Some),
                find(all, wanted) == find(all.skip(i as int), wanted),
            decreases self.nodes.len() - i,
        {
            assert(all.skip(i as int)[0] == self.nodes@[i as int]@);
            if let Some(cwd) = &self.nodes[i].cwd {
                return Some(cwd.clone());
            }
            assert(all.skip(i as int).drop_first() =~= all.skip(i + 1));
            i += 1;
        }
        None
    }

    fn first_branch(&self) -> (r: Option<String>)
        ensures
            text_opt(r) == self@.git_branch(),
    {
        let ghost all = self@.nodes;
        let ghost wanted = |n: NodeView| n.git_branch is Some;
        let mut i: usize = 0;
        assert(all.skip(0) =~= all);
        while i < self.nodes.len()
            invariant
                i <= self.nodes.len(),
                all == self@.nodes,
                wanted == (|n: NodeView| n.git_branch is Some),
                find(all, wanted) == find(all.skip(i as int), wanted),
            decreases self.nodes.len() - i,
        {
            assert(all.skip(i as int)[0] == self.nodes@[i as int]@);
            if let Some(branch) = &self.nodes[i].git_branch {
                return Some(branch.clone());
            }
            assert(all.skip(i as int).drop_first() =~= all.skip(i + 1));
            i += 1;
        }
        None
    }

    /// A picker row for this session.
    pub fn preview(&self) -> (r: SessionPreview)
        requires
            self.wf(),
        ensures
            is_preview(r, self@),
    {
        let chain = self.resume_chain();
        let (low, high) = self.span();
        let (title, title_source) = self.title();
        let messages = chain.replayable(self);
        let points = self.branch_points();
        let leaf_uuid = match self.tip() {
            Some(u) => Some(u.to_string()),
            None => None,
        };
        let r = SessionPreview {
            path: self.path.clone(),
            session_id: self.session_id.clone(),
            title,
            title_source,
            started: low,
            updated: high,
            message_count: messages.len(),
            cwd: self.first_cwd(),
            git_branch: self.first_branch(),
            leaf_uuid,
            branch_points: points.len(),
        };
        assert(lists_forks(points@, self@.nodes) && r.branch_points == points@.len());
        r
    }
}

/// Longest project directory name before it is cut and a hash appended.
pub const PROJECT_SLUG_MAX: usize = 200;

/// The directory name that a working directory's sessions are kept under.
#[derive(Debug, PartialEq, Eq)]
pub struct ProjectSlug {
    /// The name, or its start when `exact` is false.
    pub name: String,
    /// True when `name` is the whole directory name.
    pub exact: bool,
}

/// Whether a character is an ASCII letter or digit.
pub open spec fn is_plain(c: char) -> bool {
    ('a' <= c && c <= 'z') || ('A' <= c && c <= 'Z') || ('0' <= c && c <= '9')
}

/// What a character becomes in a directory name: itself, or a dash for each of
/// its UTF-16 units.
pub open spec fn slug_of_char(c: char) -> Seq<char> {
    if is_plain(c) {
        seq![c]
    } else if (c as u32) < 0x10000 {
        seq!['-']
    } else {
        seq!['-', '-']
    }
}

/// What a working directory becomes, before it is cut.
pub open spec fn slugged(cwd: Seq<char>) -> Seq<char>
    decreases cwd.len(),
{
    if cwd.len() == 0 {
        Seq::empty()
    } else {
        slugged(cwd.drop_last()) + slug_of_char(cwd.last())
    }
}

/// The directory name of a working directory, as far as it is known, and
/// whether it is the whole name.
pub open spec fn slug(cwd: Seq<char>) -> (Seq<char>, bool) {
    let whole = slugged(cwd);
    if whole.len() <= PROJECT_SLUG_MAX {
        (whole, true)
    } else {
        (whole.take(PROJECT_SLUG_MAX as int), false)
    }
}

/// Slugify a working directory: every UTF-16 unit that is not an ASCII letter or
/// digit becomes `-`, and what is over [`PROJECT_SLUG_MAX`] is cut.
pub fn project_slug(cwd: &str) -> (r: ProjectSlug)
    ensures
        (r.name@, r.exact) == slug(cwd@),
{
    let cs = chars_of(cwd);
    let mut out: Vec<char> = Vec::new();
    let mut i: usize = 0;
    assert(cs@.take(0) =~= Seq::empty());
    while i < cs.len()
        invariant
            i <= cs.len(),
            out@ == slugged(cs@.take(i as int)),
        decreases cs.len() - i,
    {
        assert(cs@.take(i + 1).drop_last() =~= cs@.take(i as int));
        let c = cs[i];
        let ghost was = out@;
        if ('a' <= c && c <= 'z') || ('A' <= c && c <= 'Z') || ('0' <= c && c <= '9') {
            out.push(c);
            assert(out@ =~= was + slug_of_char(c));
        } else {
            out.push('-');
            if c as u32 >= 0x10000 {
                out.push('-');
            }
            assert(out@ =~= was + slug_of_char(c));
        }
        i += 1;
    }
    assert(cs@.take(cs@.len() as int) =~= cs@);
    if out.len() <= PROJECT_SLUG_MAX {
        ProjectSlug { name: crate::text::string_of(&out), exact: true }
    } else {
        let name = slice_text(&out, 0, PROJECT_SLUG_MAX);
        assert(name@ =~= out@.take(PROJECT_SLUG_MAX as int));
        ProjectSlug { name, exact: false }
    }
}

/// A directory name holds ASCII letters, digits and dashes only, and no more
/// than [`PROJECT_SLUG_MAX`] of them; a working directory is cut only when it
/// must be.
pub proof fn law_slug_is_plain(cwd: Seq<char>)
    ensures
        slug(cwd).0.len() <= PROJECT_SLUG_MAX,
        forall|i: int|
            0 <= i < slug(cwd).0.len() ==> is_plain(#[trigger] slug(cwd).0[i]) || slug(cwd).0[i]
                == '-',
        slug(cwd).1 <==> slugged(cwd).len() <= PROJECT_SLUG_MAX,
{
    lemma_slugged(cwd);
}

proof fn lemma_slugged(cwd: Seq<char>)
    ensures
        forall|i: int|
            0 <= i < slugged(cwd).len() ==> is_plain(#[trigger] slugged(cwd)[i]) || slugged(cwd)[i]
                == '-',
    decreases cwd.len(),
{
    if cwd.len() > 0 {
        lemma_slugged(cwd.drop_last());
        let before = slugged(cwd.drop_last());
        let more = slug_of_char(cwd.last());
        assert forall|i: int| 0 <= i < slugged(cwd).len() implies is_plain(
            #[trigger] slugged(cwd)[i],
        ) || slugged(cwd)[i] == '-' by {
            if i < before.len() {
                assert(slugged(cwd)[i] == before[i]);
            } else {
                assert(slugged(cwd)[i] == more[i - before.len()]);
            }
        }
    }
}

/// The names among `dirs` that a cut directory name is the start of, before its
/// hash.
pub open spec fn hashed(dirs: Seq<Seq<char>>, name: Seq<char>) -> Seq<Seq<char>> {
    dirs.filter(|d: Seq<char>| starts_with(d, name + "-"@))
}

fn hashed_names(dirs: &Vec<String>, name: &str) -> (r: Vec<String>)
    ensures
        texts(r@) == hashed(texts(dirs@), name@),
{
    let mut prefix = name.to_string();
    prefix.append("-");
    let ghost all = texts(dirs@);
    let ghost wanted = |d: Seq<char>| starts_with(d, name@ + "-"@);
    let mut out: Vec<String> = Vec::new();
    let mut i: usize = 0;
    reveal(Seq::filter);
    assert(all.take(0) =~= Seq::empty());
    assert(texts(out@) =~= all.take(0).filter(wanted));
    while i < dirs.len()
        invariant
            i <= dirs.len(),
            all == texts(dirs@),
            prefix@ == name@ + "-"@,
            wanted == (|d: Seq<char>| starts_with(d, name@ + "-"@)),
            texts(out@) == all.take(i as int).filter(wanted),
        decreases dirs.len() - i,
    {
        reveal(Seq::filter);
        assert(all.take(i + 1).drop_last() =~= all.take(i as int));
        assert(all.take(i + 1).last() == dirs@[i as int]@);
        if begins_with(&dirs[i], &prefix) {
            let ghost was = out@;
            out.push(dirs[i].clone());
            assert(texts(out@) =~= texts(was).push(dirs@[i as int]@));
        }
        i += 1;
    }
    assert(all.take(all.len() as int) =~= all);
    out
}

/// The directory under `projects_root` holding a working directory's sessions,
/// or none.  `direct` tells whether the directory of the very name is there, and
/// `dirs` names every directory under the root.  A cut name is looked up by its
/// start, and one that fits several directories finds none.
pub fn project_dir(projects_root: &str, cwd: &str, direct: bool, dirs: &Vec<String>) -> (r: Option<
    String,
>)
    ensures
        text_opt(r) == ({
            let (name, exact) = slug(cwd@);
            let found = hashed(texts(dirs@), name);
            if direct {
                Some(joined(projects_root@, name))
            } else if !exact && found.len() == 1 {
                Some(joined(projects_root@, found[0]))
            } else {
                None
            }
        }),
{
    let slug = project_slug(cwd);
    if direct {
        return Some(join_path(projects_root, &slug.name));
    }
    if slug.exact {
        return None;
    }
    let found = hashed_names(dirs, &slug.name);
    assert(texts(found@).len() == found@.len());
    if found.len() == 1 {
        assert(texts(found@)[0] == found@[0]@);
        Some(join_path(projects_root, &found[0]))
    } else {
        None
    }
}

/// The views of paths, in a list ordered by path.
pub open spec fn by_path(v: Seq<ByPath>) -> Seq<Seq<char>> {
    v.map_values(|x: ByPath| x.path@)
}

/// Whether `r` is a list of paths put in order.
pub open spec fn sorted_list(r: Seq<Seq<char>>, all: Seq<Seq<char>>) -> bool {
    exists|v: Seq<ByPath>| #[trigger] by_path(v) == all && r == by_path(in_order(v))
}

fn sort_paths(all: Vec<String>) -> (r: Vec<String>)
    ensures
        sorted_list(texts(r@), texts(all@)),
{
    let ghost want = texts(all@);
    let ghost given = all@;
    let mut v: Vec<ByPath> = Vec::new();
    for p in it: all
        invariant
            it.seq() == given,
            v@.len() == it.index(),
            forall|k: int| 0 <= k < v@.len() ==> (#[trigger] v@[k]).path@ == given[k]@,
    {
        v.push(ByPath { path: p });
    }
    let ghost placed = v@;
    assert(by_path(placed) =~= want);
    let sorted = sort(v);
    let ghost ordered = sorted@;
    let mut out: Vec<String> = Vec::new();
    for x in it: sorted
        invariant
            it.seq() == ordered,
            out@.len() == it.index(),
            forall|k: int| 0 <= k < out@.len() ==> (#[trigger] out@[k])@ == ordered[k].path@,
    {
        out.push(x.path);
    }
    assert(texts(out@) =~= by_path(in_order(placed)));
    out
}

fn in_dir(dir: &str, names: &Vec<String>) -> (r: Vec<String>)
    ensures
        texts(r@) == texts(names@).map_values(|n: Seq<char>| joined(dir@, n)),
{
    let mut out: Vec<String> = Vec::new();
    let mut i: usize = 0;
    while i < names.len()
        invariant
            i <= names.len(),
            out@.len() == i,
            forall|k: int| 0 <= k < i ==> (#[trigger] out@[k])@ == joined(dir@, names@[k]@),
        decreases names.len() - i,
    {
        out.push(join_path(dir, &names[i]));
        i += 1;
    }
    assert(texts(out@) =~= texts(names@).map_values(|n: Seq<char>| joined(dir@, n)));
    out
}

/// The directories to list a working directory's sessions from, and whether a
/// row's own working directory has to be checked: the name was cut, or more
/// than one directory fits it.
pub fn session_dirs(projects_root: &str, cwd: &str, direct: bool, dirs: &Vec<String>) -> (r: (
    Vec<String>,
    bool,
))
    ensures
        ({
            let (name, exact) = slug(cwd@);
            if direct {
                texts(r.0@) == seq![joined(projects_root@, name)]
            } else if exact {
                r.0@.len() == 0
            } else {
                sorted_list(
                    texts(r.0@),
                    hashed(texts(dirs@), name).map_values(
                        |n: Seq<char>| joined(projects_root@, n),
                    ),
                )
            }
        }),
        r.1 == (r.0@.len() != 1 || !slug(cwd@).1),
{
    let slug = project_slug(cwd);
    let mut found: Vec<String> = Vec::new();
    if direct {
        found.push(join_path(projects_root, &slug.name));
        assert(texts(found@) =~= seq![joined(projects_root@, slug.name@)]);
    } else if !slug.exact {
        found = sort_paths(in_dir(projects_root, &hashed_names(dirs, &slug.name)));
    }
    let verify = found.len() != 1 || !slug.exact;
    (found, verify)
}

/// Whether a file's name is that of a session file.
pub open spec fn is_session_file(name: Seq<char>) -> bool {
    extension(name) is Some && lower(extension(name)->0) == "jsonl"@
}

/// Every session file among the files of a project directory, in the order of
/// paths.
pub fn session_files(project_dir: &str, files: &Vec<String>) -> (r: Vec<String>)
    ensures
        sorted_list(
            texts(r@),
            texts(files@).filter(|n: Seq<char>| is_session_file(n)).map_values(
                |n: Seq<char>| joined(project_dir@, n),
            ),
        ),
{
    let ghost all = texts(files@);
    let ghost wanted = |n: Seq<char>| is_session_file(n);
    let mut out: Vec<String> = Vec::new();
    let mut i: usize = 0;
    reveal(Seq::filter);
    assert(all.take(0) =~= Seq::empty());
    assert(texts(out@) =~= all.take(0).filter(wanted));
    while i < files.len()
        invariant
            i <= files.len(),
            all == texts(files@),
            wanted == (|n: Seq<char>| is_session_file(n)),
            texts(out@) == all.take(i as int).filter(wanted),
        decreases files.len() - i,
    {
        reveal(Seq::filter);
        assert(all.take(i + 1).drop_last() =~= all.take(i as int));
        assert(all.take(i + 1).last() == files@[i as int]@);
        let fits = match extension_of(&files[i]) {
            Some(e) => same(&lowered(&e), "jsonl"),
            None => false,
        };
        if fits {
            let ghost was = out@;
            out.push(files[i].clone());
            assert(texts(out@) =~= texts(was).push(files@[i as int]@));
        }
        i += 1;
    }
    assert(all.take(all.len() as int) =~= all);
    sort_paths(in_dir(project_dir, &out))
}

/// A row's key: the latest updated first, rows without a moment last, and then
/// by path.
pub open spec fn row_key(updated: Option<Stamp>, path: Seq<char>) -> Seq<u64> {
    (match updated {
        Some(s) => seq![
            0u64,
            (0x7fff_ffff_ffff_ffff - s.secs) as u64,
            (0xffff_ffff - s.nanos) as u64,
        ],
        None => seq![1u64],
    }) + path_key(path)
}

impl Keyed for SessionPreview {
    open spec fn key(&self) -> Seq<u64> {
        row_key(self.updated, self.path@)
    }

    fn sort_key(&self) -> (r: Vec<u64>) {
        let mut out: Vec<u64> = Vec::new();
        match self.updated {
            Some(s) => {
                out.push(0);
                let secs: i128 = 0x7fff_ffff_ffff_ffffi128 - s.secs as i128;
                out.push(secs as u64);
                out.push((0xffff_ffff - s.nanos) as u64);
                assert(out@ =~= seq![
                    0u64,
                    (0x7fff_ffff_ffff_ffff - s.secs) as u64,
                    (0xffff_ffff - s.nanos) as u64,
                ]);
            },
            None => {
                out.push(1);
                assert(out@ =~= seq![1u64]);
            },
        }
        let path = ByPath { path: self.path.clone() };
        let mut rest = path.sort_key();
        assert(rest@ == path_key(self.path@));
        out.append(&mut rest);
        assert(out@ == row_key(self.updated, self.path@));
        out
    }
}

/// The rows of the sessions recorded against a working directory, the latest
/// first.  Where the directory was found by the start of its name, rows that
/// record another working directory are dropped.
pub fn list_rows(rows: Vec<SessionPreview>, cwd: &str, verify: bool) -> (r: Vec<SessionPreview>)
    ensures
        r@ == in_order(
            rows@.filter(
                |p: SessionPreview| !verify || p.cwd is None || text_opt(p.cwd) == Some(cwd@),
            ),
        ),
{
    let ghost all = rows@;
    let ghost wanted = |p: SessionPreview|
        !verify || p.cwd is None || text_opt(p.cwd) == Some(cwd@);
    let mut out: Vec<SessionPreview> = Vec::new();
    reveal(Seq::filter);
    assert(all.take(0) =~= Seq::empty());
    assert(out@ =~= all.take(0).filter(wanted));
    for row in it: rows
        invariant
            it.seq() == all,
            wanted == (|p: SessionPreview|
                !verify || p.cwd is None || text_opt(p.cwd) == Some(cwd@)),
            out@ == all.take(it.index() as int).filter(wanted),
    {
        reveal(Seq::filter);
        let ghost done = it.index() as int;
        assert(all.take(done + 1).drop_last() =~= all.take(done));
        assert(all.take(done + 1).last() == row);
        let here = match &row.cwd {
            Some(recorded) => same(recorded, cwd),
            None => true,
        };
        if !verify || here {
            out.push(row);
        }
    }
    assert(all.take(all.len() as int) =~= all);
    sort(out)
}

} // verus!
