//! Cases and recorded turns.

use crate::claude_resume::{format_stamp, stamp_text};
use crate::claude_session::line::Stamp;
use crate::json::text_opt;
use crate::order::{text_key, Keyed};
use crate::paths::{join_path, joined};
use crate::text::{
    begins_with, blank, chars_of, debug_text, decimal, is_blank, join, join_texts, lines, number,
    quoted, slice_text, split_lines, starts_with, texts, trim, trimmed,
};
use vstd::prelude::*;
use vstd::utf8::encode_utf8;

verus! {

/// One recorded headless turn, as far as the rules read it.
#[derive(Debug, PartialEq, Eq)]
pub struct TrajectoryRecord {
    pub id: String,
    /// When the turn finished.
    pub timestamp: Stamp,
    /// The exact input handed to the turn.
    pub prompt: String,
    /// The commit before the turn; none outside a repository.
    pub git_ref: Option<String>,
    /// Whether the working tree had changes before the turn.
    pub dirty: bool,
    pub done_reason: String,
    pub model: String,
    pub mode: String,
}

/// A replayable benchmark case.
#[derive(Debug, Clone, PartialEq, Eq)]
pub struct BenchCase {
    /// A name that is safe for files and worktrees.
    pub id: String,
    pub prompt: String,
    /// The commit that the worktree is created from.
    pub base_ref: String,
    /// The command that decides: exit 0 passes.
    pub check: String,
    pub timeout_secs: u64,
    pub check_timeout_secs: u64,
    pub tags: Vec<String>,
    /// `manual` or `recorded`.
    pub source: String,
    pub created: Stamp,
    pub notes: Option<String>,
}

pub struct CaseView {
    pub id: Seq<char>,
    pub prompt: Seq<char>,
    pub base_ref: Seq<char>,
    pub check: Seq<char>,
    pub timeout_secs: u64,
    pub check_timeout_secs: u64,
    pub tags: Seq<Seq<char>>,
    pub source: Seq<char>,
    pub created: Stamp,
    pub notes: Option<Seq<char>>,
}

impl View for BenchCase {
    type V = CaseView;

    open spec fn view(&self) -> CaseView {
        CaseView {
            id: self.id@,
            prompt: self.prompt@,
            base_ref: self.base_ref@,
            check: self.check@,
            timeout_secs: self.timeout_secs,
            check_timeout_secs: self.check_timeout_secs,
            tags: texts(self.tags@),
            source: self.source@,
            created: self.created,
            notes: text_opt(self.notes),
        }
    }
}

impl Keyed for BenchCase {
    open spec fn key(&self) -> Seq<u64> {
        text_key(self.id@)
    }

    fn sort_key(&self) -> (r: Vec<u64>) {
        let r = self.id.sort_key();
        assert(self.id.key() == text_key(self.id@));
        r
    }
}

/// The directory of the cases under a root.
pub fn cases_dir(root: &str) -> (r: String)
    ensures
        r@ == joined(joined(joined(root@, ".wizard"@), "bench"@), "cases"@),
{
    join_path(&join_path(&join_path(root, ".wizard"), "bench"), "cases")
}

/// The directory of the results under a root.
pub fn results_dir(root: &str) -> (r: String)
    ensures
        r@ == joined(joined(joined(root@, ".wizard"@), "bench"@), "results"@),
{
    join_path(&join_path(&join_path(root, ".wizard"), "bench"), "results")
}

/// The recorded turns under a root.
pub fn trajectories_path(root: &str) -> (r: String)
    ensures
        r@ == joined(joined(root@, ".wizard"@), "trajectories.jsonl"@),
{
    join_path(&join_path(root, ".wizard"), "trajectories.jsonl")
}

/// Whether a character may stand in a case's id.
pub open spec fn id_char(c: char) -> bool {
    ||| ('a' <= c && c <= 'z')
    ||| ('A' <= c && c <= 'Z')
    ||| ('0' <= c && c <= '9')
    ||| c == '_'
    ||| c == '-'
}

/// Whether a text is a case's id: something, of a path-safe alphabet.
pub open spec fn is_case_id(id: Seq<char>) -> bool {
    id.len() > 0 && forall|i: int| 0 <= i < id.len() ==> id_char(#[trigger] id[i])
}

/// Why a text is no case's id, if it is none.
pub open spec fn id_refusal(id: Seq<char>) -> Option<Seq<char>> {
    if is_case_id(id) {
        None
    } else {
        Some(
            "invalid case id "@ + debug_text(id)
                + ": only [a-zA-Z0-9_-] is allowed (case ids become file and worktree names)"@,
        )
    }
}

/// What a check gives: success, or why it refuses.
pub open spec fn refusal(r: Result<(), String>) -> Option<Seq<char>> {
    match r {
        Ok(_) => None,
        Err(e) => Some(e@),
    }
}

/// Check that a text can name a case.
pub fn validate_case_id(id: &str) -> (r: Result<(), String>)
    ensures
        refusal(r) == id_refusal(id@),
{
    let cs = chars_of(id);
    let mut fits = cs.len() > 0;
    let mut i: usize = 0;
    while i < cs.len()
        invariant
            i <= cs.len(),
            fits == (cs@.len() > 0 && forall|k: int| 0 <= k < i ==> id_char(#[trigger] cs@[k])),
        decreases cs.len() - i,
    {
        let c = cs[i];
        if !(('a' <= c && c <= 'z') || ('A' <= c && c <= 'Z') || ('0' <= c && c <= '9') || c == '_'
            || c == '-') {
            fits = false;
        }
        i += 1;
    }
    if fits {
        Ok(())
    } else {
        let mut m = "invalid case id ".to_string();
        m.append(&quoted(id));
        m.append(": only [a-zA-Z0-9_-] is allowed (case ids become file and worktree names)");
        Err(m)
    }
}

/// The file of a case under a root.
pub fn case_path(root: &str, id: &str) -> (r: String)
    ensures
        r@ == joined(
            joined(joined(joined(root@, ".wizard"@), "bench"@), "cases"@),
            id@ + ".toml"@,
        ),
{
    let mut name = id.to_string();
    name.append(".toml");
    join_path(&cases_dir(root), &name)
}

/// Whether a new case may be written: its id is one, and its file is not there.
pub fn may_write_case(id: &str, path: &str, exists: bool) -> (r: Result<(), String>)
    ensures
        refusal(r) == match id_refusal(id@) {
            Some(e) => Some(e),
            None => if exists {
                Some("case '"@ + id@ + "' already exists at "@ + path@)
            } else {
                None
            },
        },
{
    match validate_case_id(id) {
        Err(e) => Err(e),
        Ok(_) => {
            if exists {
                let mut m = "case '".to_string();
                m.append(id);
                m.append("' already exists at ");
                m.append(path);
                Err(m)
            } else {
                Ok(())
            }
        },
    }
}

/// A case written by hand.
pub fn manual_case(
    id: String,
    prompt: String,
    base_ref: String,
    check: String,
    timeout_secs: u64,
    check_timeout_secs: u64,
    tags: Vec<String>,
    created: Stamp,
    notes: Option<String>,
) -> (r: BenchCase)
    ensures
        r@ == (CaseView {
            id: id@,
            prompt: prompt@,
            base_ref: base_ref@,
            check: check@,
            timeout_secs,
            check_timeout_secs,
            tags: texts(tags@),
            source: "manual"@,
            created,
            notes: text_opt(notes),
        }),
{
    BenchCase {
        id,
        prompt,
        base_ref,
        check,
        timeout_secs,
        check_timeout_secs,
        tags,
        source: "manual".to_string(),
        created,
        notes,
    }
}

/// The places of the records whose id starts with a text.
pub open spec fn found(records: Seq<TrajectoryRecord>, prefix: Seq<char>) -> Seq<int>
    decreases records.len(),
{
    if records.len() == 0 {
        Seq::empty()
    } else {
        let init = found(records.drop_last(), prefix);
        if starts_with(records.last().id@, prefix) {
            init.push(records.len() - 1)
        } else {
            init
        }
    }
}

/// The record that a promotion takes, or why it takes none: the text must name
/// one record, made in a repository without changes.
pub open spec fn promotable(records: Seq<TrajectoryRecord>, prefix: Seq<char>) -> Result<
    int,
    Seq<char>,
> {
    let at = found(records, prefix);
    if at.len() == 0 {
        Err(
            "no recorded trajectory matches "@ + debug_text(prefix)
                + " — see `wizard bench list --trajectories`"@,
        )
    } else if at.len() > 1 {
        Err(
            decimal(at.len()) + " trajectories match "@ + debug_text(prefix)
                + " — use a longer prefix"@,
        )
    } else {
        let record = records[at[0]];
        if record.git_ref is None {
            Err(
                "trajectory "@ + record.id@
                    + " was not recorded in a git repo, so there is no base ref to replay from"@,
            )
        } else if record.dirty {
            Err(
                "trajectory "@ + record.id@
                    + ": repo was dirty when recorded; replay would not reproduce the starting state"@,
            )
        } else {
            Ok(at[0])
        }
    }
}

pub open spec fn place_view(r: Result<usize, String>) -> Result<int, Seq<char>> {
    match r {
        Ok(i) => Ok(i as int),
        Err(e) => Err(e@),
    }
}

fn find_record(records: &Vec<TrajectoryRecord>, prefix: &str) -> (r: Result<usize, String>)
    ensures
        place_view(r) == promotable(records@, prefix@),
        r matches Ok(i) ==> i < records@.len() && records@[i as int].git_ref is Some,
{
    let mut count: u64 = 0;
    let mut at: usize = 0;
    let mut i: usize = 0;
    assert(records@.take(0) =~= Seq::empty());
    while i < records.len()
        invariant
            i <= records.len(),
            count <= i,
            count > 0 ==> at < i,
            count == found(records@.take(i as int), prefix@).len(),
            count > 0 ==> at == found(records@.take(i as int), prefix@)[0],
        decreases records.len() - i,
    {
        assert(records@.take(i + 1).drop_last() =~= records@.take(i as int));
        assert(records@.take(i + 1).last() == records@[i as int]);
        if begins_with(&records[i].id, prefix) {
            if count == 0 {
                at = i;
            }
            count += 1;
        }
        i += 1;
    }
    assert(records@.take(records@.len() as int) =~= records@);
    if count == 0 {
        let mut m = "no recorded trajectory matches ".to_string();
        m.append(&quoted(prefix));
        m.append(" — see `wizard bench list --trajectories`");
        return Err(m);
    }
    if count > 1 {
        let mut m = number(count);
        m.append(" trajectories match ");
        m.append(&quoted(prefix));
        m.append(" — use a longer prefix");
        return Err(m);
    }
    let record = &records[at];
    if record.git_ref.is_none() {
        let mut m = "trajectory ".to_string();
        m.append(&record.id);
        m.append(" was not recorded in a git repo, so there is no base ref to replay from");
        return Err(m);
    }
    if record.dirty {
        let mut m = "trajectory ".to_string();
        m.append(&record.id);
        m.append(": repo was dirty when recorded; replay would not reproduce the starting state");
        return Err(m);
    }
    Ok(at)
}

/// The case that a promotion makes of a record: its id unless another is given,
/// its prompt, and its commit.
pub open spec fn promoted(
    record: TrajectoryRecord,
    check: Seq<char>,
    id: Option<Seq<char>>,
    timeout_secs: u64,
    check_timeout_secs: u64,
    tags: Seq<Seq<char>>,
    created: Stamp,
    notes: Option<Seq<char>>,
) -> CaseView {
    CaseView {
        id: match id {
            Some(x) => x,
            None => record.id@,
        },
        prompt: record.prompt@,
        base_ref: match record.git_ref {
            Some(x) => x@,
            None => Seq::empty(),
        },
        check,
        timeout_secs,
        check_timeout_secs,
        tags,
        source: "recorded"@,
        created,
        notes,
    }
}

/// Make a case of the recorded turn whose id starts with `prefix`.
pub fn promote(
    records: &Vec<TrajectoryRecord>,
    prefix: &str,
    check: String,
    id: Option<String>,
    timeout_secs: u64,
    check_timeout_secs: u64,
    tags: Vec<String>,
    created: Stamp,
    notes: Option<String>,
) -> (r: Result<BenchCase, String>)
    ensures
        match promotable(records@, prefix@) {
            Ok(at) => r is Ok && r->Ok_0@ == promoted(
                records@[at],
                check@,
                text_opt(id),
                timeout_secs,
                check_timeout_secs,
                texts(tags@),
                created,
                text_opt(notes),
            ),
            Err(e) => r is Err && r->Err_0@ == e,
        },
{
    let at = match find_record(records, prefix) {
        Ok(at) => at,
        Err(e) => {
            return Err(e);
        },
    };
    let record = &records[at];
    let id = match id {
        Some(x) => x,
        None => record.id.clone(),
    };
    let base_ref = match &record.git_ref {
        Some(x) => x.clone(),
        None => {
            let s = String::new();
            assert(s@ =~= Seq::empty());
            s
        },
    };
    Ok(
        BenchCase {
            id,
            prompt: record.prompt.clone(),
            base_ref,
            check,
            timeout_secs,
            check_timeout_secs,
            tags,
            source: "recorded".to_string(),
            created,
            notes,
        },
    )
}

/// The lines of a log of records that hold something, trimmed.
pub open spec fn kept_lines(ls: Seq<Seq<char>>) -> Seq<Seq<char>>
    decreases ls.len(),
{
    if ls.len() == 0 {
        Seq::empty()
    } else {
        let init = kept_lines(ls.drop_last());
        if is_blank(ls.last()) {
            init
        } else {
            init.push(trim(ls.last()))
        }
    }
}

/// The lines of a log of records that hold something, trimmed.
pub fn record_lines(text: &str) -> (r: Vec<String>)
    ensures
        texts(r@) == kept_lines(lines(text@)),
{
    let all = split_lines(text);
    let ghost ls = texts(all@);
    let mut out: Vec<String> = Vec::new();
    let mut i: usize = 0;
    assert(ls.take(0) =~= Seq::empty());
    assert(texts(out@) =~= Seq::empty());
    while i < all.len()
        invariant
            i <= all.len(),
            ls == texts(all@),
            texts(out@) == kept_lines(ls.take(i as int)),
        decreases all.len() - i,
    {
        assert(ls.take(i + 1).drop_last() =~= ls.take(i as int));
        assert(ls.take(i + 1).last() == all@[i as int]@);
        if !blank(&all[i]) {
            let ghost was = out@;
            out.push(trimmed(&all[i]));
            assert(texts(out@) =~= texts(was).push(trim(all@[i as int]@)));
        }
        i += 1;
    }
    assert(ls.take(ls.len() as int) =~= ls);
    out
}

/// A text of at most `max` characters, a cut marked by an ellipsis.
pub open spec fn cut(s: Seq<char>, max: nat) -> Seq<char> {
    if s.len() <= max {
        s
    } else if max == 0 {
        Seq::empty()
    } else {
        s.take(max - 1).push('…')
    }
}

/// Truncate to at most `max` characters, marking the cut.
pub fn truncate(s: &str, max: usize) -> (r: String)
    ensures
        r@ == cut(s@, max as nat),
        r@.len() <= max,
{
    let cs = chars_of(s);
    if cs.len() <= max {
        return s.to_string();
    }
    if max == 0 {
        let out = String::new();
        assert(out@ =~= Seq::empty());
        return out;
    }
    let mut out = slice_text(&cs, 0, max - 1);
    assert(out@ =~= s@.take(max - 1));
    out.push('…');
    out
}

/// Blanks.
pub open spec fn blanks(n: nat) -> Seq<char> {
    Seq::new(n, |i: int| ' ')
}

/// A text on the left of a number of columns.
pub open spec fn left_in(s: Seq<char>, width: nat) -> Seq<char> {
    if s.len() >= width {
        s
    } else {
        s + blanks((width - s.len()) as nat)
    }
}

/// A text padded on the right.
pub fn pad_to(s: &str, width: usize) -> (r: String)
    ensures
        r@ == left_in(s@, width as nat),
{
    let len = chars_of(s).len();
    let mut out = s.to_string();
    if len >= width {
        return out;
    }
    let mut n: usize = 0;
    assert(s@ + blanks(0) =~= s@);
    while n < width - len
        invariant
            len == s@.len(),
            n <= width - len,
            len < width,
            out@ == s@ + blanks(n as nat),
        decreases width - len - n,
    {
        out.push(' ');
        assert(out@ =~= s@ + blanks((n + 1) as nat));
        n += 1;
    }
    out
}

/// The first eight characters.
pub open spec fn short(s: Seq<char>) -> Seq<char> {
    if s.len() > 8 {
        s.take(8)
    } else {
        s
    }
}

fn shorten(s: &str) -> (r: String)
    ensures
        r@ == short(s@),
{
    let cs = chars_of(s);
    if cs.len() > 8 {
        let out = slice_text(&cs, 0, 8);
        assert(out@ =~= s@.take(8));
        out
    } else {
        s.to_string()
    }
}

/// The longest id, in bytes.
pub open spec fn widest(ids: Seq<Seq<char>>) -> nat
    decreases ids.len(),
{
    if ids.len() == 0 {
        0
    } else {
        let before = widest(ids.drop_last());
        let n = encode_utf8(ids.last()).len();
        if n > before {
            n
        } else {
            before
        }
    }
}

pub open spec fn ids_of(cases: Seq<BenchCase>) -> Seq<Seq<char>> {
    cases.map_values(|c: BenchCase| c.id@)
}

/// The longest of the cases' ids, in bytes.
pub fn id_width(cases: &Vec<BenchCase>) -> (r: usize)
    ensures
        r == widest(ids_of(cases@)),
{
    let ghost ids = ids_of(cases@);
    let mut max: usize = 0;
    let mut i: usize = 0;
    assert(ids.take(0) =~= Seq::empty());
    while i < cases.len()
        invariant
            i <= cases.len(),
            ids == ids_of(cases@),
            max == widest(ids.take(i as int)),
        decreases cases.len() - i,
    {
        assert(ids.take(i + 1).drop_last() =~= ids.take(i as int));
        assert(ids.take(i + 1).last() == cases@[i as int].id@);
        let n = cases[i].id.as_str().as_bytes().len();
        if n > max {
            max = n;
        }
        i += 1;
    }
    assert(ids.take(ids.len() as int) =~= ids);
    max
}

/// A case's row in the listing.
pub open spec fn case_row(c: CaseView, width: nat) -> Seq<char> {
    left_in(c.id, width) + "  "@ + left_in(short(c.base_ref), 8) + "  "@ + left_in(c.source, 8)
        + "  "@ + left_in(cut(c.check, 40), 40) + "  "@ + join(c.tags, ","@)
}

/// A case's row in the listing, its id padded to `width`.
pub fn list_case(c: &BenchCase, width: usize) -> (r: String)
    ensures
        r@ == case_row(c@, width as nat),
{
    let mut m = pad_to(&c.id, width);
    m.append("  ");
    m.append(&pad_to(&shorten(&c.base_ref), 8));
    m.append("  ");
    m.append(&pad_to(&c.source, 8));
    m.append("  ");
    m.append(&pad_to(&truncate(&c.check, 40), 40));
    m.append("  ");
    m.append(&join_texts(&c.tags, ","));
    m
}

/// A recorded turn's row in the listing.
pub open spec fn record_row(t: TrajectoryRecord, stamp: Seq<char>) -> Seq<char> {
    short(t.id@) + "  "@ + stamp + "  "@ + left_in(t.done_reason@, 14) + "  "@ + (if t.dirty {
        "dirty"@
    } else {
        "clean"@
    }) + "  "@ + cut(t.prompt@, 60)
}

/// The text of a moment, to the second; nothing for one that has none.
pub open spec fn second_text(s: Stamp) -> Seq<char> {
    match stamp_text(s.secs, s.nanos, "%Y-%m-%d %H:%M:%S"@) {
        Some(t) => t,
        None => Seq::empty(),
    }
}

/// A recorded turn's row in the listing.
pub fn list_record(t: &TrajectoryRecord) -> (r: String)
    ensures
        r@ == record_row(*t, second_text(t.timestamp)),
{
    let stamp = match format_stamp(t.timestamp.secs, t.timestamp.nanos, "%Y-%m-%d %H:%M:%S") {
        Some(s) => s,
        None => {
            let s = String::new();
            assert(s@ =~= Seq::empty());
            s
        },
    };
    let mut m = shorten(&t.id);
    m.append("  ");
    m.append(&stamp);
    m.append("  ");
    m.append(&pad_to(&t.done_reason, 14));
    m.append("  ");
    m.append(
        if t.dirty {
            "dirty"
        } else {
            "clean"
        },
    );
    m.append("  ");
    m.append(&truncate(&t.prompt, 60));
    m
}

/// The places of the recorded turns that a listing shows: the last twenty, the
/// latest first.
pub fn listed_records(count: usize) -> (r: Vec<usize>)
    ensures
        r@.len() == (if count < 20 {
            count as int
        } else {
            20
        }),
        forall|k: int| 0 <= k < r@.len() ==> r@[k] == count - 1 - k,
{
    let mut out: Vec<usize> = Vec::new();
    while out.len() < 20 && out.len() < count
        invariant
            out@.len() <= 20,
            out@.len() <= count,
            forall|k: int| 0 <= k < out@.len() ==> out@[k] == count - 1 - k,
        decreases count - out.len(),
    {
        out.push(count - 1 - out.len());
    }
    out
}

/// Whether a turn is recorded: not those of replays and fleet workers.
pub fn is_recorded(in_bench: bool, in_fleet: bool) -> (r: bool)
    ensures
        r == (!in_bench && !in_fleet),
{
    !in_bench && !in_fleet
}

/// The record of a finished turn; `head` is the commit before it and whether
/// there were changes, inside a repository.
pub fn record(
    id: String,
    timestamp: Stamp,
    prompt: &str,
    head: Option<(String, bool)>,
    done_reason: &str,
    model: &str,
    mode: &str,
) -> (r: TrajectoryRecord)
    ensures
        r.id == id,
        r.timestamp == timestamp,
        r.prompt@ == prompt@,
        match head {
            Some(h) => r.git_ref == Some(h.0) && r.dirty == h.1,
            None => r.git_ref is None && !r.dirty,
        },
        r.done_reason@ == done_reason@,
        r.model@ == model@,
        r.mode@ == mode@,
{
    let (git_ref, dirty) = match head {
        Some((sha, dirty)) => (Some(sha), dirty),
        None => (None, false),
    };
    TrajectoryRecord {
        id,
        timestamp,
        prompt: prompt.to_string(),
        git_ref,
        dirty,
        done_reason: done_reason.to_string(),
        model: model.to_string(),
        mode: mode.to_string(),
    }
}

/// What a git command printed and whether it succeeded.
pub struct GitOutput {
    pub success: bool,
    pub stdout: String,
    pub stderr: String,
}

/// The commit and whether there were changes, from git's answers; none when a
/// command could not run or failed.
pub fn head_and_dirty(head: Option<GitOutput>, status: Option<GitOutput>) -> (r: Option<
    (String, bool),
>)
    ensures
        match (head, status) {
            (Some(h), Some(s)) => if h.success && s.success {
                r matches Some(p) && p.0@ == trim(h.stdout@) && p.1 == !is_blank(s.stdout@)
            } else {
                r is None
            },
            _ => r is None,
        },
{
    match (head, status) {
        (Some(h), Some(s)) => {
            if h.success && s.success {
                Some((trimmed(&h.stdout), !blank(&s.stdout)))
            } else {
                None
            }
        },
        _ => None,
    }
}

/// The commit that git resolved a ref to, or why it did not.
pub fn resolved_ref(repo: &str, name: &str, out: &GitOutput) -> (r: Result<String, String>)
    ensures
        match r {
            Ok(sha) => out.success && sha@ == trim(out.stdout@),
            Err(e) => !out.success && e@ == "git rev-parse --verify "@ + debug_text(name@)
                + " failed in "@ + repo@ + ": "@ + trim(out.stderr@),
        },
{
    if out.success {
        return Ok(trimmed(&out.stdout));
    }
    let mut m = "git rev-parse --verify ".to_string();
    m.append(&quoted(name));
    m.append(" failed in ");
    m.append(repo);
    m.append(": ");
    m.append(&trimmed(&out.stderr));
    Err(m)
}

/// Whether git added a worktree, or why it did not.
pub fn worktree_added(dest: &str, name: &str, out: &GitOutput) -> (r: Result<(), String>)
    ensures
        refusal(r) == (if out.success {
            None
        } else {
            Some(
                "git worktree add "@ + dest@ + " "@ + name@ + " failed: "@ + trim(out.stderr@),
            )
        }),
{
    if out.success {
        return Ok(());
    }
    let mut m = "git worktree add ".to_string();
    m.append(dest);
    m.append(" ");
    m.append(name);
    m.append(" failed: ");
    m.append(&trimmed(&out.stderr));
    Err(m)
}

} // verus!
