//! Per-file copy-on-write checkpoints: which before-states a turn keeps, and
//! which files a rewind puts back.
//!
//! The store lives under `<project>/.wizard/checkpoints`: `index.jsonl` holds
//! one [`SnapshotRecord`] per line, in execution order, and `<turn>/<n>.snap`
//! the copied contents.  The store decides; copying and deleting is the
//! caller's.

use crate::json::{json_of, json_skips, parse_json, skips_json, Json, JsonView};
use crate::members::{
    field_names, names_read, only, only_fields, reads_names, repeats, repeats_a_field, spread,
    spread_fields,
};
use crate::order::{is_same_path, path_key, same_path};
use crate::paths::{join_path, joined};
use crate::text::{blank, decimal, is_blank, lines, number, split_lines, texts};
use vstd::prelude::*;

verus! {

/// One line of the index: a before-state captured for one file in one turn.
#[derive(Debug, PartialEq, Eq)]
pub struct SnapshotRecord {
    /// Turn the snapshot belongs to.
    pub turn: u64,
    /// Tool whose call triggered the snapshot.
    pub tool: String,
    /// The target file.
    pub path: String,
    /// The copy, relative to the store; empty when there was no file.
    pub snap: String,
    /// False when the tool was about to create the file.
    pub existed_before: bool,
}

#[verifier::ext_equal]
pub struct RecordView {
    pub turn: u64,
    pub tool: Seq<char>,
    pub path: Seq<char>,
    pub snap: Seq<char>,
    pub existed_before: bool,
}

impl View for SnapshotRecord {
    type V = RecordView;

    open spec fn view(&self) -> RecordView {
        RecordView {
            turn: self.turn,
            tool: self.tool@,
            path: self.path@,
            snap: self.snap@,
            existed_before: self.existed_before,
        }
    }
}

impl SnapshotRecord {
    fn copy(&self) -> (r: SnapshotRecord)
        ensures
            r@ == self@,
    {
        SnapshotRecord {
            turn: self.turn,
            tool: self.tool.clone(),
            path: self.path.clone(),
            snap: self.snap.clone(),
            existed_before: self.existed_before,
        }
    }
}

pub open spec fn records_view(r: Seq<SnapshotRecord>) -> Seq<RecordView> {
    r.map_values(|x: SnapshotRecord| x@)
}

/// A turn and the files it snapshotted.
#[derive(Debug, PartialEq, Eq)]
pub struct TurnFiles {
    pub turn: u64,
    pub files: Vec<String>,
}

/// The record that a JSON value writes down, if it does.
pub open spec fn decoded(j: JsonView) -> Option<RecordView> {
    match (
        j.field("turn"@),
        j.field_text("tool"@),
        j.field_text("path"@),
        j.field_text("snap"@),
        j.field("existed_before"@),
    ) {
        (
            Some(JsonView::Number(Some(turn), _)),
            Some(tool),
            Some(path),
            Some(snap),
            Some(JsonView::Bool(existed_before)),
        ) => Some(RecordView { turn, tool, path, snap, existed_before }),
        _ => None,
    }
}

/// The fields of a record, in their order.
pub open spec fn record_fields() -> Seq<Seq<char>> {
    seq!["turn"@, "tool"@, "path"@, "snap"@, "existed_before"@]
}

fn record_field_names() -> (r: Vec<&'static str>)
    ensures
        field_names(r@) == record_fields(),
{
    let r: Vec<&'static str> = vec!["turn", "tool", "path", "snap", "existed_before"];
    assert(field_names(r@) =~= record_fields());
    r
}

fn decode(j: &Json) -> (r: Option<SnapshotRecord>)
    ensures
        r is Some <==> decoded(j@) is Some,
        r matches Some(v) ==> v@ == decoded(j@)->0,
{
    let turn = match j.get("turn") {
        Some(Json::Number(Some(n), _)) => *n,
        _ => {
            return None;
        },
    };
    let existed_before = match j.get("existed_before") {
        Some(Json::Bool(b)) => *b,
        _ => {
            return None;
        },
    };
    match (j.get_text("tool"), j.get_text("path"), j.get_text("snap")) {
        (Some(tool), Some(path), Some(snap)) => Some(
            SnapshotRecord {
                turn,
                tool: tool.clone(),
                path: path.clone(),
                snap: snap.clone(),
                existed_before,
            },
        ),
        _ => None,
    }
}

/// The record on one line of the index; none on a blank or a corrupt line.  A
/// line that gives a field twice is corrupt; what stands beside the fields is
/// read past.
pub open spec fn on_line(line: Seq<char>) -> Option<RecordView> {
    if is_blank(line) || !json_skips(line) || !names_read(line) || repeats(
        line,
        record_fields(),
    ) {
        None
    } else {
        match json_of(only(line, record_fields())) {
            Some(j) => decoded(spread(j, record_fields())),
            None => None,
        }
    }
}

/// The readable records of an index, in its order.
pub open spec fn on_lines(index: Seq<Seq<char>>) -> Seq<RecordView>
    decreases index.len(),
{
    if index.len() == 0 {
        Seq::empty()
    } else {
        let init = on_lines(index.drop_last());
        match on_line(index.last()) {
            Some(r) => init.push(r),
            None => init,
        }
    }
}

/// The readable records of an index's text.
pub open spec fn recorded(index: Seq<char>) -> Seq<RecordView> {
    on_lines(lines(index))
}

/// Load all readable records of an index; corrupt lines are skipped.
pub fn read_index(index: &str) -> (r: Vec<SnapshotRecord>)
    ensures
        records_view(r@) == recorded(index@),
{
    let all = split_lines(index);
    let fields = record_field_names();
    let ghost ls = texts(all@);
    let mut out: Vec<SnapshotRecord> = Vec::new();
    let mut i: usize = 0;
    assert(ls.take(0) =~= Seq::empty());
    assert(records_view(out@) =~= Seq::empty());
    while i < all.len()
        invariant
            i <= all.len(),
            ls == texts(all@),
            field_names(fields@) == record_fields(),
            records_view(out@) == on_lines(ls.take(i as int)),
        decreases all.len() - i,
    {
        assert(ls.take(i + 1).drop_last() =~= ls.take(i as int));
        assert(ls.take(i + 1).last() == all@[i as int]@);
        if !blank(&all[i]) && skips_json(&all[i]) && reads_names(&all[i]) && !repeats_a_field(
            &all[i],
            &fields,
        ) {
            if let Some(j) = parse_json(&only_fields(&all[i], &fields)) {
                if let Some(record) = decode(&spread_fields(j, &fields)) {
                    let ghost was = out@;
                    out.push(record);
                    assert(records_view(out@) =~= records_view(was).push(record@));
                }
            }
        }
        i += 1;
    }
    assert(ls.take(ls.len() as int) =~= ls);
    out
}

/// Which turns a rewind undoes.
#[derive(Debug, Clone, Copy, PartialEq, Eq, Structural)]
pub enum Rewind {
    /// One turn.
    Only(u64),
    /// A turn and every later one.
    From(u64),
}

impl Rewind {
    pub open spec fn undoes(self, turn: u64) -> bool {
        match self {
            Rewind::Only(t) => turn == t,
            Rewind::From(t) => turn >= t,
        }
    }

    fn matches(&self, turn: u64) -> (r: bool)
        ensures
            r == self.undoes(turn),
    {
        match self {
            Rewind::Only(t) => turn == *t,
            Rewind::From(t) => turn >= *t,
        }
    }
}

/// Whether a record of some list is of the path `p`.
pub open spec fn has_path(records: Seq<RecordView>, p: Seq<char>) -> bool {
    exists|i: int| 0 <= i < records.len() && same_path((#[trigger] records[i]).path, p)
}

/// The first record of each path among those of the turns undone: the index is
/// in execution order, so it holds the path's earliest before-state.
pub open spec fn earliest(records: Seq<RecordView>, rewind: Rewind) -> Seq<RecordView>
    decreases records.len(),
{
    if records.len() == 0 {
        Seq::empty()
    } else {
        let init = earliest(records.drop_last(), rewind);
        let r = records.last();
        if rewind.undoes(r.turn) && !has_path(init, r.path) {
            init.push(r)
        } else {
            init
        }
    }
}

/// The records of the turns that stay.
pub open spec fn left(records: Seq<RecordView>, rewind: Rewind) -> Seq<RecordView> {
    records.filter(|r: RecordView| !rewind.undoes(r.turn))
}

/// One file put back.
#[derive(Debug, PartialEq, Eq)]
pub enum Step {
    /// Copy the stored `snap` over `path`.
    Copy { snap: String, path: String },
    /// Delete `path`, if it is there.
    Delete { path: String },
}

pub enum StepView {
    Copy { snap: Seq<char>, path: Seq<char> },
    Delete { path: Seq<char> },
}

impl View for Step {
    type V = StepView;

    open spec fn view(&self) -> StepView {
        match self {
            Step::Copy { snap, path } => StepView::Copy { snap: snap@, path: path@ },
            Step::Delete { path } => StepView::Delete { path: path@ },
        }
    }
}

pub open spec fn steps_view(s: Seq<Step>) -> Seq<StepView> {
    s.map_values(|x: Step| x@)
}

/// How a record's before-state is put back.
pub open spec fn undo(r: RecordView) -> StepView {
    if r.existed_before {
        StepView::Copy { snap: r.snap, path: r.path }
    } else {
        StepView::Delete { path: r.path }
    }
}

/// Whether `turns` lists in ascending order each turn of `records` that `undone`
/// holds of, once.
pub open spec fn lists_turns(
    turns: Seq<u64>,
    records: Seq<RecordView>,
    undone: spec_fn(u64) -> bool,
) -> bool {
    &&& forall|i: int, j: int| 0 <= i < j < turns.len() ==> turns[i] < turns[j]
    &&& forall|t: u64| #[trigger]
        turns.contains(t) <==> undone(t) && exists|k: int|
            0 <= k < records.len() && (#[trigger] records[k]).turn == t
}

/// Whether `paths` lists the paths of `records` in the order of paths, each
/// once.
pub open spec fn lists_paths(paths: Seq<Seq<char>>, records: Seq<RecordView>) -> bool {
    &&& paths.len() == records.len()
    &&& crate::order::ascending(paths.map_values(|p: Seq<char>| path_key(p)))
    &&& forall|p: Seq<char>| #[trigger]
        paths.contains(p) <==> exists|k: int|
            0 <= k < records.len() && (#[trigger] records[k]).path == p
}

/// What a rewind does: the files to put back, their paths in order, the records
/// that the index keeps, and the turns whose copies go.
#[derive(Debug, PartialEq, Eq)]
pub struct Restore {
    pub rewind: Rewind,
    pub steps: Vec<Step>,
    pub restored: Vec<String>,
    pub keep: Vec<SnapshotRecord>,
    pub dropped: Vec<u64>,
}

/// What a collection drops: the records that the index keeps, and the turns
/// whose copies go.
#[derive(Debug, PartialEq, Eq)]
pub struct Collected {
    pub keep: Vec<SnapshotRecord>,
    pub dropped: Vec<u64>,
}

/// Put a turn in its place in an ascending list, unless it is there.
fn add_turn(turns: &mut Vec<u64>, t: u64)
    requires
        forall|i: int, j: int| 0 <= i < j < old(turns)@.len() ==> old(turns)@[i] < old(turns)@[j],
    ensures
        forall|i: int, j: int|
            0 <= i < j < final(turns)@.len() ==> final(turns)@[i] < final(turns)@[j],
        forall|x: u64| #[trigger]
            final(turns)@.contains(x) <==> old(turns)@.contains(x) || x == t,
{
    let mut i: usize = 0;
    while i < turns.len() && turns[i] < t
        invariant
            i <= turns.len(),
            turns@ == old(turns)@,
            forall|j: int| 0 <= j < i ==> turns@[j] < t,
        decreases turns.len() - i,
    {
        i += 1;
    }
    if i < turns.len() && turns[i] == t {
        assert(turns@[i as int] == t);
        return ;
    }
    let ghost was = turns@;
    turns.insert(i, t);
    proof {
        assert(turns@[i as int] == t);
        assert forall|x: u64| #[trigger]
            turns@.contains(x) <==> was.contains(x) || x == t by {
            if was.contains(x) {
                let k = was.index_of(x);
                assert(turns@[if k < i { k } else { k + 1 }] == x);
            }
            if turns@.contains(x) && x != t {
                let k = turns@.index_of(x);
                assert(was[if k < i { k } else { k - 1 }] == x);
            }
        }
    }
}

/// The turns of `records` that a rewind undoes (all turns, without one).
fn turns_of(records: &Vec<SnapshotRecord>, rewind: Option<Rewind>) -> (r: Vec<u64>)
    ensures
        lists_turns(
            r@,
            records_view(records@),
            |t: u64| rewind is None || rewind->0.undoes(t),
        ),
{
    let ghost all = records_view(records@);
    let ghost undone = |t: u64| rewind is None || rewind->0.undoes(t);
    let mut out: Vec<u64> = Vec::new();
    let mut i: usize = 0;
    while i < records.len()
        invariant
            i <= records.len(),
            all == records_view(records@),
            undone == (|t: u64| rewind is None || rewind->0.undoes(t)),
            lists_turns(out@, all.take(i as int), undone),
        decreases records.len() - i,
    {
        let turn = records[i].turn;
        let wanted = match &rewind {
            Some(w) => w.matches(turn),
            None => true,
        };
        let ghost was = out@;
        if wanted {
            add_turn(&mut out, turn);
        }
        proof {
            let shorter = all.take(i as int);
            let longer = all.take(i + 1);
            assert(longer[i as int].turn == turn);
            assert forall|t: u64| #[trigger]
                out@.contains(t) <==> undone(t) && exists|k: int|
                    0 <= k < longer.len() && (#[trigger] longer[k]).turn == t by {
                if undone(t) && was.contains(t) {
                    let k = choose|k: int| 0 <= k < shorter.len() && (#[trigger] shorter[k]).turn
                        == t;
                    assert(longer[k].turn == t);
                }
                if exists|k: int| 0 <= k < longer.len() && (#[trigger] longer[k]).turn == t {
                    let k = choose|k: int| 0 <= k < longer.len() && (#[trigger] longer[k]).turn
                        == t;
                    if k < i {
                        assert(shorter[k].turn == t);
                    }
                }
            }
        }
        i += 1;
    }
    assert(all.take(all.len() as int) =~= all);
    out
}

fn holds_path(records: &Vec<SnapshotRecord>, p: &str) -> (r: bool)
    ensures
        r == has_path(records_view(records@), p@),
{
    let mut i: usize = 0;
    while i < records.len()
        invariant
            i <= records.len(),
            forall|j: int|
                0 <= j < i ==> !same_path((#[trigger] records_view(records@)[j]).path, p@),
        decreases records.len() - i,
    {
        assert(records_view(records@)[i as int].path == records@[i as int].path@);
        if is_same_path(&records[i].path, p) {
            return true;
        }
        i += 1;
    }
    false
}

fn pick(records: &Vec<SnapshotRecord>, rewind: Rewind) -> (r: Vec<SnapshotRecord>)
    ensures
        records_view(r@) == earliest(records_view(records@), rewind),
{
    let ghost all = records_view(records@);
    let mut out: Vec<SnapshotRecord> = Vec::new();
    let mut i: usize = 0;
    assert(all.take(0) =~= Seq::empty());
    assert(records_view(out@) =~= Seq::empty());
    while i < records.len()
        invariant
            i <= records.len(),
            all == records_view(records@),
            records_view(out@) == earliest(all.take(i as int), rewind),
        decreases records.len() - i,
    {
        assert(all.take(i + 1).drop_last() =~= all.take(i as int));
        assert(all.take(i + 1).last() == records@[i as int]@);
        if rewind.matches(records[i].turn) && !holds_path(&out, &records[i].path) {
            let ghost was = out@;
            out.push(records[i].copy());
            assert(records_view(out@) =~= records_view(was).push(records@[i as int]@));
        }
        i += 1;
    }
    assert(all.take(all.len() as int) =~= all);
    out
}

/// The paths picked are different paths.
proof fn lemma_earliest_distinct(records: Seq<RecordView>, rewind: Rewind)
    ensures
        forall|i: int, j: int|
            0 <= i < j < earliest(records, rewind).len() ==> !same_path(
                (#[trigger] earliest(records, rewind)[i]).path,
                (#[trigger] earliest(records, rewind)[j]).path,
            ),
    decreases records.len(),
{
    if records.len() > 0 {
        lemma_earliest_distinct(records.drop_last(), rewind);
        let init = earliest(records.drop_last(), rewind);
        let e = earliest(records, rewind);
        assert forall|i: int, j: int| 0 <= i < j < e.len() implies !same_path(
            (#[trigger] e[i]).path,
            (#[trigger] e[j]).path,
        ) by {
            assert(e[i] == init[i]);
            if j < init.len() {
                assert(e[j] == init[j]);
            } else {
                assert(e[j] == records.last());
            }
        }
    }
}

fn undo_steps(picked: &Vec<SnapshotRecord>) -> (r: Vec<Step>)
    ensures
        steps_view(r@) == records_view(picked@).map_values(|x: RecordView| undo(x)),
{
    let mut out: Vec<Step> = Vec::new();
    let mut i: usize = 0;
    while i < picked.len()
        invariant
            i <= picked.len(),
            out@.len() == i,
            forall|j: int| 0 <= j < i ==> (#[trigger] out@[j])@ == undo(picked@[j]@),
        decreases picked.len() - i,
    {
        let r = &picked[i];
        if r.existed_before {
            out.push(Step::Copy { snap: r.snap.clone(), path: r.path.clone() });
        } else {
            out.push(Step::Delete { path: r.path.clone() });
        }
        i += 1;
    }
    assert(steps_view(out@) =~= records_view(picked@).map_values(|x: RecordView| undo(x)));
    out
}

/// The paths of a sorted list.
spec fn paths_in(s: Seq<crate::order::ByPath>) -> Seq<Seq<char>> {
    s.map_values(|x: crate::order::ByPath| x.path@)
}

/// An insertion adds one path to a list.
proof fn lemma_inserted(was: Seq<crate::order::ByPath>, at: int, x: crate::order::ByPath)
    requires
        0 <= at <= was.len(),
    ensures
        forall|p: Seq<char>| #[trigger]
            paths_in(was.insert(at, x)).contains(p) <==> paths_in(was).contains(p) || p == x.path@,
{
    let now = paths_in(was.insert(at, x));
    let then = paths_in(was);
    assert forall|p: Seq<char>| #[trigger]
        now.contains(p) <==> then.contains(p) || p == x.path@ by {
        assert(now[at] == x.path@);
        if then.contains(p) {
            let m = then.index_of(p);
            assert(now[if m < at { m } else { m + 1 }] == p);
        }
        if now.contains(p) && p != x.path@ {
            let m = now.index_of(p);
            assert(then[if m < at { m } else { m - 1 }] == p);
        }
    }
}

/// Put the next path of different paths in its place.
fn sort_in(sorted: &mut Vec<crate::order::ByPath>, picked: &Vec<SnapshotRecord>, i: usize)
    requires
        i < picked.len(),
        forall|k: int| 0 <= k < i ==> !same_path((#[trigger] picked@[k]).path@, picked@[i as int].path@),
        crate::order::ascending(crate::order::keys_of(old(sorted)@)),
        forall|p: Seq<char>| #[trigger]
            paths_in(old(sorted)@).contains(p) <==> exists|k: int|
                0 <= k < i && (#[trigger] picked@[k]).path@ == p,
    ensures
        final(sorted)@.len() == old(sorted)@.len() + 1,
        crate::order::ascending(crate::order::keys_of(final(sorted)@)),
        forall|p: Seq<char>| #[trigger]
            paths_in(final(sorted)@).contains(p) <==> exists|k: int|
                0 <= k < i + 1 && (#[trigger] picked@[k]).path@ == p,
{
    let ghost was = sorted@;
    let x = crate::order::ByPath { path: picked[i].path.clone() };
    let ghost y = x;
    proof {
        let keys = crate::order::keys_of(was);
        if keys.contains(path_key(x.path@)) {
            let m = keys.index_of(path_key(x.path@));
            assert(paths_in(was)[m] == was[m].path@);
            assert(paths_in(was).contains(was[m].path@));
            let k = choose|k: int| 0 <= k < i && (#[trigger] picked@[k]).path@ == was[m].path@;
            assert(same_path(picked@[k].path@, picked@[i as int].path@));
        }
    }
    let added = crate::order::add_sorted(sorted, x);
    proof {
        let at = choose|at: int|
            #![trigger was.insert(at, y)]
            0 <= at <= was.len() && sorted@ == was.insert(at, y);
        lemma_inserted(was, at, y);
        assert forall|p: Seq<char>| #[trigger] paths_in(sorted@).contains(p) <==> exists|k: int|
            0 <= k < i + 1 && (#[trigger] picked@[k]).path@ == p by {
            assert(picked@[i as int].path@ == y.path@);
            if paths_in(was).contains(p) {
                let k = choose|k: int| 0 <= k < i && (#[trigger] picked@[k]).path@ == p;
                assert(picked@[k].path@ == p);
            }
        }
    }
}

fn sorted_paths(picked: &Vec<SnapshotRecord>) -> (r: Vec<String>)
    requires
        forall|i: int, j: int|
            0 <= i < j < picked@.len() ==> !same_path(
                (#[trigger] picked@[i]).path@,
                (#[trigger] picked@[j]).path@,
            ),
    ensures
        lists_paths(texts(r@), records_view(picked@)),
{
    let mut sorted: Vec<crate::order::ByPath> = Vec::new();
    let mut i: usize = 0;
    while i < picked.len()
        invariant
            i <= picked.len(),
            forall|i: int, j: int|
                0 <= i < j < picked@.len() ==> !same_path(
                    (#[trigger] picked@[i]).path@,
                    (#[trigger] picked@[j]).path@,
                ),
            sorted@.len() == i,
            crate::order::ascending(crate::order::keys_of(sorted@)),
            forall|p: Seq<char>| #[trigger]
                paths_in(sorted@).contains(p) <==> exists|k: int|
                    0 <= k < i && (#[trigger] picked@[k]).path@ == p,
        decreases picked.len() - i,
    {
        sort_in(&mut sorted, picked, i);
        i += 1;
    }
    let mut out: Vec<String> = Vec::new();
    let mut j: usize = 0;
    while j < sorted.len()
        invariant
            j <= sorted.len(),
            out@.len() == j,
            forall|m: int| 0 <= m < j ==> (#[trigger] out@[m])@ == sorted@[m].path@,
        decreases sorted.len() - j,
    {
        out.push(sorted[j].path.clone());
        j += 1;
    }
    proof {
        let paths = texts(out@);
        let all = records_view(picked@);
        assert(paths.map_values(|p: Seq<char>| path_key(p)) =~= crate::order::keys_of(sorted@));
        assert(paths =~= paths_in(sorted@));
        assert forall|p: Seq<char>| #[trigger] paths.contains(p) <==> exists|k: int|
            0 <= k < all.len() && (#[trigger] all[k]).path == p by {
            if paths.contains(p) {
                let k = choose|k: int|
                    0 <= k < picked@.len() && (#[trigger] picked@[k]).path@ == p;
                assert(all[k].path == p);
            }
            if exists|k: int| 0 <= k < all.len() && (#[trigger] all[k]).path == p {
                let k = choose|k: int| 0 <= k < all.len() && (#[trigger] all[k]).path == p;
                assert(picked@[k].path@ == p);
            }
        }
    }
    out
}

/// The records whose turn is not one of an ascending list's.
fn without_turns(records: &Vec<SnapshotRecord>, dropped: &Vec<u64>) -> (r: Vec<SnapshotRecord>)
    ensures
        records_view(r@) == records_view(records@).filter(
            |x: RecordView| !dropped@.contains(x.turn),
        ),
{
    let ghost all = records_view(records@);
    let ghost stays = |x: RecordView| !dropped@.contains(x.turn);
    let mut out: Vec<SnapshotRecord> = Vec::new();
    let mut i: usize = 0;
    reveal(Seq::filter);
    assert(all.take(0) =~= Seq::empty());
    assert(records_view(out@) =~= all.take(0).filter(stays));
    while i < records.len()
        invariant
            i <= records.len(),
            all == records_view(records@),
            stays == (|x: RecordView| !dropped@.contains(x.turn)),
            records_view(out@) == all.take(i as int).filter(stays),
        decreases records.len() - i,
    {
        reveal(Seq::filter);
        assert(all.take(i + 1).drop_last() =~= all.take(i as int));
        assert(all.take(i + 1).last() == records@[i as int]@);
        let gone = has_turn(dropped, records[i].turn);
        if !gone {
            let ghost was = out@;
            out.push(records[i].copy());
            assert(records_view(out@) =~= records_view(was).push(records@[i as int]@));
        }
        i += 1;
    }
    assert(all.take(all.len() as int) =~= all);
    out
}

fn has_turn(turns: &Vec<u64>, t: u64) -> (r: bool)
    ensures
        r == turns@.contains(t),
{
    let mut i: usize = 0;
    while i < turns.len()
        invariant
            i <= turns.len(),
            forall|j: int| 0 <= j < i ==> turns@[j] != t,
        decreases turns.len() - i,
    {
        if turns[i] == t {
            assert(turns@[i as int] == t);
            return true;
        }
        i += 1;
    }
    false
}

/// Dropping the turns undone leaves the records that a rewind leaves.
proof fn lemma_left(records: Seq<RecordView>, rewind: Rewind, dropped: Seq<u64>)
    requires
        forall|k: int|
            0 <= k < records.len() ==> dropped.contains((#[trigger] records[k]).turn)
                == rewind.undoes(records[k].turn),
    ensures
        records.filter(|x: RecordView| !dropped.contains(x.turn)) == left(records, rewind),
    decreases records.len(),
{
    reveal(Seq::filter);
    if records.len() > 0 {
        let init = records.drop_last();
        assert forall|k: int| 0 <= k < init.len() implies dropped.contains(
            (#[trigger] init[k]).turn,
        ) == rewind.undoes(init[k].turn) by {
            assert(init[k] == records[k]);
        }
        lemma_left(init, rewind, dropped);
        assert(records.last() == records[records.len() - 1]);
    }
}

/// Copy-on-write snapshot store for one project.
pub struct CheckpointStore {
    /// `<project>/.wizard/checkpoints`.
    root: String,
    /// Number of most recent turns that a collection keeps.
    keep_turns: usize,
    /// The turn currently executing.
    current_turn: u64,
    /// The turns and paths already snapshotted: the first snapshot of a path
    /// within a turn wins.
    seen: Vec<(u64, String)>,
}

pub struct StoreView {
    pub root: Seq<char>,
    pub keep_turns: usize,
    pub current_turn: u64,
    pub seen: Seq<(u64, Seq<char>)>,
}

impl View for CheckpointStore {
    type V = StoreView;

    closed spec fn view(&self) -> StoreView {
        StoreView {
            root: self.root@,
            keep_turns: self.keep_turns,
            current_turn: self.current_turn,
            seen: self.seen@.map_values(|x: (u64, String)| (x.0, x.1@)),
        }
    }
}

impl StoreView {
    /// Whether a path was snapshotted in a turn.
    pub open spec fn saw(self, turn: u64, p: Seq<char>) -> bool {
        exists|i: int|
            0 <= i < self.seen.len() && (#[trigger] self.seen[i]).0 == turn && same_path(
                self.seen[i].1,
                p,
            )
    }
}

/// The highest turn of a list of records, or zero.
pub open spec fn last_turn(records: Seq<RecordView>) -> u64
    decreases records.len(),
{
    if records.len() == 0 {
        0
    } else {
        let before = last_turn(records.drop_last());
        if records.last().turn > before {
            records.last().turn
        } else {
            before
        }
    }
}

/// Where the copy of the `n`th file of a turn stands in the store.
pub open spec fn snap_name(turn: u64, n: usize) -> Seq<char> {
    decimal(turn as nat) + "/"@ + decimal(n as nat) + ".snap"@
}

/// The files that a turn's records name, in order.
pub open spec fn files_of(records: Seq<RecordView>, turn: u64) -> Seq<Seq<char>>
    decreases records.len(),
{
    if records.len() == 0 {
        Seq::empty()
    } else {
        let init = files_of(records.drop_last(), turn);
        if records.last().turn == turn {
            init.push(records.last().path)
        } else {
            init
        }
    }
}

fn turn_files(records: &Vec<SnapshotRecord>, turn: u64) -> (r: Vec<String>)
    ensures
        texts(r@) == files_of(records_view(records@), turn),
{
    let ghost all = records_view(records@);
    let mut out: Vec<String> = Vec::new();
    let mut i: usize = 0;
    assert(all.take(0) =~= Seq::empty());
    assert(texts(out@) =~= Seq::empty());
    while i < records.len()
        invariant
            i <= records.len(),
            all == records_view(records@),
            texts(out@) == files_of(all.take(i as int), turn),
        decreases records.len() - i,
    {
        assert(all.take(i + 1).drop_last() =~= all.take(i as int));
        assert(all.take(i + 1).last() == records@[i as int]@);
        if records[i].turn == turn {
            let ghost was = out@;
            out.push(records[i].path.clone());
            assert(texts(out@) =~= texts(was).push(records@[i as int].path@));
        }
        i += 1;
    }
    assert(all.take(all.len() as int) =~= all);
    out
}

/// Every turn counts.
pub open spec fn any_turn() -> spec_fn(u64) -> bool {
    |t: u64| true
}

impl CheckpointStore {
    /// Open the store of a project, over the text of its index (empty when
    /// there is none): the turn counter goes on from the highest readable turn.
    pub fn open(project_root: &str, keep_turns: usize, index: &str) -> (r: CheckpointStore)
        ensures
            r@.root == joined(joined(project_root@, ".wizard"@), "checkpoints"@),
            r@.keep_turns == keep_turns,
            r@.current_turn == last_turn(recorded(index@)),
            r@.seen.len() == 0,
    {
        let records = read_index(index);
        let ghost all = records_view(records@);
        let mut max: u64 = 0;
        let mut i: usize = 0;
        assert(all.take(0) =~= Seq::empty());
        while i < records.len()
            invariant
                i <= records.len(),
                all == records_view(records@),
                max == last_turn(all.take(i as int)),
            decreases records.len() - i,
        {
            assert(all.take(i + 1).drop_last() =~= all.take(i as int));
            assert(all.take(i + 1).last() == records@[i as int]@);
            if records[i].turn > max {
                max = records[i].turn;
            }
            i += 1;
        }
        assert(all.take(all.len() as int) =~= all);
        let root = join_path(&join_path(project_root, ".wizard"), "checkpoints");
        CheckpointStore { root, keep_turns, current_turn: max, seen: Vec::new() }
    }

    /// The turn currently executing, or the last of an earlier session.
    pub fn current_turn(&self) -> (r: u64)
        ensures
            r == self@.current_turn,
    {
        self.current_turn
    }

    /// Start a new turn and return its id.  Ids increase across sessions of a
    /// project.  What was snapshotted for earlier turns stays known.
    pub fn begin_turn(&mut self) -> (r: u64)
        requires
            old(self)@.current_turn < u64::MAX,
        ensures
            r == old(self)@.current_turn + 1,
            final(self)@ == (StoreView { current_turn: r, ..old(self)@ }),
    {
        self.current_turn = self.current_turn + 1;
        self.current_turn
    }

    /// The index's path.
    pub fn index_path(&self) -> (r: String)
        ensures
            r@ == joined(self@.root, "index.jsonl"@),
    {
        join_path(&self.root, "index.jsonl")
    }

    /// The path of something in the store.
    pub fn path_in_store(&self, name: &str) -> (r: String)
        ensures
            r@ == joined(self@.root, name@),
    {
        join_path(&self.root, name)
    }

    /// The directory of a turn's copies.
    pub fn turn_dir(&self, turn: u64) -> (r: String)
        ensures
            r@ == joined(self@.root, decimal(turn as nat)),
    {
        join_path(&self.root, &number(turn))
    }

    /// Whether a path was snapshotted in a turn.
    pub fn is_seen(&self, turn: u64, target: &str) -> (r: bool)
        ensures
            r == self@.saw(turn, target@),
    {
        let mut i: usize = 0;
        while i < self.seen.len()
            invariant
                i <= self.seen.len(),
                forall|j: int|
                    0 <= j < i ==> !((#[trigger] self@.seen[j]).0 == turn && same_path(
                        self@.seen[j].1,
                        target@,
                    )),
            decreases self.seen.len() - i,
        {
            assert(self@.seen[i as int] == (self.seen@[i as int].0, self.seen@[i as int].1@));
            if self.seen[i].0 == turn && is_same_path(&self.seen[i].1, target) {
                return true;
            }
            i += 1;
        }
        false
    }

    /// Snapshot a target as a turn's before-state: the record to append, unless
    /// the turn has one of the path.  `existing` is how many files the turn's
    /// directory holds, where the target exists; its copy then goes where the
    /// record says.
    pub fn snapshot(&mut self, turn: u64, tool: &str, target: &str, existing: Option<usize>) -> (r:
        Option<SnapshotRecord>)
        ensures
            r is None <==> old(self)@.saw(turn, target@),
            r is None ==> final(self)@ == old(self)@,
            r matches Some(record) ==> {
                &&& final(self)@ == (StoreView {
                    seen: old(self)@.seen.push((turn, target@)),
                    ..old(self)@
                })
                &&& record@ == (RecordView {
                    turn,
                    tool: tool@,
                    path: target@,
                    snap: match existing {
                        Some(n) => snap_name(turn, n),
                        None => ""@,
                    },
                    existed_before: existing is Some,
                })
            },
    {
        if self.is_seen(turn, target) {
            return None;
        }
        let ghost was = self.seen@;
        self.seen.push((turn, target.to_string()));
        assert(self@.seen =~= old(self)@.seen.push((turn, target@)));
        let snap = match existing {
            Some(n) => {
                let mut s = number(turn);
                s.append("/");
                s.append(&number(n as u64));
                s.append(".snap");
                s
            },
            None => "".to_string(),
        };
        Some(
            SnapshotRecord {
                turn,
                tool: tool.to_string(),
                path: target.to_string(),
                snap,
                existed_before: existing.is_some(),
            },
        )
    }

    /// What restoring the before-states of one turn takes.
    pub fn restore_turn(&self, turn: u64, index: &str) -> (r: Restore)
        ensures
            restores(r, Rewind::Only(turn), recorded(index@)),
    {
        self.restore_where(Rewind::Only(turn), index)
    }

    /// What restoring the before-states of a turn and every later one takes:
    /// the earliest snapshot of each path wins, so files return to their state
    /// just before the turn started.
    pub fn restore_turns_from(&self, turn: u64, index: &str) -> (r: Restore)
        ensures
            restores(r, Rewind::From(turn), recorded(index@)),
    {
        self.restore_where(Rewind::From(turn), index)
    }

    fn restore_where(&self, rewind: Rewind, index: &str) -> (r: Restore)
        ensures
            restores(r, rewind, recorded(index@)),
    {
        let records = read_index(index);
        let ghost all = records_view(records@);
        let picked = pick(&records, rewind);
        proof {
            lemma_earliest_distinct(all, rewind);
            assert forall|i: int, j: int| 0 <= i < j < picked@.len() implies !same_path(
                (#[trigger] picked@[i]).path@,
                (#[trigger] picked@[j]).path@,
            ) by {
                assert(records_view(picked@)[i].path == picked@[i].path@);
                assert(records_view(picked@)[j].path == picked@[j].path@);
            }
        }
        let steps = undo_steps(&picked);
        let restored = sorted_paths(&picked);
        let dropped = turns_of(&records, Some(rewind));
        let keep = without_turns(&records, &dropped);
        proof {
            let undone = |t: u64| rewind.undoes(t);
            assert forall|t: u64| #[trigger] dropped@.contains(t) <==> undone(t) && exists|k: int|
                0 <= k < all.len() && (#[trigger] all[k]).turn == t by {}
            assert forall|k: int| 0 <= k < all.len() implies dropped@.contains(
                (#[trigger] all[k]).turn,
            ) == rewind.undoes(all[k].turn) by {}
            lemma_left(all, rewind, dropped@);
        }
        Restore { rewind, steps, restored, keep, dropped }
    }

    /// A rewind was carried out: the paths of the turns undone can be
    /// snapshotted again.
    pub fn finish_restore(&mut self, restore: &Restore)
        ensures
            final(self)@ == (StoreView {
                seen: if restore.dropped@.len() == 0 {
                    old(self)@.seen
                } else {
                    old(self)@.seen.filter(
                        |x: (u64, Seq<char>)| !restore.rewind.undoes(x.0),
                    )
                },
                ..old(self)@
            }),
    {
        if restore.dropped.len() == 0 {
            return ;
        }
        let ghost all = self@.seen;
        let ghost stays = |x: (u64, Seq<char>)| !restore.rewind.undoes(x.0);
        let mut out: Vec<(u64, String)> = Vec::new();
        let mut i: usize = 0;
        reveal(Seq::filter);
        assert(all.take(0) =~= Seq::empty());
        assert(out@.map_values(|x: (u64, String)| (x.0, x.1@)) =~= all.take(0).filter(stays));
        while i < self.seen.len()
            invariant
                i <= self.seen.len(),
                self@ == old(self)@,
                all == self@.seen,
                stays == (|x: (u64, Seq<char>)| !restore.rewind.undoes(x.0)),
                out@.map_values(|x: (u64, String)| (x.0, x.1@)) == all.take(i as int).filter(
                    stays,
                ),
            decreases self.seen.len() - i,
        {
            reveal(Seq::filter);
            assert(all.take(i + 1).drop_last() =~= all.take(i as int));
            assert(all.take(i + 1).last() == (self.seen@[i as int].0, self.seen@[i as int].1@));
            if !restore.rewind.matches(self.seen[i].0) {
                let ghost was = out@;
                out.push((self.seen[i].0, self.seen[i].1.clone()));
                assert(out@.map_values(|x: (u64, String)| (x.0, x.1@)) =~= was.map_values(
                    |x: (u64, String)| (x.0, x.1@),
                ).push((self.seen@[i as int].0, self.seen@[i as int].1@)));
            }
            i += 1;
        }
        assert(all.take(all.len() as int) =~= all);
        self.seen = out;
    }

    /// What dropping all but the most recent turns takes; nothing when there
    /// are no more than the store keeps.
    pub fn gc(&self, index: &str) -> (r: Option<Collected>)
        ensures
            exists|turns: Seq<u64>| #[trigger]
                lists_turns(turns, recorded(index@), any_turn()) && collects(
                    r,
                    turns,
                    self@.keep_turns,
                    recorded(index@),
                ),
    {
        let records = read_index(index);
        let mut turns = turns_of(&records, None);
        let ghost all = turns@;
        proof {
            assert((|t: u64| None::<Rewind> is None || None::<Rewind>->0.undoes(t)) =~= any_turn());
            assert(lists_turns(all, recorded(index@), any_turn()));
        }
        if turns.len() <= self.keep_turns {
            return None;
        }
        let drop: usize = turns.len() - self.keep_turns;
        turns.truncate(drop);
        assert(turns@ =~= all.take(drop as int));
        let keep = without_turns(&records, &turns);
        let r = Some(Collected { keep, dropped: turns });
        assert(collects(r, all, self.keep_turns, recorded(index@)));
        r
    }

    /// The most recent turns with a snapshot and the files each touched, newest
    /// first.
    pub fn recent_turns(&self, limit: usize, index: &str) -> (r: Vec<TurnFiles>)
        ensures
            exists|turns: Seq<u64>| #[trigger]
                lists_turns(turns, recorded(index@), any_turn()) && lists_recent(
                    r@,
                    turns,
                    limit,
                    recorded(index@),
                ),
    {
        let records = read_index(index);
        let turns = turns_of(&records, None);
        proof {
            assert((|t: u64| None::<Rewind> is None || None::<Rewind>->0.undoes(t)) =~= any_turn());
            assert(lists_turns(turns@, recorded(index@), any_turn()));
        }
        let mut out: Vec<TurnFiles> = Vec::new();
        while out.len() < limit && out.len() < turns.len()
            invariant
                out@.len() <= limit,
                out@.len() <= turns@.len(),
                records_view(records@) == recorded(index@),
                forall|j: int|
                    0 <= j < out@.len() ==> (#[trigger] out@[j]).turn == turns@[turns@.len() - 1
                        - j] && texts(out@[j].files@) == files_of(
                        recorded(index@),
                        out@[j].turn,
                    ),
            decreases turns.len() - out.len(),
        {
            let turn = turns[turns.len() - 1 - out.len()];
            let files = turn_files(&records, turn);
            out.push(TurnFiles { turn, files });
        }
        assert(lists_recent(out@, turns@, limit, recorded(index@)));
        out
    }
}

/// Whether `r` is what a rewind takes, of an index with `records`.
pub open spec fn restores(r: Restore, rewind: Rewind, records: Seq<RecordView>) -> bool {
    &&& r.rewind == rewind
    &&& steps_view(r.steps@) == earliest(records, rewind).map_values(|x: RecordView| undo(x))
    &&& lists_paths(texts(r.restored@), earliest(records, rewind))
    &&& records_view(r.keep@) == left(records, rewind)
    &&& lists_turns(r.dropped@, records, |t: u64| Some(rewind) is None || Some(rewind)->0.undoes(t))
}

/// Whether `r` is what a collection takes that keeps the last `keep_turns` of
/// `turns`.
pub open spec fn collects(
    r: Option<Collected>,
    turns: Seq<u64>,
    keep_turns: usize,
    records: Seq<RecordView>,
) -> bool {
    match r {
        None => turns.len() <= keep_turns,
        Some(c) => {
            &&& turns.len() > keep_turns
            &&& c.dropped@ == turns.take(turns.len() - keep_turns)
            &&& records_view(c.keep@) == records.filter(
                |x: RecordView| !c.dropped@.contains(x.turn),
            )
        },
    }
}

/// Whether `r` lists the last of `turns`, newest first, with their files.
pub open spec fn lists_recent(
    r: Seq<TurnFiles>,
    turns: Seq<u64>,
    limit: usize,
    records: Seq<RecordView>,
) -> bool {
    &&& r.len() == (if turns.len() < limit {
        turns.len() as int
    } else {
        limit as int
    })
    &&& forall|j: int|
        0 <= j < r.len() ==> (#[trigger] r[j]).turn == turns[turns.len() - 1 - j] && texts(
            r[j].files@,
        ) == files_of(records, r[j].turn)
}

/// The file that a call of a file-editing tool is about, from its arguments;
/// none for other tools and calls without a path.
pub fn edit_target(edits: bool, args: &Json) -> (r: Option<String>)
    ensures
        r is Some <==> edits && args@.field_text("path"@) is Some,
        r matches Some(p) ==> p@ == args@.field_text("path"@)->0,
{
    if !edits {
        return None;
    }
    match args.get_text("path") {
        Some(p) => Some(p.clone()),
        None => None,
    }
}

/// The files of a project by the keys of their paths, and the copies in its
/// store by their names.
pub struct Disk {
    pub files: Map<Seq<u64>, Seq<u8>>,
    pub snaps: Map<Seq<char>, Seq<u8>>,
}

impl Disk {
    /// One file put back.
    pub open spec fn stepped(self, step: StepView) -> Disk {
        match step {
            StepView::Copy { snap, path } => Disk {
                files: self.files.insert(path_key(path), self.snaps[snap]),
                ..self
            },
            StepView::Delete { path } => Disk { files: self.files.remove(path_key(path)), ..self },
        }
    }

    /// Files put back one after the other.
    pub open spec fn carried_out(self, steps: Seq<StepView>) -> Disk
        decreases steps.len(),
    {
        if steps.len() == 0 {
            self
        } else {
            self.carried_out(steps.drop_last()).stepped(steps.last())
        }
    }

    /// Whether a record, with its copy on this disk, holds the state that its
    /// file had on the disk `then`.
    pub open spec fn holds(self, r: RecordView, then: Disk) -> bool {
        let key = path_key(r.path);
        if r.existed_before {
            then.files.contains_key(key) && self.snaps[r.snap] == then.files[key]
        } else {
            !then.files.contains_key(key)
        }
    }

    /// Whether a record's file is on this disk as the record says, with its copy
    /// in the store of the disk `from`.
    pub open spec fn has_back(self, r: RecordView, from: Disk) -> bool {
        let key = path_key(r.path);
        if r.existed_before {
            self.files.contains_key(key) && self.files[key] == from.snaps[r.snap]
        } else {
            !self.files.contains_key(key)
        }
    }

    /// Whether a file is on this disk as it is on another.
    pub open spec fn agrees(self, other: Disk, key: Seq<u64>) -> bool {
        &&& self.files.contains_key(key) == other.files.contains_key(key)
        &&& self.files.contains_key(key) ==> self.files[key] == other.files[key]
    }
}

/// The first snapshot of a path within a turn wins: once taken it stays known,
/// whatever is snapshotted after it and whatever turns begin, until a rewind
/// undoes its turn; so no second one is taken.
pub proof fn law_the_first_snapshot_of_a_turn_wins(
    s: StoreView,
    turn: u64,
    path: Seq<char>,
    later: (u64, Seq<char>),
    current_turn: u64,
    rewind: Rewind,
)
    ensures
        (StoreView { seen: s.seen.push((turn, path)), ..s }).saw(turn, path),
        s.saw(turn, path) ==> (StoreView { seen: s.seen.push(later), ..s }).saw(turn, path),
        s.saw(turn, path) ==> (StoreView { current_turn, ..s }).saw(turn, path),
        s.saw(turn, path) && !rewind.undoes(turn) ==> (StoreView {
            seen: s.seen.filter(|x: (u64, Seq<char>)| !rewind.undoes(x.0)),
            ..s
        }).saw(turn, path),
{
    let taken = StoreView { seen: s.seen.push((turn, path)), ..s };
    assert(taken.seen[s.seen.len() as int] == (turn, path));
    if s.saw(turn, path) {
        let i = choose|i: int|
            0 <= i < s.seen.len() && (#[trigger] s.seen[i]).0 == turn && same_path(
                s.seen[i].1,
                path,
            );
        let more = StoreView { seen: s.seen.push(later), ..s };
        assert(more.seen[i] == s.seen[i]);
        assert((StoreView { current_turn, ..s }).seen[i].0 == turn);
        let kept = |x: (u64, Seq<char>)| !rewind.undoes(x.0);
        if !rewind.undoes(turn) {
            s.seen.filter_lemma(kept);
            assert(s.seen.filter(kept).contains(s.seen[i]));
            let k = s.seen.filter(kept).index_of(s.seen[i]);
            let left = StoreView { seen: s.seen.filter(kept), ..s };
            assert(left.seen[k] == s.seen[i]);
        }
    }
}

/// A rewind returns every file it undoes to the state that its earliest
/// snapshot holds, and leaves every other file alone.
pub proof fn law_restore_gives_back_the_earliest_state(
    now: Disk,
    then: Disk,
    records: Seq<RecordView>,
    rewind: Rewind,
)
    requires
        forall|k: int|
            0 <= k < earliest(records, rewind).len() ==> now.holds(
                #[trigger] earliest(records, rewind)[k],
                then,
            ),
    ensures
        ({
            let picked = earliest(records, rewind);
            let after = now.carried_out(picked.map_values(|x: RecordView| undo(x)));
            &&& forall|k: int|
                0 <= k < picked.len() ==> after.agrees(then, path_key((#[trigger] picked[k]).path))
            &&& forall|key: Seq<u64>|
                (forall|k: int| 0 <= k < picked.len() ==> path_key((#[trigger] picked[k]).path) != key)
                    ==> #[trigger] after.agrees(now, key)
        }),
{
    let picked = earliest(records, rewind);
    lemma_earliest_distinct(records, rewind);
    lemma_carried_out(now, picked);
    let after = now.carried_out(picked.map_values(|x: RecordView| undo(x)));
    assert forall|k: int| 0 <= k < picked.len() implies after.agrees(
        then,
        path_key((#[trigger] picked[k]).path),
    ) by {
        assert(now.holds(picked[k], then));
        assert(after.has_back(picked[k], now));
    }
}

proof fn lemma_carried_out(now: Disk, picked: Seq<RecordView>)
    requires
        forall|i: int, j: int|
            0 <= i < j < picked.len() ==> !same_path(
                (#[trigger] picked[i]).path,
                (#[trigger] picked[j]).path,
            ),
    ensures
        ({
            let after = now.carried_out(picked.map_values(|x: RecordView| undo(x)));
            &&& after.snaps == now.snaps
            &&& forall|k: int|
                0 <= k < picked.len() ==> after.has_back(#[trigger] picked[k], now)
            &&& forall|key: Seq<u64>|
                (forall|k: int| 0 <= k < picked.len() ==> path_key((#[trigger] picked[k]).path) != key)
                    ==> #[trigger] after.agrees(now, key)
        }),
    decreases picked.len(),
{
    let steps = picked.map_values(|x: RecordView| undo(x));
    if picked.len() > 0 {
        let init = picked.drop_last();
        let r = picked.last();
        assert(steps.drop_last() =~= init.map_values(|x: RecordView| undo(x)));
        assert forall|i: int, j: int| 0 <= i < j < init.len() implies !same_path(
            (#[trigger] init[i]).path,
            (#[trigger] init[j]).path,
        ) by {
            assert(init[i] == picked[i] && init[j] == picked[j]);
        }
        lemma_carried_out(now, init);
        let mid = now.carried_out(steps.drop_last());
        let after = now.carried_out(steps);
        assert(after == mid.stepped(undo(r)));
        assert(picked[picked.len() - 1] == r);
        assert forall|k: int| 0 <= k < picked.len() implies after.has_back(
            #[trigger] picked[k],
            now,
        ) by {
            if k < init.len() {
                assert(init[k] == picked[k]);
                assert(!same_path(picked[k].path, picked[picked.len() - 1].path));
                assert(mid.has_back(init[k], now));
            }
        }
        assert forall|key: Seq<u64>|
            (forall|k: int| 0 <= k < picked.len() ==> path_key((#[trigger] picked[k]).path) != key) implies #[trigger] after.agrees(
        now, key) by {
            assert forall|k: int| 0 <= k < init.len() implies path_key((#[trigger] init[k]).path)
                != key by {
                assert(init[k] == picked[k]);
            }
            assert(mid.agrees(now, key));
            assert(path_key(picked[picked.len() - 1].path) != key);
        }
    }
}

/// The record at `k` is the first of its path among those of the turns undone.
pub open spec fn is_first(records: Seq<RecordView>, rewind: Rewind, k: int) -> bool {
    &&& 0 <= k < records.len()
    &&& rewind.undoes(records[k].turn)
    &&& forall|j: int|
        0 <= j < k && rewind.undoes((#[trigger] records[j]).turn) ==> !same_path(
            records[j].path,
            records[k].path,
        )
}

/// `x` is the first record of its path among those of the turns undone.
spec fn is_some_first(records: Seq<RecordView>, rewind: Rewind, x: RecordView) -> bool {
    exists|k: int| #[trigger] is_first(records, rewind, k) && records[k] == x
}

/// A turn undone has a record of the place that `key` is the key of.
pub open spec fn touched(records: Seq<RecordView>, rewind: Rewind, key: Seq<u64>) -> bool {
    exists|k: int|
        0 <= k < records.len() && rewind.undoes((#[trigger] records[k]).turn) && path_key(
            records[k].path,
        ) == key
}

/// What a rewind picks are the first records of the paths.
proof fn lemma_earliest(records: Seq<RecordView>, rewind: Rewind)
    ensures
        forall|k: int| #[trigger]
            is_first(records, rewind, k) ==> earliest(records, rewind).contains(records[k]),
        forall|i: int|
            0 <= i < earliest(records, rewind).len() ==> is_some_first(
                records,
                rewind,
                #[trigger] earliest(records, rewind)[i],
            ),
        forall|key: Seq<u64>| #[trigger]
            touched(records, rewind, key) <==> exists|i: int|
                0 <= i < earliest(records, rewind).len() && path_key(
                    (#[trigger] earliest(records, rewind)[i]).path,
                ) == key,
    decreases records.len(),
{
    if records.len() > 0 {
        let init = records.drop_last();
        let last = records.len() - 1;
        let r = records.last();
        lemma_earliest(init, rewind);
        let was = earliest(init, rewind);
        let e = earliest(records, rewind);
        let key = path_key(r.path);
        assert(has_path(was, r.path) <==> touched(init, rewind, key)) by {
            if has_path(was, r.path) {
                let i = choose|i: int| 0 <= i < was.len() && same_path((#[trigger] was[i]).path, r.path);
                assert(path_key(was[i].path) == key);
            }
            if touched(init, rewind, key) {
                let i = choose|i: int|
                    0 <= i < was.len() && path_key((#[trigger] was[i]).path) == key;
                assert(same_path(was[i].path, r.path));
            }
        }
        assert forall|k: int| k < last implies #[trigger] is_first(records, rewind, k) == is_first(
            init,
            rewind,
            k,
        ) by {
            if 0 <= k {
                assert(init[k] == records[k]);
                if is_first(records, rewind, k) {
                    assert forall|j: int|
                        0 <= j < k && rewind.undoes((#[trigger] init[j]).turn) implies !same_path(
                        init[j].path,
                        init[k].path,
                    ) by {
                        assert(records[j] == init[j]);
                    }
                }
                if is_first(init, rewind, k) {
                    assert forall|j: int|
                        0 <= j < k && rewind.undoes(
                            (#[trigger] records[j]).turn,
                        ) implies !same_path(records[j].path, records[k].path) by {
                        assert(records[j] == init[j]);
                    }
                }
            }
        }
        assert(is_first(records, rewind, last) <==> rewind.undoes(r.turn) && !has_path(
            was,
            r.path,
        )) by {
            if touched(init, rewind, key) {
                let j = choose|j: int|
                    0 <= j < init.len() && rewind.undoes((#[trigger] init[j]).turn) && path_key(
                        init[j].path,
                    ) == key;
                assert(records[j] == init[j]);
                assert(same_path(records[j].path, r.path));
            } else if rewind.undoes(r.turn) {
                assert forall|j: int|
                    0 <= j < last && rewind.undoes((#[trigger] records[j]).turn) implies !same_path(
                    records[j].path,
                    records[last].path,
                ) by {
                    assert(records[j] == init[j]);
                }
            }
        }
        assert forall|k: int| #[trigger] is_first(records, rewind, k) implies e.contains(
            records[k],
        ) by {
            if k < last {
                assert(is_first(init, rewind, k));
                assert(init[k] == records[k]);
                let i = was.index_of(records[k]);
                assert(e[i] == records[k]);
            } else {
                assert(e == was.push(r));
                assert(e[was.len() as int] == r);
            }
        }
        assert forall|i: int| 0 <= i < e.len() implies is_some_first(
            records,
            rewind,
            #[trigger] e[i],
        ) by {
            if i < was.len() {
                assert(e[i] == was[i]);
                assert(is_some_first(init, rewind, was[i]));
                let k = choose|k: int| #[trigger] is_first(init, rewind, k) && init[k] == was[i];
                assert(is_first(records, rewind, k));
                assert(records[k] == e[i]);
            } else {
                assert(is_first(records, rewind, last));
            }
        }
        assert forall|at: Seq<u64>| #[trigger] touched(records, rewind, at) <==> exists|i: int|
            0 <= i < e.len() && path_key((#[trigger] e[i]).path) == at by {
            if touched(init, rewind, at) {
                let j = choose|j: int|
                    0 <= j < init.len() && rewind.undoes((#[trigger] init[j]).turn) && path_key(
                        init[j].path,
                    ) == at;
                assert(records[j] == init[j]);
                let i = choose|i: int|
                    0 <= i < was.len() && path_key((#[trigger] was[i]).path) == at;
                assert(e[i] == was[i]);
            } else if touched(records, rewind, at) {
                let k = choose|k: int|
                    0 <= k < records.len() && rewind.undoes((#[trigger] records[k]).turn)
                        && path_key(records[k].path) == at;
                if k < last {
                    assert(init[k] == records[k]);
                }
                assert(e[was.len() as int] == r);
            }
            if exists|i: int| 0 <= i < e.len() && path_key((#[trigger] e[i]).path) == at {
                let i = choose|i: int| 0 <= i < e.len() && path_key((#[trigger] e[i]).path) == at;
                if i < was.len() {
                    assert(e[i] == was[i]);
                    assert(touched(init, rewind, at));
                } else {
                    assert(records[last] == r);
                }
            }
        }
    }
}

/// A rewind as a whole.  The paths it reports are in order, each once, and are
/// those of the records of the turns undone; each file is afterwards as the
/// first such record of its path says, and no other file changes; the index
/// keeps the other records, in their order.  The same rewind again finds
/// nothing to do.
pub proof fn law_a_rewind_puts_back_and_prunes(
    now: Disk,
    records: Seq<RecordView>,
    rewind: Rewind,
    r: Restore,
    again: Restore,
)
    requires
        restores(r, rewind, records),
        restores(again, rewind, records_view(r.keep@)),
    ensures
        crate::order::ascending(texts(r.restored@).map_values(|p: Seq<char>| path_key(p))),
        forall|p: Seq<char>| #[trigger]
            texts(r.restored@).contains(p) <==> exists|k: int| #[trigger]
                is_first(records, rewind, k) && records[k].path == p,
        forall|k: int| #[trigger]
            is_first(records, rewind, k) ==> now.carried_out(steps_view(r.steps@)).has_back(
                records[k],
                now,
            ),
        forall|key: Seq<u64>|
            !touched(records, rewind, key) ==> #[trigger] now.carried_out(
                steps_view(r.steps@),
            ).agrees(now, key),
        records_view(r.keep@) == records.filter(|x: RecordView| !rewind.undoes(x.turn)),
        again.restored@.len() == 0,
        again.steps@.len() == 0,
        again.dropped@.len() == 0,
        records_view(again.keep@) == records_view(r.keep@),
{
    let picked = earliest(records, rewind);
    let after = now.carried_out(steps_view(r.steps@));
    let kept = records_view(r.keep@);
    lemma_earliest(records, rewind);
    lemma_earliest_distinct(records, rewind);
    lemma_carried_out(now, picked);
    assert forall|p: Seq<char>| #[trigger] texts(r.restored@).contains(p) <==> exists|k: int|
        #[trigger] is_first(records, rewind, k) && records[k].path == p by {
        if texts(r.restored@).contains(p) {
            let i = choose|i: int| 0 <= i < picked.len() && (#[trigger] picked[i]).path == p;
            assert(is_some_first(records, rewind, picked[i]));
            let k = choose|k: int| #[trigger] is_first(records, rewind, k) && records[k] == picked[i];
            assert(records[k].path == p);
        }
        if exists|k: int| #[trigger] is_first(records, rewind, k) && records[k].path == p {
            let k = choose|k: int| #[trigger] is_first(records, rewind, k) && records[k].path == p;
            let i = picked.index_of(records[k]);
            assert(picked[i].path == p);
        }
    }
    assert forall|k: int| #[trigger] is_first(records, rewind, k) implies after.has_back(
        records[k],
        now,
    ) by {
        let i = picked.index_of(records[k]);
        assert(after.has_back(picked[i], now));
    }
    assert forall|key: Seq<u64>| !touched(records, rewind, key) implies #[trigger] after.agrees(
        now,
        key,
    ) by {
        assert forall|i: int| 0 <= i < picked.len() implies path_key((#[trigger] picked[i]).path)
            != key by {
            if path_key(picked[i].path) == key {
                assert(touched(records, rewind, key));
            }
        }
    }
    law_restore_prunes_what_it_undid(records, rewind);
    assert(earliest(kept, rewind).len() == 0);
    assert(texts(again.restored@).len() == again.restored@.len());
    assert(steps_view(again.steps@).len() == again.steps@.len());
    if again.dropped@.len() > 0 {
        assert(again.dropped@.contains(again.dropped@[0]));
        let k = choose|k: int|
            0 <= k < kept.len() && (#[trigger] kept[k]).turn == again.dropped@[0];
        assert(!rewind.undoes(left(records, rewind)[k].turn));
    }
}

/// Restoring a turn that recorded one path returns that file, whatever was done
/// to it since, to what it was when the turn first recorded it, and reports that
/// path alone; no other file changes, and the records of every other turn stay.
pub proof fn law_restoring_a_turn_gives_back_its_file(
    then: Disk,
    now: Disk,
    records: Seq<RecordView>,
    first: int,
    r: Restore,
)
    requires
        0 <= first < records.len(),
        forall|k: int|
            0 <= k < records.len() && (#[trigger] records[k]).turn == records[first].turn ==> first
                <= k && same_path(records[k].path, records[first].path),
        now.holds(records[first], then),
        restores(r, Rewind::Only(records[first].turn), records),
    ensures
        texts(r.restored@) == seq![records[first].path],
        now.carried_out(steps_view(r.steps@)).agrees(then, path_key(records[first].path)),
        forall|key: Seq<u64>|
            key != path_key(records[first].path) ==> #[trigger] now.carried_out(
                steps_view(r.steps@),
            ).agrees(now, key),
        records_view(r.keep@) == records.filter(
            |x: RecordView| x.turn != records[first].turn,
        ),
{
    let rewind = Rewind::Only(records[first].turn);
    let picked = earliest(records, rewind);
    let after = now.carried_out(steps_view(r.steps@));
    lemma_earliest(records, rewind);
    lemma_earliest_distinct(records, rewind);
    lemma_carried_out(now, picked);
    assert(is_first(records, rewind, first));
    assert forall|i: int| 0 <= i < picked.len() implies #[trigger] picked[i] == records[first] by {
        assert(is_some_first(records, rewind, picked[i]));
        let k = choose|k: int| #[trigger] is_first(records, rewind, k) && records[k] == picked[i];
        if k != first {
            assert(rewind.undoes(records[first].turn));
            assert(first < k && same_path(records[k].path, records[first].path));
        }
    }
    assert(picked.contains(records[first]));
    if picked.len() > 1 {
        assert(picked[0] == records[first] && picked[1] == records[first]);
        assert(!same_path(picked[0].path, picked[1].path));
    }
    assert(picked =~= seq![records[first]]);
    let paths = texts(r.restored@);
    assert(paths.len() == 1);
    assert(paths.contains(paths[0]));
    let k = choose|k: int| 0 <= k < picked.len() && (#[trigger] picked[k]).path == paths[0];
    assert(paths[0] == records[first].path);
    assert(paths =~= seq![records[first].path]);
    assert(after.has_back(picked[0], now));
    assert forall|key: Seq<u64>| key != path_key(
        records[first].path,
    ) implies #[trigger] after.agrees(now, key) by {
        assert forall|i: int| 0 <= i < picked.len() implies path_key((#[trigger] picked[i]).path)
            != key by {}
    }
    assert((|x: RecordView| !rewind.undoes(x.turn)) =~= (|x: RecordView|
        x.turn != records[first].turn));
}

/// After a rewind no record of a turn it undid is left, and the records of the
/// other turns are, so a second rewind of the same turns does nothing.
pub proof fn law_restore_prunes_what_it_undid(records: Seq<RecordView>, rewind: Rewind)
    ensures
        forall|k: int|
            0 <= k < left(records, rewind).len() ==> !rewind.undoes(
                (#[trigger] left(records, rewind)[k]).turn,
            ),
        earliest(left(records, rewind), rewind).len() == 0,
        left(left(records, rewind), rewind) == left(records, rewind),
    decreases records.len(),
{
    reveal(Seq::filter);
    if records.len() > 0 {
        let init = records.drop_last();
        law_restore_prunes_what_it_undid(init, rewind);
        let r = records.last();
        if !rewind.undoes(r.turn) {
            let l = left(records, rewind);
            assert(l == left(init, rewind).push(r));
            assert(l.drop_last() =~= left(init, rewind));
        }
    }
}

/// A collection keeps the records of exactly the last turns that the store
/// keeps, and a second one finds nothing to drop.
pub proof fn law_gc_keeps_the_last_turns(
    records: Seq<RecordView>,
    turns: Seq<u64>,
    keep_turns: usize,
    c: Collected,
)
    requires
        lists_turns(turns, records, any_turn()),
        collects(Some(c), turns, keep_turns, records),
    ensures
        lists_turns(turns.skip(turns.len() - keep_turns), records_view(c.keep@), any_turn()),
        collects(
            None,
            turns.skip(turns.len() - keep_turns),
            keep_turns,
            records_view(c.keep@),
        ),
{
    let n = turns.len() - keep_turns;
    let rest = turns.skip(n);
    let kept = records_view(c.keep@);
    let stays = |x: RecordView| !c.dropped@.contains(x.turn);
    assert forall|t: u64| #[trigger] rest.contains(t) <==> any_turn()(t) && exists|k: int|
        0 <= k < kept.len() && (#[trigger] kept[k]).turn == t by {
        if rest.contains(t) {
            let i = rest.index_of(t);
            assert(turns[n + i] == t);
            assert(turns.contains(t));
            let k = choose|k: int| 0 <= k < records.len() && (#[trigger] records[k]).turn == t;
            assert(!c.dropped@.contains(t)) by {
                if c.dropped@.contains(t) {
                    let j = c.dropped@.index_of(t);
                    assert(turns[j] == t && j < n);
                }
            }
            assert(stays(records[k]));
            records.lemma_filter_contains(stays, k);
            assert(kept.contains(records[k]));
            let m = kept.index_of(records[k]);
            assert(kept[m].turn == t);
        }
        if exists|k: int| 0 <= k < kept.len() && (#[trigger] kept[k]).turn == t {
            let k = choose|k: int| 0 <= k < kept.len() && (#[trigger] kept[k]).turn == t;
            assert(kept.contains(kept[k]));
            records.lemma_filter_pred(stays, k);
            records.lemma_filter_contains_rev(stays, kept[k]);
            assert(records.contains(kept[k]) && stays(kept[k]));
            let m = records.index_of(kept[k]);
            assert(records[m].turn == t);
            assert(turns.contains(t));
            let i = turns.index_of(t);
            if i < n {
                assert(c.dropped@[i] == t);
            }
            assert(rest[i - n] == t);
        }
    }
}

/// Two ascending lists of the same turns are one list.
proof fn lemma_one_list(a: Seq<u64>, b: Seq<u64>)
    requires
        forall|i: int, j: int| 0 <= i < j < a.len() ==> a[i] < a[j],
        forall|i: int, j: int| 0 <= i < j < b.len() ==> b[i] < b[j],
        forall|t: u64| #[trigger] a.contains(t) <==> b.contains(t),
    ensures
        a == b,
    decreases a.len(),
{
    if a.len() == 0 {
        if b.len() > 0 {
            assert(b.contains(b[0]));
            assert(a.contains(b[0]));
        }
        assert(a =~= b);
    } else {
        assert(a.contains(a.last()));
        assert(b.contains(a.last()));
        assert(b.contains(b.last()));
        assert(a.contains(b.last()));
        let m = b.index_of(a.last());
        let n = a.index_of(b.last());
        assert(a.last() == b.last());
        let c = a.drop_last();
        let d = b.drop_last();
        assert forall|t: u64| #[trigger] c.contains(t) <==> d.contains(t) by {
            if c.contains(t) {
                let i = c.index_of(t);
                assert(a[i] == t);
                assert(a.contains(t));
                let j = b.index_of(t);
                assert(d[j] == t);
            }
            if d.contains(t) {
                let i = d.index_of(t);
                assert(b[i] == t);
                assert(b.contains(t));
                assert(a.contains(t));
                let j = a.index_of(t);
                assert(c[j] == t);
            }
        }
        lemma_one_list(c, d);
        assert(a =~= c.push(a.last()));
        assert(b =~= d.push(b.last()));
    }
}

/// `t` is one of the last `keep_turns` of an ascending list of turns.
pub open spec fn among_last(turns: Seq<u64>, keep_turns: usize, t: u64) -> bool {
    exists|i: int|
        0 <= i < turns.len() && turns.len() - keep_turns <= i && #[trigger] turns[i] == t
}

/// The records of the index after a collection.
pub open spec fn after_gc(r: Option<Collected>, records: Seq<RecordView>) -> Seq<RecordView> {
    match r {
        Some(c) => records_view(c.keep@),
        None => records,
    }
}

/// The turns whose copies a collection removes.
pub open spec fn gone_in_gc(r: Option<Collected>) -> Seq<u64> {
    match r {
        Some(c) => c.dropped@,
        None => Seq::empty(),
    }
}

/// A collection as a whole, of records with the different turns `turns` in
/// ascending order.  It drops as many turns as there are above those that the
/// store keeps; the index is then exactly the records of the last turns, in
/// their order, and the copies of exactly the other turns go.  A second
/// collection finds nothing to drop.
pub proof fn law_a_collection_drops_all_but_the_last_turns(
    records: Seq<RecordView>,
    turns: Seq<u64>,
    keep_turns: usize,
    r: Option<Collected>,
    turns_left: Seq<u64>,
    again: Option<Collected>,
)
    requires
        lists_turns(turns, records, any_turn()),
        collects(r, turns, keep_turns, records),
        lists_turns(turns_left, after_gc(r, records), any_turn()),
        collects(again, turns_left, keep_turns, after_gc(r, records)),
    ensures
        gone_in_gc(r).len() == (if turns.len() > keep_turns {
            turns.len() - keep_turns
        } else {
            0
        }),
        after_gc(r, records) == records.filter(
            |x: RecordView| among_last(turns, keep_turns, x.turn),
        ),
        forall|t: u64| #[trigger]
            gone_in_gc(r).contains(t) <==> turns.contains(t) && !among_last(turns, keep_turns, t),
        again is None,
{
    let last = |x: RecordView| among_last(turns, keep_turns, x.turn);
    assert forall|t: u64| #[trigger] gone_in_gc(r).contains(t) <==> turns.contains(t)
        && !among_last(turns, keep_turns, t) by {
        if gone_in_gc(r).contains(t) {
            let i = gone_in_gc(r).index_of(t);
            assert(turns[i] == t);
            assert(turns.contains(t));
        }
        if turns.contains(t) && !among_last(turns, keep_turns, t) {
            let i = turns.index_of(t);
            assert(turns[i] == t);
            assert(gone_in_gc(r)[i] == t);
        }
    }
    assert forall|k: int| 0 <= k < records.len() implies last(#[trigger] records[k])
        == !gone_in_gc(r).contains(records[k].turn) by {
        assert(any_turn()(records[k].turn));
        assert(turns.contains(records[k].turn));
    }
    match r {
        Some(c) => {
            let stays = |x: RecordView| !c.dropped@.contains(x.turn);
            lemma_same_filter(records, last, stays);
            law_gc_keeps_the_last_turns(records, turns, keep_turns, c);
            let rest = turns.skip(turns.len() - keep_turns);
            lemma_one_list(turns_left, rest);
        },
        None => {
            let all = |x: RecordView| true;
            assert(gone_in_gc(r) =~= Seq::empty());
            lemma_same_filter(records, last, all);
            lemma_all_stay(records);
            lemma_one_list(turns_left, turns);
        },
    }
}

proof fn lemma_same_filter(
    records: Seq<RecordView>,
    a: spec_fn(RecordView) -> bool,
    b: spec_fn(RecordView) -> bool,
)
    requires
        forall|k: int| 0 <= k < records.len() ==> a(#[trigger] records[k]) == b(records[k]),
    ensures
        records.filter(a) == records.filter(b),
    decreases records.len(),
{
    reveal(Seq::filter);
    if records.len() > 0 {
        let init = records.drop_last();
        assert forall|k: int| 0 <= k < init.len() implies a(#[trigger] init[k]) == b(init[k]) by {
            assert(init[k] == records[k]);
        }
        lemma_same_filter(init, a, b);
        assert(records.last() == records[records.len() - 1]);
    }
}

proof fn lemma_all_stay(records: Seq<RecordView>)
    ensures
        records.filter(|x: RecordView| true) == records,
    decreases records.len(),
{
    reveal(Seq::filter);
    if records.len() > 0 {
        lemma_all_stay(records.drop_last());
        assert(records =~= records.drop_last().push(records.last()));
    } else {
        assert(records =~= Seq::empty());
    }
}

} // verus!
