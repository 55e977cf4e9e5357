//! Results of runs, and comparing them.

use crate::bench::cases::{left_in, pad_to, widest};
use crate::json::text_opt;
use crate::order::{add_sorted, ascending, before, keys_of, lemma_total, text_key, Keyed};
use crate::text::{same, texts};
use vstd::prelude::*;

verus! {

/// Outcome of replaying one case.
#[derive(Debug, PartialEq, Eq)]
pub struct CaseResult {
    pub id: String,
    /// `pass`, `fail`, `timeout` or `error`.
    pub status: String,
    /// True only for `pass`.
    pub passed: bool,
    /// The harness's exit code, when it ran to completion.
    pub harness_exit: Option<i32>,
    /// The check's exit code, when it ran to completion.
    pub check_exit: Option<i32>,
    /// What failed around the case, for `error`.
    pub error: Option<String>,
}

#[verifier::ext_equal]
pub struct ResultView {
    pub id: Seq<char>,
    pub status: Seq<char>,
    pub passed: bool,
    pub harness_exit: Option<i32>,
    pub check_exit: Option<i32>,
    pub error: Option<Seq<char>>,
}

impl View for CaseResult {
    type V = ResultView;

    open spec fn view(&self) -> ResultView {
        ResultView {
            id: self.id@,
            status: self.status@,
            passed: self.passed,
            harness_exit: self.harness_exit,
            check_exit: self.check_exit,
            error: text_opt(self.error),
        }
    }
}

pub open spec fn results_view(r: Seq<CaseResult>) -> Seq<ResultView> {
    r.map_values(|x: CaseResult| x@)
}

/// A full run.
#[derive(Debug, PartialEq, Eq)]
pub struct RunResults {
    pub label: String,
    /// The command template used.
    pub runner: String,
    pub cases: Vec<CaseResult>,
    pub total: usize,
    pub passed: usize,
}

/// How many of the cases passed.
pub open spec fn passes(cases: Seq<ResultView>) -> nat
    decreases cases.len(),
{
    if cases.len() == 0 {
        0
    } else {
        passes(cases.drop_last()) + if cases.last().passed {
            1nat
        } else {
            0nat
        }
    }
}

/// Aggregate per-case results.
pub fn summarize(label: String, runner: String, cases: Vec<CaseResult>) -> (r: RunResults)
    ensures
        r.label == label,
        r.runner == runner,
        r.cases == cases,
        r.total == cases@.len(),
        r.passed == passes(results_view(cases@)),
        r.passed <= r.total,
{
    let ghost all = results_view(cases@);
    let mut passed: usize = 0;
    let mut i: usize = 0;
    assert(all.take(0) =~= Seq::empty());
    while i < cases.len()
        invariant
            i <= cases.len(),
            passed <= i,
            all == results_view(cases@),
            passed == passes(all.take(i as int)),
        decreases cases.len() - i,
    {
        assert(all.take(i + 1).drop_last() =~= all.take(i as int));
        assert(all.take(i + 1).last() == cases@[i as int]@);
        if cases[i].passed {
            passed += 1;
        }
        i += 1;
    }
    assert(all.take(all.len() as int) =~= all);
    let total = cases.len();
    RunResults { label, runner, cases, total, passed }
}

impl RunResults {
    /// The process's exit code: 0 when every case passed, so that a run can
    /// gate.
    pub fn exit_code(&self) -> (r: i32)
        ensures
            r == (if self.passed == self.total {
                0i32
            } else {
                1i32
            }),
    {
        if self.passed == self.total {
            0
        } else {
            1
        }
    }
}

/// One line of the comparison.
#[derive(Debug, PartialEq, Eq)]
pub struct CompareRow {
    pub id: String,
    pub a_status: String,
    pub b_status: String,
    /// `↑` a pass gained, `↓` a pass lost, empty unchanged.
    pub marker: &'static str,
}

pub struct RowView {
    pub id: Seq<char>,
    pub a_status: Seq<char>,
    pub b_status: Seq<char>,
    pub marker: Seq<char>,
}

impl View for CompareRow {
    type V = RowView;

    open spec fn view(&self) -> RowView {
        RowView {
            id: self.id@,
            a_status: self.a_status@,
            b_status: self.b_status@,
            marker: self.marker@,
        }
    }
}

/// The last result of a case in a run.
pub open spec fn last_of(cases: Seq<ResultView>, id: Seq<char>) -> Option<ResultView>
    decreases cases.len(),
{
    if cases.len() == 0 {
        None
    } else if cases.last().id == id {
        Some(cases.last())
    } else {
        last_of(cases.drop_last(), id)
    }
}

pub open spec fn status_of(r: Option<ResultView>) -> Seq<char> {
    match r {
        Some(c) => c.status,
        None => "—"@,
    }
}

pub open spec fn has_passed(r: Option<ResultView>) -> bool {
    r is Some && (r->0).passed
}

/// How a case fared in two runs.
pub open spec fn compared(a: Seq<ResultView>, b: Seq<ResultView>, id: Seq<char>) -> RowView {
    let in_a = last_of(a, id);
    let in_b = last_of(b, id);
    RowView {
        id,
        a_status: status_of(in_a),
        b_status: status_of(in_b),
        marker: if !has_passed(in_a) && has_passed(in_b) {
            "↑"@
        } else if has_passed(in_a) && !has_passed(in_b) {
            "↓"@
        } else {
            ""@
        },
    }
}

/// Whether a list of cases holds an id.
pub open spec fn has_id(cases: Seq<ResultView>, id: Seq<char>) -> bool {
    exists|i: int| 0 <= i < cases.len() && (#[trigger] cases[i]).id == id
}

/// Whether `ids` lists the ids of two runs in the order of texts, each once.
pub open spec fn lists_ids(ids: Seq<Seq<char>>, a: Seq<ResultView>, b: Seq<ResultView>) -> bool {
    &&& ascending(ids.map_values(|s: Seq<char>| text_key(s)))
    &&& forall|id: Seq<char>| #[trigger] ids.contains(id) <==> has_id(a, id) || has_id(b, id)
}

/// The texts in a sorted list are those it held, and the one put in.
proof fn lemma_put(was: Seq<String>, now: Seq<String>, x: String, added: bool)
    requires
        added == !keys_of(was).contains(x.key()),
        !added ==> now == was,
        added ==> exists|i: int|
            #![trigger was.insert(i, x)]
            0 <= i <= was.len() && now == was.insert(i, x),
    ensures
        forall|t: Seq<char>| #[trigger]
            texts(now).contains(t) <==> texts(was).contains(t) || t == x@,
{
    if added {
        let at = choose|i: int|
            #![trigger was.insert(i, x)]
            0 <= i <= was.len() && now == was.insert(i, x);
        assert(texts(now)[at] == x@);
        assert forall|t: Seq<char>| #[trigger]
            texts(now).contains(t) <==> texts(was).contains(t) || t == x@ by {
            if texts(was).contains(t) {
                let m = texts(was).index_of(t);
                assert(texts(now)[if m < at { m } else { m + 1 }] == t);
            }
            if texts(now).contains(t) && t != x@ {
                let m = texts(now).index_of(t);
                assert(texts(was)[if m < at { m } else { m - 1 }] == t);
            }
        }
    } else {
        let k = keys_of(was).index_of(x.key());
        assert(keys_of(was)[k] == was[k].key());
        assert(was[k].key() == text_key(was[k]@));
        assert(x.key() == text_key(x@));
        crate::order::lemma_text_key(was[k]@, x@);
        assert(texts(was)[k] == x@);
    }
}

fn add_ids(ids: &mut Vec<String>, cases: &Vec<CaseResult>)
    requires
        ascending(keys_of(old(ids)@)),
    ensures
        ascending(keys_of(final(ids)@)),
        forall|id: Seq<char>| #[trigger]
            texts(final(ids)@).contains(id) <==> texts(old(ids)@).contains(id) || has_id(
                results_view(cases@),
                id,
            ),
{
    let ghost all = results_view(cases@);
    let ghost before = ids@;
    let mut i: usize = 0;
    while i < cases.len()
        invariant
            i <= cases.len(),
            all == results_view(cases@),
            ascending(keys_of(ids@)),
            forall|id: Seq<char>| #[trigger]
                texts(ids@).contains(id) <==> texts(before).contains(id) || has_id(
                    all.take(i as int),
                    id,
                ),
        decreases cases.len() - i,
    {
        let ghost shorter = all.take(i as int);
        let ghost longer = all.take(i + 1);
        let ghost was = ids@;
        let x = cases[i].id.clone();
        let ghost y = x;
        let added = add_sorted(ids, x);
        proof {
            lemma_put(was, ids@, y, added);
            assert(longer[i as int].id == y@);
            assert forall|id: Seq<char>| #[trigger]
                texts(ids@).contains(id) <==> texts(before).contains(id) || has_id(longer, id) by {
                if has_id(shorter, id) {
                    let k = choose|k: int| 0 <= k < shorter.len() && (#[trigger] shorter[k]).id == id;
                    assert(longer[k] == shorter[k]);
                }
                if has_id(longer, id) && id != y@ {
                    let k = choose|k: int| 0 <= k < longer.len() && (#[trigger] longer[k]).id == id;
                    assert(shorter[k] == longer[k]);
                }
                assert(texts(was).contains(id) <==> texts(before).contains(id) || has_id(
                    shorter,
                    id,
                ));
            }
        }
        i += 1;
    }
    assert(all.take(all.len() as int) =~= all);
}

fn find_last<'a>(cases: &'a Vec<CaseResult>, id: &str) -> (r: Option<&'a CaseResult>)
    ensures
        last_of(results_view(cases@), id@) == match r {
            Some(c) => Some(c@),
            None => None,
        },
{
    let ghost all = results_view(cases@);
    let mut i: usize = cases.len();
    assert(all.take(all.len() as int) =~= all);
    while i > 0
        invariant
            i <= cases.len(),
            all == results_view(cases@),
            last_of(all, id@) == last_of(all.take(i as int), id@),
        decreases i,
    {
        i -= 1;
        assert(all.take(i + 1).drop_last() =~= all.take(i as int));
        assert(all.take(i + 1).last() == cases@[i as int]@);
        if same(&cases[i].id, id) {
            return Some(&cases[i]);
        }
    }
    None
}

fn compare_case(a: &Vec<CaseResult>, b: &Vec<CaseResult>, id: String) -> (r: CompareRow)
    ensures
        r@ == compared(results_view(a@), results_view(b@), id@),
{
    let in_a = find_last(a, &id);
    let in_b = find_last(b, &id);
    let a_passed = match in_a {
        Some(c) => c.passed,
        None => false,
    };
    let b_passed = match in_b {
        Some(c) => c.passed,
        None => false,
    };
    let a_status = match in_a {
        Some(c) => c.status.clone(),
        None => "—".to_string(),
    };
    let b_status = match in_b {
        Some(c) => c.status.clone(),
        None => "—".to_string(),
    };
    let marker: &'static str = if !a_passed && b_passed {
        "↑"
    } else if a_passed && !b_passed {
        "↓"
    } else {
        ""
    };
    CompareRow { id, a_status, b_status, marker }
}

/// Compare two runs over the union of their ids, in the order of ids; a missing
/// case is marked.
pub fn compare_rows(a: &RunResults, b: &RunResults) -> (r: Vec<CompareRow>)
    ensures
        exists|ids: Seq<Seq<char>>| #[trigger]
            lists_ids(ids, results_view(a.cases@), results_view(b.cases@)) && r@.map_values(
                |x: CompareRow| x@,
            ) == ids.map_values(
                |id: Seq<char>| compared(results_view(a.cases@), results_view(b.cases@), id),
            ),
{
    let ghost ra = results_view(a.cases@);
    let ghost rb = results_view(b.cases@);
    let mut ids: Vec<String> = Vec::new();
    assert(keys_of(ids@) =~= Seq::empty());
    assert(texts(ids@) =~= Seq::empty());
    add_ids(&mut ids, &a.cases);
    add_ids(&mut ids, &b.cases);
    let ghost all = texts(ids@);
    proof {
        let keys = all.map_values(|s: Seq<char>| text_key(s));
        assert forall|i: int| 0 <= i < ids@.len() implies #[trigger] keys[i] == keys_of(
            ids@,
        )[i] by {
            assert(keys_of(ids@)[i] == ids@[i].key());
            assert(ids@[i].key() == text_key(ids@[i]@));
        }
        assert(keys =~= keys_of(ids@));
        assert(lists_ids(all, ra, rb));
    }
    let ghost given = ids@;
    let mut out: Vec<CompareRow> = Vec::new();
    for id in it: ids
        invariant
            it.seq() == given,
            ra == results_view(a.cases@),
            rb == results_view(b.cases@),
            out@.len() == it.index(),
            forall|k: int| 0 <= k < out@.len() ==> (#[trigger] out@[k])@ == compared(ra, rb, given[k]@),
    {
        out.push(compare_case(&a.cases, &b.cases, id));
    }
    assert(out@.map_values(|x: CompareRow| x@) =~= all.map_values(
        |id: Seq<char>| compared(ra, rb, id),
    ));
    out
}

/// A row of the comparison the other way round.
pub open spec fn mirrored(r: RowView) -> RowView {
    RowView {
        id: r.id,
        a_status: r.b_status,
        b_status: r.a_status,
        marker: if r.marker == "↑"@ {
            "↓"@
        } else if r.marker == "↓"@ {
            "↑"@
        } else {
            ""@
        },
    }
}

/// The keys of a list of texts.
spec fn text_keys(ids: Seq<Seq<char>>) -> Seq<Seq<u64>> {
    ids.map_values(|s: Seq<char>| text_key(s))
}

/// An ascending list holds each text once: without its last, it holds the
/// others.
proof fn lemma_others(ids: Seq<Seq<char>>, id: Seq<char>)
    requires
        ids.len() > 0,
        ascending(text_keys(ids)),
    ensures
        ids.drop_last().contains(id) <==> ids.contains(id) && id != ids.last(),
{
    let init = ids.drop_last();
    let keys = text_keys(ids);
    if init.contains(id) {
        let i = init.index_of(id);
        assert(ids[i] == id);
        assert(before(keys[i], keys[ids.len() - 1]));
        lemma_total(keys[i], keys[ids.len() - 1]);
    }
    if ids.contains(id) && id != ids.last() {
        let i = ids.index_of(id);
        assert(init[i] == id);
    }
}

/// Two ascending lists of the same texts are one list.
proof fn lemma_one_list(ids: Seq<Seq<char>>, other: Seq<Seq<char>>)
    requires
        ascending(text_keys(ids)),
        ascending(text_keys(other)),
        forall|id: Seq<char>| #[trigger] ids.contains(id) <==> other.contains(id),
    ensures
        ids == other,
    decreases ids.len(),
{
    if ids.len() == 0 {
        if other.len() > 0 {
            assert(other.contains(other[0]));
            assert(ids.contains(other[0]));
        }
        assert(ids =~= other);
    } else {
        assert(ids.contains(ids.last()));
        assert(other.contains(ids.last()));
        let x = ids.last();
        let y = other.last();
        assert(other.contains(y));
        assert(ids.contains(y));
        if x != y {
            let i = ids.index_of(y);
            let j = other.index_of(x);
            assert(before(text_keys(ids)[i], text_keys(ids)[ids.len() - 1]));
            assert(before(text_keys(other)[j], text_keys(other)[other.len() - 1]));
            lemma_total(text_key(x), text_key(y));
        }
        assert forall|id: Seq<char>| #[trigger]
            ids.drop_last().contains(id) <==> other.drop_last().contains(id) by {
            lemma_others(ids, id);
            lemma_others(other, id);
        }
        assert forall|i: int, j: int| 0 <= i < j < ids.len() - 1 implies before(
            #[trigger] text_keys(ids.drop_last())[i],
            #[trigger] text_keys(ids.drop_last())[j],
        ) by {
            assert(before(text_keys(ids)[i], text_keys(ids)[j]));
        }
        assert forall|i: int, j: int| 0 <= i < j < other.len() - 1 implies before(
            #[trigger] text_keys(other.drop_last())[i],
            #[trigger] text_keys(other.drop_last())[j],
        ) by {
            assert(before(text_keys(other)[i], text_keys(other)[j]));
        }
        lemma_one_list(ids.drop_last(), other.drop_last());
        assert(ids =~= ids.drop_last().push(x));
        assert(other =~= other.drop_last().push(x));
    }
}

/// The comparison of two runs the other way round has the same rows, each with
/// its two statuses changed over, and a pass gained where one was lost.
pub proof fn law_the_other_way_round_is_mirrored(
    a: Seq<ResultView>,
    b: Seq<ResultView>,
    ids: Seq<Seq<char>>,
    other: Seq<Seq<char>>,
)
    requires
        lists_ids(ids, a, b),
        lists_ids(other, b, a),
    ensures
        other.map_values(|id: Seq<char>| compared(b, a, id)) == ids.map_values(
            |id: Seq<char>| compared(a, b, id),
        ).map_values(|r: RowView| mirrored(r)),
{
    reveal_strlit("↑");
    reveal_strlit("↓");
    reveal_strlit("");
    assert("↑"@[0] != "↓"@[0]);
    assert("↑"@.len() != ""@.len() && "↓"@.len() != ""@.len());
    assert forall|id: Seq<char>| #[trigger] ids.contains(id) <==> other.contains(id) by {
        assert(ids.contains(id) <==> has_id(a, id) || has_id(b, id));
        assert(other.contains(id) <==> has_id(b, id) || has_id(a, id));
    }
    lemma_one_list(ids, other);
    assert(other.map_values(|id: Seq<char>| compared(b, a, id)) =~= ids.map_values(
        |id: Seq<char>| compared(a, b, id),
    ).map_values(|r: RowView| mirrored(r)));
}

/// The width of a comparison's first column.
pub open spec fn column(ids: Seq<Seq<char>>) -> nat {
    if widest(ids) < 4 {
        4
    } else {
        widest(ids)
    }
}

pub open spec fn row_ids(rows: Seq<CompareRow>) -> Seq<Seq<char>> {
    rows.map_values(|r: CompareRow| r.id@)
}

/// A row of the comparison, without its marker.
pub open spec fn row_text(id: Seq<char>, a: Seq<char>, b: Seq<char>, width: nat) -> Seq<char> {
    left_in(id, width) + "  "@ + left_in(a, 8) + "  "@ + left_in(b, 8)
}

fn show_row(id: &str, a: &str, b: &str, width: usize) -> (r: String)
    ensures
        r@ == row_text(id@, a@, b@, width as nat),
{
    let mut m = pad_to(id, width);
    m.append("  ");
    m.append(&pad_to(a, 8));
    m.append("  ");
    m.append(&pad_to(b, 8));
    m
}

/// The lines of a comparison, below its head.
pub open spec fn table_text(rows: Seq<CompareRow>, width: nat) -> Seq<char>
    decreases rows.len(),
{
    if rows.len() == 0 {
        row_text("case"@, "A"@, "B"@, width)
    } else {
        let r = rows.last();
        table_text(rows.drop_last(), width) + "\n"@ + row_text(
            r.id@,
            r.a_status@,
            r.b_status@,
            width,
        ) + "  "@ + r.marker@
    }
}

fn rows_width(rows: &Vec<CompareRow>) -> (r: usize)
    ensures
        r == column(row_ids(rows@)),
{
    let ghost ids = row_ids(rows@);
    let mut max: usize = 0;
    let mut i: usize = 0;
    assert(ids.take(0) =~= Seq::empty());
    while i < rows.len()
        invariant
            i <= rows.len(),
            ids == row_ids(rows@),
            max == widest(ids.take(i as int)),
        decreases rows.len() - i,
    {
        assert(ids.take(i + 1).drop_last() =~= ids.take(i as int));
        assert(ids.take(i + 1).last() == rows@[i as int].id@);
        let n = rows[i].id.as_str().as_bytes().len();
        if n > max {
            max = n;
        }
        i += 1;
    }
    assert(ids.take(ids.len() as int) =~= ids);
    if max < 4 {
        4
    } else {
        max
    }
}

/// The table of a comparison.
pub fn compare_table(rows: &Vec<CompareRow>) -> (r: String)
    ensures
        r@ == table_text(rows@, column(row_ids(rows@))),
{
    let width = rows_width(rows);
    let mut m = show_row("case", "A", "B", width);
    let mut i: usize = 0;
    assert(rows@.take(0) =~= Seq::empty());
    while i < rows.len()
        invariant
            i <= rows.len(),
            m@ == table_text(rows@.take(i as int), width as nat),
        decreases rows.len() - i,
    {
        assert(rows@.take(i + 1).drop_last() =~= rows@.take(i as int));
        assert(rows@.take(i + 1).last() == rows@[i as int]);
        let r = &rows[i];
        m.append("\n");
        m.append(&show_row(&r.id, &r.a_status, &r.b_status, width));
        m.append("  ");
        m.append(r.marker);
        i += 1;
    }
    assert(rows@.take(rows@.len() as int) =~= rows@);
    m
}

} // verus!
