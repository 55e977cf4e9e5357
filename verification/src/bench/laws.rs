//! What holds of cases that are chosen, replayed, counted and compared.

use crate::bench::cases::{
    found, id_char, is_case_id, kept_lines, promotable, promoted, BenchCase, CaseView,
    TrajectoryRecord,
};
use crate::bench::compare::{compared, last_of, passes, ResultView};
use crate::bench::runner::{
    cases_view, first_missing, has_case, has_tag, is_selected, selection, CaseEvent, CaseStep,
    RunView, ShellOutcome,
};
use crate::claude_session::line::Stamp;
use crate::text::{starts_with, trim};
use crate::text_laws::{law_blank_says_nothing, says_something};
use vstd::prelude::*;

verus! {

/// A case goes step by step: its commit is resolved, its worktree added, the
/// harness run and then the check; what each step gave is kept, and the check's
/// exit decides.  A step that fails ends the case with the reason, and one that
/// takes too long ends it as a timeout.
pub proof fn law_a_case_goes_step_by_step(r: RunView, e: String, o: ShellOutcome)
    ensures
        r.step == CaseStep::Resolve ==> r.stepped(CaseEvent::Resolved(Ok(()))) == (RunView {
            step: CaseStep::AddWorktree,
            ..r
        }),
        r.step == CaseStep::Resolve ==> r.stepped(CaseEvent::Resolved(Err(e))) == (RunView {
            step: CaseStep::Abandon,
            result: ResultView { error: Some("base ref not resolvable: "@ + e@), ..r.result },
        }),
        r.step == CaseStep::AddWorktree ==> r.stepped(CaseEvent::WorktreeAdded(Ok(()))) == (
        RunView { step: CaseStep::RunHarness, ..r }),
        r.step == CaseStep::AddWorktree ==> r.stepped(CaseEvent::WorktreeAdded(Err(e))) == (
        RunView {
            step: CaseStep::Abandon,
            result: ResultView { error: Some("worktree setup failed: "@ + e@), ..r.result },
        }),
        r.step == CaseStep::RunHarness ==> (match o {
            ShellOutcome::Finished { exit } => r.stepped(CaseEvent::Ended(o)) == (RunView {
                step: CaseStep::RunCheck,
                result: ResultView { harness_exit: exit, ..r.result },
            }),
            ShellOutcome::TimedOut => r.stepped(CaseEvent::Ended(o)) == (RunView {
                step: CaseStep::Finish,
                result: ResultView { status: "timeout"@, ..r.result },
            }),
            ShellOutcome::SpawnFailed(why) => r.stepped(CaseEvent::Ended(o)) == (RunView {
                step: CaseStep::Finish,
                result: ResultView { error: Some("spawning harness: "@ + why@), ..r.result },
            }),
        }),
        r.step == CaseStep::RunCheck ==> (match o {
            ShellOutcome::Finished { exit } => {
                let t = r.stepped(CaseEvent::Ended(o));
                &&& t.step == CaseStep::Finish
                &&& t.result.check_exit == exit
                &&& t.result.harness_exit == r.result.harness_exit
                &&& exit == Some(0i32) ==> t.result.passed && t.result.status == "pass"@
                &&& exit != Some(0i32) ==> t.result.passed == r.result.passed && t.result.status
                    == "fail"@
            },
            ShellOutcome::TimedOut => r.stepped(CaseEvent::Ended(o)) == (RunView {
                step: CaseStep::Finish,
                result: ResultView { status: "timeout"@, ..r.result },
            }),
            ShellOutcome::SpawnFailed(why) => r.stepped(CaseEvent::Ended(o)) == (RunView {
                step: CaseStep::Finish,
                result: ResultView { error: Some("spawning check: "@ + why@), ..r.result },
            }),
        }),
        r.step == CaseStep::Finish || r.step == CaseStep::Abandon ==> r.stepped(
            CaseEvent::Ended(o),
        ) == r,
{
}

/// A run counts exactly the cases that passed.
pub proof fn law_a_run_counts_what_passed(cases: Seq<ResultView>)
    ensures
        passes(cases) == cases.filter(|c: ResultView| c.passed).len(),
    decreases cases.len(),
{
    reveal(Seq::filter);
    if cases.len() > 0 {
        law_a_run_counts_what_passed(cases.drop_last());
    }
}

/// The result at `i` is the last of the case; `-1` stands for none.
pub open spec fn is_last(cases: Seq<ResultView>, id: Seq<char>, i: int) -> bool {
    &&& -1 <= i < cases.len()
    &&& i >= 0 ==> cases[i].id == id
    &&& forall|j: int| i < j < cases.len() ==> (#[trigger] cases[j]).id != id
}

proof fn lemma_last(cases: Seq<ResultView>, id: Seq<char>, i: int)
    requires
        is_last(cases, id, i),
    ensures
        last_of(cases, id) == if i < 0 {
            None
        } else {
            Some(cases[i])
        },
    decreases cases.len(),
{
    if cases.len() > 0 && i < cases.len() - 1 {
        assert(cases[cases.len() - 1].id != id);
        let d = cases.drop_last();
        assert forall|j: int| i < j < d.len() implies (#[trigger] d[j]).id != id by {
            assert(d[j] == cases[j]);
        }
        lemma_last(d, id, i);
    }
}

/// Two runs are compared case by case, by the last result of each: an arrow up
/// marks a pass that was gained, one down a pass that was lost, and nothing else
/// is marked.
pub proof fn law_a_comparison_marks_what_changed(
    a: Seq<ResultView>,
    b: Seq<ResultView>,
    id: Seq<char>,
    i: int,
    j: int,
)
    requires
        is_last(a, id, i),
        is_last(b, id, j),
    ensures
        ({
            let r = compared(a, b, id);
            let was = i >= 0 && a[i].passed;
            let now = j >= 0 && b[j].passed;
            &&& r.id == id
            &&& i >= 0 ==> r.a_status == a[i].status
            &&& i < 0 ==> r.a_status == "—"@
            &&& j >= 0 ==> r.b_status == b[j].status
            &&& j < 0 ==> r.b_status == "—"@
            &&& !was && now ==> r.marker == "↑"@
            &&& was && !now ==> r.marker == "↓"@
            &&& was == now ==> r.marker == ""@
        }),
{
    lemma_last(a, id, i);
    lemma_last(b, id, j);
}

/// The case is asked for, by its id or by a tag.
pub open spec fn is_asked_for(c: CaseView, ids: Seq<Seq<char>>, tags: Seq<Seq<char>>) -> bool {
    ids.contains(c.id) || exists|t: Seq<char>| #[trigger] tags.contains(t) && c.tags.contains(t)
}

proof fn lemma_missing(wanted: Seq<Seq<char>>, known: spec_fn(Seq<char>) -> bool)
    ensures
        first_missing(wanted, known) is None <==> forall|i: int|
            0 <= i < wanted.len() ==> known(#[trigger] wanted[i]),
    decreases wanted.len(),
{
    if wanted.len() > 0 {
        let d = wanted.drop_first();
        lemma_missing(d, known);
        if first_missing(wanted, known) is None {
            assert forall|i: int| 0 <= i < wanted.len() implies known(#[trigger] wanted[i]) by {
                if i > 0 {
                    assert(d[i - 1] == wanted[i]);
                }
            }
        }
        if forall|i: int| 0 <= i < wanted.len() ==> known(#[trigger] wanted[i]) {
            assert(known(wanted[0]));
            assert forall|i: int| 0 <= i < d.len() implies known(#[trigger] d[i]) by {
                assert(d[i] == wanted[i + 1]);
            }
        }
    }
}

/// Without a filter every case is run; with one, exactly those asked for by id or
/// tag, in order.  A filter that names what no case has is refused.
pub proof fn law_a_run_takes_the_cases_asked_for(
    cases: Seq<BenchCase>,
    ids: Seq<Seq<char>>,
    tags: Seq<Seq<char>>,
)
    ensures
        ids.len() == 0 && tags.len() == 0 ==> selection(cases, ids, tags) == Ok::<
            Seq<BenchCase>,
            Seq<char>,
        >(cases),
        ids.len() + tags.len() > 0 ==> ({
            let known = (forall|i: int|
                0 <= i < ids.len() ==> has_case(cases_view(cases), #[trigger] ids[i])) && (forall|
                i: int,
            |
                0 <= i < tags.len() ==> has_tag(cases_view(cases), #[trigger] tags[i]));
            &&& selection(cases, ids, tags) is Ok <==> known
            &&& known ==> selection(cases, ids, tags) == Ok::<Seq<BenchCase>, Seq<char>>(
                cases.filter(|c: BenchCase| is_asked_for(c@, ids, tags)),
            )
        }),
{
    let all = cases_view(cases);
    lemma_missing(ids, |id: Seq<char>| has_case(all, id));
    lemma_missing(tags, |tag: Seq<char>| has_tag(all, tag));
    assert forall|c: BenchCase| #[trigger] is_asked_for(c@, ids, tags) == is_selected(
        c@,
        ids,
        tags,
    ) by {
        if exists|t: Seq<char>| #[trigger] tags.contains(t) && c@.tags.contains(t) {
            let t = choose|t: Seq<char>| #[trigger] tags.contains(t) && c@.tags.contains(t);
            let i = choose|i: int| 0 <= i < c@.tags.len() && c@.tags[i] == t;
            assert(tags.contains(c@.tags[i]));
        }
        if exists|i: int| 0 <= i < c@.tags.len() && tags.contains(#[trigger] c@.tags[i]) {
            let i = choose|i: int| 0 <= i < c@.tags.len() && tags.contains(#[trigger] c@.tags[i]);
            assert(c@.tags.contains(c@.tags[i]));
        }
    }
    lemma_same_cases(
        cases,
        |c: BenchCase| is_selected(c@, ids, tags),
        |c: BenchCase| is_asked_for(c@, ids, tags),
    );
}

proof fn lemma_same_cases(
    cases: Seq<BenchCase>,
    a: spec_fn(BenchCase) -> bool,
    b: spec_fn(BenchCase) -> bool,
)
    requires
        forall|c: BenchCase| #[trigger] a(c) == b(c),
    ensures
        cases.filter(a) == cases.filter(b),
    decreases cases.len(),
{
    reveal(Seq::filter);
    if cases.len() > 0 {
        lemma_same_cases(cases.drop_last(), a, b);
        assert(a(cases.last()) == b(cases.last()));
    }
}

/// A turn that is promoted gives the case its prompt and the commit it started
/// from, and its own id unless another is given.
pub proof fn law_a_promoted_turn_keeps_prompt_and_commit(
    t: TrajectoryRecord,
    check: Seq<char>,
    id: Option<Seq<char>>,
    timeout: u64,
    check_timeout: u64,
    tags: Seq<Seq<char>>,
    created: Stamp,
    notes: Option<Seq<char>>,
)
    ensures
        ({
            let c = promoted(t, check, id, timeout, check_timeout, tags, created, notes);
            &&& c.prompt == t.prompt@
            &&& t.git_ref is Some ==> c.base_ref == t.git_ref->0@
            &&& id is Some ==> c.id == id->0
            &&& id is None ==> c.id == t.id@
            &&& c.check == check
            &&& c.timeout_secs == timeout
            &&& c.check_timeout_secs == check_timeout
            &&& c.tags == tags
            &&& c.created == created
            &&& c.notes == notes
            &&& c.source == "recorded"@
        }),
{
}

proof fn lemma_found(records: Seq<TrajectoryRecord>, prefix: Seq<char>)
    ensures
        forall|k: int|
            0 <= k < found(records, prefix).len() ==> 0 <= #[trigger] found(records, prefix)[k]
                < records.len() && starts_with(records[found(records, prefix)[k]].id@, prefix),
        forall|i: int|
            0 <= i < records.len() && starts_with((#[trigger] records[i]).id@, prefix) ==> found(
                records,
                prefix,
            ).contains(i),
    decreases records.len(),
{
    if records.len() > 0 {
        let init = records.drop_last();
        let h = found(init, prefix);
        let g = found(records, prefix);
        lemma_found(init, prefix);
        assert forall|k: int| 0 <= k < g.len() implies 0 <= #[trigger] g[k] < records.len()
            && starts_with(records[g[k]].id@, prefix) by {
            if k < h.len() {
                assert(0 <= h[k] < init.len());
                assert(init[h[k]] == records[h[k]]);
            }
        }
        assert forall|i: int| 0 <= i < records.len() && starts_with(
            (#[trigger] records[i]).id@,
            prefix,
        ) implies g.contains(i) by {
            if i < init.len() {
                assert(init[i] == records[i]);
                let k = choose|k: int| 0 <= k < h.len() && h[k] == i;
                assert(g[k] == i);
            } else {
                assert(g[g.len() - 1] == i);
            }
        }
    }
}

/// Only a turn that a prefix of its id names alone, that was made in a repository
/// and that started without changes is promoted.
pub proof fn law_only_a_clean_turn_is_promoted(
    records: Seq<TrajectoryRecord>,
    prefix: Seq<char>,
    i: int,
)
    ensures
        promotable(records, prefix) == Ok::<int, Seq<char>>(i) ==> {
            &&& 0 <= i < records.len()
            &&& starts_with(records[i].id@, prefix)
            &&& records[i].git_ref is Some
            &&& !records[i].dirty
            &&& forall|k: int|
                0 <= k < records.len() && k != i ==> !starts_with(
                    (#[trigger] records[k]).id@,
                    prefix,
                )
        },
{
    lemma_found(records, prefix);
    let h = found(records, prefix);
    if promotable(records, prefix) == Ok::<int, Seq<char>>(i) {
        assert(h.len() == 1 && h[0] == i);
        assert forall|k: int| 0 <= k < records.len() && k != i implies !starts_with(
            (#[trigger] records[k]).id@,
            prefix,
        ) by {
            if starts_with(records[k].id@, prefix) {
                assert(h.contains(k));
            }
        }
    }
}

/// The lines of a log are those that say something, each without the white space
/// around it, in order.
pub proof fn law_a_log_keeps_what_says_something(ls: Seq<Seq<char>>, l: Seq<char>)
    ensures
        kept_lines(Seq::empty()).len() == 0,
        says_something(l) ==> kept_lines(ls.push(l)) == kept_lines(ls).push(trim(l)),
        !says_something(l) ==> kept_lines(ls.push(l)) == kept_lines(ls),
{
    law_blank_says_nothing(l);
    assert(ls.push(l).drop_last() =~= ls);
}

/// An id is made of letters, digits, `_` and `-`, and is not empty.
pub proof fn law_an_id_is_safe_for_files(id: Seq<char>, i: int)
    ensures
        is_case_id(id) && 0 <= i < id.len() ==> {
            ||| 'a' <= id[i] <= 'z'
            ||| 'A' <= id[i] <= 'Z'
            ||| '0' <= id[i] <= '9'
            ||| id[i] == '_'
            ||| id[i] == '-'
        },
        is_case_id(id) ==> id.len() > 0,
        id.len() > 0 && (forall|k: int|
            0 <= k < id.len() ==> 'a' <= #[trigger] id[k] <= 'z' || '0' <= id[k] <= '9' || id[k]
                == '-') ==> is_case_id(id),
{
    if is_case_id(id) && 0 <= i < id.len() {
        assert(id_char(id[i]));
    }
}

} // verus!
