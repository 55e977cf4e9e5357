//! Replaying cases: which run, the command they run, and what their outcome is.

use crate::bench::cases::{BenchCase, CaseView};
use crate::bench::compare::{CaseResult, ResultView};
use crate::json::text_opt;
use crate::text::{
    chars_of, decimal, has_item, number, replace, replaced, same, texts,
};
use vstd::prelude::*;

verus! {

pub open spec fn cases_view(c: Seq<BenchCase>) -> Seq<CaseView> {
    c.map_values(|x: BenchCase| x@)
}

/// Whether a case is selected: its id is wanted, or one of its tags.
pub open spec fn is_selected(c: CaseView, ids: Seq<Seq<char>>, tags: Seq<Seq<char>>) -> bool {
    ids.contains(c.id) || exists|i: int| 0 <= i < c.tags.len() && tags.contains(#[trigger] c.tags[i])
}

/// Whether some case has an id.
pub open spec fn has_case(cases: Seq<CaseView>, id: Seq<char>) -> bool {
    exists|i: int| 0 <= i < cases.len() && (#[trigger] cases[i]).id == id
}

/// Whether some case has a tag.
pub open spec fn has_tag(cases: Seq<CaseView>, tag: Seq<char>) -> bool {
    exists|i: int| 0 <= i < cases.len() && (#[trigger] cases[i]).tags.contains(tag)
}

/// Why a selection is refused: the first id that no case has, else the first
/// tag.
pub open spec fn unknown(cases: Seq<CaseView>, ids: Seq<Seq<char>>, tags: Seq<Seq<char>>) -> Option<
    Seq<char>,
> {
    match first_missing(ids, |id: Seq<char>| has_case(cases, id)) {
        Some(id) => Some("no such case '"@ + id + "' — see `wizard bench list`"@),
        None => match first_missing(tags, |tag: Seq<char>| has_tag(cases, tag)) {
            Some(tag) => Some("no case carries tag '"@ + tag + "' — see `wizard bench list`"@),
            None => None,
        },
    }
}

/// The first of a list that is not known.
pub open spec fn first_missing(wanted: Seq<Seq<char>>, known: spec_fn(Seq<char>) -> bool) -> Option<
    Seq<char>,
>
    decreases wanted.len(),
{
    if wanted.len() == 0 {
        None
    } else if !known(wanted[0]) {
        Some(wanted[0])
    } else {
        first_missing(wanted.drop_first(), known)
    }
}

fn any_case(cases: &Vec<BenchCase>, id: &str) -> (r: bool)
    ensures
        r == has_case(cases_view(cases@), id@),
{
    let mut i: usize = 0;
    while i < cases.len()
        invariant
            i <= cases.len(),
            forall|k: int| 0 <= k < i ==> (#[trigger] cases_view(cases@)[k]).id != id@,
        decreases cases.len() - i,
    {
        assert(cases_view(cases@)[i as int].id == cases@[i as int].id@);
        if same(&cases[i].id, id) {
            return true;
        }
        i += 1;
    }
    false
}

fn any_tag(cases: &Vec<BenchCase>, tag: &str) -> (r: bool)
    ensures
        r == has_tag(cases_view(cases@), tag@),
{
    let mut i: usize = 0;
    while i < cases.len()
        invariant
            i <= cases.len(),
            forall|k: int| 0 <= k < i ==> !(#[trigger] cases_view(cases@)[k]).tags.contains(tag@),
        decreases cases.len() - i,
    {
        assert(cases_view(cases@)[i as int].tags == texts(cases@[i as int].tags@));
        if has_item(&cases[i].tags, tag) {
            return true;
        }
        i += 1;
    }
    false
}

fn wants(case: &BenchCase, ids: &Vec<String>, tags: &Vec<String>) -> (r: bool)
    ensures
        r == is_selected(case@, texts(ids@), texts(tags@)),
{
    if has_item(ids, &case.id) {
        return true;
    }
    let mut i: usize = 0;
    while i < case.tags.len()
        invariant
            i <= case.tags.len(),
            forall|k: int| 0 <= k < i ==> !texts(tags@).contains(#[trigger] case@.tags[k]),
        decreases case.tags.len() - i,
    {
        assert(case@.tags[i as int] == case.tags@[i as int]@);
        if has_item(tags, &case.tags[i]) {
            return true;
        }
        i += 1;
    }
    false
}

fn check_known(cases: &Vec<BenchCase>, ids: &Vec<String>, tags: &Vec<String>) -> (r: Option<String>)
    ensures
        text_opt(r) == unknown(cases_view(cases@), texts(ids@), texts(tags@)),
{
    let ghost all = cases_view(cases@);
    let ghost known_id = |id: Seq<char>| has_case(all, id);
    let ghost known_tag = |tag: Seq<char>| has_tag(all, tag);
    let mut i: usize = 0;
    assert(texts(ids@).skip(0) =~= texts(ids@));
    while i < ids.len()
        invariant
            i <= ids.len(),
            all == cases_view(cases@),
            known_id == (|id: Seq<char>| has_case(all, id)),
            first_missing(texts(ids@), known_id) == first_missing(
                texts(ids@).skip(i as int),
                known_id,
            ),
        decreases ids.len() - i,
    {
        assert(texts(ids@).skip(i as int)[0] == ids@[i as int]@);
        if !any_case(cases, &ids[i]) {
            let mut m = "no such case '".to_string();
            m.append(&ids[i]);
            m.append("' — see `wizard bench list`");
            return Some(m);
        }
        assert(texts(ids@).skip(i as int).drop_first() =~= texts(ids@).skip(i + 1));
        i += 1;
    }
    let mut j: usize = 0;
    assert(texts(tags@).skip(0) =~= texts(tags@));
    while j < tags.len()
        invariant
            j <= tags.len(),
            all == cases_view(cases@),
            first_missing(texts(ids@), |id: Seq<char>| has_case(all, id)) is None,
            known_tag == (|tag: Seq<char>| has_tag(all, tag)),
            first_missing(texts(tags@), known_tag) == first_missing(
                texts(tags@).skip(j as int),
                known_tag,
            ),
        decreases tags.len() - j,
    {
        assert(texts(tags@).skip(j as int)[0] == tags@[j as int]@);
        if !any_tag(cases, &tags[j]) {
            let mut m = "no case carries tag '".to_string();
            m.append(&tags[j]);
            m.append("' — see `wizard bench list`");
            return Some(m);
        }
        assert(texts(tags@).skip(j as int).drop_first() =~= texts(tags@).skip(j + 1));
        j += 1;
    }
    None
}

/// The cases that filters select: all of them without a filter, otherwise those
/// with a wanted id or a wanted tag; or why a filter is refused.
pub open spec fn selection(
    cases: Seq<BenchCase>,
    ids: Seq<Seq<char>>,
    tags: Seq<Seq<char>>,
) -> Result<Seq<BenchCase>, Seq<char>> {
    if ids.len() == 0 && tags.len() == 0 {
        Ok(cases)
    } else {
        match unknown(cases_view(cases), ids, tags) {
            Some(e) => Err(e),
            None => Ok(cases.filter(|c: BenchCase| is_selected(c@, ids, tags))),
        }
    }
}

/// Why a run of nothing is refused.
pub const NOTHING_TO_RUN: &'static str =
    "no cases to run — create one with `wizard bench add` or `wizard bench promote`";

/// Keep the selected cases: those with a wanted id or a wanted tag.  Without
/// either everything is selected; a filter that matches nothing is refused.
pub fn select_cases(cases: Vec<BenchCase>, ids: &Vec<String>, tags: &Vec<String>) -> (r: Result<
    Vec<BenchCase>,
    String,
>)
    ensures
        match selection(cases@, texts(ids@), texts(tags@)) {
            Err(e) => r is Err && r->Err_0@ == e,
            Ok(chosen) => r is Ok && (r->Ok_0)@ == chosen,
        },
{
    assert(texts(ids@).len() == ids@.len() && texts(tags@).len() == tags@.len());
    if ids.len() == 0 && tags.len() == 0 {
        return Ok(cases);
    }
    if let Some(e) = check_known(&cases, ids, tags) {
        return Err(e);
    }
    let ghost all = cases@;
    let ghost wanted = |c: BenchCase| is_selected(c@, texts(ids@), texts(tags@));
    let mut out: Vec<BenchCase> = Vec::new();
    reveal(Seq::filter);
    assert(all.take(0) =~= Seq::empty());
    assert(out@ =~= all.take(0).filter(wanted));
    for case in it: cases
        invariant
            it.seq() == all,
            wanted == (|c: BenchCase| is_selected(c@, texts(ids@), texts(tags@))),
            out@ == all.take(it.index() as int).filter(wanted),
    {
        reveal(Seq::filter);
        let ghost done = it.index() as int;
        assert(all.take(done + 1).drop_last() =~= all.take(done));
        assert(all.take(done + 1).last() == case);
        if wants(&case, ids, tags) {
            out.push(case);
        }
    }
    assert(all.take(all.len() as int) =~= all);
    Ok(out)
}

/// The cases to replay: the selection, as [`select_cases`] makes it, which must
/// not be empty.
pub fn cases_to_run(cases: Vec<BenchCase>, ids: &Vec<String>, tags: &Vec<String>) -> (r: Result<
    Vec<BenchCase>,
    String,
>)
    ensures
        match selection(cases@, texts(ids@), texts(tags@)) {
            Err(e) => r is Err && r->Err_0@ == e,
            Ok(chosen) => if chosen.len() == 0 {
                r is Err && r->Err_0@ == NOTHING_TO_RUN@
            } else {
                r is Ok && (r->Ok_0)@ == chosen
            },
        },
{
    match select_cases(cases, ids, tags) {
        Err(e) => Err(e),
        Ok(chosen) => if chosen.len() == 0 {
            Err(NOTHING_TO_RUN.to_string())
        } else {
            Ok(chosen)
        },
    }
}

/// What is written between quotes for a text: a quote closes them, stands
/// escaped, and opens them again.
pub open spec fn within_quotes(s: Seq<char>) -> Seq<char>
    decreases s.len(),
{
    if s.len() == 0 {
        Seq::empty()
    } else {
        within_quotes(s.drop_last()) + if s.last() == '\'' {
            seq!['\'', '\\', '\'', '\'']
        } else {
            seq![s.last()]
        }
    }
}

/// A text as one word of the shell.
pub open spec fn escaped(s: Seq<char>) -> Seq<char> {
    seq!['\''] + within_quotes(s) + seq!['\'']
}

/// Wrap a text in single quotes for the shell, escaping embedded ones.
pub fn shell_escape(s: &str) -> (r: String)
    ensures
        r@ == escaped(s@),
{
    let cs = chars_of(s);
    let mut out: Vec<char> = Vec::new();
    out.push('\'');
    let mut i: usize = 0;
    assert(cs@.take(0) =~= Seq::empty());
    assert(out@ =~= seq!['\''] + within_quotes(cs@.take(0)));
    while i < cs.len()
        invariant
            i <= cs.len(),
            out@ == seq!['\''] + within_quotes(cs@.take(i as int)),
        decreases cs.len() - i,
    {
        assert(cs@.take(i + 1).drop_last() =~= cs@.take(i as int));
        assert(cs@.take(i + 1).last() == cs@[i as int]);
        let ghost was = out@;
        if cs[i] == '\'' {
            out.push('\'');
            out.push('\\');
            out.push('\'');
            out.push('\'');
            assert(out@ =~= was + seq!['\'', '\\', '\'', '\'']);
        } else {
            out.push(cs[i]);
            assert(out@ =~= was + seq![cs@[i as int]]);
        }
        assert(out@ =~= seq!['\''] + within_quotes(cs@.take(i + 1)));
        i += 1;
    }
    assert(cs@.take(cs@.len() as int) =~= cs@);
    out.push('\'');
    assert(out@ =~= escaped(s@));
    crate::text::string_of(&out)
}

/// What the shell reads as one word, where it is all quoted: between single
/// quotes every character stands for itself, outside them only a character
/// behind a backslash.
pub open spec fn shell_word(t: Seq<char>, quoted: bool) -> Option<Seq<char>>
    decreases t.len(),
{
    if t.len() == 0 {
        if quoted {
            None
        } else {
            Some(Seq::empty())
        }
    } else if t[0] == '\'' {
        shell_word(t.skip(1), !quoted)
    } else if quoted {
        match shell_word(t.skip(1), true) {
            Some(w) => Some(seq![t[0]] + w),
            None => None,
        }
    } else if t[0] == '\\' && t.len() >= 2 {
        match shell_word(t.skip(2), false) {
            Some(w) => Some(seq![t[1]] + w),
            None => None,
        }
    } else {
        None
    }
}

/// What follows a quoted text is read after it.
proof fn lemma_within(s: Seq<char>, rest: Seq<char>)
    ensures
        shell_word(within_quotes(s) + rest, true) == match shell_word(rest, true) {
            Some(w) => Some(s + w),
            None => None,
        },
    decreases s.len(),
{
    if s.len() == 0 {
        assert(within_quotes(s) + rest =~= rest);
        if let Some(w) = shell_word(rest, true) {
            assert(s + w =~= w);
        }
    } else {
        let init = s.drop_last();
        let c = s.last();
        if c == '\'' {
            let more = seq!['\'', '\\', '\'', '\''] + rest;
            assert(within_quotes(s) + rest =~= within_quotes(init) + more);
            lemma_within(init, more);
            assert(more.skip(1) =~= seq!['\\', '\'', '\''] + rest);
            let after = more.skip(1);
            assert(after.skip(2) =~= seq!['\''] + rest);
            let last = after.skip(2);
            assert(last.skip(1) =~= rest);
            assert(shell_word(last, false) == shell_word(rest, true));
            assert(after[0] == '\\' && after[1] == '\'');
            assert(more[0] == '\'');
            assert(shell_word(more, true) == shell_word(after, false));
        } else {
            let more = seq![c] + rest;
            assert(within_quotes(s) + rest =~= within_quotes(init) + more);
            lemma_within(init, more);
            assert(more.skip(1) =~= rest);
            assert(more[0] == c);
        }
        if let Some(w) = shell_word(rest, true) {
            assert(init + (seq![c] + w) =~= s + w);
        }
    }
}

/// The shell reads an escaped text back as one word, whatever it holds.
pub proof fn law_shell_reads_back_what_was_escaped(s: Seq<char>)
    ensures
        shell_word(escaped(s), false) == Some(s),
{
    let end = seq!['\''];
    let t = escaped(s);
    assert(t[0] == '\'');
    assert(t.skip(1) =~= within_quotes(s) + end);
    lemma_within(s, end);
    assert(end.skip(1) =~= Seq::empty());
    assert(shell_word(end, true) == shell_word(end.skip(1), false));
    assert(s + Seq::<char>::empty() =~= s);
}

/// Substitute `{prompt}` in a command template with the quoted prompt.
pub fn render_template(template: &str, prompt: &str) -> (r: String)
    ensures
        r@ == replace(template@, "{prompt}"@, escaped(prompt@)),
{
    proof {
        reveal_strlit("{prompt}");
    }
    replaced(template, "{prompt}", &shell_escape(prompt))
}

/// The command template of this program itself.
pub fn default_runner(exe: &str) -> (r: String)
    ensures
        r@ == exe@ + " --mode sovereign -p {prompt}"@,
{
    let mut m = exe.to_string();
    m.append(" --mode sovereign -p {prompt}");
    m
}

/// How one command ended.
#[derive(Debug, PartialEq, Eq)]
pub enum ShellOutcome {
    Finished { exit: Option<i32> },
    TimedOut,
    SpawnFailed(String),
}

/// How one command ended.
pub enum OutcomeView {
    Finished { exit: Option<i32> },
    TimedOut,
    SpawnFailed(Seq<char>),
}

impl View for ShellOutcome {
    type V = OutcomeView;

    open spec fn view(&self) -> OutcomeView {
        match self {
            ShellOutcome::Finished { exit } => OutcomeView::Finished { exit: *exit },
            ShellOutcome::TimedOut => OutcomeView::TimedOut,
            ShellOutcome::SpawnFailed(e) => OutcomeView::SpawnFailed(e@),
        }
    }
}

/// What replaying a case asks for next.
#[derive(Clone, Copy, Debug, PartialEq, Eq, Structural)]
pub enum CaseStep {
    /// Resolve the commit.
    Resolve,
    /// Add the worktree.
    AddWorktree,
    /// Run the harness command in it.
    RunHarness,
    /// Run the check command in it.
    RunCheck,
    /// Nothing: the result stands.  The worktree is there to be removed.
    Finish,
    /// Nothing: the result stands.  There is no worktree.
    Abandon,
}

/// What an asked-for step gave.
#[derive(Debug, PartialEq, Eq)]
pub enum CaseEvent {
    Resolved(Result<(), String>),
    WorktreeAdded(Result<(), String>),
    Ended(ShellOutcome),
}

/// One case being replayed.
#[derive(Debug, PartialEq, Eq)]
pub struct CaseRun {
    pub step: CaseStep,
    pub result: CaseResult,
}

pub struct RunView {
    pub step: CaseStep,
    pub result: ResultView,
}

impl View for CaseRun {
    type V = RunView;

    open spec fn view(&self) -> RunView {
        RunView { step: self.step, result: self.result@ }
    }
}

/// A result of which nothing is known yet.
pub open spec fn unrun(id: Seq<char>) -> ResultView {
    ResultView {
        id,
        status: "error"@,
        passed: false,
        harness_exit: None,
        check_exit: None,
        error: None,
    }
}

impl RunView {
    pub open spec fn failed(self, step: CaseStep, why: Seq<char>) -> RunView {
        RunView { step, result: ResultView { error: Some(why), ..self.result } }
    }

    pub open spec fn timed_out(self) -> RunView {
        RunView {
            step: CaseStep::Finish,
            result: ResultView { status: "timeout"@, ..self.result },
        }
    }

    /// The commit was resolved, or was not.
    pub open spec fn resolved(self, r: Result<(), String>) -> RunView {
        match r {
            Ok(_) => RunView { step: CaseStep::AddWorktree, ..self },
            Err(e) => self.failed(CaseStep::Abandon, "base ref not resolvable: "@ + e@),
        }
    }

    /// The worktree was added, or was not.
    pub open spec fn added(self, r: Result<(), String>) -> RunView {
        match r {
            Ok(_) => RunView { step: CaseStep::RunHarness, ..self },
            Err(e) => self.failed(CaseStep::Abandon, "worktree setup failed: "@ + e@),
        }
    }

    /// The harness ended; whatever its exit, the check decides.
    pub open spec fn harness_ended(self, o: OutcomeView) -> RunView {
        match o {
            OutcomeView::Finished { exit } => RunView {
                step: CaseStep::RunCheck,
                result: ResultView { harness_exit: exit, ..self.result },
            },
            OutcomeView::TimedOut => self.timed_out(),
            OutcomeView::SpawnFailed(e) => self.failed(
                CaseStep::Finish,
                "spawning harness: "@ + e,
            ),
        }
    }

    /// The check ended: exit 0 passes.
    pub open spec fn check_ended(self, o: OutcomeView) -> RunView {
        match o {
            OutcomeView::Finished { exit } => RunView {
                step: CaseStep::Finish,
                result: ResultView {
                    check_exit: exit,
                    status: if exit == Some(0i32) {
                        "pass"@
                    } else {
                        "fail"@
                    },
                    passed: self.result.passed || exit == Some(0i32),
                    ..self.result
                },
            },
            OutcomeView::TimedOut => self.timed_out(),
            OutcomeView::SpawnFailed(e) => self.failed(
                CaseStep::Finish,
                "spawning check: "@ + e,
            ),
        }
    }

    /// What a step gave; anything else than was asked for changes nothing.
    pub open spec fn stepped(self, event: CaseEvent) -> RunView {
        match (self.step, event) {
            (CaseStep::Resolve, CaseEvent::Resolved(r)) => self.resolved(r),
            (CaseStep::AddWorktree, CaseEvent::WorktreeAdded(r)) => self.added(r),
            (CaseStep::RunHarness, CaseEvent::Ended(o)) => self.harness_ended(o@),
            (CaseStep::RunCheck, CaseEvent::Ended(o)) => self.check_ended(o@),
            _ => self,
        }
    }
}

impl CaseRun {
    /// A case about to be replayed.
    pub fn start(id: &str) -> (r: CaseRun)
        ensures
            r@ == (RunView { step: CaseStep::Resolve, result: unrun(id@) }),
    {
        CaseRun {
            step: CaseStep::Resolve,
            result: CaseResult {
                id: id.to_string(),
                status: "error".to_string(),
                passed: false,
                harness_exit: None,
                check_exit: None,
                error: None,
            },
        }
    }

    fn fail(&mut self, step: CaseStep, label: &str, why: &str)
        ensures
            final(self)@ == old(self)@.failed(step, label@ + why@),
    {
        let mut m = label.to_string();
        m.append(why);
        self.result.error = Some(m);
        self.step = step;
    }

    fn time_out(&mut self)
        ensures
            final(self)@ == old(self)@.timed_out(),
    {
        self.result.status = "timeout".to_string();
        self.step = CaseStep::Finish;
    }

    fn end_harness(&mut self, outcome: ShellOutcome)
        ensures
            final(self)@ == old(self)@.harness_ended(outcome@),
    {
        match outcome {
            ShellOutcome::Finished { exit } => {
                self.result.harness_exit = exit;
                self.step = CaseStep::RunCheck;
            },
            ShellOutcome::TimedOut => {
                self.time_out();
            },
            ShellOutcome::SpawnFailed(e) => {
                self.fail(CaseStep::Finish, "spawning harness: ", &e);
            },
        }
    }

    fn end_check(&mut self, outcome: ShellOutcome)
        ensures
            final(self)@ == old(self)@.check_ended(outcome@),
    {
        match outcome {
            ShellOutcome::Finished { exit } => {
                self.result.check_exit = exit;
                let zero = match exit {
                    Some(code) => code == 0,
                    None => false,
                };
                if zero {
                    self.result.status = "pass".to_string();
                    self.result.passed = true;
                } else {
                    self.result.status = "fail".to_string();
                }
                self.step = CaseStep::Finish;
            },
            ShellOutcome::TimedOut => {
                self.time_out();
            },
            ShellOutcome::SpawnFailed(e) => {
                self.fail(CaseStep::Finish, "spawning check: ", &e);
            },
        }
    }

    /// Take what the step that was asked for gave.  Failures around the case end
    /// it as an error; they do not end the run.
    pub fn advance(&mut self, event: CaseEvent)
        ensures
            final(self)@ == old(self)@.stepped(event),
    {
        match (self.step, event) {
            (CaseStep::Resolve, CaseEvent::Resolved(r)) => {
                match r {
                    Ok(_) => {
                        self.step = CaseStep::AddWorktree;
                    },
                    Err(e) => {
                        self.fail(CaseStep::Abandon, "base ref not resolvable: ", &e);
                    },
                }
            },
            (CaseStep::AddWorktree, CaseEvent::WorktreeAdded(r)) => {
                match r {
                    Ok(_) => {
                        self.step = CaseStep::RunHarness;
                    },
                    Err(e) => {
                        self.fail(CaseStep::Abandon, "worktree setup failed: ", &e);
                    },
                }
            },
            (CaseStep::RunHarness, CaseEvent::Ended(o)) => {
                self.end_harness(o);
            },
            (CaseStep::RunCheck, CaseEvent::Ended(o)) => {
                self.end_check(o);
            },
            _ => {},
        }
    }
}

/// A case's run as far as it went.
pub open spec fn replayed(id: Seq<char>, events: Seq<CaseEvent>) -> RunView
    decreases events.len(),
{
    if events.len() == 0 {
        RunView { step: CaseStep::Resolve, result: unrun(id) }
    } else {
        replayed(id, events.drop_last()).stepped(events.last())
    }
}

/// A case passes only by its check's exit 0, and then its status says so;
/// without a finished check it is a timeout or an error.
pub proof fn law_only_the_check_passes_a_case(id: Seq<char>, events: Seq<CaseEvent>)
    ensures
        ({
            let r = replayed(id, events).result;
            &&& r.id == id
            &&& r.passed <==> r.check_exit == Some(0i32)
            &&& r.passed <==> r.status == "pass"@
            &&& r.check_exit is Some && !r.passed ==> r.status == "fail"@
        }),
    decreases events.len(),
{
    reveal_strlit("pass");
    reveal_strlit("fail");
    reveal_strlit("error");
    reveal_strlit("timeout");
    lemma_untouched(id, events);
    if events.len() > 0 {
        law_only_the_check_passes_a_case(id, events.drop_last());
        lemma_untouched(id, events.drop_last());
    }
    assert("pass"@.len() == 4 && "error"@.len() == 5 && "timeout"@.len() == 7);
    assert("pass"@[0] == 'p' && "fail"@[0] == 'f');
}

/// Until a case is finished its result is still open.
proof fn lemma_untouched(id: Seq<char>, events: Seq<CaseEvent>)
    ensures
        ({
            let s = replayed(id, events);
            s.step != CaseStep::Finish ==> !s.result.passed && s.result.check_exit is None
                && s.result.status == "error"@
        }),
    decreases events.len(),
{
    if events.len() > 0 {
        lemma_untouched(id, events.drop_last());
    }
}

/// An exit code as it is logged.
pub open spec fn exit_text(exit: Option<i32>) -> Seq<char> {
    match exit {
        Some(n) => "Some("@ + (if n < 0 {
            "-"@ + decimal((-(n as int)) as nat)
        } else {
            decimal(n as nat)
        }) + ")"@,
        None => "None"@,
    }
}

fn show_exit(exit: Option<i32>) -> (r: String)
    ensures
        r@ == exit_text(exit),
{
    match exit {
        Some(n) => {
            let mut m = "Some(".to_string();
            let code = if n < 0 {
                let mut c = "-".to_string();
                c.append(&number((-(n as i64)) as u64));
                c
            } else {
                number(n as u64)
            };
            m.append(&code);
            m.append(")");
            m
        },
        None => "None".to_string(),
    }
}

/// What a command's log holds; without output it timed out.
pub open spec fn log_text(command: Seq<char>, output: Option<(Option<i32>, Seq<char>, Seq<char>)>) -> Seq<
    char,
> {
    match output {
        Some((exit, out, err)) => "$ "@ + command + "\n"@ + "exit: "@ + exit_text(exit) + "\n"@
            + "--- stdout ---\n"@ + out + "\n--- stderr ---\n"@ + err + "\n"@,
        None => "$ "@ + command + "\n"@
            + "(timed out — captured output was lost with the killed process)\n"@,
    }
}

/// The log of one command: its exit code and what it printed, unless it timed
/// out.
pub fn shell_log(command: &str, output: Option<(Option<i32>, String, String)>) -> (r: String)
    ensures
        r@ == log_text(
            command@,
            match output {
                Some(o) => Some((o.0, o.1@, o.2@)),
                None => None,
            },
        ),
{
    let mut m = "$ ".to_string();
    m.append(command);
    m.append("\n");
    match output {
        Some((exit, out, err)) => {
            m.append("exit: ");
            m.append(&show_exit(exit));
            m.append("\n");
            m.append("--- stdout ---\n");
            m.append(&out);
            m.append("\n--- stderr ---\n");
            m.append(&err);
            m.append("\n");
        },
        None => {
            m.append("(timed out — captured output was lost with the killed process)\n");
        },
    }
    m
}

} // verus!
