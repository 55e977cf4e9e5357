//! The subagent rail: the runs below the composer, which one is selected,
//! and which one the user is inside.

use crate::app::state::{Rail, RailView};
use crate::app::transcript::{
    entries, panes_view, scroll_step, scrolled, EntryView, PaneStatus, PaneView, SubagentPane,
    TranscriptEntry, PANE_LINGER,
};
use vstd::prelude::*;

verus! {

/// The number of panes before the first one of `run`.
pub open spec fn run_pos(panes: Seq<PaneView>, run: u64) -> int
    decreases panes.len(),
{
    if panes.len() == 0 || panes[0].run == run {
        0
    } else {
        1 + run_pos(panes.drop_first(), run)
    }
}

/// Where the pane of `run` is, if it is on the rail.
pub open spec fn pane_of(panes: Seq<PaneView>, run: u64) -> Option<usize> {
    if run_pos(panes, run) < panes.len() {
        Some(run_pos(panes, run) as usize)
    } else {
        None
    }
}

/// The number of panes before the first running one.
pub open spec fn running_pos(panes: Seq<PaneView>) -> int
    decreases panes.len(),
{
    if panes.len() == 0 || panes[0].status == PaneStatus::Running {
        0
    } else {
        1 + running_pos(panes.drop_first())
    }
}

/// How many runs are still going.
pub open spec fn running_count(panes: Seq<PaneView>) -> nat
    decreases panes.len(),
{
    if panes.len() == 0 {
        0
    } else {
        running_count(panes.drop_last()) + if panes.last().status == PaneStatus::Running {
            1nat
        } else {
            0nat
        }
    }
}

impl PaneView {
    /// The pane with one more entry, unread unless it is being watched.
    pub open spec fn with_entry(self, entry: EntryView, watched: bool) -> PaneView {
        PaneView {
            transcript: self.transcript.push(entry),
            unread: if watched || self.unread == usize::MAX {
                self.unread
            } else {
                (self.unread + 1) as usize
            },
            ..self
        }
    }

    /// The run closed out because the turn that owned it was killed.
    pub open spec fn failed(self, why: Seq<char>, now: u64) -> PaneView {
        if self.status == PaneStatus::Running {
            PaneView {
                status: PaneStatus::Failed,
                finished: Some(now),
                transcript: self.transcript.push(EntryView::Notice("failed: "@ + why)),
                ..self
            }
        } else {
            self
        }
    }

    /// Whether the pane stays on the rail: the run the user is inside does,
    /// and so does one that is running or ended only a moment ago.
    pub open spec fn stays(self, watched: Option<u64>, now: u64) -> bool {
        ||| watched == Some(self.run)
        ||| self.finished matches Some(at) ==> now < at + PANE_LINGER
    }

    /// The view at the live tail.
    pub open spec fn at_tail(self) -> PaneView {
        PaneView { scroll: 0, scroll_follow: true, ..self }
    }
}

/// The panes that stay on the rail, in order.
pub open spec fn staying(panes: Seq<PaneView>, watched: Option<u64>, now: u64) -> Seq<PaneView>
    decreases panes.len(),
{
    if panes.len() == 0 {
        Seq::empty()
    } else {
        let before = staying(panes.drop_last(), watched, now);
        if panes.last().stays(watched, now) {
            before.push(panes.last())
        } else {
            before
        }
    }
}

/// The panes with those still running closed out.
pub open spec fn all_failed(panes: Seq<PaneView>, why: Seq<char>, now: u64) -> Seq<PaneView> {
    panes.map_values(|p: PaneView| p.failed(why, now))
}

impl RailView {
    /// The run at a position.
    pub open spec fn run_at(self, index: Option<usize>) -> Option<u64> {
        match index {
            Some(i) => if i < self.panes.len() {
                Some(self.panes[i as int].run)
            } else {
                None
            },
            None => None,
        }
    }

    /// An entry in the transcript of `run`, if it is on the rail.
    pub open spec fn with_entry(self, run: u64, entry: EntryView) -> RailView {
        match pane_of(self.panes, run) {
            Some(i) => RailView {
                panes: self.panes.update(
                    i as int,
                    self.panes[i as int].with_entry(entry, self.attached == Some(i)),
                ),
                ..self
            },
            None => self,
        }
    }

    /// The selection moved by one row; up from the first row leaves the rail,
    /// and down stops at the last.
    pub open spec fn moved(self, down: bool) -> RailView {
        match self.rail_focus {
            None => self,
            Some(i) => if down {
                RailView {
                    rail_focus: Some(if i + 1 < self.panes.len() {
                        (i + 1) as usize
                    } else if self.panes.len() == 0 {
                        0
                    } else {
                        (self.panes.len() - 1) as usize
                    }),
                    ..self
                }
            } else if i == 0 {
                RailView { rail_focus: None, ..self }
            } else {
                RailView {
                    rail_focus: Some(if i - 1 < self.panes.len() {
                        (i - 1) as usize
                    } else if self.panes.len() == 0 {
                        0
                    } else {
                        (self.panes.len() - 1) as usize
                    }),
                    ..self
                }
            },
        }
    }

    /// Keyboard focus on the rail: the first running pane, else the last.
    pub open spec fn focused(self) -> RailView {
        if self.panes.len() == 0 {
            self
        } else {
            RailView {
                rail_focus: Some(if running_pos(self.panes) < self.panes.len() {
                    running_pos(self.panes) as usize
                } else {
                    (self.panes.len() - 1) as usize
                }),
                ..self
            }
        }
    }

    /// Inside the pane at `index`: read, at the live tail, and selected.
    pub open spec fn inside(self, index: usize) -> RailView {
        if index < self.panes.len() {
            RailView {
                panes: self.panes.update(
                    index as int,
                    PaneView { unread: 0, ..self.panes[index as int].at_tail() },
                ),
                attached: Some(index),
                rail_focus: Some(index),
                ..self
            }
        } else {
            self
        }
    }

    /// The pane at `index` scrolled.
    pub open spec fn pane_scrolled(self, index: usize, delta: i16) -> RailView {
        if index < self.panes.len() {
            let p = self.panes[index as int];
            let (scroll, follow) = scrolled(p.scroll_follow, p.scroll, p.max_scroll, delta);
            RailView {
                panes: self.panes.update(
                    index as int,
                    PaneView { scroll, scroll_follow: follow, ..p },
                ),
                ..self
            }
        } else {
            self
        }
    }

    /// From inside a pane to its neighbour, around the rail; with one run
    /// there is none, and the pane scrolls a line instead.
    pub open spec fn stepped(self, index: usize, down: bool) -> RailView {
        let len = self.panes.len() as int;
        if len < 2 {
            self.pane_scrolled(index, if down {
                (-1) as i16
            } else {
                1
            })
        } else if down {
            self.inside((if index + 1 >= len {
                0
            } else {
                index + 1
            }) as usize)
        } else {
            self.inside((if index == 0 {
                len - 1
            } else {
                index - 1
            }) as usize)
        }
    }

    /// Finished runs that have rested long enough gone from the rail.
    /// Selections stay on the run they pointed at, or are dropped with it.
    pub open spec fn retired(self, now: u64) -> RailView {
        let watched = self.run_at(self.attached);
        let focus = self.run_at(self.rail_focus);
        let panes = staying(self.panes, watched, now);
        if panes.len() == self.panes.len() {
            self
        } else {
            RailView {
                panes,
                attached: match watched {
                    Some(run) => pane_of(panes, run),
                    None => None,
                },
                rail_focus: match focus {
                    Some(run) => pane_of(panes, run),
                    None => None,
                },
                ..self
            }
        }
    }

    /// Out of the attached pane and off the rail, back to the composer.
    pub open spec fn left(self, now: u64) -> RailView {
        let s = match self.attached {
            Some(i) => if i < self.panes.len() {
                RailView {
                    panes: self.panes.update(
                        i as int,
                        PaneView { unread: 0, ..self.panes[i as int] },
                    ),
                    attached: None,
                    ..self
                }
            } else {
                RailView { attached: None, ..self }
            },
            None => self,
        };
        RailView { rail_focus: None, ..s }.retired(now)
    }
}

proof fn lemma_run_pos(panes: Seq<PaneView>, run: u64)
    ensures
        0 <= run_pos(panes, run) <= panes.len(),
        run_pos(panes, run) < panes.len() ==> panes[run_pos(panes, run)].run == run,
        forall|j: int| 0 <= j < run_pos(panes, run) ==> (#[trigger] panes[j]).run != run,
    decreases panes.len(),
{
    if panes.len() > 0 && panes[0].run != run {
        let t = panes.drop_first();
        lemma_run_pos(t, run);
        assert forall|j: int| 0 <= j < run_pos(panes, run) implies (#[trigger] panes[j]).run
            != run by {
            if j > 0 {
                assert(panes[j] == t[j - 1]);
            }
        }
    }
}

proof fn lemma_running_pos(panes: Seq<PaneView>)
    ensures
        0 <= running_pos(panes) <= panes.len(),
    decreases panes.len(),
{
    if panes.len() > 0 {
        lemma_running_pos(panes.drop_first());
    }
}

proof fn lemma_staying_len(panes: Seq<PaneView>, watched: Option<u64>, now: u64)
    ensures
        staying(panes, watched, now).len() <= panes.len(),
        staying(panes, watched, now).len() == panes.len() ==> staying(panes, watched, now)
            == panes,
    decreases panes.len(),
{
    if panes.len() > 0 {
        lemma_staying_len(panes.drop_last(), watched, now);
        assert(panes.drop_last().push(panes.last()) =~= panes);
    }
}

impl Rail {
    /// Index of the pane for `run`, if it is still on the rail.
    pub(crate) fn pane_index(&self, run: u64) -> (r: Option<usize>)
        ensures
            r == pane_of(self@.panes, run),
            r matches Some(i) ==> i < self.panes.len(),
    {
        let ghost all = panes_view(self.panes@);
        let mut i: usize = 0;
        assert(all.skip(0) =~= all);
        proof {
            lemma_run_pos(all, run);
        }
        while i < self.panes.len()
            invariant
                i <= self.panes.len(),
                all == panes_view(self.panes@),
                run_pos(all, run) == i + run_pos(all.skip(i as int), run),
            decreases self.panes.len() - i,
        {
            assert(all.skip(i as int)[0] == self.panes@[i as int]@);
            if self.panes[i].run == run {
                return Some(i);
            }
            assert(all.skip(i as int).drop_first() =~= all.skip(i + 1));
            i += 1;
        }
        None
    }

    /// Append to a pane's transcript and bump its unread badge, unless the
    /// user is watching that pane.
    pub(crate) fn push_pane(&mut self, run: u64, entry: TranscriptEntry)
        requires
            old(self)@.wf(),
        ensures
            final(self)@ == old(self)@.with_entry(run, entry@),
            final(self)@.wf(),
    {
        if let Some(index) = self.pane_index(run) {
            let watched = match self.attached {
                Some(i) => i == index,
                None => false,
            };
            let ghost before = self@.panes;
            assert(before[index as int] == self.panes@[index as int]@);
            self.panes[index].transcript.push(entry);
            assert(entries(self.panes@[index as int].transcript@)
                =~= before[index as int].transcript.push(entry@));
            if !watched {
                let unread = self.panes[index].unread;
                self.panes[index].unread = unread.saturating_add(1);
            }
            assert(self@.panes =~= before.update(
                index as int,
                before[index as int].with_entry(entry@, watched),
            ));
        }
    }

    /// The pane the user is inside, if any.
    pub fn attached_pane(&self) -> (r: Option<&SubagentPane>)
        ensures
            r matches Some(p) ==> self.attached is Some && self.attached->0 < self.panes.len() && p@
                == self@.panes[self.attached->0 as int],
            r is None ==> self.attached is None || self.attached->0 >= self.panes.len(),
    {
        match self.attached {
            Some(i) => if i < self.panes.len() {
                assert(self@.panes[i as int] == self.panes@[i as int]@);
                Some(&self.panes[i])
            } else {
                None
            },
            None => None,
        }
    }

    /// Number of runs still going.
    pub fn running_panes(&self) -> (r: usize)
        ensures
            r == running_count(self@.panes),
    {
        let ghost all = panes_view(self.panes@);
        let mut i: usize = 0;
        let mut n: usize = 0;
        while i < self.panes.len()
            invariant
                n <= i <= self.panes.len(),
                all == panes_view(self.panes@),
                n == running_count(all.take(i as int)),
            decreases self.panes.len() - i,
        {
            assert(all.take(i + 1).drop_last() =~= all.take(i as int));
            assert(all.take(i + 1).last() == self.panes@[i as int]@);
            if self.panes[i].status == PaneStatus::Running {
                n += 1;
            }
            i += 1;
        }
        assert(all.take(i as int) =~= all);
        n
    }

    /// Move the rail selection; moving up off the top row returns focus to
    /// the composer.
    pub(crate) fn rail_select(&mut self, down: bool)
        requires
            old(self)@.wf(),
        ensures
            final(self)@ == old(self)@.moved(down),
            final(self)@.wf(),
    {
        assert(self@.panes.len() == self.panes@.len());
        if let Some(i) = self.rail_focus {
            if down {
                if i < self.panes.len() - 1 {
                    self.rail_focus = Some(i + 1);
                }
            } else if i == 0 {
                self.rail_focus = None;
            } else {
                self.rail_focus = Some(i - 1);
            }
        }
    }

    /// Give the rail keyboard focus, selecting the first running pane if
    /// there is one and the last pane otherwise.  Says whether there was a
    /// pane to select.
    pub fn focus_rail(&mut self) -> (r: bool)
        requires
            old(self)@.wf(),
        ensures
            final(self)@ == old(self)@.focused(),
            r == (old(self)@.panes.len() > 0),
            final(self)@.wf(),
    {
        let ghost all = panes_view(self.panes@);
        if self.panes.len() == 0 {
            return false;
        }
        let mut i: usize = 0;
        assert(all.skip(0) =~= all);
        proof {
            lemma_running_pos(all);
        }
        while i < self.panes.len() && self.panes[i].status != PaneStatus::Running
            invariant
                i <= self.panes.len(),
                all == panes_view(self.panes@),
                running_pos(all) == i + running_pos(all.skip(i as int)),
            decreases self.panes.len() - i,
        {
            assert(all.skip(i as int)[0] == self.panes@[i as int]@);
            assert(all.skip(i as int).drop_first() =~= all.skip(i + 1));
            i += 1;
        }
        if i < self.panes.len() {
            assert(all.skip(i as int)[0] == self.panes@[i as int]@);
            self.rail_focus = Some(i);
        } else {
            self.rail_focus = Some(self.panes.len() - 1);
        }
        true
    }

    /// Open a pane as the main chat view, following the live tail.
    pub fn attach_pane(&mut self, index: usize)
        requires
            old(self)@.wf(),
        ensures
            final(self)@ == old(self)@.inside(index),
            final(self)@.wf(),
    {
        assert(self@.panes.len() == self.panes@.len());
        if index < self.panes.len() {
            let ghost before = self@.panes;
            assert(before[index as int] == self.panes@[index as int]@);
            self.panes[index].unread = 0;
            self.panes[index].scroll = 0;
            self.panes[index].scroll_follow = true;
            self.attached = Some(index);
            self.rail_focus = Some(index);
            assert(self@.panes =~= old(self)@.inside(index).panes);
        }
    }

    /// Attach the neighbouring pane, wrapping around the rail.
    pub(crate) fn step_pane(&mut self, index: usize, down: bool)
        requires
            old(self)@.wf(),
        ensures
            final(self)@ == old(self)@.stepped(index, down),
            final(self)@.wf(),
    {
        let len = self.panes.len();
        assert(self@.panes.len() == len);
        if len < 2 {
            self.scroll_pane(index, if down {
                -1
            } else {
                1
            });
        } else if down {
            self.attach_pane(if index >= len - 1 {
                0
            } else {
                index + 1
            });
        } else {
            self.attach_pane(if index == 0 {
                len - 1
            } else {
                index - 1
            });
        }
    }

    /// Scroll the pane at `index`.
    pub(crate) fn scroll_pane(&mut self, index: usize, delta: i16)
        requires
            old(self)@.wf(),
        ensures
            final(self)@ == old(self)@.pane_scrolled(index, delta),
            final(self)@.wf(),
    {
        assert(self@.panes.len() == self.panes@.len());
        if index < self.panes.len() {
            assert(self@.panes[index as int] == self.panes@[index as int]@);
            let (scroll, follow) = scroll_step(
                self.panes[index].scroll_follow,
                self.panes[index].scroll,
                self.panes[index].max_scroll,
                delta,
            );
            self.panes[index].scroll = scroll;
            self.panes[index].scroll_follow = follow;
            assert(self@.panes =~= old(self)@.pane_scrolled(index, delta).panes);
        }
    }

    /// Close out every pane still marked running, because the turn that owned
    /// them was killed outright.
    pub fn fail_running_panes(&mut self, why: &str, now: u64)
        requires
            old(self)@.wf(),
        ensures
            final(self)@ == (RailView {
                panes: all_failed(old(self)@.panes, why@, now),
                ..old(self)@
            }),
            final(self)@.wf(),
    {
        let ghost before = self@;
        let mut i: usize = 0;
        while i < self.panes.len()
            invariant
                i <= self.panes.len(),
                self@.panes.len() == before.panes.len() == self.panes@.len(),
                self@ == (RailView { panes: self@.panes, ..before }),
                forall|j: int|
                    0 <= j < i ==> #[trigger] self@.panes[j] == before.panes[j].failed(why@, now),
                forall|j: int| i <= j < before.panes.len() ==> #[trigger] self@.panes[j]
                    == before.panes[j],
            decreases self.panes.len() - i,
        {
            let ghost held = self@.panes;
            assert(self@.panes[i as int] == self.panes@[i as int]@);
            if self.panes[i].status == PaneStatus::Running {
                let mut text = "failed: ".to_string();
                text.append(why);
                self.panes[i].status = PaneStatus::Failed;
                self.panes[i].finished = Some(now);
                self.panes[i].transcript.push(TranscriptEntry::Notice(text));
                assert(entries(self.panes@[i as int].transcript@)
                    =~= held[i as int].transcript.push(EntryView::Notice("failed: "@ + why@)));
            }
            assert(self@.panes =~= held.update(i as int, held[i as int].failed(why@, now)));
            i += 1;
        }
        assert(self@.panes =~= all_failed(before.panes, why@, now));
    }

    /// Drop finished runs off the rail once they have rested long enough to
    /// notice.  The pane the user is inside never retires under them.
    pub fn retire_finished_panes(&mut self, now: u64)
        requires
            old(self)@.wf(),
        ensures
            final(self)@ == old(self)@.retired(now),
            final(self)@.wf(),
    {
        let watched: Option<u64> = match self.attached {
            Some(i) => Some(self.panes[i].run),
            None => None,
        };
        let focus: Option<u64> = match self.rail_focus {
            Some(i) => Some(self.panes[i].run),
            None => None,
        };
        let ghost start = self@;
        let ghost all = self@.panes;
        assert(watched == start.run_at(start.attached));
        assert(focus == start.run_at(start.rail_focus));
        let before = self.panes.len();
        let mut i: usize = 0;
        let ghost mut k: int = 0;
        assert(all.skip(0) =~= all);
        assert(staying(all.take(0), watched, now) + all.skip(0) =~= all);
        while i < self.panes.len()
            invariant
                0 <= k <= all.len(),
                self@.panes.len() == self.panes@.len(),
                i <= self.panes.len(),
                i == staying(all.take(k), watched, now).len(),
                self@.panes == staying(all.take(k), watched, now) + all.skip(k),
                self@ == (RailView { panes: self@.panes, ..start }),
            decreases self.panes.len() - i,
        {
            let ghost kept = staying(all.take(k), watched, now);
            assert(self@.panes[i as int] == all[k]);
            assert(self@.panes[i as int] == self.panes@[i as int]@);
            assert(all.take(k + 1).drop_last() =~= all.take(k));
            let stays = (match watched {
                Some(run) => run == self.panes[i].run,
                None => false,
            }) || (match self.panes[i].finished {
                Some(at) => now < at || now - at < PANE_LINGER,
                None => true,
            });
            assert(stays == all[k].stays(watched, now));
            if stays {
                assert(kept.push(all[k]) + all.skip(k + 1) =~= kept + all.skip(k));
                i += 1;
            } else {
                let ghost was = self.panes@;
                self.panes.remove(i);
                assert(self@.panes =~= panes_view(was).remove(i as int));
                assert(self@.panes =~= kept + all.skip(k + 1));
            }
            proof {
                k = k + 1;
            }
        }
        assert(all.skip(k).len() == 0);
        assert(all.take(k) =~= all);
        assert(self@.panes =~= staying(all, watched, now));
        proof {
            lemma_staying_len(all, watched, now);
        }
        if self.panes.len() != before {
            self.attached = match watched {
                Some(run) => self.pane_index(run),
                None => None,
            };
            self.rail_focus = match focus {
                Some(run) => self.pane_index(run),
                None => None,
            };
        }
    }

    /// Leave the attached pane and go all the way back to the composer.
    pub fn detach_pane(&mut self, now: u64)
        requires
            old(self)@.wf(),
        ensures
            final(self)@ == old(self)@.left(now),
            final(self)@.wf(),
    {
        assert(self@.panes.len() == self.panes@.len());
        if let Some(index) = self.attached {
            self.attached = None;
            assert(self@.panes[index as int] == self.panes@[index as int]@);
            self.panes[index].unread = 0;
            assert(self@.panes =~= old(self)@.panes.update(
                index as int,
                PaneView { unread: 0, ..old(self)@.panes[index as int] },
            ));
        }
        self.rail_focus = None;
        self.retire_finished_panes(now);
    }
}

/// Every run on the rail has its own id.
pub open spec fn distinct_runs(panes: Seq<PaneView>) -> bool {
    forall|i: int, j: int|
        0 <= i < j < panes.len() ==> (#[trigger] panes[i]).run != (#[trigger] panes[j]).run
}

proof fn lemma_staying_has(panes: Seq<PaneView>, watched: Option<u64>, now: u64, i: int)
    requires
        0 <= i < panes.len(),
        panes[i].stays(watched, now),
    ensures
        staying(panes, watched, now).contains(panes[i]),
    decreases panes.len(),
{
    let t = panes.drop_last();
    let kept = staying(t, watched, now);
    if i == panes.len() - 1 {
        assert(kept.push(panes.last()).last() == panes[i]);
    } else {
        lemma_staying_has(t, watched, now, i);
        assert(t[i] == panes[i]);
        let j = choose|j: int| 0 <= j < kept.len() && kept[j] == panes[i];
        assert(staying(panes, watched, now)[j] == panes[i]);
    }
}

proof fn lemma_staying_from(panes: Seq<PaneView>, watched: Option<u64>, now: u64, j: int)
    requires
        0 <= j < staying(panes, watched, now).len(),
    ensures
        panes.contains(staying(panes, watched, now)[j]),
        staying(panes, watched, now)[j].stays(watched, now),
    decreases panes.len(),
{
    let t = panes.drop_last();
    let kept = staying(t, watched, now);
    if j < kept.len() {
        lemma_staying_from(t, watched, now, j);
        let i = choose|i: int| 0 <= i < t.len() && t[i] == kept[j];
        assert(panes[i] == kept[j]);
    } else {
        assert(panes[panes.len() - 1] == panes.last());
    }
}

/// The pane the user is inside never retires under them: whatever retires,
/// they are still inside the same pane.
pub proof fn law_watched_pane_never_retires(s: RailView, now: u64)
    requires
        s.wf(),
        s.panes.len() <= usize::MAX,
        s.attached is Some,
        distinct_runs(s.panes),
    ensures
        s.retired(now).attached is Some,
        s.retired(now).panes[s.retired(now).attached->0 as int] == s.panes[s.attached->0 as int],
{
    let i = s.attached->0 as int;
    let watched = s.run_at(s.attached);
    let panes = staying(s.panes, watched, now);
    lemma_staying_len(s.panes, watched, now);
    if panes.len() != s.panes.len() {
        lemma_kept_pane_is_found(s.panes, watched, now, i);
    }
}

/// The rail's selection stays on the run it pointed at for as long as that
/// run is on the rail, and is dropped with it.
pub proof fn law_selection_follows_its_run(s: RailView, now: u64)
    requires
        s.wf(),
        s.panes.len() <= usize::MAX,
        s.rail_focus is Some,
        distinct_runs(s.panes),
    ensures
        ({
            let pane = s.panes[s.rail_focus->0 as int];
            let after = s.retired(now);
            if pane.stays(s.run_at(s.attached), now) {
                after.rail_focus is Some && after.panes[after.rail_focus->0 as int] == pane
            } else {
                after.rail_focus is None
            }
        }),
{
    let i = s.rail_focus->0 as int;
    let watched = s.run_at(s.attached);
    let panes = staying(s.panes, watched, now);
    lemma_staying_len(s.panes, watched, now);
    if s.panes[i].stays(watched, now) {
        if panes.len() != s.panes.len() {
            lemma_kept_pane_is_found(s.panes, watched, now, i);
        }
    } else {
        if panes.len() == s.panes.len() {
            lemma_staying_from(s.panes, watched, now, i);
        } else {
            lemma_run_pos(panes, s.panes[i].run);
            let p = run_pos(panes, s.panes[i].run);
            if p < panes.len() {
                lemma_staying_from(s.panes, watched, now, p);
                let j = choose|j: int| 0 <= j < s.panes.len() && s.panes[j] == panes[p];
                assert(j == i);
            }
        }
    }
}

proof fn lemma_kept_pane_is_found(panes: Seq<PaneView>, watched: Option<u64>, now: u64, i: int)
    requires
        0 <= i < panes.len(),
        panes.len() <= usize::MAX,
        panes[i].stays(watched, now),
        distinct_runs(panes),
    ensures
        pane_of(staying(panes, watched, now), panes[i].run) is Some,
        staying(panes, watched, now)[pane_of(
            staying(panes, watched, now),
            panes[i].run,
        )->0 as int] == panes[i],
{
    let kept = staying(panes, watched, now);
    lemma_staying_len(panes, watched, now);
    lemma_staying_has(panes, watched, now, i);
    lemma_run_pos(kept, panes[i].run);
    let at = choose|j: int| 0 <= j < kept.len() && kept[j] == panes[i];
    let p = run_pos(kept, panes[i].run);
    assert(kept[at].run == panes[i].run);
    assert(p <= at);
    lemma_staying_from(panes, watched, now, p);
    let j = choose|j: int| 0 <= j < panes.len() && panes[j] == kept[p];
    assert(j == i);
}

/// Nothing is left running once a killed turn's panes are closed out.
pub proof fn law_nothing_runs_after_an_abort(panes: Seq<PaneView>, why: Seq<char>, now: u64)
    ensures
        running_count(all_failed(panes, why, now)) == 0,
    decreases panes.len(),
{
    let after = all_failed(panes, why, now);
    if panes.len() > 0 {
        law_nothing_runs_after_an_abort(panes.drop_last(), why, now);
        assert(after.drop_last() =~= all_failed(panes.drop_last(), why, now));
    }
}

} // verus!
