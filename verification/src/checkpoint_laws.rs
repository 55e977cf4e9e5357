//! What holds of the snapshots of a project, turn by turn.

use crate::checkpoint::{
    decoded, earliest, files_of, has_path, last_turn, left, on_line, on_lines, undo, RecordView,
    Rewind, StepView,
};
use crate::json::JsonView;
use crate::order::same_path;
use vstd::prelude::*;

verus! {

/// A rewind to before a turn undoes that turn and every later one, and a rewind of
/// one turn that turn alone: the records of exactly the others stay, in order.
pub proof fn law_a_rewind_undoes_its_turns(records: Seq<RecordView>, turn: u64)
    ensures
        left(records, Rewind::From(turn)) == records.filter(|r: RecordView| r.turn < turn),
        left(records, Rewind::Only(turn)) == records.filter(|r: RecordView| r.turn != turn),
    decreases records.len(),
{
    reveal(Seq::filter);
    if records.len() > 0 {
        law_a_rewind_undoes_its_turns(records.drop_last(), turn);
    }
}

/// The record at `i` is the first of its path among those from `turn` on.
pub open spec fn is_first_from(records: Seq<RecordView>, turn: u64, i: int) -> bool {
    &&& 0 <= i < records.len()
    &&& records[i].turn >= turn
    &&& forall|k: int|
        0 <= k < i && (#[trigger] records[k]).turn >= turn ==> !same_path(
            records[k].path,
            records[i].path,
        )
}

/// A rewind to before a turn puts back, of each file that the turn or a later one
/// changed, the first state that was kept, and of no other file anything.
pub proof fn law_a_rewind_takes_the_first_state_of_each_file(
    records: Seq<RecordView>,
    turn: u64,
    i: int,
)
    ensures
        ({
            let e = earliest(records, Rewind::From(turn));
            &&& is_first_from(records, turn, i) ==> e.contains(records[i])
            &&& forall|k: int|
                0 <= k < e.len() ==> (#[trigger] e[k]).turn >= turn && records.contains(e[k])
            &&& forall|k: int|
                0 <= k < records.len() && (#[trigger] records[k]).turn >= turn ==> has_path(
                    e,
                    records[k].path,
                )
        }),
    decreases records.len(),
{
    let w = Rewind::From(turn);
    let e = earliest(records, w);
    if records.len() > 0 {
        let init = records.drop_last();
        let last = records[records.len() - 1];
        let before = earliest(init, w);
        law_a_rewind_takes_the_first_state_of_each_file(init, turn, i);
        assert forall|k: int| 0 <= k < e.len() implies (#[trigger] e[k]).turn >= turn
            && records.contains(e[k]) by {
            if k < before.len() {
                assert(init.contains(before[k]));
                let m = choose|m: int| 0 <= m < init.len() && init[m] == before[k];
                assert(records[m] == e[k]);
            } else {
                assert(records[records.len() - 1] == e[k]);
            }
        }
        assert forall|k: int|
            0 <= k < records.len() && (#[trigger] records[k]).turn >= turn implies has_path(
            e,
            records[k].path,
        ) by {
            if k < init.len() {
                assert(init[k] == records[k]);
                let m = choose|m: int|
                    0 <= m < before.len() && same_path((#[trigger] before[m]).path, records[k].path);
                assert(e[m] == before[m]);
            } else if !has_path(before, last.path) {
                assert(e[before.len() as int] == last);
            }
        }
        if is_first_from(records, turn, i) {
            if i < init.len() {
                assert(is_first_from(init, turn, i)) by {
                    assert(init[i] == records[i]);
                    assert forall|k: int|
                        0 <= k < i && (#[trigger] init[k]).turn >= turn implies !same_path(
                        init[k].path,
                        init[i].path,
                    ) by {
                        assert(init[k] == records[k]);
                    }
                }
                let m = choose|m: int| 0 <= m < before.len() && before[m] == init[i];
                assert(e[m] == records[i]);
            } else {
                if has_path(before, last.path) {
                    let m = choose|m: int|
                        0 <= m < before.len() && same_path(
                            (#[trigger] before[m]).path,
                            last.path,
                        );
                    assert(init.contains(before[m]) && before[m].turn >= turn);
                    let n = choose|n: int| 0 <= n < init.len() && init[n] == before[m];
                    assert(records[n] == before[m]);
                    assert(same_path(records[n].path, records[i].path));
                }
                assert(e[before.len() as int] == last);
            }
        }
    }
}

/// A file that was there is copied back from its snapshot, and one that was not is
/// deleted.
pub proof fn law_a_file_goes_back_to_what_it_was(r: RecordView)
    ensures
        r.existed_before ==> undo(r) == (StepView::Copy { snap: r.snap, path: r.path }),
        !r.existed_before ==> undo(r) == (StepView::Delete { path: r.path }),
{
}

/// Turns are counted on from the highest one that was recorded.
pub proof fn law_turns_are_counted_on(records: Seq<RecordView>)
    ensures
        forall|i: int| 0 <= i < records.len() ==> (#[trigger] records[i]).turn <= last_turn(records),
        last_turn(records) > 0 ==> exists|i: int|
            0 <= i < records.len() && (#[trigger] records[i]).turn == last_turn(records),
    decreases records.len(),
{
    if records.len() > 0 {
        let init = records.drop_last();
        law_turns_are_counted_on(init);
        assert forall|i: int| 0 <= i < records.len() implies (#[trigger] records[i]).turn
            <= last_turn(records) by {
            if i < init.len() {
                assert(init[i] == records[i]);
            }
        }
        if last_turn(records) > 0 {
            if records.last().turn > last_turn(init) {
                assert(records[records.len() - 1].turn == last_turn(records));
            } else {
                let k = choose|k: int|
                    0 <= k < init.len() && (#[trigger] init[k]).turn == last_turn(init);
                assert(records[k].turn == last_turn(records));
            }
        }
    }
}

/// The files of a turn are those of its records, in order.
pub proof fn law_a_turns_files_are_those_it_recorded(records: Seq<RecordView>, turn: u64)
    ensures
        files_of(records, turn) == records.filter(|r: RecordView| r.turn == turn).map_values(
            |r: RecordView| r.path,
        ),
    decreases records.len(),
{
    reveal(Seq::filter);
    let of = |r: RecordView| r.turn == turn;
    let path = |r: RecordView| r.path;
    if records.len() == 0 {
        assert(records.filter(of).map_values(path) =~= Seq::empty());
    } else {
        law_a_turns_files_are_those_it_recorded(records.drop_last(), turn);
        assert(records.filter(of).map_values(path) =~= files_of(records, turn));
    }
}

/// An index is read line by line, in order, and a line that holds no record costs
/// nothing else.
pub proof fn law_an_index_is_read_line_by_line(index: Seq<Seq<char>>, line: Seq<char>)
    ensures
        on_lines(Seq::empty()).len() == 0,
        on_line(line) is Some ==> on_lines(index.push(line)) == on_lines(index).push(
            on_line(line)->0,
        ),
        on_line(line) is None ==> on_lines(index.push(line)) == on_lines(index),
{
    assert(index.push(line).drop_last() =~= index);
}

/// A record says what its fields say.
pub proof fn law_a_record_says_what_its_fields_say(j: JsonView)
    ensures
        decoded(j) matches Some(r) ==> {
            &&& j.field("turn"@) is Some
            &&& j.field("turn"@)->0 is Number
            &&& j.field("turn"@)->0->Number_0 == Some(r.turn)
            &&& j.field_text("tool"@) == Some(r.tool)
            &&& j.field_text("path"@) == Some(r.path)
            &&& j.field_text("snap"@) == Some(r.snap)
            &&& j.field("existed_before"@) == Some(JsonView::Bool(r.existed_before))
        },
{
}

} // verus!
