//! Snapshots before edits, and rewinding to them.

use std::collections::BTreeMap;

use wizard::checkpoint::{
    edit_target, read_index, CheckpointStore, Restore, SnapshotRecord, Step,
};
use wizard::json::Json;

/// A project and its checkpoint store, held in memory.
struct Project {
    files: BTreeMap<String, String>,
    /// The stored copies, by their path in the store.
    snaps: BTreeMap<String, String>,
    index: String,
    store: CheckpointStore,
}

fn line(record: &SnapshotRecord) -> String {
    format!(
        "{{\"turn\":{},\"tool\":\"{}\",\"path\":\"{}\",\"snap\":\"{}\",\"existed_before\":{}}}\n",
        record.turn, record.tool, record.path, record.snap, record.existed_before
    )
}

impl Project {
    fn new(keep_turns: usize) -> Self {
        Self {
            files: BTreeMap::new(),
            snaps: BTreeMap::new(),
            index: String::new(),
            store: CheckpointStore::open("/p", keep_turns, ""),
        }
    }

    fn write(&mut self, path: &str, content: &str) {
        self.files.insert(path.to_string(), content.to_string());
    }

    fn read(&self, path: &str) -> Option<&str> {
        self.files.get(path).map(String::as_str)
    }

    fn turn_copies(&self, turn: u64) -> usize {
        let dir = format!("{turn}/");
        self.snaps.keys().filter(|snap| snap.starts_with(&dir)).count()
    }

    fn snapshot(&mut self, turn: u64, tool: &str, path: &str) -> bool {
        let existing = self.files.get(path).map(|_| self.turn_copies(turn));
        match self.store.snapshot(turn, tool, path, existing) {
            Some(record) => {
                if record.existed_before {
                    self.snaps.insert(record.snap.clone(), self.files[path].clone());
                }
                self.index.push_str(&line(&record));
                true
            }
            None => false,
        }
    }

    fn drop_turns(&mut self, turns: &[u64]) {
        self.snaps.retain(|snap, _| !turns.iter().any(|turn| snap.starts_with(&format!("{turn}/"))));
    }

    fn perform(&mut self, restore: Restore) -> Vec<String> {
        for step in &restore.steps {
            match step {
                Step::Copy { snap, path } => {
                    let content = self.snaps[snap].clone();
                    self.files.insert(path.clone(), content);
                }
                Step::Delete { path } => {
                    self.files.remove(path);
                }
            }
        }
        self.store.finish_restore(&restore);
        if !restore.dropped.is_empty() {
            self.index = restore.keep.iter().map(line).collect();
            self.drop_turns(&restore.dropped);
        }
        restore.restored
    }

    fn restore_turn(&mut self, turn: u64) -> Vec<String> {
        let restore = self.store.restore_turn(turn, &self.index);
        self.perform(restore)
    }

    fn restore_turns_from(&mut self, turn: u64) -> Vec<String> {
        let restore = self.store.restore_turns_from(turn, &self.index);
        self.perform(restore)
    }

    fn gc(&mut self) -> usize {
        match self.store.gc(&self.index) {
            Some(collected) => {
                self.index = collected.keep.iter().map(line).collect();
                self.drop_turns(&collected.dropped);
                collected.dropped.len()
            }
            None => 0,
        }
    }
}

#[test]
fn snapshot_restore_roundtrip() {
    let mut p = Project::new(50);
    let file = "/p/notes.txt";
    p.write(file, "before");

    let turn = p.store.begin_turn();
    assert!(p.snapshot(turn, "write_file", file));
    p.write(file, "after");

    let restored = p.restore_turn(turn);
    assert_eq!(restored, vec![file.to_string()]);
    assert_eq!(p.read(file), Some("before"));
}

#[test]
fn new_file_is_deleted_on_restore() {
    let mut p = Project::new(50);
    let file = "/p/created.txt";

    let turn = p.store.begin_turn();
    assert!(p.snapshot(turn, "write_file", file));
    p.write(file, "fresh content");

    p.restore_turn(turn);
    assert_eq!(p.read(file), None, "rewind deletes a file that did not exist");
}

#[test]
fn duplicate_snapshot_within_a_turn_is_skipped() {
    let mut p = Project::new(50);
    let file = "/p/notes.txt";
    p.write(file, "v1");

    let turn = p.store.begin_turn();
    assert!(p.snapshot(turn, "write_file", file));
    p.write(file, "v2");
    // Second write of the same path within the turn: first wins.
    assert!(!p.snapshot(turn, "edit_file", file));
    p.write(file, "v3");

    p.restore_turn(turn);
    assert_eq!(p.read(file), Some("v1"), "the turn's before-state is the first snapshot");
}

#[test]
fn restore_turns_from_earliest_snapshot_wins_across_turns() {
    let mut p = Project::new(50);
    let file = "/p/notes.txt";
    p.write(file, "A");

    let turn1 = p.store.begin_turn();
    p.snapshot(turn1, "write_file", file);
    p.write(file, "B");
    let turn2 = p.store.begin_turn();
    p.snapshot(turn2, "write_file", file);
    p.write(file, "C");

    let restored = p.restore_turns_from(turn1);
    assert_eq!(restored, vec![file.to_string()]);
    assert_eq!(p.read(file), Some("A"), "earliest before-state wins across turns");
}

#[test]
fn restore_turns_from_a_later_turn_keeps_earlier_state() {
    let mut p = Project::new(50);
    let file = "/p/notes.txt";
    p.write(file, "A");

    let turn1 = p.store.begin_turn();
    p.snapshot(turn1, "write_file", file);
    p.write(file, "B");
    let turn2 = p.store.begin_turn();
    p.snapshot(turn2, "write_file", file);
    p.write(file, "C");

    p.restore_turns_from(turn2);
    assert_eq!(p.read(file), Some("B"), "only the later turn is rewound");
    // Turn 1's snapshot survives the prune and is still restorable.
    p.restore_turns_from(turn1);
    assert_eq!(p.read(file), Some("A"));
}

#[test]
fn restore_prunes_records_and_snap_dirs() {
    let mut p = Project::new(50);
    let file = "/p/notes.txt";
    p.write(file, "A");

    let turn = p.store.begin_turn();
    p.snapshot(turn, "write_file", file);
    p.restore_turns_from(turn);

    assert!(p.store.recent_turns(10, &p.index).is_empty(), "rewound turn is pruned");
    assert_eq!(p.turn_copies(turn), 0, "snap dir is removed");
    assert_eq!(p.store.turn_dir(turn), "/p/.wizard/checkpoints/1");
    // The same path can be snapshotted again in the same turn after a
    // rewind (the dedup entry was pruned with the records).
    assert!(p.snapshot(turn, "write_file", file));
}

#[test]
fn gc_keeps_the_last_n_turns() {
    let mut p = Project::new(2);
    let file = "/p/notes.txt";
    for i in 0..5 {
        p.write(file, &format!("v{i}"));
        let turn = p.store.begin_turn();
        p.snapshot(turn, "write_file", file);
    }

    assert_eq!(p.gc(), 3);
    let recent = p.store.recent_turns(10, &p.index);
    assert_eq!(recent.len(), 2);
    assert_eq!(recent[0].turn, 5);
    assert_eq!(recent[1].turn, 4);
    for turn in 1..=3u64 {
        assert_eq!(p.turn_copies(turn), 0, "gc removed turn {turn}'s snap dir");
    }
    // Nothing further to drop.
    assert_eq!(p.gc(), 0);
}

#[test]
fn recent_turns_lists_files_newest_first() {
    let mut p = Project::new(50);
    let a = "/p/a.txt";
    let b = "/p/b.txt";
    p.write(a, "a");

    let turn1 = p.store.begin_turn();
    p.snapshot(turn1, "write_file", a);
    let turn2 = p.store.begin_turn();
    p.snapshot(turn2, "write_file", a);
    p.snapshot(turn2, "write_file", b);

    let recent = p.store.recent_turns(10, &p.index);
    assert_eq!(recent.len(), 2);
    assert_eq!(recent[0].turn, turn2);
    assert_eq!(recent[0].files, vec![a.to_string(), b.to_string()]);
    assert_eq!(recent[1].turn, turn1);
    assert_eq!(p.store.recent_turns(1, &p.index).len(), 1);
}

#[test]
fn open_resumes_the_turn_counter_from_the_index() {
    let mut p = Project::new(50);
    let file = "/p/notes.txt";
    p.write(file, "x");
    let turn = p.store.begin_turn();
    assert_eq!(turn, 1);
    p.snapshot(turn, "write_file", file);

    let mut store = CheckpointStore::open("/p", 50, &p.index);
    assert_eq!(store.current_turn(), 1);
    assert_eq!(store.begin_turn(), 2, "turn ids continue across sessions");
}

#[test]
fn corrupt_index_lines_are_skipped() {
    let index = "{not json\n\n";
    let store = CheckpointStore::open("/p", 50, index);
    assert_eq!(store.current_turn(), 0);
    assert!(store.recent_turns(10, index).is_empty());
}

#[test]
fn index_lines_decode_to_the_records_they_hold() {
    let index = "{\"turn\":7,\"tool\":\"edit_file\",\"path\":\"/p/a \\u00e9.txt\",\"snap\":\"7/0.snap\",\
                 \"existed_before\":true}\n{\"turn\":8}\n";
    let records = read_index(index);
    assert_eq!(records.len(), 1);
    assert_eq!(records[0].turn, 7);
    assert_eq!(records[0].tool, "edit_file");
    assert_eq!(records[0].path, "/p/a é.txt");
    assert_eq!(records[0].snap, "7/0.snap");
    assert!(records[0].existed_before);
}

#[test]
fn a_snapshot_names_its_copy_after_the_ones_before_it() {
    let mut store = CheckpointStore::open("/p", 50, "");
    let turn = store.begin_turn();
    let first = store.snapshot(turn, "write_file", "/p/a", Some(0)).expect("first");
    assert_eq!(first.snap, "1/0.snap");
    let second = store.snapshot(turn, "write_file", "/p/b", Some(1)).expect("second");
    assert_eq!(second.snap, "1/1.snap");
    let created = store.snapshot(turn, "write_file", "/p/c", None).expect("created");
    assert_eq!(created.snap, "");
    assert!(!created.existed_before);
    assert!(store.is_seen(turn, "/p/a"));
    assert!(!store.is_seen(turn + 1, "/p/a"));
    assert_eq!(store.index_path(), "/p/.wizard/checkpoints/index.jsonl");
    assert_eq!(store.path_in_store(&second.snap), "/p/.wizard/checkpoints/1/1.snap");
}

#[test]
fn only_edits_with_a_path_are_snapshotted() {
    let args = Json::Object(vec![("path".to_string(), Json::Text("src/a.rs".to_string()))]);
    assert_eq!(edit_target(true, &args), Some("src/a.rs".to_string()));
    assert_eq!(edit_target(false, &args), None);
    assert_eq!(edit_target(true, &Json::Object(vec![])), None);
}

#[test]
fn a_later_turn_does_not_reopen_an_earlier_one() {
    let mut project = Project::new(50);
    project.write("/p/notes.txt", "v1");
    assert_eq!(project.store.begin_turn(), 1);
    assert!(project.snapshot(1, "write_file", "/p/notes.txt"));
    assert_eq!(project.store.begin_turn(), 2);
    let before = project.index.clone();
    assert!(!project.snapshot(1, "edit_file", "/p/notes.txt"));
    assert_eq!(project.index, before, "no record is appended");
    assert!(project.snapshot(2, "edit_file", "/p/notes.txt"));
}

#[test]
fn an_index_line_that_gives_a_field_twice_is_corrupt() {
    let good = "{\"turn\":1,\"tool\":\"t\",\"path\":\"/p\",\"snap\":\"\",\"existed_before\":false}";
    assert_eq!(read_index(good).len(), 1);
    let twice = good.replace("\"turn\":1", "\"turn\":1,\"turn\":2");
    assert_eq!(read_index(&twice).len(), 0);
    // Also when the name is written with an escape.
    let escaped = good.replace("\"turn\":1", "\"turn\":1, \"\\u0074urn\" : 2");
    assert_eq!(read_index(&escaped).len(), 0);
    // A field that is not read may come twice, and the names inside a value are
    // not the record's.
    let others = good.replace("\"turn\":1", "\"turn\":1,\"x\":{\"turn\":2,\"a\":\"},\"},\"x\":[1]");
    assert_eq!(read_index(&others).len(), 1);
    // A record may also be a list of its values, all of them and no more.
    let record = &read_index("[7, \"t\", \"/p\", \"7/0.snap\", true]")[0];
    assert_eq!((record.turn, record.path.as_str(), record.existed_before), (7, "/p", true));
    assert_eq!(read_index("[7, \"t\", \"/p\", \"7/0.snap\"]").len(), 0);
}

#[test]
fn what_stands_beside_a_records_fields_is_read_past() {
    let with = |beside: &str| {
        read_index(&format!(
            "{{\"turn\":1,{beside}\"tool\":\"t\",\"path\":\"/p\",\"snap\":\"\",\"existed_before\":false}}"
        ))
        .len()
    };
    let deep = format!("\"x\":{}{},", "[".repeat(300), "]".repeat(300));
    assert_eq!(with("\"x\":\"\\ud800\","), 1, "a lone surrogate");
    assert_eq!(with("\"x\":1e999,"), 1, "a number out of range");
    assert_eq!(with(&deep), 1, "deep nesting");
    assert_eq!(with("\"x\":{\"\\ud800\":1},"), 1, "a name inside of it");
    // It still has the form of a JSON value, and its own name can be read.
    assert_eq!(with("\"x\":01,"), 0);
    assert_eq!(with("\"x\":\"\\q\","), 0);
    assert_eq!(with("\"x\":[1,],"), 0);
    assert_eq!(with("\"x\":,"), 0);
    assert_eq!(with("\"\\ud800\":1,"), 0);
    // A field that is read has to be right.
    assert_eq!(with("\"turn\":1e999,"), 0);
}

#[test]
fn a_second_rewind_of_the_same_turns_finds_nothing() {
    let index = concat_lines(&[
        "{\"turn\":1,\"tool\":\"t\",\"path\":\"/b\",\"snap\":\"1/0.snap\",\"existed_before\":true}",
        "{\"turn\":2,\"tool\":\"t\",\"path\":\"/b\",\"snap\":\"2/0.snap\",\"existed_before\":true}",
        "{\"turn\":2,\"tool\":\"t\",\"path\":\"/a\",\"snap\":\"\",\"existed_before\":false}",
        "{\"turn\":3,\"tool\":\"t\",\"path\":\"/b\",\"snap\":\"3/0.snap\",\"existed_before\":true}",
    ]);
    let store = CheckpointStore::open("/p", 2, &index);
    let restore = store.restore_turns_from(2, &index);
    assert_eq!(restore.restored, vec!["/a", "/b"]);
    assert_eq!(
        restore.steps,
        vec![
            Step::Copy { snap: "2/0.snap".to_string(), path: "/b".to_string() },
            Step::Delete { path: "/a".to_string() },
        ]
    );
    assert_eq!(restore.dropped, vec![2, 3]);
    let kept: String = restore.keep.iter().map(line).collect();
    let again = store.restore_turns_from(2, &kept);
    assert!(again.restored.is_empty() && again.steps.is_empty() && again.dropped.is_empty());
    assert_eq!(again.keep, restore.keep);

    // Only the last two of three turns are kept, and then there is no more to
    // collect.
    let collected = store.gc(&index).expect("three turns");
    assert_eq!(collected.dropped, vec![1]);
    let kept: String = collected.keep.iter().map(line).collect();
    assert_eq!(collected.keep.len(), 3);
    assert!(store.gc(&kept).is_none());
}

fn concat_lines(lines: &[&str]) -> String {
    lines.iter().map(|line| format!("{line}\n")).collect()
}
