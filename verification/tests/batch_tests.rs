use std::cell::Cell;

use nt::notes::append_notes_from_input;
use nt::notes::NoteStore;
use nt::time::Clock;
use nt::time::FixedClock;

struct SeqClock {
    times: Vec<String>,
    idx: Cell<usize>,
}

impl SeqClock {
    fn new(times: Vec<&str>) -> Self {
        Self {
            times: times.into_iter().map(|s| s.to_string()).collect(),
            idx: Cell::new(0),
        }
    }
}

impl Clock for SeqClock {
    fn now_formatted(&self, _pattern: &str) -> String {
        let i = self.idx.get();
        let v = if i < self.times.len() {
            &self.times[i]
        } else {
            self.times.last().unwrap()
        };
        self.idx.set(i + 1);
        v.clone()
    }
}

#[test]
fn batch_skips_blank_lines_and_reports_count() {
    let mut store = NoteStore::new();
    let clock = SeqClock::new(vec!["T1", "T2", "T3"]);
    let input = "line a\nline b\n\nline c\n  \n";
    let added = append_notes_from_input(&mut store, &clock, "%H:%M", input);
    assert_eq!(added, 3);
    let contents = store.contents.unwrap();
    assert_eq!(contents, "T1 line a\nT2 line b\nT3 line c\n");
}

#[test]
fn batch_stamps_each_line_independently() {
    let mut store = NoteStore::new();
    let clock = SeqClock::new(vec!["T1", "T2"]);
    let added = append_notes_from_input(&mut store, &clock, "%H:%M", "first line\nsecond line\n");
    assert_eq!(added, 2);
    let contents = store.contents.unwrap();
    let lines: Vec<&str> = contents.lines().collect();
    assert_eq!(lines, vec!["T1 first line", "T2 second line"]);
}

#[test]
fn batch_whitespace_only_input_appends_nothing() {
    let mut store = NoteStore::new();
    let clock = FixedClock {
        formatted: "T".to_string(),
    };
    let added = append_notes_from_input(&mut store, &clock, "%H:%M", "   \n\n");
    assert_eq!(added, 0);
    assert!(store.contents.is_none(), "store must stay untouched");
}

#[test]
fn batch_strips_carriage_returns_from_piped_lines() {
    let mut store = NoteStore::new();
    let clock = FixedClock {
        formatted: "T".to_string(),
    };
    let added = append_notes_from_input(&mut store, &clock, "%H:%M", "win line\r\nplain\n");
    assert_eq!(added, 2);
    assert_eq!(store.contents.unwrap(), "T win line\nT plain\n");
}

#[test]
fn batch_appends_after_existing_entries() {
    let mut store = NoteStore::from_contents("T0 old entry\n".to_string());
    let clock = FixedClock {
        formatted: "T1".to_string(),
    };
    let added = append_notes_from_input(&mut store, &clock, "%H:%M", "new entry\n");
    assert_eq!(added, 1);
    assert_eq!(store.contents.unwrap(), "T0 old entry\nT1 new entry\n");
}
