use nt::notes::append_note_line_to_file;
use nt::notes::collect_last_n_lines_from_file_allow_missing;
use nt::notes::collect_last_n_lines_from_reader;
use nt::notes::NoteStore;

#[test]
fn tail_read_returns_min_of_count_and_line_total() {
    let data = "1\n2\n3\n4\n5\n";
    for count in 0..8usize {
        let lines = collect_last_n_lines_from_reader(data, count);
        assert_eq!(lines.len(), count.min(5));
    }
}

#[test]
fn tail_read_keeps_original_order_and_last_line() {
    let data = "first\nsecond\nthird\n";
    let lines = collect_last_n_lines_from_reader(data, 2);
    assert_eq!(lines, vec!["second", "third"]);
    assert_eq!(lines.last().unwrap(), "third");
}

#[test]
fn tail_read_zero_is_empty_for_any_contents() {
    assert!(collect_last_n_lines_from_reader("", 0).is_empty());
    assert!(collect_last_n_lines_from_reader("x\n", 0).is_empty());
    assert!(collect_last_n_lines_from_reader("a\nb\nc\n", 0).is_empty());
}

#[test]
fn tail_read_empty_contents_has_no_lines() {
    assert!(collect_last_n_lines_from_reader("", 7).is_empty());
}

#[test]
fn tail_read_handles_final_line_without_newline() {
    let lines = collect_last_n_lines_from_reader("a\nb", 5);
    assert_eq!(lines, vec!["a", "b"]);
}

#[test]
fn tail_read_strips_crlf_endings() {
    let lines = collect_last_n_lines_from_reader("a\r\nb\r\n", 5);
    assert_eq!(lines, vec!["a", "b"]);
}

#[test]
fn missing_file_reads_as_absent_not_error() {
    let store = NoteStore::new();
    assert!(collect_last_n_lines_from_file_allow_missing(&store, 10).is_none());
}

#[test]
fn existing_file_reads_its_tail() {
    let store = NoteStore::from_contents("T1 one\nT2 two\n".to_string());
    let lines = collect_last_n_lines_from_file_allow_missing(&store, 1).unwrap();
    assert_eq!(lines, vec!["T2 two"]);
}

#[test]
fn append_then_tail_read_one_returns_exactly_the_new_entry() {
    let mut store = NoteStore::from_contents("T0 older\n".to_string());
    append_note_line_to_file(&mut store, "T1", "fresh note  ");
    let lines = collect_last_n_lines_from_file_allow_missing(&store, 1).unwrap();
    assert_eq!(lines, vec!["T1 fresh note  "]);
}

#[test]
fn repeated_tail_reads_are_identical() {
    let mut store = NoteStore::new();
    append_note_line_to_file(&mut store, "T1", "entry");
    let first = collect_last_n_lines_from_file_allow_missing(&store, 3).unwrap();
    let second = collect_last_n_lines_from_file_allow_missing(&store, 3).unwrap();
    assert_eq!(first, second);
    assert_eq!(first, vec!["T1 entry"]);
}
