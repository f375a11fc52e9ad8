use nt::config::default_config_file_in;
use nt::config::path_join;
use nt::config::resolve_default_config_file_path;
use nt::config::RuntimeConfig;
use nt::config::runtime_config_from_parts;
use nt::interactive::run_interactive_session;
use nt::interactive::InteractiveOutcome;
use nt::notes::append_note_line_to_file_with_clock;
use nt::notes::NoteStore;
use nt::time::Clock;
use nt::time::FixedClock;
use nt::time::SystemClock;

#[test]
fn append_with_clock_uses_the_clock_text() {
    let mut store = NoteStore::new();
    let clock = FixedClock {
        formatted: "12:00".to_string(),
    };
    append_note_line_to_file_with_clock(&mut store, &clock, "%H:%M", "Lunch time");
    assert_eq!(store.contents.unwrap(), "12:00 Lunch time\n");
}

#[test]
fn append_with_clock_creates_store_lazily() {
    let mut store = NoteStore::new();
    assert!(store.contents.is_none());
    let clock = FixedClock {
        formatted: "T".to_string(),
    };
    append_note_line_to_file_with_clock(&mut store, &clock, "%H:%M", "x");
    assert!(store.contents.is_some());
}

#[test]
fn system_clock_renders_through_pattern() {
    let clock = SystemClock;
    let year = clock.now_formatted("%Y");
    assert_eq!(year.len(), 4);
    assert!(year.chars().all(|c| c.is_ascii_digit()));
}

#[test]
fn interactive_prompt_marker_is_written_when_enabled() {
    let mut store = NoteStore::new();
    let mut prompt_out = String::new();
    let clock = FixedClock {
        formatted: "T".to_string(),
    };
    let outcome = run_interactive_session("note\n", &mut prompt_out, true, &clock, "%H:%M", &mut store);
    assert_eq!(outcome, InteractiveOutcome::Added(1));
    assert_eq!(prompt_out, "> ");
}

#[test]
fn interactive_strips_one_trailing_carriage_return() {
    let mut store = NoteStore::new();
    let mut prompt_out = String::new();
    let clock = FixedClock {
        formatted: "T".to_string(),
    };
    let outcome = run_interactive_session(
        "windows line\r\n",
        &mut prompt_out,
        false,
        &clock,
        "%H:%M",
        &mut store,
    );
    assert_eq!(outcome, InteractiveOutcome::Added(1));
    assert_eq!(store.contents.unwrap(), "T windows line\n");
}

#[test]
fn path_join_inserts_exactly_one_separator() {
    assert_eq!(path_join("/base", "child"), "/base/child");
    assert_eq!(path_join("/base/", "child"), "/base/child");
    assert_eq!(path_join("", "child"), "child");
}

#[test]
fn default_config_file_sits_in_the_directory() {
    assert_eq!(default_config_file_in("/etc/xdg/nt"), "/etc/xdg/nt/nt.toml");
}

#[test]
fn default_config_file_path_ends_with_the_config_name() {
    match resolve_default_config_file_path() {
        Ok(p) => assert!(p.ends_with("nt/nt.toml"), "got: {p}"),
        Err(_) => {}
    }
}

#[test]
fn config_from_parts_keeps_literal_and_expands_path() {
    let cfg: RuntimeConfig = runtime_config_from_parts(
        "~/notes/n.txt".to_string(),
        "%H:%M".to_string(),
        "/home/someone",
    );
    assert_eq!(cfg.configured_note_file_literal, "~/notes/n.txt");
    assert_eq!(cfg.expanded_note_file_path, "/home/someone/notes/n.txt");
    assert_eq!(cfg.datetime_format_pattern, "%H:%M");
}
