use nova::text::line_contains;
use nova::{
    daily_note_name, ensure_step, matching_lines, notes_root, open, run, search, CalendarDate,
    Config, FsStep, NoteFile, RootOutcome, Task,
};
use std::path::Path;

fn args(items: &[&str]) -> Vec<String> {
    items.iter().map(|s| s.to_string()).collect()
}

fn file(path: &str, lines: &[&str]) -> NoteFile {
    NoteFile { path: path.to_string(), lines: Some(args(lines)) }
}

fn unreadable(path: &str) -> NoteFile {
    NoteFile { path: path.to_string(), lines: None }
}

fn date(year: i32, month: u32, day: u32) -> CalendarDate {
    CalendarDate::new(year, month, day).unwrap()
}

#[test]
fn create_default_build_config() {
    let home_dir = "/home/user";
    let nova_dir = Path::new(home_dir).join(".nova");
    let config = Config::build(args(&["nova"]), home_dir, RootOutcome::Existing).unwrap();
    assert_eq!(nova_dir.to_str().unwrap(), config.repo_url);
}

#[test]
fn search_notes() {
    let files = vec![file("/home/user/.nova/a.md", &["hello wow!"]), file("/home/user/.nova/b.md", &[])];
    let found = search(&files, "hello");
    assert_eq!(vec!["hello wow!"], found);
}

#[test]
fn search_hello_skips_file_without_match() {
    let files = vec![
        file("/r/a.md", &["hello wow!"]),
        file("/r/b.md", &["nothing to see", "goodbye"]),
    ];
    assert_eq!(search(&files, "hello"), vec!["hello wow!".to_string()]);
}

#[test]
fn search_keeps_every_matching_line_in_walk_order() {
    let files = vec![
        file("/r/a.md", &["tea time", "coffee", "tea again", "tea time"]),
        file("/r/sub/b.md", &["green tea"]),
    ];
    assert_eq!(
        search(&files, "tea"),
        args(&["tea time", "tea again", "tea time", "green tea"])
    );
}

#[test]
fn search_is_case_sensitive() {
    let files = vec![file("/r/a.md", &["Hello", "hello"])];
    assert_eq!(search(&files, "hello"), args(&["hello"]));
}

#[test]
fn empty_term_returns_every_line() {
    let files = vec![
        file("/r/a.md", &["one", "", "two"]),
        unreadable("/r/locked.md"),
        file("/r/b.md", &["three"]),
    ];
    assert_eq!(search(&files, ""), args(&["one", "", "two", "three"]));
}

#[test]
fn absent_term_returns_nothing() {
    let files = vec![file("/r/a.md", &["one", "two"]), file("/r/b.md", &["three"])];
    assert!(search(&files, "zebra").is_empty());
    assert!(search(&Vec::new(), "zebra").is_empty());
}

#[test]
fn unreadable_file_does_not_stop_search() {
    let files = vec![
        unreadable("/r/locked.md"),
        file("/r/a.md", &["note one"]),
        unreadable("/r/binary.bin"),
        file("/r/b.md", &["note two", "other"]),
    ];
    assert_eq!(search(&files, "note"), args(&["note one", "note two"]));
}

#[test]
fn matching_lines_of_one_file() {
    let lines = args(&["ab", "xaby", "a b", "ab"]);
    assert_eq!(matching_lines(&lines, "ab"), args(&["ab", "xaby", "ab"]));
}

#[test]
fn substring_on_non_ascii_text() {
    assert!(line_contains("grüße aus köln", "aus k"));
    assert!(!line_contains("grüße", "gruß"));
    assert!(line_contains("abc", ""));
    assert!(!line_contains("ab", "abc"));
    assert!(line_contains("aaab", "aab"));
}

#[test]
fn notes_root_joins_home() {
    assert_eq!(notes_root("/home/user"), "/home/user/.nova");
    assert_eq!(notes_root("/home/user/"), "/home/user/.nova");
    assert_eq!(notes_root(""), ".nova");
}

#[test]
fn resolving_root_creates_only_when_missing() {
    assert_eq!(ensure_step(false), FsStep::Create);
    assert_eq!(ensure_step(true), FsStep::Keep);
}

#[test]
fn build_takes_second_argument_as_query() {
    let config = Config::build(args(&["nova", "hello", "extra"]), "/h", RootOutcome::Created).unwrap();
    assert_eq!(config.query, Some("hello".to_string()));
    assert_eq!(config.repo_url, "/h/.nova");
    let config = Config::build(Vec::new(), "/h", RootOutcome::Existing).unwrap();
    assert_eq!(config.query, None);
}

#[test]
fn build_fails_when_root_cannot_be_created() {
    assert!(Config::build(args(&["nova"]), "/h", RootOutcome::CreateFailed).is_err());
}

#[test]
fn run_chooses_search_with_a_term() {
    let config = Config::build(args(&["nova", "wow"]), "/h", RootOutcome::Existing).unwrap();
    match run(config) {
        Task::Search { root, term } => {
            assert_eq!(root, "/h/.nova");
            assert_eq!(term, "wow");
        }
        Task::OpenToday { .. } => panic!("expected a search"),
    }
}

#[test]
fn run_opens_today_without_a_term() {
    let config = Config::build(args(&["nova"]), "/h", RootOutcome::Existing).unwrap();
    match run(config) {
        Task::OpenToday { root } => assert_eq!(root, "/h/.nova"),
        Task::Search { .. } => panic!("expected today's note"),
    }
}

#[test]
fn daily_note_name_is_day_month_year() {
    assert_eq!(daily_note_name(&date(2026, 10, 18)), "18-10-2026.md");
    assert_eq!(daily_note_name(&date(2024, 2, 9)), "09-02-2024.md");
    assert_eq!(daily_note_name(&date(5, 1, 1)), "01-01-0005.md");
    assert_eq!(daily_note_name(&date(-4, 2, 29)), "29-02--0004.md");
    assert_eq!(daily_note_name(&date(10000, 12, 31)), "31-12-+10000.md");
}

#[test]
fn open_gives_daily_note_path_under_root() {
    assert_eq!(open("/home/user/.nova", &date(2026, 10, 18)), "/home/user/.nova/18-10-2026.md");
}

#[test]
fn calendar_date_rejects_missing_days() {
    assert!(CalendarDate::new(2023, 2, 29).is_none());
    assert!(CalendarDate::new(2024, 2, 29).is_some());
    assert!(CalendarDate::new(1900, 2, 29).is_none());
    assert!(CalendarDate::new(2000, 2, 29).is_some());
    assert!(CalendarDate::new(2024, 4, 31).is_none());
    assert!(CalendarDate::new(2024, 13, 1).is_none());
    assert!(CalendarDate::new(2024, 1, 0).is_none());
    assert!(CalendarDate::new(262142, 12, 31).is_some());
    assert!(CalendarDate::new(262143, 1, 1).is_none());
    assert!(CalendarDate::new(-262143, 1, 1).is_some());
    assert!(CalendarDate::new(-262144, 12, 31).is_none());
}
