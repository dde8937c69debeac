use task_log::command::get_command;
use task_log::command::route;
use task_log::command::Action;
use task_log::task::listing;
use task_log::task::record_lines;
use task_log::task::Stage;
use task_log::task::Task;
use task_log::task::TaskForm;
use task_log::window::TimeError;

fn args(words: &[&str]) -> Vec<String> {
    words.iter().map(|w| w.to_string()).collect()
}

fn stored(stamp: Option<&str>) -> Task {
    let mut t = Task::new(
        "abc".to_string(),
        "fix \"bug\"\n".to_string(),
        "2h".to_string(),
        "http://x/1".to_string(),
    );
    t.create_datetime = stamp.map(|s| s.to_string());
    t
}

#[test]
fn dispatch_list_with_date() {
    let a = args(&["prog", "list", "2024-03-10"]);
    assert_eq!(get_command(&a), ("list", "2024-03-10"));
    assert_eq!(route("list"), Action::List);
}

#[test]
fn dispatch_new_without_argument() {
    let a = args(&["prog", "new"]);
    assert_eq!(get_command(&a), ("new", ""));
    assert_eq!(route("new"), Action::New);
}

#[test]
fn dispatch_unhandled() {
    let a = args(&["prog"]);
    assert_eq!(get_command(&a), ("", ""));
    let b = args(&["prog", "a", "b", "c"]);
    assert_eq!(get_command(&b), ("", ""));
    assert_eq!(route(""), Action::Unhandled);
    assert_eq!(route("delete"), Action::Unhandled);
}

#[test]
fn form_keeps_raw_input() {
    let mut f = TaskForm::new();
    assert_eq!(f.prompt(), Some("Ingrese la descripcion de lo realizado"));
    assert!(!f.feed("\n"));
    assert_eq!(f.stage, Stage::Description);
    assert!(f.feed("wrote tests\n"));
    assert_eq!(f.stage, Stage::Time);
    assert!(f.feed(" 2h \n"));
    assert_eq!(f.stage, Stage::Url);
    assert_eq!(f.prompt(), Some("Ingrese la url de la tarea"));
    assert!(!f.feed("  \t\n"));
    assert!(f.feed("http://tracker/42\n"));
    assert_eq!(f.stage, Stage::Complete);
    assert_eq!(f.prompt(), None);
    let t = f.finish().unwrap();
    assert_eq!(t.description, "\nwrote tests\n");
    assert_eq!(t.time, " 2h \n");
    assert_eq!(t.task_url, "  \t\nhttp://tracker/42\n");
    assert_eq!(t.create_datetime, None);
    assert_eq!(t.id.chars().count(), 36);
    assert_eq!(t.insert_values(), vec![t.id.clone(), t.description.clone(), t.time.clone(), t.task_url.clone()]);
}

#[test]
fn unfinished_form_gives_no_task() {
    let mut f = TaskForm::new();
    assert!(f.feed("a"));
    assert!(f.finish().is_none());
}

#[test]
fn created_ids_are_distinct() {
    let a = Task::create("a".to_string(), "1".to_string(), "u".to_string());
    let b = Task::create("a".to_string(), "1".to_string(), "u".to_string());
    assert_ne!(a.id, b.id);
    let c: Vec<char> = a.id.chars().collect();
    assert_eq!(c.len(), 36);
    assert_eq!(c[8], '-');
    assert_eq!(c[13], '-');
    assert_eq!(c[14], '4');
    assert_eq!(c[18], '-');
    assert_eq!(c[23], '-');
}

#[test]
fn record_block_lines() {
    let t = stored(Some("2024-03-09 19:00:00"));
    let lines = record_lines(&t, "+05").unwrap();
    assert_eq!(
        lines,
        vec![
            "=========================================".to_string(),
            "ID: \"abc\"".to_string(),
            "Description: \"fix \\\"bug\\\"\\n\"".to_string(),
            "Time : \"2h\"".to_string(),
            "Task url: \"http://x/1\"".to_string(),
            "Create Date: \"2024-03-10 00:00:00\"".to_string(),
        ]
    );
}

#[test]
fn record_block_errors() {
    assert_eq!(record_lines(&stored(None), "+05"), Err(TimeError::MissingTimestamp));
    assert_eq!(record_lines(&stored(Some("bad")), "+05"), Err(TimeError::MalformedTimestamp));
    assert_eq!(
        record_lines(&stored(Some("2024-03-09 19:00:00")), "+05:30"),
        Err(TimeError::MalformedOffset)
    );
}

#[test]
fn listing_without_records_is_header_only() {
    let r = listing("Data from: 2024-03-10 12:00:00 +05:00", &vec![], "+05:00");
    assert_eq!(r, Ok(vec!["Data from: 2024-03-10 12:00:00 +05:00".to_string()]));
}

#[test]
fn listing_with_records() {
    let tasks = vec![stored(Some("2024-03-09 19:00:00")), stored(Some("2024-03-10 18:59:00"))];
    let r = listing("H", &tasks, "+05").unwrap();
    assert_eq!(r.len(), 13);
    assert_eq!(r[0], "H");
    assert_eq!(r[6], "Create Date: \"2024-03-10 00:00:00\"");
    assert_eq!(r[12], "Create Date: \"2024-03-10 23:59:00\"");
    let bad = vec![stored(Some("2024-03-09 19:00:00")), stored(None)];
    assert_eq!(listing("H", &bad, "+05"), Err(TimeError::MissingTimestamp));
}
