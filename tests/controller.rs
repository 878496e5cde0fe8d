use todo_tracker::cli::{parse_priority, priority_from_lowercase};
use todo_tracker::controller::{Controller, Event, Key, Mode, Step, Tab};
use todo_tracker::models::Priority;
use todo_tracker::store::AppState;
use todo_tracker::text::{read_due_date, read_tags, split_at_char};

fn type_text(c: &mut Controller, s: &mut AppState, text: &str) {
    for ch in text.chars() {
        c.handle(s, Event::Char(ch));
    }
}

fn add_via_form(c: &mut Controller, s: &mut AppState, d: &str, tags: &str, due: &str, p: Priority) {
    c.handle(s, Event::AddTrigger);
    type_text(c, s, d);
    c.handle(s, Event::Confirm);
    type_text(c, s, tags);
    c.handle(s, Event::Confirm);
    type_text(c, s, due);
    c.handle(s, Event::Confirm);
    c.handle(s, Event::SelectPriority(p));
    c.handle(s, Event::Confirm);
}

#[test]
fn form_adds_a_task() {
    let mut s = AppState::new();
    let mut c = Controller::new();
    add_via_form(&mut c, &mut s, "write report", " work , urgent", "2024-01-15", Priority::High);
    assert_eq!(c.mode, Mode::Browse);
    assert_eq!(s.tasks.len(), 1);
    let t = &s.tasks[0];
    assert_eq!(t.id, 1);
    assert_eq!(t.description, "write report");
    assert_eq!(t.tags, vec!["work".to_string(), "urgent".to_string()]);
    assert_eq!(t.due_date, Some(1705276800));
    assert_eq!(t.priority, Priority::High);
    assert!(!t.completed);
}

#[test]
fn form_with_bad_date_has_no_due_date() {
    let mut s = AppState::new();
    let mut c = Controller::new();
    add_via_form(&mut c, &mut s, "x", "", "tomorrow", Priority::Low);
    assert_eq!(s.tasks[0].due_date, None);
    assert_eq!(s.tasks[0].tags, vec!["".to_string()]);
}

#[test]
fn form_steps_and_cancel() {
    let mut s = AppState::new();
    let mut c = Controller::new();
    c.handle(&mut s, Event::AddTrigger);
    assert_eq!(c.mode, Mode::Compose(Step::Description));
    type_text(&mut c, &mut s, "abc");
    c.handle(&mut s, Event::Backspace);
    assert_eq!(c.draft.description, "ab");
    c.handle(&mut s, Event::Confirm);
    assert_eq!(c.mode, Mode::Compose(Step::Tags));
    c.handle(&mut s, Event::Confirm);
    assert_eq!(c.mode, Mode::Compose(Step::DueDate));
    c.handle(&mut s, Event::Confirm);
    assert_eq!(c.mode, Mode::Compose(Step::Priority));
    c.handle(&mut s, Event::Char('x'));
    assert_eq!(c.draft.priority, Priority::Low);
    c.handle(&mut s, Event::SelectPriority(Priority::Medium));
    assert_eq!(c.draft.priority, Priority::Medium);
    c.handle(&mut s, Event::Cancel);
    assert_eq!(c.mode, Mode::Browse);
    assert_eq!(c.draft.description, "");
    assert_eq!(c.draft.priority, Priority::Low);
    assert!(s.tasks.is_empty());
}

#[test]
fn browse_navigation_is_clamped() {
    let mut s = AppState::new();
    for d in ["a", "b", "c"] {
        s.add(d.to_string(), Vec::new(), None, Priority::Low);
    }
    let mut c = Controller::new();
    c.handle(&mut s, Event::MoveUp);
    assert_eq!(c.selected, 0);
    for _ in 0..5 {
        c.handle(&mut s, Event::MoveDown);
    }
    assert_eq!(c.selected, 2);
    c.handle(&mut s, Event::SwitchTabRight);
    assert_eq!(c.tab, Tab::Archived);
    assert_eq!(c.selected, 0);
    c.handle(&mut s, Event::MoveDown);
    assert_eq!(c.selected, 0);
    c.handle(&mut s, Event::SwitchTabLeft);
    assert_eq!(c.tab, Tab::Active);
    assert!(c.running);
    c.handle(&mut s, Event::Quit);
    assert!(!c.running);
}

#[test]
fn browse_delete_done_and_archive() {
    let mut s = AppState::new();
    for d in ["a", "b", "c"] {
        s.add(d.to_string(), Vec::new(), None, Priority::Low);
    }
    let mut c = Controller::new();
    c.handle(&mut s, Event::MoveDown);
    c.handle(&mut s, Event::MoveDown);
    c.handle(&mut s, Event::DeleteCurrent);
    assert_eq!(s.tasks.len(), 2);
    assert_eq!(c.selected, 1);
    c.handle(&mut s, Event::MarkDone);
    assert!(s.tasks[1].completed);
    c.handle(&mut s, Event::ArchiveTrigger);
    assert_eq!(s.tasks.len(), 1);
    assert_eq!(s.archived.len(), 1);
    assert_eq!(s.archived[0].description, "b");
    assert_eq!(c.selected, 0);
    c.handle(&mut s, Event::SwitchTabRight);
    c.handle(&mut s, Event::DeleteCurrent);
    assert_eq!(s.archived.len(), 1);
}

#[test]
fn keys_decode_by_mode() {
    let mut c = Controller::new();
    assert_eq!(c.decode_key(Key::Char('j')), Some(Event::MoveDown));
    assert_eq!(c.decode_key(Key::Up), Some(Event::MoveUp));
    assert_eq!(c.decode_key(Key::Char('D')), Some(Event::MarkDone));
    assert_eq!(c.decode_key(Key::Char('r')), Some(Event::ArchiveTrigger));
    assert_eq!(c.decode_key(Key::Char('z')), None);
    assert_eq!(c.decode_key(Key::Enter), None);
    c.mode = Mode::Compose(Step::Description);
    assert_eq!(c.decode_key(Key::Char('j')), Some(Event::Char('j')));
    assert_eq!(c.decode_key(Key::Char('2')), Some(Event::Char('2')));
    assert_eq!(c.decode_key(Key::Enter), Some(Event::Confirm));
    assert_eq!(c.decode_key(Key::Esc), Some(Event::Cancel));
    c.mode = Mode::Compose(Step::Priority);
    assert_eq!(c.decode_key(Key::Char('2')), Some(Event::SelectPriority(Priority::Medium)));
    assert_eq!(c.decode_key(Key::Char('3')), Some(Event::SelectPriority(Priority::High)));
}

#[test]
fn text_helpers() {
    let pieces = split_at_char(&"a,,b,".to_string(), ',');
    assert_eq!(pieces, vec!["a", "", "b", ""]);
    assert_eq!(split_at_char(&String::new(), ','), vec![""]);
    assert_eq!(read_tags(&"  x ,y  ".to_string()), vec!["x", "y"]);
    assert_eq!(read_due_date(&String::new()), None);
    assert_eq!(read_due_date(&"1970-01-02".to_string()), Some(86400));
    assert_eq!(read_due_date(&"2024-13-01".to_string()), None);
}

#[test]
fn priority_names() {
    assert_eq!(parse_priority("HIGH"), Priority::High);
    assert_eq!(parse_priority("Medium"), Priority::Medium);
    assert_eq!(parse_priority("low"), Priority::Low);
    assert_eq!(parse_priority("urgent"), Priority::Low);
    assert_eq!(priority_from_lowercase(&"high".to_string()), Priority::High);
    assert_eq!(priority_from_lowercase(&"HIGH".to_string()), Priority::Low);
}
