use jete::editor::handle;
use jete::editor::shutdown_event_topic;
use jete::state::empty;
use jete::state::EditorAction;
use jete::state::Mode;
use jete::userinput::topic;
use jete::userinput::Event;
use jete::userinput::Key;

#[test]
fn events_drive_the_session_until_quit() {
    let mut s = empty();
    let keys = [
        Key::Char('i'),
        Key::Char('h'),
        Key::Char('i'),
        Key::Esc,
        Key::Char(':'),
        Key::Char('q'),
    ];
    for k in keys {
        assert_eq!(handle(&mut s, Event::Key(k)), Some(EditorAction::Continue));
    }
    assert_eq!(*s.mode(), Mode::Command);
    assert_eq!(s.command_line(), "q");
    assert_eq!(handle(&mut s, Event::Key(Key::Char('\n'))), Some(EditorAction::Quit));
    assert_eq!(*s.text().line(0).unwrap().content_string(), "hi");
}

#[test]
fn events_without_a_command_change_nothing() {
    let mut s = empty();
    s.take_notices();
    assert_eq!(handle(&mut s, Event::Key(Key::PageDown)), Some(EditorAction::Continue));
    assert_eq!(handle(&mut s, Event::Unsupported(vec![0])), Some(EditorAction::Continue));
    assert!(s.take_notices().is_empty());
    assert_eq!(*s.mode(), Mode::Normal);
}

#[test]
fn bus_topics_have_their_names() {
    assert_eq!(shutdown_event_topic().name(), "shutdown");
    assert_eq!(topic().name(), "input");
}
