use rsvim_core::evloop::{accept, InputEvent, Key};
use rsvim_core::ui::widget::content::WindowContent;
use rsvim_core::uuid::Uuids;

#[test]
fn escape_ends_the_loop() {
    assert!(!accept(&InputEvent::KeyPress { key: Key::Esc, plain: true }));
    assert!(accept(&InputEvent::KeyPress { key: Key::Esc, plain: false }));
    assert!(accept(&InputEvent::KeyPress { key: Key::Char('c'), plain: true }));
    assert!(accept(&InputEvent::KeyPress { key: Key::Other, plain: true }));
    assert!(accept(&InputEvent::Other));
}

#[test]
fn new_content_is_clean() {
    let mut ids = Uuids::new();
    let content = WindowContent::new(&mut ids);
    assert_eq!(content.id(), 1);
    assert!(content.lines().is_empty());
    assert!(!content.line_wrap());
    assert!(!content.word_wrap());
    assert!(!content.dirty());
    let content = WindowContent::from_lines(&mut ids, vec!["a".to_string(), "b".to_string()]);
    assert_eq!(content.id(), 2);
    assert_eq!(content.lines().len(), 2);
    assert_eq!(content.line(1), "b");
    assert!(!content.dirty());
}

#[test]
fn a_change_of_wrapping_makes_the_content_dirty() {
    let mut ids = Uuids::new();
    let mut content = WindowContent::new(&mut ids);
    assert!(!content.set_line_wrap(false));
    assert!(!content.dirty());
    assert!(!content.set_line_wrap(true));
    assert!(content.line_wrap());
    assert!(content.dirty());
    content.drawn();
    assert!(!content.dirty());
    assert!(content.set_line_wrap(true));
    assert!(!content.dirty());
    assert!(!content.set_word_wrap(true));
    assert!(content.word_wrap());
    assert!(content.dirty());
    assert!(content.set_word_wrap(false));
    assert!(!content.word_wrap());
}

#[test]
fn lines_change_in_place() {
    let mut ids = Uuids::new();
    let mut content = WindowContent::new(&mut ids);
    content.lines_mut().push("first".to_string());
    content.lines_mut().push("second".to_string());
    content.line_mut(0).push('!');
    assert_eq!(content.line(0), "first!");
    assert_eq!(content.line(1), "second");
    assert_eq!(content.lines().len(), 2);
    assert!(!content.dirty());
}
