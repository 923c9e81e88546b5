use streamduck::runtime_core::SDCore;
use streamduck::screen::{Button, Screen, ScreenStack, StackError};

#[test]
fn stack_never_empty_after_mixed_operations() {
    let mut stack = ScreenStack::new();
    assert_eq!(stack.len(), 1);
    stack.push(Screen::new());
    stack.push(Screen::new());
    assert_eq!(stack.len(), 3);
    assert!(stack.pop().is_ok());
    stack.replace(Screen::new());
    assert_eq!(stack.len(), 2);
    stack.forcibly_pop();
    stack.forcibly_pop();
    assert_eq!(stack.len(), 1);
    stack.reset(Screen::new());
    assert_eq!(stack.len(), 1);
    assert_eq!(stack.pop(), Err(StackError::LastScreen));
    assert_eq!(stack.len(), 1);
    assert!(stack.current().is_some());
}

#[test]
fn pop_on_single_screen_is_last_screen() {
    let mut stack = ScreenStack::new();
    let mut screen = Screen::new();
    screen.set(1, 7);
    stack.reset(screen);
    assert_eq!(stack.pop(), Err(StackError::LastScreen));
    assert_eq!(stack.get_button(1), Some(7));
}

#[test]
fn forcibly_pop_on_single_screen_leaves_fresh_empty_screen() {
    let mut stack = ScreenStack::new();
    let mut screen = Screen::new();
    screen.set(1, 7);
    stack.reset(screen);
    stack.forcibly_pop();
    assert_eq!(stack.len(), 1);
    assert_eq!(stack.get_button(1), None);
    assert!(stack.current().unwrap().buttons.is_empty());
}

#[test]
fn core_rejects_screens_with_keys_beyond_device() {
    let (mut core, _keys) = SDCore::new((72, 72), 6, 60);
    let id = core.add_button(Button::new());
    let mut bad = Screen::new();
    bad.set(6, id);
    assert!(!core.push_screen(bad));
    let mut bad_id = Screen::new();
    bad_id.set(0, id + 1);
    assert!(!core.push_screen(bad_id));
    let mut good = Screen::new();
    good.set(5, id);
    assert!(core.push_screen(good));
    assert_eq!(core.stack_len(), 2);
    assert_eq!(core.get_button(5), Some(id));
}

#[test]
fn shared_button_edit_seen_on_every_screen() {
    let (mut core, _keys) = SDCore::new((72, 72), 6, 60);
    let id = core.add_button(Button::new());
    let mut first = Screen::new();
    first.set(0, id);
    let mut second = Screen::new();
    second.set(2, id);
    assert!(core.push_screen(first));
    assert!(core.push_screen(second));
    assert!(core.add_component(2, &"label".to_string()));
    assert!(!core.add_component(2, &"label".to_string()));
    assert!(core.pop_screen().is_ok());
    let shown = core.get_button(0).unwrap();
    assert_eq!(core.button(shown).components, vec!["label".to_string()]);
    assert!(core.remove_component(0, &"label".to_string()));
    assert!(!core.remove_component(0, &"label".to_string()));
}

#[test]
fn mutations_queue_redraws_and_close_sets_flag() {
    let (mut core, _keys) = SDCore::new((72, 72), 6, 60);
    assert_eq!(core.take_commands().len(), 1);
    assert!(core.set_button(1, Button::new()));
    assert!(!core.set_button(6, Button::new()));
    assert!(core.clear_button(1));
    assert!(!core.clear_button(1));
    assert_eq!(core.take_commands().len(), 2);
    assert!(!core.is_closed());
    core.close();
    assert!(core.is_closed());
    assert_eq!(core.take_commands().len(), 1);
    let blank = SDCore::blank();
    assert!(blank.is_closed());
    assert_eq!(blank.key_count, 0);
}
