use sprite_batch::input::{InputError, InputEvent, InputManager, KeyState, MouseButton};

#[test]
fn key_state_transitions() {
    let mut k = KeyState { down: false, changed: false };
    assert!(k.up() && !k.down() && !k.pressed() && !k.released());
    k.update(true);
    assert!(k.down() && k.pressed() && !k.released());
    k.update(true);
    assert!(k.down() && !k.pressed());
    k.update(false);
    assert!(k.up() && k.released() && !k.pressed());
}

#[test]
fn key_presses_last_one_frame() {
    let mut input = InputManager::new();
    let rest = input.update(vec![InputEvent::KeyDown(Some(32))]);
    assert!(rest.is_empty());
    assert!(input.key(32).pressed());
    input.update(vec![]);
    assert!(input.key(32).down());
    assert!(!input.key(32).pressed());
    input.update(vec![InputEvent::KeyUp(Some(32))]);
    assert!(input.key(32).released());
}

#[test]
fn unseen_key_is_up() {
    let input = InputManager::new();
    assert_eq!(input.key(5), KeyState { down: false, changed: false });
}

#[test]
fn key_up_for_unseen_key_counts_as_release() {
    let mut input = InputManager::new();
    input.update(vec![InputEvent::KeyUp(Some(7))]);
    assert!(input.key(7).released());
}

#[test]
fn unhandled_events_are_passed_on() {
    let mut input = InputManager::new();
    let rest = input.update(vec![
        InputEvent::Other(0),
        InputEvent::MouseWheel(3),
        InputEvent::KeyDown(None),
        InputEvent::Other(3),
    ]);
    assert_eq!(rest, vec![InputEvent::Other(0), InputEvent::Other(3)]);
    assert_eq!(input.mouse_wheel(), 3);
    input.update(vec![]);
    assert_eq!(input.mouse_wheel(), 0);
}

#[test]
fn mouse_motion_and_buttons() {
    let mut input = InputManager::new();
    assert!(matches!(input.button(MouseButton::Left), Err(InputError::MouseButtonNotFound(MouseButton::Left))));
    input.update(vec![
        InputEvent::MouseMotion { x: 10, y: 20, xrel: 1, yrel: -2 },
        InputEvent::MouseButtonDown(MouseButton::Left),
    ]);
    assert_eq!(input.mouse_position(), (10, 20));
    assert_eq!(input.mouse_position_relative(), (1, -2));
    assert!(input.button(MouseButton::Left).unwrap().pressed());
    input.update(vec![]);
    assert_eq!(input.mouse_position(), (10, 20));
    assert_eq!(input.mouse_position_relative(), (0, 0));
}

#[test]
fn keybinds() {
    let mut input = InputManager::new();
    assert!(matches!(input.keybind("jump"), Err(InputError::KeybindNotFound(ref n)) if n == "jump"));
    input.set_keybind("jump", 32);
    input.update(vec![InputEvent::KeyDown(Some(32))]);
    assert!(input.keybind("jump").unwrap().pressed());
    input.set_keybind("jump", 33);
    assert!(input.keybind("jump").unwrap().up());
    input.clear_keybind("jump");
    assert!(input.keybind("jump").is_err());
    input.clear_keybind("jump");
}

#[test]
fn mouse_button_release() {
    let mut input = InputManager::new();
    input.update(vec![InputEvent::MouseButtonDown(MouseButton::Right)]);
    assert!(input.button(MouseButton::Right).unwrap().pressed());
    input.update(vec![]);
    let held = input.button(MouseButton::Right).unwrap();
    assert!(held.down() && !held.pressed());
    input.update(vec![InputEvent::MouseButtonUp(MouseButton::Right)]);
    let s = input.button(MouseButton::Right).unwrap();
    assert!(s.up() && s.released());
    input.update(vec![]);
    let s = input.button(MouseButton::Right).unwrap();
    assert!(s.up() && !s.released());
}

#[test]
fn button_up_for_unseen_button_counts_as_release() {
    let mut input = InputManager::new();
    input.update(vec![InputEvent::MouseButtonUp(MouseButton::Middle)]);
    assert!(input.button(MouseButton::Middle).unwrap().released());
}
