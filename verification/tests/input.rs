use void_runtime::input::{ButtonState, KeyCode, KeyboardInputState, MouseButton, MouseButtonState};

#[test]
fn button_history_bits() {
    assert!(!ButtonState(0b00).pressed());
    assert!(ButtonState(0b01).pressed());
    assert!(ButtonState(0b01).just_pressed());
    assert!(!ButtonState(0b11).just_pressed());
    assert!(ButtonState(0b10).just_released());
    assert!(!ButtonState(0b00).just_released());
    assert!(!ButtonState(0b11).just_released());
    assert!(ButtonState(0b1111_0001).just_pressed());
}

#[test]
fn set_pressed_changes_only_the_current_frame() {
    let mut b = ButtonState(0b1010);
    b.set_pressed(true);
    assert_eq!(b.0, 0b1011);
    b.set_pressed(false);
    assert_eq!(b.0, 0b1010);
    let mut c = ButtonState(0b0111);
    c.set_pressed(false);
    assert_eq!(c.0, 0b0110);
    assert!(c.just_released());
}

#[test]
fn keyboard_state_iterates_in_key_order() {
    let mut keys = KeyboardInputState::<4>::default();
    keys.set(KeyCode(2), ButtonState(1));
    let all = keys.iter();
    assert_eq!(all.len(), 4);
    assert_eq!(all[2].0, KeyCode(2));
    assert!(all[2].1.pressed());
    assert!(!all[1].1.pressed());
    assert!(keys.get(KeyCode(2)).just_pressed());
}

#[test]
fn mouse_state_iterates_in_button_order() {
    let mut buttons = MouseButtonState([ButtonState(0); 3]);
    buttons.set(MouseButton(0), ButtonState(2));
    let all = buttons.iter();
    assert_eq!(all.len(), 3);
    assert_eq!(all[0].0, MouseButton(0));
    assert!(all[0].1.just_released());
    assert!(buttons.get(MouseButton(0)).just_released());
}
