use row666_metroidbrainia::input::{
    Control, ElementState, InputHandler, KeyCode, KeyState, PhysicalKey,
};

const W: KeyCode = KeyCode(1);
const A: KeyCode = KeyCode(2);
const UP: KeyCode = KeyCode(3);

fn press(handler: &mut InputHandler, key: KeyCode) {
    handler.handle_input(PhysicalKey::Code(key), ElementState::Pressed);
}

fn release(handler: &mut InputHandler, key: KeyCode) {
    handler.handle_input(PhysicalKey::Code(key), ElementState::Released);
}

#[test]
fn a_key_state_is_pressed_while_the_key_is_down() {
    assert!(KeyState::Pressed.is_pressed());
    assert!(KeyState::Held.is_pressed());
    assert!(!KeyState::Released.is_pressed());
    assert!(!KeyState::Inactive.is_pressed());
    assert_eq!(KeyState::default(), KeyState::Inactive);
}

#[test]
fn nothing_is_pressed_before_a_key_goes_down() {
    let mut handler = InputHandler::new();
    assert!(!handler.is_pressed(Control::MoveUp));
    handler.register_control(W, Control::MoveUp);
    assert!(!handler.is_pressed(Control::MoveUp));
    handler.update();
    assert!(!handler.is_pressed(Control::MoveUp));
}

#[test]
fn a_key_moves_its_control_until_it_comes_up() {
    let mut handler = InputHandler::new();
    handler.register_control(W, Control::MoveUp);
    handler.register_control(A, Control::MoveLeft);
    press(&mut handler, W);
    assert!(handler.is_pressed(Control::MoveUp));
    assert!(!handler.is_pressed(Control::MoveLeft));
    assert!(!handler.is_pressed(Control::MoveDown));
    handler.update();
    assert!(handler.is_pressed(Control::MoveUp));
    handler.update();
    assert!(handler.is_pressed(Control::MoveUp));
    release(&mut handler, W);
    assert!(!handler.is_pressed(Control::MoveUp));
    handler.update();
    assert!(!handler.is_pressed(Control::MoveUp));
}

#[test]
fn a_control_hangs_on_every_key_bound_to_it() {
    let mut handler = InputHandler::new();
    handler.register_control(W, Control::MoveUp);
    handler.register_control(UP, Control::MoveUp);
    press(&mut handler, UP);
    assert!(handler.is_pressed(Control::MoveUp));
    press(&mut handler, W);
    release(&mut handler, UP);
    assert!(handler.is_pressed(Control::MoveUp));
    release(&mut handler, W);
    assert!(!handler.is_pressed(Control::MoveUp));
}

#[test]
fn a_key_moves_every_control_bound_to_it() {
    let mut handler = InputHandler::new();
    handler.register_control(W, Control::MoveUp);
    handler.register_control(W, Control::MoveRight);
    handler.register_control(A, Control::MoveRight);
    press(&mut handler, W);
    assert!(handler.is_pressed(Control::MoveUp));
    assert!(handler.is_pressed(Control::MoveRight));
    release(&mut handler, W);
    assert!(!handler.is_pressed(Control::MoveRight));
    press(&mut handler, A);
    assert!(!handler.is_pressed(Control::MoveUp));
    assert!(handler.is_pressed(Control::MoveRight));
}

#[test]
fn a_pair_registered_twice_is_one_pair() {
    let mut handler = InputHandler::new();
    handler.register_control(W, Control::MoveUp);
    press(&mut handler, W);
    handler.register_control(W, Control::MoveUp);
    assert!(handler.is_pressed(Control::MoveUp));
    release(&mut handler, W);
    assert!(!handler.is_pressed(Control::MoveUp));
    handler.register_control(A, Control::MoveUp);
    handler.register_control(W, Control::MoveLeft);
    handler.register_control(A, Control::MoveLeft);
    handler.register_control(A, Control::MoveLeft);
    press(&mut handler, A);
    release(&mut handler, W);
    assert!(handler.is_pressed(Control::MoveUp));
    assert!(handler.is_pressed(Control::MoveLeft));
}

#[test]
fn a_key_that_is_not_bound_moves_nothing() {
    let mut handler = InputHandler::new();
    handler.register_control(W, Control::MoveUp);
    press(&mut handler, A);
    handler.handle_input(PhysicalKey::Unidentified, ElementState::Pressed);
    assert!(!handler.is_pressed(Control::MoveUp));
    press(&mut handler, W);
    handler.handle_input(PhysicalKey::Unidentified, ElementState::Released);
    release(&mut handler, A);
    assert!(handler.is_pressed(Control::MoveUp));
}

#[test]
fn a_reset_lets_go_of_every_key() {
    let mut handler = InputHandler::new();
    handler.register_control(W, Control::MoveUp);
    handler.register_control(A, Control::MoveLeft);
    press(&mut handler, W);
    press(&mut handler, A);
    handler.update();
    handler.reset_states();
    assert!(!handler.is_pressed(Control::MoveUp));
    assert!(!handler.is_pressed(Control::MoveLeft));
    press(&mut handler, A);
    assert!(handler.is_pressed(Control::MoveLeft));
}

#[test]
fn many_keys_can_be_bound() {
    let mut handler = InputHandler::new();
    for code in 0..200u32 {
        let control = match code % 4 {
            0 => Control::MoveUp,
            1 => Control::MoveDown,
            2 => Control::MoveLeft,
            _ => Control::MoveRight,
        };
        handler.register_control(KeyCode(code), control);
    }
    press(&mut handler, KeyCode(150));
    assert!(handler.is_pressed(Control::MoveLeft));
    assert!(!handler.is_pressed(Control::MoveUp));
    release(&mut handler, KeyCode(150));
    press(&mut handler, KeyCode(u32::MAX));
    assert!(!handler.is_pressed(Control::MoveLeft));
}
