use conapp::input::{AppInput, InputEvent};

#[test]
fn keys_across_frames() {
    let mut input = AppInput::new();
    assert!(!input.key(5));
    assert!(!input.had_key_event());
    input.on_event(InputEvent::KeyDown(5));
    assert!(input.key(5));
    assert!(input.key_pressed(5));
    assert!(!input.key_released(5));
    assert!(input.had_key_event());
    input.on_frame_end();
    assert!(input.key(5));
    assert!(!input.key_pressed(5));
    assert!(!input.had_key_event());
    // a repeat while held is not a new press
    input.on_event(InputEvent::KeyDown(5));
    assert!(!input.key_pressed(5));
    input.on_event(InputEvent::KeyUp(5));
    assert!(!input.key(5));
    assert!(input.key_released(5));
    input.on_frame_end();
    assert!(!input.key_released(5));
}

#[test]
fn mouse_and_close() {
    let mut input = AppInput::new();
    input.on_event(InputEvent::MouseDown(1));
    assert!(input.mouse_button(1));
    assert!(input.mouse_button_pressed(1));
    assert!(!input.mouse_button(0));
    assert!(input.had_mouse_event());
    input.on_event(InputEvent::MouseUp(1));
    assert!(!input.mouse_button(1));
    assert!(input.mouse_button_released(1));
    assert!(!input.mouse_button_pressed(1));
    input.on_event(InputEvent::CloseRequested);
    assert!(input.close_requested());
    input.on_frame_end();
    assert!(!input.close_requested());
    assert!(!input.mouse_button_released(1));
    input.on_event(InputEvent::Char);
    assert!(input.had_key_event());
    input.on_event(InputEvent::MouseMove);
    assert!(input.had_mouse_event());
}
