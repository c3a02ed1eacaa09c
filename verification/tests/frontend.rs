use chip8_core::cpu::CPU;
use chip8_core::frontend::display::{pixel_rect, window_size, Display, HeadlessDisplay, PixelRect};
use chip8_core::frontend::input::{
    decode_input, key_action, key_at, read_event, Chip8KeyCode, InputEvent, KeyAction,
    KeyPosition,
};
use chip8_core::frontend::pacing::{frame_sleep_nanos, INSTRUCTIONS_PER_FRAME, NANOS_PER_SECOND};

#[test]
fn every_key_maps_to_the_digit_on_its_label() {
    assert_eq!(decode_input(Chip8KeyCode::Zero), 0x0);
    assert_eq!(decode_input(Chip8KeyCode::One), 0x1);
    assert_eq!(decode_input(Chip8KeyCode::Two), 0x2);
    assert_eq!(decode_input(Chip8KeyCode::Three), 0x3);
    assert_eq!(decode_input(Chip8KeyCode::Four), 0x4);
    assert_eq!(decode_input(Chip8KeyCode::Five), 0x5);
    assert_eq!(decode_input(Chip8KeyCode::Six), 0x6);
    assert_eq!(decode_input(Chip8KeyCode::Seven), 0x7);
    assert_eq!(decode_input(Chip8KeyCode::Eight), 0x8);
    assert_eq!(decode_input(Chip8KeyCode::Nine), 0x9);
    assert_eq!(decode_input(Chip8KeyCode::A), 0xa);
    assert_eq!(decode_input(Chip8KeyCode::B), 0xb);
    assert_eq!(decode_input(Chip8KeyCode::C), 0xc);
    assert_eq!(decode_input(Chip8KeyCode::D), 0xd);
    assert_eq!(decode_input(Chip8KeyCode::E), 0xe);
    assert_eq!(decode_input(Chip8KeyCode::F), 0xf);
}

#[test]
fn exit_maps_to_zero() {
    assert_eq!(decode_input(Chip8KeyCode::Exit), 0);
}

#[test]
fn decoded_key_reaches_the_keypad() {
    let mut c = CPU::new(false);
    c.keypress(decode_input(Chip8KeyCode::B), true);
    assert!(c.key_down(0xb));
    assert!(!c.key_down(0xa));
    c.keypress(decode_input(Chip8KeyCode::B), false);
    assert!(!c.key_down(0xb));
}

#[test]
fn headless_display_takes_a_frame() {
    let mut c = CPU::new(false);
    let mut d = HeadlessDisplay::new();
    d.draw(c.get_vram());
    assert_eq!(c.decode(0xD001), Ok(()));
    d.draw(c.get_vram());
    assert_eq!(c.get_vram()[0][0], 1);
}

#[test]
fn keyboard_block_maps_to_the_keypad() {
    assert_eq!(key_at(KeyPosition::Num1), Some(Chip8KeyCode::One));
    assert_eq!(key_at(KeyPosition::Num2), Some(Chip8KeyCode::Two));
    assert_eq!(key_at(KeyPosition::Num3), Some(Chip8KeyCode::Three));
    assert_eq!(key_at(KeyPosition::Num4), Some(Chip8KeyCode::C));
    assert_eq!(key_at(KeyPosition::Q), Some(Chip8KeyCode::Four));
    assert_eq!(key_at(KeyPosition::W), Some(Chip8KeyCode::Five));
    assert_eq!(key_at(KeyPosition::E), Some(Chip8KeyCode::Six));
    assert_eq!(key_at(KeyPosition::R), Some(Chip8KeyCode::D));
    assert_eq!(key_at(KeyPosition::A), Some(Chip8KeyCode::Seven));
    assert_eq!(key_at(KeyPosition::S), Some(Chip8KeyCode::Eight));
    assert_eq!(key_at(KeyPosition::D), Some(Chip8KeyCode::Nine));
    assert_eq!(key_at(KeyPosition::F), Some(Chip8KeyCode::E));
    assert_eq!(key_at(KeyPosition::Z), Some(Chip8KeyCode::A));
    assert_eq!(key_at(KeyPosition::X), Some(Chip8KeyCode::Zero));
    assert_eq!(key_at(KeyPosition::C), Some(Chip8KeyCode::B));
    assert_eq!(key_at(KeyPosition::V), Some(Chip8KeyCode::F));
    assert_eq!(key_at(KeyPosition::Other), None);
}

#[test]
fn events_become_key_reports() {
    assert_eq!(read_event(InputEvent::Quit), (Some(Chip8KeyCode::Exit), true));
    assert_eq!(read_event(InputEvent::Other), (None, false));
    assert_eq!(
        read_event(InputEvent::KeyDown { escape: false, position: KeyPosition::W }),
        (Some(Chip8KeyCode::Five), true)
    );
    assert_eq!(
        read_event(InputEvent::KeyUp { escape: false, position: KeyPosition::W }),
        (Some(Chip8KeyCode::Five), false)
    );
    assert_eq!(
        read_event(InputEvent::KeyDown { escape: false, position: KeyPosition::Other }),
        (None, false)
    );
    assert_eq!(
        read_event(InputEvent::KeyUp { escape: false, position: KeyPosition::Other }),
        (None, false)
    );
}

#[test]
fn escape_is_told_by_its_label_before_any_position() {
    assert_eq!(
        read_event(InputEvent::KeyDown { escape: true, position: KeyPosition::Other }),
        (Some(Chip8KeyCode::Exit), true)
    );
    assert_eq!(
        read_event(InputEvent::KeyDown { escape: true, position: KeyPosition::Q }),
        (Some(Chip8KeyCode::Exit), true)
    );
    assert_eq!(
        read_event(InputEvent::KeyUp { escape: true, position: KeyPosition::Q }),
        (Some(Chip8KeyCode::Exit), false)
    );
}

#[test]
fn reports_turn_into_actions() {
    assert_eq!(key_action(Some(Chip8KeyCode::Exit), true), KeyAction::Quit);
    assert_eq!(key_action(None, false), KeyAction::Nothing);
    assert_eq!(key_action(None, true), KeyAction::Nothing);
    assert_eq!(
        key_action(Some(Chip8KeyCode::C), true),
        KeyAction::Key { index: 0xc, pressed: true }
    );
    assert_eq!(
        key_action(Some(Chip8KeyCode::Seven), false),
        KeyAction::Key { index: 7, pressed: false }
    );
    assert_eq!(
        key_action(Some(Chip8KeyCode::Exit), false),
        KeyAction::Key { index: 0, pressed: false }
    );
}

#[test]
fn window_is_the_screen_times_the_scale() {
    assert_eq!(window_size(20), (1280, 640));
    assert_eq!(window_size(1), (64, 32));
    assert_eq!(window_size(0), (0, 0));
}

#[test]
fn pixel_square_lies_at_row_and_column_times_the_scale() {
    let mut c = CPU::new(false);
    assert_eq!(c.decode(0x6005), Ok(()));
    assert_eq!(c.decode(0x6103), Ok(()));
    assert_eq!(c.decode(0xD011), Ok(()));
    // the glyph "0" starts with 0xF0: columns 5..=8 of row 3 are lit
    let lit = pixel_rect(c.get_vram(), 3, 5, 20);
    assert_eq!(lit, PixelRect { x: 100, y: 60, width: 20, height: 20, lit: true });
    let dark = pixel_rect(c.get_vram(), 3, 9, 20);
    assert_eq!(dark, PixelRect { x: 180, y: 60, width: 20, height: 20, lit: false });
    let last = pixel_rect(c.get_vram(), 31, 63, 7);
    assert_eq!(last, PixelRect { x: 441, y: 217, width: 7, height: 7, lit: false });
    let first = pixel_rect(c.get_vram(), 0, 0, 7);
    assert_eq!(first, PixelRect { x: 0, y: 0, width: 7, height: 7, lit: false });
}

#[test]
fn rest_is_a_sixtieth_of_what_is_left_of_a_second() {
    assert_eq!(INSTRUCTIONS_PER_FRAME, 12);
    assert_eq!(NANOS_PER_SECOND, 1_000_000_000);
    assert_eq!(frame_sleep_nanos(0), 16_666_666);
    assert_eq!(frame_sleep_nanos(400_000_000), 10_000_000);
    assert_eq!(frame_sleep_nanos(999_999_941), 0);
    assert_eq!(frame_sleep_nanos(999_999_940), 1);
    assert_eq!(frame_sleep_nanos(1_000_000_000), 0);
}
