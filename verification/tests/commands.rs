use station::command::{command_for, Command, Key, KeyMotion};

#[test]
fn command_codes() {
    assert_eq!(Command::TiltUp.code(), 0);
    assert_eq!(Command::TiltDown.code(), 1);
    assert_eq!(Command::TiltOff.code(), 2);
    assert_eq!(Command::PanRight.code(), 3);
    assert_eq!(Command::PanLeft.code(), 4);
    assert_eq!(Command::PanOff.code(), 5);
}

#[test]
fn command_converts_into_its_code() {
    assert_eq!(u8::from(Command::TiltUp), 0);
    assert_eq!(u8::from(Command::PanOff), 5);
    let byte: u8 = Command::PanLeft.into();
    assert_eq!(byte, 4);
}

#[test]
fn pressed_arrows_start_a_movement() {
    assert_eq!(command_for(Key::Up, KeyMotion::Press), Some(Command::TiltUp));
    assert_eq!(command_for(Key::Down, KeyMotion::Press), Some(Command::TiltDown));
    assert_eq!(command_for(Key::Right, KeyMotion::Press), Some(Command::PanRight));
    assert_eq!(command_for(Key::Left, KeyMotion::Press), Some(Command::PanLeft));
}

#[test]
fn released_arrows_stop_their_axis() {
    assert_eq!(command_for(Key::Up, KeyMotion::Release), Some(Command::TiltOff));
    assert_eq!(command_for(Key::Down, KeyMotion::Release), Some(Command::TiltOff));
    assert_eq!(command_for(Key::Right, KeyMotion::Release), Some(Command::PanOff));
    assert_eq!(command_for(Key::Left, KeyMotion::Release), Some(Command::PanOff));
}

#[test]
fn other_keys_and_repeats_send_nothing() {
    assert_eq!(command_for(Key::Other, KeyMotion::Press), None);
    assert_eq!(command_for(Key::Other, KeyMotion::Release), None);
    assert_eq!(command_for(Key::Other, KeyMotion::Repeat), None);
    assert_eq!(command_for(Key::Up, KeyMotion::Repeat), None);
    assert_eq!(command_for(Key::Down, KeyMotion::Repeat), None);
    assert_eq!(command_for(Key::Left, KeyMotion::Repeat), None);
    assert_eq!(command_for(Key::Right, KeyMotion::Repeat), None);
}
