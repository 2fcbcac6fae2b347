use herdr_core::input::{
    encode_mouse_button, encode_mouse_scroll, KeyModifiers, MouseButton, MouseEventKind, MouseProtocolEncoding,
};

fn shift() -> KeyModifiers {
    KeyModifiers { shift: true, alt: false, control: false }
}

#[test]
fn sgr_mouse_scroll_encodes_wheel_button_and_coordinates() {
    let encoded = encode_mouse_scroll(MouseEventKind::ScrollDown, 4, 6, shift(), MouseProtocolEncoding::Sgr)
        .expect("mouse scroll should encode");

    assert_eq!(encoded, b"\x1b[<69;5;7M");
}

#[test]
fn sgr_mouse_release_keeps_button_code() {
    let encoded = encode_mouse_button(
        MouseEventKind::Up(MouseButton::Left),
        11,
        9,
        KeyModifiers::empty(),
        MouseProtocolEncoding::Sgr,
    )
    .expect("mouse release should encode");

    assert_eq!(encoded, b"\x1b[<0;12;10m");
}

#[test]
fn legacy_encodings_offset_values_and_reject_what_does_not_fit() {
    let all = KeyModifiers { shift: true, alt: true, control: true };
    assert_eq!(
        encode_mouse_button(MouseEventKind::Up(MouseButton::Right), 0, 1, all, MouseProtocolEncoding::Default),
        Some(vec![0x1b, b'[', b'M', 3 + 28 + 32, 33, 34])
    );
    assert_eq!(
        encode_mouse_button(MouseEventKind::Drag(MouseButton::Middle), 222, 0, KeyModifiers::empty(), MouseProtocolEncoding::Default),
        Some(vec![0x1b, b'[', b'M', 33 + 32, 255, 33])
    );
    assert_eq!(
        encode_mouse_button(MouseEventKind::Down(MouseButton::Left), 223, 0, KeyModifiers::empty(), MouseProtocolEncoding::Default),
        None
    );
    let utf8 = encode_mouse_button(MouseEventKind::Down(MouseButton::Left), 300, 0, KeyModifiers::empty(), MouseProtocolEncoding::Utf8)
        .unwrap();
    let mut expected = b"\x1b[M ".to_vec();
    expected.extend("\u{14d}".as_bytes());
    expected.push(33);
    assert_eq!(utf8, expected);
    assert_eq!(
        encode_mouse_button(MouseEventKind::Down(MouseButton::Left), 0xd800 - 33, 0, KeyModifiers::empty(), MouseProtocolEncoding::Utf8),
        None
    );
    assert_eq!(encode_mouse_button(MouseEventKind::Moved, 1, 1, KeyModifiers::empty(), MouseProtocolEncoding::Sgr), None);
    assert_eq!(encode_mouse_scroll(MouseEventKind::Down(MouseButton::Left), 1, 1, KeyModifiers::empty(), MouseProtocolEncoding::Sgr), None);
    assert_eq!(
        encode_mouse_scroll(MouseEventKind::ScrollUp, 0, 0, KeyModifiers::empty(), MouseProtocolEncoding::SgrPixels),
        Some(b"\x1b[<64;1;1M".to_vec())
    );
}
