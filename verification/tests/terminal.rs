use pi_rs::render::input::{translate_key, InputEvent, KeyInput, KeyKind};
use pi_rs::render::suspend::{enter_ansi, install_suspend_handler, restore_ansi};
use pi_rs::render::terminal::Session;

fn contains(buf: &[u8], needle: &[u8]) -> bool {
    buf.windows(needle.len()).any(|w| w == needle)
}

#[test]
fn restore_leaves_alt_screen() {
    let mut setup = Vec::new();
    let mut guard = Session::enter_to(&mut setup, false);
    let mut buf = Vec::new();
    guard.restore_to(&mut buf);
    assert!(contains(&buf, b"\x1b[?1049l"), "restore must emit LeaveAlternateScreen, got {:?}", String::from_utf8_lossy(&buf));
}

#[test]
fn enter_writes_enter_alt_screen() {
    let mut buf = Vec::new();
    let _guard = Session::enter_to(&mut buf, false);
    assert!(contains(&buf, b"\x1b[?1049h"), "enter must emit EnterAlternateScreen, got {:?}", String::from_utf8_lossy(&buf));
}

#[test]
fn enter_enables_mouse_capture() {
    let mut buf = Vec::new();
    let _guard = Session::enter_to(&mut buf, false);
    assert!(contains(&buf, b"\x1b[?1000h"), "enter must emit EnableMouseCapture, got {:?}", String::from_utf8_lossy(&buf));
}

#[test]
fn enter_pushes_kitty_when_requested() {
    let mut buf = Vec::new();
    let guard = Session::enter_to(&mut buf, true);
    assert!(guard.kitty_pushed(), "guard must record that kitty flags were pushed");
    assert!(contains(&buf, b"\x1b[>"), "enter must emit PushKeyboardEnhancementFlags, got {:?}", String::from_utf8_lossy(&buf));
}

#[test]
fn enter_skips_kitty_when_not_requested() {
    let mut buf = Vec::new();
    let guard = Session::enter_to(&mut buf, false);
    assert!(!guard.kitty_pushed(), "guard must record kitty not pushed");
}

#[test]
fn restore_disables_mouse_capture() {
    let mut setup = Vec::new();
    let mut guard = Session::enter_to(&mut setup, false);
    let mut buf = Vec::new();
    guard.restore_to(&mut buf);
    assert!(contains(&buf, b"\x1b[?1000l"), "restore must emit DisableMouseCapture, got {:?}", String::from_utf8_lossy(&buf));
}

#[test]
fn restore_is_idempotent() {
    let mut setup = Vec::new();
    let mut guard = Session::enter_to(&mut setup, false);
    let mut first = Vec::new();
    guard.restore_to(&mut first);
    let mut second = Vec::new();
    guard.restore_to(&mut second);
    assert!(!first.is_empty());
    assert!(second.is_empty(), "second restore must emit nothing, got {:?}", String::from_utf8_lossy(&second));
}

#[test]
fn restore_pops_kitty_flags_when_pushed() {
    let mut setup = Vec::new();
    let mut guard = Session::enter_to(&mut setup, true);
    let mut buf = Vec::new();
    guard.restore_to(&mut buf);
    assert!(contains(&buf, b"\x1b[<1u"), "restore must pop kitty flags when pushed, got {:?}", String::from_utf8_lossy(&buf));
}

#[test]
fn restore_skips_kitty_pop_when_not_pushed() {
    let mut setup = Vec::new();
    let mut guard = Session::enter_to(&mut setup, false);
    let mut buf = Vec::new();
    guard.restore_to(&mut buf);
    assert!(!contains(&buf, b"\x1b[<1u"), "restore must not pop kitty flags when not pushed, got {:?}", String::from_utf8_lossy(&buf));
}

#[test]
fn enter_and_restore_sequences_are_exact() {
    assert_eq!(
        enter_ansi(true),
        b"\x1b[?1049h\x1b[?1000h\x1b[?1002h\x1b[?1003h\x1b[?1015h\x1b[?1006h\x1b[>1u".to_vec()
    );
    assert_eq!(
        restore_ansi(false),
        b"\x1b[?1049l\x1b[?1006l\x1b[?1015l\x1b[?1003l\x1b[?1002l\x1b[?1000l".to_vec()
    );
}

#[test]
fn enter_ansi_contains_alt_screen() {
    assert!(contains(&enter_ansi(false), b"\x1b[?1049h"));
}

#[test]
fn restore_ansi_contains_alt_screen() {
    assert!(contains(&restore_ansi(false), b"\x1b[?1049l"));
}

#[test]
fn enter_ansi_pushes_kitty_when_requested() {
    assert!(contains(&enter_ansi(true), b"\x1b[>"));
}

#[test]
fn restore_ansi_pops_kitty_when_pushed() {
    assert!(contains(&restore_ansi(true), b"\x1b[<1u"));
}

#[test]
fn suspend_handler_is_unsupported() {
    let err = install_suspend_handler(restore_ansi(false), enter_ansi(false)).unwrap_err();
    assert_eq!(err.kind(), std::io::ErrorKind::Unsupported);
    assert_eq!(
        err.to_string(),
        "install_suspend_handler is deferred to Phase 3 (P14); see crates/pi-render/src/suspend.rs"
    );
}

#[test]
fn ctrl_c_quits() {
    let key = KeyInput { ch: Some('c'), control: true, kind: KeyKind::Press };
    assert_eq!(translate_key(key), Some(InputEvent::Quit));
}

#[test]
fn q_quits() {
    let key = KeyInput { ch: Some('q'), control: false, kind: KeyKind::Press };
    assert_eq!(translate_key(key), Some(InputEvent::Quit));
}

#[test]
fn q_on_release_ignored() {
    let key = KeyInput { ch: Some('q'), control: false, kind: KeyKind::Release };
    assert_eq!(translate_key(key), None);
}

#[test]
fn other_keys_ignored() {
    let key = KeyInput { ch: Some('a'), control: false, kind: KeyKind::Press };
    assert_eq!(translate_key(key), None);
    let key = KeyInput { ch: None, control: true, kind: KeyKind::Press };
    assert_eq!(translate_key(key), None);
}
