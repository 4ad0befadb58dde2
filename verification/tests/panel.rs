use verso_ui::panel::{game_status_lines, pc_text, pointer_held, PointerAction};

#[test]
fn pc_text_pads_to_eight_upper_digits() {
    assert_eq!(pc_text(0xABCD), "PC: 0x0000ABCD");
    assert_eq!(pc_text(0), "PC: 0x00000000");
    assert_eq!(pc_text(u32::MAX), "PC: 0xFFFFFFFF");
    assert_eq!(pc_text(0x0001_0008), format!("PC: 0x{:08X}", 0x0001_0008u32));
}

#[test]
fn distinct_counters_give_distinct_lines() {
    assert_ne!(pc_text(0x10), pc_text(0x01));
}

#[test]
fn status_lines_with_game() {
    assert_eq!(
        game_status_lines(true, 0x8000),
        vec!["Game: ✅ Flappy Bird loaded".to_string(), "PC: 0x00008000".to_string()]
    );
}

#[test]
fn status_lines_without_game() {
    assert_eq!(game_status_lines(false, 0x8000), vec!["Game: ❌ Not loaded".to_string()]);
}

#[test]
fn pointer_press_and_release() {
    assert!(pointer_held(false, PointerAction::Down));
    assert!(pointer_held(false, PointerAction::PointerDown));
    assert!(!pointer_held(true, PointerAction::Up));
    assert!(!pointer_held(true, PointerAction::PointerUp));
    assert!(pointer_held(true, PointerAction::Other));
    assert!(!pointer_held(false, PointerAction::Other));
}
