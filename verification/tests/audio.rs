use verso_ui::audio::{is_sound_file, sound_assets};

#[test]
fn ogg_names_are_sounds() {
    assert!(is_sound_file("jump.ogg"));
    assert!(is_sound_file("a..ogg"));
    assert!(is_sound_file("..ogg"));
    assert!(is_sound_file("music.v2.ogg"));
}

#[test]
fn other_names_are_not_sounds() {
    assert!(!is_sound_file(".ogg"));
    assert!(!is_sound_file("ogg"));
    assert!(!is_sound_file("jump.OGG"));
    assert!(!is_sound_file("jump.ogg.bak"));
    assert!(!is_sound_file("jump.wav"));
    assert!(!is_sound_file("jump.og"));
    assert!(!is_sound_file(".."));
    assert!(!is_sound_file(""));
    assert!(!is_sound_file("jump."));
}

#[test]
fn sound_assets_in_listing_order() {
    let names: Vec<String> = ["a.ogg", "b.wav", ".ogg", "c.ogg", "readme"]
        .iter()
        .map(|s| s.to_string())
        .collect();
    assert_eq!(sound_assets(&names), vec![0, 3]);
}

#[test]
fn no_sound_assets_in_empty_listing() {
    assert_eq!(sound_assets(&Vec::new()), Vec::<usize>::new());
}
