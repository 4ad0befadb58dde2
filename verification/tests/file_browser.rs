use verso_ui::file_browser::{DirItem, FileBrowser, Selection};

fn listing() -> Vec<DirItem> {
    vec![
        DirItem::new("games".to_string(), true),
        DirItem::new("libflappy.so".to_string(), false),
        DirItem::new("Bird.apk".to_string(), false),
        DirItem::new("notes.txt".to_string(), false),
    ]
}

fn entries(b: &FileBrowser) -> Vec<String> {
    (0..b.len()).map(|i| b.entry(i).clone()).collect()
}

#[test]
fn new_lists_parent_then_items() {
    let b = FileBrowser::new("/storage/emulated/0/Download", &listing());
    assert_eq!(b.current_path(), "/storage/emulated/0/Download");
    assert_eq!(
        entries(&b),
        vec!["📁 ..", "📁 games", "🎮 libflappy.so", "🎮 Bird.apk", "📄 notes.txt"]
    );
}

#[test]
fn unreadable_directory_lists_parent_only() {
    let b = FileBrowser::new("/nowhere", &Vec::new());
    assert_eq!(entries(&b), vec!["📁 .."]);
}

#[test]
fn parent_entry_moves_up() {
    let mut b = FileBrowser::new("/storage/emulated", &listing());
    assert!(matches!(b.select_entry(0), Selection::Navigated));
    assert_eq!(b.current_path(), "/storage");
    assert_eq!(b.len(), 5);
}

#[test]
fn parent_of_root_stays() {
    let mut b = FileBrowser::new("/", &listing());
    assert!(matches!(b.select_entry(0), Selection::Stay));
    assert_eq!(b.current_path(), "/");
}

#[test]
fn parent_of_single_component_is_empty() {
    let mut b = FileBrowser::new("sdcard", &listing());
    assert!(matches!(b.select_entry(0), Selection::Navigated));
    assert_eq!(b.current_path(), "");
}

#[test]
fn directory_entry_moves_into_name_from_sixth_byte() {
    let mut b = FileBrowser::new("/data", &listing());
    assert!(matches!(b.select_entry(1), Selection::Navigated));
    assert_eq!(b.current_path(), "/data/ames");
}

#[test]
fn file_entries_hand_on_path() {
    let mut b = FileBrowser::new("/data", &listing());
    match b.select_entry(2) {
        Selection::Picked(p) => assert_eq!(p, "/data/ibflappy.so"),
        _ => panic!("expected a picked file"),
    }
    match b.select_entry(4) {
        Selection::Picked(p) => assert_eq!(p, "/data/otes.txt"),
        _ => panic!("expected a picked file"),
    }
    assert_eq!(b.current_path(), "/data");
}

#[test]
fn refresh_replaces_entries_and_keeps_path() {
    let mut b = FileBrowser::new("/data", &listing());
    b.refresh(&vec![DirItem::new("x.APK".to_string(), false)]);
    assert_eq!(entries(&b), vec!["📁 ..", "📄 x.APK"]);
    assert_eq!(b.current_path(), "/data");
}

#[test]
fn go_to_parent_without_parent_stays() {
    let mut b = FileBrowser::new("/data", &listing());
    assert!(!b.go_to_parent(None));
    assert_eq!(b.current_path(), "/data");
    assert!(b.go_to_parent(Some("/".to_string())));
    assert_eq!(b.current_path(), "/");
}

#[test]
fn directory_named_dot_dot_reads_as_parent_entry() {
    let mut b = FileBrowser::new("/a/b", &vec![DirItem::new("..".to_string(), true)]);
    assert_eq!(entries(&b), vec!["📁 ..", "📁 .."]);
    assert!(matches!(b.select_entry(1), Selection::Navigated));
    assert_eq!(b.current_path(), "/a");
}

#[test]
fn single_letter_directory_enters_base_path_with_slash() {
    let mut b = FileBrowser::new("/a", &vec![DirItem::new("x".to_string(), true)]);
    assert!(matches!(b.select_entry(1), Selection::Navigated));
    assert_eq!(b.current_path(), "/a/");
}

#[test]
fn every_state_starts_with_parent_entry() {
    let mut b = FileBrowser::new("/data", &listing());
    b.select_entry(1);
    b.refresh(&Vec::new());
    assert_eq!(b.entry(0), "📁 ..");
    assert!(b.len() >= 1);
    b.refresh(&listing());
    for i in 1..b.len() {
        let e = b.entry(i);
        assert!(e.starts_with("📁 ") || e.starts_with("🎮 ") || e.starts_with("📄 "));
    }
}
