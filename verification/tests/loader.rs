use verso_ui::loader::{entry_found, worth_loading};

#[test]
fn only_read_non_empty_images_are_loaded() {
    assert!(worth_loading(true, &vec![0x7f, b'E', b'L', b'F']));
    assert!(!worth_loading(true, &Vec::new()));
    assert!(!worth_loading(false, &vec![1, 2, 3]));
}

#[test]
fn entry_point_above_zero_means_loaded() {
    assert!(entry_found(0x8000));
    assert!(entry_found(1));
    assert!(!entry_found(0));
}
