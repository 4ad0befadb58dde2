use verso_ui::saf::{check_saf_result, SafState};

#[test]
fn nothing_picked_gives_none() {
    let mut s = SafState::new();
    assert!(!s.is_ready());
    assert_eq!(check_saf_result(&mut s), None);
    assert!(!s.is_ready());
    assert_eq!(s.file_name(), &None);
}

#[test]
fn pick_is_collected_once() {
    let mut s = SafState::new();
    s.file_picked("content://doc/42".to_string(), vec![1, 2, 3]);
    assert!(s.is_ready());
    assert_eq!(check_saf_result(&mut s), Some(vec![1, 2, 3]));
    assert!(!s.is_ready());
    assert_eq!(check_saf_result(&mut s), None);
    assert_eq!(s.file_name().as_deref(), Some("content://doc/42"));
}

#[test]
fn later_pick_replaces_earlier() {
    let mut s = SafState::new();
    s.file_picked("a".to_string(), vec![1]);
    s.file_picked("b".to_string(), vec![2, 2]);
    assert_eq!(check_saf_result(&mut s), Some(vec![2, 2]));
    assert_eq!(s.file_name().as_deref(), Some("b"));
}

#[test]
fn series_of_calls_delivers_only_right_after_a_pick() {
    let mut s = SafState::new();
    let mut delivered = Vec::new();
    s.file_picked("a".to_string(), vec![1]);
    delivered.push(check_saf_result(&mut s));
    delivered.push(check_saf_result(&mut s));
    s.file_picked("b".to_string(), vec![2]);
    s.file_picked("c".to_string(), vec![3]);
    delivered.push(check_saf_result(&mut s));
    delivered.push(check_saf_result(&mut s));
    assert_eq!(delivered, vec![Some(vec![1]), None, Some(vec![3]), None]);
}

#[test]
fn empty_pick_is_still_delivered() {
    let mut s = SafState::new();
    s.file_picked("empty".to_string(), Vec::new());
    assert_eq!(check_saf_result(&mut s), Some(Vec::new()));
}
