use verso_ui::log_viewer::LogViewer;

fn lines(v: &LogViewer) -> Vec<String> {
    (0..v.len()).map(|i| v.message(i).clone()).collect()
}

#[test]
fn new_viewer_is_empty() {
    let v = LogViewer::new(3);
    assert_eq!(v.len(), 0);
    assert_eq!(v.max_lines(), 3);
}

#[test]
fn add_below_limit_keeps_all_in_order() {
    let mut v = LogViewer::new(3);
    v.add("one".to_string());
    v.add("two".to_string());
    assert_eq!(lines(&v), vec!["one", "two"]);
}

#[test]
fn add_at_limit_drops_oldest() {
    let mut v = LogViewer::new(3);
    for m in ["a", "b", "c", "d", "e"] {
        v.add(m.to_string());
    }
    assert_eq!(lines(&v), vec!["c", "d", "e"]);
    assert_eq!(v.len(), 3);
}

#[test]
fn zero_limit_keeps_newest_line_only() {
    let mut v = LogViewer::new(0);
    v.add("first".to_string());
    assert_eq!(lines(&v), vec!["first"]);
    v.add("second".to_string());
    assert_eq!(lines(&v), vec!["second"]);
}

#[test]
fn limit_of_one_replaces_line() {
    let mut v = LogViewer::new(1);
    v.add("x".to_string());
    v.add("y".to_string());
    assert_eq!(lines(&v), vec!["y"]);
}

#[test]
fn holds_latest_of_history() {
    let history: Vec<String> = (0..10).map(|i| format!("line {}", i)).collect();
    let mut v = LogViewer::new(4);
    for m in &history {
        v.add(m.clone());
        assert!(v.len() <= 4);
    }
    assert_eq!(lines(&v), history[6..].to_vec());
}

#[test]
fn fewer_adds_than_limit_keep_everything() {
    let mut v = LogViewer::new(10);
    for m in ["a", "b", "c"] {
        v.add(m.to_string());
    }
    assert_eq!(lines(&v), vec!["a", "b", "c"]);
}
