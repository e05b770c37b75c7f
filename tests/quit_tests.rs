use horse::quit::{is_quit_key, Key, Lifecycle, Teardown};

#[test]
fn quit_keys() {
    assert!(is_quit_key(Key::Char('q'), false));
    assert!(is_quit_key(Key::Char('Q'), false));
    assert!(is_quit_key(Key::Esc, false));
    assert!(is_quit_key(Key::Char('c'), true));
}

#[test]
fn other_keys_do_not_quit() {
    assert!(!is_quit_key(Key::Char('c'), false));
    assert!(!is_quit_key(Key::Char('x'), true));
    assert!(!is_quit_key(Key::Other, true));
}

#[test]
fn two_quit_requests_restore_once() {
    let mut t = Teardown::new();
    assert!(t.state == Lifecycle::Running);
    assert!(t.request_quit());
    assert!(!t.request_quit());
    assert!(t.state == Lifecycle::Terminated);
}
