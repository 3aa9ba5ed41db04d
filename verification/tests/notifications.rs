use tilix::notifications::{bell_body, process_exit_body, should_notify};

#[test]
fn notification_bodies() {
    assert_eq!(bell_body("bash"), "Bell received in bash");
    assert_eq!(process_exit_body("vim", 0), "Process completed in vim with exit status 0");
    assert_eq!(process_exit_body("make", -2), "Process completed in make with exit status -2");
}

#[test]
fn notify_only_inactive_panes_when_enabled() {
    assert!(should_notify(true, true, false));
    assert!(!should_notify(true, true, true));
    assert!(!should_notify(false, true, false));
    assert!(!should_notify(true, false, false));
}
