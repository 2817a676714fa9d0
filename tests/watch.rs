use caffeinate::watch::{proc_path, InterruptLatch, PollStep, ProcessWatch, POLL_INTERVAL_MS};

#[test]
fn proc_paths() {
    assert_eq!(proc_path(0), b"/proc/0".to_vec());
    assert_eq!(proc_path(7), b"/proc/7".to_vec());
    assert_eq!(proc_path(1234), b"/proc/1234".to_vec());
    assert_eq!(proc_path(u64::MAX), b"/proc/18446744073709551615".to_vec());
}

#[test]
fn watch_on_missing_process_is_not_made() {
    assert!(ProcessWatch::start(false).is_none());
    assert!(ProcessWatch::start(true).is_some());
}

#[test]
fn watch_completes_once_after_exit() {
    let mut w = ProcessWatch::start(true).unwrap();
    assert_eq!(w.observe(true), PollStep::Sleep(POLL_INTERVAL_MS));
    assert_eq!(w.observe(true), PollStep::Sleep(100));
    assert_eq!(w.observe(false), PollStep::Complete);
    assert_eq!(w.observe(false), PollStep::Stop);
    assert_eq!(w.observe(true), PollStep::Stop);
}

#[test]
fn interrupts_give_one_completion() {
    let mut g = InterruptLatch::new();
    assert!(g.interrupt());
    assert!(!g.interrupt());
    assert!(!g.interrupt());
}
