use gelatin::{request_exit, ExitSignal};

#[test]
fn exit_signal_starts_lowered() {
    let signal = ExitSignal::new();
    assert!(!signal.is_exit_requested());
}

#[test]
fn request_exit_raises_the_signal() {
    let mut signal = ExitSignal::new();
    request_exit(&mut signal);
    assert!(signal.is_exit_requested());
}

#[test]
fn request_exit_many_times_is_as_once() {
    let mut once = ExitSignal::new();
    request_exit(&mut once);
    let mut often = ExitSignal::new();
    for _ in 0..5 {
        request_exit(&mut often);
        assert!(often.is_exit_requested());
    }
    assert_eq!(once.is_exit_requested(), often.is_exit_requested());
}
