use gelatin::{apply, commit, sanitize, Instant, WakePolicy, SANITIZE_MARGIN_NANOS};

fn at(nanos: u64) -> WakePolicy {
    WakePolicy::At(Instant { nanos })
}

fn fold(proposals: &[WakePolicy]) -> WakePolicy {
    let mut current = WakePolicy::Idle;
    for proposal in proposals {
        current = apply(current, *proposal).0;
    }
    current
}

#[test]
fn apply_now_is_adopted_over_everything() {
    assert_eq!(apply(WakePolicy::Idle, WakePolicy::Now), (WakePolicy::Now, true));
    assert_eq!(apply(at(7), WakePolicy::Now), (WakePolicy::Now, true));
}

#[test]
fn apply_now_over_now_still_reports_a_change() {
    assert_eq!(apply(WakePolicy::Now, WakePolicy::Now), (WakePolicy::Now, true));
}

#[test]
fn apply_deadline_is_adopted_over_idle() {
    assert_eq!(apply(WakePolicy::Idle, at(40)), (at(40), true));
}

#[test]
fn apply_earlier_deadline_is_adopted() {
    assert_eq!(apply(at(40), at(39)), (at(39), true));
}

#[test]
fn apply_equal_or_later_deadline_is_not_adopted() {
    assert_eq!(apply(at(40), at(40)), (at(40), false));
    assert_eq!(apply(at(40), at(41)), (at(40), false));
}

#[test]
fn apply_deadline_is_not_adopted_over_now() {
    assert_eq!(apply(WakePolicy::Now, at(0)), (WakePolicy::Now, false));
}

#[test]
fn apply_idle_never_changes_anything() {
    assert_eq!(apply(WakePolicy::Idle, WakePolicy::Idle), (WakePolicy::Idle, false));
    assert_eq!(apply(at(3), WakePolicy::Idle), (at(3), false));
    assert_eq!(apply(WakePolicy::Now, WakePolicy::Idle), (WakePolicy::Now, false));
}

#[test]
fn fold_from_idle_gives_the_strongest_proposal() {
    assert_eq!(fold(&[]), WakePolicy::Idle);
    assert_eq!(fold(&[WakePolicy::Idle, WakePolicy::Idle]), WakePolicy::Idle);
    assert_eq!(fold(&[WakePolicy::Idle, at(50), at(10), at(30)]), at(10));
    assert_eq!(fold(&[at(50), WakePolicy::Now, at(10)]), WakePolicy::Now);
}

#[test]
fn fold_from_idle_does_not_depend_on_the_order() {
    let a = at(900);
    let b = at(200);
    let c = WakePolicy::Idle;
    let orders = [[a, b, c], [a, c, b], [b, a, c], [b, c, a], [c, a, b], [c, b, a]];
    for order in orders.iter() {
        assert_eq!(fold(order), at(200));
    }
}

#[test]
fn margin_is_a_hundred_microseconds() {
    assert_eq!(SANITIZE_MARGIN_NANOS, 100_000);
}

#[test]
fn sanitize_rewrites_a_deadline_in_the_past() {
    assert_eq!(sanitize(at(999), Instant { nanos: 1_000 }), WakePolicy::Now);
    assert_eq!(sanitize(at(0), Instant { nanos: 0 }), WakePolicy::Now);
}

#[test]
fn sanitize_rewrites_a_deadline_within_the_margin() {
    let now = Instant { nanos: 5_000_000 };
    assert_eq!(sanitize(at(5_000_000), now), WakePolicy::Now);
    assert_eq!(sanitize(at(5_000_001), now), WakePolicy::Now);
    assert_eq!(sanitize(at(5_100_000), now), WakePolicy::Now);
}

#[test]
fn sanitize_keeps_a_deadline_beyond_the_margin() {
    let now = Instant { nanos: 5_000_000 };
    assert_eq!(sanitize(at(5_100_001), now), at(5_100_001));
    assert_eq!(sanitize(at(u64::MAX), now), at(u64::MAX));
}

#[test]
fn sanitize_keeps_now_and_idle() {
    let now = Instant { nanos: 77 };
    assert_eq!(sanitize(WakePolicy::Now, now), WakePolicy::Now);
    assert_eq!(sanitize(WakePolicy::Idle, now), WakePolicy::Idle);
}

#[test]
fn sanitize_at_the_end_of_the_clock() {
    let now = Instant { nanos: u64::MAX - 5 };
    assert_eq!(sanitize(at(u64::MAX), now), WakePolicy::Now);
    assert_eq!(sanitize(at(3), Instant { nanos: u64::MAX }), WakePolicy::Now);
    let early = Instant { nanos: u64::MAX - 100_001 };
    assert_eq!(sanitize(at(u64::MAX), early), at(u64::MAX));
}

#[test]
fn commit_sanitizes_what_it_adopts() {
    let now = Instant { nanos: 1_000_000 };
    assert_eq!(commit(WakePolicy::Idle, at(1_050_000), now), (WakePolicy::Now, true));
    assert_eq!(commit(WakePolicy::Idle, at(2_000_000), now), (at(2_000_000), true));
    assert_eq!(commit(at(3_000_000), at(2_000_000), now), (at(2_000_000), true));
    assert_eq!(commit(at(3_000_000), WakePolicy::Now, now), (WakePolicy::Now, true));
}

#[test]
fn commit_leaves_what_stays_as_it_was() {
    let late = Instant { nanos: 9_000_000 };
    assert_eq!(commit(at(2_000_000), at(2_000_000), late), (at(2_000_000), false));
    assert_eq!(commit(at(2_000_000), WakePolicy::Idle, late), (at(2_000_000), false));
    assert_eq!(commit(WakePolicy::Now, at(99_000_000), late), (WakePolicy::Now, false));
}

#[test]
fn commits_with_the_clock_at_rest_give_the_sanitized_strongest() {
    let now = Instant { nanos: 1_000_000 };
    let proposals = [at(7_000_000), WakePolicy::Idle, at(1_000_500), at(4_000_000)];
    let mut committed = WakePolicy::Idle;
    for proposal in proposals.iter() {
        committed = commit(committed, *proposal, now).0;
    }
    assert_eq!(committed, sanitize(fold(&proposals), now));
    assert_eq!(committed, WakePolicy::Now);
}
