use pixel_pipeline::wait::{BoundedWait, WaitStatus};

#[test]
fn a_ready_condition_ends_the_wait_and_spends_nothing() {
    let mut wait = BoundedWait::new(3);
    assert_eq!(wait.remaining(), 3);
    assert_eq!(wait.poll(true), WaitStatus::Ready);
    assert_eq!(wait.remaining(), 3);
}

#[test]
fn every_unsuccessful_poll_spends_one() {
    let mut wait = BoundedWait::new(3);
    assert_eq!(wait.poll(false), WaitStatus::Pending);
    assert_eq!(wait.remaining(), 2);
    assert_eq!(wait.poll(false), WaitStatus::Pending);
    assert_eq!(wait.remaining(), 1);
    assert_eq!(wait.poll(true), WaitStatus::Ready);
    assert_eq!(wait.remaining(), 1);
}

#[test]
fn the_last_unsuccessful_poll_expires_the_wait() {
    let mut wait = BoundedWait::new(3);
    assert_eq!(wait.poll(false), WaitStatus::Pending);
    assert_eq!(wait.poll(false), WaitStatus::Pending);
    assert_eq!(wait.poll(false), WaitStatus::Expired);
    assert_eq!(wait.remaining(), 0);
}

#[test]
fn an_expired_wait_stays_expired() {
    let mut wait = BoundedWait::new(1);
    assert_eq!(wait.poll(false), WaitStatus::Expired);
    assert_eq!(wait.poll(true), WaitStatus::Expired);
    assert_eq!(wait.poll(false), WaitStatus::Expired);
    assert_eq!(wait.remaining(), 0);
}

#[test]
fn a_wait_without_polls_has_expired_from_the_start() {
    let mut wait = BoundedWait::new(0);
    assert_eq!(wait.poll(true), WaitStatus::Expired);
}

#[test]
fn a_wait_is_pending_at_most_limit_minus_one_times() {
    for limit in 1..50u32 {
        let mut wait = BoundedWait::new(limit);
        let mut pending = 0;
        loop {
            match wait.poll(false) {
                WaitStatus::Pending => pending += 1,
                WaitStatus::Expired => break,
                WaitStatus::Ready => panic!("nothing was ready"),
            }
        }
        assert_eq!(pending, limit - 1);
    }
}
