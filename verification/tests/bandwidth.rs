use oxidized_wall::bandwidth::{ThrottleAction, ThrottleEvent, ThrottledBody};

#[test]
fn frame_waits_for_its_quota() {
    let mut body: ThrottledBody<&str> = ThrottledBody::new(100);
    assert!(matches!(body.poll_frame(ThrottleEvent::Polled), ThrottleAction::PollInner));
    let asked = body.poll_frame(ThrottleEvent::Arrived("one", Some(3)));
    assert!(matches!(asked, ThrottleAction::TryConsume(3)));
    assert!(matches!(body.poll_frame(ThrottleEvent::Quota(false)), ThrottleAction::Suspend));
    assert!(!body.is_end_stream(true));
    assert_eq!(body.size_hint(4, Some(6)), (7, Some(9)));
    assert!(matches!(body.poll_frame(ThrottleEvent::Polled), ThrottleAction::TryConsume(3)));
    let out = body.poll_frame(ThrottleEvent::Quota(true));
    assert!(matches!(out, ThrottleAction::Deliver("one")));
    assert!(body.is_end_stream(true));
    assert!(!body.is_end_stream(false));
    assert_eq!(body.size_hint(4, None), (4, None));
}

#[test]
fn zero_rate_passes_all_frames() {
    let mut body: ThrottledBody<u8> = ThrottledBody::new(0);
    assert_eq!(body.rate(), 0);
    for n in 0..5u8 {
        assert!(matches!(body.poll_frame(ThrottleEvent::Polled), ThrottleAction::PollInner));
        let out = body.poll_frame(ThrottleEvent::Arrived(n, Some(1000)));
        assert!(matches!(out, ThrottleAction::Deliver(m) if m == n));
    }
}

#[test]
fn frames_without_data_pass() {
    let mut body: ThrottledBody<u8> = ThrottledBody::new(1);
    let out = body.poll_frame(ThrottleEvent::Arrived(9, None));
    assert!(matches!(out, ThrottleAction::Deliver(9)));
}

#[test]
fn every_frame_comes_out_once_and_in_order() {
    let mut body: ThrottledBody<u32> = ThrottledBody::new(10);
    let mut next = 0u32;
    let mut out = Vec::new();
    let mut turn = 0u32;
    while out.len() < 20 {
        let mut action = body.poll_frame(ThrottleEvent::Polled);
        loop {
            action = match action {
                ThrottleAction::PollInner => {
                    let frame = next;
                    next += 1;
                    body.poll_frame(ThrottleEvent::Arrived(frame, Some(8)))
                }
                ThrottleAction::TryConsume(amount) => {
                    assert_eq!(amount, 8);
                    turn += 1;
                    body.poll_frame(ThrottleEvent::Quota(turn % 3 == 0))
                }
                ThrottleAction::Deliver(frame) => {
                    out.push(frame);
                    break;
                }
                ThrottleAction::Suspend => break,
            }
        }
    }
    assert_eq!(out, (0..20).collect::<Vec<u32>>());
    assert_eq!(next, 20);
}

#[test]
fn size_hint_does_not_overflow() {
    let mut body: ThrottledBody<u8> = ThrottledBody::new(1);
    let _ = body.poll_frame(ThrottleEvent::Arrived(1, Some(10)));
    assert_eq!(body.size_hint(u64::MAX, Some(u64::MAX)), (u64::MAX, None));
}
