//! Pausing of body streams whose bandwidth quota is used up.
use vstd::prelude::*;

verus! {

/// What happens to a throttled body.
#[derive(Debug)]
pub enum ThrottleEvent<F> {
    /// Its receiver asks for the next frame.
    Polled,
    /// The inner body gave a frame, with its length if it carries data.
    Arrived(F, Option<u64>),
    /// The quota that was asked for was granted or not.
    Quota(bool),
}

/// What to do next with a throttled body.
#[derive(Debug)]
pub enum ThrottleAction<F> {
    /// Ask the inner body for a frame.
    PollInner,
    /// Ask for a quota of so many bytes.
    TryConsume(u64),
    /// Hand the frame to the receiver.
    Deliver(F),
    /// Keep the receiver waiting.
    Suspend,
}

/// A body wrapper that pauses streaming when the bandwidth quota is exceeded. It
/// holds at most one frame: the one whose quota is not granted yet. A rate of zero
/// does not throttle.
#[derive(Debug)]
pub struct ThrottledBody<F> {
    rate: u64,
    held: Option<(F, u64)>,
}

/// The frame that waits for its quota.
pub open spec fn waiting<F>(held: Option<(F, u64)>) -> Seq<F> {
    match held {
        Some((frame, _)) => seq![frame],
        None => Seq::empty(),
    }
}

/// The frame that an event brings.
pub open spec fn arrived<F>(event: ThrottleEvent<F>) -> Seq<F> {
    match event {
        ThrottleEvent::Arrived(frame, _) => seq![frame],
        _ => Seq::empty(),
    }
}

/// The frame that an action hands on.
pub open spec fn delivered<F>(action: ThrottleAction<F>) -> Seq<F> {
    match action {
        ThrottleAction::Deliver(frame) => seq![frame],
        _ => Seq::empty(),
    }
}

/// Whether an event may come: the inner body is not asked while a frame waits.
pub open spec fn may_come<F>(held: Option<(F, u64)>, event: ThrottleEvent<F>) -> bool {
    event is Arrived ==> held is None
}

/// The waiting frame after an event, and what to do. A data frame is delivered
/// once a quota of its length is granted; until then it waits and nothing else is
/// asked of the inner body. Frames without data pass.
pub open spec fn throttled<F>(rate: u64, held: Option<(F, u64)>, event: ThrottleEvent<F>) -> (
    Option<(F, u64)>,
    ThrottleAction<F>,
) {
    match event {
        ThrottleEvent::Polled => match held {
            Some((_, amount)) => (held, ThrottleAction::TryConsume(amount)),
            None => (held, ThrottleAction::PollInner),
        },
        ThrottleEvent::Arrived(frame, length) => match length {
            Some(amount) => if rate > 0 {
                (Some((frame, amount)), ThrottleAction::TryConsume(amount))
            } else {
                (held, ThrottleAction::Deliver(frame))
            },
            None => (held, ThrottleAction::Deliver(frame)),
        },
        ThrottleEvent::Quota(granted) => match held {
            Some((frame, _)) => if granted {
                (None, ThrottleAction::Deliver(frame))
            } else {
                (held, ThrottleAction::Suspend)
            },
            None => (held, ThrottleAction::PollInner),
        },
    }
}

impl<F> ThrottledBody<F> {
    /// The rate of the quota.
    pub closed spec fn spec_rate(self) -> u64 {
        self.rate
    }

    /// The frame that waits for its quota, with its length.
    pub closed spec fn spec_held(self) -> Option<(F, u64)> {
        self.held
    }

    /// A throttled body that holds no frame.
    pub fn new(rate: u64) -> (r: Self)
        ensures
            r.spec_rate() == rate,
            r.spec_held() is None,
    {
        ThrottledBody { rate, held: None }
    }

    /// The rate of the quota.
    pub fn rate(&self) -> (r: u64)
        ensures
            r == self.spec_rate(),
    {
        self.rate
    }

    /// Applies quota checks to each data frame.
    pub fn poll_frame(&mut self, event: ThrottleEvent<F>) -> (r: ThrottleAction<F>)
        requires
            may_come(old(self).spec_held(), event),
        ensures
            final(self).spec_rate() == old(self).spec_rate(),
            (final(self).spec_held(), r) == throttled(
                old(self).spec_rate(),
                old(self).spec_held(),
                event,
            ),
    {
        match event {
            ThrottleEvent::Polled => match &self.held {
                Some((_, amount)) => ThrottleAction::TryConsume(*amount),
                None => ThrottleAction::PollInner,
            },
            ThrottleEvent::Arrived(frame, length) => match length {
                Some(amount) => if self.rate > 0 {
                    self.held = Some((frame, amount));
                    ThrottleAction::TryConsume(amount)
                } else {
                    ThrottleAction::Deliver(frame)
                },
                None => ThrottleAction::Deliver(frame),
            },
            ThrottleEvent::Quota(granted) => if granted {
                match self.held.take() {
                    Some((frame, _)) => ThrottleAction::Deliver(frame),
                    None => ThrottleAction::PollInner,
                }
            } else {
                match &self.held {
                    Some(_) => ThrottleAction::Suspend,
                    None => ThrottleAction::PollInner,
                }
            },
        }
    }

    /// Whether the stream has ended, given whether the inner body has.
    pub fn is_end_stream(&self, inner_ended: bool) -> (r: bool)
        ensures
            r == (inner_ended && self.spec_held() is None),
    {
        inner_ended && self.held.is_none()
    }

    /// The bytes that are still to come, given what the inner body announces: at
    /// least the first number and, where there is one, at most the second.
    pub fn size_hint(&self, lower: u64, upper: Option<u64>) -> (r: (u64, Option<u64>))
        ensures
            ({
                let waits = match self.spec_held() {
                    Some((_, amount)) => amount as int,
                    None => 0,
                };
                &&& r.0 == if lower + waits <= u64::MAX {
                    lower + waits
                } else {
                    u64::MAX as int
                }
                &&& match upper {
                    Some(most) => if most + waits <= u64::MAX {
                        r.1 matches Some(n) && n == most + waits
                    } else {
                        r.1 is None
                    },
                    None => r.1 is None,
                }
            }),
    {
        let waits: u64 = match &self.held {
            Some((_, amount)) => *amount,
            None => 0,
        };
        let least: u64 = match lower.checked_add(waits) {
            Some(n) => n,
            None => u64::MAX,
        };
        let most = match upper {
            Some(n) => n.checked_add(waits),
            None => None,
        };
        (least, most)
    }
}

/// The waiting frame after a run of events.
pub open spec fn held_after<F>(
    rate: u64,
    held: Option<(F, u64)>,
    events: Seq<ThrottleEvent<F>>,
) -> Option<(F, u64)>
    decreases events.len(),
{
    if events.len() == 0 {
        held
    } else {
        throttled(rate, held_after(rate, held, events.drop_last()), events.last()).0
    }
}

/// The frames that are handed on over a run of events.
pub open spec fn all_delivered<F>(
    rate: u64,
    held: Option<(F, u64)>,
    events: Seq<ThrottleEvent<F>>,
) -> Seq<F>
    decreases events.len(),
{
    if events.len() == 0 {
        Seq::empty()
    } else {
        let before = events.drop_last();
        all_delivered(rate, held, before) + delivered(
            throttled(rate, held_after(rate, held, before), events.last()).1,
        )
    }
}

/// The frames that a run of events brings.
pub open spec fn all_arrived<F>(events: Seq<ThrottleEvent<F>>) -> Seq<F>
    decreases events.len(),
{
    if events.len() == 0 {
        Seq::empty()
    } else {
        all_arrived(events.drop_last()) + arrived(events.last())
    }
}

/// Whether each event of a run may come when it comes.
pub open spec fn may_run<F>(
    rate: u64,
    held: Option<(F, u64)>,
    events: Seq<ThrottleEvent<F>>,
) -> bool
    decreases events.len(),
{
    events.len() == 0 || (may_run(rate, held, events.drop_last()) && may_come(
        held_after(rate, held, events.drop_last()),
        events.last(),
    ))
}

/// Throttling pauses a stream and changes nothing else: whatever the quotas, the
/// frames that were handed on and the one that waits are, in order, those that the
/// inner body gave.
pub proof fn no_frame_is_lost<F>(rate: u64, events: Seq<ThrottleEvent<F>>)
    requires
        may_run(rate, None, events),
    ensures
        all_delivered(rate, None, events) + waiting(held_after(rate, None, events)) == all_arrived(
            events,
        ),
    decreases events.len(),
{
    if events.len() > 0 {
        let before = events.drop_last();
        no_frame_is_lost(rate, before);
        let held = held_after(rate, None, before);
        let (next, action) = throttled(rate, held, events.last());
        assert(delivered(action) + waiting(next) == waiting(held) + arrived(events.last()));
        assert(all_delivered(rate, None, events) + waiting(next) == all_delivered(
            rate,
            None,
            before,
        ) + (delivered(action) + waiting(next)));
        assert(all_delivered(rate, None, before) + (waiting(held) + arrived(events.last())) == (
        all_delivered(rate, None, before) + waiting(held)) + arrived(events.last()));
    }
}

/// A data frame is handed on only for a quota of its own length: with a rate, the
/// only event that delivers one is a grant, and what was asked for was its length.
pub proof fn data_is_paid_for<F>(rate: u64, held: Option<(F, u64)>, event: ThrottleEvent<F>)
    requires
        rate > 0,
        may_come(held, event),
    ensures
        throttled(rate, held, event).1 is Deliver ==> (event matches ThrottleEvent::Arrived(
            _,
            None,
        ) || (event == ThrottleEvent::<F>::Quota(true) && held is Some)),
        throttled(rate, held, event).1 matches ThrottleAction::TryConsume(amount) ==> throttled(
            rate,
            held,
            event,
        ).0 matches Some((_, length)) && length == amount,
{
}

/// Without a rate nothing ever waits.
pub proof fn zero_rate_never_waits<F>(events: Seq<ThrottleEvent<F>>)
    ensures
        held_after(0, None, events) is None,
    decreases events.len(),
{
    if events.len() > 0 {
        zero_rate_never_waits(events.drop_last());
    }
}

/// A throttled body goes on: without a rate, and without data, a frame is delivered when
/// it arrives; with both, a quota of its length is asked for; it is delivered when that is
/// granted, and else its receiver waits, and the same quota is asked for when it asks
/// again.
pub proof fn throttled_bodies_go_on<F>(frame: F, length: u64, rate: u64)
    ensures
        throttled(0, None, ThrottleEvent::Arrived(frame, Some(length))) == (
            None::<(F, u64)>,
            ThrottleAction::Deliver(frame),
        ),
        throttled(rate, None, ThrottleEvent::Arrived(frame, None)) == (
            None::<(F, u64)>,
            ThrottleAction::Deliver(frame),
        ),
        rate > 0 ==> throttled(rate, None, ThrottleEvent::Arrived(frame, Some(length))) == (
            Some((frame, length)),
            ThrottleAction::<F>::TryConsume(length),
        ),
        throttled(rate, Some((frame, length)), ThrottleEvent::Quota(true)) == (
            None::<(F, u64)>,
            ThrottleAction::Deliver(frame),
        ),
        throttled(rate, Some((frame, length)), ThrottleEvent::Quota(false)) == (
            Some((frame, length)),
            ThrottleAction::<F>::Suspend,
        ),
        throttled(rate, Some((frame, length)), ThrottleEvent::Polled) == (
            Some((frame, length)),
            ThrottleAction::<F>::TryConsume(length),
        ),
        throttled(rate, None::<(F, u64)>, ThrottleEvent::Polled) == (
            None::<(F, u64)>,
            ThrottleAction::<F>::PollInner,
        ),
{
}

/// A stream has ended when the inner body has and no frame waits; what is still to come is
/// what the inner body announces and the waiting frame.
pub proof fn waiting_frames_are_still_to_come<F>(
    body: ThrottledBody<F>,
    inner_ended: bool,
    ended: bool,
    lower: u64,
    upper: Option<u64>,
    hint: (u64, Option<u64>),
)
    requires
        call_ensures(ThrottledBody::<F>::is_end_stream, (&body, inner_ended), ended),
        call_ensures(ThrottledBody::<F>::size_hint, (&body, lower, upper), hint),
    ensures
        ended == (inner_ended && body.spec_held() is None),
        body.spec_held() is None ==> hint == (lower, upper),
        body.spec_held() matches Some((_, length)) ==> {
            &&& lower + length <= u64::MAX ==> hint.0 == lower + length
            &&& lower + length > u64::MAX ==> hint.0 == u64::MAX
            &&& upper is None ==> hint.1 is None
            &&& upper matches Some(most) ==> (most + length <= u64::MAX ==> hint.1 == Some(
                (most + length) as u64,
            )) && (most + length > u64::MAX ==> hint.1 is None)
        },
{
}

/// Every step of a throttled body is a step of the runs of which the laws speak, and its
/// rate stays.
pub proof fn bodies_are_polled_step_by_step<F>(
    body: &mut ThrottledBody<F>,
    event: ThrottleEvent<F>,
    r: ThrottleAction<F>,
)
    requires
        may_come(old(body).spec_held(), event),
        call_ensures(ThrottledBody::<F>::poll_frame, (body, event), r),
    ensures
        final(body).spec_rate() == old(body).spec_rate(),
        final(body).spec_held() == throttled(
            old(body).spec_rate(),
            old(body).spec_held(),
            event,
        ).0,
        r == throttled(old(body).spec_rate(), old(body).spec_held(), event).1,
{
}

} // verus!
