//! Payments waiting to be forwarded, and the delivery policy: up to five
//! attempts at the default processor, half a second apart, then one attempt
//! at the fallback processor.
use vstd::prelude::*;

use crate::amount::{amount_to_cents, cents_u64, Amount};
use crate::instant::Instant;
use crate::models::{ApiPaymentRequest, ProcessorPaymentRequest};

verus! {

/// A payment accepted by the API and waiting to be forwarded.
pub struct QueuedPayment {
    pub correlation_id: uuid::Uuid,
    pub amount: Amount,
    pub amount_cents: u16,
}

impl QueuedPayment {
    /// The queued form of a submitted payment; its cents are the amount
    /// times 100 cut to a whole number, 0 when negative or beyond 64 bits,
    /// then cut to 16 bits.
    pub fn from_request(request: ApiPaymentRequest) -> (r: Self)
        requires
            request.amount.wf(),
            request.amount.hundredfold_fits(),
        ensures
            r.correlation_id == request.correlation_id,
            r.amount == request.amount,
            r.amount_cents == (match cents_u64(request.amount) {
                Some(c) => c as u16,
                None => 0u16,
            }),
    {
        let amount_cents = amount_to_cents(request.amount);
        QueuedPayment { correlation_id: request.correlation_id, amount: request.amount, amount_cents }
    }

    /// What is sent to a processor for this payment, stamped with the time
    /// of the request.
    pub fn processor_request(&self, requested_at: Instant) -> (r: ProcessorPaymentRequest)
        ensures
            r.correlation_id == self.correlation_id,
            r.amount == self.amount,
            r.requested_at == requested_at,
    {
        ProcessorPaymentRequest {
            correlation_id: self.correlation_id,
            amount: self.amount,
            requested_at,
        }
    }
}

/// How many times the default processor is tried.
pub const DEFAULT_ATTEMPTS: u32 = 5u32;

/// The pause between two attempts at the default processor.
pub const RETRY_DELAY_MILLIS: u64 = 500u64;

/// Whether an HTTP status reports success (200 to 299).
pub fn status_is_success(status: u16) -> (r: bool)
    ensures
        r == (200 <= status <= 299),
{
    200 <= status && status <= 299
}

/// Where a delivery stands.
#[derive(Clone, Copy, Debug, PartialEq, Eq, Structural)]
pub enum DeliveryStep {
    /// Waiting for the outcome of a call to the default processor.
    CallingDefault,
    /// Waiting out the pause before the next attempt at the default.
    Waiting,
    /// Waiting for the outcome of the call to the fallback processor.
    CallingFallback,
    /// Nothing more to do.
    Finished,
}

/// The state of one payment's delivery.
#[derive(Clone, Copy, Debug, PartialEq, Eq, Structural)]
pub struct Delivery {
    pub step: DeliveryStep,
    /// Failed attempts at the default processor so far.
    pub default_failures: u32,
}

/// What the worker must do next.
#[derive(Clone, Copy, Debug, PartialEq, Eq, Structural)]
pub enum DeliveryAction {
    /// Send the payment to the default processor, or to the fallback one.
    Call { is_default: bool },
    /// Pause for this many milliseconds.
    Sleep { millis: u64 },
    /// The delivery is over.
    Done,
}

/// What happened since the last action.
#[derive(Clone, Copy, Debug, PartialEq, Eq, Structural)]
pub enum DeliveryEvent {
    /// The processor accepted the payment.
    CallSucceeded,
    /// The call failed: an error, a timeout or a refusal.
    CallFailed,
    /// The pause is over.
    Slept,
}

impl Delivery {
    /// The states a delivery can be in.
    pub open spec fn wf(self) -> bool {
        match self.step {
            DeliveryStep::CallingDefault => self.default_failures < DEFAULT_ATTEMPTS,
            DeliveryStep::Waiting => 1 <= self.default_failures < DEFAULT_ATTEMPTS,
            DeliveryStep::CallingFallback => self.default_failures == DEFAULT_ATTEMPTS,
            DeliveryStep::Finished => self.default_failures <= DEFAULT_ATTEMPTS,
        }
    }

    /// The next state and action after `event`. An event that does not
    /// answer the pending action ends the delivery.
    pub open spec fn next(self, event: DeliveryEvent) -> (Delivery, DeliveryAction) {
        let finished = Delivery { step: DeliveryStep::Finished, default_failures: self.default_failures };
        match (self.step, event) {
            (DeliveryStep::CallingDefault, DeliveryEvent::CallSucceeded) => (
                finished,
                DeliveryAction::Done,
            ),
            (DeliveryStep::CallingDefault, DeliveryEvent::CallFailed) => {
                let failures = (self.default_failures + 1) as u32;
                if failures < DEFAULT_ATTEMPTS {
                    (
                        Delivery { step: DeliveryStep::Waiting, default_failures: failures },
                        DeliveryAction::Sleep { millis: RETRY_DELAY_MILLIS },
                    )
                } else {
                    (
                        Delivery { step: DeliveryStep::CallingFallback, default_failures: failures },
                        DeliveryAction::Call { is_default: false },
                    )
                }
            },
            (DeliveryStep::Waiting, DeliveryEvent::Slept) => (
                Delivery { step: DeliveryStep::CallingDefault, default_failures: self.default_failures },
                DeliveryAction::Call { is_default: true },
            ),
            (DeliveryStep::CallingFallback, DeliveryEvent::CallSucceeded) => (
                finished,
                DeliveryAction::Done,
            ),
            (DeliveryStep::CallingFallback, DeliveryEvent::CallFailed) => (
                finished,
                DeliveryAction::Done,
            ),
            _ => (finished, DeliveryAction::Done),
        }
    }

    /// A new delivery: its first action is a call to the default processor.
    pub fn start() -> (r: (Delivery, DeliveryAction))
        ensures
            r.0 == (Delivery { step: DeliveryStep::CallingDefault, default_failures: 0 }),
            r.1 == (DeliveryAction::Call { is_default: true }),
            r.0.wf(),
    {
        (
            Delivery { step: DeliveryStep::CallingDefault, default_failures: 0 },
            DeliveryAction::Call { is_default: true },
        )
    }

    /// Advances the delivery by one event: a success ends it; a failure at
    /// the default leads to a pause and another attempt, or after the fifth
    /// failure to the fallback; the fallback's outcome ends it.
    pub fn on_event(self, event: DeliveryEvent) -> (r: (Delivery, DeliveryAction))
        requires
            self.wf(),
        ensures
            r == self.next(event),
            r.0.wf(),
            r.1 == (DeliveryAction::Call { is_default: false }) ==> self.step
                == DeliveryStep::CallingDefault && event == DeliveryEvent::CallFailed
                && r.0.default_failures == DEFAULT_ATTEMPTS,
            event == DeliveryEvent::CallSucceeded ==> r.1 == DeliveryAction::Done && r.0.step
                == DeliveryStep::Finished,
            (r.1 == DeliveryAction::Done) == (r.0.step == DeliveryStep::Finished),
            r.1 == (DeliveryAction::Call { is_default: true }) ==> self.step == DeliveryStep::Waiting
                && event == DeliveryEvent::Slept,
    {
        let finished = Delivery { step: DeliveryStep::Finished, default_failures: self.default_failures };
        match (self.step, event) {
            (DeliveryStep::CallingDefault, DeliveryEvent::CallSucceeded) => (
                finished,
                DeliveryAction::Done,
            ),
            (DeliveryStep::CallingDefault, DeliveryEvent::CallFailed) => {
                let failures = self.default_failures + 1;
                if failures < DEFAULT_ATTEMPTS {
                    (
                        Delivery { step: DeliveryStep::Waiting, default_failures: failures },
                        DeliveryAction::Sleep { millis: RETRY_DELAY_MILLIS },
                    )
                } else {
                    (
                        Delivery { step: DeliveryStep::CallingFallback, default_failures: failures },
                        DeliveryAction::Call { is_default: false },
                    )
                }
            },
            (DeliveryStep::Waiting, DeliveryEvent::Slept) => (
                Delivery { step: DeliveryStep::CallingDefault, default_failures: self.default_failures },
                DeliveryAction::Call { is_default: true },
            ),
            (DeliveryStep::CallingFallback, DeliveryEvent::CallSucceeded) => (
                finished,
                DeliveryAction::Done,
            ),
            (DeliveryStep::CallingFallback, DeliveryEvent::CallFailed) => (
                finished,
                DeliveryAction::Done,
            ),
            _ => (finished, DeliveryAction::Done),
        }
    }
}

/// The actions that a delivery issues in answer to a run of events.
pub open spec fn replay(d: Delivery, events: Seq<DeliveryEvent>) -> Seq<DeliveryAction>
    decreases events.len(),
{
    if events.len() == 0 {
        Seq::empty()
    } else {
        let (d2, a) = d.next(events[0]);
        seq![a] + replay(d2, events.skip(1))
    }
}

/// How many of `actions` are calls to the given processor.
pub open spec fn calls_to(actions: Seq<DeliveryAction>, is_default: bool) -> nat
    decreases actions.len(),
{
    if actions.len() == 0 {
        0
    } else {
        (if actions[0] == (DeliveryAction::Call { is_default }) {
            1nat
        } else {
            0nat
        }) + calls_to(actions.skip(1), is_default)
    }
}

/// How many more calls to the default processor a delivery may still make.
pub open spec fn default_budget(d: Delivery) -> int {
    match d.step {
        DeliveryStep::CallingDefault => DEFAULT_ATTEMPTS - 1 - d.default_failures,
        DeliveryStep::Waiting => DEFAULT_ATTEMPTS - d.default_failures,
        _ => 0,
    }
}

/// How many more calls to the fallback processor a delivery may still make.
pub open spec fn fallback_budget(d: Delivery) -> int {
    match d.step {
        DeliveryStep::CallingDefault | DeliveryStep::Waiting => 1,
        _ => 0,
    }
}

/// Whatever the outcomes, a delivery never exceeds its budgets of calls.
pub proof fn lemma_replay_within_budget(d: Delivery, events: Seq<DeliveryEvent>)
    requires
        d.wf(),
    ensures
        calls_to(replay(d, events), true) <= default_budget(d),
        calls_to(replay(d, events), false) <= fallback_budget(d),
    decreases events.len(),
{
    if events.len() > 0 {
        let (d2, a) = d.next(events[0]);
        lemma_replay_within_budget(d2, events.skip(1));
        let acts = replay(d, events);
        assert(acts[0] == a);
        assert(acts.skip(1) =~= replay(d2, events.skip(1)));
    }
}

/// Each payment is sent at most five times to the default processor and at
/// most once to the fallback processor, whatever the processors answer.
pub proof fn lemma_delivery_call_limits(events: Seq<DeliveryEvent>)
    ensures
        ({
            let d0 = Delivery { step: DeliveryStep::CallingDefault, default_failures: 0 };
            let actions = seq![DeliveryAction::Call { is_default: true }] + replay(d0, events);
            &&& calls_to(actions, true) <= DEFAULT_ATTEMPTS
            &&& calls_to(actions, false) <= 1
        }),
{
    let d0 = Delivery { step: DeliveryStep::CallingDefault, default_failures: 0 };
    lemma_replay_within_budget(d0, events);
    let actions = seq![DeliveryAction::Call { is_default: true }] + replay(d0, events);
    assert(actions.skip(1) =~= replay(d0, events));
}

/// A finished delivery calls no processor again, whatever happens.
pub proof fn lemma_finished_never_calls(d: Delivery, events: Seq<DeliveryEvent>)
    requires
        d.step == DeliveryStep::Finished,
    ensures
        replay(d, events).len() == events.len(),
        calls_to(replay(d, events), true) == 0,
        calls_to(replay(d, events), false) == 0,
        forall|i: int| 0 <= i < events.len() ==> #[trigger] replay(d, events)[i] == DeliveryAction::Done,
    decreases events.len(),
{
    if events.len() > 0 {
        let (d2, a) = d.next(events[0]);
        lemma_finished_never_calls(d2, events.skip(1));
        let acts = replay(d, events);
        assert(acts[0] == a);
        assert(acts.skip(1) =~= replay(d2, events.skip(1)));
        assert forall|i: int| 0 <= i < events.len() implies #[trigger] replay(d, events)[i]
            == DeliveryAction::Done by {
            if i > 0 {
                assert(acts.skip(1)[i - 1] == acts[i]);
            }
        }
    }
}

/// An accepted payment is never sent again: once a processor reports
/// success, the delivery is done and no further call follows, whatever
/// events come after.
pub proof fn lemma_no_call_after_success(d: Delivery, events: Seq<DeliveryEvent>)
    requires
        d.wf(),
        d.step == DeliveryStep::CallingDefault || d.step == DeliveryStep::CallingFallback,
        events.len() > 0,
        events[0] == DeliveryEvent::CallSucceeded,
    ensures
        d.next(DeliveryEvent::CallSucceeded) == (Delivery {
            step: DeliveryStep::Finished,
            default_failures: d.default_failures,
        }, DeliveryAction::Done),
        replay(d, events)[0] == DeliveryAction::Done,
        calls_to(replay(d, events), true) == 0,
        calls_to(replay(d, events), false) == 0,
{
    let (d2, a) = d.next(events[0]);
    lemma_finished_never_calls(d2, events.skip(1));
    let acts = replay(d, events);
    assert(acts[0] == a);
    assert(acts.skip(1) =~= replay(d2, events.skip(1)));
}

} // verus!
