use rinha_backend::models::ApiPaymentRequest;
use rinha_backend::amount::Amount;
use rinha_backend::instant::Instant;
use rinha_backend::processor::{
    status_is_success, Delivery, DeliveryAction, DeliveryEvent, DeliveryStep, QueuedPayment,
    RETRY_DELAY_MILLIS,
};
use uuid::Uuid;

fn run(outcomes: &[DeliveryEvent]) -> Vec<DeliveryAction> {
    let (mut d, first) = Delivery::start();
    let mut actions = vec![first];
    let mut it = outcomes.iter();
    loop {
        let last = *actions.last().unwrap();
        let event = match last {
            DeliveryAction::Done => break,
            DeliveryAction::Sleep { .. } => DeliveryEvent::Slept,
            DeliveryAction::Call { .. } => *it.next().unwrap(),
        };
        let (next, action) = d.on_event(event);
        d = next;
        actions.push(action);
    }
    actions
}

#[test]
fn first_success_ends_delivery() {
    let actions = run(&[DeliveryEvent::CallSucceeded]);
    assert_eq!(
        actions,
        vec![DeliveryAction::Call { is_default: true }, DeliveryAction::Done]
    );
}

#[test]
fn retries_default_then_succeeds() {
    let actions = run(&[DeliveryEvent::CallFailed, DeliveryEvent::CallFailed, DeliveryEvent::CallSucceeded]);
    let call = DeliveryAction::Call { is_default: true };
    let sleep = DeliveryAction::Sleep { millis: RETRY_DELAY_MILLIS };
    assert_eq!(actions, vec![call, sleep, call, sleep, call, DeliveryAction::Done]);
}

#[test]
fn five_failures_go_to_fallback_once() {
    let f = DeliveryEvent::CallFailed;
    let actions = run(&[f, f, f, f, f, f]);
    let call = DeliveryAction::Call { is_default: true };
    let sleep = DeliveryAction::Sleep { millis: 500 };
    assert_eq!(
        actions,
        vec![
            call,
            sleep,
            call,
            sleep,
            call,
            sleep,
            call,
            sleep,
            call,
            DeliveryAction::Call { is_default: false },
            DeliveryAction::Done
        ]
    );
}

#[test]
fn unexpected_event_ends_delivery() {
    let (d, _) = Delivery::start();
    let (d, a) = d.on_event(DeliveryEvent::Slept);
    assert_eq!(a, DeliveryAction::Done);
    assert_eq!(d.step, DeliveryStep::Finished);
}

#[test]
fn success_statuses() {
    assert!(status_is_success(200));
    assert!(status_is_success(202));
    assert!(status_is_success(299));
    assert!(!status_is_success(199));
    assert!(!status_is_success(300));
    assert!(!status_is_success(500));
}

#[test]
fn queued_payment_from_request() {
    let req = ApiPaymentRequest {
        correlation_id: Uuid::from_u128(42),
        amount: Amount { mantissa: 1990, scale: 2 },
    };
    let q = QueuedPayment::from_request(req);
    assert_eq!(q.correlation_id, Uuid::from_u128(42));
    assert_eq!(q.amount, Amount { mantissa: 1990, scale: 2 });
    assert_eq!(q.amount_cents, 1990);
    let at = Instant { secs: 1, nanos: 2 };
    let p = q.processor_request(at);
    assert_eq!(p.correlation_id, Uuid::from_u128(42));
    assert_eq!(p.amount, q.amount);
    assert_eq!(p.requested_at, at);
}
