use rinha_backend::handlers::payments_summary;
use rinha_backend::instant::Instant;
use rinha_backend::shared_mem::{
    payment_increment,
    DateField, PaymentSummaryShared, SharedMemoryManager, SummaryRangeError, PROCESSED_ID_SLOTS,
};
use uuid::Uuid;

fn at(secs: i64) -> Instant {
    Instant { secs, nanos: 0 }
}

// 2020-07-10T12:34:56Z
const T0: i64 = 1594384496;

fn manager_with_payments() -> SharedMemoryManager {
    let mut m = SharedMemoryManager::with_summary(PaymentSummaryShared::new());
    assert!(m.add_payment_if_new(Uuid::from_u128(1), 1990, true, at(T0)));
    assert!(m.add_payment_if_new(Uuid::from_u128(2), 1000, false, at(T0 + 60)));
    assert!(m.add_payment_if_new(Uuid::from_u128(3), 10, true, at(T0 + 120)));
    m
}

#[test]
fn new_summary_is_zero() {
    let s = PaymentSummaryShared::new();
    assert_eq!(s.read_summary(), (0, 0, 0, 0));
    assert_eq!(s.processed_count, 0);
    assert_eq!(s.processed_ids.len(), PROCESSED_ID_SLOTS);
    assert!(s.processed_ids.iter().all(|&x| x == 0));
}

#[test]
fn add_payment_counts_per_processor() {
    let mut s = PaymentSummaryShared::new();
    s.add_payment(1990, true);
    s.add_payment(500, false);
    s.add_payment(10, true);
    assert_eq!(s.read_summary(), (2, 2000, 1, 500));
}

#[test]
fn add_payment_wraps_around() {
    let mut s = PaymentSummaryShared::new();
    s.default_total_requests = u64::MAX;
    s.default_total_amount_cents = u64::MAX - 1;
    s.add_payment(3, true);
    assert_eq!(s.read_summary(), (0, 1, 0, 0));
}

#[test]
fn summary_without_bounds_is_the_shared_totals() {
    let mut shared = PaymentSummaryShared::new();
    shared.add_payment(7, false);
    let mut m = SharedMemoryManager::with_summary(shared);
    m.add_payment_if_new(Uuid::from_u128(9), 100, true, at(T0));
    assert_eq!(m.get_summary(), (1, 100, 1, 7));
    assert_eq!(m.get_summary_range(None, None).unwrap(), (1, 100, 1, 7));
    // the records only hold what this manager recorded
    assert_eq!(m.summary_between(None, None), (1, 100, 0, 0));
}

#[test]
fn fresh_manager_totals_match_its_records() {
    let m = manager_with_payments();
    assert_eq!(m.get_summary(), m.summary_between(None, None));
    assert_eq!(m.get_summary(), (2, 2000, 1, 1000));
}

#[test]
fn range_bounds_are_inclusive() {
    let m = manager_with_payments();
    assert_eq!(m.summary_between(Some(at(T0)), Some(at(T0 + 60))), (1, 1990, 1, 1000));
    assert_eq!(m.summary_between(Some(at(T0 + 1)), None), (1, 10, 1, 1000));
    assert_eq!(m.summary_between(None, Some(at(T0 + 59))), (1, 1990, 0, 0));
    assert_eq!(m.summary_between(Some(at(T0 + 121)), None), (0, 0, 0, 0));
    assert_eq!(
        m.summary_between(Some(Instant { secs: T0, nanos: 1 }), Some(at(T0 + 120))),
        (1, 10, 1, 1000)
    );
}

#[test]
fn range_from_rfc3339_text() {
    let m = manager_with_payments();
    let r = m
        .get_summary_range(Some("2020-07-10T12:34:56.000Z"), Some("2020-07-10T12:35:56.000Z"))
        .unwrap();
    assert_eq!(r, (1, 1990, 1, 1000));
    let r = m.get_summary_range(Some("2020-07-10T15:35:00+03:00"), None).unwrap();
    assert_eq!(r, (1, 10, 1, 1000));
    let r = m.get_summary_range(None, Some("2020-07-10T12:34:55.999Z")).unwrap();
    assert_eq!(r, (0, 0, 0, 0));
}

#[test]
fn bad_from_is_reported_first() {
    let m = manager_with_payments();
    match m.get_summary_range(Some("yesterday"), Some("nope")) {
        Err(SummaryRangeError::InvalidDate { field, .. }) => {
            assert_eq!(field, DateField::From);
            assert_eq!(field.name(), "from");
        }
        other => panic!("unexpected {:?}", other),
    }
}

#[test]
fn bad_to_is_reported() {
    let m = manager_with_payments();
    match m.get_summary_range(Some("2020-07-10T12:34:56Z"), Some("2020-13-10")) {
        Err(SummaryRangeError::InvalidDate { field, .. }) => {
            assert_eq!(field, DateField::To);
            assert_eq!(field.name(), "to");
        }
        other => panic!("unexpected {:?}", other),
    }
}

#[test]
fn refresh_takes_in_shared_totals() {
    let mut m = manager_with_payments();
    m.refresh_totals((10, 20, 30, 40));
    assert_eq!(m.get_summary(), (10, 20, 30, 40));
    assert_eq!(m.summary().read_summary(), (10, 20, 30, 40));
    assert_eq!(m.summary_between(None, None), (2, 2000, 1, 1000));
}

#[test]
fn shared_file_path() {
    assert_eq!(
        SharedMemoryManager::get_shared_file_path(Some("/data"), Some("C:\\Temp")),
        "/data/payment_summary.dat"
    );
    assert_eq!(
        SharedMemoryManager::get_shared_file_path(None, Some("C:\\Temp")),
        "C:\\Temp/payment_summary.dat"
    );
    assert_eq!(
        SharedMemoryManager::get_shared_file_path(None, None),
        "/tmp/payment_summary.dat"
    );
}

#[test]
fn summary_endpoint_for_a_path() {
    let m = manager_with_payments();
    let s = payments_summary(&m, "/payments-summary").unwrap();
    assert_eq!(s.default.total_requests, 2);
    assert_eq!(s.default.total_amount.mantissa, 2000);
    assert_eq!(s.default.total_amount.scale, 2);
    assert_eq!(s.fallback.total_requests, 1);
    assert_eq!(s.fallback.total_amount.mantissa, 1000);
    let s = payments_summary(
        &m,
        "/payments-summary?from=2020-07-10T12%3A35%3A00.000Z&to=2020-07-10T12%3A40%3A00.000Z",
    )
    .unwrap();
    assert_eq!(s.default.total_requests, 1);
    assert_eq!(s.default.total_amount.mantissa, 10);
    assert_eq!(s.fallback.total_requests, 1);
    assert!(payments_summary(&m, "/payments-summary?to=soon").is_err());
}

#[test]
fn increments_match_adding_a_payment() {
    assert_eq!(payment_increment(1990, true), (1, 1990, 0, 0));
    assert_eq!(payment_increment(5, false), (0, 0, 1, 5));
    let mut s = PaymentSummaryShared::new();
    s.add_payment(1990, true);
    s.add_payment(5, false);
    let a = payment_increment(1990, true);
    let b = payment_increment(5, false);
    assert_eq!(s.read_summary(), (a.0 + b.0, a.1 + b.1, a.2 + b.2, a.3 + b.3));
}
