use rinha_backend::amount::Amount;
use rinha_backend::models::{ApiPaymentRequest, ApiSummaryResponse};
use rinha_backend::server::{not_found_status, payment_status, route_request, Route};
use rinha_backend::services::{prepare_payment, select_processor, summary_from_rows, PaymentError};
use uuid::Uuid;

#[test]
fn routes() {
    assert_eq!(route_request("POST", "/payments"), Route::Payment);
    assert_eq!(route_request("POST", "/payments?x=1"), Route::Payment);
    assert_eq!(route_request("GET", "/payments-summary?from=a&to=b"), Route::PaymentsSummary);
    assert_eq!(route_request("GET", "/payments-summary"), Route::PaymentsSummary);
    assert_eq!(route_request("GET", "/payments"), Route::NotFound);
    assert_eq!(route_request("POST", "/payments-summary"), Route::NotFound);
    assert_eq!(route_request("post", "/payments"), Route::NotFound);
    assert_eq!(route_request("GET", "/"), Route::NotFound);
}

#[test]
fn statuses() {
    assert_eq!(payment_status(true), (202, "Accepted"));
    assert_eq!(payment_status(false), (503, "Service Unavailable"));
    assert_eq!(not_found_status(), (404, "Not Found"));
}

fn request(mantissa: i128) -> ApiPaymentRequest {
    ApiPaymentRequest { correlation_id: Uuid::from_u128(7), amount: Amount { mantissa, scale: 2 } }
}

#[test]
fn non_positive_amount_is_refused() {
    assert!(matches!(prepare_payment(&request(0)), Err(PaymentError::NonPositiveAmount)));
    assert!(matches!(prepare_payment(&request(-100)), Err(PaymentError::NonPositiveAmount)));
    assert_eq!(PaymentError::NonPositiveAmount.message(), "Amount must be greater than zero");
}

#[test]
fn positive_amount_goes_to_default_processor() {
    let req = request(1990);
    assert!(select_processor(&req));
    let data = prepare_payment(&req).unwrap();
    assert_eq!(data.correlation_id, Uuid::from_u128(7));
    assert_eq!(data.amount, Amount { mantissa: 1990, scale: 2 });
    assert!(data.is_default_processor);
}

#[test]
fn summary_from_stored_rows() {
    let s = summary_from_rows(&vec![(true, 3, 5970), (false, 1, 100)]);
    assert_eq!(s.default.total_requests, 3);
    assert_eq!(s.default.total_amount, Amount { mantissa: 5970, scale: 2 });
    assert_eq!(s.fallback.total_requests, 1);
    assert_eq!(s.fallback.total_amount, Amount { mantissa: 100, scale: 2 });
}

#[test]
fn summary_rows_later_rows_override_and_missing_is_zero() {
    let s = summary_from_rows(&vec![(true, 3, 5970), (true, -1, 7)]);
    assert_eq!(s.default.total_requests, u64::MAX);
    assert_eq!(s.default.total_amount, Amount { mantissa: 7, scale: 2 });
    assert_eq!(s.fallback.total_requests, 0);
    assert_eq!(s.fallback.total_amount, Amount { mantissa: 0, scale: 0 });
}

#[test]
fn summary_from_totals_and_default() {
    let s = ApiSummaryResponse::from_totals((2, 2000, 1, 1000));
    assert_eq!(s.default.total_requests, 2);
    assert_eq!(s.default.total_amount, Amount { mantissa: 2000, scale: 2 });
    assert_eq!(s.fallback.total_amount, Amount { mantissa: 1000, scale: 2 });
    let d = ApiSummaryResponse::default();
    assert_eq!(d.default.total_requests, 0);
    assert_eq!(d.fallback.total_amount, Amount { mantissa: 0, scale: 0 });
}
