//! The values that requests and responses carry, in the library's terms:
//! amounts as decimal mantissa and scale, times as `Instant`s.
use vstd::prelude::*;

use crate::amount::{amount_from_cents, zero_amount, Amount};
use crate::instant::Instant;
use crate::shared_mem::Totals;

verus! {

#[verifier::external_type_specification]
#[verifier::external_body]
pub struct ExUuid(uuid::Uuid);

/// A payment as a client submits it.
pub struct ApiPaymentRequest {
    pub correlation_id: uuid::Uuid,
    pub amount: Amount,
}

/// A payment as it is forwarded to a payment processor.
pub struct ProcessorPaymentRequest {
    pub correlation_id: uuid::Uuid,
    pub amount: Amount,
    pub requested_at: Instant,
}

/// A payment processor's answer to a payment.
pub struct ProcessorPaymentResponse {
    pub message: String,
}

/// A payment processor's health report.
pub struct ProcessorHealthResponse {
    pub failing: bool,
    pub min_response_time: u32,
    pub last_checked_at: Option<Instant>,
}

/// The totals of one processor in a summary.
pub struct SummaryDetails {
    pub total_requests: u64,
    pub total_amount: Amount,
}

/// The answer of the summary endpoint.
pub struct ApiSummaryResponse {
    pub default: SummaryDetails,
    pub fallback: SummaryDetails,
}

impl Default for SummaryDetails {
    fn default() -> (r: Self)
        ensures
            r.total_requests == 0,
            r.total_amount == (Amount { mantissa: 0, scale: 0 }),
    {
        SummaryDetails { total_requests: 0, total_amount: zero_amount() }
    }
}

impl Default for ApiSummaryResponse {
    fn default() -> (r: Self)
        ensures
            r.default.total_requests == 0,
            r.default.total_amount == (Amount { mantissa: 0, scale: 0 }),
            r.fallback.total_requests == 0,
            r.fallback.total_amount == (Amount { mantissa: 0, scale: 0 }),
    {
        ApiSummaryResponse { default: SummaryDetails::default(), fallback: SummaryDetails::default() }
    }
}

/// The amount of `cents` hundredths as the summary shows it: scale 2, the
/// cents reinterpreted as a signed 64-bit mantissa.
pub open spec fn shown_amount(cents: u64) -> Amount {
    Amount { mantissa: (cents as i64) as i128, scale: 2 }
}

impl ApiSummaryResponse {
    /// The answer shows these four totals.
    pub open spec fn shows(&self, totals: Totals) -> bool {
        &&& self.default.total_requests == totals.0
        &&& self.default.total_amount == shown_amount(totals.1)
        &&& self.fallback.total_requests == totals.2
        &&& self.fallback.total_amount == shown_amount(totals.3)
    }

    /// The summary answer for the four totals (default requests, default
    /// cents, fallback requests, fallback cents).
    pub fn from_totals(totals: Totals) -> (r: Self)
        ensures
            r.shows(totals),
    {
        ApiSummaryResponse {
            default: SummaryDetails {
                total_requests: totals.0,
                total_amount: amount_from_cents(totals.1),
            },
            fallback: SummaryDetails {
                total_requests: totals.2,
                total_amount: amount_from_cents(totals.3),
            },
        }
    }
}

} // verus!
