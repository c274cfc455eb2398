//! The payment service's rules: which payments are taken, which processor
//! is chosen, and how stored per-processor totals become a summary.
use vstd::prelude::*;

use crate::amount::{amount_from_signed_cents, amount_is_positive, zero_amount, Amount};
use crate::models::{ApiPaymentRequest, ApiSummaryResponse, SummaryDetails};

verus! {

/// A payment as the service stores it.
pub struct PaymentData {
    pub correlation_id: uuid::Uuid,
    pub amount: Amount,
    pub is_default_processor: bool,
}

impl PaymentData {
    pub fn new(correlation_id: uuid::Uuid, amount: Amount, is_default_processor: bool) -> (r: Self)
        ensures
            r.correlation_id == correlation_id,
            r.amount == amount,
            r.is_default_processor == is_default_processor,
    {
        PaymentData { correlation_id, amount, is_default_processor }
    }
}

/// Why the service refuses a payment.
#[derive(Clone, Copy, Debug, PartialEq, Eq, Structural)]
pub enum PaymentError {
    /// The amount is zero or negative.
    NonPositiveAmount,
}

impl PaymentError {
    /// The message that goes with the refusal.
    pub fn message(&self) -> (r: &'static str)
        ensures
            r@ == "Amount must be greater than zero"@,
    {
        match self {
            PaymentError::NonPositiveAmount => "Amount must be greater than zero",
        }
    }
}

/// The processor a payment goes to: the default one (`true`), always.
pub fn select_processor(_payment_request: &ApiPaymentRequest) -> (r: bool)
    ensures
        r,
{
    true
}

/// The stored form of a submitted payment, or the refusal of a payment
/// whose amount is not above zero.
pub fn prepare_payment(payment_request: &ApiPaymentRequest) -> (r: Result<PaymentData, PaymentError>)
    requires
        payment_request.amount.wf(),
    ensures
        payment_request.amount.mantissa <= 0 ==> r == Err::<PaymentData, PaymentError>(
            PaymentError::NonPositiveAmount,
        ),
        payment_request.amount.mantissa > 0 ==> (r matches Ok(d) && d.correlation_id
            == payment_request.correlation_id && d.amount == payment_request.amount
            && d.is_default_processor),
{
    if !amount_is_positive(payment_request.amount) {
        return Err(PaymentError::NonPositiveAmount);
    }
    let is_default_processor = select_processor(payment_request);
    Ok(PaymentData::new(payment_request.correlation_id, payment_request.amount, is_default_processor))
}

/// A stored per-processor row: whether it is the default processor, its
/// request count and its amount in cents.
pub type SummaryRow = (bool, i64, i64);

/// The details that the last row of the given processor sets, if any row
/// is of that processor: its count reinterpreted as unsigned, and its cents
/// as an amount of scale 2.
pub open spec fn last_row_of(rows: Seq<SummaryRow>, is_default: bool) -> Option<(u64, Amount)>
    decreases rows.len(),
{
    if rows.len() == 0 {
        None
    } else if rows.last().0 == is_default {
        Some((rows.last().1 as u64, Amount { mantissa: rows.last().2 as i128, scale: 2 }))
    } else {
        last_row_of(rows.drop_last(), is_default)
    }
}

/// The summary details of one processor for the rows: those of its last
/// row, or zero requests and a zero amount when it has none.
pub open spec fn details_of(rows: Seq<SummaryRow>, is_default: bool) -> (u64, Amount) {
    match last_row_of(rows, is_default) {
        Some(d) => d,
        None => (0, Amount { mantissa: 0, scale: 0 }),
    }
}

/// The summary built from stored per-processor rows: a later row of a
/// processor replaces an earlier one.
pub fn summary_from_rows(rows: &Vec<SummaryRow>) -> (r: ApiSummaryResponse)
    ensures
        (r.default.total_requests, r.default.total_amount) == details_of(rows@, true),
        (r.fallback.total_requests, r.fallback.total_amount) == details_of(rows@, false),
{
    let mut summary = ApiSummaryResponse {
        default: SummaryDetails { total_requests: 0, total_amount: zero_amount() },
        fallback: SummaryDetails { total_requests: 0, total_amount: zero_amount() },
    };
    let mut i: usize = 0;
    while i < rows.len()
        invariant
            i <= rows.len(),
            (summary.default.total_requests, summary.default.total_amount) == details_of(
                rows@.take(i as int),
                true,
            ),
            (summary.fallback.total_requests, summary.fallback.total_amount) == details_of(
                rows@.take(i as int),
                false,
            ),
        decreases rows.len() - i,
    {
        let (is_default_processor, total_requests, total_amount_cents) = rows[i];
        let total_amount = amount_from_signed_cents(total_amount_cents);
        proof {
            let next = rows@.take(i + 1);
            assert(next.drop_last() =~= rows@.take(i as int));
            assert(next.last() == rows@[i as int]);
        }
        if is_default_processor {
            summary.default.total_requests = total_requests as u64;
            summary.default.total_amount = total_amount;
        } else {
            summary.fallback.total_requests = total_requests as u64;
            summary.fallback.total_amount = total_amount;
        }
        i = i + 1;
    }
    assert(rows@.take(rows.len() as int) =~= rows@);
    summary
}

/// The details that a row shows for its own processor.
pub open spec fn row_details(row: SummaryRow) -> (u64, Amount) {
    (row.1 as u64, Amount { mantissa: row.2 as i128, scale: 2 })
}

/// A row sets the details of its own processor and leaves those of the
/// other processor as they were.
pub proof fn lemma_row_sets_only_its_processor(rows: Seq<SummaryRow>, row: SummaryRow, p: bool)
    ensures
        details_of(rows.push(row), row.0) == row_details(row),
        row.0 != p ==> details_of(rows.push(row), p) == details_of(rows, p),
{
    assert(rows.push(row).drop_last() =~= rows);
}

/// A processor's details are those of its last row, wherever that row
/// stands among the rows of the other processor.
pub proof fn lemma_last_row_wins(rows: Seq<SummaryRow>, p: bool, i: int)
    requires
        0 <= i < rows.len(),
        rows[i].0 == p,
        forall|j: int| i < j < rows.len() ==> (#[trigger] rows[j]).0 != p,
    ensures
        details_of(rows, p) == row_details(rows[i]),
    decreases rows.len(),
{
    if i < rows.len() - 1 {
        let init = rows.drop_last();
        assert(init[i] == rows[i]);
        assert forall|j: int| i < j < init.len() implies (#[trigger] init[j]).0 != p by {
            assert(init[j] == rows[j]);
        }
        assert(rows[rows.len() - 1].0 != p);
        lemma_last_row_wins(init, p, i);
    }
}

/// A processor without rows shows zero requests and a zero amount.
pub proof fn lemma_no_row_is_zero(rows: Seq<SummaryRow>, p: bool)
    requires
        forall|j: int| 0 <= j < rows.len() ==> (#[trigger] rows[j]).0 != p,
    ensures
        details_of(rows, p) == (0u64, Amount { mantissa: 0, scale: 0 }),
    decreases rows.len(),
{
    if rows.len() > 0 {
        let init = rows.drop_last();
        assert forall|j: int| 0 <= j < init.len() implies (#[trigger] init[j]).0 != p by {
            assert(init[j] == rows[j]);
        }
        assert(rows[rows.len() - 1].0 != p);
        lemma_no_row_is_zero(init, p);
    }
}

} // verus!
