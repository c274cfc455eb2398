//! The payment totals that instances share, and the log of recorded
//! payments from which totals over a time range are computed.
use vstd::prelude::*;

use vstd::string::StringExecFns;

use vstd::arithmetic::div_mod::{
    lemma_add_mod_noop, lemma_fundamental_div_mod_converse, lemma_small_mod,
};

use crate::instant::{instant_le, not_after, parse_rfc3339_utc, Instant};

verus! {

/// 2^64.
pub open spec fn modulus() -> int {
    0x1_0000_0000_0000_0000int
}

/// `x` reduced to 64 bits, as counters that wrap around keep it.
pub open spec fn wrap64(x: int) -> u64 {
    (x % modulus()) as u64
}

/// Four totals: default-processor requests, default-processor cents,
/// fallback-processor requests, fallback-processor cents.
pub type Totals = (u64, u64, u64, u64);

/// The totals after one more payment of `amount_cents` on the given
/// processor (each counter wraps around at 2^64).
pub open spec fn totals_with_payment(t: Totals, amount_cents: u16, is_default: bool) -> Totals {
    if is_default {
        (wrap64(t.0 + 1), wrap64(t.1 + amount_cents), t.2, t.3)
    } else {
        (t.0, t.1, wrap64(t.2 + 1), wrap64(t.3 + amount_cents))
    }
}

/// The amounts by which one payment raises the four totals: one request
/// and its cents on its processor, nothing on the other. Adding them to
/// each counter with wrap-around is what counting the payment does, so
/// totals kept in atomic counters can be updated with them one counter at a
/// time.
pub fn payment_increment(amount_cents: u16, is_default_processor: bool) -> (r: Totals)
    ensures
        r == (if is_default_processor {
            (1u64, amount_cents as u64, 0u64, 0u64)
        } else {
            (0u64, 0u64, 1u64, amount_cents as u64)
        }),
        forall|t: Totals|
            #[trigger] totals_with_payment(t, amount_cents, is_default_processor) == (
                wrap64(t.0 + r.0),
                wrap64(t.1 + r.1),
                wrap64(t.2 + r.2),
                wrap64(t.3 + r.3),
            ),
{
    let r: Totals = if is_default_processor {
        (1, amount_cents as u64, 0, 0)
    } else {
        (0, 0, 1, amount_cents as u64)
    };
    assert forall|t: Totals|
        #[trigger] totals_with_payment(t, amount_cents, is_default_processor) == (
            wrap64(t.0 + r.0),
            wrap64(t.1 + r.1),
            wrap64(t.2 + r.2),
            wrap64(t.3 + r.3),
        ) by {
        lemma_small_mod(t.0 as nat, modulus() as nat);
        lemma_small_mod(t.1 as nat, modulus() as nat);
        lemma_small_mod(t.2 as nat, modulus() as nat);
        lemma_small_mod(t.3 as nat, modulus() as nat);
    }
    r
}

/// Adding `c` with wrap-around to a counter that holds `t` reduced to 64
/// bits gives `t + c` reduced to 64 bits.
pub proof fn lemma_wrapping_step(t: int, c: u64)
    ensures
        (wrap64(t) as int + c) % modulus() == wrap64(t + c) as int,
        vstd::wrapping::u64_specs::wrapping_add(wrap64(t), c) == wrap64(t + c),
{
    let m = modulus();
    let x = t % m;
    assert(0 <= x < m);
    lemma_small_mod(c as nat, m as nat);
    lemma_add_mod_noop(t, c as int, m);
    assert((x + c) % m == (t + c) % m);
    if x + c >= m {
        lemma_fundamental_div_mod_converse(x + c, m, 1, x + c - m);
    } else {
        lemma_fundamental_div_mod_converse(x + c, m, 0, x + c);
    }
}

/// How many slots the shared summary keeps for payment identifiers.
pub const PROCESSED_ID_SLOTS: usize = 20000usize;

/// The totals kept per processor, with room for recently processed payment
/// identifiers.
pub struct PaymentSummaryShared {
    pub default_total_requests: u64,
    pub default_total_amount_cents: u64,
    pub fallback_total_requests: u64,
    pub fallback_total_amount_cents: u64,
    pub processed_count: u64,
    pub processed_ids: Vec<u64>,
}

impl PaymentSummaryShared {
    /// The four totals.
    pub open spec fn totals(&self) -> Totals {
        (
            self.default_total_requests,
            self.default_total_amount_cents,
            self.fallback_total_requests,
            self.fallback_total_amount_cents,
        )
    }

    /// All totals zero, no identifier recorded, every identifier slot zero.
    pub fn new() -> (r: Self)
        ensures
            r.totals() == (0u64, 0u64, 0u64, 0u64),
            r.processed_count == 0,
            r.processed_ids@ == Seq::new(PROCESSED_ID_SLOTS as nat, |i: int| 0u64),
    {
        let mut ids: Vec<u64> = Vec::new();
        let mut k: usize = 0;
        while k < PROCESSED_ID_SLOTS
            invariant
                k <= PROCESSED_ID_SLOTS,
                ids@ == Seq::new(k as nat, |i: int| 0u64),
            decreases PROCESSED_ID_SLOTS - k,
        {
            ids.push(0);
            k = k + 1;
            assert(ids@ =~= Seq::new(k as nat, |i: int| 0u64));
        }
        PaymentSummaryShared {
            default_total_requests: 0,
            default_total_amount_cents: 0,
            fallback_total_requests: 0,
            fallback_total_amount_cents: 0,
            processed_count: 0,
            processed_ids: ids,
        }
    }

    /// Counts one payment of `amount_cents` on the default processor or on
    /// the fallback: its request count grows by one and its amount by
    /// `amount_cents`, both wrapping around at 2^64. The other processor's
    /// totals and the identifier slots stay as they were.
    pub fn add_payment(&mut self, amount_cents: u16, is_default_processor: bool)
        ensures
            final(self).totals() == totals_with_payment(
                old(self).totals(),
                amount_cents,
                is_default_processor,
            ),
            final(self).processed_count == old(self).processed_count,
            final(self).processed_ids == old(self).processed_ids,
    {
        proof {
            lemma_wrapping_step(self.default_total_requests as int, 1);
            lemma_wrapping_step(self.default_total_amount_cents as int, amount_cents as u64);
            lemma_wrapping_step(self.fallback_total_requests as int, 1);
            lemma_wrapping_step(self.fallback_total_amount_cents as int, amount_cents as u64);
            lemma_small_mod(self.default_total_requests as nat, modulus() as nat);
            lemma_small_mod(self.default_total_amount_cents as nat, modulus() as nat);
            lemma_small_mod(self.fallback_total_requests as nat, modulus() as nat);
            lemma_small_mod(self.fallback_total_amount_cents as nat, modulus() as nat);
        }
        if is_default_processor {
            self.default_total_requests = self.default_total_requests.wrapping_add(1);
            self.default_total_amount_cents = self.default_total_amount_cents.wrapping_add(
                amount_cents as u64,
            );
        } else {
            self.fallback_total_requests = self.fallback_total_requests.wrapping_add(1);
            self.fallback_total_amount_cents = self.fallback_total_amount_cents.wrapping_add(
                amount_cents as u64,
            );
        }
    }

    /// The four totals: default requests, default cents, fallback requests,
    /// fallback cents.
    pub fn read_summary(&self) -> (r: Totals)
        ensures
            r == self.totals(),
    {
        (
            self.default_total_requests,
            self.default_total_amount_cents,
            self.fallback_total_requests,
            self.fallback_total_amount_cents,
        )
    }
}

/// One recorded payment, kept for summaries over a time range.
#[derive(Clone, Copy, Debug, PartialEq, Eq, Structural)]
pub struct LightPaymentRecord {
    pub amount_cents: u16,
    pub is_default_processor: bool,
    pub timestamp: Instant,
}

/// Whether `t` lies within the optional bounds, both inclusive.
pub open spec fn in_range(t: Instant, from: Option<Instant>, to: Option<Instant>) -> bool {
    &&& (from matches Some(f) ==> not_after(f, t))
    &&& (to matches Some(u) ==> not_after(t, u))
}

/// Exact counts and sums, per processor, of the records within the bounds.
pub open spec fn tally(
    records: Seq<LightPaymentRecord>,
    from: Option<Instant>,
    to: Option<Instant>,
) -> (int, int, int, int)
    decreases records.len(),
{
    if records.len() == 0 {
        (0, 0, 0, 0)
    } else {
        let t = tally(records.drop_last(), from, to);
        let r = records.last();
        if !in_range(r.timestamp, from, to) {
            t
        } else if r.is_default_processor {
            (t.0 + 1, t.1 + r.amount_cents, t.2, t.3)
        } else {
            (t.0, t.1, t.2 + 1, t.3 + r.amount_cents)
        }
    }
}

/// The totals of the records within the bounds, each reduced to 64 bits.
pub open spec fn range_totals(
    records: Seq<LightPaymentRecord>,
    from: Option<Instant>,
    to: Option<Instant>,
) -> Totals {
    let t = tally(records, from, to);
    (wrap64(t.0), wrap64(t.1), wrap64(t.2), wrap64(t.3))
}

/// The counts in a tally never exceed the number of records.
pub proof fn lemma_tally_counts(
    records: Seq<LightPaymentRecord>,
    from: Option<Instant>,
    to: Option<Instant>,
)
    ensures
        0 <= tally(records, from, to).0,
        0 <= tally(records, from, to).2,
        tally(records, from, to).0 + tally(records, from, to).2 <= records.len(),
    decreases records.len(),
{
    if records.len() > 0 {
        lemma_tally_counts(records.drop_last(), from, to);
    }
}

/// Which date filter failed to parse.
#[derive(Clone, Copy, Debug, PartialEq, Eq, Structural)]
pub enum DateField {
    From,
    To,
}

impl DateField {
    /// The query parameter's name.
    pub fn name(&self) -> (r: &'static str)
        ensures
            *self == DateField::From ==> r@ == "from"@,
            *self == DateField::To ==> r@ == "to"@,
    {
        match self {
            DateField::From => "from",
            DateField::To => "to",
        }
    }
}

/// A summary over a time range that could not be given.
#[derive(Debug)]
pub enum SummaryRangeError {
    /// A bound is not an RFC 3339 date and time.
    InvalidDate { field: DateField, cause: chrono::ParseError },
}

/// The shared totals of this instance together with the payments it has
/// recorded since it started.
pub struct SharedMemoryManager {
    summary: PaymentSummaryShared,
    light_records: Vec<LightPaymentRecord>,
}

impl SharedMemoryManager {
    /// The shared totals.
    pub closed spec fn totals(&self) -> Totals {
        self.summary.totals()
    }

    /// The payments recorded so far, oldest first.
    pub closed spec fn records(&self) -> Seq<LightPaymentRecord> {
        self.light_records@
    }

    /// The totals agree with the recorded payments: they are what adding up
    /// every record gives.
    pub open spec fn totals_match_records(&self) -> bool {
        self.totals() == range_totals(self.records(), None, None)
    }

    /// A manager over the shared totals `summary` (as found in the shared
    /// file), with no payment recorded yet.
    pub fn with_summary(summary: PaymentSummaryShared) -> (r: Self)
        ensures
            r.totals() == summary.totals(),
            r.records() == Seq::<LightPaymentRecord>::empty(),
            summary.totals() == (0u64, 0u64, 0u64, 0u64) ==> r.totals_match_records(),
    {
        SharedMemoryManager { summary, light_records: Vec::new() }
    }

    /// Where the shared totals file lives: `payment_summary.dat` inside the
    /// directory that `SHARED_MEMORY_PATH` names (`env_dir`); without it,
    /// inside the system's temporary directory on Windows
    /// (`windows_temp_dir`, given only there), else `/tmp`.
    pub fn get_shared_file_path(env_dir: Option<&str>, windows_temp_dir: Option<&str>) -> (r:
        String)
        ensures
            r@ == match env_dir {
                Some(d) => d@ + "/payment_summary.dat"@,
                None => match windows_temp_dir {
                    Some(t) => t@ + "/payment_summary.dat"@,
                    None => "/tmp/payment_summary.dat"@,
                },
            },
    {
        match env_dir {
            Some(d) => {
                let mut s = String::from_str(d);
                s.append("/payment_summary.dat");
                s
            },
            None => match windows_temp_dir {
                Some(t) => {
                    let mut s = String::from_str(t);
                    s.append("/payment_summary.dat");
                    s
                },
                None => String::from_str("/tmp/payment_summary.dat"),
            },
        }
    }

    /// The shared totals as they are now.
    pub fn summary(&self) -> (r: &PaymentSummaryShared)
        ensures
            r.totals() == self.totals(),
    {
        &self.summary
    }

    /// Takes in the totals that another instance may have changed in the
    /// shared file; the recorded payments stay.
    pub fn refresh_totals(&mut self, totals: Totals)
        ensures
            final(self).totals() == totals,
            final(self).records() == old(self).records(),
    {
        self.summary.default_total_requests = totals.0;
        self.summary.default_total_amount_cents = totals.1;
        self.summary.fallback_total_requests = totals.2;
        self.summary.fallback_total_amount_cents = totals.3;
    }

    /// Counts a processed payment in the shared totals and records it for
    /// summaries over a time range. Always reports the payment as new.
    pub fn add_payment_if_new(
        &mut self,
        _correlation_id: uuid::Uuid,
        amount_cents: u16,
        is_default_processor: bool,
        timestamp: Instant,
    ) -> (r: bool)
        ensures
            r,
            final(self).totals() == totals_with_payment(
                old(self).totals(),
                amount_cents,
                is_default_processor,
            ),
            final(self).records() == old(self).records().push(
                LightPaymentRecord { amount_cents, is_default_processor, timestamp },
            ),
            old(self).totals_match_records() ==> final(self).totals_match_records(),
    {
        proof {
            lemma_range_totals_push(
                self.records(),
                LightPaymentRecord { amount_cents, is_default_processor, timestamp },
                None,
                None,
            );
        }
        self.summary.add_payment(amount_cents, is_default_processor);
        self.light_records.push(LightPaymentRecord { amount_cents, is_default_processor, timestamp });
        true
    }

    /// The shared totals: default requests, default cents, fallback
    /// requests, fallback cents.
    pub fn get_summary(&self) -> (r: Totals)
        ensures
            r == self.totals(),
    {
        self.summary.read_summary()
    }

    /// The totals of the recorded payments whose time lies within the
    /// bounds (both inclusive; an absent bound does not limit).
    pub fn summary_between(&self, from: Option<Instant>, to: Option<Instant>) -> (r: Totals)
        ensures
            r == range_totals(self.records(), from, to),
    {
        let records = &self.light_records;
        let mut acc: Totals = (0, 0, 0, 0);
        let mut i: usize = 0;
        proof {
            lemma_small_mod(0, modulus() as nat);
        }
        while i < records.len()
            invariant
                i <= records.len(),
                acc == range_totals(records@.take(i as int), from, to),
                tally(records@.take(i as int), from, to).0 == acc.0,
                tally(records@.take(i as int), from, to).2 == acc.2,
            decreases records.len() - i,
        {
            let ghost prefix = records@.take(i as int);
            let ghost next = records@.take(i + 1);
            let rec = records[i];
            proof {
                assert(next.drop_last() =~= prefix);
                assert(next.last() == rec);
                lemma_tally_counts(prefix, from, to);
                let t = tally(prefix, from, to);
                lemma_wrapping_step(t.1, rec.amount_cents as u64);
                lemma_wrapping_step(t.3, rec.amount_cents as u64);
                lemma_small_mod((t.0 + 1) as nat, modulus() as nat);
                lemma_small_mod((t.2 + 1) as nat, modulus() as nat);
            }
            let from_ok = match from {
                Some(f) => instant_le(f, rec.timestamp),
                None => true,
            };
            let to_ok = match to {
                Some(u) => instant_le(rec.timestamp, u),
                None => true,
            };
            if from_ok && to_ok {
                if rec.is_default_processor {
                    acc = (acc.0 + 1, acc.1.wrapping_add(rec.amount_cents as u64), acc.2, acc.3);
                } else {
                    acc = (acc.0, acc.1, acc.2 + 1, acc.3.wrapping_add(rec.amount_cents as u64));
                }
            }
            i = i + 1;
        }
        assert(records@.take(records.len() as int) =~= records@);
        acc
    }

    /// What a summary over optional RFC 3339 bounds gives: without bounds,
    /// the shared totals; else the first bound (`from` before `to`) that is
    /// not a date and time; else the totals of the recorded payments within
    /// the bounds.
    pub open spec fn range_outcome(&self, from: Option<Seq<char>>, to: Option<Seq<char>>) -> Result<
        Totals,
        DateField,
    > {
        if from is None && to is None {
            Ok(self.totals())
        } else if bound_refused(from) {
            Err(DateField::From)
        } else if bound_refused(to) {
            Err(DateField::To)
        } else {
            Ok(range_totals(self.records(), bound_of(from), bound_of(to)))
        }
    }

    /// The totals over a time range given as optional RFC 3339 bounds.
    /// Without bounds these are the shared totals. Otherwise the bounds are
    /// parsed, `from` first, and a bound that does not parse is reported
    /// together with `chrono`'s error; else the totals are those of the
    /// recorded payments within the bounds.
    pub fn get_summary_range(&self, from_str: Option<&str>, to_str: Option<&str>) -> (r: Result<
        Totals,
        SummaryRangeError,
    >)
        ensures
            range_outcome_of(r) == self.range_outcome(str_opt_view(from_str), str_opt_view(to_str)),
            from_str is None && to_str is None ==> (r matches Ok(t) && t == self.totals()),
            from_str is None && bound_of(str_opt_view(to_str)) is Some ==> (r matches Ok(t) && t
                == range_totals(self.records(), None, bound_of(str_opt_view(to_str)))),
            to_str is None && bound_of(str_opt_view(from_str)) is Some ==> (r matches Ok(t) && t
                == range_totals(self.records(), bound_of(str_opt_view(from_str)), None)),
            bound_of(str_opt_view(from_str)) is Some && bound_of(str_opt_view(to_str)) is Some
                ==> (r matches Ok(t) && t == range_totals(
                self.records(),
                bound_of(str_opt_view(from_str)),
                bound_of(str_opt_view(to_str)),
            )),
    {
        if from_str.is_none() && to_str.is_none() {
            return Ok(self.get_summary());
        }
        let from = match from_str {
            Some(s) => match parse_rfc3339_utc(s) {
                Ok(i) => Some(i),
                Err(e) => {
                    return Err(SummaryRangeError::InvalidDate { field: DateField::From, cause: e });
                },
            },
            None => None,
        };
        let to = match to_str {
            Some(s) => match parse_rfc3339_utc(s) {
                Ok(i) => Some(i),
                Err(e) => {
                    return Err(SummaryRangeError::InvalidDate { field: DateField::To, cause: e });
                },
            },
            None => None,
        };
        Ok(self.summary_between(from, to))
    }
}

/// A range summary's result with the parse error left out.
pub open spec fn range_outcome_of(r: Result<Totals, SummaryRangeError>) -> Result<Totals, DateField> {
    match r {
        Ok(t) => Ok(t),
        Err(SummaryRangeError::InvalidDate { field, cause }) => Err(field),
    }
}

/// The characters of an optional text.
pub open spec fn str_opt_view(text: Option<&str>) -> Option<Seq<char>> {
    match text {
        Some(s) => Some(s@),
        None => None,
    }
}

/// A bound is given and is not an RFC 3339 date and time.
pub open spec fn bound_refused(text: Option<Seq<char>>) -> bool {
    match text {
        Some(s) => crate::instant::rfc3339_instant(s) is None,
        None => false,
    }
}

/// The instant that an optional RFC 3339 bound denotes (absent when the
/// bound is absent or does not parse).
pub open spec fn bound_of(text: Option<Seq<char>>) -> Option<Instant> {
    match text {
        Some(s) => match crate::instant::rfc3339_instant(s) {
            Some(p) => Some(Instant { secs: p.0, nanos: p.1 }),
            None => None,
        },
        None => None,
    }
}

/// Recording a payment changes the totals over a range exactly when the
/// payment's time lies within it, and then by that one payment.
pub proof fn lemma_range_totals_push(
    records: Seq<LightPaymentRecord>,
    record: LightPaymentRecord,
    from: Option<Instant>,
    to: Option<Instant>,
)
    ensures
        range_totals(records.push(record), from, to) == (if in_range(record.timestamp, from, to) {
            totals_with_payment(
                range_totals(records, from, to),
                record.amount_cents,
                record.is_default_processor,
            )
        } else {
            range_totals(records, from, to)
        }),
{
    let after = records.push(record);
    assert(after.drop_last() =~= records);
    let t = tally(records, from, to);
    lemma_wrapping_step(t.0, 1);
    lemma_wrapping_step(t.1, record.amount_cents as u64);
    lemma_wrapping_step(t.2, 1);
    lemma_wrapping_step(t.3, record.amount_cents as u64);
}

/// How many of the records are of the given processor.
pub open spec fn count_of(records: Seq<LightPaymentRecord>, is_default: bool) -> nat {
    records.filter(|r: LightPaymentRecord| r.is_default_processor == is_default).len()
}

/// Without bounds every record is counted, on its own processor.
pub proof fn lemma_unbounded_counts_every_record(records: Seq<LightPaymentRecord>)
    ensures
        tally(records, None, None).0 == count_of(records, true),
        tally(records, None, None).2 == count_of(records, false),
    decreases records.len(),
{
    broadcast use vstd::seq_lib::group_seq_properties;
    if records.len() > 0 {
        let init = records.drop_last();
        lemma_unbounded_counts_every_record(init);
        assert(records =~= init.push(records.last()));
        let pt = |r: LightPaymentRecord| r.is_default_processor == true;
        let pf = |r: LightPaymentRecord| r.is_default_processor == false;
        init.lemma_filter_push(records.last(), pt);
        init.lemma_filter_push(records.last(), pf);
    }
}

/// A lone upper bound limits only from above: when every record lies at or
/// before it, the totals up to it are the totals of all records.
pub proof fn lemma_lone_upper_bound(records: Seq<LightPaymentRecord>, to: Instant)
    requires
        forall|i: int| 0 <= i < records.len() ==> not_after(#[trigger] records[i].timestamp, to),
    ensures
        range_totals(records, None, Some(to)) == range_totals(records, None, None),
        tally(records, None, Some(to)) == tally(records, None, None),
    decreases records.len(),
{
    if records.len() > 0 {
        let init = records.drop_last();
        assert forall|i: int| 0 <= i < init.len() implies not_after(
            #[trigger] init[i].timestamp,
            to,
        ) by {
            assert(init[i] == records[i]);
        }
        lemma_lone_upper_bound(init, to);
        assert(not_after(records[records.len() - 1].timestamp, to));
    }
}

/// A lone lower bound limits only from below: when every record lies at or
/// after it, the totals from it are the totals of all records.
pub proof fn lemma_lone_lower_bound(records: Seq<LightPaymentRecord>, from: Instant)
    requires
        forall|i: int| 0 <= i < records.len() ==> not_after(from, #[trigger] records[i].timestamp),
    ensures
        range_totals(records, Some(from), None) == range_totals(records, None, None),
        tally(records, Some(from), None) == tally(records, None, None),
    decreases records.len(),
{
    if records.len() > 0 {
        let init = records.drop_last();
        assert forall|i: int| 0 <= i < init.len() implies not_after(
            from,
            #[trigger] init[i].timestamp,
        ) by {
            assert(init[i] == records[i]);
        }
        lemma_lone_lower_bound(init, from);
        assert(not_after(from, records[records.len() - 1].timestamp));
    }
}

/// A record later than the upper bound, or earlier than the lower bound,
/// is not counted: appending it leaves the totals of the range unchanged;
/// a record within both bounds is counted once, on its own processor.
pub proof fn lemma_record_counted_iff_within(
    records: Seq<LightPaymentRecord>,
    record: LightPaymentRecord,
    from: Option<Instant>,
    to: Option<Instant>,
)
    ensures
        (to matches Some(u) && !not_after(record.timestamp, u)) ==> tally(
            records.push(record),
            from,
            to,
        ) == tally(records, from, to),
        (from matches Some(f) && !not_after(f, record.timestamp)) ==> tally(
            records.push(record),
            from,
            to,
        ) == tally(records, from, to),
        ((from matches Some(f) ==> not_after(f, record.timestamp)) && (to matches Some(u)
            ==> not_after(record.timestamp, u))) ==> {
            let before = tally(records, from, to);
            let after = tally(records.push(record), from, to);
            if record.is_default_processor {
                after == (before.0 + 1, before.1 + record.amount_cents, before.2, before.3)
            } else {
                after == (before.0, before.1, before.2 + 1, before.3 + record.amount_cents)
            }
        },
{
    assert(records.push(record).drop_last() =~= records);
}

/// A manager whose totals agree with its records keeps them in agreement
/// when a payment is added.
pub proof fn lemma_add_keeps_totals_matching(
    before: Totals,
    records: Seq<LightPaymentRecord>,
    record: LightPaymentRecord,
)
    requires
        before == range_totals(records, None, None),
    ensures
        totals_with_payment(before, record.amount_cents, record.is_default_processor)
            == range_totals(records.push(record), None, None),
{
    lemma_range_totals_push(records, record, None, None);
}

/// When the totals agree with the records, a summary without bounds and a
/// summary over the unbounded range of the records give the same totals.
pub proof fn lemma_unbounded_summary(m: &SharedMemoryManager)
    requires
        m.totals_match_records(),
    ensures
        m.range_outcome(None, None) == Ok::<Totals, DateField>(
            range_totals(m.records(), None, None),
        ),
{
}

} // verus!
