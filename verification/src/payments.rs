//! The payment log: VIP purchase records and their read-only aggregations.
//! The log is capped; expired records are swept by a periodic cleaning pass.

use vstd::prelude::*;
use crate::types::{AccountId, Address, Timestamp, address_eq};

verus! {

/// One recorded VIP payment.
#[derive(Clone, Copy, Debug)]
pub struct PaymentRecord {
    /// Paying account.
    pub principal: AccountId,
    /// Paid amount, in the token's raw units.
    pub amount: u128,
    /// When the bought VIP time runs out.
    pub expiry_time: Timestamp,
    /// External chain address the payment is attributed to.
    pub eth_address: Address,
    /// The token canister the payment was made through.
    pub canister_id: AccountId,
    /// When the payment was made.
    pub payment_create: Timestamp,
}

/// The integer part of the payment statistics: the caller's records, their
/// merged VIP expiry and summed amount. (Display-currency valuations are the
/// host's business and live beside the log, not in it.)
pub struct PaymentStats {
    pub user_payments: Vec<PaymentRecord>,
    pub user_vip_expiry: Timestamp,
    pub user_total_amount: u128,
}

/// Every record's expiry lies at or after its creation: payments buy a
/// non-negative span of VIP time.
pub open spec fn payments_wf(s: Seq<PaymentRecord>) -> bool {
    forall|i: int|
        0 <= i < s.len() ==> (#[trigger] s[i]).payment_create <= s[i].expiry_time
}

/// The caller's records, in log order.
pub open spec fn user_records(s: Seq<PaymentRecord>, who: u64) -> Seq<PaymentRecord>
    decreases s.len(),
{
    if s.len() == 0 {
        s
    } else {
        let rest = user_records(s.drop_first(), who);
        if s[0].principal == who {
            seq![s[0]] + rest
        } else {
            rest
        }
    }
}

/// Sum of the durations (expiry minus creation) of the caller's records.
pub open spec fn user_duration_sum(s: Seq<PaymentRecord>, who: u64) -> int
    decreases s.len(),
{
    if s.len() == 0 {
        0
    } else {
        (if s[0].principal == who {
            s[0].expiry_time - s[0].payment_create
        } else {
            0
        }) + user_duration_sum(s.drop_first(), who)
    }
}

/// Sum of the amounts of the caller's records.
pub open spec fn user_amount_sum(s: Seq<PaymentRecord>, who: u64) -> int
    decreases s.len(),
{
    if s.len() == 0 {
        0
    } else {
        (if s[0].principal == who {
            s[0].amount as int
        } else {
            0
        }) + user_amount_sum(s.drop_first(), who)
    }
}

/// The earliest creation time among the caller's records; the u64 maximum
/// stands for "no records", as a sentinel.
pub open spec fn user_earliest_start(s: Seq<PaymentRecord>, who: u64) -> int
    decreases s.len(),
{
    if s.len() == 0 {
        u64::MAX as int
    } else {
        let rest = user_earliest_start(s.drop_first(), who);
        if s[0].principal == who && s[0].payment_create < rest {
            s[0].payment_create as int
        } else {
            rest
        }
    }
}

/// The merged VIP expiry of the caller's records: all bought durations laid
/// end to end from the earliest start; zero with no records.
pub open spec fn user_vip_expiry_spec(s: Seq<PaymentRecord>, who: u64) -> int {
    if user_earliest_start(s, who) == u64::MAX {
        0
    } else {
        user_earliest_start(s, who) + user_duration_sum(s, who)
    }
}

proof fn lemma_user_records_push(s: Seq<PaymentRecord>, p: PaymentRecord, who: u64)
    ensures
        user_records(s.push(p), who) == user_records(s, who) + (if p.principal == who {
            seq![p]
        } else {
            Seq::<PaymentRecord>::empty()
        }),
        user_duration_sum(s.push(p), who) == user_duration_sum(s, who) + (if p.principal == who {
            p.expiry_time - p.payment_create
        } else {
            0
        }),
        user_amount_sum(s.push(p), who) == user_amount_sum(s, who) + (if p.principal == who {
            p.amount as int
        } else {
            0
        }),
        user_earliest_start(s.push(p), who) == (if p.principal == who && p.payment_create
            < user_earliest_start(s, who) {
            p.payment_create as int
        } else {
            user_earliest_start(s, who)
        }),
    decreases s.len(),
{
    if s.len() == 0 {
        assert(s.push(p)[0] == p);
        assert(s.push(p).drop_first() =~= Seq::<PaymentRecord>::empty());
        assert(user_records(Seq::<PaymentRecord>::empty(), who) =~= Seq::<PaymentRecord>::empty());
        assert(user_records(s.push(p), who) =~= user_records(s, who) + (if p.principal == who {
            seq![p]
        } else {
            Seq::<PaymentRecord>::empty()
        }));
        assert(user_duration_sum(Seq::<PaymentRecord>::empty(), who) == 0);
        assert(user_amount_sum(Seq::<PaymentRecord>::empty(), who) == 0);
        assert(user_earliest_start(Seq::<PaymentRecord>::empty(), who) == u64::MAX as int);
    } else {
        lemma_user_records_push(s.drop_first(), p, who);
        assert(s.push(p)[0] == s[0]);
        assert(s.push(p).drop_first() =~= s.drop_first().push(p));
        assert(user_records(s.push(p), who) =~= user_records(s, who) + (if p.principal == who {
            seq![p]
        } else {
            Seq::<PaymentRecord>::empty()
        }));
    }
}

/// Earliest-start of earlier records never grows, durations stay
/// non-negative: the pieces the expiry aggregation rests on.
proof fn lemma_user_sums_bounds(s: Seq<PaymentRecord>, who: u64)
    requires
        payments_wf(s),
    ensures
        0 <= user_duration_sum(s, who),
        0 <= user_amount_sum(s, who),
        0 <= user_earliest_start(s, who) <= u64::MAX,
    decreases s.len(),
{
    if s.len() > 0 {
        assert(payments_wf(s.drop_first())) by {
            assert(forall|j: int|
                0 <= j < s.drop_first().len() ==> s.drop_first()[j] == s[j + 1]);
        }
        lemma_user_sums_bounds(s.drop_first(), who);
    }
}

/// With the sentinel earliest start, every record of the caller was created
/// at the latest possible instant, so no record buys any duration.
proof fn lemma_user_sentinel_no_duration(s: Seq<PaymentRecord>, who: u64)
    requires
        payments_wf(s),
        user_earliest_start(s, who) == u64::MAX,
    ensures
        user_duration_sum(s, who) == 0,
    decreases s.len(),
{
    if s.len() > 0 {
        assert(payments_wf(s.drop_first())) by {
            assert(forall|j: int|
                0 <= j < s.drop_first().len() ==> s.drop_first()[j] == s[j + 1]);
        }
        lemma_user_sums_bounds(s.drop_first(), who);
        lemma_user_sentinel_no_duration(s.drop_first(), who);
    }
}

/// The caller's total bought duration fits a timestamp whenever their
/// merged expiry does.
proof fn lemma_user_duration_fits(s: Seq<PaymentRecord>, who: u64)
    requires
        payments_wf(s),
        user_vip_expiry_spec(s, who) <= u64::MAX,
    ensures
        user_duration_sum(s, who) <= u64::MAX,
{
    if user_earliest_start(s, who) == u64::MAX {
        lemma_user_sentinel_no_duration(s, who);
    } else {
        lemma_user_sums_bounds(s, who);
    }
}

/// Appends a record, unless the log has reached its thousand-record cap.
/// Reports whether the record was kept.
pub fn push_payment(payments: &mut Vec<PaymentRecord>, record: PaymentRecord) -> (r: bool)
    ensures
        r == (old(payments)@.len() < 1000),
        final(payments)@ == if old(payments)@.len() < 1000 {
            old(payments)@.push(record)
        } else {
            old(payments)@
        },
{
    if payments.len() < 1000 {
        payments.push(record);
        true
    } else {
        false
    }
}

/// Aggregates the caller's payments: their records, the merged VIP expiry
/// (earliest start plus all bought durations) and the summed amount.
pub fn get_payment_stats(payments: &Vec<PaymentRecord>, caller: AccountId) -> (r: PaymentStats)
    requires
        payments_wf(payments@),
        user_amount_sum(payments@, caller) <= u128::MAX,
        user_vip_expiry_spec(payments@, caller) <= u64::MAX,
    ensures
        r.user_payments@ == user_records(payments@, caller),
        r.user_vip_expiry == user_vip_expiry_spec(payments@, caller),
        r.user_total_amount == user_amount_sum(payments@, caller),
{
    let ghost s0 = payments@;
    let n = payments.len();
    let mut user_payments: Vec<PaymentRecord> = Vec::new();
    let mut earliest: u64 = u64::MAX;
    let mut duration: u64 = 0;
    let mut total_amount: u128 = 0;
    let mut i: usize = 0;
    proof {
        assert(s0.take(0) =~= Seq::<PaymentRecord>::empty());
        assert(user_payments@ =~= user_records(s0.take(0), caller));
        assert(user_records(Seq::<PaymentRecord>::empty(), caller) =~= Seq::<
            PaymentRecord,
        >::empty());
        lemma_user_sums_bounds(s0, caller);
        lemma_user_duration_fits(s0, caller);
    }
    while i < n
        invariant
            s0 == payments@,
            payments_wf(s0),
            n == s0.len(),
            i <= n,
            user_payments@ == user_records(s0.take(i as int), caller),
            earliest == user_earliest_start(s0.take(i as int), caller),
            duration == user_duration_sum(s0.take(i as int), caller),
            total_amount == user_amount_sum(s0.take(i as int), caller),
            user_amount_sum(s0, caller) <= u128::MAX,
            user_duration_sum(s0, caller) <= u64::MAX,
            user_vip_expiry_spec(s0, caller) <= u64::MAX,
        decreases n - i,
    {
        let p = payments[i];
        proof {
            assert(s0.take(i + 1) =~= s0.take(i as int).push(s0[i as int]));
            lemma_user_records_push(s0.take(i as int), s0[i as int], caller);
            lemma_user_prefix_bounds(s0, caller, i + 1);
        }
        if p.principal == caller {
            user_payments.push(p);
            if p.payment_create < earliest {
                earliest = p.payment_create;
            }
            duration = duration + (p.expiry_time - p.payment_create);
            total_amount = total_amount + p.amount;
            proof {
                assert(user_payments@ =~= user_records(s0.take(i + 1), caller));
            }
        } else {
            proof {
                assert(user_records(s0.take(i + 1), caller) =~= user_records(
                    s0.take(i as int),
                    caller,
                ) + Seq::<PaymentRecord>::empty());
                assert(user_payments@ =~= user_records(s0.take(i + 1), caller));
            }
        }
        i = i + 1;
    }
    proof {
        assert(s0.take(n as int) =~= s0);
    }
    let user_vip_expiry: u64 = if earliest == u64::MAX {
        0
    } else {
        earliest + duration
    };
    PaymentStats { user_payments, user_vip_expiry, user_total_amount: total_amount }
}

/// The merged VIP expiry of the payments attributed to one external
/// address: earliest start plus all bought durations; zero with none.
pub open spec fn addr_duration_sum(s: Seq<PaymentRecord>, addr: Seq<u8>) -> int
    decreases s.len(),
{
    if s.len() == 0 {
        0
    } else {
        (if s[0].eth_address@ == addr {
            s[0].expiry_time - s[0].payment_create
        } else {
            0
        }) + addr_duration_sum(s.drop_first(), addr)
    }
}

pub open spec fn addr_earliest_start(s: Seq<PaymentRecord>, addr: Seq<u8>) -> int
    decreases s.len(),
{
    if s.len() == 0 {
        u64::MAX as int
    } else {
        let rest = addr_earliest_start(s.drop_first(), addr);
        if s[0].eth_address@ == addr && s[0].payment_create < rest {
            s[0].payment_create as int
        } else {
            rest
        }
    }
}

pub open spec fn addr_vip_expiry_spec(s: Seq<PaymentRecord>, addr: Seq<u8>) -> int {
    if addr_earliest_start(s, addr) == u64::MAX {
        0
    } else {
        addr_earliest_start(s, addr) + addr_duration_sum(s, addr)
    }
}

proof fn lemma_addr_push(s: Seq<PaymentRecord>, p: PaymentRecord, addr: Seq<u8>)
    ensures
        addr_duration_sum(s.push(p), addr) == addr_duration_sum(s, addr) + (if p.eth_address@
            == addr {
            p.expiry_time - p.payment_create
        } else {
            0
        }),
        addr_earliest_start(s.push(p), addr) == (if p.eth_address@ == addr && p.payment_create
            < addr_earliest_start(s, addr) {
            p.payment_create as int
        } else {
            addr_earliest_start(s, addr)
        }),
    decreases s.len(),
{
    if s.len() == 0 {
        assert(s.push(p)[0] == p);
        assert(s.push(p).drop_first() =~= Seq::<PaymentRecord>::empty());
        assert(addr_duration_sum(Seq::<PaymentRecord>::empty(), addr) == 0);
        assert(addr_earliest_start(Seq::<PaymentRecord>::empty(), addr) == u64::MAX as int);
    } else {
        lemma_addr_push(s.drop_first(), p, addr);
        assert(s.push(p)[0] == s[0]);
        assert(s.push(p).drop_first() =~= s.drop_first().push(p));
    }
}

proof fn lemma_addr_bounds(s: Seq<PaymentRecord>, addr: Seq<u8>)
    requires
        payments_wf(s),
    ensures
        0 <= addr_duration_sum(s, addr),
        0 <= addr_earliest_start(s, addr) <= u64::MAX,
    decreases s.len(),
{
    if s.len() > 0 {
        assert(payments_wf(s.drop_first())) by {
            assert(forall|j: int|
                0 <= j < s.drop_first().len() ==> s.drop_first()[j] == s[j + 1]);
        }
        lemma_addr_bounds(s.drop_first(), addr);
    }
}

proof fn lemma_addr_sentinel_no_duration(s: Seq<PaymentRecord>, addr: Seq<u8>)
    requires
        payments_wf(s),
        addr_earliest_start(s, addr) == u64::MAX,
    ensures
        addr_duration_sum(s, addr) == 0,
    decreases s.len(),
{
    if s.len() > 0 {
        assert(payments_wf(s.drop_first())) by {
            assert(forall|j: int|
                0 <= j < s.drop_first().len() ==> s.drop_first()[j] == s[j + 1]);
        }
        lemma_addr_bounds(s.drop_first(), addr);
        lemma_addr_sentinel_no_duration(s.drop_first(), addr);
    }
}

proof fn lemma_addr_duration_fits(s: Seq<PaymentRecord>, addr: Seq<u8>)
    requires
        payments_wf(s),
        addr_vip_expiry_spec(s, addr) <= u64::MAX,
    ensures
        addr_duration_sum(s, addr) <= u64::MAX,
{
    if addr_earliest_start(s, addr) == u64::MAX {
        lemma_addr_sentinel_no_duration(s, addr);
    } else {
        lemma_addr_bounds(s, addr);
    }
}

/// The merged VIP expiry bought for one external address.
pub fn get_payments_by_eth_address(payments: &Vec<PaymentRecord>, eth_address: &Address) -> (r:
    u64)
    requires
        payments_wf(payments@),
        addr_vip_expiry_spec(payments@, eth_address@) <= u64::MAX,
    ensures
        r == addr_vip_expiry_spec(payments@, eth_address@),
{
    let ghost s0 = payments@;
    let n = payments.len();
    let mut earliest: u64 = u64::MAX;
    let mut duration: u64 = 0;
    let mut i: usize = 0;
    proof {
        assert(s0.take(0) =~= Seq::<PaymentRecord>::empty());
        lemma_addr_bounds(s0, eth_address@);
        lemma_addr_duration_fits(s0, eth_address@);
    }
    while i < n
        invariant
            s0 == payments@,
            payments_wf(s0),
            n == s0.len(),
            i <= n,
            earliest == addr_earliest_start(s0.take(i as int), eth_address@),
            duration == addr_duration_sum(s0.take(i as int), eth_address@),
            addr_duration_sum(s0, eth_address@) <= u64::MAX,
            addr_vip_expiry_spec(s0, eth_address@) <= u64::MAX,
        decreases n - i,
    {
        let p = payments[i];
        proof {
            assert(s0.take(i + 1) =~= s0.take(i as int).push(s0[i as int]));
            lemma_addr_push(s0.take(i as int), s0[i as int], eth_address@);
            lemma_addr_prefix_bounds(s0, eth_address@, i + 1);
        }
        if address_eq(&p.eth_address, eth_address) {
            if p.payment_create < earliest {
                earliest = p.payment_create;
            }
            duration = duration + (p.expiry_time - p.payment_create);
        }
        i = i + 1;
    }
    proof {
        assert(s0.take(n as int) =~= s0);
    }
    if earliest == u64::MAX {
        0
    } else {
        earliest + duration
    }
}

/// The caller's payment records, in log order.
pub fn get_payments_by_principal(payments: &Vec<PaymentRecord>, principal: AccountId) -> (r: Vec<
    PaymentRecord,
>)
    ensures
        r@ == user_records(payments@, principal),
{
    let ghost s0 = payments@;
    let n = payments.len();
    let mut out: Vec<PaymentRecord> = Vec::new();
    let mut i: usize = 0;
    proof {
        assert(s0.take(0) =~= Seq::<PaymentRecord>::empty());
        assert(user_records(Seq::<PaymentRecord>::empty(), principal) =~= Seq::<
            PaymentRecord,
        >::empty());
        assert(out@ =~= user_records(s0.take(0), principal));
    }
    while i < n
        invariant
            s0 == payments@,
            n == s0.len(),
            i <= n,
            out@ == user_records(s0.take(i as int), principal),
        decreases n - i,
    {
        let p = payments[i];
        proof {
            assert(s0.take(i + 1) =~= s0.take(i as int).push(s0[i as int]));
            lemma_user_records_push(s0.take(i as int), s0[i as int], principal);
        }
        if p.principal == principal {
            out.push(p);
            proof {
                assert(out@ =~= user_records(s0.take(i + 1), principal));
            }
        } else {
            proof {
                assert(user_records(s0.take(i + 1), principal) =~= user_records(
                    s0.take(i as int),
                    principal,
                ) + Seq::<PaymentRecord>::empty());
                assert(out@ =~= user_records(s0.take(i + 1), principal));
            }
        }
        i = i + 1;
    }
    proof {
        assert(s0.take(n as int) =~= s0);
    }
    out
}

/// Whether some record in `s` belongs to `who`.
pub open spec fn has_principal(s: Seq<PaymentRecord>, who: u64) -> bool {
    exists|i: int| 0 <= i < s.len() && (#[trigger] s[i]).principal == who
}

/// How many distinct accounts the log holds records for: each record counts
/// once unless an earlier record carries the same account.
pub open spec fn distinct_principals(s: Seq<PaymentRecord>) -> int
    decreases s.len(),
{
    if s.len() == 0 {
        0
    } else {
        distinct_principals(s.drop_last()) + (if has_principal(s.drop_last(), s.last().principal) {
            0int
        } else {
            1int
        })
    }
}

/// Counts the distinct paying accounts in the log.
pub fn count_payment_users(payments: &Vec<PaymentRecord>) -> (r: usize)
    ensures
        r == distinct_principals(payments@),
{
    let ghost s0 = payments@;
    let n = payments.len();
    let mut count: usize = 0;
    let mut i: usize = 0;
    proof {
        assert(s0.take(0) =~= Seq::<PaymentRecord>::empty());
    }
    while i < n
        invariant
            s0 == payments@,
            n == s0.len(),
            i <= n,
            count <= i,
            count == distinct_principals(s0.take(i as int)),
        decreases n - i,
    {
        let p = payments[i];
        let mut seen = false;
        let mut j: usize = 0;
        while j < i
            invariant
                s0 == payments@,
                n == s0.len(),
                i < n,
                j <= i,
                p == s0[i as int],
                seen == has_principal(s0.take(j as int), p.principal),
            decreases i - j,
        {
            proof {
                assert(s0.take(j + 1) =~= s0.take(j as int).push(s0[j as int]));
                assert(forall|a: int|
                    0 <= a < j + 1 ==> s0.take(j + 1)[a] == s0[a]);
            }
            if payments[j].principal == p.principal {
                seen = true;
            }
            proof {
                if seen {
                    if s0[j as int].principal == p.principal {
                        assert(s0.take(j + 1)[j as int].principal == p.principal);
                        assert(has_principal(s0.take(j + 1), p.principal));
                    } else {
                        let w = choose|a: int|
                            0 <= a < s0.take(j as int).len() && (#[trigger] s0.take(j as int)[a]).principal
                                == p.principal;
                        assert(s0.take(j + 1)[w].principal == p.principal);
                        assert(has_principal(s0.take(j + 1), p.principal));
                    }
                } else {
                    assert(forall|a: int|
                        0 <= a < j + 1 ==> (#[trigger] s0.take(j + 1)[a]).principal != p.principal);
                }
            }
            j = j + 1;
        }
        proof {
            assert(s0.take(i + 1).drop_last() =~= s0.take(i as int));
            assert(s0.take(i + 1).last() == s0[i as int]);
        }
        if !seen {
            count = count + 1;
        }
        i = i + 1;
    }
    proof {
        assert(s0.take(n as int) =~= s0);
    }
    count
}

/// The records still alive at `now`: cleaning drops exactly those whose
/// expiry has passed.
pub open spec fn live_payments(s: Seq<PaymentRecord>, now: u64) -> Seq<PaymentRecord>
    decreases s.len(),
{
    if s.len() == 0 {
        s
    } else {
        let rest = live_payments(s.drop_first(), now);
        if s[0].expiry_time <= now {
            rest
        } else {
            seq![s[0]] + rest
        }
    }
}

proof fn lemma_live_payments_push(s: Seq<PaymentRecord>, p: PaymentRecord, now: u64)
    ensures
        live_payments(s.push(p), now) == live_payments(s, now) + (if p.expiry_time <= now {
            Seq::<PaymentRecord>::empty()
        } else {
            seq![p]
        }),
    decreases s.len(),
{
    if s.len() == 0 {
        assert(s.push(p)[0] == p);
        assert(s.push(p).drop_first() =~= Seq::<PaymentRecord>::empty());
        assert(live_payments(Seq::<PaymentRecord>::empty(), now) =~= Seq::<PaymentRecord>::empty());
        assert(live_payments(s.push(p), now) =~= live_payments(s, now) + (if p.expiry_time <= now {
            Seq::<PaymentRecord>::empty()
        } else {
            seq![p]
        }));
    } else {
        lemma_live_payments_push(s.drop_first(), p, now);
        assert(s.push(p)[0] == s[0]);
        assert(s.push(p).drop_first() =~= s.drop_first().push(p));
        assert(live_payments(s.push(p), now) =~= live_payments(s, now) + (if p.expiry_time <= now {
            Seq::<PaymentRecord>::empty()
        } else {
            seq![p]
        }));
    }
}

/// Sweeps expired records out of the log, keeping the order of the rest.
pub fn clean_expired_payments(payments: &mut Vec<PaymentRecord>, now: Timestamp)
    ensures
        final(payments)@ == live_payments(old(payments)@, now),
{
    let ghost s0 = payments@;
    let n = payments.len();
    let mut out: Vec<PaymentRecord> = Vec::new();
    let mut i: usize = 0;
    proof {
        assert(s0.take(0) =~= Seq::<PaymentRecord>::empty());
        assert(live_payments(Seq::<PaymentRecord>::empty(), now) =~= Seq::<PaymentRecord>::empty());
        assert(out@ =~= live_payments(s0.take(0), now));
    }
    while i < n
        invariant
            s0 == payments@,
            n == s0.len(),
            i <= n,
            out@ == live_payments(s0.take(i as int), now),
        decreases n - i,
    {
        let p = payments[i];
        proof {
            assert(s0.take(i + 1) =~= s0.take(i as int).push(s0[i as int]));
            lemma_live_payments_push(s0.take(i as int), s0[i as int], now);
        }
        if p.expiry_time > now {
            out.push(p);
            proof {
                assert(out@ =~= live_payments(s0.take(i + 1), now));
            }
        } else {
            proof {
                assert(live_payments(s0.take(i + 1), now) =~= live_payments(s0.take(i as int), now)
                    + Seq::<PaymentRecord>::empty());
                assert(out@ =~= live_payments(s0.take(i + 1), now));
            }
        }
        i = i + 1;
    }
    proof {
        assert(s0.take(n as int) =~= s0);
    }
    *payments = out;
}

/// A prefix's user aggregates stay within the whole log's: what keeps the
/// running sums inside their carriers.
proof fn lemma_user_prefix_bounds(s: Seq<PaymentRecord>, who: u64, i: int)
    requires
        payments_wf(s),
        0 <= i <= s.len(),
    ensures
        user_duration_sum(s.take(i), who) <= user_duration_sum(s, who),
        user_amount_sum(s.take(i), who) <= user_amount_sum(s, who),
        user_earliest_start(s.take(i), who) >= user_earliest_start(s, who),
    decreases s.len() - i,
{
    if i < s.len() {
        assert(s.take(i + 1) =~= s.take(i).push(s[i]));
        lemma_user_records_push(s.take(i), s[i], who);
        lemma_user_prefix_bounds(s, who, i + 1);
        assert(payments_wf(s.take(i + 1))) by {
            assert(forall|a: int| 0 <= a < i + 1 ==> s.take(i + 1)[a] == s[a]);
        }
        lemma_user_sums_bounds(s.take(i), who);
        lemma_user_sums_bounds(s.take(i + 1), who);
    } else {
        assert(s.take(i) =~= s);
        lemma_user_sums_bounds(s, who);
    }
}

/// The address-keyed analogue of [`lemma_user_prefix_bounds`].
proof fn lemma_addr_prefix_bounds(s: Seq<PaymentRecord>, addr: Seq<u8>, i: int)
    requires
        payments_wf(s),
        0 <= i <= s.len(),
    ensures
        addr_duration_sum(s.take(i), addr) <= addr_duration_sum(s, addr),
        addr_earliest_start(s.take(i), addr) >= addr_earliest_start(s, addr),
    decreases s.len() - i,
{
    if i < s.len() {
        assert(s.take(i + 1) =~= s.take(i).push(s[i]));
        lemma_addr_push(s.take(i), s[i], addr);
        lemma_addr_prefix_bounds(s, addr, i + 1);
        assert(payments_wf(s.take(i + 1))) by {
            assert(forall|a: int| 0 <= a < i + 1 ==> s.take(i + 1)[a] == s[a]);
        }
        lemma_addr_bounds(s.take(i), addr);
        lemma_addr_bounds(s.take(i + 1), addr);
    } else {
        assert(s.take(i) =~= s);
        lemma_addr_bounds(s, addr);
    }
}

} // verus!
