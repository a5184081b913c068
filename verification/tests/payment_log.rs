use satslinker::payments::{
    PaymentRecord, clean_expired_payments, count_payment_users, get_payment_stats,
    get_payments_by_eth_address, get_payments_by_principal, push_payment,
};

fn rec(principal: u64, amount: u128, create: u64, expiry: u64, eth: u8) -> PaymentRecord {
    PaymentRecord {
        principal,
        amount,
        expiry_time: expiry,
        eth_address: [eth; 20],
        canister_id: 1,
        payment_create: create,
    }
}

#[test]
fn log_is_capped_at_a_thousand() {
    let mut log = Vec::new();
    let mut i = 0u64;
    while i < 1000 {
        assert!(push_payment(&mut log, rec(i, 1, 0, 10, 0)));
        i += 1;
    }
    assert!(!push_payment(&mut log, rec(1000, 1, 0, 10, 0)));
    assert_eq!(log.len(), 1000);
}

#[test]
fn stats_merge_durations_from_earliest_start() {
    let mut log = Vec::new();
    push_payment(&mut log, rec(1, 100, 50, 60, 0)); // 10 of duration
    push_payment(&mut log, rec(2, 999, 0, 5, 0)); // someone else
    push_payment(&mut log, rec(1, 200, 20, 45, 0)); // 25 of duration, earlier start
    let stats = get_payment_stats(&log, 1);
    assert_eq!(stats.user_payments.len(), 2);
    assert_eq!(stats.user_total_amount, 300);
    // earliest start 20, durations 10 + 25
    assert_eq!(stats.user_vip_expiry, 55);
    // a caller with no records gets the zero expiry
    let empty = get_payment_stats(&log, 9);
    assert_eq!(empty.user_vip_expiry, 0);
    assert_eq!(empty.user_total_amount, 0);
}

#[test]
fn expiry_by_eth_address() {
    let mut log = Vec::new();
    push_payment(&mut log, rec(1, 1, 50, 60, 7));
    push_payment(&mut log, rec(2, 1, 20, 45, 7));
    push_payment(&mut log, rec(3, 1, 0, 100, 8));
    assert_eq!(get_payments_by_eth_address(&log, &[7u8; 20]), 55);
    assert_eq!(get_payments_by_eth_address(&log, &[9u8; 20]), 0);
}

#[test]
fn records_by_principal() {
    let mut log = Vec::new();
    push_payment(&mut log, rec(1, 10, 0, 1, 0));
    push_payment(&mut log, rec(2, 20, 0, 1, 0));
    push_payment(&mut log, rec(1, 30, 0, 1, 0));
    let r = get_payments_by_principal(&log, 1);
    assert_eq!(r.len(), 2);
    assert_eq!(r[0].amount, 10);
    assert_eq!(r[1].amount, 30);
}

#[test]
fn distinct_payment_users() {
    let mut log = Vec::new();
    assert_eq!(count_payment_users(&log), 0);
    push_payment(&mut log, rec(1, 1, 0, 1, 0));
    push_payment(&mut log, rec(2, 1, 0, 1, 0));
    push_payment(&mut log, rec(1, 1, 0, 1, 0));
    push_payment(&mut log, rec(3, 1, 0, 1, 0));
    assert_eq!(count_payment_users(&log), 3);
}

#[test]
fn cleaning_drops_exactly_the_expired() {
    let mut log = Vec::new();
    push_payment(&mut log, rec(1, 1, 0, 10, 0));
    push_payment(&mut log, rec(2, 1, 0, 50, 0));
    push_payment(&mut log, rec(3, 1, 0, 30, 0));
    clean_expired_payments(&mut log, 30);
    assert_eq!(log.len(), 1);
    assert_eq!(log[0].principal, 2);
}
