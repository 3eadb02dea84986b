use tipz::contract::Tipz;
use tipz::state::TIP_TTL_LEDGERS;
use tipz::types::{ContractError, Tip};

fn b(s: &str) -> Vec<u8> {
    s.as_bytes().to_vec()
}

fn addr(n: u32) -> Vec<u8> {
    let mut s = format!("GA{:054}", n);
    s.truncate(56);
    s.into_bytes()
}

fn with_creators() -> Tipz {
    let mut t = Tipz::new();
    t.register_profile(addr(1), b("alice"), b("Alice"), b(""), b(""), b("")).unwrap();
    t.register_profile(addr(2), b("bob"), b("Bob"), b(""), b(""), b("")).unwrap();
    t
}

#[test]
fn stored_tip_reads_back_until_ttl() {
    let mut t = Tipz::new();
    let id = t.store_tip(&addr(9), &addr(1), 50, b("thanks"), 1_700_000_000, 1000);
    assert_eq!(id, 0);
    assert_eq!(t.tip_count(), 1);
    let expected = Tip {
        id: 0,
        tipper: addr(9),
        creator: addr(1),
        amount: 50,
        message: b("thanks"),
        timestamp: 1_700_000_000,
    };
    assert_eq!(t.get_tip(0, 1000), Some(expected.clone()));
    assert_eq!(t.get_tip(0, 1000 + 120_960), Some(expected));
    assert_eq!(t.get_tip(0, 1000 + 120_961), None);
    assert_eq!(t.get_tip(1, 1000), None);
    assert_eq!(TIP_TTL_LEDGERS, 120_960);
}

#[test]
fn tip_ids_increase_by_one() {
    let mut t = Tipz::new();
    let a = t.store_tip(&addr(9), &addr(1), 1, b(""), 0, 5);
    let c = t.store_tip(&addr(9), &addr(2), 2, b(""), 0, 5);
    let d = t.store_tip(&addr(9), &addr(1), 3, b(""), 0, 5);
    assert_eq!((a, c, d), (0, 1, 2));
    assert_eq!(t.tip_count(), 3);
    assert_eq!(t.get_tip(1, 5).unwrap().amount, 2);
}

#[test]
fn ttl_saturates_near_the_last_ledger() {
    let mut t = Tipz::new();
    t.store_tip(&addr(9), &addr(1), 1, b(""), 0, u32::MAX - 10);
    assert!(t.get_tip(0, u32::MAX).is_some());
}

#[test]
fn recent_tips_newest_first_and_limited() {
    let mut t = Tipz::new();
    for i in 0..5i128 {
        t.store_tip(&addr(9), &addr(1), 10 + i, b(""), 0, 100);
        t.store_tip(&addr(9), &addr(2), 20 + i, b(""), 0, 100);
    }
    let r = t.get_recent_tips(&addr(1), 3, 100);
    let amounts: Vec<i128> = r.iter().map(|x| x.amount).collect();
    assert_eq!(amounts, vec![14, 13, 12]);
    let ids: Vec<u32> = r.iter().map(|x| x.id).collect();
    assert_eq!(ids, vec![8, 6, 4]);
    assert_eq!(t.get_recent_tips(&addr(1), 10, 100).len(), 5);
    assert_eq!(t.get_recent_tips(&addr(1), 0, 100).len(), 0);
    assert_eq!(t.get_recent_tips(&addr(3), 10, 100).len(), 0);
}

#[test]
fn recent_tips_skip_expired() {
    let mut t = Tipz::new();
    t.store_tip(&addr(9), &addr(1), 1, b(""), 0, 0);
    t.store_tip(&addr(9), &addr(1), 2, b(""), 0, 200_000);
    let r = t.get_recent_tips(&addr(1), 5, 200_000);
    assert_eq!(r.len(), 1);
    assert_eq!(r[0].amount, 2);
    assert_eq!(t.get_tip(0, 200_000), None);
}

#[test]
fn send_tip_credits_creator_and_stores_tip() {
    let mut t = with_creators();
    assert_eq!(t.send_tip(&addr(9), &addr(1), 500, &b("great stream"), 77, 10), Ok(()));
    let p = t.get_profile(&addr(1)).unwrap();
    assert_eq!(p.balance, 500);
    assert_eq!(p.total_tips_received, 500);
    assert_eq!(p.total_tips_count, 1);
    let other = t.get_profile(&addr(2)).unwrap();
    assert_eq!(other.balance, 0);
    assert_eq!(t.tips_volume(), 500);
    let tip = t.get_tip(0, 10).unwrap();
    assert_eq!(tip.tipper, addr(9));
    assert_eq!(tip.creator, addr(1));
    assert_eq!(tip.message, b("great stream"));
    assert_eq!(tip.timestamp, 77);

    assert_eq!(t.send_tip(&addr(2), &addr(1), 250, &b(""), 78, 11), Ok(()));
    let p = t.get_profile(&addr(1)).unwrap();
    assert_eq!(p.balance, 750);
    assert_eq!(p.total_tips_count, 2);
    assert_eq!(t.tips_volume(), 750);
    assert_eq!(t.tip_count(), 2);
}

#[test]
fn send_tip_errors() {
    let mut t = with_creators();
    assert_eq!(t.send_tip(&addr(9), &addr(5), 10, &b(""), 0, 0), Err(ContractError::NotRegistered));
    assert_eq!(t.send_tip(&addr(1), &addr(1), 10, &b(""), 0, 0), Err(ContractError::CannotTipSelf));
    assert_eq!(t.send_tip(&addr(9), &addr(1), 0, &b(""), 0, 0), Err(ContractError::InvalidAmount));
    assert_eq!(t.send_tip(&addr(9), &addr(1), -5, &b(""), 0, 0), Err(ContractError::InvalidAmount));
    let long = vec![b'x'; 281];
    assert_eq!(t.send_tip(&addr(9), &addr(1), 10, &long, 0, 0), Err(ContractError::MessageTooLong));
    let ok = vec![b'x'; 280];
    assert_eq!(t.send_tip(&addr(9), &addr(1), 10, &ok, 0, 0), Ok(()));
    // refusals changed nothing; the accepted tip is the only one
    assert_eq!(t.tip_count(), 1);
    assert_eq!(t.tips_volume(), 10);
}

#[test]
fn send_tip_check_order() {
    let mut t = with_creators();
    // unregistered creator reported before self-tip, amount and message
    assert_eq!(t.send_tip(&addr(5), &addr(5), 0, &vec![0u8; 300], 0, 0), Err(ContractError::NotRegistered));
    // self-tip reported before the amount
    assert_eq!(t.send_tip(&addr(1), &addr(1), 0, &b(""), 0, 0), Err(ContractError::CannotTipSelf));
    // the amount reported before the message
    assert_eq!(t.send_tip(&addr(9), &addr(1), 0, &vec![0u8; 300], 0, 0), Err(ContractError::InvalidAmount));
}

#[test]
fn volume_equals_sum_received() {
    let mut t = with_creators();
    t.send_tip(&addr(9), &addr(1), 3, &b(""), 0, 0).unwrap();
    t.send_tip(&addr(9), &addr(2), 4, &b(""), 0, 0).unwrap();
    t.send_tip(&addr(1), &addr(2), 5, &b(""), 0, 0).unwrap();
    let sum = t.get_profile(&addr(1)).unwrap().total_tips_received
        + t.get_profile(&addr(2)).unwrap().total_tips_received;
    assert_eq!(t.tips_volume(), sum);
    assert_eq!(sum, 12);
}
