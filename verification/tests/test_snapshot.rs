use tipz::contract::{StoredTip, Tipz};
use tipz::types::{Profile, Tip};

fn b(s: &str) -> Vec<u8> {
    s.as_bytes().to_vec()
}

fn addr(n: u32) -> Vec<u8> {
    let mut s = format!("GA{:054}", n);
    s.truncate(56);
    s.into_bytes()
}

fn profile(owner: u32, username: &str) -> Profile {
    Profile {
        owner: addr(owner),
        username: b(username),
        display_name: b("Name"),
        bio: b(""),
        image_url: b(""),
        x_handle: b(""),
        balance: 0,
        total_tips_received: 0,
        total_tips_count: 0,
        credit_score: 40,
    }
}

fn stored(id: u32) -> StoredTip {
    StoredTip {
        tip: Tip { id, tipper: addr(9), creator: addr(1), amount: 5, message: b(""), timestamp: 0 },
        live_until: 100,
    }
}

#[test]
fn export_then_restore_gives_the_same_state() {
    let mut t = Tipz::new();
    t.register_profile(addr(1), b("alice"), b("Alice"), b(""), b(""), b("")).unwrap();
    t.register_profile(addr(2), b("bob"), b("Bob"), b(""), b(""), b("")).unwrap();
    t.send_tip(&addr(9), &addr(1), 7, &b("hi"), 3, 50).unwrap();
    t.store_tip(&addr(9), &addr(2), 1, b(""), 4, 60);

    let profiles = t.export_profiles();
    let tips = t.export_tips();
    assert_eq!(profiles.len(), 2);
    assert_eq!(tips.iter().map(|e| e.tip.id).collect::<Vec<u32>>(), vec![0, 1]);

    let r = Tipz::restore(profiles.clone(), tips, t.tip_count(), t.tips_volume()).unwrap();
    assert_eq!(r.export_profiles(), profiles);
    assert_eq!(r.tip_count(), 2);
    assert_eq!(r.tips_volume(), 7);
    assert_eq!(r.get_tip(0, 50), t.get_tip(0, 50));
    assert_eq!(r.get_profile(&addr(1)), t.get_profile(&addr(1)));
}

#[test]
fn restore_refuses_duplicate_owner() {
    let ps = vec![profile(1, "alice"), profile(1, "bob")];
    assert!(Tipz::restore(ps, vec![], 0, 0).is_none());
}

#[test]
fn restore_refuses_duplicate_username() {
    let ps = vec![profile(1, "alice"), profile(2, "alice")];
    assert!(Tipz::restore(ps, vec![], 0, 0).is_none());
}

#[test]
fn restore_refuses_bad_username() {
    let ps = vec![profile(1, "Alice")];
    assert!(Tipz::restore(ps, vec![], 0, 0).is_none());
}

#[test]
fn restore_refuses_duplicate_or_out_of_range_tip_ids() {
    assert!(Tipz::restore(vec![], vec![stored(0), stored(0)], 2, 0).is_none());
    assert!(Tipz::restore(vec![], vec![stored(3)], 3, 0).is_none());
    assert!(Tipz::restore(vec![], vec![stored(u32::MAX)], u32::MAX, 0).is_some());
    let t = Tipz::restore(vec![], vec![stored(2), stored(0)], 3, 0).unwrap();
    assert!(t.get_tip(1, 0).is_none());
    assert_eq!(t.get_tip(2, 100).unwrap().id, 2);
    assert!(t.get_tip(2, 101).is_none());
}

#[test]
fn counter_stops_at_its_limit() {
    let mut t = Tipz::restore(vec![], vec![], u32::MAX, 0).unwrap();
    let a = t.store_tip(&addr(9), &addr(1), 1, b(""), 0, 0);
    let c = t.store_tip(&addr(9), &addr(1), 2, b(""), 0, 0);
    assert_eq!((a, c), (u32::MAX, u32::MAX));
    assert_eq!(t.tip_count(), u32::MAX);
    assert_eq!(t.get_tip(u32::MAX, 0).unwrap().amount, 2);
}
