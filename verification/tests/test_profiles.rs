use tipz::contract::Tipz;
use tipz::types::{ContractError, Profile};

fn b(s: &str) -> Vec<u8> {
    s.as_bytes().to_vec()
}

/// A distinct account strkey for each `n`.
fn addr(n: u32) -> Vec<u8> {
    let mut s = format!("GA{:054}", n);
    s.truncate(56);
    s.into_bytes()
}

fn setup() -> Tipz {
    Tipz::new()
}

fn register(t: &mut Tipz, caller: &Vec<u8>, username: &str) -> Profile {
    t.register_profile(
        caller.clone(),
        b(username),
        b("Display Name"),
        b("A short bio."),
        b("https://example.com/avatar.png"),
        b("handle"),
    )
    .unwrap()
}

fn try_register(t: &mut Tipz, caller: &Vec<u8>, username: &str, display_name: &str) -> Result<Profile, ContractError> {
    t.register_profile(caller.clone(), b(username), b(display_name), b(""), b(""), b(""))
}

#[test]
fn test_register_success() {
    let mut t = setup();
    let caller = addr(1);

    let username = b("alice");
    let display_name = b("Alice Smith");
    let bio = b("Hello, I make content!");
    let image_url = b("https://example.com/avatar.png");
    let x_handle = b("alice_x");

    let profile = t
        .register_profile(
            caller.clone(),
            username.clone(),
            display_name.clone(),
            bio.clone(),
            image_url.clone(),
            x_handle.clone(),
        )
        .unwrap();

    assert_eq!(profile.owner, caller);
    assert_eq!(profile.username, username);
    assert_eq!(profile.display_name, display_name);
    assert_eq!(profile.bio, bio);
    assert_eq!(profile.image_url, image_url);
    assert_eq!(profile.x_handle, x_handle);
    assert_eq!(profile.balance, 0);
    assert_eq!(profile.total_tips_received, 0);
    assert_eq!(profile.total_tips_count, 0);
}

#[test]
fn test_register_duplicate_address() {
    let mut t = setup();
    let caller = addr(1);

    register(&mut t, &caller, "alice");

    let result = try_register(&mut t, &caller, "alice2", "Alice");
    assert_eq!(result, Err(ContractError::AlreadyRegistered));
}

#[test]
fn test_register_duplicate_username() {
    let mut t = setup();
    let caller1 = addr(1);
    let caller2 = addr(2);

    register(&mut t, &caller1, "alice");

    let result = try_register(&mut t, &caller2, "alice", "Alice");
    assert_eq!(result, Err(ContractError::UsernameTaken));
}

#[test]
fn test_register_invalid_username_too_short() {
    let mut t = setup();
    let caller = addr(1);
    let result = try_register(&mut t, &caller, "ab", "Alice");
    assert_eq!(result, Err(ContractError::InvalidUsername));
}

#[test]
fn test_register_invalid_username_too_long() {
    let mut t = setup();
    let caller = addr(1);
    let result = try_register(&mut t, &caller, "abcdefghijklmnopqrstuvwxyz1234567", "Alice");
    assert_eq!(result, Err(ContractError::InvalidUsername));
}

#[test]
fn test_register_invalid_username_starts_digit() {
    let mut t = setup();
    let caller = addr(1);
    let result = try_register(&mut t, &caller, "1abc", "Alice");
    assert_eq!(result, Err(ContractError::InvalidUsername));
}

#[test]
fn test_register_invalid_username_uppercase() {
    let mut t = setup();
    let caller = addr(1);
    let result = try_register(&mut t, &caller, "Hello", "Hello");
    assert_eq!(result, Err(ContractError::InvalidUsername));
}

#[test]
fn test_register_invalid_username_special_chars() {
    let mut t = setup();
    let caller = addr(1);
    let result = try_register(&mut t, &caller, "ab@cd", "Alice");
    assert_eq!(result, Err(ContractError::InvalidUsername));
}

#[test]
fn test_register_empty_display_name() {
    let mut t = setup();
    let caller = addr(1);
    let result = try_register(&mut t, &caller, "alice", "");
    assert_eq!(result, Err(ContractError::InvalidDisplayName));
}

#[test]
fn test_register_bio_too_long() {
    let mut t = setup();
    let caller = addr(1);
    let result = t.register_profile(
        caller.clone(),
        b("alice"),
        b("Alice"),
        b("aaaaaaaaaaaaaaaaaaaaaaaaaaaaaaaaaaaaaaaaaaaaaaaaaa\
           aaaaaaaaaaaaaaaaaaaaaaaaaaaaaaaaaaaaaaaaaaaaaaaaaa\
           aaaaaaaaaaaaaaaaaaaaaaaaaaaaaaaaaaaaaaaaaaaaaaaaaa\
           aaaaaaaaaaaaaaaaaaaaaaaaaaaaaaaaaaaaaaaaaaaaaaaaaa\
           aaaaaaaaaaaaaaaaaaaaaaaaaaaaaaaaaaaaaaaaaaaaaaaaaa\
           aaaaaaaaaaaaaaaaaaaaaaaaaaaaaaaaaaaaaaaaaaaaaaaaaa\
           a"),
        b(""),
        b(""),
    );
    assert_eq!(result, Err(ContractError::MessageTooLong));
}

#[test]
fn test_register_credit_score_starts_at_40() {
    let mut t = setup();
    let caller = addr(1);
    let profile = register(&mut t, &caller, "alice");
    assert_eq!(profile.credit_score, 40);
}

#[test]
fn test_register_increments_total_creators() {
    let mut t = setup();

    let caller1 = addr(1);
    let caller2 = addr(2);
    let caller3 = addr(3);

    register(&mut t, &caller1, "alice");
    register(&mut t, &caller2, "bob");
    register(&mut t, &caller3, "carol");
    assert_eq!(t.total_creators(), 3);

    let caller4 = addr(4);
    let p4 = register(&mut t, &caller4, "dave");
    assert_eq!(p4.username, b("dave"));
    assert_eq!(t.total_creators(), 4);

    let dup = try_register(&mut t, &caller1, "alice2", "Alice");
    assert_eq!(dup, Err(ContractError::AlreadyRegistered));
    assert_eq!(t.total_creators(), 4);
}

// ── further cases ────────────────────────────────────────────────────────────

#[test]
fn username_length_limits_are_inclusive() {
    let mut t = setup();
    assert!(try_register(&mut t, &addr(1), "abc", "A").is_ok());
    assert!(try_register(&mut t, &addr(2), "abcdefghijklmnopqrstuvwxyz123456", "A").is_ok());
    assert_eq!(
        try_register(&mut t, &addr(3), "", "A"),
        Err(ContractError::InvalidUsername)
    );
}

#[test]
fn username_may_hold_digits_and_underscores() {
    let mut t = setup();
    assert!(try_register(&mut t, &addr(1), "a_1_b", "A").is_ok());
    assert!(try_register(&mut t, &addr(2), "_under", "A").is_ok());
    assert_eq!(
        try_register(&mut t, &addr(3), "with space", "A"),
        Err(ContractError::InvalidUsername)
    );
}

#[test]
fn bio_of_exactly_the_limit_is_accepted() {
    let mut t = setup();
    let bio = vec![b'a'; 280];
    let r = t.register_profile(addr(1), b("alice"), b("Alice"), bio.clone(), b(""), b(""));
    assert_eq!(r.unwrap().bio, bio);
}

#[test]
fn refused_registration_changes_nothing() {
    let mut t = setup();
    register(&mut t, &addr(1), "alice");
    let _ = try_register(&mut t, &addr(2), "alice", "Alice");
    assert_eq!(t.total_creators(), 1);
    assert!(!t.has_profile(&addr(2)));
    assert!(t.get_profile(&addr(2)).is_none());
}

#[test]
fn registered_profile_reads_back() {
    let mut t = setup();
    let p = register(&mut t, &addr(7), "grace");
    assert!(t.has_profile(&addr(7)));
    assert!(t.is_username_taken(&b("grace")));
    assert!(!t.is_username_taken(&b("henry")));
    assert_eq!(t.get_profile(&addr(7)), Some(p));
}

#[test]
fn check_order_already_registered_before_username_rules() {
    let mut t = setup();
    register(&mut t, &addr(1), "alice");
    // invalid username and registered caller: the caller check comes first
    assert_eq!(
        try_register(&mut t, &addr(1), "X", ""),
        Err(ContractError::AlreadyRegistered)
    );
    // taken username and empty display name: the username check comes first
    assert_eq!(
        try_register(&mut t, &addr(2), "alice", ""),
        Err(ContractError::UsernameTaken)
    );
}
