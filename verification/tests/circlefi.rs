use circlefi::address::Addr;
use circlefi::circlefi::{
    Circle, CirclefiContract, ErrorCode, Ledger, Member, MemberStatus, PayoutOrder, Round,
};

/// The XDR of an account address whose key ends in `tag`.
fn account(tag: u8) -> Addr {
    let mut bytes = vec![0u8, 0, 0, 18, 0, 0, 0, 0, 0, 0, 0, 0];
    let mut key = vec![7u8; 31];
    key.push(tag);
    bytes.extend(key);
    Addr::from_xdr(bytes)
}

/// The XDR of a contract address whose hash ends in `tag`.
fn contract_address(tag: u8) -> Addr {
    let mut bytes = vec![0u8, 0, 0, 18, 0, 0, 0, 1];
    let mut hash = vec![9u8; 31];
    hash.push(tag);
    bytes.extend(hash);
    Addr::from_xdr(bytes)
}

fn ledger_at(timestamp: u64) -> Ledger {
    Ledger { timestamp, contract: contract_address(0) }
}

fn same(a: &Addr, b: &Addr) -> bool {
    a.same(b)
}

fn standard_circle(c: &mut CirclefiContract, env: &Ledger, owner: &Addr) -> Result<Addr, ErrorCode> {
    c.create_circle(
        env,
        owner.duplicate(),
        b"Test Circle".to_vec(),
        1000,
        30,
        PayoutOrder::Fixed,
        20,
        24,
        10,
        50,
    )
}

fn bid_circle(c: &mut CirclefiContract, env: &Ledger, owner: &Addr, max_members: u32) {
    c.create_circle(
        env,
        owner.duplicate(),
        b"Bid Circle".to_vec(),
        1000,
        30,
        PayoutOrder::Bid,
        20,
        24,
        max_members,
        50,
    )
    .unwrap();
}

fn member_of(c: &CirclefiContract, owner: &Addr, member: &Addr) -> Member {
    c.get_member(owner.duplicate(), member.duplicate()).unwrap()
}

fn circle_of(c: &CirclefiContract, owner: &Addr) -> Circle {
    c.get_circle(owner.duplicate()).unwrap()
}

fn round_of(c: &CirclefiContract, owner: &Addr, id: u32) -> Round {
    c.get_round(owner.duplicate(), id).unwrap()
}

#[test]
fn test_create_circle() {
    let env = ledger_at(0);
    let mut contract = CirclefiContract::new();
    let owner = account(1);

    let result = contract.create_circle(
        &env,
        owner.duplicate(),
        b"Test Circle".to_vec(),
        1000,
        30,
        PayoutOrder::Fixed,
        20,
        24,
        10,
        50,
    );

    assert!(result.is_ok());
}

#[test]
fn test_create_circle_invalid_amount() {
    let env = ledger_at(0);
    let mut contract = CirclefiContract::new();
    let owner = account(1);

    let result = contract.create_circle(
        &env,
        owner.duplicate(),
        b"Test Circle".to_vec(),
        -100,
        30,
        PayoutOrder::Fixed,
        20,
        24,
        10,
        50,
    );

    assert!(result.is_err());
}

#[test]
fn test_join_circle() {
    let env = ledger_at(0);
    let mut contract = CirclefiContract::new();
    let owner = account(1);
    let member = account(2);

    let _ = standard_circle(&mut contract, &env, &owner);

    let result = contract.join_circle(&env, owner.duplicate(), member.duplicate());

    assert!(result.is_ok());
}

#[test]
fn test_contribute() {
    let env = ledger_at(0);
    let mut contract = CirclefiContract::new();
    let owner = account(1);
    let member = account(2);

    let _ = standard_circle(&mut contract, &env, &owner);
    let _ = contract.join_circle(&env, owner.duplicate(), member.duplicate());

    let result = contract.contribute(&env, owner.duplicate(), member.duplicate(), 1000);

    assert!(result.is_ok());
}

#[test]
fn test_contribute_wrong_amount() {
    let env = ledger_at(0);
    let mut contract = CirclefiContract::new();
    let owner = account(1);
    let member = account(2);

    let _ = standard_circle(&mut contract, &env, &owner);
    let _ = contract.join_circle(&env, owner.duplicate(), member.duplicate());

    let result = contract.contribute(&env, owner.duplicate(), member.duplicate(), 500);

    assert!(result.is_err());
}

#[test]
fn created_circle_reads_back_with_owner_as_first_member() {
    let env = ledger_at(1_700_000_000);
    let mut contract = CirclefiContract::new();
    let owner = account(1);
    let returned = standard_circle(&mut contract, &env, &owner).unwrap();
    assert!(same(&returned, &owner));

    let c = circle_of(&contract, &owner);
    assert!(same(&c.owner, &owner));
    assert_eq!(c.name, b"Test Circle".to_vec());
    assert_eq!(c.contribution_amount, 1000);
    assert_eq!(c.cycle_duration_days, 30);
    assert_eq!(c.payout_order, PayoutOrder::Fixed);
    assert_eq!(c.collateral_percentage, 20);
    assert_eq!(c.dispute_window_hours, 24);
    assert_eq!(c.current_round, 0);
    assert!(c.is_active);
    assert_eq!(c.created_at, 1_700_000_000);
    assert_eq!(c.member_count, 1);
    assert_eq!(c.max_members, 10);
    assert_eq!(c.total_volume, 0);
    assert_eq!(c.min_trust_score, 50);

    let m = member_of(&contract, &owner, &owner);
    assert_eq!(m.trust_score, 100);
    assert_eq!(m.status, MemberStatus::Active);
    assert_eq!(m.joined_at, 1_700_000_000);
    assert_eq!(m.contributions_made, 0);
    assert_eq!(m.total_contributed, 0);
}

#[test]
fn create_circle_refuses_each_bad_term() {
    let env = ledger_at(0);
    let mut contract = CirclefiContract::new();
    let owner = account(1);
    let cases: [(i128, u32, u32, u32, u32, u32, ErrorCode); 10] = [
        (0, 30, 20, 24, 10, 50, ErrorCode::InvalidAmount),
        (1000, 0, 20, 24, 10, 50, ErrorCode::InvalidParameters),
        (1000, 366, 20, 24, 10, 50, ErrorCode::InvalidParameters),
        (1000, 30, 101, 24, 10, 50, ErrorCode::InvalidParameters),
        (1000, 30, 20, 0, 10, 50, ErrorCode::InvalidParameters),
        (1000, 30, 20, 721, 10, 50, ErrorCode::InvalidParameters),
        (1000, 30, 20, 24, 0, 50, ErrorCode::InvalidParameters),
        (1000, 30, 20, 24, 101, 50, ErrorCode::InvalidParameters),
        (1000, 30, 20, 24, 10, 101, ErrorCode::InvalidParameters),
        (-5, 0, 101, 0, 0, 101, ErrorCode::InvalidAmount),
    ];
    for (amount, days, pct, hours, max, min, expected) in cases {
        let r = contract.create_circle(
            &env,
            owner.duplicate(),
            b"x".to_vec(),
            amount,
            days,
            PayoutOrder::Fixed,
            pct,
            hours,
            max,
            min,
        );
        assert_eq!(r.unwrap_err(), expected);
    }
    assert_eq!(
        contract.get_circle(owner.duplicate()).unwrap_err(),
        ErrorCode::CircleNotFound,
        "nothing was stored"
    );
    let edge = contract.create_circle(
        &env,
        owner.duplicate(),
        b"edge".to_vec(),
        1,
        365,
        PayoutOrder::Bid,
        100,
        720,
        100,
        100,
    );
    assert!(edge.is_ok());
}

#[test]
fn join_counts_members_and_refuses_a_second_join() {
    let env = ledger_at(5);
    let mut contract = CirclefiContract::new();
    let owner = account(1);
    let member = account(2);
    standard_circle(&mut contract, &env, &owner).unwrap();
    contract.join_circle(&env, owner.duplicate(), member.duplicate()).unwrap();
    assert_eq!(circle_of(&contract, &owner).member_count, 2);
    let m = member_of(&contract, &owner, &member);
    assert_eq!(m.trust_score, 100);
    assert_eq!(m.joined_at, 5);
    assert!(same(&m.address, &member));
    assert_eq!(
        contract.join_circle(&env, owner.duplicate(), member.duplicate()),
        Err(ErrorCode::MemberAlreadyJoined)
    );
    assert_eq!(
        contract.join_circle(&env, owner.duplicate(), owner.duplicate()),
        Err(ErrorCode::MemberAlreadyJoined)
    );
    assert_eq!(circle_of(&contract, &owner).member_count, 2);
}

#[test]
fn join_refuses_missing_inactive_and_full_circles() {
    let env = ledger_at(0);
    let mut contract = CirclefiContract::new();
    let owner = account(1);
    assert_eq!(
        contract.join_circle(&env, owner.duplicate(), account(2)),
        Err(ErrorCode::CircleNotFound)
    );
    contract
        .create_circle(&env, owner.duplicate(), b"two".to_vec(), 10, 1, PayoutOrder::Fixed, 0, 1, 2, 0)
        .unwrap();
    contract.join_circle(&env, owner.duplicate(), account(2)).unwrap();
    assert_eq!(
        contract.join_circle(&env, owner.duplicate(), account(3)),
        Err(ErrorCode::MaxMembersReached)
    );
    assert_eq!(
        contract.join_circle(&env, owner.duplicate(), account(2)),
        Err(ErrorCode::MaxMembersReached)
    );
    contract.deactivate_circle(owner.duplicate()).unwrap();
    assert!(!circle_of(&contract, &owner).is_active);
    assert_eq!(
        contract.join_circle(&env, owner.duplicate(), account(3)),
        Err(ErrorCode::CircleNotActive)
    );
    assert_eq!(contract.deactivate_circle(account(9)), Err(ErrorCode::CircleNotFound));
}

#[test]
fn contribution_opens_the_round_and_fills_its_pot() {
    let mut contract = CirclefiContract::new();
    let owner = account(1);
    let member = account(2);
    standard_circle(&mut contract, &ledger_at(0), &owner).unwrap();
    contract.join_circle(&ledger_at(0), owner.duplicate(), member.duplicate()).unwrap();

    let env = ledger_at(1000);
    contract.contribute(&env, owner.duplicate(), member.duplicate(), 1000).unwrap();
    let r = round_of(&contract, &owner, 0);
    assert!(same(&r.circle, &owner));
    assert_eq!(r.round_id, 0);
    assert_eq!(r.start_time, 1000);
    assert_eq!(r.end_time, 1000 + 30 * 86400);
    assert_eq!(r.total_pot, 1000);
    assert!(same(&r.payout_recipient, &member));
    assert_eq!(r.highest_bid, 0);
    assert_eq!(r.contributions_received, 1);
    assert_eq!(r.member_count, 2);
    assert!(!r.disputed);
    assert!(same(&r.dispute_resolver, &contract_address(0)));
    assert!(!r.is_finalized);

    contract.contribute(&ledger_at(2000), owner.duplicate(), owner.duplicate(), 1000).unwrap();
    let r = round_of(&contract, &owner, 0);
    assert_eq!(r.total_pot, 2000);
    assert_eq!(r.contributions_received, 2);
    assert_eq!(r.start_time, 1000, "the open round keeps its start");
    assert!(same(&r.payout_recipient, &member));

    let m = member_of(&contract, &owner, &member);
    assert_eq!(m.contributions_made, 1);
    assert_eq!(m.last_contribution, 1000);
    assert_eq!(m.total_contributed, 1000);
}

#[test]
fn contribute_refuses_each_failure() {
    let env = ledger_at(0);
    let mut contract = CirclefiContract::new();
    let owner = account(1);
    let member = account(2);
    assert_eq!(
        contract.contribute(&env, owner.duplicate(), member.duplicate(), 1000),
        Err(ErrorCode::CircleNotFound)
    );
    standard_circle(&mut contract, &env, &owner).unwrap();
    assert_eq!(
        contract.contribute(&env, owner.duplicate(), member.duplicate(), 999),
        Err(ErrorCode::InvalidAmount)
    );
    assert_eq!(
        contract.contribute(&env, owner.duplicate(), member.duplicate(), 1000),
        Err(ErrorCode::MemberNotFound)
    );
    contract.join_circle(&env, owner.duplicate(), member.duplicate()).unwrap();
    contract.trigger_default(owner.duplicate(), member.duplicate()).unwrap();
    assert_eq!(
        contract.contribute(&env, owner.duplicate(), member.duplicate(), 1000),
        Err(ErrorCode::UnauthorizedAccess)
    );
    assert_eq!(
        contract.get_round(owner.duplicate(), 0).unwrap_err(),
        ErrorCode::RoundNotFound,
        "refused contributions open no round"
    );
    contract.deactivate_circle(owner.duplicate()).unwrap();
    assert_eq!(
        contract.contribute(&env, owner.duplicate(), owner.duplicate(), 1000),
        Err(ErrorCode::CircleNotActive)
    );
}

#[test]
fn bids_raise_the_highest_bid_only() {
    let env = ledger_at(0);
    let mut contract = CirclefiContract::new();
    let owner = account(1);
    let (a, b) = (account(2), account(3));
    assert_eq!(
        contract.place_bid(owner.duplicate(), a.duplicate(), 10),
        Err(ErrorCode::CircleNotFound)
    );
    bid_circle(&mut contract, &env, &owner, 5);
    assert_eq!(
        contract.place_bid(owner.duplicate(), a.duplicate(), 0),
        Err(ErrorCode::InvalidAmount)
    );
    assert_eq!(
        contract.place_bid(owner.duplicate(), a.duplicate(), 10),
        Err(ErrorCode::RoundNotFound)
    );
    contract.contribute(&env, owner.duplicate(), owner.duplicate(), 1000).unwrap();
    contract.place_bid(owner.duplicate(), a.duplicate(), 50).unwrap();
    let r = round_of(&contract, &owner, 0);
    assert_eq!(r.highest_bid, 50);
    assert!(same(&r.payout_recipient, &a));
    contract.place_bid(owner.duplicate(), b.duplicate(), 50).unwrap();
    contract.place_bid(owner.duplicate(), b.duplicate(), 20).unwrap();
    let r = round_of(&contract, &owner, 0);
    assert_eq!(r.highest_bid, 50, "an equal or lower bid changes nothing");
    assert!(same(&r.payout_recipient, &a));
    contract.place_bid(owner.duplicate(), b.duplicate(), 51).unwrap();
    let r = round_of(&contract, &owner, 0);
    assert_eq!(r.highest_bid, 51);
    assert!(same(&r.payout_recipient, &b));
}

#[test]
fn fixed_order_circles_take_no_bids() {
    let env = ledger_at(0);
    let mut contract = CirclefiContract::new();
    let owner = account(1);
    standard_circle(&mut contract, &env, &owner).unwrap();
    assert_eq!(
        contract.place_bid(owner.duplicate(), owner.duplicate(), 10),
        Err(ErrorCode::InvalidPayoutOrder)
    );
}

#[test]
fn defaults_lock_collateral_and_wear_down_trust() {
    let env = ledger_at(0);
    let mut contract = CirclefiContract::new();
    let owner = account(1);
    let member = account(2);
    assert_eq!(
        contract.trigger_default(owner.duplicate(), member.duplicate()),
        Err(ErrorCode::CircleNotFound)
    );
    standard_circle(&mut contract, &env, &owner).unwrap();
    assert_eq!(
        contract.trigger_default(owner.duplicate(), member.duplicate()),
        Err(ErrorCode::MemberNotFound)
    );
    contract.join_circle(&env, owner.duplicate(), member.duplicate()).unwrap();

    // 100 - 15 = 85, then 85 - 30 = 55, then 55 - 45 = 10, then 60 >= 10.
    let expected: [(u32, u32, MemberStatus); 4] = [
        (1, 85, MemberStatus::Defaulted),
        (2, 55, MemberStatus::Defaulted),
        (3, 10, MemberStatus::Defaulted),
        (4, 0, MemberStatus::Suspended),
    ];
    for (defaults, trust, status) in expected {
        contract.trigger_default(owner.duplicate(), member.duplicate()).unwrap();
        let m = member_of(&contract, &owner, &member);
        assert_eq!(m.default_count, defaults);
        assert_eq!(m.trust_score, trust);
        assert_eq!(m.status, status);
        assert_eq!(m.collateral_locked, 1000 * 20 / 100);
    }
}

#[test]
fn collateral_is_the_percentage_of_a_contribution_rounded_down() {
    let env = ledger_at(0);
    let mut contract = CirclefiContract::new();
    let owner = account(1);
    contract
        .create_circle(&env, owner.duplicate(), b"c".to_vec(), 999, 7, PayoutOrder::Fixed, 33, 12, 4, 0)
        .unwrap();
    contract.trigger_default(owner.duplicate(), owner.duplicate()).unwrap();
    assert_eq!(member_of(&contract, &owner, &owner).collateral_locked, 329);
}

#[test]
fn a_round_ends_only_after_its_end_time() {
    let mut contract = CirclefiContract::new();
    let owner = account(1);
    assert_eq!(contract.end_round(&ledger_at(0), owner.duplicate()), Err(ErrorCode::CircleNotFound));
    standard_circle(&mut contract, &ledger_at(0), &owner).unwrap();
    assert_eq!(contract.end_round(&ledger_at(0), owner.duplicate()), Err(ErrorCode::RoundNotFound));
    contract.contribute(&ledger_at(100), owner.duplicate(), owner.duplicate(), 1000).unwrap();
    let end: u64 = 100 + 30 * 86400;
    assert_eq!(
        contract.end_round(&ledger_at(end - 1), owner.duplicate()),
        Err(ErrorCode::RoundNotEnded)
    );
    contract.end_round(&ledger_at(end), owner.duplicate()).unwrap();
    let c = circle_of(&contract, &owner);
    assert_eq!(c.current_round, 1);
    assert_eq!(c.total_volume, 1000);
    assert!(round_of(&contract, &owner, 0).is_finalized);
    assert_eq!(contract.end_round(&ledger_at(end), owner.duplicate()), Err(ErrorCode::RoundNotFound));
}

#[test]
fn finalizing_pays_once_and_trust_never_passes_full() {
    let env = ledger_at(0);
    let mut contract = CirclefiContract::new();
    let owner = account(1);
    let member = account(2);
    assert_eq!(
        contract.finalize_round(owner.duplicate(), 0, member.duplicate()),
        Err(ErrorCode::CircleNotFound)
    );
    standard_circle(&mut contract, &env, &owner).unwrap();
    assert_eq!(
        contract.finalize_round(owner.duplicate(), 0, member.duplicate()),
        Err(ErrorCode::RoundNotFound)
    );
    contract.join_circle(&env, owner.duplicate(), member.duplicate()).unwrap();
    contract.contribute(&env, owner.duplicate(), member.duplicate(), 1000).unwrap();
    assert_eq!(
        contract.finalize_round(owner.duplicate(), 0, account(3)),
        Err(ErrorCode::MemberNotFound)
    );
    assert!(!round_of(&contract, &owner, 0).is_finalized, "a refused finalize changes nothing");

    contract.trigger_default(owner.duplicate(), member.duplicate()).unwrap();
    assert_eq!(member_of(&contract, &owner, &member).trust_score, 85);
    contract.finalize_round(owner.duplicate(), 0, member.duplicate()).unwrap();
    let m = member_of(&contract, &owner, &member);
    assert_eq!(m.payouts_received, 1);
    assert_eq!(m.trust_score, 90);
    let r = round_of(&contract, &owner, 0);
    assert!(r.is_finalized);
    assert!(same(&r.payout_recipient, &member));
    assert_eq!(
        contract.finalize_round(owner.duplicate(), 0, owner.duplicate()),
        Err(ErrorCode::RoundNotEnded)
    );

    // Full trust stays full.
    contract.end_round(&ledger_at(30 * 86400), owner.duplicate()).unwrap();
    contract.contribute(&ledger_at(30 * 86400), owner.duplicate(), owner.duplicate(), 1000).unwrap();
    contract.finalize_round(owner.duplicate(), 1, owner.duplicate()).unwrap();
    assert_eq!(member_of(&contract, &owner, &owner).trust_score, 100);
}

#[test]
fn payout_bonus_stops_at_full_trust() {
    let env = ledger_at(0);
    let mut contract = CirclefiContract::new();
    let owner = account(1);
    let member = account(2);
    contract
        .create_circle(&env, owner.duplicate(), b"c".to_vec(), 1000, 1, PayoutOrder::Fixed, 0, 1, 10, 0)
        .unwrap();
    contract.join_circle(&env, owner.duplicate(), member.duplicate()).unwrap();
    // Trust 100 - 15 = 85, then three payouts: 90, 95, 100; a fourth stays at 100.
    contract.trigger_default(owner.duplicate(), member.duplicate()).unwrap();
    let mut now: u64 = 0;
    for expected in [90u32, 95, 100, 100] {
        contract.contribute(&ledger_at(now), owner.duplicate(), owner.duplicate(), 1000).unwrap();
        let id = circle_of(&contract, &owner).current_round;
        contract.finalize_round(owner.duplicate(), id, member.duplicate()).unwrap();
        assert_eq!(member_of(&contract, &owner, &member).trust_score, expected);
        now += 86400;
        contract.end_round(&ledger_at(now), owner.duplicate()).unwrap();
    }
    assert_eq!(circle_of(&contract, &owner).current_round, 4);
    assert_eq!(member_of(&contract, &owner, &member).payouts_received, 4);
}

#[test]
fn disputes_are_once_and_within_the_window() {
    let mut contract = CirclefiContract::new();
    let owner = account(1);
    let disputer = account(2);
    assert_eq!(
        contract.dispute_payout(&ledger_at(0), owner.duplicate(), disputer.duplicate(), 0),
        Err(ErrorCode::RoundNotFound)
    );
    standard_circle(&mut contract, &ledger_at(0), &owner).unwrap();
    contract.contribute(&ledger_at(0), owner.duplicate(), owner.duplicate(), 1000).unwrap();
    let end: u64 = 30 * 86400;
    // The circle's dispute window is 24 hours.
    let window: u64 = 24 * 3600;
    assert_eq!(
        contract.dispute_payout(&ledger_at(end + window + 1), owner.duplicate(), disputer.duplicate(), 0),
        Err(ErrorCode::InvalidParameters)
    );
    contract
        .dispute_payout(&ledger_at(end + window), owner.duplicate(), disputer.duplicate(), 0)
        .unwrap();
    let r = round_of(&contract, &owner, 0);
    assert!(r.disputed);
    assert!(same(&r.dispute_resolver, &disputer));
    assert_eq!(
        contract.dispute_payout(&ledger_at(0), owner.duplicate(), account(3), 0),
        Err(ErrorCode::InvalidParameters)
    );
}

#[test]
fn errors_and_orders_publish_their_numbers() {
    let all = [
        ErrorCode::CircleNotFound,
        ErrorCode::MemberNotFound,
        ErrorCode::RoundNotFound,
        ErrorCode::InvalidAmount,
        ErrorCode::UnauthorizedAccess,
        ErrorCode::InsufficientCollateral,
        ErrorCode::InvalidPayoutOrder,
        ErrorCode::RoundNotEnded,
        ErrorCode::InvalidParameters,
        ErrorCode::MemberAlreadyJoined,
        ErrorCode::CircleNotActive,
        ErrorCode::MaxMembersReached,
        ErrorCode::InsufficientTrustScore,
    ];
    for (i, e) in all.iter().enumerate() {
        assert_eq!(e.code(), i as u32 + 1);
    }
    assert_eq!(PayoutOrder::Fixed.code(), 0);
    assert_eq!(PayoutOrder::Bid.code(), 1);
    assert_eq!(MemberStatus::Active.code(), 0);
    assert_eq!(MemberStatus::Defaulted.code(), 1);
    assert_eq!(MemberStatus::Suspended.code(), 2);
    assert_eq!(MemberStatus::Exited.code(), 3);
}

#[test]
fn addresses_compare_by_their_encoding() {
    let a = account(1);
    assert!(a.same(&account(1)));
    assert!(!a.same(&account(2)));
    assert!(!a.same(&contract_address(1)));
    assert_eq!(a.to_xdr().len(), 44);
    assert_eq!(a.xdr_len(), 44);
    assert_eq!(contract_address(1).xdr_len(), 40);
    assert!(Addr::from_xdr(a.to_xdr()).same(&a));
}

#[test]
fn initialize_is_harmless_to_circles() {
    let env = ledger_at(0);
    let mut contract = CirclefiContract::new();
    let owner = account(1);
    standard_circle(&mut contract, &env, &owner).unwrap();
    contract.initialize();
    assert_eq!(circle_of(&contract, &owner).member_count, 1);
}

#[test]
fn a_round_whose_circle_is_gone_is_disputed_within_the_address_window() {
    let mut contract = CirclefiContract::new();
    let owner = account(1);
    let round = Round {
        circle: owner.duplicate(),
        round_id: 4,
        start_time: 0,
        end_time: 100,
        total_pot: 0,
        payout_recipient: owner.duplicate(),
        highest_bid: 0,
        contributions_received: 0,
        member_count: 1,
        disputed: false,
        dispute_resolver: contract_address(0),
        is_finalized: false,
    };
    assert!(!contract.load_round(owner.duplicate(), 5, round.duplicate()), "a round stored under another number is not taken");
    assert!(contract.get_round(owner.duplicate(), 5).is_err());
    assert!(contract.load_round(owner.duplicate(), 4, round));
    assert_eq!(round_of(&contract, &owner, 4).end_time, 100);
    assert!(contract.dispute_payout_fits(&owner, 4));
    // Without a circle record, the window is an hour per byte of the
    // 44-byte encoding of the round's circle address.
    assert_eq!(
        contract.dispute_payout(&ledger_at(100 + 44 * 3600 + 1), owner.duplicate(), account(2), 4),
        Err(ErrorCode::InvalidParameters)
    );
    contract
        .dispute_payout(&ledger_at(100 + 44 * 3600), owner.duplicate(), account(2), 4)
        .unwrap();
    assert!(round_of(&contract, &owner, 4).disputed);
}

#[test]
fn loading_takes_only_records_in_range() {
    let env = ledger_at(0);
    let mut source = CirclefiContract::new();
    let owner = account(1);
    standard_circle(&mut source, &env, &owner).unwrap();
    let good = circle_of(&source, &owner);
    let mut bad = good.duplicate();
    bad.member_count = 11;

    let mut contract = CirclefiContract::new();
    assert!(!contract.load_circle(owner.duplicate(), bad));
    assert!(contract.get_circle(owner.duplicate()).is_err());
    assert!(contract.load_circle(owner.duplicate(), good));
    assert_eq!(circle_of(&contract, &owner).member_count, 1);

    let mut m = member_of(&source, &owner, &owner);
    m.trust_score = 101;
    assert!(!contract.load_member(owner.duplicate(), owner.duplicate(), m.duplicate()));
    m.trust_score = 100;
    assert!(contract.load_member(owner.duplicate(), owner.duplicate(), m));
    assert_eq!(contract.circle_count(), None);
    contract.initialize();
    assert_eq!(contract.circle_count(), Some(0));
}

#[test]
fn overflow_checks_flag_the_calls_that_would_trap() {
    let env = ledger_at(0);
    let mut contract = CirclefiContract::new();
    let owner = account(1);
    standard_circle(&mut contract, &env, &owner).unwrap();
    assert!(contract.contribute_fits(&env, &owner, &owner, 1000));
    assert!(!contract.contribute_fits(&ledger_at(u64::MAX), &owner, &owner, 1000));
    assert!(contract.contribute_fits(&ledger_at(u64::MAX), &owner, &owner, 999), "refused anyway");
    assert!(contract.trigger_default_fits(&owner, &owner));
    assert!(contract.end_round_fits(&env, &owner));
    assert!(contract.finalize_round_fits(&owner, 0, &owner));

    let mut m = member_of(&contract, &owner, &owner);
    m.default_count = 286_331_153;
    assert!(contract.load_member(owner.duplicate(), owner.duplicate(), m.duplicate()));
    assert!(!contract.trigger_default_fits(&owner, &owner));
    m.default_count = 286_331_152;
    m.payouts_received = u32::MAX;
    assert!(contract.load_member(owner.duplicate(), owner.duplicate(), m));
    assert!(contract.trigger_default_fits(&owner, &owner));

    contract.contribute(&env, owner.duplicate(), owner.duplicate(), 1000).unwrap();
    assert!(!contract.finalize_round_fits(&owner, 0, &owner));
    let mut r = round_of(&contract, &owner, 0);
    r.end_time = u64::MAX - 10;
    assert!(contract.load_round(owner.duplicate(), 0, r));
    assert!(!contract.dispute_payout_fits(&owner, 0));
}

#[test]
fn the_admin_is_the_recorded_owner() {
    let env = ledger_at(0);
    let mut contract = CirclefiContract::new();
    let owner = account(1);
    assert!(contract.circle_admin(owner.duplicate()).is_none());
    standard_circle(&mut contract, &env, &owner).unwrap();
    assert!(contract.circle_admin(owner.duplicate()).unwrap().same(&owner));
}

#[test]
fn pots_volumes_and_trust_keep_their_books() {
    let mut contract = CirclefiContract::new();
    let owner = account(1);
    let (a, b) = (account(2), account(3));
    contract
        .create_circle(&ledger_at(0), owner.duplicate(), b"books".to_vec(), 250, 1, PayoutOrder::Fixed, 10, 1, 5, 0)
        .unwrap();
    assert!(contract.get_round(owner.duplicate(), 0).is_err(), "no round before a contribution");
    contract.join_circle(&ledger_at(0), owner.duplicate(), a.duplicate()).unwrap();
    contract.join_circle(&ledger_at(0), owner.duplicate(), b.duplicate()).unwrap();
    let mut now: u64 = 0;
    let mut expected_volume: i128 = 0;
    for round in 0..3u32 {
        let payers: Vec<&Addr> = if round == 1 { vec![&owner, &a] } else { vec![&owner, &a, &b] };
        for p in payers.iter() {
            contract.contribute(&ledger_at(now), owner.duplicate(), (*p).duplicate(), 250).unwrap();
        }
        let r = round_of(&contract, &owner, round);
        assert_eq!(r.total_pot, r.contributions_received as i128 * 250);
        expected_volume += r.total_pot;
        now += 86400;
        contract.end_round(&ledger_at(now), owner.duplicate()).unwrap();
        assert_eq!(circle_of(&contract, &owner).total_volume, expected_volume);
    }
    assert_eq!(expected_volume, 250 * 8);
    assert_eq!(circle_of(&contract, &owner).current_round, 3);

    contract.trigger_default(owner.duplicate(), b.duplicate()).unwrap();
    contract.finalize_round(owner.duplicate(), 2, b.duplicate()).unwrap_err();
    contract.contribute(&ledger_at(now), owner.duplicate(), owner.duplicate(), 250).unwrap();
    contract.finalize_round(owner.duplicate(), 3, b.duplicate()).unwrap();
    let t = member_of(&contract, &owner, &b).trust_score;
    assert_eq!(t, 90);
    assert_eq!(t % 5, 0);
    assert_eq!(
        contract.contribute(&ledger_at(now), owner.duplicate(), b.duplicate(), 250),
        Err(ErrorCode::UnauthorizedAccess),
        "a defaulted member cannot contribute"
    );
}

#[test]
fn refusals_outlast_later_calls() {
    let mut contract = CirclefiContract::new();
    let owner = account(1);
    let (a, b) = (account(2), account(3));
    standard_circle(&mut contract, &ledger_at(0), &owner).unwrap();
    contract.join_circle(&ledger_at(0), owner.duplicate(), a.duplicate()).unwrap();
    contract.join_circle(&ledger_at(0), owner.duplicate(), b.duplicate()).unwrap();
    contract.contribute(&ledger_at(0), owner.duplicate(), owner.duplicate(), 1000).unwrap();

    // A default, a finalize and a dispute, then more calls in between.
    contract.trigger_default(owner.duplicate(), a.duplicate()).unwrap();
    contract.finalize_round(owner.duplicate(), 0, b.duplicate()).unwrap();
    contract.dispute_payout(&ledger_at(1), owner.duplicate(), b.duplicate(), 0).unwrap();
    contract.contribute(&ledger_at(2), owner.duplicate(), b.duplicate(), 1000).unwrap();
    contract.end_round(&ledger_at(30 * 86400), owner.duplicate()).unwrap();
    contract.contribute(&ledger_at(30 * 86400), owner.duplicate(), owner.duplicate(), 1000).unwrap();

    assert_eq!(
        contract.contribute(&ledger_at(30 * 86400), owner.duplicate(), a.duplicate(), 1000),
        Err(ErrorCode::UnauthorizedAccess)
    );
    let payouts = member_of(&contract, &owner, &owner).payouts_received;
    assert_eq!(
        contract.finalize_round(owner.duplicate(), 0, owner.duplicate()),
        Err(ErrorCode::RoundNotEnded)
    );
    assert_eq!(member_of(&contract, &owner, &owner).payouts_received, payouts);
    assert_eq!(
        contract.dispute_payout(&ledger_at(3), owner.duplicate(), a.duplicate(), 0),
        Err(ErrorCode::InvalidParameters)
    );
    let r = round_of(&contract, &owner, 0);
    assert!(r.disputed && r.is_finalized);
    assert!(r.dispute_resolver.same(&b));

    contract.deactivate_circle(owner.duplicate()).unwrap();
    contract.place_bid(owner.duplicate(), a.duplicate(), 5).unwrap_err();
    contract.end_round(&ledger_at(u64::MAX / 2), owner.duplicate()).unwrap();
    assert!(!circle_of(&contract, &owner).is_active);
    assert_eq!(
        contract.join_circle(&ledger_at(0), owner.duplicate(), account(9)),
        Err(ErrorCode::CircleNotActive)
    );
    assert_eq!(
        contract.contribute(&ledger_at(0), owner.duplicate(), owner.duplicate(), 1000),
        Err(ErrorCode::CircleNotActive)
    );
    // Only a re-creation makes the circle active again.
    standard_circle(&mut contract, &ledger_at(0), &owner).unwrap();
    assert!(circle_of(&contract, &owner).is_active);
}
