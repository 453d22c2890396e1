//! What each operation of the registry does, stated over the contents of
//! its storage.
//!
//! Each operation has a check (the error it answers with, if any, in the
//! order the operation tests its conditions) and an effect (the storage
//! after it succeeds). A refused operation changes nothing.

use vstd::prelude::*;

use super::types::{CircleView, DataKeyView, ErrorCode, MemberStatus, MemberView, PayoutOrder, RoundView};

verus! {

/// The contents of the registry's storage: one map per kind of record,
/// each keyed as the contract keys it.
#[verifier::ext_equal]
pub struct CirclefiState {
    pub circles: Map<DataKeyView, CircleView>,
    pub members: Map<DataKeyView, MemberView>,
    pub rounds: Map<DataKeyView, RoundView>,
    pub circle_count: Option<u32>,
}

/// Seconds in a day.
pub const SECONDS_PER_DAY: u64 = 86400;

/// Seconds in an hour.
pub const SECONDS_PER_HOUR: u64 = 3600;

/// The trust score a member starts with, and the most one can hold.
pub const FULL_TRUST: u32 = 100;

/// How far each default lowers the trust score, per default on record.
pub const TRUST_PENALTY: u32 = 15;

/// What receiving a payout adds to the trust score.
pub const PAYOUT_TRUST_BONUS: u32 = 5;

pub open spec fn circle_key(owner: Seq<u8>) -> DataKeyView {
    DataKeyView::Circle(owner)
}

pub open spec fn member_key(owner: Seq<u8>, member: Seq<u8>) -> DataKeyView {
    DataKeyView::Member(owner, member)
}

pub open spec fn round_key(owner: Seq<u8>, round_id: u32) -> DataKeyView {
    DataKeyView::Round(owner, round_id)
}

/// The terms a circle is created with are in range, and its membership is
/// between one and its maximum.
pub open spec fn circle_valid(c: CircleView) -> bool {
    &&& c.contribution_amount > 0
    &&& 1 <= c.cycle_duration_days <= 365
    &&& c.collateral_percentage <= 100
    &&& 1 <= c.dispute_window_hours <= 720
    &&& 1 <= c.max_members <= 100
    &&& c.min_trust_score <= 100
    &&& 1 <= c.member_count <= c.max_members
}

/// What holds of every state the registry can reach.
pub open spec fn registry_inv(s: CirclefiState) -> bool {
    &&& forall|k: DataKeyView| #[trigger]
        s.circles.contains_key(k) ==> circle_valid(s.circles[k])
    &&& forall|k: DataKeyView| #[trigger]
        s.members.contains_key(k) ==> s.members[k].trust_score <= FULL_TRUST
    &&& forall|o: Seq<u8>, id: u32| #[trigger]
        s.rounds.contains_key(round_key(o, id)) ==> s.rounds[round_key(o, id)].round_id == id
            && s.rounds[round_key(o, id)].circle == o
}

/// The storage of a registry that holds nothing.
pub open spec fn empty_state() -> CirclefiState {
    CirclefiState {
        circles: Map::empty(),
        members: Map::empty(),
        rounds: Map::empty(),
        circle_count: None,
    }
}

/// `initialize`: the count of circles is set to zero.
pub open spec fn initialize_apply(s: CirclefiState) -> CirclefiState {
    CirclefiState { circle_count: Some(0u32), ..s }
}

/// A member's record on joining.
pub open spec fn fresh_member(address: Seq<u8>, now: u64) -> MemberView {
    MemberView {
        address,
        contributions_made: 0,
        payouts_received: 0,
        collateral_locked: 0,
        default_count: 0,
        trust_score: FULL_TRUST,
        joined_at: now,
        last_contribution: 0,
        status: MemberStatus::Active,
        total_contributed: 0,
    }
}

/// `create_circle`: the error for the given terms, if they are refused.
pub open spec fn create_circle_check(
    contribution_amount: i128,
    cycle_duration_days: u32,
    collateral_percentage: u32,
    dispute_window_hours: u32,
    max_members: u32,
    min_trust_score: u32,
) -> Option<ErrorCode> {
    if contribution_amount <= 0 {
        Some(ErrorCode::InvalidAmount)
    } else if cycle_duration_days == 0 || cycle_duration_days > 365 {
        Some(ErrorCode::InvalidParameters)
    } else if collateral_percentage > 100 {
        Some(ErrorCode::InvalidParameters)
    } else if dispute_window_hours == 0 || dispute_window_hours > 720 {
        Some(ErrorCode::InvalidParameters)
    } else if max_members == 0 || max_members > 100 {
        Some(ErrorCode::InvalidParameters)
    } else if min_trust_score > 100 {
        Some(ErrorCode::InvalidParameters)
    } else {
        None
    }
}

/// The circle `create_circle` stores.
pub open spec fn fresh_circle(
    now: u64,
    owner: Seq<u8>,
    name: Seq<u8>,
    contribution_amount: i128,
    cycle_duration_days: u32,
    payout_order: PayoutOrder,
    collateral_percentage: u32,
    dispute_window_hours: u32,
    max_members: u32,
    min_trust_score: u32,
) -> CircleView {
    CircleView {
        owner,
        name,
        contribution_amount,
        cycle_duration_days,
        payout_order,
        collateral_percentage,
        dispute_window_hours,
        current_round: 0,
        is_active: true,
        created_at: now,
        member_count: 1,
        max_members,
        total_volume: 0,
        min_trust_score,
    }
}

/// `create_circle`: the circle is stored under its owner, and the owner is
/// stored as its first member.
pub open spec fn create_circle_apply(
    s: CirclefiState,
    now: u64,
    owner: Seq<u8>,
    name: Seq<u8>,
    contribution_amount: i128,
    cycle_duration_days: u32,
    payout_order: PayoutOrder,
    collateral_percentage: u32,
    dispute_window_hours: u32,
    max_members: u32,
    min_trust_score: u32,
) -> CirclefiState {
    CirclefiState {
        circles: s.circles.insert(
            circle_key(owner),
            fresh_circle(
                now,
                owner,
                name,
                contribution_amount,
                cycle_duration_days,
                payout_order,
                collateral_percentage,
                dispute_window_hours,
                max_members,
                min_trust_score,
            ),
        ),
        members: s.members.insert(member_key(owner, owner), fresh_member(owner, now)),
        ..s
    }
}

/// `join_circle`: the error it answers with, if any.
pub open spec fn join_circle_check(s: CirclefiState, owner: Seq<u8>, member: Seq<u8>) -> Option<
    ErrorCode,
> {
    if !s.circles.contains_key(circle_key(owner)) {
        Some(ErrorCode::CircleNotFound)
    } else if !s.circles[circle_key(owner)].is_active {
        Some(ErrorCode::CircleNotActive)
    } else if s.circles[circle_key(owner)].member_count >= s.circles[circle_key(
        owner,
    )].max_members {
        Some(ErrorCode::MaxMembersReached)
    } else if s.members.contains_key(member_key(owner, member)) {
        Some(ErrorCode::MemberAlreadyJoined)
    } else {
        None
    }
}

/// `join_circle`: the circle counts one more member, and the member's
/// record is stored.
pub open spec fn join_circle_apply(s: CirclefiState, now: u64, owner: Seq<u8>, member: Seq<u8>) -> CirclefiState {
    let c = s.circles[circle_key(owner)];
    CirclefiState {
        circles: s.circles.insert(
            circle_key(owner),
            CircleView { member_count: (c.member_count + 1) as u32, ..c },
        ),
        members: s.members.insert(member_key(owner, member), fresh_member(member, now)),
        ..s
    }
}

/// `contribute`: the error it answers with, if any.
pub open spec fn contribute_check(
    s: CirclefiState,
    owner: Seq<u8>,
    member: Seq<u8>,
    amount: i128,
) -> Option<ErrorCode> {
    if !s.circles.contains_key(circle_key(owner)) {
        Some(ErrorCode::CircleNotFound)
    } else if !s.circles[circle_key(owner)].is_active {
        Some(ErrorCode::CircleNotActive)
    } else if amount != s.circles[circle_key(owner)].contribution_amount {
        Some(ErrorCode::InvalidAmount)
    } else if !s.members.contains_key(member_key(owner, member)) {
        Some(ErrorCode::MemberNotFound)
    } else if s.members[member_key(owner, member)].status != MemberStatus::Active {
        Some(ErrorCode::UnauthorizedAccess)
    } else {
        None
    }
}

/// The round a first contribution opens: it starts now, ends a cycle
/// later, and names the contributor as recipient and the contract as
/// dispute resolver.
pub open spec fn opening_round(
    c: CircleView,
    now: u64,
    contract: Seq<u8>,
    owner: Seq<u8>,
    member: Seq<u8>,
) -> RoundView {
    RoundView {
        circle: owner,
        round_id: c.current_round,
        start_time: now,
        end_time: (now + c.cycle_duration_days * SECONDS_PER_DAY) as u64,
        total_pot: 0,
        payout_recipient: member,
        highest_bid: 0,
        contributions_received: 0,
        member_count: c.member_count,
        disputed: false,
        dispute_resolver: contract,
        is_finalized: false,
    }
}

/// The current round of the circle, or the one a contribution opens.
pub open spec fn round_to_contribute(
    s: CirclefiState,
    now: u64,
    contract: Seq<u8>,
    owner: Seq<u8>,
    member: Seq<u8>,
) -> RoundView {
    let c = s.circles[circle_key(owner)];
    let k = round_key(owner, c.current_round);
    if s.rounds.contains_key(k) {
        s.rounds[k]
    } else {
        opening_round(c, now, contract, owner, member)
    }
}

/// `contribute`: the arithmetic it does stays within its types.
pub open spec fn contribute_in_range(
    s: CirclefiState,
    now: u64,
    contract: Seq<u8>,
    owner: Seq<u8>,
    member: Seq<u8>,
    amount: i128,
) -> bool {
    contribute_check(s, owner, member, amount) is None ==> {
        let c = s.circles[circle_key(owner)];
        let m = s.members[member_key(owner, member)];
        let r = round_to_contribute(s, now, contract, owner, member);
        &&& m.contributions_made < u32::MAX
        &&& m.total_contributed + amount <= i128::MAX
        &&& !s.rounds.contains_key(round_key(owner, c.current_round)) ==> now
            + c.cycle_duration_days * SECONDS_PER_DAY <= u64::MAX
        &&& r.total_pot + amount <= i128::MAX
        &&& r.total_pot + amount >= i128::MIN
        &&& r.contributions_received < u32::MAX
    }
}

/// `contribute`: the member's record counts the contribution, and the
/// current round's pot grows by it.
pub open spec fn contribute_apply(
    s: CirclefiState,
    now: u64,
    contract: Seq<u8>,
    owner: Seq<u8>,
    member: Seq<u8>,
    amount: i128,
) -> CirclefiState {
    let c = s.circles[circle_key(owner)];
    let m = s.members[member_key(owner, member)];
    let r = round_to_contribute(s, now, contract, owner, member);
    CirclefiState {
        members: s.members.insert(
            member_key(owner, member),
            MemberView {
                contributions_made: (m.contributions_made + 1) as u32,
                last_contribution: now,
                total_contributed: (m.total_contributed + amount) as i128,
                ..m
            },
        ),
        rounds: s.rounds.insert(
            round_key(owner, c.current_round),
            RoundView {
                total_pot: (r.total_pot + amount) as i128,
                contributions_received: (r.contributions_received + 1) as u32,
                ..r
            },
        ),
        ..s
    }
}

/// `place_bid`: the error it answers with, if any.
pub open spec fn place_bid_check(s: CirclefiState, owner: Seq<u8>, bid_amount: i128) -> Option<
    ErrorCode,
> {
    if !s.circles.contains_key(circle_key(owner)) {
        Some(ErrorCode::CircleNotFound)
    } else if s.circles[circle_key(owner)].payout_order != PayoutOrder::Bid {
        Some(ErrorCode::InvalidPayoutOrder)
    } else if bid_amount <= 0 {
        Some(ErrorCode::InvalidAmount)
    } else if !s.rounds.contains_key(
        round_key(owner, s.circles[circle_key(owner)].current_round),
    ) {
        Some(ErrorCode::RoundNotFound)
    } else {
        None
    }
}

/// `place_bid`: a bid above the round's highest becomes the highest, and
/// its bidder the recipient; a lower or equal bid leaves the round as it is.
pub open spec fn place_bid_apply(
    s: CirclefiState,
    owner: Seq<u8>,
    member: Seq<u8>,
    bid_amount: i128,
) -> CirclefiState {
    let k = round_key(owner, s.circles[circle_key(owner)].current_round);
    let r = s.rounds[k];
    CirclefiState {
        rounds: s.rounds.insert(
            k,
            if bid_amount > r.highest_bid {
                RoundView { highest_bid: bid_amount, payout_recipient: member, ..r }
            } else {
                r
            },
        ),
        ..s
    }
}

/// `trigger_default`: the error it answers with, if any.
pub open spec fn trigger_default_check(s: CirclefiState, owner: Seq<u8>, member: Seq<u8>) -> Option<
    ErrorCode,
> {
    if !s.circles.contains_key(circle_key(owner)) {
        Some(ErrorCode::CircleNotFound)
    } else if !s.members.contains_key(member_key(owner, member)) {
        Some(ErrorCode::MemberNotFound)
    } else {
        None
    }
}

/// `trigger_default`: the arithmetic it does stays within its types.
pub open spec fn trigger_default_in_range(s: CirclefiState, owner: Seq<u8>, member: Seq<u8>) -> bool {
    trigger_default_check(s, owner, member) is None ==> {
        let c = s.circles[circle_key(owner)];
        let m = s.members[member_key(owner, member)];
        &&& m.default_count < u32::MAX
        &&& TRUST_PENALTY * (m.default_count + 1) <= u32::MAX
        &&& c.contribution_amount * c.collateral_percentage <= i128::MAX
    }
}

/// The member's record after a default: one more default on record,
/// collateral locked at the circle's percentage of a contribution, and
/// the trust score lowered by the penalty times the defaults on record;
/// a score that would not stay above zero is set to zero and the member
/// suspended.
pub open spec fn defaulted_member(c: CircleView, m: MemberView) -> MemberView {
    let defaults = m.default_count + 1;
    let reduction = TRUST_PENALTY * defaults;
    MemberView {
        default_count: defaults as u32,
        collateral_locked: (c.contribution_amount * c.collateral_percentage / 100) as i128,
        trust_score: if reduction >= m.trust_score {
            0
        } else {
            (m.trust_score - reduction) as u32
        },
        status: if reduction >= m.trust_score {
            MemberStatus::Suspended
        } else {
            MemberStatus::Defaulted
        },
        ..m
    }
}

/// `trigger_default`: the member's record is replaced by its defaulted form.
pub open spec fn trigger_default_apply(s: CirclefiState, owner: Seq<u8>, member: Seq<u8>) -> CirclefiState {
    let c = s.circles[circle_key(owner)];
    let m = s.members[member_key(owner, member)];
    CirclefiState {
        members: s.members.insert(member_key(owner, member), defaulted_member(c, m)),
        ..s
    }
}

/// The hours a round can be disputed after its end: the dispute window of
/// its circle; for a round whose circle has no record, an hour per byte of
/// the encoding of the round's circle address.
pub open spec fn dispute_window_hours(s: CirclefiState, owner: Seq<u8>, r: RoundView) -> int {
    if s.circles.contains_key(circle_key(owner)) {
        s.circles[circle_key(owner)].dispute_window_hours as int
    } else {
        r.circle.len() as int
    }
}

/// The time after which a round can no longer be disputed: its end, plus
/// its dispute window.
pub open spec fn dispute_deadline(s: CirclefiState, owner: Seq<u8>, r: RoundView) -> int {
    r.end_time + dispute_window_hours(s, owner, r) * SECONDS_PER_HOUR
}

/// `dispute_payout`: the error it answers with, if any.
pub open spec fn dispute_payout_check(s: CirclefiState, now: u64, owner: Seq<u8>, round_id: u32) -> Option<
    ErrorCode,
> {
    if !s.rounds.contains_key(round_key(owner, round_id)) {
        Some(ErrorCode::RoundNotFound)
    } else if s.rounds[round_key(owner, round_id)].disputed {
        Some(ErrorCode::InvalidParameters)
    } else if now > dispute_deadline(s, owner, s.rounds[round_key(owner, round_id)]) {
        Some(ErrorCode::InvalidParameters)
    } else {
        None
    }
}

/// `dispute_payout`: the arithmetic it does stays within its types.
pub open spec fn dispute_payout_in_range(s: CirclefiState, owner: Seq<u8>, round_id: u32) -> bool {
    let k = round_key(owner, round_id);
    s.rounds.contains_key(k) && !s.rounds[k].disputed ==> dispute_deadline(s, owner, s.rounds[k])
        <= u64::MAX
}

/// `dispute_payout`: the round is marked disputed, with the disputer as
/// its resolver.
pub open spec fn dispute_payout_apply(
    s: CirclefiState,
    owner: Seq<u8>,
    disputer: Seq<u8>,
    round_id: u32,
) -> CirclefiState {
    let k = round_key(owner, round_id);
    let r = s.rounds[k];
    CirclefiState {
        rounds: s.rounds.insert(k, RoundView { disputed: true, dispute_resolver: disputer, ..r }),
        ..s
    }
}

/// `end_round`: the error it answers with, if any.
pub open spec fn end_round_check(s: CirclefiState, now: u64, owner: Seq<u8>) -> Option<ErrorCode> {
    if !s.circles.contains_key(circle_key(owner)) {
        Some(ErrorCode::CircleNotFound)
    } else if !s.rounds.contains_key(
        round_key(owner, s.circles[circle_key(owner)].current_round),
    ) {
        Some(ErrorCode::RoundNotFound)
    } else if now < s.rounds[round_key(owner, s.circles[circle_key(owner)].current_round)].end_time {
        Some(ErrorCode::RoundNotEnded)
    } else {
        None
    }
}

/// `end_round`: the arithmetic it does stays within its types.
pub open spec fn end_round_in_range(s: CirclefiState, now: u64, owner: Seq<u8>) -> bool {
    end_round_check(s, now, owner) is None ==> {
        let c = s.circles[circle_key(owner)];
        let r = s.rounds[round_key(owner, c.current_round)];
        &&& c.current_round < u32::MAX
        &&& i128::MIN <= c.total_volume + r.total_pot <= i128::MAX
    }
}

/// `end_round`: the round is finalized (stored under its own number), and
/// the circle moves to the next round with the pot added to its volume.
pub open spec fn end_round_apply(s: CirclefiState, owner: Seq<u8>) -> CirclefiState {
    let c = s.circles[circle_key(owner)];
    let r = s.rounds[round_key(owner, c.current_round)];
    CirclefiState {
        circles: s.circles.insert(
            circle_key(owner),
            CircleView {
                current_round: (c.current_round + 1) as u32,
                total_volume: (c.total_volume + r.total_pot) as i128,
                ..c
            },
        ),
        rounds: s.rounds.insert(
            round_key(owner, r.round_id),
            RoundView { is_finalized: true, ..r },
        ),
        ..s
    }
}

/// `finalize_round`: the error it answers with, if any.
pub open spec fn finalize_round_check(
    s: CirclefiState,
    owner: Seq<u8>,
    round_id: u32,
    recipient: Seq<u8>,
) -> Option<ErrorCode> {
    if !s.circles.contains_key(circle_key(owner)) {
        Some(ErrorCode::CircleNotFound)
    } else if !s.rounds.contains_key(round_key(owner, round_id)) {
        Some(ErrorCode::RoundNotFound)
    } else if s.rounds[round_key(owner, round_id)].is_finalized {
        Some(ErrorCode::RoundNotEnded)
    } else if !s.members.contains_key(member_key(owner, recipient)) {
        Some(ErrorCode::MemberNotFound)
    } else {
        None
    }
}

/// `finalize_round`: the arithmetic it does stays within its types.
pub open spec fn finalize_round_in_range(
    s: CirclefiState,
    owner: Seq<u8>,
    round_id: u32,
    recipient: Seq<u8>,
) -> bool {
    finalize_round_check(s, owner, round_id, recipient) is None ==> s.members[member_key(
        owner,
        recipient,
    )].payouts_received < u32::MAX
}

/// A trust score after a payout: raised by the bonus, and never past full
/// trust.
pub open spec fn rewarded_trust(score: u32) -> u32 {
    if score < FULL_TRUST {
        if score + PAYOUT_TRUST_BONUS > FULL_TRUST {
            FULL_TRUST
        } else {
            (score + PAYOUT_TRUST_BONUS) as u32
        }
    } else {
        score
    }
}

/// `finalize_round`: the round is finalized with its recipient, who counts
/// one more payout and gains trust.
pub open spec fn finalize_round_apply(
    s: CirclefiState,
    owner: Seq<u8>,
    round_id: u32,
    recipient: Seq<u8>,
) -> CirclefiState {
    let rk = round_key(owner, round_id);
    let mk = member_key(owner, recipient);
    let r = s.rounds[rk];
    let m = s.members[mk];
    CirclefiState {
        rounds: s.rounds.insert(rk, RoundView { is_finalized: true, payout_recipient: recipient, ..r }),
        members: s.members.insert(
            mk,
            MemberView {
                payouts_received: (m.payouts_received + 1) as u32,
                trust_score: rewarded_trust(m.trust_score),
                ..m
            },
        ),
        ..s
    }
}

/// `deactivate_circle`: the error it answers with, if any.
pub open spec fn deactivate_circle_check(s: CirclefiState, owner: Seq<u8>) -> Option<ErrorCode> {
    if !s.circles.contains_key(circle_key(owner)) {
        Some(ErrorCode::CircleNotFound)
    } else {
        None
    }
}

/// `deactivate_circle`: the circle is marked inactive.
pub open spec fn deactivate_circle_apply(s: CirclefiState, owner: Seq<u8>) -> CirclefiState {
    let c = s.circles[circle_key(owner)];
    CirclefiState {
        circles: s.circles.insert(circle_key(owner), CircleView { is_active: false, ..c }),
        ..s
    }
}

/// The storage after an operation with the given check and effect: the
/// effect when the check passes, the storage unchanged when it fails.
pub open spec fn outcome(
    s: CirclefiState,
    check: Option<ErrorCode>,
    applied: CirclefiState,
) -> (CirclefiState, Result<(), ErrorCode>) {
    match check {
        Some(e) => (s, Err(e)),
        None => (applied, Ok(())),
    }
}

} // verus!
