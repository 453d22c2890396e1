//! Properties of the registry that span its operations, proved over the
//! statements of what each operation does.

use vstd::prelude::*;

use super::spec::{
    CirclefiState, FULL_TRUST, circle_key, contribute_apply, contribute_check, create_circle_apply,
    create_circle_check, deactivate_circle_apply, deactivate_circle_check, defaulted_member,
    dispute_payout_apply, dispute_payout_check, end_round_apply, end_round_check,
    finalize_round_apply, finalize_round_check, fresh_circle, join_circle_apply, join_circle_check,
    member_key, outcome, place_bid_apply, place_bid_check, rewarded_trust, round_key,
    round_to_contribute, trigger_default_apply, trigger_default_check,
};
use super::types::{CircleView, ErrorCode, MemberStatus, MemberView, PayoutOrder};

verus! {

/// A refused operation leaves the registry's storage exactly as it was.
pub proof fn lemma_refusal_changes_nothing(
    s: CirclefiState,
    e: ErrorCode,
    applied: CirclefiState,
)
    ensures
        outcome(s, Some(e), applied) == (s, Err::<(), ErrorCode>(e)),
{
}

/// A circle that was just created can be read back with the terms it was
/// created on, starting at round 0, active, with its owner as its one
/// member, at full trust.
pub proof fn lemma_created_circle_reads_back(
    s: CirclefiState,
    now: u64,
    owner: Seq<u8>,
    name: Seq<u8>,
    contribution_amount: i128,
    cycle_duration_days: u32,
    payout_order: PayoutOrder,
    collateral_percentage: u32,
    dispute_window_hours: u32,
    max_members: u32,
    min_trust_score: u32,
)
    requires
        create_circle_check(
            contribution_amount,
            cycle_duration_days,
            collateral_percentage,
            dispute_window_hours,
            max_members,
            min_trust_score,
        ) is None,
    ensures
        ({
            let t = create_circle_apply(
                s,
                now,
                owner,
                name,
                contribution_amount,
                cycle_duration_days,
                payout_order,
                collateral_percentage,
                dispute_window_hours,
                max_members,
                min_trust_score,
            );
            let c = t.circles[circle_key(owner)];
            let m = t.members[member_key(owner, owner)];
            &&& t.circles.contains_key(circle_key(owner))
            &&& c == fresh_circle(
                now,
                owner,
                name,
                contribution_amount,
                cycle_duration_days,
                payout_order,
                collateral_percentage,
                dispute_window_hours,
                max_members,
                min_trust_score,
            )
            &&& c.current_round == 0 && c.is_active && c.member_count == 1
            &&& t.members.contains_key(member_key(owner, owner))
            &&& m.trust_score == FULL_TRUST && m.status == MemberStatus::Active
        }),
{
}

/// Terms are refused exactly when one of them is out of range.
pub proof fn lemma_create_circle_refuses_exactly_bad_terms(
    contribution_amount: i128,
    cycle_duration_days: u32,
    collateral_percentage: u32,
    dispute_window_hours: u32,
    max_members: u32,
    min_trust_score: u32,
)
    ensures
        create_circle_check(
            contribution_amount,
            cycle_duration_days,
            collateral_percentage,
            dispute_window_hours,
            max_members,
            min_trust_score,
        ) is None <==> {
            &&& contribution_amount > 0
            &&& 1 <= cycle_duration_days <= 365
            &&& collateral_percentage <= 100
            &&& 1 <= dispute_window_hours <= 720
            &&& 1 <= max_members <= 100
            &&& min_trust_score <= 100
        },
        contribution_amount <= 0 ==> create_circle_check(
            contribution_amount,
            cycle_duration_days,
            collateral_percentage,
            dispute_window_hours,
            max_members,
            min_trust_score,
        ) == Some(ErrorCode::InvalidAmount),
{
}

/// Nobody joins a circle twice: once a member has joined, joining again is
/// refused, with `MemberAlreadyJoined` while the circle has room.
pub proof fn lemma_no_second_join(s: CirclefiState, now: u64, later: u64, owner: Seq<u8>, member: Seq<u8>)
    requires
        join_circle_check(s, owner, member) is None,
    ensures
        ({
            let t = join_circle_apply(s, now, owner, member);
            let c = t.circles[circle_key(owner)];
            &&& join_circle_check(t, owner, member) is Some
            &&& c.member_count < c.max_members ==> join_circle_check(t, owner, member) == Some(
                ErrorCode::MemberAlreadyJoined,
            )
            &&& outcome(
                t,
                join_circle_check(t, owner, member),
                join_circle_apply(t, later, owner, member),
            ).0 == t
        }),
{
}

/// Joining counts exactly one more member.
pub proof fn lemma_join_counts_one_more(s: CirclefiState, now: u64, owner: Seq<u8>, member: Seq<u8>)
    requires
        join_circle_check(s, owner, member) is None,
    ensures
        join_circle_apply(s, now, owner, member).circles[circle_key(owner)].member_count
            == s.circles[circle_key(owner)].member_count + 1,
        join_circle_apply(s, now, owner, member).members[member_key(owner, member)].trust_score
            == FULL_TRUST,
{
}

/// A deactivated circle takes no new members and no contributions.
pub proof fn lemma_deactivated_circle_refuses(
    s: CirclefiState,
    owner: Seq<u8>,
    member: Seq<u8>,
    amount: i128,
)
    requires
        deactivate_circle_check(s, owner) is None,
    ensures
        join_circle_check(deactivate_circle_apply(s, owner), owner, member) == Some(
            ErrorCode::CircleNotActive,
        ),
        contribute_check(deactivate_circle_apply(s, owner), owner, member, amount) == Some(
            ErrorCode::CircleNotActive,
        ),
{
}

/// A contribution adds exactly its amount to the current round's pot (a
/// round it opens starts from an empty pot) and to the member's total.
pub proof fn lemma_contribution_fills_pot(
    s: CirclefiState,
    now: u64,
    contract: Seq<u8>,
    owner: Seq<u8>,
    member: Seq<u8>,
    amount: i128,
)
    requires
        contribute_check(s, owner, member, amount) is None,
        i128::MIN <= s.members[member_key(owner, member)].total_contributed + amount
            <= i128::MAX,
        i128::MIN <= round_to_contribute(s, now, contract, owner, member).total_pot + amount
            <= i128::MAX,
    ensures
        ({
            let c = s.circles[circle_key(owner)];
            let k = round_key(owner, c.current_round);
            let t = contribute_apply(s, now, contract, owner, member, amount);
            &&& t.rounds[k].total_pot == (if s.rounds.contains_key(k) {
                s.rounds[k].total_pot
            } else {
                0
            }) + amount
            &&& t.members[member_key(owner, member)].total_contributed == s.members[member_key(
                owner,
                member,
            )].total_contributed + amount
            &&& amount == c.contribution_amount
        }),
{
}

/// A bid never lowers a round's highest bid: afterwards it is the larger
/// of the two, and the recipient changes only for a strictly higher bid.
pub proof fn lemma_bids_never_lower(s: CirclefiState, owner: Seq<u8>, member: Seq<u8>, bid: i128)
    requires
        place_bid_check(s, owner, bid) is None,
    ensures
        ({
            let k = round_key(owner, s.circles[circle_key(owner)].current_round);
            let before = s.rounds[k];
            let after = place_bid_apply(s, owner, member, bid).rounds[k];
            &&& after.highest_bid >= before.highest_bid
            &&& after.highest_bid >= bid
            &&& (after.highest_bid == before.highest_bid || after.highest_bid == bid)
            &&& after.payout_recipient != before.payout_recipient ==> bid > before.highest_bid
                && after.payout_recipient == member
        }),
{
}

/// A default never raises the trust score, records one more default, and
/// suspends the member exactly when the score reaches zero.
pub proof fn lemma_default_lowers_trust(c: CircleView, m: MemberView)
    requires
        m.default_count < u32::MAX,
        15 * (m.default_count + 1) <= u32::MAX,
    ensures
        defaulted_member(c, m).trust_score <= m.trust_score,
        defaulted_member(c, m).default_count == m.default_count + 1,
        (defaulted_member(c, m).status == MemberStatus::Suspended) <==> (defaulted_member(
            c,
            m,
        ).trust_score == 0),
        defaulted_member(c, m).status != MemberStatus::Active,
        m.trust_score >= 15 * (m.default_count + 1) ==> defaulted_member(c, m).trust_score
            == m.trust_score - 15 * (m.default_count + 1),
{
}

/// A payout raises a trust score below full trust, never beyond full
/// trust, and leaves a full score as it is.
pub proof fn lemma_payout_trust_bounded(score: u32)
    requires
        score <= FULL_TRUST,
    ensures
        score <= rewarded_trust(score) <= FULL_TRUST,
        score < FULL_TRUST ==> rewarded_trust(score) > score,
{
}

/// A round is finalized at most once: finalizing it again is refused with
/// `RoundNotEnded`, whoever is named as recipient.
pub proof fn lemma_finalize_once(
    s: CirclefiState,
    owner: Seq<u8>,
    round_id: u32,
    recipient: Seq<u8>,
    other: Seq<u8>,
)
    requires
        finalize_round_check(s, owner, round_id, recipient) is None,
    ensures
        finalize_round_check(
            finalize_round_apply(s, owner, round_id, recipient),
            owner,
            round_id,
            other,
        ) == Some(ErrorCode::RoundNotEnded),
{
}

/// A round is disputed at most once: disputing it again is refused, at
/// any time.
pub proof fn lemma_dispute_once(
    s: CirclefiState,
    now: u64,
    later: u64,
    owner: Seq<u8>,
    disputer: Seq<u8>,
    round_id: u32,
)
    requires
        dispute_payout_check(s, now, owner, round_id) is None,
    ensures
        dispute_payout_check(
            dispute_payout_apply(s, owner, disputer, round_id),
            later,
            owner,
            round_id,
        ) == Some(ErrorCode::InvalidParameters),
{
}

/// Ending a round moves the circle to the next round and adds the ended
/// round's pot to its volume.
pub proof fn lemma_end_round_advances(s: CirclefiState, now: u64, owner: Seq<u8>)
    requires
        end_round_check(s, now, owner) is None,
        s.circles[circle_key(owner)].current_round < u32::MAX,
        i128::MIN <= s.circles[circle_key(owner)].total_volume + s.rounds[round_key(
            owner,
            s.circles[circle_key(owner)].current_round,
        )].total_pot <= i128::MAX,
    ensures
        ({
            let c = s.circles[circle_key(owner)];
            let r = s.rounds[round_key(owner, c.current_round)];
            let t = end_round_apply(s, owner);
            &&& t.circles[circle_key(owner)].current_round == c.current_round + 1
            &&& t.circles[circle_key(owner)].total_volume == c.total_volume + r.total_pot
            &&& t.rounds[round_key(owner, r.round_id)].is_finalized
        }),
{
}

/// A member who has just defaulted cannot contribute: while the circle is
/// active and the amount is the circle's contribution, a contribution is
/// refused with `UnauthorizedAccess` (and so changes nothing).
pub proof fn lemma_defaulted_member_cannot_contribute(
    s: CirclefiState,
    owner: Seq<u8>,
    member: Seq<u8>,
    amount: i128,
)
    requires
        trigger_default_check(s, owner, member) is None,
        s.circles[circle_key(owner)].is_active,
        amount == s.circles[circle_key(owner)].contribution_amount,
    ensures
        contribute_check(trigger_default_apply(s, owner, member), owner, member, amount) == Some(
            ErrorCode::UnauthorizedAccess,
        ),
{
}

} // verus!
