//! What each operation does, said directly in terms of its arguments and
//! the records it reads: when it is refused, with which error, and which
//! fields of which records it sets to what.

use vstd::prelude::*;

use super::spec::{
    CirclefiState, circle_key, contribute_apply, create_circle_apply, create_circle_check, contribute_check, contribute_in_range,
    deactivate_circle_apply, deactivate_circle_check, dispute_payout_apply, dispute_payout_check,
    end_round_apply, end_round_check, end_round_in_range, finalize_round_apply,
    finalize_round_check, finalize_round_in_range, join_circle_apply, join_circle_check,
    member_key, place_bid_apply, registry_inv, place_bid_check, rewarded_trust, round_key,
    trigger_default_apply, trigger_default_check, trigger_default_in_range,
};
use super::types::{CircleView, ErrorCode, MemberStatus, MemberView, PayoutOrder, RoundView};

verus! {

/// Creating a circle with terms in range stores, under its owner, a circle
/// with exactly those terms, at round 0, active, created now, with one
/// member and no volume; and stores the owner as a member with a fresh
/// record (trust 100, active, joined now). Rounds are untouched.
pub proof fn lemma_create_circle_exact(
    s: CirclefiState,
    now: u64,
    o: Seq<u8>,
    name: Seq<u8>,
    amount: i128,
    days: u32,
    order: PayoutOrder,
    pct: u32,
    hours: u32,
    max: u32,
    min_trust: u32,
)
    requires
        create_circle_check(amount, days, pct, hours, max, min_trust) is None,
    ensures
        ({
            let t = create_circle_apply(s, now, o, name, amount, days, order, pct, hours, max, min_trust);
            &&& t.circles[circle_key(o)] == (CircleView {
                owner: o,
                name,
                contribution_amount: amount,
                cycle_duration_days: days,
                payout_order: order,
                collateral_percentage: pct,
                dispute_window_hours: hours,
                current_round: 0,
                is_active: true,
                created_at: now,
                member_count: 1,
                max_members: max,
                total_volume: 0,
                min_trust_score: min_trust,
            })
            &&& t.members[member_key(o, o)] == (MemberView {
                address: o,
                contributions_made: 0,
                payouts_received: 0,
                collateral_locked: 0,
                default_count: 0,
                trust_score: 100,
                joined_at: now,
                last_contribution: 0,
                status: MemberStatus::Active,
                total_contributed: 0,
            })
            &&& t.rounds == s.rounds
            &&& forall|k| k != circle_key(o) ==> #[trigger] t.circles.contains_key(k)
                == s.circles.contains_key(k) && t.circles[k] == s.circles[k]
        }),
{
}

/// Joining is refused exactly when the circle is missing, inactive or
/// full, or the member is already in it (errors in that order). On success
/// the circle counts one more member and nothing else about it changes,
/// and the member is stored with a fresh record: no contributions,
/// payouts, collateral or defaults, trust 100, active, joined now.
pub proof fn lemma_join_exact(s: CirclefiState, now: u64, o: Seq<u8>, m: Seq<u8>)
    ensures
        join_circle_check(s, o, m) is None <==> {
            &&& s.circles.contains_key(circle_key(o))
            &&& s.circles[circle_key(o)].is_active
            &&& s.circles[circle_key(o)].member_count < s.circles[circle_key(o)].max_members
            &&& !s.members.contains_key(member_key(o, m))
        },
        !s.circles.contains_key(circle_key(o)) ==> join_circle_check(s, o, m) == Some(
            ErrorCode::CircleNotFound,
        ),
        s.circles.contains_key(circle_key(o)) && !s.circles[circle_key(o)].is_active
            ==> join_circle_check(s, o, m) == Some(ErrorCode::CircleNotActive),
        ({
            let c = s.circles[circle_key(o)];
            let t = join_circle_apply(s, now, o, m);
            join_circle_check(s, o, m) is None ==> {
                &&& t.circles[circle_key(o)] == (CircleView { member_count: (c.member_count + 1) as u32, ..c })
                &&& t.circles[circle_key(o)].member_count == c.member_count + 1
                &&& t.members[member_key(o, m)] == (MemberView {
                    address: m,
                    contributions_made: 0,
                    payouts_received: 0,
                    collateral_locked: 0,
                    default_count: 0,
                    trust_score: 100,
                    joined_at: now,
                    last_contribution: 0,
                    status: MemberStatus::Active,
                    total_contributed: 0,
                })
                &&& t.rounds == s.rounds
                &&& forall|k| k != member_key(o, m) ==> #[trigger] t.members.contains_key(k)
                    == s.members.contains_key(k) && t.members[k] == s.members[k]
            }
        }),
{
}

/// A contribution is refused exactly when the circle is missing or
/// inactive, the amount is not the circle's contribution, or the member is
/// missing or not active (errors in that order). On success only the
/// contributor's record and the circle's current round change: the member
/// counts exactly one more contribution, made now, and has contributed
/// `amount` more; the round (opened now, for a cycle, with the contributor
/// as recipient and the contract as resolver, if it had no record) counts
/// exactly one more contribution and its pot grows by exactly `amount`.
pub proof fn lemma_contribute_exact(
    s: CirclefiState,
    now: u64,
    contract: Seq<u8>,
    o: Seq<u8>,
    m: Seq<u8>,
    amount: i128,
)
    requires
        registry_inv(s),
        contribute_in_range(s, now, contract, o, m, amount),
    ensures
        contribute_check(s, o, m, amount) is None <==> {
            &&& s.circles.contains_key(circle_key(o))
            &&& s.circles[circle_key(o)].is_active
            &&& amount == s.circles[circle_key(o)].contribution_amount
            &&& s.members.contains_key(member_key(o, m))
            &&& s.members[member_key(o, m)].status == MemberStatus::Active
        },
        s.circles.contains_key(circle_key(o)) && s.circles[circle_key(o)].is_active && amount
            != s.circles[circle_key(o)].contribution_amount ==> contribute_check(s, o, m, amount)
            == Some(ErrorCode::InvalidAmount),
        ({
            let c = s.circles[circle_key(o)];
            let old_m = s.members[member_key(o, m)];
            let k = round_key(o, c.current_round);
            let t = contribute_apply(s, now, contract, o, m, amount);
            let new_m = t.members[member_key(o, m)];
            let r = t.rounds[k];
            contribute_check(s, o, m, amount) is None ==> {
                &&& new_m.contributions_made == old_m.contributions_made + 1
                &&& new_m.last_contribution == now
                &&& new_m.total_contributed == old_m.total_contributed + amount
                &&& new_m.address == old_m.address
                &&& new_m.payouts_received == old_m.payouts_received
                &&& new_m.collateral_locked == old_m.collateral_locked
                &&& new_m.default_count == old_m.default_count
                &&& new_m.trust_score == old_m.trust_score
                &&& new_m.joined_at == old_m.joined_at
                &&& new_m.status == old_m.status
                &&& s.rounds.contains_key(k) ==> {
                    &&& r.total_pot == s.rounds[k].total_pot + amount
                    &&& r.contributions_received == s.rounds[k].contributions_received + 1
                    &&& r == (RoundView {
                        total_pot: r.total_pot,
                        contributions_received: r.contributions_received,
                        ..s.rounds[k]
                    })
                }
                &&& !s.rounds.contains_key(k) ==> r == (RoundView {
                    circle: o,
                    round_id: c.current_round,
                    start_time: now,
                    end_time: (now + c.cycle_duration_days * 86400) as u64,
                    total_pot: amount,
                    payout_recipient: m,
                    highest_bid: 0,
                    contributions_received: 1,
                    member_count: c.member_count,
                    disputed: false,
                    dispute_resolver: contract,
                    is_finalized: false,
                })
                &&& t.circles == s.circles
                &&& t.rounds.contains_key(k)
                &&& forall|x| x != k ==> #[trigger] t.rounds.contains_key(x) == s.rounds.contains_key(x)
                    && t.rounds[x] == s.rounds[x]
                &&& forall|x| x != member_key(o, m) ==> #[trigger] t.members.contains_key(x)
                    == s.members.contains_key(x) && t.members[x] == s.members[x]
            }
        }),
{
    let c = s.circles[circle_key(o)];
    let k = round_key(o, c.current_round);
    if contribute_check(s, o, m, amount) is None && !s.rounds.contains_key(k) {
        let t = contribute_apply(s, now, contract, o, m, amount);
        assert(t.rounds[k].total_pot == amount);
    }
}

/// A bid is refused exactly when the circle is missing, does not pay out
/// by bid, the bid is not positive, or the current round has no record
/// (errors in that order); any positive bid, however large, is taken. On
/// success only the current round can change: a bid above its highest
/// becomes the highest, with the bidder as recipient; any other bid leaves
/// it as it is.
pub proof fn lemma_place_bid_exact(s: CirclefiState, o: Seq<u8>, member: Seq<u8>, bid: i128)
    ensures
        place_bid_check(s, o, bid) is None <==> {
            &&& s.circles.contains_key(circle_key(o))
            &&& s.circles[circle_key(o)].payout_order == PayoutOrder::Bid
            &&& bid > 0
            &&& s.rounds.contains_key(round_key(o, s.circles[circle_key(o)].current_round))
        },
        !s.circles.contains_key(circle_key(o)) ==> place_bid_check(s, o, bid) == Some(
            ErrorCode::CircleNotFound,
        ),
        s.circles.contains_key(circle_key(o)) && s.circles[circle_key(o)].payout_order
            != PayoutOrder::Bid ==> place_bid_check(s, o, bid) == Some(ErrorCode::InvalidPayoutOrder),
        s.circles.contains_key(circle_key(o)) && s.circles[circle_key(o)].payout_order
            == PayoutOrder::Bid && bid <= 0 ==> place_bid_check(s, o, bid) == Some(
            ErrorCode::InvalidAmount,
        ),
        ({
            let k = round_key(o, s.circles[circle_key(o)].current_round);
            let r = s.rounds[k];
            let t = place_bid_apply(s, o, member, bid);
            place_bid_check(s, o, bid) is None ==> {
                &&& bid > r.highest_bid ==> t.rounds[k] == (RoundView {
                    highest_bid: bid,
                    payout_recipient: member,
                    ..r
                })
                &&& bid <= r.highest_bid ==> t.rounds[k] == r
                &&& t.rounds.dom() == s.rounds.dom()
                &&& forall|x| x != k ==> #[trigger] t.rounds[x] == s.rounds[x]
                &&& t.circles == s.circles
                &&& t.members == s.members
            }
        }),
{
    let k = round_key(o, s.circles[circle_key(o)].current_round);
    if place_bid_check(s, o, bid) is None {
        assert(place_bid_apply(s, o, member, bid).rounds.dom() =~= s.rounds.dom());
    }
}

/// A default is refused exactly when the circle or the member is missing.
/// On success only the member's record changes: one more default; the
/// collateral locked is the circle's percentage of a contribution, rounded
/// down; the trust score drops by 15 per default on record, and when that
/// reaches or passes the score, the score is 0 and the member suspended,
/// otherwise the member is marked defaulted.
pub proof fn lemma_trigger_default_exact(s: CirclefiState, o: Seq<u8>, m: Seq<u8>)
    requires
        registry_inv(s),
        trigger_default_in_range(s, o, m),
    ensures
        trigger_default_check(s, o, m) is None <==> s.circles.contains_key(circle_key(o))
            && s.members.contains_key(member_key(o, m)),
        ({
            let c = s.circles[circle_key(o)];
            let old_m = s.members[member_key(o, m)];
            let new_m = trigger_default_apply(s, o, m).members[member_key(o, m)];
            let penalty = 15 * (old_m.default_count + 1);
            trigger_default_check(s, o, m) is None ==> {
                &&& new_m.default_count == old_m.default_count + 1
                &&& new_m.collateral_locked * 100 <= c.contribution_amount * c.collateral_percentage
                &&& c.contribution_amount * c.collateral_percentage < (new_m.collateral_locked + 1)
                    * 100
                &&& penalty >= old_m.trust_score ==> new_m.trust_score == 0 && new_m.status
                    == MemberStatus::Suspended
                &&& penalty < old_m.trust_score ==> new_m.trust_score == old_m.trust_score - penalty
                    && new_m.status == MemberStatus::Defaulted
                &&& new_m.address == old_m.address
                &&& new_m.contributions_made == old_m.contributions_made
                &&& new_m.payouts_received == old_m.payouts_received
                &&& new_m.total_contributed == old_m.total_contributed
                &&& trigger_default_apply(s, o, m).circles == s.circles
                &&& trigger_default_apply(s, o, m).rounds == s.rounds
            }
        }),
{
    let c = s.circles[circle_key(o)];
    if trigger_default_check(s, o, m) is None {
        assert(c.contribution_amount > 0);
        let p = c.contribution_amount * c.collateral_percentage;
        assert(0 <= p);
        assert((p / 100) * 100 <= p && p < (p / 100 + 1) * 100) by (nonlinear_arith)
            requires
                0 <= p,
        ;
    }
}

/// A payout raises a trust score below full trust by exactly 5, capped at
/// 100, and leaves a score at or above 100 as it is.
pub proof fn lemma_payout_bonus_exact(score: u32)
    ensures
        score < 100 && score + 5 <= 100 ==> rewarded_trust(score) == score + 5,
        score < 100 && score + 5 > 100 ==> rewarded_trust(score) == 100,
        score >= 100 ==> rewarded_trust(score) == score,
{
}

/// Finalizing is refused exactly when the circle or round is missing, the
/// round is already finalized, or the recipient is not a member (errors in
/// that order). On success the round is finalized with the recipient as
/// its recipient, and the recipient counts exactly one more payout and
/// gains 5 trust (capped at 100; a score at or above 100 stays).
pub proof fn lemma_finalize_round_exact(s: CirclefiState, o: Seq<u8>, id: u32, p: Seq<u8>)
    requires
        finalize_round_in_range(s, o, id, p),
    ensures
        finalize_round_check(s, o, id, p) is None <==> {
            &&& s.circles.contains_key(circle_key(o))
            &&& s.rounds.contains_key(round_key(o, id))
            &&& !s.rounds[round_key(o, id)].is_finalized
            &&& s.members.contains_key(member_key(o, p))
        },
        s.circles.contains_key(circle_key(o)) && s.rounds.contains_key(round_key(o, id))
            && s.rounds[round_key(o, id)].is_finalized ==> finalize_round_check(s, o, id, p)
            == Some(ErrorCode::RoundNotEnded),
        ({
            let old_m = s.members[member_key(o, p)];
            let t = finalize_round_apply(s, o, id, p);
            let new_m = t.members[member_key(o, p)];
            finalize_round_check(s, o, id, p) is None ==> {
                &&& t.rounds[round_key(o, id)] == (RoundView {
                    is_finalized: true,
                    payout_recipient: p,
                    ..s.rounds[round_key(o, id)]
                })
                &&& new_m.payouts_received == old_m.payouts_received + 1
                &&& old_m.trust_score + 5 <= 100 ==> new_m.trust_score == old_m.trust_score + 5
                &&& old_m.trust_score < 100 && old_m.trust_score + 5 > 100 ==> new_m.trust_score
                    == 100
                &&& old_m.trust_score >= 100 ==> new_m.trust_score == old_m.trust_score
                &&& new_m == (MemberView {
                    payouts_received: new_m.payouts_received,
                    trust_score: new_m.trust_score,
                    ..old_m
                })
                &&& t.circles == s.circles
            }
        }),
{
}

/// A dispute is refused exactly when the round is missing, already
/// disputed, or its window (the circle's dispute hours after the round's
/// end) has passed. On success the round is disputed with the disputer as
/// resolver, and nothing else changes.
pub proof fn lemma_dispute_payout_exact(s: CirclefiState, now: u64, o: Seq<u8>, d: Seq<u8>, id: u32)
    ensures
        s.circles.contains_key(circle_key(o)) ==> (dispute_payout_check(s, now, o, id) is None <==> {
            &&& s.rounds.contains_key(round_key(o, id))
            &&& !s.rounds[round_key(o, id)].disputed
            &&& now <= s.rounds[round_key(o, id)].end_time + s.circles[circle_key(
                o,
            )].dispute_window_hours * 3600
        }),
        dispute_payout_check(s, now, o, id) is None ==> dispute_payout_apply(s, o, d, id).rounds[round_key(
            o,
            id,
        )] == (RoundView { disputed: true, dispute_resolver: d, ..s.rounds[round_key(o, id)] }),
        dispute_payout_apply(s, o, d, id).circles == s.circles,
        dispute_payout_apply(s, o, d, id).members == s.members,
{
}

/// Ending a round is refused exactly when the circle or its current round
/// is missing, or the round's end time has not come. On success the
/// circle moves to the next round, its volume grows by exactly the round's
/// pot, and the round is finalized.
pub proof fn lemma_end_round_exact(s: CirclefiState, now: u64, o: Seq<u8>)
    requires
        end_round_in_range(s, now, o),
    ensures
        end_round_check(s, now, o) is None <==> {
            &&& s.circles.contains_key(circle_key(o))
            &&& s.rounds.contains_key(round_key(o, s.circles[circle_key(o)].current_round))
            &&& now >= s.rounds[round_key(o, s.circles[circle_key(o)].current_round)].end_time
        },
        ({
            let c = s.circles[circle_key(o)];
            let r = s.rounds[round_key(o, c.current_round)];
            let t = end_round_apply(s, o);
            end_round_check(s, now, o) is None ==> {
                &&& t.circles[circle_key(o)].current_round == c.current_round + 1
                &&& t.circles[circle_key(o)].total_volume == c.total_volume + r.total_pot
                &&& t.circles[circle_key(o)] == (CircleView {
                    current_round: t.circles[circle_key(o)].current_round,
                    total_volume: t.circles[circle_key(o)].total_volume,
                    ..c
                })
                &&& t.rounds[round_key(o, r.round_id)] == (RoundView { is_finalized: true, ..r })
                &&& t.members == s.members
            }
        }),
{
}

/// Deactivating is refused exactly when the circle is missing; on success
/// the circle is inactive and nothing else about it changes.
pub proof fn lemma_deactivate_exact(s: CirclefiState, o: Seq<u8>)
    ensures
        deactivate_circle_check(s, o) is None <==> s.circles.contains_key(circle_key(o)),
        deactivate_circle_check(s, o) is None ==> deactivate_circle_apply(s, o).circles[circle_key(o)]
            == (CircleView { is_active: false, ..s.circles[circle_key(o)] }),
        deactivate_circle_apply(s, o).members == s.members,
        deactivate_circle_apply(s, o).rounds == s.rounds,
{
}

} // verus!
