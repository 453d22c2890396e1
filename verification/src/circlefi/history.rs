//! The registry over a history of calls: every operation as one step, the
//! storage a history of steps leaves, and what holds of every storage that
//! histories starting from an empty registry reach.

use vstd::prelude::*;

use super::spec::{
    CirclefiState, FULL_TRUST, circle_key, empty_state, contribute_apply, contribute_check, contribute_in_range,
    create_circle_apply, create_circle_check, deactivate_circle_apply, deactivate_circle_check,
    dispute_payout_apply, dispute_payout_check, dispute_payout_in_range, end_round_apply,
    end_round_check, end_round_in_range, finalize_round_apply, finalize_round_check,
    finalize_round_in_range, initialize_apply, join_circle_apply, join_circle_check, member_key,
    outcome, place_bid_apply, place_bid_check, round_key, trigger_default_apply,
    rewarded_trust, trigger_default_check, trigger_default_in_range,
};
use super::types::{DataKeyView, ErrorCode, MemberStatus, PayoutOrder, RoundView};

verus! {

/// One call of a registry operation that can change storage, with its
/// arguments (addresses as their encodings, and what it reads from the
/// ledger).
pub enum Op {
    Initialize,
    CreateCircle {
        now: u64,
        owner: Seq<u8>,
        name: Seq<u8>,
        contribution_amount: i128,
        cycle_duration_days: u32,
        payout_order: PayoutOrder,
        collateral_percentage: u32,
        dispute_window_hours: u32,
        max_members: u32,
        min_trust_score: u32,
    },
    JoinCircle { now: u64, owner: Seq<u8>, member: Seq<u8> },
    Contribute { now: u64, contract: Seq<u8>, owner: Seq<u8>, member: Seq<u8>, amount: i128 },
    PlaceBid { owner: Seq<u8>, member: Seq<u8>, bid_amount: i128 },
    TriggerDefault { owner: Seq<u8>, member: Seq<u8> },
    DisputePayout { now: u64, owner: Seq<u8>, disputer: Seq<u8>, round_id: u32 },
    EndRound { now: u64, owner: Seq<u8> },
    FinalizeRound { owner: Seq<u8>, round_id: u32, recipient: Seq<u8> },
    DeactivateCircle { owner: Seq<u8> },
}

/// The storage after one call, and what the call answered (a created
/// circle's address is not kept here).
pub open spec fn step(s: CirclefiState, op: Op) -> (CirclefiState, Result<(), ErrorCode>) {
    match op {
        Op::Initialize => (initialize_apply(s), Ok(())),
        Op::CreateCircle {
            now,
            owner,
            name,
            contribution_amount,
            cycle_duration_days,
            payout_order,
            collateral_percentage,
            dispute_window_hours,
            max_members,
            min_trust_score,
        } => outcome(
            s,
            create_circle_check(
                contribution_amount,
                cycle_duration_days,
                collateral_percentage,
                dispute_window_hours,
                max_members,
                min_trust_score,
            ),
            create_circle_apply(
                s,
                now,
                owner,
                name,
                contribution_amount,
                cycle_duration_days,
                payout_order,
                collateral_percentage,
                dispute_window_hours,
                max_members,
                min_trust_score,
            ),
        ),
        Op::JoinCircle { now, owner, member } => outcome(
            s,
            join_circle_check(s, owner, member),
            join_circle_apply(s, now, owner, member),
        ),
        Op::Contribute { now, contract, owner, member, amount } => outcome(
            s,
            contribute_check(s, owner, member, amount),
            contribute_apply(s, now, contract, owner, member, amount),
        ),
        Op::PlaceBid { owner, member, bid_amount } => outcome(
            s,
            place_bid_check(s, owner, bid_amount),
            place_bid_apply(s, owner, member, bid_amount),
        ),
        Op::TriggerDefault { owner, member } => outcome(
            s,
            trigger_default_check(s, owner, member),
            trigger_default_apply(s, owner, member),
        ),
        Op::DisputePayout { now, owner, disputer, round_id } => outcome(
            s,
            dispute_payout_check(s, now, owner, round_id),
            dispute_payout_apply(s, owner, disputer, round_id),
        ),
        Op::EndRound { now, owner } => outcome(
            s,
            end_round_check(s, now, owner),
            end_round_apply(s, owner),
        ),
        Op::FinalizeRound { owner, round_id, recipient } => outcome(
            s,
            finalize_round_check(s, owner, round_id, recipient),
            finalize_round_apply(s, owner, round_id, recipient),
        ),
        Op::DeactivateCircle { owner } => outcome(
            s,
            deactivate_circle_check(s, owner),
            deactivate_circle_apply(s, owner),
        ),
    }
}

/// The call keeps its arithmetic within its types (the contract traps
/// where it would not).
pub open spec fn step_in_range(s: CirclefiState, op: Op) -> bool {
    match op {
        Op::Contribute { now, contract, owner, member, amount } => contribute_in_range(
            s,
            now,
            contract,
            owner,
            member,
            amount,
        ),
        Op::TriggerDefault { owner, member } => trigger_default_in_range(s, owner, member),
        Op::DisputePayout { now, owner, disputer, round_id } => dispute_payout_in_range(
            s,
            owner,
            round_id,
        ),
        Op::EndRound { now, owner } => end_round_in_range(s, now, owner),
        Op::FinalizeRound { owner, round_id, recipient } => finalize_round_in_range(
            s,
            owner,
            round_id,
            recipient,
        ),
        _ => true,
    }
}

/// The call does not create a circle for an owner that already has one.
pub open spec fn no_recreate(s: CirclefiState, op: Op) -> bool {
    op matches Op::CreateCircle { owner, .. } ==> !s.circles.contains_key(circle_key(owner))
}

/// The storage after the calls `ops`, in order, starting from `s`.
pub open spec fn run(s: CirclefiState, ops: Seq<Op>) -> CirclefiState
    decreases ops.len(),
{
    if ops.len() == 0 {
        s
    } else {
        step(run(s, ops.drop_last()), ops.last()).0
    }
}

/// What call `i` of `ops`, run from `s`, answered.
pub open spec fn result_at(s: CirclefiState, ops: Seq<Op>, i: int) -> Result<(), ErrorCode> {
    step(run(s, ops.take(i)), ops[i]).1
}

/// Every call of `ops`, run from `s`, keeps its arithmetic in range.
pub open spec fn history_in_range(s: CirclefiState, ops: Seq<Op>) -> bool
    decreases ops.len(),
{
    ops.len() == 0 || (history_in_range(s, ops.drop_last()) && step_in_range(
        run(s, ops.drop_last()),
        ops.last(),
    ))
}

/// No call of `ops`, run from `s`, creates a circle over an existing one.
pub open spec fn history_no_recreate(s: CirclefiState, ops: Seq<Op>) -> bool
    decreases ops.len(),
{
    ops.len() == 0 || (history_no_recreate(s, ops.drop_last()) && no_recreate(
        run(s, ops.drop_last()),
        ops.last(),
    ))
}

/// The call creates the circle of `o`.
pub open spec fn creates_circle(op: Op, o: Seq<u8>) -> bool {
    op matches Op::CreateCircle { owner, .. } && owner == o
}

/// The call stores the record of `m` in the circle of `o`: the owner on
/// creating it, or a member on joining it.
pub open spec fn adds_member(op: Op, o: Seq<u8>, m: Seq<u8>) -> bool {
    ||| (op matches Op::CreateCircle { owner, .. } && owner == o && m == o)
    ||| (op matches Op::JoinCircle { owner, member, .. } && owner == o && member == m)
}

/// The call is a contribution to the circle of `o` while its current round
/// is `r`.
pub open spec fn opens_round(s: CirclefiState, op: Op, o: Seq<u8>, r: u32) -> bool {
    &&& op matches Op::Contribute { owner, .. } && owner == o
    &&& s.circles.contains_key(circle_key(o))
    &&& s.circles[circle_key(o)].current_round == r
}

/// The records of the registry hang together: each round and member
/// record belongs to a stored circle under the key it is stored at; each
/// circle is stored under its owner, has its owner as a member, and has a
/// record of every round before its current one; trust scores are
/// multiples of five, at most full trust.
pub open spec fn records_consistent(s: CirclefiState) -> bool {
    &&& forall|o: Seq<u8>, id: u32| #[trigger]
        s.rounds.contains_key(round_key(o, id)) ==> {
            &&& s.circles.contains_key(circle_key(o))
            &&& s.rounds[round_key(o, id)].round_id == id
            &&& s.rounds[round_key(o, id)].circle == o
        }
    &&& forall|o: Seq<u8>, m: Seq<u8>| #[trigger]
        s.members.contains_key(member_key(o, m)) ==> {
            &&& s.circles.contains_key(circle_key(o))
            &&& s.members[member_key(o, m)].address == m
            &&& s.members[member_key(o, m)].trust_score % 5 == 0
            &&& s.members[member_key(o, m)].trust_score <= FULL_TRUST
        }
    &&& forall|o: Seq<u8>| #[trigger]
        s.circles.contains_key(circle_key(o)) ==> {
            &&& s.circles[circle_key(o)].owner == o
            &&& s.members.contains_key(member_key(o, o))
            &&& forall|r: u32|
                r < s.circles[circle_key(o)].current_round ==> #[trigger] s.rounds.contains_key(
                    round_key(o, r),
                )
        }
}

/// The sum of the pots of the first `n` rounds of the circle of `o`.
pub open spec fn volume(rounds: Map<DataKeyView, RoundView>, o: Seq<u8>, n: nat) -> int
    decreases n,
{
    if n == 0 {
        0
    } else {
        volume(rounds, o, (n - 1) as nat) + rounds[round_key(o, (n - 1) as u32)].total_pot
    }
}

/// Each circle's volume is the sum of the pots of its ended rounds.
pub open spec fn volume_consistent(s: CirclefiState) -> bool {
    forall|o: Seq<u8>| #[trigger]
        s.circles.contains_key(circle_key(o)) ==> s.circles[circle_key(o)].total_volume == volume(
            s.rounds,
            o,
            s.circles[circle_key(o)].current_round as nat,
        )
}

/// Each round's pot is its contributions times its circle's contribution.
pub open spec fn pot_consistent(s: CirclefiState) -> bool {
    forall|o: Seq<u8>, id: u32| #[trigger]
        s.rounds.contains_key(round_key(o, id)) ==> s.rounds[round_key(o, id)].total_pot
            == s.rounds[round_key(o, id)].contributions_received * s.circles[circle_key(
            o,
        )].contribution_amount
}

proof fn lemma_create_records(
    s: CirclefiState,
    now: u64,
    owner: Seq<u8>,
    name: Seq<u8>,
    contribution_amount: i128,
    cycle_duration_days: u32,
    payout_order: PayoutOrder,
    collateral_percentage: u32,
    dispute_window_hours: u32,
    max_members: u32,
    min_trust_score: u32,
)
    requires
        records_consistent(s),
    ensures
        ({
            let t = create_circle_apply(
                s,
                now,
                owner,
                name,
                contribution_amount,
                cycle_duration_days,
                payout_order,
                collateral_percentage,
                dispute_window_hours,
                max_members,
                min_trust_score,
            );
            &&& records_consistent(t)
            &&& t.circles.dom() == s.circles.dom().insert(circle_key(owner))
            &&& t.members.dom() == s.members.dom().insert(member_key(owner, owner))
            &&& t.rounds == s.rounds
        }),
{
    let t = create_circle_apply(
        s,
        now,
        owner,
        name,
        contribution_amount,
        cycle_duration_days,
        payout_order,
        collateral_percentage,
        dispute_window_hours,
        max_members,
        min_trust_score,
    );
    assert(t.circles.dom() =~= s.circles.dom().insert(circle_key(owner)));
    assert(t.members.dom() =~= s.members.dom().insert(member_key(owner, owner)));
    assert forall|o: Seq<u8>| #[trigger] t.circles.contains_key(circle_key(o)) implies {
        &&& t.circles[circle_key(o)].owner == o
        &&& t.members.contains_key(member_key(o, o))
        &&& forall|r: u32|
            r < t.circles[circle_key(o)].current_round ==> #[trigger] t.rounds.contains_key(
                round_key(o, r),
            )
    } by {
        if o != owner {
            assert(s.circles.contains_key(circle_key(o)));
        }
    }
}

proof fn lemma_join_records(s: CirclefiState, now: u64, owner: Seq<u8>, member: Seq<u8>)
    requires
        records_consistent(s),
        join_circle_check(s, owner, member) is None,
    ensures
        ({
            let t = join_circle_apply(s, now, owner, member);
            &&& records_consistent(t)
            &&& t.circles.dom() == s.circles.dom()
            &&& t.members.dom() == s.members.dom().insert(member_key(owner, member))
            &&& t.rounds == s.rounds
        }),
{
    let t = join_circle_apply(s, now, owner, member);
    assert(t.circles.dom() =~= s.circles.dom());
    assert(t.members.dom() =~= s.members.dom().insert(member_key(owner, member)));
}

proof fn lemma_contribute_records(
    s: CirclefiState,
    now: u64,
    contract: Seq<u8>,
    owner: Seq<u8>,
    member: Seq<u8>,
    amount: i128,
)
    requires
        records_consistent(s),
        contribute_check(s, owner, member, amount) is None,
    ensures
        ({
            let t = contribute_apply(s, now, contract, owner, member, amount);
            &&& records_consistent(t)
            &&& t.circles == s.circles
            &&& t.members.dom() == s.members.dom()
            &&& t.rounds.dom() == s.rounds.dom().insert(
                round_key(owner, s.circles[circle_key(owner)].current_round),
            )
        }),
{
    let t = contribute_apply(s, now, contract, owner, member, amount);
    assert(t.members.dom() =~= s.members.dom());
    assert(t.rounds.dom() =~= s.rounds.dom().insert(
        round_key(owner, s.circles[circle_key(owner)].current_round),
    ));
}

proof fn lemma_round_update_records(s: CirclefiState, t: CirclefiState, o: Seq<u8>, id: u32)
    requires
        records_consistent(s),
        s.rounds.contains_key(round_key(o, id)),
        t.circles == s.circles,
        t.members == s.members,
        t.rounds == s.rounds.insert(round_key(o, id), t.rounds[round_key(o, id)]),
        t.rounds[round_key(o, id)].round_id == id,
        t.rounds[round_key(o, id)].circle == o,
    ensures
        records_consistent(t),
        t.rounds.dom() == s.rounds.dom(),
{
    assert(t.rounds.dom() =~= s.rounds.dom());
}

proof fn lemma_member_update_records(s: CirclefiState, t: CirclefiState, o: Seq<u8>, m: Seq<u8>)
    requires
        records_consistent(s),
        s.members.contains_key(member_key(o, m)),
        t.circles == s.circles,
        t.rounds == s.rounds,
        t.members == s.members.insert(member_key(o, m), t.members[member_key(o, m)]),
        t.members[member_key(o, m)].address == m,
        t.members[member_key(o, m)].trust_score % 5 == 0,
        t.members[member_key(o, m)].trust_score <= FULL_TRUST,
    ensures
        records_consistent(t),
        t.members.dom() == s.members.dom(),
{
    assert(t.members.dom() =~= s.members.dom());
}

proof fn lemma_end_round_records(s: CirclefiState, now: u64, owner: Seq<u8>)
    requires
        records_consistent(s),
        end_round_check(s, now, owner) is None,
    ensures
        ({
            let t = end_round_apply(s, owner);
            &&& records_consistent(t)
            &&& t.circles.dom() == s.circles.dom()
            &&& t.members == s.members
            &&& t.rounds.dom() == s.rounds.dom()
        }),
{
    let t = end_round_apply(s, owner);
    let c = s.circles[circle_key(owner)];
    assert(s.rounds.contains_key(round_key(owner, c.current_round)));
    assert(t.circles.dom() =~= s.circles.dom());
    assert(t.rounds.dom() =~= s.rounds.dom());
    assert forall|o: Seq<u8>| #[trigger] t.circles.contains_key(circle_key(o)) implies {
        &&& t.circles[circle_key(o)].owner == o
        &&& t.members.contains_key(member_key(o, o))
        &&& forall|x: u32|
            x < t.circles[circle_key(o)].current_round ==> #[trigger] t.rounds.contains_key(
                round_key(o, x),
            )
    } by {
        assert(s.circles.contains_key(circle_key(o)));
        assert forall|x: u32|
            x < t.circles[circle_key(o)].current_round implies #[trigger] t.rounds.contains_key(
            round_key(o, x),
        ) by {
            if o == owner && x == c.current_round {
            } else {
                assert(s.rounds.contains_key(round_key(o, x)));
            }
        }
    }
}

proof fn lemma_trust_steps_keep_fives(score: u32, defaults: int)
    requires
        score % 5 == 0,
        score <= FULL_TRUST,
        defaults >= 1,
    ensures
        rewarded_trust(score) % 5 == 0,
        rewarded_trust(score) <= FULL_TRUST,
        15 * defaults < score ==> (score - 15 * defaults) % 5 == 0,
{
    assert(15 * defaults < score ==> (score - 15 * defaults) % 5 == 0) by (nonlinear_arith)
        requires
            score % 5 == 0,
    ;
}

/// What one call does to the set of records: it keeps every record there
/// was; it adds a circle only by creating it, a member only by creating
/// the circle (its owner) or joining it, and a round only by contributing
/// to the circle while that round is current. The records hang together
/// afterwards as they did before.
pub proof fn lemma_step_records(s: CirclefiState, op: Op)
    requires
        records_consistent(s),
    ensures
        records_consistent(step(s, op).0),
        forall|o: Seq<u8>|
            #[trigger] step(s, op).0.circles.contains_key(circle_key(o)) <==> (s.circles.contains_key(
                circle_key(o),
            ) || (creates_circle(op, o) && step(s, op).1 is Ok)),
        forall|o: Seq<u8>, m: Seq<u8>|
            #[trigger] step(s, op).0.members.contains_key(member_key(o, m)) <==> (
            s.members.contains_key(member_key(o, m)) || (adds_member(op, o, m) && step(s, op).1 is Ok)),
        forall|o: Seq<u8>, r: u32|
            #[trigger] step(s, op).0.rounds.contains_key(round_key(o, r)) <==> (s.rounds.contains_key(
                round_key(o, r),
            ) || (opens_round(s, op, o, r) && step(s, op).1 is Ok)),
{
    match op {
        Op::Initialize => {},
        Op::CreateCircle {
            now,
            owner,
            name,
            contribution_amount,
            cycle_duration_days,
            payout_order,
            collateral_percentage,
            dispute_window_hours,
            max_members,
            min_trust_score,
        } => {
            lemma_create_records(
                s,
                now,
                owner,
                name,
                contribution_amount,
                cycle_duration_days,
                payout_order,
                collateral_percentage,
                dispute_window_hours,
                max_members,
                min_trust_score,
            );
        },
        Op::JoinCircle { now, owner, member } => {
            if join_circle_check(s, owner, member) is None {
                lemma_join_records(s, now, owner, member);
            }
        },
        Op::Contribute { now, contract, owner, member, amount } => {
            if contribute_check(s, owner, member, amount) is None {
                lemma_contribute_records(s, now, contract, owner, member, amount);
            }
        },
        Op::PlaceBid { owner, member, bid_amount } => {
            if place_bid_check(s, owner, bid_amount) is None {
                let id = s.circles[circle_key(owner)].current_round;
                lemma_round_update_records(s, step(s, op).0, owner, id);
            }
        },
        Op::TriggerDefault { owner, member } => {
            if trigger_default_check(s, owner, member) is None {
                let m = s.members[member_key(owner, member)];
                lemma_trust_steps_keep_fives(m.trust_score, m.default_count + 1);
                lemma_member_update_records(s, step(s, op).0, owner, member);
            }
        },
        Op::DisputePayout { now, owner, disputer, round_id } => {
            if dispute_payout_check(s, now, owner, round_id) is None {
                lemma_round_update_records(s, step(s, op).0, owner, round_id);
            }
        },
        Op::EndRound { now, owner } => {
            if end_round_check(s, now, owner) is None {
                lemma_end_round_records(s, now, owner);
            }
        },
        Op::FinalizeRound { owner, round_id, recipient } => {
            if finalize_round_check(s, owner, round_id, recipient) is None {
                let t = step(s, op).0;
                let m = s.members[member_key(owner, recipient)];
                lemma_trust_steps_keep_fives(m.trust_score, 1);
                let mid = CirclefiState { members: t.members, ..s };
                lemma_member_update_records(s, mid, owner, recipient);
                lemma_round_update_records(mid, t, owner, round_id);
            }
        },
        Op::DeactivateCircle { owner } => {
            if deactivate_circle_check(s, owner) is None {
                assert(step(s, op).0.circles.dom() =~= s.circles.dom());
            }
        },
    }
}

proof fn lemma_volume_frame(r1: Map<DataKeyView, RoundView>, r2: Map<DataKeyView, RoundView>, o: Seq<u8>, n: nat)
    requires
        n <= u32::MAX + 1,
        forall|x: u32| x < n ==> #[trigger] r1[round_key(o, x)].total_pot == r2[round_key(o, x)].total_pot,
    ensures
        volume(r1, o, n) == volume(r2, o, n),
    decreases n,
{
    if n > 0 {
        lemma_volume_frame(r1, r2, o, (n - 1) as nat);
        assert(r1[round_key(o, (n - 1) as u32)].total_pot == r2[round_key(o, (n - 1) as u32)].total_pot);
    }
}

/// The circles keep their rounds, contributions and volumes, and every
/// round keeps its pot and its count of contributions.
pub open spec fn totals_kept(s: CirclefiState, t: CirclefiState) -> bool {
    &&& t.circles.dom() == s.circles.dom()
    &&& forall|o: Seq<u8>| #[trigger]
        t.circles.contains_key(circle_key(o)) ==> {
            &&& t.circles[circle_key(o)].current_round == s.circles[circle_key(o)].current_round
            &&& t.circles[circle_key(o)].total_volume == s.circles[circle_key(o)].total_volume
            &&& t.circles[circle_key(o)].contribution_amount == s.circles[circle_key(
                o,
            )].contribution_amount
        }
    &&& t.rounds.dom() == s.rounds.dom()
    &&& forall|k: DataKeyView| #[trigger]
        t.rounds.contains_key(k) ==> t.rounds[k].total_pot == s.rounds[k].total_pot
            && t.rounds[k].contributions_received == s.rounds[k].contributions_received
}

proof fn lemma_totals_kept(s: CirclefiState, t: CirclefiState)
    requires
        records_consistent(s),
        totals_kept(s, t),
        volume_consistent(s),
        pot_consistent(s),
    ensures
        volume_consistent(t),
        pot_consistent(t),
{
    assert forall|o: Seq<u8>| #[trigger] t.circles.contains_key(circle_key(o)) implies t.circles[circle_key(
        o,
    )].total_volume == volume(t.rounds, o, t.circles[circle_key(o)].current_round as nat) by {
        assert(s.circles.contains_key(circle_key(o)));
        let n = s.circles[circle_key(o)].current_round;
        assert forall|x: u32| x < n implies #[trigger] s.rounds[round_key(o, x)].total_pot
            == t.rounds[round_key(o, x)].total_pot by {
            assert(s.rounds.contains_key(round_key(o, x)));
            assert(t.rounds.contains_key(round_key(o, x)));
        }
        lemma_volume_frame(s.rounds, t.rounds, o, n as nat);
    }
    assert forall|o: Seq<u8>, id: u32| #[trigger] t.rounds.contains_key(round_key(o, id)) implies t.rounds[round_key(
        o,
        id,
    )].total_pot == t.rounds[round_key(o, id)].contributions_received * t.circles[circle_key(
        o,
    )].contribution_amount by {
        assert(s.rounds.contains_key(round_key(o, id)));
        assert(s.circles.contains_key(circle_key(o)));
        assert(t.circles.contains_key(circle_key(o)));
    }
}

/// A call in range keeps each circle's volume the sum of the pots of its
/// ended rounds; a call in range that creates no circle over an existing
/// one keeps each round's pot its contributions times the contribution.
pub proof fn lemma_step_totals(s: CirclefiState, op: Op)
    requires
        records_consistent(s),
        volume_consistent(s),
        step_in_range(s, op),
    ensures
        volume_consistent(step(s, op).0),
        pot_consistent(s) && no_recreate(s, op) ==> pot_consistent(step(s, op).0),
{
    let t = step(s, op).0;
    lemma_step_records(s, op);
    match op {
        Op::CreateCircle {
            now,
            owner,
            name,
            contribution_amount,
            cycle_duration_days,
            payout_order,
            collateral_percentage,
            dispute_window_hours,
            max_members,
            min_trust_score,
        } => {
            if step(s, op).1 is Ok {
                assert forall|o: Seq<u8>| #[trigger] t.circles.contains_key(circle_key(o)) implies t.circles[circle_key(
                    o,
                )].total_volume == volume(t.rounds, o, t.circles[circle_key(o)].current_round as nat) by {
                    if o != owner {
                        assert(s.circles.contains_key(circle_key(o)));
                    }
                }
                if pot_consistent(s) && no_recreate(s, op) {
                    assert forall|o: Seq<u8>, id: u32| #[trigger] t.rounds.contains_key(round_key(o, id)) implies t.rounds[round_key(
                        o,
                        id,
                    )].total_pot == t.rounds[round_key(o, id)].contributions_received * t.circles[circle_key(
                        o,
                    )].contribution_amount by {
                        assert(s.rounds.contains_key(round_key(o, id)));
                        assert(s.circles.contains_key(circle_key(o)));
                    }
                }
            }
        },
        Op::Contribute { now, contract, owner, member, amount } => {
            if contribute_check(s, owner, member, amount) is None {
                let c = s.circles[circle_key(owner)];
                let k = round_key(owner, c.current_round);
                assert forall|o: Seq<u8>| #[trigger] t.circles.contains_key(circle_key(o)) implies t.circles[circle_key(
                    o,
                )].total_volume == volume(t.rounds, o, t.circles[circle_key(o)].current_round as nat) by {
                    let n = s.circles[circle_key(o)].current_round;
                    assert forall|x: u32| x < n implies #[trigger] s.rounds[round_key(o, x)].total_pot
                        == t.rounds[round_key(o, x)].total_pot by {
                        assert(round_key(o, x) != k);
                    }
                    lemma_volume_frame(s.rounds, t.rounds, o, n as nat);
                }
                if pot_consistent(s) {
                    let r = s.rounds[k];
                    let was = if s.rounds.contains_key(k) { r.contributions_received as int } else { 0 };
                    let before = if s.rounds.contains_key(k) { r.total_pot as int } else { 0 };
                    assert(before == was * c.contribution_amount);
                    assert(before + amount == (was + 1) * c.contribution_amount) by (nonlinear_arith)
                        requires
                            before == was * c.contribution_amount,
                            amount == c.contribution_amount,
                    ;
                    assert forall|o: Seq<u8>, id: u32| #[trigger] t.rounds.contains_key(round_key(o, id)) implies t.rounds[round_key(
                        o,
                        id,
                    )].total_pot == t.rounds[round_key(o, id)].contributions_received * t.circles[circle_key(
                        o,
                    )].contribution_amount by {
                        if round_key(o, id) != k {
                            assert(s.rounds.contains_key(round_key(o, id)));
                        }
                    }
                }
            }
        },
        Op::EndRound { now, owner } => {
            if end_round_check(s, now, owner) is None {
                let c = s.circles[circle_key(owner)];
                let k = round_key(owner, c.current_round);
                let r = s.rounds[k];
                assert(r.round_id == c.current_round);
                assert forall|o: Seq<u8>| #[trigger] t.circles.contains_key(circle_key(o)) implies t.circles[circle_key(
                    o,
                )].total_volume == volume(t.rounds, o, t.circles[circle_key(o)].current_round as nat) by {
                    let n = s.circles[circle_key(o)].current_round;
                    assert forall|x: u32| x < n implies #[trigger] s.rounds[round_key(o, x)].total_pot
                        == t.rounds[round_key(o, x)].total_pot by {
                    }
                    lemma_volume_frame(s.rounds, t.rounds, o, n as nat);
                    if o == owner {
                        assert(volume(t.rounds, o, (n + 1) as nat) == volume(t.rounds, o, n as nat)
                            + t.rounds[k].total_pot);
                    }
                }
                if pot_consistent(s) {
                    assert forall|o: Seq<u8>, id: u32| #[trigger] t.rounds.contains_key(round_key(o, id)) implies t.rounds[round_key(
                        o,
                        id,
                    )].total_pot == t.rounds[round_key(o, id)].contributions_received * t.circles[circle_key(
                        o,
                    )].contribution_amount by {
                        assert(s.rounds.contains_key(round_key(o, id)));
                    }
                }
            }
        },
        _ => {
            if step(s, op).1 is Ok {
                assert(totals_kept(s, t)) by {
                    assert(t.circles.dom() =~= s.circles.dom());
                    assert(t.rounds.dom() =~= s.rounds.dom());
                }
                if pot_consistent(s) {
                    lemma_totals_kept(s, t);
                } else {
                    assert forall|o: Seq<u8>| #[trigger] t.circles.contains_key(circle_key(o)) implies t.circles[circle_key(
                        o,
                    )].total_volume == volume(t.rounds, o, t.circles[circle_key(o)].current_round as nat) by {
                        assert(s.circles.contains_key(circle_key(o)));
                        let n = s.circles[circle_key(o)].current_round;
                        assert forall|x: u32| x < n implies #[trigger] s.rounds[round_key(o, x)].total_pot
                            == t.rounds[round_key(o, x)].total_pot by {
                            assert(s.rounds.contains_key(round_key(o, x)));
                        }
                        lemma_volume_frame(s.rounds, t.rounds, o, n as nat);
                    }
                }
            }
        },
    }
}

proof fn lemma_prefix(s: CirclefiState, ops: Seq<Op>, i: int)
    requires
        0 <= i < ops.len() - 1,
    ensures
        result_at(s, ops, i) == result_at(s, ops.drop_last(), i),
        run(s, ops.take(i)) == run(s, ops.drop_last().take(i)),
        ops[i] == ops.drop_last()[i],
{
    assert(ops.take(i) =~= ops.drop_last().take(i));
}

proof fn lemma_last(s: CirclefiState, ops: Seq<Op>)
    requires
        ops.len() > 0,
    ensures
        run(s, ops.take(ops.len() - 1)) == run(s, ops.drop_last()),
        result_at(s, ops, ops.len() - 1) == step(run(s, ops.drop_last()), ops.last()).1,
{
    assert(ops.take(ops.len() - 1) =~= ops.drop_last());
}

proof fn lemma_empty_consistent()
    ensures
        records_consistent(empty_state()),
        volume_consistent(empty_state()),
        pot_consistent(empty_state()),
{
}

/// Every history from an empty registry leaves records that hang together
/// (see `records_consistent`: among others, trust scores stay multiples of
/// five up to full trust); a history whose calls keep their arithmetic in
/// range leaves each circle's volume the sum of the pots of its ended
/// rounds; and if, besides, it never creates a circle over an existing
/// one, it leaves each round's pot its contributions times the circle's
/// contribution.
pub proof fn lemma_history_consistent(ops: Seq<Op>)
    ensures
        records_consistent(run(empty_state(), ops)),
        history_in_range(empty_state(), ops) ==> volume_consistent(run(empty_state(), ops)),
        history_in_range(empty_state(), ops) && history_no_recreate(empty_state(), ops)
            ==> pot_consistent(run(empty_state(), ops)),
    decreases ops.len(),
{
    lemma_empty_consistent();
    if ops.len() > 0 {
        let pre = ops.drop_last();
        lemma_history_consistent(pre);
        let s = run(empty_state(), pre);
        lemma_step_records(s, ops.last());
        if history_in_range(empty_state(), ops) {
            lemma_step_totals(s, ops.last());
        }
    }
}

/// A circle is on record after a history from an empty registry exactly
/// when some call of it created that circle successfully.
pub proof fn lemma_circles_come_from_create(ops: Seq<Op>, o: Seq<u8>)
    ensures
        run(empty_state(), ops).circles.contains_key(circle_key(o)) <==> exists|i: int|
            0 <= i < ops.len() && creates_circle(ops[i], o) && #[trigger] result_at(
                empty_state(),
                ops,
                i,
            ) is Ok,
    decreases ops.len(),
{
    if ops.len() > 0 {
        let pre = ops.drop_last();
        let n = ops.len() - 1;
        lemma_circles_come_from_create(pre, o);
        lemma_history_consistent(pre);
        lemma_step_records(run(empty_state(), pre), ops.last());
        lemma_last(empty_state(), ops);
        if run(empty_state(), ops).circles.contains_key(circle_key(o)) {
            if run(empty_state(), pre).circles.contains_key(circle_key(o)) {
                let i = choose|i: int|
                    0 <= i < pre.len() && creates_circle(pre[i], o) && #[trigger] result_at(
                        empty_state(),
                        pre,
                        i,
                    ) is Ok;
                lemma_prefix(empty_state(), ops, i);
            } else {
                assert(result_at(empty_state(), ops, n) is Ok);
            }
        }
        if exists|i: int|
            0 <= i < ops.len() && creates_circle(ops[i], o) && #[trigger] result_at(
                empty_state(),
                ops,
                i,
            ) is Ok {
            let i = choose|i: int|
                0 <= i < ops.len() && creates_circle(ops[i], o) && #[trigger] result_at(
                    empty_state(),
                    ops,
                    i,
                ) is Ok;
            if i < n {
                lemma_prefix(empty_state(), ops, i);
                assert(result_at(empty_state(), pre, i) is Ok);
            }
        }
    }
}

/// A member record is on record after a history from an empty registry
/// exactly when some call of it stored it successfully: creating the
/// circle (for its owner) or joining it.
pub proof fn lemma_members_come_from_create_or_join(ops: Seq<Op>, o: Seq<u8>, m: Seq<u8>)
    ensures
        run(empty_state(), ops).members.contains_key(member_key(o, m)) <==> exists|i: int|
            0 <= i < ops.len() && adds_member(ops[i], o, m) && #[trigger] result_at(
                empty_state(),
                ops,
                i,
            ) is Ok,
    decreases ops.len(),
{
    if ops.len() > 0 {
        let pre = ops.drop_last();
        let n = ops.len() - 1;
        lemma_members_come_from_create_or_join(pre, o, m);
        lemma_history_consistent(pre);
        lemma_step_records(run(empty_state(), pre), ops.last());
        lemma_last(empty_state(), ops);
        if run(empty_state(), ops).members.contains_key(member_key(o, m)) {
            if run(empty_state(), pre).members.contains_key(member_key(o, m)) {
                let i = choose|i: int|
                    0 <= i < pre.len() && adds_member(pre[i], o, m) && #[trigger] result_at(
                        empty_state(),
                        pre,
                        i,
                    ) is Ok;
                lemma_prefix(empty_state(), ops, i);
            } else {
                assert(result_at(empty_state(), ops, n) is Ok);
            }
        }
        if exists|i: int|
            0 <= i < ops.len() && adds_member(ops[i], o, m) && #[trigger] result_at(
                empty_state(),
                ops,
                i,
            ) is Ok {
            let i = choose|i: int|
                0 <= i < ops.len() && adds_member(ops[i], o, m) && #[trigger] result_at(
                    empty_state(),
                    ops,
                    i,
                ) is Ok;
            if i < n {
                lemma_prefix(empty_state(), ops, i);
                assert(result_at(empty_state(), pre, i) is Ok);
            }
        }
    }
}

/// A round is on record after a history from an empty registry exactly
/// when some call of it contributed successfully to that circle while the
/// round was current.
pub proof fn lemma_rounds_come_from_contribute(ops: Seq<Op>, o: Seq<u8>, r: u32)
    ensures
        run(empty_state(), ops).rounds.contains_key(round_key(o, r)) <==> exists|i: int|
            0 <= i < ops.len() && opens_round(run(empty_state(), ops.take(i)), ops[i], o, r)
                && #[trigger] result_at(empty_state(), ops, i) is Ok,
    decreases ops.len(),
{
    if ops.len() > 0 {
        let pre = ops.drop_last();
        let n = ops.len() - 1;
        lemma_rounds_come_from_contribute(pre, o, r);
        lemma_history_consistent(pre);
        lemma_step_records(run(empty_state(), pre), ops.last());
        lemma_last(empty_state(), ops);
        if run(empty_state(), ops).rounds.contains_key(round_key(o, r)) {
            if run(empty_state(), pre).rounds.contains_key(round_key(o, r)) {
                let i = choose|i: int|
                    0 <= i < pre.len() && opens_round(run(empty_state(), pre.take(i)), pre[i], o, r)
                        && #[trigger] result_at(empty_state(), pre, i) is Ok;
                lemma_prefix(empty_state(), ops, i);
            } else {
                assert(result_at(empty_state(), ops, n) is Ok);
            }
        }
        if exists|i: int|
            0 <= i < ops.len() && opens_round(run(empty_state(), ops.take(i)), ops[i], o, r)
                && #[trigger] result_at(empty_state(), ops, i) is Ok {
            let i = choose|i: int|
                0 <= i < ops.len() && opens_round(run(empty_state(), ops.take(i)), ops[i], o, r)
                    && #[trigger] result_at(empty_state(), ops, i) is Ok;
            if i < n {
                lemma_prefix(empty_state(), ops, i);
                assert(result_at(empty_state(), pre, i) is Ok);
            }
        }
    }
}

/// Every stored trust score is a multiple of five, at most full trust.
pub open spec fn trust_in_fives(s: CirclefiState) -> bool {
    forall|k: DataKeyView| #[trigger]
        s.members.contains_key(k) ==> s.members[k].trust_score % 5 == 0
            && s.members[k].trust_score <= FULL_TRUST
}

/// Whatever a call answers, it keeps every stored trust score a multiple
/// of five, at most full trust: joining starts at full trust, a default
/// takes off a multiple of fifteen (or leaves zero), a payout adds five up
/// to full trust.
pub proof fn lemma_trust_stays_in_fives(s: CirclefiState, op: Op)
    requires
        trust_in_fives(s),
    ensures
        trust_in_fives(step(s, op).0),
{
    let t = step(s, op).0;
    match op {
        Op::TriggerDefault { owner, member } => {
            if trigger_default_check(s, owner, member) is None {
                let m = s.members[member_key(owner, member)];
                lemma_trust_steps_keep_fives(m.trust_score, m.default_count + 1);
            }
        },
        Op::FinalizeRound { owner, round_id, recipient } => {
            if finalize_round_check(s, owner, round_id, recipient) is None {
                let m = s.members[member_key(owner, recipient)];
                lemma_trust_steps_keep_fives(m.trust_score, 1);
            }
        },
        _ => {},
    }
}

/// Records that hang together keep hanging together over any history.
pub proof fn lemma_run_records(s: CirclefiState, ops: Seq<Op>)
    requires
        records_consistent(s),
    ensures
        records_consistent(run(s, ops)),
    decreases ops.len(),
{
    if ops.len() > 0 {
        lemma_run_records(s, ops.drop_last());
        lemma_step_records(run(s, ops.drop_last()), ops.last());
    }
}

/// No call of `ops`, run from `s`, successfully creates the circle of `o`.
pub open spec fn no_create_of(s: CirclefiState, ops: Seq<Op>, o: Seq<u8>) -> bool {
    forall|i: int| 0 <= i < ops.len() ==> !(creates_circle(ops[i], o) && #[trigger] result_at(s, ops, i) is Ok)
}

proof fn lemma_no_create_of_prefix(s: CirclefiState, ops: Seq<Op>, o: Seq<u8>)
    requires
        ops.len() > 0,
        no_create_of(s, ops, o),
    ensures
        no_create_of(s, ops.drop_last(), o),
        !(creates_circle(ops.last(), o) && step(run(s, ops.drop_last()), ops.last()).1 is Ok),
{
    assert forall|i: int| 0 <= i < ops.drop_last().len() implies !(creates_circle(ops.drop_last()[i], o)
        && #[trigger] result_at(s, ops.drop_last(), i) is Ok) by {
        lemma_prefix(s, ops, i);
        assert(!(creates_circle(ops[i], o) && result_at(s, ops, i) is Ok));
    }
    lemma_last(s, ops);
    assert(!(creates_circle(ops[ops.len() - 1], o) && result_at(s, ops, ops.len() - 1) is Ok));
}

/// A deactivated circle stays on record and inactive under any call but a
/// successful re-creation.
pub proof fn lemma_step_keeps_circle_inactive(s: CirclefiState, op: Op, o: Seq<u8>)
    requires
        s.circles.contains_key(circle_key(o)),
        !s.circles[circle_key(o)].is_active,
        !(creates_circle(op, o) && step(s, op).1 is Ok),
    ensures
        step(s, op).0.circles.contains_key(circle_key(o)),
        !step(s, op).0.circles[circle_key(o)].is_active,
{
}

/// A member who is not active stays on record and not active under any
/// call but a successful re-creation of the circle.
pub proof fn lemma_step_keeps_member_inactive(s: CirclefiState, op: Op, o: Seq<u8>, m: Seq<u8>)
    requires
        s.members.contains_key(member_key(o, m)),
        s.members[member_key(o, m)].status != MemberStatus::Active,
        !(creates_circle(op, o) && step(s, op).1 is Ok),
    ensures
        step(s, op).0.members.contains_key(member_key(o, m)),
        step(s, op).0.members[member_key(o, m)].status != MemberStatus::Active,
{
}

/// A finalized round stays on record and finalized under any call, and a
/// circle stays on record.
pub proof fn lemma_step_keeps_round_finalized(s: CirclefiState, op: Op, o: Seq<u8>, r: u32)
    requires
        s.rounds.contains_key(round_key(o, r)),
        s.rounds[round_key(o, r)].is_finalized,
        s.circles.contains_key(circle_key(o)),
    ensures
        step(s, op).0.rounds.contains_key(round_key(o, r)),
        step(s, op).0.rounds[round_key(o, r)].is_finalized,
        step(s, op).0.circles.contains_key(circle_key(o)),
{
}

/// In records that hang together, a disputed round stays on record,
/// disputed, with the same resolver, under any call.
pub proof fn lemma_step_keeps_round_disputed(s: CirclefiState, op: Op, o: Seq<u8>, r: u32)
    requires
        records_consistent(s),
        s.rounds.contains_key(round_key(o, r)),
        s.rounds[round_key(o, r)].disputed,
    ensures
        step(s, op).0.rounds.contains_key(round_key(o, r)),
        step(s, op).0.rounds[round_key(o, r)].disputed,
        step(s, op).0.rounds[round_key(o, r)].dispute_resolver == s.rounds[round_key(
            o,
            r,
        )].dispute_resolver,
{
    match op {
        Op::EndRound { now, owner } => {
            if end_round_check(s, now, owner) is None {
                let c = s.circles[circle_key(owner)];
                assert(s.rounds[round_key(owner, c.current_round)].round_id == c.current_round);
            }
        },
        _ => {},
    }
}

/// Once a circle is deactivated, it refuses joins and contributions with
/// `CircleNotActive` after any later history, until it is successfully
/// created again.
pub proof fn lemma_deactivation_persists(s: CirclefiState, ops: Seq<Op>, o: Seq<u8>)
    requires
        s.circles.contains_key(circle_key(o)),
        !s.circles[circle_key(o)].is_active,
        no_create_of(s, ops, o),
    ensures
        run(s, ops).circles.contains_key(circle_key(o)),
        !run(s, ops).circles[circle_key(o)].is_active,
        forall|m: Seq<u8>| #[trigger]
            join_circle_check(run(s, ops), o, m) == Some(ErrorCode::CircleNotActive),
        forall|m: Seq<u8>, amount: i128| #[trigger]
            contribute_check(run(s, ops), o, m, amount) == Some(ErrorCode::CircleNotActive),
    decreases ops.len(),
{
    if ops.len() > 0 {
        lemma_no_create_of_prefix(s, ops, o);
        lemma_deactivation_persists(s, ops.drop_last(), o);
        lemma_step_keeps_circle_inactive(run(s, ops.drop_last()), ops.last(), o);
    }
}

/// Once a member is no longer active (after a default), every later
/// contribution by them is refused, with `UnauthorizedAccess` whenever the
/// circle is active and the amount is its contribution, after any later
/// history, until the circle is successfully created again.
pub proof fn lemma_default_persists(s: CirclefiState, ops: Seq<Op>, o: Seq<u8>, m: Seq<u8>)
    requires
        s.members.contains_key(member_key(o, m)),
        s.members[member_key(o, m)].status != MemberStatus::Active,
        no_create_of(s, ops, o),
    ensures
        run(s, ops).members.contains_key(member_key(o, m)),
        run(s, ops).members[member_key(o, m)].status != MemberStatus::Active,
        forall|amount: i128| #[trigger] contribute_check(run(s, ops), o, m, amount) is Some,
        forall|amount: i128|
            run(s, ops).circles.contains_key(circle_key(o)) && run(s, ops).circles[circle_key(
                o,
            )].is_active && amount == run(s, ops).circles[circle_key(o)].contribution_amount
                ==> #[trigger] contribute_check(run(s, ops), o, m, amount) == Some(
                ErrorCode::UnauthorizedAccess,
            ),
    decreases ops.len(),
{
    if ops.len() > 0 {
        lemma_no_create_of_prefix(s, ops, o);
        lemma_default_persists(s, ops.drop_last(), o, m);
        lemma_step_keeps_member_inactive(run(s, ops.drop_last()), ops.last(), o, m);
    }
}

/// Once a round is finalized, finalizing it again is refused with
/// `RoundNotEnded` and changes nothing (so no payout is credited twice),
/// after any later history.
pub proof fn lemma_finalization_persists(s: CirclefiState, ops: Seq<Op>, o: Seq<u8>, r: u32)
    requires
        s.rounds.contains_key(round_key(o, r)),
        s.rounds[round_key(o, r)].is_finalized,
        s.circles.contains_key(circle_key(o)),
    ensures
        run(s, ops).rounds.contains_key(round_key(o, r)),
        run(s, ops).rounds[round_key(o, r)].is_finalized,
        forall|p: Seq<u8>| #[trigger]
            step(run(s, ops), (Op::FinalizeRound { owner: o, round_id: r, recipient: p })) == (
            run(s, ops),
            Err::<(), ErrorCode>(ErrorCode::RoundNotEnded),
            ),
    decreases ops.len(),
{
    if ops.len() > 0 {
        lemma_finalization_persists(s, ops.drop_last(), o, r);
        lemma_circle_kept(s, ops.drop_last(), o);
        lemma_step_keeps_round_finalized(run(s, ops.drop_last()), ops.last(), o, r);
    } else {
        assert(run(s, ops) == s);
    }
    assert(run(s, ops).circles.contains_key(circle_key(o))) by {
        lemma_circle_kept(s, ops, o);
    }
}

proof fn lemma_circle_kept(s: CirclefiState, ops: Seq<Op>, o: Seq<u8>)
    requires
        s.circles.contains_key(circle_key(o)),
    ensures
        run(s, ops).circles.contains_key(circle_key(o)),
    decreases ops.len(),
{
    if ops.len() > 0 {
        lemma_circle_kept(s, ops.drop_last(), o);
    }
}

/// Once a round is disputed, disputing it again is refused with
/// `InvalidParameters` and changes nothing, and its resolver stays the
/// first disputer, after any later history (in records that hang
/// together, as every history from an empty registry leaves them).
pub proof fn lemma_dispute_persists(s: CirclefiState, ops: Seq<Op>, o: Seq<u8>, r: u32)
    requires
        records_consistent(s),
        s.rounds.contains_key(round_key(o, r)),
        s.rounds[round_key(o, r)].disputed,
    ensures
        run(s, ops).rounds.contains_key(round_key(o, r)),
        run(s, ops).rounds[round_key(o, r)].disputed,
        run(s, ops).rounds[round_key(o, r)].dispute_resolver == s.rounds[round_key(
            o,
            r,
        )].dispute_resolver,
        forall|now: u64, d: Seq<u8>| #[trigger]
            step(run(s, ops), (Op::DisputePayout { now, owner: o, disputer: d, round_id: r })) == (
            run(s, ops),
            Err::<(), ErrorCode>(ErrorCode::InvalidParameters),
            ),
    decreases ops.len(),
{
    if ops.len() > 0 {
        lemma_dispute_persists(s, ops.drop_last(), o, r);
        lemma_run_records(s, ops.drop_last());
        lemma_step_keeps_round_disputed(run(s, ops.drop_last()), ops.last(), o, r);
    }
}

} // verus!
