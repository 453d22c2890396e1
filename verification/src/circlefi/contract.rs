//! The registry itself: its storage and the operations of the contract.

use vstd::prelude::*;

use crate::address::Addr;
use super::spec::{
    CirclefiState, circle_valid, FULL_TRUST, PAYOUT_TRUST_BONUS, SECONDS_PER_DAY,
    SECONDS_PER_HOUR, TRUST_PENALTY, circle_key, contribute_apply, contribute_check,
    contribute_in_range, create_circle_apply, create_circle_check, deactivate_circle_apply,
    deactivate_circle_check, dispute_payout_apply, dispute_payout_check,
    dispute_payout_in_range, empty_state, end_round_apply, end_round_check, end_round_in_range,
    finalize_round_apply, finalize_round_check, finalize_round_in_range, initialize_apply,
    join_circle_apply, join_circle_check, member_key, outcome, place_bid_apply, place_bid_check,
    registry_inv, round_key, trigger_default_apply, trigger_default_check,
    trigger_default_in_range,
};
use super::effects::{lemma_contribute_exact, lemma_finalize_round_exact, lemma_place_bid_exact};
use super::history::{Op, step};
use super::store::KeyedStore;
use super::types::{
    Circle, DataKey, ErrorCode, Member, MemberStatus, PayoutOrder, Round, RoundView,
};

verus! {

/// What an operation reads from the ledger it runs on.
pub struct Ledger {
    /// The ledger's timestamp, in seconds.
    pub timestamp: u64,
    /// The address of the contract itself.
    pub contract: Addr,
}

/// The savings-circle registry: circles by owner, members by circle and
/// address, and rounds by circle and number.
pub struct CirclefiContract {
    circles: KeyedStore<Circle>,
    members: KeyedStore<Member>,
    rounds: KeyedStore<Round>,
    circle_count: Option<u32>,
}

impl View for CirclefiContract {
    type V = CirclefiState;

    closed spec fn view(&self) -> CirclefiState {
        CirclefiState {
            circles: self.circles.contents(),
            members: self.members.contents(),
            rounds: self.rounds.contents(),
            circle_count: self.circle_count,
        }
    }
}

impl CirclefiContract {
    /// The registry's storage is well formed and its invariant holds.
    pub closed spec fn wf(&self) -> bool {
        &&& self.circles.wf()
        &&& self.members.wf()
        &&& self.rounds.wf()
        &&& registry_inv(self@)
    }

    /// A well-formed registry's storage satisfies the registry invariant.
    pub proof fn lemma_wf_inv(&self)
        requires
            self.wf(),
        ensures
            registry_inv(self@),
    {
    }

    /// A registry with nothing stored.
    pub fn new() -> (c: Self)
        ensures
            c.wf(),
            c@ == empty_state(),
    {
        CirclefiContract {
            circles: KeyedStore::new(),
            members: KeyedStore::new(),
            rounds: KeyedStore::new(),
            circle_count: None,
        }
    }

    /// The count of circles, if one is stored.
    pub fn circle_count(&self) -> (n: Option<u32>)
        ensures
            n == self@.circle_count,
    {
        self.circle_count
    }

    /// Put back a circle read from storage under `circle_owner`. Only a
    /// circle whose terms are in range is taken; says whether it was.
    pub fn load_circle(&mut self, circle_owner: Addr, circle: Circle) -> (ok: bool)
        requires
            old(self).wf(),
        ensures
            final(self).wf(),
            ok == circle_valid(circle@),
            ok ==> final(self)@ == (CirclefiState {
                circles: old(self)@.circles.insert(circle_key(circle_owner@), circle@),
                ..old(self)@
            }),
            !ok ==> final(self)@ == old(self)@,
    {
        let valid = circle.contribution_amount > 0 && circle.cycle_duration_days >= 1
            && circle.cycle_duration_days <= 365 && circle.collateral_percentage <= 100
            && circle.dispute_window_hours >= 1 && circle.dispute_window_hours <= 720
            && circle.max_members >= 1 && circle.max_members <= 100 && circle.min_trust_score
            <= 100 && circle.member_count >= 1 && circle.member_count <= circle.max_members;
        if valid {
            self.circles.set(DataKey::Circle(circle_owner), circle);
        }
        valid
    }

    /// Put back the record of `member` of the circle owned by
    /// `circle_owner`, read from storage. Only a record whose trust score
    /// is at most full trust is taken; says whether it was.
    pub fn load_member(&mut self, circle_owner: Addr, member: Addr, record: Member) -> (ok: bool)
        requires
            old(self).wf(),
        ensures
            final(self).wf(),
            ok == (record.trust_score <= FULL_TRUST),
            ok ==> final(self)@ == (CirclefiState {
                members: old(self)@.members.insert(member_key(circle_owner@, member@), record@),
                ..old(self)@
            }),
            !ok ==> final(self)@ == old(self)@,
    {
        if record.trust_score <= FULL_TRUST {
            self.members.set(DataKey::Member(circle_owner, member), record);
            true
        } else {
            false
        }
    }

    /// Put back round `round_id` of the circle owned by `circle_owner`,
    /// read from storage. Only a round that names that circle and that
    /// number is taken; says whether it was.
    pub fn load_round(&mut self, circle_owner: Addr, round_id: u32, round: Round) -> (ok: bool)
        requires
            old(self).wf(),
        ensures
            final(self).wf(),
            ok == (round.round_id == round_id && round.circle@ == circle_owner@),
            ok ==> final(self)@ == (CirclefiState {
                rounds: old(self)@.rounds.insert(round_key(circle_owner@, round_id), round@),
                ..old(self)@
            }),
            !ok ==> final(self)@ == old(self)@,
    {
        if round.round_id == round_id && round.circle.same(&circle_owner) {
            self.rounds.set(DataKey::Round(circle_owner, round_id), round);
            true
        } else {
            false
        }
    }

    /// Whether `contribute` with these arguments keeps its arithmetic
    /// within its types (where it would not, the contract traps).
    pub fn contribute_fits(&self, env: &Ledger, circle_owner: &Addr, member: &Addr, amount: i128) -> (b:
        bool)
        requires
            self.wf(),
        ensures
            b == contribute_in_range(
                self@,
                env.timestamp,
                env.contract@,
                circle_owner@,
                member@,
                amount,
            ),
    {
        let c = match self.circles.get(&DataKey::Circle(circle_owner.duplicate())) {
            Some(c) => c,
            None => return true,
        };
        if !c.is_active || amount != c.contribution_amount {
            return true;
        }
        let m = match self.members.get(&DataKey::Member(circle_owner.duplicate(), member.duplicate())) {
            Some(m) => m,
            None => return true,
        };
        if m.status != MemberStatus::Active {
            return true;
        }
        if m.contributions_made.checked_add(1).is_none() {
            return false;
        }
        if m.total_contributed.checked_add(amount).is_none() {
            return false;
        }
        match self.rounds.get(&DataKey::Round(circle_owner.duplicate(), c.current_round)) {
            Some(r) => r.total_pot.checked_add(amount).is_some()
                && r.contributions_received.checked_add(1).is_some(),
            None => env.timestamp.checked_add(c.cycle_duration_days as u64 * SECONDS_PER_DAY).is_some(),
        }
    }

    /// Whether `trigger_default` with these arguments keeps its arithmetic
    /// within its types (where it would not, the contract traps).
    pub fn trigger_default_fits(&self, circle_owner: &Addr, member: &Addr) -> (b: bool)
        requires
            self.wf(),
        ensures
            b == trigger_default_in_range(self@, circle_owner@, member@),
    {
        let c = match self.circles.get(&DataKey::Circle(circle_owner.duplicate())) {
            Some(c) => c,
            None => return true,
        };
        let m = match self.members.get(&DataKey::Member(circle_owner.duplicate(), member.duplicate())) {
            Some(m) => m,
            None => return true,
        };
        let defaults = match m.default_count.checked_add(1) {
            Some(d) => d,
            None => return false,
        };
        TRUST_PENALTY.checked_mul(defaults).is_some() && c.contribution_amount.checked_mul(
            c.collateral_percentage as i128,
        ).is_some()
    }

    /// Whether `dispute_payout` with these arguments keeps its arithmetic
    /// within its types (where it would not, the contract traps).
    pub fn dispute_payout_fits(&self, circle_owner: &Addr, round_id: u32) -> (b: bool)
        requires
            self.wf(),
        ensures
            b == dispute_payout_in_range(self@, circle_owner@, round_id),
    {
        let r = match self.rounds.get(&DataKey::Round(circle_owner.duplicate(), round_id)) {
            Some(r) => r,
            None => return true,
        };
        if r.disputed {
            return true;
        }
        let hours: u64 = match self.circles.get(&DataKey::Circle(circle_owner.duplicate())) {
            Some(c) => c.dispute_window_hours as u64,
            None => r.circle.xdr_len() as u64,
        };
        match hours.checked_mul(SECONDS_PER_HOUR) {
            Some(w) => r.end_time.checked_add(w).is_some(),
            None => false,
        }
    }

    /// Whether `end_round` with these arguments keeps its arithmetic within
    /// its types (where it would not, the contract traps).
    pub fn end_round_fits(&self, env: &Ledger, circle_owner: &Addr) -> (b: bool)
        requires
            self.wf(),
        ensures
            b == end_round_in_range(self@, env.timestamp, circle_owner@),
    {
        let c = match self.circles.get(&DataKey::Circle(circle_owner.duplicate())) {
            Some(c) => c,
            None => return true,
        };
        let r = match self.rounds.get(&DataKey::Round(circle_owner.duplicate(), c.current_round)) {
            Some(r) => r,
            None => return true,
        };
        if env.timestamp < r.end_time {
            return true;
        }
        c.current_round.checked_add(1).is_some() && c.total_volume.checked_add(r.total_pot).is_some()
    }

    /// Whether `finalize_round` with these arguments keeps its arithmetic
    /// within its types (where it would not, the contract traps).
    pub fn finalize_round_fits(&self, circle_owner: &Addr, round_id: u32, payout_recipient: &Addr) -> (b:
        bool)
        requires
            self.wf(),
        ensures
            b == finalize_round_in_range(self@, circle_owner@, round_id, payout_recipient@),
    {
        if self.circles.get(&DataKey::Circle(circle_owner.duplicate())).is_none() {
            return true;
        }
        match self.rounds.get(&DataKey::Round(circle_owner.duplicate(), round_id)) {
            Some(r) => {
                if r.is_finalized {
                    return true;
                }
            },
            None => return true,
        }
        match self.members.get(
            &DataKey::Member(circle_owner.duplicate(), payout_recipient.duplicate()),
        ) {
            Some(m) => m.payouts_received.checked_add(1).is_some(),
            None => true,
        }
    }

    /// Set the count of circles to zero.
    pub fn initialize(&mut self)
        requires
            old(self).wf(),
        ensures
            final(self).wf(),
            final(self)@ == initialize_apply(old(self)@),
            final(self)@ == step(old(self)@, Op::Initialize).0,
    {
        self.circle_count = Some(0);
    }

    /// Create a circle owned by `owner`, with `owner` as its first member.
    ///
    /// Refused with `InvalidAmount` for a contribution that is not
    /// positive, and with `InvalidParameters` for a cycle outside 1..=365
    /// days, a collateral above 100%, a dispute window outside 1..=720
    /// hours, a size outside 1..=100 members or a minimum trust score above
    /// 100. A circle already held by `owner` is replaced.
    pub fn create_circle(
        &mut self,
        env: &Ledger,
        owner: Addr,
        name: Vec<u8>,
        contribution_amount: i128,
        cycle_duration_days: u32,
        payout_order: PayoutOrder,
        collateral_percentage: u32,
        dispute_window_hours: u32,
        max_members: u32,
        min_trust_score: u32,
    ) -> (r: Result<Addr, ErrorCode>)
        requires
            old(self).wf(),
        ensures
            final(self).wf(),
            registry_inv(final(self)@),
            final(self)@ == step(
                old(self)@,
                (Op::CreateCircle {
                    now: env.timestamp,
                    owner: owner@,
                    name: name@,
                    contribution_amount,
                    cycle_duration_days,
                    payout_order,
                    collateral_percentage,
                    dispute_window_hours,
                    max_members,
                    min_trust_score,
                }),
            ).0,
            (r is Ok) == (step(
                old(self)@,
                (Op::CreateCircle {
                    now: env.timestamp,
                    owner: owner@,
                    name: name@,
                    contribution_amount,
                    cycle_duration_days,
                    payout_order,
                    collateral_percentage,
                    dispute_window_hours,
                    max_members,
                    min_trust_score,
                }),
            ).1 is Ok),
            create_circle_check(
                contribution_amount,
                cycle_duration_days,
                collateral_percentage,
                dispute_window_hours,
                max_members,
                min_trust_score,
            ) matches Some(e) ==> r == Err::<Addr, ErrorCode>(e) && final(self)@ == old(self)@,
            create_circle_check(
                contribution_amount,
                cycle_duration_days,
                collateral_percentage,
                dispute_window_hours,
                max_members,
                min_trust_score,
            ) is None ==> (r matches Ok(a) && a@ == owner@ && final(self)@ == create_circle_apply(
                old(self)@,
                env.timestamp,
                owner@,
                name@,
                contribution_amount,
                cycle_duration_days,
                payout_order,
                collateral_percentage,
                dispute_window_hours,
                max_members,
                min_trust_score,
            )),
    {
        if contribution_amount <= 0 {
            return Err(ErrorCode::InvalidAmount);
        }
        if cycle_duration_days == 0 || cycle_duration_days > 365 {
            return Err(ErrorCode::InvalidParameters);
        }
        if collateral_percentage > 100 {
            return Err(ErrorCode::InvalidParameters);
        }
        if dispute_window_hours == 0 || dispute_window_hours > 720 {
            return Err(ErrorCode::InvalidParameters);
        }
        if max_members == 0 || max_members > 100 {
            return Err(ErrorCode::InvalidParameters);
        }
        if min_trust_score > 100 {
            return Err(ErrorCode::InvalidParameters);
        }
        let circle = Circle {
            owner: owner.duplicate(),
            name,
            contribution_amount,
            cycle_duration_days,
            payout_order,
            collateral_percentage,
            dispute_window_hours,
            current_round: 0,
            is_active: true,
            created_at: env.timestamp,
            member_count: 1,
            max_members,
            total_volume: 0,
            min_trust_score,
        };
        self.circles.set(DataKey::Circle(owner.duplicate()), circle);
        let owner_member = Member {
            address: owner.duplicate(),
            contributions_made: 0,
            payouts_received: 0,
            collateral_locked: 0,
            default_count: 0,
            trust_score: FULL_TRUST,
            joined_at: env.timestamp,
            last_contribution: 0,
            status: MemberStatus::Active,
            total_contributed: 0,
        };
        self.members.set(DataKey::Member(owner.duplicate(), owner.duplicate()), owner_member);
        Ok(owner)
    }

    /// Join the circle owned by `circle_owner` as `member`.
    ///
    /// Refused with `CircleNotFound` when there is no such circle,
    /// `CircleNotActive` when it is inactive, `MaxMembersReached` when it
    /// is full, and `MemberAlreadyJoined` when `member` is already in it.
    pub fn join_circle(&mut self, env: &Ledger, circle_owner: Addr, member: Addr) -> (r: Result<
        (),
        ErrorCode,
    >)
        requires
            old(self).wf(),
        ensures
            final(self).wf(),
            registry_inv(final(self)@),
            (final(self)@, r) == step(
                old(self)@,
                (Op::JoinCircle { now: env.timestamp, owner: circle_owner@, member: member@ }),
            ),
            (final(self)@, r) == outcome(
                old(self)@,
                join_circle_check(old(self)@, circle_owner@, member@),
                join_circle_apply(old(self)@, env.timestamp, circle_owner@, member@),
            ),
    {
        let ck = DataKey::Circle(circle_owner.duplicate());
        let mut circle = match self.circles.get(&ck) {
            Some(c) => c.duplicate(),
            None => return Err(ErrorCode::CircleNotFound),
        };
        if !circle.is_active {
            return Err(ErrorCode::CircleNotActive);
        }
        if circle.member_count >= circle.max_members {
            return Err(ErrorCode::MaxMembersReached);
        }
        let mk = DataKey::Member(circle_owner.duplicate(), member.duplicate());
        if self.members.get(&mk).is_some() {
            return Err(ErrorCode::MemberAlreadyJoined);
        }
        let member_obj = Member {
            address: member.duplicate(),
            contributions_made: 0,
            payouts_received: 0,
            collateral_locked: 0,
            default_count: 0,
            trust_score: FULL_TRUST,
            joined_at: env.timestamp,
            last_contribution: 0,
            status: MemberStatus::Active,
            total_contributed: 0,
        };
        circle.member_count = circle.member_count + 1;
        self.circles.set(ck, circle);
        self.members.set(mk, member_obj);
        Ok(())
    }

    /// Record a contribution of `amount` by `member` to the current round
    /// of the circle owned by `circle_owner`, opening the round if it has
    /// no record yet.
    ///
    /// Refused with `CircleNotFound`, `CircleNotActive`, `InvalidAmount`
    /// when `amount` is not the circle's contribution, `MemberNotFound`,
    /// and `UnauthorizedAccess` when the member is not active.
    pub fn contribute(&mut self, env: &Ledger, circle_owner: Addr, member: Addr, amount: i128) -> (r:
        Result<(), ErrorCode>)
        requires
            old(self).wf(),
            contribute_in_range(
                old(self)@,
                env.timestamp,
                env.contract@,
                circle_owner@,
                member@,
                amount,
            ),
        ensures
            final(self).wf(),
            registry_inv(final(self)@),
            (final(self)@, r) == step(
                old(self)@,
                (Op::Contribute {
                    now: env.timestamp,
                    contract: env.contract@,
                    owner: circle_owner@,
                    member: member@,
                    amount,
                }),
            ),
            (final(self)@, r) == outcome(
                old(self)@,
                contribute_check(old(self)@, circle_owner@, member@, amount),
                contribute_apply(
                    old(self)@,
                    env.timestamp,
                    env.contract@,
                    circle_owner@,
                    member@,
                    amount,
                ),
            ),
            r is Ok ==> final(self)@.members[member_key(circle_owner@, member@)].contributions_made
                == old(self)@.members[member_key(circle_owner@, member@)].contributions_made + 1,
            r is Ok ==> final(self)@.members[member_key(circle_owner@, member@)].total_contributed
                == old(self)@.members[member_key(circle_owner@, member@)].total_contributed + amount,
            r is Ok ==> final(self)@.members[member_key(circle_owner@, member@)].last_contribution
                == env.timestamp,
    {
        proof {
            lemma_contribute_exact(
                self@,
                env.timestamp,
                env.contract@,
                circle_owner@,
                member@,
                amount,
            );
        }
        let ck = DataKey::Circle(circle_owner.duplicate());
        let circle = match self.circles.get(&ck) {
            Some(c) => c.duplicate(),
            None => return Err(ErrorCode::CircleNotFound),
        };
        if !circle.is_active {
            return Err(ErrorCode::CircleNotActive);
        }
        if amount != circle.contribution_amount {
            return Err(ErrorCode::InvalidAmount);
        }
        let mk = DataKey::Member(circle_owner.duplicate(), member.duplicate());
        let mut member_obj = match self.members.get(&mk) {
            Some(m) => m.duplicate(),
            None => return Err(ErrorCode::MemberNotFound),
        };
        if member_obj.status != MemberStatus::Active {
            return Err(ErrorCode::UnauthorizedAccess);
        }
        member_obj.contributions_made = member_obj.contributions_made + 1;
        member_obj.last_contribution = env.timestamp;
        member_obj.total_contributed = member_obj.total_contributed + amount;
        let rk = DataKey::Round(circle_owner.duplicate(), circle.current_round);
        let mut round = match self.rounds.get(&rk) {
            Some(r) => r.duplicate(),
            None => Round {
                circle: circle_owner.duplicate(),
                round_id: circle.current_round,
                start_time: env.timestamp,
                end_time: env.timestamp + circle.cycle_duration_days as u64 * SECONDS_PER_DAY,
                total_pot: 0,
                payout_recipient: member.duplicate(),
                highest_bid: 0,
                contributions_received: 0,
                member_count: circle.member_count,
                disputed: false,
                dispute_resolver: env.contract.duplicate(),
                is_finalized: false,
            },
        };
        round.total_pot = round.total_pot + amount;
        round.contributions_received = round.contributions_received + 1;
        self.members.set(mk, member_obj);
        self.rounds.set(rk, round);
        Ok(())
    }

    /// Bid `bid_amount` for the current round's payout of the circle owned
    /// by `circle_owner`; the bid takes the round when it is above the
    /// highest so far.
    ///
    /// Refused with `CircleNotFound`, `InvalidPayoutOrder` when the circle
    /// does not pay out by bid, `InvalidAmount` for a bid that is not
    /// positive, and `RoundNotFound` when the current round has no record.
    pub fn place_bid(&mut self, circle_owner: Addr, member: Addr, bid_amount: i128) -> (r: Result<
        (),
        ErrorCode,
    >)
        requires
            old(self).wf(),
        ensures
            final(self).wf(),
            registry_inv(final(self)@),
            (final(self)@, r) == step(
                old(self)@,
                (Op::PlaceBid { owner: circle_owner@, member: member@, bid_amount }),
            ),
            (final(self)@, r) == outcome(
                old(self)@,
                place_bid_check(old(self)@, circle_owner@, bid_amount),
                place_bid_apply(old(self)@, circle_owner@, member@, bid_amount),
            ),
            r is Ok <==> {
                &&& old(self)@.circles.contains_key(circle_key(circle_owner@))
                &&& old(self)@.circles[circle_key(circle_owner@)].payout_order == PayoutOrder::Bid
                &&& bid_amount > 0
                &&& old(self)@.rounds.contains_key(
                    round_key(circle_owner@, old(self)@.circles[circle_key(circle_owner@)].current_round),
                )
            },
            r is Ok && bid_amount > old(self)@.rounds[round_key(
                circle_owner@,
                old(self)@.circles[circle_key(circle_owner@)].current_round,
            )].highest_bid ==> {
                let k = round_key(circle_owner@, old(self)@.circles[circle_key(circle_owner@)].current_round);
                &&& final(self)@.rounds[k].highest_bid == bid_amount
                &&& final(self)@.rounds[k].payout_recipient == member@
            },
    {
        proof {
            lemma_place_bid_exact(self@, circle_owner@, member@, bid_amount);
        }
        let ck = DataKey::Circle(circle_owner.duplicate());
        let current_round = match self.circles.get(&ck) {
            Some(c) => {
                if c.payout_order != PayoutOrder::Bid {
                    return Err(ErrorCode::InvalidPayoutOrder);
                }
                c.current_round
            },
            None => return Err(ErrorCode::CircleNotFound),
        };
        if bid_amount <= 0 {
            return Err(ErrorCode::InvalidAmount);
        }
        let rk = DataKey::Round(circle_owner.duplicate(), current_round);
        let mut round = match self.rounds.get(&rk) {
            Some(r) => r.duplicate(),
            None => return Err(ErrorCode::RoundNotFound),
        };
        if bid_amount > round.highest_bid {
            round.highest_bid = bid_amount;
            round.payout_recipient = member;
        }
        self.rounds.set(rk, round);
        Ok(())
    }

    /// Mark `member` of the circle owned by `circle_owner` as defaulted:
    /// lock collateral and lower the trust score, suspending a member whose
    /// score runs out.
    ///
    /// Refused with `CircleNotFound` and `MemberNotFound`.
    pub fn trigger_default(&mut self, circle_owner: Addr, member: Addr) -> (r: Result<
        (),
        ErrorCode,
    >)
        requires
            old(self).wf(),
            trigger_default_in_range(old(self)@, circle_owner@, member@),
        ensures
            final(self).wf(),
            registry_inv(final(self)@),
            (final(self)@, r) == step(
                old(self)@,
                (Op::TriggerDefault { owner: circle_owner@, member: member@ }),
            ),
            (final(self)@, r) == outcome(
                old(self)@,
                trigger_default_check(old(self)@, circle_owner@, member@),
                trigger_default_apply(old(self)@, circle_owner@, member@),
            ),
    {
        let ck = DataKey::Circle(circle_owner.duplicate());
        let (amount, percentage) = match self.circles.get(&ck) {
            Some(c) => (c.contribution_amount, c.collateral_percentage),
            None => return Err(ErrorCode::CircleNotFound),
        };
        let mk = DataKey::Member(circle_owner.duplicate(), member.duplicate());
        let mut member_obj = match self.members.get(&mk) {
            Some(m) => m.duplicate(),
            None => return Err(ErrorCode::MemberNotFound),
        };
        member_obj.default_count = member_obj.default_count + 1;
        member_obj.status = MemberStatus::Defaulted;
        member_obj.collateral_locked = (amount * percentage as i128) / 100;
        let score_reduction = TRUST_PENALTY * member_obj.default_count;
        if score_reduction >= member_obj.trust_score {
            member_obj.trust_score = 0;
            member_obj.status = MemberStatus::Suspended;
        } else {
            member_obj.trust_score = member_obj.trust_score - score_reduction;
        }
        self.members.set(mk, member_obj);
        Ok(())
    }

    /// Dispute the payout of round `round_id` of the circle owned by
    /// `circle_owner`, with `disputer` as its resolver.
    ///
    /// Refused with `RoundNotFound`, and with `InvalidParameters` when the
    /// round is already disputed or once its dispute window after the
    /// round's end has passed. The window is the circle's; a round whose
    /// circle has no record keeps an hour per byte of the encoding of its
    /// circle address.
    pub fn dispute_payout(&mut self, env: &Ledger, circle_owner: Addr, disputer: Addr, round_id: u32) -> (r:
        Result<(), ErrorCode>)
        requires
            old(self).wf(),
            dispute_payout_in_range(old(self)@, circle_owner@, round_id),
        ensures
            final(self).wf(),
            registry_inv(final(self)@),
            (final(self)@, r) == step(
                old(self)@,
                (Op::DisputePayout {
                    now: env.timestamp,
                    owner: circle_owner@,
                    disputer: disputer@,
                    round_id,
                }),
            ),
            (final(self)@, r) == outcome(
                old(self)@,
                dispute_payout_check(old(self)@, env.timestamp, circle_owner@, round_id),
                dispute_payout_apply(old(self)@, circle_owner@, disputer@, round_id),
            ),
    {
        let rk = DataKey::Round(circle_owner.duplicate(), round_id);
        let mut round = match self.rounds.get(&rk) {
            Some(r) => r.duplicate(),
            None => return Err(ErrorCode::RoundNotFound),
        };
        if round.disputed {
            return Err(ErrorCode::InvalidParameters);
        }
        let dispute_window_hours: u64 = match self.circles.get(
            &DataKey::Circle(circle_owner.duplicate()),
        ) {
            Some(c) => c.dispute_window_hours as u64,
            None => round.circle.xdr_len() as u64,
        };
        let dispute_window_seconds = dispute_window_hours * SECONDS_PER_HOUR;
        if env.timestamp > round.end_time + dispute_window_seconds {
            return Err(ErrorCode::InvalidParameters);
        }
        round.disputed = true;
        round.dispute_resolver = disputer;
        self.rounds.set(rk, round);
        Ok(())
    }

    /// End the current round of the circle owned by `circle_owner`: the
    /// round is finalized, its pot added to the circle's volume, and the
    /// circle moves to the next round.
    ///
    /// Refused with `CircleNotFound`, `RoundNotFound`, and `RoundNotEnded`
    /// before the round's end time.
    pub fn end_round(&mut self, env: &Ledger, circle_owner: Addr) -> (r: Result<(), ErrorCode>)
        requires
            old(self).wf(),
            end_round_in_range(old(self)@, env.timestamp, circle_owner@),
        ensures
            final(self).wf(),
            registry_inv(final(self)@),
            (final(self)@, r) == step(
                old(self)@,
                (Op::EndRound { now: env.timestamp, owner: circle_owner@ }),
            ),
            (final(self)@, r) == outcome(
                old(self)@,
                end_round_check(old(self)@, env.timestamp, circle_owner@),
                end_round_apply(old(self)@, circle_owner@),
            ),
            end_round_check(old(self)@, env.timestamp, circle_owner@) is None ==> final(self)@.rounds
                == old(self)@.rounds.insert(
                round_key(circle_owner@, old(self)@.circles[circle_key(circle_owner@)].current_round),
                (RoundView {
                    is_finalized: true,
                    ..old(self)@.rounds[round_key(
                        circle_owner@,
                        old(self)@.circles[circle_key(circle_owner@)].current_round,
                    )]
                }),
            ),
    {
        let ck = DataKey::Circle(circle_owner.duplicate());
        let mut circle = match self.circles.get(&ck) {
            Some(c) => c.duplicate(),
            None => return Err(ErrorCode::CircleNotFound),
        };
        let rk = DataKey::Round(circle_owner.duplicate(), circle.current_round);
        let mut round = match self.rounds.get(&rk) {
            Some(r) => r.duplicate(),
            None => return Err(ErrorCode::RoundNotFound),
        };
        if env.timestamp < round.end_time {
            return Err(ErrorCode::RoundNotEnded);
        }
        round.is_finalized = true;
        circle.current_round = circle.current_round + 1;
        circle.total_volume = circle.total_volume + round.total_pot;
        let finished = DataKey::Round(circle_owner.duplicate(), round.round_id);
        self.rounds.set(finished, round);
        self.circles.set(ck, circle);
        Ok(())
    }

    /// Who must sign the owner's operations on the circle stored under
    /// `circle_owner` (ending and finalizing rounds, triggering defaults,
    /// deactivating): the owner recorded in the circle; nobody when there is
    /// no such circle, which those operations refuse with `CircleNotFound`.
    pub fn circle_admin(&self, circle_owner: Addr) -> (r: Option<Addr>)
        requires
            self.wf(),
        ensures
            r is Some <==> self@.circles.contains_key(circle_key(circle_owner@)),
            r matches Some(a) ==> a@ == self@.circles[circle_key(circle_owner@)].owner,
    {
        match self.circles.get(&DataKey::Circle(circle_owner)) {
            Some(c) => Some(c.owner.duplicate()),
            None => None,
        }
    }

    /// The circle owned by `circle_owner`; `CircleNotFound` if none.
    pub fn get_circle(&self, circle_owner: Addr) -> (r: Result<Circle, ErrorCode>)
        requires
            self.wf(),
        ensures
            r is Ok <==> self@.circles.contains_key(circle_key(circle_owner@)),
            r matches Ok(c) ==> c@ == self@.circles[circle_key(circle_owner@)],
            r matches Err(e) ==> e == ErrorCode::CircleNotFound,
    {
        match self.circles.get(&DataKey::Circle(circle_owner)) {
            Some(c) => Ok(c.duplicate()),
            None => Err(ErrorCode::CircleNotFound),
        }
    }

    /// The record of `member` in the circle owned by `circle_owner`;
    /// `MemberNotFound` if none.
    pub fn get_member(&self, circle_owner: Addr, member: Addr) -> (r: Result<Member, ErrorCode>)
        requires
            self.wf(),
        ensures
            r is Ok <==> self@.members.contains_key(member_key(circle_owner@, member@)),
            r matches Ok(m) ==> m@ == self@.members[member_key(circle_owner@, member@)],
            r matches Err(e) ==> e == ErrorCode::MemberNotFound,
    {
        match self.members.get(&DataKey::Member(circle_owner, member)) {
            Some(m) => Ok(m.duplicate()),
            None => Err(ErrorCode::MemberNotFound),
        }
    }

    /// Round `round_id` of the circle owned by `circle_owner`;
    /// `RoundNotFound` if none.
    pub fn get_round(&self, circle_owner: Addr, round_id: u32) -> (r: Result<Round, ErrorCode>)
        requires
            self.wf(),
        ensures
            r is Ok <==> self@.rounds.contains_key(round_key(circle_owner@, round_id)),
            r matches Ok(x) ==> x@ == self@.rounds[round_key(circle_owner@, round_id)],
            r matches Err(e) ==> e == ErrorCode::RoundNotFound,
    {
        match self.rounds.get(&DataKey::Round(circle_owner, round_id)) {
            Some(x) => Ok(x.duplicate()),
            None => Err(ErrorCode::RoundNotFound),
        }
    }

    /// Finalize round `round_id` of the circle owned by `circle_owner` with
    /// `payout_recipient` as recipient, who counts the payout and gains
    /// trust (never beyond full trust).
    ///
    /// Refused with `CircleNotFound`, `RoundNotFound`, `RoundNotEnded` for
    /// a round already finalized, and `MemberNotFound` when the recipient is
    /// not a member.
    pub fn finalize_round(&mut self, circle_owner: Addr, round_id: u32, payout_recipient: Addr) -> (r:
        Result<(), ErrorCode>)
        requires
            old(self).wf(),
            finalize_round_in_range(old(self)@, circle_owner@, round_id, payout_recipient@),
        ensures
            final(self).wf(),
            registry_inv(final(self)@),
            (final(self)@, r) == step(
                old(self)@,
                (Op::FinalizeRound {
                    owner: circle_owner@,
                    round_id,
                    recipient: payout_recipient@,
                }),
            ),
            (final(self)@, r) == outcome(
                old(self)@,
                finalize_round_check(old(self)@, circle_owner@, round_id, payout_recipient@),
                finalize_round_apply(old(self)@, circle_owner@, round_id, payout_recipient@),
            ),
            r is Ok ==> final(self)@.members[member_key(circle_owner@, payout_recipient@)].payouts_received
                == old(self)@.members[member_key(circle_owner@, payout_recipient@)].payouts_received
                + 1,
            r is Ok && old(self)@.members[member_key(circle_owner@, payout_recipient@)].trust_score
                + 5 <= 100 ==> final(self)@.members[member_key(
                circle_owner@,
                payout_recipient@,
            )].trust_score == old(self)@.members[member_key(
                circle_owner@,
                payout_recipient@,
            )].trust_score + 5,
            r is Ok && old(self)@.members[member_key(circle_owner@, payout_recipient@)].trust_score
                + 5 > 100 ==> final(self)@.members[member_key(
                circle_owner@,
                payout_recipient@,
            )].trust_score == 100,
    {
        proof {
            lemma_finalize_round_exact(self@, circle_owner@, round_id, payout_recipient@);
        }
        let ck = DataKey::Circle(circle_owner.duplicate());
        if self.circles.get(&ck).is_none() {
            return Err(ErrorCode::CircleNotFound);
        }
        let rk = DataKey::Round(circle_owner.duplicate(), round_id);
        let mut round = match self.rounds.get(&rk) {
            Some(r) => r.duplicate(),
            None => return Err(ErrorCode::RoundNotFound),
        };
        if round.is_finalized {
            return Err(ErrorCode::RoundNotEnded);
        }
        round.is_finalized = true;
        round.payout_recipient = payout_recipient.duplicate();
        let mk = DataKey::Member(circle_owner.duplicate(), payout_recipient.duplicate());
        let mut member = match self.members.get(&mk) {
            Some(m) => m.duplicate(),
            None => return Err(ErrorCode::MemberNotFound),
        };
        member.payouts_received = member.payouts_received + 1;
        if member.trust_score < FULL_TRUST {
            if member.trust_score + PAYOUT_TRUST_BONUS > FULL_TRUST {
                member.trust_score = FULL_TRUST;
            } else {
                member.trust_score = member.trust_score + PAYOUT_TRUST_BONUS;
            }
        }
        self.members.set(mk, member);
        self.rounds.set(rk, round);
        Ok(())
    }

    /// Mark the circle owned by `circle_owner` inactive; `CircleNotFound`
    /// if there is none.
    pub fn deactivate_circle(&mut self, circle_owner: Addr) -> (r: Result<(), ErrorCode>)
        requires
            old(self).wf(),
        ensures
            final(self).wf(),
            registry_inv(final(self)@),
            (final(self)@, r) == step(old(self)@, (Op::DeactivateCircle { owner: circle_owner@ })),
            (final(self)@, r) == outcome(
                old(self)@,
                deactivate_circle_check(old(self)@, circle_owner@),
                deactivate_circle_apply(old(self)@, circle_owner@),
            ),
    {
        let ck = DataKey::Circle(circle_owner.duplicate());
        let mut circle = match self.circles.get(&ck) {
            Some(c) => c.duplicate(),
            None => return Err(ErrorCode::CircleNotFound),
        };
        circle.is_active = false;
        self.circles.set(ck, circle);
        Ok(())
    }
}

} // verus!
