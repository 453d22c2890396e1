//! Records kept by the registry, the keys they are stored under, and the
//! errors its operations answer with.

use vstd::prelude::*;

use crate::address::Addr;

verus! {

/// Why an operation of the registry was refused.
#[derive(Clone, Copy, PartialEq, Eq, Debug, Structural)]
pub enum ErrorCode {
    CircleNotFound,
    MemberNotFound,
    RoundNotFound,
    InvalidAmount,
    UnauthorizedAccess,
    InsufficientCollateral,
    InvalidPayoutOrder,
    RoundNotEnded,
    InvalidParameters,
    MemberAlreadyJoined,
    CircleNotActive,
    MaxMembersReached,
    InsufficientTrustScore,
}

/// The number under which each error is published.
pub open spec fn error_number(e: ErrorCode) -> u32 {
    match e {
        ErrorCode::CircleNotFound => 1,
        ErrorCode::MemberNotFound => 2,
        ErrorCode::RoundNotFound => 3,
        ErrorCode::InvalidAmount => 4,
        ErrorCode::UnauthorizedAccess => 5,
        ErrorCode::InsufficientCollateral => 6,
        ErrorCode::InvalidPayoutOrder => 7,
        ErrorCode::RoundNotEnded => 8,
        ErrorCode::InvalidParameters => 9,
        ErrorCode::MemberAlreadyJoined => 10,
        ErrorCode::CircleNotActive => 11,
        ErrorCode::MaxMembersReached => 12,
        ErrorCode::InsufficientTrustScore => 13,
    }
}

impl ErrorCode {
    /// The published number of this error.
    pub fn code(&self) -> (n: u32)
        ensures
            n == error_number(*self),
    {
        match self {
            ErrorCode::CircleNotFound => 1,
            ErrorCode::MemberNotFound => 2,
            ErrorCode::RoundNotFound => 3,
            ErrorCode::InvalidAmount => 4,
            ErrorCode::UnauthorizedAccess => 5,
            ErrorCode::InsufficientCollateral => 6,
            ErrorCode::InvalidPayoutOrder => 7,
            ErrorCode::RoundNotEnded => 8,
            ErrorCode::InvalidParameters => 9,
            ErrorCode::MemberAlreadyJoined => 10,
            ErrorCode::CircleNotActive => 11,
            ErrorCode::MaxMembersReached => 12,
            ErrorCode::InsufficientTrustScore => 13,
        }
    }
}

/// How the recipient of each round's pot is chosen.
#[derive(Clone, Copy, PartialEq, Eq, Debug, Structural)]
pub enum PayoutOrder {
    /// Fixed rotation (published as 0).
    Fixed,
    /// Highest bid wins the round (published as 1).
    Bid,
}

impl PayoutOrder {
    /// The published number of this payout order.
    pub fn code(&self) -> (n: u32)
        ensures
            n == (if *self == PayoutOrder::Fixed { 0u32 } else { 1u32 }),
    {
        match self {
            PayoutOrder::Fixed => 0,
            PayoutOrder::Bid => 1,
        }
    }
}

/// Standing of a member within a circle.
#[derive(Clone, Copy, PartialEq, Eq, Debug, Structural)]
pub enum MemberStatus {
    /// In good standing (published as 0).
    Active,
    /// Has defaulted at least once (published as 1).
    Defaulted,
    /// Trust score exhausted (published as 2).
    Suspended,
    /// Has left the circle (published as 3).
    Exited,
}

impl MemberStatus {
    /// The published number of this status.
    pub fn code(&self) -> (n: u32)
        ensures
            n == (match *self {
                MemberStatus::Active => 0u32,
                MemberStatus::Defaulted => 1u32,
                MemberStatus::Suspended => 2u32,
                MemberStatus::Exited => 3u32,
            }),
    {
        match self {
            MemberStatus::Active => 0,
            MemberStatus::Defaulted => 1,
            MemberStatus::Suspended => 2,
            MemberStatus::Exited => 3,
        }
    }
}

/// A savings circle: its terms and its running totals.
#[derive(Debug)]
pub struct Circle {
    pub owner: Addr,
    /// The circle's name, as the bytes of the string it was given.
    pub name: Vec<u8>,
    pub contribution_amount: i128,
    pub cycle_duration_days: u32,
    pub payout_order: PayoutOrder,
    pub collateral_percentage: u32,
    pub dispute_window_hours: u32,
    pub current_round: u32,
    pub is_active: bool,
    pub created_at: u64,
    pub member_count: u32,
    pub max_members: u32,
    pub total_volume: i128,
    pub min_trust_score: u32,
}

/// The value of a [`Circle`], with addresses and names as sequences.
pub struct CircleView {
    pub owner: Seq<u8>,
    pub name: Seq<u8>,
    pub contribution_amount: i128,
    pub cycle_duration_days: u32,
    pub payout_order: PayoutOrder,
    pub collateral_percentage: u32,
    pub dispute_window_hours: u32,
    pub current_round: u32,
    pub is_active: bool,
    pub created_at: u64,
    pub member_count: u32,
    pub max_members: u32,
    pub total_volume: i128,
    pub min_trust_score: u32,
}

impl View for Circle {
    type V = CircleView;

    open spec fn view(&self) -> CircleView {
        CircleView {
            owner: self.owner@,
            name: self.name@,
            contribution_amount: self.contribution_amount,
            cycle_duration_days: self.cycle_duration_days,
            payout_order: self.payout_order,
            collateral_percentage: self.collateral_percentage,
            dispute_window_hours: self.dispute_window_hours,
            current_round: self.current_round,
            is_active: self.is_active,
            created_at: self.created_at,
            member_count: self.member_count,
            max_members: self.max_members,
            total_volume: self.total_volume,
            min_trust_score: self.min_trust_score,
        }
    }
}

impl Circle {
    /// A copy of this circle.
    pub fn duplicate(&self) -> (c: Circle)
        ensures
            c@ == self@,
    {
        Circle {
            owner: self.owner.duplicate(),
            name: self.name.clone(),
            contribution_amount: self.contribution_amount,
            cycle_duration_days: self.cycle_duration_days,
            payout_order: self.payout_order,
            collateral_percentage: self.collateral_percentage,
            dispute_window_hours: self.dispute_window_hours,
            current_round: self.current_round,
            is_active: self.is_active,
            created_at: self.created_at,
            member_count: self.member_count,
            max_members: self.max_members,
            total_volume: self.total_volume,
            min_trust_score: self.min_trust_score,
        }
    }
}

/// A member's record within one circle.
#[derive(Debug)]
pub struct Member {
    pub address: Addr,
    pub contributions_made: u32,
    pub payouts_received: u32,
    pub collateral_locked: i128,
    pub default_count: u32,
    pub trust_score: u32,
    pub joined_at: u64,
    pub last_contribution: u64,
    pub status: MemberStatus,
    pub total_contributed: i128,
}

/// The value of a [`Member`], with its address as a sequence.
pub struct MemberView {
    pub address: Seq<u8>,
    pub contributions_made: u32,
    pub payouts_received: u32,
    pub collateral_locked: i128,
    pub default_count: u32,
    pub trust_score: u32,
    pub joined_at: u64,
    pub last_contribution: u64,
    pub status: MemberStatus,
    pub total_contributed: i128,
}

impl View for Member {
    type V = MemberView;

    open spec fn view(&self) -> MemberView {
        MemberView {
            address: self.address@,
            contributions_made: self.contributions_made,
            payouts_received: self.payouts_received,
            collateral_locked: self.collateral_locked,
            default_count: self.default_count,
            trust_score: self.trust_score,
            joined_at: self.joined_at,
            last_contribution: self.last_contribution,
            status: self.status,
            total_contributed: self.total_contributed,
        }
    }
}

impl Member {
    /// A copy of this member record.
    pub fn duplicate(&self) -> (m: Member)
        ensures
            m@ == self@,
    {
        Member {
            address: self.address.duplicate(),
            contributions_made: self.contributions_made,
            payouts_received: self.payouts_received,
            collateral_locked: self.collateral_locked,
            default_count: self.default_count,
            trust_score: self.trust_score,
            joined_at: self.joined_at,
            last_contribution: self.last_contribution,
            status: self.status,
            total_contributed: self.total_contributed,
        }
    }
}

/// One round of a circle: its timing, its pot and who receives it.
#[derive(Debug)]
pub struct Round {
    pub circle: Addr,
    pub round_id: u32,
    pub start_time: u64,
    pub end_time: u64,
    pub total_pot: i128,
    pub payout_recipient: Addr,
    pub highest_bid: i128,
    pub contributions_received: u32,
    pub member_count: u32,
    pub disputed: bool,
    pub dispute_resolver: Addr,
    pub is_finalized: bool,
}

/// The value of a [`Round`], with its addresses as sequences.
pub struct RoundView {
    pub circle: Seq<u8>,
    pub round_id: u32,
    pub start_time: u64,
    pub end_time: u64,
    pub total_pot: i128,
    pub payout_recipient: Seq<u8>,
    pub highest_bid: i128,
    pub contributions_received: u32,
    pub member_count: u32,
    pub disputed: bool,
    pub dispute_resolver: Seq<u8>,
    pub is_finalized: bool,
}

impl View for Round {
    type V = RoundView;

    open spec fn view(&self) -> RoundView {
        RoundView {
            circle: self.circle@,
            round_id: self.round_id,
            start_time: self.start_time,
            end_time: self.end_time,
            total_pot: self.total_pot,
            payout_recipient: self.payout_recipient@,
            highest_bid: self.highest_bid,
            contributions_received: self.contributions_received,
            member_count: self.member_count,
            disputed: self.disputed,
            dispute_resolver: self.dispute_resolver@,
            is_finalized: self.is_finalized,
        }
    }
}

impl Round {
    /// A copy of this round.
    pub fn duplicate(&self) -> (r: Round)
        ensures
            r@ == self@,
    {
        Round {
            circle: self.circle.duplicate(),
            round_id: self.round_id,
            start_time: self.start_time,
            end_time: self.end_time,
            total_pot: self.total_pot,
            payout_recipient: self.payout_recipient.duplicate(),
            highest_bid: self.highest_bid,
            contributions_received: self.contributions_received,
            member_count: self.member_count,
            disputed: self.disputed,
            dispute_resolver: self.dispute_resolver.duplicate(),
            is_finalized: self.is_finalized,
        }
    }
}

/// The keys under which the registry keeps its records.
#[derive(Debug)]
pub enum DataKey {
    /// The circle owned by an address.
    Circle(Addr),
    /// A member's record: (circle owner, member).
    Member(Addr, Addr),
    /// A round's record: (circle owner, round number).
    Round(Addr, u32),
    /// The list of circles.
    CircleList,
    /// The list of members of a circle.
    MemberList(Addr),
    /// The number of circles.
    CircleCount,
}

/// The value of a [`DataKey`], with addresses as sequences.
pub enum DataKeyView {
    Circle(Seq<u8>),
    Member(Seq<u8>, Seq<u8>),
    Round(Seq<u8>, u32),
    CircleList,
    MemberList(Seq<u8>),
    CircleCount,
}

impl View for DataKey {
    type V = DataKeyView;

    open spec fn view(&self) -> DataKeyView {
        match self {
            DataKey::Circle(a) => DataKeyView::Circle(a@),
            DataKey::Member(a, b) => DataKeyView::Member(a@, b@),
            DataKey::Round(a, n) => DataKeyView::Round(a@, *n),
            DataKey::CircleList => DataKeyView::CircleList,
            DataKey::MemberList(a) => DataKeyView::MemberList(a@),
            DataKey::CircleCount => DataKeyView::CircleCount,
        }
    }
}

impl DataKey {
    /// Whether two keys name the same record.
    pub fn same(&self, other: &DataKey) -> (r: bool)
        ensures
            r == (self@ == other@),
    {
        match (self, other) {
            (DataKey::Circle(a), DataKey::Circle(b)) => a.same(b),
            (DataKey::Member(a, c), DataKey::Member(b, d)) => a.same(b) && c.same(d),
            (DataKey::Round(a, n), DataKey::Round(b, m)) => *n == *m && a.same(b),
            (DataKey::CircleList, DataKey::CircleList) => true,
            (DataKey::MemberList(a), DataKey::MemberList(b)) => a.same(b),
            (DataKey::CircleCount, DataKey::CircleCount) => true,
            _ => false,
        }
    }
}

} // verus!
