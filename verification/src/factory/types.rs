//! The factory's errors, its listings, and the deployments it asks for.

use vstd::prelude::*;

use crate::address::Addr;

verus! {

/// Why the factory refused a request.
#[derive(Clone, Copy, PartialEq, Eq, Debug, Structural)]
pub enum Error {
    /// Contribution or round length was zero (published as 1).
    InvalidTerms,
    /// Circle size outside the range the circle contract accepts
    /// (published as 2).
    InvalidCapacity,
    /// Asked for more than the largest page at once (published as 3).
    PageTooLarge,
}

/// The number under which each error is published.
pub open spec fn error_number(e: Error) -> u32 {
    match e {
        Error::InvalidTerms => 1,
        Error::InvalidCapacity => 2,
        Error::PageTooLarge => 3,
    }
}

impl Error {
    /// The published number of this error.
    pub fn code(&self) -> (n: u32)
        ensures
            n == error_number(*self),
    {
        match self {
            Error::InvalidTerms => 1,
            Error::InvalidCapacity => 2,
            Error::PageTooLarge => 3,
        }
    }
}

/// A circle in the index, with the terms it was created on.
#[derive(Debug)]
pub struct Listing {
    pub address: Addr,
    pub creator: Addr,
    pub token: Addr,
    pub contribution: i128,
    pub round_seconds: u64,
    pub capacity: u32,
    pub created_at: u64,
}

/// The value of a [`Listing`], with its addresses as sequences.
pub struct ListingView {
    pub address: Seq<u8>,
    pub creator: Seq<u8>,
    pub token: Seq<u8>,
    pub contribution: i128,
    pub round_seconds: u64,
    pub capacity: u32,
    pub created_at: u64,
}

impl View for Listing {
    type V = ListingView;

    open spec fn view(&self) -> ListingView {
        ListingView {
            address: self.address@,
            creator: self.creator@,
            token: self.token@,
            contribution: self.contribution,
            round_seconds: self.round_seconds,
            capacity: self.capacity,
            created_at: self.created_at,
        }
    }
}

impl Listing {
    /// A copy of this listing.
    pub fn duplicate(&self) -> (l: Listing)
        ensures
            l@ == self@,
    {
        Listing {
            address: self.address.duplicate(),
            creator: self.creator.duplicate(),
            token: self.token.duplicate(),
            contribution: self.contribution,
            round_seconds: self.round_seconds,
            capacity: self.capacity,
            created_at: self.created_at,
        }
    }
}

/// A circle the factory is to deploy: the code, the salt that fixes its
/// address, the position it will take in the index, and the terms handed
/// to the circle's constructor.
#[derive(Debug)]
pub struct Deployment {
    pub index: u32,
    pub salt: [u8; 32],
    pub wasm: [u8; 32],
    pub creator: Addr,
    pub token: Addr,
    pub contribution: i128,
    pub round_seconds: u64,
    pub capacity: u32,
}

} // verus!
