//! What the factory's operations do, stated over the contents of its
//! storage.

use vstd::prelude::*;

use super::types::{Error, ListingView};

verus! {

/// The contents of the factory's storage: the circle code, the number of
/// circles created, and the listing of each (absent where it has expired).
#[verifier::ext_equal]
pub struct FactoryState {
    pub wasm: [u8; 32],
    pub count: u32,
    pub listings: Seq<Option<ListingView>>,
}

/// The most listings one page holds.
pub const MAX_PAGE: u32 = 50;

/// The smallest circle the circle contract accepts.
pub const MIN_CAPACITY: u32 = 3;

/// The largest circle the circle contract accepts.
pub const MAX_CAPACITY: u32 = 24;

/// The factory's storage is consistent: one slot per circle created.
pub open spec fn factory_inv(s: FactoryState) -> bool {
    s.listings.len() == s.count
}

/// `create`: the error for the given terms, if they are refused.
pub open spec fn create_check(contribution: i128, round_seconds: u64, capacity: u32) -> Option<Error> {
    if contribution <= 0 || round_seconds == 0 {
        Some(Error::InvalidTerms)
    } else if capacity < MIN_CAPACITY || capacity > MAX_CAPACITY {
        Some(Error::InvalidCapacity)
    } else {
        None
    }
}

/// The salt a circle is deployed with: its index, big-endian, in the first
/// four of 32 bytes, the rest zero.
pub open spec fn salt_of(index: u32) -> Seq<u8> {
    seq![
        (index / 16777216) as u8,
        ((index / 65536) % 256) as u8,
        ((index / 256) % 256) as u8,
        (index % 256) as u8,
    ] + Seq::new(28, |i: int| 0u8)
}

/// The index read back from the first four bytes of a salt.
pub open spec fn index_of_salt(salt: Seq<u8>) -> int {
    salt[0] * 16777216 + salt[1] * 65536 + salt[2] * 256 + salt[3]
}

/// The storage after a deployed circle is recorded: its listing takes the
/// next slot and the count grows by one.
pub open spec fn record_apply(s: FactoryState, listing: ListingView) -> FactoryState {
    FactoryState {
        count: (s.count + 1) as u32,
        listings: s.listings.push(Some(listing)),
        ..s
    }
}

/// The listing at `index`, if one is held there.
pub open spec fn listing_at(s: FactoryState, index: u32) -> Option<ListingView> {
    if index < s.listings.len() {
        s.listings[index as int]
    } else {
        None
    }
}

/// Up to `limit` listings held below position `top`, newest first: walking
/// down from `top - 1`, skipping expired slots.
pub open spec fn newest_first(listings: Seq<Option<ListingView>>, top: int, limit: int) -> Seq<
    ListingView,
>
    decreases top,
{
    if top <= 0 || limit <= 0 {
        Seq::empty()
    } else {
        match listings[top - 1] {
            Some(l) => seq![l] + newest_first(listings, top - 1, limit - 1),
            None => newest_first(listings, top - 1, limit),
        }
    }
}

/// `list`: a page of up to `limit` listings, skipping the `offset` newest
/// circles; refused with `PageTooLarge` above the largest page.
pub open spec fn list_result(s: FactoryState, offset: u32, limit: u32) -> Result<
    Seq<ListingView>,
    Error,
> {
    if limit > MAX_PAGE {
        Err(Error::PageTooLarge)
    } else if offset >= s.count {
        Ok(Seq::empty())
    } else {
        Ok(newest_first(s.listings, s.count - offset, limit as int))
    }
}

/// Up to `limit` listings held at slots from `top - 1` down to `base`,
/// newest first, skipping expired slots.
pub open spec fn newest_first_above(
    listings: Seq<Option<ListingView>>,
    top: int,
    limit: int,
    base: int,
) -> Seq<ListingView>
    decreases top,
{
    if top <= base || top <= 0 || limit <= 0 {
        Seq::empty()
    } else {
        match listings[top - 1] {
            Some(l) => seq![l] + newest_first_above(listings, top - 1, limit - 1, base),
            None => newest_first_above(listings, top - 1, limit, base),
        }
    }
}

/// The slots from `base` up to `top` settle a page of `limit` listings
/// below `top`: they hold `limit` listings, or there is nothing below them.
pub open spec fn window_suffices(listings: Seq<Option<ListingView>>, top: int, limit: int, base: int) -> bool {
    base <= 0 || newest_first_above(listings, top, limit, base).len() == limit
}

/// An index of `count` slots of which only those from `base` on, as many
/// as `window` holds, were read; the others count as empty.
pub open spec fn window_view(count: nat, base: int, window: Seq<Option<ListingView>>) -> Seq<
    Option<ListingView>,
> {
    Seq::new(
        count,
        |i: int|
            if base <= i < base + window.len() {
                window[i - base]
            } else {
                None
            },
    )
}

} // verus!
