//! The factory itself: its storage and the operations of the contract.

use vstd::prelude::*;

use crate::address::Addr;
use super::spec::{
    FactoryState, MAX_CAPACITY, MAX_PAGE, MIN_CAPACITY, create_check, factory_inv, list_result,
    listing_at, newest_first, newest_first_above, record_apply, salt_of, window_suffices,
    window_view,
};
use super::types::{Deployment, Error, Listing, ListingView};

verus! {

/// The value of a slot of the index.
pub open spec fn slot_view(o: Option<Listing>) -> Option<ListingView> {
    match o {
        Some(l) => Some(l@),
        None => None,
    }
}

/// The values of a page of listings.
pub open spec fn page_view(v: Seq<Listing>) -> Seq<ListingView> {
    v.map_values(|l: Listing| l@)
}

/// The salt a circle with the given index is deployed with.
pub fn salt_for(index: u32) -> (salt: [u8; 32])
    ensures
        salt@ == salt_of(index),
{
    let b0 = (index / 16777216) as u8;
    let b1 = ((index / 65536) % 256) as u8;
    let b2 = ((index / 256) % 256) as u8;
    let b3 = (index % 256) as u8;
    let salt = [
        b0, b1, b2, b3, 0, 0, 0, 0, 0, 0, 0, 0, 0, 0, 0, 0,
        0, 0, 0, 0, 0, 0, 0, 0, 0, 0, 0, 0, 0, 0, 0, 0,
    ];
    assert(salt@ =~= salt_of(index));
    salt
}

/// The circle factory: the code every circle runs, and the index of the
/// circles created.
pub struct Factory {
    wasm: [u8; 32],
    count: u32,
    listings: Vec<Option<Listing>>,
}

impl View for Factory {
    type V = FactoryState;

    closed spec fn view(&self) -> FactoryState {
        FactoryState {
            wasm: self.wasm,
            count: self.count,
            listings: self.listings@.map_values(|o: Option<Listing>| slot_view(o)),
        }
    }
}

impl Factory {
    /// The index holds one slot per circle created.
    pub closed spec fn wf(&self) -> bool {
        factory_inv(self@)
    }

    /// A well-formed factory's storage holds one slot per circle created.
    pub proof fn lemma_wf_inv(&self)
        requires
            self.wf(),
        ensures
            factory_inv(self@),
    {
    }

    /// A factory whose circles run the code with hash `circle_wasm`, with
    /// an empty index.
    pub fn new(circle_wasm: [u8; 32]) -> (f: Factory)
        ensures
            f.wf(),
            f@ == (FactoryState { wasm: circle_wasm, count: 0, listings: Seq::empty() }),
    {
        let f = Factory { wasm: circle_wasm, count: 0, listings: Vec::new() };
        assert(f@.listings =~= Seq::<Option<ListingView>>::empty());
        f
    }

    /// A factory whose storage holds the code hash `circle_wasm` and one
    /// slot per circle created (empty where a listing has expired).
    pub fn restore(circle_wasm: [u8; 32], listings: Vec<Option<Listing>>) -> (f: Factory)
        requires
            listings@.len() <= u32::MAX,
        ensures
            f.wf(),
            f@.wasm == circle_wasm,
            f@.count == listings@.len(),
            f@.listings == listings@.map_values(|o: Option<Listing>| slot_view(o)),
    {
        let count = listings.len() as u32;
        Factory { wasm: circle_wasm, count, listings }
    }

    /// A factory whose storage holds the code hash `circle_wasm` and
    /// `count` circles, of which only the slots from `base` on, as many as
    /// `window` holds, were read; the others count as empty.
    pub fn restore_window(
        circle_wasm: [u8; 32],
        count: u32,
        base: u32,
        window: Vec<Option<Listing>>,
    ) -> (f: Factory)
        requires
            base + window@.len() <= count,
        ensures
            f.wf(),
            f@.wasm == circle_wasm,
            f@.count == count,
            f@.listings == window_view(
                count as nat,
                base as int,
                window@.map_values(|o: Option<Listing>| slot_view(o)),
            ),
    {
        let ghost wv = window@.map_values(|o: Option<Listing>| slot_view(o));
        let ghost target = window_view(count as nat, base as int, wv);
        let end = base + window.len() as u32;
        let mut listings: Vec<Option<Listing>> = Vec::new();
        let mut i: u32 = 0;
        while i < count
            invariant
                base as int + window@.len() == end as int,
                end <= count,
                i <= count,
                wv == window@.map_values(|o: Option<Listing>| slot_view(o)),
                target == window_view(count as nat, base as int, wv),
                listings@.len() == i,
                forall|j: int| 0 <= j < i ==> #[trigger] slot_view(listings@[j]) == target[j],
            decreases count - i,
        {
            if i >= base && i < end {
                let slot = match &window[(i - base) as usize] {
                    Some(l) => Some(l.duplicate()),
                    None => None,
                };
                listings.push(slot);
            } else {
                listings.push(None);
            }
            i = i + 1;
        }
        let f = Factory { wasm: circle_wasm, count, listings };
        assert(f@.listings =~= target);
        f
    }

    /// Whether the slots read from `base` up settle the page `list(offset,
    /// limit)` would give: it is refused or empty, or those slots hold a
    /// full page below its start, or nothing lies below them.
    pub fn list_window_suffices(&self, offset: u32, limit: u32, base: u32) -> (b: bool)
        requires
            self.wf(),
        ensures
            b == (limit > MAX_PAGE || offset >= self@.count || window_suffices(
                self@.listings,
                self@.count - offset,
                limit as int,
                base as int,
            )),
    {
        if limit > MAX_PAGE || offset >= self.count || base == 0 {
            return true;
        }
        let top = self.count - offset;
        let mut taken: u32 = 0;
        let mut i: u32 = top;
        while i > base && taken < limit
            invariant
                self.wf(),
                top == self@.count - offset,
                top <= self@.count,
                i <= top,
                base > 0,
                taken <= limit,
                taken + newest_first_above(self@.listings, i as int, (limit - taken) as int, base as int).len()
                    == newest_first_above(self@.listings, top as int, limit as int, base as int).len(),
            decreases i,
        {
            i = i - 1;
            if self.listings[i as usize].is_some() {
                taken = taken + 1;
            }
        }
        taken == limit
    }

    /// How many circles have been created.
    pub fn count(&self) -> (n: u32)
        ensures
            n == self@.count,
    {
        self.count
    }

    /// The listing of the circle with the given index, if it is held.
    pub fn get(&self, index: u32) -> (r: Option<Listing>)
        requires
            self.wf(),
        ensures
            slot_view(r) == listing_at(self@, index),
    {
        if (index as usize) < self.listings.len() {
            match &self.listings[index as usize] {
                Some(l) => Some(l.duplicate()),
                None => None,
            }
        } else {
            None
        }
    }

    /// A page of the index, newest first: up to `limit` listings, after
    /// skipping the `offset` newest circles.
    ///
    /// Refused with `PageTooLarge` when `limit` is above the largest page.
    pub fn list(&self, offset: u32, limit: u32) -> (r: Result<Vec<Listing>, Error>)
        requires
            self.wf(),
        ensures
            match (r, list_result(self@, offset, limit)) {
                (Ok(v), Ok(page)) => page_view(v@) == page,
                (Err(e), Err(f)) => e == f,
                _ => false,
            },
    {
        if limit > MAX_PAGE {
            return Err(Error::PageTooLarge);
        }
        let count = self.count;
        let mut out: Vec<Listing> = Vec::new();
        if offset >= count {
            assert(page_view(out@) =~= Seq::<ListingView>::empty());
            return Ok(out);
        }
        let ghost top: int = count - offset;
        let mut taken: u32 = 0;
        let mut i: u32 = count - offset;
        while i > 0 && taken < limit
            invariant
                self.wf(),
                count == self@.count,
                0 <= i <= top <= count,
                top == count - offset,
                taken <= limit,
                page_view(out@) + newest_first(self@.listings, i as int, (limit - taken) as int)
                    == newest_first(self@.listings, top, limit as int),
            decreases i,
        {
            i = i - 1;
            let ghost before = page_view(out@);
            match &self.listings[i as usize] {
                Some(l) => {
                    out.push(l.duplicate());
                    taken = taken + 1;
                    assert(page_view(out@) =~= before.push(l@));
                    assert(before + newest_first(self@.listings, i + 1, (limit - taken + 1) as int)
                        =~= page_view(out@) + newest_first(
                        self@.listings,
                        i as int,
                        (limit - taken) as int,
                    ));
                },
                None => {},
            }
        }
        assert(newest_first(self@.listings, i as int, (limit - taken) as int) =~= Seq::<
            ListingView,
        >::empty());
        assert(page_view(out@) =~= newest_first(self@.listings, top, limit as int));
        Ok(out)
    }

    /// The hash of the code every circle from this factory runs.
    pub fn circle_wasm(&self) -> (w: [u8; 32])
        ensures
            w == self@.wasm,
    {
        self.wasm
    }

    /// Check the terms of a new circle and say how to deploy it: with this
    /// factory's code, the salt of the next index, and the terms as the
    /// circle's constructor arguments. Nothing is recorded until the
    /// deployed circle is handed to [`Factory::record_deployment`].
    ///
    /// Refused with `InvalidTerms` for a contribution that is not positive
    /// or a zero round length, and `InvalidCapacity` for a size outside
    /// 3..=24.
    pub fn create(
        &self,
        creator: Addr,
        token: Addr,
        contribution: i128,
        round_seconds: u64,
        capacity: u32,
    ) -> (r: Result<Deployment, Error>)
        requires
            self.wf(),
        ensures
            create_check(contribution, round_seconds, capacity) matches Some(e) ==> r == Err::<
                Deployment,
                Error,
            >(e),
            r is Ok <==> (contribution > 0 && round_seconds > 0 && 3 <= capacity <= 24),
            contribution <= 0 || round_seconds == 0 ==> r == Err::<Deployment, Error>(
                Error::InvalidTerms,
            ),
            create_check(contribution, round_seconds, capacity) is None ==> (r matches Ok(d) && {
                &&& d.index == self@.count
                &&& d.salt@ == salt_of(self@.count)
                &&& d.wasm == self@.wasm
                &&& d.creator@ == creator@
                &&& d.token@ == token@
                &&& d.contribution == contribution
                &&& d.round_seconds == round_seconds
                &&& d.capacity == capacity
            }),
    {
        if contribution <= 0 || round_seconds == 0 {
            return Err(Error::InvalidTerms);
        }
        if capacity < MIN_CAPACITY || capacity > MAX_CAPACITY {
            return Err(Error::InvalidCapacity);
        }
        let index = self.count;
        Ok(
            Deployment {
                index,
                salt: salt_for(index),
                wasm: self.wasm,
                creator,
                token,
                contribution,
                round_seconds,
                capacity,
            },
        )
    }

    /// Record a circle deployed at `address` as asked by `deployment`: its
    /// listing takes the next slot of the index, and the count grows by
    /// one. Returns the circle's address.
    pub fn record_deployment(&mut self, deployment: Deployment, address: Addr, now: u64) -> (a: Addr)
        requires
            old(self).wf(),
            deployment.index == old(self)@.count,
            old(self)@.count < u32::MAX,
        ensures
            final(self).wf(),
            a@ == address@,
            final(self)@ == record_apply(
                old(self)@,
                ListingView {
                    address: address@,
                    creator: deployment.creator@,
                    token: deployment.token@,
                    contribution: deployment.contribution,
                    round_seconds: deployment.round_seconds,
                    capacity: deployment.capacity,
                    created_at: now,
                },
            ),
    {
        let listing = Listing {
            address: address.duplicate(),
            creator: deployment.creator,
            token: deployment.token,
            contribution: deployment.contribution,
            round_seconds: deployment.round_seconds,
            capacity: deployment.capacity,
            created_at: now,
        };
        let ghost lv = listing@;
        let ghost before = self@;
        self.listings.push(Some(listing));
        self.count = deployment.index + 1;
        assert(self@.listings =~= before.listings.push(Some(lv)));
        address
    }
}

} // verus!
