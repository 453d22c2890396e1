//! The factory over a history of `create` calls.

use vstd::prelude::*;

use super::laws::lemma_pages_walk_back_from_newest;
use super::spec::{
    FactoryState, MAX_PAGE, create_check, factory_inv, list_result, listing_at, record_apply,
};
use super::types::{Error, ListingView};

verus! {

/// One `create` call: its arguments, the address the deployed circle got,
/// and the ledger time of the call.
pub struct CreateCall {
    pub creator: Seq<u8>,
    pub token: Seq<u8>,
    pub contribution: i128,
    pub round_seconds: u64,
    pub capacity: u32,
    pub address: Seq<u8>,
    pub now: u64,
}

/// The listing a successful call records.
pub open spec fn call_listing(c: CreateCall) -> ListingView {
    ListingView {
        address: c.address,
        creator: c.creator,
        token: c.token,
        contribution: c.contribution,
        round_seconds: c.round_seconds,
        capacity: c.capacity,
        created_at: c.now,
    }
}

/// The storage after one call, and the address it answers with: a call
/// with valid terms records its circle; one with invalid terms is refused
/// and records nothing.
pub open spec fn create_step(s: FactoryState, c: CreateCall) -> (FactoryState, Result<Seq<u8>, Error>) {
    match create_check(c.contribution, c.round_seconds, c.capacity) {
        Some(e) => (s, Err(e)),
        None => (record_apply(s, call_listing(c)), Ok(c.address)),
    }
}

/// The storage after the calls `calls`, in order, starting from `s`.
pub open spec fn factory_run(s: FactoryState, calls: Seq<CreateCall>) -> FactoryState
    decreases calls.len(),
{
    if calls.len() == 0 {
        s
    } else {
        create_step(factory_run(s, calls.drop_last()), calls.last()).0
    }
}

/// The listings of the successful calls of `calls`, in order.
pub open spec fn created(calls: Seq<CreateCall>) -> Seq<ListingView>
    decreases calls.len(),
{
    if calls.len() == 0 {
        Seq::empty()
    } else if create_check(
        calls.last().contribution,
        calls.last().round_seconds,
        calls.last().capacity,
    ) is None {
        created(calls.drop_last()).push(call_listing(calls.last()))
    } else {
        created(calls.drop_last())
    }
}

/// The index holding exactly the given listings, in order.
pub open spec fn held(ls: Seq<ListingView>) -> Seq<Option<ListingView>> {
    ls.map_values(|l: ListingView| Some(l))
}

/// After a factory built with code `wasm` serves a history of `create`
/// calls (with at most `u32::MAX` successes, the most its count holds),
/// it counts exactly the successful calls, holds their listings in order,
/// and still runs the code it was built with.
pub proof fn lemma_history_indexes_every_success(wasm: [u8; 32], calls: Seq<CreateCall>)
    requires
        created(calls).len() <= u32::MAX,
    ensures
        factory_run(FactoryState { wasm, count: 0, listings: Seq::empty() }, calls) == (FactoryState {
            wasm,
            count: created(calls).len() as u32,
            listings: held(created(calls)),
        }),
    decreases calls.len(),
{
    let start = FactoryState { wasm, count: 0, listings: Seq::empty() };
    if calls.len() == 0 {
        assert(held(created(calls)) =~= Seq::<Option<ListingView>>::empty());
    } else {
        let pre = calls.drop_last();
        assert(created(pre).len() <= created(calls).len());
        lemma_history_indexes_every_success(wasm, pre);
        if create_check(calls.last().contribution, calls.last().round_seconds, calls.last().capacity)
            is None {
            assert(held(created(calls)) =~= held(created(pre)).push(Some(call_listing(calls.last()))));
        }
    }
}

/// After such a history: `count` is the number of successful calls, `get`
/// of the `i`-th success is its listing (its address and terms), `get`
/// past the count is nothing, the code is the one the factory was built
/// with, and a page at `offset` holds the circles created `offset` places
/// before the newest, going back in time.
pub proof fn lemma_history_reads_back(wasm: [u8; 32], calls: Seq<CreateCall>, offset: u32, limit: u32)
    requires
        created(calls).len() <= u32::MAX,
        limit <= MAX_PAGE,
    ensures
        ({
            let s = factory_run(FactoryState { wasm, count: 0, listings: Seq::empty() }, calls);
            let k = created(calls).len();
            &&& s.count == k
            &&& s.wasm == wasm
            &&& forall|i: u32| i < k ==> #[trigger] listing_at(s, i) == Some(created(calls)[i as int])
            &&& forall|i: u32| i >= k ==> #[trigger] listing_at(s, i) is None
            &&& list_result(s, offset, limit) matches Ok(page) && forall|j: int|
                0 <= j < page.len() ==> #[trigger] page[j] == created(calls)[k - 1 - offset - j]
        }),
{
    lemma_history_indexes_every_success(wasm, calls);
    let s = factory_run(FactoryState { wasm, count: 0, listings: Seq::empty() }, calls);
    assert(factory_inv(s));
    lemma_pages_walk_back_from_newest(s, offset, limit);
}

/// The circle code is fixed at construction: after any history of
/// `create` calls (any number of them), the factory runs the code it was
/// built with, so every deployment it asks for, at any point of the
/// history, uses that code.
pub proof fn lemma_history_keeps_code(s: FactoryState, calls: Seq<CreateCall>)
    ensures
        factory_run(s, calls).wasm == s.wasm,
        forall|i: int| 0 <= i <= calls.len() ==> #[trigger] factory_run(s, calls.take(i)).wasm == s.wasm,
    decreases calls.len(),
{
    if calls.len() > 0 {
        lemma_history_keeps_code(s, calls.drop_last());
    }
    assert forall|i: int| 0 <= i <= calls.len() implies #[trigger] factory_run(s, calls.take(i)).wasm
        == s.wasm by {
        lemma_history_keeps_code_prefix(s, calls.take(i));
    }
}

proof fn lemma_history_keeps_code_prefix(s: FactoryState, calls: Seq<CreateCall>)
    ensures
        factory_run(s, calls).wasm == s.wasm,
    decreases calls.len(),
{
    if calls.len() > 0 {
        lemma_history_keeps_code_prefix(s, calls.drop_last());
    }
}

} // verus!
