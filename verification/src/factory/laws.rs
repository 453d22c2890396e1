//! Properties of the factory's index that span its operations.

use vstd::prelude::*;

use super::spec::{
    FactoryState, MAX_PAGE, create_check, factory_inv, index_of_salt, list_result, listing_at,
    newest_first, newest_first_above, record_apply, salt_of, window_suffices,
};
use super::types::{Error, ListingView};

verus! {

/// The index a circle was deployed with can be read back from its salt.
pub proof fn lemma_salt_encodes_index(index: u32)
    ensures
        salt_of(index).len() == 32,
        index_of_salt(salt_of(index)) == index,
        forall|i: int| 4 <= i < 32 ==> salt_of(index)[i] == 0,
{
    let s = salt_of(index);
    assert(index / 16777216 < 256) by (bit_vector);
    assert(s[0] == index / 16777216);
    assert(s[1] == (index / 65536) % 256);
    assert(s[2] == (index / 256) % 256);
    assert(s[3] == index % 256);
    assert(index == (index / 16777216) * 16777216 + ((index / 65536) % 256) * 65536 + ((index
        / 256) % 256) * 256 + index % 256) by (bit_vector);
}

/// Every circle gets its own salt: distinct indices give distinct salts,
/// so the same factory never deploys two circles at one address.
pub proof fn lemma_distinct_indices_distinct_salts(i: u32, j: u32)
    requires
        i != j,
    ensures
        salt_of(i) != salt_of(j),
{
    lemma_salt_encodes_index(i);
    lemma_salt_encodes_index(j);
}

/// Recording a deployed circle indexes it under the count it was created
/// at, counts one more circle, and leaves every earlier slot as it was.
pub proof fn lemma_recorded_circle_is_indexed(s: FactoryState, l: ListingView)
    requires
        factory_inv(s),
        s.count < u32::MAX,
    ensures
        factory_inv(record_apply(s, l)),
        record_apply(s, l).count == s.count + 1,
        listing_at(record_apply(s, l), s.count) == Some(l),
        forall|i: u32| i < s.count ==> listing_at(record_apply(s, l), i) == listing_at(s, i),
        record_apply(s, l).wasm == s.wasm,
{
}

/// A factory with no circles lists nothing, at any offset, and holds no
/// listing at any index.
pub proof fn lemma_starts_empty(wasm: [u8; 32], offset: u32, limit: u32, index: u32)
    requires
        limit <= MAX_PAGE,
    ensures
        list_result(FactoryState { wasm, count: 0, listings: Seq::empty() }, offset, limit)
            == Ok::<Seq<ListingView>, Error>(Seq::empty()),
        listing_at(FactoryState { wasm, count: 0, listings: Seq::empty() }, index) is None,
{
}

/// A page holds at most `limit` listings, each held at a slot below `top`.
pub proof fn lemma_page_bounded(listings: Seq<Option<ListingView>>, top: int, limit: int)
    requires
        0 <= top <= listings.len(),
        0 <= limit,
    ensures
        newest_first(listings, top, limit).len() <= limit,
        newest_first(listings, top, limit).len() <= top,
        forall|k: int|
            0 <= k < newest_first(listings, top, limit).len() ==> exists|i: int|
                0 <= i < top && listings[i] == Some(#[trigger] newest_first(listings, top, limit)[k]),
    decreases top,
{
    if top > 0 && limit > 0 {
        lemma_page_bounded(listings, top - 1, limit - 1);
        lemma_page_bounded(listings, top - 1, limit);
        let page = newest_first(listings, top, limit);
        match listings[top - 1] {
            Some(l) => {
                let rest = newest_first(listings, top - 1, limit - 1);
                assert(page == seq![l] + rest);
                assert forall|k: int| 0 <= k < page.len() implies exists|i: int|
                    0 <= i < top && listings[i] == Some(#[trigger] page[k]) by {
                    if k == 0 {
                        assert(listings[top - 1] == Some(page[0]));
                    } else {
                        assert(page[k] == rest[k - 1]);
                    }
                }
            },
            None => {},
        }
    }
}

/// Where no listing below `top` has expired, a page is the `limit` newest
/// of them (or all, if fewer), newest first.
pub proof fn lemma_full_index_pages(listings: Seq<Option<ListingView>>, top: int, limit: int)
    requires
        0 <= top <= listings.len(),
        0 <= limit,
        forall|i: int| 0 <= i < top ==> listings[i] is Some,
    ensures
        newest_first(listings, top, limit).len() == if top < limit {
            top
        } else {
            limit
        },
        forall|k: int|
            0 <= k < newest_first(listings, top, limit).len() ==> Some(
                #[trigger] newest_first(listings, top, limit)[k],
            ) == listings[top - 1 - k],
    decreases top,
{
    if top > 0 && limit > 0 {
        lemma_full_index_pages(listings, top - 1, limit - 1);
        let rest = newest_first(listings, top - 1, limit - 1);
        let page = newest_first(listings, top, limit);
        assert(listings[top - 1] is Some);
        assert(page == seq![listings[top - 1]->0] + rest);
        assert forall|k: int| 0 <= k < page.len() implies Some(#[trigger] page[k]) == listings[top
            - 1 - k] by {
            if k > 0 {
                assert(page[k] == rest[k - 1]);
            }
        }
    }
}

/// Paging through a factory none of whose listings has expired: the page
/// at `offset` holds the circles created `offset` places before the newest,
/// going back in time, and a page past the end is empty.
pub proof fn lemma_pages_walk_back_from_newest(s: FactoryState, offset: u32, limit: u32)
    requires
        factory_inv(s),
        limit <= MAX_PAGE,
        forall|i: int| 0 <= i < s.count ==> s.listings[i] is Some,
    ensures
        list_result(s, offset, limit) matches Ok(page) && {
            &&& offset >= s.count ==> page.len() == 0
            &&& offset < s.count ==> page.len() == if s.count - offset < limit {
                (s.count - offset) as int
            } else {
                limit as int
            }
            &&& forall|k: int|
                0 <= k < page.len() ==> Some(#[trigger] page[k]) == s.listings[s.count - 1
                    - offset - k]
        },
{
    if offset < s.count {
        lemma_full_index_pages(s.listings, s.count - offset, limit as int);
    }
}

/// A page below `top` depends only on the slots read from `base` up,
/// when those settle it: any index agreeing with them there pages the same.
pub proof fn lemma_window_decides_page(
    read: Seq<Option<ListingView>>,
    stored: Seq<Option<ListingView>>,
    top: int,
    limit: int,
    base: int,
)
    requires
        0 <= limit,
        0 <= top <= read.len(),
        top <= stored.len(),
        forall|i: int| base <= i < top ==> #[trigger] read[i] == stored[i],
        window_suffices(read, top, limit, base),
    ensures
        newest_first(read, top, limit) == newest_first(stored, top, limit),
    decreases top,
{
    if top > 0 && limit > 0 {
        if top <= base {
            assert(newest_first_above(read, top, limit, base).len() == 0);
        } else {
            assert(read[top - 1] == stored[top - 1]);
            match read[top - 1] {
                Some(l) => {
                    lemma_window_decides_page(read, stored, top - 1, limit - 1, base);
                },
                None => {
                    lemma_window_decides_page(read, stored, top - 1, limit, base);
                },
            }
        }
    }
}

/// A factory restored from the slots read from `base` up lists like the
/// stored index it was read from, once `list_window_suffices` says those
/// slots settle the page.
pub proof fn lemma_window_lists_like_storage(
    read: FactoryState,
    stored: FactoryState,
    offset: u32,
    limit: u32,
    base: u32,
)
    requires
        factory_inv(read),
        factory_inv(stored),
        read.count == stored.count,
        forall|i: int| base <= i < read.count ==> #[trigger] read.listings[i] == stored.listings[i],
        limit > MAX_PAGE || offset >= read.count || window_suffices(
            read.listings,
            read.count - offset,
            limit as int,
            base as int,
        ),
    ensures
        list_result(read, offset, limit) == list_result(stored, offset, limit),
{
    if limit <= MAX_PAGE && offset < read.count {
        lemma_window_decides_page(
            read.listings,
            stored.listings,
            read.count - offset,
            limit as int,
            base as int,
        );
    }
}

/// The factory refuses exactly the terms the circle contract would: a
/// contribution that is not positive or a zero round length
/// (`InvalidTerms`), else a size outside 3..=24 (`InvalidCapacity`); any
/// other terms are taken.
pub proof fn lemma_create_refuses_exactly_bad_terms(contribution: i128, round_seconds: u64, capacity: u32)
    ensures
        create_check(contribution, round_seconds, capacity) is None <==> (contribution > 0
            && round_seconds > 0 && 3 <= capacity <= 24),
        contribution <= 0 ==> create_check(contribution, round_seconds, capacity) == Some(
            Error::InvalidTerms,
        ),
        round_seconds == 0 ==> create_check(contribution, round_seconds, capacity) == Some(
            Error::InvalidTerms,
        ),
        contribution > 0 && round_seconds > 0 && (capacity < 3 || capacity > 24) ==> create_check(
            contribution,
            round_seconds,
            capacity,
        ) == Some(Error::InvalidCapacity),
{
}

} // verus!
