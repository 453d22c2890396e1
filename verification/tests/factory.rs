use circlefi::address::Addr;
use circlefi::factory::{Error, Factory, Listing};

const CONTRIBUTION: i128 = 100;
const ROUND: u64 = 3600;
const WASM: [u8; 32] = [0xab; 32];

fn account(tag: u8) -> Addr {
    let mut bytes = vec![0u8, 0, 0, 18, 0, 0, 0, 0, 0, 0, 0, 0];
    let mut key = vec![3u8; 31];
    key.push(tag);
    bytes.extend(key);
    Addr::from_xdr(bytes)
}

struct Fx {
    factory: Factory,
    token: Addr,
    user: Addr,
    now: u64,
}

fn setup() -> Fx {
    Fx { factory: Factory::new(WASM), token: account(200), user: account(1), now: 1_000 }
}

/// The address a deployer that derives contract addresses from the salt
/// would give the circle.
fn deployed_address(salt: &[u8; 32]) -> Addr {
    let mut bytes = vec![0u8, 0, 0, 18, 0, 0, 0, 1];
    bytes.extend_from_slice(salt);
    Addr::from_xdr(bytes)
}

impl Fx {
    fn try_create(&mut self, contribution: i128, round_seconds: u64, capacity: u32) -> Result<Addr, Error> {
        let d = self.factory.create(
            self.user.duplicate(),
            self.token.duplicate(),
            contribution,
            round_seconds,
            capacity,
        )?;
        let address = deployed_address(&d.salt);
        Ok(self.factory.record_deployment(d, address, self.now))
    }

    fn create(&mut self, capacity: u32) -> Addr {
        self.try_create(CONTRIBUTION, ROUND, capacity).unwrap()
    }
}

fn addresses(page: &[Listing]) -> Vec<Vec<u8>> {
    page.iter().map(|l| l.address.to_xdr()).collect()
}

#[test]
fn starts_empty() {
    let f = setup();
    assert_eq!(f.factory.count(), 0);
    assert_eq!(f.factory.list(0, 10).unwrap().len(), 0);
    assert!(f.factory.get(0).is_none());
}

#[test]
fn indexes_what_it_creates() {
    let mut f = setup();
    let a = f.create(3);

    assert_eq!(f.factory.count(), 1);
    let l = f.factory.get(0).unwrap();
    assert!(l.address.same(&a));
    assert!(l.creator.same(&f.user));
    assert_eq!(l.capacity, 3);
    assert_eq!(l.contribution, CONTRIBUTION);
}

#[test]
fn every_circle_gets_its_own_address() {
    let mut f = setup();
    let a = f.create(3);
    let b = f.create(3);
    assert!(!a.same(&b));
    assert_eq!(f.factory.count(), 2);
}

#[test]
fn lists_newest_first_and_pages() {
    let mut f = setup();
    let a = f.create(3);
    let b = f.create(4);
    let c = f.create(5);

    let page = f.factory.list(0, 2).unwrap();
    assert_eq!(page.len(), 2);
    assert!(page[0].address.same(&c), "newest first");
    assert!(page[1].address.same(&b));

    let rest = f.factory.list(2, 2).unwrap();
    assert_eq!(rest.len(), 1);
    assert!(rest[0].address.same(&a));

    assert_eq!(f.factory.list(99, 2).unwrap().len(), 0, "past the end is empty");
}

#[test]
fn rejects_terms_the_circle_would_reject() {
    let mut f = setup();
    assert_eq!(f.try_create(0i128, ROUND, 3).unwrap_err(), Error::InvalidTerms);
    assert_eq!(f.try_create(CONTRIBUTION, 0u64, 3).unwrap_err(), Error::InvalidTerms);
    assert_eq!(f.try_create(CONTRIBUTION, ROUND, 2).unwrap_err(), Error::InvalidCapacity);
    assert_eq!(f.try_create(CONTRIBUTION, ROUND, 25).unwrap_err(), Error::InvalidCapacity);
    assert_eq!(f.factory.count(), 0, "nothing was indexed");
}

#[test]
fn refuses_an_unbounded_page() {
    let f = setup();
    assert_eq!(f.factory.list(0, 51).unwrap_err(), Error::PageTooLarge);
    assert_eq!(f.factory.list(0, 50).unwrap().len(), 0);
}

#[test]
fn salts_carry_the_index_big_endian() {
    let mut f = setup();
    for _ in 0..3 {
        f.create(3);
    }
    let d = f
        .factory
        .create(f.user.duplicate(), f.token.duplicate(), CONTRIBUTION, ROUND, 24)
        .unwrap();
    assert_eq!(d.index, 3);
    let mut expected = [0u8; 32];
    expected[3] = 3;
    assert_eq!(d.salt, expected);
    assert_eq!(d.wasm, WASM);
    assert!(d.creator.same(&f.user));
    assert!(d.token.same(&f.token));
    assert_eq!(d.contribution, CONTRIBUTION);
    assert_eq!(d.round_seconds, ROUND);
    assert_eq!(d.capacity, 24);
    assert_eq!(f.factory.count(), 3, "asking how to deploy records nothing");

    let big = circlefi::factory::contract::salt_for(0x0102_0304);
    assert_eq!(&big[..5], &[1, 2, 3, 4, 0]);
}

#[test]
fn listings_keep_their_terms_and_time() {
    let mut f = setup();
    f.now = 77;
    f.try_create(5, 60, 10).unwrap();
    let l = f.factory.get(0).unwrap();
    assert_eq!(l.created_at, 77);
    assert_eq!(l.round_seconds, 60);
    assert_eq!(l.contribution, 5);
    assert!(l.token.same(&f.token));
    assert!(f.factory.get(1).is_none());
    assert_eq!(f.factory.circle_wasm(), WASM);
}

#[test]
fn expired_listings_are_skipped_but_keep_their_place() {
    let mut f = setup();
    let addrs: Vec<Addr> = (0..5).map(|_| f.create(3)).collect();
    // Rebuild the index with the listings at positions 3 and 1 expired.
    let mut slots: Vec<Option<Listing>> = Vec::new();
    for i in 0..5u32 {
        let l = f.factory.get(i).unwrap();
        slots.push(if i == 3 || i == 1 { None } else { Some(l) });
    }
    let g = Factory::restore(WASM, slots);
    assert_eq!(g.count(), 5);
    assert!(g.get(3).is_none());
    let page = g.list(0, 2).unwrap();
    assert_eq!(addresses(&page), vec![addrs[4].to_xdr(), addrs[2].to_xdr()]);
    let page = g.list(1, 50).unwrap();
    assert_eq!(addresses(&page), vec![addrs[2].to_xdr(), addrs[0].to_xdr()]);
    let page = g.list(2, 1).unwrap();
    assert_eq!(addresses(&page), vec![addrs[2].to_xdr()]);
    assert_eq!(g.list(4, 0).unwrap().len(), 0);
}

#[test]
fn errors_publish_their_numbers() {
    assert_eq!(Error::InvalidTerms.code(), 1);
    assert_eq!(Error::InvalidCapacity.code(), 2);
    assert_eq!(Error::PageTooLarge.code(), 3);
}

#[test]
fn count_and_slots_follow_the_successful_creates() {
    let mut f = setup();
    let terms: [(i128, u64, u32); 6] = [(5, 60, 3), (0, 60, 3), (5, 60, 24), (5, 0, 5), (7, 1, 25), (9, 9, 9)];
    let mut made: Vec<(i128, u32, Vec<u8>)> = Vec::new();
    for (contribution, round_seconds, capacity) in terms {
        if let Ok(a) = f.try_create(contribution, round_seconds, capacity) {
            made.push((contribution, capacity, a.to_xdr()));
        }
    }
    assert_eq!(made.len(), 3);
    assert_eq!(f.factory.count(), 3);
    for (i, (contribution, capacity, address)) in made.iter().enumerate() {
        let l = f.factory.get(i as u32).unwrap();
        assert_eq!(l.contribution, *contribution);
        assert_eq!(l.capacity, *capacity);
        assert_eq!(&l.address.to_xdr(), address);
        assert!(l.creator.same(&f.user));
    }
    assert!(f.factory.get(3).is_none());
    assert_eq!(f.factory.circle_wasm(), WASM);
}

#[test]
fn a_read_window_settles_a_page_once_it_holds_enough() {
    let mut f = setup();
    let addrs: Vec<Addr> = (0..6).map(|_| f.create(3)).collect();
    // Slot 4 has expired.
    let slot = |i: u32| if i == 4 { None } else { f.factory.get(i) };
    // list(0, 2) starting at slot 5: slots 5..6 hold one listing, not enough.
    let w = Factory::restore_window(WASM, 6, 5, vec![slot(5)]);
    assert_eq!(w.count(), 6);
    assert!(w.get(2).is_none(), "unread slots count as empty");
    assert!(!w.list_window_suffices(0, 2, 5));
    // Slots 3..6 hold two listings: enough.
    let w = Factory::restore_window(WASM, 6, 3, vec![slot(3), slot(4), slot(5)]);
    assert!(w.list_window_suffices(0, 2, 3));
    let page = w.list(0, 2).unwrap();
    assert_eq!(addresses(&page), vec![addrs[5].to_xdr(), addrs[3].to_xdr()]);
    // A window reaching the bottom always suffices; refused pages need none.
    let w = Factory::restore_window(WASM, 6, 0, vec![]);
    assert!(w.list_window_suffices(0, 2, 0));
    assert!(w.list_window_suffices(0, 51, 6));
    assert!(w.list_window_suffices(6, 2, 6));
    assert!(w.list_window_suffices(0, 0, 6));
}
