//! Verified core of the CircleFi savings-circle contracts.
//!
//! `circlefi` holds the rotating savings circle registry (circles, members,
//! rounds, bids, defaults and disputes) as a state machine over the
//! contract's instance storage. `factory` holds the circle index that the
//! factory contract keeps: its terms check, the salts it deploys with, and
//! the newest-first paging of its listings.
//!
//! Addresses enter the library as their XDR encoding, so two addresses are
//! the same exactly when their encodings are.

pub mod address;
pub mod circlefi;
pub mod factory;

pub use address::Addr;
