//! The savings-circle registry: circles, their members and their rounds.

pub mod contract;
pub mod laws;
pub mod spec;
pub mod store;
pub mod types;

pub use contract::{CirclefiContract, Ledger};
pub use types::{Circle, DataKey, ErrorCode, Member, MemberStatus, PayoutOrder, Round};
pub mod history;
pub mod effects;
