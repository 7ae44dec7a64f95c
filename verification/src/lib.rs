//! A ledger of tips.
//!
//! Fans send tips to creators. The ledger numbers the tips as they come,
//! keeps every record for good, adds up what each creator has received, and
//! offers two views of the past: the tips of one creator page by page, and
//! the latest tips of all.
//!
//! [`TipStar`] is the whole ledger held in memory. The steps it is made of
//! ([`submit`], [`push_recent`], [`paginate`], [`latest_ids`],
//! [`collect_present`]) are public too, for a host that keeps the parts of
//! the ledger in a store of its own and loads only what one operation
//! touches.

pub mod address;
pub mod error;
pub mod history;
pub mod laws;
pub mod ledger;
pub mod page;
pub mod stats;
pub mod submit;
pub mod tip;
pub mod window;

pub use address::Address;
pub use error::TipError;
pub use ledger::TipStar;
pub use page::{
    collect_present, latest_ids, paginate, DEFAULT_CREATOR_PAGE, DEFAULT_RECENT_PAGE,
    MAX_PAGE_SIZE,
};
pub use stats::CreatorStats;
pub use submit::{check_submission, next_id, submit};
pub use tip::Tip;
pub use window::{push_recent, MAX_RECENT_TIPS};
