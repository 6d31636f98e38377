//! Back-office library for a theme-park venue: the income report over a
//! reporting period, and the rules that guard the venue's records.

pub mod calendar;
pub mod grouping;
pub mod handlers;
pub mod income;
pub mod money;
pub mod period;
pub mod records;
pub mod response;
pub mod text;
pub mod ui;

pub use ui::map_ui_id_to_name;

use vstd::prelude::*;

verus! {

/// The sum of two counts.
pub fn add(left: u64, right: u64) -> (r: u64)
    requires
        left + right <= u64::MAX,
    ensures
        r == left + right,
{
    left + right
}

} // verus!
