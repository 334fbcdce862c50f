//! Valuation of equipment items against roster slots, and the search for
//! item exchanges that raise a team's total rating.
//!
//! Every quantity is a whole number. A magnitude counts thousandths and a
//! weight counts tenths, so a rating counts ten-thousandths: the resolution
//! at which a gain is printed.
//!
//! - [`enums`], [`records`]: what the data source reports.
//! - [`attributes`]: the category of each attribute.
//! - [`analysis`]: the weight of an attribute at a slot, the rating of an
//!   item.
//! - [`item`]: equipment in the normalized form that is rated.
//! - [`roster`]: who wears what where.
//! - [`trade`]: the exchanges that gain.
//! - [`report`]: their order and the lines printed for them.
//! - [`recommend`]: all of it, from inventory and roster to lines.
//! - [`fetching`]: the addresses of the records.

pub mod analysis;
pub mod attributes;
pub mod enums;
pub mod fetching;
pub mod item;
pub mod recommend;
pub mod records;
pub mod report;
pub mod roster;
pub mod trade;
