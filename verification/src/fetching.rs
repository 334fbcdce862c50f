//! Where the records of the data source are found.

use crate::records::{Player, Team};
use vstd::prelude::*;

verus! {

/// A record that the data source serves under an address of its own.
pub trait Fetchable {
    const URL: &'static str;
}

impl Fetchable for Player {
    const URL: &'static str = "https://mmolb.com/api/player";
}

impl Fetchable for Team {
    const URL: &'static str = "https://mmolb.com/api/team";
}

/// The address of the record with identifier `id`.
pub fn record_url<T: Fetchable>(id: &str) -> (url: String)
    ensures
        url@ == T::URL@ + "/"@ + id@,
{
    let mut url = String::from_str(T::URL);
    url.append("/");
    url.append(id);
    url
}

} // verus!
