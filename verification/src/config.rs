//! Application configuration.
//!
//! Loading and parsing the configuration file belongs to the startup code
//! around the library; the library receives the loaded values.

use vstd::prelude::*;

verus! {

/// Application configuration.
pub struct Config {
    /// The list of canteens.
    pub canteens: Vec<Canteen>,
    /// Path to the backing file of the meow counter.
    pub meow_counter_file: String,
    /// Path to the backing file of the twd2 counter.
    pub twd2_counter_file: String,
}

/// Information about a canteen, as configured.
pub struct Canteen {
    /// The name of the canteen.
    pub name: String,
    /// The weight of the canteen.
    pub weight: u64,
}

/// The configured weights, in configuration order.
pub open spec fn config_weights(cs: Seq<Canteen>) -> Seq<u64> {
    cs.map_values(|c: Canteen| c.weight)
}

} // verus!
