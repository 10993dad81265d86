use vstd::prelude::*;
use crate::supply::Load;
use crate::supply::Storage;
use crate::supply::Supply;

verus! {

/// What a run evaluates: how many days it covers, and the supplies, loads and
/// stores of the site.
#[derive(Debug, PartialEq, Eq)]
pub struct Configuration {
    pub run_length_days: u64,
    pub supplies: Vec<Supply>,
    pub loads: Vec<Load>,
    pub stores: Vec<Storage>,
}

impl Configuration {
    /// The configuration of a run of `run_length_days` days. A run of no day
    /// is refused when it is evaluated, not here.
    pub fn new(
        run_length_days: u64,
        supplies: Vec<Supply>,
        loads: Vec<Load>,
        stores: Vec<Storage>,
    ) -> (cfg: Configuration)
        ensures
            cfg == (Configuration { run_length_days, supplies, loads, stores }),
    {
        Configuration { run_length_days, supplies, loads, stores }
    }
}

} // verus!
