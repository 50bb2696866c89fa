//! Accessors of the configuration.
use vstd::prelude::*;

use crate::config::data::{Blan, Config, Fast, Mode, Name, Perf, Policy, Power, copy_policies};

verus! {

impl Config {
    pub fn get_name(&self) -> (r: Name)
        ensures
            r@ == self.name@,
    {
        self.name.clone()
    }

    pub fn get_policy(&self) -> (r: Vec<Policy>)
        ensures
            r@ == self.policy@,
    {
        copy_policies(&self.policy)
    }

    pub fn get_power(&self) -> (r: Power)
        ensures
            r@ == self.mode.power@,
    {
        self.mode.power.clone()
    }

    pub fn get_blan(&self) -> (r: Blan)
        ensures
            r@ == self.mode.blan@,
    {
        self.mode.blan.clone()
    }

    pub fn get_perf(&self) -> (r: Perf)
        ensures
            r@ == self.mode.perf@,
    {
        self.mode.perf.clone()
    }

    pub fn get_fast(&self) -> (r: Fast)
        ensures
            r@ == self.mode.fast@,
    {
        self.mode.fast.clone()
    }

    pub fn get_mode(&self) -> (r: Mode)
        ensures
            r@ == self.mode@,
    {
        self.mode.clone()
    }
}

} // verus!
