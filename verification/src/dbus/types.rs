//! What the service tells of a profile.

#![allow(non_snake_case)]

use crate::types;
use vstd::prelude::*;
use vstd::string::StringExecFns;

verus! {

/// A profile as the service lists it.
#[derive(Debug, PartialEq, Eq)]
pub struct PowerProfile {
    pub Profile: String,
    pub CpuDriver: String,
    pub Driver: String,
    pub PlatformDriver: String,
}

/// What a `PowerProfile` holds.
pub struct PowerProfileView {
    pub Profile: Seq<char>,
    pub CpuDriver: Seq<char>,
    pub Driver: Seq<char>,
    pub PlatformDriver: Seq<char>,
}

impl View for PowerProfile {
    type V = PowerProfileView;

    open spec fn view(&self) -> PowerProfileView {
        PowerProfileView {
            Profile: self.Profile@,
            CpuDriver: self.CpuDriver@,
            Driver: self.Driver@,
            PlatformDriver: self.PlatformDriver@,
        }
    }
}

/// The entry for a profile of the name `name` under the CPU backend
/// `driver`.
pub open spec fn listed(name: Seq<char>, driver: Seq<char>) -> PowerProfileView {
    PowerProfileView {
        Profile: name,
        CpuDriver: driver,
        PlatformDriver: "placeholder"@,
        Driver: "multiple"@,
    }
}

impl PowerProfile {
    /// The entry for `power_profile` under the CPU backend `driver`.
    pub fn new(power_profile: &types::PowerProfile, driver: String) -> (entry: Self)
        ensures
            entry@ == listed(power_profile@.name, driver@),
    {
        Self {
            Profile: power_profile.name.clone(),
            CpuDriver: driver,
            PlatformDriver: String::from_str("placeholder"),
            Driver: String::from_str("multiple"),
        }
    }
}

} // verus!
