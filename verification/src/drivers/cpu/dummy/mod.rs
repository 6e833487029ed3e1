//! The backend that drives nothing: it keeps the service reachable on a
//! machine that no other backend drives.

use crate::plan::Plan;
use crate::sysfs::Write;
use super::types::{
    EnergyPreference, InferredPowerProfile, InferredPowerProfileView, PowerProfile, ScalingGovernor,
};
use vstd::prelude::*;
use vstd::string::StringExecFns;

verus! {

/// The state that the backend reports, whatever was activated.
pub open spec fn fixed_state() -> InferredPowerProfileView {
    InferredPowerProfileView {
        boost: true,
        energy_preference: EnergyPreference::Performance,
        scaling_governor: ScalingGovernor::Performance,
        maximum_frequency: 4000000,
        cpus: Seq::empty(),
    }
}

/// The backend that drives nothing.
#[derive(Clone, Copy, Debug, PartialEq, Eq, Structural)]
pub struct Driver {}

impl Driver {
    /// Activates `_power_profile`: nothing is written.
    pub fn activate(&self, _power_profile: &PowerProfile) -> (plan: Plan)
        ensures
            plan@ == Seq::<Seq<Write>>::empty(),
    {
        Plan::empty()
    }

    /// The state of the hardware: always the same.
    pub fn current(&self) -> (state: InferredPowerProfile)
        ensures
            state@ == fixed_state(),
    {
        InferredPowerProfile {
            boost: true,
            energy_preference: EnergyPreference::Performance,
            maximum_frequency: 4000000,
            scaling_governor: ScalingGovernor::Performance,
            cpus: Vec::new(),
        }
    }

    /// The backend's name.
    pub fn name(&self) -> (name: String)
        ensures
            name@ == "dummy"@,
    {
        String::from_str("dummy")
    }
}

/// Probes the backend: it drives every machine.
pub fn probe(_profiles: &Vec<PowerProfile>) -> (driver: Driver)
    ensures
        driver == (Driver {  }),
{
    Driver {  }
}

} // verus!
