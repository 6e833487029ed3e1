//! Profiles of the catalog, observed states and holds.

use crate::drivers::cpu;
use vstd::prelude::*;

verus! {

/// A profile of the catalog.
#[derive(Debug, PartialEq, Eq)]
pub struct PowerProfile {
    pub cpu: cpu::types::PowerProfile,
    pub name: String,
}

/// What a `PowerProfile` holds.
pub struct PowerProfileView {
    pub cpu: cpu::types::PowerProfileView,
    pub name: Seq<char>,
}

impl View for PowerProfile {
    type V = PowerProfileView;

    open spec fn view(&self) -> PowerProfileView {
        PowerProfileView { cpu: self.cpu@, name: self.name@ }
    }
}

impl Clone for PowerProfile {
    fn clone(&self) -> (copy: Self)
        ensures
            copy@ == self@,
    {
        PowerProfile { cpu: self.cpu.clone(), name: self.name.clone() }
    }
}

/// The state that the hardware was seen to have.
#[derive(Debug, PartialEq, Eq)]
pub struct InferredPowerProfile {
    /// The state of the CPUs, where one was read.
    pub cpu: Option<cpu::types::InferredPowerProfile>,
}

/// Whether a state is the one that `profile` asks for. A state without a CPU
/// part is none that a profile asks for.
pub open spec fn state_matches(
    state: Option<cpu::types::InferredPowerProfileView>,
    profile: PowerProfileView,
) -> bool {
    match state {
        Some(cpu) => cpu.matches(profile.cpu),
        None => false,
    }
}

impl View for InferredPowerProfile {
    type V = Option<cpu::types::InferredPowerProfileView>;

    open spec fn view(&self) -> Option<cpu::types::InferredPowerProfileView> {
        match self.cpu {
            Some(cpu) => Some(cpu@),
            None => None,
        }
    }
}

impl Clone for InferredPowerProfile {
    fn clone(&self) -> (copy: Self)
        ensures
            copy@ == self@,
    {
        InferredPowerProfile {
            cpu: match &self.cpu {
                Some(cpu) => Some(cpu.clone()),
                None => None,
            },
        }
    }
}

impl InferredPowerProfile {
    /// Whether the state is the one that `other` asks for.
    pub fn eq(&self, other: &PowerProfile) -> (same: bool)
        ensures
            same == state_matches(self@, other@),
    {
        match &self.cpu {
            Some(cpu) => cpu.eq(&other.cpu),
            None => false,
        }
    }
}

/// A hold that an application has on a profile.
#[derive(Debug, PartialEq, Eq)]
pub struct PowerProfileHold {
    pub application_id: String,
    pub profile: String,
    pub reason: String,
}

/// What a `PowerProfileHold` holds.
pub struct PowerProfileHoldView {
    pub application_id: Seq<char>,
    pub profile: Seq<char>,
    pub reason: Seq<char>,
}

impl View for PowerProfileHold {
    type V = PowerProfileHoldView;

    open spec fn view(&self) -> PowerProfileHoldView {
        PowerProfileHoldView {
            application_id: self.application_id@,
            profile: self.profile@,
            reason: self.reason@,
        }
    }
}

impl Clone for PowerProfileHold {
    fn clone(&self) -> (copy: Self)
        ensures
            copy@ == self@,
    {
        PowerProfileHold {
            application_id: self.application_id.clone(),
            profile: self.profile.clone(),
            reason: self.reason.clone(),
        }
    }
}

impl PowerProfileHold {
    /// The hold of `application_id` on `profile`, for `reason`.
    pub fn new(application_id: String, profile: String, reason: String) -> (hold: Self)
        ensures
            hold@ == (PowerProfileHoldView {
                application_id: application_id@,
                profile: profile@,
                reason: reason@,
            }),
    {
        PowerProfileHold { application_id: application_id, profile: profile, reason: reason }
    }
}

} // verus!
