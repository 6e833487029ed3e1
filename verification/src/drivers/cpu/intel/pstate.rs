//! The backend for Intel's P-State driver.

use crate::drivers::cpu::{
    governor_at, lemma_zipped_online, online_groups, policy_node, preference_at, read_governor,
    read_preference, zip_groups,
};
use crate::drivers::cpu::types::{
    InferredPowerProfile, InferredPowerProfileView, PowerProfile, PowerProfileView, UnknownToken,
};
use crate::drivers::cpu::utils::{
    activate_energy_preference, activate_maximum_frequency, activate_scaling_governor,
    maximum_frequency, maximum_frequency_node, online_ids,
};
use crate::error::{agrees, Error};
use crate::plan::Plan;
use crate::sysfs::{
    Node, PolicyProperty, read, read_flag, read_number, Setting, Snapshot, Store, Write,
};
use crate::text::same_text;
use vstd::prelude::*;
use vstd::string::StringExecFns;

verus! {

/// The operating mode of Intel's P-State driver. It is read and kept, and
/// decides nothing.
#[derive(Clone, Copy, Debug, PartialEq, Eq, Structural)]
pub enum Status {
    Active,
    Off,
    Passive,
}

impl Status {
    /// The mode that a text of the driver's status file names.
    pub open spec fn parse(text: Seq<char>) -> Option<Status> {
        if text == "active"@ {
            Some(Status::Active)
        } else if text == "off"@ {
            Some(Status::Off)
        } else if text == "passive"@ {
            Some(Status::Passive)
        } else {
            None
        }
    }

    /// The mode that a store's status file names.
    pub open spec fn read(store: Store) -> Result<Status, Error> {
        match read(store, Node::IntelStatus) {
            Err(error) => Err(error),
            Ok(text) => match Status::parse(text) {
                Some(status) => Ok(status),
                None => Err(Error::Parse(Node::IntelStatus)),
            },
        }
    }

    /// The driver's mode, from its status file.
    pub fn current(snapshot: &Snapshot) -> (status: Result<Status, Error>)
        ensures
            status == Status::read(snapshot@),
    {
        match Status::from_str(snapshot.read(Node::IntelStatus)?) {
            Ok(status) => Ok(status),
            Err(_) => Err(Error::Parse(Node::IntelStatus)),
        }
    }

    /// Reads the name of a mode.
    pub fn from_str(s: &str) -> (parsed: Result<Status, UnknownToken>)
        ensures
            parsed == match Status::parse(s@) {
                Some(status) => Ok::<Status, UnknownToken>(status),
                None => Err(UnknownToken {  }),
            },
    {
        if same_text(s, "active") {
            Ok(Status::Active)
        } else if same_text(s, "off") {
            Ok(Status::Off)
        } else if same_text(s, "passive") {
            Ok(Status::Passive)
        } else {
            Err(UnknownToken {  })
        }
    }
}

/// The backend for Intel's P-State driver.
#[derive(Clone, Copy, Debug, PartialEq, Eq, Structural)]
pub struct Driver {
    pub dry_run: bool,
    pub _status: Status,
}

/// The backend that a store gives: in the mode that the driver reports.
pub open spec fn driver_of(dry_run: bool, store: Store) -> Result<Driver, Error> {
    match Status::read(store) {
        Ok(status) => Ok(Driver { dry_run: dry_run, _status: status }),
        Err(error) => Err(error),
    }
}

/// Whether a store allows frequencies above the base clock: where its
/// `no_turbo` switch is off, or could not be read.
pub open spec fn read_turbo(store: Store) -> Result<bool, Error> {
    if store.contains_key(Node::NoTurbo) {
        match read_flag(store, Node::NoTurbo) {
            Ok(no_turbo) => Ok(!no_turbo),
            Err(error) => Err(error),
        }
    } else {
        Ok(true)
    }
}

/// The state that a store's files describe: the boost flag is the inverse
/// of `no_turbo`; governor, energy preference and frequency limit are those
/// of the first policy. Where a file fails, the failure of the first such
/// file, in this order.
pub open spec fn state_of(store: Store) -> Result<InferredPowerProfileView, Error> {
    let boost = read_turbo(store);
    let scaling_governor = read_governor(store, policy_node(0, PolicyProperty::ScalingGovernor));
    let energy_preference = read_preference(
        store,
        policy_node(0, PolicyProperty::EnergyPerformancePreference),
    );
    let maximum_frequency = read_number(store, maximum_frequency_node());
    if boost is Err {
        Err(boost->Err_0)
    } else if scaling_governor is Err {
        Err(scaling_governor->Err_0)
    } else if energy_preference is Err {
        Err(energy_preference->Err_0)
    } else if maximum_frequency is Err {
        Err(maximum_frequency->Err_0)
    } else {
        Ok(
            InferredPowerProfileView {
                boost: boost->Ok_0,
                energy_preference: energy_preference->Ok_0,
                scaling_governor: scaling_governor->Ok_0,
                maximum_frequency: maximum_frequency->Ok_0,
                cpus: Seq::empty(),
            },
        )
    }
}

/// The write that sets the `no_turbo` switch to the inverse of `boost`.
pub open spec fn turbo_write(boost: bool) -> Write {
    Write { node: Node::NoTurbo, value: Setting::Flag(!boost) }
}

impl Driver {
    /// The writes that activate `profile` on the CPUs that a store lists as
    /// online: the `no_turbo` switch in a group of its own, then one group
    /// for each CPU. A dry run writes nothing.
    pub open spec fn plan_of(self, profile: PowerProfileView, store: Store) -> Result<
        Seq<Seq<Write>>,
        Error,
    > {
        if self.dry_run {
            Ok(Seq::empty())
        } else {
            match online_ids(store) {
                Err(error) => Err(error),
                Ok(ids) => Ok(
                    seq![seq![turbo_write(profile.boost)]] + online_groups(ids, profile.defaults()),
                ),
            }
        }
    }

    /// The backend, in the mode that the driver's status file reports.
    pub fn new(dry_run: bool, snapshot: &Snapshot) -> (driver: Result<Self, Error>)
        ensures
            driver == driver_of(dry_run, snapshot@),
    {
        Ok(Self { dry_run: dry_run, _status: Status::current(snapshot)? })
    }

    /// Whether frequencies above the base clock are allowed.
    pub fn turbo_enabled(&self, snapshot: &Snapshot) -> (turbo: Result<bool, Error>)
        ensures
            turbo == read_turbo(snapshot@),
    {
        match snapshot.content(Node::NoTurbo) {
            Some(_) => Ok(!snapshot.read_flag(Node::NoTurbo)?),
            None => Ok(true),
        }
    }

    /// The writes that activate `power_profile`. Fails where the list of
    /// online CPUs could not be read.
    pub fn activate(&self, power_profile: &PowerProfile, snapshot: &Snapshot) -> (plan: Result<
        Plan,
        Error,
    >)
        ensures
            agrees(plan, self.plan_of(power_profile@, snapshot@)),
    {
        if self.dry_run {
            return Ok(Plan::empty());
        }
        let governors = activate_scaling_governor(power_profile.scaling_governor, snapshot)?;
        let preferences = activate_energy_preference(power_profile.energy_preference, snapshot)?;
        let frequencies = activate_maximum_frequency(power_profile.maximum_frequency, snapshot)?;
        let first = Write { node: Node::NoTurbo, value: Setting::Flag(!power_profile.boost) };
        proof {
            lemma_zipped_online(online_ids(snapshot@)->Ok_0, power_profile@.defaults());
        }
        Ok(zip_groups(Some(first), governors, preferences, frequencies))
    }

    /// The state that the hardware reflects.
    pub fn current(&self, snapshot: &Snapshot) -> (state: Result<InferredPowerProfile, Error>)
        ensures
            agrees(state, state_of(snapshot@)),
    {
        Ok(
            InferredPowerProfile {
                boost: self.turbo_enabled(snapshot)?,
                scaling_governor: governor_at(
                    snapshot,
                    Node::policy(0, PolicyProperty::ScalingGovernor),
                )?,
                energy_preference: preference_at(
                    snapshot,
                    Node::policy(0, PolicyProperty::EnergyPerformancePreference),
                )?,
                maximum_frequency: maximum_frequency(snapshot)?,
                cpus: Vec::new(),
            },
        )
    }

    /// The backend's name.
    pub fn name(&self) -> (name: String)
        ensures
            name@ == "intel_pstate"@,
    {
        String::from_str("intel_pstate")
    }
}

} // verus!
