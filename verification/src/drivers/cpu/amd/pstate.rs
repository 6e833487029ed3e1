//! The backend for AMD's P-State driver.

use crate::drivers::cpu::{
    boost_at, boost_write, governor_at, leading_group, lemma_zipped_online, online_groups,
    policy_node, preference_at, read_boost, read_governor, read_preference, zip_groups,
};
use crate::drivers::cpu::types::{
    DriverSettings, EnergyPreference, InferredPowerProfile, InferredPowerProfileView, PowerProfile,
    PowerProfileView, ScalingGovernor, UnknownToken,
};
use crate::drivers::cpu::utils::{
    activate_energy_preference, activate_maximum_frequency, activate_scaling_governor,
    maximum_frequency, maximum_frequency_node, online_ids,
};
use crate::error::{agrees, Error};
use crate::plan::Plan;
use crate::sysfs::{Node, PolicyProperty, read, read_number, Setting, Snapshot, Store, Write};
use crate::text::same_text;
use vstd::prelude::*;

verus! {

/// The operating mode of AMD's P-State driver.
#[derive(Clone, Copy, Debug, PartialEq, Eq, Structural)]
pub enum Status {
    Active,
    Guided,
    Passive,
}

impl Status {
    /// The mode that a text of the driver's status file names.
    pub open spec fn parse(text: Seq<char>) -> Option<Status> {
        if text == "active"@ {
            Some(Status::Active)
        } else if text == "guided"@ {
            Some(Status::Guided)
        } else if text == "passive"@ {
            Some(Status::Passive)
        } else {
            None
        }
    }

    /// The mode that a store's status file names.
    pub open spec fn read(store: Store) -> Result<Status, Error> {
        match read(store, Node::AmdStatus) {
            Err(error) => Err(error),
            Ok(text) => match Status::parse(text) {
                Some(status) => Ok(status),
                None => Err(Error::Parse(Node::AmdStatus)),
            },
        }
    }

    /// Whether the boost switch can be set in this mode.
    pub open spec fn spec_boost_supported(&self) -> bool {
        *self != Status::Active
    }

    /// The driver's mode, from its status file.
    pub fn current(snapshot: &Snapshot) -> (status: Result<Status, Error>)
        ensures
            status == Status::read(snapshot@),
    {
        match Status::from_str(snapshot.read(Node::AmdStatus)?) {
            Ok(status) => Ok(status),
            Err(_) => Err(Error::Parse(Node::AmdStatus)),
        }
    }

    /// Whether the boost switch can be set in this mode: in every mode but
    /// the active one.
    #[verifier::when_used_as_spec(spec_boost_supported)]
    pub fn boost_supported(&self) -> (supported: bool)
        ensures
            supported == self.spec_boost_supported(),
    {
        match self {
            Self::Active => false,
            Self::Guided => true,
            Self::Passive => true,
        }
    }

    /// Reads the name of a mode.
    pub fn from_str(s: &str) -> (parsed: Result<Status, UnknownToken>)
        ensures
            parsed == match Status::parse(s@) {
                Some(status) => Ok::<Status, UnknownToken>(status),
                None => Err(UnknownToken {  }),
            },
    {
        if same_text(s, "active") {
            Ok(Status::Active)
        } else if same_text(s, "guided") {
            Ok(Status::Guided)
        } else if same_text(s, "passive") {
            Ok(Status::Passive)
        } else {
            Err(UnknownToken {  })
        }
    }
}

/// The backend for AMD's P-State driver.
#[derive(Debug, PartialEq, Eq)]
pub struct Driver {
    pub dry_run: bool,
    pub name: String,
    pub status: Status,
    pub _profile_driver_settings: Vec<(String, DriverSettings)>,
}

/// What a `Driver` holds.
pub struct DriverView {
    pub dry_run: bool,
    pub name: Seq<char>,
    pub status: Status,
    pub profile_driver_settings: Seq<(Seq<char>, DriverSettings)>,
}

/// What a list of options holds, entry by entry.
pub open spec fn settings_view(settings: Seq<(String, DriverSettings)>) -> Seq<
    (Seq<char>, DriverSettings),
> {
    settings.map_values(|entry: (String, DriverSettings)| (entry.0@, entry.1))
}

impl View for Driver {
    type V = DriverView;

    open spec fn view(&self) -> DriverView {
        DriverView {
            dry_run: self.dry_run,
            name: self.name@,
            status: self.status,
            profile_driver_settings: settings_view(self._profile_driver_settings@),
        }
    }
}

/// The backend that a store gives: in the mode that the driver reports.
pub open spec fn driver_of(
    dry_run: bool,
    name: Seq<char>,
    profile_driver_settings: Seq<(Seq<char>, DriverSettings)>,
    store: Store,
) -> Result<DriverView, Error> {
    match Status::read(store) {
        Ok(status) => Ok(
            DriverView {
                dry_run: dry_run,
                name: name,
                status: status,
                profile_driver_settings: profile_driver_settings,
            },
        ),
        Err(error) => Err(error),
    }
}

/// The state that a store's files describe: the boost switch, then
/// governor, energy preference and frequency limit of the first policy.
/// Where a file fails, the failure of the first such file, in this order.
pub open spec fn state_of(store: Store) -> Result<InferredPowerProfileView, Error> {
    let boost = read_boost(store);
    let scaling_governor = read_governor(store, policy_node(0, PolicyProperty::ScalingGovernor));
    let energy_preference = read_preference(
        store,
        policy_node(0, PolicyProperty::EnergyPerformancePreference),
    );
    let maximum_frequency = read_number(store, maximum_frequency_node());
    if boost is Err {
        Err(boost->Err_0)
    } else if scaling_governor is Err {
        Err(scaling_governor->Err_0)
    } else if energy_preference is Err {
        Err(energy_preference->Err_0)
    } else if maximum_frequency is Err {
        Err(maximum_frequency->Err_0)
    } else {
        Ok(
            InferredPowerProfileView {
                boost: boost->Ok_0,
                energy_preference: energy_preference->Ok_0,
                scaling_governor: scaling_governor->Ok_0,
                maximum_frequency: maximum_frequency->Ok_0,
                cpus: Seq::empty(),
            },
        )
    }
}

impl DriverView {
    /// Whether an activation leaves the boost switch alone although the
    /// profile sets it: the driver is in a mode that cannot set the switch.
    /// A dry run writes nothing and so skips nothing.
    pub open spec fn skips_boost(self) -> bool {
        !self.dry_run && !self.status.spec_boost_supported()
    }

    /// The write of the boost switch, in a mode that can set it.
    pub open spec fn boost_group(self, boost: bool) -> Option<Write> {
        if self.status.spec_boost_supported() {
            Some(boost_write(boost))
        } else {
            None
        }
    }

    /// The writes that activate `profile` on the CPUs that a store lists as
    /// online: the boost switch in a group of its own, in a mode that can
    /// set it, then one group for each CPU. A dry run writes nothing.
    pub open spec fn plan_of(self, profile: PowerProfileView, store: Store) -> Result<
        Seq<Seq<Write>>,
        Error,
    > {
        if self.dry_run {
            Ok(Seq::empty())
        } else {
            match online_ids(store) {
                Err(error) => Err(error),
                Ok(ids) => Ok(
                    leading_group(self.boost_group(profile.boost)) + online_groups(
                        ids,
                        profile.defaults(),
                    ),
                ),
            }
        }
    }
}

impl Driver {
    /// The backend under the name `name`, in the mode that the driver's
    /// status file reports.
    pub fn new(
        dry_run: bool,
        name: String,
        profile_driver_settings: Vec<(String, DriverSettings)>,
        snapshot: &Snapshot,
    ) -> (driver: Result<Self, Error>)
        ensures
            agrees(
                driver,
                driver_of(dry_run, name@, settings_view(profile_driver_settings@), snapshot@),
            ),
    {
        Ok(
            Self {
                dry_run: dry_run,
                name: name,
                status: Status::current(snapshot)?,
                _profile_driver_settings: profile_driver_settings,
            },
        )
    }

    /// Whether the boost switch is on: it counts as on where its file could
    /// not be read.
    pub fn boost_enabled(&self, snapshot: &Snapshot) -> (boost: Result<bool, Error>)
        ensures
            boost == read_boost(snapshot@),
    {
        boost_at(snapshot)
    }

    /// The energy preference of the first policy.
    pub fn energy_preference(&self, snapshot: &Snapshot) -> (preference: Result<
        EnergyPreference,
        Error,
    >)
        ensures
            preference == read_preference(
                snapshot@,
                policy_node(0, PolicyProperty::EnergyPerformancePreference),
            ),
    {
        preference_at(snapshot, Node::policy(0, PolicyProperty::EnergyPerformancePreference))
    }

    /// The scaling governor of the first policy.
    pub fn scaling_governor(&self, snapshot: &Snapshot) -> (governor: Result<
        ScalingGovernor,
        Error,
    >)
        ensures
            governor == read_governor(snapshot@, policy_node(0, PolicyProperty::ScalingGovernor)),
    {
        governor_at(snapshot, Node::policy(0, PolicyProperty::ScalingGovernor))
    }

    /// The writes that activate `power_profile`. The boost switch is left
    /// alone in a mode that cannot set it. Fails where the list of online
    /// CPUs could not be read.
    pub fn activate(&self, power_profile: &PowerProfile, snapshot: &Snapshot) -> (plan: Result<
        Plan,
        Error,
    >)
        ensures
            agrees(plan, self@.plan_of(power_profile@, snapshot@)),
    {
        if self.dry_run {
            return Ok(Plan::empty());
        }
        let boost = if self.status.boost_supported() {
            Some(Write { node: Node::Boost, value: Setting::Flag(power_profile.boost) })
        } else {
            None
        };
        let governors = activate_scaling_governor(power_profile.scaling_governor, snapshot)?;
        let preferences = activate_energy_preference(power_profile.energy_preference, snapshot)?;
        let frequencies = activate_maximum_frequency(power_profile.maximum_frequency, snapshot)?;
        proof {
            lemma_zipped_online(online_ids(snapshot@)->Ok_0, power_profile@.defaults());
        }
        Ok(zip_groups(boost, governors, preferences, frequencies))
    }

    /// Whether an activation leaves the boost switch alone although the
    /// profile sets it.
    pub fn skips_boost(&self) -> (skipped: bool)
        ensures
            skipped == self@.skips_boost(),
    {
        !self.dry_run && !self.status.boost_supported()
    }

    /// The state that the hardware reflects.
    pub fn current(&self, snapshot: &Snapshot) -> (state: Result<InferredPowerProfile, Error>)
        ensures
            agrees(state, state_of(snapshot@)),
    {
        Ok(
            InferredPowerProfile {
                boost: self.boost_enabled(snapshot)?,
                scaling_governor: self.scaling_governor(snapshot)?,
                energy_preference: self.energy_preference(snapshot)?,
                maximum_frequency: maximum_frequency(snapshot)?,
                cpus: Vec::new(),
            },
        )
    }

    /// The backend's name: that of the kernel's driver.
    pub fn name(&self) -> (name: &str)
        ensures
            name@ == self@.name,
    {
        self.name.as_str()
    }
}

/// Where the boost switch is skipped, no write of the plan goes to it;
/// where it is not, and the activation is no dry run, the plan's first write
/// sets it.
pub proof fn lemma_skipped_boost(driver: DriverView, profile: PowerProfileView, store: Store)
    requires
        driver.plan_of(profile, store) is Ok,
    ensures
        driver.skips_boost() ==> forall|g: int, w: int|
            0 <= g < driver.plan_of(profile, store)->Ok_0.len() && 0 <= w < driver.plan_of(
                profile,
                store,
            )->Ok_0[g].len() ==> (#[trigger] driver.plan_of(profile, store)->Ok_0[g][w]).node
                != Node::Boost,
        !driver.skips_boost() && !driver.dry_run ==> driver.plan_of(profile, store)->Ok_0[0]
            == seq![boost_write(profile.boost)],
{
    let plan = driver.plan_of(profile, store)->Ok_0;
    if driver.skips_boost() {
        let ids = online_ids(store)->Ok_0;
        assert(plan =~= online_groups(ids, profile.defaults()));
        assert forall|g: int, w: int| 0 <= g < plan.len() && 0 <= w < plan[g].len() implies (
        #[trigger] plan[g][w]).node != Node::Boost by {
            let group = crate::drivers::cpu::cpu_writes(ids[g], profile.defaults());
            assert(plan[g] == group);
            assert(group.len() == 3);
        }
    }
}

} // verus!
