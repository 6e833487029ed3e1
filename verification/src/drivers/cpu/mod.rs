//! CPU frequency-scaling backends, and the generic one among them, which
//! drives every policy that the kernel lists.

use crate::error::{agrees, Error};
use crate::plan::Plan;
use crate::sysfs::{
    Node, PolicyProperty, read, read_flag, read_number, Setting, Snapshot, Store, Write,
};
use crate::text::{numbers, parse_numbers, split, split_text, texts_of};
use self::types::{
    CpuPowerProfile, CpuState, EnergyPreference, InferredPowerProfile, InferredPowerProfileView,
    PowerProfile, PowerProfileView, ScalingGovernor,
};
use self::utils::{frequency_to_write, online_cpu_id_iter, online_cpus, online_ids};
use vstd::prelude::*;

pub mod amd;
pub mod dummy;
pub mod intel;
pub mod types;
pub mod utils;

verus! {

/// The file `property` of the policy of CPU `cpu_id`.
pub open spec fn policy_node(cpu_id: u32, property: PolicyProperty) -> Node {
    Node::Policy { cpu_id: cpu_id, property: property }
}

/// The file that names the driver of the first policy: the mark by which a
/// backend knows its machine.
pub open spec fn marker_node() -> Node {
    Node::Policy { cpu_id: 0, property: PolicyProperty::ScalingDriver }
}

/// The CPU ids that a policy file lists, separated by single spaces.
pub open spec fn read_ids(store: Store, node: Node) -> Result<Seq<u32>, Error> {
    match read(store, node) {
        Ok(text) => match parse_numbers(split(text, ' ')) {
            Some(ids) => Ok(ids),
            None => Err(Error::Parse(node)),
        },
        Err(error) => Err(error),
    }
}

/// The words that a policy file lists, separated by single spaces.
pub open spec fn read_words(store: Store, node: Node) -> Result<Seq<Seq<char>>, Error> {
    match read(store, node) {
        Ok(text) => Ok(split(text, ' ')),
        Err(error) => Err(error),
    }
}

/// The scaling governor that a policy file names.
pub open spec fn read_governor(store: Store, node: Node) -> Result<ScalingGovernor, Error> {
    match read(store, node) {
        Ok(text) => match ScalingGovernor::parse(text) {
            Some(governor) => Ok(governor),
            None => Err(Error::Parse(node)),
        },
        Err(error) => Err(error),
    }
}

/// The energy preference that a policy file names.
pub open spec fn read_preference(store: Store, node: Node) -> Result<EnergyPreference, Error> {
    match read(store, node) {
        Ok(text) => match EnergyPreference::parse(text) {
            Some(preference) => Ok(preference),
            None => Err(Error::Parse(node)),
        },
        Err(error) => Err(error),
    }
}

/// The boost switch of a store: on where its file could not be read.
pub open spec fn read_boost(store: Store) -> Result<bool, Error> {
    if store.contains_key(Node::Boost) {
        read_flag(store, Node::Boost)
    } else {
        Ok(true)
    }
}

/// The scaling governor that `node` names.
pub fn governor_at(snapshot: &Snapshot, node: Node) -> (governor: Result<ScalingGovernor, Error>)
    ensures
        governor == read_governor(snapshot@, node),
{
    match ScalingGovernor::from_str(snapshot.read(node)?) {
        Ok(governor) => Ok(governor),
        Err(_) => Err(Error::Parse(node)),
    }
}

/// The energy preference that `node` names.
pub fn preference_at(snapshot: &Snapshot, node: Node) -> (preference: Result<
    EnergyPreference,
    Error,
>)
    ensures
        preference == read_preference(snapshot@, node),
{
    match EnergyPreference::from_str(snapshot.read(node)?) {
        Ok(preference) => Ok(preference),
        Err(_) => Err(Error::Parse(node)),
    }
}

/// The boost switch: on where its file could not be read.
pub fn boost_at(snapshot: &Snapshot) -> (boost: Result<bool, Error>)
    ensures
        boost == read_boost(snapshot@),
{
    match snapshot.content(Node::Boost) {
        Some(_) => snapshot.read_flag(Node::Boost),
        None => Ok(true),
    }
}

/// The writes that bring one CPU to `target`: the governor first, then the
/// energy preference, then the frequency limit. The kernel may refuse a
/// preference under a governor that does not go with it.
pub open spec fn cpu_writes(cpu_id: u32, target: CpuPowerProfile) -> Seq<Write> {
    seq![
        Write {
            node: policy_node(cpu_id, PolicyProperty::ScalingGovernor),
            value: Setting::Governor(target.scaling_governor),
        },
        Write {
            node: policy_node(cpu_id, PolicyProperty::EnergyPerformancePreference),
            value: Setting::EnergyPreference(target.energy_preference),
        },
        Write {
            node: policy_node(cpu_id, PolicyProperty::ScalingMaxFreq),
            value: Setting::Frequency(frequency_to_write(target.maximum_frequency)),
        },
    ]
}

/// One group of writes for each of the CPUs `ids`, each to bring its CPU to
/// `target`.
pub open spec fn online_groups(ids: Seq<u32>, target: CpuPowerProfile) -> Seq<Seq<Write>> {
    Seq::new(ids.len(), |i: int| cpu_writes(ids[i], target))
}

/// The writes of three settings, CPU by CPU: group `i` holds write `i` of
/// each, the governor first, then the energy preference, then the frequency
/// limit.
pub open spec fn zipped(
    governors: Seq<Write>,
    preferences: Seq<Write>,
    frequencies: Seq<Write>,
) -> Seq<Seq<Write>> {
    Seq::new(governors.len(), |i: int| seq![governors[i], preferences[i], frequencies[i]])
}

/// The group that holds `first` alone, or no group where there is none.
pub open spec fn leading_group(first: Option<Write>) -> Seq<Seq<Write>> {
    match first {
        Some(write) => seq![seq![write]],
        None => Seq::empty(),
    }
}

/// The writes of each setting for the CPUs `ids`, taken CPU by CPU, are the
/// groups that bring each CPU to `target`.
pub proof fn lemma_zipped_online(ids: Seq<u32>, target: CpuPowerProfile)
    ensures
        zipped(
            utils::writes_to_each(
                ids,
                PolicyProperty::ScalingGovernor,
                Setting::Governor(target.scaling_governor),
            ),
            utils::writes_to_each(
                ids,
                PolicyProperty::EnergyPerformancePreference,
                Setting::EnergyPreference(target.energy_preference),
            ),
            utils::writes_to_each(
                ids,
                PolicyProperty::ScalingMaxFreq,
                Setting::Frequency(frequency_to_write(target.maximum_frequency)),
            ),
        ) == online_groups(ids, target),
{
    let governors = utils::writes_to_each(
        ids,
        PolicyProperty::ScalingGovernor,
        Setting::Governor(target.scaling_governor),
    );
    let preferences = utils::writes_to_each(
        ids,
        PolicyProperty::EnergyPerformancePreference,
        Setting::EnergyPreference(target.energy_preference),
    );
    let frequencies = utils::writes_to_each(
        ids,
        PolicyProperty::ScalingMaxFreq,
        Setting::Frequency(frequency_to_write(target.maximum_frequency)),
    );
    assert forall|i: int| 0 <= i < ids.len() implies zipped(governors, preferences, frequencies)[i]
        == online_groups(ids, target)[i] by {
        assert(seq![governors[i], preferences[i], frequencies[i]] =~= cpu_writes(ids[i], target));
    }
    assert(zipped(governors, preferences, frequencies) =~= online_groups(ids, target));
}

/// Puts the writes of three settings together CPU by CPU, after a group
/// that holds `first` alone.
pub(crate) fn zip_groups(
    first: Option<Write>,
    governors: Vec<Write>,
    preferences: Vec<Write>,
    frequencies: Vec<Write>,
) -> (plan: Plan)
    requires
        preferences.len() == governors.len(),
        frequencies.len() == governors.len(),
    ensures
        plan@ == leading_group(first) + zipped(governors@, preferences@, frequencies@),
{
    let mut groups: Vec<Vec<Write>> = Vec::new();
    match first {
        Some(write) => {
            let mut head: Vec<Write> = Vec::new();
            head.push(write);
            assert(head@ =~= seq![write]);
            groups.push(head);
        },
        None => {},
    }
    let ghost lead = leading_group(first);
    let ghost rest = zipped(governors@, preferences@, frequencies@);
    let mut i: usize = 0;
    while i < governors.len()
        invariant
            i <= governors.len(),
            preferences.len() == governors.len(),
            frequencies.len() == governors.len(),
            lead == leading_group(first),
            rest == zipped(governors@, preferences@, frequencies@),
            groups.len() == lead.len() + i,
            forall|k: int| 0 <= k < groups.len() ==> (#[trigger] groups@[k])@ == (lead + rest)[k],
        decreases governors.len() - i,
    {
        let mut group: Vec<Write> = Vec::new();
        group.push(governors[i]);
        group.push(preferences[i]);
        group.push(frequencies[i]);
        assert(group@ =~= rest[i as int]);
        groups.push(group);
        i += 1;
    }
    let plan = Plan { groups: groups };
    assert(plan@ =~= lead + rest);
    plan
}

/// The write that sets the boost switch.
pub open spec fn boost_write(boost: bool) -> Write {
    Write { node: Node::Boost, value: Setting::Flag(boost) }
}

/// One frequency-scaling policy, as the kernel describes it.
#[derive(Debug, PartialEq, Eq)]
pub struct Policy {
    pub affected_cpus: Vec<u32>,
    pub cpu_id: u32,
    pub cpuinfo_min_freq: u32,
    pub cpuinfo_max_freq: u32,
    pub cpuinfo_transition_latency: u32,
    pub energy_performance_available_preferences: Vec<String>,
    pub energy_performance_preference: String,
    pub related_cpus: Vec<u32>,
    pub scaling_available_governors: Vec<String>,
    pub scaling_driver: String,
    pub scaling_cur_freq: u32,
    pub scaling_governor: String,
    pub scaling_min_freq: u32,
    pub scaling_max_freq: u32,
}

/// What a `Policy` holds.
pub struct PolicyView {
    pub affected_cpus: Seq<u32>,
    pub cpu_id: u32,
    pub cpuinfo_min_freq: u32,
    pub cpuinfo_max_freq: u32,
    pub cpuinfo_transition_latency: u32,
    pub energy_performance_available_preferences: Seq<Seq<char>>,
    pub energy_performance_preference: Seq<char>,
    pub related_cpus: Seq<u32>,
    pub scaling_available_governors: Seq<Seq<char>>,
    pub scaling_driver: Seq<char>,
    pub scaling_cur_freq: u32,
    pub scaling_governor: Seq<char>,
    pub scaling_min_freq: u32,
    pub scaling_max_freq: u32,
}

impl View for Policy {
    type V = PolicyView;

    open spec fn view(&self) -> PolicyView {
        PolicyView {
            affected_cpus: self.affected_cpus@,
            cpu_id: self.cpu_id,
            cpuinfo_min_freq: self.cpuinfo_min_freq,
            cpuinfo_max_freq: self.cpuinfo_max_freq,
            cpuinfo_transition_latency: self.cpuinfo_transition_latency,
            energy_performance_available_preferences: texts_of(
                self.energy_performance_available_preferences@,
            ),
            energy_performance_preference: self.energy_performance_preference@,
            related_cpus: self.related_cpus@,
            scaling_available_governors: texts_of(self.scaling_available_governors@),
            scaling_driver: self.scaling_driver@,
            scaling_cur_freq: self.scaling_cur_freq,
            scaling_governor: self.scaling_governor@,
            scaling_min_freq: self.scaling_min_freq,
            scaling_max_freq: self.scaling_max_freq,
        }
    }
}

/// The policy of CPU `cpu_id` as a store describes it; where a file could
/// not be read or does not hold what it should, the failure of the first
/// such file, in the order in which the files are taken here.
pub open spec fn policy_of(store: Store, cpu_id: u32) -> Result<PolicyView, Error> {
    let affected_cpus = read_ids(store, policy_node(cpu_id, PolicyProperty::AffectedCpus));
    let cpuinfo_max_freq = read_number(store, policy_node(cpu_id, PolicyProperty::CpuinfoMaxFreq));
    let cpuinfo_min_freq = read_number(store, policy_node(cpu_id, PolicyProperty::CpuinfoMinFreq));
    let cpuinfo_transition_latency = read_number(
        store,
        policy_node(cpu_id, PolicyProperty::CpuinfoTransitionLatency),
    );
    let energy_performance_available_preferences = read_words(
        store,
        policy_node(cpu_id, PolicyProperty::EnergyPerformanceAvailablePreferences),
    );
    let energy_performance_preference = read(
        store,
        policy_node(cpu_id, PolicyProperty::EnergyPerformancePreference),
    );
    let related_cpus = read_ids(store, policy_node(cpu_id, PolicyProperty::RelatedCpus));
    let scaling_available_governors = read_words(
        store,
        policy_node(cpu_id, PolicyProperty::ScalingAvailableGovernors),
    );
    let scaling_driver = read(store, policy_node(cpu_id, PolicyProperty::ScalingDriver));
    let scaling_cur_freq = read_number(store, policy_node(cpu_id, PolicyProperty::ScalingCurFreq));
    let scaling_governor = read(store, policy_node(cpu_id, PolicyProperty::ScalingGovernor));
    let scaling_min_freq = read_number(store, policy_node(cpu_id, PolicyProperty::ScalingMinFreq));
    let scaling_max_freq = read_number(store, policy_node(cpu_id, PolicyProperty::ScalingMaxFreq));
    if affected_cpus is Err {
        Err(affected_cpus->Err_0)
    } else if cpuinfo_max_freq is Err {
        Err(cpuinfo_max_freq->Err_0)
    } else if cpuinfo_min_freq is Err {
        Err(cpuinfo_min_freq->Err_0)
    } else if cpuinfo_transition_latency is Err {
        Err(cpuinfo_transition_latency->Err_0)
    } else if energy_performance_available_preferences is Err {
        Err(energy_performance_available_preferences->Err_0)
    } else if energy_performance_preference is Err {
        Err(energy_performance_preference->Err_0)
    } else if related_cpus is Err {
        Err(related_cpus->Err_0)
    } else if scaling_available_governors is Err {
        Err(scaling_available_governors->Err_0)
    } else if scaling_driver is Err {
        Err(scaling_driver->Err_0)
    } else if scaling_cur_freq is Err {
        Err(scaling_cur_freq->Err_0)
    } else if scaling_governor is Err {
        Err(scaling_governor->Err_0)
    } else if scaling_min_freq is Err {
        Err(scaling_min_freq->Err_0)
    } else if scaling_max_freq is Err {
        Err(scaling_max_freq->Err_0)
    } else {
        Ok(
            PolicyView {
                affected_cpus: affected_cpus->Ok_0,
                cpu_id: cpu_id,
                cpuinfo_min_freq: cpuinfo_min_freq->Ok_0,
                cpuinfo_max_freq: cpuinfo_max_freq->Ok_0,
                cpuinfo_transition_latency: cpuinfo_transition_latency->Ok_0,
                energy_performance_available_preferences:
                    energy_performance_available_preferences->Ok_0,
                energy_performance_preference: energy_performance_preference->Ok_0,
                related_cpus: related_cpus->Ok_0,
                scaling_available_governors: scaling_available_governors->Ok_0,
                scaling_driver: scaling_driver->Ok_0,
                scaling_cur_freq: scaling_cur_freq->Ok_0,
                scaling_governor: scaling_governor->Ok_0,
                scaling_min_freq: scaling_min_freq->Ok_0,
                scaling_max_freq: scaling_max_freq->Ok_0,
            },
        )
    }
}

impl Policy {
    /// Reads the policy of CPU `cpu_id` from what its files hold.
    pub fn from_cpu_id(cpu_id: u32, snapshot: &Snapshot) -> (policy: Result<Self, Error>)
        ensures
            agrees(policy, policy_of(snapshot@, cpu_id)),
    {
        let affected_cpus = Self::read_policy_ids(cpu_id, PolicyProperty::AffectedCpus, snapshot)?;
        let cpuinfo_max_freq = snapshot.read_number(
            Node::policy(cpu_id, PolicyProperty::CpuinfoMaxFreq),
        )?;
        let cpuinfo_min_freq = snapshot.read_number(
            Node::policy(cpu_id, PolicyProperty::CpuinfoMinFreq),
        )?;
        let cpuinfo_transition_latency = snapshot.read_number(
            Node::policy(cpu_id, PolicyProperty::CpuinfoTransitionLatency),
        )?;
        let energy_performance_available_preferences = Self::read_policy_words(
            cpu_id,
            PolicyProperty::EnergyPerformanceAvailablePreferences,
            snapshot,
        )?;
        let energy_performance_preference = Self::read_policy_property(
            cpu_id,
            PolicyProperty::EnergyPerformancePreference,
            snapshot,
        )?;
        let related_cpus = Self::read_policy_ids(cpu_id, PolicyProperty::RelatedCpus, snapshot)?;
        let scaling_available_governors = Self::read_policy_words(
            cpu_id,
            PolicyProperty::ScalingAvailableGovernors,
            snapshot,
        )?;
        let scaling_driver = Self::read_policy_property(
            cpu_id,
            PolicyProperty::ScalingDriver,
            snapshot,
        )?;
        let scaling_cur_freq = snapshot.read_number(
            Node::policy(cpu_id, PolicyProperty::ScalingCurFreq),
        )?;
        let scaling_governor = Self::read_policy_property(
            cpu_id,
            PolicyProperty::ScalingGovernor,
            snapshot,
        )?;
        let scaling_min_freq = snapshot.read_number(
            Node::policy(cpu_id, PolicyProperty::ScalingMinFreq),
        )?;
        let scaling_max_freq = snapshot.read_number(
            Node::policy(cpu_id, PolicyProperty::ScalingMaxFreq),
        )?;
        Ok(
            Self {
                affected_cpus: affected_cpus,
                cpu_id: cpu_id,
                cpuinfo_max_freq: cpuinfo_max_freq,
                cpuinfo_min_freq: cpuinfo_min_freq,
                cpuinfo_transition_latency: cpuinfo_transition_latency,
                energy_performance_available_preferences: energy_performance_available_preferences,
                energy_performance_preference: energy_performance_preference,
                related_cpus: related_cpus,
                scaling_available_governors: scaling_available_governors,
                scaling_driver: scaling_driver,
                scaling_cur_freq: scaling_cur_freq,
                scaling_governor: scaling_governor,
                scaling_min_freq: scaling_min_freq,
                scaling_max_freq: scaling_max_freq,
            },
        )
    }

    /// The writes that bring this policy to `core_power_profile`: the
    /// governor first, then the energy preference, then the frequency limit.
    pub fn activate(&self, core_power_profile: &CpuPowerProfile) -> (writes: Vec<Write>)
        ensures
            writes@ == cpu_writes(self.cpu_id, *core_power_profile),
    {
        let mut writes: Vec<Write> = Vec::new();
        writes.push(
            Self::write_policy_property(
                self.cpu_id,
                PolicyProperty::ScalingGovernor,
                Setting::Governor(core_power_profile.scaling_governor),
            ),
        );
        writes.push(
            Self::write_policy_property(
                self.cpu_id,
                PolicyProperty::EnergyPerformancePreference,
                Setting::EnergyPreference(core_power_profile.energy_preference),
            ),
        );
        let khz = match core_power_profile.maximum_frequency {
            Some(khz) => khz,
            None => utils::MAX_RESET_FREQUENCY,
        };
        writes.push(
            Self::write_policy_property(
                self.cpu_id,
                PolicyProperty::ScalingMaxFreq,
                Setting::Frequency(khz),
            ),
        );
        assert(writes@ =~= cpu_writes(self.cpu_id, *core_power_profile));
        writes
    }

    /// What the file `property` of the policy of CPU `cpu_id` holds, without
    /// the whitespace around it.
    pub fn read_policy_property(cpu_id: u32, property: PolicyProperty, snapshot: &Snapshot) -> (text:
        Result<String, Error>)
        ensures
            agrees(text, read(snapshot@, policy_node(cpu_id, property))),
    {
        Ok(snapshot.read(Node::policy(cpu_id, property))?.to_owned())
    }

    fn read_policy_words(cpu_id: u32, property: PolicyProperty, snapshot: &Snapshot) -> (words:
        Result<Vec<String>, Error>)
        ensures
            match words {
                Ok(words) => read_words(snapshot@, policy_node(cpu_id, property)) == Ok::<
                    Seq<Seq<char>>,
                    Error,
                >(texts_of(words@)),
                Err(error) => read_words(snapshot@, policy_node(cpu_id, property)) == Err::<
                    Seq<Seq<char>>,
                    Error,
                >(error),
            },
    {
        Ok(split_text(snapshot.read(Node::policy(cpu_id, property))?, ' '))
    }

    fn read_policy_ids(cpu_id: u32, property: PolicyProperty, snapshot: &Snapshot) -> (ids: Result<
        Vec<u32>,
        Error,
    >)
        ensures
            agrees(ids, read_ids(snapshot@, policy_node(cpu_id, property))),
    {
        let words = split_text(snapshot.read(Node::policy(cpu_id, property))?, ' ');
        match numbers(&words) {
            Some(ids) => Ok(ids),
            None => Err(Error::Parse(Node::policy(cpu_id, property))),
        }
    }

    /// The write that asks this policy for the frequency `value`, in kHz.
    pub fn scaling_setspeed(&self, value: u32) -> (write: Write)
        ensures
            write == (Write {
                node: policy_node(self.cpu_id, PolicyProperty::ScalingSetspeed),
                value: Setting::Frequency(value),
            }),
    {
        Self::write_policy_property(
            self.cpu_id,
            PolicyProperty::ScalingSetspeed,
            Setting::Frequency(value),
        )
    }

    /// The write of `value` to the file `property` of the policy of CPU
    /// `cpu_id`.
    pub fn write_policy_property(cpu_id: u32, property: PolicyProperty, value: Setting) -> (write:
        Write)
        ensures
            write == (Write { node: policy_node(cpu_id, property), value: value }),
    {
        Write { node: Node::policy(cpu_id, property), value: value }
    }
}

/// What a list of policies holds, policy by policy.
pub open spec fn policies_view(policies: Seq<Policy>) -> Seq<PolicyView> {
    policies.map_values(|policy: Policy| policy@)
}

/// The policies of the CPUs `ids` as a store describes them; where one
/// fails, the failure of the first that does.
pub open spec fn policies_of(store: Store, ids: Seq<u32>) -> Result<Seq<PolicyView>, Error>
    decreases ids.len(),
{
    if ids.len() == 0 {
        Ok(Seq::empty())
    } else {
        match policies_of(store, ids.drop_last()) {
            Err(error) => Err(error),
            Ok(policies) => match policy_of(store, ids.last()) {
                Err(error) => Err(error),
                Ok(policy) => Ok(policies.push(policy)),
            },
        }
    }
}

/// The state of CPU `cpu_id` as a store describes it: governor, energy
/// preference and frequency limit of its policy. Where a file fails, the
/// failure of the first such file, in this order.
pub open spec fn cpu_state_of(store: Store, cpu_id: u32) -> Result<CpuState, Error> {
    let scaling_governor = read_governor(
        store,
        policy_node(cpu_id, PolicyProperty::ScalingGovernor),
    );
    let energy_preference = read_preference(
        store,
        policy_node(cpu_id, PolicyProperty::EnergyPerformancePreference),
    );
    let maximum_frequency = read_number(store, policy_node(cpu_id, PolicyProperty::ScalingMaxFreq));
    if scaling_governor is Err {
        Err(scaling_governor->Err_0)
    } else if energy_preference is Err {
        Err(energy_preference->Err_0)
    } else if maximum_frequency is Err {
        Err(maximum_frequency->Err_0)
    } else {
        Ok(
            CpuState {
                cpu_id: cpu_id,
                energy_preference: energy_preference->Ok_0,
                scaling_governor: scaling_governor->Ok_0,
                maximum_frequency: maximum_frequency->Ok_0,
            },
        )
    }
}

/// The states of the CPUs of `policies` as a store describes them; where one
/// fails, the failure of the first that does.
pub open spec fn cpu_states_of(store: Store, policies: Seq<PolicyView>) -> Result<
    Seq<CpuState>,
    Error,
>
    decreases policies.len(),
{
    if policies.len() == 0 {
        Ok(Seq::empty())
    } else {
        match cpu_states_of(store, policies.drop_last()) {
            Err(error) => Err(error),
            Ok(states) => match cpu_state_of(store, policies.last().cpu_id) {
                Err(error) => Err(error),
                Ok(state) => Ok(states.push(state)),
            },
        }
    }
}

/// The generic backend: it drives the policies that it found when it was
/// probed.
#[derive(Debug, PartialEq, Eq)]
pub struct Driver {
    pub dry_run: bool,
    pub policies: Vec<Policy>,
}

/// What a `Driver` holds.
pub struct DriverView {
    pub dry_run: bool,
    pub policies: Seq<PolicyView>,
}

impl View for Driver {
    type V = DriverView;

    open spec fn view(&self) -> DriverView {
        DriverView { dry_run: self.dry_run, policies: policies_view(self.policies@) }
    }
}

/// The backend that a store gives: with the policy of every online CPU. A
/// machine without a policy is none that the backend drives.
pub open spec fn driver_of(store: Store) -> Result<DriverView, Error> {
    match online_ids(store) {
        Err(error) => Err(error),
        Ok(ids) => match policies_of(store, ids) {
            Err(error) => Err(error),
            Ok(policies) => if policies.len() == 0 {
                Err(Error::Unsupported)
            } else {
                Ok(DriverView { dry_run: false, policies: policies })
            },
        },
    }
}

impl DriverView {
    /// The writes that activate `profile`: the boost switch in a group of
    /// its own, then one group for each policy, which brings the policy's
    /// CPU to the settings that the profile has for it. A dry run writes
    /// nothing.
    pub open spec fn plan_of(self, profile: PowerProfileView) -> Seq<Seq<Write>> {
        if self.dry_run {
            Seq::empty()
        } else {
            seq![seq![boost_write(profile.boost)]] + Seq::new(
                self.policies.len(),
                |i: int|
                    cpu_writes(
                        self.policies[i].cpu_id,
                        profile.cpu_power_profile(self.policies[i].cpu_id),
                    ),
            )
        }
    }

    /// The state that a store's files describe: the boost switch, and the
    /// state of the CPU of each policy. Governor, energy preference and
    /// frequency limit of the whole are those of the first policy. A backend
    /// without policies reads no state.
    pub open spec fn state_of(self, store: Store) -> Result<InferredPowerProfileView, Error> {
        match read_boost(store) {
            Err(error) => Err(error),
            Ok(boost) => match cpu_states_of(store, self.policies) {
                Err(error) => Err(error),
                Ok(cpus) => if cpus.len() == 0 {
                    Err(Error::Unsupported)
                } else {
                    Ok(
                        InferredPowerProfileView {
                            boost: boost,
                            energy_preference: cpus[0].energy_preference,
                            scaling_governor: cpus[0].scaling_governor,
                            maximum_frequency: cpus[0].maximum_frequency,
                            cpus: cpus,
                        },
                    )
                },
            },
        }
    }
}

fn cpu_state(snapshot: &Snapshot, cpu_id: u32) -> (state: Result<CpuState, Error>)
    ensures
        state == cpu_state_of(snapshot@, cpu_id),
{
    let scaling_governor = governor_at(
        snapshot,
        Node::policy(cpu_id, PolicyProperty::ScalingGovernor),
    )?;
    let energy_preference = preference_at(
        snapshot,
        Node::policy(cpu_id, PolicyProperty::EnergyPerformancePreference),
    )?;
    let maximum_frequency = snapshot.read_number(
        Node::policy(cpu_id, PolicyProperty::ScalingMaxFreq),
    )?;
    Ok(
        CpuState {
            cpu_id: cpu_id,
            energy_preference: energy_preference,
            scaling_governor: scaling_governor,
            maximum_frequency: maximum_frequency,
        },
    )
}

impl Driver {
    /// The backend for the machine that a snapshot describes: with the
    /// policy of every online CPU, in the order of the list of online CPUs.
    /// It declines with `Unsupported` where no CPU is online.
    pub fn from_system(snapshot: &Snapshot) -> (driver: Result<Self, Error>)
        ensures
            agrees(driver, driver_of(snapshot@)),
    {
        let ids = online_cpu_id_iter(online_cpus(snapshot)?.as_str());
        let mut policies: Vec<Policy> = Vec::new();
        let mut i: usize = 0;
        assert(ids@.take(0) =~= Seq::<u32>::empty());
        assert(policies_view(policies@) =~= Seq::<PolicyView>::empty());
        while i < ids.len()
            invariant
                i <= ids.len(),
                online_ids(snapshot@) == Ok::<Seq<u32>, Error>(ids@),
                policies_of(snapshot@, ids@.take(i as int)) == Ok::<Seq<PolicyView>, Error>(
                    policies_view(policies@),
                ),
            decreases ids.len() - i,
        {
            let ghost before = policies@;
            let ghost upto = ids@.take(i + 1);
            assert(upto.drop_last() =~= ids@.take(i as int));
            assert(upto.last() == ids@[i as int]);
            match Policy::from_cpu_id(ids[i], snapshot) {
                Ok(policy) => {
                    policies.push(policy);
                    assert(policies_view(policies@) =~= policies_view(before).push(policy@)) by {
                        assert forall|k: int| 0 <= k < before.len() implies policies_view(
                            policies@,
                        )[k] == policies_view(before)[k] by {
                            assert(policies@[k] == before[k]);
                        }
                    }
                },
                Err(error) => {
                    proof {
                        lemma_policies_fail(snapshot@, ids@, i + 1);
                    }
                    return Err(error);
                },
            }
            i += 1;
        }
        assert(ids@.take(ids.len() as int) =~= ids@);
        if policies.len() == 0 {
            return Err(Error::Unsupported);
        }
        Ok(Self { dry_run: false, policies: policies })
    }

    /// The writes that activate `power_profile`.
    pub fn activate(&self, power_profile: &PowerProfile) -> (plan: Plan)
        ensures
            plan@ == self@.plan_of(power_profile@),
    {
        if self.dry_run {
            return Plan::empty();
        }
        let ghost expected = self@.plan_of(power_profile@);
        let mut groups: Vec<Vec<Write>> = Vec::new();
        let mut head: Vec<Write> = Vec::new();
        head.push(Write { node: Node::Boost, value: Setting::Flag(power_profile.boost) });
        assert(head@ =~= seq![boost_write(power_profile.boost)]);
        groups.push(head);
        let mut i: usize = 0;
        while i < self.policies.len()
            invariant
                i <= self.policies.len(),
                !self.dry_run,
                expected == self@.plan_of(power_profile@),
                groups.len() == i + 1,
                forall|k: int| 0 <= k < groups.len() ==> (#[trigger] groups@[k])@ == expected[k],
            decreases self.policies.len() - i,
        {
            let policy = &self.policies[i];
            assert(self@.policies[i as int] == policy@);
            let target = power_profile.cpu_power_profile(policy.cpu_id);
            let group = policy.activate(&target);
            groups.push(group);
            i += 1;
        }
        let plan = Plan { groups: groups };
        assert(plan@ =~= expected);
        plan
    }

    /// The state that the hardware reflects.
    pub fn current(&self, snapshot: &Snapshot) -> (state: Result<InferredPowerProfile, Error>)
        ensures
            agrees(state, self@.state_of(snapshot@)),
    {
        let boost = boost_at(snapshot)?;
        let ghost policies = self@.policies;
        let mut cpus: Vec<CpuState> = Vec::new();
        let mut i: usize = 0;
        assert(policies.take(0) =~= Seq::<PolicyView>::empty());
        while i < self.policies.len()
            invariant
                i <= self.policies.len(),
                policies == self@.policies,
                read_boost(snapshot@) == Ok::<bool, Error>(boost),
                cpu_states_of(snapshot@, policies.take(i as int)) == Ok::<Seq<CpuState>, Error>(
                    cpus@,
                ),
            decreases self.policies.len() - i,
        {
            let ghost upto = policies.take(i + 1);
            assert(upto.drop_last() =~= policies.take(i as int));
            assert(upto.last() == self.policies@[i as int]@);
            match cpu_state(snapshot, self.policies[i].cpu_id) {
                Ok(state) => {
                    cpus.push(state);
                },
                Err(error) => {
                    proof {
                        lemma_cpu_states_fail(snapshot@, policies, i + 1);
                    }
                    return Err(error);
                },
            }
            i += 1;
        }
        assert(policies.take(self.policies.len() as int) =~= policies);
        if cpus.len() == 0 {
            return Err(Error::Unsupported);
        }
        Ok(
            InferredPowerProfile {
                boost: boost,
                energy_preference: cpus[0].energy_preference,
                scaling_governor: cpus[0].scaling_governor,
                maximum_frequency: cpus[0].maximum_frequency,
                cpus: cpus,
            },
        )
    }

    /// The backend's name.
    pub fn name(&self) -> (name: &'static str)
        ensures
            name@ == "cpufreq"@,
    {
        "cpufreq"
    }
}

/// A failure among the first `n` policies is the failure of the whole list.
proof fn lemma_policies_fail(store: Store, ids: Seq<u32>, n: int)
    requires
        0 <= n <= ids.len(),
        policies_of(store, ids.take(n)) is Err,
    ensures
        policies_of(store, ids) == policies_of(store, ids.take(n)),
    decreases ids.len() - n,
{
    if n < ids.len() {
        let next = ids.take(n + 1);
        assert(next.drop_last() =~= ids.take(n));
        lemma_policies_fail(store, ids, n + 1);
    } else {
        assert(ids.take(n) =~= ids);
    }
}

/// A failure among the first `n` CPUs is the failure of the whole list.
proof fn lemma_cpu_states_fail(store: Store, policies: Seq<PolicyView>, n: int)
    requires
        0 <= n <= policies.len(),
        cpu_states_of(store, policies.take(n)) is Err,
    ensures
        cpu_states_of(store, policies) == cpu_states_of(store, policies.take(n)),
    decreases policies.len() - n,
{
    if n < policies.len() {
        let next = policies.take(n + 1);
        assert(next.drop_last() =~= policies.take(n));
        lemma_cpu_states_fail(store, policies, n + 1);
    } else {
        assert(policies.take(n) =~= policies);
    }
}

/// The policies that are read for a list of CPUs are those of the CPUs, in
/// order.
proof fn lemma_policies_cpu_ids(store: Store, ids: Seq<u32>)
    requires
        policies_of(store, ids) is Ok,
    ensures
        policies_of(store, ids)->Ok_0.len() == ids.len(),
        forall|i: int|
            0 <= i < ids.len() ==> (#[trigger] policies_of(store, ids)->Ok_0[i]).cpu_id == ids[i],
    decreases ids.len(),
{
    if ids.len() > 0 {
        lemma_policies_cpu_ids(store, ids.drop_last());
    }
}

/// The generic backend has one policy for each online CPU: no two of its
/// policies are of one CPU.
pub proof fn lemma_one_policy_for_each_cpu(store: Store)
    ensures
        match driver_of(store) {
            Ok(driver) => forall|i: int, j: int|
                0 <= i < j < driver.policies.len() ==> (#[trigger] driver.policies[i]).cpu_id != (
                #[trigger] driver.policies[j]).cpu_id,
            Err(_) => true,
        },
{
    if driver_of(store) is Ok {
        let ids = online_ids(store)->Ok_0;
        utils::lemma_online_cpu_ids(store[Node::OnlineCpus]);
        lemma_policies_cpu_ids(store, ids);
    }
}

/// Probes the generic backend: it drives a machine whose online CPUs each
/// have a policy that can be read.
pub fn probe(_profiles: &Vec<PowerProfile>, snapshot: &Snapshot) -> (driver: Result<Driver, Error>)
    ensures
        agrees(driver, driver_of(snapshot@)),
{
    Driver::from_system(snapshot)
}

} // verus!
