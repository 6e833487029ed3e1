//! Backends that apply a power profile to the hardware and read it back,
//! and the choice among them.

use crate::error::{agrees, Error};
use crate::plan::Plan;
use crate::settings::{Settings, SettingsView};
use crate::sysfs::{Node, PolicyProperty, Snapshot, Store, Write};
use crate::text::same_text;
use crate::types::{InferredPowerProfile, PowerProfile};
use self::cpu::types::{InferredPowerProfileView, PowerProfileView};
use vstd::prelude::*;
use vstd::string::StringExecFns;

pub mod cpu;
pub mod frame;
pub mod reflect;

verus! {

/// A backend: one of the kinds there are.
#[derive(Debug, PartialEq, Eq)]
pub enum Driver {
    Amd(cpu::amd::pstate::Driver),
    Intel(cpu::intel::pstate::Driver),
    CpuFreq(cpu::Driver),
    Dummy(cpu::dummy::Driver),
}

/// What a `Driver` holds.
pub enum DriverView {
    Amd(cpu::amd::pstate::DriverView),
    Intel(cpu::intel::pstate::Driver),
    CpuFreq(cpu::DriverView),
    Dummy,
}

impl View for Driver {
    type V = DriverView;

    open spec fn view(&self) -> DriverView {
        match self {
            Driver::Amd(driver) => DriverView::Amd(driver@),
            Driver::Intel(driver) => DriverView::Intel(*driver),
            Driver::CpuFreq(driver) => DriverView::CpuFreq(driver@),
            Driver::Dummy(_) => DriverView::Dummy,
        }
    }
}

impl DriverView {
    /// The backend's name.
    pub open spec fn name(self) -> Seq<char> {
        match self {
            DriverView::Amd(driver) => driver.name,
            DriverView::Intel(_) => "intel_pstate"@,
            DriverView::CpuFreq(_) => "cpufreq"@,
            DriverView::Dummy => "dummy"@,
        }
    }

    /// The writes that activate `profile` on the machine that a store
    /// describes.
    pub open spec fn plan_of(self, profile: PowerProfileView, store: Store) -> Result<
        Seq<Seq<Write>>,
        Error,
    > {
        match self {
            DriverView::Amd(driver) => driver.plan_of(profile, store),
            DriverView::Intel(driver) => driver.plan_of(profile, store),
            DriverView::CpuFreq(driver) => Ok(driver.plan_of(profile)),
            DriverView::Dummy => Ok(Seq::empty()),
        }
    }

    /// The state that a store's files describe.
    pub open spec fn state_of(self, store: Store) -> Result<InferredPowerProfileView, Error> {
        match self {
            DriverView::Amd(_) => cpu::amd::pstate::state_of(store),
            DriverView::Intel(_) => cpu::intel::pstate::state_of(store),
            DriverView::CpuFreq(driver) => driver.state_of(store),
            DriverView::Dummy => Ok(cpu::dummy::fixed_state()),
        }
    }

    /// Whether an activation leaves the boost switch alone although the
    /// profile sets it: only AMD's backend does, in a mode that cannot set
    /// the switch.
    pub open spec fn skips_boost(self) -> bool {
        match self {
            DriverView::Amd(driver) => driver.skips_boost(),
            _ => false,
        }
    }

    /// The files whose text decides what the backend plans and infers.
    pub open spec fn nodes(self) -> Seq<Node> {
        match self {
            DriverView::Amd(_) => seq![Node::OnlineCpus, Node::Boost] + state_nodes(0),
            DriverView::Intel(_) => seq![Node::OnlineCpus, Node::NoTurbo] + state_nodes(0),
            DriverView::CpuFreq(driver) => seq![Node::Boost] + policies_nodes(driver.policies),
            DriverView::Dummy => Seq::empty(),
        }
    }
}

/// The files that hold the state of CPU `cpu_id`.
pub open spec fn state_nodes(cpu_id: u32) -> Seq<Node> {
    seq![
        cpu::policy_node(cpu_id, PolicyProperty::ScalingGovernor),
        cpu::policy_node(cpu_id, PolicyProperty::EnergyPerformancePreference),
        cpu::policy_node(cpu_id, PolicyProperty::ScalingMaxFreq),
    ]
}

/// The files that hold the state of the CPU of each of `policies`.
pub open spec fn policies_nodes(policies: Seq<cpu::PolicyView>) -> Seq<Node>
    decreases policies.len(),
{
    if policies.len() == 0 {
        Seq::empty()
    } else {
        policies_nodes(policies.drop_last()) + state_nodes(policies.last().cpu_id)
    }
}

fn push_state_nodes(nodes: &mut Vec<Node>, cpu_id: u32)
    ensures
        final(nodes)@ == old(nodes)@ + state_nodes(cpu_id),
{
    nodes.push(Node::policy(cpu_id, PolicyProperty::ScalingGovernor));
    nodes.push(Node::policy(cpu_id, PolicyProperty::EnergyPerformancePreference));
    nodes.push(Node::policy(cpu_id, PolicyProperty::ScalingMaxFreq));
    assert(nodes@ =~= old(nodes)@ + state_nodes(cpu_id));
}

impl Driver {
    /// The writes that activate `power_profile`, from what the files of
    /// `nodes` hold.
    pub fn activate(&self, power_profile: &PowerProfile, snapshot: &Snapshot) -> (plan: Result<
        Plan,
        Error,
    >)
        ensures
            agrees(plan, self@.plan_of(power_profile@.cpu, snapshot@)),
    {
        match self {
            Driver::Amd(driver) => driver.activate(&power_profile.cpu, snapshot),
            Driver::Intel(driver) => driver.activate(&power_profile.cpu, snapshot),
            Driver::CpuFreq(driver) => Ok(driver.activate(&power_profile.cpu)),
            Driver::Dummy(driver) => Ok(driver.activate(&power_profile.cpu)),
        }
    }

    /// The state that the hardware reflects, from what the files of `nodes`
    /// hold.
    pub fn current(&self, snapshot: &Snapshot) -> (state: Result<InferredPowerProfile, Error>)
        ensures
            match state {
                Ok(state) => state.cpu is Some && self@.state_of(snapshot@) == Ok::<
                    InferredPowerProfileView,
                    Error,
                >(state.cpu->0@),
                Err(error) => self@.state_of(snapshot@) == Err::<InferredPowerProfileView, Error>(
                    error,
                ),
            },
    {
        let cpu = match self {
            Driver::Amd(driver) => driver.current(snapshot)?,
            Driver::Intel(driver) => driver.current(snapshot)?,
            Driver::CpuFreq(driver) => driver.current(snapshot)?,
            Driver::Dummy(driver) => driver.current(),
        };
        Ok(InferredPowerProfile { cpu: Some(cpu) })
    }

    /// Whether an activation leaves the boost switch alone although the
    /// profile sets it.
    pub fn skips_boost(&self) -> (skipped: bool)
        ensures
            skipped == self@.skips_boost(),
    {
        match self {
            Driver::Amd(driver) => driver.skips_boost(),
            _ => false,
        }
    }

    /// The backend's name.
    pub fn name(&self) -> (name: String)
        ensures
            name@ == self@.name(),
    {
        match self {
            Driver::Amd(driver) => String::from_str(driver.name()),
            Driver::Intel(driver) => driver.name(),
            Driver::CpuFreq(driver) => String::from_str(driver.name()),
            Driver::Dummy(driver) => driver.name(),
        }
    }

    /// The files to read before `activate` and `current` are asked.
    pub fn nodes(&self) -> (nodes: Vec<Node>)
        ensures
            nodes@ == self@.nodes(),
    {
        let mut nodes: Vec<Node> = Vec::new();
        match self {
            Driver::Amd(_) => {
                nodes.push(Node::OnlineCpus);
                nodes.push(Node::Boost);
                push_state_nodes(&mut nodes, 0);
                assert(nodes@ =~= self@.nodes());
            },
            Driver::Intel(_) => {
                nodes.push(Node::OnlineCpus);
                nodes.push(Node::NoTurbo);
                push_state_nodes(&mut nodes, 0);
                assert(nodes@ =~= self@.nodes());
            },
            Driver::CpuFreq(driver) => {
                nodes.push(Node::Boost);
                let ghost policies = driver@.policies;
                let mut i: usize = 0;
                assert(policies.take(0) =~= Seq::<cpu::PolicyView>::empty());
                assert(nodes@ =~= seq![Node::Boost] + policies_nodes(policies.take(0)));
                while i < driver.policies.len()
                    invariant
                        i <= driver.policies.len(),
                        policies == driver@.policies,
                        nodes@ == seq![Node::Boost] + policies_nodes(policies.take(i as int)),
                    decreases driver.policies.len() - i,
                {
                    let ghost upto = policies.take(i + 1);
                    assert(upto.drop_last() =~= policies.take(i as int));
                    assert(upto.last() == driver.policies@[i as int]@);
                    push_state_nodes(&mut nodes, driver.policies[i].cpu_id);
                    assert(nodes@ =~= seq![Node::Boost] + policies_nodes(upto));
                    i += 1;
                }
                assert(policies.take(driver.policies.len() as int) =~= policies);
            },
            Driver::Dummy(_) => {},
        }
        nodes
    }
}

/// The backends that were chosen for this machine.
#[derive(Debug, PartialEq, Eq)]
pub struct DriverSet {
    pub cpu: Driver,
}

impl DriverSet {
    /// The writes that activate `power_profile`.
    pub fn activate(&self, power_profile: &PowerProfile, snapshot: &Snapshot) -> (plan: Result<
        Plan,
        Error,
    >)
        ensures
            agrees(plan, self.cpu@.plan_of(power_profile@.cpu, snapshot@)),
    {
        self.cpu.activate(power_profile, snapshot)
    }
}

/// Whether a request for the backend `requested` is met by the backend
/// `name`: `auto` asks for any, a name for the backend of that name.
pub open spec fn accepts(requested: Seq<char>, name: Seq<char>) -> bool {
    requested == "auto"@ || requested == name
}

/// The CPU settings of each profile of a catalog, under the profile's name.
pub open spec fn cpu_profiles(settings: SettingsView) -> Seq<PowerProfileView> {
    settings.profiles.map_values(
        |profile: crate::types::PowerProfileView|
            PowerProfileView { name: Some(profile.name), ..profile.cpu },
    )
}

/// The backend that is chosen for the machine that a store describes: the
/// first that drives the machine and meets the request, in the order AMD
/// P-State, Intel P-State, generic, dummy. A backend that declines, or whose
/// probe fails, is passed over.
pub open spec fn selected(requested: Seq<char>, settings: SettingsView, store: Store) -> Result<
    DriverView,
    Error,
> {
    let amd = cpu::amd::probed(cpu_profiles(settings), store);
    let intel = cpu::intel::probed(store);
    let generic = cpu::driver_of(store);
    if amd is Ok && accepts(requested, amd->Ok_0.name) {
        Ok(DriverView::Amd(amd->Ok_0))
    } else if intel is Ok && accepts(requested, "intel_pstate"@) {
        Ok(DriverView::Intel(intel->Ok_0))
    } else if generic is Ok && accepts(requested, "cpufreq"@) {
        Ok(DriverView::CpuFreq(generic->Ok_0))
    } else if accepts(requested, "dummy"@) {
        Ok(DriverView::Dummy)
    } else {
        Err(Error::NoDriverAvailable)
    }
}

fn accepted(requested: &str, name: &str) -> (met: bool)
    ensures
        met == accepts(requested@, name@),
{
    same_text(requested, "auto") || same_text(requested, name)
}

fn profiles_of(settings: &Settings) -> (profiles: Vec<cpu::types::PowerProfile>)
    ensures
        cpu::amd::views_of(profiles@) == cpu_profiles(settings@),
{
    let catalog = settings.profiles();
    let ghost expected = cpu_profiles(settings@);
    let mut profiles: Vec<cpu::types::PowerProfile> = Vec::new();
    let mut i: usize = 0;
    while i < catalog.len()
        invariant
            i <= catalog.len(),
            crate::settings::views_of(catalog@) == settings@.profiles,
            expected == cpu_profiles(settings@),
            profiles.len() == i,
            forall|k: int| 0 <= k < i ==> (#[trigger] profiles@[k])@ == expected[k],
        decreases catalog.len() - i,
    {
        assert(settings@.profiles[i as int] == catalog@[i as int]@);
        profiles.push(cpu::types::PowerProfile::from(catalog[i].clone()));
        i += 1;
    }
    assert(cpu::amd::views_of(profiles@) =~= expected);
    profiles
}

/// A kind of backend that is probed.
#[derive(Clone, Copy, Debug, PartialEq, Eq, Structural)]
pub enum Candidate {
    Amd,
    Intel,
    CpuFreq,
    Dummy,
}

/// The failure of a candidate's probe, if it failed.
pub open spec fn failure_of<T>(candidate: Candidate, probed: Result<T, Error>) -> Seq<
    (Candidate, Error),
> {
    match probed {
        Ok(_) => Seq::empty(),
        Err(error) => seq![(candidate, error)],
    }
}

/// The probes that failed before the backend was chosen, each with its
/// failure, in the order in which the candidates are probed. A candidate
/// that stands behind the one chosen is not probed.
pub open spec fn failed_probes(requested: Seq<char>, settings: SettingsView, store: Store) -> Seq<
    (Candidate, Error),
> {
    let amd = cpu::amd::probed(cpu_profiles(settings), store);
    let intel = cpu::intel::probed(store);
    let generic = cpu::driver_of(store);
    if amd is Ok && accepts(requested, amd->Ok_0.name) {
        Seq::empty()
    } else if intel is Ok && accepts(requested, "intel_pstate"@) {
        failure_of(Candidate::Amd, amd)
    } else if generic is Ok && accepts(requested, "cpufreq"@) {
        failure_of(Candidate::Amd, amd) + failure_of(Candidate::Intel, intel)
    } else {
        failure_of(Candidate::Amd, amd) + failure_of(Candidate::Intel, intel) + failure_of(
            Candidate::CpuFreq,
            generic,
        )
    }
}

fn select(settings: &Settings, requested_name: &str, snapshot: &Snapshot) -> (chosen: (
    Result<DriverSet, Error>,
    Vec<(Candidate, Error)>,
))
    ensures
        match chosen.0 {
            Ok(drivers) => selected(requested_name@, settings@, snapshot@) == Ok::<
                DriverView,
                Error,
            >(drivers.cpu@),
            Err(error) => selected(requested_name@, settings@, snapshot@) == Err::<
                DriverView,
                Error,
            >(error),
        },
        chosen.1@ == failed_probes(requested_name@, settings@, snapshot@),
{
    let profiles = profiles_of(settings);
    let mut failures: Vec<(Candidate, Error)> = Vec::new();
    let ghost amd = cpu::amd::probed(cpu_profiles(settings@), snapshot@);
    let ghost intel = cpu::intel::probed(snapshot@);
    let ghost generic = cpu::driver_of(snapshot@);
    match cpu::amd::probe(&profiles, snapshot) {
        Ok(driver) => {
            if accepted(requested_name, driver.name()) {
                return (Ok(DriverSet { cpu: Driver::Amd(driver) }), failures);
            }
        },
        Err(error) => {
            failures.push((Candidate::Amd, error));
        },
    }
    assert(failures@ =~= failure_of(Candidate::Amd, amd));
    match cpu::intel::probe(snapshot) {
        Ok(driver) => {
            if accepted(requested_name, "intel_pstate") {
                return (Ok(DriverSet { cpu: Driver::Intel(driver) }), failures);
            }
        },
        Err(error) => {
            failures.push((Candidate::Intel, error));
        },
    }
    assert(failures@ =~= failure_of(Candidate::Amd, amd) + failure_of(Candidate::Intel, intel));
    match cpu::probe(&profiles, snapshot) {
        Ok(driver) => {
            if accepted(requested_name, "cpufreq") {
                return (Ok(DriverSet { cpu: Driver::CpuFreq(driver) }), failures);
            }
        },
        Err(error) => {
            failures.push((Candidate::CpuFreq, error));
        },
    }
    assert(failures@ =~= failure_of(Candidate::Amd, amd) + failure_of(Candidate::Intel, intel)
        + failure_of(Candidate::CpuFreq, generic));
    if accepted(requested_name, "dummy") {
        return (Ok(DriverSet { cpu: Driver::Dummy(cpu::dummy::probe(&profiles)) }), failures);
    }
    (Err(Error::NoDriverAvailable), failures)
}

/// Chooses the backend for this machine, from what the files of
/// `probe_nodes` hold. `requested_name` is `auto` or the name of a backend.
/// Fails with `NoDriverAvailable` where no backend drives the machine under
/// that name.
pub fn probe(settings: &Settings, requested_name: &str, snapshot: &Snapshot) -> (drivers: Result<
    DriverSet,
    Error,
>)
    ensures
        match drivers {
            Ok(drivers) => selected(requested_name@, settings@, snapshot@) == Ok::<
                DriverView,
                Error,
            >(drivers.cpu@),
            Err(error) => selected(requested_name@, settings@, snapshot@) == Err::<
                DriverView,
                Error,
            >(error),
        },
{
    select(settings, requested_name, snapshot).0
}

/// The probes that failed on the way to the choice that `probe` makes, each
/// with its failure, in the order in which the candidates are probed.
pub fn probe_failures(settings: &Settings, requested_name: &str, snapshot: &Snapshot) -> (failures:
    Vec<(Candidate, Error)>)
    ensures
        failures@ == failed_probes(requested_name@, settings@, snapshot@),
{
    select(settings, requested_name, snapshot).1
}

/// The files that hold what a policy is read from, in the order in which
/// they are read.
pub open spec fn policy_properties() -> Seq<PolicyProperty> {
    seq![
        PolicyProperty::AffectedCpus,
        PolicyProperty::CpuinfoMaxFreq,
        PolicyProperty::CpuinfoMinFreq,
        PolicyProperty::CpuinfoTransitionLatency,
        PolicyProperty::EnergyPerformanceAvailablePreferences,
        PolicyProperty::EnergyPerformancePreference,
        PolicyProperty::RelatedCpus,
        PolicyProperty::ScalingAvailableGovernors,
        PolicyProperty::ScalingDriver,
        PolicyProperty::ScalingCurFreq,
        PolicyProperty::ScalingGovernor,
        PolicyProperty::ScalingMinFreq,
        PolicyProperty::ScalingMaxFreq,
    ]
}

/// The files that hold what the policy of CPU `cpu_id` is read from.
pub open spec fn policy_nodes(cpu_id: u32) -> Seq<Node> {
    Seq::new(
        policy_properties().len(),
        |i: int| cpu::policy_node(cpu_id, policy_properties()[i]),
    )
}

/// The files that `probe` reads on a machine with the online CPUs `online`.
pub open spec fn nodes_to_probe(online: Seq<u32>) -> Seq<Node>
    decreases online.len(),
{
    if online.len() == 0 {
        seq![
            cpu::marker_node(),
            Node::AmdStatus,
            Node::IntelStatus,
            Node::OnlineCpus,
        ]
    } else {
        nodes_to_probe(online.drop_last()) + policy_nodes(online.last())
    }
}

/// The files to read before `probe` is asked, on a machine with the online
/// CPUs `online`.
pub fn probe_nodes(online: &Vec<u32>) -> (nodes: Vec<Node>)
    ensures
        nodes@ == nodes_to_probe(online@),
{
    let mut properties: Vec<PolicyProperty> = Vec::new();
    properties.push(PolicyProperty::AffectedCpus);
    properties.push(PolicyProperty::CpuinfoMaxFreq);
    properties.push(PolicyProperty::CpuinfoMinFreq);
    properties.push(PolicyProperty::CpuinfoTransitionLatency);
    properties.push(PolicyProperty::EnergyPerformanceAvailablePreferences);
    properties.push(PolicyProperty::EnergyPerformancePreference);
    properties.push(PolicyProperty::RelatedCpus);
    properties.push(PolicyProperty::ScalingAvailableGovernors);
    properties.push(PolicyProperty::ScalingDriver);
    properties.push(PolicyProperty::ScalingCurFreq);
    properties.push(PolicyProperty::ScalingGovernor);
    properties.push(PolicyProperty::ScalingMinFreq);
    properties.push(PolicyProperty::ScalingMaxFreq);
    assert(properties@ =~= policy_properties());
    let mut nodes: Vec<Node> = Vec::new();
    nodes.push(Node::policy(0, PolicyProperty::ScalingDriver));
    nodes.push(Node::AmdStatus);
    nodes.push(Node::IntelStatus);
    nodes.push(Node::OnlineCpus);
    let mut i: usize = 0;
    assert(online@.take(0) =~= Seq::<u32>::empty());
    assert(nodes@ =~= nodes_to_probe(online@.take(0)));
    while i < online.len()
        invariant
            i <= online.len(),
            properties@ == policy_properties(),
            nodes@ == nodes_to_probe(online@.take(i as int)),
        decreases online.len() - i,
    {
        let ghost before = nodes@;
        let ghost upto = online@.take(i + 1);
        assert(upto.drop_last() =~= online@.take(i as int));
        assert(upto.last() == online@[i as int]);
        let mut p: usize = 0;
        while p < properties.len()
            invariant
                p <= properties.len(),
                i < online.len(),
                properties@ == policy_properties(),
                nodes@ == before + policy_nodes(online@[i as int]).take(p as int),
            decreases properties.len() - p,
        {
            nodes.push(Node::policy(online[i], properties[p]));
            assert(nodes@ =~= before + policy_nodes(online@[i as int]).take(p + 1));
            p += 1;
        }
        assert(policy_nodes(online@[i as int]).take(properties.len() as int) =~= policy_nodes(
            online@[i as int],
        ));
        i += 1;
    }
    assert(online@.take(online.len() as int) =~= online@);
    nodes
}

} // verus!
