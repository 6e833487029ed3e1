//! What a backend infers after its own writes: the state that the profile
//! asked for.

use crate::error::Error;
use crate::plan::{
    groups_agree, groups_touch, lemma_written_groups_agreed, writes_agree, writes_touch,
    written_groups,
};
use crate::sysfs::{
    lemma_setting_reads_back, Node, PolicyProperty, read, read_flag, reads_back, Setting, Store,
    Write,
};
use super::DriverView;
use super::cpu::{boost_write, cpu_state_of, cpu_states_of, cpu_writes, policy_node, PolicyView};
use super::cpu::types::{
    CpuPowerProfile, CpuState, find_override, InferredPowerProfileView, PowerProfileView,
};
use super::cpu::utils::{frequency_to_write, online_ids};
use vstd::prelude::*;

verus! {

/// Whether `state` is what `profile` asks for, frequency limits included:
/// the state matches the profile, and each frequency limit is the one that
/// is written for the profile.
pub open spec fn reflects(state: InferredPowerProfileView, profile: PowerProfileView) -> bool {
    &&& state.matches(profile)
    &&& if profile.overrides.len() > 0 && state.cpus.len() > 0 {
        forall|i: int|
            0 <= i < state.cpus.len() ==> (#[trigger] state.cpus[i]).maximum_frequency
                == frequency_to_write(
                profile.cpu_power_profile(state.cpus[i].cpu_id).maximum_frequency,
            )
    } else {
        state.maximum_frequency == frequency_to_write(profile.maximum_frequency)
    }
}

/// Whether the backend writes all that it reads back on the machine that a
/// store describes: it is no dry run; a P-State backend finds CPU 0 among
/// the online CPUs, and AMD's is in a mode that can set the boost switch;
/// the generic backend has a policy. The dummy backend writes nothing.
pub open spec fn writes_what_it_reads(driver: DriverView, store: Store) -> bool {
    match driver {
        DriverView::Amd(driver) => {
            &&& !driver.dry_run
            &&& driver.status.spec_boost_supported()
            &&& online_ids(store) is Ok
            &&& online_ids(store)->Ok_0.contains(0)
        },
        DriverView::Intel(driver) => {
            &&& !driver.dry_run
            &&& online_ids(store) is Ok
            &&& online_ids(store)->Ok_0.contains(0)
        },
        DriverView::CpuFreq(driver) => !driver.dry_run && driver.policies.len() > 0,
        DriverView::Dummy => false,
    }
}

/// Whether `property` is one of the three files that hold a CPU's state.
pub open spec fn is_state_property(property: PolicyProperty) -> bool {
    ||| property == PolicyProperty::ScalingGovernor
    ||| property == PolicyProperty::EnergyPerformancePreference
    ||| property == PolicyProperty::ScalingMaxFreq
}

/// The value that is written to the file `property` of a CPU to bring it to
/// `target`.
pub open spec fn target_setting(target: CpuPowerProfile, property: PolicyProperty) -> Setting {
    if property == PolicyProperty::ScalingGovernor {
        Setting::Governor(target.scaling_governor)
    } else if property == PolicyProperty::EnergyPerformancePreference {
        Setting::EnergyPreference(target.energy_preference)
    } else {
        Setting::Frequency(frequency_to_write(target.maximum_frequency))
    }
}

/// The writes for one CPU go to its three state files, and carry the
/// target's values.
proof fn lemma_cpu_writes(
    cpu_id: u32,
    target: CpuPowerProfile,
    node: Node,
)
    ensures
        node is Policy && node->cpu_id == cpu_id && is_state_property(node->property)
            ==> writes_touch(cpu_writes(cpu_id, target), node) && writes_agree(
            cpu_writes(cpu_id, target),
            node,
            target_setting(target, node->property).spec_text(),
        ),
        !(node is Policy && node->cpu_id == cpu_id && is_state_property(node->property))
            ==> !writes_touch(cpu_writes(cpu_id, target), node),
{
    let writes = cpu_writes(cpu_id, target);
    assert(writes.len() == 3);
    assert(writes[0].node == policy_node(cpu_id, PolicyProperty::ScalingGovernor));
    assert(writes[1].node == policy_node(cpu_id, PolicyProperty::EnergyPerformancePreference));
    assert(writes[2].node == policy_node(cpu_id, PolicyProperty::ScalingMaxFreq));
}

/// After the writes of `groups`, a file that they all agree on, and that one
/// of them goes to, reads back as the setting written.
proof fn lemma_reads_back(store: Store, groups: Seq<Seq<Write>>, node: Node, setting: Setting)
    requires
        groups_agree(groups, node, setting.spec_text()),
        groups_touch(groups, node),
    ensures
        written_groups(store, groups).contains_key(node),
        read(written_groups(store, groups), node) == Ok::<Seq<char>, Error>(setting.spec_text()),
        reads_back(setting, setting.spec_text()),
{
    lemma_written_groups_agreed(store, groups, node, setting.spec_text());
    lemma_setting_reads_back(setting);
}

/// The groups that bring every CPU of `targets` to its target agree on each
/// state file, and go to the state files of the CPUs among them.
proof fn lemma_groups(
    lead: Seq<Seq<Write>>,
    cpus: Seq<u32>,
    targets: spec_fn(u32) -> CpuPowerProfile,
    cpu_id: u32,
    property: PolicyProperty,
)
    requires
        is_state_property(property),
        forall|g: int| 0 <= g < lead.len() ==> !writes_touch(
            #[trigger] lead[g],
            policy_node(cpu_id, property),
        ),
    ensures
        groups_agree(
            lead + Seq::new(cpus.len(), |i: int| cpu_writes(cpus[i], targets(cpus[i]))),
            policy_node(cpu_id, property),
            target_setting(targets(cpu_id), property).spec_text(),
        ),
        cpus.contains(cpu_id) ==> groups_touch(
            lead + Seq::new(cpus.len(), |i: int| cpu_writes(cpus[i], targets(cpus[i]))),
            policy_node(cpu_id, property),
        ),
{
    let node = policy_node(cpu_id, property);
    let text = target_setting(targets(cpu_id), property).spec_text();
    let rest = Seq::new(cpus.len(), |i: int| cpu_writes(cpus[i], targets(cpus[i])));
    let groups = lead + rest;
    assert forall|g: int| 0 <= g < groups.len() implies writes_agree(
        #[trigger] groups[g],
        node,
        text,
    ) by {
        if g < lead.len() {
            assert(groups[g] == lead[g]);
            assert(!writes_touch(lead[g], node));
        } else {
            let i = g - lead.len();
            assert(groups[g] == rest[i]);
            lemma_cpu_writes(cpus[i], targets(cpus[i]), node);
        }
    }
    if cpus.contains(cpu_id) {
        let i = choose|i: int| 0 <= i < cpus.len() && cpus[i] == cpu_id;
        assert(groups[lead.len() + i] == rest[i]);
        lemma_cpu_writes(cpu_id, targets(cpu_id), node);
        assert(writes_touch(groups[lead.len() + i], node));
    }
}

/// After the writes of a plan that brings the CPU `cpu_id` to its target,
/// the CPU's state reads back as the target.
proof fn lemma_cpu_reads_back(
    store: Store,
    lead: Seq<Seq<Write>>,
    cpus: Seq<u32>,
    targets: spec_fn(u32) -> CpuPowerProfile,
    cpu_id: u32,
)
    requires
        cpus.contains(cpu_id),
        forall|g: int, property: PolicyProperty|
            0 <= g < lead.len() ==> !writes_touch(
                #[trigger] lead[g],
                #[trigger] policy_node(cpu_id, property),
            ),
    ensures
        cpu_state_of(
            written_groups(
                store,
                lead + Seq::new(cpus.len(), |i: int| cpu_writes(cpus[i], targets(cpus[i]))),
            ),
            cpu_id,
        ) == Ok::<CpuState, Error>(
            CpuState {
                cpu_id: cpu_id,
                energy_preference: targets(cpu_id).energy_preference,
                scaling_governor: targets(cpu_id).scaling_governor,
                maximum_frequency: frequency_to_write(targets(cpu_id).maximum_frequency),
            },
        ),
{
    let groups = lead + Seq::new(cpus.len(), |i: int| cpu_writes(cpus[i], targets(cpus[i])));
    let target = targets(cpu_id);
    lemma_groups(lead, cpus, targets, cpu_id, PolicyProperty::ScalingGovernor);
    lemma_reads_back(
        store,
        groups,
        policy_node(cpu_id, PolicyProperty::ScalingGovernor),
        target_setting(target, PolicyProperty::ScalingGovernor),
    );
    lemma_groups(lead, cpus, targets, cpu_id, PolicyProperty::EnergyPerformancePreference);
    lemma_reads_back(
        store,
        groups,
        policy_node(cpu_id, PolicyProperty::EnergyPerformancePreference),
        target_setting(target, PolicyProperty::EnergyPerformancePreference),
    );
    lemma_groups(lead, cpus, targets, cpu_id, PolicyProperty::ScalingMaxFreq);
    lemma_reads_back(
        store,
        groups,
        policy_node(cpu_id, PolicyProperty::ScalingMaxFreq),
        target_setting(target, PolicyProperty::ScalingMaxFreq),
    );
}

/// After the single write of a switch in a group of its own, before groups
/// that leave the switch alone, the switch reads back as written.
proof fn lemma_switch_reads_back(
    store: Store,
    node: Node,
    on: bool,
    cpus: Seq<u32>,
    targets: spec_fn(u32) -> CpuPowerProfile,
)
    requires
        node == Node::Boost || node == Node::NoTurbo,
    ensures
        ({
            let write = Write { node: node, value: Setting::Flag(on) };
            let groups = seq![seq![write]] + Seq::new(
                cpus.len(),
                |i: int| cpu_writes(cpus[i], targets(cpus[i])),
            );
            &&& written_groups(store, groups).contains_key(node)
            &&& read_flag(written_groups(store, groups), node) == Ok::<bool, Error>(on)
        }),
{
    let write = Write { node: node, value: Setting::Flag(on) };
    let lead = seq![seq![write]];
    let rest = Seq::new(cpus.len(), |i: int| cpu_writes(cpus[i], targets(cpus[i])));
    let groups = lead + rest;
    let text = Setting::Flag(on).spec_text();
    assert forall|g: int| 0 <= g < groups.len() implies writes_agree(
        #[trigger] groups[g],
        node,
        text,
    ) by {
        if g >= 1 {
            assert(groups[g] == rest[g - 1]);
            lemma_cpu_writes(cpus[g - 1], targets(cpus[g - 1]), node);
        } else {
            assert(groups[g] == lead[0]);
        }
    }
    assert(groups[0] == lead[0]);
    assert(lead[0][0].node == node);
    assert(writes_touch(groups[0], node));
    lemma_reads_back(store, groups, node, Setting::Flag(on));
}

/// The plan of a P-State backend leads with a group that leaves the policy
/// files alone.
proof fn lemma_lead_leaves_policies(write: Write, cpu_id: u32)
    requires
        write.node == Node::Boost || write.node == Node::NoTurbo,
    ensures
        forall|g: int, property: PolicyProperty|
            0 <= g < seq![seq![write]].len() ==> !writes_touch(
                #[trigger] seq![seq![write]][g],
                #[trigger] policy_node(cpu_id, property),
            ),
{
    assert forall|g: int, property: PolicyProperty| 0 <= g < seq![seq![write]].len() implies 
        !writes_touch(#[trigger] seq![seq![write]][g], #[trigger] policy_node(cpu_id, property)) by {
        let group = seq![seq![write]][g];
        assert(group.len() == 1);
        assert(group[0] == write);
    }
}

/// The state of a CPU that was brought to `target`.
pub open spec fn state_at(cpu_id: u32, target: CpuPowerProfile) -> CpuState {
    CpuState {
        cpu_id: cpu_id,
        energy_preference: target.energy_preference,
        scaling_governor: target.scaling_governor,
        maximum_frequency: frequency_to_write(target.maximum_frequency),
    }
}

/// Where each CPU reads back as its target, so does the list of them.
proof fn lemma_cpu_states(
    store: Store,
    policies: Seq<PolicyView>,
    targets: spec_fn(u32) -> CpuPowerProfile,
    n: int,
)
    requires
        0 <= n <= policies.len(),
        forall|i: int|
            0 <= i < policies.len() ==> cpu_state_of(store, (#[trigger] policies[i]).cpu_id)
                == Ok::<CpuState, Error>(state_at(policies[i].cpu_id, targets(policies[i].cpu_id))),
    ensures
        cpu_states_of(store, policies.take(n)) == Ok::<Seq<CpuState>, Error>(
            Seq::new(
                n as nat,
                |i: int| state_at(policies[i].cpu_id, targets(policies[i].cpu_id)),
            ),
        ),
    decreases n,
{
    let expected = Seq::new(
        n as nat,
        |i: int| state_at(policies[i].cpu_id, targets(policies[i].cpu_id)),
    );
    if n == 0 {
        assert(expected =~= Seq::<CpuState>::empty());
    } else {
        lemma_cpu_states(store, policies, targets, n - 1);
        let upto = policies.take(n);
        assert(upto.drop_last() =~= policies.take(n - 1));
        assert(upto.last() == policies[n - 1]);
        let before = Seq::new(
            (n - 1) as nat,
            |i: int| state_at(policies[i].cpu_id, targets(policies[i].cpu_id)),
        );
        assert(before.push(state_at(policies[n - 1].cpu_id, targets(policies[n - 1].cpu_id)))
            =~= expected);
    }
}

/// Activation, then inference: on a machine where the backend writes all
/// that it reads back, the state that it infers after the writes of its own
/// plan for a profile is the state that the profile asks for.
pub proof fn lemma_activation_is_inferred(
    driver: DriverView,
    profile: PowerProfileView,
    store: Store,
)
    requires
        writes_what_it_reads(driver, store),
    ensures
        driver.plan_of(profile, store) is Ok,
        driver.state_of(written_groups(store, driver.plan_of(profile, store)->Ok_0)) is Ok,
        reflects(
            driver.state_of(written_groups(store, driver.plan_of(profile, store)->Ok_0))->Ok_0,
            profile,
        ),
{
    match driver {
        DriverView::Amd(amd) => {
            let ids = online_ids(store)->Ok_0;
            let target = profile.defaults();
            let targets = |cpu_id: u32| target;
            let write = boost_write(profile.boost);
            let lead = seq![seq![write]];
            let groups = lead + Seq::new(ids.len(), |i: int| cpu_writes(ids[i], targets(ids[i])));
            assert(groups =~= driver.plan_of(profile, store)->Ok_0);
            lemma_switch_reads_back(store, Node::Boost, profile.boost, ids, targets);
            lemma_lead_leaves_policies(write, 0);
            lemma_cpu_reads_back(store, lead, ids, targets, 0);
        },
        DriverView::Intel(intel) => {
            let ids = online_ids(store)->Ok_0;
            let target = profile.defaults();
            let targets = |cpu_id: u32| target;
            let write = super::cpu::intel::pstate::turbo_write(profile.boost);
            let lead = seq![seq![write]];
            let groups = lead + Seq::new(ids.len(), |i: int| cpu_writes(ids[i], targets(ids[i])));
            assert(groups =~= driver.plan_of(profile, store)->Ok_0);
            lemma_switch_reads_back(store, Node::NoTurbo, !profile.boost, ids, targets);
            lemma_lead_leaves_policies(write, 0);
            lemma_cpu_reads_back(store, lead, ids, targets, 0);
        },
        DriverView::CpuFreq(generic) => {
            let policies = generic.policies;
            let ids = Seq::new(policies.len(), |i: int| policies[i].cpu_id);
            let targets = |cpu_id: u32| profile.cpu_power_profile(cpu_id);
            let write = boost_write(profile.boost);
            let lead = seq![seq![write]];
            let groups = lead + Seq::new(ids.len(), |i: int| cpu_writes(ids[i], targets(ids[i])));
            assert(groups =~= driver.plan_of(profile, store)->Ok_0);
            let after = written_groups(store, groups);
            lemma_switch_reads_back(store, Node::Boost, profile.boost, ids, targets);
            assert forall|i: int| 0 <= i < policies.len() implies cpu_state_of(
                after,
                (#[trigger] policies[i]).cpu_id,
            ) == Ok::<CpuState, Error>(
                state_at(policies[i].cpu_id, targets(policies[i].cpu_id)),
            ) by {
                assert(ids[i] == policies[i].cpu_id);
                lemma_lead_leaves_policies(write, policies[i].cpu_id);
                lemma_cpu_reads_back(store, lead, ids, targets, policies[i].cpu_id);
            }
            lemma_cpu_states(after, policies, targets, policies.len() as int);
            assert(policies.take(policies.len() as int) =~= policies);
            let state = generic.state_of(after)->Ok_0;
            assert(state.cpus[0] == state_at(policies[0].cpu_id, targets(policies[0].cpu_id)));
            if profile.overrides.len() == 0 {
                assert(find_override(profile.overrides, policies[0].cpu_id) is None);
            } else {
                assert forall|i: int| 0 <= i < state.cpus.len() implies state.cpu_matches(
                    profile,
                    i,
                ) by {
                    assert(state.cpus[i] == state_at(
                        policies[i].cpu_id,
                        targets(policies[i].cpu_id),
                    ));
                }
            }
        },
        DriverView::Dummy => {},
    }
}

} // verus!
