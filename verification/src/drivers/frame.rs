//! The files that decide: a backend plans and infers from the files it
//! names, and from no other.

use crate::settings::SettingsView;
use crate::sysfs::{Node, Store};
use super::{
    DriverView, nodes_to_probe, policies_nodes, policy_nodes, policy_properties, selected,
    state_nodes,
};
use super::cpu::{cpu_state_of, cpu_states_of, policies_of, policy_of, PolicyView};
use super::cpu::types::PowerProfileView;
use super::cpu::utils::online_ids;
use vstd::prelude::*;

verus! {

/// Whether two stores hold the same in the file `node`: both lack it, or
/// both have it with the same text.
pub open spec fn same_at(a: Store, b: Store, node: Node) -> bool {
    &&& a.contains_key(node) == b.contains_key(node)
    &&& a.contains_key(node) ==> a[node] == b[node]
}

/// Whether two stores hold the same in each file of `nodes`.
pub open spec fn agree_on(a: Store, b: Store, nodes: Seq<Node>) -> bool {
    forall|i: int| 0 <= i < nodes.len() ==> same_at(a, b, #[trigger] nodes[i])
}

/// The state of a CPU is read from its three state files.
proof fn lemma_cpu_state_decided(a: Store, b: Store, cpu_id: u32)
    requires
        agree_on(a, b, state_nodes(cpu_id)),
    ensures
        cpu_state_of(a, cpu_id) == cpu_state_of(b, cpu_id),
{
    let nodes = state_nodes(cpu_id);
    assert(same_at(a, b, nodes[0]));
    assert(same_at(a, b, nodes[1]));
    assert(same_at(a, b, nodes[2]));
}

/// The files of a list of policies are the state files of each, in order.
proof fn lemma_policies_nodes(policies: Seq<PolicyView>, i: int, k: int)
    requires
        0 <= i < policies.len(),
        0 <= k < 3,
    ensures
        policies_nodes(policies).len() == 3 * policies.len(),
        policies_nodes(policies)[3 * i + k] == state_nodes(policies[i].cpu_id)[k],
    decreases policies.len(),
{
    let front = policies.drop_last();
    lemma_policies_len(front);
    if i < policies.len() - 1 {
        lemma_policies_nodes(front, i, k);
        assert(front[i] == policies[i]);
    }
}

proof fn lemma_policies_len(policies: Seq<PolicyView>)
    ensures
        policies_nodes(policies).len() == 3 * policies.len(),
    decreases policies.len(),
{
    if policies.len() > 0 {
        lemma_policies_len(policies.drop_last());
    }
}

/// The states of the CPUs of a list of policies are read from the files of
/// the policies.
proof fn lemma_cpu_states_decided(a: Store, b: Store, policies: Seq<PolicyView>, n: int)
    requires
        0 <= n <= policies.len(),
        forall|i: int|
            0 <= i < policies.len() ==> agree_on(
                a,
                b,
                state_nodes((#[trigger] policies[i]).cpu_id),
            ),
    ensures
        cpu_states_of(a, policies.take(n)) == cpu_states_of(b, policies.take(n)),
    decreases n,
{
    if n > 0 {
        lemma_cpu_states_decided(a, b, policies, n - 1);
        let upto = policies.take(n);
        assert(upto.drop_last() =~= policies.take(n - 1));
        assert(upto.last() == policies[n - 1]);
        lemma_cpu_state_decided(a, b, policies[n - 1].cpu_id);
    }
}

/// The files that a backend names decide what it plans and infers: on two
/// machines that hold the same in these files, the backend infers the same
/// state and plans the same writes for a profile.
pub proof fn lemma_nodes_decide(driver: DriverView, profile: PowerProfileView, a: Store, b: Store)
    requires
        agree_on(a, b, driver.nodes()),
    ensures
        driver.state_of(a) == driver.state_of(b),
        driver.plan_of(profile, a) == driver.plan_of(profile, b),
{
    let nodes = driver.nodes();
    match driver {
        DriverView::Amd(_) => {
            assert(same_at(a, b, nodes[0]));
            assert(same_at(a, b, nodes[1]));
            assert(same_at(a, b, nodes[2]));
            assert(same_at(a, b, nodes[3]));
            assert(same_at(a, b, nodes[4]));
        },
        DriverView::Intel(_) => {
            assert(same_at(a, b, nodes[0]));
            assert(same_at(a, b, nodes[1]));
            assert(same_at(a, b, nodes[2]));
            assert(same_at(a, b, nodes[3]));
            assert(same_at(a, b, nodes[4]));
        },
        DriverView::CpuFreq(generic) => {
            let policies = generic.policies;
            assert(same_at(a, b, nodes[0]));
            lemma_policies_len(policies);
            assert forall|i: int| 0 <= i < policies.len() implies agree_on(
                a,
                b,
                state_nodes((#[trigger] policies[i]).cpu_id),
            ) by {
                let files = state_nodes(policies[i].cpu_id);
                assert forall|k: int| 0 <= k < files.len() implies same_at(
                    a,
                    b,
                    #[trigger] files[k],
                ) by {
                    lemma_policies_nodes(policies, i, k);
                    assert(nodes[1 + 3 * i + k] == policies_nodes(policies)[3 * i + k]);
                }
            }
            lemma_cpu_states_decided(a, b, policies, policies.len() as int);
            assert(policies.take(policies.len() as int) =~= policies);
        },
        DriverView::Dummy => {},
    }
}

/// A policy is read from its thirteen files.
proof fn lemma_policy_decided(a: Store, b: Store, cpu_id: u32)
    requires
        agree_on(a, b, policy_nodes(cpu_id)),
    ensures
        policy_of(a, cpu_id) == policy_of(b, cpu_id),
{
    let nodes = policy_nodes(cpu_id);
    assert(policy_properties().len() == 13);
    assert(same_at(a, b, nodes[0]));
    assert(same_at(a, b, nodes[1]));
    assert(same_at(a, b, nodes[2]));
    assert(same_at(a, b, nodes[3]));
    assert(same_at(a, b, nodes[4]));
    assert(same_at(a, b, nodes[5]));
    assert(same_at(a, b, nodes[6]));
    assert(same_at(a, b, nodes[7]));
    assert(same_at(a, b, nodes[8]));
    assert(same_at(a, b, nodes[9]));
    assert(same_at(a, b, nodes[10]));
    assert(same_at(a, b, nodes[11]));
    assert(same_at(a, b, nodes[12]));
}

/// The policies of a list of CPUs are read from the files of each.
proof fn lemma_policies_decided(a: Store, b: Store, ids: Seq<u32>, n: int)
    requires
        0 <= n <= ids.len(),
        forall|i: int| 0 <= i < ids.len() ==> agree_on(a, b, policy_nodes(#[trigger] ids[i])),
    ensures
        policies_of(a, ids.take(n)) == policies_of(b, ids.take(n)),
    decreases n,
{
    if n > 0 {
        lemma_policies_decided(a, b, ids, n - 1);
        let upto = ids.take(n);
        assert(upto.drop_last() =~= ids.take(n - 1));
        assert(upto.last() == ids[n - 1]);
        lemma_policy_decided(a, b, ids[n - 1]);
    }
}

/// The files to probe are the four marks, then the files of the policy of
/// each online CPU, in order.
proof fn lemma_nodes_to_probe(online: Seq<u32>)
    ensures
        nodes_to_probe(online).len() == 4 + 13 * online.len(),
        nodes_to_probe(online)[0] == super::cpu::marker_node(),
        nodes_to_probe(online)[1] == Node::AmdStatus,
        nodes_to_probe(online)[2] == Node::IntelStatus,
        nodes_to_probe(online)[3] == Node::OnlineCpus,
        forall|i: int, k: int|
            0 <= i < online.len() && 0 <= k < 13 ==> nodes_to_probe(online)[4 + 13 * i + k]
                == #[trigger] policy_nodes(online[i])[k],
    decreases online.len(),
{
    if online.len() > 0 {
        let front = online.drop_last();
        lemma_nodes_to_probe(front);
        assert forall|i: int, k: int| 0 <= i < online.len() && 0 <= k < 13 implies nodes_to_probe(
            online,
        )[4 + 13 * i + k] == #[trigger] policy_nodes(online[i])[k] by {
            if i < online.len() - 1 {
                assert(front[i] == online[i]);
                assert(nodes_to_probe(front)[4 + 13 * i + k] == policy_nodes(front[i])[k]);
            }
        }
    }
}

/// The CPUs that a store lists as online; none where the list could not be
/// read.
pub open spec fn online_or_none(store: Store) -> Seq<u32> {
    match online_ids(store) {
        Ok(ids) => ids,
        Err(_) => Seq::empty(),
    }
}

/// The files to probe decide the choice of the backend: on two machines
/// that hold the same in the files to probe for the online CPUs of the
/// first, the same backend is chosen.
pub proof fn lemma_probe_nodes_decide(
    requested: Seq<char>,
    settings: SettingsView,
    a: Store,
    b: Store,
)
    requires
        agree_on(a, b, nodes_to_probe(online_or_none(a))),
    ensures
        selected(requested, settings, a) == selected(requested, settings, b),
{
    let online = online_or_none(a);
    let nodes = nodes_to_probe(online);
    lemma_nodes_to_probe(online);
    assert(same_at(a, b, nodes[0]));
    assert(same_at(a, b, nodes[1]));
    assert(same_at(a, b, nodes[2]));
    assert(same_at(a, b, nodes[3]));
    assert(online_ids(a) == online_ids(b));
    if online_ids(a) is Ok {
        assert forall|i: int| 0 <= i < online.len() implies agree_on(
            a,
            b,
            policy_nodes(#[trigger] online[i]),
        ) by {
            let files = policy_nodes(online[i]);
            assert forall|k: int| 0 <= k < files.len() implies same_at(a, b, #[trigger] files[k]) by {
                assert(nodes[4 + 13 * i + k] == policy_nodes(online[i])[k]);
            }
        }
        lemma_policies_decided(a, b, online, online.len() as int);
        assert(online.take(online.len() as int) =~= online);
    }
}

} // verus!
