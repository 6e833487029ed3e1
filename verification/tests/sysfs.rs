use power_profiles::drivers::cpu::types::{EnergyPreference, ScalingGovernor};
use power_profiles::error::Error;
use power_profiles::plan::Plan;
use power_profiles::sysfs::{Node, PolicyProperty, Setting, Snapshot, Write};

#[test]
fn paths_of_the_global_files() {
    assert_eq!(Node::OnlineCpus.path(), "/sys/devices/system/cpu/online");
    assert_eq!(Node::Boost.path(), "/sys/devices/system/cpu/cpufreq/boost");
    assert_eq!(Node::NoTurbo.path(), "/sys/devices/system/cpu/intel_pstate/no_turbo");
    assert_eq!(Node::AmdStatus.path(), "/sys/devices/system/cpu/amd_pstate/status");
    assert_eq!(Node::IntelStatus.path(), "/sys/devices/system/cpu/intel_pstate/status");
}

#[test]
fn paths_of_policy_files() {
    assert_eq!(
        Node::policy(0, PolicyProperty::ScalingMaxFreq).path(),
        "/sys/devices/system/cpu/cpufreq/policy0/scaling_max_freq"
    );
    assert_eq!(
        Node::policy(12, PolicyProperty::EnergyPerformancePreference).path(),
        "/sys/devices/system/cpu/cpufreq/policy12/energy_performance_preference"
    );
    assert_eq!(
        Node::policy(7, PolicyProperty::ScalingGovernor).path(),
        "/sys/devices/system/cpu/cpufreq/policy7/scaling_governor"
    );
    assert_eq!(
        (Node::Policy { cpu_id: 4294967295, property: PolicyProperty::ScalingSetspeed }).path(),
        "/sys/devices/system/cpu/cpufreq/policy4294967295/scaling_setspeed"
    );
}

#[test]
fn names_of_policy_files() {
    assert_eq!(PolicyProperty::AffectedCpus.name(), "affected_cpus");
    assert_eq!(PolicyProperty::CpuinfoMaxFreq.name(), "cpuinfo_max_freq");
    assert_eq!(PolicyProperty::CpuinfoMinFreq.name(), "cpuinfo_min_freq");
    assert_eq!(PolicyProperty::CpuinfoTransitionLatency.name(), "cpuinfo_transition_latency");
    assert_eq!(
        PolicyProperty::EnergyPerformanceAvailablePreferences.name(),
        "energy_performance_available_preferences"
    );
    assert_eq!(
        PolicyProperty::EnergyPerformancePreference.name(),
        "energy_performance_preference"
    );
    assert_eq!(PolicyProperty::RelatedCpus.name(), "related_cpus");
    assert_eq!(PolicyProperty::ScalingAvailableGovernors.name(), "scaling_available_governors");
    assert_eq!(PolicyProperty::ScalingDriver.name(), "scaling_driver");
    assert_eq!(PolicyProperty::ScalingCurFreq.name(), "scaling_cur_freq");
    assert_eq!(PolicyProperty::ScalingGovernor.name(), "scaling_governor");
    assert_eq!(PolicyProperty::ScalingMinFreq.name(), "scaling_min_freq");
    assert_eq!(PolicyProperty::ScalingMaxFreq.name(), "scaling_max_freq");
    assert_eq!(PolicyProperty::ScalingSetspeed.name(), "scaling_setspeed");
}

#[test]
fn texts_of_settings() {
    assert_eq!(Setting::Governor(ScalingGovernor::Powersave).text(), "powersave");
    assert_eq!(Setting::EnergyPreference(EnergyPreference::BalancePower).text(), "balance_power");
    assert_eq!(Setting::Frequency(3600000).text(), "3600000");
    assert_eq!(Setting::Frequency(0).text(), "0");
    assert_eq!(Setting::Flag(true).text(), "1");
    assert_eq!(Setting::Flag(false).text(), "0");
}

#[test]
fn a_snapshot_holds_what_was_recorded_last() {
    let mut snapshot = Snapshot::new();
    assert_eq!(snapshot.content(Node::Boost), None);
    snapshot.record(Node::Boost, "1\n".to_string());
    snapshot.record(Node::NoTurbo, "0\n".to_string());
    assert_eq!(snapshot.content(Node::Boost), Some(&"1\n".to_string()));
    snapshot.record(Node::Boost, "0\n".to_string());
    assert_eq!(snapshot.content(Node::Boost), Some(&"0\n".to_string()));
    assert_eq!(snapshot.content(Node::NoTurbo), Some(&"0\n".to_string()));
    assert_eq!(snapshot.content(Node::OnlineCpus), None);
}

#[test]
fn a_snapshot_takes_writes() {
    let mut snapshot = Snapshot::new();
    let node = Node::policy(3, PolicyProperty::ScalingGovernor);
    snapshot.apply(&Write { node, value: Setting::Governor(ScalingGovernor::Performance) });
    assert_eq!(snapshot.content(node), Some(&"performance".to_string()));
    assert_eq!(snapshot.content(Node::policy(2, PolicyProperty::ScalingGovernor)), None);
}

#[test]
fn reading_trims_and_reports_missing_files() {
    let mut snapshot = Snapshot::new();
    snapshot.record(Node::AmdStatus, "  active\n".to_string());
    assert_eq!(snapshot.read(Node::AmdStatus), Ok("active"));
    assert_eq!(snapshot.read(Node::IntelStatus), Err(Error::Io(Node::IntelStatus)));
}

#[test]
fn reading_numbers() {
    let node = Node::policy(0, PolicyProperty::ScalingMaxFreq);
    let mut snapshot = Snapshot::new();
    assert_eq!(snapshot.read_number(node), Err(Error::Io(node)));
    snapshot.record(node, "4000000\n".to_string());
    assert_eq!(snapshot.read_number(node), Ok(4000000));
    snapshot.record(node, "fast\n".to_string());
    assert_eq!(snapshot.read_number(node), Err(Error::Parse(node)));
    snapshot.record(node, "\n".to_string());
    assert_eq!(snapshot.read_number(node), Err(Error::Parse(node)));
}

#[test]
fn reading_switches() {
    let mut snapshot = Snapshot::new();
    assert_eq!(snapshot.read_flag(Node::Boost), Err(Error::Io(Node::Boost)));
    for (text, on) in [("1\n", true), ("0\n", false), ("true", true), ("false", false)] {
        snapshot.record(Node::Boost, text.to_string());
        assert_eq!(snapshot.read_flag(Node::Boost), Ok(on));
    }
    for text in ["", "2", "yes", "on", "TRUE"] {
        snapshot.record(Node::Boost, text.to_string());
        assert_eq!(snapshot.read_flag(Node::Boost), Err(Error::Parse(Node::Boost)));
    }
}

fn write(cpu_id: u32) -> Write {
    Write {
        node: Node::policy(cpu_id, PolicyProperty::ScalingGovernor),
        value: Setting::Governor(ScalingGovernor::Performance),
    }
}

fn plan() -> Plan {
    Plan { groups: vec![vec![write(0)], vec![write(1), write(2)], vec![], vec![write(3)]] }
}

#[test]
fn an_activation_succeeds_where_every_write_was_made() {
    let done = vec![vec![true], vec![true, true], vec![], vec![true]];
    assert_eq!(plan().outcome(&done), Ok(()));
    assert_eq!(Plan::empty().outcome(&Vec::new()), Ok(()));
    assert_eq!(Plan::empty().outcome(&vec![vec![false]]), Ok(()));
}

#[test]
fn an_activation_fails_with_the_first_write_that_was_not_made() {
    let done = vec![vec![true], vec![true, false], vec![], vec![false]];
    assert_eq!(plan().outcome(&done), Err(Error::Io(write(2).node)));
    let done = vec![vec![false], vec![false, false], vec![], vec![false]];
    assert_eq!(plan().outcome(&done), Err(Error::Io(write(0).node)));
    let done = vec![vec![true], vec![true, true], vec![], vec![false]];
    assert_eq!(plan().outcome(&done), Err(Error::Io(write(3).node)));
}

#[test]
fn a_write_without_a_report_was_not_made() {
    let done = vec![vec![true], vec![true]];
    assert_eq!(plan().outcome(&done), Err(Error::Io(write(2).node)));
    let done = vec![vec![true], vec![true, true]];
    assert_eq!(plan().outcome(&done), Err(Error::Io(write(3).node)));
    assert_eq!(plan().outcome(&Vec::new()), Err(Error::Io(write(0).node)));
}
