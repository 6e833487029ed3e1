use power_profiles::drivers::cpu;
use power_profiles::drivers::cpu::types::{
    DriverSettings, EnergyPreference, ScalingGovernor,
};
use power_profiles::drivers::{probe, probe_failures, probe_nodes, Candidate, Driver, DriverSet};
use power_profiles::error::Error;
use power_profiles::settings::Settings;
use power_profiles::sysfs::{Node, PolicyProperty, Snapshot};
use power_profiles::types::PowerProfile;

fn profile(name: &str, options: Option<DriverSettings>) -> PowerProfile {
    PowerProfile {
        cpu: cpu::types::PowerProfile {
            name: None,
            boost: true,
            energy_preference: EnergyPreference::Performance,
            scaling_governor: ScalingGovernor::Performance,
            maximum_frequency: None,
            overrides: Vec::new(),
            driver_options: options,
        },
        name: name.to_string(),
    }
}

fn settings() -> Settings {
    Settings::new(
        "performance".to_string(),
        vec![
            profile("performance", Some(DriverSettings {})),
            profile("balanced", None),
            profile("power-saver", Some(DriverSettings {})),
        ],
    )
    .unwrap()
}

fn properties() -> Vec<(PolicyProperty, &'static str)> {
    vec![
        (PolicyProperty::AffectedCpus, "0\n"),
        (PolicyProperty::CpuinfoMaxFreq, "4500000\n"),
        (PolicyProperty::CpuinfoMinFreq, "400000\n"),
        (PolicyProperty::CpuinfoTransitionLatency, "0\n"),
        (PolicyProperty::EnergyPerformanceAvailablePreferences, "default performance\n"),
        (PolicyProperty::EnergyPerformancePreference, "performance\n"),
        (PolicyProperty::RelatedCpus, "0\n"),
        (PolicyProperty::ScalingAvailableGovernors, "performance powersave\n"),
        (PolicyProperty::ScalingCurFreq, "1200000\n"),
        (PolicyProperty::ScalingGovernor, "powersave\n"),
        (PolicyProperty::ScalingMinFreq, "400000\n"),
        (PolicyProperty::ScalingMaxFreq, "4500000\n"),
    ]
}

fn machine(scaling_driver: &str, cpus: u32) -> Snapshot {
    let mut snapshot = Snapshot::new();
    snapshot.record(Node::OnlineCpus, format!("0-{}\n", cpus - 1));
    for cpu_id in 0..cpus {
        for (property, text) in properties() {
            snapshot.record(Node::policy(cpu_id, property), text.to_string());
        }
        snapshot.record(
            Node::policy(cpu_id, PolicyProperty::ScalingDriver),
            format!("{}\n", scaling_driver),
        );
    }
    snapshot
}

fn amd_machine(scaling_driver: &str) -> Snapshot {
    let mut snapshot = machine(scaling_driver, 2);
    snapshot.record(Node::AmdStatus, "passive\n".to_string());
    snapshot
}

fn intel_machine() -> Snapshot {
    let mut snapshot = machine("intel_pstate", 2);
    snapshot.record(Node::IntelStatus, "active\n".to_string());
    snapshot
}

fn name_of(drivers: &DriverSet) -> String {
    drivers.cpu.name()
}

#[test]
fn auto_takes_the_vendor_backend_first() {
    assert_eq!(name_of(&probe(&settings(), "auto", &amd_machine("amd-pstate")).unwrap()), "amd-pstate");
    assert_eq!(
        name_of(&probe(&settings(), "auto", &amd_machine("amd-pstate-epp")).unwrap()),
        "amd-pstate-epp"
    );
    assert_eq!(name_of(&probe(&settings(), "auto", &intel_machine()).unwrap()), "intel_pstate");
}

#[test]
fn auto_falls_back_to_the_generic_backend_then_to_the_dummy() {
    assert_eq!(
        name_of(&probe(&settings(), "auto", &machine("acpi-cpufreq", 4)).unwrap()),
        "cpufreq"
    );
    assert_eq!(name_of(&probe(&settings(), "auto", &Snapshot::new()).unwrap()), "dummy");
    assert_eq!(
        probe(&settings(), "auto", &Snapshot::new()),
        Ok(DriverSet { cpu: Driver::Dummy(cpu::dummy::Driver {}) })
    );
}

#[test]
fn a_vendor_backend_whose_probe_fails_is_passed_over() {
    let without_status = machine("amd-pstate", 2);
    assert_eq!(name_of(&probe(&settings(), "auto", &without_status).unwrap()), "cpufreq");
    let mut odd_status = machine("intel_pstate", 1);
    odd_status.record(Node::IntelStatus, "guided\n".to_string());
    assert_eq!(name_of(&probe(&settings(), "auto", &odd_status).unwrap()), "cpufreq");
}

#[test]
fn a_name_asks_for_the_backend_of_that_name() {
    assert_eq!(name_of(&probe(&settings(), "cpufreq", &intel_machine()).unwrap()), "cpufreq");
    assert_eq!(name_of(&probe(&settings(), "dummy", &intel_machine()).unwrap()), "dummy");
    assert_eq!(
        name_of(&probe(&settings(), "intel_pstate", &intel_machine()).unwrap()),
        "intel_pstate"
    );
    assert_eq!(
        name_of(&probe(&settings(), "amd-pstate-epp", &amd_machine("amd-pstate-epp")).unwrap()),
        "amd-pstate-epp"
    );
}

#[test]
fn a_backend_that_does_not_drive_the_machine_is_not_available() {
    assert_eq!(
        probe(&settings(), "intel_pstate", &amd_machine("amd-pstate")),
        Err(Error::NoDriverAvailable)
    );
    assert_eq!(
        probe(&settings(), "amd-pstate", &amd_machine("amd-pstate-epp")),
        Err(Error::NoDriverAvailable)
    );
    assert_eq!(probe(&settings(), "cpufreq", &Snapshot::new()), Err(Error::NoDriverAvailable));
    assert_eq!(probe(&settings(), "turbo", &intel_machine()), Err(Error::NoDriverAvailable));
    assert_eq!(probe(&settings(), "", &intel_machine()), Err(Error::NoDriverAvailable));
}

#[test]
fn amd_declines_another_driver() {
    assert_eq!(
        cpu::amd::probe(&Vec::new(), &intel_machine()),
        Err(Error::Unsupported)
    );
    assert_eq!(
        cpu::amd::probe(&Vec::new(), &Snapshot::new()),
        Err(Error::Io(Node::policy(0, PolicyProperty::ScalingDriver)))
    );
    assert_eq!(
        cpu::amd::probe(&Vec::new(), &machine("amd-pstate", 1)),
        Err(Error::Io(Node::AmdStatus))
    );
}

#[test]
fn amd_keeps_the_options_of_the_profiles_that_have_some() {
    let profiles: Vec<cpu::types::PowerProfile> = settings()
        .profiles()
        .iter()
        .map(|profile| cpu::types::PowerProfile::from(profile.clone()))
        .collect();
    let driver = cpu::amd::probe(&profiles, &amd_machine("amd-pstate")).unwrap();
    assert_eq!(
        driver._profile_driver_settings,
        vec![
            ("performance".to_string(), DriverSettings {}),
            ("power-saver".to_string(), DriverSettings {})
        ]
    );
    assert_eq!(driver.status, cpu::amd::pstate::Status::Passive);
    assert!(!driver.dry_run);
    let nameless: Vec<cpu::types::PowerProfile> =
        settings().profiles().iter().map(|profile| profile.cpu.clone()).collect();
    let driver = cpu::amd::probe(&nameless, &amd_machine("amd-pstate")).unwrap();
    assert!(driver._profile_driver_settings.is_empty());
}

#[test]
fn intel_declines_another_driver() {
    assert_eq!(cpu::intel::probe(&amd_machine("amd-pstate")), Err(Error::Unsupported));
    assert_eq!(
        cpu::intel::probe(&Snapshot::new()),
        Err(Error::Io(Node::policy(0, PolicyProperty::ScalingDriver)))
    );
    assert_eq!(
        cpu::intel::probe(&intel_machine()),
        Ok(cpu::intel::pstate::Driver {
            dry_run: false,
            _status: cpu::intel::pstate::Status::Active
        })
    );
}

#[test]
fn the_generic_probe_reads_every_online_policy() {
    let driver = cpu::probe(&Vec::new(), &machine("acpi-cpufreq", 3)).unwrap();
    assert_eq!(driver.policies.len(), 3);
    assert_eq!(driver.policies[2].cpu_id, 2);
    assert_eq!(driver.policies[2].scaling_driver, "acpi-cpufreq");
}

#[test]
fn the_files_to_probe_are_the_marks_and_every_policy() {
    let nodes = probe_nodes(&vec![0, 3]);
    assert_eq!(nodes.len(), 4 + 2 * 13);
    assert_eq!(
        &nodes[..4],
        &[
            Node::policy(0, PolicyProperty::ScalingDriver),
            Node::AmdStatus,
            Node::IntelStatus,
            Node::OnlineCpus
        ]
    );
    assert_eq!(nodes[4], Node::policy(0, PolicyProperty::AffectedCpus));
    assert_eq!(nodes[16], Node::policy(0, PolicyProperty::ScalingMaxFreq));
    assert_eq!(nodes[17], Node::policy(3, PolicyProperty::AffectedCpus));
    assert_eq!(nodes[29], Node::policy(3, PolicyProperty::ScalingMaxFreq));
    assert!(!nodes.contains(&Node::policy(0, PolicyProperty::ScalingSetspeed)));
    assert_eq!(probe_nodes(&Vec::new()).len(), 4);
}

#[test]
fn a_backend_names_the_files_that_it_reads() {
    let amd = probe(&settings(), "auto", &amd_machine("amd-pstate")).unwrap().cpu;
    assert_eq!(
        amd.nodes(),
        vec![
            Node::OnlineCpus,
            Node::Boost,
            Node::policy(0, PolicyProperty::ScalingGovernor),
            Node::policy(0, PolicyProperty::EnergyPerformancePreference),
            Node::policy(0, PolicyProperty::ScalingMaxFreq)
        ]
    );
    let intel = probe(&settings(), "auto", &intel_machine()).unwrap().cpu;
    assert_eq!(
        intel.nodes(),
        vec![
            Node::OnlineCpus,
            Node::NoTurbo,
            Node::policy(0, PolicyProperty::ScalingGovernor),
            Node::policy(0, PolicyProperty::EnergyPerformancePreference),
            Node::policy(0, PolicyProperty::ScalingMaxFreq)
        ]
    );
    let generic = probe(&settings(), "cpufreq", &machine("acpi-cpufreq", 2)).unwrap().cpu;
    assert_eq!(
        generic.nodes(),
        vec![
            Node::Boost,
            Node::policy(0, PolicyProperty::ScalingGovernor),
            Node::policy(0, PolicyProperty::EnergyPerformancePreference),
            Node::policy(0, PolicyProperty::ScalingMaxFreq),
            Node::policy(1, PolicyProperty::ScalingGovernor),
            Node::policy(1, PolicyProperty::EnergyPerformancePreference),
            Node::policy(1, PolicyProperty::ScalingMaxFreq)
        ]
    );
    let dummy = probe(&settings(), "dummy", &Snapshot::new()).unwrap().cpu;
    assert!(dummy.nodes().is_empty());
}

#[test]
fn the_set_activates_through_its_cpu_backend() {
    let drivers = probe(&settings(), "auto", &intel_machine()).unwrap();
    let target = profile("performance", None);
    assert_eq!(
        drivers.activate(&target, &intel_machine()),
        drivers.cpu.activate(&target, &intel_machine())
    );
    assert_eq!(drivers.activate(&target, &intel_machine()).unwrap().groups.len(), 3);
    assert_eq!(drivers.activate(&target, &Snapshot::new()), Err(Error::Io(Node::OnlineCpus)));
}

#[test]
fn the_probes_that_failed_before_the_choice_are_told() {
    let marker = Node::policy(0, PolicyProperty::ScalingDriver);
    assert_eq!(probe_failures(&settings(), "auto", &amd_machine("amd-pstate")), Vec::new());
    assert_eq!(
        probe_failures(&settings(), "auto", &intel_machine()),
        vec![(Candidate::Amd, Error::Unsupported)]
    );
    assert_eq!(
        probe_failures(&settings(), "auto", &machine("acpi-cpufreq", 2)),
        vec![(Candidate::Amd, Error::Unsupported), (Candidate::Intel, Error::Unsupported)]
    );
    assert_eq!(
        probe_failures(&settings(), "auto", &machine("amd-pstate", 2)),
        vec![(Candidate::Amd, Error::Io(Node::AmdStatus)), (Candidate::Intel, Error::Unsupported)]
    );
    assert_eq!(
        probe_failures(&settings(), "auto", &Snapshot::new()),
        vec![
            (Candidate::Amd, Error::Io(marker)),
            (Candidate::Intel, Error::Io(marker)),
            (Candidate::CpuFreq, Error::Io(Node::OnlineCpus))
        ]
    );
}

#[test]
fn a_probe_that_succeeds_under_another_name_is_no_failure() {
    assert_eq!(probe_failures(&settings(), "cpufreq", &intel_machine()), vec![(
        Candidate::Amd,
        Error::Unsupported
    )]);
    assert_eq!(probe_failures(&settings(), "dummy", &intel_machine()), vec![(
        Candidate::Amd,
        Error::Unsupported
    )]);
    assert_eq!(
        probe_failures(&settings(), "intel_pstate", &amd_machine("amd-pstate")),
        vec![(Candidate::Intel, Error::Unsupported)]
    );
}
