use power_profiles::drivers::cpu;
use power_profiles::drivers::cpu::types::{
    CpuPowerProfile, CpuState, EnergyPreference, InferredPowerProfile, PowerProfile,
    ScalingGovernor,
};
use power_profiles::drivers::cpu::utils::{
    activate_energy_preference, activate_maximum_frequency, activate_scaling_governor,
    maximum_frequency, online_cpus, MAX_RESET_FREQUENCY,
};
use power_profiles::error::Error;
use power_profiles::plan::Plan;
use power_profiles::sysfs::{Node, PolicyProperty, Setting, Snapshot, Write};

fn profile(
    boost: bool,
    scaling_governor: ScalingGovernor,
    energy_preference: EnergyPreference,
    maximum_frequency: Option<u32>,
) -> PowerProfile {
    PowerProfile {
        name: Some("test".to_string()),
        boost,
        energy_preference,
        scaling_governor,
        maximum_frequency,
        overrides: Vec::new(),
        driver_options: None,
    }
}

fn saver() -> PowerProfile {
    profile(false, ScalingGovernor::Powersave, EnergyPreference::Power, Some(1800000))
}

fn online(list: &str) -> Snapshot {
    let mut snapshot = Snapshot::new();
    snapshot.record(Node::OnlineCpus, list.to_string());
    snapshot
}

fn governor(cpu_id: u32, governor: ScalingGovernor) -> Write {
    Write {
        node: Node::policy(cpu_id, PolicyProperty::ScalingGovernor),
        value: Setting::Governor(governor),
    }
}

fn preference(cpu_id: u32, preference: EnergyPreference) -> Write {
    Write {
        node: Node::policy(cpu_id, PolicyProperty::EnergyPerformancePreference),
        value: Setting::EnergyPreference(preference),
    }
}

fn frequency(cpu_id: u32, khz: u32) -> Write {
    Write { node: Node::policy(cpu_id, PolicyProperty::ScalingMaxFreq), value: Setting::Frequency(khz) }
}

fn saver_group(cpu_id: u32) -> Vec<Write> {
    vec![
        governor(cpu_id, ScalingGovernor::Powersave),
        preference(cpu_id, EnergyPreference::Power),
        frequency(cpu_id, 1800000),
    ]
}

fn run(snapshot: &mut Snapshot, plan: &Plan) {
    for group in &plan.groups {
        for write in group {
            snapshot.apply(write);
        }
    }
}

#[test]
fn the_reset_frequency_is_100_ghz() {
    assert_eq!(MAX_RESET_FREQUENCY, 100000000);
}

#[test]
fn each_setting_is_written_to_every_online_cpu() {
    let snapshot = online("0-1,3\n");
    assert_eq!(
        activate_scaling_governor(ScalingGovernor::Powersave, &snapshot),
        Ok(vec![
            governor(0, ScalingGovernor::Powersave),
            governor(1, ScalingGovernor::Powersave),
            governor(3, ScalingGovernor::Powersave)
        ])
    );
    assert_eq!(
        activate_energy_preference(EnergyPreference::BalancePower, &snapshot),
        Ok(vec![
            preference(0, EnergyPreference::BalancePower),
            preference(1, EnergyPreference::BalancePower),
            preference(3, EnergyPreference::BalancePower)
        ])
    );
    assert_eq!(
        activate_maximum_frequency(Some(2400000), &snapshot),
        Ok(vec![frequency(0, 2400000), frequency(1, 2400000), frequency(3, 2400000)])
    );
}

#[test]
fn a_cpu_that_the_list_names_twice_is_written_once() {
    assert_eq!(
        activate_scaling_governor(ScalingGovernor::Performance, &online("0-2,1-3\n")),
        Ok(vec![
            governor(0, ScalingGovernor::Performance),
            governor(1, ScalingGovernor::Performance),
            governor(2, ScalingGovernor::Performance),
            governor(3, ScalingGovernor::Performance)
        ])
    );
    let plan = amd(cpu::amd::pstate::Status::Active).activate(&saver(), &online("1,1\n")).unwrap();
    assert_eq!(plan.groups, vec![saver_group(1)]);
}

#[test]
fn a_profile_without_a_limit_resets_it() {
    assert_eq!(
        activate_maximum_frequency(None, &online("0-1")),
        Ok(vec![frequency(0, 100000000), frequency(1, 100000000)])
    );
}

#[test]
fn settings_cannot_be_written_without_the_list_of_online_cpus() {
    let snapshot = Snapshot::new();
    assert_eq!(
        activate_scaling_governor(ScalingGovernor::Powersave, &snapshot),
        Err(Error::Io(Node::OnlineCpus))
    );
    assert_eq!(
        activate_energy_preference(EnergyPreference::Power, &snapshot),
        Err(Error::Io(Node::OnlineCpus))
    );
    assert_eq!(activate_maximum_frequency(None, &snapshot), Err(Error::Io(Node::OnlineCpus)));
    assert_eq!(online_cpus(&snapshot), Err(Error::Io(Node::OnlineCpus)));
    assert_eq!(online_cpus(&online("0-3\n")), Ok(&"0-3\n".to_string()));
}

#[test]
fn the_frequency_limit_is_that_of_the_first_policy() {
    let node = Node::policy(0, PolicyProperty::ScalingMaxFreq);
    let mut snapshot = Snapshot::new();
    assert_eq!(maximum_frequency(&snapshot), Err(Error::Io(node)));
    snapshot.record(node, "3600000\n".to_string());
    snapshot.record(Node::policy(1, PolicyProperty::ScalingMaxFreq), "1200000\n".to_string());
    assert_eq!(maximum_frequency(&snapshot), Ok(3600000));
    snapshot.record(node, "max".to_string());
    assert_eq!(maximum_frequency(&snapshot), Err(Error::Parse(node)));
}

fn amd(status: cpu::amd::pstate::Status) -> cpu::amd::pstate::Driver {
    cpu::amd::pstate::Driver {
        dry_run: false,
        name: "amd-pstate-epp".to_string(),
        status,
        _profile_driver_settings: Vec::new(),
    }
}

#[test]
fn amd_writes_boost_then_governor_preference_and_limit_cpu_by_cpu() {
    let driver = amd(cpu::amd::pstate::Status::Passive);
    let plan = driver.activate(&saver(), &online("0-1\n")).unwrap();
    assert_eq!(
        plan.groups,
        vec![
            vec![Write { node: Node::Boost, value: Setting::Flag(false) }],
            saver_group(0),
            saver_group(1)
        ]
    );
}

#[test]
fn amd_leaves_boost_alone_in_the_active_mode() {
    let driver = amd(cpu::amd::pstate::Status::Active);
    let plan = driver.activate(&saver(), &online("0-1\n")).unwrap();
    assert_eq!(plan.groups, vec![saver_group(0), saver_group(1)]);
}

#[test]
fn amd_dry_run_writes_nothing() {
    let mut driver = amd(cpu::amd::pstate::Status::Guided);
    driver.dry_run = true;
    assert_eq!(driver.activate(&saver(), &online("0-1\n")), Ok(Plan { groups: Vec::new() }));
    assert_eq!(driver.activate(&saver(), &Snapshot::new()), Ok(Plan { groups: Vec::new() }));
}

#[test]
fn amd_cannot_plan_without_the_list_of_online_cpus() {
    let driver = amd(cpu::amd::pstate::Status::Guided);
    assert_eq!(driver.activate(&saver(), &Snapshot::new()), Err(Error::Io(Node::OnlineCpus)));
}

#[test]
fn amd_reads_its_mode_from_the_status_file() {
    let mut snapshot = Snapshot::new();
    assert_eq!(
        cpu::amd::pstate::Driver::new(false, "amd-pstate".to_string(), Vec::new(), &snapshot),
        Err(Error::Io(Node::AmdStatus))
    );
    snapshot.record(Node::AmdStatus, "guided\n".to_string());
    let driver =
        cpu::amd::pstate::Driver::new(true, "amd-pstate".to_string(), Vec::new(), &snapshot)
            .unwrap();
    assert_eq!(driver.status, cpu::amd::pstate::Status::Guided);
    assert!(driver.dry_run);
    assert_eq!(driver.name(), "amd-pstate");
    snapshot.record(Node::AmdStatus, "off\n".to_string());
    assert_eq!(
        cpu::amd::pstate::Driver::new(false, "amd-pstate".to_string(), Vec::new(), &snapshot),
        Err(Error::Parse(Node::AmdStatus))
    );
}

fn first_policy(boost: Option<&str>, governor: &str, preference: &str, limit: &str) -> Snapshot {
    let mut snapshot = Snapshot::new();
    if let Some(boost) = boost {
        snapshot.record(Node::Boost, boost.to_string());
    }
    snapshot.record(Node::policy(0, PolicyProperty::ScalingGovernor), governor.to_string());
    snapshot
        .record(Node::policy(0, PolicyProperty::EnergyPerformancePreference), preference.to_string());
    snapshot.record(Node::policy(0, PolicyProperty::ScalingMaxFreq), limit.to_string());
    snapshot
}

#[test]
fn amd_infers_the_state_from_boost_and_the_first_policy() {
    let driver = amd(cpu::amd::pstate::Status::Passive);
    let snapshot = first_policy(Some("0\n"), "powersave\n", "balance_power\n", "2200000\n");
    assert_eq!(
        driver.current(&snapshot),
        Ok(InferredPowerProfile {
            boost: false,
            energy_preference: EnergyPreference::BalancePower,
            scaling_governor: ScalingGovernor::Powersave,
            maximum_frequency: 2200000,
            cpus: Vec::new(),
        })
    );
    assert_eq!(driver.boost_enabled(&snapshot), Ok(false));
    assert_eq!(driver.scaling_governor(&snapshot), Ok(ScalingGovernor::Powersave));
    assert_eq!(driver.energy_preference(&snapshot), Ok(EnergyPreference::BalancePower));
}

#[test]
fn amd_takes_boost_for_on_where_its_file_cannot_be_read() {
    let driver = amd(cpu::amd::pstate::Status::Passive);
    let snapshot = first_policy(None, "performance", "performance", "4000000");
    assert_eq!(driver.boost_enabled(&snapshot), Ok(true));
    assert_eq!(driver.current(&snapshot).unwrap().boost, true);
}

#[test]
fn amd_reports_the_first_file_that_fails() {
    let driver = amd(cpu::amd::pstate::Status::Passive);
    let governor = Node::policy(0, PolicyProperty::ScalingGovernor);
    let preference = Node::policy(0, PolicyProperty::EnergyPerformancePreference);
    let limit = Node::policy(0, PolicyProperty::ScalingMaxFreq);
    assert_eq!(
        driver.current(&first_policy(Some("maybe"), "ondemand", "x", "y")),
        Err(Error::Parse(Node::Boost))
    );
    assert_eq!(
        driver.current(&first_policy(Some("1"), "ondemand", "x", "y")),
        Err(Error::Parse(governor))
    );
    assert_eq!(
        driver.current(&first_policy(Some("1"), "powersave", "x", "y")),
        Err(Error::Parse(preference))
    );
    assert_eq!(
        driver.current(&first_policy(Some("1"), "powersave", "power", "y")),
        Err(Error::Parse(limit))
    );
    assert_eq!(driver.current(&Snapshot::new()), Err(Error::Io(governor)));
}

fn intel() -> cpu::intel::pstate::Driver {
    cpu::intel::pstate::Driver { dry_run: false, _status: cpu::intel::pstate::Status::Active }
}

#[test]
fn intel_writes_no_turbo_as_the_inverse_of_boost() {
    let plan = intel().activate(&saver(), &online("0,2\n")).unwrap();
    assert_eq!(
        plan.groups,
        vec![
            vec![Write { node: Node::NoTurbo, value: Setting::Flag(true) }],
            saver_group(0),
            saver_group(2)
        ]
    );
    let fast = profile(true, ScalingGovernor::Performance, EnergyPreference::Performance, None);
    let plan = intel().activate(&fast, &online("0\n")).unwrap();
    assert_eq!(plan.groups[0], vec![Write { node: Node::NoTurbo, value: Setting::Flag(false) }]);
    assert_eq!(plan.groups[1][2], frequency(0, 100000000));
}

#[test]
fn intel_reads_boost_as_the_inverse_of_no_turbo() {
    let mut snapshot = first_policy(None, "powersave\n", "power\n", "1800000\n");
    assert_eq!(intel().turbo_enabled(&snapshot), Ok(true));
    snapshot.record(Node::NoTurbo, "1\n".to_string());
    assert_eq!(intel().turbo_enabled(&snapshot), Ok(false));
    assert_eq!(
        intel().current(&snapshot),
        Ok(InferredPowerProfile {
            boost: false,
            energy_preference: EnergyPreference::Power,
            scaling_governor: ScalingGovernor::Powersave,
            maximum_frequency: 1800000,
            cpus: Vec::new(),
        })
    );
    snapshot.record(Node::NoTurbo, "0\n".to_string());
    assert_eq!(intel().current(&snapshot).unwrap().boost, true);
    snapshot.record(Node::NoTurbo, "?\n".to_string());
    assert_eq!(intel().current(&snapshot), Err(Error::Parse(Node::NoTurbo)));
}

#[test]
fn intel_reads_its_mode_from_the_status_file() {
    let mut snapshot = Snapshot::new();
    assert_eq!(
        cpu::intel::pstate::Driver::new(false, &snapshot),
        Err(Error::Io(Node::IntelStatus))
    );
    snapshot.record(Node::IntelStatus, "off\n".to_string());
    assert_eq!(
        cpu::intel::pstate::Driver::new(false, &snapshot),
        Ok(cpu::intel::pstate::Driver { dry_run: false, _status: cpu::intel::pstate::Status::Off })
    );
    snapshot.record(Node::IntelStatus, "guided\n".to_string());
    assert_eq!(
        cpu::intel::pstate::Driver::new(false, &snapshot),
        Err(Error::Parse(Node::IntelStatus))
    );
    assert_eq!(intel().name(), "intel_pstate");
}

#[test]
fn intel_dry_run_writes_nothing() {
    let driver =
        cpu::intel::pstate::Driver { dry_run: true, _status: cpu::intel::pstate::Status::Passive };
    assert_eq!(driver.activate(&saver(), &online("0-3")), Ok(Plan { groups: Vec::new() }));
}

#[test]
fn the_dummy_backend_writes_nothing_and_reports_a_fixed_state() {
    let driver = cpu::dummy::probe(&Vec::new());
    assert_eq!(driver.activate(&saver()), Plan { groups: Vec::new() });
    assert_eq!(
        driver.current(),
        InferredPowerProfile {
            boost: true,
            energy_preference: EnergyPreference::Performance,
            scaling_governor: ScalingGovernor::Performance,
            maximum_frequency: 4000000,
            cpus: Vec::new(),
        }
    );
    assert_eq!(driver.name(), "dummy");
}

#[test]
fn what_amd_writes_is_what_it_infers() {
    let driver = amd(cpu::amd::pstate::Status::Guided);
    let mut machine = online("0-3\n");
    for target in [
        saver(),
        profile(true, ScalingGovernor::Performance, EnergyPreference::Performance, None),
        profile(true, ScalingGovernor::Powersave, EnergyPreference::BalancePerformance, Some(0)),
    ] {
        let plan = driver.activate(&target, &machine).unwrap();
        run(&mut machine, &plan);
        let state = driver.current(&machine).unwrap();
        assert!(state.eq(&target));
        assert_eq!(state.boost, target.boost);
        assert_eq!(state.scaling_governor, target.scaling_governor);
        assert_eq!(state.energy_preference, target.energy_preference);
        assert_eq!(state.maximum_frequency, target.maximum_frequency.unwrap_or(100000000));
    }
}

#[test]
fn what_intel_writes_is_what_it_infers() {
    let mut machine = online("0-1\n");
    for target in [
        saver(),
        profile(true, ScalingGovernor::Performance, EnergyPreference::Default, None),
    ] {
        let plan = intel().activate(&target, &machine).unwrap();
        run(&mut machine, &plan);
        let state = intel().current(&machine).unwrap();
        assert!(state.eq(&target));
        assert_eq!(state.maximum_frequency, target.maximum_frequency.unwrap_or(100000000));
    }
}

fn policy(cpu_id: u32) -> cpu::Policy {
    cpu::Policy {
        affected_cpus: vec![cpu_id],
        cpu_id,
        cpuinfo_min_freq: 400000,
        cpuinfo_max_freq: 4000000,
        cpuinfo_transition_latency: 0,
        energy_performance_available_preferences: vec!["default".to_string()],
        energy_performance_preference: "default".to_string(),
        related_cpus: vec![cpu_id],
        scaling_available_governors: vec!["performance".to_string(), "powersave".to_string()],
        scaling_driver: "acpi-cpufreq".to_string(),
        scaling_cur_freq: 1000000,
        scaling_governor: "powersave".to_string(),
        scaling_min_freq: 400000,
        scaling_max_freq: 4000000,
    }
}

fn generic() -> cpu::Driver {
    cpu::Driver { dry_run: false, policies: vec![policy(0), policy(4)] }
}

fn mixed() -> PowerProfile {
    let mut target = saver();
    target.overrides = vec![(
        4,
        CpuPowerProfile {
            energy_preference: EnergyPreference::Performance,
            scaling_governor: ScalingGovernor::Performance,
            maximum_frequency: None,
        },
    )];
    target
}

#[test]
fn the_generic_backend_writes_to_each_policy_what_the_profile_has_for_it() {
    let plan = generic().activate(&mixed());
    assert_eq!(
        plan.groups,
        vec![
            vec![Write { node: Node::Boost, value: Setting::Flag(false) }],
            saver_group(0),
            vec![
                governor(4, ScalingGovernor::Performance),
                preference(4, EnergyPreference::Performance),
                frequency(4, 100000000)
            ]
        ]
    );
    assert_eq!(generic().name(), "cpufreq");
}

#[test]
fn the_generic_backend_infers_the_state_policy_by_policy() {
    let mut machine = Snapshot::new();
    run(&mut machine, &generic().activate(&mixed()));
    let state = generic().current(&machine).unwrap();
    assert_eq!(
        state,
        InferredPowerProfile {
            boost: false,
            energy_preference: EnergyPreference::Power,
            scaling_governor: ScalingGovernor::Powersave,
            maximum_frequency: 1800000,
            cpus: vec![
                CpuState {
                    cpu_id: 0,
                    energy_preference: EnergyPreference::Power,
                    scaling_governor: ScalingGovernor::Powersave,
                    maximum_frequency: 1800000,
                },
                CpuState {
                    cpu_id: 4,
                    energy_preference: EnergyPreference::Performance,
                    scaling_governor: ScalingGovernor::Performance,
                    maximum_frequency: 100000000,
                }
            ],
        }
    );
    assert!(state.eq(&mixed()));
    let mut other = mixed();
    other.overrides[0].1.scaling_governor = ScalingGovernor::Powersave;
    assert!(!state.eq(&other));
}

#[test]
fn a_profile_without_settings_for_single_cpus_is_held_against_the_whole() {
    let mut machine = Snapshot::new();
    run(&mut machine, &generic().activate(&mixed()));
    let state = generic().current(&machine).unwrap();
    assert!(state.eq(&saver()));
    let fast = profile(false, ScalingGovernor::Performance, EnergyPreference::Performance, None);
    assert!(!state.eq(&fast));
}

#[test]
fn the_generic_backend_reports_the_first_policy_that_fails() {
    let mut machine = Snapshot::new();
    run(&mut machine, &generic().activate(&saver()));
    machine.record(Node::policy(4, PolicyProperty::ScalingGovernor), "schedutil\n".to_string());
    assert_eq!(
        generic().current(&machine),
        Err(Error::Parse(Node::policy(4, PolicyProperty::ScalingGovernor)))
    );
    machine.record(Node::policy(0, PolicyProperty::ScalingMaxFreq), "?".to_string());
    assert_eq!(
        generic().current(&machine),
        Err(Error::Parse(Node::policy(0, PolicyProperty::ScalingMaxFreq)))
    );
    assert_eq!(
        generic().current(&Snapshot::new()),
        Err(Error::Io(Node::policy(0, PolicyProperty::ScalingGovernor)))
    );
}

#[test]
fn a_generic_backend_without_policies_reads_no_state() {
    let driver = cpu::Driver { dry_run: false, policies: Vec::new() };
    assert_eq!(driver.current(&Snapshot::new()), Err(Error::Unsupported));
}

#[test]
fn the_generic_dry_run_writes_nothing() {
    let driver = cpu::Driver { dry_run: true, policies: vec![policy(0)] };
    assert_eq!(driver.activate(&saver()), Plan { groups: Vec::new() });
}

#[test]
fn a_policy_is_brought_to_its_target_in_the_mandatory_order() {
    let target = CpuPowerProfile {
        energy_preference: EnergyPreference::BalancePerformance,
        scaling_governor: ScalingGovernor::Powersave,
        maximum_frequency: Some(3000000),
    };
    assert_eq!(
        policy(9).activate(&target),
        vec![
            governor(9, ScalingGovernor::Powersave),
            preference(9, EnergyPreference::BalancePerformance),
            frequency(9, 3000000)
        ]
    );
    assert_eq!(
        policy(9).scaling_setspeed(2000000),
        Write {
            node: Node::policy(9, PolicyProperty::ScalingSetspeed),
            value: Setting::Frequency(2000000)
        }
    );
    assert_eq!(
        cpu::Policy::write_policy_property(
            3,
            PolicyProperty::ScalingMinFreq,
            Setting::Frequency(800000)
        ),
        Write { node: Node::policy(3, PolicyProperty::ScalingMinFreq), value: Setting::Frequency(800000) }
    );
}
