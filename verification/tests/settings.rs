use power_profiles::drivers::cpu;
use power_profiles::drivers::cpu::types::{
    CpuPowerProfile, CpuState, EnergyPreference, ScalingGovernor,
};
use power_profiles::settings::{Settings, SettingsError};
use power_profiles::types::{InferredPowerProfile, PowerProfile};

fn profile(
    name: &str,
    boost: bool,
    scaling_governor: ScalingGovernor,
    energy_preference: EnergyPreference,
) -> PowerProfile {
    PowerProfile {
        cpu: cpu::types::PowerProfile {
            name: None,
            boost,
            energy_preference,
            scaling_governor,
            maximum_frequency: None,
            overrides: Vec::new(),
            driver_options: None,
        },
        name: name.to_string(),
    }
}

fn performance() -> PowerProfile {
    profile("performance", true, ScalingGovernor::Performance, EnergyPreference::Performance)
}

fn balanced() -> PowerProfile {
    profile("balanced", true, ScalingGovernor::Powersave, EnergyPreference::BalancePerformance)
}

fn power_saver() -> PowerProfile {
    profile("power-saver", false, ScalingGovernor::Powersave, EnergyPreference::Power)
}

fn state(
    boost: bool,
    scaling_governor: ScalingGovernor,
    energy_preference: EnergyPreference,
) -> InferredPowerProfile {
    InferredPowerProfile {
        cpu: Some(cpu::types::InferredPowerProfile {
            boost,
            energy_preference,
            scaling_governor,
            maximum_frequency: 4000000,
            cpus: Vec::new(),
        }),
    }
}

fn catalog() -> Settings {
    Settings::new("balanced".to_string(), vec![performance(), balanced(), power_saver()]).unwrap()
}

#[test]
fn a_catalog_keeps_its_profiles_in_order() {
    let settings = catalog();
    assert_eq!(settings.default(), "balanced");
    assert_eq!(settings.profiles(), &vec![performance(), balanced(), power_saver()]);
}

#[test]
fn a_default_that_no_profile_has_is_refused() {
    assert_eq!(
        Settings::new("quiet".to_string(), vec![performance(), balanced()]).err(),
        Some(SettingsError::UnknownDefault)
    );
    assert_eq!(
        Settings::new("balanced".to_string(), Vec::new()).err(),
        Some(SettingsError::UnknownDefault)
    );
}

#[test]
fn a_profile_without_a_name_is_refused() {
    let nameless =
        profile("", true, ScalingGovernor::Performance, EnergyPreference::Performance);
    assert_eq!(
        Settings::new("balanced".to_string(), vec![balanced(), nameless]).err(),
        Some(SettingsError::EmptyName)
    );
}

#[test]
fn two_profiles_of_one_name_are_refused() {
    assert_eq!(
        Settings::new("balanced".to_string(), vec![balanced(), performance(), balanced()]).err(),
        Some(SettingsError::DuplicateName)
    );
}

#[test]
fn refusals_come_in_order() {
    let nameless = profile("", true, ScalingGovernor::Performance, EnergyPreference::Performance);
    assert_eq!(
        Settings::new("quiet".to_string(), vec![balanced(), balanced(), nameless]).err(),
        Some(SettingsError::EmptyName)
    );
    assert_eq!(
        Settings::new("quiet".to_string(), vec![balanced(), balanced()]).err(),
        Some(SettingsError::DuplicateName)
    );
}

#[test]
fn profiles_are_found_by_name() {
    let settings = catalog();
    assert_eq!(settings.profile_by_name(&"power-saver".to_string()), Some(&power_saver()));
    assert_eq!(settings.profile_by_name(&"performance".to_string()), Some(&performance()));
    assert_eq!(settings.profile_by_name(&"unknown".to_string()), None);
    assert_eq!(settings.profile_by_name(&"".to_string()), None);
}

#[test]
fn a_state_is_matched_by_boost_governor_and_preference() {
    let settings = catalog();
    assert_eq!(
        settings.profile_by_inferred(state(
            false,
            ScalingGovernor::Powersave,
            EnergyPreference::Power
        )),
        Some(power_saver())
    );
    assert_eq!(
        settings.profile_by_inferred(state(
            true,
            ScalingGovernor::Performance,
            EnergyPreference::Performance
        )),
        Some(performance())
    );
}

#[test]
fn a_state_that_no_profile_asks_for_matches_none() {
    let settings = catalog();
    assert_eq!(
        settings.profile_by_inferred(state(
            true,
            ScalingGovernor::Powersave,
            EnergyPreference::Power
        )),
        None
    );
    assert_eq!(settings.profile_by_inferred(InferredPowerProfile { cpu: None }), None);
}

#[test]
fn the_frequency_limit_does_not_count_in_a_match() {
    let mut limited = power_saver();
    limited.cpu.maximum_frequency = Some(1200000);
    let settings = Settings::new("power-saver".to_string(), vec![limited.clone()]).unwrap();
    assert_eq!(
        settings.profile_by_inferred(state(
            false,
            ScalingGovernor::Powersave,
            EnergyPreference::Power
        )),
        Some(limited)
    );
}

#[test]
fn among_profiles_that_ask_for_one_state_the_first_wins() {
    let mut twin = power_saver();
    twin.name = "quiet".to_string();
    let settings =
        Settings::new("quiet".to_string(), vec![performance(), twin.clone(), power_saver()])
            .unwrap();
    assert_eq!(
        settings.profile_by_inferred(state(
            false,
            ScalingGovernor::Powersave,
            EnergyPreference::Power
        )),
        Some(twin)
    );
}

fn cpu_state(
    cpu_id: u32,
    scaling_governor: ScalingGovernor,
    energy_preference: EnergyPreference,
) -> CpuState {
    CpuState { cpu_id, energy_preference, scaling_governor, maximum_frequency: 4000000 }
}

#[test]
fn cpus_are_held_against_their_own_settings_where_a_profile_has_some() {
    let mut mixed = performance();
    mixed.name = "mixed".to_string();
    mixed.cpu.overrides = vec![(
        1,
        CpuPowerProfile {
            energy_preference: EnergyPreference::Power,
            scaling_governor: ScalingGovernor::Powersave,
            maximum_frequency: None,
        },
    )];
    let settings = Settings::new("mixed".to_string(), vec![mixed.clone()]).unwrap();
    let mut seen = cpu::types::InferredPowerProfile {
        boost: true,
        energy_preference: EnergyPreference::Performance,
        scaling_governor: ScalingGovernor::Performance,
        maximum_frequency: 4000000,
        cpus: vec![
            cpu_state(0, ScalingGovernor::Performance, EnergyPreference::Performance),
            cpu_state(1, ScalingGovernor::Powersave, EnergyPreference::Power),
        ],
    };
    assert!(seen.eq(&mixed.cpu));
    assert_eq!(
        settings.profile_by_inferred(InferredPowerProfile { cpu: Some(seen.clone()) }),
        Some(mixed.clone())
    );
    seen.cpus[1] = cpu_state(1, ScalingGovernor::Performance, EnergyPreference::Performance);
    assert!(!seen.eq(&mixed.cpu));
    assert_eq!(settings.profile_by_inferred(InferredPowerProfile { cpu: Some(seen) }), None);
}

#[test]
fn settings_for_single_cpus_come_before_the_profiles_own() {
    let mut mixed = performance();
    let quiet = CpuPowerProfile {
        energy_preference: EnergyPreference::Power,
        scaling_governor: ScalingGovernor::Powersave,
        maximum_frequency: Some(800000),
    };
    let other = CpuPowerProfile {
        energy_preference: EnergyPreference::Default,
        scaling_governor: ScalingGovernor::Powersave,
        maximum_frequency: None,
    };
    mixed.cpu.overrides = vec![(2, quiet), (2, other), (5, other)];
    assert_eq!(mixed.cpu.cpu_power_profile(2), quiet);
    assert_eq!(mixed.cpu.cpu_power_profile(5), other);
    assert_eq!(
        mixed.cpu.cpu_power_profile(0),
        CpuPowerProfile {
            energy_preference: EnergyPreference::Performance,
            scaling_governor: ScalingGovernor::Performance,
            maximum_frequency: None,
        }
    );
}

#[test]
fn a_profile_of_the_catalog_gives_its_cpu_settings_under_its_name() {
    let converted = cpu::types::PowerProfile::from(power_saver());
    let mut expected = power_saver().cpu;
    expected.name = Some("power-saver".to_string());
    assert_eq!(converted, expected);
}

#[test]
fn copies_are_equal() {
    assert_eq!(power_saver().clone(), power_saver());
    let settings = catalog();
    let copy = settings.clone();
    assert_eq!(copy.default(), settings.default());
    assert_eq!(copy.profiles(), settings.profiles());
}
