use power_profiles::dbus::types::PowerProfile as ListedProfile;
use power_profiles::dbus::{Handler, RequestError};
use power_profiles::drivers::cpu;
use power_profiles::drivers::cpu::types::{EnergyPreference, ScalingGovernor};
use power_profiles::drivers::Driver;
use power_profiles::error::Error;
use power_profiles::holds::HoldRegistry;
use power_profiles::settings::Settings;
use power_profiles::plan::Plan;
use power_profiles::sysfs::{Node, PolicyProperty, Snapshot};
use power_profiles::types::{PowerProfile, PowerProfileHold};

fn profile(
    name: &str,
    boost: bool,
    scaling_governor: ScalingGovernor,
    energy_preference: EnergyPreference,
) -> PowerProfile {
    PowerProfile {
        cpu: cpu::types::PowerProfile {
            name: None,
            boost,
            energy_preference,
            scaling_governor,
            maximum_frequency: None,
            overrides: Vec::new(),
            driver_options: None,
        },
        name: name.to_string(),
    }
}

fn catalog() -> Settings {
    Settings::new(
        "performance".to_string(),
        vec![
            profile("performance", true, ScalingGovernor::Performance, EnergyPreference::Performance),
            profile("power-saver", false, ScalingGovernor::Powersave, EnergyPreference::Power),
        ],
    )
    .unwrap()
}

fn intel() -> Driver {
    Driver::Intel(cpu::intel::pstate::Driver {
        dry_run: false,
        _status: cpu::intel::pstate::Status::Active,
    })
}

fn machine() -> Snapshot {
    let mut snapshot = Snapshot::new();
    snapshot.record(Node::OnlineCpus, "0-3\n".to_string());
    snapshot.record(Node::NoTurbo, "0\n".to_string());
    snapshot.record(Node::policy(0, PolicyProperty::ScalingGovernor), "performance\n".to_string());
    snapshot.record(
        Node::policy(0, PolicyProperty::EnergyPerformancePreference),
        "performance\n".to_string(),
    );
    snapshot.record(Node::policy(0, PolicyProperty::ScalingMaxFreq), "4000000\n".to_string());
    snapshot
}

fn run(snapshot: &mut Snapshot, plan: &Plan) -> Vec<Vec<bool>> {
    let mut done = Vec::new();
    for group in &plan.groups {
        let mut reports = Vec::new();
        for write in group {
            snapshot.apply(write);
            reports.push(true);
        }
        done.push(reports);
    }
    done
}

fn activate(handler: &Handler, machine: &mut Snapshot, name: &str) -> Result<(), RequestError> {
    let plan = handler.set_active_profile(name.to_string(), machine)?;
    let done = run(machine, &plan);
    Handler::activation_result(&plan, &done)
}

#[test]
fn set_then_get_then_hold_then_release() {
    let mut handler = Handler::new(intel(), catalog());
    let mut machine = machine();

    assert_eq!(activate(&handler, &mut machine, "power-saver"), Ok(()));
    assert_eq!(handler.active_profile(&machine), Ok("power-saver".to_string()));

    let activation = activate(&handler, &mut machine, "performance");
    let cookie = handler.hold_profile("performance", "lap", "app1", activation).unwrap();
    assert_eq!(
        handler.active_profile_holds(),
        vec![PowerProfileHold::new(
            "app1".to_string(),
            "performance".to_string(),
            "lap".to_string()
        )]
    );
    assert_eq!(handler.active_profile(&machine), Ok("performance".to_string()));

    assert!(handler.release_profile(cookie));
    assert!(handler.active_profile_holds().is_empty());

    assert_eq!(activate(&handler, &mut machine, "power-saver"), Ok(()));
    let before = handler.active_profile(&machine);
    assert_eq!(
        handler.set_active_profile("unknown".to_string(), &machine),
        Err(RequestError::InvalidArgs)
    );
    assert_eq!(handler.active_profile(&machine), before);
    assert_eq!(handler.active_profile(&machine), Ok("power-saver".to_string()));
}

#[test]
fn a_state_that_no_profile_asks_for_is_reported_as_the_default() {
    let handler = Handler::new(intel(), catalog());
    let mut machine = machine();
    machine.record(Node::policy(0, PolicyProperty::ScalingGovernor), "powersave\n".to_string());
    assert_eq!(handler.active_profile(&machine), Ok("performance".to_string()));
    let other = Settings::new(
        "power-saver".to_string(),
        vec![
            profile("performance", true, ScalingGovernor::Performance, EnergyPreference::Performance),
            profile("power-saver", false, ScalingGovernor::Powersave, EnergyPreference::Power),
        ],
    )
    .unwrap();
    let handler = Handler::new(intel(), other);
    assert_eq!(handler.active_profile(&machine), Ok("power-saver".to_string()));
}

#[test]
fn a_state_that_cannot_be_read_fails_the_request() {
    let handler = Handler::new(intel(), catalog());
    let mut machine = machine();
    machine.record(Node::policy(0, PolicyProperty::ScalingGovernor), "ondemand\n".to_string());
    assert_eq!(
        handler.active_profile(&machine),
        Err(RequestError::Failed(Error::Parse(Node::policy(0, PolicyProperty::ScalingGovernor))))
    );
    assert_eq!(
        handler.active_profile(&Snapshot::new()),
        Err(RequestError::Failed(Error::Io(Node::policy(0, PolicyProperty::ScalingGovernor))))
    );
}

#[test]
fn an_activation_that_cannot_be_planned_fails_the_request() {
    let handler = Handler::new(intel(), catalog());
    assert_eq!(
        handler.set_active_profile("performance".to_string(), &Snapshot::new()),
        Err(RequestError::Failed(Error::Io(Node::OnlineCpus)))
    );
}

#[test]
fn an_activation_fails_with_its_first_failed_write() {
    let handler = Handler::new(intel(), catalog());
    let plan = handler.set_active_profile("power-saver".to_string(), &machine()).unwrap();
    assert_eq!(plan.groups.len(), 5);
    let mut done = vec![vec![true], vec![true; 3], vec![true; 3], vec![true; 3], vec![true; 3]];
    assert_eq!(Handler::activation_result(&plan, &done), Ok(()));
    done[2][1] = false;
    done[4][0] = false;
    assert_eq!(
        Handler::activation_result(&plan, &done),
        Err(RequestError::Failed(Error::Io(Node::policy(
            1,
            PolicyProperty::EnergyPerformancePreference
        ))))
    );
}

#[test]
fn a_hold_on_an_unknown_profile_is_refused_and_leaves_no_trace() {
    let mut handler = Handler::new(intel(), catalog());
    assert_eq!(
        handler.hold_profile("unknown", "lap", "app1", Ok(())),
        Err(RequestError::InvalidArgs)
    );
    assert_eq!(
        handler.hold_profile(
            "unknown",
            "lap",
            "app1",
            Err(RequestError::Failed(Error::Io(Node::Boost)))
        ),
        Err(RequestError::InvalidArgs)
    );
    assert!(handler.active_profile_holds().is_empty());
    assert_eq!(handler.hold_profile("performance", "lap", "app1", Ok(())), Ok(0));
}

#[test]
fn a_hold_whose_activation_failed_is_not_taken() {
    let mut handler = Handler::new(intel(), catalog());
    let failure = RequestError::Failed(Error::Io(Node::NoTurbo));
    assert_eq!(handler.hold_profile("performance", "lap", "app1", Err(failure)), Err(failure));
    assert!(handler.active_profile_holds().is_empty());
    assert_eq!(handler.hold_profile("performance", "lap", "app1", Ok(())), Ok(0));
}

#[test]
fn holds_get_cookies_of_their_own() {
    let mut handler = Handler::new(intel(), catalog());
    let first = handler.hold_profile("performance", "a", "app1", Ok(())).unwrap();
    let second = handler.hold_profile("performance", "a", "app1", Ok(())).unwrap();
    assert_ne!(first, second);
    assert!(handler.release_profile(first));
    let third = handler.hold_profile("power-saver", "b", "app2", Ok(())).unwrap();
    assert!(third != first && third != second);
    assert_eq!(
        handler.active_profile_holds(),
        vec![
            PowerProfileHold::new("app1".to_string(), "performance".to_string(), "a".to_string()),
            PowerProfileHold::new("app2".to_string(), "power-saver".to_string(), "b".to_string())
        ]
    );
}

#[test]
fn releasing_a_cookie_without_a_hold_is_no_error_and_changes_nothing() {
    let mut handler = Handler::new(intel(), catalog());
    assert!(!handler.release_profile(5));
    let cookie = handler.hold_profile("performance", "lap", "app1", Ok(())).unwrap();
    assert!(!handler.release_profile(cookie + 1));
    assert_eq!(handler.active_profile_holds().len(), 1);
    assert!(handler.release_profile(cookie));
    assert!(!handler.release_profile(cookie));
}

#[test]
fn profiles_are_listed_with_the_backend() {
    let handler = Handler::new(intel(), catalog());
    let listed = handler.profiles();
    assert_eq!(
        listed,
        vec![
            ListedProfile {
                Profile: "performance".to_string(),
                CpuDriver: "intel_pstate".to_string(),
                Driver: "multiple".to_string(),
                PlatformDriver: "placeholder".to_string(),
            },
            ListedProfile {
                Profile: "power-saver".to_string(),
                CpuDriver: "intel_pstate".to_string(),
                Driver: "multiple".to_string(),
                PlatformDriver: "placeholder".to_string(),
            }
        ]
    );
    assert_eq!(
        ListedProfile::new(&catalog().profiles()[1], "dummy".to_string()),
        ListedProfile {
            Profile: "power-saver".to_string(),
            CpuDriver: "dummy".to_string(),
            Driver: "multiple".to_string(),
            PlatformDriver: "placeholder".to_string(),
        }
    );
}

#[test]
fn the_service_offers_no_actions_and_no_degradation() {
    let handler = Handler::new(intel(), catalog());
    assert!(handler.actions().is_empty());
    assert_eq!(handler.performance_degraded(), "");
    assert_eq!(handler.performance_inhibited(), "");
    assert_eq!(handler.nodes(), intel().nodes());
}

#[test]
fn with_the_dummy_backend_the_active_profile_is_the_one_of_its_fixed_state() {
    let handler = Handler::new(Driver::Dummy(cpu::dummy::Driver {}), catalog());
    assert_eq!(handler.active_profile(&Snapshot::new()), Ok("performance".to_string()));
    assert_eq!(
        handler.set_active_profile("power-saver".to_string(), &Snapshot::new()),
        Ok(Plan { groups: Vec::new() })
    );
    assert_eq!(handler.active_profile(&Snapshot::new()), Ok("performance".to_string()));
}

#[test]
fn a_forced_release_hands_out_the_hold() {
    let mut handler = Handler::new(intel(), catalog());
    let first = handler.hold_profile("performance", "a", "app1", Ok(())).unwrap();
    let second = handler.hold_profile("power-saver", "b", "app2", Ok(())).unwrap();
    assert_eq!(
        handler.force_release(first),
        Some(PowerProfileHold::new(
            "app1".to_string(),
            "performance".to_string(),
            "a".to_string()
        ))
    );
    assert_eq!(handler.force_release(first), None);
    assert_eq!(
        handler.active_profile_holds(),
        vec![PowerProfileHold::new(
            "app2".to_string(),
            "power-saver".to_string(),
            "b".to_string()
        )]
    );
    assert!(handler.release_profile(second));
}

#[test]
fn a_hold_fails_once_every_cookie_is_issued() {
    let mut handler =
        Handler::with_holds(intel(), catalog(), HoldRegistry::starting_at(u32::MAX));
    assert_eq!(handler.hold_profile("performance", "a", "app1", Ok(())), Ok(u32::MAX));
    assert_eq!(
        handler.hold_profile("performance", "b", "app2", Ok(())),
        Err(RequestError::Failed(Error::CookiesExhausted))
    );
    assert_eq!(handler.active_profile_holds().len(), 1);
    assert!(handler.release_profile(u32::MAX));
    assert_eq!(
        handler.hold_profile("performance", "c", "app3", Ok(())),
        Err(RequestError::Failed(Error::CookiesExhausted))
    );
}

#[test]
fn the_profile_that_the_hardware_reflects_is_told_apart_from_the_default() {
    let handler = Handler::new(intel(), catalog());
    let mut machine = machine();
    assert_eq!(handler.matched_profile(&machine), Ok(Some("performance".to_string())));
    assert_eq!(handler.active_profile(&machine), Ok("performance".to_string()));
    machine.record(Node::policy(0, PolicyProperty::ScalingGovernor), "powersave\n".to_string());
    assert_eq!(handler.matched_profile(&machine), Ok(None));
    assert_eq!(handler.active_profile(&machine), Ok("performance".to_string()));
    machine.record(Node::policy(0, PolicyProperty::ScalingGovernor), "?\n".to_string());
    assert_eq!(
        handler.matched_profile(&machine),
        Err(RequestError::Failed(Error::Parse(Node::policy(0, PolicyProperty::ScalingGovernor))))
    );
}

fn amd(status: cpu::amd::pstate::Status, dry_run: bool) -> Driver {
    Driver::Amd(cpu::amd::pstate::Driver {
        dry_run,
        name: "amd-pstate".to_string(),
        status,
        _profile_driver_settings: Vec::new(),
    })
}

#[test]
fn only_amd_in_a_mode_without_boost_skips_the_boost_switch() {
    assert!(Handler::new(amd(cpu::amd::pstate::Status::Active, false), catalog()).skips_boost());
    assert!(!Handler::new(amd(cpu::amd::pstate::Status::Active, true), catalog()).skips_boost());
    assert!(!Handler::new(amd(cpu::amd::pstate::Status::Guided, false), catalog()).skips_boost());
    assert!(!Handler::new(amd(cpu::amd::pstate::Status::Passive, false), catalog()).skips_boost());
    assert!(!Handler::new(intel(), catalog()).skips_boost());
    assert!(!Handler::new(Driver::Dummy(cpu::dummy::Driver {}), catalog()).skips_boost());
    assert!(amd(cpu::amd::pstate::Status::Active, false).skips_boost());
}
