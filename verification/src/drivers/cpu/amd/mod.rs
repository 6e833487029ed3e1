//! AMD's backend.

use crate::error::{agrees, Error};
use crate::sysfs::{Node, PolicyProperty, read, Snapshot, Store};
use crate::text::same_text;
use super::marker_node;
use super::types::{DriverSettings, PowerProfile, PowerProfileView};
use vstd::prelude::*;
use vstd::string::StringExecFns;

pub mod pstate;

verus! {

/// The backend's options of each profile that has a name and options, under
/// the profile's name, in the order of the profiles.
pub open spec fn settings_of(profiles: Seq<PowerProfileView>) -> Seq<(Seq<char>, DriverSettings)>
    decreases profiles.len(),
{
    if profiles.len() == 0 {
        Seq::empty()
    } else {
        let last = profiles.last();
        let before = settings_of(profiles.drop_last());
        if last.name is Some && last.driver_options is Some {
            before.push((last.name->0, last.driver_options->0))
        } else {
            before
        }
    }
}

/// What a list of profiles holds, profile by profile.
pub open spec fn views_of(profiles: Seq<PowerProfile>) -> Seq<PowerProfileView> {
    profiles.map_values(|profile: PowerProfile| profile@)
}

/// The backend that a store lets AMD's probe find: one for the driver
/// `amd-pstate` or `amd-pstate-epp`, under the driver's name and in the mode
/// that the driver reports.
pub open spec fn probed(profiles: Seq<PowerProfileView>, store: Store) -> Result<
    pstate::DriverView,
    Error,
> {
    match read(store, marker_node()) {
        Err(error) => Err(error),
        Ok(marker) => if marker == "amd-pstate"@ || marker == "amd-pstate-epp"@ {
            pstate::driver_of(false, marker, settings_of(profiles), store)
        } else {
            Err(Error::Unsupported)
        },
    }
}

fn profile_driver_settings(profiles: &Vec<PowerProfile>) -> (settings: Vec<
    (String, DriverSettings),
>)
    ensures
        pstate::settings_view(settings@) == settings_of(views_of(profiles@)),
{
    let ghost views = views_of(profiles@);
    let mut settings: Vec<(String, DriverSettings)> = Vec::new();
    let mut i: usize = 0;
    assert(views.take(0) =~= Seq::<PowerProfileView>::empty());
    assert(pstate::settings_view(settings@) =~= Seq::<(Seq<char>, DriverSettings)>::empty());
    while i < profiles.len()
        invariant
            i <= profiles.len(),
            views == views_of(profiles@),
            pstate::settings_view(settings@) == settings_of(views.take(i as int)),
        decreases profiles.len() - i,
    {
        let ghost before = settings@;
        let ghost upto = views.take(i + 1);
        assert(upto.drop_last() =~= views.take(i as int));
        assert(upto.last() == profiles@[i as int]@);
        match (&profiles[i].name, profiles[i].driver_options) {
            (Some(name), Some(options)) => {
                settings.push((name.clone(), options));
                assert(pstate::settings_view(settings@) =~= pstate::settings_view(before).push(
                    (name@, options),
                )) by {
                    assert forall|k: int| 0 <= k < before.len() implies pstate::settings_view(
                        settings@,
                    )[k] == pstate::settings_view(before)[k] by {
                        assert(settings@[k] == before[k]);
                    }
                }
            },
            _ => {},
        }
        i += 1;
    }
    assert(views.take(profiles.len() as int) =~= views);
    settings
}

/// Probes AMD's backend. It declines with `Unsupported` where the first
/// policy names another driver than `amd-pstate` and `amd-pstate-epp`.
pub fn probe(profiles: &Vec<PowerProfile>, snapshot: &Snapshot) -> (driver: Result<
    pstate::Driver,
    Error,
>)
    ensures
        agrees(driver, probed(views_of(profiles@), snapshot@)),
{
    let profile_driver_settings = profile_driver_settings(profiles);
    let driver = snapshot.read(
        Node::Policy { cpu_id: 0, property: PolicyProperty::ScalingDriver },
    )?;
    if same_text(driver, "amd-pstate") {
        pstate::Driver::new(
            false,
            String::from_str("amd-pstate"),
            profile_driver_settings,
            snapshot,
        )
    } else if same_text(driver, "amd-pstate-epp") {
        pstate::Driver::new(
            false,
            String::from_str("amd-pstate-epp"),
            profile_driver_settings,
            snapshot,
        )
    } else {
        Err(Error::Unsupported)
    }
}

} // verus!
