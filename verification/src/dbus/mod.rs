//! The service's requests, answered from the catalog, the backend and the
//! registry of holds. What a request reads from the hardware is handed in as
//! a snapshot; what it writes is handed out as a plan.

use crate::drivers::{Driver, DriverView};
use crate::drivers::reflect::{lemma_activation_is_inferred, writes_what_it_reads};
use crate::error::{agrees, Error};
use crate::holds::{HoldRegistry, HoldRegistryView, lemma_cookies_distinct, Request};
use crate::plan::{all_made, is_first_failure, Plan, reports_of, written_groups};
use crate::settings::{
    has_name, lemma_first_match_exists, lemma_name_for, lemma_name_for_is_a_name, Settings,
    SettingsView,
};
use crate::sysfs::{Node, Snapshot, Store, Write};
use crate::types::{PowerProfileHold, PowerProfileHoldView, state_matches};
use vstd::prelude::*;

pub mod types;

verus! {

/// Why a request failed.
#[derive(Clone, Copy, Debug, PartialEq, Eq, Structural)]
pub enum RequestError {
    /// The request names a profile that the catalog does not have.
    InvalidArgs,
    /// The backend failed.
    Failed(Error),
}

/// What a request for the active profile answers on the machine that a
/// store describes: the name for the state that the backend infers.
pub open spec fn active_profile_of(driver: DriverView, settings: SettingsView, store: Store)
    -> Result<Seq<char>, RequestError> {
    match driver.state_of(store) {
        Ok(state) => Ok(settings.name_for(Some(state))),
        Err(error) => Err(RequestError::Failed(error)),
    }
}

/// The profile that the hardware reflects on the machine that a store
/// describes: the name of the first profile of the catalog that asks for the
/// state which the backend infers; none where no profile asks for it.
pub open spec fn matched_profile_of(driver: DriverView, settings: SettingsView, store: Store)
    -> Result<Option<Seq<char>>, RequestError> {
    match driver.state_of(store) {
        Ok(state) => if settings.no_match(Some(state)) {
            Ok(None)
        } else {
            Ok(Some(settings.name_for(Some(state))))
        },
        Err(error) => Err(RequestError::Failed(error)),
    }
}

/// What a request to activate the profile `name` answers on the machine that
/// a store describes: the writes to make.
pub open spec fn activation_of(
    driver: DriverView,
    settings: SettingsView,
    name: Seq<char>,
    store: Store,
) -> Result<Seq<Seq<Write>>, RequestError> {
    match settings.by_name(name) {
        None => Err(RequestError::InvalidArgs),
        Some(profile) => match driver.plan_of(profile.cpu, store) {
            Ok(plan) => Ok(plan),
            Err(error) => Err(RequestError::Failed(error)),
        },
    }
}

/// The registry after a request to hold the profile `hold.profile`, and the
/// request's answer. `activation` is how the activation of the profile
/// ended. A profile that the catalog does not have, and an activation that
/// failed, leave the registry as it was.
pub open spec fn hold_of(
    registry: HoldRegistryView,
    settings: SettingsView,
    hold: PowerProfileHoldView,
    activation: Result<(), RequestError>,
) -> (HoldRegistryView, Result<u32, RequestError>) {
    if settings.by_name(hold.profile) is None {
        (registry, Err(RequestError::InvalidArgs))
    } else if activation is Err {
        (registry, Err(activation->Err_0))
    } else {
        match registry.hold(hold).1 {
            Some(cookie) => (registry.hold(hold).0, Ok(cookie)),
            None => (registry, Err(RequestError::Failed(Error::CookiesExhausted))),
        }
    }
}

/// The service's state: the backend that was chosen, the catalog, and the
/// holds in force.
#[derive(Debug)]
pub struct Handler {
    driver: Driver,
    profile_holds: HoldRegistry,
    settings: Settings,
}

impl Handler {
    /// The backend.
    pub closed spec fn driver(&self) -> DriverView {
        self.driver@
    }

    /// The holds in force.
    pub closed spec fn registry(&self) -> HoldRegistryView {
        self.profile_holds@
    }

    /// The catalog.
    pub closed spec fn catalog(&self) -> SettingsView {
        self.settings@
    }

    /// The state's invariant, which holds of every state: those of the
    /// registry and of the catalog.
    pub open spec fn wf(&self) -> bool {
        &&& self.registry().wf()
        &&& self.catalog().wf()
    }

    /// The service's state at its start: no hold is in force.
    pub fn new(driver: Driver, settings: Settings) -> (handler: Self)
        ensures
            handler.wf(),
            handler.driver() == driver@,
            handler.catalog() == settings@,
            handler.registry().holds == Map::<u32, PowerProfileHoldView>::empty(),
            handler.registry().issued == 0,
    {
        proof {
            use_type_invariant(&settings);
        }
        Self { driver: driver, profile_holds: HoldRegistry::new(), settings: settings }
    }

    /// The service's state with the holds of `profile_holds` in force.
    pub fn with_holds(driver: Driver, settings: Settings, profile_holds: HoldRegistry) -> (handler:
        Self)
        ensures
            handler.wf(),
            handler.driver() == driver@,
            handler.catalog() == settings@,
            handler.registry() == profile_holds@,
    {
        proof {
            use_type_invariant(&profile_holds);
            use_type_invariant(&settings);
        }
        Self { driver: driver, profile_holds: profile_holds, settings: settings }
    }

    /// The actions that the service offers: none.
    pub fn actions(&self) -> (actions: Vec<String>)
        ensures
            actions@.len() == 0,
    {
        Vec::new()
    }

    /// The files to read into the snapshot that a request takes.
    pub fn nodes(&self) -> (nodes: Vec<Node>)
        ensures
            nodes@ == self.driver().nodes(),
    {
        self.driver.nodes()
    }

    /// The profile that the hardware reflects: the name of the first profile
    /// of the catalog that asks for the state which the backend infers, and
    /// `None` where no profile asks for it. Fails where the backend cannot
    /// infer the state.
    pub fn matched_profile(&self, snapshot: &Snapshot) -> (name: Result<
        Option<String>,
        RequestError,
    >)
        ensures
            self.wf(),
            match name {
                Ok(Some(name)) => matched_profile_of(self.driver(), self.catalog(), snapshot@)
                    == Ok::<Option<Seq<char>>, RequestError>(Some(name@)),
                Ok(None) => matched_profile_of(self.driver(), self.catalog(), snapshot@) == Ok::<
                    Option<Seq<char>>,
                    RequestError,
                >(None),
                Err(error) => matched_profile_of(self.driver(), self.catalog(), snapshot@) == Err::<
                    Option<Seq<char>>,
                    RequestError,
                >(error),
            },
    {
        proof {
            use_type_invariant(&self.profile_holds);
            use_type_invariant(&self.settings);
        }
        match self.driver.current(snapshot) {
            Ok(profile) => {
                proof {
                    lemma_name_for(self.settings@, profile@);
                }
                match self.settings.profile_by_inferred(profile) {
                    Some(profile) => Ok(Some(profile.name)),
                    None => Ok(None),
                }
            },
            Err(err) => Err(RequestError::Failed(err)),
        }
    }

    /// The name of the active profile: that of the profile which the
    /// hardware reflects, and that of the default where it reflects none. It
    /// is the name of a profile of the catalog. Fails where the backend
    /// cannot infer the state.
    pub fn active_profile(&self, snapshot: &Snapshot) -> (name: Result<String, RequestError>)
        ensures
            self.wf(),
            agrees(name, active_profile_of(self.driver(), self.catalog(), snapshot@)),
            name matches Ok(name) ==> has_name(self.catalog().profiles, name@),
    {
        proof {
            if self.driver().state_of(snapshot@) is Ok {
                use_type_invariant(&self.settings);
                lemma_name_for_is_a_name(
                    self.settings@,
                    Some(self.driver().state_of(snapshot@)->Ok_0),
                );
            }
        }
        match self.matched_profile(snapshot) {
            Ok(Some(name)) => Ok(name),
            Ok(None) => Ok(self.settings.default().clone()),
            Err(err) => Err(err),
        }
    }

    /// Whether an activation leaves the boost switch alone although the
    /// profile sets it: the backend is in a mode that cannot set the switch.
    pub fn skips_boost(&self) -> (skipped: bool)
        ensures
            skipped == self.driver().skips_boost(),
    {
        self.driver.skips_boost()
    }

    /// The writes that activate the profile `name`. Fails with `InvalidArgs`
    /// where the catalog has no such profile, and with the backend's failure
    /// where it cannot plan the writes.
    pub fn set_active_profile(&self, name: String, snapshot: &Snapshot) -> (plan: Result<
        Plan,
        RequestError,
    >)
        ensures
            self.wf(),
            agrees(plan, activation_of(self.driver(), self.catalog(), name@, snapshot@)),
    {
        proof {
            use_type_invariant(&self.profile_holds);
            use_type_invariant(&self.settings);
        }
        match self.settings.profile_by_name(&name) {
            Some(profile) => match self.driver.activate(profile, snapshot) {
                Ok(plan) => Ok(plan),
                Err(err) => Err(RequestError::Failed(err)),
            },
            None => Err(RequestError::InvalidArgs),
        }
    }

    /// How an activation ended, from the report of each write of its plan:
    /// `true` where the write was made. It fails with the first write that
    /// was not made.
    pub fn activation_result(plan: &Plan, done: &Vec<Vec<bool>>) -> (result: Result<
        (),
        RequestError,
    >)
        ensures
            match result {
                Ok(()) => all_made(plan@, reports_of(done@)),
                Err(error) => exists|g: int, w: int|
                    is_first_failure(plan@, reports_of(done@), g, w) && error
                        == RequestError::Failed(Error::Io(plan@[g][w].node)),
            },
    {
        match plan.outcome(done) {
            Ok(()) => Ok(()),
            Err(err) => Err(RequestError::Failed(err)),
        }
    }

    /// The holds in force, in the order in which they were taken.
    pub fn active_profile_holds(&self) -> (holds: Vec<PowerProfileHold>)
        ensures
            self.registry().is_listed_by(self.registry().listing()),
            holds.len() == self.registry().listing().len(),
            forall|i: int|
                0 <= i < holds.len() ==> (#[trigger] holds[i])@ == self.registry().listing()[i].1,
    {
        let listed = self.profile_holds.list();
        let mut holds: Vec<PowerProfileHold> = Vec::new();
        let mut i: usize = 0;
        while i < listed.len()
            invariant
                i <= listed.len(),
                holds.len() == i,
                forall|k: int| 0 <= k < i ==> (#[trigger] holds[k])@ == listed[k].1@,
            decreases listed.len() - i,
        {
            holds.push(listed[i].1.clone());
            i += 1;
        }
        proof {
            assert forall|k: int| 0 <= k < holds.len() implies (#[trigger] holds[k])@
                == self.registry().listing()[k].1 by {
                assert(crate::holds::entries_of(listed@)[k] == (listed[k].0, listed[k].1@));
            }
        }
        holds
    }

    /// Why performance is degraded: it never is.
    pub fn performance_degraded(&self) -> (reason: String)
        ensures
            reason@.len() == 0,
    {
        String::new()
    }

    /// Why performance is inhibited: it never is.
    pub fn performance_inhibited(&self) -> (reason: String)
        ensures
            reason@.len() == 0,
    {
        String::new()
    }

    /// The profiles of the catalog, in its order, each with the name of the
    /// backend.
    pub fn profiles(&self) -> (listed: Vec<types::PowerProfile>)
        ensures
            listed.len() == self.catalog().profiles.len(),
            forall|i: int|
                0 <= i < listed.len() ==> (#[trigger] listed[i])@ == types::listed(
                    self.catalog().profiles[i].name,
                    self.driver().name(),
                ),
    {
        let catalog = self.settings.profiles();
        let mut listed: Vec<types::PowerProfile> = Vec::new();
        let mut i: usize = 0;
        while i < catalog.len()
            invariant
                i <= catalog.len(),
                crate::settings::views_of(catalog@) == self.catalog().profiles,
                listed.len() == i,
                forall|k: int|
                    0 <= k < i ==> (#[trigger] listed[k])@ == types::listed(
                        self.catalog().profiles[k].name,
                        self.driver().name(),
                    ),
            decreases catalog.len() - i,
        {
            assert(self.catalog().profiles[i as int] == catalog@[i as int]@);
            listed.push(types::PowerProfile::new(&catalog[i], self.driver.name()));
            i += 1;
        }
        listed
    }

    /// Takes a hold on `profile` for `application_id`, once the profile was
    /// activated; `activation` is how that ended. Fails with `InvalidArgs`
    /// where the catalog has no such profile, else with the failure of the
    /// activation. Else the hold is in force under the cookie returned,
    /// which no call on this state has returned before.
    pub fn hold_profile(
        &mut self,
        profile: &str,
        reason: &str,
        application_id: &str,
        activation: Result<(), RequestError>,
    ) -> (cookie: Result<u32, RequestError>)
        ensures
            final(self).wf(),
            final(self).driver() == old(self).driver(),
            final(self).catalog() == old(self).catalog(),
            (final(self).registry(), cookie) == hold_of(
                old(self).registry(),
                old(self).catalog(),
                PowerProfileHoldView {
                    application_id: application_id@,
                    profile: profile@,
                    reason: reason@,
                },
                activation,
            ),
    {
        proof {
            use_type_invariant(&self.profile_holds);
            use_type_invariant(&self.settings);
        }
        let name = profile.to_owned();
        if self.settings.profile_by_name(&name).is_none() {
            return Err(RequestError::InvalidArgs);
        }
        match activation {
            Err(err) => {
                return Err(err);
            },
            Ok(()) => {},
        }
        let hold = PowerProfileHold::new(application_id.to_owned(), name, reason.to_owned());
        match self.profile_holds.insert(hold) {
            Some(cookie) => Ok(cookie),
            None => Err(RequestError::Failed(Error::CookiesExhausted)),
        }
    }

    /// Releases the hold under `cookie` on the service's own account, and
    /// returns it: the hold's owner is to be told that it was released.
    /// Where there was none, nothing changes.
    pub fn force_release(&mut self, cookie: u32) -> (released: Option<PowerProfileHold>)
        ensures
            final(self).wf(),
            final(self).driver() == old(self).driver(),
            final(self).catalog() == old(self).catalog(),
            final(self).registry() == old(self).registry().release(cookie),
            match released {
                Some(hold) => old(self).registry().get(cookie) == Some(hold@),
                None => !old(self).registry().contains(cookie),
            },
    {
        proof {
            use_type_invariant(&self.settings);
        }
        self.profile_holds.remove(cookie)
    }

    /// Releases the hold under `cookie`, and tells whether there was one.
    /// Where there was none, nothing changes.
    pub fn release_profile(&mut self, cookie: u32) -> (released: bool)
        ensures
            final(self).wf(),
            final(self).driver() == old(self).driver(),
            final(self).catalog() == old(self).catalog(),
            final(self).registry() == old(self).registry().release(cookie),
            released == old(self).registry().contains(cookie),
    {
        proof {
            use_type_invariant(&self.settings);
        }
        self.profile_holds.remove(cookie).is_some()
    }
}

/// A request that bears on the holds.
pub enum HoldRequest {
    /// Hold a profile; the second part is how the profile's activation
    /// ended.
    Hold(PowerProfileHoldView, Result<(), RequestError>),
    /// Release the hold under a cookie.
    Release(u32),
}

/// The call on the registry that a request comes to: a hold on a profile
/// that the catalog does not have, or whose activation failed, is turned
/// away.
pub open spec fn call_of(settings: SettingsView, request: HoldRequest) -> Request {
    match request {
        HoldRequest::Hold(hold, activation) => if settings.by_name(hold.profile) is None
            || activation is Err {
            Request::Nothing
        } else {
            Request::Hold(hold)
        },
        HoldRequest::Release(cookie) => Request::Release(cookie),
    }
}

/// The calls on the registry that a series of requests comes to.
pub open spec fn calls_of(settings: SettingsView, requests: Seq<HoldRequest>) -> Seq<Request> {
    requests.map_values(|request: HoldRequest| call_of(settings, request))
}

/// The registry after a series of requests, and the cookie that each was
/// answered with.
pub open spec fn served(
    registry: HoldRegistryView,
    settings: SettingsView,
    requests: Seq<HoldRequest>,
) -> (HoldRegistryView, Seq<Option<u32>>) {
    registry.run(calls_of(settings, requests))
}

/// A request for a hold is answered as the call that it comes to: the
/// registry after it is that of the call, and the cookie is the one that the
/// call issued.
pub proof fn lemma_hold_is_a_call(
    registry: HoldRegistryView,
    settings: SettingsView,
    hold: PowerProfileHoldView,
    activation: Result<(), RequestError>,
)
    ensures
        ({
            let call = registry.step(call_of(settings, HoldRequest::Hold(hold, activation)));
            let answer = hold_of(registry, settings, hold, activation);
            &&& answer.0 == call.0
            &&& match answer.1 {
                Ok(cookie) => call.1 == Some(cookie),
                Err(_) => call.1 is None,
            }
        }),
{
}

/// Holds that different requests of one series take have different cookies,
/// whatever was released, refused or failed in between: the later request
/// gets the greater cookie.
pub proof fn lemma_hold_cookies_distinct(
    registry: HoldRegistryView,
    settings: SettingsView,
    requests: Seq<HoldRequest>,
    i: int,
    j: int,
)
    requires
        registry.wf(),
        0 <= i < j < requests.len(),
        served(registry, settings, requests).1[i] is Some,
        served(registry, settings, requests).1[j] is Some,
    ensures
        served(registry, settings, requests).1[i]->0 < served(registry, settings, requests).1[j]->0,
{
    lemma_cookies_distinct(registry, calls_of(settings, requests), i, j);
}

/// Activation, then the request for the active profile: on a machine where
/// the backend writes all that it reads back, once the writes that activate
/// a profile of the catalog are made, the active profile is one that asks
/// for the state which the backend infers, never the default for want of a
/// match; and it is the profile activated, unless a profile that asks for
/// the same state stands before it in the catalog.
pub proof fn lemma_activated_profile_is_active(
    driver: DriverView,
    settings: SettingsView,
    name: Seq<char>,
    store: Store,
)
    requires
        settings.wf(),
        settings.by_name(name) is Some,
        writes_what_it_reads(driver, store),
    ensures
        activation_of(driver, settings, name, store) is Ok,
        ({
            let after = written_groups(store, activation_of(driver, settings, name, store)->Ok_0);
            let state = Some(driver.state_of(after)->Ok_0);
            &&& driver.state_of(after) is Ok
            &&& state_matches(state, settings.by_name(name)->0)
            &&& active_profile_of(driver, settings, after) is Ok
            &&& exists|i: int|
                settings.is_first_match(state, i) && active_profile_of(driver, settings, after)
                    == Ok::<Seq<char>, RequestError>(settings.profiles[i].name)
            &&& forall|i: int|
                settings.is_first_match(state, i) && settings.profiles[i].name == name
                    ==> active_profile_of(driver, settings, after) == Ok::<
                    Seq<char>,
                    RequestError,
                >(name)
        }),
{
    let profile = settings.by_name(name)->0;
    let k = choose|i: int|
        0 <= i < settings.profiles.len() && (#[trigger] settings.profiles[i]).name == name;
    lemma_activation_is_inferred(driver, profile.cpu, store);
    let after = written_groups(store, activation_of(driver, settings, name, store)->Ok_0);
    let state = Some(driver.state_of(after)->Ok_0);
    lemma_first_match_exists(settings, state, k);
    lemma_name_for(settings, state);
}

} // verus!
