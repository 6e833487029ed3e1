//! The catalog of profiles and its default.

use crate::drivers::cpu::types::InferredPowerProfileView;
use crate::types::{InferredPowerProfile, PowerProfile, PowerProfileView, state_matches};
use vstd::prelude::*;
use vstd::string::StrSliceExecFns;

verus! {

/// Why a catalog was refused.
#[derive(Clone, Copy, Debug, PartialEq, Eq, Structural)]
pub enum SettingsError {
    /// A profile has the empty name.
    EmptyName,
    /// Two profiles have the same name.
    DuplicateName,
    /// No profile has the default's name.
    UnknownDefault,
}

/// What a `Settings` holds: the default's name and the profiles in the order
/// in which they were given.
pub struct SettingsView {
    pub default: Seq<char>,
    pub profiles: Seq<PowerProfileView>,
}

/// Whether no profile has the empty name.
pub open spec fn names_given(profiles: Seq<PowerProfileView>) -> bool {
    forall|i: int| 0 <= i < profiles.len() ==> (#[trigger] profiles[i]).name.len() > 0
}

/// Whether no two profiles have the same name.
pub open spec fn names_unique(profiles: Seq<PowerProfileView>) -> bool {
    forall|i: int, j: int|
        0 <= i < j < profiles.len() ==> (#[trigger] profiles[i]).name != (
        #[trigger] profiles[j]).name
}

/// Whether a profile has the name `name`.
pub open spec fn has_name(profiles: Seq<PowerProfileView>, name: Seq<char>) -> bool {
    exists|i: int| 0 <= i < profiles.len() && (#[trigger] profiles[i]).name == name
}

/// What the profiles of a catalog hold, one by one.
pub open spec fn views_of(profiles: Seq<PowerProfile>) -> Seq<PowerProfileView> {
    profiles.map_values(|profile: PowerProfile| profile@)
}

impl SettingsView {
    /// The catalog's invariant: every profile has a name, no two have the
    /// same, and one has the default's.
    pub open spec fn wf(self) -> bool {
        &&& names_given(self.profiles)
        &&& names_unique(self.profiles)
        &&& has_name(self.profiles, self.default)
    }

    /// The profile with the name `name`.
    pub open spec fn by_name(self, name: Seq<char>) -> Option<PowerProfileView> {
        if has_name(self.profiles, name) {
            Some(
                self.profiles[choose|i: int|
                    0 <= i < self.profiles.len() && (#[trigger] self.profiles[i]).name == name],
            )
        } else {
            None
        }
    }

    /// Whether profile `i` is the first, in the catalog's order, that asks
    /// for the state `state`.
    pub open spec fn is_first_match(self, state: Option<InferredPowerProfileView>, i: int) -> bool {
        &&& 0 <= i < self.profiles.len()
        &&& state_matches(state, self.profiles[i])
        &&& forall|j: int| 0 <= j < i ==> !state_matches(state, #[trigger] self.profiles[j])
    }

    /// Whether no profile asks for the state `state`.
    pub open spec fn no_match(self, state: Option<InferredPowerProfileView>) -> bool {
        forall|i: int|
            0 <= i < self.profiles.len() ==> !state_matches(state, #[trigger] self.profiles[i])
    }

    /// The name to report for the state `state`: that of the first profile,
    /// in the catalog's order, that asks for the state; the default's where
    /// no profile does.
    pub open spec fn name_for(self, state: Option<InferredPowerProfileView>) -> Seq<char> {
        if self.no_match(state) {
            self.default
        } else {
            self.profiles[choose|i: int| self.is_first_match(state, i)].name
        }
    }
}

/// The catalog of profiles: fixed once it is built.
#[derive(Debug)]
pub struct Settings {
    default: String,
    profiles: Vec<PowerProfile>,
}

impl View for Settings {
    type V = SettingsView;

    closed spec fn view(&self) -> SettingsView {
        SettingsView { default: self.default@, profiles: views_of(self.profiles@) }
    }
}

impl Clone for Settings {
    fn clone(&self) -> (copy: Self)
        ensures
            copy@ == self@,
    {
        proof {
            use_type_invariant(self);
        }
        let mut profiles: Vec<PowerProfile> = Vec::new();
        let mut i: usize = 0;
        while i < self.profiles.len()
            invariant
                i <= self.profiles.len(),
                profiles.len() == i,
                views_of(profiles@) == views_of(self.profiles@).take(i as int),
            decreases self.profiles.len() - i,
        {
            let ghost before = profiles@;
            profiles.push(self.profiles[i].clone());
            assert forall|k: int| 0 <= k <= i implies views_of(profiles@)[k] == views_of(
                self.profiles@,
            )[k] by {
                if k < i {
                    assert(profiles@[k] == before[k]);
                    assert(views_of(before)[k] == views_of(self.profiles@).take(i as int)[k]);
                }
            }
            assert(views_of(profiles@) =~= views_of(self.profiles@).take(i + 1));
            i += 1;
        }
        assert(views_of(profiles@) =~= views_of(self.profiles@));
        Settings { default: self.default.clone(), profiles }
    }
}

impl Settings {
    /// The invariant that every catalog keeps.
    #[verifier::type_invariant]
    pub open spec fn inv(self) -> bool {
        self@.wf()
    }

    /// Builds the catalog. The profiles keep the order in which they are
    /// given. A profile without a name, two profiles of one name, and a
    /// default that no profile has are refused, in this order.
    pub fn new(default: String, profiles: Vec<PowerProfile>) -> (built: Result<
        Self,
        SettingsError,
    >)
        ensures
            match built {
                Ok(settings) => {
                    &&& settings@.wf()
                    &&& settings@.default == default@
                    &&& settings@.profiles == views_of(profiles@)
                },
                Err(SettingsError::EmptyName) => !names_given(views_of(profiles@)),
                Err(SettingsError::DuplicateName) => {
                    &&& names_given(views_of(profiles@))
                    &&& !names_unique(views_of(profiles@))
                },
                Err(SettingsError::UnknownDefault) => {
                    &&& names_given(views_of(profiles@))
                    &&& names_unique(views_of(profiles@))
                    &&& !has_name(views_of(profiles@), default@)
                },
            },
    {
        let ghost views = views_of(profiles@);
        let mut i: usize = 0;
        while i < profiles.len()
            invariant
                i <= profiles.len(),
                views == views_of(profiles@),
                forall|k: int| 0 <= k < i ==> (#[trigger] views[k]).name.len() > 0,
            decreases profiles.len() - i,
        {
            if profiles[i].name.as_str().unicode_len() == 0 {
                assert(views[i as int].name.len() == 0);
                return Err(SettingsError::EmptyName);
            }
            i += 1;
        }
        let mut j: usize = 0;
        while j < profiles.len()
            invariant
                j <= profiles.len(),
                views == views_of(profiles@),
                names_given(views),
                forall|a: int, b: int|
                    0 <= a < b < j ==> (#[trigger] views[a]).name != (#[trigger] views[b]).name,
            decreases profiles.len() - j,
        {
            let mut k: usize = 0;
            while k < j
                invariant
                    k <= j < profiles.len(),
                    views == views_of(profiles@),
                    names_given(views),
                    forall|a: int| 0 <= a < k ==> (#[trigger] views[a]).name != views[j as int].name,
                decreases j - k,
            {
                if profiles[k].name == profiles[j].name {
                    assert(views[k as int].name == views[j as int].name);
                    return Err(SettingsError::DuplicateName);
                }
                k += 1;
            }
            j += 1;
        }
        let mut found = false;
        let mut d: usize = 0;
        while d < profiles.len()
            invariant
                d <= profiles.len(),
                views == views_of(profiles@),
                found ==> has_name(views, default@),
                !found ==> forall|a: int| 0 <= a < d ==> (#[trigger] views[a]).name != default@,
            decreases profiles.len() - d,
        {
            if profiles[d].name == default {
                assert(views[d as int].name == default@);
                found = true;
            }
            d += 1;
        }
        if !found {
            return Err(SettingsError::UnknownDefault);
        }
        Ok(Settings { default: default, profiles: profiles })
    }

    /// The name of the default profile.
    pub fn default(&self) -> (name: &String)
        ensures
            name@ == self@.default,
            self@.wf(),
    {
        proof {
            use_type_invariant(self);
        }
        &self.default
    }

    /// The profiles, in the catalog's order.
    pub fn profiles(&self) -> (profiles: &Vec<PowerProfile>)
        ensures
            views_of(profiles@) == self@.profiles,
            self@.wf(),
    {
        proof {
            use_type_invariant(self);
        }
        &self.profiles
    }

    /// The profile with the name `profile_name`, if the catalog has one.
    pub fn profile_by_name(&self, profile_name: &String) -> (found: Option<&PowerProfile>)
        ensures
            match found {
                Some(profile) => self@.by_name(profile_name@) == Some(profile@),
                None => self@.by_name(profile_name@) is None,
            },
    {
        proof {
            use_type_invariant(self);
        }
        let ghost views = views_of(self.profiles@);
        let mut i: usize = 0;
        while i < self.profiles.len()
            invariant
                i <= self.profiles.len(),
                views == views_of(self.profiles@),
                views == self@.profiles,
                names_unique(views),
                forall|a: int| 0 <= a < i ==> (#[trigger] views[a]).name != profile_name@,
            decreases self.profiles.len() - i,
        {
            if self.profiles[i].name == *profile_name {
                assert(views[i as int].name == profile_name@);
                assert(views[i as int] == self.profiles[i as int]@);
                return Some(&self.profiles[i]);
            }
            i += 1;
        }
        None
    }

    /// The first profile, in the catalog's order, that asks for the state
    /// `inferred_profile`; `None` where no profile does.
    pub fn profile_by_inferred(&self, inferred_profile: InferredPowerProfile) -> (found: Option<
        PowerProfile,
    >)
        ensures
            match found {
                Some(profile) => exists|i: int|
                    self@.is_first_match(inferred_profile@, i) && self@.profiles[i] == profile@,
                None => self@.no_match(inferred_profile@),
            },
    {
        let ghost views = views_of(self.profiles@);
        let mut i: usize = 0;
        while i < self.profiles.len()
            invariant
                i <= self.profiles.len(),
                views == views_of(self.profiles@),
                views == self@.profiles,
                forall|a: int| 0 <= a < i ==> !state_matches(inferred_profile@, #[trigger] views[a]),
            decreases self.profiles.len() - i,
        {
            if inferred_profile.eq(&self.profiles[i]) {
                assert(views[i as int] == self.profiles[i as int]@);
                assert(self@.is_first_match(inferred_profile@, i as int));
                return Some(self.profiles[i].clone());
            }
            i += 1;
        }
        None
    }
}

/// At most one profile is the first that asks for a state.
pub proof fn lemma_first_match_unique(
    settings: SettingsView,
    state: Option<InferredPowerProfileView>,
    i: int,
    j: int,
)
    requires
        settings.is_first_match(state, i),
        settings.is_first_match(state, j),
    ensures
        i == j,
{
    if i < j {
        assert(!state_matches(state, settings.profiles[i]));
    } else if j < i {
        assert(!state_matches(state, settings.profiles[j]));
    }
}

/// The name reported for a state that no profile asks for is the default's;
/// for any other state, that of the first profile that asks for it.
pub proof fn lemma_name_for(settings: SettingsView, state: Option<InferredPowerProfileView>)
    ensures
        settings.no_match(state) ==> settings.name_for(state) == settings.default,
        forall|i: int|
            settings.is_first_match(state, i) ==> settings.name_for(state)
                == settings.profiles[i].name,
{
    assert forall|i: int| settings.is_first_match(state, i) implies settings.name_for(state)
        == settings.profiles[i].name by {
        assert(!settings.no_match(state));
        let k = choose|k: int| settings.is_first_match(state, k);
        lemma_first_match_unique(settings, state, i, k);
    }
}

/// The name reported for a state is the name of a profile of the catalog.
pub proof fn lemma_name_for_is_a_name(
    settings: SettingsView,
    state: Option<InferredPowerProfileView>,
)
    requires
        settings.wf(),
    ensures
        has_name(settings.profiles, settings.name_for(state)),
{
    if !settings.no_match(state) {
        let k = choose|k: int|
            0 <= k < settings.profiles.len() && state_matches(state, #[trigger] settings.profiles[k]);
        lemma_first_match_exists(settings, state, k);
        let i = choose|i: int| settings.is_first_match(state, i);
        assert(settings.profiles[i].name == settings.name_for(state));
    }
}

/// Where a profile asks for a state, one is the first to do so, and it
/// stands no later in the catalog.
pub proof fn lemma_first_match_exists(
    settings: SettingsView,
    state: Option<InferredPowerProfileView>,
    k: int,
)
    requires
        0 <= k < settings.profiles.len(),
        state_matches(state, settings.profiles[k]),
    ensures
        exists|i: int| 0 <= i <= k && settings.is_first_match(state, i),
    decreases k,
{
    if exists|j: int| 0 <= j < k && state_matches(state, #[trigger] settings.profiles[j]) {
        let j = choose|j: int| 0 <= j < k && state_matches(state, #[trigger] settings.profiles[j]);
        lemma_first_match_exists(settings, state, j);
    } else {
        assert(settings.is_first_match(state, k));
    }
}

} // verus!
