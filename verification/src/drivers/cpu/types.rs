//! The settings of a power profile and the tokens the kernel knows them by.

use crate::text::same_text;
use vstd::prelude::*;
use vstd::string::StringExecFns;

verus! {

/// A text that is no token of the setting it was read as.
#[derive(Clone, Copy, Debug, PartialEq, Eq, Structural)]
pub struct UnknownToken {}

/// Hint to the firmware on how to weigh performance against energy.
#[derive(Clone, Copy, Debug, PartialEq, Eq, Structural)]
pub enum EnergyPreference {
    Default,
    Performance,
    BalancePerformance,
    BalancePower,
    Power,
}

impl EnergyPreference {
    /// The kernel's token for this preference.
    pub open spec fn token(self) -> Seq<char> {
        match self {
            EnergyPreference::Default => "default"@,
            EnergyPreference::Performance => "performance"@,
            EnergyPreference::BalancePerformance => "balance_performance"@,
            EnergyPreference::BalancePower => "balance_power"@,
            EnergyPreference::Power => "power"@,
        }
    }

    /// The preference that a kernel token names.
    pub open spec fn parse(text: Seq<char>) -> Option<EnergyPreference> {
        if text == "default"@ {
            Some(EnergyPreference::Default)
        } else if text == "performance"@ {
            Some(EnergyPreference::Performance)
        } else if text == "balance_performance"@ {
            Some(EnergyPreference::BalancePerformance)
        } else if text == "balance_power"@ {
            Some(EnergyPreference::BalancePower)
        } else if text == "power"@ {
            Some(EnergyPreference::Power)
        } else {
            None
        }
    }

    /// The preference that a name in a configuration file stands for: the
    /// name of the variant, or one of its aliases.
    pub open spec fn parse_alias(text: Seq<char>) -> Option<EnergyPreference> {
        if text == "Default"@ || text == "default"@ {
            Some(EnergyPreference::Default)
        } else if text == "Performance"@ || text == "performance"@ {
            Some(EnergyPreference::Performance)
        } else if text == "BalancePerformance"@ || text == "balance_performance"@ {
            Some(EnergyPreference::BalancePerformance)
        } else if text == "BalancePower"@ || text == "balancePower"@ {
            Some(EnergyPreference::BalancePower)
        } else if text == "Power"@ || text == "power"@ {
            Some(EnergyPreference::Power)
        } else {
            None
        }
    }

    /// The kernel's token for this preference.
    pub fn to_string(&self) -> (text: String)
        ensures
            text@ == self.token(),
    {
        String::from_str(
            match self {
                EnergyPreference::Default => "default",
                EnergyPreference::Performance => "performance",
                EnergyPreference::BalancePerformance => "balance_performance",
                EnergyPreference::BalancePower => "balance_power",
                EnergyPreference::Power => "power",
            },
        )
    }

    /// Reads a kernel token.
    pub fn from_str(s: &str) -> (parsed: Result<EnergyPreference, UnknownToken>)
        ensures
            parsed == match EnergyPreference::parse(s@) {
                Some(preference) => Ok::<EnergyPreference, UnknownToken>(preference),
                None => Err(UnknownToken {  }),
            },
    {
        if same_text(s, "default") {
            Ok(EnergyPreference::Default)
        } else if same_text(s, "performance") {
            Ok(EnergyPreference::Performance)
        } else if same_text(s, "balance_performance") {
            Ok(EnergyPreference::BalancePerformance)
        } else if same_text(s, "balance_power") {
            Ok(EnergyPreference::BalancePower)
        } else if same_text(s, "power") {
            Ok(EnergyPreference::Power)
        } else {
            Err(UnknownToken {  })
        }
    }

    /// Reads a name from a configuration file, where the variant's own name
    /// and its alias both stand for the variant.
    pub fn from_alias(s: &str) -> (parsed: Result<EnergyPreference, UnknownToken>)
        ensures
            parsed == match EnergyPreference::parse_alias(s@) {
                Some(preference) => Ok::<EnergyPreference, UnknownToken>(preference),
                None => Err(UnknownToken {  }),
            },
    {
        if same_text(s, "Default") || same_text(s, "default") {
            Ok(EnergyPreference::Default)
        } else if same_text(s, "Performance") || same_text(s, "performance") {
            Ok(EnergyPreference::Performance)
        } else if same_text(s, "BalancePerformance") || same_text(s, "balance_performance") {
            Ok(EnergyPreference::BalancePerformance)
        } else if same_text(s, "BalancePower") || same_text(s, "balancePower") {
            Ok(EnergyPreference::BalancePower)
        } else if same_text(s, "Power") || same_text(s, "power") {
            Ok(EnergyPreference::Power)
        } else {
            Err(UnknownToken {  })
        }
    }

    /// Reads a kernel token.
    pub fn try_from(value: &str) -> (parsed: Result<EnergyPreference, UnknownToken>)
        ensures
            parsed == match EnergyPreference::parse(value@) {
                Some(preference) => Ok::<EnergyPreference, UnknownToken>(preference),
                None => Err(UnknownToken {  }),
            },
    {
        EnergyPreference::from_str(value)
    }

    /// The kernel's token for this preference.
    pub fn into(self) -> (text: String)
        ensures
            text@ == self.token(),
    {
        self.to_string()
    }
}

/// The kernel's frequency-scaling policy.
#[derive(Clone, Copy, Debug, PartialEq, Eq, Structural)]
pub enum ScalingGovernor {
    Performance,
    Powersave,
}

impl ScalingGovernor {
    /// The kernel's token for this governor.
    pub open spec fn token(self) -> Seq<char> {
        match self {
            ScalingGovernor::Performance => "performance"@,
            ScalingGovernor::Powersave => "powersave"@,
        }
    }

    /// The governor that a kernel token names.
    pub open spec fn parse(text: Seq<char>) -> Option<ScalingGovernor> {
        if text == "performance"@ {
            Some(ScalingGovernor::Performance)
        } else if text == "powersave"@ {
            Some(ScalingGovernor::Powersave)
        } else {
            None
        }
    }

    /// The governor that a name in a configuration file stands for: the
    /// name of the variant.
    pub open spec fn parse_alias(text: Seq<char>) -> Option<ScalingGovernor> {
        if text == "Performance"@ {
            Some(ScalingGovernor::Performance)
        } else if text == "Powersave"@ {
            Some(ScalingGovernor::Powersave)
        } else {
            None
        }
    }

    /// The kernel's token for this governor.
    pub fn to_string(&self) -> (text: String)
        ensures
            text@ == self.token(),
    {
        String::from_str(
            match self {
                ScalingGovernor::Performance => "performance",
                ScalingGovernor::Powersave => "powersave",
            },
        )
    }

    /// Reads a kernel token.
    pub fn from_str(s: &str) -> (parsed: Result<ScalingGovernor, UnknownToken>)
        ensures
            parsed == match ScalingGovernor::parse(s@) {
                Some(governor) => Ok::<ScalingGovernor, UnknownToken>(governor),
                None => Err(UnknownToken {  }),
            },
    {
        if same_text(s, "performance") {
            Ok(ScalingGovernor::Performance)
        } else if same_text(s, "powersave") {
            Ok(ScalingGovernor::Powersave)
        } else {
            Err(UnknownToken {  })
        }
    }

    /// Reads a name from a configuration file, where the variant's own name
    /// stands for the variant.
    pub fn from_alias(s: &str) -> (parsed: Result<ScalingGovernor, UnknownToken>)
        ensures
            parsed == match ScalingGovernor::parse_alias(s@) {
                Some(governor) => Ok::<ScalingGovernor, UnknownToken>(governor),
                None => Err(UnknownToken {  }),
            },
    {
        if same_text(s, "Performance") {
            Ok(ScalingGovernor::Performance)
        } else if same_text(s, "Powersave") {
            Ok(ScalingGovernor::Powersave)
        } else {
            Err(UnknownToken {  })
        }
    }

    /// Reads a kernel token.
    pub fn try_from(value: &str) -> (parsed: Result<ScalingGovernor, UnknownToken>)
        ensures
            parsed == match ScalingGovernor::parse(value@) {
                Some(governor) => Ok::<ScalingGovernor, UnknownToken>(governor),
                None => Err(UnknownToken {  }),
            },
    {
        ScalingGovernor::from_str(value)
    }

    /// The kernel's token for this governor.
    pub fn into(self) -> (text: String)
        ensures
            text@ == self.token(),
    {
        self.to_string()
    }
}

/// Reveals what the tokens of both settings spell.
pub proof fn lemma_tokens_spelled()
    ensures
        "default"@.len() == 7,
        "performance"@.len() == 11,
        "balance_performance"@.len() == 19,
        "balance_power"@.len() == 13,
        "power"@.len() == 5,
        "powersave"@.len() == 9,
        "performance"@[1] == 'e',
        "powersave"@[1] == 'o',
{
    reveal_strlit("default");
    reveal_strlit("performance");
    reveal_strlit("balance_performance");
    reveal_strlit("balance_power");
    reveal_strlit("power");
    reveal_strlit("powersave");
}

/// Every energy preference is read back from its own token.
pub proof fn lemma_energy_preference_token_parses(preference: EnergyPreference)
    ensures
        EnergyPreference::parse(preference.token()) == Some(preference),
{
    lemma_tokens_spelled();
}

/// A text that reads as an energy preference is that preference's token:
/// text to value and back gives the text.
pub proof fn lemma_energy_preference_parse_is_token(text: Seq<char>)
    ensures
        match EnergyPreference::parse(text) {
            Some(preference) => preference.token() == text,
            None => forall|preference: EnergyPreference| preference.token() != text,
        },
{
    assert forall|preference: EnergyPreference|
        EnergyPreference::parse(text) is None implies preference.token() != text by {
        lemma_energy_preference_token_parses(preference);
    }
}

/// Every scaling governor is read back from its own token.
pub proof fn lemma_scaling_governor_token_parses(governor: ScalingGovernor)
    ensures
        ScalingGovernor::parse(governor.token()) == Some(governor),
{
    lemma_tokens_spelled();
}

/// A text that reads as a scaling governor is that governor's token: text to
/// value and back gives the text.
pub proof fn lemma_scaling_governor_parse_is_token(text: Seq<char>)
    ensures
        match ScalingGovernor::parse(text) {
            Some(governor) => governor.token() == text,
            None => forall|governor: ScalingGovernor| governor.token() != text,
        },
{
    assert forall|governor: ScalingGovernor|
        ScalingGovernor::parse(text) is None implies governor.token() != text by {
        lemma_scaling_governor_token_parses(governor);
    }
}

/// The settings that a profile asks of one CPU.
#[derive(Clone, Copy, Debug, PartialEq, Eq, Structural)]
pub struct CpuPowerProfile {
    pub energy_preference: EnergyPreference,
    pub scaling_governor: ScalingGovernor,
    pub maximum_frequency: Option<u32>,
}

/// Options of a profile that only the AMD P-State backend reads.
#[derive(Clone, Copy, Debug, PartialEq, Eq, Structural)]
pub struct DriverSettings {}

/// A CPU's settings for one of the listed CPUs: the first entry with its id.
pub open spec fn find_override(
    overrides: Seq<(u32, CpuPowerProfile)>,
    cpu_id: u32,
) -> Option<CpuPowerProfile>
    decreases overrides.len(),
{
    if overrides.len() == 0 {
        None
    } else if overrides[0].0 == cpu_id {
        Some(overrides[0].1)
    } else {
        find_override(overrides.skip(1), cpu_id)
    }
}

/// A named target state of the CPUs.
#[derive(Debug, PartialEq, Eq)]
pub struct PowerProfile {
    pub name: Option<String>,
    pub boost: bool,
    pub energy_preference: EnergyPreference,
    pub scaling_governor: ScalingGovernor,
    /// The highest frequency allowed, in kHz; `None` lifts the limit.
    pub maximum_frequency: Option<u32>,
    /// Settings for single CPUs, by CPU id, in place of the profile's own.
    pub overrides: Vec<(u32, CpuPowerProfile)>,
    pub driver_options: Option<DriverSettings>,
}

/// What a `PowerProfile` holds.
pub struct PowerProfileView {
    pub name: Option<Seq<char>>,
    pub boost: bool,
    pub energy_preference: EnergyPreference,
    pub scaling_governor: ScalingGovernor,
    pub maximum_frequency: Option<u32>,
    pub overrides: Seq<(u32, CpuPowerProfile)>,
    pub driver_options: Option<DriverSettings>,
}

impl PowerProfileView {
    /// The settings for a CPU that has none of its own.
    pub open spec fn defaults(self) -> CpuPowerProfile {
        CpuPowerProfile {
            energy_preference: self.energy_preference,
            scaling_governor: self.scaling_governor,
            maximum_frequency: self.maximum_frequency,
        }
    }

    /// The settings for CPU `cpu_id`: its own where the profile lists some,
    /// else the profile's.
    pub open spec fn cpu_power_profile(self, cpu_id: u32) -> CpuPowerProfile {
        match find_override(self.overrides, cpu_id) {
            Some(settings) => settings,
            None => self.defaults(),
        }
    }
}

impl View for PowerProfile {
    type V = PowerProfileView;

    open spec fn view(&self) -> PowerProfileView {
        PowerProfileView {
            name: match self.name {
                Some(name) => Some(name@),
                None => None,
            },
            boost: self.boost,
            energy_preference: self.energy_preference,
            scaling_governor: self.scaling_governor,
            maximum_frequency: self.maximum_frequency,
            overrides: self.overrides@,
            driver_options: self.driver_options,
        }
    }
}

impl Clone for PowerProfile {
    fn clone(&self) -> (copy: Self)
        ensures
            copy@ == self@,
    {
        let mut overrides: Vec<(u32, CpuPowerProfile)> = Vec::new();
        let mut i: usize = 0;
        while i < self.overrides.len()
            invariant
                i <= self.overrides.len(),
                overrides@ == self.overrides@.take(i as int),
            decreases self.overrides.len() - i,
        {
            overrides.push(self.overrides[i]);
            assert(overrides@ =~= self.overrides@.take(i + 1));
            i += 1;
        }
        assert(overrides@ =~= self.overrides@);
        PowerProfile {
            name: match &self.name {
                Some(name) => Some(name.clone()),
                None => None,
            },
            boost: self.boost,
            energy_preference: self.energy_preference,
            scaling_governor: self.scaling_governor,
            maximum_frequency: self.maximum_frequency,
            overrides,
            driver_options: self.driver_options,
        }
    }
}

impl PowerProfile {
    /// The CPU settings of a profile of the catalog, under the profile's
    /// name.
    pub fn from(value: crate::types::PowerProfile) -> (profile: Self)
        ensures
            profile@ == (PowerProfileView { name: Some(value.name@), ..value.cpu@ }),
    {
        let crate::types::PowerProfile { cpu, name } = value;
        PowerProfile {
            name: Some(name),
            boost: cpu.boost,
            energy_preference: cpu.energy_preference,
            scaling_governor: cpu.scaling_governor,
            maximum_frequency: cpu.maximum_frequency,
            overrides: cpu.overrides,
            driver_options: cpu.driver_options,
        }
    }

    /// The settings for CPU `cpu_id`: its own where the profile lists some,
    /// else the profile's.
    pub fn cpu_power_profile(&self, cpu_id: u32) -> (settings: CpuPowerProfile)
        ensures
            settings == self@.cpu_power_profile(cpu_id),
    {
        let mut i: usize = 0;
        assert(self.overrides@.skip(0) =~= self.overrides@);
        while i < self.overrides.len()
            invariant
                i <= self.overrides.len(),
                find_override(self.overrides@, cpu_id) == find_override(
                    self.overrides@.skip(i as int),
                    cpu_id,
                ),
            decreases self.overrides.len() - i,
        {
            let ghost rest = self.overrides@.skip(i as int);
            assert(rest[0] == self.overrides@[i as int]);
            if self.overrides[i].0 == cpu_id {
                return self.overrides[i].1;
            }
            assert(rest.skip(1) =~= self.overrides@.skip(i + 1));
            i += 1;
        }
        CpuPowerProfile {
            energy_preference: self.energy_preference,
            scaling_governor: self.scaling_governor,
            maximum_frequency: self.maximum_frequency,
        }
    }
}

/// The settings that one CPU was seen to have.
#[derive(Clone, Copy, Debug, PartialEq, Eq, Structural)]
pub struct CpuState {
    pub cpu_id: u32,
    pub energy_preference: EnergyPreference,
    pub scaling_governor: ScalingGovernor,
    pub maximum_frequency: u32,
}

/// The state that the hardware was seen to have.
#[derive(Debug, PartialEq, Eq)]
pub struct InferredPowerProfile {
    pub boost: bool,
    pub energy_preference: EnergyPreference,
    pub scaling_governor: ScalingGovernor,
    pub maximum_frequency: u32,
    /// The state CPU by CPU, where the backend reads it; else empty.
    pub cpus: Vec<CpuState>,
}

/// What an `InferredPowerProfile` holds.
pub struct InferredPowerProfileView {
    pub boost: bool,
    pub energy_preference: EnergyPreference,
    pub scaling_governor: ScalingGovernor,
    pub maximum_frequency: u32,
    pub cpus: Seq<CpuState>,
}

impl View for InferredPowerProfile {
    type V = InferredPowerProfileView;

    open spec fn view(&self) -> InferredPowerProfileView {
        InferredPowerProfileView {
            boost: self.boost,
            energy_preference: self.energy_preference,
            scaling_governor: self.scaling_governor,
            maximum_frequency: self.maximum_frequency,
            cpus: self.cpus@,
        }
    }
}

impl Clone for InferredPowerProfile {
    fn clone(&self) -> (copy: Self)
        ensures
            copy@ == self@,
    {
        let mut cpus: Vec<CpuState> = Vec::new();
        let mut i: usize = 0;
        while i < self.cpus.len()
            invariant
                i <= self.cpus.len(),
                cpus@ == self.cpus@.take(i as int),
            decreases self.cpus.len() - i,
        {
            cpus.push(self.cpus[i]);
            assert(cpus@ =~= self.cpus@.take(i + 1));
            i += 1;
        }
        assert(cpus@ =~= self.cpus@);
        InferredPowerProfile {
            boost: self.boost,
            energy_preference: self.energy_preference,
            scaling_governor: self.scaling_governor,
            maximum_frequency: self.maximum_frequency,
            cpus,
        }
    }
}

impl InferredPowerProfileView {
    /// Whether CPU `i` of the state has the governor and the energy
    /// preference that `profile` asks of it.
    pub open spec fn cpu_matches(self, profile: PowerProfileView, i: int) -> bool {
        let target = profile.cpu_power_profile(self.cpus[i].cpu_id);
        &&& self.cpus[i].scaling_governor == target.scaling_governor
        &&& self.cpus[i].energy_preference == target.energy_preference
    }

    /// Whether the state is the one that `profile` asks for: the same boost
    /// flag, governor and energy preference. Where the profile has settings
    /// for single CPUs and the state was read CPU by CPU, each CPU is held
    /// against the settings the profile has for it.
    pub open spec fn matches(self, profile: PowerProfileView) -> bool {
        &&& self.boost == profile.boost
        &&& if profile.overrides.len() > 0 && self.cpus.len() > 0 {
            forall|i: int| 0 <= i < self.cpus.len() ==> self.cpu_matches(profile, i)
        } else {
            &&& self.scaling_governor == profile.scaling_governor
            &&& self.energy_preference == profile.energy_preference
        }
    }
}

impl InferredPowerProfile {
    /// Whether the state is the one that `other` asks for.
    pub fn eq(&self, other: &PowerProfile) -> (same: bool)
        ensures
            same == self@.matches(other@),
    {
        if self.boost != other.boost {
            return false;
        }
        if other.overrides.len() > 0 && self.cpus.len() > 0 {
            let mut i: usize = 0;
            while i < self.cpus.len()
                invariant
                    i <= self.cpus.len(),
                    self.boost == other.boost,
                    other.overrides.len() > 0 && self.cpus.len() > 0,
                    forall|j: int| 0 <= j < i ==> self@.cpu_matches(other@, j),
                decreases self.cpus.len() - i,
            {
                let target = other.cpu_power_profile(self.cpus[i].cpu_id);
                if self.cpus[i].scaling_governor != target.scaling_governor
                    || self.cpus[i].energy_preference != target.energy_preference {
                    assert(!self@.cpu_matches(other@, i as int));
                    return false;
                }
                i += 1;
            }
            true
        } else {
            self.scaling_governor == other.scaling_governor && self.energy_preference
                == other.energy_preference
        }
    }
}

} // verus!
