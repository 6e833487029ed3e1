//! The kernel's control files: which there are, where they are, what is
//! written to them and what was read from them.

use crate::drivers::cpu::types::{EnergyPreference, ScalingGovernor};
use crate::error::{agrees, Error};
use crate::text::{decimal, decimal_string, number, parse_u32, same_text, trim, trimmed};
use vstd::prelude::*;
use vstd::string::StringExecFns;

verus! {

/// A file in the directory of one frequency-scaling policy.
#[derive(Clone, Copy, Debug, PartialEq, Eq, Structural)]
pub enum PolicyProperty {
    AffectedCpus,
    CpuinfoMaxFreq,
    CpuinfoMinFreq,
    CpuinfoTransitionLatency,
    EnergyPerformanceAvailablePreferences,
    EnergyPerformancePreference,
    RelatedCpus,
    ScalingAvailableGovernors,
    ScalingDriver,
    ScalingCurFreq,
    ScalingGovernor,
    ScalingMinFreq,
    ScalingMaxFreq,
    ScalingSetspeed,
}

impl PolicyProperty {
    /// The file's name.
    pub open spec fn spec_name(self) -> Seq<char> {
        match self {
            PolicyProperty::AffectedCpus => "affected_cpus"@,
            PolicyProperty::CpuinfoMaxFreq => "cpuinfo_max_freq"@,
            PolicyProperty::CpuinfoMinFreq => "cpuinfo_min_freq"@,
            PolicyProperty::CpuinfoTransitionLatency => "cpuinfo_transition_latency"@,
            PolicyProperty::EnergyPerformanceAvailablePreferences
                => "energy_performance_available_preferences"@,
            PolicyProperty::EnergyPerformancePreference => "energy_performance_preference"@,
            PolicyProperty::RelatedCpus => "related_cpus"@,
            PolicyProperty::ScalingAvailableGovernors => "scaling_available_governors"@,
            PolicyProperty::ScalingDriver => "scaling_driver"@,
            PolicyProperty::ScalingCurFreq => "scaling_cur_freq"@,
            PolicyProperty::ScalingGovernor => "scaling_governor"@,
            PolicyProperty::ScalingMinFreq => "scaling_min_freq"@,
            PolicyProperty::ScalingMaxFreq => "scaling_max_freq"@,
            PolicyProperty::ScalingSetspeed => "scaling_setspeed"@,
        }
    }

    /// The file's name.
    pub fn name(&self) -> (name: &'static str)
        ensures
            name@ == self.spec_name(),
    {
        match self {
            PolicyProperty::AffectedCpus => "affected_cpus",
            PolicyProperty::CpuinfoMaxFreq => "cpuinfo_max_freq",
            PolicyProperty::CpuinfoMinFreq => "cpuinfo_min_freq",
            PolicyProperty::CpuinfoTransitionLatency => "cpuinfo_transition_latency",
            PolicyProperty::EnergyPerformanceAvailablePreferences
                => "energy_performance_available_preferences",
            PolicyProperty::EnergyPerformancePreference => "energy_performance_preference",
            PolicyProperty::RelatedCpus => "related_cpus",
            PolicyProperty::ScalingAvailableGovernors => "scaling_available_governors",
            PolicyProperty::ScalingDriver => "scaling_driver",
            PolicyProperty::ScalingCurFreq => "scaling_cur_freq",
            PolicyProperty::ScalingGovernor => "scaling_governor",
            PolicyProperty::ScalingMinFreq => "scaling_min_freq",
            PolicyProperty::ScalingMaxFreq => "scaling_max_freq",
            PolicyProperty::ScalingSetspeed => "scaling_setspeed",
        }
    }
}

/// One control file.
#[derive(Clone, Copy, Debug, PartialEq, Eq, Structural)]
pub enum Node {
    /// The list of online CPUs.
    OnlineCpus,
    /// The switch that allows frequencies above the base clock.
    Boost,
    /// Intel's switch that forbids them.
    NoTurbo,
    /// The operating mode of AMD's P-State driver.
    AmdStatus,
    /// The operating mode of Intel's P-State driver.
    IntelStatus,
    /// A file of the policy of one CPU.
    Policy { cpu_id: u32, property: PolicyProperty },
}

impl Node {
    /// Where the file is.
    pub open spec fn spec_path(self) -> Seq<char> {
        match self {
            Node::OnlineCpus => "/sys/devices/system/cpu/online"@,
            Node::Boost => "/sys/devices/system/cpu/cpufreq/boost"@,
            Node::NoTurbo => "/sys/devices/system/cpu/intel_pstate/no_turbo"@,
            Node::AmdStatus => "/sys/devices/system/cpu/amd_pstate/status"@,
            Node::IntelStatus => "/sys/devices/system/cpu/intel_pstate/status"@,
            Node::Policy { cpu_id, property } => "/sys/devices/system/cpu/cpufreq/policy"@
                + decimal(cpu_id as nat) + "/"@ + property.spec_name(),
        }
    }

    /// Where the file is.
    pub fn path(&self) -> (path: String)
        ensures
            path@ == self.spec_path(),
    {
        match self {
            Node::OnlineCpus => String::from_str("/sys/devices/system/cpu/online"),
            Node::Boost => String::from_str("/sys/devices/system/cpu/cpufreq/boost"),
            Node::NoTurbo => String::from_str("/sys/devices/system/cpu/intel_pstate/no_turbo"),
            Node::AmdStatus => String::from_str("/sys/devices/system/cpu/amd_pstate/status"),
            Node::IntelStatus => String::from_str("/sys/devices/system/cpu/intel_pstate/status"),
            Node::Policy { cpu_id, property } => {
                let mut path = String::from_str("/sys/devices/system/cpu/cpufreq/policy");
                let id = decimal_string(*cpu_id);
                path.append(id.as_str());
                path.append("/");
                path.append(property.name());
                path
            },
        }
    }

    /// The file `property` of the policy of CPU `cpu_id`.
    pub fn policy(cpu_id: u32, property: PolicyProperty) -> (node: Node)
        ensures
            node == (Node::Policy { cpu_id, property }),
    {
        Node::Policy { cpu_id, property }
    }
}

/// Different files of a policy have different names.
pub proof fn lemma_names_differ(a: PolicyProperty, b: PolicyProperty)
    requires
        a != b,
    ensures
        a.spec_name() != b.spec_name(),
{
    reveal_strlit("affected_cpus");
    reveal_strlit("cpuinfo_max_freq");
    reveal_strlit("cpuinfo_min_freq");
    reveal_strlit("cpuinfo_transition_latency");
    reveal_strlit("energy_performance_available_preferences");
    reveal_strlit("energy_performance_preference");
    reveal_strlit("related_cpus");
    reveal_strlit("scaling_available_governors");
    reveal_strlit("scaling_driver");
    reveal_strlit("scaling_cur_freq");
    reveal_strlit("scaling_governor");
    reveal_strlit("scaling_min_freq");
    reveal_strlit("scaling_max_freq");
    reveal_strlit("scaling_setspeed");
    let x = a.spec_name();
    let y = b.spec_name();
    if x.len() == y.len() && x.len() == 16 {
        // The names of this length differ in one of these places.
        assert(x[0] != y[0] || x[8] != y[8] || x[9] != y[9] || x[10] != y[10]);
    }
}

/// The text after the directory of the policies: the CPU id, a slash, the
/// name of the file.
pub open spec fn policy_tail(cpu_id: u32, property: PolicyProperty) -> Seq<char> {
    decimal(cpu_id as nat) + "/"@ + property.spec_name()
}

proof fn lemma_policy_tails_differ(
    cpu_a: u32,
    property_a: PolicyProperty,
    cpu_b: u32,
    property_b: PolicyProperty,
)
    requires
        cpu_a != cpu_b || property_a != property_b,
    ensures
        policy_tail(cpu_a, property_a) != policy_tail(cpu_b, property_b),
{
    reveal_strlit("/");
    let digits_a = decimal(cpu_a as nat);
    let digits_b = decimal(cpu_b as nat);
    let tail_a = policy_tail(cpu_a, property_a);
    let tail_b = policy_tail(cpu_b, property_b);
    crate::text::lemma_decimal_denotes(cpu_a as nat);
    crate::text::lemma_decimal_denotes(cpu_b as nat);
    if tail_a == tail_b {
        assert(tail_a[digits_a.len() as int] == '/');
        assert(tail_b[digits_b.len() as int] == '/');
        assert forall|i: int| 0 <= i < digits_a.len() implies tail_a[i] != '/' by {
            assert(tail_a[i] == digits_a[i]);
            assert(crate::text::is_digit(digits_a[i]));
        }
        assert forall|i: int| 0 <= i < digits_b.len() implies tail_b[i] != '/' by {
            assert(tail_b[i] == digits_b[i]);
            assert(crate::text::is_digit(digits_b[i]));
        }
        crate::text::lemma_first_index_is(tail_a, '/', digits_a.len() as int);
        crate::text::lemma_first_index_is(tail_b, '/', digits_b.len() as int);
        assert(digits_a.len() == digits_b.len());
        assert(tail_a.take(digits_a.len() as int) =~= digits_a);
        assert(tail_b.take(digits_b.len() as int) =~= digits_b);
        assert(cpu_a == cpu_b);
        assert(tail_a.skip(digits_a.len() as int + 1) =~= property_a.spec_name());
        assert(tail_b.skip(digits_b.len() as int + 1) =~= property_b.spec_name());
        lemma_names_differ(property_a, property_b);
    }
}

/// Different files lie at different places: a store keyed by file stands
/// for the files themselves.
pub proof fn lemma_paths_differ(a: Node, b: Node)
    requires
        a != b,
    ensures
        a.spec_path() != b.spec_path(),
{
    reveal_strlit("/sys/devices/system/cpu/online");
    reveal_strlit("/sys/devices/system/cpu/cpufreq/boost");
    reveal_strlit("/sys/devices/system/cpu/intel_pstate/no_turbo");
    reveal_strlit("/sys/devices/system/cpu/amd_pstate/status");
    reveal_strlit("/sys/devices/system/cpu/intel_pstate/status");
    reveal_strlit("/sys/devices/system/cpu/cpufreq/policy");
    let prefix = "/sys/devices/system/cpu/cpufreq/policy"@;
    match (a, b) {
        (
            Node::Policy { cpu_id: cpu_a, property: property_a },
            Node::Policy { cpu_id: cpu_b, property: property_b },
        ) => {
            let tail_a = policy_tail(cpu_a, property_a);
            let tail_b = policy_tail(cpu_b, property_b);
            lemma_policy_tails_differ(cpu_a, property_a, cpu_b, property_b);
            assert(a.spec_path() =~= prefix + tail_a);
            assert(b.spec_path() =~= prefix + tail_b);
            if a.spec_path() == b.spec_path() {
                assert((prefix + tail_a).skip(prefix.len() as int) =~= tail_a);
                assert((prefix + tail_b).skip(prefix.len() as int) =~= tail_b);
            }
        },
        (Node::Policy { cpu_id, property }, _) => {
            assert(a.spec_path()[24] == 'c');
            assert(a.spec_path()[32] == 'p');
            assert(b.spec_path()[24] != 'c' || b.spec_path()[32] != 'p');
        },
        (_, Node::Policy { cpu_id, property }) => {
            assert(b.spec_path()[24] == 'c');
            assert(b.spec_path()[32] == 'p');
            assert(a.spec_path()[24] != 'c' || a.spec_path()[32] != 'p');
        },
        _ => {
            assert(a.spec_path().len() != b.spec_path().len());
        },
    }
}

/// A value that a profile sets.
#[derive(Clone, Copy, Debug, PartialEq, Eq, Structural)]
pub enum Setting {
    Governor(ScalingGovernor),
    EnergyPreference(EnergyPreference),
    /// A frequency in kHz.
    Frequency(u32),
    /// A switch: on or off.
    Flag(bool),
}

impl Setting {
    /// The text that the kernel takes for the value.
    pub open spec fn spec_text(self) -> Seq<char> {
        match self {
            Setting::Governor(governor) => governor.token(),
            Setting::EnergyPreference(preference) => preference.token(),
            Setting::Frequency(khz) => decimal(khz as nat),
            Setting::Flag(on) => if on {
                "1"@
            } else {
                "0"@
            },
        }
    }

    /// The text that the kernel takes for the value.
    pub fn text(&self) -> (text: String)
        ensures
            text@ == self.spec_text(),
    {
        match self {
            Setting::Governor(governor) => governor.to_string(),
            Setting::EnergyPreference(preference) => preference.to_string(),
            Setting::Frequency(khz) => decimal_string(*khz),
            Setting::Flag(on) => if *on {
                String::from_str("1")
            } else {
                String::from_str("0")
            },
        }
    }
}

/// One write: the value goes to the file, in one piece.
#[derive(Clone, Copy, Debug, PartialEq, Eq, Structural)]
pub struct Write {
    pub node: Node,
    pub value: Setting,
}

/// What the control files hold: the text of each file that could be read. A
/// file that is not in the store could not be read.
pub type Store = Map<Node, Seq<char>>;

/// The text that was read from the control files, file by file.
pub struct Snapshot {
    readings: Vec<(Node, String)>,
}

spec fn store_of(readings: Seq<(Node, String)>, n: int) -> Store
    decreases n,
{
    if n <= 0 {
        Map::empty()
    } else {
        store_of(readings, n - 1).insert(readings[n - 1].0, readings[n - 1].1@)
    }
}

proof fn lemma_store_of_prefix(readings: Seq<(Node, String)>, last: (Node, String), n: int)
    requires
        0 <= n <= readings.len(),
    ensures
        store_of(readings.push(last), n) == store_of(readings, n),
    decreases n,
{
    if n > 0 {
        lemma_store_of_prefix(readings, last, n - 1);
        assert(readings.push(last)[n - 1] == readings[n - 1]);
    }
}

impl View for Snapshot {
    type V = Store;

    closed spec fn view(&self) -> Store {
        store_of(self.readings@, self.readings@.len() as int)
    }
}

impl Snapshot {
    /// A snapshot in which no file could be read.
    pub fn new() -> (snapshot: Snapshot)
        ensures
            snapshot@ == Map::<Node, Seq<char>>::empty(),
    {
        Snapshot { readings: Vec::new() }
    }

    /// Notes that `node` holds `content`, in place of what it held before.
    pub fn record(&mut self, node: Node, content: String)
        ensures
            final(self)@ == old(self)@.insert(node, content@),
    {
        proof {
            lemma_store_of_prefix(
                self.readings@,
                (node, content),
                self.readings@.len() as int,
            );
        }
        self.readings.push((node, content));
    }

    /// Makes one write to the files that the snapshot stands for.
    pub fn apply(&mut self, write: &Write)
        ensures
            final(self)@ == old(self)@.insert(write.node, write.value.spec_text()),
    {
        self.record(write.node, write.value.text());
    }

    /// The text of `node`, if it could be read.
    pub fn content(&self, node: Node) -> (content: Option<&String>)
        ensures
            match content {
                Some(text) => self@.contains_key(node) && self@[node] == text@,
                None => !self@.contains_key(node),
            },
    {
        let mut i: usize = self.readings.len();
        while i > 0
            invariant
                i <= self.readings.len(),
                self@.contains_key(node) == store_of(self.readings@, i as int).contains_key(node),
                self@.contains_key(node) ==> self@[node] == store_of(self.readings@, i as int)[node],
            decreases i,
        {
            i -= 1;
            if self.readings[i].0 == node {
                return Some(&self.readings[i].1);
            }
        }
        None
    }
}

/// The text of `node` without the whitespace around it; a failure of I/O
/// where the file could not be read.
pub open spec fn read(store: Store, node: Node) -> Result<Seq<char>, Error> {
    if store.contains_key(node) {
        Ok(trim(store[node]))
    } else {
        Err(Error::Io(node))
    }
}

/// The number that `node` holds.
pub open spec fn read_number(store: Store, node: Node) -> Result<u32, Error> {
    match read(store, node) {
        Ok(text) => match parse_u32(text) {
            Some(number) => Ok(number),
            None => Err(Error::Parse(node)),
        },
        Err(error) => Err(error),
    }
}

/// The switch position that a text names: `1` and `true` are on, `0` and
/// `false` are off.
pub open spec fn parse_flag(text: Seq<char>) -> Option<bool> {
    if text == "1"@ || text == "true"@ {
        Some(true)
    } else if text == "0"@ || text == "false"@ {
        Some(false)
    } else {
        None
    }
}

/// The switch position that `node` holds.
pub open spec fn read_flag(store: Store, node: Node) -> Result<bool, Error> {
    match read(store, node) {
        Ok(text) => match parse_flag(text) {
            Some(on) => Ok(on),
            None => Err(Error::Parse(node)),
        },
        Err(error) => Err(error),
    }
}

impl Snapshot {
    /// The text of `node` without the whitespace around it.
    pub fn read(&self, node: Node) -> (text: Result<&str, Error>)
        ensures
            agrees(text, read(self@, node)),
    {
        match self.content(node) {
            Some(content) => Ok(trimmed(content.as_str())),
            None => Err(Error::Io(node)),
        }
    }

    /// The number that `node` holds.
    pub fn read_number(&self, node: Node) -> (value: Result<u32, Error>)
        ensures
            value == read_number(self@, node),
    {
        match self.read(node) {
            Ok(text) => match number(text) {
                Some(value) => Ok(value),
                None => Err(Error::Parse(node)),
            },
            Err(error) => Err(error),
        }
    }

    /// The switch position that `node` holds.
    pub fn read_flag(&self, node: Node) -> (on: Result<bool, Error>)
        ensures
            on == read_flag(self@, node),
    {
        match self.read(node) {
            Ok(text) => {
                if same_text(text, "1") || same_text(text, "true") {
                    Ok(true)
                } else if same_text(text, "0") || same_text(text, "false") {
                    Ok(false)
                } else {
                    Err(Error::Parse(node))
                }
            },
            Err(error) => Err(error),
        }
    }
}

/// What a setting reads back as.
pub open spec fn reads_back(setting: Setting, text: Seq<char>) -> bool {
    match setting {
        Setting::Governor(governor) => ScalingGovernor::parse(text) == Some(governor),
        Setting::EnergyPreference(preference) => EnergyPreference::parse(text) == Some(preference),
        Setting::Frequency(khz) => parse_u32(text) == Some(khz),
        Setting::Flag(on) => parse_flag(text) == Some(on),
    }
}

/// The text written for a setting reads back as the setting: it has no
/// whitespace around it, and it names the value that was written.
pub proof fn lemma_setting_reads_back(setting: Setting)
    ensures
        trim(setting.spec_text()) == setting.spec_text(),
        reads_back(setting, setting.spec_text()),
{
    let text = setting.spec_text();
    match setting {
        Setting::Governor(governor) => {
            reveal_strlit("performance");
            reveal_strlit("powersave");
            crate::drivers::cpu::types::lemma_scaling_governor_token_parses(governor);
            crate::text::lemma_trim_clean(text);
        },
        Setting::EnergyPreference(preference) => {
            reveal_strlit("default");
            reveal_strlit("performance");
            reveal_strlit("balance_performance");
            reveal_strlit("balance_power");
            reveal_strlit("power");
            crate::drivers::cpu::types::lemma_energy_preference_token_parses(preference);
            crate::text::lemma_trim_clean(text);
        },
        Setting::Frequency(khz) => {
            crate::text::lemma_decimal_denotes(khz as nat);
            crate::text::lemma_parse_decimal(khz);
            assert(crate::text::is_digit(text[0]));
            assert(crate::text::is_digit(text.last()));
            crate::text::lemma_trim_clean(text);
        },
        Setting::Flag(on) => {
            reveal_strlit("1");
            reveal_strlit("0");
            reveal_strlit("true");
            reveal_strlit("false");
            crate::text::lemma_trim_clean(text);
        },
    }
}

} // verus!
