//! Decision core of a CPU power-profile service: parsing of kernel control
//! files, planning of the writes that apply a profile, inference of the
//! profile that the hardware reflects, and bookkeeping of profile holds.

pub mod dbus;
pub mod drivers;
pub mod error;
pub mod holds;
pub mod plan;
pub mod settings;
pub mod sysfs;
pub mod text;
pub mod types;
