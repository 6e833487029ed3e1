//! Intel's backend.

use crate::error::Error;
use crate::sysfs::{Node, PolicyProperty, read, Snapshot, Store};
use crate::text::same_text;
use super::marker_node;
use vstd::prelude::*;

pub mod pstate;

verus! {

/// The backend that a store lets Intel's probe find: one for the driver
/// `intel_pstate`, in the mode that the driver reports.
pub open spec fn probed(store: Store) -> Result<pstate::Driver, Error> {
    match read(store, marker_node()) {
        Err(error) => Err(error),
        Ok(marker) => if marker == "intel_pstate"@ {
            pstate::driver_of(false, store)
        } else {
            Err(Error::Unsupported)
        },
    }
}

/// Probes Intel's backend. It declines with `Unsupported` where the first
/// policy names another driver than `intel_pstate`.
pub fn probe(snapshot: &Snapshot) -> (driver: Result<pstate::Driver, Error>)
    ensures
        driver == probed(snapshot@),
{
    let marker = snapshot.read(
        Node::Policy { cpu_id: 0, property: PolicyProperty::ScalingDriver },
    )?;
    if same_text(marker, "intel_pstate") {
        pstate::Driver::new(false, snapshot)
    } else {
        Err(Error::Unsupported)
    }
}

} // verus!
