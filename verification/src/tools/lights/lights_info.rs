use vstd::prelude::*;

use crate::tools::lights::controller::DeviceRegistry;

verus! {

/// Light listing arguments (none).
#[derive(Debug)]
pub struct LightsInfoTool {}

impl LightsInfoTool {
    /// The answer when no light is known; with lights, the answer is their
    /// JSON listing, written outside this library.
    pub fn no_devices(&self, registry: &DeviceRegistry) -> (r: Option<String>)
        ensures
            r is Some <==> registry@.len() == 0,
            r matches Some(m) ==> m@ == "no devices found on the local network"@,
    {
        let devices = registry.devices();
        if devices.len() == 0 {
            Some(String::from_str("no devices found on the local network"))
        } else {
            None
        }
    }
}

} // verus!
