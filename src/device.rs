use vstd::prelude::*;

verus! {

/// How a device identifies itself.
#[derive(Clone, Debug, PartialEq, Eq)]
pub struct AcsDeviceId {
    pub manufacturer: String,
    pub oui: String,
    pub product_class: String,
    pub serial_number: String,
}

/// A device as the server lists it.
#[derive(Clone, Debug, PartialEq, Eq)]
pub struct AcsDevice {
    pub id: String,
    pub device_id: AcsDeviceId,
    pub last_inform: String,
    pub registered: String,
}

} // verus!
