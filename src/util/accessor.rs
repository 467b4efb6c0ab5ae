use vstd::prelude::*;

use crate::device::AcsDeviceId;
use crate::parameter_value::ParameterValue;

verus! {

/// The value of a text field that a document leaves out.
pub fn unset_str() -> (r: String)
    ensures
        r@ == Seq::<char>::empty(),
{
    String::new()
}

/// The value of a list of texts that a document leaves out.
pub fn unset_vec_str() -> (r: Vec<String>)
    ensures
        r@ == Seq::<String>::empty(),
{
    Vec::new()
}

/// The value of a triple that a document leaves out: all three parts empty.
pub fn unset_parameter_value() -> (r: ParameterValue)
    ensures
        r.parameter@ == Seq::<char>::empty(),
        r.value@ == Seq::<char>::empty(),
        r.value_type@ == Seq::<char>::empty(),
{
    proof {
        reveal_strlit("");
    }
    ParameterValue::new("", "", "")
}

/// The value of a list of triples that a document leaves out.
pub fn unset_vec_parameter_value() -> (r: Vec<ParameterValue>)
    ensures
        r@ == Seq::<ParameterValue>::empty(),
{
    Vec::new()
}

/// The identity of a device that a document leaves out: every part empty.
pub fn unset_acs_device_id() -> (r: AcsDeviceId)
    ensures
        r.manufacturer@ == Seq::<char>::empty(),
        r.oui@ == Seq::<char>::empty(),
        r.product_class@ == Seq::<char>::empty(),
        r.serial_number@ == Seq::<char>::empty(),
{
    AcsDeviceId {
        manufacturer: String::new(),
        oui: String::new(),
        product_class: String::new(),
        serial_number: String::new(),
    }
}

} // verus!
