use vstd::prelude::*;

use crate::json::{
    JsonModel,
    JsonValue,
    fields_view,
    items_view,
    lemma_fields_view,
    lemma_items_view,
    string_member,
};
use crate::parameter_value::{ParameterValue, coerced_value};

verus! {

broadcast use vstd::std_specs::vec::group_vec_axioms, vstd::seq::group_seq_axioms;

/// The entry sent for one triple: its name and its coerced value.
pub open spec fn parameter_entry(p: ParameterValue) -> JsonModel {
    JsonModel::Array(seq![JsonModel::Str(p.parameter@), coerced_value(p.value@, p.value_type@)])
}

/// A request to set parameter values.
#[derive(Clone, Debug, PartialEq, Eq)]
pub struct SetParameterValues {
    pub name: String,
    pub parameter_values: Vec<ParameterValue>,
}

impl SetParameterValues {
    /// Sets `parameter_values`.
    pub fn new(parameter_values: Vec<ParameterValue>) -> (r: SetParameterValues)
        ensures
            r.name@ == "setParameterValues"@,
            r.parameter_values@ == parameter_values@,
    {
        SetParameterValues { name: "setParameterValues".to_string(), parameter_values }
    }

    /// The payload sent for this request: each triple becomes a pair of its
    /// name and its coerced value.
    pub fn to_json(&self) -> (r: JsonValue)
        ensures
            r@ == JsonModel::Object(
                seq![
                    ("name"@, JsonModel::Str(self.name@)),
                    (
                        "parameter_values"@,
                        JsonModel::Array(self.parameter_values@.map_values(|p| parameter_entry(p))),
                    ),
                ],
            ),
    {
        let mut entries: Vec<JsonValue> = Vec::new();
        let mut i: usize = 0;
        while i < self.parameter_values.len()
            invariant
                i <= self.parameter_values@.len(),
                entries@.len() == i,
                forall|j: int|
                    0 <= j < i ==> (#[trigger] entries@[j])@ == parameter_entry(
                        self.parameter_values@[j],
                    ),
            decreases self.parameter_values@.len() - i,
        {
            entries.push(self.parameter_values[i].to_json());
            i = i + 1;
        }
        proof {
            lemma_items_view(entries@);
        }
        assert(items_view(entries@) =~= self.parameter_values@.map_values(|p| parameter_entry(p)));
        let fields = vec![
            string_member("name", &self.name),
            ("parameter_values".to_string(), JsonValue::Array(entries)),
        ];
        proof {
            lemma_fields_view(fields@);
        }
        assert(fields_view(fields@) =~= seq![
            ("name"@, JsonModel::Str(self.name@)),
            (
                "parameter_values"@,
                JsonModel::Array(self.parameter_values@.map_values(|p| parameter_entry(p))),
            ),
        ]);
        JsonValue::Object(fields)
    }
}

} // verus!
