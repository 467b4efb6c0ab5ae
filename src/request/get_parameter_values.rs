use vstd::prelude::*;

use crate::json::{
    JsonModel,
    JsonValue,
    fields_view,
    lemma_fields_view,
    string_array,
    string_member,
    strings_model,
};

verus! {

broadcast use vstd::std_specs::vec::group_vec_axioms, vstd::seq::group_seq_axioms;

/// A request for the names of parameters.
#[derive(Clone, Debug, PartialEq, Eq)]
pub struct GetParameterValues {
    pub name: String,
    pub parameter_names: Vec<String>,
}

impl GetParameterValues {
    /// Asks for `parameter_names`.
    pub fn new(parameter_names: Vec<String>) -> (r: GetParameterValues)
        ensures
            r.name@ == "getParameterNames"@,
            r.parameter_names@ == parameter_names@,
    {
        GetParameterValues { name: "getParameterNames".to_string(), parameter_names }
    }

    /// The payload sent for this request.
    pub fn to_json(&self) -> (r: JsonValue)
        ensures
            r@ == JsonModel::Object(
                seq![
                    ("name"@, JsonModel::Str(self.name@)),
                    ("parameter_names"@, JsonModel::Array(strings_model(self.parameter_names@))),
                ],
            ),
    {
        let fields = vec![
            string_member("name", &self.name),
            ("parameter_names".to_string(), string_array(&self.parameter_names)),
        ];
        proof {
            lemma_fields_view(fields@);
        }
        assert(fields_view(fields@) =~= seq![
            ("name"@, JsonModel::Str(self.name@)),
            ("parameter_names"@, JsonModel::Array(strings_model(self.parameter_names@))),
        ]);
        JsonValue::Object(fields)
    }
}

} // verus!
