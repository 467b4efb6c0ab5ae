use vstd::prelude::*;

use crate::json::{JsonModel, JsonValue, fields_view, lemma_fields_view, string_member};

verus! {

broadcast use vstd::std_specs::vec::group_vec_axioms, vstd::seq::group_seq_axioms;

/// A request to refresh an object of the device's tree.
#[derive(Clone, Debug, PartialEq, Eq)]
pub struct RefreshObject {
    pub name: String,
    pub object_name: String,
}

impl RefreshObject {
    /// Refreshes `object_name`.
    pub fn new(object_name: &str) -> (r: RefreshObject)
        ensures
            r.name@ == "refreshObject"@,
            r.object_name@ == object_name@,
    {
        RefreshObject { name: "refreshObject".to_string(), object_name: object_name.to_string() }
    }

    /// The payload sent for this request.
    pub fn to_json(&self) -> (r: JsonValue)
        ensures
            r@ == JsonModel::Object(
                seq![
                    ("name"@, JsonModel::Str(self.name@)),
                    ("object_name"@, JsonModel::Str(self.object_name@)),
                ],
            ),
    {
        let fields = vec![string_member("name", &self.name), string_member("object_name", &self.object_name)];
        proof {
            lemma_fields_view(fields@);
        }
        assert(fields_view(fields@) =~= seq![
            ("name"@, JsonModel::Str(self.name@)),
            ("object_name"@, JsonModel::Str(self.object_name@)),
        ]);
        JsonValue::Object(fields)
    }
}

} // verus!
