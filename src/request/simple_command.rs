use vstd::prelude::*;

use crate::json::{JsonModel, JsonValue, fields_view, lemma_fields_view, string_member};

verus! {

broadcast use vstd::std_specs::vec::group_vec_axioms, vstd::seq::group_seq_axioms;

/// A request that takes no argument but its name (`reboot`,
/// `factoryReset`).
#[derive(Clone, Debug, PartialEq, Eq)]
pub struct SimpleCommand {
    pub name: String,
}

impl SimpleCommand {
    /// The command named `command`.
    pub fn new(command: &str) -> (r: SimpleCommand)
        ensures
            r.name@ == command@,
    {
        SimpleCommand { name: command.to_string() }
    }

    /// The payload sent for this request.
    pub fn to_json(&self) -> (r: JsonValue)
        ensures
            r@ == JsonModel::Object(seq![("name"@, JsonModel::Str(self.name@))]),
    {
        let fields = vec![string_member("name", &self.name)];
        proof {
            lemma_fields_view(fields@);
        }
        assert(fields_view(fields@) =~= seq![("name"@, JsonModel::Str(self.name@))]);
        JsonValue::Object(fields)
    }
}

} // verus!
