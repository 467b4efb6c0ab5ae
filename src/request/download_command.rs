use vstd::prelude::*;

use crate::json::{JsonModel, JsonValue, fields_view, lemma_fields_view, string_member};

verus! {

broadcast use vstd::std_specs::vec::group_vec_axioms, vstd::seq::group_seq_axioms;

/// A request that the device download a file.
#[derive(Clone, Debug, PartialEq, Eq)]
pub struct DownloadCommand {
    pub name: String,
    pub file: String,
}

impl DownloadCommand {
    /// Downloads `file`.
    pub fn new(file: &str) -> (r: DownloadCommand)
        ensures
            r.name@ == "download"@,
            r.file@ == file@,
    {
        DownloadCommand { name: "download".to_string(), file: file.to_string() }
    }

    /// The payload sent for this request.
    pub fn to_json(&self) -> (r: JsonValue)
        ensures
            r@ == JsonModel::Object(
                seq![
                    ("name"@, JsonModel::Str(self.name@)),
                    ("file"@, JsonModel::Str(self.file@)),
                ],
            ),
    {
        let fields = vec![string_member("name", &self.name), string_member("file", &self.file)];
        proof {
            lemma_fields_view(fields@);
        }
        assert(fields_view(fields@) =~= seq![
            ("name"@, JsonModel::Str(self.name@)),
            ("file"@, JsonModel::Str(self.file@)),
        ]);
        JsonValue::Object(fields)
    }
}

} // verus!
