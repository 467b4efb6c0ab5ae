use vstd::prelude::*;

use crate::data_node::{DataNode, NodeModel, empty_model};
use crate::json::{JsonValue, member, find_member};

verus! {

broadcast use vstd::std_specs::vec::group_vec_axioms, vstd::seq::group_seq_axioms;

/// The text that a leaf's value field stands for: booleans and numbers as
/// text, strings as they are, anything else as the empty string.
pub open spec fn scalar_text(v: JsonValue) -> Seq<char> {
    match v {
        JsonValue::Bool(b) => if b {
            "true"@
        } else {
            "false"@
        },
        JsonValue::Str(s) => s@,
        JsonValue::Number(t) => t@,
        _ => Seq::empty(),
    }
}

/// A type field's text: a string as it is, anything else empty.
pub open spec fn type_text(v: JsonValue) -> Seq<char> {
    match v {
        JsonValue::Str(s) => s@,
        _ => Seq::empty(),
    }
}

/// Whether the members carry both a value field and a type field.
pub open spec fn is_leaf(m: Seq<(String, JsonValue)>) -> bool {
    member(m, "_value"@) is Some && member(m, "_type"@) is Some
}

/// The writability field when it is a boolean, else false.
pub open spec fn writable_flag(m: Seq<(String, JsonValue)>) -> bool {
    match member(m, "_writable"@) {
        Some(JsonValue::Bool(b)) => b,
        _ => false,
    }
}

/// The leaf node described by members that carry a value and a type field.
pub open spec fn leaf_model(m: Seq<(String, JsonValue)>) -> NodeModel {
    NodeModel {
        value: scalar_text(member(m, "_value"@).unwrap()),
        value_type: type_text(member(m, "_type"@).unwrap()),
        writable: writable_flag(m),
        subnodes: Map::empty(),
    }
}

/// A container node with the given children.
pub open spec fn container(subnodes: Map<Seq<char>, NodeModel>) -> NodeModel {
    NodeModel { subnodes, ..empty_model() }
}

/// The children described by an object's members, later members winning.
pub open spec fn members_view(s: Seq<(String, JsonValue)>) -> Map<Seq<char>, NodeModel>
    decreases s,
{
    if s.len() == 0 {
        Map::empty()
    } else {
        members_view(s.drop_last()).insert(s.last().0@, child_model(s.last().1))
    }
}

/// The node that a member's value becomes: a leaf where it is an object with
/// value and type fields, a container of its members where it is another
/// object, and an empty node otherwise.
pub open spec fn child_model(v: JsonValue) -> NodeModel
    decreases v,
{
    match v {
        JsonValue::Object(m) => if is_leaf(m@) {
            leaf_model(m@)
        } else {
            container(members_view(m@))
        },
        _ => empty_model(),
    }
}

/// The tree that a document becomes: the members of a top-level object as
/// children of an empty root; any other document gives an empty root.
pub open spec fn parsed(j: JsonValue) -> NodeModel {
    match j {
        JsonValue::Object(m) => container(members_view(m@)),
        _ => empty_model(),
    }
}

/// No object below `v` (nor `v` itself) carries both a value and a type
/// field.
pub open spec fn no_markers(v: JsonValue) -> bool
    decreases v,
{
    match v {
        JsonValue::Object(m) => !is_leaf(m@) && forall|i: int|
            0 <= i < m@.len() ==> no_markers(#[trigger] m@[i].1),
        _ => true,
    }
}

/// No object nested in the document carries both a value and a type field.
pub open spec fn unmarked_document(doc: JsonValue) -> bool {
    match doc {
        JsonValue::Object(m) => forall|i: int| 0 <= i < m@.len() ==> no_markers(#[trigger] m@[i].1),
        _ => true,
    }
}

/// `n` has empty value and type, is not writable, and its children mirror
/// the JSON value `v`: one per member of an object, none otherwise.
pub open spec fn mirrors(v: JsonValue, n: NodeModel) -> bool
    decreases v,
{
    &&& n.value.len() == 0
    &&& n.value_type.len() == 0
    &&& !n.writable
    &&& match v {
        JsonValue::Object(m) => mirrors_members(m@, n.subnodes),
        _ => n.subnodes == Map::<Seq<char>, NodeModel>::empty(),
    }
}

/// The children `c` are one per member name of `m`, each mirroring the
/// member that counts for that name.
pub open spec fn mirrors_members(m: Seq<(String, JsonValue)>, c: Map<Seq<char>, NodeModel>) -> bool
    decreases m,
{
    &&& forall|k: Seq<char>| #[trigger] c.contains_key(k) <==> member(m, k) is Some
    &&& forall|i: int|
        0 <= i < m.len() && member(m, m[i].0@) == Some(m[i].1) ==> mirrors(
            m[i].1,
            #[trigger] c[m[i].0@],
        )
}

proof fn lemma_members_view_member(s: Seq<(String, JsonValue)>, k: Seq<char>)
    ensures
        members_view(s).contains_key(k) <==> member(s, k) is Some,
        member(s, k) is Some ==> members_view(s)[k] == child_model(member(s, k).unwrap()),
    decreases s.len(),
{
    if s.len() > 0 {
        lemma_members_view_member(s.drop_last(), k);
        assert(members_view(s) == members_view(s.drop_last()).insert(
            s.last().0@,
            child_model(s.last().1),
        ));
    }
}

proof fn lemma_value_mirrors(v: JsonValue)
    requires
        no_markers(v),
    ensures
        mirrors(v, child_model(v)),
    decreases v,
{
    if let JsonValue::Object(m) = v {
        lemma_members_mirror(m@);
    } else {
        assert(child_model(v).subnodes =~= Map::<Seq<char>, NodeModel>::empty());
    }
}

proof fn lemma_members_mirror(m: Seq<(String, JsonValue)>)
    requires
        forall|i: int| 0 <= i < m.len() ==> no_markers(#[trigger] m[i].1),
    ensures
        mirrors_members(m, members_view(m)),
    decreases m,
{
    assert forall|k: Seq<char>| #[trigger] members_view(m).contains_key(k) <==> member(m, k) is Some by {
        lemma_members_view_member(m, k);
    }
    assert forall|i: int|
        0 <= i < m.len() && member(m, m[i].0@) == Some(m[i].1) implies mirrors(
        m[i].1,
        #[trigger] members_view(m)[m[i].0@],
    ) by {
        lemma_members_view_member(m, m[i].0@);
        lemma_value_mirrors(m[i].1);
    }
}

/// A document in which no nested object carries value and type fields
/// parses to a pure container tree that mirrors the document's shape
/// exactly: every node has empty value and type and is not writable, and
/// each object contributes one child per member name.
pub proof fn lemma_unmarked_document_mirrors(doc: JsonValue)
    requires
        unmarked_document(doc),
    ensures
        mirrors(doc, parsed(doc)),
{
    if let JsonValue::Object(m) = doc {
        lemma_members_mirror(m@);
    } else {
        assert(parsed(doc).subnodes =~= Map::<Seq<char>, NodeModel>::empty());
    }
}

fn scalar_string(v: &JsonValue) -> (r: String)
    ensures
        r@ == scalar_text(*v),
{
    match v {
        JsonValue::Bool(b) => if *b {
            "true".to_string()
        } else {
            "false".to_string()
        },
        JsonValue::Str(s) => s.clone(),
        JsonValue::Number(t) => t.clone(),
        _ => String::new(),
    }
}

impl DataNode {
    /// Builds the parameter tree that `json` describes.
    pub fn parse_from_document(json: &JsonValue) -> (r: DataNode)
        ensures
            r@ == parsed(*json),
            r.wf(),
    {
        match json {
            JsonValue::Object(m) => Self::parse_members(m),
            _ => DataNode::new(),
        }
    }

    fn parse_members(m: &Vec<(String, JsonValue)>) -> (r: DataNode)
        ensures
            r@ == container(members_view(m@)),
            r.wf(),
        decreases m,
    {
        let mut root = DataNode::new();
        let mut i: usize = 0;
        while i < m.len()
            invariant
                i <= m@.len(),
                root.wf(),
                root@ == container(members_view(m@.take(i as int))),
            decreases m@.len() - i,
        {
            let child = Self::parse_child(&m[i].1);
            root.set_subnode(m[i].0.clone(), child);
            proof {
                let t = m@.take(i as int + 1);
                assert(t.drop_last() =~= m@.take(i as int));
                assert(members_view(t) == members_view(t.drop_last()).insert(
                    t.last().0@,
                    child_model(t.last().1),
                ));
            }
            i = i + 1;
        }
        assert(m@.take(m@.len() as int) =~= m@);
        root
    }

    fn parse_child(v: &JsonValue) -> (r: DataNode)
        ensures
            r@ == child_model(*v),
            r.wf(),
        decreases v,
    {
        match v {
            JsonValue::Object(m) => {
                let value_at = find_member(m, &"_value".to_string());
                let type_at = find_member(m, &"_type".to_string());
                match (value_at, type_at) {
                    (Some(vi), Some(ti)) => {
                        let writable = match find_member(m, &"_writable".to_string()) {
                            Some(wi) => match &m[wi].1 {
                                JsonValue::Bool(b) => *b,
                                _ => false,
                            },
                            None => false,
                        };
                        let value_type = match &m[ti].1 {
                            JsonValue::Str(s) => s.clone(),
                            _ => String::new(),
                        };
                        let r = DataNode {
                            value: scalar_string(&m[vi].1),
                            value_type,
                            writable,
                            subnodes: Vec::new(),
                        };
                        assert(r@.subnodes =~= Map::empty());
                        r
                    },
                    _ => Self::parse_members(m),
                }
            },
            _ => DataNode::new(),
        }
    }
}

} // verus!
