use vstd::prelude::*;

verus! {

broadcast use vstd::std_specs::vec::group_vec_axioms, vstd::seq::group_seq_axioms;

/// The mathematical model of a parameter tree node.
pub struct NodeModel {
    pub value: Seq<char>,
    pub value_type: Seq<char>,
    pub writable: bool,
    pub subnodes: Map<Seq<char>, NodeModel>,
}

/// A node of a device's parameter tree: a value with its type tag and
/// writability, and named children.
///
/// Children are held as (name, node) entries; when a name occurs more than
/// once, the last entry is the one that counts.
#[derive(Debug)]
pub struct DataNode {
    pub value: String,
    pub value_type: String,
    pub writable: bool,
    pub subnodes: Vec<(String, DataNode)>,
}

/// The map described by a sequence of entries, later entries winning.
pub open spec fn entries_view(s: Seq<(String, DataNode)>) -> Map<Seq<char>, NodeModel>
    decreases s,
{
    if s.len() == 0 {
        Map::empty()
    } else {
        entries_view(s.drop_last()).insert(s.last().0@, s.last().1.view())
    }
}

impl View for DataNode {
    type V = NodeModel;

    open spec fn view(&self) -> NodeModel
        decreases self,
    {
        NodeModel {
            value: self.value@,
            value_type: self.value_type@,
            writable: self.writable,
            subnodes: entries_view(self.subnodes@),
        }
    }
}

/// No two entries share a name.
pub open spec fn unique_keys(s: Seq<(String, DataNode)>) -> bool {
    forall|i: int, j: int|
        0 <= i < s.len() && 0 <= j < s.len() && i != j ==> s[i].0@ != s[j].0@
}

/// Entry `j` is the last one named `k`.
pub open spec fn last_with_key(s: Seq<(String, DataNode)>, j: int, k: Seq<char>) -> bool {
    &&& 0 <= j < s.len()
    &&& s[j].0@ == k
    &&& forall|i: int| j < i < s.len() ==> s[i].0@ != k
}

/// The node with empty value and type, not writable, without children.
pub open spec fn empty_model() -> NodeModel {
    NodeModel {
        value: Seq::empty(),
        value_type: Seq::empty(),
        writable: false,
        subnodes: Map::empty(),
    }
}

/// The child named `k`, or an empty node where there is none.
pub open spec fn child_or_empty(m: Map<Seq<char>, NodeModel>, k: Seq<char>) -> NodeModel {
    if m.contains_key(k) {
        m[k]
    } else {
        empty_model()
    }
}

/// The result of merging `b` into `a`: value and type come from `b`,
/// writability stays that of `a`, and the children are the union of both,
/// where a child present in `b` is merged recursively into its counterpart
/// in `a` (or into an empty node).
pub open spec fn merged(a: NodeModel, b: NodeModel) -> NodeModel
    decreases b,
{
    NodeModel {
        value: b.value,
        value_type: b.value_type,
        writable: a.writable,
        subnodes: Map::new(
            |k: Seq<char>| a.subnodes.contains_key(k) || b.subnodes.contains_key(k),
            |k: Seq<char>|
                if b.subnodes.contains_key(k) {
                    merged(child_or_empty(a.subnodes, k), b.subnodes[k])
                } else {
                    a.subnodes[k]
                },
        ),
    }
}

/// The children that result from merging the children `b` into `a`.
pub open spec fn merged_children(
    a: Map<Seq<char>, NodeModel>,
    b: Map<Seq<char>, NodeModel>,
) -> Map<Seq<char>, NodeModel> {
    Map::new(
        |k: Seq<char>| a.contains_key(k) || b.contains_key(k),
        |k: Seq<char>|
            if b.contains_key(k) {
                merged(child_or_empty(a, k), b[k])
            } else {
                a[k]
            },
    )
}

/// A copy of `n` with every writability flag cleared.
pub open spec fn without_writable(n: NodeModel) -> NodeModel
    decreases n,
{
    NodeModel {
        value: n.value,
        value_type: n.value_type,
        writable: false,
        subnodes: Map::new(
            |k: Seq<char>| n.subnodes.contains_key(k),
            |k: Seq<char>|
                if n.subnodes.contains_key(k) {
                    without_writable(n.subnodes[k])
                } else {
                    empty_model()
                },
        ),
    }
}

proof fn lemma_entries_contains(s: Seq<(String, DataNode)>, k: Seq<char>)
    ensures
        entries_view(s).contains_key(k) <==> exists|i: int| 0 <= i < s.len() && s[i].0@ == k,
    decreases s.len(),
{
    if s.len() > 0 {
        let d = s.drop_last();
        lemma_entries_contains(d, k);
        assert(entries_view(s) == entries_view(d).insert(s.last().0@, s.last().1@));
        if entries_view(d).contains_key(k) {
            let i = choose|i: int| 0 <= i < d.len() && d[i].0@ == k;
            assert(s[i] == d[i]);
        }
        if exists|i: int| 0 <= i < s.len() && s[i].0@ == k {
            let i = choose|i: int| 0 <= i < s.len() && s[i].0@ == k;
            if i < s.len() - 1 {
                assert(d[i] == s[i]);
            }
        }
    }
}

proof fn lemma_entries_last(s: Seq<(String, DataNode)>, j: int, k: Seq<char>)
    requires
        last_with_key(s, j, k),
    ensures
        entries_view(s).contains_key(k),
        entries_view(s)[k] == s[j].1@,
    decreases s.len(),
{
    if j < s.len() - 1 {
        let d = s.drop_last();
        assert(d[j] == s[j]);
        assert forall|i: int| j < i < d.len() implies d[i].0@ != k by {
            assert(d[i] == s[i]);
        }
        lemma_entries_last(d, j, k);
        assert(s.last().0@ != k);
        assert(entries_view(s) == entries_view(d).insert(s.last().0@, s.last().1@));
    } else {
        assert(s.last().0@ == k);
        assert(entries_view(s) == entries_view(s.drop_last()).insert(s.last().0@, s.last().1@));
    }
}

proof fn lemma_entries_update(s: Seq<(String, DataNode)>, j: int, e: (String, DataNode))
    requires
        last_with_key(s, j, e.0@),
    ensures
        entries_view(s.update(j, e)) == entries_view(s).insert(e.0@, e.1@),
    decreases s.len(),
{
    let u = s.update(j, e);
    let d = s.drop_last();
    assert(entries_view(s) == entries_view(d).insert(s.last().0@, s.last().1@));
    assert(entries_view(u) == entries_view(u.drop_last()).insert(u.last().0@, u.last().1@));
    if j == s.len() - 1 {
        assert(u.drop_last() =~= d);
        assert(entries_view(u) =~= entries_view(s).insert(e.0@, e.1@));
    } else {
        assert(d[j] == s[j]);
        assert forall|i: int| j < i < d.len() implies d[i].0@ != e.0@ by {
            assert(d[i] == s[i]);
        }
        lemma_entries_update(d, j, e);
        assert(u.drop_last() =~= d.update(j, e));
        assert(entries_view(u) =~= entries_view(s).insert(e.0@, e.1@));
    }
}

proof fn lemma_entries_push(s: Seq<(String, DataNode)>, e: (String, DataNode))
    ensures
        entries_view(s.push(e)) == entries_view(s).insert(e.0@, e.1@),
{
    assert(s.push(e).drop_last() =~= s);
}

proof fn lemma_entries_congruent(s: Seq<(String, DataNode)>, t: Seq<(String, DataNode)>)
    requires
        s.len() == t.len(),
        forall|i: int| 0 <= i < s.len() ==> s[i].0@ == t[i].0@ && s[i].1@ == t[i].1@,
    ensures
        entries_view(s) == entries_view(t),
    decreases s.len(),
{
    if s.len() > 0 {
        let (ds, dt) = (s.drop_last(), t.drop_last());
        assert forall|i: int| 0 <= i < ds.len() implies ds[i].0@ == dt[i].0@ && ds[i].1@ == dt[i].1@ by {
            assert(ds[i] == s[i] && dt[i] == t[i]);
        }
        lemma_entries_congruent(ds, dt);
        assert(entries_view(s) == entries_view(ds).insert(s.last().0@, s.last().1@));
        assert(entries_view(t) == entries_view(dt).insert(t.last().0@, t.last().1@));
    }
}

/// Merging a tree into a fresh empty node gives a copy of that tree in
/// which every writability flag is false: merge never transfers
/// writability.
pub proof fn lemma_merge_into_empty(b: NodeModel)
    ensures
        merged(empty_model(), b) == without_writable(b),
    decreases b,
{
    let l = merged(empty_model(), b);
    let r = without_writable(b);
    assert forall|k: Seq<char>| #[trigger] b.subnodes.contains_key(k) implies l.subnodes[k]
        == r.subnodes[k] by {
        lemma_merge_into_empty(b.subnodes[k]);
    }
    assert(l.subnodes =~= r.subnodes);
}

/// Merge is additive: the result has exactly the children of both sides; a
/// child present only on the receiving side survives unchanged, and one
/// present only in the merged-in tree appears with that tree's values and
/// types (and, as merge never transfers writability, with no writable flag).
pub proof fn lemma_merge_additive(a: NodeModel, b: NodeModel)
    ensures
        forall|k: Seq<char>|
            #[trigger] merged(a, b).subnodes.contains_key(k) <==> a.subnodes.contains_key(k)
                || b.subnodes.contains_key(k),
        forall|k: Seq<char>|
            a.subnodes.contains_key(k) && !b.subnodes.contains_key(k) ==> #[trigger] merged(
                a,
                b,
            ).subnodes[k] == a.subnodes[k],
        forall|k: Seq<char>|
            !a.subnodes.contains_key(k) && b.subnodes.contains_key(k) ==> #[trigger] merged(
                a,
                b,
            ).subnodes[k] == without_writable(b.subnodes[k]),
{
    assert forall|k: Seq<char>|
        !a.subnodes.contains_key(k) && b.subnodes.contains_key(k) implies #[trigger] merged(
            a,
            b,
        ).subnodes[k] == without_writable(b.subnodes[k]) by {
        lemma_merge_into_empty(b.subnodes[k]);
    }
}

impl Clone for DataNode {
    /// A deep copy; see `duplicate`.
    fn clone(&self) -> DataNode {
        self.duplicate()
    }
}

impl DataNode {
    /// Well-formedness: within every node of the tree, no two children share
    /// a name.
    pub open spec fn wf(&self) -> bool
        decreases self,
    {
        &&& unique_keys(self.subnodes@)
        &&& forall|i: int| 0 <= i < self.subnodes@.len() ==> (#[trigger] self.subnodes@[i]).1.wf()
    }

    /// An empty container node: empty value and type, not writable, no
    /// children.
    pub fn new() -> (r: DataNode)
        ensures
            r@ == empty_model(),
            r.wf(),
    {
        let r = DataNode {
            value: String::new(),
            value_type: String::new(),
            writable: false,
            subnodes: Vec::new(),
        };
        assert(r@.subnodes =~= Map::empty());
        r
    }

    /// A deep copy of this node.
    pub fn duplicate(&self) -> (r: DataNode)
        ensures
            r@ == self@,
            self.wf() ==> r.wf(),
        decreases self,
    {
        let mut subnodes: Vec<(String, DataNode)> = Vec::new();
        let mut i: usize = 0;
        while i < self.subnodes.len()
            invariant
                i <= self.subnodes@.len(),
                subnodes@.len() == i,
                forall|j: int|
                    0 <= j < i ==> {
                        &&& (#[trigger] subnodes@[j]).0@ == self.subnodes@[j].0@
                        &&& subnodes@[j].1@ == self.subnodes@[j].1@
                        &&& self.subnodes@[j].1.wf() ==> subnodes@[j].1.wf()
                    },
            decreases self.subnodes@.len() - i,
        {
            let child = self.subnodes[i].1.duplicate();
            subnodes.push((self.subnodes[i].0.clone(), child));
            i = i + 1;
        }
        proof {
            lemma_entries_congruent(subnodes@, self.subnodes@);
        }
        let r = DataNode {
            value: self.value.clone(),
            value_type: self.value_type.clone(),
            writable: self.writable,
            subnodes,
        };
        assert(self.wf() ==> r.wf()) by {
            if self.wf() {
                assert forall|j: int| 0 <= j < r.subnodes@.len() implies (#[trigger] r.subnodes@[j]).1.wf() by {
                    assert(self.subnodes@[j].1.wf());
                }
            }
        }
        r
    }

    /// The index of the last child named `name`, if there is one.
    fn position(&self, name: &String) -> (r: Option<usize>)
        ensures
            match r {
                Some(j) => last_with_key(self.subnodes@, j as int, name@),
                None => forall|i: int| 0 <= i < self.subnodes@.len() ==> self.subnodes@[i].0@ != name@,
            },
    {
        let mut i: usize = self.subnodes.len();
        while i > 0
            invariant
                i <= self.subnodes@.len(),
                forall|j: int| i <= j < self.subnodes@.len() ==> self.subnodes@[j].0@ != name@,
            decreases i,
        {
            if self.subnodes[i - 1].0 == *name {
                return Some(i - 1);
            }
            i = i - 1;
        }
        None
    }

    /// The child named `name`, or `None` where this node has none. Only this
    /// node's own children are searched.
    pub fn get_subnode(&self, name: &str) -> (r: Option<DataNode>)
        ensures
            match r {
                Some(n) => self@.subnodes.contains_key(name@) && n@ == self@.subnodes[name@],
                None => !self@.subnodes.contains_key(name@),
            },
            self.wf() ==> (r matches Some(n) ==> n.wf()),
    {
        let key = name.to_string();
        proof {
            lemma_entries_contains(self.subnodes@, name@);
        }
        match self.position(&key) {
            Some(j) => {
                proof {
                    lemma_entries_last(self.subnodes@, j as int, name@);
                }
                Some(self.subnodes[j].1.duplicate())
            },
            None => None,
        }
    }

    /// Puts `node` under `name`, replacing the child of that name if there
    /// is one.
    pub fn set_subnode(&mut self, name: String, node: DataNode)
        ensures
            final(self)@ == (NodeModel { subnodes: old(self)@.subnodes.insert(name@, node@), ..old(self)@ }),
            old(self).wf() && node.wf() ==> final(self).wf(),
    {
        proof {
            lemma_entries_contains(self.subnodes@, name@);
        }
        match self.position(&name) {
            Some(j) => {
                proof {
                    lemma_entries_update(self.subnodes@, j as int, (name, node));
                }
                self.subnodes.set(j, (name, node));
            },
            None => {
                proof {
                    lemma_entries_push(self.subnodes@, (name, node));
                }
                self.subnodes.push((name, node));
            },
        }
    }

    /// Merges `node` into this node: value and type are taken from `node`,
    /// writability is kept, every child of `node` is merged recursively into
    /// the child of the same name (created empty where missing), and
    /// children that `node` lacks are left as they are.
    pub fn merge(&mut self, node: &DataNode)
        requires
            old(self).wf(),
            node.wf(),
        ensures
            final(self).wf(),
            final(self)@ == merged(old(self)@, node@),
        decreases node,
    {
        let ghost a = self@.subnodes;
        self.value = node.value.clone();
        self.value_type = node.value_type.clone();
        let mut i: usize = 0;
        while i < node.subnodes.len()
            invariant
                i <= node.subnodes@.len(),
                node.wf(),
                self.wf(),
                self.value@ == node.value@,
                self.value_type@ == node.value_type@,
                self.writable == old(self).writable,
                entries_view(self.subnodes@) == merged_children(
                    a,
                    entries_view(node.subnodes@.take(i as int)),
                ),
            decreases node.subnodes@.len() - i,
        {
            let ghost pm = entries_view(node.subnodes@.take(i as int));
            let ghost cur = entries_view(self.subnodes@);
            let name = node.subnodes[i].0.clone();
            let ghost k = name@;
            proof {
                let t = node.subnodes@.take(i as int + 1);
                assert(t.drop_last() =~= node.subnodes@.take(i as int));
                assert(entries_view(t) == pm.insert(t.last().0@, t.last().1@));
                lemma_entries_contains(node.subnodes@.take(i as int), k);
                assert(!pm.contains_key(k)) by {
                    if pm.contains_key(k) {
                        let w = choose|w: int| 0 <= w < i && node.subnodes@.take(i as int)[w].0@ == k;
                        assert(node.subnodes@[w].0@ == node.subnodes@[i as int].0@);
                    }
                }
                lemma_entries_contains(self.subnodes@, k);
            }
            let j = match self.position(&name) {
                Some(j) => {
                    proof {
                        lemma_entries_last(self.subnodes@, j as int, k);
                    }
                    j
                },
                None => {
                    let fresh = DataNode::new();
                    proof {
                        lemma_entries_push(self.subnodes@, (name, fresh));
                        assert(!a.contains_key(k));
                    }
                    self.subnodes.push((name, fresh));
                    proof {
                        lemma_entries_last(self.subnodes@, self.subnodes@.len() - 1, k);
                    }
                    self.subnodes.len() - 1
                },
            };
            let ghost mid = self.subnodes@;
            assert(mid[j as int].1@ == child_or_empty(a, k));
            self.subnodes[j].1.merge(&node.subnodes[i].1);
            proof {
                assert(self.subnodes@ == mid.update(j as int, self.subnodes@[j as int]));
                lemma_entries_update(mid, j as int, self.subnodes@[j as int]);
                assert(entries_view(self.subnodes@) =~= merged_children(
                    a,
                    entries_view(node.subnodes@.take(i as int + 1)),
                ));
            }
            i = i + 1;
        }
        proof {
            assert(node.subnodes@.take(node.subnodes@.len() as int) =~= node.subnodes@);
            assert(self@.subnodes =~= merged(old(self)@, node@).subnodes);
        }
    }
}

} // verus!
