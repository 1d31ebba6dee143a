//! Naming and picking the scalar fields of a JSON record.
use vstd::prelude::*;

use crate::config::same_text;
use crate::json::{decimal, item_leaves, leaves, member_leaves, JsonNode, Leaf};

verus! {

broadcast use vstd::std_specs::vec::axiom_vec_decreases_to_view, vstd::seq::axiom_seq_index_decreases;

/// Path segments joined by a delimiter: `a.b.c` for `[a, b, c]` and `.`.
pub open spec fn joined(path: Seq<Seq<char>>, delimiter: Seq<char>) -> Seq<char>
    decreases path.len(),
{
    if path.len() == 0 {
        Seq::empty()
    } else if path.len() == 1 {
        path[0]
    } else {
        joined(path.drop_last(), delimiter) + delimiter + path.last()
    }
}

/// One of `fields` is `field`.
pub open spec fn names_field(fields: Seq<String>, field: Seq<char>) -> bool {
    exists|i: int| 0 <= i < fields.len() && (#[trigger] fields[i])@ == field
}

/// Relies on `[String]::join`: the segments with the delimiter between each two.
#[verifier::external_body]
fn join_path(path: &Vec<String>, delimiter: &str) -> (r: String)
    ensures
        r@ == joined(path@.map_values(|s: String| s@), delimiter@),
{
    path.join(delimiter)
}

/// Relies on `ToString` for `usize`: its decimal digits.
#[verifier::external_body]
fn index_text(i: usize) -> (r: String)
    ensures
        r@ == decimal(i as nat),
{
    i.to_string()
}

/// The texts of a list of string pairs.
pub open spec fn pair_views(pairs: Seq<(String, String)>) -> Seq<(Seq<char>, Seq<char>)> {
    pairs.map_values(|p: (String, String)| (p.0@, p.1@))
}

/// The texts of a list of strings.
pub open spec fn texts(v: Seq<String>) -> Seq<Seq<char>> {
    v.map_values(|s: String| s@)
}

/// Names the scalar fields of a record by their paths, and says which of them to show.
pub struct JSONExtractor {
    field_delimiter: String,
    fields: Option<Vec<String>>,
}

impl JSONExtractor {
    pub closed spec fn delimiter(&self) -> Seq<char> {
        self.field_delimiter@
    }

    /// The field names to show, or `None` to show every field.
    pub closed spec fn shown_fields(&self) -> Option<Seq<String>> {
        match self.fields {
            Some(f) => Some(f@),
            None => None,
        }
    }

    /// Shows every field; paths are joined with `.`.
    pub fn default() -> (r: Self)
        ensures
            r.delimiter() == "."@,
            r.shown_fields() is None,
    {
        JSONExtractor { field_delimiter: ".".to_owned(), fields: None }
    }

    /// Shows only the fields named in `fields`; paths are joined with `.`.
    pub fn filtered(fields: Vec<String>) -> (r: Self)
        ensures
            r.delimiter() == "."@,
            r.shown_fields() == Some(fields@),
    {
        JSONExtractor { field_delimiter: ".".to_owned(), fields: Some(fields) }
    }

    /// Whether a field of this name is shown.
    pub open spec fn shows(&self, name: Seq<char>) -> bool {
        match self.shown_fields() {
            None => true,
            Some(f) => names_field(f, name),
        }
    }

    /// The shown fields among `ls`, by name and text, in order.
    pub open spec fn named(&self, ls: Seq<Leaf>) -> Seq<(Seq<char>, Seq<char>)>
        decreases ls.len(),
    {
        if ls.len() == 0 {
            Seq::empty()
        } else {
            let rest = self.named(ls.drop_last());
            let name = joined(ls.last().0, self.delimiter());
            if self.shows(name) {
                rest.push((name, ls.last().1))
            } else {
                rest
            }
        }
    }

    proof fn lemma_named_concat(&self, a: Seq<Leaf>, b: Seq<Leaf>)
        ensures
            self.named(a + b) == self.named(a) + self.named(b),
        decreases b.len(),
    {
        if b.len() == 0 {
            assert(a + b =~= a);
            assert(self.named(b) =~= Seq::<(Seq<char>, Seq<char>)>::empty());
        } else {
            self.lemma_named_concat(a, b.drop_last());
            assert((a + b).drop_last() =~= a + b.drop_last());
            assert((a + b).last() == b.last());
        }
    }

    /// Whether the field named `field` is shown.
    pub fn is_field_ok(&self, field: &str) -> (r: bool)
        ensures
            r == self.shows(field@),
    {
        match &self.fields {
            None => true,
            Some(f) => {
                let mut i: usize = 0;
                while i < f.len()
                    invariant
                        self.shown_fields() == Some(f@),
                        i <= f@.len(),
                        forall|j: int| 0 <= j < i ==> (#[trigger] f@[j])@ != field@,
                    decreases f@.len() - i,
                {
                    if same_text(&f[i], field) {
                        assert(f@[i as int]@ == field@);
                        assert(names_field(f@, field@));
                        return true;
                    }
                    i = i + 1;
                }
                false
            },
        }
    }

    /// The name of the field at `path`: its segments joined by the delimiter.
    pub fn field_name(&self, path: &Vec<String>) -> (r: String)
        ensures
            r@ == joined(path@.map_values(|s: String| s@), self.delimiter()),
    {
        join_path(path, self.field_delimiter.as_str())
    }

    /// The shown scalar fields of `item`, by field name and text, in document order.
    pub fn extract(&self, item: &JsonNode) -> (r: Vec<(String, String)>)
        ensures
            pair_views(r@) == self.named(leaves(*item, Seq::empty())),
    {
        let mut path: Vec<String> = Vec::new();
        let mut out: Vec<(String, String)> = Vec::new();
        assert(texts(path@) =~= Seq::<Seq<char>>::empty());
        assert(pair_views(out@) =~= Seq::<(Seq<char>, Seq<char>)>::empty());
        self.extract_one(&mut path, item, &mut out);
        assert(pair_views(out@) =~= self.named(leaves(*item, Seq::empty())));
        out
    }

    fn push_field(&self, path: &Vec<String>, text: &String, out: &mut Vec<(String, String)>)
        ensures
            pair_views(final(out)@) == pair_views(old(out)@) + self.named(
                seq![(texts(path@), text@)],
            ),
    {
        let key = self.field_name(path);
        assert(path@.map_values(|s: String| s@) == texts(path@));
        let ghost one: Seq<Leaf> = seq![(texts(path@), text@)];
        assert(one.drop_last() =~= Seq::<Leaf>::empty());
        assert(self.named(one.drop_last()) =~= Seq::<(Seq<char>, Seq<char>)>::empty());
        assert(one.last() == (texts(path@), text@));
        if self.is_field_ok(key.as_str()) {
            out.push((key, text.clone()));
            assert(pair_views(out@) =~= pair_views(old(out)@).push((key@, text@)));
            assert(self.named(one) =~= seq![(key@, text@)]);
        } else {
            assert(pair_views(out@) =~= pair_views(old(out)@) + Seq::empty());
        }
    }

    fn extract_one(&self, path: &mut Vec<String>, node: &JsonNode, out: &mut Vec<(String, String)>)
        ensures
            final(path)@ == old(path)@,
            pair_views(final(out)@) == pair_views(old(out)@) + self.named(
                leaves(*node, texts(old(path)@)),
            ),
        decreases *node,
    {
        let ghost p = texts(path@);
        let ghost path_start = path@;
        match node {
            JsonNode::Scalar(t) => {
                self.push_field(path, t, out);
            },
            JsonNode::Object(members) => {
                let ghost out0 = pair_views(out@);
                let mut i: usize = 0;
                while i < members.len()
                    invariant
                        i <= members@.len(),
                        texts(path@) == p,
                        path@ == path_start,
                        *node == JsonNode::Object(*members),
                        pair_views(out@) == out0 + self.named(
                            member_leaves(members@, p, i as int),
                        ),
                    decreases members@.len() - i,
                {
                    let ghost before = pair_views(out@);
                    let ghost path0 = path@;
                    let key = members[i].0.clone();
                    path.push(key);
                    assert(texts(path@) =~= p.push(members@[i as int].0@));
                    assert(decreases_to!(*node => (*node)->Object_0));
                    assert(decreases_to!(*members => members@));
                    assert(decreases_to!(members@ => members@[i as int]));
                    assert(decreases_to!(members@[i as int] => members@[i as int].1));
                    assert(decreases_to!(*node => members@[i as int].1));
                    self.extract_one(path, &members[i].1, out);
                    path.pop();
                    assert(path@ =~= path0);
                    proof {
                        self.lemma_named_concat(
                            member_leaves(members@, p, i as int),
                            leaves(members@[i as int].1, p.push(members@[i as int].0@)),
                        );
                    }
                    i = i + 1;
                }
                assert(members@.len() as int == i);
            },
            JsonNode::Array(items) => {
                let ghost out0 = pair_views(out@);
                let mut i: usize = 0;
                while i < items.len()
                    invariant
                        i <= items@.len(),
                        texts(path@) == p,
                        path@ == path_start,
                        *node == JsonNode::Array(*items),
                        pair_views(out@) == out0 + self.named(item_leaves(items@, p, i as int)),
                    decreases items@.len() - i,
                {
                    let ghost path0 = path@;
                    let segment = index_text(i);
                    path.push(segment);
                    assert(texts(path@) =~= p.push(decimal(i as nat)));
                    assert(decreases_to!(*node => (*node)->Array_0));
                    assert(decreases_to!(*items => items@));
                    assert(decreases_to!(items@ => items@[i as int]));
                    assert(decreases_to!(*node => items@[i as int]));
                    self.extract_one(path, &items[i], out);
                    path.pop();
                    assert(path@ =~= path0);
                    proof {
                        self.lemma_named_concat(
                            item_leaves(items@, p, i as int),
                            leaves(items@[i as int], p.push(decimal(i as nat))),
                        );
                    }
                    i = i + 1;
                }
            },
        }
    }
}

} // verus!
