//! The runtime YAML value type and its mathematical model.
//!
//! A value is one of real (kept as its source text), integer, string,
//! boolean, null, array, or hash. A hash is an ordered sequence of
//! key/value pairs whose keys are pairwise distinct; iteration order is
//! insertion order.

use vstd::prelude::*;

verus! {

broadcast use vstd::seq::group_seq_axioms, vstd::std_specs::vec::group_vec_axioms;

/// The mathematical model of a YAML value. A hash is modelled as the
/// sequence of its entries in insertion order.
pub enum YamlV {
    Real(Seq<char>),
    Integer(int),
    String(Seq<char>),
    Boolean(bool),
    Array(Seq<YamlV>),
    Hash(Seq<(YamlV, YamlV)>),
    Null,
}

/// A runtime YAML value. `Real` keeps the source text of the number so
/// that emitting it reproduces the input exactly.
pub enum Yaml {
    Real(String),
    Integer(i64),
    String(String),
    Boolean(bool),
    Array(Vec<Yaml>),
    Hash(Vec<(Yaml, Yaml)>),
    Null,
}

pub open spec fn yaml_view(y: Yaml) -> YamlV
    decreases y,
{
    match y {
        Yaml::Real(s) => YamlV::Real(s@),
        Yaml::Integer(i) => YamlV::Integer(i as int),
        Yaml::String(s) => YamlV::String(s@),
        Yaml::Boolean(b) => YamlV::Boolean(b),
        Yaml::Array(items) => YamlV::Array(yaml_seq_view(items@)),
        Yaml::Hash(es) => YamlV::Hash(yaml_pairs_view(es@)),
        Yaml::Null => YamlV::Null,
    }
}

pub open spec fn yaml_seq_view(s: Seq<Yaml>) -> Seq<YamlV>
    decreases s,
{
    if s.len() == 0 {
        Seq::empty()
    } else {
        yaml_seq_view(s.drop_last()).push(yaml_view(s.last()))
    }
}

pub open spec fn yaml_pairs_view(s: Seq<(Yaml, Yaml)>) -> Seq<(YamlV, YamlV)>
    decreases s,
{
    if s.len() == 0 {
        Seq::empty()
    } else {
        yaml_pairs_view(s.drop_last()).push(
            (yaml_view(s.last().0), yaml_view(s.last().1)),
        )
    }
}

impl View for Yaml {
    type V = YamlV;

    open spec fn view(&self) -> YamlV {
        yaml_view(*self)
    }
}

pub broadcast proof fn lemma_yaml_seq_view_len(s: Seq<Yaml>)
    ensures
        #[trigger] yaml_seq_view(s).len() == s.len(),
    decreases s,
{
    if s.len() > 0 {
        lemma_yaml_seq_view_len(s.drop_last());
    }
}

pub broadcast proof fn lemma_yaml_seq_view_index(s: Seq<Yaml>, i: int)
    requires
        0 <= i < s.len(),
    ensures
        #[trigger] yaml_seq_view(s)[i] == yaml_view(s[i]),
    decreases s,
{
    lemma_yaml_seq_view_len(s);
    if i < s.len() - 1 {
        lemma_yaml_seq_view_index(s.drop_last(), i);
    }
}

pub broadcast proof fn lemma_yaml_pairs_view_len(s: Seq<(Yaml, Yaml)>)
    ensures
        #[trigger] yaml_pairs_view(s).len() == s.len(),
    decreases s,
{
    if s.len() > 0 {
        lemma_yaml_pairs_view_len(s.drop_last());
    }
}

pub broadcast proof fn lemma_yaml_pairs_view_index(s: Seq<(Yaml, Yaml)>, i: int)
    requires
        0 <= i < s.len(),
    ensures
        #[trigger] yaml_pairs_view(s)[i] == (yaml_view(s[i].0), yaml_view(s[i].1)),
    decreases s,
{
    lemma_yaml_pairs_view_len(s);
    if i < s.len() - 1 {
        lemma_yaml_pairs_view_index(s.drop_last(), i);
    }
}

pub broadcast group group_yaml_view_lemmas {
    lemma_yaml_seq_view_len,
    lemma_yaml_seq_view_index,
    lemma_yaml_pairs_view_len,
    lemma_yaml_pairs_view_index,
}

impl Yaml {
    /// Structural equality on values; hashes compare their entries in
    /// insertion order.
    #[verifier::loop_isolation(false)]
    pub fn structural_eq(&self, other: &Yaml) -> (r: bool)
        ensures
            r == (self@ == other@),
        decreases self,
    {
        broadcast use group_yaml_view_lemmas;

        match (self, other) {
            (Yaml::Real(a), Yaml::Real(b)) => *a == *b,
            (Yaml::Integer(a), Yaml::Integer(b)) => *a == *b,
            (Yaml::String(a), Yaml::String(b)) => *a == *b,
            (Yaml::Boolean(a), Yaml::Boolean(b)) => *a == *b,
            (Yaml::Null, Yaml::Null) => true,
            (Yaml::Array(a), Yaml::Array(b)) => {
                if a.len() != b.len() {
                    assert(yaml_seq_view(a@).len() != yaml_seq_view(b@).len());
                    return false;
                }
                let mut i: usize = 0;
                while i < a.len()
                    invariant
                        0 <= i <= a.len(),
                        a.len() == b.len(),
                        forall|j: int| 0 <= j < i ==> yaml_view(a@[j]) == yaml_view(b@[j]),
                    decreases a.len() - i,
                {
                    if !a[i].structural_eq(&b[i]) {
                        assert(yaml_seq_view(a@)[i as int] != yaml_seq_view(b@)[i as int]);
                        return false;
                    }
                    i += 1;
                }
                assert(yaml_seq_view(a@) =~= yaml_seq_view(b@));
                true
            },
            (Yaml::Hash(a), Yaml::Hash(b)) => {
                if a.len() != b.len() {
                    assert(yaml_pairs_view(a@).len() != yaml_pairs_view(b@).len());
                    return false;
                }
                let mut i: usize = 0;
                while i < a.len()
                    invariant
                        0 <= i <= a.len(),
                        a.len() == b.len(),
                        forall|j: int|
                            0 <= j < i ==> yaml_view(a@[j].0) == yaml_view(b@[j].0)
                                && yaml_view(a@[j].1) == yaml_view(b@[j].1),
                    decreases a.len() - i,
                {
                    if !a[i].0.structural_eq(&b[i].0) || !a[i].1.structural_eq(&b[i].1) {
                        assert(yaml_pairs_view(a@)[i as int] != yaml_pairs_view(b@)[i as int]);
                        return false;
                    }
                    i += 1;
                }
                assert(yaml_pairs_view(a@) =~= yaml_pairs_view(b@));
                true
            },
            _ => {
                assert(self@ != other@);
                false
            },
        }
    }

    /// A copy of the value; the model is unchanged.
    #[verifier::loop_isolation(false)]
    pub fn duplicate(&self) -> (r: Yaml)
        ensures
            r@ == self@,
        decreases self,
    {
        broadcast use group_yaml_view_lemmas;

        match self {
            Yaml::Real(s) => Yaml::Real(s.clone()),
            Yaml::Integer(i) => Yaml::Integer(*i),
            Yaml::String(s) => Yaml::String(s.clone()),
            Yaml::Boolean(b) => Yaml::Boolean(*b),
            Yaml::Null => Yaml::Null,
            Yaml::Array(items) => {
                let mut out: Vec<Yaml> = Vec::new();
                let mut i: usize = 0;
                while i < items.len()
                    invariant
                        0 <= i <= items.len(),
                        out@.len() == i,
                        forall|j: int| 0 <= j < i ==> yaml_view(out@[j]) == yaml_view(items@[j]),
                    decreases items.len() - i,
                {
                    out.push(items[i].duplicate());
                    i += 1;
                }
                assert(yaml_seq_view(out@) =~= yaml_seq_view(items@));
                Yaml::Array(out)
            },
            Yaml::Hash(es) => {
                let mut out: Vec<(Yaml, Yaml)> = Vec::new();
                let mut i: usize = 0;
                while i < es.len()
                    invariant
                        0 <= i <= es.len(),
                        out@.len() == i,
                        forall|j: int|
                            0 <= j < i ==> yaml_view(out@[j].0) == yaml_view(es@[j].0)
                                && yaml_view(out@[j].1) == yaml_view(es@[j].1),
                    decreases es.len() - i,
                {
                    let kv = (es[i].0.duplicate(), es[i].1.duplicate());
                    out.push(kv);
                    i += 1;
                }
                assert(yaml_pairs_view(out@) =~= yaml_pairs_view(es@));
                Yaml::Hash(out)
            },
        }
    }
}

/// Looks a key up in a hash model: the value of the first entry whose key
/// equals `k`, if any.
pub open spec fn hash_lookup_v(es: Seq<(YamlV, YamlV)>, k: YamlV) -> Option<YamlV>
    decreases es,
{
    if es.len() == 0 {
        None
    } else if es[0].0 == k {
        Some(es[0].1)
    } else {
        hash_lookup_v(es.drop_first(), k)
    }
}

/// Inserts into a hash model: an existing key keeps its position and takes
/// the new value; a new key is appended. A template that writes a key
/// twice thus emits it at its first occurrence, with the last value.
pub open spec fn hash_insert_v(es: Seq<(YamlV, YamlV)>, k: YamlV, v: YamlV) -> Seq<(YamlV, YamlV)>
    decreases es,
{
    if es.len() == 0 {
        seq![(k, v)]
    } else if es[0].0 == k {
        seq![(k, v)] + es.drop_first()
    } else {
        seq![es[0]] + hash_insert_v(es.drop_first(), k, v)
    }
}

/// Inserts an entry into the entry list of a hash value, with the model
/// semantics of `hash_insert_v`.
#[verifier::loop_isolation(false)]
pub fn hash_insert(es: &mut Vec<(Yaml, Yaml)>, k: Yaml, v: Yaml)
    ensures
        yaml_pairs_view(final(es)@) == hash_insert_v(yaml_pairs_view(old(es)@), k@, v@),
{
    broadcast use group_yaml_view_lemmas;

    let mut i: usize = 0;
    while i < es.len()
        invariant
            0 <= i <= es.len(),
            es@ == old(es)@,
            forall|j: int| 0 <= j < i ==> yaml_view(es@[j].0) != k@,
        decreases es.len() - i,
    {
        if es[i].0.structural_eq(&k) {
            let ghost pre = yaml_pairs_view(es@);
            es.set(i, (k, v));
            proof {
                assert(yaml_pairs_view(es@) =~= pre.update(i as int, (k@, v@)));
                lemma_hash_insert_at(pre, yaml_pairs_view(es@), i as int, k@, v@);
            }
            return;
        }
        i += 1;
    }
    let ghost pre = yaml_pairs_view(es@);
    es.push((k, v));
    proof {
        lemma_hash_insert_missing(pre, k@, v@);
        assert(es@.drop_last() =~= old(es)@);
        assert(yaml_pairs_view(es@) =~= pre.push((k@, v@)));
    }
}

/// When the key is absent, insertion appends the entry.
pub proof fn lemma_hash_insert_missing(es: Seq<(YamlV, YamlV)>, k: YamlV, v: YamlV)
    requires
        forall|j: int| 0 <= j < es.len() ==> (#[trigger] es[j]).0 != k,
    ensures
        hash_insert_v(es, k, v) == es.push((k, v)),
    decreases es,
{
    if es.len() == 0 {
        assert(hash_insert_v(es, k, v) =~= es.push((k, v)));
    } else {
        assert(es[0].0 != k);
        lemma_hash_insert_missing(es.drop_first(), k, v);
        assert(seq![es[0]] + es.drop_first().push((k, v)) =~= es.push((k, v)));
    }
}

/// When the key first occurs at position `i`, insertion replaces that
/// entry in place.
pub proof fn lemma_hash_insert_at(
    pre: Seq<(YamlV, YamlV)>,
    post: Seq<(YamlV, YamlV)>,
    i: int,
    k: YamlV,
    v: YamlV,
)
    requires
        0 <= i < pre.len(),
        pre[i].0 == k,
        forall|j: int| 0 <= j < i ==> (#[trigger] pre[j]).0 != k,
        post == pre.update(i, (k, v)),
    ensures
        post == hash_insert_v(pre, k, v),
    decreases i,
{
    if i == 0 {
        assert(post =~= seq![(k, v)] + pre.drop_first());
    } else {
        assert(post.drop_first() =~= pre.drop_first().update(i - 1, (k, v)));
        lemma_hash_insert_at(pre.drop_first(), post.drop_first(), i - 1, k, v);
        assert(post =~= seq![pre[0]] + post.drop_first());
    }
}

/// The name of a value's type, as diagnostics print it.
pub open spec fn yamlv_type_name(v: YamlV) -> Seq<char> {
    match v {
        YamlV::Real(_) => "number"@,
        YamlV::Integer(_) => "integer"@,
        YamlV::String(_) => "string"@,
        YamlV::Boolean(_) => "bool"@,
        YamlV::Array(_) => "list"@,
        YamlV::Hash(_) => "map"@,
        YamlV::Null => "null"@,
    }
}

pub fn yaml_type_name(y: &Yaml) -> (r: &'static str)
    ensures
        r@ == yamlv_type_name(y@),
{
    match y {
        Yaml::Real(_) => "number",
        Yaml::Integer(_) => "integer",
        Yaml::String(_) => "string",
        Yaml::Boolean(_) => "bool",
        Yaml::Array(_) => "list",
        Yaml::Hash(_) => "map",
        Yaml::Null => "null",
    }
}

} // verus!
