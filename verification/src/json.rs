use vstd::prelude::*;

verus! {

/// Mathematical model of a JSON document.
///
/// Numbers are modelled by their canonical decimal rendering (the text a
/// JSON serializer would emit), which is all the connector ever reads of
/// them. Objects keep their entries in order; lookups take the first
/// binding of a key.
#[verifier::ext_equal]
pub enum SpecJson {
    Null,
    Bool(bool),
    Num(Seq<char>),
    Str(Seq<char>),
    Arr(Seq<SpecJson>),
    Obj(Seq<(Seq<char>, SpecJson)>),
}

/// An in-flight JSON document.
///
/// `Num` holds the canonical decimal rendering of the number; `Obj` keeps
/// entries in insertion order with unique keys (uniqueness is the parser's
/// concern and is not relied on: lookups take the first binding).
#[derive(Debug, PartialEq, Eq)]
pub enum JsonValue {
    Null,
    Bool(bool),
    Num(String),
    Str(String),
    Arr(Vec<JsonValue>),
    Obj(Vec<(String, JsonValue)>),
}

impl JsonValue {
    pub open spec fn view_rec(&self) -> SpecJson
        decreases self,
    {
        match self {
            JsonValue::Null => SpecJson::Null,
            JsonValue::Bool(b) => SpecJson::Bool(*b),
            JsonValue::Num(s) => SpecJson::Num(s@),
            JsonValue::Str(s) => SpecJson::Str(s@),
            JsonValue::Arr(a) => SpecJson::Arr(JsonValue::view_seq(a@)),
            JsonValue::Obj(m) => SpecJson::Obj(JsonValue::view_entries(m@)),
        }
    }

    pub open spec fn view_seq(s: Seq<JsonValue>) -> Seq<SpecJson>
        decreases s,
    {
        if s.len() == 0 {
            Seq::empty()
        } else {
            seq![s[0].view_rec()] + JsonValue::view_seq(s.skip(1))
        }
    }

    pub open spec fn view_entries(m: Seq<(String, JsonValue)>) -> Seq<(Seq<char>, SpecJson)>
        decreases m,
    {
        if m.len() == 0 {
            Seq::empty()
        } else {
            seq![(m[0].0@, m[0].1.view_rec())] + JsonValue::view_entries(m.skip(1))
        }
    }
}

impl View for JsonValue {
    type V = SpecJson;

    open spec fn view(&self) -> SpecJson {
        self.view_rec()
    }
}

/// The view of a sequence of values is the sequence of their views.
pub broadcast proof fn lemma_view_seq(s: Seq<JsonValue>)
    ensures
        (#[trigger] JsonValue::view_seq(s)).len() == s.len(),
        forall|i: int| 0 <= i < s.len() ==> JsonValue::view_seq(s)[i] == s[i]@,
    decreases s,
{
    if s.len() > 0 {
        lemma_view_seq(s.skip(1));
    }
}

/// The view of an entry list keeps each key's characters and each value's view.
pub broadcast proof fn lemma_view_entries(m: Seq<(String, JsonValue)>)
    ensures
        (#[trigger] JsonValue::view_entries(m)).len() == m.len(),
        forall|i: int| 0 <= i < m.len() ==> JsonValue::view_entries(m)[i]
            == (m[i].0@, m[i].1@),
    decreases m,
{
    if m.len() > 0 {
        lemma_view_entries(m.skip(1));
    }
}

/// Node count of a document; the termination measure for everything that
/// walks one.
pub open spec fn spec_size(v: SpecJson) -> nat
    decreases v,
{
    match v {
        SpecJson::Null => 1,
        SpecJson::Bool(_) => 1,
        SpecJson::Num(_) => 1,
        SpecJson::Str(_) => 1,
        SpecJson::Arr(a) => 1 + spec_size_seq(a),
        SpecJson::Obj(m) => 1 + spec_size_entries(m),
    }
}

pub open spec fn spec_size_seq(s: Seq<SpecJson>) -> nat
    decreases s,
{
    if s.len() == 0 {
        0
    } else {
        spec_size(s[0]) + spec_size_seq(s.skip(1))
    }
}

pub open spec fn spec_size_entries(m: Seq<(Seq<char>, SpecJson)>) -> nat
    decreases m,
{
    if m.len() == 0 {
        0
    } else {
        spec_size(m[0].1) + spec_size_entries(m.skip(1))
    }
}

pub proof fn lemma_size_seq_elem(s: Seq<SpecJson>, i: int)
    requires
        0 <= i < s.len(),
    ensures
        spec_size(s[i]) <= spec_size_seq(s),
    decreases s.len(),
{
    if i == 0 {
    } else {
        lemma_size_seq_elem(s.skip(1), i - 1);
    }
}

pub proof fn lemma_size_entries_elem(m: Seq<(Seq<char>, SpecJson)>, i: int)
    requires
        0 <= i < m.len(),
    ensures
        spec_size(m[i].1) <= spec_size_entries(m),
    decreases m.len(),
{
    if i == 0 {
    } else {
        lemma_size_entries_elem(m.skip(1), i - 1);
    }
}

/// The first binding of `key` in the object entries `m`, if any.
pub open spec fn spec_obj_get(m: Seq<(Seq<char>, SpecJson)>, key: Seq<char>) -> Option<SpecJson>
    decreases m.len(),
{
    if m.len() == 0 {
        None
    } else if m[0].0 == key {
        Some(m[0].1)
    } else {
        spec_obj_get(m.skip(1), key)
    }
}

impl JsonValue {
    /// An exact copy; the original stays usable.
    pub fn deep_copy(&self) -> (r: JsonValue)
        ensures
            r@ == self@,
        decreases spec_size(self@),
    {
        match self {
            JsonValue::Null => JsonValue::Null,
            JsonValue::Bool(b) => JsonValue::Bool(*b),
            JsonValue::Num(s) => JsonValue::Num(s.clone()),
            JsonValue::Str(s) => JsonValue::Str(s.clone()),
            JsonValue::Arr(a) => {
                let ghost va = JsonValue::view_seq(a@);
                proof {
                    lemma_view_seq(a@);
                }
                let mut out: Vec<JsonValue> = Vec::new();
                let mut i: usize = 0;
                while i < a.len()
                    invariant
                        i <= a.len(),
                        va == JsonValue::view_seq(a@),
                        self@ == SpecJson::Arr(va),
                        va.len() == a@.len(),
                        forall|j: int| 0 <= j < a@.len() ==> va[j] == a@[j]@,
                        out@.len() == i as int,
                        forall|j: int| 0 <= j < i ==> out@[j]@ == a@[j]@,
                    decreases a.len() - i,
                {
                    proof {
                        lemma_size_seq_elem(va, i as int);
                    }
                    out.push(a[i].deep_copy());
                    i = i + 1;
                }
                let r = JsonValue::Arr(out);
                proof {
                    lemma_view_seq(out@);
                    assert(JsonValue::view_seq(out@) =~= va);
                }
                r
            }
            JsonValue::Obj(m) => {
                let ghost vm = JsonValue::view_entries(m@);
                proof {
                    lemma_view_entries(m@);
                }
                let mut out: Vec<(String, JsonValue)> = Vec::new();
                let mut i: usize = 0;
                while i < m.len()
                    invariant
                        i <= m.len(),
                        vm == JsonValue::view_entries(m@),
                        self@ == SpecJson::Obj(vm),
                        vm.len() == m@.len(),
                        forall|j: int| 0 <= j < m@.len() ==> vm[j] == (m@[j].0@, m@[j].1@),
                        out@.len() == i as int,
                        forall|j: int| 0 <= j < i ==> out@[j].0@ == m@[j].0@
                            && out@[j].1@ == m@[j].1@,
                    decreases m.len() - i,
                {
                    proof {
                        lemma_size_entries_elem(vm, i as int);
                        assert(vm[i as int].1 == m@[i as int].1@);
                    }
                    let entry = &m[i];
                    out.push((entry.0.clone(), entry.1.deep_copy()));
                    i = i + 1;
                }
                let r = JsonValue::Obj(out);
                proof {
                    lemma_view_entries(out@);
                    assert(JsonValue::view_entries(out@) =~= vm);
                }
                r
            }
        }
    }

    /// The first value bound to `key` when this is an object.
    pub fn obj_get(&self, key: &str) -> (r: Option<&JsonValue>)
        ensures
            match r {
                Some(v) => self@ is Obj && spec_obj_get(self@->Obj_0, key@) == Some(v@),
                None => !(self@ is Obj) || spec_obj_get(self@->Obj_0, key@) is None,
            },
    {
        match self {
            JsonValue::Obj(m) => {
                let ghost vm = JsonValue::view_entries(m@);
                proof {
                    lemma_view_entries(m@);
                    assert(vm.skip(0) =~= vm);
                }
                let mut i: usize = 0;
                while i < m.len()
                    invariant
                        i <= m.len(),
                        vm == JsonValue::view_entries(m@),
                        self@ == SpecJson::Obj(vm),
                        vm.len() == m@.len(),
                        forall|j: int| 0 <= j < m@.len() ==> vm[j] == (m@[j].0@, m@[j].1@),
                        spec_obj_get(vm, key@) == spec_obj_get(vm.skip(i as int), key@),
                    decreases m.len() - i,
                {
                    if str_eq(m[i].0.as_str(), key) {
                        proof {
                            assert(vm.skip(i as int)[0] == vm[i as int]);
                        }
                        return Some(&m[i].1);
                    }
                    proof {
                        assert(vm.skip(i as int)[0] == vm[i as int]);
                        assert(vm.skip(i as int).skip(1) =~= vm.skip(i as int + 1));
                    }
                    i = i + 1;
                }
                proof {
                    assert(vm.skip(i as int).len() == 0);
                }
                None
            }
            _ => None,
        }
    }
}

/// Relies on `str`'s `==` (its `PartialEq` impl): true exactly when the two
/// strings hold the same characters.
#[verifier::external_body]
pub fn str_eq(a: &str, b: &str) -> (r: bool)
    ensures
        r == (a@ == b@),
{
    a == b
}

} // verus!
