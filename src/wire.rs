//! The JSON documents that frames travel as.
//!
//! A [`Document`] is a JSON object as the frames of this service use it: its
//! members hold text, unsigned numbers, flat objects of such scalars, or
//! arrays of flat objects. Any other JSON value is kept as `Other`, so that
//! unknown members are tolerated while a frame that needs the member fails to
//! decode. Turning text into a document and back is left to a JSON library.
use vstd::prelude::*;

verus! {

/// A value inside a flat object.
#[derive(Debug)]
pub enum Scalar {
    Text(String),
    Number(u64),
    Other,
}

/// A member value of a document.
#[derive(Debug)]
pub enum JsonValue {
    Text(String),
    Number(u64),
    Object(Vec<(String, Scalar)>),
    Array(Vec<Vec<(String, Scalar)>>),
    Other,
}

/// A JSON object: its members in order.
#[derive(Debug)]
pub struct Document {
    pub members: Vec<(String, JsonValue)>,
}

/// The mathematical value of a [`Scalar`].
pub enum ScalarModel {
    Text(Seq<char>),
    Number(u64),
    Other,
}

/// The mathematical value of a [`JsonValue`].
pub enum ValueModel {
    Text(Seq<char>),
    Number(u64),
    Object(Seq<(Seq<char>, ScalarModel)>),
    Array(Seq<Seq<(Seq<char>, ScalarModel)>>),
    Other,
}

impl View for Scalar {
    type V = ScalarModel;

    open spec fn view(&self) -> ScalarModel {
        match self {
            Scalar::Text(s) => ScalarModel::Text(s@),
            Scalar::Number(n) => ScalarModel::Number(*n),
            Scalar::Other => ScalarModel::Other,
        }
    }
}

/// The model of a flat object.
pub open spec fn record_view(r: Seq<(String, Scalar)>) -> Seq<(Seq<char>, ScalarModel)> {
    r.map_values(|m: (String, Scalar)| (m.0@, m.1@))
}

/// The model of an array of flat objects.
pub open spec fn records_view(rs: Seq<Vec<(String, Scalar)>>) -> Seq<Seq<(Seq<char>, ScalarModel)>> {
    rs.map_values(|r: Vec<(String, Scalar)>| record_view(r@))
}

impl View for JsonValue {
    type V = ValueModel;

    open spec fn view(&self) -> ValueModel {
        match self {
            JsonValue::Text(s) => ValueModel::Text(s@),
            JsonValue::Number(n) => ValueModel::Number(*n),
            JsonValue::Object(r) => ValueModel::Object(record_view(r@)),
            JsonValue::Array(rs) => ValueModel::Array(records_view(rs@)),
            JsonValue::Other => ValueModel::Other,
        }
    }
}

impl View for Document {
    type V = Seq<(Seq<char>, ValueModel)>;

    open spec fn view(&self) -> Seq<(Seq<char>, ValueModel)> {
        self.members@.map_values(|m: (String, JsonValue)| (m.0@, m.1@))
    }
}

/// The value of the first member named `key`.
pub open spec fn lookup<V>(ms: Seq<(Seq<char>, V)>, key: Seq<char>) -> Option<V>
    decreases ms.len(),
{
    if ms.len() == 0 {
        None
    } else if ms[0].0 == key {
        Some(ms[0].1)
    } else {
        lookup(ms.drop_first(), key)
    }
}

/// A required text member.
pub open spec fn text_at(d: Seq<(Seq<char>, ValueModel)>, key: Seq<char>) -> Option<Seq<char>> {
    match lookup(d, key) {
        Some(ValueModel::Text(s)) => Some(s),
        _ => None,
    }
}

/// A required user id: a number that fits in 32 bits.
pub open spec fn id_at(d: Seq<(Seq<char>, ValueModel)>, key: Seq<char>) -> Option<u32> {
    match lookup(d, key) {
        Some(ValueModel::Number(n)) => if n <= u32::MAX {
            Some(n as u32)
        } else {
            None
        },
        _ => None,
    }
}

/// An optional text member: `Some(None)` when absent, `None` when ill-typed.
pub open spec fn opt_text_at(d: Seq<(Seq<char>, ValueModel)>, key: Seq<char>) -> Option<Option<Seq<char>>> {
    match lookup(d, key) {
        None => Some(None),
        Some(ValueModel::Text(s)) => Some(Some(s)),
        _ => None,
    }
}

/// An optional 32-bit number: `Some(None)` when absent, `None` when ill-typed.
pub open spec fn opt_id_at(d: Seq<(Seq<char>, ValueModel)>, key: Seq<char>) -> Option<Option<u32>> {
    match lookup(d, key) {
        None => Some(None),
        Some(ValueModel::Number(n)) => if n <= u32::MAX {
            Some(Some(n as u32))
        } else {
            None
        },
        _ => None,
    }
}

/// A required text member of a flat object.
pub open spec fn record_text(r: Seq<(Seq<char>, ScalarModel)>, key: Seq<char>) -> Option<Seq<char>> {
    match lookup(r, key) {
        Some(ScalarModel::Text(s)) => Some(s),
        _ => None,
    }
}

/// A required 32-bit number of a flat object.
pub open spec fn record_id(r: Seq<(Seq<char>, ScalarModel)>, key: Seq<char>) -> Option<u32> {
    match lookup(r, key) {
        Some(ScalarModel::Number(n)) => if n <= u32::MAX {
            Some(n as u32)
        } else {
            None
        },
        _ => None,
    }
}

/// The view of an optional text.
pub open spec fn opt_view(o: Option<String>) -> Option<Seq<char>> {
    match o {
        Some(s) => Some(s@),
        None => None,
    }
}

/// The member of `ms` named `key`, as in [`lookup`].
pub fn find_member<'a, V>(ms: &'a Vec<(String, V)>, key: &String) -> (r: Option<&'a V>)
    ensures
        r matches Some(v) ==> exists|i: int| 0 <= i < ms@.len() && ms@[i].0@ == key@ && ms@[i].1 == *v && forall|j: int|
            0 <= j < i ==> ms@[j].0@ != key@,
        r is None ==> forall|j: int| 0 <= j < ms@.len() ==> ms@[j].0@ != key@,
{
    let mut i: usize = 0;
    while i < ms.len()
        invariant
            i <= ms@.len(),
            forall|j: int| 0 <= j < i ==> ms@[j].0@ != key@,
        decreases ms@.len() - i,
    {
        if ms[i].0 == *key {
            return Some(&ms[i].1);
        }
        i = i + 1;
    }
    None
}

/// The first index with this key decides [`lookup`].
pub proof fn lemma_lookup_index<V>(ms: Seq<(Seq<char>, V)>, key: Seq<char>, i: int)
    requires
        0 <= i < ms.len(),
        ms[i].0 == key,
        forall|j: int| 0 <= j < i ==> ms[j].0 != key,
    ensures
        lookup(ms, key) == Some(ms[i].1),
    decreases i,
{
    if i > 0 {
        lemma_lookup_index(ms.drop_first(), key, i - 1);
    }
}

/// With no member of this key, [`lookup`] finds nothing.
pub proof fn lemma_lookup_none<V>(ms: Seq<(Seq<char>, V)>, key: Seq<char>)
    requires
        forall|j: int| 0 <= j < ms.len() ==> ms[j].0 != key,
    ensures
        lookup(ms, key) is None,
    decreases ms.len(),
{
    if ms.len() > 0 {
        lemma_lookup_none(ms.drop_first(), key);
    }
}

impl Document {
    /// The value of the first member named `key`.
    pub fn get(&self, key: &str) -> (r: Option<&JsonValue>)
        ensures
            r matches Some(v) ==> lookup(self@, key@) == Some(v@),
            r is None ==> lookup(self@, key@) is None,
    {
        let k = key.to_string();
        let r = find_member(&self.members, &k);
        proof {
            match r {
                Some(v) => {
                    let i = choose|i: int|
                        0 <= i < self.members@.len() && self.members@[i].0@ == k@ && self.members@[i].1 == *v
                            && forall|j: int| 0 <= j < i ==> self.members@[j].0@ != k@;
                    lemma_lookup_index(self@, key@, i);
                },
                None => {
                    lemma_lookup_none(self@, key@);
                },
            }
        }
        r
    }

    /// A required text member.
    pub fn text(&self, key: &str) -> (r: Option<String>)
        ensures
            opt_view(r) == text_at(self@, key@),
    {
        match self.get(key) {
            Some(JsonValue::Text(s)) => Some(s.clone()),
            _ => None,
        }
    }

    /// A required 32-bit number.
    pub fn id(&self, key: &str) -> (r: Option<u32>)
        ensures
            r == id_at(self@, key@),
    {
        match self.get(key) {
            Some(JsonValue::Number(n)) => if *n <= 0xffff_ffffu64 {
                Some(*n as u32)
            } else {
                None
            },
            _ => None,
        }
    }

    /// An optional text member: `Some(None)` when absent, `None` when ill-typed.
    pub fn opt_text(&self, key: &str) -> (r: Option<Option<String>>)
        ensures
            match r {
                Some(o) => opt_text_at(self@, key@) == Some(opt_view(o)),
                None => opt_text_at(self@, key@) is None,
            },
    {
        match self.get(key) {
            None => Some(None),
            Some(JsonValue::Text(s)) => Some(Some(s.clone())),
            _ => None,
        }
    }

    /// An optional 32-bit number: `Some(None)` when absent, `None` when ill-typed.
    pub fn opt_id(&self, key: &str) -> (r: Option<Option<u32>>)
        ensures
            r == opt_id_at(self@, key@),
    {
        match self.get(key) {
            None => Some(None),
            Some(JsonValue::Number(n)) => if *n <= 0xffff_ffffu64 {
                Some(Some(*n as u32))
            } else {
                None
            },
            _ => None,
        }
    }
}

/// A required text member of a flat object.
pub fn record_text_of(r: &Vec<(String, Scalar)>, key: &str) -> (o: Option<String>)
    ensures
        opt_view(o) == record_text(record_view(r@), key@),
{
    let k = key.to_string();
    let found = find_member(r, &k);
    proof {
        match found {
            Some(v) => {
                let i = choose|i: int|
                    0 <= i < r@.len() && r@[i].0@ == k@ && r@[i].1 == *v && forall|j: int| 0 <= j < i ==> r@[j].0@ != k@;
                lemma_lookup_index(record_view(r@), key@, i);
            },
            None => {
                lemma_lookup_none(record_view(r@), key@);
            },
        }
    }
    match found {
        Some(Scalar::Text(s)) => Some(s.clone()),
        _ => None,
    }
}

/// A required 32-bit number of a flat object.
pub fn record_id_of(r: &Vec<(String, Scalar)>, key: &str) -> (o: Option<u32>)
    ensures
        o == record_id(record_view(r@), key@),
{
    let k = key.to_string();
    let found = find_member(r, &k);
    proof {
        match found {
            Some(v) => {
                let i = choose|i: int|
                    0 <= i < r@.len() && r@[i].0@ == k@ && r@[i].1 == *v && forall|j: int| 0 <= j < i ==> r@[j].0@ != k@;
                lemma_lookup_index(record_view(r@), key@, i);
            },
            None => {
                lemma_lookup_none(record_view(r@), key@);
            },
        }
    }
    match found {
        Some(Scalar::Number(n)) => if *n <= 0xffff_ffffu64 {
            Some(*n as u32)
        } else {
            None
        },
        _ => None,
    }
}

} // verus!
