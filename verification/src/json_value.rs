//! JSON documents as the adapters read them, and their mathematical model.
use crate::text::str_equal;
use vstd::prelude::*;

verus! {

broadcast use vstd::std_specs::vec::axiom_vec_index_decreases;

/// A JSON number: its value when it is an integer that fits in `i64`, and the
/// text of its nearest `f64`, as `f64::to_string` writes it.
#[derive(Debug)]
pub struct JsonNumber {
    pub int_value: Option<i64>,
    pub float_text: String,
}

/// A JSON document. The members of an object keep the order in which the
/// parser lists them; where a key occurs twice, the first member with it is
/// the one read (`member_lookup`).
#[derive(Debug)]
pub enum JsonValue {
    Null,
    Bool(bool),
    Number(JsonNumber),
    Str(String),
    Array(Vec<JsonValue>),
    Object(Vec<(String, JsonValue)>),
}

/// The mathematical model of a JSON document.
pub enum JsonData {
    Null,
    Bool(bool),
    Number(Option<i64>, Seq<char>),
    Str(Seq<char>),
    Array(Seq<JsonData>),
    Object(Seq<(Seq<char>, JsonData)>),
}

/// Models of the first `n` elements of an array.
pub open spec fn items_data(v: Vec<JsonValue>, n: int) -> Seq<JsonData>
    decreases v, n,
{
    if n <= 0 || n > v@.len() {
        Seq::empty()
    } else {
        proof {
            assert(decreases_to!(v => v[n - 1]));
        }
        items_data(v, n - 1).push(v@[n - 1].data())
    }
}

/// Models of the first `n` members of an object.
pub open spec fn members_data(v: Vec<(String, JsonValue)>, n: int) -> Seq<(Seq<char>, JsonData)>
    decreases v, n,
{
    if n <= 0 || n > v@.len() {
        Seq::empty()
    } else {
        proof {
            assert(decreases_to!(v => v[n - 1]));
        }
        members_data(v, n - 1).push((v@[n - 1].0@, v@[n - 1].1.data()))
    }
}

impl JsonValue {
    /// The model of this document.
    pub open spec fn data(self) -> JsonData
        decreases self, 0int,
    {
        match self {
            JsonValue::Null => JsonData::Null,
            JsonValue::Bool(b) => JsonData::Bool(b),
            JsonValue::Number(n) => JsonData::Number(n.int_value, n.float_text@),
            JsonValue::Str(s) => JsonData::Str(s@),
            JsonValue::Array(v) => JsonData::Array(items_data(v, v@.len() as int)),
            JsonValue::Object(v) => JsonData::Object(members_data(v, v@.len() as int)),
        }
    }
}

pub proof fn lemma_items_data(v: Vec<JsonValue>, n: int)
    requires
        0 <= n <= v@.len(),
    ensures
        items_data(v, n).len() == n,
        forall|i: int| 0 <= i < n ==> #[trigger] items_data(v, n)[i] == v@[i].data(),
    decreases n,
{
    if n > 0 {
        lemma_items_data(v, n - 1);
    }
}

pub proof fn lemma_members_data(v: Vec<(String, JsonValue)>, n: int)
    requires
        0 <= n <= v@.len(),
    ensures
        members_data(v, n).len() == n,
        forall|i: int|
            0 <= i < n ==> #[trigger] members_data(v, n)[i] == (v@[i].0@, v@[i].1.data()),
    decreases n,
{
    if n > 0 {
        lemma_members_data(v, n - 1);
    }
}

/// The value of the first member named `key`.
pub open spec fn member_lookup(m: Seq<(Seq<char>, JsonData)>, key: Seq<char>) -> Option<JsonData>
    decreases m.len(),
{
    if m.len() == 0 {
        None
    } else if m[0].0 == key {
        Some(m[0].1)
    } else {
        member_lookup(m.drop_first(), key)
    }
}

proof fn lemma_member_lookup_at(m: Seq<(Seq<char>, JsonData)>, key: Seq<char>, i: int)
    requires
        0 <= i < m.len(),
        m[i].0 == key,
        forall|j: int| 0 <= j < i ==> (#[trigger] m[j]).0 != key,
    ensures
        member_lookup(m, key) == Some(m[i].1),
    decreases i,
{
    if i > 0 {
        assert forall|j: int| 0 <= j < i - 1 implies (#[trigger] m.drop_first()[j]).0 != key by {
            assert(m.drop_first()[j] == m[j + 1]);
        }
        lemma_member_lookup_at(m.drop_first(), key, i - 1);
    }
}

proof fn lemma_member_lookup_absent(m: Seq<(Seq<char>, JsonData)>, key: Seq<char>)
    requires
        forall|j: int| 0 <= j < m.len() ==> (#[trigger] m[j]).0 != key,
    ensures
        member_lookup(m, key) is None,
    decreases m.len(),
{
    if m.len() > 0 {
        assert forall|j: int| 0 <= j < m.len() - 1 implies (#[trigger] m.drop_first()[j]).0
            != key by {
            assert(m.drop_first()[j] == m[j + 1]);
        }
        lemma_member_lookup_absent(m.drop_first(), key);
    }
}

impl JsonData {
    /// `serde_json::Value::get` with a key: the member of an object.
    pub open spec fn get(self, key: Seq<char>) -> Option<JsonData> {
        match self {
            JsonData::Object(m) => member_lookup(m, key),
            _ => None,
        }
    }

    /// Whether an object has a member named `key`.
    pub open spec fn has_key(self, key: Seq<char>) -> bool {
        self.get(key) is Some
    }

    /// `serde_json::Value::as_str`.
    pub open spec fn as_str(self) -> Option<Seq<char>> {
        match self {
            JsonData::Str(s) => Some(s),
            _ => None,
        }
    }

    /// `serde_json::Value::as_i64`.
    pub open spec fn as_i64(self) -> Option<i64> {
        match self {
            JsonData::Number(i, _) => i,
            _ => None,
        }
    }

    /// The text of `serde_json::Value::as_f64`, as `f64::to_string` writes it.
    pub open spec fn float_text(self) -> Option<Seq<char>> {
        match self {
            JsonData::Number(_, f) => Some(f),
            _ => None,
        }
    }

    /// The member list of an object.
    pub open spec fn members(self) -> Option<Seq<(Seq<char>, JsonData)>> {
        match self {
            JsonData::Object(m) => Some(m),
            _ => None,
        }
    }

    /// The value with `key` replaced when it is a member, or added last.
    pub open spec fn is_object(self) -> bool {
        self is Object
    }
}

/// A string member `key: value` of an object model.
pub open spec fn str_member(key: Seq<char>, value: Seq<char>) -> (Seq<char>, JsonData) {
    (key, JsonData::Str(value))
}

impl JsonValue {
    /// The member named `key` of an object.
    pub fn get(&self, key: &str) -> (r: Option<&JsonValue>)
        ensures
            match r {
                Some(x) => self.data().get(key@) == Some(x.data()),
                None => self.data().get(key@) is None,
            },
    {
        match self {
            JsonValue::Object(members) => {
                let ghost m = members_data(*members, members@.len() as int);
                proof {
                    lemma_members_data(*members, members@.len() as int);
                }
                let mut i: usize = 0;
                while i < members.len()
                    invariant
                        i <= members@.len(),
                        m == members_data(*members, members@.len() as int),
                        *self == JsonValue::Object(*members),
                        m.len() == members@.len(),
                        forall|k: int| 0 <= k < m.len() ==> #[trigger] m[k] == (members@[k].0@, members@[k].1.data()),
                        forall|j: int| 0 <= j < i ==> (#[trigger] m[j]).0 != key@,
                    decreases members@.len() - i,
                {
                    if str_equal(members[i].0.as_str(), key) {
                        proof {
                            lemma_member_lookup_at(m, key@, i as int);
                            assert(self.data() == JsonData::Object(m));
                        }
                        return Some(&members[i].1);
                    }
                    i += 1;
                }
                proof {
                    lemma_member_lookup_absent(m, key@);
                    assert(self.data() == JsonData::Object(m));
                }
                None
            },
            _ => None,
        }
    }

    /// The text of a JSON string.
    pub fn as_str(&self) -> (r: Option<&str>)
        ensures
            match r {
                Some(s) => self.data().as_str() == Some(s@),
                None => self.data().as_str() is None,
            },
    {
        match self {
            JsonValue::Str(s) => Some(s.as_str()),
            _ => None,
        }
    }

    /// The value of a JSON integer that fits in `i64`.
    pub fn as_i64(&self) -> (r: Option<i64>)
        ensures
            r == self.data().as_i64(),
    {
        match self {
            JsonValue::Number(n) => n.int_value,
            _ => None,
        }
    }

    /// The `f64` text of a JSON number.
    pub fn float_text(&self) -> (r: Option<&str>)
        ensures
            match r {
                Some(s) => self.data().float_text() == Some(s@),
                None => self.data().float_text() is None,
            },
    {
        match self {
            JsonValue::Number(n) => Some(n.float_text.as_str()),
            _ => None,
        }
    }

    /// Whether this is an object.
    pub fn is_object(&self) -> (r: bool)
        ensures
            r == self.data().is_object(),
    {
        match self {
            JsonValue::Object(_) => true,
            _ => false,
        }
    }

    /// A copy of this document.
    pub fn deep_clone(&self) -> (r: JsonValue)
        ensures
            r.data() == self.data(),
        decreases self,
    {
        match self {
            JsonValue::Null => JsonValue::Null,
            JsonValue::Bool(b) => JsonValue::Bool(*b),
            JsonValue::Number(n) => JsonValue::Number(
                JsonNumber { int_value: n.int_value, float_text: n.float_text.clone() },
            ),
            JsonValue::Str(s) => JsonValue::Str(s.clone()),
            JsonValue::Array(items) => {
                let mut out: Vec<JsonValue> = Vec::new();
                let mut i: usize = 0;
                while i < items.len()
                    invariant
                        i <= items@.len(),
                        out@.len() == i,
                        *self == JsonValue::Array(*items),
                        forall|k: int| 0 <= k < i ==> (#[trigger] out@[k]).data() == items@[k].data(),
                    decreases items@.len() - i,
                {
                    proof {
                        assert(decreases_to!(*items => items[i as int]));
                        assert(decreases_to!(*self => (*self)->Array_0));
                    }
                    let c = items[i].deep_clone();
                    out.push(c);
                    i += 1;
                }
                proof {
                    lemma_items_data(out, out@.len() as int);
                    lemma_items_data(*items, items@.len() as int);
                    assert(items_data(out, out@.len() as int) =~= items_data(*items, items@.len() as int));
                }
                JsonValue::Array(out)
            },
            JsonValue::Object(members) => {
                let mut out: Vec<(String, JsonValue)> = Vec::new();
                let mut i: usize = 0;
                while i < members.len()
                    invariant
                        i <= members@.len(),
                        out@.len() == i,
                        *self == JsonValue::Object(*members),
                        forall|k: int|
                            0 <= k < i ==> (#[trigger] out@[k]).0@ == members@[k].0@ && out@[k].1.data()
                                == members@[k].1.data(),
                    decreases members@.len() - i,
                {
                    proof {
                        assert(decreases_to!(*members => members[i as int]));
                        assert(decreases_to!(*self => (*self)->Object_0));
                        assert(decreases_to!(members[i as int] => members[i as int].1));
                    }
                    let c = members[i].1.deep_clone();
                    out.push((members[i].0.clone(), c));
                    i += 1;
                }
                proof {
                    lemma_members_data(out, out@.len() as int);
                    lemma_members_data(*members, members@.len() as int);
                    assert(members_data(out, out@.len() as int) =~= members_data(
                        *members,
                        members@.len() as int,
                    ));
                }
                JsonValue::Object(out)
            },
        }
    }
}

/// The model of an object whose members are all strings.
pub open spec fn string_object(members: Seq<(Seq<char>, Seq<char>)>) -> JsonData {
    JsonData::Object(Seq::new(members.len(), |i: int| str_member(members[i].0, members[i].1)))
}

/// An object whose members are the given strings, in the given order.
pub fn make_string_object(keys: Vec<&str>, values: Vec<String>) -> (r: JsonValue)
    requires
        keys@.len() == values@.len(),
    ensures
        r.data() == string_object(
            Seq::new(keys@.len(), |i: int| (keys@[i]@, values@[i]@)),
        ),
{
    let mut out: Vec<(String, JsonValue)> = Vec::new();
    let mut i: usize = 0;
    while i < keys.len()
        invariant
            keys@.len() == values@.len(),
            i <= keys@.len(),
            out@.len() == i,
            forall|k: int|
                0 <= k < i ==> (#[trigger] out@[k]).0@ == keys@[k]@ && out@[k].1.data()
                    == JsonData::Str(values@[k]@),
        decreases keys@.len() - i,
    {
        out.push((keys[i].to_owned(), JsonValue::Str(values[i].clone())));
        i += 1;
    }
    proof {
        lemma_members_data(out, out@.len() as int);
        let expected = string_object(Seq::new(keys@.len(), |i: int| (keys@[i]@, values@[i]@)));
        assert(JsonData::Object(members_data(out, out@.len() as int)) == expected) by {
            assert(members_data(out, out@.len() as int) =~= expected->Object_0);
        }
    }
    JsonValue::Object(out)
}

/// The object `{k1: v1}`.
pub fn string_object1(k1: &str, v1: String) -> (r: JsonValue)
    ensures
        r.data() == string_object(seq![(k1@, v1@)]),
{
    let keys = vec![k1];
    let values = vec![v1];
    let ghost vals = values@;
    let r = make_string_object(keys, values);
    proof {
        assert(Seq::new(keys@.len(), |i: int| (keys@[i]@, vals[i]@)) =~= seq![(k1@, vals[0]@)]);
    }
    r
}

/// The object `{k1: v1, k2: v2, k3: v3}`.
pub fn string_object3(k1: &str, v1: String, k2: &str, v2: String, k3: &str, v3: String) -> (r:
    JsonValue)
    ensures
        r.data() == string_object(seq![(k1@, v1@), (k2@, v2@), (k3@, v3@)]),
{
    let keys = vec![k1, k2, k3];
    let values = vec![v1, v2, v3];
    let ghost vals = values@;
    let r = make_string_object(keys, values);
    proof {
        assert(Seq::new(keys@.len(), |i: int| (keys@[i]@, vals[i]@)) =~= seq![
            (k1@, vals[0]@),
            (k2@, vals[1]@),
            (k3@, vals[2]@),
        ]);
    }
    r
}

/// The object `{k1: v1, k2: v2, k3: v3, k4: v4}`.
pub fn string_object4(
    k1: &str,
    v1: String,
    k2: &str,
    v2: String,
    k3: &str,
    v3: String,
    k4: &str,
    v4: String,
) -> (r: JsonValue)
    ensures
        r.data() == string_object(seq![(k1@, v1@), (k2@, v2@), (k3@, v3@), (k4@, v4@)]),
{
    let keys = vec![k1, k2, k3, k4];
    let values = vec![v1, v2, v3, v4];
    let ghost vals = values@;
    let r = make_string_object(keys, values);
    proof {
        assert(Seq::new(keys@.len(), |i: int| (keys@[i]@, vals[i]@)) =~= seq![
            (k1@, vals[0]@),
            (k2@, vals[1]@),
            (k3@, vals[2]@),
            (k4@, vals[3]@),
        ]);
    }
    r
}

/// The value found, or else the other one (`Option::or_else`).
pub open spec fn first_some(a: Option<JsonData>, b: Option<JsonData>) -> Option<JsonData> {
    if a is Some {
        a
    } else {
        b
    }
}

/// The member `key` of a value that may be missing.
pub open spec fn and_get(a: Option<JsonData>, key: Seq<char>) -> Option<JsonData> {
    match a {
        Some(x) => x.get(key),
        None => None,
    }
}

/// The text of a value that may be missing.
pub open spec fn and_str(a: Option<JsonData>) -> Option<Seq<char>> {
    match a {
        Some(x) => x.as_str(),
        None => None,
    }
}

/// The model of a document that may be missing.
pub open spec fn odata(o: Option<&JsonValue>) -> Option<JsonData> {
    match o {
        Some(v) => Some(v.data()),
        None => None,
    }
}

/// The member `key` of a document that may be missing.
pub fn opt_get<'a>(a: Option<&'a JsonValue>, key: &str) -> (r: Option<&'a JsonValue>)
    ensures
        odata(r) == and_get(odata(a), key@),
{
    match a {
        Some(v) => v.get(key),
        None => None,
    }
}

/// The text of a document that may be missing.
pub fn opt_str<'a>(a: Option<&'a JsonValue>) -> (r: Option<&'a str>)
    ensures
        match r {
            Some(s) => and_str(odata(a)) == Some(s@),
            None => and_str(odata(a)) is None,
        },
{
    match a {
        Some(v) => v.as_str(),
        None => None,
    }
}

/// The object `{k1: v1, k2: v2, k3: v3, k4: v4}`.
pub fn object4(
    k1: &str,
    v1: JsonValue,
    k2: &str,
    v2: JsonValue,
    k3: &str,
    v3: JsonValue,
    k4: &str,
    v4: JsonValue,
) -> (r: JsonValue)
    ensures
        r.data() == JsonData::Object(
            seq![(k1@, v1.data()), (k2@, v2.data()), (k3@, v3.data()), (k4@, v4.data())],
        ),
{
    let ghost d = seq![(k1@, v1.data()), (k2@, v2.data()), (k3@, v3.data()), (k4@, v4.data())];
    let members = vec![(k1.to_owned(), v1), (k2.to_owned(), v2), (k3.to_owned(), v3), (k4.to_owned(), v4)];
    proof {
        lemma_members_data(members, 4);
        assert(members_data(members, 4) =~= d);
    }
    JsonValue::Object(members)
}

/// An empty object.
pub fn empty_object() -> (r: JsonValue)
    ensures
        r.data() == JsonData::Object(Seq::empty()),
{
    let out: Vec<(String, JsonValue)> = Vec::new();
    proof {
        assert(members_data(out, 0) =~= Seq::<(Seq<char>, JsonData)>::empty());
    }
    JsonValue::Object(out)
}

} // verus!
