//! JSON values as the readers see them.
//!
//! Turning bytes into a value is the transport's business; what a value says
//! is decided here.

use vstd::prelude::*;
use crate::text;

verus! {

/// A number. Whole numbers are exact; whatever else a number may be is not
/// looked into.
#[derive(Debug, Clone, Copy, PartialEq, Eq, Structural)]
pub enum Number {
    /// A whole number of at least zero.
    Unsigned(u64),
    /// A whole number below zero.
    Negative(i64),
    /// A number with a fraction or an exponent.
    Other,
}

/// A JSON value.
#[derive(Debug, PartialEq)]
pub enum Json {
    Null,
    Bool(bool),
    Number(Number),
    Text(String),
    Array(Vec<Json>),
    Object(Vec<(String, Json)>),
}

/// [`Json`] with the text as character sequences.
pub ghost enum Value {
    Null,
    Bool(bool),
    Number(Number),
    Text(Seq<char>),
    Array(Seq<Value>),
    Object(Seq<(Seq<char>, Value)>),
}

pub open spec fn value_of(j: Json) -> Value
    decreases j,
{
    match j {
        Json::Null => Value::Null,
        Json::Bool(b) => Value::Bool(b),
        Json::Number(n) => Value::Number(n),
        Json::Text(t) => Value::Text(t@),
        Json::Array(a) => Value::Array(
            Seq::new(
                a@.len(),
                |i: int|
                    if 0 <= i < a@.len() {
                        value_of(a@[i])
                    } else {
                        Value::Null
                    },
            ),
        ),
        Json::Object(o) => Value::Object(
            Seq::new(
                o@.len(),
                |i: int|
                    if 0 <= i < o@.len() {
                        (o@[i].0@, value_of(o@[i].1))
                    } else {
                        (seq![], Value::Null)
                    },
            ),
        ),
    }
}

impl View for Json {
    type V = Value;

    open spec fn view(&self) -> Value {
        value_of(*self)
    }
}

pub open spec fn values_of(v: Seq<Json>) -> Seq<Value> {
    Seq::new(v.len(), |i: int| v[i]@)
}

pub proof fn lemma_array_view(a: Vec<Json>)
    ensures
        value_of(Json::Array(a)) == Value::Array(values_of(a@)),
{
    assert(value_of(Json::Array(a))->Array_0 =~= values_of(a@));
}

pub open spec fn members_of(o: Seq<(String, Json)>) -> Seq<(Seq<char>, Value)> {
    Seq::new(o.len(), |i: int| (o[i].0@, o[i].1@))
}

pub proof fn lemma_object_view(o: Vec<(String, Json)>)
    ensures
        value_of(Json::Object(o)) == Value::Object(members_of(o@)),
{
    assert(value_of(Json::Object(o))->Object_0 =~= members_of(o@));
}

// ── writing ────────────────────────────────────────────────────────────────

/// Whether a value holds no other.
pub open spec fn scalar(v: Value) -> bool {
    match v {
        Value::Array(_) => false,
        Value::Object(_) => false,
        Value::Number(Number::Other) => false,
        _ => true,
    }
}

/// Whether a value is an object of values that hold no other.
pub open spec fn flat(v: Value) -> bool {
    match v {
        Value::Object(o) => forall|i: int| 0 <= i < o.len() ==> scalar((#[trigger] o[i]).1),
        _ => false,
    }
}

/// The JSON text of a flat object.
pub uninterp spec fn json_written(v: Value) -> Seq<u8>;

/// `serde_json::to_vec` on a `serde_json::Map` with the object's members: the
/// text depends on the members alone. Writing scalars under text keys does not
/// fail.
#[verifier::external_body]
pub(crate) fn write_json(v: &Json) -> (r: Vec<u8>)
    requires
        flat(v@),
    ensures
        r@ == json_written(v@),
{
    let mut map = serde_json::Map::new();
    if let Json::Object(members) = v {
        for (key, value) in members {
            let held = match value {
                Json::Bool(b) => serde_json::Value::from(*b),
                Json::Number(Number::Unsigned(n)) => serde_json::Value::from(*n),
                Json::Number(Number::Negative(n)) => serde_json::Value::from(*n),
                Json::Text(t) => serde_json::Value::from(t.as_str()),
                _ => serde_json::Value::Null,
            };
            map.insert(key.clone(), held);
        }
    }
    serde_json::to_vec(&map).unwrap_or_default()
}

// ── members ────────────────────────────────────────────────────────────────

/// The member under `key`, from the `k`-th member on.
pub open spec fn member_from(o: Seq<(Seq<char>, Value)>, key: Seq<char>, k: int) -> Option<Value>
    decreases o.len() - k,
{
    if k < 0 || k >= o.len() {
        None
    } else if o[k].0 == key {
        Some(o[k].1)
    } else {
        member_from(o, key, k + 1)
    }
}

/// Whether two members stand under `key`, at `a` and behind that at `b`.
pub open spec fn both_under(o: Seq<(Seq<char>, Value)>, key: Seq<char>, a: int, b: int) -> bool {
    0 <= a < b < o.len() && o[a].0 == key && o[b].0 == key
}

impl Value {
    /// The member under `key`; only objects have any.
    pub open spec fn get(self, key: Seq<char>) -> Option<Value> {
        match self {
            Value::Object(o) => member_from(o, key, 0),
            _ => None,
        }
    }

    /// A field of a record: the member under `key`, or the `k`-th element where
    /// the record comes as a list of its fields.
    pub open spec fn at(self, key: Seq<char>, k: int) -> Option<Value> {
        match self {
            Value::Array(a) => if 0 <= k < a.len() {
                Some(a[k])
            } else {
                None
            },
            _ => self.get(key),
        }
    }

    /// Whether an object holds two members under `key`.
    pub open spec fn repeats(self, key: Seq<char>) -> bool {
        match self {
            Value::Object(o) => exists|a: int, b: int| #[trigger] both_under(o, key, a, b),
            _ => false,
        }
    }

    /// Whether this is a record with these fields: an object that holds none of
    /// them twice, or a list of them, `most` where it is complete, of which at
    /// least `least` must be there.
    pub open spec fn is_record(self, names: Set<Seq<char>>, least: nat, most: nat) -> bool {
        match self {
            Value::Object(_) => forall|name: Seq<char>|
                names.contains(name) ==> !(#[trigger] self.repeats(name)),
            Value::Array(a) => least <= a.len() <= most,
            _ => false,
        }
    }

    /// The object with one more member at the end.
    pub open spec fn with(self, key: Seq<char>, v: Value) -> Value {
        match self {
            Value::Object(o) => Value::Object(o.push((key, v))),
            other => other,
        }
    }

    pub open spec fn text(self) -> Option<Seq<char>> {
        match self {
            Value::Text(t) => Some(t),
            _ => None,
        }
    }

    pub open spec fn array(self) -> Option<Seq<Value>> {
        match self {
            Value::Array(a) => Some(a),
            _ => None,
        }
    }

    pub open spec fn boolean(self) -> Option<bool> {
        match self {
            Value::Bool(b) => Some(b),
            _ => None,
        }
    }

    pub open spec fn unsigned(self) -> Option<u64> {
        match self {
            Value::Number(Number::Unsigned(n)) => Some(n),
            _ => None,
        }
    }

    pub open spec fn integer(self) -> Option<i64> {
        match self {
            Value::Number(Number::Unsigned(n)) if n <= i64::MAX => Some(n as i64),
            Value::Number(Number::Negative(n)) => Some(n),
            _ => None,
        }
    }
}

pub open spec fn opt_value(v: Option<&Json>) -> Option<Value> {
    match v {
        Some(j) => Some(j@),
        None => None,
    }
}

proof fn lemma_repeats(v: Value, key: Seq<char>, a: int, b: int)
    requires
        v matches Value::Object(o) && both_under(o, key, a, b),
    ensures
        v.repeats(key),
{
}

/// Names of fields.
pub struct Names {
    list: Vec<&'static str>,
}

pub open spec fn names_of(v: Seq<&'static str>) -> Set<Seq<char>>
    decreases v.len(),
{
    if v.len() == 0 {
        Set::empty()
    } else {
        names_of(v.drop_last()).insert(v.last()@)
    }
}

impl View for Names {
    type V = Set<Seq<char>>;

    closed spec fn view(&self) -> Set<Seq<char>> {
        names_of(self.list@)
    }
}

proof fn lemma_names(v: Seq<&'static str>)
    ensures
        forall|s: Seq<char>|
            #[trigger] names_of(v).contains(s) <==> exists|i: int|
                0 <= i < v.len() && (#[trigger] v[i])@ == s,
    decreases v.len(),
{
    if v.len() > 0 {
        lemma_names(v.drop_last());
        assert forall|s: Seq<char>| #[trigger] names_of(v).contains(s) <==> exists|i: int|
            0 <= i < v.len() && (#[trigger] v[i])@ == s by {
            if names_of(v).contains(s) {
                if s == v.last()@ {
                    assert(v[v.len() - 1]@ == s);
                } else {
                    assert(names_of(v.drop_last()).contains(s));
                    let i = choose|i: int|
                        0 <= i < v.drop_last().len() && (#[trigger] v.drop_last()[i])@ == s;
                    assert(v[i]@ == s);
                }
            }
            if exists|i: int| 0 <= i < v.len() && (#[trigger] v[i])@ == s {
                let i = choose|i: int| 0 <= i < v.len() && (#[trigger] v[i])@ == s;
                if i < v.len() - 1 {
                    assert(v.drop_last()[i]@ == s);
                    assert(names_of(v.drop_last()).contains(s));
                }
            }
        }
    }
}

impl Names {
    pub fn none() -> (r: Names)
        ensures
            r@ == Set::<Seq<char>>::empty(),
    {
        Names { list: Vec::new() }
    }

    pub fn and(self, name: &'static str) -> (r: Names)
        ensures
            r@ == self@.insert(name@),
    {
        let mut list = self.list;
        let ghost before = list@;
        list.push(name);
        assert(list@.drop_last() =~= before);
        Names { list }
    }

    fn has(&self, name: &str) -> (r: bool)
        ensures
            r == self@.contains(name@),
    {
        proof {
            lemma_names(self.list@);
        }
        let mut i: usize = 0;
        while i < self.list.len()
            invariant
                i <= self.list@.len(),
                forall|k: int| 0 <= k < i ==> (#[trigger] self.list@[k])@ != name@,
            decreases self.list@.len() - i,
        {
            if text::same_text(self.list[i], name) {
                assert(self.list@[i as int]@ == name@);
                proof {
                    lemma_names(self.list@);
                }
                return true;
            }
            i += 1;
        }
        false
    }
}

impl Json {
    /// A field of a record: the member under `key`, or the `k`-th element where
    /// the record comes as a list of its fields.
    pub fn at<'a>(&'a self, key: &str, k: usize) -> (r: Option<&'a Json>)
        ensures
            opt_value(r) == self@.at(key@, k as int),
            r matches Some(j) ==> decreases_to!(*self => *j),
    {
        match self {
            Json::Array(a) => {
                proof {
                    lemma_array_view(*a);
                }
                if k < a.len() {
                    assert(values_of(a@)[k as int] == a@[k as int]@);
                    Some(&a[k])
                } else {
                    None
                }
            },
            _ => self.get(key),
        }
    }

    /// Whether this is a record with these fields: an object that holds none of
    /// them twice, or a list of them, `most` where it is complete, of which at
    /// least `least` must be there.
    pub fn is_record(&self, names: Names, least: usize, most: usize) -> (r: bool)
        ensures
            r == self@.is_record(names@, least as nat, most as nat),
    {
        match self {
            Json::Object(o) => {
                let ghost all = members_of(o@);
                proof {
                    lemma_object_view(*o);
                }
                let mut b: usize = 0;
                while b < o.len()
                    invariant
                        b <= o@.len(),
                        all == members_of(o@),
                        self@ == Value::Object(all),
                        forall|x: int, y: int|
                            0 <= x < y < b && (#[trigger] all[x]).0 == (#[trigger] all[y]).0
                                ==> !names@.contains(all[y].0),
                    decreases o@.len() - b,
                {
                    if names.has(o[b].0.as_str()) {
                        let mut a: usize = 0;
                        while a < b
                            invariant
                                a <= b < o@.len(),
                                all == members_of(o@),
                                self@ == Value::Object(all),
                                names@.contains(all[b as int].0),
                                forall|x: int|
                                    0 <= x < a ==> (#[trigger] all[x]).0 != all[b as int].0,
                            decreases b - a,
                        {
                            if text::same_text(o[a].0.as_str(), o[b].0.as_str()) {
                                let ghost (x, y) = (a as int, b as int);
                                let ghost key = all[y].0;
                                proof {
                                    lemma_repeats(self@, key, x, y);
                                }
                                return false;
                            }
                            a += 1;
                        }
                    }
                    b += 1;
                }
                proof {
                    assert forall|name: Seq<char>| names@.contains(name) implies !(
                    #[trigger] self@.repeats(name)) by {
                        if self@.repeats(name) {
                            let (x, y) = choose|x: int, y: int|
                                #[trigger] both_under(all, name, x, y);
                            assert(all[x].0 == all[y].0);
                        }
                    }
                }
                true
            },
            Json::Array(a) => {
                proof {
                    lemma_array_view(*a);
                }
                least <= a.len() && a.len() <= most
            },
            _ => false,
        }
    }

    /// The member under `key`; only objects have any.
    pub fn get<'a>(&'a self, key: &str) -> (r: Option<&'a Json>)
        ensures
            opt_value(r) == self@.get(key@),
            r matches Some(j) ==> decreases_to!(*self => *j),
    {
        match self {
            Json::Object(o) => {
                let mut k: usize = 0;
                let ghost members = self@->Object_0;
                while k < o.len()
                    invariant
                        k <= o.len(),
                        *self == Json::Object(*o),
                        members == self@->Object_0,
                        members.len() == o@.len(),
                        self@.get(key@) == member_from(members, key@, k as int),
                    decreases o.len() - k,
                {
                    assert(members[k as int] == (o@[k as int].0@, o@[k as int].1@));
                    if text::same_text(o[k].0.as_str(), key) {
                        return Some(&o[k].1);
                    }
                    k += 1;
                }
                None
            },
            _ => None,
        }
    }

    /// A copy of the whole value.
    pub fn copy(&self) -> (r: Json)
        ensures
            r@ == self@,
        decreases *self,
    {
        match self {
            Json::Null => Json::Null,
            Json::Bool(b) => Json::Bool(*b),
            Json::Number(n) => Json::Number(*n),
            Json::Text(t) => Json::Text(t.clone()),
            Json::Array(a) => {
                let mut out: Vec<Json> = Vec::new();
                let mut i: usize = 0;
                while i < a.len()
                    invariant
                        i <= a@.len(),
                        *self == Json::Array(*a),
                        values_of(out@) =~= values_of(a@).take(i as int),
                    decreases a@.len() - i,
                {
                    let ghost before = out@;
                    assert(decreases_to!(*self => self->Array_0@[i as int]));
                    out.push(a[i].copy());
                    assert(values_of(out@) =~= values_of(before).push(a@[i as int]@));
                    i += 1;
                }
                proof {
                    assert(values_of(out@) =~= values_of(a@));
                    lemma_array_view(*a);
                    lemma_array_view(out);
                }
                Json::Array(out)
            },
            Json::Object(o) => {
                let mut out: Vec<(String, Json)> = Vec::new();
                let mut i: usize = 0;
                while i < o.len()
                    invariant
                        i <= o@.len(),
                        *self == Json::Object(*o),
                        members_of(out@) =~= members_of(o@).take(i as int),
                    decreases o@.len() - i,
                {
                    let ghost before = out@;
                    assert(decreases_to!(*self => self->Object_0@[i as int].1));
                    out.push((o[i].0.clone(), o[i].1.copy()));
                    assert(members_of(out@) =~= members_of(before).push(
                        (o@[i as int].0@, o@[i as int].1@),
                    ));
                    i += 1;
                }
                proof {
                    assert(members_of(out@) =~= members_of(o@));
                    lemma_object_view(*o);
                    lemma_object_view(out);
                }
                Json::Object(out)
            },
        }
    }

    /// An object without members.
    pub fn object() -> (r: Json)
        ensures
            r@ == Value::Object(seq![]),
    {
        let o: Vec<(String, Json)> = Vec::new();
        proof {
            lemma_object_view(o);
            assert(members_of(o@) =~= seq![]);
        }
        Json::Object(o)
    }

    /// The object with one more member at the end.
    pub fn with(self, key: &str, v: Json) -> (r: Json)
        ensures
            r@ == self@.with(key@, v@),
    {
        match self {
            Json::Object(o) => {
                let ghost before = o;
                let mut o = o;
                o.push((text::owned(key), v));
                proof {
                    lemma_object_view(before);
                    lemma_object_view(o);
                    assert(members_of(o@) =~= members_of(before@).push((key@, v@)));
                }
                Json::Object(o)
            },
            other => other,
        }
    }

    pub fn text(s: &str) -> (r: Json)
        ensures
            r@ == Value::Text(s@),
    {
        Json::Text(text::owned(s))
    }

    pub fn number(n: u64) -> (r: Json)
        ensures
            r@ == Value::Number(Number::Unsigned(n)),
    {
        Json::Number(Number::Unsigned(n))
    }

    pub fn as_text<'a>(&'a self) -> (r: Option<&'a String>)
        ensures
            match r {
                Some(t) => self@.text() == Some(t@),
                None => self@.text() is None,
            },
    {
        match self {
            Json::Text(t) => Some(t),
            _ => None,
        }
    }

    pub fn as_array<'a>(&'a self) -> (r: Option<&'a Vec<Json>>)
        ensures
            match r {
                Some(a) => self@.array() == Some(values_of(a@)) && *self == Json::Array(*a),
                None => self@.array() is None,
            },
    {
        match self {
            Json::Array(a) => {
                proof {
                    lemma_array_view(*a);
                }
                Some(a)
            },
            _ => None,
        }
    }

    pub fn as_bool(&self) -> (r: Option<bool>)
        ensures
            r == self@.boolean(),
    {
        match self {
            Json::Bool(b) => Some(*b),
            _ => None,
        }
    }

    pub fn as_unsigned(&self) -> (r: Option<u64>)
        ensures
            r == self@.unsigned(),
    {
        match self {
            Json::Number(Number::Unsigned(n)) => Some(*n),
            _ => None,
        }
    }

    pub fn as_integer(&self) -> (r: Option<i64>)
        ensures
            r == self@.integer(),
    {
        match self {
            Json::Number(Number::Unsigned(n)) => if *n <= i64::MAX as u64 {
                Some(*n as i64)
            } else {
                None
            },
            Json::Number(Number::Negative(n)) => Some(*n),
            _ => None,
        }
    }
}

} // verus!
