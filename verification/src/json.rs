//! A plain model of JSON values.
//!
//! Command and event payloads are opaque JSON on the wire.  The library
//! holds them in this type, so that validation and projection logic can
//! be stated and proved over the fields a payload carries.  Transports
//! convert between their wire representation and this type at the edge.
//! JSON numbers are held as signed integers; a non-integral number is
//! mapped to `Null` at the edge, which keeps every "this field is not a
//! string" distinction the validation logic draws.
//!
//! The mathematical model of a value is [`JsonV`], reached through `@`.

use vstd::prelude::*;

verus! {

use crate::text::str_eq;

#[derive(Debug, PartialEq, Eq)]
pub enum Json {
    Null,
    Bool(bool),
    Int(i64),
    Str(String),
    Arr(Vec<Json>),
    Obj(Vec<(String, Json)>),
}

/// The mathematical shape of a JSON value.
#[verifier::ext_equal]
pub enum JsonV {
    Null,
    Bool(bool),
    Int(int),
    Str(Seq<char>),
    Arr(Seq<JsonV>),
    Obj(Seq<(Seq<char>, JsonV)>),
}

/// The model of a value.
pub open spec fn jview(j: Json) -> JsonV
    decreases j,
{
    match j {
        Json::Null => JsonV::Null,
        Json::Bool(b) => JsonV::Bool(b),
        Json::Int(n) => JsonV::Int(n as int),
        Json::Str(s) => JsonV::Str(s@),
        Json::Arr(items) => JsonV::Arr(jview_seq(items@)),
        Json::Obj(fields) => JsonV::Obj(jview_fields(fields@)),
    }
}

/// The models of the items of an array, in order.
pub open spec fn jview_seq(s: Seq<Json>) -> Seq<JsonV>
    decreases s,
{
    if s.len() == 0 {
        Seq::empty()
    } else {
        jview_seq(s.drop_last()).push(jview(s.last()))
    }
}

/// The models of the fields of an object, in order.
pub open spec fn jview_fields(s: Seq<(String, Json)>) -> Seq<(Seq<char>, JsonV)>
    decreases s,
{
    if s.len() == 0 {
        Seq::empty()
    } else {
        jview_fields(s.drop_last()).push((s.last().0@, jview(s.last().1)))
    }
}

/// An array's model has the item models, position by position.
pub broadcast proof fn lemma_jview_seq(s: Seq<Json>)
    ensures
        (#[trigger] jview_seq(s)).len() == s.len(),
        forall|i: int| 0 <= i < s.len() ==> jview_seq(s)[i] == jview(s[i]),
    decreases s.len(),
{
    if s.len() > 0 {
        lemma_jview_seq(s.drop_last());
    }
}

/// An object's model has the field models, position by position.
pub broadcast proof fn lemma_jview_fields(s: Seq<(String, Json)>)
    ensures
        (#[trigger] jview_fields(s)).len() == s.len(),
        forall|i: int| 0 <= i < s.len() ==> jview_fields(s)[i] == (s[i].0@, jview(s[i].1)),
    decreases s.len(),
{
    if s.len() > 0 {
        lemma_jview_fields(s.drop_last());
    }
}

impl View for Json {
    type V = JsonV;

    open spec fn view(&self) -> JsonV {
        jview(*self)
    }
}

/// The value under `key` among `fields`, first match.
pub open spec fn obj_lookup(fields: Seq<(Seq<char>, JsonV)>, key: Seq<char>) -> Option<JsonV>
    decreases fields.len(),
{
    if fields.len() == 0 {
        None
    } else if fields[0].0 == key {
        Some(fields[0].1)
    } else {
        obj_lookup(fields.drop_first(), key)
    }
}

/// How often `key` occurs among `fields`.
pub open spec fn count_key(fields: Seq<(Seq<char>, JsonV)>, key: Seq<char>) -> int
    decreases fields.len(),
{
    if fields.len() == 0 {
        0
    } else {
        (if fields[0].0 == key {
            1int
        } else {
            0int
        }) + count_key(fields.drop_first(), key)
    }
}

/// A key count is never negative.
pub broadcast proof fn lemma_count_key_nonneg(fields: Seq<(Seq<char>, JsonV)>, key: Seq<char>)
    ensures
        #[trigger] count_key(fields, key) >= 0,
    decreases fields.len(),
{
    if fields.len() > 0 {
        lemma_count_key_nonneg(fields.drop_first(), key);
    }
}

/// A key is found exactly when it occurs at least once.
pub broadcast proof fn lemma_lookup_count(fields: Seq<(Seq<char>, JsonV)>, key: Seq<char>)
    ensures
        (#[trigger] obj_lookup(fields, key)) is Some <==> count_key(fields, key) >= 1,
    decreases fields.len(),
{
    broadcast use lemma_count_key_nonneg;

    if fields.len() > 0 {
        lemma_lookup_count(fields.drop_first(), key);
    }
}

impl JsonV {
    /// The field list of an object; empty for every other value.
    pub open spec fn obj_fields(self) -> Seq<(Seq<char>, JsonV)> {
        match self {
            JsonV::Obj(fields) => fields,
            _ => Seq::empty(),
        }
    }

    /// The value under `key`, if this is an object holding it.
    pub open spec fn field(self, key: Seq<char>) -> Option<JsonV> {
        if self is Obj {
            obj_lookup(self.obj_fields(), key)
        } else {
            None
        }
    }

    /// The string under `key`, if this is an object holding a string there.
    pub open spec fn str_field(self, key: Seq<char>) -> Option<Seq<char>> {
        match self.field(key) {
            Some(JsonV::Str(s)) => Some(s),
            _ => None,
        }
    }

    /// The string under `key`; empty where there is none.
    pub open spec fn str_field_val(self, key: Seq<char>) -> Seq<char> {
        match self.str_field(key) {
            Some(s) => s,
            None => Seq::empty(),
        }
    }

    /// The integer under `key`, if this is an object holding one there.
    pub open spec fn int_field(self, key: Seq<char>) -> Option<int> {
        match self.field(key) {
            Some(JsonV::Int(n)) => Some(n),
            _ => None,
        }
    }

    /// The integer under `key`; zero where there is none.
    pub open spec fn int_field_val(self, key: Seq<char>) -> int {
        match self.int_field(key) {
            Some(n) => n,
            None => 0,
        }
    }

    /// The value under `key`; `Null` where there is none.
    pub open spec fn any_field_val(self, key: Seq<char>) -> JsonV {
        match self.field(key) {
            Some(v) => v,
            None => JsonV::Null,
        }
    }
}

/// The characters of an optional string; empty where there is none.
pub open spec fn opt_str_val(s: Option<Seq<char>>) -> Seq<char> {
    match s {
        Some(v) => v,
        None => Seq::empty(),
    }
}

impl Json {
    /// Looks a key up in an object; `None` on any other value.
    pub fn get<'a>(&'a self, key: &str) -> (r: Option<&'a Json>)
        ensures
            match r {
                Some(v) => self@.field(key@) == Some(v@),
                None => self@.field(key@) is None,
            },
    {
        broadcast use lemma_jview_fields;

        match self {
            Json::Obj(fields) => {
                let ghost all: Seq<(Seq<char>, JsonV)> = self@.obj_fields();
                let mut i: usize = 0;
                proof {
                    assert(all.skip(0) =~= all);
                }
                while i < fields.len()
                    invariant
                        i <= fields@.len(),
                        self matches Json::Obj(f) && f@ == fields@,
                        all == jview_fields(fields@),
                        all == self@.obj_fields(),
                        obj_lookup(all, key@) == obj_lookup(all.skip(i as int), key@),
                    decreases fields@.len() - i,
                {
                    broadcast use lemma_jview_fields;

                    proof {
                        assert(all.skip(i as int).drop_first() =~= all.skip(i + 1));
                        assert(all.skip(i as int)[0] == all[i as int]);
                        assert(all[i as int] == (fields@[i as int].0@, jview(fields@[i as int].1)));
                    }
                    if str_eq(fields[i].0.as_str(), key) {
                        return Some(&fields[i].1);
                    }
                    i += 1;
                }
                proof {
                    assert(all.skip(i as int).len() == 0);
                }
                None
            },
            _ => None,
        }
    }

    /// The string contents of a string value; `None` on any other value.
    pub fn as_str<'a>(&'a self) -> (r: Option<&'a String>)
        ensures
            match r {
                Some(s) => self@ == JsonV::Str(s@),
                None => !(self@ is Str),
            },
    {
        match self {
            Json::Str(s) => Some(s),
            _ => None,
        }
    }

    /// Whether this is the null value.
    pub fn is_null(&self) -> (r: bool)
        ensures
            r == (self@ is Null),
    {
        match self {
            Json::Null => true,
            _ => false,
        }
    }

    /// The integer a number value holds; `None` on any other value.
    pub fn as_int(&self) -> (r: Option<i64>)
        ensures
            match r {
                Some(n) => self@ == JsonV::Int(n as int),
                None => !(self@ is Int),
            },
    {
        match self {
            Json::Int(n) => Some(*n),
            _ => None,
        }
    }

    /// The string under `key`, copied out.
    pub fn get_str(&self, key: &str) -> (r: Option<String>)
        ensures
            match r {
                Some(s) => self@.str_field(key@) == Some(s@),
                None => self@.str_field(key@) is None,
            },
    {
        match self.get(key) {
            Some(v) => match v.as_str() {
                Some(s) => Some(s.clone()),
                None => None,
            },
            None => None,
        }
    }

    /// The integer under `key`.
    pub fn get_int(&self, key: &str) -> (r: Option<i64>)
        ensures
            match r {
                Some(n) => self@.int_field(key@) == Some(n as int),
                None => self@.int_field(key@) is None,
            },
    {
        match self.get(key) {
            Some(v) => match v.as_int() {
                Some(n) => Some(n),
                None => None,
            },
            None => None,
        }
    }

    /// A copy with the same model.
    pub fn deep_clone(&self) -> (r: Json)
        ensures
            r@ == self@,
        decreases *self,
    {
        broadcast use lemma_jview_seq, lemma_jview_fields;

        match self {
            Json::Null => Json::Null,
            Json::Bool(b) => Json::Bool(*b),
            Json::Int(n) => Json::Int(*n),
            Json::Str(s) => Json::Str(s.clone()),
            Json::Arr(items) => {
                let mut out: Vec<Json> = Vec::new();
                let mut i: usize = 0;
                while i < items.len()
                    invariant
                        i <= items@.len(),
                        self matches Json::Arr(v) && v@ == items@,
                        out@.len() == i,
                        forall|j: int| 0 <= j < i ==> jview(#[trigger] out@[j]) == jview(items@[j]),
                    decreases items@.len() - i,
                {
                    proof {
                        assert(decreases_to!(*self => items@[i as int]));
                    }
                    let item = items[i].deep_clone();
                    out.push(item);
                    i += 1;
                }
                let result = Json::Arr(out);
                proof {
                    assert(jview_seq(result->Arr_0@) =~= jview_seq(items@));
                }
                result
            },
            Json::Obj(fields) => {
                let mut out: Vec<(String, Json)> = Vec::new();
                let mut i: usize = 0;
                while i < fields.len()
                    invariant
                        i <= fields@.len(),
                        self matches Json::Obj(v) && v@ == fields@,
                        out@.len() == i,
                        forall|j: int| 0 <= j < i
                            ==> (#[trigger] out@[j]).0@ == fields@[j].0@ && jview(out@[j].1)
                            == jview(fields@[j].1),
                    decreases fields@.len() - i,
                {
                    proof {
                        assert(decreases_to!(*self => fields@[i as int].1));
                    }
                    let value = fields[i].1.deep_clone();
                    let name = fields[i].0.clone();
                    out.push((name, value));
                    i += 1;
                }
                let result = Json::Obj(out);
                proof {
                    assert(jview_fields(result->Obj_0@) =~= jview_fields(fields@));
                }
                result
            },
        }
    }
}

} // verus!
