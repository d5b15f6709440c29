//! A JSON value and the semantic equality used to compare session values.
use vstd::prelude::*;

verus! {

broadcast use vstd::std_specs::vec::group_vec_axioms;

/// The mathematical model of a JSON value.
pub enum Json {
    Null,
    Bool(bool),
    /// The IEEE-754 binary64 bit pattern of the value, and its spelling.
    Number(u64, Seq<char>),
    Str(Seq<char>),
    Array(Seq<Json>),
    /// Fields in document order.
    Object(Seq<(Seq<char>, Json)>),
}

/// A JSON value. A number is held as the bit pattern of its binary64 value,
/// which is what comparisons use, so that integer and fractional spellings of
/// one number coincide; its spelling is kept beside it for writing it back.
#[derive(Debug)]
pub enum JsonValue {
    Null,
    Bool(bool),
    Number(u64, String),
    String(String),
    Array(Vec<JsonValue>),
    Object(Vec<(String, JsonValue)>),
}

/// The model of an array's elements.
pub open spec fn items_view(items: Seq<JsonValue>) -> Seq<Json>
    decreases items, 0int,
{
    Seq::new(
        items.len(),
        |i: int|
            if 0 <= i < items.len() {
                json_view(items[i])
            } else {
                Json::Null
            },
    )
}

/// The model of an object's fields.
pub open spec fn fields_view(fields: Seq<(String, JsonValue)>) -> Seq<(Seq<char>, Json)>
    decreases fields, 0int,
{
    Seq::new(
        fields.len(),
        |i: int|
            if 0 <= i < fields.len() {
                (fields[i].0@, json_view(fields[i].1))
            } else {
                (Seq::empty(), Json::Null)
            },
    )
}

/// The model of a value.
pub open spec fn json_view(v: JsonValue) -> Json
    decreases v, 1int,
{
    match v {
        JsonValue::Null => Json::Null,
        JsonValue::Bool(b) => Json::Bool(b),
        JsonValue::Number(n, t) => Json::Number(n, t@),
        JsonValue::String(s) => Json::Str(s@),
        JsonValue::Array(items) => Json::Array(items_view(items@)),
        JsonValue::Object(fields) => Json::Object(fields_view(fields@)),
    }
}

impl View for JsonValue {
    type V = Json;

    open spec fn view(&self) -> Json {
        json_view(*self)
    }
}

pub const EXPONENT_MASK: u64 = 0x7ff0_0000_0000_0000;

pub const MANTISSA_MASK: u64 = 0x000f_ffff_ffff_ffff;

pub const MAGNITUDE_MASK: u64 = 0x7fff_ffff_ffff_ffff;

/// The bit pattern encodes a NaN.
pub open spec fn number_is_nan(bits: u64) -> bool {
    (bits & EXPONENT_MASK) == EXPONENT_MASK && (bits & MANTISSA_MASK) != 0
}

/// The bit pattern encodes +0.0 or -0.0.
pub open spec fn number_is_zero(bits: u64) -> bool {
    (bits & MAGNITUDE_MASK) == 0
}

/// Numeric equality of two binary64 values: NaN equals nothing, the two
/// zeros are equal, and otherwise equal values have equal bit patterns.
pub open spec fn numbers_eq(a: u64, b: u64) -> bool {
    &&& !number_is_nan(a)
    &&& !number_is_nan(b)
    &&& (a == b || (number_is_zero(a) && number_is_zero(b)))
}

/// The value of the first field named `key`, searching from index `i` on.
pub open spec fn field_from(fields: Seq<(Seq<char>, Json)>, key: Seq<char>, i: int) -> Option<Json>
    decreases fields.len() - i,
{
    if i < 0 || i >= fields.len() {
        None
    } else if fields[i].0 == key {
        Some(fields[i].1)
    } else {
        field_from(fields, key, i + 1)
    }
}

/// The value of the first field named `key`.
pub open spec fn field_of(fields: Seq<(Seq<char>, Json)>, key: Seq<char>) -> Option<Json> {
    field_from(fields, key, 0)
}

/// Semantic equality: numbers compare by value, arrays element by element,
/// and objects by their field names regardless of field order.
pub open spec fn json_eq(a: Json, b: Json) -> bool
    decreases a,
{
    match a {
        Json::Null => b is Null,
        Json::Bool(x) => b == Json::Bool(x),
        Json::Number(x, _) => b matches Json::Number(y, _) && numbers_eq(x, y),
        Json::Str(s) => b == Json::Str(s),
        Json::Array(xs) => b matches Json::Array(ys) && xs.len() == ys.len() && forall|i: int|
            0 <= i < xs.len() ==> json_eq(#[trigger] xs[i], ys[i]),
        Json::Object(fs) => b matches Json::Object(gs) && fs.len() == gs.len() && forall|i: int|
            0 <= i < fs.len() ==> match field_of(gs, #[trigger] fs[i].0) {
                Some(v) => json_eq(fs[i].1, v),
                None => false,
            },
    }
}

/// Executable counterpart of `numbers_eq`.
pub fn numbers_equal(a: u64, b: u64) -> (r: bool)
    ensures
        r == numbers_eq(a, b),
{
    let a_nan = (a & EXPONENT_MASK) == EXPONENT_MASK && (a & MANTISSA_MASK) != 0;
    let b_nan = (b & EXPONENT_MASK) == EXPONENT_MASK && (b & MANTISSA_MASK) != 0;
    !a_nan && !b_nan && (a == b || ((a & MAGNITUDE_MASK) == 0 && (b & MAGNITUDE_MASK) == 0))
}

impl JsonValue {
    /// The value of the first field named `key` when this is an object.
    pub fn get_field(&self, key: &String) -> (r: Option<&JsonValue>)
        ensures
            match self@ {
                Json::Object(fs) => match r {
                    Some(v) => field_of(fs, key@) == Some(v@),
                    None => field_of(fs, key@) is None,
                },
                _ => r is None,
            },
    {
        match self {
            JsonValue::Object(fields) => {
                let ghost fs = self@->Object_0;
                let mut i: usize = 0;
                while i < fields.len()
                    invariant
                        0 <= i <= fields.len(),
                        self@ == Json::Object(fs),
                        fs.len() == fields.len(),
                        forall|j: int| 0 <= j < fields.len() ==> fs[j] == (fields[j].0@, fields[j].1@),
                        field_of(fs, key@) == field_from(fs, key@, i as int),
                    decreases fields.len() - i,
                {
                    if fields[i].0.eq(key) {
                        return Some(&fields[i].1);
                    }
                    i = i + 1;
                }
                None
            },
            _ => None,
        }
    }

    /// The element at `index` when this is an array.
    pub fn get_index(&self, index: usize) -> (r: Option<&JsonValue>)
        ensures
            match self@ {
                Json::Array(xs) => match r {
                    Some(v) => index < xs.len() && xs[index as int] == v@,
                    None => index >= xs.len(),
                },
                _ => r is None,
            },
    {
        match self {
            JsonValue::Array(items) => {
                if index < items.len() {
                    Some(&items[index])
                } else {
                    None
                }
            },
            _ => None,
        }
    }
}

impl JsonValue {
    /// A copy of this value with the same model.
    pub fn deep_copy(&self) -> (r: JsonValue)
        ensures
            r@ == self@,
        decreases self,
    {
        match self {
            JsonValue::Null => JsonValue::Null,
            JsonValue::Bool(b) => JsonValue::Bool(*b),
            JsonValue::Number(n, t) => JsonValue::Number(*n, t.clone()),
            JsonValue::String(s) => JsonValue::String(s.clone()),
            JsonValue::Array(items) => {
                let mut out: Vec<JsonValue> = Vec::new();
                let mut i: usize = 0;
                while i < items.len()
                    invariant
                        *self == JsonValue::Array(*items),
                        0 <= i <= items.len(),
                        out.len() == i,
                        forall|j: int| 0 <= j < i ==> out[j]@ == items[j]@,
                    decreases items.len() - i,
                {
                    proof {
                        assert(decreases_to!(*self => (*self)->Array_0));
                        assert(decreases_to!(items => items[i as int]));
                    }
                    out.push(items[i].deep_copy());
                    i = i + 1;
                }
                let r = JsonValue::Array(out);
                assert(r@->Array_0 =~= self@->Array_0);
                r
            },
            JsonValue::Object(fields) => {
                let mut out: Vec<(String, JsonValue)> = Vec::new();
                let mut i: usize = 0;
                while i < fields.len()
                    invariant
                        *self == JsonValue::Object(*fields),
                        0 <= i <= fields.len(),
                        out.len() == i,
                        forall|j: int|
                            0 <= j < i ==> out[j].0@ == fields[j].0@ && out[j].1@ == fields[j].1@,
                    decreases fields.len() - i,
                {
                    proof {
                        assert(decreases_to!(*self => (*self)->Object_0));
                        assert(decreases_to!(fields => fields[i as int]));
                        assert(decreases_to!(fields[i as int] => fields[i as int].1));
                    }
                    out.push((fields[i].0.clone(), fields[i].1.deep_copy()));
                    i = i + 1;
                }
                let r = JsonValue::Object(out);
                assert(r@->Object_0 =~= self@->Object_0);
                r
            },
        }
    }
}

/// Semantic equality of two values, as `json_eq` states it.
pub fn json_values_eq(a: &JsonValue, b: &JsonValue) -> (r: bool)
    ensures
        r == json_eq(a@, b@),
    decreases a,
{
    match a {
        JsonValue::Null => match b {
            JsonValue::Null => true,
            _ => false,
        },
        JsonValue::Bool(x) => match b {
            JsonValue::Bool(y) => *x == *y,
            _ => false,
        },
        JsonValue::Number(x, _) => match b {
            JsonValue::Number(y, _) => numbers_equal(*x, *y),
            _ => false,
        },
        JsonValue::String(x) => match b {
            JsonValue::String(y) => *x == *y,
            _ => false,
        },
        JsonValue::Array(xs) => match b {
            JsonValue::Array(ys) => {
                if xs.len() != ys.len() {
                    return false;
                }
                let ghost xm = a@->Array_0;
                let ghost ym = b@->Array_0;
                let mut i: usize = 0;
                while i < xs.len()
                    invariant
                        0 <= i <= xs.len(),
                        xs.len() == ys.len(),
                        *a == JsonValue::Array(*xs),
                        a@ == Json::Array(xm),
                        b@ == Json::Array(ym),
                        xm.len() == xs.len(),
                        ym.len() == ys.len(),
                        forall|j: int| 0 <= j < xs.len() ==> xm[j] == xs[j]@,
                        forall|j: int| 0 <= j < ys.len() ==> ym[j] == ys[j]@,
                        forall|j: int| 0 <= j < i ==> json_eq(#[trigger] xm[j], ym[j]),
                    decreases xs.len() - i,
                {
                    proof {
                        assert(decreases_to!(*a => (*a)->Array_0));
                        assert((*a)->Array_0 == *xs);
                        assert(decreases_to!(xs => xs[i as int]));
                        assert(decreases_to!(*a => xs[i as int]));
                    }
                    if !json_values_eq(&xs[i], &ys[i]) {
                        assert(!json_eq(xm[i as int], ym[i as int]));
                        return false;
                    }
                    i = i + 1;
                }
                true
            },
            _ => false,
        },
        JsonValue::Object(fs) => match b {
            JsonValue::Object(gs) => {
                if fs.len() != gs.len() {
                    return false;
                }
                let ghost fm = a@->Object_0;
                let ghost gm = b@->Object_0;
                let mut i: usize = 0;
                while i < fs.len()
                    invariant
                        0 <= i <= fs.len(),
                        fs.len() == gs.len(),
                        *a == JsonValue::Object(*fs),
                        a@ == Json::Object(fm),
                        b@ == Json::Object(gm),
                        fm.len() == fs.len(),
                        gm.len() == gs.len(),
                        forall|j: int| 0 <= j < fs.len() ==> fm[j] == (fs[j].0@, fs[j].1@),
                        forall|j: int|
                            0 <= j < i ==> match field_of(gm, #[trigger] fm[j].0) {
                                Some(v) => json_eq(fm[j].1, v),
                                None => false,
                            },
                    decreases fs.len() - i,
                {
                    proof {
                        assert(decreases_to!(*a => (*a)->Object_0));
                        assert((*a)->Object_0 == *fs);
                        assert(decreases_to!(fs => fs[i as int]));
                        assert(decreases_to!(fs[i as int] => fs[i as int].1));
                        assert(decreases_to!(*a => fs[i as int].1));
                    }
                    match b.get_field(&fs[i].0) {
                        Some(v) => {
                            if !json_values_eq(&fs[i].1, v) {
                                assert(field_of(gm, fm[i as int].0) == Some(v@));
                                assert(!json_eq(fm[i as int].1, v@));
                                return false;
                            }
                        },
                        None => {
                            assert(field_of(gm, fm[i as int].0) is None);
                            return false;
                        },
                    }
                    i = i + 1;
                }
                true
            },
            _ => false,
        },
    }
}

} // verus!
