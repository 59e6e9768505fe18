//! Structured content values.
//!
//! A document's structured content is a tree of `Value`s: the subset of the
//! store's wire data model that this library supports (null, booleans,
//! 64-bit signed integers, strings, arrays, and objects with ordered
//! fields). The mathematical model of a `Value` is `SpecValue`, reached
//! through the `@` view operator.

use vstd::prelude::*;
use vstd::string::*;

verus! {

broadcast use vstd::seq::group_seq_axioms, vstd::std_specs::vec::group_vec_axioms;

/// One named field of an object value.
#[derive(Debug, PartialEq, Eq)]
pub struct Field {
    pub name: String,
    pub value: Value,
}

/// A structured content value.
#[derive(Debug, PartialEq, Eq)]
pub enum Value {
    Null,
    Bool(bool),
    Int(i64),
    Str(String),
    Array(Vec<Value>),
    Object(Vec<Field>),
}

/// The mathematical model of a `Field`.
pub ghost struct SpecField {
    pub name: Seq<char>,
    pub value: SpecValue,
}

/// The mathematical model of a `Value`.
pub ghost enum SpecValue {
    Null,
    Bool(bool),
    Int(int),
    Str(Seq<char>),
    Array(Seq<SpecValue>),
    Object(Seq<SpecField>),
}

pub open spec fn field_view(f: Field) -> SpecField
    decreases f,
{
    SpecField { name: f.name@, value: value_view(f.value) }
}

/// The views of a sequence of values, element by element.
pub open spec fn value_views(s: Seq<Value>) -> Seq<SpecValue>
    decreases s,
{
    Seq::new(s.len(), |i: int| if 0 <= i < s.len() {
        value_view(s[i])
    } else {
        SpecValue::Null
    })
}

/// The views of a sequence of fields, element by element.
pub open spec fn field_views(s: Seq<Field>) -> Seq<SpecField>
    decreases s,
{
    Seq::new(s.len(), |i: int| if 0 <= i < s.len() {
        field_view(s[i])
    } else {
        SpecField { name: Seq::empty(), value: SpecValue::Null }
    })
}

pub open spec fn value_view(v: Value) -> SpecValue
    decreases v,
{
    match v {
        Value::Null => SpecValue::Null,
        Value::Bool(b) => SpecValue::Bool(b),
        Value::Int(i) => SpecValue::Int(i as int),
        Value::Str(s) => SpecValue::Str(s@),
        Value::Array(elems) => SpecValue::Array(value_views(elems@)),
        Value::Object(fields) => SpecValue::Object(field_views(fields@)),
    }
}

impl View for Field {
    type V = SpecField;

    open spec fn view(&self) -> SpecField {
        field_view(*self)
    }
}

impl View for Value {
    type V = SpecValue;

    open spec fn view(&self) -> SpecValue {
        value_view(*self)
    }
}

pub(crate) fn clone_values(elems: &Vec<Value>) -> (res: Vec<Value>)
    ensures
        res@.len() == elems@.len(),
        forall|j: int| 0 <= j < elems@.len() ==> res@[j]@ == elems@[j]@,
    decreases *elems,
{
    let mut out: Vec<Value> = Vec::new();
    let mut i: usize = 0;
    while i < elems.len()
        invariant
            i <= elems.len(),
            out@.len() == i as int,
            forall|j: int| 0 <= j < i as int ==> out@[j]@ == elems@[j]@,
        decreases elems.len() - i,
    {
        out.push(elems[i].clone());
        i = i + 1;
    }
    out
}

pub(crate) fn clone_fields(fields: &Vec<Field>) -> (res: Vec<Field>)
    ensures
        res@.len() == fields@.len(),
        forall|j: int| 0 <= j < fields@.len() ==> res@[j]@ == fields@[j]@,
    decreases *fields,
{
    let mut out: Vec<Field> = Vec::new();
    let mut i: usize = 0;
    while i < fields.len()
        invariant
            i <= fields.len(),
            out@.len() == i as int,
            forall|j: int| 0 <= j < i as int ==> out@[j]@ == fields@[j]@,
        decreases fields.len() - i,
    {
        out.push(fields[i].clone());
        i = i + 1;
    }
    out
}

impl Clone for Field {
    fn clone(&self) -> (res: Self)
        ensures
            res@ == self@,
        decreases *self,
    {
        Field { name: self.name.clone(), value: self.value.clone() }
    }
}

impl Clone for Value {
    fn clone(&self) -> (res: Self)
        ensures
            res@ == self@,
        decreases *self,
    {
        match self {
            Value::Null => Value::Null,
            Value::Bool(b) => Value::Bool(*b),
            Value::Int(i) => Value::Int(*i),
            Value::Str(s) => Value::Str(s.clone()),
            Value::Array(elems) => {
                let res = Value::Array(clone_values(elems));
                proof {
                    assert(res@ matches SpecValue::Array(a) && self@ matches SpecValue::Array(b)
                        && a =~= b);
                }
                res
            },
            Value::Object(fields) => {
                let res = Value::Object(clone_fields(fields));
                proof {
                    assert(res@ matches SpecValue::Object(a) && self@ matches SpecValue::Object(b)
                        && a =~= b);
                }
                res
            },
        }
    }
}

/// The value of the first field named `name`, or nothing if no field
/// carries that name.
pub open spec fn field_value(fs: Seq<SpecField>, name: Seq<char>) -> Option<SpecValue>
    decreases fs.len(),
{
    if fs.len() == 0 {
        None
    } else if fs[0].name == name {
        Some(fs[0].value)
    } else {
        field_value(fs.drop_first(), name)
    }
}

/// Character-for-character string equality.
pub fn str_eq(a: &str, b: &str) -> (r: bool)
    ensures
        r == (a@ == b@),
{
    let alen = a.unicode_len();
    let blen = b.unicode_len();
    if alen != blen {
        proof {
            assert(a@ != b@);
        }
        return false;
    }
    let mut i: usize = 0;
    while i < alen
        invariant
            i <= alen,
            alen == a@.len(),
            alen == b@.len(),
            forall|j: int| 0 <= j < i as int ==> a@[j] == b@[j],
        decreases alen - i,
    {
        if a.get_char(i) != b.get_char(i) {
            return false;
        }
        i = i + 1;
    }
    proof {
        assert(a@ =~= b@);
    }
    true
}

impl Value {
    /// Looks a field up by name in an object value: the first field of
    /// that name. Anything but an object holds no fields.
    pub fn get(&self, name: &str) -> (r: Option<&Value>)
        ensures
            match self@ {
                SpecValue::Object(fs) => match r {
                    Some(v) => field_value(fs, name@) == Some(v@),
                    None => field_value(fs, name@) is None,
                },
                _ => r is None,
            },
    {
        match self {
            Value::Object(fields) => {
                let ghost fs = field_views(fields@);
                proof {
                    assert(fs.skip(0) =~= fs);
                }
                let mut i: usize = 0;
                while i < fields.len()
                    invariant
                        i <= fields@.len(),
                        fs == field_views(fields@),
                        self@ == SpecValue::Object(fs),
                        field_value(fs, name@) == field_value(fs.skip(i as int), name@),
                    decreases fields@.len() - i,
                {
                    proof {
                        assert(fs.skip(i as int)[0] == fs[i as int]);
                        assert(fs[i as int].name == fields@[i as int].name@);
                    }
                    if str_eq(fields[i].name.as_str(), name) {
                        proof {
                            assert(fs.skip(i as int).len() > 0);
                            assert(field_value(fs.skip(i as int), name@) == Some(
                                fs[i as int].value,
                            ));
                            assert(fs[i as int].value == fields@[i as int].value@);
                        }
                        return Some(&fields[i].value);
                    }
                    proof {
                        assert(fs.skip(i as int).drop_first() =~= fs.skip(i as int + 1));
                    }
                    i = i + 1;
                }
                proof {
                    assert(fs.skip(fields@.len() as int) =~= Seq::<SpecField>::empty());
                }
                None
            },
            _ => None,
        }
    }
}

} // verus!
