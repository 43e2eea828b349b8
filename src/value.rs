//! The value model: the tagged union, its equality and its accessors.
use vstd::prelude::*;
use vstd::string::StringSliceAdditionalSpecFns;
use vstd::utf8::encode_utf8_decode_utf8;

verus! {

/// A JSON-shaped value that borrows all of its text and children.
#[derive(Clone, Copy)]
pub enum Json<'a> {
    /// `null`
    Null(()),
    /// `true` or `false`
    Bool(bool),
    /// A floating point number, held as its IEEE-754 binary64 bit pattern
    Float(u64),
    /// A 64-bit signed integer
    Int(i64),
    /// A string
    Str(&'a str),
    /// An untyped array
    Array(&'a Vec<Json<'a>>),
    /// Key-value pairs in their declared order; keys may repeat
    Object(&'a Vec<(&'a str, Json<'a>)>),
}

/// Why an accessor could not give what was asked of it.
#[derive(Clone, Copy, Debug, PartialEq, Eq, Structural)]
pub enum AccessError {
    /// The value is not of the variant that the accessor reads.
    WrongVariant,
    /// No entry of the object has the key.
    KeyNotFound,
    /// The index is not below the array's length.
    IndexOutOfRange,
}

/// A number as it is stored, before any conversion to a binary64 value.
#[derive(Clone, Copy, Debug, PartialEq, Eq, Structural)]
pub enum Numeric {
    /// The bit pattern of a binary64 number
    Float(u64),
    /// A 64-bit signed integer, to be widened to the nearest binary64 value
    Int(i64),
}

/// The position of a value's variant in the declaration of [`Json`].
pub open spec fn variant_index(v: Json) -> nat {
    match v {
        Json::Null(_) => 0,
        Json::Bool(_) => 1,
        Json::Float(_) => 2,
        Json::Int(_) => 3,
        Json::Str(_) => 4,
        Json::Array(_) => 5,
        Json::Object(_) => 6,
    }
}

/// Mask of the exponent field of a binary64 bit pattern.
pub const EXP_MASK: u64 = 0x7ff0_0000_0000_0000;

/// Mask of the fraction field of a binary64 bit pattern.
pub const FRAC_MASK: u64 = 0x000f_ffff_ffff_ffff;

/// Mask of everything but the sign bit.
pub const MAGNITUDE_MASK: u64 = 0x7fff_ffff_ffff_ffff;

/// The bit pattern encodes a NaN: all exponent bits set and a nonzero fraction.
pub open spec fn is_nan_bits(b: u64) -> bool {
    (b & EXP_MASK) == EXP_MASK && (b & FRAC_MASK) != 0
}

/// IEEE-754 equality of two binary64 numbers given by their bit patterns:
/// a NaN equals nothing, and the two zeros are equal.
pub open spec fn float_bits_eq(a: u64, b: u64) -> bool {
    !is_nan_bits(a) && !is_nan_bits(b) && (a == b || ((a & MAGNITUDE_MASK) == 0 && (b
        & MAGNITUDE_MASK) == 0))
}

/// Structural, variant-sensitive equality of two values.
pub open spec fn json_eq<'a>(a: Json<'a>, b: Json<'a>) -> bool
    decreases a,
{
    match (a, b) {
        (Json::Null(_), Json::Null(_)) => true,
        (Json::Bool(x), Json::Bool(y)) => x == y,
        (Json::Float(x), Json::Float(y)) => float_bits_eq(x, y),
        (Json::Int(x), Json::Int(y)) => x == y,
        (Json::Str(x), Json::Str(y)) => x@ == y@,
        (Json::Array(x), Json::Array(y)) => {
            &&& x@.len() == y@.len()
            &&& forall|i: int| 0 <= i < x@.len() ==> json_eq(#[trigger] x@[i], y@[i])
        },
        (Json::Object(x), Json::Object(y)) => {
            &&& x@.len() == y@.len()
            &&& forall|i: int|
                0 <= i < x@.len() ==> (#[trigger] x@[i]).0@ == y@[i].0@ && json_eq(
                    x@[i].1,
                    y@[i].1,
                )
        },
        _ => false,
    }
}

/// Some entry of `entries` has the key.
pub open spec fn has_key<'a>(entries: Seq<(&'a str, Json<'a>)>, key: Seq<char>) -> bool {
    exists|i: int| 0 <= i < entries.len() && (#[trigger] entries[i]).0@ == key
}

/// Entry `i` is the first entry of `entries` with the key.
pub open spec fn is_first_key<'a>(entries: Seq<(&'a str, Json<'a>)>, key: Seq<char>, i: int) -> bool {
    &&& 0 <= i < entries.len()
    &&& entries[i].0@ == key
    &&& forall|j: int| 0 <= j < i ==> (#[trigger] entries[j]).0@ != key
}

/// Byte-exact comparison of two strings: lengths first, then byte by byte.
pub fn string_eq(l: &str, r: &str) -> (res: bool)
    ensures
        res == (l@ == r@),
{
    let lb = l.as_bytes();
    let rb = r.as_bytes();
    if lb.len() != rb.len() {
        return false;
    }
    let mut idx: usize = 0;
    while idx < lb.len()
        invariant
            lb@ == l.spec_bytes(),
            rb@ == r.spec_bytes(),
            lb@.len() == rb@.len(),
            idx <= lb@.len(),
            lb@.subrange(0, idx as int) == rb@.subrange(0, idx as int),
        decreases lb@.len() - idx,
    {
        if lb[idx] != rb[idx] {
            return false;
        }
        assert(lb@.subrange(0, idx + 1) =~= lb@.subrange(0, idx as int).push(lb@[idx as int]));
        assert(rb@.subrange(0, idx + 1) =~= rb@.subrange(0, idx as int).push(rb@[idx as int]));
        idx += 1;
    }
    proof {
        assert(lb@ =~= lb@.subrange(0, idx as int));
        assert(rb@ =~= rb@.subrange(0, idx as int));
        encode_utf8_decode_utf8(l@);
        encode_utf8_decode_utf8(r@);
    }
    true
}

/// Whether a binary64 bit pattern encodes a NaN.
pub fn is_nan(b: u64) -> (r: bool)
    ensures
        r == is_nan_bits(b),
{
    (b & EXP_MASK) == EXP_MASK && (b & FRAC_MASK) != 0
}

/// IEEE-754 equality of two binary64 bit patterns.
pub fn float_eq(a: u64, b: u64) -> (res: bool)
    ensures
        res == float_bits_eq(a, b),
{
    !is_nan(a) && !is_nan(b) && (a == b || ((a & MAGNITUDE_MASK) == 0 && (b & MAGNITUDE_MASK) == 0))
}

/// Structural equality, element by element and in order.
fn values_eq<'a>(a: &Json<'a>, b: &Json<'a>) -> (res: bool)
    ensures
        res == json_eq(*a, *b),
    decreases *a,
{
    broadcast use vstd::std_specs::vec::axiom_vec_index_decreases;

    match (*a, *b) {
        (Json::Null(_), Json::Null(_)) => true,
        (Json::Bool(x), Json::Bool(y)) => x == y,
        (Json::Float(x), Json::Float(y)) => float_eq(x, y),
        (Json::Int(x), Json::Int(y)) => x == y,
        (Json::Str(x), Json::Str(y)) => string_eq(x, y),
        (Json::Array(x), Json::Array(y)) => {
            if x.len() != y.len() {
                return false;
            }
            let mut i: usize = 0;
            while i < x.len()
                invariant
                    *a == Json::Array(x),
                    *b == Json::Array(y),
                    x@.len() == y@.len(),
                    i <= x@.len(),
                    forall|j: int| 0 <= j < i ==> json_eq(#[trigger] x@[j], y@[j]),
                decreases x@.len() - i,
            {
                proof {
                    assert(decreases_to!(*a => a->Array_0));
                    assert(decreases_to!(*x => x[i as int]));
                    assert(decreases_to!(*a => x@[i as int]));
                }
                if !values_eq(&x[i], &y[i]) {
                    return false;
                }
                i += 1;
            }
            true
        },
        (Json::Object(x), Json::Object(y)) => {
            if x.len() != y.len() {
                return false;
            }
            let mut i: usize = 0;
            while i < x.len()
                invariant
                    *a == Json::Object(x),
                    *b == Json::Object(y),
                    x@.len() == y@.len(),
                    i <= x@.len(),
                    forall|j: int|
                        0 <= j < i ==> (#[trigger] x@[j]).0@ == y@[j].0@ && json_eq(
                            x@[j].1,
                            y@[j].1,
                        ),
                decreases x@.len() - i,
            {
                proof {
                    assert(decreases_to!(*a => a->Object_0));
                    assert(decreases_to!(*x => x[i as int]));
                    assert(decreases_to!(*a => x@[i as int].1));
                }
                if !string_eq(x[i].0, y[i].0) || !values_eq(&x[i].1, &y[i].1) {
                    return false;
                }
                i += 1;
            }
            true
        },
        _ => false,
    }
}

impl<'a> Json<'a> {
    /// The position of the value's variant in the declaration of `Json`.
    pub(crate) fn variant_index(&self) -> (r: u64)
        ensures
            r == variant_index(*self),
    {
        match self {
            Json::Null(_) => 0,
            Json::Bool(_) => 1,
            Json::Float(_) => 2,
            Json::Int(_) => 3,
            Json::Str(_) => 4,
            Json::Array(_) => 5,
            Json::Object(_) => 6,
        }
    }

    /// Gets the value of the first entry with the given key.
    pub fn get_val(&self, key: &str) -> (r: Result<&'a Json<'a>, AccessError>)
        ensures
            match *self {
                Json::Object(o) => {
                    &&& r is Ok <==> has_key(o@, key@)
                    &&& r matches Ok(v) ==> exists|i: int|
                        is_first_key(o@, key@, i) && *v == o@[i].1
                    &&& r matches Err(e) ==> e == AccessError::KeyNotFound
                },
                _ => r == Err::<&Json<'a>, AccessError>(AccessError::WrongVariant),
            },
    {
        match *self {
            Json::Object(obj) => {
                let mut i: usize = 0;
                while i < obj.len()
                    invariant
                        *self == Json::Object(obj),
                        i <= obj@.len(),
                        forall|j: int| 0 <= j < i ==> (#[trigger] obj@[j]).0@ != key@,
                    decreases obj@.len() - i,
                {
                    let entry = &obj[i];
                    if string_eq(entry.0, key) {
                        assert(is_first_key(obj@, key@, i as int));
                        return Ok(&entry.1);
                    }
                    i += 1;
                }
                Err(AccessError::KeyNotFound)
            },
            _ => Err(AccessError::WrongVariant),
        }
    }

    /// Gets the element at the given index.
    pub fn get_idx(&self, index: usize) -> (r: Result<&'a Json<'a>, AccessError>)
        ensures
            match *self {
                Json::Array(a) => if index < a@.len() {
                    r matches Ok(v) && *v == a@[index as int]
                } else {
                    r == Err::<&Json<'a>, AccessError>(AccessError::IndexOutOfRange)
                },
                _ => r == Err::<&Json<'a>, AccessError>(AccessError::WrongVariant),
            },
    {
        match *self {
            Json::Array(arr) => {
                if index < arr.len() {
                    Ok(&arr[index])
                } else {
                    Err(AccessError::IndexOutOfRange)
                }
            },
            _ => Err(AccessError::WrongVariant),
        }
    }

    /// Unwraps a `Null` value.
    pub fn null(&self) -> (r: Result<(), AccessError>)
        ensures
            r == (if self is Null { Ok(()) } else { Err(AccessError::WrongVariant) }),
    {
        match *self {
            Json::Null(inner) => Ok(inner),
            _ => Err(AccessError::WrongVariant),
        }
    }

    /// Unwraps a `Bool` value.
    pub fn bool(&self) -> (r: Result<bool, AccessError>)
        ensures
            r == (match *self {
                Json::Bool(b) => Ok(b),
                _ => Err(AccessError::WrongVariant),
            }),
    {
        match *self {
            Json::Bool(inner) => Ok(inner),
            _ => Err(AccessError::WrongVariant),
        }
    }

    /// Unwraps a number as a floating value: a `Float` as it is, and an `Int`
    /// to be widened; nothing is ever narrowed.
    pub fn float(&self) -> (r: Result<Numeric, AccessError>)
        ensures
            r == (match *self {
                Json::Float(f) => Ok(Numeric::Float(f)),
                Json::Int(n) => Ok(Numeric::Int(n)),
                _ => Err(AccessError::WrongVariant),
            }),
    {
        match *self {
            Json::Float(inner) => Ok(Numeric::Float(inner)),
            Json::Int(inner) => Ok(Numeric::Int(inner)),
            _ => Err(AccessError::WrongVariant),
        }
    }

    /// Unwraps an `Int` value; a `Float` is never narrowed to one.
    pub fn as_int(&self) -> (r: Result<i64, AccessError>)
        ensures
            r == (match *self {
                Json::Int(n) => Ok(n),
                _ => Err(AccessError::WrongVariant),
            }),
    {
        match *self {
            Json::Int(inner) => Ok(inner),
            _ => Err(AccessError::WrongVariant),
        }
    }

    /// Unwraps a `Str` value.
    pub fn str(&self) -> (r: Result<&'a str, AccessError>)
        ensures
            r == (match *self {
                Json::Str(s) => Ok(s),
                _ => Err(AccessError::WrongVariant),
            }),
    {
        match *self {
            Json::Str(inner) => Ok(inner),
            _ => Err(AccessError::WrongVariant),
        }
    }
}

impl<'a> PartialEq for Json<'a> {
    fn eq(&self, other: &Json<'a>) -> (res: bool) {
        values_eq(self, other)
    }
}

impl<'a> vstd::std_specs::cmp::PartialEqSpecImpl for Json<'a> {
    open spec fn obeys_eq_spec() -> bool {
        true
    }

    open spec fn eq_spec(&self, other: &Json<'a>) -> bool {
        json_eq(*self, *other)
    }
}

} // verus!
