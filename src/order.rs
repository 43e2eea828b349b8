//! The partial ordering of values: by variant first, then by payload.
use core::cmp::Ordering;
use vstd::prelude::*;
use vstd::string::StringSliceAdditionalSpecFns;
use crate::value::{Json, MAGNITUDE_MASK, is_nan, is_nan_bits, variant_index};

verus! {

/// Mask of the sign bit of a binary64 bit pattern.
pub const SIGN_MASK: u64 = 0x8000_0000_0000_0000;

/// How `a` compares with `b`.
pub open spec fn cmp_int(a: int, b: int) -> Ordering {
    if a < b {
        Ordering::Less
    } else if a == b {
        Ordering::Equal
    } else {
        Ordering::Greater
    }
}

/// A key that orders non-NaN binary64 bit patterns as their numbers are
/// ordered: the signed magnitude, with both zeros at 0.
pub open spec fn float_key(b: u64) -> int {
    if (b & SIGN_MASK) != 0 {
        -((b & MAGNITUDE_MASK) as int)
    } else {
        (b & MAGNITUDE_MASK) as int
    }
}

/// IEEE-754 comparison of two binary64 bit patterns: a NaN is unordered.
pub open spec fn float_bits_cmp(a: u64, b: u64) -> Option<Ordering> {
    if is_nan_bits(a) || is_nan_bits(b) {
        None
    } else {
        Some(cmp_int(float_key(a), float_key(b)))
    }
}

/// Lexicographic comparison of byte sequences; a proper prefix comes first.
pub open spec fn bytes_cmp(a: Seq<u8>, b: Seq<u8>) -> Ordering
    decreases a.len(),
{
    if a.len() == 0 || b.len() == 0 {
        cmp_int(a.len() as int, b.len() as int)
    } else if a[0] != b[0] {
        cmp_int(a[0] as int, b[0] as int)
    } else {
        bytes_cmp(a.drop_first(), b.drop_first())
    }
}

/// The partial ordering of two values: by variant in declaration order, and
/// within a variant by payload; `None` where a NaN decides.
pub open spec fn json_cmp(a: Json, b: Json) -> Option<Ordering>
    decreases a,
{
    match (a, b) {
        (Json::Null(_), Json::Null(_)) => Some(Ordering::Equal),
        (Json::Bool(x), Json::Bool(y)) => Some(
            cmp_int(
                if x {
                    1
                } else {
                    0
                },
                if y {
                    1
                } else {
                    0
                },
            ),
        ),
        (Json::Float(x), Json::Float(y)) => float_bits_cmp(x, y),
        (Json::Int(x), Json::Int(y)) => Some(cmp_int(x as int, y as int)),
        (Json::Str(x), Json::Str(y)) => Some(bytes_cmp(x.spec_bytes(), y.spec_bytes())),
        (Json::Array(x), Json::Array(y)) => elements_cmp(x@, y@),
        (Json::Object(x), Json::Object(y)) => entries_cmp(x@, y@),
        _ => Some(cmp_int(variant_index(a) as int, variant_index(b) as int)),
    }
}

/// Lexicographic comparison of element sequences: the first pair that is not
/// equal decides, else the shorter comes first.
pub open spec fn elements_cmp(a: Seq<Json>, b: Seq<Json>) -> Option<Ordering>
    decreases a,
{
    if a.len() == 0 || b.len() == 0 {
        Some(cmp_int(a.len() as int, b.len() as int))
    } else {
        match json_cmp(a[0], b[0]) {
            Some(Ordering::Equal) => elements_cmp(a.drop_first(), b.drop_first()),
            other => other,
        }
    }
}

/// Lexicographic comparison of entry sequences, an entry by its key first and
/// then by its value.
pub open spec fn entries_cmp(a: Seq<(&str, Json)>, b: Seq<(&str, Json)>) -> Option<Ordering>
    decreases a,
{
    if a.len() == 0 || b.len() == 0 {
        Some(cmp_int(a.len() as int, b.len() as int))
    } else {
        match bytes_cmp(a[0].0.spec_bytes(), b[0].0.spec_bytes()) {
            Ordering::Equal => match json_cmp(a[0].1, b[0].1) {
                Some(Ordering::Equal) => entries_cmp(a.drop_first(), b.drop_first()),
                other => other,
            },
            other => Some(other),
        }
    }
}

fn cmp_u64(a: u64, b: u64) -> (r: Ordering)
    ensures
        r == cmp_int(a as int, b as int),
{
    if a < b {
        Ordering::Less
    } else if a == b {
        Ordering::Equal
    } else {
        Ordering::Greater
    }
}

fn cmp_i64(a: i64, b: i64) -> (r: Ordering)
    ensures
        r == cmp_int(a as int, b as int),
{
    if a < b {
        Ordering::Less
    } else if a == b {
        Ordering::Equal
    } else {
        Ordering::Greater
    }
}

/// IEEE-754 comparison of two binary64 bit patterns.
pub fn float_cmp(a: u64, b: u64) -> (r: Option<Ordering>)
    ensures
        r == float_bits_cmp(a, b),
{
    if is_nan(a) || is_nan(b) {
        return None;
    }
    let am = a & MAGNITUDE_MASK;
    let bm = b & MAGNITUDE_MASK;
    let a_neg = (a & SIGN_MASK) != 0;
    let b_neg = (b & SIGN_MASK) != 0;
    if am == 0 && bm == 0 {
        Some(Ordering::Equal)
    } else if !a_neg && !b_neg {
        Some(cmp_u64(am, bm))
    } else if a_neg && b_neg {
        Some(cmp_u64(bm, am))
    } else if b_neg {
        Some(Ordering::Greater)
    } else {
        Some(Ordering::Less)
    }
}

/// Byte-lexicographic comparison of two strings.
pub fn str_cmp(l: &str, r: &str) -> (res: Ordering)
    ensures
        res == bytes_cmp(l.spec_bytes(), r.spec_bytes()),
{
    let lb = l.as_bytes();
    let rb = r.as_bytes();
    let mut i: usize = 0;
    proof {
        assert(lb@.skip(0) =~= lb@);
        assert(rb@.skip(0) =~= rb@);
    }
    while i < lb.len() && i < rb.len()
        invariant
            lb@ == l.spec_bytes(),
            rb@ == r.spec_bytes(),
            i <= lb@.len(),
            i <= rb@.len(),
            bytes_cmp(lb@, rb@) == bytes_cmp(lb@.skip(i as int), rb@.skip(i as int)),
        decreases lb@.len() - i,
    {
        proof {
            assert(lb@.skip(i as int).drop_first() =~= lb@.skip(i + 1));
            assert(rb@.skip(i as int).drop_first() =~= rb@.skip(i + 1));
        }
        if lb[i] != rb[i] {
            return cmp_u64(lb[i] as u64, rb[i] as u64);
        }
        i += 1;
    }
    cmp_u64((lb.len() - i) as u64, (rb.len() - i) as u64)
}

/// The partial ordering of two values, computed.
fn values_cmp<'a>(a: &Json<'a>, b: &Json<'a>) -> (res: Option<Ordering>)
    ensures
        res == json_cmp(*a, *b),
    decreases *a,
{
    broadcast use vstd::std_specs::vec::axiom_vec_index_decreases;

    match (*a, *b) {
        (Json::Null(_), Json::Null(_)) => Some(Ordering::Equal),
        (Json::Bool(x), Json::Bool(y)) => Some(cmp_u64(x as u64, y as u64)),
        (Json::Float(x), Json::Float(y)) => float_cmp(x, y),
        (Json::Int(x), Json::Int(y)) => Some(cmp_i64(x, y)),
        (Json::Str(x), Json::Str(y)) => Some(str_cmp(x, y)),
        (Json::Array(x), Json::Array(y)) => {
            let mut i: usize = 0;
            proof {
                assert(x@.skip(0) =~= x@);
                assert(y@.skip(0) =~= y@);
            }
            while i < x.len() && i < y.len()
                invariant
                    *a == Json::Array(x),
                    *b == Json::Array(y),
                    i <= x@.len(),
                    i <= y@.len(),
                    json_cmp(*a, *b) == elements_cmp(x@.skip(i as int), y@.skip(i as int)),
                decreases x@.len() - i,
            {
                proof {
                    assert(x@.skip(i as int).drop_first() =~= x@.skip(i + 1));
                    assert(y@.skip(i as int).drop_first() =~= y@.skip(i + 1));
                    assert(decreases_to!(*a => a->Array_0));
                    assert(decreases_to!(*x => x[i as int]));
                }
                let c = values_cmp(&x[i], &y[i]);
                match c {
                    Some(Ordering::Equal) => {},
                    _ => {
                        return c;
                    },
                }
                i += 1;
            }
            Some(cmp_u64((x.len() - i) as u64, (y.len() - i) as u64))
        },
        (Json::Object(x), Json::Object(y)) => {
            let mut i: usize = 0;
            proof {
                assert(x@.skip(0) =~= x@);
                assert(y@.skip(0) =~= y@);
            }
            while i < x.len() && i < y.len()
                invariant
                    *a == Json::Object(x),
                    *b == Json::Object(y),
                    i <= x@.len(),
                    i <= y@.len(),
                    json_cmp(*a, *b) == entries_cmp(x@.skip(i as int), y@.skip(i as int)),
                decreases x@.len() - i,
            {
                proof {
                    assert(x@.skip(i as int).drop_first() =~= x@.skip(i + 1));
                    assert(y@.skip(i as int).drop_first() =~= y@.skip(i + 1));
                    assert(decreases_to!(*a => a->Object_0));
                    assert(decreases_to!(*x => x[i as int]));
                }
                let k = str_cmp(x[i].0, y[i].0);
                match k {
                    Ordering::Equal => {},
                    _ => {
                        return Some(k);
                    },
                }
                let c = values_cmp(&x[i].1, &y[i].1);
                match c {
                    Some(Ordering::Equal) => {},
                    _ => {
                        return c;
                    },
                }
                i += 1;
            }
            Some(cmp_u64((x.len() - i) as u64, (y.len() - i) as u64))
        },
        _ => Some(cmp_u64(a.variant_index(), b.variant_index())),
    }
}

impl<'a> PartialOrd for Json<'a> {
    fn partial_cmp(&self, other: &Json<'a>) -> (res: Option<Ordering>) {
        values_cmp(self, other)
    }
}

impl<'a> vstd::std_specs::cmp::PartialOrdSpecImpl for Json<'a> {
    open spec fn obeys_partial_cmp_spec() -> bool {
        true
    }

    open spec fn partial_cmp_spec(&self, other: &Json<'a>) -> Option<Ordering> {
        json_cmp(*self, *other)
    }
}

} // verus!
