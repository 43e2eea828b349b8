//! Properties that hold across the value model's operations.
use vstd::prelude::*;
use crate::value::{Json, is_nan_bits, json_eq, variant_index};

verus! {

/// No `Float` anywhere in the value is a NaN.
pub open spec fn nan_free(v: Json) -> bool
    decreases v,
{
    match v {
        Json::Float(b) => !is_nan_bits(b),
        Json::Array(a) => forall|i: int| 0 <= i < a@.len() ==> nan_free(#[trigger] a@[i]),
        Json::Object(o) => forall|i: int| 0 <= i < o@.len() ==> nan_free((#[trigger] o@[i]).1),
        _ => true,
    }
}

/// Every value equals itself, as long as it holds no NaN (which, as in
/// IEEE-754, equals nothing).
pub proof fn lemma_eq_reflexive(v: Json)
    requires
        nan_free(v),
    ensures
        json_eq(v, v),
    decreases v,
{
    broadcast use vstd::std_specs::vec::axiom_vec_index_decreases;

    match v {
        Json::Array(a) => {
            assert forall|i: int| 0 <= i < a@.len() implies json_eq(#[trigger] a@[i], a@[i]) by {
                assert(decreases_to!(v => v->Array_0));
                assert(decreases_to!(*a => a[i]));
                lemma_eq_reflexive(a@[i]);
            }
        },
        Json::Object(o) => {
            assert forall|i: int| 0 <= i < o@.len() implies (#[trigger] o@[i]).0@ == o@[i].0@
                && json_eq(o@[i].1, o@[i].1) by {
                assert(decreases_to!(v => v->Object_0));
                assert(decreases_to!(*o => o[i]));
                lemma_eq_reflexive(o@[i].1);
            }
        },
        _ => {},
    }
}

/// Values of different variants are never equal: an `Int` is not equal to a
/// `Float` of the same magnitude.
pub proof fn lemma_eq_variant_sensitive(a: Json, b: Json)
    requires
        variant_index(a) != variant_index(b),
    ensures
        !json_eq(a, b),
{
}

} // verus!
