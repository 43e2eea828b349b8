//! Uniform wrapping of plain values, so that literal builders can forward
//! scalars and already-built values alike.
use vstd::prelude::*;
use crate::value::Json;

verus! {

/// A plain value waiting to be turned into a [`Json`].
pub struct JsonSmuggler<T>(T);

impl<T> JsonSmuggler<T> {
    /// The wrapped value.
    pub closed spec fn inner(self) -> T {
        self.0
    }

    /// Wraps a value.
    pub fn new(inner: T) -> (r: Self)
        ensures
            r.inner() == inner,
    {
        Self(inner)
    }
}

impl JsonSmuggler<()> {
    /// A `Null`.
    pub fn to_json(&self) -> (r: Json<'static>)
        ensures
            r == Json::Null(self.inner()),
    {
        Json::Null(self.0)
    }
}

impl JsonSmuggler<bool> {
    /// A `Bool` holding the wrapped value.
    pub fn to_json(&self) -> (r: Json<'static>)
        ensures
            r == Json::Bool(self.inner()),
    {
        Json::Bool(self.0)
    }
}

impl JsonSmuggler<i64> {
    /// An `Int` holding the wrapped value.
    pub fn to_json(&self) -> (r: Json<'static>)
        ensures
            r == Json::Int(self.inner()),
    {
        Json::Int(self.0)
    }
}

impl<'b> JsonSmuggler<&'b str> {
    /// A `Str` borrowing the wrapped text.
    pub fn to_json(&self) -> (r: Json<'b>)
        ensures
            r == Json::Str(self.inner()),
    {
        Json::Str(self.0)
    }
}

impl<'a> JsonSmuggler<Json<'a>> {
    /// The wrapped value itself.
    pub fn to_json(&self) -> (r: Json<'a>)
        ensures
            r == self.inner(),
    {
        self.0
    }
}

} // verus!
