//! Textures: values that vary over space, and ways to combine them.

use vstd::prelude::*;
use crate::vector::Pt3;

verus! {

/// A value for every point of space.
pub trait Texture {
    /// What the texture gives at a point.
    type Output;

    /// What must hold of the texture before it is looked up.  Nothing,
    /// unless the texture says otherwise.
    open spec fn ready(&self) -> bool {
        true
    }

    /// `out` is a value the texture can give at `point`.  Any, unless the
    /// texture says otherwise.
    open spec fn yields(&self, point: Pt3, out: Self::Output) -> bool {
        true
    }

    /// The value at `point`.
    fn at(&self, point: Pt3) -> (out: Self::Output)
        requires
            self.ready(),
        ensures
            self.yields(point, out),
    ;
}

/// The same value everywhere.
#[derive(Clone, Copy, Debug)]
pub struct Uniform<T> {
    value: T,
}

impl<T> Uniform<T> {
    /// The value the texture has everywhere.
    pub closed spec fn value(self) -> T {
        self.value
    }

    /// The texture that is `value` everywhere.
    pub fn new(value: T) -> (texture: Uniform<T>)
        ensures
            texture.value() == value,
    {
        Uniform { value }
    }
}

impl<T: Copy> Texture for Uniform<T> {
    type Output = T;

    open spec fn ready(&self) -> bool {
        true
    }

    open spec fn yields(&self, point: Pt3, out: T) -> bool {
        out == self.value()
    }

    fn at(&self, point: Pt3) -> (out: T) {
        self.value
    }
}

/// The point itself.
pub struct Identity;

impl Texture for Identity {
    type Output = Pt3;

    open spec fn ready(&self) -> bool {
        true
    }

    open spec fn yields(&self, point: Pt3, out: Pt3) -> bool {
        out == point
    }

    fn at(&self, point: Pt3) -> (out: Pt3) {
        point
    }
}

/// A texture seen through a function.
pub struct Mapped<T, F> {
    pub texture: T,
    pub function: F,
}

impl<T, U, F> Texture for Mapped<T, F> where T: Texture, F: Fn(T::Output) -> U {
    type Output = U;

    open spec fn ready(&self) -> bool {
        self.texture.ready() && forall|x: T::Output| call_requires(self.function, (x,))
    }

    open spec fn yields(&self, point: Pt3, out: U) -> bool {
        exists|inner: T::Output| #[trigger]
            self.texture.yields(point, inner) && call_ensures(self.function, (inner,), out)
    }

    fn at(&self, point: Pt3) -> (out: U) {
        let inner = self.texture.at(point);
        (self.function)(inner)
    }
}

/// Two textures side by side.
pub struct Zip<T1, T2> {
    pub texture1: T1,
    pub texture2: T2,
}

impl<T1, T2> Texture for Zip<T1, T2> where T1: Texture, T2: Texture {
    type Output = (T1::Output, T2::Output);

    open spec fn ready(&self) -> bool {
        self.texture1.ready() && self.texture2.ready()
    }

    open spec fn yields(&self, point: Pt3, out: (T1::Output, T2::Output)) -> bool {
        self.texture1.yields(point, out.0) && self.texture2.yields(point, out.1)
    }

    fn at(&self, point: Pt3) -> (out: (T1::Output, T2::Output)) {
        (self.texture1.at(point), self.texture2.at(point))
    }
}

/// `texture` seen through `f`.
pub fn map<T: Texture, U, F: Fn(T::Output) -> U>(texture: T, f: F) -> (mapped: Mapped<T, F>)
    ensures
        mapped.texture == texture,
        mapped.function == f,
{
    Mapped { texture, function: f }
}

/// `first` and `second` side by side.
pub fn zip<T1: Texture, T2: Texture>(first: T1, second: T2) -> (zipped: Zip<T1, T2>)
    ensures
        zipped.texture1 == first,
        zipped.texture2 == second,
{
    Zip { texture1: first, texture2: second }
}

/// `texture` paired with the point it is looked up at.
pub fn with_point<T: Texture>(texture: T) -> (zipped: Zip<Identity, T>)
    ensures
        zipped.texture1 == Identity,
        zipped.texture2 == texture,
{
    Zip { texture1: Identity, texture2: texture }
}

} // verus!
