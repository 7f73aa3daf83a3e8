//! Typed slices as a kernel sees them: a length, a numeric kind and
//! checked indexing.

use vstd::prelude::*;
use crate::scalar::ScalarType;

verus! {

/// A primitive numeric type.
pub trait Scalar: Copy {
    spec fn spec_scalar_type() -> ScalarType;

    /// The kind of the type.
    fn scalar_type() -> (r: ScalarType)
        ensures
            r == Self::spec_scalar_type(),
    ;
}

impl Scalar for u8 {
    open spec fn spec_scalar_type() -> ScalarType {
        ScalarType::U8
    }

    fn scalar_type() -> (r: ScalarType) {
        ScalarType::U8
    }
}

impl Scalar for i8 {
    open spec fn spec_scalar_type() -> ScalarType {
        ScalarType::I8
    }

    fn scalar_type() -> (r: ScalarType) {
        ScalarType::I8
    }
}

impl Scalar for u16 {
    open spec fn spec_scalar_type() -> ScalarType {
        ScalarType::U16
    }

    fn scalar_type() -> (r: ScalarType) {
        ScalarType::U16
    }
}

impl Scalar for i16 {
    open spec fn spec_scalar_type() -> ScalarType {
        ScalarType::I16
    }

    fn scalar_type() -> (r: ScalarType) {
        ScalarType::I16
    }
}

impl Scalar for u32 {
    open spec fn spec_scalar_type() -> ScalarType {
        ScalarType::U32
    }

    fn scalar_type() -> (r: ScalarType) {
        ScalarType::U32
    }
}

impl Scalar for i32 {
    open spec fn spec_scalar_type() -> ScalarType {
        ScalarType::I32
    }

    fn scalar_type() -> (r: ScalarType) {
        ScalarType::I32
    }
}

impl Scalar for u64 {
    open spec fn spec_scalar_type() -> ScalarType {
        ScalarType::U64
    }

    fn scalar_type() -> (r: ScalarType) {
        ScalarType::U64
    }
}

impl Scalar for i64 {
    open spec fn spec_scalar_type() -> ScalarType {
        ScalarType::I64
    }

    fn scalar_type() -> (r: ScalarType) {
        ScalarType::I64
    }
}

/// Closes `DataBase` to the representations of this module.
pub trait Sealed {

}

/// A representation of a slice: its elements and their number.
pub trait DataBase: Sealed {
    type Elem: Scalar;

    /// The elements.
    spec fn elems(&self) -> Seq<Self::Elem>;

    fn len(&self) -> (r: usize)
        ensures
            r == self.elems().len(),
    ;
}

/// A representation that can be read at an index.
pub trait Data: DataBase {
    fn index(&self, index: usize) -> (r: &Self::Elem)
        requires
            index < self.elems().len(),
        ensures
            *r == self.elems()[index as int],
    ;
}

/// A borrowed slice.
pub struct SliceRepr<'a, T> {
    inner: &'a [T],
}

impl<'a, T> SliceRepr<'a, T> {
    /// The elements.
    pub closed spec fn items(&self) -> Seq<T> {
        self.inner@
    }

    pub fn new(inner: &'a [T]) -> (r: Self)
        ensures
            r.items() == inner@,
    {
        SliceRepr { inner }
    }
}

impl<T> Sealed for SliceRepr<'_, T> {

}

impl<T: Scalar> DataBase for SliceRepr<'_, T> {
    type Elem = T;

    open spec fn elems(&self) -> Seq<T> {
        self.items()
    }

    fn len(&self) -> (r: usize) {
        self.inner.len()
    }
}

impl<T: Scalar> Data for SliceRepr<'_, T> {
    fn index(&self, index: usize) -> (r: &T) {
        &self.inner[index]
    }
}

/// A slice with the representation `S`.
pub struct BufferBase<S> {
    data: S,
}

impl<S: DataBase> BufferBase<S> {
    /// The elements.
    pub closed spec fn elems(&self) -> Seq<S::Elem> {
        self.data.elems()
    }

    /// The slice with the given representation.
    pub fn from_data(data: S) -> (r: Self)
        ensures
            r.elems() == data.elems(),
    {
        BufferBase { data }
    }

    /// The number of elements.
    pub fn len(&self) -> (r: usize)
        ensures
            r == self.elems().len(),
    {
        self.data.len()
    }

    /// The kind of the elements.
    pub fn scalar_type(&self) -> (r: ScalarType)
        ensures
            r == S::Elem::spec_scalar_type(),
    {
        S::Elem::scalar_type()
    }
}

impl<S: Data> BufferBase<S> {
    /// The element at `index`.
    pub fn index(&self, index: usize) -> (r: &S::Elem)
        requires
            index < self.elems().len(),
        ensures
            *r == self.elems()[index as int],
    {
        self.data.index(index)
    }
}

} // verus!
