//! Coordinate arrays.

use crate::geometry::Dim3;
use crate::geometry::Dim2;
use crate::geometry::In2D;
use crate::geometry::In3D;
use crate::geometry::Point2;
use crate::geometry::Point3;
use crate::io::snapshot::fdt;
use std::ops::Index;
use vstd::prelude::*;

verus! {

/// The coordinates along one dimension, in a one-dimensional array of
/// `ndarray`.
///
/// The verifier does not look into the array: what it knows of it comes
/// from [`coord_values`] and from what the functions below are taken to
/// do.
#[verifier::external_body]
#[derive(Debug)]
pub struct CoordArray {
    values: ndarray::Array1<fdt>,
}

/// The values that a coordinate array holds, in the order of their
/// indices.
pub uninterp spec fn coord_values(array: CoordArray) -> Seq<u32>;

/// Calls `ndarray::ArrayBase::from_vec`, which makes a one-dimensional
/// array of the elements of a vector: taken to hold the vector's values in
/// the vector's order.
#[verifier::external_body]
fn array_from_vec(values: Vec<fdt>) -> (array: CoordArray)
    ensures
        coord_values(array) == values@,
{
    CoordArray { values: ndarray::Array1::from_vec(values) }
}

/// Calls `ndarray::ArrayBase::len`, which returns the total number of
/// elements of an array: taken to be the number of values.
#[verifier::external_body]
fn array_len(array: &CoordArray) -> (len: usize)
    ensures
        len == coord_values(*array).len(),
{
    array.values.len()
}

/// Calls `ndarray::ArrayBase::index`, which accesses the element at an
/// index, and panics where the index is out of bounds: taken to give the
/// value at that index, for an index below the number of values.
#[verifier::external_body]
fn array_value(array: &CoordArray, idx: usize) -> (value: fdt)
    requires
        idx < coord_values(*array).len(),
    ensures
        value == coord_values(*array)[idx as int],
{
    array.values[idx]
}

/// Calls `ndarray::ArrayBase::clone`, which gives an array with
/// equivalent data: taken to hold the same values.
#[verifier::external_body]
fn array_clone(array: &CoordArray) -> (copy: CoordArray)
    ensures
        coord_values(copy) == coord_values(*array),
{
    CoordArray { values: array.values.clone() }
}

impl CoordArray {
    /// Makes an array of the given values, in their order.
    pub fn from_vec(values: Vec<fdt>) -> (array: Self)
        ensures
            coord_values(array) == values@,
    {
        array_from_vec(values)
    }

    /// The number of values.
    pub fn len(&self) -> (len: usize)
        ensures
            len == coord_values(*self).len(),
    {
        array_len(self)
    }

    /// The value at the given index, where the array reaches that far.
    pub fn get(&self, idx: usize) -> (value: Option<fdt>)
        ensures
            value == if idx < coord_values(*self).len() {
                Some(coord_values(*self)[idx as int])
            } else {
                None
            },
    {
        if idx < array_len(self) {
            Some(array_value(self, idx))
        } else {
            None
        }
    }

    /// The values, in the order of their indices.
    pub fn to_vec(&self) -> (values: Vec<fdt>)
        ensures
            values@ == coord_values(*self),
    {
        let len = array_len(self);
        let mut values: Vec<fdt> = Vec::new();
        for idx in 0..len
            invariant
                len == coord_values(*self).len(),
                values@ == coord_values(*self).take(idx as int),
        {
            values.push(array_value(self, idx));
            assert(coord_values(*self).take(idx as int).push(coord_values(*self)[idx as int])
                =~= coord_values(*self).take(idx + 1));
        }
        assert(coord_values(*self).take(len as int) =~= coord_values(*self));
        values
    }
}

impl Clone for CoordArray {
    fn clone(&self) -> (copy: Self)
        ensures
            coord_values(copy) == coord_values(*self),
    {
        array_clone(self)
    }
}

/// 3D spatial coordinate arrays.
#[derive(Debug, Clone)]
pub struct Coords3(In3D<CoordArray>);

impl View for Coords3 {
    type V = Seq<Seq<u32>>;

    closed spec fn view(&self) -> Seq<Seq<u32>> {
        self.0@.map_values(|array: CoordArray| coord_values(array))
    }
}

impl Coords3 {
    /// Creates a new 3D set of coordinates given the component 1D coordinates.
    pub fn new(x: CoordArray, y: CoordArray, z: CoordArray) -> (coords: Self)
        ensures
            coords@ == seq![coord_values(x), coord_values(y), coord_values(z)],
    {
        let coords = Coords3(In3D::new(x, y, z));
        assert(coords@ =~= seq![coord_values(x), coord_values(y), coord_values(z)]);
        coords
    }

    /// There are coordinates along three dimensions.
    pub broadcast proof fn lemma_dimensions(self)
        ensures
            #[trigger] self@.len() == 3,
    {
        self.0.lemma_three_components();
    }

    /// Whether the coordinates along each dimension reach the given index.
    pub open spec fn has_point(self, idx: int) -> bool {
        0 <= idx < self@[0].len() && idx < self@[1].len() && idx < self@[2].len()
    }

    /// Creates a 3D point from the coordinates at the given index.
    pub fn point(&self, idx: usize) -> (point: Point3<fdt>)
        requires
            self.has_point(idx as int),
        ensures
            point@ == seq![self@[0][idx as int], self@[1][idx as int], self@[2][idx as int]],
    {
        proof {
            self.0.lemma_three_components();
        }
        Point3::new(
            self.0[Dim3::X].get(idx).unwrap(),
            self.0[Dim3::Y].get(idx).unwrap(),
            self.0[Dim3::Z].get(idx).unwrap(),
        )
    }
}

impl vstd::std_specs::core::IndexSpecImpl<Dim3> for Coords3 {
    open spec fn index_req(&self, index: &Dim3) -> bool {
        true
    }
}

impl Index<Dim3> for Coords3 {
    type Output = CoordArray;

    fn index(&self, dim: Dim3) -> (array: &CoordArray)
        ensures
            coord_values(*array) == self@[dim.spec_num()],
    {
        proof {
            self.0.lemma_three_components();
        }
        self.0.index(dim)
    }
}

/// References to 3D spatial coordinate arrays.
#[derive(Debug, Clone)]
pub struct CoordRefs3<'a>(In3D<&'a CoordArray>);

impl<'a> View for CoordRefs3<'a> {
    type V = Seq<Seq<u32>>;

    closed spec fn view(&self) -> Seq<Seq<u32>> {
        self.0@.map_values(|array: &CoordArray| coord_values(*array))
    }
}

impl<'a> CoordRefs3<'a> {
    /// Creates a new 3D set of coordinate references given references to the component arrays.
    pub fn new(x: &'a CoordArray, y: &'a CoordArray, z: &'a CoordArray) -> (coords: Self)
        ensures
            coords@ == seq![coord_values(*x), coord_values(*y), coord_values(*z)],
    {
        let coords = CoordRefs3(In3D::new(x, y, z));
        assert(coords@ =~= seq![coord_values(*x), coord_values(*y), coord_values(*z)]);
        coords
    }

    /// Clones the coordinate references to produce a set of owned coordinate arrays.
    pub fn into_owned(self) -> (coords: Coords3)
        ensures
            coords@ == self@,
    {
        proof {
            self.0.lemma_three_components();
        }
        let coords = Coords3::new(
            self.0[Dim3::X].clone(),
            self.0[Dim3::Y].clone(),
            self.0[Dim3::Z].clone(),
        );
        assert(coords@ =~= self@);
        coords
    }

    /// Whether the coordinates along each dimension reach the given index.
    pub open spec fn has_point(self, idx: int) -> bool {
        0 <= idx < self@[0].len() && idx < self@[1].len() && idx < self@[2].len()
    }

    /// Creates a 3D point from the coordinates at the given index.
    pub fn point(&self, idx: usize) -> (point: Point3<fdt>)
        requires
            self.has_point(idx as int),
        ensures
            point@ == seq![self@[0][idx as int], self@[1][idx as int], self@[2][idx as int]],
    {
        proof {
            self.0.lemma_three_components();
        }
        Point3::new(
            self.0[Dim3::X].get(idx).unwrap(),
            self.0[Dim3::Y].get(idx).unwrap(),
            self.0[Dim3::Z].get(idx).unwrap(),
        )
    }
}

impl<'a> vstd::std_specs::core::IndexSpecImpl<Dim3> for CoordRefs3<'a> {
    open spec fn index_req(&self, index: &Dim3) -> bool {
        true
    }
}

impl<'a> Index<Dim3> for CoordRefs3<'a> {
    type Output = &'a CoordArray;

    fn index(&self, dim: Dim3) -> (array: &&'a CoordArray)
        ensures
            coord_values(**array) == self@[dim.spec_num()],
    {
        proof {
            self.0.lemma_three_components();
        }
        self.0.index(dim)
    }
}

/// 2D spatial coordinate arrays.
#[derive(Debug, Clone)]
pub struct Coords2(In2D<CoordArray>);

impl View for Coords2 {
    type V = Seq<Seq<u32>>;

    closed spec fn view(&self) -> Seq<Seq<u32>> {
        self.0@.map_values(|array: CoordArray| coord_values(array))
    }
}

impl Coords2 {
    /// Creates a new 2D set of coordinates given the component 1D coordinates.
    pub fn new(x: CoordArray, y: CoordArray) -> (coords: Self)
        ensures
            coords@ == seq![coord_values(x), coord_values(y)],
    {
        let coords = Coords2(In2D::new(x, y));
        assert(coords@ =~= seq![coord_values(x), coord_values(y)]);
        coords
    }

    /// There are coordinates along two dimensions.
    pub broadcast proof fn lemma_dimensions(self)
        ensures
            #[trigger] self@.len() == 2,
    {
        self.0.lemma_two_components();
    }

    /// Whether the coordinates along each dimension reach the given index.
    pub open spec fn has_point(self, idx: int) -> bool {
        0 <= idx < self@[0].len() && idx < self@[1].len()
    }

    /// Creates a 2D point from the coordinates at the given index.
    pub fn point(&self, idx: usize) -> (point: Point2<fdt>)
        requires
            self.has_point(idx as int),
        ensures
            point@ == seq![self@[0][idx as int], self@[1][idx as int]],
    {
        proof {
            self.0.lemma_two_components();
        }
        Point2::new(
            self.0[Dim2::X].get(idx).unwrap(),
            self.0[Dim2::Y].get(idx).unwrap(),
        )
    }
}

impl vstd::std_specs::core::IndexSpecImpl<Dim2> for Coords2 {
    open spec fn index_req(&self, index: &Dim2) -> bool {
        true
    }
}

impl Index<Dim2> for Coords2 {
    type Output = CoordArray;

    fn index(&self, dim: Dim2) -> (array: &CoordArray)
        ensures
            coord_values(*array) == self@[dim.spec_num()],
    {
        proof {
            self.0.lemma_two_components();
        }
        self.0.index(dim)
    }
}

/// References to 2D spatial coordinate arrays.
#[derive(Debug, Clone)]
pub struct CoordRefs2<'a>(In2D<&'a CoordArray>);

impl<'a> View for CoordRefs2<'a> {
    type V = Seq<Seq<u32>>;

    closed spec fn view(&self) -> Seq<Seq<u32>> {
        self.0@.map_values(|array: &CoordArray| coord_values(*array))
    }
}

impl<'a> CoordRefs2<'a> {
    /// Creates a new 2D set of coordinate references given references to the component arrays.
    pub fn new(x: &'a CoordArray, y: &'a CoordArray) -> (coords: Self)
        ensures
            coords@ == seq![coord_values(*x), coord_values(*y)],
    {
        let coords = CoordRefs2(In2D::new(x, y));
        assert(coords@ =~= seq![coord_values(*x), coord_values(*y)]);
        coords
    }

    /// Clones the coordinate references to produce a set of owned coordinate arrays.
    pub fn into_owned(self) -> (coords: Coords2)
        ensures
            coords@ == self@,
    {
        proof {
            self.0.lemma_two_components();
        }
        let coords = Coords2::new(
            self.0[Dim2::X].clone(),
            self.0[Dim2::Y].clone(),
        );
        assert(coords@ =~= self@);
        coords
    }

    /// Whether the coordinates along each dimension reach the given index.
    pub open spec fn has_point(self, idx: int) -> bool {
        0 <= idx < self@[0].len() && idx < self@[1].len()
    }

    /// Creates a 2D point from the coordinates at the given index.
    pub fn point(&self, idx: usize) -> (point: Point2<fdt>)
        requires
            self.has_point(idx as int),
        ensures
            point@ == seq![self@[0][idx as int], self@[1][idx as int]],
    {
        proof {
            self.0.lemma_two_components();
        }
        Point2::new(
            self.0[Dim2::X].get(idx).unwrap(),
            self.0[Dim2::Y].get(idx).unwrap(),
        )
    }
}

impl<'a> vstd::std_specs::core::IndexSpecImpl<Dim2> for CoordRefs2<'a> {
    open spec fn index_req(&self, index: &Dim2) -> bool {
        true
    }
}

impl<'a> Index<Dim2> for CoordRefs2<'a> {
    type Output = &'a CoordArray;

    fn index(&self, dim: Dim2) -> (array: &&'a CoordArray)
        ensures
            coord_values(**array) == self@[dim.spec_num()],
    {
        proof {
            self.0.lemma_two_components();
        }
        self.0.index(dim)
    }
}

} // verus!
