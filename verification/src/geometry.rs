//! Geometric utility objects.
//!
//! The containers here hold their components without interpreting them:
//! a component may be an index, a coordinate array or the bit pattern of a
//! real number.

pub mod coords;

use crate::num::BoundedInteger;
use std::ops::Index;
use std::ops::IndexMut;
use vstd::prelude::*;

verus! {

/// Denotes the x-, y- or z-dimension.
#[derive(Debug, Copy, Clone, PartialEq, Eq, Structural)]
pub enum Dim3 {
    X,
    Y,
    Z,
}

impl Dim3 {
    /// Position of the dimension among the three components: 0, 1 or 2.
    pub open spec fn spec_num(self) -> int {
        match self {
            Dim3::X => 0,
            Dim3::Y => 1,
            Dim3::Z => 2,
        }
    }

    /// Position of the dimension among the three components.
    pub fn num(self) -> (n: usize)
        ensures
            n == self.spec_num(),
    {
        match self {
            Dim3::X => 0,
            Dim3::Y => 1,
            Dim3::Z => 2,
        }
    }

    /// Creates an array for iterating over the x-, y- and z-dimensions.
    pub fn slice() -> (dims: [Self; 3])
        ensures
            dims@ == seq![Dim3::X, Dim3::Y, Dim3::Z],
    {
        let dims = [Dim3::X, Dim3::Y, Dim3::Z];
        assert(dims@ =~= seq![Dim3::X, Dim3::Y, Dim3::Z]);
        dims
    }

    /// Creates an array for iterating over the x- and y-dimensions.
    pub fn slice_xy() -> (dims: [Self; 2])
        ensures
            dims@ == seq![Dim3::X, Dim3::Y],
    {
        let dims = [Dim3::X, Dim3::Y];
        assert(dims@ =~= seq![Dim3::X, Dim3::Y]);
        dims
    }

    /// The two dimensions other than `dim`, in increasing order.
    pub open spec fn others(dim: Self) -> Seq<Self> {
        match dim {
            Dim3::X => seq![Dim3::Y, Dim3::Z],
            Dim3::Y => seq![Dim3::X, Dim3::Z],
            Dim3::Z => seq![Dim3::X, Dim3::Y],
        }
    }

    /// Creates an array for iterating over all three dimensions except the given one.
    pub fn slice_except(dim: Self) -> (dims: [Self; 2])
        ensures
            dims@ == Self::others(dim),
            dims@[0] != dim,
            dims@[1] != dim,
            dims@[0].spec_num() < dims@[1].spec_num(),
    {
        let dims = match dim {
            Dim3::X => [Dim3::Y, Dim3::Z],
            Dim3::Y => [Dim3::X, Dim3::Z],
            Dim3::Z => [Dim3::X, Dim3::Y],
        };
        assert(dims@ =~= Self::others(dim));
        dims
    }
}

/// Denotes the x- or y-dimension.
#[derive(Debug, Copy, Clone, PartialEq, Eq, Structural)]
pub enum Dim2 {
    X,
    Y,
}

impl Dim2 {
    /// Position of the dimension among the two components: 0 or 1.
    pub open spec fn spec_num(self) -> int {
        match self {
            Dim2::X => 0,
            Dim2::Y => 1,
        }
    }

    /// Position of the dimension among the two components.
    pub fn num(self) -> (n: usize)
        ensures
            n == self.spec_num(),
    {
        match self {
            Dim2::X => 0,
            Dim2::Y => 1,
        }
    }

    /// Creates an array for iterating over the x- and y-dimensions.
    pub fn slice() -> (dims: [Self; 2])
        ensures
            dims@ == seq![Dim2::X, Dim2::Y],
    {
        let dims = [Dim2::X, Dim2::Y];
        assert(dims@ =~= seq![Dim2::X, Dim2::Y]);
        dims
    }
}

/// Represents any quantity with three dimensional components.
///
/// Its view is the sequence of the x-, y- and z-component.
#[derive(Debug, Clone, PartialEq)]
pub struct In3D<T>([T; 3]);

impl<T> View for In3D<T> {
    type V = Seq<T>;

    closed spec fn view(&self) -> Seq<T> {
        self.0@
    }
}

impl<T> In3D<T> {
    /// Creates a new 3D quantity given the three components.
    pub fn new(x: T, y: T, z: T) -> (r: Self)
        ensures
            r@ == seq![x, y, z],
    {
        let r = In3D([x, y, z]);
        assert(r@ =~= seq![x, y, z]);
        r
    }

    /// Creates a new 3D quantity with the given value copied into all components.
    pub fn same(a: T) -> (r: Self) where T: Copy
        ensures
            r@ == seq![a, a, a],
    {
        Self::new(a, a, a)
    }

    /// Creates a new 3D quantity with the given value cloned into all components.
    pub fn same_cloned(a: T) -> (r: Self) where T: Clone
        ensures
            r@.len() == 3,
            cloned(a, r@[0]),
            cloned(a, r@[1]),
            r@[2] == a,
    {
        let x = a.clone();
        let y = a.clone();
        Self::new(x, y, a)
    }

    /// A 3D quantity always has three components.
    pub broadcast proof fn lemma_three_components(self)
        ensures
            #[trigger] self@.len() == 3,
    {
    }
}

impl<T> vstd::std_specs::core::IndexSpecImpl<Dim3> for In3D<T> {
    open spec fn index_req(&self, index: &Dim3) -> bool {
        true
    }
}

impl<T> Index<Dim3> for In3D<T> {
    type Output = T;

    fn index(&self, dim: Dim3) -> (component: &T)
        ensures
            *component == self@[dim.spec_num()],
    {
        &self.0[dim.num()]
    }
}

impl<T> IndexMut<Dim3> for In3D<T> {
    fn index_mut(&mut self, dim: Dim3) -> (component: &mut T)
        ensures
            *component == old(self)@[dim.spec_num()],
            final(self)@ == old(self)@.update(dim.spec_num(), *final(component)),
    {
        &mut self.0[dim.num()]
    }
}

/// Represents any quantity with two dimensional components.
///
/// Its view is the sequence of the x- and y-component.
#[derive(Debug, Clone, PartialEq)]
pub struct In2D<T>([T; 2]);

impl<T> View for In2D<T> {
    type V = Seq<T>;

    closed spec fn view(&self) -> Seq<T> {
        self.0@
    }
}

impl<T> In2D<T> {
    /// Creates a new 2D quantity given the two components.
    pub fn new(x: T, y: T) -> (r: Self)
        ensures
            r@ == seq![x, y],
    {
        let r = In2D([x, y]);
        assert(r@ =~= seq![x, y]);
        r
    }

    /// Creates a new 2D quantity with the given value copied into both components.
    pub fn same(a: T) -> (r: Self) where T: Copy
        ensures
            r@ == seq![a, a],
    {
        Self::new(a, a)
    }

    /// A 2D quantity always has two components.
    pub broadcast proof fn lemma_two_components(self)
        ensures
            #[trigger] self@.len() == 2,
    {
    }
}

impl<T> vstd::std_specs::core::IndexSpecImpl<Dim2> for In2D<T> {
    open spec fn index_req(&self, index: &Dim2) -> bool {
        true
    }
}

impl<T> Index<Dim2> for In2D<T> {
    type Output = T;

    fn index(&self, dim: Dim2) -> (component: &T)
        ensures
            *component == self@[dim.spec_num()],
    {
        &self.0[dim.num()]
    }
}

impl<T> IndexMut<Dim2> for In2D<T> {
    fn index_mut(&mut self, dim: Dim2) -> (component: &mut T)
        ensures
            *component == old(self)@[dim.spec_num()],
            final(self)@ == old(self)@.update(dim.spec_num(), *final(component)),
    {
        &mut self.0[dim.num()]
    }
}

/// A 3D vector.
///
/// Its view is the sequence of its components.
#[derive(Debug, Clone, PartialEq)]
pub struct Vec3<F>(In3D<F>);

impl<F> View for Vec3<F> {
    type V = Seq<F>;

    closed spec fn view(&self) -> Seq<F> {
        self.0@
    }
}

impl<F> Vec3<F> {
    /// Creates a new value given the 3 components.
    pub fn new(x: F, y: F, z: F) -> (r: Self)
        ensures
            r@ == seq![x, y, z],
    {
        Vec3(In3D::new(x, y, z))
    }

    /// Constructs a new point from the vector components.
    pub fn to_point3(&self) -> (r: Point3<F>) where F: Copy
        ensures
            r@ == self@,
    {
        proof {
            self.lemma_components();
        }
        let r = Point3::new(self[Dim3::X], self[Dim3::Y], self[Dim3::Z]);
        assert(r@ =~= self@);
        r
    }

    /// The number of components is fixed.
    pub broadcast proof fn lemma_components(self)
        ensures
            #[trigger] self@.len() == 3,
    {
        self.0.lemma_three_components();
    }
}

impl<F> vstd::std_specs::core::IndexSpecImpl<Dim3> for Vec3<F> {
    open spec fn index_req(&self, index: &Dim3) -> bool {
        true
    }
}

impl<F> Index<Dim3> for Vec3<F> {
    type Output = F;

    fn index(&self, dim: Dim3) -> (component: &F)
        ensures
            *component == self@[dim.spec_num()],
    {
        self.0.index(dim)
    }
}

impl<F> IndexMut<Dim3> for Vec3<F> {
    fn index_mut(&mut self, dim: Dim3) -> (component: &mut F)
        ensures
            *component == old(self)@[dim.spec_num()],
            final(self)@ == old(self)@.update(dim.spec_num(), *final(component)),
    {
        self.0.index_mut(dim)
    }
}

/// A 2D vector.
///
/// Its view is the sequence of its components.
#[derive(Debug, Clone, PartialEq)]
pub struct Vec2<F>(In2D<F>);

impl<F> View for Vec2<F> {
    type V = Seq<F>;

    closed spec fn view(&self) -> Seq<F> {
        self.0@
    }
}

impl<F> Vec2<F> {
    /// Creates a new value given the 2 components.
    pub fn new(x: F, y: F) -> (r: Self)
        ensures
            r@ == seq![x, y],
    {
        Vec2(In2D::new(x, y))
    }

    /// Constructs a new point from the vector components.
    pub fn to_point2(&self) -> (r: Point2<F>) where F: Copy
        ensures
            r@ == self@,
    {
        proof {
            self.lemma_components();
        }
        let r = Point2::new(self[Dim2::X], self[Dim2::Y]);
        assert(r@ =~= self@);
        r
    }

    /// The number of components is fixed.
    pub broadcast proof fn lemma_components(self)
        ensures
            #[trigger] self@.len() == 2,
    {
        self.0.lemma_two_components();
    }
}

impl<F> vstd::std_specs::core::IndexSpecImpl<Dim2> for Vec2<F> {
    open spec fn index_req(&self, index: &Dim2) -> bool {
        true
    }
}

impl<F> Index<Dim2> for Vec2<F> {
    type Output = F;

    fn index(&self, dim: Dim2) -> (component: &F)
        ensures
            *component == self@[dim.spec_num()],
    {
        self.0.index(dim)
    }
}

impl<F> IndexMut<Dim2> for Vec2<F> {
    fn index_mut(&mut self, dim: Dim2) -> (component: &mut F)
        ensures
            *component == old(self)@[dim.spec_num()],
            final(self)@ == old(self)@.update(dim.spec_num(), *final(component)),
    {
        self.0.index_mut(dim)
    }
}

/// A 3D spatial coordinate.
///
/// Its view is the sequence of its components.
#[derive(Debug, Clone, PartialEq)]
pub struct Point3<F>(In3D<F>);

impl<F> View for Point3<F> {
    type V = Seq<F>;

    closed spec fn view(&self) -> Seq<F> {
        self.0@
    }
}

impl<F> Point3<F> {
    /// Creates a new value given the 3 components.
    pub fn new(x: F, y: F, z: F) -> (r: Self)
        ensures
            r@ == seq![x, y, z],
    {
        Point3(In3D::new(x, y, z))
    }

    /// Constructs a new vector from the point components.
    pub fn to_vec3(&self) -> (r: Vec3<F>) where F: Copy
        ensures
            r@ == self@,
    {
        proof {
            self.lemma_components();
        }
        let r = Vec3::new(self[Dim3::X], self[Dim3::Y], self[Dim3::Z]);
        assert(r@ =~= self@);
        r
    }

    /// The number of components is fixed.
    pub broadcast proof fn lemma_components(self)
        ensures
            #[trigger] self@.len() == 3,
    {
        self.0.lemma_three_components();
    }
}

impl<F> vstd::std_specs::core::IndexSpecImpl<Dim3> for Point3<F> {
    open spec fn index_req(&self, index: &Dim3) -> bool {
        true
    }
}

impl<F> Index<Dim3> for Point3<F> {
    type Output = F;

    fn index(&self, dim: Dim3) -> (component: &F)
        ensures
            *component == self@[dim.spec_num()],
    {
        self.0.index(dim)
    }
}

impl<F> IndexMut<Dim3> for Point3<F> {
    fn index_mut(&mut self, dim: Dim3) -> (component: &mut F)
        ensures
            *component == old(self)@[dim.spec_num()],
            final(self)@ == old(self)@.update(dim.spec_num(), *final(component)),
    {
        self.0.index_mut(dim)
    }
}

/// A 2D spatial coordinate.
///
/// Its view is the sequence of its components.
#[derive(Debug, Clone, PartialEq)]
pub struct Point2<F>(In2D<F>);

impl<F> View for Point2<F> {
    type V = Seq<F>;

    closed spec fn view(&self) -> Seq<F> {
        self.0@
    }
}

impl<F> Point2<F> {
    /// Creates a new value given the 2 components.
    pub fn new(x: F, y: F) -> (r: Self)
        ensures
            r@ == seq![x, y],
    {
        Point2(In2D::new(x, y))
    }

    /// Constructs a new vector from the point components.
    pub fn to_vec2(&self) -> (r: Vec2<F>) where F: Copy
        ensures
            r@ == self@,
    {
        proof {
            self.lemma_components();
        }
        let r = Vec2::new(self[Dim2::X], self[Dim2::Y]);
        assert(r@ =~= self@);
        r
    }

    /// The number of components is fixed.
    pub broadcast proof fn lemma_components(self)
        ensures
            #[trigger] self@.len() == 2,
    {
        self.0.lemma_two_components();
    }
}

impl<F> vstd::std_specs::core::IndexSpecImpl<Dim2> for Point2<F> {
    open spec fn index_req(&self, index: &Dim2) -> bool {
        true
    }
}

impl<F> Index<Dim2> for Point2<F> {
    type Output = F;

    fn index(&self, dim: Dim2) -> (component: &F)
        ensures
            *component == self@[dim.spec_num()],
    {
        self.0.index(dim)
    }
}

impl<F> IndexMut<Dim2> for Point2<F> {
    fn index_mut(&mut self, dim: Dim2) -> (component: &mut F)
        ensures
            *component == old(self)@[dim.spec_num()],
            final(self)@ == old(self)@.update(dim.spec_num(), *final(component)),
    {
        self.0.index_mut(dim)
    }
}

/// A 3D index.
///
/// Its view is the sequence of its components.
#[derive(Debug, Clone, PartialEq)]
pub struct Idx3<I>(In3D<I>);

impl<I> View for Idx3<I> {
    type V = Seq<I>;

    closed spec fn view(&self) -> Seq<I> {
        self.0@
    }
}

impl<I> Idx3<I> {
    /// Creates a new value given the 3 components.
    pub fn new(i: I, j: I, k: I) -> (r: Self)
        ensures
            r@ == seq![i, j, k],
    {
        Idx3(In3D::new(i, j, k))
    }

    /// The number of components is fixed.
    pub broadcast proof fn lemma_components(self)
        ensures
            #[trigger] self@.len() == 3,
    {
        self.0.lemma_three_components();
    }
}

impl<I: BoundedInteger> Idx3<I> {
    /// Whether each component of an index lies in the range of the
    /// integers of this index.
    pub open spec fn can_hold<U: BoundedInteger>(other: Seq<U>) -> bool {
        forall|d: int| 0 <= d < other.len() ==> I::least() <= (#[trigger] other[d]).number() <= I::greatest()
    }

    /// Creates a new 3D index from the given index, which may have a different component type.
    pub fn from<U: BoundedInteger>(other: &Idx3<U>) -> (idx: Self)
        requires
            Self::can_hold(other@),
        ensures
            idx@.len() == 3,
            forall|d: int| 0 <= d < 3 ==> (#[trigger] idx@[d]).number() == other@[d].number(),
    {
        proof {
            other.lemma_components();
        }
        Idx3::new(I::from_number(other[Dim3::X].to_number()), I::from_number(other[Dim3::Y].to_number()), I::from_number(other[Dim3::Z].to_number()))
    }
}

impl<I> vstd::std_specs::core::IndexSpecImpl<Dim3> for Idx3<I> {
    open spec fn index_req(&self, index: &Dim3) -> bool {
        true
    }
}

impl<I> Index<Dim3> for Idx3<I> {
    type Output = I;

    fn index(&self, dim: Dim3) -> (component: &I)
        ensures
            *component == self@[dim.spec_num()],
    {
        self.0.index(dim)
    }
}

impl<I> IndexMut<Dim3> for Idx3<I> {
    fn index_mut(&mut self, dim: Dim3) -> (component: &mut I)
        ensures
            *component == old(self)@[dim.spec_num()],
            final(self)@ == old(self)@.update(dim.spec_num(), *final(component)),
    {
        self.0.index_mut(dim)
    }
}

/// A 2D index.
///
/// Its view is the sequence of its components.
#[derive(Debug, Clone, PartialEq)]
pub struct Idx2<I>(In2D<I>);

impl<I> View for Idx2<I> {
    type V = Seq<I>;

    closed spec fn view(&self) -> Seq<I> {
        self.0@
    }
}

impl<I> Idx2<I> {
    /// Creates a new value given the 2 components.
    pub fn new(i: I, j: I) -> (r: Self)
        ensures
            r@ == seq![i, j],
    {
        Idx2(In2D::new(i, j))
    }

    /// The number of components is fixed.
    pub broadcast proof fn lemma_components(self)
        ensures
            #[trigger] self@.len() == 2,
    {
        self.0.lemma_two_components();
    }
}

impl<I: BoundedInteger> Idx2<I> {
    /// Whether each component of an index lies in the range of the
    /// integers of this index.
    pub open spec fn can_hold<U: BoundedInteger>(other: Seq<U>) -> bool {
        forall|d: int| 0 <= d < other.len() ==> I::least() <= (#[trigger] other[d]).number() <= I::greatest()
    }

    /// Creates a new 2D index from the given index, which may have a different component type.
    pub fn from<U: BoundedInteger>(other: &Idx2<U>) -> (idx: Self)
        requires
            Self::can_hold(other@),
        ensures
            idx@.len() == 2,
            forall|d: int| 0 <= d < 2 ==> (#[trigger] idx@[d]).number() == other@[d].number(),
    {
        proof {
            other.lemma_components();
        }
        Idx2::new(I::from_number(other[Dim2::X].to_number()), I::from_number(other[Dim2::Y].to_number()))
    }
}

impl<I> vstd::std_specs::core::IndexSpecImpl<Dim2> for Idx2<I> {
    open spec fn index_req(&self, index: &Dim2) -> bool {
        true
    }
}

impl<I> Index<Dim2> for Idx2<I> {
    type Output = I;

    fn index(&self, dim: Dim2) -> (component: &I)
        ensures
            *component == self@[dim.spec_num()],
    {
        self.0.index(dim)
    }
}

impl<I> IndexMut<Dim2> for Idx2<I> {
    fn index_mut(&mut self, dim: Dim2) -> (component: &mut I)
        ensures
            *component == old(self)@[dim.spec_num()],
            final(self)@ == old(self)@.update(dim.spec_num(), *final(component)),
    {
        self.0.index_mut(dim)
    }
}

/// The bit of the sign in the bit pattern of a binary64 value.
pub const SIGN_BIT_64: u64 = 0x8000_0000_0000_0000;

/// The bit of the sign in the bit pattern of a binary32 value.
pub const SIGN_BIT_32: u32 = 0x8000_0000;

/// Operations on the bit patterns of the components that are exact
/// operations on the numbers: they touch the sign alone.
impl Vec3<u64> {
    /// Creates a new zero vector.
    pub fn zero() -> (vector: Self)
        ensures
            vector@ == seq![0u64, 0u64, 0u64],
    {
        Vec3::new(0, 0, 0)
    }

    /// Constructs a new vector from the absolute values of the vector
    /// components: the components with their signs cleared.
    pub fn abs(&self) -> (vector: Self)
        ensures
            vector@ == seq![self@[0] & !SIGN_BIT_64, self@[1] & !SIGN_BIT_64, self@[2] & !SIGN_BIT_64],
    {
        proof {
            self.lemma_components();
        }
        Vec3::new(self[Dim3::X] & !SIGN_BIT_64, self[Dim3::Y] & !SIGN_BIT_64, self[Dim3::Z] & !SIGN_BIT_64)
    }

    /// Whether the vector is the zero vector: each component is zero, with
    /// either sign.
    pub fn is_zero(&self) -> (zero: bool)
        ensures
            zero == (forall|d: int|
                0 <= d < 3 ==> self@[d] == 0 || #[trigger] self@[d] == SIGN_BIT_64),
    {
        proof {
            self.lemma_components();
        }
        (self[Dim3::X] == 0 || self[Dim3::X] == SIGN_BIT_64) && (self[Dim3::Y] == 0 || self[Dim3::Y] == SIGN_BIT_64) && (self[Dim3::Z] == 0 || self[Dim3::Z] == SIGN_BIT_64)
    }

    /// Reverses the direction of the vector: the sign of each component is
    /// turned around.
    pub fn reverse(&mut self)
        ensures
            final(self)@ == seq![old(self)@[0] ^ SIGN_BIT_64, old(self)@[1] ^ SIGN_BIT_64, old(self)@[2] ^ SIGN_BIT_64],
    {
        proof {
            self.lemma_components();
        }
        let reversed = Vec3::new(self[Dim3::X] ^ SIGN_BIT_64, self[Dim3::Y] ^ SIGN_BIT_64, self[Dim3::Z] ^ SIGN_BIT_64);
        *self = reversed;
    }
}

/// Operations on the bit patterns of the components that are exact
/// operations on the numbers: they touch the sign alone.
impl Vec2<u64> {
    /// Creates a new zero vector.
    pub fn zero() -> (vector: Self)
        ensures
            vector@ == seq![0u64, 0u64],
    {
        Vec2::new(0, 0)
    }

    /// Constructs a new vector from the absolute values of the vector
    /// components: the components with their signs cleared.
    pub fn abs(&self) -> (vector: Self)
        ensures
            vector@ == seq![self@[0] & !SIGN_BIT_64, self@[1] & !SIGN_BIT_64],
    {
        proof {
            self.lemma_components();
        }
        Vec2::new(self[Dim2::X] & !SIGN_BIT_64, self[Dim2::Y] & !SIGN_BIT_64)
    }

    /// Whether the vector is the zero vector: each component is zero, with
    /// either sign.
    pub fn is_zero(&self) -> (zero: bool)
        ensures
            zero == (forall|d: int|
                0 <= d < 2 ==> self@[d] == 0 || #[trigger] self@[d] == SIGN_BIT_64),
    {
        proof {
            self.lemma_components();
        }
        (self[Dim2::X] == 0 || self[Dim2::X] == SIGN_BIT_64) && (self[Dim2::Y] == 0 || self[Dim2::Y] == SIGN_BIT_64)
    }

    /// Reverses the direction of the vector: the sign of each component is
    /// turned around.
    pub fn reverse(&mut self)
        ensures
            final(self)@ == seq![old(self)@[0] ^ SIGN_BIT_64, old(self)@[1] ^ SIGN_BIT_64],
    {
        proof {
            self.lemma_components();
        }
        let reversed = Vec2::new(self[Dim2::X] ^ SIGN_BIT_64, self[Dim2::Y] ^ SIGN_BIT_64);
        *self = reversed;
    }
}

impl Point3<u64> {
    /// Creates a new point with all components set to zero.
    pub fn origin() -> (point: Self)
        ensures
            point@ == seq![0u64, 0u64, 0u64],
    {
        Point3::new(0, 0, 0)
    }
}

impl Point2<u64> {
    /// Creates a new point with all components set to zero.
    pub fn origin() -> (point: Self)
        ensures
            point@ == seq![0u64, 0u64],
    {
        Point2::new(0, 0)
    }
}

/// Operations on the bit patterns of the components that are exact
/// operations on the numbers: they touch the sign alone.
impl Vec3<u32> {
    /// Creates a new zero vector.
    pub fn zero() -> (vector: Self)
        ensures
            vector@ == seq![0u32, 0u32, 0u32],
    {
        Vec3::new(0, 0, 0)
    }

    /// Constructs a new vector from the absolute values of the vector
    /// components: the components with their signs cleared.
    pub fn abs(&self) -> (vector: Self)
        ensures
            vector@ == seq![self@[0] & !SIGN_BIT_32, self@[1] & !SIGN_BIT_32, self@[2] & !SIGN_BIT_32],
    {
        proof {
            self.lemma_components();
        }
        Vec3::new(self[Dim3::X] & !SIGN_BIT_32, self[Dim3::Y] & !SIGN_BIT_32, self[Dim3::Z] & !SIGN_BIT_32)
    }

    /// Whether the vector is the zero vector: each component is zero, with
    /// either sign.
    pub fn is_zero(&self) -> (zero: bool)
        ensures
            zero == (forall|d: int|
                0 <= d < 3 ==> self@[d] == 0 || #[trigger] self@[d] == SIGN_BIT_32),
    {
        proof {
            self.lemma_components();
        }
        (self[Dim3::X] == 0 || self[Dim3::X] == SIGN_BIT_32) && (self[Dim3::Y] == 0 || self[Dim3::Y] == SIGN_BIT_32) && (self[Dim3::Z] == 0 || self[Dim3::Z] == SIGN_BIT_32)
    }

    /// Reverses the direction of the vector: the sign of each component is
    /// turned around.
    pub fn reverse(&mut self)
        ensures
            final(self)@ == seq![old(self)@[0] ^ SIGN_BIT_32, old(self)@[1] ^ SIGN_BIT_32, old(self)@[2] ^ SIGN_BIT_32],
    {
        proof {
            self.lemma_components();
        }
        let reversed = Vec3::new(self[Dim3::X] ^ SIGN_BIT_32, self[Dim3::Y] ^ SIGN_BIT_32, self[Dim3::Z] ^ SIGN_BIT_32);
        *self = reversed;
    }
}

/// Operations on the bit patterns of the components that are exact
/// operations on the numbers: they touch the sign alone.
impl Vec2<u32> {
    /// Creates a new zero vector.
    pub fn zero() -> (vector: Self)
        ensures
            vector@ == seq![0u32, 0u32],
    {
        Vec2::new(0, 0)
    }

    /// Constructs a new vector from the absolute values of the vector
    /// components: the components with their signs cleared.
    pub fn abs(&self) -> (vector: Self)
        ensures
            vector@ == seq![self@[0] & !SIGN_BIT_32, self@[1] & !SIGN_BIT_32],
    {
        proof {
            self.lemma_components();
        }
        Vec2::new(self[Dim2::X] & !SIGN_BIT_32, self[Dim2::Y] & !SIGN_BIT_32)
    }

    /// Whether the vector is the zero vector: each component is zero, with
    /// either sign.
    pub fn is_zero(&self) -> (zero: bool)
        ensures
            zero == (forall|d: int|
                0 <= d < 2 ==> self@[d] == 0 || #[trigger] self@[d] == SIGN_BIT_32),
    {
        proof {
            self.lemma_components();
        }
        (self[Dim2::X] == 0 || self[Dim2::X] == SIGN_BIT_32) && (self[Dim2::Y] == 0 || self[Dim2::Y] == SIGN_BIT_32)
    }

    /// Reverses the direction of the vector: the sign of each component is
    /// turned around.
    pub fn reverse(&mut self)
        ensures
            final(self)@ == seq![old(self)@[0] ^ SIGN_BIT_32, old(self)@[1] ^ SIGN_BIT_32],
    {
        proof {
            self.lemma_components();
        }
        let reversed = Vec2::new(self[Dim2::X] ^ SIGN_BIT_32, self[Dim2::Y] ^ SIGN_BIT_32);
        *self = reversed;
    }
}

impl Point3<u32> {
    /// Creates a new point with all components set to zero.
    pub fn origin() -> (point: Self)
        ensures
            point@ == seq![0u32, 0u32, 0u32],
    {
        Point3::new(0, 0, 0)
    }
}

impl Point2<u32> {
    /// Creates a new point with all components set to zero.
    pub fn origin() -> (point: Self)
        ensures
            point@ == seq![0u32, 0u32],
    {
        Point2::new(0, 0)
    }
}

} // verus!
