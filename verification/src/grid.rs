//! Grids: the cells along each dimension, and the cell that holds a
//! position.
//!
//! The coordinates of a grid are real numbers. To find the cell that holds
//! a position they only have to be compared, so the library works on keys
//! that stand for them: unsigned numbers in the order of the coordinates.

use crate::geometry::Dim3;
use crate::geometry::Idx3;
use crate::geometry::In3D;
use crate::geometry::Point3;
use crate::geometry::SIGN_BIT_32;
use crate::io::snapshot::fdt;
use vstd::prelude::*;

verus! {

/// The key of the number with the given bit pattern. The keys of two
/// numbers are in the order of the numbers: a set sign bit turns the order
/// of the bit patterns around, so the patterns with the sign set are
/// inverted, and the others are put above them. Zero has one key,
/// whatever its sign.
pub open spec fn spec_ordered_key(bits: fdt) -> u32 {
    if bits == SIGN_BIT_32 {
        SIGN_BIT_32
    } else if bits & SIGN_BIT_32 != 0 {
        !bits
    } else {
        bits | SIGN_BIT_32
    }
}

/// The key of the number with the given bit pattern.
pub fn ordered_key(bits: fdt) -> (key: u32)
    ensures
        key == spec_ordered_key(bits),
{
    if bits == SIGN_BIT_32 {
        SIGN_BIT_32
    } else if bits & SIGN_BIT_32 != 0 {
        !bits
    } else {
        bits | SIGN_BIT_32
    }
}

/// Among the bit patterns of numbers that are not negative, the keys are
/// in the order of the patterns; and the key of every pattern with the
/// sign set, but for that of zero, is below them all.
pub proof fn lemma_ordered_keys(a: fdt, b: fdt)
    ensures
        a < SIGN_BIT_32 && b < SIGN_BIT_32 ==> (a < b <==> spec_ordered_key(a) < spec_ordered_key(b)),
        a > SIGN_BIT_32 && b < SIGN_BIT_32 ==> spec_ordered_key(a) < spec_ordered_key(b),
        a > SIGN_BIT_32 && b > SIGN_BIT_32 ==> (a < b <==> spec_ordered_key(a) > spec_ordered_key(b)),
        spec_ordered_key(SIGN_BIT_32) == spec_ordered_key(0),
{
    assert(a < 0x8000_0000u32 && b < 0x8000_0000u32 ==> (a < b <==> (a | 0x8000_0000u32) < (b
        | 0x8000_0000u32))) by (bit_vector);
    assert(a < 0x8000_0000u32 ==> a & 0x8000_0000u32 == 0) by (bit_vector);
    assert(b < 0x8000_0000u32 ==> b & 0x8000_0000u32 == 0) by (bit_vector);
    assert(a > 0x8000_0000u32 ==> a & 0x8000_0000u32 != 0) by (bit_vector);
    assert(b > 0x8000_0000u32 ==> b & 0x8000_0000u32 != 0) by (bit_vector);
    assert(a > 0x8000_0000u32 ==> !a < 0x8000_0000u32) by (bit_vector);
    assert(b < 0x8000_0000u32 ==> (b | 0x8000_0000u32) >= 0x8000_0000u32) by (bit_vector);
    assert(a > 0x8000_0000u32 && b > 0x8000_0000u32 ==> (a < b <==> !a > !b)) by (bit_vector);
    assert(0u32 | 0x8000_0000u32 == 0x8000_0000u32) by (bit_vector);
    assert(0u32 & 0x8000_0000u32 == 0) by (bit_vector);
}

/// Whether the keys rise from each one to the next.
pub open spec fn is_rising(keys: Seq<u32>) -> bool {
    forall|i: int, j: int| 0 <= i < j < keys.len() ==> keys[i] < keys[j]
}

/// The cell that holds a coordinate, among the cells along one dimension
/// with the given faces: the one whose lower face is at or below the
/// coordinate, and whose upper face is above it. There is no such cell
/// for a coordinate below the lowest face, or not below the highest.
pub open spec fn cell_of(faces: Seq<u32>, coordinate: u32) -> Option<int> {
    if faces.len() >= 2 && faces.first() <= coordinate < faces.last() {
        Some(
            choose|i: int|
                0 <= i < faces.len() - 1 && #[trigger] faces[i] <= coordinate < faces[i + 1],
        )
    } else {
        None
    }
}

/// Between rising faces that enclose a coordinate there is one cell that
/// holds it, and only one.
pub proof fn lemma_cell_of(faces: Seq<u32>, coordinate: u32, cell: int)
    requires
        is_rising(faces),
        0 <= cell < faces.len() - 1,
        faces[cell] <= coordinate < faces[cell + 1],
    ensures
        cell_of(faces, coordinate) == Some(cell),
{
    assert(faces.first() <= faces[cell]);
    assert(faces[cell + 1] <= faces.last());
    let found = choose|i: int|
        0 <= i < faces.len() - 1 && #[trigger] faces[i] <= coordinate < faces[i + 1];
    if found < cell {
        assert(faces[found + 1] <= faces[cell]);
    } else if found > cell {
        assert(faces[cell + 1] <= faces[found]);
    }
}

/// Finds the cell that holds a coordinate, among the cells along one
/// dimension with the given faces.
pub fn find_cell(faces: &Vec<u32>, coordinate: u32) -> (cell: Option<usize>)
    requires
        is_rising(faces@),
    ensures
        match cell {
            Some(cell) => cell_of(faces@, coordinate) == Some(cell as int) && cell + 1
                < faces@.len() && faces@[cell as int] <= coordinate < faces@[cell + 1],
            None => cell_of(faces@, coordinate) is None,
        },
{
    let number_of_faces = faces.len();
    if number_of_faces < 2 || coordinate < faces[0] || coordinate >= faces[number_of_faces - 1] {
        return None;
    }
    let mut low: usize = 0;
    let mut high: usize = number_of_faces - 1;
    while high - low > 1
        invariant
            is_rising(faces@),
            number_of_faces == faces@.len(),
            low < high < number_of_faces,
            faces@[low as int] <= coordinate < faces@[high as int],
        decreases high - low,
    {
        let middle = low + (high - low) / 2;
        if faces[middle] <= coordinate {
            low = middle;
        } else {
            high = middle;
        }
    }
    proof {
        lemma_cell_of(faces@, coordinate, low as int);
    }
    Some(low)
}

/// The keys of the faces of the cells along each dimension.
pub open spec fn faces_view(faces: In3D<Vec<u32>>) -> Seq<Seq<u32>> {
    faces@.map_values(|along: Vec<u32>| along@)
}

/// Whether the faces along each dimension rise.
pub open spec fn are_rising(faces: Seq<Seq<u32>>) -> bool {
    forall|d: int| 0 <= d < faces.len() ==> is_rising(#[trigger] faces[d])
}

/// Finds the cell of a grid that holds a position. The grid is given by
/// the keys of the faces of its cells along each dimension, the position
/// by the keys of its coordinates. There is such a cell where there is one
/// along each dimension.
pub fn find_grid_cell(faces: &In3D<Vec<u32>>, position: &Point3<u32>) -> (cell: Option<
    Idx3<usize>,
>)
    requires
        are_rising(faces_view(*faces)),
    ensures
        match cell {
            Some(cell) => forall|d: int|
                0 <= d < 3 ==> cell_of(#[trigger] faces_view(*faces)[d], position@[d]) == Some(
                    cell@[d] as int,
                ),
            None => exists|d: int|
                0 <= d < 3 && cell_of(#[trigger] faces_view(*faces)[d], position@[d]) is None,
        },
{
    proof {
        faces.lemma_three_components();
        position.lemma_components();
        assert(is_rising(faces_view(*faces)[0]));
        assert(is_rising(faces_view(*faces)[1]));
        assert(is_rising(faces_view(*faces)[2]));
    }
    let i = match find_cell(&faces[Dim3::X], position[Dim3::X]) {
        Some(i) => i,
        None => {
            assert(cell_of(faces_view(*faces)[0], position@[0]) is None);
            return None;
        },
    };
    let j = match find_cell(&faces[Dim3::Y], position[Dim3::Y]) {
        Some(j) => j,
        None => {
            assert(cell_of(faces_view(*faces)[1], position@[1]) is None);
            return None;
        },
    };
    let k = match find_cell(&faces[Dim3::Z], position[Dim3::Z]) {
        Some(k) => k,
        None => {
            assert(cell_of(faces_view(*faces)[2], position@[2]) is None);
            return None;
        },
    };
    let cell = Idx3::new(i, j, k);
    assert forall|d: int| 0 <= d < 3 implies cell_of(
        #[trigger] faces_view(*faces)[d],
        position@[d],
    ) == Some(cell@[d] as int) by {
        if d == 0 {
        } else if d == 1 {
        } else {
        }
    }
    Some(cell)
}

} // verus!
