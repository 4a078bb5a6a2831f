use backstaff::geometry::coords::CoordArray;
use backstaff::geometry::coords::CoordRefs2;
use backstaff::geometry::coords::CoordRefs3;
use backstaff::geometry::coords::Coords2;
use backstaff::geometry::coords::Coords3;
use backstaff::geometry::Dim2;
use backstaff::geometry::Dim3;
use backstaff::geometry::Idx2;
use backstaff::geometry::Idx3;
use backstaff::geometry::In2D;
use backstaff::geometry::In3D;
use backstaff::geometry::Point2;
use backstaff::geometry::Point3;
use backstaff::geometry::Vec2;
use backstaff::geometry::Vec3;

fn array(values: &[f32]) -> CoordArray {
    CoordArray::from_vec(values.iter().map(|value| value.to_bits()).collect())
}

#[test]
fn dimensions_are_listed_in_order() {
    assert_eq!(Dim3::slice(), [Dim3::X, Dim3::Y, Dim3::Z]);
    assert_eq!(Dim3::slice_xy(), [Dim3::X, Dim3::Y]);
    assert_eq!(Dim2::slice(), [Dim2::X, Dim2::Y]);
    assert_eq!(Dim3::X.num(), 0);
    assert_eq!(Dim3::Y.num(), 1);
    assert_eq!(Dim3::Z.num(), 2);
    assert_eq!(Dim2::X.num(), 0);
    assert_eq!(Dim2::Y.num(), 1);
}

#[test]
fn slice_except_leaves_the_given_dimension_out() {
    assert_eq!(Dim3::slice_except(Dim3::X), [Dim3::Y, Dim3::Z]);
    assert_eq!(Dim3::slice_except(Dim3::Y), [Dim3::X, Dim3::Z]);
    assert_eq!(Dim3::slice_except(Dim3::Z), [Dim3::X, Dim3::Y]);
}

#[test]
fn quantities_are_indexed_by_dimension() {
    let mut quantity = In3D::new("x", "y", "z");
    assert_eq!(quantity[Dim3::X], "x");
    assert_eq!(quantity[Dim3::Y], "y");
    assert_eq!(quantity[Dim3::Z], "z");
    quantity[Dim3::Y] = "w";
    assert_eq!(quantity, In3D::new("x", "w", "z"));
    assert_eq!(In3D::same(4), In3D::new(4, 4, 4));
    assert_eq!(
        In3D::same_cloned("a".to_string()),
        In3D::new("a".to_string(), "a".to_string(), "a".to_string())
    );

    let mut quantity = In2D::new(1, 2);
    assert_eq!(quantity[Dim2::X], 1);
    assert_eq!(quantity[Dim2::Y], 2);
    quantity[Dim2::X] = 3;
    assert_eq!(quantity, In2D::new(3, 2));
    assert_eq!(In2D::same(4), In2D::new(4, 4));
}

#[test]
fn vectors_and_points_hold_their_components() {
    let mut vector = Vec3::new(1u64, 2, 3);
    assert_eq!(vector[Dim3::X], 1);
    assert_eq!(vector[Dim3::Y], 2);
    assert_eq!(vector[Dim3::Z], 3);
    vector[Dim3::Z] = 9;
    assert_eq!(vector, Vec3::new(1, 2, 9));
    assert_eq!(vector.to_point3(), Point3::new(1, 2, 9));
    assert_eq!(Point3::new(1u64, 2, 9).to_vec3(), vector);

    let mut point = Point2::new(5u32, 6);
    assert_eq!(point[Dim2::X], 5);
    assert_eq!(point[Dim2::Y], 6);
    point[Dim2::Y] = 7;
    assert_eq!(point.to_vec2(), Vec2::new(5, 7));
    assert_eq!(Vec2::new(5u32, 7).to_point2(), point);
}

#[test]
fn indices_change_their_component_type() {
    let index = Idx3::new(3i64, 0, 255);
    assert_eq!(Idx3::<usize>::from(&index), Idx3::new(3usize, 0, 255));
    assert_eq!(Idx3::<u8>::from(&index), Idx3::new(3u8, 0, 255));
    let index = Idx3::new(-1i8, -128, 127);
    assert_eq!(Idx3::<isize>::from(&index), Idx3::new(-1isize, -128, 127));
    let mut index = Idx2::new(7usize, 8);
    assert_eq!(index[Dim2::X], 7);
    index[Dim2::Y] = 9;
    assert_eq!(Idx2::<u64>::from(&index), Idx2::new(7u64, 9));
}

#[test]
fn coordinate_arrays_hold_the_values_they_were_made_of() {
    let coordinates = array(&[0.5, 1.5, 2.5]);
    assert_eq!(coordinates.len(), 3);
    assert_eq!(coordinates.get(0), Some(0.5f32.to_bits()));
    assert_eq!(coordinates.get(2), Some(2.5f32.to_bits()));
    assert_eq!(coordinates.get(3), None);
    assert_eq!(
        coordinates.to_vec(),
        vec![0.5f32.to_bits(), 1.5f32.to_bits(), 2.5f32.to_bits()]
    );
    assert_eq!(coordinates.clone().to_vec(), coordinates.to_vec());
    assert_eq!(array(&[]).len(), 0);
    assert_eq!(array(&[]).get(0), None);
}

#[test]
fn coords_give_the_point_at_an_index() {
    let coords = Coords3::new(
        array(&[0.0, 1.0, 2.0]),
        array(&[10.0, 11.0, 12.0]),
        array(&[20.0, 21.0, 22.0]),
    );
    assert_eq!(
        coords.point(1),
        Point3::new(1.0f32.to_bits(), 11.0f32.to_bits(), 21.0f32.to_bits())
    );
    assert_eq!(
        coords.point(2),
        Point3::new(2.0f32.to_bits(), 12.0f32.to_bits(), 22.0f32.to_bits())
    );
    assert_eq!(coords[Dim3::Y].to_vec(), array(&[10.0, 11.0, 12.0]).to_vec());

    let coords = Coords2::new(array(&[0.0, 1.0]), array(&[10.0, 11.0]));
    assert_eq!(
        coords.point(0),
        Point2::new(0.0f32.to_bits(), 10.0f32.to_bits())
    );
    assert_eq!(coords[Dim2::X].to_vec(), array(&[0.0, 1.0]).to_vec());
}

#[test]
fn coord_refs_give_the_same_points_as_the_coords_they_turn_into() {
    let x = array(&[0.0, 1.0, 2.0]);
    let y = array(&[10.0, 11.0, 12.0]);
    let z = array(&[20.0, 21.0, 22.0]);
    let references = CoordRefs3::new(&x, &y, &z);
    let point = references.point(2);
    assert_eq!(references[Dim3::Z].to_vec(), z.to_vec());
    let coords = references.into_owned();
    assert_eq!(coords.point(2), point);
    assert_eq!(
        point,
        Point3::new(2.0f32.to_bits(), 12.0f32.to_bits(), 22.0f32.to_bits())
    );

    let references = CoordRefs2::new(&x, &y);
    let point = references.point(1);
    assert_eq!(references.into_owned().point(1), point);
    assert_eq!(point, Point2::new(1.0f32.to_bits(), 11.0f32.to_bits()));
}

const NUMBERS: [f64; 14] = [
    0.0,
    -0.0,
    1.0,
    -1.0,
    0.3,
    -0.3,
    5e-324,
    -5e-324,
    f64::MAX,
    f64::MIN,
    f64::INFINITY,
    f64::NEG_INFINITY,
    f64::NAN,
    1e-300,
];

#[test]
fn the_zero_vector_and_the_origin_have_components_of_zero() {
    let zero = Vec3::<u64>::zero();
    assert_eq!(zero, Vec3::new(0.0f64.to_bits(), 0.0f64.to_bits(), 0.0f64.to_bits()));
    let zero = Vec3::<u32>::zero();
    assert_eq!(zero, Vec3::new(0.0f32.to_bits(), 0.0f32.to_bits(), 0.0f32.to_bits()));
    let zero = Vec2::<u64>::zero();
    assert_eq!(zero, Vec2::new(0.0f64.to_bits(), 0.0f64.to_bits()));
    let origin = Point3::<u64>::origin();
    assert_eq!(origin, Point3::new(0.0f64.to_bits(), 0.0f64.to_bits(), 0.0f64.to_bits()));
    let origin = Point3::<u32>::origin();
    assert_eq!(origin, Point3::new(0.0f32.to_bits(), 0.0f32.to_bits(), 0.0f32.to_bits()));
    let origin = Point2::<u32>::origin();
    assert_eq!(origin, Point2::new(0.0f32.to_bits(), 0.0f32.to_bits()));
}

#[test]
fn absolute_values_and_reversal_agree_with_the_numbers() {
    for x in NUMBERS {
        for y in NUMBERS {
            let z = 2.5f64;
            let vector = Vec3::new(x.to_bits(), y.to_bits(), z.to_bits());
            assert_eq!(
                vector.abs(),
                Vec3::new(x.abs().to_bits(), y.abs().to_bits(), z.abs().to_bits())
            );
            let mut reversed = vector.clone();
            reversed.reverse();
            assert_eq!(
                reversed,
                Vec3::new((-x).to_bits(), (-y).to_bits(), (-z).to_bits())
            );
            reversed.reverse();
            assert_eq!(reversed, vector);

            let vector = Vec2::new((x as f32).to_bits(), (y as f32).to_bits());
            assert_eq!(
                vector.abs(),
                Vec2::new((x as f32).abs().to_bits(), (y as f32).abs().to_bits())
            );
            let mut reversed = vector.clone();
            reversed.reverse();
            assert_eq!(
                reversed,
                Vec2::new((-(x as f32)).to_bits(), (-(y as f32)).to_bits())
            );
        }
    }
}

#[test]
fn a_vector_is_zero_where_all_its_components_are() {
    for x in NUMBERS {
        for y in NUMBERS {
            for z in [0.0f64, -0.0, 1e-300, f64::NAN] {
                let vector = Vec3::new(x.to_bits(), y.to_bits(), z.to_bits());
                assert_eq!(vector.is_zero(), x == 0.0 && y == 0.0 && z == 0.0);
            }
            let vector = Vec2::new((x as f32).to_bits(), (y as f32).to_bits());
            assert_eq!(vector.is_zero(), x as f32 == 0.0 && y as f32 == 0.0);
        }
    }
}
