use backstaff::geometry::Idx3;
use backstaff::geometry::In3D;
use backstaff::geometry::Point3;
use backstaff::grid::find_cell;
use backstaff::grid::find_grid_cell;
use backstaff::grid::ordered_key;

fn key(value: f32) -> u32 {
    ordered_key(value.to_bits())
}

fn keys(values: &[f32]) -> Vec<u32> {
    values.iter().map(|value| key(*value)).collect()
}

#[test]
fn keys_are_in_the_order_of_the_numbers() {
    let samples = [
        f32::NEG_INFINITY,
        f32::MIN,
        -1e30,
        -2.5,
        -1.0,
        -1e-30,
        -f32::MIN_POSITIVE,
        -1e-45,
        -0.0,
        0.0,
        1e-45,
        f32::MIN_POSITIVE,
        1e-30,
        0.5,
        1.0,
        1.0000001,
        2.5,
        1e30,
        f32::MAX,
        f32::INFINITY,
    ];
    for a in samples {
        for b in samples {
            assert_eq!(key(a) < key(b), a < b, "{:?} {:?}", a, b);
            assert_eq!(key(a) == key(b), a == b, "{:?} {:?}", a, b);
        }
    }
}

#[test]
fn what_is_no_number_lies_beyond_all_numbers() {
    assert!(key(f32::NAN) > key(f32::INFINITY));
    assert!(key(-f32::NAN) < key(f32::NEG_INFINITY));
}

#[test]
fn the_cell_of_a_coordinate_has_its_lower_face_at_or_below_it() {
    let faces = keys(&[0.0, 0.1, 0.25, 0.5, 1.0]);
    assert_eq!(find_cell(&faces, key(0.0)), Some(0));
    assert_eq!(find_cell(&faces, key(-0.0)), Some(0));
    assert_eq!(find_cell(&faces, key(0.05)), Some(0));
    assert_eq!(find_cell(&faces, key(0.1)), Some(1));
    assert_eq!(find_cell(&faces, key(0.2499)), Some(1));
    assert_eq!(find_cell(&faces, key(0.25)), Some(2));
    assert_eq!(find_cell(&faces, key(0.5)), Some(3));
    assert_eq!(find_cell(&faces, key(0.99999)), Some(3));
    assert_eq!(find_cell(&faces, key(1.0)), None);
    assert_eq!(find_cell(&faces, key(2.0)), None);
    assert_eq!(find_cell(&faces, key(-1e-6)), None);
    assert_eq!(find_cell(&faces, key(f32::NAN)), None);
    assert_eq!(find_cell(&faces, key(f32::INFINITY)), None);
    assert_eq!(find_cell(&faces, key(f32::NEG_INFINITY)), None);
}

#[test]
fn the_cell_is_found_among_faces_below_zero_too() {
    let faces = keys(&[-16.0, -8.0, -0.5, 0.0, 3.0]);
    assert_eq!(find_cell(&faces, key(-16.0)), Some(0));
    assert_eq!(find_cell(&faces, key(-8.5)), Some(0));
    assert_eq!(find_cell(&faces, key(-8.0)), Some(1));
    assert_eq!(find_cell(&faces, key(-0.25)), Some(2));
    assert_eq!(find_cell(&faces, key(-0.0)), Some(3));
    assert_eq!(find_cell(&faces, key(2.9)), Some(3));
    assert_eq!(find_cell(&faces, key(-16.5)), None);
}

#[test]
fn there_is_no_cell_without_two_faces() {
    assert_eq!(find_cell(&Vec::new(), key(0.0)), None);
    assert_eq!(find_cell(&keys(&[0.0]), key(0.0)), None);
    assert_eq!(find_cell(&keys(&[0.0, 1.0]), key(0.0)), Some(0));
}

#[test]
fn every_cell_of_a_long_axis_is_found() {
    let faces: Vec<f32> = (0..=1000).map(|i| i as f32 * 0.5 - 100.0).collect();
    let face_keys = keys(&faces);
    for cell in 0..1000 {
        assert_eq!(find_cell(&face_keys, key(faces[cell])), Some(cell));
        assert_eq!(find_cell(&face_keys, key(faces[cell] + 0.25)), Some(cell));
    }
}

#[test]
fn the_cell_of_a_position_is_found_along_each_dimension() {
    let faces = In3D::new(
        keys(&[0.0, 1.0, 2.0, 3.0]),
        keys(&[0.0, 10.0, 20.0]),
        keys(&[-2.0, -1.0]),
    );
    let position = Point3::new(key(2.5), key(0.0), key(-1.5));
    assert_eq!(find_grid_cell(&faces, &position), Some(Idx3::new(2, 0, 0)));
    let position = Point3::new(key(0.5), key(19.0), key(-2.0));
    assert_eq!(find_grid_cell(&faces, &position), Some(Idx3::new(0, 1, 0)));
    for outside in [
        Point3::new(key(3.0), key(0.0), key(-1.5)),
        Point3::new(key(2.5), key(-0.1), key(-1.5)),
        Point3::new(key(2.5), key(0.0), key(-1.0)),
        Point3::new(key(f32::NAN), key(0.0), key(-1.5)),
    ] {
        assert_eq!(find_grid_cell(&faces, &outside), None);
    }
}
