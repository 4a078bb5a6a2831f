use backstaff::ebeam::detection::manual::ManualReconnectionSiteDetector;
use backstaff::geometry::Point3;
use backstaff::geometry::Vec3;
use backstaff::io::OverwriteMode;
use backstaff::io::Verbose;
use backstaff::io::WritePermission;
use backstaff::seeding::manual::split_seed_points;
use backstaff::seeding::manual::InvalidSeedLine;
use backstaff::seeding::manual::ManualSeeder3;
use backstaff::tracing::field_line::find_column;
use backstaff::tracing::field_line::h5part::id_dataset_name;
use backstaff::tracing::field_line::h5part::layout_field_line_data_for_h5part;
use backstaff::tracing::field_line::h5part::step_group_name;
use backstaff::tracing::field_line::reduction::join_two_sided_path;
use backstaff::tracing::field_line::FieldLineSet3;
use backstaff::tracing::field_line::FieldLineSetProperties3;

fn bits(values: &[f64]) -> Vec<u64> {
    values.iter().map(|value| value.to_bits()).collect()
}

fn vector(x: f64, y: f64, z: f64) -> Vec3<u64> {
    Vec3::new(x.to_bits(), y.to_bits(), z.to_bits())
}

fn point(x: f64, y: f64, z: f64) -> Point3<u64> {
    Point3::new(x.to_bits(), y.to_bits(), z.to_bits())
}

fn path(x: &[f64], y: &[f64], z: &[f64]) -> (Vec<u64>, Vec<u64>, Vec<u64>) {
    (bits(x), bits(y), bits(z))
}

fn fixed_scalars<'a>(properties: &'a FieldLineSetProperties3, name: &str) -> &'a Vec<u64> {
    properties.get_fixed_scalar_values(name).unwrap()
}

fn varying_scalars<'a>(properties: &'a FieldLineSetProperties3, name: &str) -> &'a Vec<Vec<u64>> {
    properties.get_varying_scalar_values(name).unwrap()
}

fn circle_line(start: f64, number_of_points: usize) -> FieldLineSetProperties3 {
    let angles: Vec<f64> = (0..number_of_points)
        .map(|i| start + 0.01 * i as f64)
        .collect();
    let x: Vec<f64> = angles.iter().map(|angle| angle.cos()).collect();
    let y: Vec<f64> = angles.iter().map(|angle| angle.sin()).collect();
    let z: Vec<f64> = angles.iter().map(|_| 0.5).collect();
    let mut properties = FieldLineSetProperties3::from_path(path(&x, &y, &z));
    properties.insert_fixed_scalar_values(
        "arclen".to_string(),
        bits(&[0.01 * (number_of_points - 1) as f64]),
    );
    properties
}

#[test]
fn no_field_lines_make_well_formed_data_without_columns() {
    let properties = FieldLineSetProperties3::default();
    assert_eq!(properties.number_of_field_lines, 0);
    assert!(properties.fixed_scalar_values.is_empty());
    assert!(properties.fixed_vector_values.is_empty());
    assert!(properties.varying_scalar_values.is_empty());
    assert!(properties.varying_vector_values.is_empty());
    assert!(properties.is_well_formed());
    assert!(properties.line_lengths().is_empty());
    assert_eq!(properties.number_of_field_line_elements(), Some(0));
}

#[test]
fn a_path_makes_the_data_of_one_field_line() {
    let properties =
        FieldLineSetProperties3::from_path(path(&[1.0, 2.0, 3.0], &[4.0, 5.0, 6.0], &[7.0, 8.0, 9.0]));
    assert_eq!(properties.number_of_field_lines, 1);
    assert_eq!(fixed_scalars(&properties, "x0"), &bits(&[1.0]));
    assert_eq!(fixed_scalars(&properties, "y0"), &bits(&[4.0]));
    assert_eq!(fixed_scalars(&properties, "z0"), &bits(&[7.0]));
    assert_eq!(varying_scalars(&properties, "x"), &vec![bits(&[1.0, 2.0, 3.0])]);
    assert_eq!(varying_scalars(&properties, "y"), &vec![bits(&[4.0, 5.0, 6.0])]);
    assert_eq!(varying_scalars(&properties, "z"), &vec![bits(&[7.0, 8.0, 9.0])]);
    assert!(properties.fixed_vector_values.is_empty());
    assert!(properties.varying_vector_values.is_empty());
    assert!(properties.is_well_formed());
    assert_eq!(properties.line_lengths(), vec![3]);
    assert_eq!(properties.number_of_field_line_elements(), Some(3));
    assert_eq!(properties.start_indices_of_field_line_elements(), vec![0]);
}

#[test]
fn a_path_with_series_of_different_lengths_is_not_well_formed() {
    let properties = FieldLineSetProperties3::from_path(path(&[1.0, 2.0], &[4.0], &[7.0, 8.0]));
    assert!(!properties.is_well_formed());
}

#[test]
fn columns_are_found_by_name() {
    let properties = FieldLineSetProperties3::from_path(path(&[1.0], &[4.0], &[7.0]));
    assert_eq!(
        find_column(&properties.fixed_scalar_values, &"x0".to_string()),
        Some(0)
    );
    assert_eq!(
        find_column(&properties.fixed_scalar_values, &"z0".to_string()),
        Some(2)
    );
    assert_eq!(
        find_column(&properties.fixed_scalar_values, &"x".to_string()),
        None
    );
    assert!(properties.get_fixed_scalar_values("x").is_none());
    assert!(properties.get_varying_scalar_values("x0").is_none());
}

#[test]
fn inserted_values_take_the_place_of_those_of_the_same_name() {
    let mut properties = FieldLineSetProperties3::from_path(path(&[1.0], &[4.0], &[7.0]));
    properties.insert_fixed_scalar_values("tg0".to_string(), bits(&[100.0]));
    assert_eq!(properties.fixed_scalar_values.len(), 4);
    assert_eq!(properties.fixed_scalar_values[3].0, "tg0");
    properties.insert_fixed_scalar_values("y0".to_string(), bits(&[-4.0]));
    assert_eq!(properties.fixed_scalar_values.len(), 4);
    assert_eq!(properties.fixed_scalar_values[1].0, "y0");
    assert_eq!(fixed_scalars(&properties, "y0"), &bits(&[-4.0]));
    assert_eq!(fixed_scalars(&properties, "x0"), &bits(&[1.0]));
    assert_eq!(fixed_scalars(&properties, "tg0"), &bits(&[100.0]));
    assert!(properties.is_well_formed());

    properties.insert_fixed_vector_values("b0".to_string(), vec![vector(1.0, 2.0, 3.0)]);
    properties.insert_fixed_vector_values("b0".to_string(), vec![vector(3.0, 2.0, 1.0)]);
    assert_eq!(
        properties.fixed_vector_values,
        vec![("b0".to_string(), vec![vector(3.0, 2.0, 1.0)])]
    );
    properties.insert_varying_scalar_values("tg".to_string(), vec![bits(&[5.0])]);
    properties.insert_varying_scalar_values("x".to_string(), vec![bits(&[6.0])]);
    assert_eq!(properties.varying_scalar_values.len(), 4);
    assert_eq!(varying_scalars(&properties, "x"), &vec![bits(&[6.0])]);
    assert_eq!(varying_scalars(&properties, "tg"), &vec![bits(&[5.0])]);
    properties.insert_varying_vector_values("b".to_string(), vec![vec![vector(1.0, 2.0, 3.0)]]);
    assert_eq!(
        properties.varying_vector_values,
        vec![("b".to_string(), vec![vec![vector(1.0, 2.0, 3.0)]])]
    );
    assert!(properties.is_well_formed());
}

#[test]
fn data_with_misfitting_columns_is_not_well_formed() {
    let well_formed = FieldLineSetProperties3::from_path(path(&[1.0, 2.0], &[4.0, 5.0], &[7.0, 8.0]));

    let mut properties = well_formed.clone();
    properties.number_of_field_lines = 2;
    assert!(!properties.is_well_formed());

    let mut properties = well_formed.clone();
    properties.insert_fixed_scalar_values("tg0".to_string(), bits(&[1.0, 2.0]));
    assert!(!properties.is_well_formed());

    let mut properties = well_formed.clone();
    properties.insert_varying_scalar_values("tg".to_string(), vec![bits(&[1.0])]);
    assert!(!properties.is_well_formed());

    let mut properties = well_formed.clone();
    properties.insert_varying_vector_values("b".to_string(), vec![vec![vector(1.0, 2.0, 3.0)]]);
    assert!(!properties.is_well_formed());

    let mut properties = well_formed.clone();
    properties.insert_fixed_vector_values("b0".to_string(), vec![]);
    assert!(!properties.is_well_formed());

    let mut properties = well_formed.clone();
    properties
        .fixed_scalar_values
        .push(("x0".to_string(), bits(&[1.0])));
    assert!(!properties.is_well_formed());

    let mut properties = well_formed;
    properties.insert_varying_vector_values(
        "b".to_string(),
        vec![vec![vector(1.0, 2.0, 3.0), vector(1.0, 2.0, 3.0)]],
    );
    properties.insert_fixed_vector_values("b0".to_string(), vec![vector(1.0, 2.0, 3.0)]);
    assert!(properties.is_well_formed());
}

#[test]
fn merging_appends_the_field_lines_of_the_second_set() {
    let first = FieldLineSetProperties3::from_path(path(&[1.0, 2.0], &[3.0, 4.0], &[5.0, 6.0]));
    let second = FieldLineSetProperties3::from_path(path(&[7.0], &[8.0], &[9.0]));
    let merged = first.merge(second);
    assert_eq!(merged.number_of_field_lines, 2);
    assert_eq!(fixed_scalars(&merged, "x0"), &bits(&[1.0, 7.0]));
    assert_eq!(fixed_scalars(&merged, "y0"), &bits(&[3.0, 8.0]));
    assert_eq!(fixed_scalars(&merged, "z0"), &bits(&[5.0, 9.0]));
    assert_eq!(
        varying_scalars(&merged, "x"),
        &vec![bits(&[1.0, 2.0]), bits(&[7.0])]
    );
    assert_eq!(
        varying_scalars(&merged, "z"),
        &vec![bits(&[5.0, 6.0]), bits(&[9.0])]
    );
    assert_eq!(merged.line_lengths(), vec![2, 1]);
    assert_eq!(merged.start_indices_of_field_line_elements(), vec![0, 2]);
    assert!(merged.is_well_formed());
}

#[test]
fn merging_fills_in_blanks_for_quantities_that_one_set_lacks() {
    let mut first = FieldLineSetProperties3::from_path(path(&[1.0, 2.0], &[3.0, 4.0], &[5.0, 6.0]));
    first.insert_fixed_scalar_values("tg0".to_string(), bits(&[100.0]));
    first.insert_varying_vector_values(
        "b".to_string(),
        vec![vec![vector(1.0, 1.0, 1.0), vector(2.0, 2.0, 2.0)]],
    );
    let mut second = FieldLineSetProperties3::from_path(path(&[7.0], &[8.0], &[9.0]));
    second.insert_varying_scalar_values("r".to_string(), vec![bits(&[0.5])]);
    second.insert_fixed_vector_values("u0".to_string(), vec![vector(1.0, 2.0, 3.0)]);
    let merged = first.merge(second);

    assert_eq!(merged.number_of_field_lines, 2);
    assert_eq!(
        merged
            .fixed_scalar_values
            .iter()
            .map(|column| column.0.as_str())
            .collect::<Vec<_>>(),
        vec!["x0", "y0", "z0", "tg0"]
    );
    assert_eq!(fixed_scalars(&merged, "tg0"), &bits(&[100.0, 0.0]));
    assert_eq!(
        merged
            .varying_scalar_values
            .iter()
            .map(|column| column.0.as_str())
            .collect::<Vec<_>>(),
        vec!["x", "y", "z", "r"]
    );
    assert_eq!(
        varying_scalars(&merged, "r"),
        &vec![bits(&[0.0, 0.0]), bits(&[0.5])]
    );
    assert_eq!(
        merged.fixed_vector_values,
        vec![(
            "u0".to_string(),
            vec![vector(0.0, 0.0, 0.0), vector(1.0, 2.0, 3.0)]
        )]
    );
    assert_eq!(
        merged.varying_vector_values,
        vec![(
            "b".to_string(),
            vec![
                vec![vector(1.0, 1.0, 1.0), vector(2.0, 2.0, 2.0)],
                vec![vector(0.0, 0.0, 0.0)]
            ]
        )]
    );
    assert!(merged.is_well_formed());
}

#[test]
fn merging_with_no_field_lines_changes_nothing() {
    let properties = FieldLineSetProperties3::from_path(path(&[1.0, 2.0], &[3.0, 4.0], &[5.0, 6.0]));
    let merged = FieldLineSetProperties3::default().merge(properties.clone());
    assert_eq!(merged.number_of_field_lines, 1);
    assert_eq!(merged.fixed_scalar_values, properties.fixed_scalar_values);
    assert_eq!(merged.varying_scalar_values, properties.varying_scalar_values);
    let merged = properties.clone().merge(FieldLineSetProperties3::default());
    assert_eq!(merged.number_of_field_lines, 1);
    assert_eq!(merged.fixed_scalar_values, properties.fixed_scalar_values);
    assert_eq!(merged.varying_scalar_values, properties.varying_scalar_values);
}

#[test]
fn merging_is_associative() {
    let mut a = FieldLineSetProperties3::from_path(path(&[1.0, 2.0], &[3.0, 4.0], &[5.0, 6.0]));
    a.insert_fixed_scalar_values("tg0".to_string(), bits(&[100.0]));
    let mut b = FieldLineSetProperties3::from_path(path(&[7.0], &[8.0], &[9.0]));
    b.insert_varying_scalar_values("r".to_string(), vec![bits(&[0.5])]);
    let mut c = FieldLineSetProperties3::from_path(path(&[0.0; 3], &[1.0; 3], &[2.0; 3]));
    c.insert_fixed_scalar_values("pg0".to_string(), bits(&[3.0]));
    c.insert_varying_scalar_values("r".to_string(), vec![bits(&[0.1, 0.2, 0.3])]);

    let left = a.clone().merge(b.clone()).merge(c.clone());
    let right = a.merge(b.merge(c));
    assert_eq!(left.number_of_field_lines, right.number_of_field_lines);
    assert_eq!(left.fixed_scalar_values, right.fixed_scalar_values);
    assert_eq!(left.fixed_vector_values, right.fixed_vector_values);
    assert_eq!(left.varying_scalar_values, right.varying_scalar_values);
    assert_eq!(left.varying_vector_values, right.varying_vector_values);
    assert_eq!(
        varying_scalars(&left, "r"),
        &vec![bits(&[0.0, 0.0]), bits(&[0.5]), bits(&[0.1, 0.2, 0.3])]
    );
}

#[test]
fn a_thousand_field_lines_reduce_to_columns_of_a_thousand_entries() {
    let termination_cap = 0.99;
    let parts: Vec<FieldLineSetProperties3> = (0..1000)
        .map(|seed| circle_line(0.001 * seed as f64, 100))
        .collect();
    let properties = FieldLineSetProperties3::merge_all(parts);
    assert_eq!(properties.number_of_field_lines, 1000);
    assert!(properties.is_well_formed());
    for column in &properties.fixed_scalar_values {
        assert_eq!(column.1.len(), 1000);
    }
    for column in &properties.varying_scalar_values {
        assert_eq!(column.1.len(), 1000);
    }
    let x = varying_scalars(&properties, "x");
    let y = varying_scalars(&properties, "y");
    let z = varying_scalars(&properties, "z");
    for line in 0..1000 {
        assert_eq!(x[line].len(), y[line].len());
        assert_eq!(x[line].len(), z[line].len());
    }
    let arc_lengths = fixed_scalars(&properties, "arclen");
    assert_eq!(arc_lengths.len(), 1000);
    let mean = arc_lengths
        .iter()
        .map(|length| f64::from_bits(*length))
        .sum::<f64>()
        / 1000.0;
    assert!((mean - termination_cap).abs() <= 0.01 * termination_cap);
    assert_eq!(properties.number_of_field_line_elements(), Some(100_000));
    assert_eq!(
        f64::from_bits(fixed_scalars(&properties, "x0")[999]),
        (0.001f64 * 999.0).cos()
    );
}

#[test]
fn merging_all_of_nothing_gives_no_field_lines() {
    let properties = FieldLineSetProperties3::merge_all(Vec::new());
    assert_eq!(properties.number_of_field_lines, 0);
    assert!(properties.is_well_formed());
}

#[test]
fn field_line_set_gives_the_positions_of_its_field_lines() {
    let properties = FieldLineSetProperties3::from_path(path(&[1.0, 2.0], &[3.0, 4.0], &[5.0, 6.0]))
        .merge(FieldLineSetProperties3::from_path(path(&[7.0], &[8.0], &[9.0])));
    let set = FieldLineSet3::new(
        vector(0.0, 0.0, 0.0),
        vector(10.0, 10.0, 10.0),
        properties,
        Verbose::Yes,
    );
    assert!(set.verbose().is_yes());
    assert_eq!(*set.lower_bounds(), vector(0.0, 0.0, 0.0));
    assert_eq!(*set.upper_bounds(), vector(10.0, 10.0, 10.0));
    assert_eq!(set.properties().number_of_field_lines, 2);
    assert_eq!(
        set.start_positions(),
        vec![point(1.0, 3.0, 5.0), point(7.0, 8.0, 9.0)]
    );
    assert_eq!(
        set.path_positions(),
        vec![
            vec![point(1.0, 3.0, 5.0), point(2.0, 4.0, 6.0)],
            vec![point(7.0, 8.0, 9.0)]
        ]
    );
}

#[test]
fn extracted_values_are_stored_under_the_name_of_the_field() {
    let properties = FieldLineSetProperties3::from_path(path(&[1.0, 2.0], &[3.0, 4.0], &[5.0, 6.0]));
    let mut set = FieldLineSet3::new(
        vector(0.0, 0.0, 0.0),
        vector(10.0, 10.0, 10.0),
        properties,
        Verbose::No,
    );
    set.extract_fixed_scalars("tg", bits(&[1e4]));
    set.extract_fixed_vectors("b", vec![vector(1.0, 2.0, 3.0)]);
    set.extract_varying_scalars("tg", vec![bits(&[1e4, 2e4])]);
    set.extract_varying_vectors("b", vec![vec![vector(1.0, 2.0, 3.0), vector(4.0, 5.0, 6.0)]]);
    set.extract_varying_vector_magnitudes("b", vec![bits(&[3.5, 8.5])]);
    let properties = set.properties();
    assert_eq!(fixed_scalars(properties, "tg0"), &bits(&[1e4]));
    assert!(properties.get_fixed_scalar_values("tg").is_none());
    assert_eq!(
        properties.fixed_vector_values,
        vec![("b0".to_string(), vec![vector(1.0, 2.0, 3.0)])]
    );
    assert_eq!(varying_scalars(properties, "tg"), &vec![bits(&[1e4, 2e4])]);
    assert_eq!(varying_scalars(properties, "b"), &vec![bits(&[3.5, 8.5])]);
    assert_eq!(
        properties.varying_vector_values,
        vec![(
            "b".to_string(),
            vec![vec![vector(1.0, 2.0, 3.0), vector(4.0, 5.0, 6.0)]]
        )]
    );
    assert!(properties.is_well_formed());
    assert_eq!(set.number_of_field_lines(), 1);

    set.extract_fixed_scalars("tg", bits(&[2e4]));
    assert_eq!(fixed_scalars(set.properties(), "tg0"), &bits(&[2e4]));
    assert_eq!(set.properties().fixed_scalar_values.len(), 4);
}

#[test]
fn h5part_layout_has_one_dataset_for_each_scalar_quantity() {
    let mut properties = FieldLineSetProperties3::from_path(path(&[1.0, 2.0], &[3.0, 4.0], &[5.0, 6.0]))
        .merge(FieldLineSetProperties3::from_path(path(&[7.0], &[8.0], &[9.0])));
    properties.insert_varying_scalar_values(
        "r".to_string(),
        vec![bits(&[0.1, 0.2]), bits(&[0.3])],
    );
    properties.insert_fixed_scalar_values("r".to_string(), bits(&[0.1, 0.3]));
    let (field_line_group, seed_group) = layout_field_line_data_for_h5part(&properties, false);

    let field_line_group = field_line_group.unwrap();
    assert_eq!(
        field_line_group.datasets,
        vec![
            ("x".to_string(), bits(&[1.0, 2.0, 7.0])),
            ("y".to_string(), bits(&[3.0, 4.0, 8.0])),
            ("z".to_string(), bits(&[5.0, 6.0, 9.0])),
            ("rho".to_string(), bits(&[0.1, 0.2, 0.3])),
        ]
    );
    assert_eq!(field_line_group.ids, Some(vec![0, 1, 2]));

    let seed_group = seed_group.unwrap();
    assert_eq!(
        seed_group.datasets,
        vec![
            ("x0".to_string(), bits(&[1.0, 7.0])),
            ("y0".to_string(), bits(&[3.0, 8.0])),
            ("z0".to_string(), bits(&[5.0, 9.0])),
            ("rho".to_string(), bits(&[0.1, 0.3])),
        ]
    );
    assert_eq!(seed_group.ids, Some(vec![0, 1]));
    assert_eq!(step_group_name(), "Step#0");
    assert_eq!(id_dataset_name(), "id");
}

#[test]
fn h5part_layout_leaves_the_ids_out_where_they_are_dropped() {
    let properties = FieldLineSetProperties3::from_path(path(&[1.0, 2.0], &[3.0, 4.0], &[5.0, 6.0]));
    let (field_line_group, seed_group) = layout_field_line_data_for_h5part(&properties, true);
    assert_eq!(field_line_group.unwrap().ids, None);
    assert_eq!(seed_group.unwrap().ids, None);
}

#[test]
fn h5part_layout_is_empty_without_field_lines_or_scalar_quantities() {
    let (field_line_group, seed_group) =
        layout_field_line_data_for_h5part(&FieldLineSetProperties3::default(), false);
    assert!(field_line_group.is_none());
    assert!(seed_group.is_none());

    let properties = FieldLineSetProperties3 {
        number_of_field_lines: 1,
        fixed_scalar_values: Vec::new(),
        fixed_vector_values: vec![("b0".to_string(), vec![vector(1.0, 2.0, 3.0)])],
        varying_scalar_values: Vec::new(),
        varying_vector_values: Vec::new(),
    };
    let (field_line_group, seed_group) = layout_field_line_data_for_h5part(&properties, false);
    assert!(field_line_group.is_none());
    assert!(seed_group.is_none());

    let properties = FieldLineSetProperties3 {
        number_of_field_lines: 0,
        fixed_scalar_values: vec![("x0".to_string(), Vec::new())],
        fixed_vector_values: Vec::new(),
        varying_scalar_values: Vec::new(),
        varying_vector_values: Vec::new(),
    };
    let (field_line_group, seed_group) = layout_field_line_data_for_h5part(&properties, false);
    assert!(field_line_group.is_none());
    assert!(seed_group.is_none());
}

#[test]
fn h5part_layout_has_no_datasets_for_field_lines_without_points() {
    let properties = FieldLineSetProperties3 {
        number_of_field_lines: 2,
        fixed_scalar_values: Vec::new(),
        fixed_vector_values: Vec::new(),
        varying_scalar_values: vec![("x".to_string(), vec![Vec::new(), Vec::new()])],
        varying_vector_values: Vec::new(),
    };
    let (field_line_group, seed_group) = layout_field_line_data_for_h5part(&properties, false);
    let field_line_group = field_line_group.unwrap();
    assert!(field_line_group.datasets.is_empty());
    assert_eq!(field_line_group.ids, None);
    assert!(seed_group.is_none());
}

#[test]
fn h5part_layout_of_fixed_quantities_alone_has_only_the_seed_group() {
    let properties = FieldLineSetProperties3 {
        number_of_field_lines: 2,
        fixed_scalar_values: vec![("x0".to_string(), bits(&[1.0, 2.0]))],
        fixed_vector_values: Vec::new(),
        varying_scalar_values: Vec::new(),
        varying_vector_values: Vec::new(),
    };
    let (field_line_group, seed_group) = layout_field_line_data_for_h5part(&properties, false);
    assert!(field_line_group.is_none());
    let seed_group = seed_group.unwrap();
    assert_eq!(
        seed_group.datasets,
        vec![("x0".to_string(), bits(&[1.0, 2.0]))]
    );
    assert_eq!(seed_group.ids, Some(vec![0, 1]));
}

#[test]
fn manual_detector_keeps_the_positions_of_its_seeder() {
    let positions = vec![
        Point3::new(1.0f32.to_bits(), 2.0f32.to_bits(), 3.0f32.to_bits()),
        Point3::new(4.0f32.to_bits(), 5.0f32.to_bits(), 6.0f32.to_bits()),
    ];
    let seeder = ManualSeeder3::new(positions.clone());
    assert_eq!(seeder.number_of_points(), 2);
    assert_eq!(seeder.points(), &positions);
    let detector = ManualReconnectionSiteDetector::new(seeder);
    assert_eq!(detector.seeder().number_of_points(), 2);
    assert_eq!(detector.seeder().points(), &positions);
    assert_eq!(ManualSeeder3::new(Vec::new()).number_of_points(), 0);
}

#[test]
fn verbosity_comes_from_a_flag() {
    assert_eq!(Verbose::from(true), Verbose::Yes);
    assert_eq!(Verbose::from(false), Verbose::No);
    assert!(Verbose::Yes.is_yes());
    assert!(!Verbose::No.is_yes());
}

#[test]
fn the_two_halves_of_a_field_line_are_joined_at_the_start() {
    let backward = path(&[1.0, 0.9, 0.8], &[2.0, 1.9, 1.8], &[3.0, 2.9, 2.8]);
    let forward = path(&[1.0, 1.1], &[2.0, 2.1], &[3.0, 3.1]);
    let joined = join_two_sided_path(&backward, forward);
    assert_eq!(joined.0, bits(&[0.8, 0.9, 1.0, 1.0, 1.1]));
    assert_eq!(joined.1, bits(&[1.8, 1.9, 2.0, 2.0, 2.1]));
    assert_eq!(joined.2, bits(&[2.8, 2.9, 3.0, 3.0, 3.1]));
    let empty = path(&[], &[], &[]);
    let joined = join_two_sided_path(&empty, path(&[1.0], &[2.0], &[3.0]));
    assert_eq!(joined, path(&[1.0], &[2.0], &[3.0]));
    let joined = join_two_sided_path(&path(&[1.0, 4.0], &[2.0, 5.0], &[3.0, 6.0]), empty);
    assert_eq!(joined, path(&[4.0, 1.0], &[5.0, 2.0], &[6.0, 3.0]));
}

#[test]
fn existing_files_are_overwritten_only_as_the_mode_allows() {
    for mode in [OverwriteMode::Always, OverwriteMode::Never, OverwriteMode::Ask] {
        assert_eq!(mode.permission_to_write(false, false), WritePermission::Granted);
        assert_eq!(mode.permission_to_write(false, true), WritePermission::Granted);
    }
    assert_eq!(
        OverwriteMode::Always.permission_to_write(true, false),
        WritePermission::Granted
    );
    assert_eq!(
        OverwriteMode::Always.permission_to_write(true, true),
        WritePermission::AskUser
    );
    assert_eq!(
        OverwriteMode::Never.permission_to_write(true, false),
        WritePermission::Denied
    );
    assert_eq!(
        OverwriteMode::Never.permission_to_write(true, true),
        WritePermission::Denied
    );
    assert_eq!(
        OverwriteMode::Ask.permission_to_write(true, false),
        WritePermission::AskUser
    );
    assert_eq!(
        OverwriteMode::Ask.permission_to_write(true, true),
        WritePermission::AskUser
    );
}

fn seed_text(positions: &[[&str; 3]]) -> Vec<Vec<Vec<u8>>> {
    positions
        .iter()
        .map(|position| {
            position
                .iter()
                .map(|coordinate| coordinate.as_bytes().to_vec())
                .collect()
        })
        .collect()
}

#[test]
fn seed_points_are_split_into_their_coordinates() {
    assert_eq!(
        split_seed_points(b"1.0,2.0,3.0\n4,5,6\n"),
        Ok(seed_text(&[["1.0", "2.0", "3.0"], ["4", "5", "6"]]))
    );
    assert_eq!(
        split_seed_points(b"1.0, 2.0 ,3.0"),
        Ok(seed_text(&[["1.0", " 2.0 ", "3.0"]]))
    );
    assert_eq!(
        split_seed_points(b"\n  \t\r\n1,2,3\r\n\n-1e3,,x\n \n"),
        Ok(seed_text(&[["1", "2", "3\r"], ["-1e3", "", "x"]]))
    );
    assert_eq!(split_seed_points(b""), Ok(Vec::new()));
    assert_eq!(split_seed_points(b"\n\n"), Ok(Vec::new()));
    assert_eq!(split_seed_points(b",,"), Ok(seed_text(&[["", "", ""]])));
}

#[test]
fn a_seed_line_without_three_coordinates_is_rejected_with_its_number() {
    assert_eq!(
        split_seed_points(b"1,2\n"),
        Err(InvalidSeedLine { line_number: 1 })
    );
    assert_eq!(
        split_seed_points(b"1,2,3\n\n1,2,3,4\n1\n"),
        Err(InvalidSeedLine { line_number: 3 })
    );
    assert_eq!(
        split_seed_points(b"1,2,3\n \n1,2,3\nx"),
        Err(InvalidSeedLine { line_number: 4 })
    );
    assert_eq!(
        split_seed_points(b"1 2 3"),
        Err(InvalidSeedLine { line_number: 1 })
    );
}
