//! The layout of field line data in H5Part files.
//!
//! Field line data goes to two files: one for the values along the field
//! lines, with one particle per field line point, and one for the values at
//! the start positions, with one particle per field line. Each file holds
//! one group, and in it one dataset per scalar quantity.

use crate::tracing::field_line::lemma_flatten_len;
use crate::tracing::field_line::lines_view;
use crate::tracing::field_line::FieldLineSetProperties3;
use crate::tracing::field_line::FieldLineSetPropertiesView;
use crate::tracing::ftr;
use vstd::prelude::*;
use vstd::string::StringExecFns;

verus! {

/// The datasets of the one group of an H5Part file.
#[derive(Debug)]
pub struct H5PartGroup {
    /// The named datasets, in the order in which they are created.
    pub datasets: Vec<(String, Vec<ftr>)>,
    /// The particle indices of the dataset `id`, where one is wanted.
    pub ids: Option<Vec<u64>>,
}

/// Mathematical content of an [`H5PartGroup`].
pub struct H5PartGroupView {
    pub datasets: Seq<(Seq<char>, Seq<u64>)>,
    pub ids: Option<Seq<u64>>,
}

impl View for H5PartGroup {
    type V = H5PartGroupView;

    open spec fn view(&self) -> H5PartGroupView {
        H5PartGroupView {
            datasets: self.datasets@.map_values(|d: (String, Vec<ftr>)| (d.0@, d.1@)),
            ids: match self.ids {
                Some(ids) => Some(ids@),
                None => None,
            },
        }
    }
}

/// The view of a group that may be absent.
pub open spec fn group_view(group: Option<H5PartGroup>) -> Option<H5PartGroupView> {
    match group {
        Some(group) => Some(group@),
        None => None,
    }
}

/// Name of the group that holds the datasets.
pub fn step_group_name() -> (name: &'static str)
    ensures
        name@ == "Step#0"@,
{
    "Step#0"
}

/// Name of the dataset of particle indices.
pub fn id_dataset_name() -> (name: &'static str)
    ensures
        name@ == "id"@,
{
    "id"
}

/// The name under which a quantity is written: `r` is reserved for the
/// radial distance, so a quantity of that name is written as `rho`.
pub open spec fn dataset_name(name: Seq<char>) -> Seq<char> {
    if name == seq!['r'] {
        seq!['r', 'h', 'o']
    } else {
        name
    }
}

/// The indices of a number of particles: 0, 1, 2 and so on.
pub open spec fn particle_ids(count: nat) -> Seq<u64> {
    Seq::new(count, |i: int| i as u64)
}

/// Whether the data gives anything to write: at least one field line and
/// at least one scalar quantity.
pub open spec fn has_h5part_data(properties: FieldLineSetPropertiesView) -> bool {
    properties.number_of_field_lines > 0 && (properties.fixed_scalar_values.len() > 0
        || properties.varying_scalar_values.len() > 0)
}

/// The group of the file for the values along the field lines: absent
/// where there is nothing to write or no varying scalar quantity, and
/// without datasets where no field line has a point. Else it holds each
/// varying scalar quantity with the series of all field lines in a row,
/// and the indices of the points unless they are dropped.
pub open spec fn field_line_group(
    properties: FieldLineSetPropertiesView,
    drop_id: bool,
) -> Option<H5PartGroupView> {
    if !has_h5part_data(properties) || properties.varying_scalar_values.len() == 0 {
        None
    } else if properties.number_of_field_line_elements() == 0 {
        Some(H5PartGroupView { datasets: Seq::empty(), ids: None })
    } else {
        Some(
            H5PartGroupView {
                datasets: properties.varying_scalar_values.map_values(
                    |c: (Seq<char>, Seq<Seq<u64>>)| (dataset_name(c.0), c.1.flatten()),
                ),
                ids: if drop_id {
                    None
                } else {
                    Some(particle_ids(properties.number_of_field_line_elements()))
                },
            },
        )
    }
}

/// The group of the file for the values at the start positions: absent
/// where there is nothing to write or no fixed scalar quantity. Else it
/// holds each fixed scalar quantity, and the indices of the field lines
/// unless they are dropped.
pub open spec fn seed_group(properties: FieldLineSetPropertiesView, drop_id: bool) -> Option<
    H5PartGroupView,
> {
    if !has_h5part_data(properties) || properties.fixed_scalar_values.len() == 0 {
        None
    } else {
        Some(
            H5PartGroupView {
                datasets: properties.fixed_scalar_values.map_values(
                    |c: (Seq<char>, Seq<u64>)| (dataset_name(c.0), c.1),
                ),
                ids: if drop_id {
                    None
                } else {
                    Some(particle_ids(properties.number_of_field_lines))
                },
            },
        )
    }
}

/// The name under which a quantity is written.
fn name_of_dataset(name: &String) -> (written: String)
    ensures
        written@ == dataset_name(name@),
{
    proof {
        reveal_strlit("r");
        reveal_strlit("rho");
        assert("r"@ =~= seq!['r']);
        assert("rho"@ =~= seq!['r', 'h', 'o']);
    }
    if *name == String::from_str("r") {
        String::from_str("rho")
    } else {
        name.clone()
    }
}

/// The indices of a number of particles.
fn ids_of_particles(count: usize) -> (ids: Vec<u64>)
    ensures
        ids@ == particle_ids(count as nat),
{
    let mut ids: Vec<u64> = Vec::new();
    for i in 0..count
        invariant
            ids@.len() == i,
            forall|j: int| 0 <= j < i ==> ids@[j] == j as u64,
    {
        ids.push(i as u64);
    }
    assert(ids@ =~= particle_ids(count as nat));
    ids
}

/// The values of all series of a list in a row.
fn concatenate_lines(lines: &Vec<Vec<ftr>>) -> (values: Vec<ftr>)
    ensures
        values@ == lines_view(lines@).flatten(),
{
    let ghost all = lines_view(lines@);
    let mut values: Vec<ftr> = Vec::new();
    assert(values@ =~= all.take(0).flatten());
    for i in 0..lines.len()
        invariant
            all == lines_view(lines@),
            values@ == all.take(i as int).flatten(),
    {
        let line = &lines[i];
        let ghost before = values@;
        for j in 0..line.len()
            invariant
                values@ == before + line@.take(j as int),
        {
            values.push(line[j]);
            assert(line@.take(j as int).push(line@[j as int]) =~= line@.take(j + 1));
        }
        proof {
            assert(line@.take(line.len() as int) =~= line@);
            assert(all.take(i as int).push(all[i as int]) =~= all.take(i + 1));
            all.take(i as int).lemma_flatten_push(all[i as int]);
        }
    }
    assert(all.take(lines.len() as int) =~= all);
    values
}

/// Lays out the given field line data for the file of values along the
/// field lines and for the file of values at the start positions.
pub fn layout_field_line_data_for_h5part(
    properties: &FieldLineSetProperties3,
    drop_id: bool,
) -> (groups: (Option<H5PartGroup>, Option<H5PartGroup>))
    ensures
        group_view(groups.0) == field_line_group(properties@, drop_id),
        group_view(groups.1) == seed_group(properties@, drop_id),
{
    let number_of_field_lines = properties.number_of_field_lines;
    let fixed_scalar_values = &properties.fixed_scalar_values;
    let varying_scalar_values = &properties.varying_scalar_values;
    if number_of_field_lines == 0 || (fixed_scalar_values.len() == 0
        && varying_scalar_values.len() == 0) {
        return (None, None);
    }
    let field_line_group = if varying_scalar_values.len() > 0 {
        let ghost table = properties@.varying_scalar_values;
        let mut datasets: Vec<(String, Vec<ftr>)> = Vec::new();
        for c in 0..varying_scalar_values.len()
            invariant
                varying_scalar_values == &properties.varying_scalar_values,
                table == properties@.varying_scalar_values,
                datasets@.len() == c,
                forall|d: int|
                    0 <= d < c ==> datasets@[d].0@ == dataset_name(table[d].0) && datasets@[d].1@
                        == table[d].1.flatten(),
        {
            let name = name_of_dataset(&varying_scalar_values[c].0);
            let values = concatenate_lines(&varying_scalar_values[c].1);
            datasets.push((name, values));
        }
        let number_of_field_line_elements = datasets[0].1.len();
        proof {
            lemma_flatten_len(table[0].1);
            assert(table[0].1.map_values(|line: Seq<u64>| line.len())
                =~= properties@.line_lengths());
        }
        if number_of_field_line_elements == 0 {
            let group = H5PartGroup { datasets: Vec::new(), ids: None };
            assert(group@.datasets =~= Seq::empty());
            Some(group)
        } else {
            let ids = if drop_id {
                None
            } else {
                Some(ids_of_particles(number_of_field_line_elements))
            };
            let group = H5PartGroup { datasets, ids };
            assert(group@.datasets =~= table.map_values(
                |c: (Seq<char>, Seq<Seq<u64>>)| (dataset_name(c.0), c.1.flatten()),
            ));
            Some(group)
        }
    } else {
        None
    };
    let seed_group = if fixed_scalar_values.len() > 0 {
        let ghost table = properties@.fixed_scalar_values;
        let mut datasets: Vec<(String, Vec<ftr>)> = Vec::new();
        for c in 0..fixed_scalar_values.len()
            invariant
                fixed_scalar_values == &properties.fixed_scalar_values,
                table == properties@.fixed_scalar_values,
                datasets@.len() == c,
                forall|d: int|
                    0 <= d < c ==> datasets@[d].0@ == dataset_name(table[d].0) && datasets@[d].1@
                        == table[d].1,
        {
            let name = name_of_dataset(&fixed_scalar_values[c].0);
            let values = fixed_scalar_values[c].1.clone();
            datasets.push((name, values));
        }
        let ids = if drop_id {
            None
        } else {
            Some(ids_of_particles(number_of_field_lines))
        };
        let group = H5PartGroup { datasets, ids };
        assert(group@.datasets =~= table.map_values(
            |c: (Seq<char>, Seq<u64>)| (dataset_name(c.0), c.1),
        ));
        Some(group)
    } else {
        None
    };
    (field_line_group, seed_group)
}

} // verus!
