//! Field lines in vector fields.

pub mod columns;
pub mod custom_binary;
pub mod h5part;
pub mod reduction;

use crate::geometry::Point3;
use crate::geometry::Vec3;
use crate::io::Verbose;
use crate::tracing::field_line::custom_binary::custom_binary;
use crate::tracing::field_line::custom_binary::write_borrowed_field_line_data_as_custom_binary;
use crate::tracing::field_line::custom_binary::write_field_line_data_as_custom_binary;
use crate::tracing::ftr;
use vstd::prelude::*;
use vstd::string::StringExecFns;

verus! {

/// Coordinates of the points of a field line: the x-, y- and z-series.
pub type FieldLinePath3 = (Vec<ftr>, Vec<ftr>, Vec<ftr>);

/// Named scalar values, one per field line.
pub type FixedScalarValues = Vec<(String, Vec<ftr>)>;

/// Named vector values, one per field line.
pub type FixedVector3Values = Vec<(String, Vec<Vec3<ftr>>)>;

/// Named scalar series, one per field line.
pub type VaryingScalarValues = Vec<(String, Vec<Vec<ftr>>)>;

/// Named vector series, one per field line.
pub type VaryingVector3Values = Vec<(String, Vec<Vec<Vec3<ftr>>>)>;

/// Holds the data associated with a set of 3D field lines.
///
/// Each of the four tables is an ordered list of named columns. A column
/// has one entry per field line; in a varying column that entry is the series
/// of values along the line.
#[derive(Clone, Debug)]
pub struct FieldLineSetProperties3 {
    /// Number of field lines in the set.
    pub number_of_field_lines: usize,
    /// Scalar values defined at the start positions of the field lines.
    pub fixed_scalar_values: FixedScalarValues,
    /// Vector values defined at the start positions of the field lines.
    pub fixed_vector_values: FixedVector3Values,
    /// Scalar values defined along the paths of the field lines.
    pub varying_scalar_values: VaryingScalarValues,
    /// Vector values defined along the paths of the field lines.
    pub varying_vector_values: VaryingVector3Values,
}

/// Mathematical content of a [`FieldLineSetProperties3`].
pub struct FieldLineSetPropertiesView {
    pub number_of_field_lines: nat,
    pub fixed_scalar_values: Seq<(Seq<char>, Seq<u64>)>,
    pub fixed_vector_values: Seq<(Seq<char>, Seq<Seq<u64>>)>,
    pub varying_scalar_values: Seq<(Seq<char>, Seq<Seq<u64>>)>,
    pub varying_vector_values: Seq<(Seq<char>, Seq<Seq<Seq<u64>>>)>,
}

/// Components of each vector of a list.
pub open spec fn vectors_view(vectors: Seq<Vec3<ftr>>) -> Seq<Seq<u64>> {
    vectors.map_values(|v: Vec3<ftr>| v@)
}

/// Values of each series of a list.
pub open spec fn lines_view(lines: Seq<Vec<ftr>>) -> Seq<Seq<u64>> {
    lines.map_values(|l: Vec<ftr>| l@)
}

/// Vectors of each series of a list.
pub open spec fn vector_lines_view(lines: Seq<Vec<Vec3<ftr>>>) -> Seq<Seq<Seq<u64>>> {
    lines.map_values(|l: Vec<Vec3<ftr>>| vectors_view(l@))
}

/// Content of a table of fixed scalar columns.
pub open spec fn fixed_scalars_view(columns: Seq<(String, Vec<ftr>)>) -> Seq<(Seq<char>, Seq<u64>)> {
    columns.map_values(|c: (String, Vec<ftr>)| (c.0@, c.1@))
}

/// Content of a table of fixed vector columns.
pub open spec fn fixed_vectors_view(columns: Seq<(String, Vec<Vec3<ftr>>)>) -> Seq<
    (Seq<char>, Seq<Seq<u64>>),
> {
    columns.map_values(|c: (String, Vec<Vec3<ftr>>)| (c.0@, vectors_view(c.1@)))
}

/// Content of a table of varying scalar columns.
pub open spec fn varying_scalars_view(columns: Seq<(String, Vec<Vec<ftr>>)>) -> Seq<
    (Seq<char>, Seq<Seq<u64>>),
> {
    columns.map_values(|c: (String, Vec<Vec<ftr>>)| (c.0@, lines_view(c.1@)))
}

/// Content of a table of varying vector columns.
pub open spec fn varying_vectors_view(columns: Seq<(String, Vec<Vec<Vec3<ftr>>>)>) -> Seq<
    (Seq<char>, Seq<Seq<Seq<u64>>>),
> {
    columns.map_values(|c: (String, Vec<Vec<Vec3<ftr>>>)| (c.0@, vector_lines_view(c.1@)))
}

impl View for FieldLineSetProperties3 {
    type V = FieldLineSetPropertiesView;

    open spec fn view(&self) -> FieldLineSetPropertiesView {
        FieldLineSetPropertiesView {
            number_of_field_lines: self.number_of_field_lines as nat,
            fixed_scalar_values: fixed_scalars_view(self.fixed_scalar_values@),
            fixed_vector_values: fixed_vectors_view(self.fixed_vector_values@),
            varying_scalar_values: varying_scalars_view(self.varying_scalar_values@),
            varying_vector_values: varying_vectors_view(self.varying_vector_values@),
        }
    }
}

impl FieldLineSetPropertiesView {
    /// Names of all columns: those of the fixed scalars, then of the fixed
    /// vectors, the varying scalars and the varying vectors.
    pub open spec fn names(self) -> Seq<Seq<char>> {
        self.fixed_scalar_values.map_values(|c: (Seq<char>, Seq<u64>)| c.0)
            + self.fixed_vector_values.map_values(|c: (Seq<char>, Seq<Seq<u64>>)| c.0)
            + self.varying_scalar_values.map_values(|c: (Seq<char>, Seq<Seq<u64>>)| c.0)
            + self.varying_vector_values.map_values(|c: (Seq<char>, Seq<Seq<Seq<u64>>>)| c.0)
    }

    /// All fixed scalar values in one row: column by column, line by line.
    pub open spec fn flat_fixed_scalar_values(self) -> Seq<u64> {
        self.fixed_scalar_values.map_values(|c: (Seq<char>, Seq<u64>)| c.1).flatten()
    }

    /// All fixed vector components in one row: column by column, line by
    /// line, component by component.
    pub open spec fn flat_fixed_vector_values(self) -> Seq<u64> {
        self.fixed_vector_values.map_values(
            |c: (Seq<char>, Seq<Seq<u64>>)| c.1.flatten(),
        ).flatten()
    }

    /// All varying scalar values in one row: column by column, line by
    /// line, point by point.
    pub open spec fn flat_varying_scalar_values(self) -> Seq<u64> {
        self.varying_scalar_values.map_values(
            |c: (Seq<char>, Seq<Seq<u64>>)| c.1.flatten(),
        ).flatten()
    }

    /// All varying vector components in one row: column by column, line by
    /// line, point by point, component by component.
    pub open spec fn flat_varying_vector_values(self) -> Seq<u64> {
        self.varying_vector_values.map_values(
            |c: (Seq<char>, Seq<Seq<Seq<u64>>>)| c.1.flatten().flatten(),
        ).flatten()
    }

    /// Number of points of each field line, read off the first varying
    /// column; where there is no varying column, no line has a point.
    pub open spec fn line_lengths(self) -> Seq<nat> {
        if self.varying_scalar_values.len() > 0 {
            self.varying_scalar_values[0].1.map_values(|line: Seq<u64>| line.len())
        } else if self.varying_vector_values.len() > 0 {
            self.varying_vector_values[0].1.map_values(|line: Seq<Seq<u64>>| line.len())
        } else {
            Seq::new(self.number_of_field_lines, |i: int| 0nat)
        }
    }

    /// Total number of points of all field lines.
    pub open spec fn number_of_field_line_elements(self) -> nat {
        total(self.line_lengths())
    }

    /// For each field line, the number of points of all lines before it.
    pub open spec fn start_indices_of_field_line_elements(self) -> Seq<nat> {
        start_indices(self.line_lengths())
    }
}

/// Sum of a sequence of lengths.
pub open spec fn total(lengths: Seq<nat>) -> nat
    decreases lengths.len(),
{
    if lengths.len() == 0 {
        0
    } else {
        total(lengths.drop_last()) + lengths.last()
    }
}

/// For each length of a sequence, the sum of the lengths before it.
pub open spec fn start_indices(lengths: Seq<nat>) -> Seq<nat> {
    Seq::new(lengths.len(), |i: int| total(lengths.take(i)))
}

/// The sum of the first lengths of a sequence grows with their number and
/// never exceeds the sum of them all.
pub proof fn lemma_total_of_prefix(lengths: Seq<nat>, i: int)
    requires
        0 <= i <= lengths.len(),
    ensures
        total(lengths.take(i)) <= total(lengths),
        i < lengths.len() ==> total(lengths.take(i + 1)) == total(lengths.take(i)) + lengths[i],
    decreases lengths.len() - i,
{
    if i < lengths.len() {
        assert(lengths.take(i + 1).drop_last() =~= lengths.take(i));
        lemma_total_of_prefix(lengths, i + 1);
    } else {
        assert(lengths.take(i) =~= lengths);
    }
}

/// A list of series flattened has as many entries as the series have
/// together.
pub proof fn lemma_flatten_len<A>(lines: Seq<Seq<A>>)
    ensures
        lines.flatten().len() == total(lines.map_values(|line: Seq<A>| line.len())),
    decreases lines.len(),
{
    let lengths = lines.map_values(|line: Seq<A>| line.len());
    if lines.len() == 0 {
        assert(lines.flatten() =~= Seq::<A>::empty());
    } else {
        let init = lines.drop_last();
        lemma_flatten_len(init);
        assert(init.push(lines.last()) =~= lines);
        init.lemma_flatten_push(lines.last());
        assert(lengths.drop_last() =~= init.map_values(|line: Seq<A>| line.len()));
    }
}

/// The lengths as natural numbers.
pub open spec fn lengths_view(lengths: Seq<usize>) -> Seq<nat> {
    lengths.map_values(|l: usize| l as nat)
}

impl FieldLineSetProperties3 {
    /// Number of points of each field line, read off the first varying
    /// column; where there is no varying column, no line has a point.
    pub fn line_lengths(&self) -> (lengths: Vec<usize>)
        ensures
            lengths_view(lengths@) == self@.line_lengths(),
    {
        let mut lengths: Vec<usize> = Vec::new();
        if self.varying_scalar_values.len() > 0 {
            let lines = &self.varying_scalar_values[0].1;
            for i in 0..lines.len()
                invariant
                    lines == &self.varying_scalar_values[0].1,
                    self.varying_scalar_values.len() > 0,
                    lengths@.len() == i,
                    forall|j: int| 0 <= j < i ==> lengths@[j] == lines@[j]@.len(),
            {
                lengths.push(lines[i].len());
            }
            assert(lengths_view(lengths@) =~= self@.line_lengths());
        } else if self.varying_vector_values.len() > 0 {
            let lines = &self.varying_vector_values[0].1;
            for i in 0..lines.len()
                invariant
                    lines == &self.varying_vector_values[0].1,
                    self.varying_vector_values.len() > 0,
                    lengths@.len() == i,
                    forall|j: int| 0 <= j < i ==> lengths@[j] == lines@[j]@.len(),
            {
                lengths.push(lines[i].len());
            }
            assert(lengths_view(lengths@) =~= self@.line_lengths());
        } else {
            for i in 0..self.number_of_field_lines
                invariant
                    lengths@.len() == i,
                    forall|j: int| 0 <= j < i ==> lengths@[j] == 0,
            {
                lengths.push(0);
            }
            assert(lengths_view(lengths@) =~= self@.line_lengths());
        }
        lengths
    }

    /// Total number of points of all field lines, where that number fits
    /// the machine's word.
    pub fn number_of_field_line_elements(&self) -> (count: Option<usize>)
        ensures
            count == if self@.number_of_field_line_elements() <= usize::MAX {
                Some(self@.number_of_field_line_elements() as usize)
            } else {
                None
            },
    {
        let lengths = self.line_lengths();
        let ghost all = lengths_view(lengths@);
        let mut count: usize = 0;
        for i in 0..lengths.len()
            invariant
                all == lengths_view(lengths@),
                all == self@.line_lengths(),
                count == total(all.take(i as int)),
        {
            proof {
                lemma_total_of_prefix(all, i as int);
                lemma_total_of_prefix(all, i + 1);
            }
            match count.checked_add(lengths[i]) {
                Some(sum) => {
                    count = sum;
                },
                None => {
                    return None;
                },
            }
        }
        assert(all.take(lengths.len() as int) =~= all);
        Some(count)
    }

    /// For each field line, the index of its first point among the points
    /// of all lines.
    pub fn start_indices_of_field_line_elements(&self) -> (starts: Vec<u64>)
        requires
            self@.number_of_field_line_elements() <= usize::MAX,
        ensures
            starts@.map_values(|start: u64| start as nat)
                == self@.start_indices_of_field_line_elements(),
    {
        let lengths = self.line_lengths();
        let ghost all = lengths_view(lengths@);
        let mut starts: Vec<u64> = Vec::new();
        let mut count: usize = 0;
        for i in 0..lengths.len()
            invariant
                all == lengths_view(lengths@),
                all == self@.line_lengths(),
                total(all) <= usize::MAX,
                count == total(all.take(i as int)),
                starts@.len() == i,
                forall|j: int| 0 <= j < i ==> starts@[j] == total(all.take(j)),
        {
            proof {
                lemma_total_of_prefix(all, i as int);
                lemma_total_of_prefix(all, i + 1);
            }
            starts.push(count as u64);
            count = count + lengths[i];
        }
        assert(starts@.map_values(|start: u64| start as nat) =~= start_indices(all));
        starts
    }
}

/// Position of the first of the names that equals `name`.
pub open spec fn name_index(names: Seq<Seq<char>>, name: Seq<char>) -> Option<int>
    decreases names.len(),
{
    if names.len() == 0 {
        None
    } else {
        match name_index(names.drop_last(), name) {
            Some(i) => Some(i),
            None => if names.last() == name {
                Some(names.len() - 1)
            } else {
                None
            },
        }
    }
}

/// What [`name_index`] finds: the least position of the name, or nothing
/// where the name does not occur.
pub proof fn lemma_name_index(names: Seq<Seq<char>>, name: Seq<char>)
    ensures
        match name_index(names, name) {
            Some(i) => 0 <= i < names.len() && names[i] == name && forall|j: int|
                0 <= j < i ==> names[j] != name,
            None => forall|j: int| 0 <= j < names.len() ==> names[j] != name,
        },
    decreases names.len(),
{
    if names.len() > 0 {
        let init = names.drop_last();
        lemma_name_index(init, name);
        match name_index(names, name) {
            Some(i) => {
                assert forall|j: int| 0 <= j < i implies names[j] != name by {
                    assert(init[j] == names[j]);
                }
            },
            None => {
                assert forall|j: int| 0 <= j < names.len() implies names[j] != name by {
                    if j < init.len() {
                        assert(init[j] == names[j]);
                    }
                }
            },
        }
    }
}

/// The least position of a name is what [`name_index`] finds.
pub proof fn lemma_name_index_is(names: Seq<Seq<char>>, name: Seq<char>, i: int)
    requires
        0 <= i < names.len(),
        names[i] == name,
        forall|j: int| 0 <= j < i ==> names[j] != name,
    ensures
        name_index(names, name) == Some(i),
{
    lemma_name_index(names, name);
}

/// The names of the columns of a table.
pub open spec fn column_names<V>(columns: Seq<(String, V)>) -> Seq<Seq<char>> {
    columns.map_values(|c: (String, V)| c.0@)
}

/// The names of the columns of a table's content.
pub open spec fn table_names<W>(table: Seq<(Seq<char>, W)>) -> Seq<Seq<char>> {
    table.map_values(|c: (Seq<char>, W)| c.0)
}

/// The values of the first column with the given name.
pub open spec fn column_values<W>(table: Seq<(Seq<char>, W)>, name: Seq<char>) -> Option<W> {
    match name_index(table_names(table), name) {
        Some(i) => Some(table[i].1),
        None => None,
    }
}

/// The table after the given values were stored under the given name: in
/// place of the first column of that name, or else as a new last column.
pub open spec fn with_column<W>(table: Seq<(Seq<char>, W)>, name: Seq<char>, values: W) -> Seq<
    (Seq<char>, W),
> {
    match name_index(table_names(table), name) {
        Some(i) => table.update(i, (name, values)),
        None => table.push((name, values)),
    }
}

/// Whether no two columns of a table share a name.
pub open spec fn has_distinct_names<W>(table: Seq<(Seq<char>, W)>) -> bool {
    forall|i: int, j: int| 0 <= i < j < table.len() ==> table[i].0 != table[j].0
}

/// Storing values under a name keeps the names of a table distinct.
pub proof fn lemma_with_column_keeps_names_distinct<W>(
    table: Seq<(Seq<char>, W)>,
    name: Seq<char>,
    values: W,
)
    requires
        has_distinct_names(table),
    ensures
        has_distinct_names(with_column(table, name, values)),
        column_values(with_column(table, name, values), name) == Some(values),
{
    let names = table_names(table);
    lemma_name_index(names, name);
    let after = with_column(table, name, values);
    match name_index(names, name) {
        Some(i) => {
            assert(table_names(after) =~= names);
            assert forall|k: int, l: int| 0 <= k < l < after.len() implies after[k].0
                != after[l].0 by {
                assert(after[k].0 == table[k].0 && after[l].0 == table[l].0);
            }
        },
        None => {
            assert forall|j: int| 0 <= j < table.len() implies table_names(after)[j] != name by {
                assert(names[j] != name);
            }
            lemma_name_index_is(table_names(after), name, table.len() as int);
            assert forall|k: int, l: int| 0 <= k < l < after.len() implies after[k].0
                != after[l].0 by {
                if l < table.len() {
                    assert(after[k].0 == table[k].0 && after[l].0 == table[l].0);
                } else {
                    assert(names[k] != name);
                }
            }
        },
    }
}

/// Finds the first column with the given name.
pub fn find_column<V>(columns: &Vec<(String, V)>, name: &String) -> (index: Option<usize>)
    ensures
        match index {
            Some(i) => i < columns.len() && columns@[i as int].0@ == name@ && name_index(
                column_names(columns@),
                name@,
            ) == Some(i as int),
            None => name_index(column_names(columns@), name@) is None,
        },
{
    let ghost names = column_names(columns@);
    for i in 0..columns.len()
        invariant
            names == column_names(columns@),
            forall|j: int| 0 <= j < i ==> names[j] != name@,
    {
        if columns[i].0 == *name {
            proof {
                lemma_name_index_is(names, name@, i as int);
            }
            return Some(i);
        }
    }
    proof {
        lemma_name_index(names, name@);
    }
    None
}

impl FieldLineSetProperties3 {
    /// The fixed scalar values stored under the given name.
    pub fn get_fixed_scalar_values(&self, name: &str) -> (values: Option<&Vec<ftr>>)
        ensures
            match values {
                Some(values) => column_values(self@.fixed_scalar_values, name@) == Some(values@),
                None => column_values(self@.fixed_scalar_values, name@) is None,
            },
    {
        let name = String::from_str(name);
        assert(table_names(self@.fixed_scalar_values) =~= column_names(
            self.fixed_scalar_values@,
        ));
        match find_column(&self.fixed_scalar_values, &name) {
            Some(i) => Some(&self.fixed_scalar_values[i].1),
            None => None,
        }
    }

    /// The varying scalar values stored under the given name.
    pub fn get_varying_scalar_values(&self, name: &str) -> (values: Option<&Vec<Vec<ftr>>>)
        ensures
            match values {
                Some(values) => column_values(self@.varying_scalar_values, name@) == Some(
                    lines_view(values@),
                ),
                None => column_values(self@.varying_scalar_values, name@) is None,
            },
    {
        let name = String::from_str(name);
        assert(table_names(self@.varying_scalar_values) =~= column_names(
            self.varying_scalar_values@,
        ));
        match find_column(&self.varying_scalar_values, &name) {
            Some(i) => Some(&self.varying_scalar_values[i].1),
            None => None,
        }
    }

    /// Stores fixed scalar values under the given name, in place of any
    /// that were stored under it.
    pub fn insert_fixed_scalar_values(&mut self, name: String, values: Vec<ftr>)
        ensures
            final(self)@ == (FieldLineSetPropertiesView {
                fixed_scalar_values: with_column(old(self)@.fixed_scalar_values, name@, values@),
                ..old(self)@
            }),
    {
        assert(table_names(self@.fixed_scalar_values) =~= column_names(
            self.fixed_scalar_values@,
        ));
        match find_column(&self.fixed_scalar_values, &name) {
            Some(i) => {
                self.fixed_scalar_values[i] = (name, values);
            },
            None => {
                self.fixed_scalar_values.push((name, values));
            },
        }
        assert(self@.fixed_scalar_values =~= with_column(
            old(self)@.fixed_scalar_values,
            name@,
            values@,
        ));
    }

    /// Stores fixed vector values under the given name, in place of any
    /// that were stored under it.
    pub fn insert_fixed_vector_values(&mut self, name: String, values: Vec<Vec3<ftr>>)
        ensures
            final(self)@ == (FieldLineSetPropertiesView {
                fixed_vector_values: with_column(
                    old(self)@.fixed_vector_values,
                    name@,
                    vectors_view(values@),
                ),
                ..old(self)@
            }),
    {
        assert(table_names(self@.fixed_vector_values) =~= column_names(
            self.fixed_vector_values@,
        ));
        match find_column(&self.fixed_vector_values, &name) {
            Some(i) => {
                self.fixed_vector_values[i] = (name, values);
            },
            None => {
                self.fixed_vector_values.push((name, values));
            },
        }
        assert(self@.fixed_vector_values =~= with_column(
            old(self)@.fixed_vector_values,
            name@,
            vectors_view(values@),
        ));
    }

    /// Stores varying scalar values under the given name, in place of any
    /// that were stored under it.
    pub fn insert_varying_scalar_values(&mut self, name: String, values: Vec<Vec<ftr>>)
        ensures
            final(self)@ == (FieldLineSetPropertiesView {
                varying_scalar_values: with_column(
                    old(self)@.varying_scalar_values,
                    name@,
                    lines_view(values@),
                ),
                ..old(self)@
            }),
    {
        assert(table_names(self@.varying_scalar_values) =~= column_names(
            self.varying_scalar_values@,
        ));
        match find_column(&self.varying_scalar_values, &name) {
            Some(i) => {
                self.varying_scalar_values[i] = (name, values);
            },
            None => {
                self.varying_scalar_values.push((name, values));
            },
        }
        assert(self@.varying_scalar_values =~= with_column(
            old(self)@.varying_scalar_values,
            name@,
            lines_view(values@),
        ));
    }

    /// Stores varying vector values under the given name, in place of any
    /// that were stored under it.
    pub fn insert_varying_vector_values(&mut self, name: String, values: Vec<Vec<Vec3<ftr>>>)
        ensures
            final(self)@ == (FieldLineSetPropertiesView {
                varying_vector_values: with_column(
                    old(self)@.varying_vector_values,
                    name@,
                    vector_lines_view(values@),
                ),
                ..old(self)@
            }),
    {
        assert(table_names(self@.varying_vector_values) =~= column_names(
            self.varying_vector_values@,
        ));
        match find_column(&self.varying_vector_values, &name) {
            Some(i) => {
                self.varying_vector_values[i] = (name, values);
            },
            None => {
                self.varying_vector_values.push((name, values));
            },
        }
        assert(self@.varying_vector_values =~= with_column(
            old(self)@.varying_vector_values,
            name@,
            vector_lines_view(values@),
        ));
    }
}

/// Collection of 3D field lines.
#[derive(Clone, Debug)]
pub struct FieldLineSet3 {
    lower_bounds: Vec3<ftr>,
    upper_bounds: Vec3<ftr>,
    properties: FieldLineSetProperties3,
    verbose: Verbose,
}

/// Mathematical content of a [`FieldLineSet3`].
pub struct FieldLineSetView {
    pub lower_bounds: Seq<u64>,
    pub upper_bounds: Seq<u64>,
    pub properties: FieldLineSetPropertiesView,
    pub verbose: Verbose,
}

impl View for FieldLineSet3 {
    type V = FieldLineSetView;

    closed spec fn view(&self) -> FieldLineSetView {
        FieldLineSetView {
            lower_bounds: self.lower_bounds@,
            upper_bounds: self.upper_bounds@,
            properties: self.properties@,
            verbose: self.verbose,
        }
    }
}

/// The least of three lengths.
pub open spec fn least_length(a: nat, b: nat, c: nat) -> nat {
    if a <= b && a <= c {
        a
    } else if b <= c {
        b
    } else {
        c
    }
}

/// The points whose coordinates stand at equal positions in three series,
/// as far as all three series reach.
pub open spec fn zipped_points(x: Seq<u64>, y: Seq<u64>, z: Seq<u64>) -> Seq<Seq<u64>> {
    Seq::new(least_length(x.len(), y.len(), z.len()), |i: int| seq![x[i], y[i], z[i]])
}

/// The paths whose coordinate series stand at equal positions in three
/// lists, as far as all three lists reach.
pub open spec fn zipped_paths(x: Seq<Seq<u64>>, y: Seq<Seq<u64>>, z: Seq<Seq<u64>>) -> Seq<
    Seq<Seq<u64>>,
> {
    Seq::new(
        least_length(x.len(), y.len(), z.len()),
        |l: int| zipped_points(x[l], y[l], z[l]),
    )
}

/// Coordinates of each point of a list.
pub open spec fn points_view(points: Seq<Point3<ftr>>) -> Seq<Seq<u64>> {
    points.map_values(|p: Point3<ftr>| p@)
}

/// Points of each path of a list.
pub open spec fn paths_view(paths: Seq<Vec<Point3<ftr>>>) -> Seq<Seq<Seq<u64>>> {
    paths.map_values(|path: Vec<Point3<ftr>>| points_view(path@))
}

/// The least of three lengths.
fn least_of(a: usize, b: usize, c: usize) -> (least: usize)
    ensures
        least == least_length(a as nat, b as nat, c as nat),
{
    if a <= b && a <= c {
        a
    } else if b <= c {
        b
    } else {
        c
    }
}

/// The points whose coordinates stand at equal positions in three series.
fn zip_points(x: &Vec<ftr>, y: &Vec<ftr>, z: &Vec<ftr>) -> (points: Vec<Point3<ftr>>)
    ensures
        points_view(points@) == zipped_points(x@, y@, z@),
{
    let number_of_points = least_of(x.len(), y.len(), z.len());
    let mut points: Vec<Point3<ftr>> = Vec::new();
    for i in 0..number_of_points
        invariant
            number_of_points == least_length(x@.len(), y@.len(), z@.len()),
            points@.len() == i,
            forall|j: int| 0 <= j < i ==> points@[j]@ == seq![x@[j], y@[j], z@[j]],
    {
        points.push(Point3::new(x[i], y[i], z[i]));
    }
    assert(points_view(points@) =~= zipped_points(x@, y@, z@));
    points
}

impl FieldLineSet3 {
    /// Creates a new 3D field line set with the given bounds and properties.
    pub fn new(
        lower_bounds: Vec3<ftr>,
        upper_bounds: Vec3<ftr>,
        properties: FieldLineSetProperties3,
        verbose: Verbose,
    ) -> (set: Self)
        ensures
            set@ == (FieldLineSetView {
                lower_bounds: lower_bounds@,
                upper_bounds: upper_bounds@,
                properties: properties@,
                verbose,
            }),
    {
        Self { lower_bounds, upper_bounds, properties, verbose }
    }

    /// Whether the field line set is verbose.
    pub fn verbose(&self) -> (verbose: Verbose)
        ensures
            verbose == self@.verbose,
    {
        self.verbose
    }

    /// Returns the number of field lines making up the field line set.
    pub fn number_of_field_lines(&self) -> (number: usize)
        ensures
            number == self@.properties.number_of_field_lines,
    {
        self.properties.number_of_field_lines
    }

    /// Lower bounds of the volume that holds the field lines.
    pub fn lower_bounds(&self) -> (bounds: &Vec3<ftr>)
        ensures
            bounds@ == self@.lower_bounds,
    {
        &self.lower_bounds
    }

    /// Upper bounds of the volume that holds the field lines.
    pub fn upper_bounds(&self) -> (bounds: &Vec3<ftr>)
        ensures
            bounds@ == self@.upper_bounds,
    {
        &self.upper_bounds
    }

    /// The data associated with the field lines.
    pub fn properties(&self) -> (properties: &FieldLineSetProperties3)
        ensures
            properties@ == self@.properties,
    {
        &self.properties
    }

    /// Whether the data holds the coordinates of the start positions: fixed
    /// scalar values named `x0`, `y0` and `z0`.
    pub open spec fn has_start_positions(properties: FieldLineSetPropertiesView) -> bool {
        &&& column_values(properties.fixed_scalar_values, "x0"@) is Some
        &&& column_values(properties.fixed_scalar_values, "y0"@) is Some
        &&& column_values(properties.fixed_scalar_values, "z0"@) is Some
    }

    /// Whether the data holds the coordinates of the paths: varying scalar
    /// values named `x`, `y` and `z`.
    pub open spec fn has_paths(properties: FieldLineSetPropertiesView) -> bool {
        &&& column_values(properties.varying_scalar_values, "x"@) is Some
        &&& column_values(properties.varying_scalar_values, "y"@) is Some
        &&& column_values(properties.varying_scalar_values, "z"@) is Some
    }

    /// The start position of each field line.
    pub fn start_positions(&self) -> (positions: Vec<Point3<ftr>>)
        requires
            Self::has_start_positions(self@.properties),
        ensures
            points_view(positions@) == zipped_points(
                column_values(self@.properties.fixed_scalar_values, "x0"@)->0,
                column_values(self@.properties.fixed_scalar_values, "y0"@)->0,
                column_values(self@.properties.fixed_scalar_values, "z0"@)->0,
            ),
    {
        let initial_coords_x = self.properties.get_fixed_scalar_values("x0").unwrap();
        let initial_coords_y = self.properties.get_fixed_scalar_values("y0").unwrap();
        let initial_coords_z = self.properties.get_fixed_scalar_values("z0").unwrap();
        zip_points(initial_coords_x, initial_coords_y, initial_coords_z)
    }

    /// The positions along each field line.
    pub fn path_positions(&self) -> (positions: Vec<Vec<Point3<ftr>>>)
        requires
            Self::has_paths(self@.properties),
        ensures
            paths_view(positions@) == zipped_paths(
                column_values(self@.properties.varying_scalar_values, "x"@)->0,
                column_values(self@.properties.varying_scalar_values, "y"@)->0,
                column_values(self@.properties.varying_scalar_values, "z"@)->0,
            ),
    {
        let coords_x = self.properties.get_varying_scalar_values("x").unwrap();
        let coords_y = self.properties.get_varying_scalar_values("y").unwrap();
        let coords_z = self.properties.get_varying_scalar_values("z").unwrap();
        let number_of_paths = least_of(coords_x.len(), coords_y.len(), coords_z.len());
        let mut positions: Vec<Vec<Point3<ftr>>> = Vec::new();
        for l in 0..number_of_paths
            invariant
                number_of_paths == least_length(coords_x@.len(), coords_y@.len(), coords_z@.len()),
                positions@.len() == l,
                forall|k: int|
                    0 <= k < l ==> points_view(positions@[k]@) == zipped_points(
                        coords_x@[k]@,
                        coords_y@[k]@,
                        coords_z@[k]@,
                    ),
        {
            positions.push(zip_points(&coords_x[l], &coords_y[l], &coords_z[l]));
        }
        assert(paths_view(positions@) =~= zipped_paths(
            lines_view(coords_x@),
            lines_view(coords_y@),
            lines_view(coords_z@),
        ));
        positions
    }

    /// The name under which a quantity's values at the start positions are
    /// stored: the quantity's name followed by `0`.
    pub open spec fn fixed_name(field_name: Seq<char>) -> Seq<char> {
        field_name.push('0')
    }

    /// The name of a quantity's values at the start positions.
    fn name_of_fixed_values(field_name: &str) -> (name: String)
        ensures
            name@ == Self::fixed_name(field_name@),
    {
        proof {
            reveal_strlit("0");
            assert("0"@ =~= seq!['0']);
        }
        let name = String::from_str(field_name).concat("0");
        assert(name@ =~= field_name@.push('0'));
        name
    }

    /// Stores the values of the given scalar field at the start position of
    /// each field line.
    pub fn extract_fixed_scalars(&mut self, field_name: &str, values: Vec<ftr>)
        ensures
            final(self)@ == (FieldLineSetView {
                properties: FieldLineSetPropertiesView {
                    fixed_scalar_values: with_column(
                        old(self)@.properties.fixed_scalar_values,
                        Self::fixed_name(field_name@),
                        values@,
                    ),
                    ..old(self)@.properties
                },
                ..old(self)@
            }),
    {
        let name = Self::name_of_fixed_values(field_name);
        self.properties.insert_fixed_scalar_values(name, values);
    }

    /// Stores the values of the given vector field at the start position of
    /// each field line.
    pub fn extract_fixed_vectors(&mut self, field_name: &str, vectors: Vec<Vec3<ftr>>)
        ensures
            final(self)@ == (FieldLineSetView {
                properties: FieldLineSetPropertiesView {
                    fixed_vector_values: with_column(
                        old(self)@.properties.fixed_vector_values,
                        Self::fixed_name(field_name@),
                        vectors_view(vectors@),
                    ),
                    ..old(self)@.properties
                },
                ..old(self)@
            }),
    {
        let name = Self::name_of_fixed_values(field_name);
        self.properties.insert_fixed_vector_values(name, vectors);
    }

    /// Stores the values of the given scalar field at each position of
    /// each field line.
    pub fn extract_varying_scalars(&mut self, field_name: &str, values: Vec<Vec<ftr>>)
        ensures
            final(self)@ == (FieldLineSetView {
                properties: FieldLineSetPropertiesView {
                    varying_scalar_values: with_column(
                        old(self)@.properties.varying_scalar_values,
                        field_name@,
                        lines_view(values@),
                    ),
                    ..old(self)@.properties
                },
                ..old(self)@
            }),
    {
        self.properties.insert_varying_scalar_values(String::from_str(field_name), values);
    }

    /// Stores the values of the given vector field at each position of
    /// each field line.
    pub fn extract_varying_vectors(&mut self, field_name: &str, vectors: Vec<Vec<Vec3<ftr>>>)
        ensures
            final(self)@ == (FieldLineSetView {
                properties: FieldLineSetPropertiesView {
                    varying_vector_values: with_column(
                        old(self)@.properties.varying_vector_values,
                        field_name@,
                        vector_lines_view(vectors@),
                    ),
                    ..old(self)@.properties
                },
                ..old(self)@
            }),
    {
        self.properties.insert_varying_vector_values(String::from_str(field_name), vectors);
    }

    /// Stores the magnitudes of the given vector field at each position of
    /// each field line, as scalar values under the field's name.
    pub fn extract_varying_vector_magnitudes(&mut self, field_name: &str, magnitudes: Vec<Vec<ftr>>)
        ensures
            final(self)@ == (FieldLineSetView {
                properties: FieldLineSetPropertiesView {
                    varying_scalar_values: with_column(
                        old(self)@.properties.varying_scalar_values,
                        field_name@,
                        lines_view(magnitudes@),
                    ),
                    ..old(self)@.properties
                },
                ..old(self)@
            }),
    {
        self.properties.insert_varying_scalar_values(String::from_str(field_name), magnitudes);
    }

    /// Serializes the field line data into a custom binary format and writes to the given writer.
    pub fn write_as_custom_binary(&self, writer: &mut Vec<u8>)
        requires
            self@.properties.number_of_field_line_elements() <= usize::MAX,
        ensures
            final(writer)@ == old(writer)@ + custom_binary(
                self@.lower_bounds,
                self@.upper_bounds,
                self@.properties,
            ),
    {
        write_borrowed_field_line_data_as_custom_binary(
            writer,
            &self.lower_bounds,
            &self.upper_bounds,
            &self.properties,
        )
    }

    /// Serializes the field line data into a custom binary format and writes to the given writer,
    /// consuming the field line set in the process.
    pub fn write_into_custom_binary(self, writer: &mut Vec<u8>)
        requires
            self@.properties.number_of_field_line_elements() <= usize::MAX,
        ensures
            final(writer)@ == old(writer)@ + custom_binary(
                self@.lower_bounds,
                self@.upper_bounds,
                self@.properties,
            ),
    {
        write_field_line_data_as_custom_binary(
            writer,
            &self.lower_bounds,
            &self.upper_bounds,
            self.properties,
        )
    }
}

} // verus!
