//! What the columns of field line data hold, and when they fit together.

use crate::geometry::Dim3;
use crate::geometry::Vec3;
use crate::tracing::field_line::has_distinct_names;
use crate::tracing::field_line::lengths_view;
use crate::tracing::field_line::FieldLineSetProperties3;
use crate::tracing::field_line::FieldLineSetPropertiesView;
use crate::tracing::ftr;
use vstd::prelude::*;

verus! {

/// What a column holds for one field line.
pub trait ColumnEntry: Sized {
    /// Mathematical content of an entry.
    type Model;

    /// The content of this entry.
    spec fn model(&self) -> Self::Model;

    /// The content of the blank entry for a field line with the given
    /// number of points.
    spec fn blank_model(length: nat) -> Self::Model;

    /// Whether an entry of the given content can stand for a field line
    /// with the given number of points.
    spec fn fits(model: Self::Model, length: nat) -> bool;

    /// The blank entry for a field line can stand for that field line.
    proof fn lemma_blank_fits(length: nat)
        ensures
            Self::fits(Self::blank_model(length), length),
    ;

    /// Whether this entry can stand for a field line with the given number
    /// of points.
    fn fits_length(&self, length: usize) -> (fits: bool)
        ensures
            fits == Self::fits(self.model(), length as nat),
    ;

    /// Another entry with the same content.
    fn duplicate(&self) -> (copy: Self)
        ensures
            copy.model() == self.model(),
    ;

    /// The blank entry for a field line with the given number of points.
    fn blank(length: usize) -> (entry: Self)
        ensures
            entry.model() == Self::blank_model(length as nat),
    ;
}

/// A scalar value at the start of a field line; the blank is zero.
impl ColumnEntry for ftr {
    type Model = u64;

    open spec fn model(&self) -> u64 {
        *self
    }

    open spec fn blank_model(length: nat) -> u64 {
        0
    }

    open spec fn fits(model: u64, length: nat) -> bool {
        true
    }

    proof fn lemma_blank_fits(length: nat) {
    }

    fn fits_length(&self, length: usize) -> (fits: bool) {
        true
    }

    fn duplicate(&self) -> (copy: Self) {
        *self
    }

    fn blank(length: usize) -> (entry: Self) {
        0
    }
}

/// A vector at the start of a field line; the blank is the zero vector.
impl ColumnEntry for Vec3<ftr> {
    type Model = Seq<u64>;

    open spec fn model(&self) -> Seq<u64> {
        self@
    }

    open spec fn blank_model(length: nat) -> Seq<u64> {
        seq![0u64, 0u64, 0u64]
    }

    open spec fn fits(model: Seq<u64>, length: nat) -> bool {
        model.len() == 3
    }

    proof fn lemma_blank_fits(length: nat) {
    }

    fn fits_length(&self, length: usize) -> (fits: bool) {
        proof {
            self.lemma_components();
        }
        true
    }

    fn duplicate(&self) -> (copy: Self) {
        proof {
            self.lemma_components();
        }
        let copy = Vec3::new(self[Dim3::X], self[Dim3::Y], self[Dim3::Z]);
        assert(copy@ =~= self@);
        copy
    }

    fn blank(length: usize) -> (entry: Self) {
        Vec3::new(0, 0, 0)
    }
}

/// The scalar values along a field line; the blank is a zero for each point.
impl ColumnEntry for Vec<ftr> {
    type Model = Seq<u64>;

    open spec fn model(&self) -> Seq<u64> {
        self@
    }

    open spec fn blank_model(length: nat) -> Seq<u64> {
        Seq::new(length, |k: int| 0u64)
    }

    open spec fn fits(model: Seq<u64>, length: nat) -> bool {
        model.len() == length
    }

    proof fn lemma_blank_fits(length: nat) {
    }

    fn fits_length(&self, length: usize) -> (fits: bool) {
        self.len() == length
    }

    fn duplicate(&self) -> (copy: Self) {
        let mut copy: Vec<ftr> = Vec::new();
        for k in 0..self.len()
            invariant
                copy@ == self@.take(k as int),
        {
            copy.push(self[k]);
            assert(self@.take(k as int).push(self@[k as int]) =~= self@.take(k + 1));
        }
        assert(self@.take(self.len() as int) =~= self@);
        copy
    }

    fn blank(length: usize) -> (entry: Self) {
        let mut entry: Vec<ftr> = Vec::new();
        for k in 0..length
            invariant
                entry@ == Seq::new(k as nat, |k: int| 0u64),
        {
            entry.push(0);
            assert(entry@ =~= Seq::new((k + 1) as nat, |k: int| 0u64));
        }
        entry
    }
}

/// The vectors along a field line; the blank is a zero vector for each
/// point.
impl ColumnEntry for Vec<Vec3<ftr>> {
    type Model = Seq<Seq<u64>>;

    open spec fn model(&self) -> Seq<Seq<u64>> {
        self@.map_values(|v: Vec3<ftr>| v@)
    }

    open spec fn blank_model(length: nat) -> Seq<Seq<u64>> {
        Seq::new(length, |k: int| seq![0u64, 0u64, 0u64])
    }

    open spec fn fits(model: Seq<Seq<u64>>, length: nat) -> bool {
        model.len() == length && forall|k: int| 0 <= k < model.len() ==> model[k].len() == 3
    }

    proof fn lemma_blank_fits(length: nat) {
    }

    fn fits_length(&self, length: usize) -> (fits: bool) {
        proof {
            assert forall|k: int| 0 <= k < self.model().len() implies self.model()[k].len()
                == 3 by {
                self@[k].lemma_components();
            }
        }
        self.len() == length
    }

    fn duplicate(&self) -> (copy: Self) {
        let mut copy: Vec<Vec3<ftr>> = Vec::new();
        for k in 0..self.len()
            invariant
                copy@.len() == k,
                forall|j: int| 0 <= j < k ==> copy@[j]@ == self@[j]@,
        {
            copy.push(self[k].duplicate());
        }
        assert(copy.model() =~= self.model());
        copy
    }

    fn blank(length: usize) -> (entry: Self) {
        let mut entry: Vec<Vec3<ftr>> = Vec::new();
        for k in 0..length
            invariant
                entry@.len() == k,
                forall|j: int| 0 <= j < k ==> entry@[j]@ == seq![0u64, 0u64, 0u64],
        {
            entry.push(Vec3::new(0, 0, 0));
        }
        assert(entry.model() =~= Self::blank_model(length as nat));
        entry
    }
}

/// The content of the entries of a column.
pub open spec fn entries_model<X: ColumnEntry>(entries: Seq<X>) -> Seq<X::Model> {
    entries.map_values(|entry: X| entry.model())
}

/// The content of a table of columns.
pub open spec fn columns_model<X: ColumnEntry>(columns: Seq<(String, Vec<X>)>) -> Seq<
    (Seq<char>, Seq<X::Model>),
> {
    columns.map_values(|c: (String, Vec<X>)| (c.0@, entries_model(c.1@)))
}

/// The blank entries for field lines with the given numbers of points.
pub open spec fn blank_entries<X: ColumnEntry>(lengths: Seq<nat>) -> Seq<X::Model> {
    lengths.map_values(|length: nat| X::blank_model(length))
}

/// Whether each column of a table has one entry for each field line,
/// and each entry can stand for its field line. The field lines are
/// given by their numbers of points.
pub open spec fn is_table_of<X: ColumnEntry>(
    table: Seq<(Seq<char>, Seq<X::Model>)>,
    line_lengths: Seq<nat>,
) -> bool {
    forall|c: int|
        0 <= c < table.len() ==> {
            &&& (#[trigger] table[c]).1.len() == line_lengths.len()
            &&& forall|i: int|
                0 <= i < line_lengths.len() ==> X::fits(#[trigger] table[c].1[i], line_lengths[i])
        }
}

impl FieldLineSetPropertiesView {
    /// Whether the columns fit together: within each of the four tables
    /// no two columns share a name, every column has one entry for each
    /// field line, every vector has three components, and all varying
    /// columns agree on the number of points of each field line.
    pub open spec fn is_well_formed(self) -> bool {
        &&& self.line_lengths().len() == self.number_of_field_lines
        &&& has_distinct_names(self.fixed_scalar_values)
        &&& has_distinct_names(self.fixed_vector_values)
        &&& has_distinct_names(self.varying_scalar_values)
        &&& has_distinct_names(self.varying_vector_values)
        &&& is_table_of::<ftr>(self.fixed_scalar_values, self.line_lengths())
        &&& is_table_of::<Vec3<ftr>>(self.fixed_vector_values, self.line_lengths())
        &&& is_table_of::<Vec<ftr>>(self.varying_scalar_values, self.line_lengths())
        &&& is_table_of::<Vec<Vec3<ftr>>>(self.varying_vector_values, self.line_lengths())
    }
}

/// Whether no two columns of a table share a name.
fn has_distinct_column_names<X: ColumnEntry>(columns: &Vec<(String, Vec<X>)>) -> (distinct: bool)
    ensures
        distinct == has_distinct_names(columns_model(columns@)),
{
    let ghost table = columns_model(columns@);
    for j in 0..columns.len()
        invariant
            table == columns_model(columns@),
            forall|k: int, l: int| 0 <= k < l < j ==> table[k].0 != table[l].0,
    {
        for i in 0..j
            invariant
                j < columns.len(),
                table == columns_model(columns@),
                forall|k: int, l: int| 0 <= k < l < j ==> table[k].0 != table[l].0,
                forall|k: int| 0 <= k < i ==> table[k].0 != table[j as int].0,
        {
            if columns[i].0 == columns[j].0 {
                assert(table[i as int].0 == table[j as int].0);
                return false;
            }
        }
    }
    true
}

/// Whether each column of a table has one entry for each field line, and
/// each entry can stand for its field line.
fn is_table_of_lines<X: ColumnEntry>(columns: &Vec<(String, Vec<X>)>, lengths: &Vec<usize>) -> (fits:
    bool)
    ensures
        fits == is_table_of::<X>(columns_model(columns@), lengths_view(lengths@)),
{
    let ghost table = columns_model(columns@);
    let ghost line_lengths = lengths_view(lengths@);
    for c in 0..columns.len()
        invariant
            table == columns_model(columns@),
            line_lengths == lengths_view(lengths@),
            is_table_of::<X>(table.take(c as int), line_lengths),
    {
        let entries = &columns[c].1;
        if entries.len() != lengths.len() {
            assert(table[c as int].1.len() != line_lengths.len());
            return false;
        }
        for i in 0..entries.len()
            invariant
                c < columns.len(),
                entries == &columns[c as int].1,
                entries.len() == lengths.len(),
                table == columns_model(columns@),
                line_lengths == lengths_view(lengths@),
                forall|k: int| 0 <= k < i ==> X::fits(table[c as int].1[k], line_lengths[k]),
        {
            if !entries[i].fits_length(lengths[i]) {
                assert(!X::fits(table[c as int].1[i as int], line_lengths[i as int]));
                return false;
            }
        }
        assert forall|d: int| 0 <= d < c + 1 implies {
            &&& (#[trigger] table.take(c + 1)[d]).1.len() == line_lengths.len()
            &&& forall|i: int|
                0 <= i < line_lengths.len() ==> X::fits(
                    #[trigger] table.take(c + 1)[d].1[i],
                    line_lengths[i],
                )
        } by {
            if d < c {
                assert(table.take(c + 1)[d] == table.take(c as int)[d]);
            }
        }
    }
    assert(table.take(columns.len() as int) =~= table);
    true
}

impl FieldLineSetProperties3 {
    /// Whether the columns fit together.
    pub fn is_well_formed(&self) -> (well_formed: bool)
        ensures
            well_formed == self@.is_well_formed(),
    {
        let lengths = self.line_lengths();
        proof {
            assert(columns_model::<ftr>(self.fixed_scalar_values@) =~~= self@.fixed_scalar_values);
            assert(columns_model::<Vec3<ftr>>(self.fixed_vector_values@)
                =~~= self@.fixed_vector_values);
            assert(columns_model::<Vec<ftr>>(self.varying_scalar_values@)
                =~~= self@.varying_scalar_values);
            assert(columns_model::<Vec<Vec3<ftr>>>(self.varying_vector_values@)
                =~~= self@.varying_vector_values);
        }
        lengths.len() == self.number_of_field_lines && has_distinct_column_names(
            &self.fixed_scalar_values,
        ) && has_distinct_column_names(&self.fixed_vector_values) && has_distinct_column_names(
            &self.varying_scalar_values,
        ) && has_distinct_column_names(&self.varying_vector_values) && is_table_of_lines(
            &self.fixed_scalar_values,
            &lengths,
        ) && is_table_of_lines(&self.fixed_vector_values, &lengths) && is_table_of_lines(
            &self.varying_scalar_values,
            &lengths,
        ) && is_table_of_lines(&self.varying_vector_values, &lengths)
    }
}

} // verus!
