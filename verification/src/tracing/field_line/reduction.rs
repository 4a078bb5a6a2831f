//! Reduction of the data of many field lines into one set of columns.
//!
//! Field lines are traced independently, each into data of the shape of
//! the whole set. Merging two such pieces appends the field lines of the
//! second to those of the first, column by column. Where a quantity is
//! known to one piece only, the field lines of the other get blank values
//! in its column: zeros, for a varying quantity as many as the line has
//! points.

use crate::geometry::Vec3;
use crate::tracing::field_line::column_names;
use crate::tracing::field_line::columns::blank_entries;
use crate::tracing::field_line::columns::columns_model;
use crate::tracing::field_line::columns::entries_model;
use crate::tracing::field_line::columns::is_table_of;
use crate::tracing::field_line::columns::ColumnEntry;
use crate::tracing::field_line::column_values;
use crate::tracing::field_line::find_column;
use crate::tracing::field_line::has_distinct_names;
use crate::tracing::field_line::lemma_name_index;
use crate::tracing::field_line::lengths_view;
use crate::tracing::field_line::FieldLineSetProperties3;
use crate::tracing::field_line::FieldLineSetPropertiesView;
use crate::tracing::field_line::name_index;
use crate::tracing::field_line::table_names;
use crate::tracing::field_line::FieldLinePath3;
use crate::tracing::ftr;
use vstd::string::StringExecFns;
use vstd::prelude::*;

verus! {

/// Appends copies of the given entries.
fn extend_with_copies<X: ColumnEntry>(values: &mut Vec<X>, entries: &Vec<X>)
    ensures
        entries_model(final(values)@) == entries_model(old(values)@) + entries_model(entries@),
{
    let ghost start = entries_model(values@);
    assert(entries_model(values@) =~= start + entries_model(entries@).take(0));
    for k in 0..entries.len()
        invariant
            entries_model(values@) == start + entries_model(entries@).take(k as int),
    {
        let ghost before = values@;
        values.push(entries[k].duplicate());
        assert(entries_model(values@) =~= entries_model(before).push(entries@[k as int].model()));
        assert(entries_model(values@) =~= start + entries_model(entries@).take(k + 1));
    }
    assert(entries_model(entries@).take(entries.len() as int) =~= entries_model(entries@));
}

/// Appends the blank entries for field lines with the given numbers of
/// points.
fn extend_with_blanks<X: ColumnEntry>(values: &mut Vec<X>, lengths: &Vec<usize>)
    ensures
        entries_model(final(values)@) == entries_model(old(values)@) + blank_entries::<X>(
            lengths_view(lengths@),
        ),
{
    let ghost start = entries_model(values@);
    let ghost blanks = blank_entries::<X>(lengths_view(lengths@));
    assert(entries_model(values@) =~= start + blanks.take(0));
    for k in 0..lengths.len()
        invariant
            blanks == blank_entries::<X>(lengths_view(lengths@)),
            entries_model(values@) == start + blanks.take(k as int),
    {
        let ghost before = values@;
        values.push(X::blank(lengths[k]));
        assert(entries_model(values@) =~= entries_model(before).push(blanks[k as int]));
        assert(entries_model(values@) =~= start + blanks.take(k + 1));
    }
    assert(blanks.take(lengths.len() as int) =~= blanks);
}

/// The columns of two tables merged. First come the columns of the first
/// table, each followed by the entries that the second table has under the
/// same name, or by the second's blank entries. Then come the columns that
/// only the second table has, each preceded by the first's blank entries.
pub open spec fn merged_table<W>(
    first: Seq<(Seq<char>, Seq<W>)>,
    second: Seq<(Seq<char>, Seq<W>)>,
    first_blanks: Seq<W>,
    second_blanks: Seq<W>,
) -> Seq<(Seq<char>, Seq<W>)> {
    first.map_values(
        |c: (Seq<char>, Seq<W>)|
            (
                c.0,
                c.1 + match column_values(second, c.0) {
                    Some(entries) => entries,
                    None => second_blanks,
                },
            ),
    ) + second.filter(|c: (Seq<char>, Seq<W>)| column_values(first, c.0) is None).map_values(
        |c: (Seq<char>, Seq<W>)| (c.0, first_blanks + c.1),
    )
}

/// Merges the columns of two tables.
#[verifier::rlimit(40)]
fn merge_tables<X: ColumnEntry>(
    first: Vec<(String, Vec<X>)>,
    second: &Vec<(String, Vec<X>)>,
    first_lengths: &Vec<usize>,
    second_lengths: &Vec<usize>,
) -> (merged: Vec<(String, Vec<X>)>)
    ensures
        columns_model(merged@) == merged_table(
            columns_model(first@),
            columns_model(second@),
            blank_entries::<X>(lengths_view(first_lengths@)),
            blank_entries::<X>(lengths_view(second_lengths@)),
        ),
{
    let ghost first_model = columns_model(first@);
    let ghost second_model = columns_model(second@);
    let ghost first_blanks = blank_entries::<X>(lengths_view(first_lengths@));
    let ghost second_blanks = blank_entries::<X>(lengths_view(second_lengths@));
    let ghost extended = |c: (Seq<char>, Seq<X::Model>)|
        (
            c.0,
            c.1 + match column_values(second_model, c.0) {
                Some(entries) => entries,
                None => second_blanks,
            },
        );
    let ghost is_new = |c: (Seq<char>, Seq<X::Model>)| column_values(first_model, c.0) is None;
    let ghost preceded = |c: (Seq<char>, Seq<X::Model>)| (c.0, first_blanks + c.1);
    let ghost original = first@;
    let mut first = first;
    let mut merged: Vec<(String, Vec<X>)> = Vec::new();
    proof {
        assert(table_names(second_model) =~= column_names(second@));
        assert(table_names(first_model) =~= column_names(first@));
        assert(columns_model(merged@) =~= first_model.take(0).map_values(extended));
    }
    let number_of_columns = first.len();
    for i in 0..number_of_columns
        invariant
            number_of_columns == first@.len(),
            original.len() == first@.len(),
            first_model == columns_model(original),
            second_model == columns_model(second@),
            second_blanks == blank_entries::<X>(lengths_view(second_lengths@)),
            extended == |c: (Seq<char>, Seq<X::Model>)|
                (
                    c.0,
                    c.1 + match column_values(second_model, c.0) {
                        Some(entries) => entries,
                        None => second_blanks,
                    },
                ),
            table_names(second_model) == column_names(second@),
            first@.len() == original.len(),
            column_names(first@) == column_names(original),
            forall|k: int| i <= k < first@.len() ==> first@[k] == original[k],
            columns_model(merged@) == first_model.take(i as int).map_values(extended),
    {
        let ghost names = column_names(first@);
        let ghost merged_before = merged@;
        let mut values: Vec<X> = Vec::new();
        core::mem::swap(&mut first[i].1, &mut values);
        assert(column_names(first@) =~= names);
        let name = first[i].0.clone();
        match find_column(second, &name) {
            Some(j) => {
                extend_with_copies(&mut values, &second[j].1);
            },
            None => {
                extend_with_blanks(&mut values, second_lengths);
            },
        }
        merged.push((name, values));
        proof {
            let column = first_model[i as int];
            assert(column == (name@, entries_model(original[i as int].1@)));
            assert(columns_model(merged@) =~= columns_model(merged_before).push(
                extended(column),
            ));
            assert(first_model.take(i as int).map_values(extended).push(extended(column))
                =~= first_model.take(i + 1).map_values(extended));
        }
    }
    proof {
        assert(first_model.take(first.len() as int) =~= first_model);
        assert(table_names(first_model) =~= column_names(first@));
        assert(second_model.take(0).filter(is_new) =~= Seq::empty());
        assert(columns_model(merged@) =~= first_model.map_values(extended) + second_model.take(
            0,
        ).filter(is_new).map_values(preceded));
    }
    for j in 0..second.len()
        invariant
            first_model == columns_model(original),
            second_model == columns_model(second@),
            first_blanks == blank_entries::<X>(lengths_view(first_lengths@)),
            is_new == |c: (Seq<char>, Seq<X::Model>)| column_values(first_model, c.0) is None,
            preceded == |c: (Seq<char>, Seq<X::Model>)| (c.0, first_blanks + c.1),
            table_names(first_model) == column_names(first@),
            columns_model(merged@) == first_model.map_values(extended) + second_model.take(
                j as int,
            ).filter(is_new).map_values(preceded),
    {
        let ghost merged_before = merged@;
        let ghost column = second_model[j as int];
        let ghost done = second_model.take(j as int);
        proof {
            assert(second_model.take(j + 1).drop_last() =~= done);
            assert(second_model.take(j + 1).last() == column);
            reveal(Seq::filter);
        }
        if find_column(&first, &second[j].0).is_none() {
            let mut values: Vec<X> = Vec::new();
            extend_with_blanks(&mut values, first_lengths);
            extend_with_copies(&mut values, &second[j].1);
            merged.push((second[j].0.clone(), values));
            proof {
                assert(is_new(column));
                assert(entries_model(values@) =~= first_blanks + column.1);
                assert(second_model.take(j + 1).filter(is_new) == done.filter(is_new).push(
                    column,
                ));
                assert(columns_model(merged@) =~= columns_model(merged_before).push(
                    preceded(column),
                ));
                assert(done.filter(is_new).map_values(preceded).push(preceded(column))
                    =~= done.filter(is_new).push(column).map_values(preceded));
            }
        } else {
            proof {
                assert(!is_new(column));
                assert(second_model.take(j + 1).filter(is_new) == done.filter(is_new));
            }
        }
    }
    proof {
        assert(second_model.take(second.len() as int) =~= second_model);
    }
    merged
}

impl FieldLineSetPropertiesView {
    /// The data of two sets of field lines merged: the field lines of
    /// `other` follow those of `self`, column by column.
    pub open spec fn merged_with(self, other: Self) -> Self {
        FieldLineSetPropertiesView {
            number_of_field_lines: self.number_of_field_lines + other.number_of_field_lines,
            fixed_scalar_values: merged_table(
                self.fixed_scalar_values,
                other.fixed_scalar_values,
                blank_entries::<ftr>(self.line_lengths()),
                blank_entries::<ftr>(other.line_lengths()),
            ),
            fixed_vector_values: merged_table(
                self.fixed_vector_values,
                other.fixed_vector_values,
                blank_entries::<Vec3<ftr>>(self.line_lengths()),
                blank_entries::<Vec3<ftr>>(other.line_lengths()),
            ),
            varying_scalar_values: merged_table(
                self.varying_scalar_values,
                other.varying_scalar_values,
                blank_entries::<Vec<ftr>>(self.line_lengths()),
                blank_entries::<Vec<ftr>>(other.line_lengths()),
            ),
            varying_vector_values: merged_table(
                self.varying_vector_values,
                other.varying_vector_values,
                blank_entries::<Vec<Vec3<ftr>>>(self.line_lengths()),
                blank_entries::<Vec<Vec3<ftr>>>(other.line_lengths()),
            ),
        }
    }
}

impl FieldLineSetProperties3 {
    /// Merges the data of two sets of field lines: the field lines of
    /// `other` follow those of `self`, column by column.
    pub fn merge(self, other: Self) -> (merged: Self)
        requires
            self.number_of_field_lines + other.number_of_field_lines <= usize::MAX,
        ensures
            merged@ == self@.merged_with(other@),
    {
        let first_lengths = self.line_lengths();
        let second_lengths = other.line_lengths();
        proof {
            assert(columns_model::<ftr>(self.fixed_scalar_values@) =~~= self@.fixed_scalar_values);
            assert(columns_model::<ftr>(other.fixed_scalar_values@)
                =~~= other@.fixed_scalar_values);
            assert(columns_model::<Vec3<ftr>>(self.fixed_vector_values@)
                =~~= self@.fixed_vector_values);
            assert(columns_model::<Vec3<ftr>>(other.fixed_vector_values@)
                =~~= other@.fixed_vector_values);
            assert(columns_model::<Vec<ftr>>(self.varying_scalar_values@)
                =~~= self@.varying_scalar_values);
            assert(columns_model::<Vec<ftr>>(other.varying_scalar_values@)
                =~~= other@.varying_scalar_values);
            assert(columns_model::<Vec<Vec3<ftr>>>(self.varying_vector_values@)
                =~~= self@.varying_vector_values);
            assert(columns_model::<Vec<Vec3<ftr>>>(other.varying_vector_values@)
                =~~= other@.varying_vector_values);
        }
        let merged = FieldLineSetProperties3 {
            number_of_field_lines: self.number_of_field_lines + other.number_of_field_lines,
            fixed_scalar_values: merge_tables(
                self.fixed_scalar_values,
                &other.fixed_scalar_values,
                &first_lengths,
                &second_lengths,
            ),
            fixed_vector_values: merge_tables(
                self.fixed_vector_values,
                &other.fixed_vector_values,
                &first_lengths,
                &second_lengths,
            ),
            varying_scalar_values: merge_tables(
                self.varying_scalar_values,
                &other.varying_scalar_values,
                &first_lengths,
                &second_lengths,
            ),
            varying_vector_values: merge_tables(
                self.varying_vector_values,
                &other.varying_vector_values,
                &first_lengths,
                &second_lengths,
            ),
        };
        proof {
            assert(columns_model::<ftr>(merged.fixed_scalar_values@)
                =~~= merged@.fixed_scalar_values);
            assert(columns_model::<Vec3<ftr>>(merged.fixed_vector_values@)
                =~~= merged@.fixed_vector_values);
            assert(columns_model::<Vec<ftr>>(merged.varying_scalar_values@)
                =~~= merged@.varying_scalar_values);
            assert(columns_model::<Vec<Vec3<ftr>>>(merged.varying_vector_values@)
                =~~= merged@.varying_vector_values);
        }
        merged
    }
}

/// Leaving columns out of a table with distinct names keeps the names
/// distinct; what stays was in the table and was asked for.
proof fn lemma_filter_keeps_names_distinct<W>(
    table: Seq<(Seq<char>, W)>,
    keep: spec_fn((Seq<char>, W)) -> bool,
)
    requires
        has_distinct_names(table),
    ensures
        has_distinct_names(table.filter(keep)),
        forall|k: int|
            0 <= k < table.filter(keep).len() ==> keep(#[trigger] table.filter(keep)[k])
                && table.contains(table.filter(keep)[k]),
    decreases table.len(),
{
    reveal(Seq::filter);
    if table.len() > 0 {
        let init = table.drop_last();
        let kept = table.filter(keep);
        assert forall|i: int, j: int| 0 <= i < j < init.len() implies init[i].0 != init[j].0 by {
            assert(init[i] == table[i] && init[j] == table[j]);
        }
        lemma_filter_keeps_names_distinct(init, keep);
        assert forall|k: int| 0 <= k < kept.len() implies keep(#[trigger] kept[k])
            && table.contains(kept[k]) by {
            if k < init.filter(keep).len() {
                let j = choose|j: int| 0 <= j < init.len() && init[j] == init.filter(keep)[k];
                assert(table[j] == kept[k]);
            } else {
                assert(table[table.len() - 1] == kept[k]);
            }
        }
        assert forall|k: int, l: int| 0 <= k < l < kept.len() implies kept[k].0 != kept[l].0 by {
            if l >= init.filter(keep).len() {
                let j = choose|j: int| 0 <= j < init.len() && init[j] == init.filter(keep)[k];
                assert(table[j] == kept[k]);
                assert(table[table.len() - 1] == kept[l]);
            }
        }
    }
}

/// From a table everything is kept where everything is asked for.
proof fn lemma_filter_keeps_all<A>(s: Seq<A>, keep: spec_fn(A) -> bool)
    requires
        forall|i: int| 0 <= i < s.len() ==> keep(#[trigger] s[i]),
    ensures
        s.filter(keep) == s,
    decreases s.len(),
{
    reveal(Seq::filter);
    if s.len() > 0 {
        let init = s.drop_last();
        assert forall|i: int| 0 <= i < init.len() implies keep(#[trigger] init[i]) by {
            assert(init[i] == s[i]);
        }
        lemma_filter_keeps_all(init, keep);
        assert(init.push(s.last()) =~= s);
    } else {
        assert(s.filter(keep) =~= s);
    }
}

/// Two tables that fit their field lines merge into a table that fits
/// the field lines of both, with distinct names, and with the first
/// table's columns before those that only the second has.
#[verifier::rlimit(40)]
pub proof fn lemma_merged_table<X: ColumnEntry>(
    first: Seq<(Seq<char>, Seq<X::Model>)>,
    second: Seq<(Seq<char>, Seq<X::Model>)>,
    first_lengths: Seq<nat>,
    second_lengths: Seq<nat>,
)
    requires
        has_distinct_names(first),
        has_distinct_names(second),
        is_table_of::<X>(first, first_lengths),
        is_table_of::<X>(second, second_lengths),
    ensures
        ({
            let merged = merged_table(
                first,
                second,
                blank_entries::<X>(first_lengths),
                blank_entries::<X>(second_lengths),
            );
            &&& has_distinct_names(merged)
            &&& is_table_of::<X>(merged, first_lengths + second_lengths)
            &&& first.len() <= merged.len() <= first.len() + second.len()
            &&& first.len() == 0 ==> merged.len() == second.len()
        }),
{
    let first_blanks = blank_entries::<X>(first_lengths);
    let second_blanks = blank_entries::<X>(second_lengths);
    let merged = merged_table(first, second, first_blanks, second_blanks);
    let lengths = first_lengths + second_lengths;
    let extended = |c: (Seq<char>, Seq<X::Model>)|
        (
            c.0,
            c.1 + match column_values(second, c.0) {
                Some(entries) => entries,
                None => second_blanks,
            },
        );
    let is_new = |c: (Seq<char>, Seq<X::Model>)| column_values(first, c.0) is None;
    let preceded = |c: (Seq<char>, Seq<X::Model>)| (c.0, first_blanks + c.1);
    let kept = second.filter(is_new);
    assert(merged == first.map_values(extended) + kept.map_values(preceded));
    lemma_filter_keeps_names_distinct(second, is_new);
    second.lemma_filter_len(is_new);

    assert forall|length: nat| X::fits(X::blank_model(length), length) by {
        X::lemma_blank_fits(length);
    }
    assert forall|c: int| 0 <= c < merged.len() implies {
        &&& (#[trigger] merged[c]).1.len() == lengths.len()
        &&& forall|i: int| 0 <= i < lengths.len() ==> X::fits(#[trigger] merged[c].1[i], lengths[i])
    } by {
        if c < first.len() {
            let column = first[c];
            assert(merged[c] == extended(column));
            lemma_name_index(table_names(second), column.0);
            let rest = match column_values(second, column.0) {
                Some(entries) => entries,
                None => second_blanks,
            };
            assert(rest.len() == second_lengths.len() && forall|i: int|
                0 <= i < second_lengths.len() ==> X::fits(#[trigger] rest[i], second_lengths[i]))
                by {
                match name_index(table_names(second), column.0) {
                    Some(j) => {
                        assert(rest == second[j].1);
                    },
                    None => {},
                }
            }
            assert forall|i: int| 0 <= i < lengths.len() implies X::fits(
                #[trigger] merged[c].1[i],
                lengths[i],
            ) by {
                if i < first_lengths.len() {
                    assert(merged[c].1[i] == column.1[i]);
                } else {
                    assert(merged[c].1[i] == rest[i - first_lengths.len()]);
                }
            }
        } else {
            let column = kept[c - first.len()];
            assert(merged[c] == preceded(column));
            assert(second.contains(column));
            let j = choose|j: int| 0 <= j < second.len() && second[j] == column;
            assert(column == second[j]);
            assert forall|i: int| 0 <= i < lengths.len() implies X::fits(
                #[trigger] merged[c].1[i],
                lengths[i],
            ) by {
                if i < first_lengths.len() {
                    assert(merged[c].1[i] == first_blanks[i]);
                } else {
                    assert(merged[c].1[i] == second[j].1[i - first_lengths.len()]);
                }
            }
        }
    }
    assert forall|k: int, l: int| 0 <= k < l < merged.len() implies merged[k].0
        != merged[l].0 by {
        if l < first.len() {
            assert(merged[k].0 == first[k].0 && merged[l].0 == first[l].0);
        } else if k >= first.len() {
            assert(merged[k].0 == kept[k - first.len()].0);
            assert(merged[l].0 == kept[l - first.len()].0);
        } else {
            let column = kept[l - first.len()];
            assert(merged[l].0 == column.0);
            assert(is_new(column));
            lemma_name_index(table_names(first), column.0);
            assert(table_names(first)[k] != column.0);
        }
    }
    if first.len() == 0 {
        assert forall|j: int| 0 <= j < second.len() implies is_new(#[trigger] second[j]) by {
            assert(table_names(first) =~= Seq::empty());
        }
        lemma_filter_keeps_all(second, is_new);
    }
}

/// Merging keeps field line data well-formed: the result has the field
/// lines of both sets, those of the first before those of the second, and
/// each with the number of points that it had.
pub proof fn lemma_merged_is_well_formed(
    first: FieldLineSetPropertiesView,
    second: FieldLineSetPropertiesView,
)
    requires
        first.is_well_formed(),
        second.is_well_formed(),
    ensures
        first.merged_with(second).is_well_formed(),
        first.merged_with(second).number_of_field_lines == first.number_of_field_lines
            + second.number_of_field_lines,
        first.merged_with(second).line_lengths() == first.line_lengths() + second.line_lengths(),
{
    let merged = first.merged_with(second);
    let lengths = first.line_lengths() + second.line_lengths();
    lemma_merged_table::<ftr>(
        first.fixed_scalar_values,
        second.fixed_scalar_values,
        first.line_lengths(),
        second.line_lengths(),
    );
    lemma_merged_table::<Vec3<ftr>>(
        first.fixed_vector_values,
        second.fixed_vector_values,
        first.line_lengths(),
        second.line_lengths(),
    );
    lemma_merged_table::<Vec<ftr>>(
        first.varying_scalar_values,
        second.varying_scalar_values,
        first.line_lengths(),
        second.line_lengths(),
    );
    lemma_merged_table::<Vec<Vec3<ftr>>>(
        first.varying_vector_values,
        second.varying_vector_values,
        first.line_lengths(),
        second.line_lengths(),
    );
    if merged.varying_scalar_values.len() > 0 {
        let column = merged.varying_scalar_values[0];
        assert(merged.line_lengths() =~= lengths) by {
            assert forall|i: int| 0 <= i < lengths.len() implies column.1[i].len()
                == lengths[i] by {
                assert(<Vec<ftr> as ColumnEntry>::fits(column.1[i], lengths[i]));
            }
        }
    } else if merged.varying_vector_values.len() > 0 {
        let column = merged.varying_vector_values[0];
        assert(merged.line_lengths() =~= lengths) by {
            assert forall|i: int| 0 <= i < lengths.len() implies column.1[i].len()
                == lengths[i] by {
                assert(<Vec<Vec3<ftr>> as ColumnEntry>::fits(column.1[i], lengths[i]));
            }
        }
    } else {
        assert(merged.line_lengths() =~= lengths);
    }
}

impl FieldLineSetPropertiesView {
    /// The data of no field lines: no columns at all.
    pub open spec fn empty() -> Self {
        FieldLineSetPropertiesView {
            number_of_field_lines: 0,
            fixed_scalar_values: Seq::empty(),
            fixed_vector_values: Seq::empty(),
            varying_scalar_values: Seq::empty(),
            varying_vector_values: Seq::empty(),
        }
    }

    /// The data of one field line with the given coordinates of its
    /// points: the start position as the fixed scalars `x0`, `y0` and
    /// `z0`, and the path as the varying scalars `x`, `y` and `z`.
    pub open spec fn of_path(x: Seq<u64>, y: Seq<u64>, z: Seq<u64>) -> Self {
        FieldLineSetPropertiesView {
            number_of_field_lines: 1,
            fixed_scalar_values: seq![
                ("x0"@, seq![x[0]]),
                ("y0"@, seq![y[0]]),
                ("z0"@, seq![z[0]]),
            ],
            fixed_vector_values: Seq::empty(),
            varying_scalar_values: seq![("x"@, seq![x]), ("y"@, seq![y]), ("z"@, seq![z])],
            varying_vector_values: Seq::empty(),
        }
    }

    /// The data of all the given sets of field lines merged, in their
    /// order.
    pub open spec fn merged_all(parts: Seq<Self>) -> Self
        decreases parts.len(),
    {
        if parts.len() == 0 {
            Self::empty()
        } else {
            Self::merged_all(parts.drop_last()).merged_with(parts.last())
        }
    }
}

/// The data of no field lines is well-formed.
pub proof fn lemma_empty_is_well_formed()
    ensures
        FieldLineSetPropertiesView::empty().is_well_formed(),
{
    assert(FieldLineSetPropertiesView::empty().line_lengths() =~= Seq::empty());
}

/// The data of one field line is well-formed where the path has as many
/// x- as y- as z-coordinates; it then has one field line, with as many
/// points as the path.
pub proof fn lemma_of_path_is_well_formed(x: Seq<u64>, y: Seq<u64>, z: Seq<u64>)
    requires
        x.len() == y.len(),
        y.len() == z.len(),
    ensures
        FieldLineSetPropertiesView::of_path(x, y, z).is_well_formed(),
        FieldLineSetPropertiesView::of_path(x, y, z).line_lengths() == seq![x.len()],
{
    let properties = FieldLineSetPropertiesView::of_path(x, y, z);
    reveal_strlit("x0");
    reveal_strlit("y0");
    reveal_strlit("z0");
    reveal_strlit("x");
    reveal_strlit("y");
    reveal_strlit("z");
    assert(properties.line_lengths() =~= seq![x.len()]);
    assert("x0"@[0] == 'x' && "y0"@[0] == 'y' && "z0"@[0] == 'z');
    assert("x"@[0] == 'x' && "y"@[0] == 'y' && "z"@[0] == 'z');
}

/// Merging any number of well-formed sets gives a well-formed set: each
/// of its columns has one entry for each field line of all the sets
/// together, and its varying columns agree on the number of points of
/// each field line.
pub proof fn lemma_merged_all_is_well_formed(parts: Seq<FieldLineSetPropertiesView>)
    requires
        forall|i: int| 0 <= i < parts.len() ==> (#[trigger] parts[i]).is_well_formed(),
    ensures
        FieldLineSetPropertiesView::merged_all(parts).is_well_formed(),
    decreases parts.len(),
{
    if parts.len() == 0 {
        lemma_empty_is_well_formed();
    } else {
        let init = parts.drop_last();
        assert forall|i: int| 0 <= i < init.len() implies (#[trigger] init[i]).is_well_formed() by {
            assert(init[i] == parts[i]);
        }
        lemma_merged_all_is_well_formed(init);
        lemma_merged_is_well_formed(FieldLineSetPropertiesView::merged_all(init), parts.last());
    }
}

/// Where every one of the given sets is well-formed and holds one field
/// line, all of them merged hold as many field lines as there are sets.
pub proof fn lemma_one_field_line_each(parts: Seq<FieldLineSetPropertiesView>)
    requires
        forall|i: int|
            0 <= i < parts.len() ==> (#[trigger] parts[i]).is_well_formed()
                && parts[i].number_of_field_lines == 1,
    ensures
        FieldLineSetPropertiesView::merged_all(parts).is_well_formed(),
        FieldLineSetPropertiesView::merged_all(parts).number_of_field_lines == parts.len(),
    decreases parts.len(),
{
    lemma_merged_all_is_well_formed(parts);
    if parts.len() > 0 {
        let init = parts.drop_last();
        assert forall|i: int| 0 <= i < init.len() implies (#[trigger] init[i]).is_well_formed()
            && init[i].number_of_field_lines == 1 by {
            assert(init[i] == parts[i]);
        }
        lemma_one_field_line_each(init);
    }
}

/// The first sets of a list merged never hold more field lines than all
/// its sets merged.
proof fn lemma_number_of_prefix(parts: Seq<FieldLineSetPropertiesView>, i: int)
    requires
        0 <= i <= parts.len(),
    ensures
        FieldLineSetPropertiesView::merged_all(parts.take(i)).number_of_field_lines
            <= FieldLineSetPropertiesView::merged_all(parts).number_of_field_lines,
    decreases parts.len() - i,
{
    if i < parts.len() {
        assert(parts.take(i + 1).drop_last() =~= parts.take(i));
        lemma_number_of_prefix(parts, i + 1);
    } else {
        assert(parts.take(i) =~= parts);
    }
}

/// The views of a list of sets.
pub open spec fn parts_view(parts: Seq<FieldLineSetProperties3>) -> Seq<
    FieldLineSetPropertiesView,
> {
    parts.map_values(|part: FieldLineSetProperties3| part@)
}

impl Default for FieldLineSetProperties3 {
    fn default() -> (properties: Self)
        ensures
            properties@ == FieldLineSetPropertiesView::empty(),
    {
        let properties = Self {
            number_of_field_lines: 0,
            fixed_scalar_values: Vec::new(),
            fixed_vector_values: Vec::new(),
            varying_scalar_values: Vec::new(),
            varying_vector_values: Vec::new(),
        };
        assert(properties@.fixed_scalar_values =~= Seq::empty());
        assert(properties@.fixed_vector_values =~= Seq::empty());
        assert(properties@.varying_scalar_values =~= Seq::empty());
        assert(properties@.varying_vector_values =~= Seq::empty());
        properties
    }
}

impl FieldLineSetProperties3 {
    /// The data of one field line with the given path.
    pub fn from_path(path: FieldLinePath3) -> (properties: Self)
        requires
            path.0@.len() > 0,
            path.1@.len() > 0,
            path.2@.len() > 0,
        ensures
            properties@ == FieldLineSetPropertiesView::of_path(path.0@, path.1@, path.2@),
    {
        let (x, y, z) = path;
        let mut fixed_scalar_values: Vec<(String, Vec<ftr>)> = Vec::new();
        let mut x0: Vec<ftr> = Vec::new();
        x0.push(x[0]);
        let mut y0: Vec<ftr> = Vec::new();
        y0.push(y[0]);
        let mut z0: Vec<ftr> = Vec::new();
        z0.push(z[0]);
        fixed_scalar_values.push((String::from_str("x0"), x0));
        fixed_scalar_values.push((String::from_str("y0"), y0));
        fixed_scalar_values.push((String::from_str("z0"), z0));
        let mut varying_scalar_values: Vec<(String, Vec<Vec<ftr>>)> = Vec::new();
        let mut xs: Vec<Vec<ftr>> = Vec::new();
        xs.push(x);
        let mut ys: Vec<Vec<ftr>> = Vec::new();
        ys.push(y);
        let mut zs: Vec<Vec<ftr>> = Vec::new();
        zs.push(z);
        varying_scalar_values.push((String::from_str("x"), xs));
        varying_scalar_values.push((String::from_str("y"), ys));
        varying_scalar_values.push((String::from_str("z"), zs));
        let properties = Self {
            number_of_field_lines: 1,
            fixed_scalar_values,
            fixed_vector_values: Vec::new(),
            varying_scalar_values,
            varying_vector_values: Vec::new(),
        };
        proof {
            let view = FieldLineSetPropertiesView::of_path(path.0@, path.1@, path.2@);
            assert(properties@.fixed_scalar_values =~~= view.fixed_scalar_values);
            assert(properties@.fixed_vector_values =~= view.fixed_vector_values);
            assert(properties@.varying_scalar_values =~~= view.varying_scalar_values);
            assert(properties@.varying_vector_values =~= view.varying_vector_values);
        }
        properties
    }

    /// Merges the data of the given sets of field lines, in their order.
    pub fn merge_all(parts: Vec<FieldLineSetProperties3>) -> (merged: Self)
        requires
            FieldLineSetPropertiesView::merged_all(parts_view(parts@)).number_of_field_lines
                <= usize::MAX,
        ensures
            merged@ == FieldLineSetPropertiesView::merged_all(parts_view(parts@)),
    {
        let ghost all = parts_view(parts@);
        let mut merged = Self::default();
        assert(all.take(0) =~= Seq::empty());
        for part in iter: parts
            invariant
                all == parts_view(parts@),
                FieldLineSetPropertiesView::merged_all(all).number_of_field_lines <= usize::MAX,
                merged@ == FieldLineSetPropertiesView::merged_all(all.take(iter.index() as int)),
        {
            proof {
                let done = all.take(iter.index() as int);
                let next = all.take(iter.index() + 1);
                assert(next.drop_last() =~= done);
                assert(next.last() == part@);
                lemma_number_of_prefix(all, iter.index() + 1);
            }
            merged = merged.merge(part);
        }
        assert(all.take(parts@.len() as int) =~= all);
        merged
    }
}

/// What a merged table holds under a name: what the first table holds
/// under it, followed by what the second holds under it or by blanks; and
/// where only the second holds the name, blanks followed by what it holds.
#[verifier::rlimit(40)]
proof fn lemma_column_of_merged_table<W>(
    first: Seq<(Seq<char>, Seq<W>)>,
    second: Seq<(Seq<char>, Seq<W>)>,
    first_blanks: Seq<W>,
    second_blanks: Seq<W>,
    name: Seq<char>,
)
    requires
        has_distinct_names(first),
        has_distinct_names(second),
    ensures
        column_values(merged_table(first, second, first_blanks, second_blanks), name) == (
        match column_values(first, name) {
            Some(entries) => Some(
                entries + match column_values(second, name) {
                    Some(more) => more,
                    None => second_blanks,
                },
            ),
            None => match column_values(second, name) {
                Some(entries) => Some(first_blanks + entries),
                None => None,
            },
        }),
{
    let merged = merged_table(first, second, first_blanks, second_blanks);
    let is_new = |c: (Seq<char>, Seq<W>)| column_values(first, c.0) is None;
    let kept = second.filter(is_new);
    lemma_name_index(table_names(first), name);
    lemma_name_index(table_names(second), name);
    lemma_filter_keeps_names_distinct(second, is_new);
    assert(merged.len() == first.len() + kept.len());
    assert forall|i: int| 0 <= i < first.len() implies table_names(merged)[i] == first[i].0 by {}
    assert forall|i: int| 0 <= i < kept.len() implies table_names(merged)[first.len() + i]
        == kept[i].0 by {}
    match name_index(table_names(first), name) {
        Some(i) => {
            assert forall|j: int| 0 <= j < i implies table_names(merged)[j] != name by {
                assert(table_names(first)[j] != name);
            }
            crate::tracing::field_line::lemma_name_index_is(table_names(merged), name, i);
        },
        None => {
            assert forall|j: int| 0 <= j < first.len() implies table_names(merged)[j] != name by {
                assert(table_names(first)[j] != name);
            }
            match name_index(table_names(second), name) {
                Some(j) => {
                    assert(is_new(second[j]));
                    second.lemma_filter_contains(is_new, j);
                    assert(kept.contains(second[j]));
                    let m = choose|m: int| 0 <= m < kept.len() && kept[m] == second[j];
                    assert forall|l: int| 0 <= l < first.len() + m implies table_names(merged)[l]
                        != name by {
                        if l >= first.len() {
                            assert(kept[l - first.len()].0 != kept[m].0);
                        }
                    }
                    crate::tracing::field_line::lemma_name_index_is(
                        table_names(merged),
                        name,
                        first.len() + m,
                    );
                },
                None => {
                    assert forall|l: int| 0 <= l < merged.len() implies table_names(merged)[l]
                        != name by {
                        if l >= first.len() {
                            let column = kept[l - first.len()];
                            assert(second.contains(column));
                            let j = choose|j: int| 0 <= j < second.len() && second[j] == column;
                            assert(table_names(second)[j] != name);
                        }
                    }
                    lemma_name_index(table_names(merged), name);
                },
            }
        },
    }
}

/// Changing the values of the columns of a table and then leaving
/// columns out by their names is the same as leaving them out first.
proof fn lemma_filter_of_map<A>(s: Seq<A>, change: spec_fn(A) -> A, keep: spec_fn(A) -> bool)
    requires
        forall|i: int| 0 <= i < s.len() ==> keep(change(#[trigger] s[i])) == keep(s[i]),
    ensures
        s.map_values(change).filter(keep) == s.filter(keep).map_values(change),
    decreases s.len(),
{
    reveal(Seq::filter);
    if s.len() == 0 {
        assert(s.map_values(change).filter(keep) =~= s.filter(keep).map_values(change));
    } else {
        let init = s.drop_last();
        assert forall|i: int| 0 <= i < init.len() implies keep(change(#[trigger] init[i]))
            == keep(init[i]) by {
            assert(init[i] == s[i]);
        }
        lemma_filter_of_map(init, change, keep);
        assert(keep(change(s[s.len() - 1])) == keep(s[s.len() - 1]));
        assert(s.map_values(change).drop_last() =~= init.map_values(change));
        assert(s.map_values(change).filter(keep) =~= s.filter(keep).map_values(change));
    }
}

/// Leaving out by one rule what is left by another is leaving out by
/// both.
proof fn lemma_filter_of_filter<A>(
    s: Seq<A>,
    first: spec_fn(A) -> bool,
    second: spec_fn(A) -> bool,
    both: spec_fn(A) -> bool,
)
    requires
        forall|i: int| 0 <= i < s.len() ==> both(#[trigger] s[i]) == (first(s[i]) && second(s[i])),
    ensures
        s.filter(first).filter(second) == s.filter(both),
    decreases s.len(),
{
    reveal(Seq::filter);
    if s.len() == 0 {
        assert(s.filter(first).filter(second) =~= s.filter(both));
    } else {
        let init = s.drop_last();
        assert forall|i: int| 0 <= i < init.len() implies both(#[trigger] init[i]) == (first(
            init[i],
        ) && second(init[i])) by {
            assert(init[i] == s[i]);
        }
        lemma_filter_of_filter(init, first, second, both);
        assert(both(s[s.len() - 1]) == (first(s[s.len() - 1]) && second(s[s.len() - 1])));
        if first(s.last()) {
            assert(s.filter(first).drop_last() =~= init.filter(first));
        }
    }
}

/// Merging tables is associative: whether the first two of three tables
/// are merged first or the last two, the same table results.
#[verifier::rlimit(40)]
pub proof fn lemma_merged_table_is_associative<W>(
    first: Seq<(Seq<char>, Seq<W>)>,
    second: Seq<(Seq<char>, Seq<W>)>,
    third: Seq<(Seq<char>, Seq<W>)>,
    first_blanks: Seq<W>,
    second_blanks: Seq<W>,
    third_blanks: Seq<W>,
)
    requires
        has_distinct_names(first),
        has_distinct_names(second),
        has_distinct_names(third),
    ensures
        merged_table(
            merged_table(first, second, first_blanks, second_blanks),
            third,
            first_blanks + second_blanks,
            third_blanks,
        ) == merged_table(
            first,
            merged_table(second, third, second_blanks, third_blanks),
            first_blanks,
            second_blanks + third_blanks,
        ),
{
    let first_two = merged_table(first, second, first_blanks, second_blanks);
    let last_two = merged_table(second, third, second_blanks, third_blanks);
    let left = merged_table(first_two, third, first_blanks + second_blanks, third_blanks);
    let right = merged_table(first, last_two, first_blanks, second_blanks + third_blanks);

    let not_in_first = |c: (Seq<char>, Seq<W>)| column_values(first, c.0) is None;
    let not_in_second = |c: (Seq<char>, Seq<W>)| column_values(second, c.0) is None;
    let not_in_first_two = |c: (Seq<char>, Seq<W>)| column_values(first_two, c.0) is None;
    let after_first = |c: (Seq<char>, Seq<W>)| (c.0, first_blanks + c.1);
    let after_second = |c: (Seq<char>, Seq<W>)| (c.0, second_blanks + c.1);
    let after_first_two = |c: (Seq<char>, Seq<W>)| (c.0, first_blanks + second_blanks + c.1);
    let before_second = |c: (Seq<char>, Seq<W>)|
        (
            c.0,
            c.1 + match column_values(second, c.0) {
                Some(entries) => entries,
                None => second_blanks,
            },
        );
    let before_third = |c: (Seq<char>, Seq<W>)|
        (
            c.0,
            c.1 + match column_values(third, c.0) {
                Some(entries) => entries,
                None => third_blanks,
            },
        );
    let before_last_two = |c: (Seq<char>, Seq<W>)|
        (
            c.0,
            c.1 + match column_values(last_two, c.0) {
                Some(entries) => entries,
                None => second_blanks + third_blanks,
            },
        );
    let new_of_second = second.filter(not_in_first);
    let new_of_third = third.filter(not_in_first_two);

    assert(first_two == first.map_values(before_second) + new_of_second.map_values(after_first));
    assert(left == first_two.map_values(before_third) + new_of_third.map_values(
        after_first_two,
    ));
    assert(last_two == second.map_values(before_third) + third.filter(
        not_in_second,
    ).map_values(after_second));
    assert(right == first.map_values(before_last_two) + last_two.filter(
        not_in_first,
    ).map_values(after_first));

    assert(last_two.filter(not_in_first) == new_of_second.map_values(before_third)
        + new_of_third.map_values(after_second)) by {
        let head = second.map_values(before_third);
        let tail = third.filter(not_in_second).map_values(after_second);
        Seq::filter_distributes_over_add(head, tail, not_in_first);
        lemma_filter_of_map(second, before_third, not_in_first);
        lemma_filter_of_map(third.filter(not_in_second), after_second, not_in_first);
        assert forall|i: int| 0 <= i < third.len() implies not_in_first_two(#[trigger] third[i])
            == (not_in_second(third[i]) && not_in_first(third[i])) by {
            lemma_column_of_merged_table(
                first,
                second,
                first_blanks,
                second_blanks,
                third[i].0,
            );
        }
        lemma_filter_of_filter(third, not_in_second, not_in_first, not_in_first_two);
    }
    assert(left.len() == right.len());
    assert forall|i: int| 0 <= i < left.len() implies left[i] == right[i] by {
        if i < first.len() {
            let column = first[i];
            lemma_column_of_merged_table(
                second,
                third,
                second_blanks,
                third_blanks,
                column.0,
            );
            assert(left[i] == before_third(before_second(column)));
            assert(right[i] == before_last_two(column));
            assert(left[i].1 =~= right[i].1);
        } else if i < first.len() + new_of_second.len() {
            let column = new_of_second[i - first.len()];
            assert(left[i] == before_third(after_first(column)));
            assert(right[i] == after_first(before_third(column)));
            assert(left[i].1 =~= right[i].1);
        } else {
            let column = new_of_third[i - first.len() - new_of_second.len()];
            assert(left[i] == after_first_two(column));
            assert(right[i] == after_first(after_second(column)));
            assert(left[i].1 =~= right[i].1);
        }
    }
    assert(left =~= right);
}

/// The blank entries for the field lines of two sets are those for the
/// first set followed by those for the second.
proof fn lemma_blank_entries_of_both<X: ColumnEntry>(first: Seq<nat>, second: Seq<nat>)
    ensures
        blank_entries::<X>(first + second) == blank_entries::<X>(first) + blank_entries::<X>(
            second,
        ),
{
    assert(blank_entries::<X>(first + second) =~= blank_entries::<X>(first) + blank_entries::<X>(
        second,
    ));
}

/// Merging is associative: whether the first two of three well-formed
/// sets of field lines are merged first or the last two, the same set
/// results, with the field lines and the columns in the same order.
pub proof fn lemma_merging_is_associative(
    first: FieldLineSetPropertiesView,
    second: FieldLineSetPropertiesView,
    third: FieldLineSetPropertiesView,
)
    requires
        first.is_well_formed(),
        second.is_well_formed(),
        third.is_well_formed(),
    ensures
        first.merged_with(second).merged_with(third) == first.merged_with(
            second.merged_with(third),
        ),
{
    let first_lengths = first.line_lengths();
    let second_lengths = second.line_lengths();
    let third_lengths = third.line_lengths();
    lemma_merged_is_well_formed(first, second);
    lemma_merged_is_well_formed(second, third);
    lemma_blank_entries_of_both::<ftr>(first_lengths, second_lengths);
    lemma_blank_entries_of_both::<ftr>(second_lengths, third_lengths);
    lemma_blank_entries_of_both::<Vec3<ftr>>(first_lengths, second_lengths);
    lemma_blank_entries_of_both::<Vec3<ftr>>(second_lengths, third_lengths);
    lemma_blank_entries_of_both::<Vec<ftr>>(first_lengths, second_lengths);
    lemma_blank_entries_of_both::<Vec<ftr>>(second_lengths, third_lengths);
    lemma_blank_entries_of_both::<Vec<Vec3<ftr>>>(first_lengths, second_lengths);
    lemma_blank_entries_of_both::<Vec<Vec3<ftr>>>(second_lengths, third_lengths);
    lemma_merged_table_is_associative(
        first.fixed_scalar_values,
        second.fixed_scalar_values,
        third.fixed_scalar_values,
        blank_entries::<ftr>(first_lengths),
        blank_entries::<ftr>(second_lengths),
        blank_entries::<ftr>(third_lengths),
    );
    lemma_merged_table_is_associative(
        first.fixed_vector_values,
        second.fixed_vector_values,
        third.fixed_vector_values,
        blank_entries::<Vec3<ftr>>(first_lengths),
        blank_entries::<Vec3<ftr>>(second_lengths),
        blank_entries::<Vec3<ftr>>(third_lengths),
    );
    lemma_merged_table_is_associative(
        first.varying_scalar_values,
        second.varying_scalar_values,
        third.varying_scalar_values,
        blank_entries::<Vec<ftr>>(first_lengths),
        blank_entries::<Vec<ftr>>(second_lengths),
        blank_entries::<Vec<ftr>>(third_lengths),
    );
    lemma_merged_table_is_associative(
        first.varying_vector_values,
        second.varying_vector_values,
        third.varying_vector_values,
        blank_entries::<Vec<Vec3<ftr>>>(first_lengths),
        blank_entries::<Vec<Vec3<ftr>>>(second_lengths),
        blank_entries::<Vec<Vec3<ftr>>>(third_lengths),
    );
}

/// The values of a series in the opposite order.
fn reversed(values: &Vec<ftr>) -> (result: Vec<ftr>)
    ensures
        result@ == values@.reverse(),
{
    let mut result: Vec<ftr> = Vec::new();
    let mut remaining = values.len();
    while remaining > 0
        invariant
            remaining <= values@.len(),
            result@.len() == values@.len() - remaining,
            forall|i: int| 0 <= i < result@.len() ==> result@[i] == values@[values@.len() - 1 - i],
        decreases remaining,
    {
        remaining = remaining - 1;
        result.push(values[remaining]);
    }
    assert(result@ =~= values@.reverse());
    result
}

/// Joins the two halves of a field line that was traced from one position
/// in both directions: the half that was traced backward, in the opposite
/// order, is followed by the half that was traced forward.
pub fn join_two_sided_path(backward: &FieldLinePath3, forward: FieldLinePath3) -> (path:
    FieldLinePath3)
    ensures
        path.0@ == backward.0@.reverse() + forward.0@,
        path.1@ == backward.1@.reverse() + forward.1@,
        path.2@ == backward.2@.reverse() + forward.2@,
{
    let (mut forward_x, mut forward_y, mut forward_z) = forward;
    let mut x = reversed(&backward.0);
    let mut y = reversed(&backward.1);
    let mut z = reversed(&backward.2);
    x.append(&mut forward_x);
    y.append(&mut forward_y);
    z.append(&mut forward_z);
    (x, y, z)
}

} // verus!
