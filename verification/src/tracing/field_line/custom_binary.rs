//! The custom binary format for field line data.

pub mod reading;

use crate::geometry::Dim3;
use crate::geometry::Vec3;
use crate::tracing::field_line::lines_view;
use crate::tracing::field_line::vector_lines_view;
use crate::tracing::field_line::vectors_view;
use crate::tracing::field_line::FieldLineSetProperties3;
use crate::tracing::field_line::FieldLineSetPropertiesView;
use crate::tracing::ftr;
use vstd::utf8::encode_utf8;
use vstd::bytes::spec_u64_to_le_bytes;
use vstd::bytes::u64_to_le_bytes;
use vstd::prelude::*;

verus! {

/// The bytes of a sequence of 64-bit words, each in little-endian order.
pub open spec fn words_to_bytes(words: Seq<u64>) -> Seq<u8> {
    words.map_values(|w: u64| spec_u64_to_le_bytes(w)).flatten()
}

/// Every word takes eight bytes.
pub proof fn lemma_word_is_eight_bytes(word: u64)
    ensures
        spec_u64_to_le_bytes(word).len() == 8,
{
    vstd::bytes::lemma_auto_spec_u64_to_from_le_bytes();
}

/// The bytes of two word sequences in a row are the bytes of the first
/// followed by the bytes of the second.
pub proof fn lemma_words_to_bytes_concat(a: Seq<u64>, b: Seq<u64>)
    ensures
        words_to_bytes(a + b) == words_to_bytes(a) + words_to_bytes(b),
{
    let f = |w: u64| spec_u64_to_le_bytes(w);
    assert((a + b).map_values(f) =~= a.map_values(f) + b.map_values(f));
    vstd::seq_lib::lemma_flatten_concat(a.map_values(f), b.map_values(f));
}

/// The bytes of a word sequence with one more word at its end.
pub proof fn lemma_words_to_bytes_push(a: Seq<u64>, word: u64)
    ensures
        words_to_bytes(a.push(word)) == words_to_bytes(a) + spec_u64_to_le_bytes(word),
{
    let f = |w: u64| spec_u64_to_le_bytes(w);
    assert(a.push(word).map_values(f) =~= a.map_values(f).push(f(word)));
    a.map_values(f).lemma_flatten_push(f(word));
}

/// No words, no bytes.
pub proof fn lemma_words_to_bytes_empty()
    ensures
        words_to_bytes(Seq::<u64>::empty()) == Seq::<u8>::empty(),
{
    let f = |w: u64| spec_u64_to_le_bytes(w);
    assert(Seq::<u64>::empty().map_values(f) =~= Seq::<Seq<u8>>::empty());
}

/// Appends the little-endian bytes of one word.
fn write_word(writer: &mut Vec<u8>, word: u64)
    ensures
        final(writer)@ == old(writer)@ + spec_u64_to_le_bytes(word),
{
    let bytes = u64_to_le_bytes(word);
    writer.extend_from_slice(bytes.as_slice());
    assert(writer@ =~= old(writer)@ + spec_u64_to_le_bytes(word));
}

/// Appends the little-endian bytes of each word of a list.
fn write_words(writer: &mut Vec<u8>, words: &Vec<u64>)
    ensures
        final(writer)@ == old(writer)@ + words_to_bytes(words@),
{
    proof {
        lemma_words_to_bytes_empty();
    }
    assert(writer@ =~= old(writer)@ + words_to_bytes(words@.take(0)));
    for i in 0..words.len()
        invariant
            writer@ == old(writer)@ + words_to_bytes(words@.take(i as int)),
    {
        write_word(writer, words[i]);
        proof {
            lemma_words_to_bytes_push(words@.take(i as int), words@[i as int]);
            assert(words@.take(i as int).push(words@[i as int]) =~= words@.take(i + 1));
        }
    }
    assert(words@.take(words.len() as int) =~= words@);
}

/// Appends the components of a vector.
fn write_vector(writer: &mut Vec<u8>, vector: &Vec3<ftr>)
    ensures
        final(writer)@ == old(writer)@ + words_to_bytes(vector@),
{
    let x = vector[Dim3::X];
    let y = vector[Dim3::Y];
    let z = vector[Dim3::Z];
    write_word(writer, x);
    write_word(writer, y);
    write_word(writer, z);
    proof {
        vector.lemma_components();
        lemma_words_to_bytes_empty();
        lemma_words_to_bytes_push(Seq::empty(), x);
        lemma_words_to_bytes_push(seq![x], y);
        lemma_words_to_bytes_push(seq![x, y], z);
        assert(Seq::<u64>::empty().push(x) =~= seq![x]);
        assert(seq![x].push(y) =~= seq![x, y]);
        assert(seq![x, y].push(z) =~= vector@);
        assert(writer@ =~= old(writer)@ + words_to_bytes(vector@));
    }
}

/// Appends the components of each vector of a list.
fn write_vectors(writer: &mut Vec<u8>, vectors: &Vec<Vec3<ftr>>)
    ensures
        final(writer)@ == old(writer)@ + words_to_bytes(vectors_view(vectors@).flatten()),
{
    let ghost all = vectors_view(vectors@);
    proof {
        lemma_words_to_bytes_empty();
        assert(all.take(0).flatten() =~= Seq::<u64>::empty());
    }
    assert(writer@ =~= old(writer)@ + words_to_bytes(all.take(0).flatten()));
    for i in 0..vectors.len()
        invariant
            all == vectors_view(vectors@),
            writer@ == old(writer)@ + words_to_bytes(all.take(i as int).flatten()),
    {
        write_vector(writer, &vectors[i]);
        proof {
            lemma_flat_step(all, i as int);
        }
    }
    assert(all.take(vectors.len() as int) =~= all);
}

/// Appends the values of each series of a list.
fn write_lines(writer: &mut Vec<u8>, lines: &Vec<Vec<ftr>>)
    ensures
        final(writer)@ == old(writer)@ + words_to_bytes(lines_view(lines@).flatten()),
{
    let ghost all = lines_view(lines@);
    proof {
        lemma_words_to_bytes_empty();
        assert(all.take(0).flatten() =~= Seq::<u64>::empty());
    }
    assert(writer@ =~= old(writer)@ + words_to_bytes(all.take(0).flatten()));
    for i in 0..lines.len()
        invariant
            all == lines_view(lines@),
            writer@ == old(writer)@ + words_to_bytes(all.take(i as int).flatten()),
    {
        write_words(writer, &lines[i]);
        proof {
            lemma_flat_step(all, i as int);
        }
    }
    assert(all.take(lines.len() as int) =~= all);
}

/// Appends the vectors of each series of a list.
fn write_vector_lines(writer: &mut Vec<u8>, lines: &Vec<Vec<Vec3<ftr>>>)
    ensures
        final(writer)@ == old(writer)@ + words_to_bytes(
            vector_lines_view(lines@).flatten().flatten(),
        ),
{
    let ghost all = vector_lines_view(lines@);
    proof {
        lemma_words_to_bytes_empty();
        assert(all.take(0).flatten() =~= Seq::<Seq<u64>>::empty());
        assert(all.take(0).flatten().flatten() =~= Seq::<u64>::empty());
    }
    assert(writer@ =~= old(writer)@ + words_to_bytes(all.take(0).flatten().flatten()));
    for i in 0..lines.len()
        invariant
            all == vector_lines_view(lines@),
            writer@ == old(writer)@ + words_to_bytes(all.take(i as int).flatten().flatten()),
    {
        write_vectors(writer, &lines[i]);
        proof {
            let before = all.take(i as int);
            assert(before.push(all[i as int]) =~= all.take(i + 1));
            before.lemma_flatten_push(all[i as int]);
            vstd::seq_lib::lemma_flatten_concat(before.flatten(), all[i as int]);
            lemma_words_to_bytes_concat(before.flatten().flatten(), all[i as int].flatten());
        }
    }
    assert(all.take(lines.len() as int) =~= all);
}

/// Appending one more series to a flattened prefix.
proof fn lemma_flat_step(all: Seq<Seq<u64>>, i: int)
    requires
        0 <= i < all.len(),
    ensures
        words_to_bytes(all.take(i + 1).flatten()) == words_to_bytes(all.take(i).flatten())
            + words_to_bytes(all[i]),
{
    assert(all.take(i).push(all[i]) =~= all.take(i + 1));
    all.take(i).lemma_flatten_push(all[i]);
    lemma_words_to_bytes_concat(all.take(i).flatten(), all[i]);
}

/// Size in bytes of a number in tracing precision.
pub const FLOAT_SIZE: u64 = 8;

/// The byte that ends each name.
pub const NAME_END: u8 = 0x0A;

/// The seven words of the header.
pub open spec fn header_words(properties: FieldLineSetPropertiesView) -> Seq<u64> {
    seq![
        FLOAT_SIZE,
        properties.number_of_field_lines as u64,
        properties.number_of_field_line_elements() as u64,
        properties.fixed_scalar_values.len() as u64,
        properties.fixed_vector_values.len() as u64,
        properties.varying_scalar_values.len() as u64,
        properties.varying_vector_values.len() as u64,
    ]
}

/// The six words of the bounds: lower and upper bound in x, then in y,
/// then in z.
pub open spec fn bounds_words(lower_bounds: Seq<u64>, upper_bounds: Seq<u64>) -> Seq<u64> {
    seq![
        lower_bounds[0],
        upper_bounds[0],
        lower_bounds[1],
        upper_bounds[1],
        lower_bounds[2],
        upper_bounds[2],
    ]
}

/// Each name in UTF-8, followed by a newline.
pub open spec fn name_lines(names: Seq<Seq<char>>) -> Seq<u8> {
    names.map_values(|name: Seq<char>| encode_utf8(name).push(NAME_END)).flatten()
}

/// The block of names: each name followed by a newline, and a lone newline
/// where there is no name.
pub open spec fn names_block(names: Seq<Seq<char>>) -> Seq<u8> {
    if names.len() == 0 {
        seq![NAME_END]
    } else {
        name_lines(names)
    }
}

/// The start indices of the field lines as words.
pub open spec fn offset_words(properties: FieldLineSetPropertiesView) -> Seq<u64> {
    properties.start_indices_of_field_line_elements().map_values(|start: nat| start as u64)
}

/// Field line data in the custom binary format.
///
/// All numbers are little-endian. In order:
/// - the header of seven 64-bit words: the size of a number in bytes, the
///   number of field lines, the total number of field line points, and
///   the number of fixed scalar, fixed vector, varying scalar and varying
///   vector columns;
/// - the six bounds;
/// - the names of all columns, each ended by a newline;
/// - for each field line the index of its first point, as a 64-bit word;
/// - the fixed scalar, fixed vector, varying scalar and varying vector
///   values, each table flattened column by column.
pub open spec fn custom_binary(
    lower_bounds: Seq<u64>,
    upper_bounds: Seq<u64>,
    properties: FieldLineSetPropertiesView,
) -> Seq<u8> {
    words_to_bytes(header_words(properties))
        + words_to_bytes(bounds_words(lower_bounds, upper_bounds))
        + names_block(properties.names())
        + words_to_bytes(offset_words(properties))
        + words_to_bytes(properties.flat_fixed_scalar_values())
        + words_to_bytes(properties.flat_fixed_vector_values())
        + words_to_bytes(properties.flat_varying_scalar_values())
        + words_to_bytes(properties.flat_varying_vector_values())
}

/// Appending the words of one more column to those of the columns before it.
proof fn lemma_table_step<C>(table: Seq<C>, words: spec_fn(C) -> Seq<u64>, c: int)
    requires
        0 <= c < table.len(),
    ensures
        words_to_bytes(table.take(c + 1).map_values(words).flatten()) == words_to_bytes(
            table.take(c).map_values(words).flatten(),
        ) + words_to_bytes(words(table[c])),
{
    let before = table.take(c).map_values(words);
    assert(before.push(words(table[c])) =~= table.take(c + 1).map_values(words));
    before.lemma_flatten_push(words(table[c]));
    lemma_words_to_bytes_concat(before.flatten(), words(table[c]));
}

/// A table without columns has no words.
proof fn lemma_table_start<C>(table: Seq<C>, words: spec_fn(C) -> Seq<u64>)
    ensures
        words_to_bytes(table.take(0).map_values(words).flatten()) == Seq::<u8>::empty(),
{
    lemma_words_to_bytes_empty();
    assert(table.take(0).map_values(words).flatten() =~= Seq::<u64>::empty());
}

/// Appends the values of the fixed scalar columns.
fn write_fixed_scalar_values(writer: &mut Vec<u8>, properties: &FieldLineSetProperties3)
    ensures
        final(writer)@ == old(writer)@ + words_to_bytes(properties@.flat_fixed_scalar_values()),
{
    let columns = &properties.fixed_scalar_values;
    let ghost table = properties@.fixed_scalar_values;
    let ghost words = |c: (Seq<char>, Seq<u64>)| c.1;
    proof {
        lemma_table_start(table, words);
    }
    assert(writer@ =~= old(writer)@ + words_to_bytes(table.take(0).map_values(words).flatten()));
    for c in 0..columns.len()
        invariant
            columns == &properties.fixed_scalar_values,
            table == properties@.fixed_scalar_values,
            words == |c: (Seq<char>, Seq<u64>)| c.1,
            writer@ == old(writer)@ + words_to_bytes(
                table.take(c as int).map_values(words).flatten(),
            ),
    {
        write_words(writer, &columns[c].1);
        proof {
            lemma_table_step(table, words, c as int);
        }
    }
    assert(table.take(columns.len() as int) =~= table);
}

/// Appends the values of the fixed vector columns.
fn write_fixed_vector_values(writer: &mut Vec<u8>, properties: &FieldLineSetProperties3)
    ensures
        final(writer)@ == old(writer)@ + words_to_bytes(properties@.flat_fixed_vector_values()),
{
    let columns = &properties.fixed_vector_values;
    let ghost table = properties@.fixed_vector_values;
    let ghost words = |c: (Seq<char>, Seq<Seq<u64>>)| c.1.flatten();
    proof {
        lemma_table_start(table, words);
    }
    assert(writer@ =~= old(writer)@ + words_to_bytes(table.take(0).map_values(words).flatten()));
    for c in 0..columns.len()
        invariant
            columns == &properties.fixed_vector_values,
            table == properties@.fixed_vector_values,
            words == |c: (Seq<char>, Seq<Seq<u64>>)| c.1.flatten(),
            writer@ == old(writer)@ + words_to_bytes(
                table.take(c as int).map_values(words).flatten(),
            ),
    {
        write_vectors(writer, &columns[c].1);
        proof {
            lemma_table_step(table, words, c as int);
        }
    }
    assert(table.take(columns.len() as int) =~= table);
}

/// Appends the values of the varying scalar columns.
fn write_varying_scalar_values(writer: &mut Vec<u8>, properties: &FieldLineSetProperties3)
    ensures
        final(writer)@ == old(writer)@ + words_to_bytes(properties@.flat_varying_scalar_values()),
{
    let columns = &properties.varying_scalar_values;
    let ghost table = properties@.varying_scalar_values;
    let ghost words = |c: (Seq<char>, Seq<Seq<u64>>)| c.1.flatten();
    proof {
        lemma_table_start(table, words);
    }
    assert(writer@ =~= old(writer)@ + words_to_bytes(table.take(0).map_values(words).flatten()));
    for c in 0..columns.len()
        invariant
            columns == &properties.varying_scalar_values,
            table == properties@.varying_scalar_values,
            words == |c: (Seq<char>, Seq<Seq<u64>>)| c.1.flatten(),
            writer@ == old(writer)@ + words_to_bytes(
                table.take(c as int).map_values(words).flatten(),
            ),
    {
        write_lines(writer, &columns[c].1);
        proof {
            lemma_table_step(table, words, c as int);
        }
    }
    assert(table.take(columns.len() as int) =~= table);
}

/// Appends the values of the varying vector columns.
fn write_varying_vector_values(writer: &mut Vec<u8>, properties: &FieldLineSetProperties3)
    ensures
        final(writer)@ == old(writer)@ + words_to_bytes(properties@.flat_varying_vector_values()),
{
    let columns = &properties.varying_vector_values;
    let ghost table = properties@.varying_vector_values;
    let ghost words = |c: (Seq<char>, Seq<Seq<Seq<u64>>>)| c.1.flatten().flatten();
    proof {
        lemma_table_start(table, words);
    }
    assert(writer@ =~= old(writer)@ + words_to_bytes(table.take(0).map_values(words).flatten()));
    for c in 0..columns.len()
        invariant
            columns == &properties.varying_vector_values,
            table == properties@.varying_vector_values,
            words == |c: (Seq<char>, Seq<Seq<Seq<u64>>>)| c.1.flatten().flatten(),
            writer@ == old(writer)@ + words_to_bytes(
                table.take(c as int).map_values(words).flatten(),
            ),
    {
        write_vector_lines(writer, &columns[c].1);
        proof {
            lemma_table_step(table, words, c as int);
        }
    }
    assert(table.take(columns.len() as int) =~= table);
}

/// The names of one more table after those of the tables before it.
proof fn lemma_name_lines_concat(a: Seq<Seq<char>>, b: Seq<Seq<char>>)
    ensures
        name_lines(a + b) == name_lines(a) + name_lines(b),
{
    let line = |name: Seq<char>| encode_utf8(name).push(NAME_END);
    assert((a + b).map_values(line) =~= a.map_values(line) + b.map_values(line));
    vstd::seq_lib::lemma_flatten_concat(a.map_values(line), b.map_values(line));
}

/// Appends the names of the columns of one table, each followed by a
/// newline.
fn write_names<V>(writer: &mut Vec<u8>, columns: &Vec<(String, V)>)
    ensures
        final(writer)@ == old(writer)@ + name_lines(
            columns@.map_values(|c: (String, V)| c.0@),
        ),
{
    let ghost names = columns@.map_values(|c: (String, V)| c.0@);
    let ghost line = |name: Seq<char>| encode_utf8(name).push(NAME_END);
    assert(writer@ =~= old(writer)@ + name_lines(names.take(0))) by {
        assert(names.take(0).map_values(line) =~= Seq::<Seq<u8>>::empty());
    }
    for c in 0..columns.len()
        invariant
            names == columns@.map_values(|c: (String, V)| c.0@),
            line == |name: Seq<char>| encode_utf8(name).push(NAME_END),
            writer@ == old(writer)@ + name_lines(names.take(c as int)),
    {
        let ghost before = writer@;
        let name = columns[c].0.as_str();
        writer.extend_from_slice(name.as_bytes());
        writer.push(NAME_END);
        proof {
            assert(writer@ =~= before + line(names[c as int]));
            let done = names.take(c as int).map_values(line);
            assert(done.push(line(names[c as int])) =~= names.take(c + 1).map_values(line));
            done.lemma_flatten_push(line(names[c as int]));
        }
    }
    assert(names.take(columns.len() as int) =~= names);
}

/// Appends the block of names of all columns.
fn write_names_block(writer: &mut Vec<u8>, properties: &FieldLineSetProperties3)
    ensures
        final(writer)@ == old(writer)@ + names_block(properties@.names()),
{
    let number_of_names_is_zero = properties.fixed_scalar_values.len() == 0
        && properties.fixed_vector_values.len() == 0 && properties.varying_scalar_values.len()
        == 0 && properties.varying_vector_values.len() == 0;
    let ghost fixed_scalar_names = properties.fixed_scalar_values@.map_values(
        |c: (String, Vec<ftr>)| c.0@,
    );
    let ghost fixed_vector_names = properties.fixed_vector_values@.map_values(
        |c: (String, Vec<Vec3<ftr>>)| c.0@,
    );
    let ghost varying_scalar_names = properties.varying_scalar_values@.map_values(
        |c: (String, Vec<Vec<ftr>>)| c.0@,
    );
    let ghost varying_vector_names = properties.varying_vector_values@.map_values(
        |c: (String, Vec<Vec<Vec3<ftr>>>)| c.0@,
    );
    proof {
        assert(properties@.names() =~= fixed_scalar_names + fixed_vector_names
            + varying_scalar_names + varying_vector_names);
    }
    if number_of_names_is_zero {
        writer.push(NAME_END);
        assert(writer@ =~= old(writer)@ + names_block(properties@.names()));
    } else {
        write_names(writer, &properties.fixed_scalar_values);
        write_names(writer, &properties.fixed_vector_values);
        write_names(writer, &properties.varying_scalar_values);
        write_names(writer, &properties.varying_vector_values);
        proof {
            lemma_name_lines_concat(fixed_scalar_names, fixed_vector_names);
            lemma_name_lines_concat(fixed_scalar_names + fixed_vector_names, varying_scalar_names);
            lemma_name_lines_concat(
                fixed_scalar_names + fixed_vector_names + varying_scalar_names,
                varying_vector_names,
            );
            assert(writer@ =~= old(writer)@ + names_block(properties@.names()));
        }
    }
}

/// Writes the given field line data in the custom binary format into the
/// given writer.
pub fn write_field_line_data_as_custom_binary(
    writer: &mut Vec<u8>,
    lower_bounds: &Vec3<ftr>,
    upper_bounds: &Vec3<ftr>,
    properties: FieldLineSetProperties3,
)
    requires
        properties@.number_of_field_line_elements() <= usize::MAX,
    ensures
        final(writer)@ == old(writer)@ + custom_binary(lower_bounds@, upper_bounds@, properties@),
{
    write_borrowed_field_line_data_as_custom_binary(
        writer,
        lower_bounds,
        upper_bounds,
        &properties,
    )
}

/// Writes the given field line data in the custom binary format into the
/// given writer, leaving the data to its owner.
pub fn write_borrowed_field_line_data_as_custom_binary(
    writer: &mut Vec<u8>,
    lower_bounds: &Vec3<ftr>,
    upper_bounds: &Vec3<ftr>,
    properties: &FieldLineSetProperties3,
)
    requires
        properties@.number_of_field_line_elements() <= usize::MAX,
    ensures
        final(writer)@ == old(writer)@ + custom_binary(lower_bounds@, upper_bounds@, properties@),
{
    let number_of_field_line_elements = properties.number_of_field_line_elements().unwrap();
    let start_indices_of_field_line_elements = properties.start_indices_of_field_line_elements();
    proof {
        assert(start_indices_of_field_line_elements@ =~= offset_words(properties@)) by {
            let starts = start_indices_of_field_line_elements@.map_values(
                |start: u64| start as nat,
            );
            assert forall|i: int| 0 <= i < starts.len() implies starts[i] as u64
                == start_indices_of_field_line_elements@[i] by {}
        }
        lower_bounds.lemma_components();
        upper_bounds.lemma_components();
    }
    let mut header: Vec<u64> = Vec::new();
    header.push(FLOAT_SIZE);
    header.push(properties.number_of_field_lines as u64);
    header.push(number_of_field_line_elements as u64);
    header.push(properties.fixed_scalar_values.len() as u64);
    header.push(properties.fixed_vector_values.len() as u64);
    header.push(properties.varying_scalar_values.len() as u64);
    header.push(properties.varying_vector_values.len() as u64);
    assert(header@ =~= header_words(properties@));
    write_words(writer, &header);

    let mut bounds: Vec<u64> = Vec::new();
    bounds.push(lower_bounds[Dim3::X]);
    bounds.push(upper_bounds[Dim3::X]);
    bounds.push(lower_bounds[Dim3::Y]);
    bounds.push(upper_bounds[Dim3::Y]);
    bounds.push(lower_bounds[Dim3::Z]);
    bounds.push(upper_bounds[Dim3::Z]);
    assert(bounds@ =~= bounds_words(lower_bounds@, upper_bounds@));
    write_words(writer, &bounds);

    write_names_block(writer, properties);
    write_words(writer, &start_indices_of_field_line_elements);
    write_fixed_scalar_values(writer, properties);
    write_fixed_vector_values(writer, properties);
    write_varying_scalar_values(writer, properties);
    write_varying_vector_values(writer, properties);
    assert(writer@ =~= old(writer)@ + custom_binary(lower_bounds@, upper_bounds@, properties@));
}

} // verus!
