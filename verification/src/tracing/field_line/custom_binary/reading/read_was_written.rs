//! What is read in the custom binary format was written as it is read.

use crate::tracing::field_line::custom_binary::NAME_END;
use crate::tracing::field_line::custom_binary::bounds_words;
use crate::tracing::field_line::custom_binary::custom_binary;
use crate::tracing::field_line::custom_binary::header_words;
use crate::tracing::field_line::custom_binary::lemma_words_to_bytes_empty;
use crate::tracing::field_line::custom_binary::lemma_words_to_bytes_push;
use crate::tracing::field_line::custom_binary::name_lines;
use crate::tracing::field_line::custom_binary::names_block;
use crate::tracing::field_line::custom_binary::offset_words;
use crate::tracing::field_line::custom_binary::reading::HEADER_SIZE;
use crate::tracing::field_line::custom_binary::reading::Header;
use crate::tracing::field_line::custom_binary::reading::NAMES_START;
use crate::tracing::field_line::custom_binary::reading::are_names_of_one_line;
use crate::tracing::field_line::custom_binary::reading::are_start_indices;
use crate::tracing::field_line::custom_binary::reading::chunks;
use crate::tracing::field_line::custom_binary::reading::columns_of;
use crate::tracing::field_line::custom_binary::reading::fits_header;
use crate::tracing::field_line::custom_binary::reading::header_of;
use crate::tracing::field_line::custom_binary::reading::is_header_of_words;
use crate::tracing::field_line::custom_binary::reading::is_name_of_one_line;
use crate::tracing::field_line::custom_binary::reading::lemma_newline_position_is_within;
use crate::tracing::field_line::custom_binary::reading::lemma_start_indices_are_monotonic;
use crate::tracing::field_line::custom_binary::reading::lemma_total_of_lengths_from;
use crate::tracing::field_line::custom_binary::reading::lemma_total_of_zeros;
use crate::tracing::field_line::custom_binary::reading::lengths_of;
use crate::tracing::field_line::custom_binary::reading::line_lengths_from;
use crate::tracing::field_line::custom_binary::reading::newline_position;
use crate::tracing::field_line::custom_binary::reading::parsed_custom_binary;
use crate::tracing::field_line::custom_binary::reading::read_header;
use crate::tracing::field_line::custom_binary::reading::read_names;
use crate::tracing::field_line::custom_binary::reading::read_names_block;
use crate::tracing::field_line::custom_binary::reading::read_tables;
use crate::tracing::field_line::custom_binary::reading::read_word;
use crate::tracing::field_line::custom_binary::reading::read_words;
use crate::tracing::field_line::custom_binary::reading::split_lines;
use crate::tracing::field_line::custom_binary::words_to_bytes;
use crate::tracing::field_line::lemma_total_of_prefix;
use crate::tracing::field_line::start_indices;
use crate::tracing::field_line::table_names;
use crate::tracing::field_line::total;
use vstd::bytes::spec_u64_to_le_bytes;
use vstd::prelude::*;
use vstd::utf8::decode_utf8;
use vstd::utf8::encode_utf8;
use vstd::utf8::valid_utf8;

verus! {

/// The words that are read from a stretch of bytes have those bytes.
pub proof fn lemma_read_words_were_written(bytes: Seq<u8>, position: int, count: nat)
    requires
        0 <= position,
        position + 8 * count <= bytes.len(),
    ensures
        words_to_bytes(read_words(bytes, position, count)) == bytes.subrange(
            position,
            position + 8 * count,
        ),
    decreases count,
{
    if count == 0 {
        lemma_words_to_bytes_empty();
        assert(read_words(bytes, position, count) =~= Seq::empty());
        assert(bytes.subrange(position, position + 8 * count) =~= Seq::empty());
    } else {
        let init = read_words(bytes, position, (count - 1) as nat);
        let last = read_word(bytes, position + 8 * (count - 1));
        lemma_read_words_were_written(bytes, position, (count - 1) as nat);
        assert(init.push(last) =~= read_words(bytes, position, count));
        lemma_words_to_bytes_push(init, last);
        vstd::bytes::lemma_auto_spec_u64_to_from_le_bytes();
        let word_bytes = bytes.subrange(position + 8 * (count - 1), position + 8 * count);
        assert(word_bytes.len() == 8);
        assert(spec_u64_to_le_bytes(last) == word_bytes);
        assert(bytes.subrange(position, position + 8 * (count - 1)) + word_bytes
            =~= bytes.subrange(position, position + 8 * count));
    }
}

/// A row of values that was cut into pieces of one length is put
/// together again by flattening.
pub proof fn lemma_flatten_of_chunks<A>(flat: Seq<A>, count: nat, length: nat)
    requires
        flat.len() == count * length,
    ensures
        chunks(flat, count, length).flatten() == flat,
    decreases count,
{
    let pieces = chunks(flat, count, length);
    if count == 0 {
        assert(pieces =~= Seq::empty());
        assert(pieces.flatten() =~= Seq::<A>::empty());
        assert(flat =~= Seq::empty());
    } else {
        assert((count - 1) * length + length == count * length && (count - 1) * length >= 0)
            by (nonlinear_arith)
            requires
                count > 0,
        ;
        let shorter = flat.subrange(0, (count - 1) * length);
        lemma_flatten_of_chunks(shorter, (count - 1) as nat, length);
        let init = chunks(shorter, (count - 1) as nat, length);
        assert(pieces.drop_last() =~= init) by {
            assert forall|i: int| 0 <= i < count - 1 implies pieces[i] == init[i] by {
                assert(0 <= i * length && (i + 1) * length == i * length + length && (i + 1)
                    * length <= (count - 1) * length) by (nonlinear_arith)
                    requires
                        0 <= i < count - 1,
                ;
                assert(flat.subrange(i * length, (i + 1) * length) =~= shorter.subrange(
                    i * length,
                    (i + 1) * length,
                ));
            }
        }
        assert(pieces.drop_last().push(pieces.last()) =~= pieces);
        pieces.drop_last().lemma_flatten_push(pieces.last());
        assert(shorter + pieces.last() =~= flat);
    }
}

/// A row of values that was cut into pieces of given lengths is put
/// together again by flattening.
pub proof fn lemma_flatten_of_split_lines<A>(flat: Seq<A>, lengths: Seq<nat>)
    requires
        flat.len() == total(lengths),
    ensures
        split_lines(flat, lengths).flatten() == flat,
        lengths_of(split_lines(flat, lengths)) == lengths,
    decreases lengths.len(),
{
    let pieces = split_lines(flat, lengths);
    if lengths.len() == 0 {
        assert(pieces =~= Seq::empty());
        assert(pieces.flatten() =~= Seq::<A>::empty());
        assert(flat =~= Seq::empty());
        assert(lengths_of(pieces) =~= lengths);
    } else {
        let fewer = lengths.drop_last();
        let shorter = flat.subrange(0, total(fewer) as int);
        lemma_flatten_of_split_lines(shorter, fewer);
        let init = split_lines(shorter, fewer);
        assert(lengths.take(lengths.len() - 1) =~= fewer);
        assert(pieces.drop_last() =~= init) by {
            assert forall|i: int| 0 <= i < fewer.len() implies pieces[i] == init[i] by {
                lemma_total_of_prefix(fewer, i);
                lemma_total_of_prefix(fewer, i + 1);
                assert(lengths.take(i) =~= fewer.take(i));
                assert(flat.subrange(
                    total(lengths.take(i)) as int,
                    (total(lengths.take(i)) + lengths[i]) as int,
                ) =~= shorter.subrange(
                    total(fewer.take(i)) as int,
                    (total(fewer.take(i)) + fewer[i]) as int,
                ));
            }
        }
        assert(pieces.drop_last().push(pieces.last()) =~= pieces);
        pieces.drop_last().lemma_flatten_push(pieces.last());
        assert(shorter + pieces.last() =~= flat);
        assert(lengths_of(pieces) =~= lengths) by {
            assert forall|i: int| 0 <= i < lengths.len() implies pieces[i].len()
                == lengths[i] by {
                lemma_total_of_prefix(lengths, i);
                lemma_total_of_prefix(lengths, i + 1);
            }
        }
    }
}

/// The bytes of a name hold a newline where the name holds one.
proof fn lemma_newline_is_written(name: Seq<char>, i: int)
    requires
        0 <= i < name.len(),
        name[i] == '\n',
    ensures
        exists|j: int| 0 <= j < encode_utf8(name).len() && encode_utf8(name)[j] == NAME_END,
    decreases name.len(),
{
    let first = vstd::utf8::encode_scalar(name[0] as u32);
    let rest = name.drop_first();
    let bytes = encode_utf8(name);
    assert(bytes == first + encode_utf8(rest));
    if i == 0 {
        let scalar = name[0] as u32;
        assert(scalar == 0x0A);
        assert((0x0Au32 & 0x7F) as u8 == 0x0Au8) by (bit_vector);
        assert(bytes[0] == NAME_END);
    } else {
        assert(rest[i - 1] == name[i]);
        lemma_newline_is_written(rest, i - 1);
        let j = choose|j: int| 0 <= j < encode_utf8(rest).len() && encode_utf8(rest)[j] == NAME_END;
        assert(bytes[first.len() + j] == NAME_END);
    }
}

/// No byte before the first newline is a newline.
proof fn lemma_newline_position_is_first(bytes: Seq<u8>, position: int)
    ensures
        match newline_position(bytes, position) {
            Some(end) => forall|j: int| position <= j < end ==> bytes[j] != NAME_END,
            None => true,
        },
    decreases bytes.len() - position,
{
    if 0 <= position < bytes.len() && bytes[position] != NAME_END {
        lemma_newline_position_is_first(bytes, position + 1);
    }
}

/// The names that are read from a stretch of bytes are free of newlines,
/// and their lines are those bytes.
pub proof fn lemma_read_names_were_written(bytes: Seq<u8>, position: int, count: nat)
    requires
        0 <= position <= bytes.len(),
    ensures
        match read_names(bytes, position, count) {
            Some((names, after)) => position <= after <= bytes.len() && names.len() == count
                && are_names_of_one_line(names) && name_lines(names) == bytes.subrange(
                position,
                after,
            ),
            None => true,
        },
    decreases count,
{
    let line = |name: Seq<char>| encode_utf8(name).push(NAME_END);
    if count == 0 {
        let names = Seq::<Seq<char>>::empty();
        assert(names.map_values(line) =~= Seq::empty());
        assert(name_lines(names) =~= Seq::empty());
        assert(bytes.subrange(position, position) =~= Seq::empty());
    } else {
        match newline_position(bytes, position) {
            None => {},
            Some(end) => {
                lemma_newline_position_is_within(bytes, position);
                lemma_newline_position_is_first(bytes, position);
                let name_bytes = bytes.subrange(position, end);
                if valid_utf8(name_bytes) {
                    lemma_read_names_were_written(bytes, end + 1, (count - 1) as nat);
                    match read_names(bytes, end + 1, (count - 1) as nat) {
                        None => {},
                        Some((rest, after)) => {
                            let name = decode_utf8(name_bytes);
                            let names = seq![name] + rest;
                            vstd::utf8::decode_utf8_encode_utf8(name_bytes);
                            assert(encode_utf8(name) == name_bytes);
                            assert(is_name_of_one_line(name)) by {
                                if exists|i: int| 0 <= i < name.len() && name[i] == '\n' {
                                    let i = choose|i: int| 0 <= i < name.len() && name[i] == '\n';
                                    lemma_newline_is_written(name, i);
                                    let j = choose|j: int|
                                        0 <= j < name_bytes.len() && name_bytes[j] == NAME_END;
                                    assert(bytes[position + j] == NAME_END);
                                }
                            }
                            assert forall|i: int| 0 <= i < names.len() implies is_name_of_one_line(
                                #[trigger] names[i],
                            ) by {
                                if i > 0 {
                                    assert(names[i] == rest[i - 1]);
                                }
                            }
                            assert(names.map_values(line).drop_first() =~= rest.map_values(line));
                            assert(name_lines(names) == line(name) + name_lines(rest));
                            assert(line(name) =~= bytes.subrange(position, end + 1));
                            assert(bytes.subrange(position, end + 1) + bytes.subrange(
                                end + 1,
                                after,
                            ) =~= bytes.subrange(position, after));
                        },
                    }
                }
            },
        }
    }
}

/// The flattened values of a table of fixed scalar values that was cut
/// out of a row of words are those words.
proof fn lemma_fixed_scalars_were_written(
    names: Seq<Seq<char>>,
    words: Seq<u64>,
    count: nat,
    lines: nat,
)
    requires
        names.len() == count,
        words.len() == count * lines,
    ensures
        ({
            let table = columns_of(names, chunks(words, count, lines));
            &&& table.map_values(|c: (Seq<char>, Seq<u64>)| c.1).flatten() == words
            &&& table_names(table) == names
        }),
{
    let table = columns_of(names, chunks(words, count, lines));
    assert(table.map_values(|c: (Seq<char>, Seq<u64>)| c.1) =~= chunks(words, count, lines));
    lemma_flatten_of_chunks(words, count, lines);
    assert(table_names(table) =~= names);
}

/// The flattened values of a table of fixed vector values that was cut
/// out of a row of words are those words.
proof fn lemma_fixed_vectors_were_written(
    names: Seq<Seq<char>>,
    words: Seq<u64>,
    count: nat,
    lines: nat,
)
    requires
        names.len() == count,
        words.len() == count * (3 * lines),
    ensures
        ({
            let table = columns_of(
                names,
                chunks(words, count, 3 * lines).map_values(
                    |flat: Seq<u64>| chunks(flat, lines, 3),
                ),
            );
            &&& table.map_values(|c: (Seq<char>, Seq<Seq<u64>>)| c.1.flatten()).flatten()
                == words
            &&& table_names(table) == names
        }),
{
    let pieces = chunks(words, count, 3 * lines);
    let table = columns_of(names, pieces.map_values(|flat: Seq<u64>| chunks(flat, lines, 3)));
    assert(table.map_values(|c: (Seq<char>, Seq<Seq<u64>>)| c.1.flatten()) =~= pieces) by {
        assert forall|c: int| 0 <= c < count implies chunks(pieces[c], lines, 3).flatten()
            == pieces[c] by {
            lemma_chunk_length(words, count, 3 * lines, c);
            assert(lines * 3 == 3 * lines) by (nonlinear_arith);
            lemma_flatten_of_chunks(pieces[c], lines, 3);
        }
    }
    lemma_flatten_of_chunks(words, count, 3 * lines);
    assert(table_names(table) =~= names);
}

/// Each piece of a row of values that is cut into pieces of one length
/// has that length.
proof fn lemma_chunk_length<A>(flat: Seq<A>, count: nat, length: nat, c: int)
    requires
        flat.len() == count * length,
        0 <= c < count,
    ensures
        chunks(flat, count, length)[c].len() == length,
{
    assert(0 <= c * length && (c + 1) * length == c * length + length && (c + 1) * length
        <= count * length) by (nonlinear_arith)
        requires
            0 <= c < count,
    ;
}

/// The flattened values of a table of varying scalar values that was cut
/// out of a row of words are those words, and its columns agree on the
/// numbers of points of the field lines.
proof fn lemma_varying_scalars_were_written(
    names: Seq<Seq<char>>,
    words: Seq<u64>,
    count: nat,
    lengths: Seq<nat>,
)
    requires
        names.len() == count,
        words.len() == count * total(lengths),
    ensures
        ({
            let table = columns_of(
                names,
                chunks(words, count, total(lengths)).map_values(
                    |flat: Seq<u64>| split_lines(flat, lengths),
                ),
            );
            &&& table.map_values(|c: (Seq<char>, Seq<Seq<u64>>)| c.1.flatten()).flatten()
                == words
            &&& table_names(table) == names
            &&& forall|c: int| 0 <= c < count ==> lengths_of(#[trigger] table[c].1) == lengths
        }),
{
    let pieces = chunks(words, count, total(lengths));
    let table = columns_of(names, pieces.map_values(|flat: Seq<u64>| split_lines(flat, lengths)));
    assert forall|c: int| 0 <= c < count implies split_lines(pieces[c], lengths).flatten()
        == pieces[c] && lengths_of(#[trigger] table[c].1) == lengths by {
        lemma_chunk_length(words, count, total(lengths), c);
        lemma_flatten_of_split_lines(pieces[c], lengths);
    }
    assert(table.map_values(|c: (Seq<char>, Seq<Seq<u64>>)| c.1.flatten()) =~= pieces);
    lemma_flatten_of_chunks(words, count, total(lengths));
    assert(table_names(table) =~= names);
}

/// The flattened values of a table of varying vector values that was cut
/// out of a row of words are those words, and its columns agree on the
/// numbers of points of the field lines.
proof fn lemma_varying_vectors_were_written(
    names: Seq<Seq<char>>,
    words: Seq<u64>,
    count: nat,
    lengths: Seq<nat>,
)
    requires
        names.len() == count,
        words.len() == count * (3 * total(lengths)),
    ensures
        ({
            let table = columns_of(
                names,
                chunks(words, count, 3 * total(lengths)).map_values(
                    |flat: Seq<u64>| split_lines(chunks(flat, total(lengths), 3), lengths),
                ),
            );
            &&& table.map_values(
                |c: (Seq<char>, Seq<Seq<Seq<u64>>>)| c.1.flatten().flatten(),
            ).flatten() == words
            &&& table_names(table) == names
            &&& forall|c: int| 0 <= c < count ==> lengths_of(#[trigger] table[c].1) == lengths
        }),
{
    let elements = total(lengths);
    let pieces = chunks(words, count, 3 * elements);
    let table = columns_of(
        names,
        pieces.map_values(|flat: Seq<u64>| split_lines(chunks(flat, elements, 3), lengths)),
    );
    assert forall|c: int| 0 <= c < count implies split_lines(
        chunks(pieces[c], elements, 3),
        lengths,
    ).flatten().flatten() == pieces[c] && lengths_of(#[trigger] table[c].1) == lengths by {
        lemma_chunk_length(words, count, 3 * elements, c);
        assert(elements * 3 == 3 * elements) by (nonlinear_arith);
        lemma_flatten_of_chunks(pieces[c], elements, 3);
        lemma_flatten_of_split_lines(chunks(pieces[c], elements, 3), lengths);
    }
    assert(table.map_values(|c: (Seq<char>, Seq<Seq<Seq<u64>>>)| c.1.flatten().flatten())
        =~= pieces);
    lemma_flatten_of_chunks(words, count, 3 * elements);
    assert(table_names(table) =~= names);
}

/// The start indices of the field lines whose numbers of points were
/// taken from start indices are those start indices.
proof fn lemma_start_indices_were_written(starts: Seq<u64>, number_of_elements: nat)
    requires
        are_start_indices(starts, number_of_elements),
    ensures
        start_indices(line_lengths_from(starts, number_of_elements)).map_values(
            |start: nat| start as u64,
        ) == starts,
{
    lemma_total_of_lengths_from(starts, number_of_elements);
    assert(start_indices(line_lengths_from(starts, number_of_elements)).map_values(
        |start: nat| start as u64,
    ) =~= starts);
}

/// Five rows of words that are read from bytes, one after the other up
/// to the end of the bytes, have those bytes.
#[verifier::rlimit(40)]
proof fn lemma_read_sections_were_written(
    bytes: Seq<u8>,
    position: int,
    count_0: nat,
    count_1: nat,
    count_2: nat,
    count_3: nat,
    count_4: nat,
)
    requires
        0 <= position,
        bytes.len() == position + 8 * (count_0 + count_1 + count_2 + count_3 + count_4),
    ensures
        ({
            let at_1 = position + 8 * count_0;
            let at_2 = at_1 + 8 * count_1;
            let at_3 = at_2 + 8 * count_2;
            let at_4 = at_3 + 8 * count_3;
            words_to_bytes(read_words(bytes, position, count_0)) + words_to_bytes(
                read_words(bytes, at_1, count_1),
            ) + words_to_bytes(read_words(bytes, at_2, count_2)) + words_to_bytes(
                read_words(bytes, at_3, count_3),
            ) + words_to_bytes(read_words(bytes, at_4, count_4)) == bytes.subrange(
                position,
                bytes.len() as int,
            )
        }),
{
    let at_1 = position + 8 * count_0;
    let at_2 = at_1 + 8 * count_1;
    let at_3 = at_2 + 8 * count_2;
    let at_4 = at_3 + 8 * count_3;
    lemma_read_words_were_written(bytes, position, count_0);
    lemma_read_words_were_written(bytes, at_1, count_1);
    lemma_read_words_were_written(bytes, at_2, count_2);
    lemma_read_words_were_written(bytes, at_3, count_3);
    lemma_read_words_were_written(bytes, at_4, count_4);
    assert(bytes.subrange(position, at_1) + bytes.subrange(at_1, at_2) + bytes.subrange(at_2, at_3)
        + bytes.subrange(at_3, at_4) + bytes.subrange(at_4, bytes.len() as int)
        =~= bytes.subrange(position, bytes.len() as int));
}

/// The tables that are cut out of rows of words have those words as their
/// flattened values, and the given names; and their varying columns agree
/// on the given numbers of points of the field lines.
#[verifier::rlimit(40)]
proof fn lemma_read_tables_hold_words(
    bytes: Seq<u8>,
    position: int,
    header: Header,
    names: Seq<Seq<char>>,
)
    requires
        names.len() == header.number_of_names(),
        total(
            line_lengths_from(
                read_words(bytes, position, header.number_of_field_lines),
                header.number_of_field_line_elements,
            ),
        ) == header.number_of_field_line_elements,
    ensures
        ({
            let properties = read_tables(bytes, position, header, names);
            let lengths = line_lengths_from(
                read_words(bytes, position, header.number_of_field_lines),
                header.number_of_field_line_elements,
            );
            let at_1 = position + 8 * header.number_of_field_lines;
            let at_2 = at_1 + 8 * header.fixed_scalar_words();
            let at_3 = at_2 + 8 * header.fixed_vector_words();
            let at_4 = at_3 + 8 * header.varying_scalar_words();
            &&& properties.names() == names
            &&& properties.fixed_scalar_values.len() == header.number_of_fixed_scalars
            &&& properties.fixed_vector_values.len() == header.number_of_fixed_vectors
            &&& properties.varying_scalar_values.len() == header.number_of_varying_scalars
            &&& properties.varying_vector_values.len() == header.number_of_varying_vectors
            &&& properties.flat_fixed_scalar_values() == read_words(
                bytes,
                at_1,
                header.fixed_scalar_words(),
            )
            &&& properties.flat_fixed_vector_values() == read_words(
                bytes,
                at_2,
                header.fixed_vector_words(),
            )
            &&& properties.flat_varying_scalar_values() == read_words(
                bytes,
                at_3,
                header.varying_scalar_words(),
            )
            &&& properties.flat_varying_vector_values() == read_words(
                bytes,
                at_4,
                header.varying_vector_words(),
            )
            &&& header.number_of_varying_scalars > 0 ==> lengths_of(
                properties.varying_scalar_values[0].1,
            ) == lengths
            &&& header.number_of_varying_vectors > 0 ==> lengths_of(
                properties.varying_vector_values[0].1,
            ) == lengths
        }),
{
    let properties = read_tables(bytes, position, header, names);
    let lines = header.number_of_field_lines;
    let elements = header.number_of_field_line_elements;
    let lengths = line_lengths_from(read_words(bytes, position, lines), elements);
    let at_1 = position + 8 * lines;
    let at_2 = at_1 + 8 * header.fixed_scalar_words();
    let at_3 = at_2 + 8 * header.fixed_vector_words();
    let at_4 = at_3 + 8 * header.varying_scalar_words();
    let words_1 = read_words(bytes, at_1, header.fixed_scalar_words());
    let words_2 = read_words(bytes, at_2, header.fixed_vector_words());
    let words_3 = read_words(bytes, at_3, header.varying_scalar_words());
    let words_4 = read_words(bytes, at_4, header.varying_vector_words());
    let names_at_2 = header.number_of_fixed_scalars as int;
    let names_at_3 = names_at_2 + header.number_of_fixed_vectors;
    let names_at_4 = names_at_3 + header.number_of_varying_scalars;
    let names_1 = names.subrange(0, names_at_2);
    let names_2 = names.subrange(names_at_2, names_at_3);
    let names_3 = names.subrange(names_at_3, names_at_4);
    let names_4 = names.subrange(names_at_4, names.len() as int);

    assert(properties.flat_fixed_scalar_values() == words_1 && table_names(
        properties.fixed_scalar_values,
    ) == names_1) by {
        lemma_fixed_scalars_were_written(names_1, words_1, header.number_of_fixed_scalars, lines);
    }
    assert(properties.flat_fixed_vector_values() == words_2 && table_names(
        properties.fixed_vector_values,
    ) == names_2) by {
        lemma_fixed_vectors_were_written(names_2, words_2, header.number_of_fixed_vectors, lines);
    }
    assert(properties.flat_varying_scalar_values() == words_3 && table_names(
        properties.varying_scalar_values,
    ) == names_3 && (header.number_of_varying_scalars > 0 ==> lengths_of(
        properties.varying_scalar_values[0].1,
    ) == lengths)) by {
        lemma_varying_scalars_were_written(
            names_3,
            words_3,
            header.number_of_varying_scalars,
            lengths,
        );
    }
    assert(properties.flat_varying_vector_values() == words_4 && table_names(
        properties.varying_vector_values,
    ) == names_4 && (header.number_of_varying_vectors > 0 ==> lengths_of(
        properties.varying_vector_values[0].1,
    ) == lengths)) by {
        lemma_varying_vectors_were_written(
            names_4,
            words_4,
            header.number_of_varying_vectors,
            lengths,
        );
    }
    assert(names_1 + names_2 + names_3 + names_4 =~= names);
}

/// The data that is read from a stretch of bytes, where it is accepted,
/// is data whose start indices and values have those bytes.
#[verifier::rlimit(40)]
proof fn lemma_read_tables_were_written(
    bytes: Seq<u8>,
    position: int,
    header: Header,
    names: Seq<Seq<char>>,
)
    requires
        0 <= position,
        is_header_of_words(header),
        names.len() == header.number_of_names(),
        bytes.len() == position + 8 * header.number_of_words(),
        are_start_indices(
            read_words(bytes, position, header.number_of_field_lines),
            header.number_of_field_line_elements,
        ),
        read_tables(bytes, position, header, names).number_of_field_line_elements()
            == header.number_of_field_line_elements,
    ensures
        ({
            let properties = read_tables(bytes, position, header, names);
            &&& header_of(properties) == header
            &&& properties.names() == names
            &&& words_to_bytes(offset_words(properties)) + words_to_bytes(
                properties.flat_fixed_scalar_values(),
            ) + words_to_bytes(properties.flat_fixed_vector_values()) + words_to_bytes(
                properties.flat_varying_scalar_values(),
            ) + words_to_bytes(properties.flat_varying_vector_values()) == bytes.subrange(
                position,
                bytes.len() as int,
            )
        }),
{
    let properties = read_tables(bytes, position, header, names);
    let lines = header.number_of_field_lines;
    let elements = header.number_of_field_line_elements;
    let starts = read_words(bytes, position, lines);
    let lengths = line_lengths_from(starts, elements);
    assert(total(lengths) == elements) by {
        lemma_total_of_lengths_from(starts, elements);
    }
    lemma_read_tables_hold_words(bytes, position, header, names);
    assert(properties.line_lengths() =~= lengths) by {
        if header.number_of_varying_scalars == 0 && header.number_of_varying_vectors == 0 {
            lemma_total_of_zeros(lines);
            lemma_start_indices_are_monotonic(starts, elements);
            assert forall|i: int| 0 <= i < lines implies lengths[i] == 0 by {
                assert(starts[i] <= starts[starts.len() - 1]);
            }
        }
    }
    assert(offset_words(properties) == starts) by {
        lemma_start_indices_were_written(starts, elements);
    }
    lemma_read_sections_were_written(
        bytes,
        position,
        lines,
        header.fixed_scalar_words(),
        header.fixed_vector_words(),
        header.varying_scalar_words(),
        header.varying_vector_words(),
    );
}

/// What is read as field line data in the custom binary format was
/// written as that data: the bytes are the custom binary format of the
/// bounds and the data that are read from them. The data is well-formed,
/// its names are free of newlines, and its numbers of field lines, points
/// and columns can stand in the header.
#[verifier::rlimit(40)]
pub proof fn lemma_read_data_was_written(bytes: Seq<u8>)
    ensures
        match parsed_custom_binary(bytes) {
            Some((lower_bounds, upper_bounds, properties)) => {
                &&& lower_bounds.len() == 3
                &&& upper_bounds.len() == 3
                &&& properties.is_well_formed()
                &&& are_names_of_one_line(properties.names())
                &&& fits_header(properties)
                &&& custom_binary(lower_bounds, upper_bounds, properties) == bytes
            },
            None => true,
        },
{
    match parsed_custom_binary(bytes) {
        None => {},
        Some((lower_bounds, upper_bounds, properties)) => {
            let header = read_header(bytes)->0;
            let bounds = read_words(bytes, HEADER_SIZE as int, 6);
            let (names, position) = read_names_block(
                bytes,
                NAMES_START as int,
                header.number_of_names(),
            )->0;
            assert(names.len() == header.number_of_names() && NAMES_START <= position
                <= bytes.len() && are_names_of_one_line(names) && names_block(names)
                == bytes.subrange(NAMES_START as int, position)) by {
                if header.number_of_names() == 0 {
                    assert(bytes.subrange(NAMES_START as int, position) =~= seq![NAME_END]);
                } else {
                    lemma_read_names_were_written(
                        bytes,
                        NAMES_START as int,
                        header.number_of_names(),
                    );
                }
            }
            lemma_read_tables_were_written(bytes, position, header, names);
            assert(header_words(properties) =~= read_words(bytes, 0, 7));
            assert(bounds_words(lower_bounds, upper_bounds) =~= bounds);
            assert(words_to_bytes(read_words(bytes, 0, 7)) == bytes.subrange(
                0,
                HEADER_SIZE as int,
            )) by {
                lemma_read_words_were_written(bytes, 0, 7);
            }
            assert(words_to_bytes(bounds) == bytes.subrange(
                HEADER_SIZE as int,
                NAMES_START as int,
            )) by {
                lemma_read_words_were_written(bytes, HEADER_SIZE as int, 6);
            }
            let tail = words_to_bytes(offset_words(properties)) + words_to_bytes(
                properties.flat_fixed_scalar_values(),
            ) + words_to_bytes(properties.flat_fixed_vector_values()) + words_to_bytes(
                properties.flat_varying_scalar_values(),
            ) + words_to_bytes(properties.flat_varying_vector_values());
            assert(custom_binary(lower_bounds, upper_bounds, properties) =~= bytes.subrange(
                0,
                HEADER_SIZE as int,
            ) + bytes.subrange(HEADER_SIZE as int, NAMES_START as int) + bytes.subrange(
                NAMES_START as int,
                position,
            ) + tail);
            assert(bytes.subrange(0, HEADER_SIZE as int) + bytes.subrange(
                HEADER_SIZE as int,
                NAMES_START as int,
            ) + bytes.subrange(NAMES_START as int, position) + bytes.subrange(
                position,
                bytes.len() as int,
            ) =~= bytes);
        },
    }
}

} // verus!
