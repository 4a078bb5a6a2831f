//! What was written in the custom binary format is read back as it was.

use crate::geometry::Vec3;
use crate::tracing::field_line::FieldLineSetPropertiesView;
use crate::tracing::field_line::columns::ColumnEntry;
use crate::tracing::field_line::columns::is_table_of;
use crate::tracing::field_line::custom_binary::NAME_END;
use crate::tracing::field_line::custom_binary::bounds_words;
use crate::tracing::field_line::custom_binary::custom_binary;
use crate::tracing::field_line::custom_binary::header_words;
use crate::tracing::field_line::custom_binary::lemma_word_is_eight_bytes;
use crate::tracing::field_line::custom_binary::lemma_words_to_bytes_empty;
use crate::tracing::field_line::custom_binary::lemma_words_to_bytes_push;
use crate::tracing::field_line::custom_binary::name_lines;
use crate::tracing::field_line::custom_binary::names_block;
use crate::tracing::field_line::custom_binary::offset_words;
use crate::tracing::field_line::custom_binary::reading::HEADER_SIZE;
use crate::tracing::field_line::custom_binary::reading::NAMES_START;
use crate::tracing::field_line::custom_binary::reading::are_names_of_one_line;
use crate::tracing::field_line::custom_binary::reading::are_start_indices;
use crate::tracing::field_line::custom_binary::reading::chunks;
use crate::tracing::field_line::custom_binary::reading::columns_of;
use crate::tracing::field_line::custom_binary::reading::fits_header;
use crate::tracing::field_line::custom_binary::reading::header_of;
use crate::tracing::field_line::custom_binary::reading::is_custom_binary_of;
use crate::tracing::field_line::custom_binary::reading::is_name_of_one_line;
use crate::tracing::field_line::custom_binary::reading::lemma_newline_position;
use crate::tracing::field_line::custom_binary::reading::lengths_of;
use crate::tracing::field_line::custom_binary::reading::line_lengths_from;
use crate::tracing::field_line::custom_binary::reading::parsed_custom_binary;
use crate::tracing::field_line::custom_binary::reading::read_header;
use crate::tracing::field_line::custom_binary::reading::read_names;
use crate::tracing::field_line::custom_binary::reading::read_names_block;
use crate::tracing::field_line::custom_binary::reading::read_tables;
use crate::tracing::field_line::custom_binary::reading::read_word;
use crate::tracing::field_line::custom_binary::reading::read_words;
use crate::tracing::field_line::custom_binary::reading::split_lines;
use crate::tracing::field_line::custom_binary::words_to_bytes;
use crate::tracing::field_line::lemma_total_of_prefix;
use crate::tracing::field_line::start_indices;
use crate::tracing::field_line::table_names;
use crate::tracing::field_line::total;
use crate::tracing::ftr;
use vstd::bytes::spec_u64_to_le_bytes;
use vstd::prelude::*;
use vstd::utf8::encode_utf8;

verus! {

/// The bytes of words are eight times as many as the words, and the bytes
/// of each word stand at eight times its index.
pub proof fn lemma_words_to_bytes_layout(words: Seq<u64>)
    ensures
        words_to_bytes(words).len() == 8 * words.len(),
        forall|i: int|
            0 <= i < words.len() ==> #[trigger] words_to_bytes(words).subrange(8 * i, 8 * i + 8)
                == spec_u64_to_le_bytes(words[i]),
    decreases words.len(),
{
    if words.len() == 0 {
        lemma_words_to_bytes_empty();
        assert(words =~= Seq::empty());
    } else {
        let init = words.drop_last();
        lemma_words_to_bytes_layout(init);
        lemma_words_to_bytes_push(init, words.last());
        lemma_word_is_eight_bytes(words.last());
        assert(init.push(words.last()) =~= words);
        let bytes = words_to_bytes(words);
        assert forall|i: int| 0 <= i < words.len() implies #[trigger] bytes.subrange(
            8 * i,
            8 * i + 8,
        ) == spec_u64_to_le_bytes(words[i]) by {
            if i < init.len() {
                assert(bytes.subrange(8 * i, 8 * i + 8) =~= words_to_bytes(init).subrange(
                    8 * i,
                    8 * i + 8,
                ));
            } else {
                assert(bytes.subrange(8 * i, 8 * i + 8) =~= spec_u64_to_le_bytes(words.last()));
            }
        }
    }
}

/// Words are read back from where their bytes stand.
pub proof fn lemma_read_words_back(before: Seq<u8>, words: Seq<u64>, after: Seq<u8>)
    ensures
        read_words(before + words_to_bytes(words) + after, before.len() as int, words.len())
            == words,
{
    let bytes = before + words_to_bytes(words) + after;
    lemma_words_to_bytes_layout(words);
    vstd::bytes::lemma_auto_spec_u64_to_from_le_bytes();
    assert forall|i: int| 0 <= i < words.len() implies read_word(bytes, before.len() + 8 * i)
        == words[i] by {
        assert(bytes.subrange(before.len() + 8 * i, before.len() + 8 * i + 8) =~= words_to_bytes(
            words,
        ).subrange(8 * i, 8 * i + 8));
    }
    assert(read_words(bytes, before.len() as int, words.len()) =~= words);
}

/// A list of pieces of one length, flattened, is cut into the same pieces
/// again.
pub proof fn lemma_chunks_of_flatten<A>(pieces: Seq<Seq<A>>, length: nat)
    requires
        forall|i: int| 0 <= i < pieces.len() ==> (#[trigger] pieces[i]).len() == length,
    ensures
        pieces.flatten().len() == pieces.len() * length,
        chunks(pieces.flatten(), pieces.len(), length) == pieces,
    decreases pieces.len(),
{
    if pieces.len() == 0 {
        assert(pieces.flatten() =~= Seq::<A>::empty());
        assert(chunks(pieces.flatten(), pieces.len(), length) =~= pieces);
    } else {
        let init = pieces.drop_last();
        lemma_chunks_of_flatten(init, length);
        assert(init.push(pieces.last()) =~= pieces);
        init.lemma_flatten_push(pieces.last());
        let flat = pieces.flatten();
        assert(flat.len() == pieces.len() * length) by (nonlinear_arith)
            requires
                flat.len() == init.len() * length + length,
                pieces.len() == init.len() + 1,
        ;
        assert forall|i: int| 0 <= i < pieces.len() implies #[trigger] chunks(
            flat,
            pieces.len(),
            length,
        )[i] == pieces[i] by {
            assert(0 <= i * length && (i + 1) * length == i * length + length && (i + 1) * length
                <= pieces.len() * length) by (nonlinear_arith)
                requires
                    0 <= i < pieces.len(),
            ;
            if i < init.len() {
                assert((i + 1) * length <= init.len() * length) by (nonlinear_arith)
                    requires
                        0 <= i < init.len(),
                ;
                assert(flat.subrange(i * length, (i + 1) * length) =~= init.flatten().subrange(
                    i * length,
                    (i + 1) * length,
                ));
                assert(chunks(init.flatten(), init.len(), length)[i] == init[i]);
            } else {
                assert(flat.subrange(i * length, (i + 1) * length) =~= pieces.last());
            }
        }
        assert(chunks(flat, pieces.len(), length) =~= pieces);
    }
}

/// A list of pieces, flattened, is cut into the same pieces again by their
/// lengths.
pub proof fn lemma_split_lines_of_flatten<A>(pieces: Seq<Seq<A>>)
    ensures
        pieces.flatten().len() == total(lengths_of(pieces)),
        split_lines(pieces.flatten(), lengths_of(pieces)) == pieces,
    decreases pieces.len(),
{
    let lengths = lengths_of(pieces);
    if pieces.len() == 0 {
        assert(pieces.flatten() =~= Seq::<A>::empty());
        assert(split_lines(pieces.flatten(), lengths) =~= pieces);
    } else {
        let init = pieces.drop_last();
        lemma_split_lines_of_flatten(init);
        assert(init.push(pieces.last()) =~= pieces);
        init.lemma_flatten_push(pieces.last());
        assert(lengths.drop_last() =~= lengths_of(init));
        let flat = pieces.flatten();
        assert forall|i: int| 0 <= i < pieces.len() implies #[trigger] split_lines(
            flat,
            lengths,
        )[i] == pieces[i] by {
            lemma_total_of_prefix(lengths, i);
            lemma_total_of_prefix(lengths, i + 1);
            if i < init.len() {
                assert(lengths.take(i) =~= lengths_of(init).take(i));
                lemma_total_of_prefix(lengths_of(init), i + 1);
                assert(lengths.take(i + 1) =~= lengths_of(init).take(i + 1));
                assert(flat.subrange(
                    total(lengths.take(i)) as int,
                    (total(lengths.take(i)) + lengths[i]) as int,
                ) =~= init.flatten().subrange(
                    total(lengths.take(i)) as int,
                    (total(lengths.take(i)) + lengths[i]) as int,
                ));
                assert(split_lines(init.flatten(), lengths_of(init))[i] == init[i]);
            } else {
                assert(lengths.take(i) =~= lengths_of(init));
                assert(flat.subrange(
                    total(lengths.take(i)) as int,
                    (total(lengths.take(i)) + lengths[i]) as int,
                ) =~= pieces.last());
            }
        }
        assert(split_lines(flat, lengths) =~= pieces);
    }
}

/// The bytes of a character other than the newline hold no newline.
proof fn lemma_scalar_has_no_newline(c: char)
    requires
        c != '\n',
    ensures
        ({
            let bytes = vstd::utf8::encode_scalar(c as u32);
            forall|j: int| 0 <= j < bytes.len() ==> #[trigger] bytes[j] != NAME_END
        }),
{
    let scalar = c as u32;
    vstd::utf8::char_is_scalar(c);
    assert(scalar != 0x0A);
    assert(scalar <= 0x7F && scalar != 0x0A ==> (scalar & 0x7F) as u8 != 0x0Au8) by (bit_vector);
    assert(0xC0u8 | ((scalar >> 6) & 0x1F) as u8 != 0x0Au8) by (bit_vector);
    assert(0xE0u8 | ((scalar >> 12) & 0x0F) as u8 != 0x0Au8) by (bit_vector);
    assert(0xF0u8 | ((scalar >> 18) & 0x7) as u8 != 0x0Au8) by (bit_vector);
    assert(0x80u8 | (scalar & 0x3F) as u8 != 0x0Au8) by (bit_vector);
    assert(0x80u8 | ((scalar >> 6) & 0x3F) as u8 != 0x0Au8) by (bit_vector);
    assert(0x80u8 | ((scalar >> 12) & 0x3F) as u8 != 0x0Au8) by (bit_vector);
}

/// The bytes of a name that is free of newlines hold no newline.
pub proof fn lemma_name_has_no_newline(name: Seq<char>)
    requires
        is_name_of_one_line(name),
    ensures
        forall|j: int| 0 <= j < encode_utf8(name).len() ==> encode_utf8(name)[j] != NAME_END,
    decreases name.len(),
{
    if name.len() > 0 {
        let rest = name.drop_first();
        assert forall|i: int| 0 <= i < rest.len() implies rest[i] != '\n' by {
            assert(rest[i] == name[i + 1]);
        }
        lemma_name_has_no_newline(rest);
        lemma_scalar_has_no_newline(name[0]);
        let first = vstd::utf8::encode_scalar(name[0] as u32);
        let bytes = encode_utf8(name);
        assert(bytes == first + encode_utf8(rest));
        assert forall|j: int| 0 <= j < bytes.len() implies bytes[j] != NAME_END by {
            if j < first.len() {
                assert(bytes[j] == first[j]);
            } else {
                assert(bytes[j] == encode_utf8(rest)[j - first.len()]);
            }
        }
    }
}

/// Names are read back from where their lines stand.
pub proof fn lemma_read_names_back(before: Seq<u8>, names: Seq<Seq<char>>, after: Seq<u8>)
    requires
        are_names_of_one_line(names),
    ensures
        read_names(before + name_lines(names) + after, before.len() as int, names.len()) == Some(
            (names, (before.len() + name_lines(names).len()) as int),
        ),
    decreases names.len(),
{
    let bytes = before + name_lines(names) + after;
    let line = |name: Seq<char>| encode_utf8(name).push(NAME_END);
    if names.len() == 0 {
        assert(names.map_values(line) =~= Seq::empty());
        assert(name_lines(names) =~= Seq::empty());
        assert(names =~= Seq::empty());
    } else {
        let name = names[0];
        let rest = names.drop_first();
        let name_bytes = encode_utf8(name);
        assert(names.map_values(line).drop_first() =~= rest.map_values(line));
        assert(name_lines(names) == line(name) + name_lines(rest));
        let end: int = (before.len() + name_bytes.len()) as int;
        lemma_name_has_no_newline(name);
        assert(bytes[end] == NAME_END);
        assert forall|j: int| before.len() <= j < end implies bytes[j] != NAME_END by {
            assert(bytes[j] == name_bytes[j - before.len()]);
        }
        lemma_newline_position(bytes, before.len() as int, end);
        assert(bytes.subrange(before.len() as int, end) =~= name_bytes);
        vstd::utf8::encode_utf8_valid_utf8(name);
        vstd::utf8::encode_utf8_decode_utf8(name);
        assert forall|i: int| 0 <= i < rest.len() implies is_name_of_one_line(
            #[trigger] rest[i],
        ) by {
            assert(rest[i] == names[i + 1]);
        }
        lemma_read_names_back(before + line(name), rest, after);
        assert(before + line(name) + name_lines(rest) + after =~= bytes);
        assert(seq![name] + rest =~= names);
    }
}

/// A table of fixed scalar values is cut out of its flattened values again.
proof fn lemma_fixed_scalars_back(table: Seq<(Seq<char>, Seq<u64>)>, line_lengths: Seq<nat>)
    requires
        is_table_of::<ftr>(table, line_lengths),
    ensures
        ({
            let flat = table.map_values(|c: (Seq<char>, Seq<u64>)| c.1).flatten();
            &&& flat.len() == table.len() * line_lengths.len()
            &&& columns_of(
                table_names(table),
                chunks(flat, table.len(), line_lengths.len()),
            ) == table
        }),
{
    let pieces = table.map_values(|c: (Seq<char>, Seq<u64>)| c.1);
    assert forall|c: int| 0 <= c < pieces.len() implies (#[trigger] pieces[c]).len()
        == line_lengths.len() by {
        assert(pieces[c] == table[c].1);
    }
    lemma_chunks_of_flatten(pieces, line_lengths.len());
    assert(columns_of(table_names(table), pieces) =~= table);
}

/// A table of fixed vector values is cut out of its flattened values again.
proof fn lemma_fixed_vectors_back(table: Seq<(Seq<char>, Seq<Seq<u64>>)>, line_lengths: Seq<nat>)
    requires
        is_table_of::<Vec3<ftr>>(table, line_lengths),
    ensures
        ({
            let flat = table.map_values(
                |c: (Seq<char>, Seq<Seq<u64>>)| c.1.flatten(),
            ).flatten();
            &&& flat.len() == table.len() * (3 * line_lengths.len())
            &&& columns_of(
                table_names(table),
                chunks(flat, table.len(), 3 * line_lengths.len()).map_values(
                    |flat: Seq<u64>| chunks(flat, line_lengths.len(), 3),
                ),
            ) == table
        }),
{
    let lines = line_lengths.len();
    let pieces = table.map_values(|c: (Seq<char>, Seq<Seq<u64>>)| c.1.flatten());
    let cut = |flat: Seq<u64>| chunks(flat, lines, 3);
    assert forall|c: int| 0 <= c < pieces.len() implies (#[trigger] pieces[c]).len() == 3 * lines
        && cut(pieces[c]) == table[c].1 by {
        let vectors = table[c].1;
        assert(pieces[c] == vectors.flatten());
        assert forall|i: int| 0 <= i < vectors.len() implies (#[trigger] vectors[i]).len()
            == 3 by {
            assert(<Vec3<ftr> as ColumnEntry>::fits(table[c].1[i], line_lengths[i]));
        }
        lemma_chunks_of_flatten(vectors, 3);
        assert(vectors.len() * 3 == 3 * lines) by (nonlinear_arith)
            requires
                vectors.len() == lines,
        ;
    }
    lemma_chunks_of_flatten(pieces, 3 * lines);
    assert(columns_of(table_names(table), pieces.map_values(cut)) =~= table);
}

/// A table of varying scalar values is cut out of its flattened values
/// again.
proof fn lemma_varying_scalars_back(table: Seq<(Seq<char>, Seq<Seq<u64>>)>, line_lengths: Seq<nat>)
    requires
        is_table_of::<Vec<ftr>>(table, line_lengths),
    ensures
        ({
            let flat = table.map_values(
                |c: (Seq<char>, Seq<Seq<u64>>)| c.1.flatten(),
            ).flatten();
            &&& flat.len() == table.len() * total(line_lengths)
            &&& columns_of(
                table_names(table),
                chunks(flat, table.len(), total(line_lengths)).map_values(
                    |flat: Seq<u64>| split_lines(flat, line_lengths),
                ),
            ) == table
        }),
{
    let pieces = table.map_values(|c: (Seq<char>, Seq<Seq<u64>>)| c.1.flatten());
    let cut = |flat: Seq<u64>| split_lines(flat, line_lengths);
    assert forall|c: int| 0 <= c < pieces.len() implies (#[trigger] pieces[c]).len() == total(
        line_lengths,
    ) && cut(pieces[c]) == table[c].1 by {
        let lines = table[c].1;
        assert(pieces[c] == lines.flatten());
        assert(lengths_of(lines) =~= line_lengths) by {
            assert forall|i: int| 0 <= i < lines.len() implies lines[i].len()
                == line_lengths[i] by {
                assert(<Vec<ftr> as ColumnEntry>::fits(table[c].1[i], line_lengths[i]));
            }
        }
        lemma_split_lines_of_flatten(lines);
    }
    lemma_chunks_of_flatten(pieces, total(line_lengths));
    assert(columns_of(table_names(table), pieces.map_values(cut)) =~= table);
}

/// A table of varying vector values is cut out of its flattened values
/// again.
proof fn lemma_varying_vectors_back(
    table: Seq<(Seq<char>, Seq<Seq<Seq<u64>>>)>,
    line_lengths: Seq<nat>,
)
    requires
        is_table_of::<Vec<Vec3<ftr>>>(table, line_lengths),
    ensures
        ({
            let flat = table.map_values(
                |c: (Seq<char>, Seq<Seq<Seq<u64>>>)| c.1.flatten().flatten(),
            ).flatten();
            &&& flat.len() == table.len() * (3 * total(line_lengths))
            &&& columns_of(
                table_names(table),
                chunks(flat, table.len(), 3 * total(line_lengths)).map_values(
                    |flat: Seq<u64>|
                        split_lines(chunks(flat, total(line_lengths), 3), line_lengths),
                ),
            ) == table
        }),
{
    let elements = total(line_lengths);
    let pieces = table.map_values(|c: (Seq<char>, Seq<Seq<Seq<u64>>>)| c.1.flatten().flatten());
    let cut = |flat: Seq<u64>| split_lines(chunks(flat, elements, 3), line_lengths);
    assert forall|c: int| 0 <= c < pieces.len() implies (#[trigger] pieces[c]).len() == 3
        * elements && cut(pieces[c]) == table[c].1 by {
        let lines = table[c].1;
        let vectors = lines.flatten();
        assert(pieces[c] == vectors.flatten());
        assert(lengths_of(lines) =~= line_lengths) by {
            assert forall|i: int| 0 <= i < lines.len() implies lines[i].len()
                == line_lengths[i] by {
                assert(<Vec<Vec3<ftr>> as ColumnEntry>::fits(table[c].1[i], line_lengths[i]));
            }
        }
        lemma_split_lines_of_flatten(lines);
        assert forall|k: int| 0 <= k < vectors.len() implies (#[trigger] vectors[k]).len()
            == 3 by {
            lemma_flattened_vectors(lines, line_lengths, k);
        }
        lemma_chunks_of_flatten(vectors, 3);
        assert(vectors.len() * 3 == 3 * elements) by (nonlinear_arith)
            requires
                vectors.len() == elements,
        ;
    }
    lemma_chunks_of_flatten(pieces, 3 * elements);
    assert(columns_of(table_names(table), pieces.map_values(cut)) =~= table);
}

/// Each vector of the flattened lines of a column has three components.
proof fn lemma_flattened_vectors(lines: Seq<Seq<Seq<u64>>>, line_lengths: Seq<nat>, k: int)
    requires
        lines.len() == line_lengths.len(),
        forall|i: int|
            0 <= i < lines.len() ==> <Vec<Vec3<ftr>> as ColumnEntry>::fits(
                #[trigger] lines[i],
                line_lengths[i],
            ),
        0 <= k < lines.flatten().len(),
    ensures
        lines.flatten()[k].len() == 3,
    decreases lines.len(),
{
    if lines.len() == 0 {
        assert(lines.flatten() =~= Seq::empty());
    } else {
        let init = lines.drop_last();
        assert(init.push(lines.last()) =~= lines);
        init.lemma_flatten_push(lines.last());
        if k < init.flatten().len() {
            assert forall|i: int| 0 <= i < init.len() implies <Vec<Vec3<ftr>> as ColumnEntry>::fits(
                #[trigger] init[i],
                line_lengths.drop_last()[i],
            ) by {
                assert(init[i] == lines[i]);
            }
            lemma_flattened_vectors(init, line_lengths.drop_last(), k);
            assert(lines.flatten()[k] == init.flatten()[k]);
        } else {
            let last = lines.last();
            assert(<Vec<Vec3<ftr>> as ColumnEntry>::fits(
                lines[lines.len() - 1],
                line_lengths[lines.len() - 1],
            ));
            assert(lines.flatten()[k] == last[k - init.flatten().len()]);
        }
    }
}

/// The start indices of field lines are start indices, and give the
/// numbers of points of the field lines again.
proof fn lemma_start_indices_back(line_lengths: Seq<nat>)
    requires
        total(line_lengths) <= u64::MAX,
    ensures
        ({
            let starts = start_indices(line_lengths).map_values(|start: nat| start as u64);
            &&& are_start_indices(starts, total(line_lengths))
            &&& line_lengths_from(starts, total(line_lengths)) == line_lengths
        }),
{
    let starts = start_indices(line_lengths).map_values(|start: nat| start as u64);
    let elements = total(line_lengths);
    assert forall|i: int| 0 <= i < starts.len() implies starts[i] == total(line_lengths.take(i))
        && total(line_lengths.take(i)) + line_lengths[i] == total(line_lengths.take(i + 1))
        && total(line_lengths.take(i + 1)) <= elements by {
        lemma_total_of_prefix(line_lengths, i);
        lemma_total_of_prefix(line_lengths, i + 1);
    }
    if starts.len() > 0 {
        assert(line_lengths.take(0) =~= Seq::empty());
        assert(line_lengths.take(line_lengths.len() as int) =~= line_lengths);
    } else {
        assert(line_lengths =~= Seq::empty());
    }
    assert(line_lengths_from(starts, elements) =~= line_lengths);
}

/// Five rows of words are read back from where their bytes stand one
/// after the other.
#[verifier::rlimit(40)]
proof fn lemma_sections_are_read_back(
    before: Seq<u8>,
    words_0: Seq<u64>,
    words_1: Seq<u64>,
    words_2: Seq<u64>,
    words_3: Seq<u64>,
    words_4: Seq<u64>,
)
    ensures
        ({
            let bytes = before + words_to_bytes(words_0) + words_to_bytes(words_1)
                + words_to_bytes(words_2) + words_to_bytes(words_3) + words_to_bytes(words_4);
            let at_0 = before.len() as int;
            let at_1 = at_0 + 8 * words_0.len();
            let at_2 = at_1 + 8 * words_1.len();
            let at_3 = at_2 + 8 * words_2.len();
            let at_4 = at_3 + 8 * words_3.len();
            &&& bytes.len() == at_4 + 8 * words_4.len()
            &&& read_words(bytes, at_0, words_0.len()) == words_0
            &&& read_words(bytes, at_1, words_1.len()) == words_1
            &&& read_words(bytes, at_2, words_2.len()) == words_2
            &&& read_words(bytes, at_3, words_3.len()) == words_3
            &&& read_words(bytes, at_4, words_4.len()) == words_4
        }),
{
    let section_0 = words_to_bytes(words_0);
    let section_1 = words_to_bytes(words_1);
    let section_2 = words_to_bytes(words_2);
    let section_3 = words_to_bytes(words_3);
    let section_4 = words_to_bytes(words_4);
    let bytes = before + section_0 + section_1 + section_2 + section_3 + section_4;
    assert(section_0.len() == 8 * words_0.len()) by {
        lemma_words_to_bytes_layout(words_0);
    }
    assert(section_1.len() == 8 * words_1.len()) by {
        lemma_words_to_bytes_layout(words_1);
    }
    assert(section_2.len() == 8 * words_2.len()) by {
        lemma_words_to_bytes_layout(words_2);
    }
    assert(section_3.len() == 8 * words_3.len()) by {
        lemma_words_to_bytes_layout(words_3);
    }
    assert(section_4.len() == 8 * words_4.len()) by {
        lemma_words_to_bytes_layout(words_4);
    }
    let at_0 = before.len() as int;
    let at_1 = at_0 + 8 * words_0.len();
    let at_2 = at_1 + 8 * words_1.len();
    let at_3 = at_2 + 8 * words_2.len();
    let at_4 = at_3 + 8 * words_3.len();
    assert(read_words(bytes, at_0, words_0.len()) == words_0) by {
        lemma_read_words_back(before, words_0, section_1 + section_2 + section_3 + section_4);
        assert(before + section_0 + (section_1 + section_2 + section_3 + section_4) =~= bytes);
    }
    assert(read_words(bytes, at_1, words_1.len()) == words_1) by {
        lemma_read_words_back(before + section_0, words_1, section_2 + section_3 + section_4);
        assert(before + section_0 + section_1 + (section_2 + section_3 + section_4) =~= bytes);
    }
    assert(read_words(bytes, at_2, words_2.len()) == words_2) by {
        lemma_read_words_back(before + section_0 + section_1, words_2, section_3 + section_4);
        assert(before + section_0 + section_1 + section_2 + (section_3 + section_4) =~= bytes);
    }
    assert(read_words(bytes, at_3, words_3.len()) == words_3) by {
        lemma_read_words_back(before + section_0 + section_1 + section_2, words_3, section_4);
    }
    assert(read_words(bytes, at_4, words_4.len()) == words_4) by {
        lemma_read_words_back(
            before + section_0 + section_1 + section_2 + section_3,
            words_4,
            Seq::empty(),
        );
        assert(before + section_0 + section_1 + section_2 + section_3 + section_4 + Seq::<
            u8,
        >::empty() =~= bytes);
    }
}

/// The tables of written data are read back from where they stand.
#[verifier::rlimit(40)]
proof fn lemma_tables_are_read_back(before: Seq<u8>, properties: FieldLineSetPropertiesView)
    requires
        properties.is_well_formed(),
        fits_header(properties),
    ensures
        ({
            let bytes = before + words_to_bytes(offset_words(properties)) + words_to_bytes(
                properties.flat_fixed_scalar_values(),
            ) + words_to_bytes(properties.flat_fixed_vector_values()) + words_to_bytes(
                properties.flat_varying_scalar_values(),
            ) + words_to_bytes(properties.flat_varying_vector_values());
            &&& bytes.len() == before.len() + 8 * header_of(properties).number_of_words()
            &&& are_start_indices(
                read_words(bytes, before.len() as int, properties.number_of_field_lines),
                properties.number_of_field_line_elements(),
            )
            &&& read_tables(
                bytes,
                before.len() as int,
                header_of(properties),
                properties.names(),
            ) == properties
        }),
{
    let header = header_of(properties);
    let line_lengths = properties.line_lengths();
    let lines = properties.number_of_field_lines;
    let elements = properties.number_of_field_line_elements();
    let starts = offset_words(properties);
    let fixed_scalars = properties.flat_fixed_scalar_values();
    let fixed_vectors = properties.flat_fixed_vector_values();
    let varying_scalars = properties.flat_varying_scalar_values();
    let varying_vectors = properties.flat_varying_vector_values();
    let bytes = before + words_to_bytes(starts) + words_to_bytes(fixed_scalars) + words_to_bytes(
        fixed_vectors,
    ) + words_to_bytes(varying_scalars) + words_to_bytes(varying_vectors);
    let position = before.len() as int;
    let names = properties.names();
    let read = read_tables(bytes, position, header, names);

    lemma_sections_are_read_back(
        before,
        starts,
        fixed_scalars,
        fixed_vectors,
        varying_scalars,
        varying_vectors,
    );
    assert(starts.len() == lines);
    assert(are_start_indices(starts, elements) && line_lengths_from(starts, elements)
        == line_lengths) by {
        lemma_start_indices_back(line_lengths);
    }
    let fixed_vector_names_at = header.number_of_fixed_scalars as int;
    let varying_scalar_names_at = fixed_vector_names_at + header.number_of_fixed_vectors;
    let varying_vector_names_at = varying_scalar_names_at + header.number_of_varying_scalars;
    assert(fixed_scalars.len() == header.fixed_scalar_words() && columns_of(
        names.subrange(0, fixed_vector_names_at),
        chunks(fixed_scalars, header.number_of_fixed_scalars, lines),
    ) == properties.fixed_scalar_values) by {
        lemma_fixed_scalars_back(properties.fixed_scalar_values, line_lengths);
        assert(names.subrange(0, fixed_vector_names_at) =~= table_names(
            properties.fixed_scalar_values,
        ));
    }
    assert(fixed_vectors.len() == header.fixed_vector_words() && columns_of(
        names.subrange(fixed_vector_names_at, varying_scalar_names_at),
        chunks(fixed_vectors, header.number_of_fixed_vectors, 3 * lines).map_values(
            |flat: Seq<u64>| chunks(flat, lines, 3),
        ),
    ) == properties.fixed_vector_values) by {
        lemma_fixed_vectors_back(properties.fixed_vector_values, line_lengths);
        assert(names.subrange(fixed_vector_names_at, varying_scalar_names_at) =~= table_names(
            properties.fixed_vector_values,
        ));
    }
    assert(varying_scalars.len() == header.varying_scalar_words() && columns_of(
        names.subrange(varying_scalar_names_at, varying_vector_names_at),
        chunks(varying_scalars, header.number_of_varying_scalars, elements).map_values(
            |flat: Seq<u64>| split_lines(flat, line_lengths),
        ),
    ) == properties.varying_scalar_values) by {
        lemma_varying_scalars_back(properties.varying_scalar_values, line_lengths);
        assert(names.subrange(varying_scalar_names_at, varying_vector_names_at) =~= table_names(
            properties.varying_scalar_values,
        ));
    }
    assert(varying_vectors.len() == header.varying_vector_words() && columns_of(
        names.subrange(varying_vector_names_at, names.len() as int),
        chunks(varying_vectors, header.number_of_varying_vectors, 3 * elements).map_values(
            |flat: Seq<u64>| split_lines(chunks(flat, elements, 3), line_lengths),
        ),
    ) == properties.varying_vector_values) by {
        lemma_varying_vectors_back(properties.varying_vector_values, line_lengths);
        assert(names.subrange(varying_vector_names_at, names.len() as int) =~= table_names(
            properties.varying_vector_values,
        ));
    }
    assert(read.fixed_scalar_values == properties.fixed_scalar_values);
    assert(read.fixed_vector_values == properties.fixed_vector_values);
    assert(read.varying_scalar_values == properties.varying_scalar_values);
    assert(read.varying_vector_values == properties.varying_vector_values);
}

/// What was written in the custom binary format is read back as it was:
/// the same bounds and the same field line data, value for value. This
/// holds of well-formed data with names without newlines, whose numbers of
/// field lines, points and columns can stand in the header.
#[verifier::rlimit(40)]
pub proof fn lemma_custom_binary_is_read_back(
    lower_bounds: Seq<u64>,
    upper_bounds: Seq<u64>,
    properties: FieldLineSetPropertiesView,
)
    requires
        lower_bounds.len() == 3,
        upper_bounds.len() == 3,
        properties.is_well_formed(),
        are_names_of_one_line(properties.names()),
        fits_header(properties),
    ensures
        parsed_custom_binary(custom_binary(lower_bounds, upper_bounds, properties)) == Some(
            (lower_bounds, upper_bounds, properties),
        ),
{
    let bytes = custom_binary(lower_bounds, upper_bounds, properties);
    let header = header_words(properties);
    let bounds = bounds_words(lower_bounds, upper_bounds);
    let names = properties.names();
    let header_bytes = words_to_bytes(header);
    let bounds_bytes = words_to_bytes(bounds);
    let names_bytes = names_block(names);
    let rest = words_to_bytes(offset_words(properties)) + words_to_bytes(
        properties.flat_fixed_scalar_values(),
    ) + words_to_bytes(properties.flat_fixed_vector_values()) + words_to_bytes(
        properties.flat_varying_scalar_values(),
    ) + words_to_bytes(properties.flat_varying_vector_values());
    lemma_words_to_bytes_layout(header);
    lemma_words_to_bytes_layout(bounds);
    assert(bytes =~= header_bytes + (bounds_bytes + names_bytes + rest));
    assert(bytes =~= header_bytes + bounds_bytes + (names_bytes + rest));
    assert(read_words(bytes, 0, 7) == header) by {
        lemma_read_words_back(Seq::empty(), header, bounds_bytes + names_bytes + rest);
        assert(Seq::<u8>::empty() + header_bytes + (bounds_bytes + names_bytes + rest) =~= bytes);
    }
    assert(read_words(bytes, HEADER_SIZE as int, 6) == bounds) by {
        lemma_read_words_back(header_bytes, bounds, names_bytes + rest);
    }
    assert(read_header(bytes) == Some(header_of(properties))) by {
        assert(read_word(bytes, 0) == read_words(bytes, 0, 7)[0]);
        assert(read_word(bytes, 8) == read_words(bytes, 0, 7)[1]);
        assert(read_word(bytes, 16) == read_words(bytes, 0, 7)[2]);
        assert(read_word(bytes, 24) == read_words(bytes, 0, 7)[3]);
        assert(read_word(bytes, 32) == read_words(bytes, 0, 7)[4]);
        assert(read_word(bytes, 40) == read_words(bytes, 0, 7)[5]);
        assert(read_word(bytes, 48) == read_words(bytes, 0, 7)[6]);
    }
    let start = header_bytes + bounds_bytes;
    let position = (NAMES_START + names_bytes.len()) as int;
    assert(names.len() == header_of(properties).number_of_names());
    assert(read_names_block(bytes, NAMES_START as int, names.len()) == Some((names, position))) by {
        if names.len() == 0 {
            assert(bytes[NAMES_START as int] == names_bytes[0]);
            assert(names =~= Seq::empty());
        } else {
            lemma_read_names_back(start, names, rest);
            assert(start + name_lines(names) + rest =~= bytes);
        }
    }
    lemma_tables_are_read_back(start + names_bytes, properties);
    assert(start + names_bytes + words_to_bytes(offset_words(properties)) + words_to_bytes(
        properties.flat_fixed_scalar_values(),
    ) + words_to_bytes(properties.flat_fixed_vector_values()) + words_to_bytes(
        properties.flat_varying_scalar_values(),
    ) + words_to_bytes(properties.flat_varying_vector_values()) =~= bytes);
    let read_bounds = read_words(bytes, HEADER_SIZE as int, 6);
    assert(seq![read_bounds[0], read_bounds[2], read_bounds[4]] =~= lower_bounds);
    assert(seq![read_bounds[1], read_bounds[3], read_bounds[5]] =~= upper_bounds);
}

/// No two different sets of bounds and data have the same bytes in the
/// custom binary format.
pub proof fn lemma_custom_binary_is_injective(
    bytes: Seq<u8>,
    lower_bounds: Seq<u64>,
    upper_bounds: Seq<u64>,
    properties: FieldLineSetPropertiesView,
    other_lower_bounds: Seq<u64>,
    other_upper_bounds: Seq<u64>,
    other_properties: FieldLineSetPropertiesView,
)
    requires
        is_custom_binary_of(bytes, lower_bounds, upper_bounds, properties),
        is_custom_binary_of(bytes, other_lower_bounds, other_upper_bounds, other_properties),
    ensures
        lower_bounds == other_lower_bounds,
        upper_bounds == other_upper_bounds,
        properties == other_properties,
{
    lemma_custom_binary_is_read_back(lower_bounds, upper_bounds, properties);
    lemma_custom_binary_is_read_back(other_lower_bounds, other_upper_bounds, other_properties);
}

} // verus!
