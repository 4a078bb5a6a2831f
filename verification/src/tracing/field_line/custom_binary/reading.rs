//! Reading of field line data in the custom binary format.

pub mod read_was_written;
pub mod written_is_read;

use crate::geometry::Vec3;
use crate::tracing::field_line::FieldLineSetProperties3;
use crate::tracing::field_line::FieldLineSetPropertiesView;
use crate::tracing::field_line::custom_binary::FLOAT_SIZE;
use crate::tracing::field_line::custom_binary::NAME_END;
use crate::tracing::field_line::custom_binary::custom_binary;
use crate::tracing::field_line::custom_binary::reading::read_was_written::lemma_read_data_was_written;
use crate::tracing::field_line::custom_binary::reading::written_is_read::lemma_custom_binary_is_read_back;
use crate::tracing::field_line::fixed_scalars_view;
use crate::tracing::field_line::fixed_vectors_view;
use crate::tracing::field_line::lemma_total_of_prefix;
use crate::tracing::field_line::lengths_view;
use crate::tracing::field_line::lines_view;
use crate::tracing::field_line::total;
use crate::tracing::field_line::varying_scalars_view;
use crate::tracing::field_line::varying_vectors_view;
use crate::tracing::field_line::vector_lines_view;
use crate::tracing::field_line::vectors_view;
use crate::tracing::ftr;
use vstd::bytes::spec_u64_from_le_bytes;
use vstd::bytes::u64_from_le_bytes;
use vstd::prelude::*;
use vstd::slice::slice_index_get;
use vstd::slice::slice_subrange;
use vstd::slice::slice_to_vec;
use vstd::utf8::decode_utf8;
use vstd::utf8::valid_utf8;

verus! {

/// The word whose little-endian bytes stand at the given position.
pub open spec fn read_word(bytes: Seq<u8>, position: int) -> u64 {
    spec_u64_from_le_bytes(bytes.subrange(position, position + 8))
}

/// The words whose little-endian bytes stand in a row from the given
/// position on.
pub open spec fn read_words(bytes: Seq<u8>, position: int, count: nat) -> Seq<u64> {
    Seq::new(count, |i: int| read_word(bytes, position + 8 * i))
}

/// A row of values cut into the given number of pieces of the given
/// length.
pub open spec fn chunks<A>(flat: Seq<A>, count: nat, length: nat) -> Seq<Seq<A>> {
    Seq::new(count, |i: int| flat.subrange(i * length, (i + 1) * length))
}

/// A row of values cut into pieces of the given lengths.
pub open spec fn split_lines<A>(flat: Seq<A>, lengths: Seq<nat>) -> Seq<Seq<A>> {
    Seq::new(
        lengths.len(),
        |i: int|
            flat.subrange(
                total(lengths.take(i)) as int,
                (total(lengths.take(i)) + lengths[i]) as int,
            ),
    )
}

/// The lengths of the pieces of a list.
pub open spec fn lengths_of<A>(lines: Seq<Seq<A>>) -> Seq<nat> {
    lines.map_values(|line: Seq<A>| line.len())
}

/// The position of the first newline at or after the given position.
pub open spec fn newline_position(bytes: Seq<u8>, position: int) -> Option<int>
    decreases bytes.len() - position,
{
    if position < 0 || position >= bytes.len() {
        None
    } else if bytes[position] == NAME_END {
        Some(position)
    } else {
        newline_position(bytes, position + 1)
    }
}

/// The given number of names that stand from the given position on, each
/// in UTF-8 and ended by a newline, and the position after the last of
/// them.
pub open spec fn read_names(bytes: Seq<u8>, position: int, count: nat) -> Option<
    (Seq<Seq<char>>, int),
>
    decreases count,
{
    if count == 0 {
        Some((Seq::empty(), position))
    } else {
        match newline_position(bytes, position) {
            None => None,
            Some(end) => {
                let name_bytes = bytes.subrange(position, end);
                if !valid_utf8(name_bytes) {
                    None
                } else {
                    match read_names(bytes, end + 1, (count - 1) as nat) {
                        None => None,
                        Some((names, after)) => Some(
                            (seq![decode_utf8(name_bytes)] + names, after),
                        ),
                    }
                }
            },
        }
    }
}

/// The block of the given number of names that stands at the given
/// position, and the position after it. The block of no names is a lone
/// newline.
pub open spec fn read_names_block(bytes: Seq<u8>, position: int, count: nat) -> Option<
    (Seq<Seq<char>>, int),
> {
    if count == 0 {
        if 0 <= position < bytes.len() && bytes[position] == NAME_END {
            Some((Seq::empty(), position + 1))
        } else {
            None
        }
    } else {
        read_names(bytes, position, count)
    }
}

/// Whether a name is free of newlines.
pub open spec fn is_name_of_one_line(name: Seq<char>) -> bool {
    forall|i: int| 0 <= i < name.len() ==> name[i] != '\n'
}

/// Whether all the names are free of newlines.
pub open spec fn are_names_of_one_line(names: Seq<Seq<char>>) -> bool {
    forall|i: int| 0 <= i < names.len() ==> is_name_of_one_line(#[trigger] names[i])
}

/// The first newline after a stretch without newlines.
pub(crate) proof fn lemma_newline_position(bytes: Seq<u8>, position: int, end: int)
    requires
        0 <= position <= end < bytes.len(),
        bytes[end] == NAME_END,
        forall|j: int| position <= j < end ==> bytes[j] != NAME_END,
    ensures
        newline_position(bytes, position) == Some(end),
    decreases end - position,
{
    if position < end {
        lemma_newline_position(bytes, position + 1, end);
    }
}

/// What the header says of the data that follows it.
pub struct Header {
    pub number_of_field_lines: nat,
    pub number_of_field_line_elements: nat,
    pub number_of_fixed_scalars: nat,
    pub number_of_fixed_vectors: nat,
    pub number_of_varying_scalars: nat,
    pub number_of_varying_vectors: nat,
}

impl Header {
    /// Number of names in the block of names.
    pub open spec fn number_of_names(self) -> nat {
        self.number_of_fixed_scalars + self.number_of_fixed_vectors
            + self.number_of_varying_scalars + self.number_of_varying_vectors
    }

    /// Number of words of the fixed scalar values.
    pub open spec fn fixed_scalar_words(self) -> nat {
        self.number_of_fixed_scalars * self.number_of_field_lines
    }

    /// Number of words of the fixed vector values.
    pub open spec fn fixed_vector_words(self) -> nat {
        self.number_of_fixed_vectors * (3 * self.number_of_field_lines)
    }

    /// Number of words of the varying scalar values.
    pub open spec fn varying_scalar_words(self) -> nat {
        self.number_of_varying_scalars * self.number_of_field_line_elements
    }

    /// Number of words of the varying vector values.
    pub open spec fn varying_vector_words(self) -> nat {
        self.number_of_varying_vectors * (3 * self.number_of_field_line_elements)
    }

    /// Number of words after the block of names: the start indices and
    /// the values of the four tables.
    pub open spec fn number_of_words(self) -> nat {
        self.number_of_field_lines + self.fixed_scalar_words() + self.fixed_vector_words()
            + self.varying_scalar_words() + self.varying_vector_words()
    }
}

/// Number of bytes of the header.
pub const HEADER_SIZE: usize = 56;

/// Number of bytes of the header and the bounds.
pub const NAMES_START: usize = 104;

/// The header at the start of the given bytes, where the numbers are of
/// the size that this library reads.
pub open spec fn read_header(bytes: Seq<u8>) -> Option<Header> {
    if bytes.len() < NAMES_START || read_word(bytes, 0) != FLOAT_SIZE {
        None
    } else {
        Some(
            Header {
                number_of_field_lines: read_word(bytes, 8) as nat,
                number_of_field_line_elements: read_word(bytes, 16) as nat,
                number_of_fixed_scalars: read_word(bytes, 24) as nat,
                number_of_fixed_vectors: read_word(bytes, 32) as nat,
                number_of_varying_scalars: read_word(bytes, 40) as nat,
                number_of_varying_vectors: read_word(bytes, 48) as nat,
            },
        )
    }
}

/// Whether the given words can be the start indices of field lines with
/// the given number of points in all: they start at zero, do not fall, and
/// do not exceed the number of points.
pub open spec fn are_start_indices(starts: Seq<u64>, number_of_elements: nat) -> bool {
    &&& starts.len() == 0 ==> number_of_elements == 0
    &&& starts.len() > 0 ==> starts[0] == 0 && starts.last() <= number_of_elements
    &&& forall|i: int| 0 <= i < starts.len() - 1 ==> starts[i] <= #[trigger] starts[i + 1]
}

/// The numbers of points of the field lines with the given start indices
/// and the given number of points in all.
pub open spec fn line_lengths_from(starts: Seq<u64>, number_of_elements: nat) -> Seq<nat> {
    Seq::new(
        starts.len(),
        |i: int|
            if i + 1 < starts.len() {
                (starts[i + 1] - starts[i]) as nat
            } else {
                (number_of_elements - starts[i]) as nat
            },
    )
}

/// The columns with the given names and values.
pub open spec fn columns_of<W>(names: Seq<Seq<char>>, values: Seq<W>) -> Seq<(Seq<char>, W)> {
    Seq::new(names.len(), |c: int| (names[c], values[c]))
}

/// The data whose start indices and values stand from the given position
/// on, under the given header and names.
pub open spec fn read_tables(
    bytes: Seq<u8>,
    position: int,
    header: Header,
    names: Seq<Seq<char>>,
) -> FieldLineSetPropertiesView {
    let lines = header.number_of_field_lines;
    let elements = header.number_of_field_line_elements;
    let lengths = line_lengths_from(read_words(bytes, position, lines), elements);
    let fixed_scalars_at = position + 8 * lines;
    let fixed_vectors_at = fixed_scalars_at + 8 * header.fixed_scalar_words();
    let varying_scalars_at = fixed_vectors_at + 8 * header.fixed_vector_words();
    let varying_vectors_at = varying_scalars_at + 8 * header.varying_scalar_words();
    let fixed_vector_names_at = header.number_of_fixed_scalars as int;
    let varying_scalar_names_at = fixed_vector_names_at + header.number_of_fixed_vectors;
    let varying_vector_names_at = varying_scalar_names_at + header.number_of_varying_scalars;
    FieldLineSetPropertiesView {
        number_of_field_lines: lines,
        fixed_scalar_values: columns_of(
            names.subrange(0, fixed_vector_names_at),
            chunks(
                read_words(bytes, fixed_scalars_at, header.fixed_scalar_words()),
                header.number_of_fixed_scalars,
                lines,
            ),
        ),
        fixed_vector_values: columns_of(
            names.subrange(fixed_vector_names_at, varying_scalar_names_at),
            chunks(
                read_words(bytes, fixed_vectors_at, header.fixed_vector_words()),
                header.number_of_fixed_vectors,
                3 * lines,
            ).map_values(|flat: Seq<u64>| chunks(flat, lines, 3)),
        ),
        varying_scalar_values: columns_of(
            names.subrange(varying_scalar_names_at, varying_vector_names_at),
            chunks(
                read_words(bytes, varying_scalars_at, header.varying_scalar_words()),
                header.number_of_varying_scalars,
                elements,
            ).map_values(|flat: Seq<u64>| split_lines(flat, lengths)),
        ),
        varying_vector_values: columns_of(
            names.subrange(varying_vector_names_at, names.len() as int),
            chunks(
                read_words(bytes, varying_vectors_at, header.varying_vector_words()),
                header.number_of_varying_vectors,
                3 * elements,
            ).map_values(|flat: Seq<u64>| split_lines(chunks(flat, elements, 3), lengths)),
        ),
    }
}

/// The bounds and the field line data that the given bytes hold in the
/// custom binary format, where they hold well-formed data in that format
/// and nothing else.
pub open spec fn parsed_custom_binary(bytes: Seq<u8>) -> Option<
    (Seq<u64>, Seq<u64>, FieldLineSetPropertiesView),
> {
    match read_header(bytes) {
        None => None,
        Some(header) => {
            let bounds = read_words(bytes, HEADER_SIZE as int, 6);
            match read_names_block(bytes, NAMES_START as int, header.number_of_names()) {
                None => None,
                Some((names, position)) => {
                    let starts = read_words(bytes, position, header.number_of_field_lines);
                    let properties = read_tables(bytes, position, header, names);
                    if bytes.len() == position + 8 * header.number_of_words() && are_start_indices(
                        starts,
                        header.number_of_field_line_elements,
                    ) && properties.is_well_formed() && properties.number_of_field_line_elements()
                        == header.number_of_field_line_elements {
                        Some(
                            (
                                seq![bounds[0], bounds[2], bounds[4]],
                                seq![bounds[1], bounds[3], bounds[5]],
                                properties,
                            ),
                        )
                    } else {
                        None
                    }
                },
            }
        },
    }
}

/// Whether the numbers of field lines, of their points and of the columns
/// of each table can stand in the header.
pub open spec fn fits_header(properties: FieldLineSetPropertiesView) -> bool {
    &&& properties.number_of_field_lines <= u64::MAX
    &&& properties.number_of_field_line_elements() <= u64::MAX
    &&& properties.fixed_scalar_values.len() <= u64::MAX
    &&& properties.fixed_vector_values.len() <= u64::MAX
    &&& properties.varying_scalar_values.len() <= u64::MAX
    &&& properties.varying_vector_values.len() <= u64::MAX
}

/// What the header of written data says of the data.
pub open spec fn header_of(properties: FieldLineSetPropertiesView) -> Header {
    Header {
        number_of_field_lines: properties.number_of_field_lines,
        number_of_field_line_elements: properties.number_of_field_line_elements(),
        number_of_fixed_scalars: properties.fixed_scalar_values.len(),
        number_of_fixed_vectors: properties.fixed_vector_values.len(),
        number_of_varying_scalars: properties.varying_scalar_values.len(),
        number_of_varying_vectors: properties.varying_vector_values.len(),
    }
}

/// Whether the numbers of a header can stand in its words.
pub open spec fn is_header_of_words(header: Header) -> bool {
    &&& header.number_of_field_lines <= u64::MAX
    &&& header.number_of_field_line_elements <= u64::MAX
    &&& header.number_of_fixed_scalars <= u64::MAX
    &&& header.number_of_fixed_vectors <= u64::MAX
    &&& header.number_of_varying_scalars <= u64::MAX
    &&& header.number_of_varying_vectors <= u64::MAX
}

/// Reads the word at the given position.
fn read_word_at(bytes: &[u8], position: usize) -> (word: u64)
    requires
        position + 8 <= bytes@.len(),
    ensures
        word == read_word(bytes@, position as int),
{
    let len = bytes.len();
    assert(position + 8 <= len);
    u64_from_le_bytes(slice_subrange(bytes, position, position + 8))
}

/// Reads the given number of words from the given position on.
fn read_words_at(bytes: &[u8], position: usize, count: usize) -> (words: Vec<u64>)
    requires
        position + 8 * count <= bytes@.len(),
    ensures
        words@ == read_words(bytes@, position as int, count as nat),
{
    let len = bytes.len();
    let mut words: Vec<u64> = Vec::new();
    for i in 0..count
        invariant
            len == bytes@.len(),
            position + 8 * count <= len,
            words@.len() == i,
            forall|j: int| 0 <= j < i ==> words@[j] == read_word(bytes@, position + 8 * j),
    {
        words.push(read_word_at(bytes, position + 8 * i));
    }
    assert(words@ =~= read_words(bytes@, position as int, count as nat));
    words
}

/// Copies the words from the given position up to the given end.
fn copy_words(words: &Vec<u64>, start: usize, end: usize) -> (piece: Vec<u64>)
    requires
        start <= end <= words@.len(),
    ensures
        piece@ == words@.subrange(start as int, end as int),
{
    let mut piece: Vec<u64> = Vec::new();
    let mut i: usize = start;
    assert(piece@ =~= words@.subrange(start as int, i as int));
    while i < end
        invariant
            start <= i <= end <= words@.len(),
            piece@ == words@.subrange(start as int, i as int),
        decreases end - i,
    {
        piece.push(words[i]);
        assert(words@.subrange(start as int, i as int).push(words@[i as int])
            =~= words@.subrange(start as int, i + 1));
        i = i + 1;
    }
    piece
}

/// The vector whose components stand at the given position.
fn vector_at(words: &Vec<u64>, position: usize) -> (vector: Vec3<ftr>)
    requires
        position + 3 <= words@.len(),
    ensures
        vector@ == words@.subrange(position as int, position + 3),
{
    let len = words.len();
    let vector = Vec3::new(words[position], words[position + 1], words[position + 2]);
    assert(vector@ =~= words@.subrange(position as int, position + 3));
    vector
}

/// Cuts a row of words into the given number of pieces of the given
/// length.
fn cut_chunks(words: &Vec<u64>, count: usize, length: usize) -> (pieces: Vec<Vec<u64>>)
    requires
        words@.len() == count * length,
    ensures
        lines_view(pieces@) == chunks(words@, count as nat, length as nat),
        pieces@.len() == count,
        forall|d: int| 0 <= d < count ==> (#[trigger] pieces@[d])@.len() == length,
{
    let len = words.len();
    let mut pieces: Vec<Vec<u64>> = Vec::new();
    let mut next: usize = 0;
    assert(0 * length == 0) by (nonlinear_arith);
    for c in 0..count
        invariant
            len == words@.len(),
            len == count * length,
            next == c * length,
            pieces@.len() == c,
            forall|d: int|
                0 <= d < c ==> (#[trigger] pieces@[d])@ == words@.subrange(
                    d * length,
                    (d + 1) * length,
                ),
    {
        assert(c * length + length == (c + 1) * length && (c + 1) * length <= count * length)
            by (nonlinear_arith)
            requires
                0 <= c < count,
        ;
        pieces.push(copy_words(words, next, next + length));
        next = next + length;
    }
    assert(lines_view(pieces@) =~= chunks(words@, count as nat, length as nat));
    assert forall|d: int| 0 <= d < count implies (#[trigger] pieces@[d])@.len() == length by {
        assert(d * length + length == (d + 1) * length && (d + 1) * length <= count * length)
            by (nonlinear_arith)
            requires
                0 <= d < count,
        ;
    }
    pieces
}

/// Cuts a row of words into the given number of vectors.
fn cut_vectors(words: &Vec<u64>, count: usize) -> (vectors: Vec<Vec3<ftr>>)
    requires
        words@.len() == 3 * count,
    ensures
        vectors_view(vectors@) == chunks(words@, count as nat, 3),
{
    let len = words.len();
    let mut vectors: Vec<Vec3<ftr>> = Vec::new();
    for k in 0..count
        invariant
            len == words@.len(),
            len == 3 * count,
            vectors@.len() == k,
            forall|j: int|
                0 <= j < k ==> (#[trigger] vectors@[j])@ == words@.subrange(j * 3, (j + 1) * 3),
    {
        vectors.push(vector_at(words, 3 * k));
    }
    assert(vectors_view(vectors@) =~= chunks(words@, count as nat, 3));
    vectors
}

/// Cuts a row of words into pieces of the given lengths.
fn cut_lines(words: &Vec<u64>, lengths: &Vec<usize>) -> (lines: Vec<Vec<u64>>)
    requires
        words@.len() == total(lengths_view(lengths@)),
    ensures
        lines_view(lines@) == split_lines(words@, lengths_view(lengths@)),
{
    let len = words.len();
    let ghost all = lengths_view(lengths@);
    let mut lines: Vec<Vec<u64>> = Vec::new();
    let mut next: usize = 0;
    assert(all.take(0) =~= Seq::empty());
    for i in 0..lengths.len()
        invariant
            all == lengths_view(lengths@),
            len == words@.len(),
            len == total(all),
            next == total(all.take(i as int)),
            lines@.len() == i,
            forall|j: int|
                0 <= j < i ==> (#[trigger] lines@[j])@ == words@.subrange(
                    total(all.take(j)) as int,
                    (total(all.take(j)) + all[j]) as int,
                ),
    {
        let length = lengths[i];
        proof {
            lemma_total_of_prefix(all, i as int);
            lemma_total_of_prefix(all, i + 1);
        }
        lines.push(copy_words(words, next, next + length));
        next = next + length;
    }
    assert(lines_view(lines@) =~= split_lines(words@, all));
    lines
}

/// Cuts a row of words into vectors, and the vectors into pieces of the
/// given lengths.
fn cut_vector_lines(words: &Vec<u64>, lengths: &Vec<usize>) -> (lines: Vec<Vec<Vec3<ftr>>>)
    requires
        words@.len() == 3 * total(lengths_view(lengths@)),
    ensures
        vector_lines_view(lines@) == split_lines(
            chunks(words@, total(lengths_view(lengths@)), 3),
            lengths_view(lengths@),
        ),
{
    let len = words.len();
    let ghost all = lengths_view(lengths@);
    let ghost vectors = chunks(words@, total(all), 3);
    let mut lines: Vec<Vec<Vec3<ftr>>> = Vec::new();
    let mut next: usize = 0;
    assert(all.take(0) =~= Seq::empty());
    for i in 0..lengths.len()
        invariant
            all == lengths_view(lengths@),
            vectors == chunks(words@, total(all), 3),
            len == words@.len(),
            len == 3 * total(all),
            next == total(all.take(i as int)),
            lines@.len() == i,
            forall|j: int|
                0 <= j < i ==> vectors_view((#[trigger] lines@[j])@) == vectors.subrange(
                    total(all.take(j)) as int,
                    (total(all.take(j)) + all[j]) as int,
                ),
    {
        let length = lengths[i];
        proof {
            lemma_total_of_prefix(all, i as int);
            lemma_total_of_prefix(all, i + 1);
        }
        let mut line: Vec<Vec3<ftr>> = Vec::new();
        for k in 0..length
            invariant
                len == words@.len(),
                len == 3 * total(all),
                vectors == chunks(words@, total(all), 3),
                next + length <= total(all),
                line@.len() == k,
                forall|j: int| 0 <= j < k ==> (#[trigger] line@[j])@ == vectors[next + j],
        {
            let vector = vector_at(words, 3 * (next + k));
            assert(vector@ =~= words@.subrange((next + k) * 3, (next + k + 1) * 3));
            line.push(vector);
        }
        assert(vectors_view(line@) =~= vectors.subrange(next as int, next + length));
        lines.push(line);
        next = next + length;
    }
    assert(vector_lines_view(lines@) =~= split_lines(vectors, all));
    lines
}

/// Whether the given words can be the start indices of field lines with
/// the given number of points in all.
fn check_start_indices(starts: &Vec<u64>, number_of_elements: u64) -> (valid: bool)
    ensures
        valid == are_start_indices(starts@, number_of_elements as nat),
{
    if starts.len() == 0 {
        return number_of_elements == 0;
    }
    if starts[0] != 0 || starts[starts.len() - 1] > number_of_elements {
        return false;
    }
    for i in 0..(starts.len() - 1)
        invariant
            starts@.len() > 0,
            forall|j: int| 0 <= j < i ==> starts@[j] <= #[trigger] starts@[j + 1],
    {
        if starts[i] > starts[i + 1] {
            return false;
        }
    }
    true
}

/// The numbers of points of the field lines with the given start indices
/// and the given number of points in all.
fn line_lengths_of(starts: &Vec<u64>, number_of_elements: usize) -> (lengths: Vec<usize>)
    requires
        are_start_indices(starts@, number_of_elements as nat),
    ensures
        lengths_view(lengths@) == line_lengths_from(starts@, number_of_elements as nat),
        total(lengths_view(lengths@)) == number_of_elements,
{
    let ghost expected = line_lengths_from(starts@, number_of_elements as nat);
    let mut lengths: Vec<usize> = Vec::new();
    proof {
        lemma_start_indices_are_monotonic(starts@, number_of_elements as nat);
    }
    for i in 0..starts.len()
        invariant
            are_start_indices(starts@, number_of_elements as nat),
            expected == line_lengths_from(starts@, number_of_elements as nat),
            forall|a: int, b: int| 0 <= a <= b < starts@.len() ==> starts@[a] <= starts@[b],
            lengths@.len() == i,
            forall|j: int| 0 <= j < i ==> lengths@[j] == expected[j],
    {
        let length = if i + 1 < starts.len() {
            starts[i + 1] - starts[i]
        } else {
            number_of_elements as u64 - starts[i]
        };
        assert(starts@[i as int] <= starts@[starts@.len() - 1]);
        lengths.push(length as usize);
    }
    assert(lengths_view(lengths@) =~= expected);
    proof {
        lemma_total_of_lengths_from(starts@, number_of_elements as nat);
    }
    lengths
}

/// Start indices do not fall from any one to any later one.
pub(crate) proof fn lemma_start_indices_are_monotonic(starts: Seq<u64>, number_of_elements: nat)
    requires
        are_start_indices(starts, number_of_elements),
    ensures
        forall|a: int, b: int| 0 <= a <= b < starts.len() ==> starts[a] <= starts[b],
{
    assert forall|a: int, b: int| 0 <= a <= b < starts.len() implies starts[a] <= starts[b] by {
        lemma_start_indices_between(starts, number_of_elements, a, b);
    }
}

/// A start index does not exceed a later one.
proof fn lemma_start_indices_between(starts: Seq<u64>, number_of_elements: nat, a: int, b: int)
    requires
        are_start_indices(starts, number_of_elements),
        0 <= a <= b < starts.len(),
    ensures
        starts[a] <= starts[b],
    decreases b - a,
{
    if a < b {
        lemma_start_indices_between(starts, number_of_elements, a, b - 1);
        assert(starts[b - 1] <= starts[b - 1 + 1]);
    }
}

/// The numbers of points that start indices give add up to the number of
/// points in all, and those of the first field lines to the start index of
/// the next.
pub(crate) proof fn lemma_total_of_lengths_from(starts: Seq<u64>, number_of_elements: nat)
    requires
        are_start_indices(starts, number_of_elements),
    ensures
        total(line_lengths_from(starts, number_of_elements)) == number_of_elements,
        forall|i: int|
            0 <= i < starts.len() ==> total(
                #[trigger] line_lengths_from(starts, number_of_elements).take(i),
            ) == starts[i],
{
    let lengths = line_lengths_from(starts, number_of_elements);
    lemma_start_indices_are_monotonic(starts, number_of_elements);
    assert forall|i: int| 0 <= i <= starts.len() implies total(#[trigger] lengths.take(i)) == (if i
        < starts.len() {
        starts[i] as nat
    } else {
        number_of_elements
    }) by {
        lemma_total_of_lengths_from_prefix(starts, number_of_elements, i);
    }
    assert(lengths.take(starts.len() as int) =~= lengths);
}

/// The numbers of points of the first field lines add up to the start
/// index of the next field line.
proof fn lemma_total_of_lengths_from_prefix(starts: Seq<u64>, number_of_elements: nat, i: int)
    requires
        are_start_indices(starts, number_of_elements),
        0 <= i <= starts.len(),
    ensures
        total(line_lengths_from(starts, number_of_elements).take(i)) == (if i < starts.len() {
            starts[i] as nat
        } else {
            number_of_elements
        }),
    decreases i,
{
    let lengths = line_lengths_from(starts, number_of_elements);
    lemma_start_indices_are_monotonic(starts, number_of_elements);
    if i == 0 {
        assert(lengths.take(0) =~= Seq::empty());
    } else {
        lemma_total_of_lengths_from_prefix(starts, number_of_elements, i - 1);
        lemma_total_of_prefix(lengths, i - 1);
        assert(starts[i - 1] <= starts[starts.len() - 1]);
    }
}

/// Calls `String::from_utf8`, which converts a vector of bytes to a
/// string and fails where the bytes are not valid UTF-8: taken to give the
/// string that the bytes encode, exactly where they encode one.
#[verifier::external_body]
fn string_from_utf8(bytes: Vec<u8>) -> (string: Option<String>)
    ensures
        match string {
            Some(string) => valid_utf8(bytes@) && string@ == decode_utf8(bytes@),
            None => !valid_utf8(bytes@),
        },
{
    match String::from_utf8(bytes) {
        Ok(string) => Some(string),
        Err(_) => None,
    }
}

/// Names that were read, before what reading on gives.
pub open spec fn names_then(
    names: Seq<Seq<char>>,
    rest: Option<(Seq<Seq<char>>, int)>,
) -> Option<(Seq<Seq<char>>, int)> {
    match rest {
        None => None,
        Some((more, after)) => Some((names + more, after)),
    }
}

/// There is no newline where no byte from the position on is one.
proof fn lemma_no_newline(bytes: Seq<u8>, position: int)
    requires
        0 <= position,
        forall|j: int| position <= j < bytes.len() ==> bytes[j] != NAME_END,
    ensures
        newline_position(bytes, position) is None,
    decreases bytes.len() - position,
{
    if position < bytes.len() {
        lemma_no_newline(bytes, position + 1);
    }
}

/// Every name that is read takes a byte at least: names are read only
/// from within the bytes, and end within them.
proof fn lemma_read_names_within(bytes: Seq<u8>, position: int, count: nat)
    requires
        0 <= position,
    ensures
        match read_names(bytes, position, count) {
            Some((names, after)) => names.len() == count && position + count <= after && (count
                > 0 ==> after <= bytes.len()),
            None => true,
        },
    decreases count,
{
    if count > 0 {
        match newline_position(bytes, position) {
            None => {},
            Some(end) => {
                lemma_newline_position_is_within(bytes, position);
                lemma_read_names_within(bytes, end + 1, (count - 1) as nat);
            },
        }
    }
}

/// The first newline at or after a position stands at or after it, within
/// the bytes.
pub(crate) proof fn lemma_newline_position_is_within(bytes: Seq<u8>, position: int)
    ensures
        match newline_position(bytes, position) {
            Some(end) => 0 <= position <= end < bytes.len() && bytes[end] == NAME_END,
            None => true,
        },
    decreases bytes.len() - position,
{
    if 0 <= position < bytes.len() && bytes[position] != NAME_END {
        lemma_newline_position_is_within(bytes, position + 1);
    }
}

/// The contents of the given strings.
pub open spec fn strings_view(names: Seq<String>) -> Seq<Seq<char>> {
    names.map_values(|name: String| name@)
}

/// Reads the given number of names from the given position on.
fn read_names_at(bytes: &[u8], position: usize, count: usize) -> (result: Option<
    (Vec<String>, usize),
>)
    requires
        position <= bytes@.len(),
    ensures
        match read_names(bytes@, position as int, count as nat) {
            Some((names, after)) => result is Some && strings_view((result->0).0@) == names
                && (result->0).1 == after,
            None => result is None,
        },
{
    let len = bytes.len();
    let mut names: Vec<String> = Vec::new();
    let mut next: usize = position;
    assert(strings_view(names@) =~= Seq::empty());
    assert(names_then(
        strings_view(names@),
        read_names(bytes@, next as int, count as nat),
    ) == read_names(bytes@, position as int, count as nat)) by {
        match read_names(bytes@, next as int, count as nat) {
            Some((more, after)) => {
                assert(strings_view(names@) + more =~= more);
            },
            None => {},
        }
    }
    for k in 0..count
        invariant
            len == bytes@.len(),
            next <= len,
            names@.len() == k,
            names_then(
                strings_view(names@),
                read_names(bytes@, next as int, (count - k) as nat),
            ) == read_names(bytes@, position as int, count as nat),
    {
        let mut end: usize = next;
        while end < len && *slice_index_get(bytes, end) != NAME_END
            invariant
                len == bytes@.len(),
                next <= end <= len,
                forall|j: int| next <= j < end ==> bytes@[j] != NAME_END,
            decreases len - end,
        {
            end = end + 1;
        }
        if end == len {
            proof {
                lemma_no_newline(bytes@, next as int);
            }
            return None;
        }
        proof {
            lemma_newline_position(bytes@, next as int, end as int);
        }
        let name_bytes = slice_to_vec(slice_subrange(bytes, next, end));
        match string_from_utf8(name_bytes) {
            None => {
                return None;
            },
            Some(name) => {
                let ghost before = strings_view(names@);
                let ghost rest = read_names(bytes@, end + 1, (count - k - 1) as nat);
                names.push(name);
                proof {
                    assert(strings_view(names@) =~= before.push(name@));
                    match rest {
                        Some((more, after)) => {
                            assert(before + (seq![name@] + more) =~= before.push(name@) + more);
                        },
                        None => {},
                    }
                }
                next = end + 1;
            },
        }
    }
    proof {
        assert(strings_view(names@) + Seq::<Seq<char>>::empty() =~= strings_view(names@));
    }
    Some((names, next))
}

/// Reads the block of the given number of names at the given position.
fn read_names_block_at(bytes: &[u8], position: usize, count: usize) -> (result: Option<
    (Vec<String>, usize),
>)
    requires
        position <= bytes@.len(),
    ensures
        match read_names_block(bytes@, position as int, count as nat) {
            Some((names, after)) => result is Some && strings_view((result->0).0@) == names
                && (result->0).1 == after && after <= bytes@.len(),
            None => result is None,
        },
{
    if count == 0 {
        if position < bytes.len() && *slice_index_get(bytes, position) == NAME_END {
            let names: Vec<String> = Vec::new();
            assert(strings_view(names@) =~= Seq::empty());
            Some((names, position + 1))
        } else {
            None
        }
    } else {
        proof {
            lemma_read_names_within(bytes@, position as int, count as nat);
        }
        read_names_at(bytes, position, count)
    }
}

/// The numbers that a header holds.
struct HeaderNumbers {
    number_of_field_lines: u64,
    number_of_field_line_elements: u64,
    number_of_fixed_scalars: u64,
    number_of_fixed_vectors: u64,
    number_of_varying_scalars: u64,
    number_of_varying_vectors: u64,
}

impl View for HeaderNumbers {
    type V = Header;

    closed spec fn view(&self) -> Header {
        Header {
            number_of_field_lines: self.number_of_field_lines as nat,
            number_of_field_line_elements: self.number_of_field_line_elements as nat,
            number_of_fixed_scalars: self.number_of_fixed_scalars as nat,
            number_of_fixed_vectors: self.number_of_fixed_vectors as nat,
            number_of_varying_scalars: self.number_of_varying_scalars as nat,
            number_of_varying_vectors: self.number_of_varying_vectors as nat,
        }
    }
}

/// Reads the header.
fn read_header_at(bytes: &[u8]) -> (result: Option<HeaderNumbers>)
    ensures
        match read_header(bytes@) {
            Some(header) => result is Some && result->0@ == header,
            None => result is None,
        },
{
    if bytes.len() < NAMES_START || read_word_at(bytes, 0) != FLOAT_SIZE {
        None
    } else {
        Some(
            HeaderNumbers {
                number_of_field_lines: read_word_at(bytes, 8),
                number_of_field_line_elements: read_word_at(bytes, 16),
                number_of_fixed_scalars: read_word_at(bytes, 24),
                number_of_fixed_vectors: read_word_at(bytes, 32),
                number_of_varying_scalars: read_word_at(bytes, 40),
                number_of_varying_vectors: read_word_at(bytes, 48),
            },
        )
    }
}

/// The numbers of words of the values of the four tables.
struct SectionSizes {
    fixed_scalar_words: usize,
    fixed_vector_words: usize,
    varying_scalar_words: usize,
    varying_vector_words: usize,
}

/// The product of two numbers, where it fits.
fn product(a: u64, b: u64) -> (result: Option<u64>)
    ensures
        match result {
            Some(product) => product == a * b,
            None => a * b > u64::MAX,
        },
{
    a.checked_mul(b)
}

/// The sum of two numbers, where it fits.
fn sum(a: u64, b: u64) -> (result: Option<u64>)
    ensures
        match result {
            Some(sum) => sum == a + b,
            None => a + b > u64::MAX,
        },
{
    a.checked_add(b)
}

/// Checks that the bytes after the names are as many as the header asks
/// for, and gives the numbers of words of the four tables.
fn section_sizes(available: usize, header: &HeaderNumbers) -> (result: Option<SectionSizes>)
    ensures
        match result {
            Some(sizes) => {
                &&& available == 8 * header@.number_of_words()
                &&& sizes.fixed_scalar_words == header@.fixed_scalar_words()
                &&& sizes.fixed_vector_words == header@.fixed_vector_words()
                &&& sizes.varying_scalar_words == header@.varying_scalar_words()
                &&& sizes.varying_vector_words == header@.varying_vector_words()
            },
            None => available != 8 * header@.number_of_words(),
        },
{
    let lines = header.number_of_field_lines;
    let elements = header.number_of_field_line_elements;
    let ghost a = header@.fixed_scalar_words();
    let ghost b = header@.fixed_vector_words();
    let ghost c = header@.varying_scalar_words();
    let ghost d = header@.varying_vector_words();
    let ghost words = header@.number_of_words();
    assert(words == lines + a + b + c + d);
    let fixed_scalar_words = match product(header.number_of_fixed_scalars, lines) {
        Some(product) => product,
        None => {
            return None;
        },
    };
    let fixed_vectors = match product(header.number_of_fixed_vectors, lines) {
        Some(product) => product,
        None => {
            assert(b >= header.number_of_fixed_vectors * lines) by (nonlinear_arith)
                requires
                    b == header.number_of_fixed_vectors * (3 * lines),
            ;
            return None;
        },
    };
    let fixed_vector_words = match product(fixed_vectors, 3) {
        Some(product) => product,
        None => {
            assert(b == fixed_vectors * 3) by (nonlinear_arith)
                requires
                    b == header.number_of_fixed_vectors * (3 * lines),
                    fixed_vectors == header.number_of_fixed_vectors * lines,
            ;
            return None;
        },
    };
    assert(b == fixed_vector_words) by (nonlinear_arith)
        requires
            b == header.number_of_fixed_vectors * (3 * lines),
            fixed_vectors == header.number_of_fixed_vectors * lines,
            fixed_vector_words == fixed_vectors * 3,
    ;
    let varying_scalar_words = match product(header.number_of_varying_scalars, elements) {
        Some(product) => product,
        None => {
            return None;
        },
    };
    let varying_vectors = match product(header.number_of_varying_vectors, elements) {
        Some(product) => product,
        None => {
            assert(d >= header.number_of_varying_vectors * elements) by (nonlinear_arith)
                requires
                    d == header.number_of_varying_vectors * (3 * elements),
            ;
            return None;
        },
    };
    let varying_vector_words = match product(varying_vectors, 3) {
        Some(product) => product,
        None => {
            assert(d == varying_vectors * 3) by (nonlinear_arith)
                requires
                    d == header.number_of_varying_vectors * (3 * elements),
                    varying_vectors == header.number_of_varying_vectors * elements,
            ;
            return None;
        },
    };
    assert(d == varying_vector_words) by (nonlinear_arith)
        requires
            d == header.number_of_varying_vectors * (3 * elements),
            varying_vectors == header.number_of_varying_vectors * elements,
            varying_vector_words == varying_vectors * 3,
    ;
    let total = match sum(lines, fixed_scalar_words) {
        Some(sum) => sum,
        None => {
            return None;
        },
    };
    let total = match sum(total, fixed_vector_words) {
        Some(sum) => sum,
        None => {
            return None;
        },
    };
    let total = match sum(total, varying_scalar_words) {
        Some(sum) => sum,
        None => {
            return None;
        },
    };
    let total = match sum(total, varying_vector_words) {
        Some(sum) => sum,
        None => {
            return None;
        },
    };
    let size = match product(total, 8) {
        Some(product) => product,
        None => {
            return None;
        },
    };
    if size != available as u64 {
        return None;
    }
    Some(
        SectionSizes {
            fixed_scalar_words: fixed_scalar_words as usize,
            fixed_vector_words: fixed_vector_words as usize,
            varying_scalar_words: varying_scalar_words as usize,
            varying_vector_words: varying_vector_words as usize,
        },
    )
}

/// Puts the names from the given one on beside the given values.
fn name_columns<V>(names: &Vec<String>, first: usize, values: Vec<V>) -> (columns: Vec<
    (String, V),
>)
    requires
        first + values@.len() <= names@.len(),
    ensures
        columns@.len() == values@.len(),
        forall|c: int|
            0 <= c < values@.len() ==> (#[trigger] columns@[c]).0@ == names@[first + c]@
                && columns@[c].1 == values@[c],
{
    let names_len = names.len();
    let mut columns: Vec<(String, V)> = Vec::new();
    for value in iter: values
        invariant
            names_len == names@.len(),
            first + values@.len() <= names_len,
            columns@.len() == iter.index(),
            forall|c: int|
                0 <= c < columns@.len() ==> (#[trigger] columns@[c]).0@ == names@[first + c]@
                    && columns@[c].1 == values@[c],
    {
        let c = columns.len();
        columns.push((names[first + c].clone(), value));
    }
    columns
}

/// Makes the table of fixed scalar values of the words of its values.
fn read_fixed_scalars(
    words: &Vec<u64>,
    names: &Vec<String>,
    first: usize,
    count: usize,
    lines: usize,
) -> (table: Vec<(String, Vec<ftr>)>)
    requires
        words@.len() == count * lines,
        first + count <= names@.len(),
    ensures
        fixed_scalars_view(table@) == columns_of(
            strings_view(names@).subrange(first as int, first + count),
            chunks(words@, count as nat, lines as nat),
        ),
{
    let pieces = cut_chunks(words, count, lines);
    let table = name_columns(names, first, pieces);
    assert(fixed_scalars_view(table@) =~~= columns_of(
        strings_view(names@).subrange(first as int, first + count),
        lines_view(pieces@),
    ));
    table
}

/// Makes the table of fixed vector values of the words of its values.
fn read_fixed_vectors(
    words: &Vec<u64>,
    names: &Vec<String>,
    first: usize,
    count: usize,
    lines: usize,
) -> (table: Vec<(String, Vec<Vec3<ftr>>)>)
    requires
        words@.len() == count * (3 * lines),
        first + count <= names@.len(),
    ensures
        fixed_vectors_view(table@) == columns_of(
            strings_view(names@).subrange(first as int, first + count),
            chunks(words@, count as nat, 3 * lines as nat).map_values(
                |flat: Seq<u64>| chunks(flat, lines as nat, 3),
            ),
        ),
{
    let ghost cut = |flat: Seq<u64>| chunks(flat, lines as nat, 3);
    let mut values: Vec<Vec<Vec3<ftr>>> = Vec::new();
    if count > 0 {
        let len = words.len();
        assert(3 * lines <= count * (3 * lines)) by (nonlinear_arith)
            requires
                count > 0,
        ;
        let pieces = cut_chunks(words, count, 3 * lines);
        for c in 0..count
            invariant
                lines_view(pieces@) == chunks(words@, count as nat, (3 * lines) as nat),
                pieces@.len() == count,
                forall|d: int| 0 <= d < count ==> (#[trigger] pieces@[d])@.len() == 3 * lines,
                values@.len() == c,
                forall|d: int|
                    0 <= d < c ==> vectors_view((#[trigger] values@[d])@) == chunks(
                        pieces@[d]@,
                        lines as nat,
                        3,
                    ),
        {
            assert(pieces@[c as int]@ == lines_view(pieces@)[c as int]);
            values.push(cut_vectors(&pieces[c], lines));
        }
        assert forall|d: int| 0 <= d < count implies vectors_view(#[trigger] values@[d]@) == cut(
            chunks(words@, count as nat, 3 * lines as nat)[d],
        ) by {
            assert(pieces@[d]@ == lines_view(pieces@)[d]);
        }
    }
    let table = name_columns(names, first, values);
    assert(fixed_vectors_view(table@) =~~= columns_of(
        strings_view(names@).subrange(first as int, first + count),
        chunks(words@, count as nat, 3 * lines as nat).map_values(cut),
    ));
    table
}

/// Makes the table of varying scalar values of the words of its values.
fn read_varying_scalars(
    words: &Vec<u64>,
    names: &Vec<String>,
    first: usize,
    count: usize,
    lengths: &Vec<usize>,
    elements: usize,
) -> (table: Vec<(String, Vec<Vec<ftr>>)>)
    requires
        elements == total(lengths_view(lengths@)),
        words@.len() == count * elements,
        first + count <= names@.len(),
    ensures
        varying_scalars_view(table@) == columns_of(
            strings_view(names@).subrange(first as int, first + count),
            chunks(words@, count as nat, elements as nat).map_values(
                |flat: Seq<u64>| split_lines(flat, lengths_view(lengths@)),
            ),
        ),
{
    let ghost cut = |flat: Seq<u64>| split_lines(flat, lengths_view(lengths@));
    let pieces = cut_chunks(words, count, elements);
    let mut values: Vec<Vec<Vec<ftr>>> = Vec::new();
    for c in 0..count
        invariant
            elements == total(lengths_view(lengths@)),
            lines_view(pieces@) == chunks(words@, count as nat, elements as nat),
            pieces@.len() == count,
            forall|d: int| 0 <= d < count ==> (#[trigger] pieces@[d])@.len() == elements,
            words@.len() == count * elements,
            values@.len() == c,
            forall|d: int|
                0 <= d < c ==> lines_view((#[trigger] values@[d])@) == split_lines(
                    pieces@[d]@,
                    lengths_view(lengths@),
                ),
    {
        assert(pieces@[c as int]@ == lines_view(pieces@)[c as int]);
        assert((c + 1) * elements == c * elements + elements && (c + 1) * elements <= count
            * elements) by (nonlinear_arith)
            requires
                0 <= c < count,
        ;
        values.push(cut_lines(&pieces[c], lengths));
    }
    assert forall|d: int| 0 <= d < count implies lines_view(#[trigger] values@[d]@) == cut(
        chunks(words@, count as nat, elements as nat)[d],
    ) by {
        assert(pieces@[d]@ == lines_view(pieces@)[d]);
    }
    let table = name_columns(names, first, values);
    assert(varying_scalars_view(table@) =~~= columns_of(
        strings_view(names@).subrange(first as int, first + count),
        chunks(words@, count as nat, elements as nat).map_values(cut),
    ));
    table
}

/// Makes the table of varying vector values of the words of its values.
fn read_varying_vectors(
    words: &Vec<u64>,
    names: &Vec<String>,
    first: usize,
    count: usize,
    lengths: &Vec<usize>,
    elements: usize,
) -> (table: Vec<(String, Vec<Vec<Vec3<ftr>>>)>)
    requires
        elements == total(lengths_view(lengths@)),
        words@.len() == count * (3 * elements),
        first + count <= names@.len(),
    ensures
        varying_vectors_view(table@) == columns_of(
            strings_view(names@).subrange(first as int, first + count),
            chunks(words@, count as nat, 3 * elements as nat).map_values(
                |flat: Seq<u64>|
                    split_lines(chunks(flat, elements as nat, 3), lengths_view(lengths@)),
            ),
        ),
{
    let ghost cut = |flat: Seq<u64>|
        split_lines(chunks(flat, elements as nat, 3), lengths_view(lengths@));
    let mut values: Vec<Vec<Vec<Vec3<ftr>>>> = Vec::new();
    if count > 0 {
        let len = words.len();
        assert(3 * elements <= count * (3 * elements)) by (nonlinear_arith)
            requires
                count > 0,
        ;
        let pieces = cut_chunks(words, count, 3 * elements);
        for c in 0..count
            invariant
                elements == total(lengths_view(lengths@)),
                lines_view(pieces@) == chunks(words@, count as nat, (3 * elements) as nat),
                pieces@.len() == count,
                forall|d: int| 0 <= d < count ==> (#[trigger] pieces@[d])@.len() == 3 * elements,
                words@.len() == count * (3 * elements),
                values@.len() == c,
                forall|d: int|
                    0 <= d < c ==> vector_lines_view((#[trigger] values@[d])@) == split_lines(
                        chunks(pieces@[d]@, elements as nat, 3),
                        lengths_view(lengths@),
                    ),
        {
            assert(pieces@[c as int]@ == lines_view(pieces@)[c as int]);
            assert((c + 1) * (3 * elements) == c * (3 * elements) + 3 * elements && (c + 1) * (3
                * elements) <= count * (3 * elements)) by (nonlinear_arith)
                requires
                    0 <= c < count,
            ;
            values.push(cut_vector_lines(&pieces[c], lengths));
        }
        assert forall|d: int| 0 <= d < count implies vector_lines_view(#[trigger] values@[d]@)
            == cut(chunks(words@, count as nat, 3 * elements as nat)[d]) by {
            assert(pieces@[d]@ == lines_view(pieces@)[d]);
        }
    }
    let table = name_columns(names, first, values);
    assert(varying_vectors_view(table@) =~~= columns_of(
        strings_view(names@).subrange(first as int, first + count),
        chunks(words@, count as nat, 3 * elements as nat).map_values(cut),
    ));
    table
}

/// Field lines without points have no points in all.
pub(crate) proof fn lemma_total_of_zeros(count: nat)
    ensures
        total(Seq::new(count, |i: int| 0nat)) == 0,
    decreases count,
{
    let zeros = Seq::new(count, |i: int| 0nat);
    if count > 0 {
        lemma_total_of_zeros((count - 1) as nat);
        assert(zeros.drop_last() =~= Seq::new((count - 1) as nat, |i: int| 0nat));
    }
}

/// Whether the bytes are the custom binary format of the given bounds and
/// of the given data, and the data is such as can be read back: well-formed,
/// with names that are free of newlines, and with numbers of field lines,
/// points and columns that can stand in the header.
pub open spec fn is_custom_binary_of(
    bytes: Seq<u8>,
    lower_bounds: Seq<u64>,
    upper_bounds: Seq<u64>,
    properties: FieldLineSetPropertiesView,
) -> bool {
    &&& lower_bounds.len() == 3
    &&& upper_bounds.len() == 3
    &&& properties.is_well_formed()
    &&& are_names_of_one_line(properties.names())
    &&& fits_header(properties)
    &&& custom_binary(lower_bounds, upper_bounds, properties) == bytes
}

/// Reads field line data in the custom binary format: the lower bounds,
/// the upper bounds and the data. There is a result exactly where the
/// bytes are the custom binary format of well-formed data with names that
/// are free of newlines, and the result is then that data with its bounds.
pub fn read_field_line_data_from_custom_binary(bytes: &[u8]) -> (result: Option<
    (Vec3<ftr>, Vec3<ftr>, FieldLineSetProperties3),
>)
    ensures
        match result {
            Some((lower_bounds, upper_bounds, properties)) => is_custom_binary_of(
                bytes@,
                lower_bounds@,
                upper_bounds@,
                properties@,
            ),
            None => forall|
                lower_bounds: Seq<u64>,
                upper_bounds: Seq<u64>,
                properties: FieldLineSetPropertiesView,
            |
                !is_custom_binary_of(bytes@, lower_bounds, upper_bounds, properties),
        },
{
    let result = read_parsed_field_line_data(bytes);
    proof {
        lemma_read_data_was_written(bytes@);
        if result is None {
            assert forall|
                lower_bounds: Seq<u64>,
                upper_bounds: Seq<u64>,
                properties: FieldLineSetPropertiesView,
            | !is_custom_binary_of(bytes@, lower_bounds, upper_bounds, properties) by {
                if is_custom_binary_of(bytes@, lower_bounds, upper_bounds, properties) {
                    lemma_custom_binary_is_read_back(lower_bounds, upper_bounds, properties);
                }
            }
        }
    }
    result
}

/// Reads field line data in the custom binary format, step by step as
/// [`parsed_custom_binary`] says.
#[verifier::rlimit(40)]
fn read_parsed_field_line_data(bytes: &[u8]) -> (result: Option<
    (Vec3<ftr>, Vec3<ftr>, FieldLineSetProperties3),
>)
    ensures
        match parsed_custom_binary(bytes@) {
            Some((lower_bounds, upper_bounds, properties)) => result is Some && (result->0).0@
                == lower_bounds && (result->0).1@ == upper_bounds && (result->0).2@
                == properties,
            None => result is None,
        },
{
    let len = bytes.len();
    let header = match read_header_at(bytes) {
        Some(header) => header,
        None => {
            return None;
        },
    };
    let bounds = read_words_at(bytes, HEADER_SIZE, 6);
    let number_of_names = match sum(
        header.number_of_fixed_scalars,
        header.number_of_fixed_vectors,
    ) {
        Some(sum) => sum,
        None => {
            proof {
                lemma_read_names_within(bytes@, NAMES_START as int, header@.number_of_names());
            }
            return None;
        },
    };
    let number_of_names = match sum(number_of_names, header.number_of_varying_scalars) {
        Some(sum) => sum,
        None => {
            proof {
                lemma_read_names_within(bytes@, NAMES_START as int, header@.number_of_names());
            }
            return None;
        },
    };
    let number_of_names = match sum(number_of_names, header.number_of_varying_vectors) {
        Some(sum) => sum,
        None => {
            proof {
                lemma_read_names_within(bytes@, NAMES_START as int, header@.number_of_names());
            }
            return None;
        },
    };
    if number_of_names > len as u64 {
        proof {
            lemma_read_names_within(bytes@, NAMES_START as int, header@.number_of_names());
        }
        return None;
    }
    let (names, position) = match read_names_block_at(
        bytes,
        NAMES_START,
        number_of_names as usize,
    ) {
        Some(names) => names,
        None => {
            return None;
        },
    };
    proof {
        lemma_read_names_within(bytes@, NAMES_START as int, header@.number_of_names());
    }
    assert(names@.len() == number_of_names) by {
        assert(strings_view(names@).len() == number_of_names);
    }
    let sizes = match section_sizes(len - position, &header) {
        Some(sizes) => sizes,
        None => {
            return None;
        },
    };
    let ghost spec_header = header@;
    let ghost spec_names = strings_view(names@);
    let ghost spec_properties = read_tables(bytes@, position as int, spec_header, spec_names);
    assert(len == position + 8 * spec_header.number_of_words());
    let lines = header.number_of_field_lines as usize;
    let starts = read_words_at(bytes, position, lines);
    if !check_start_indices(&starts, header.number_of_field_line_elements) {
        return None;
    }
    if header.number_of_varying_scalars == 0 && header.number_of_varying_vectors == 0
        && header.number_of_field_line_elements != 0 {
        proof {
            lemma_total_of_zeros(spec_header.number_of_field_lines);
            assert(spec_properties.varying_scalar_values.len() == 0);
            assert(spec_properties.varying_vector_values.len() == 0);
        }
        return None;
    }
    assert(spec_header.number_of_field_line_elements
        <= spec_header.varying_scalar_words() + spec_header.varying_vector_words())
        by (nonlinear_arith)
        requires
            spec_header.varying_scalar_words() == spec_header.number_of_varying_scalars
                * spec_header.number_of_field_line_elements,
            spec_header.varying_vector_words() == spec_header.number_of_varying_vectors * (3
                * spec_header.number_of_field_line_elements),
            spec_header.number_of_varying_scalars > 0 || spec_header.number_of_varying_vectors
                > 0 || spec_header.number_of_field_line_elements == 0,
    ;
    let elements = header.number_of_field_line_elements as usize;
    let lengths = line_lengths_of(&starts, elements);

    let number_of_fixed_scalars = header.number_of_fixed_scalars as usize;
    let number_of_fixed_vectors = header.number_of_fixed_vectors as usize;
    let number_of_varying_scalars = header.number_of_varying_scalars as usize;
    let number_of_varying_vectors = header.number_of_varying_vectors as usize;

    let fixed_scalars_at = position + 8 * lines;
    let fixed_scalar_words = read_words_at(bytes, fixed_scalars_at, sizes.fixed_scalar_words);
    let fixed_scalar_values = read_fixed_scalars(
        &fixed_scalar_words,
        &names,
        0,
        number_of_fixed_scalars,
        lines,
    );

    let fixed_vectors_at = fixed_scalars_at + 8 * sizes.fixed_scalar_words;
    let fixed_vector_words = read_words_at(bytes, fixed_vectors_at, sizes.fixed_vector_words);
    let fixed_vector_values = read_fixed_vectors(
        &fixed_vector_words,
        &names,
        number_of_fixed_scalars,
        number_of_fixed_vectors,
        lines,
    );

    let varying_scalars_at = fixed_vectors_at + 8 * sizes.fixed_vector_words;
    let varying_scalar_words = read_words_at(bytes, varying_scalars_at, sizes.varying_scalar_words);
    let varying_scalar_values = read_varying_scalars(
        &varying_scalar_words,
        &names,
        number_of_fixed_scalars + number_of_fixed_vectors,
        number_of_varying_scalars,
        &lengths,
        elements,
    );

    let varying_vectors_at = varying_scalars_at + 8 * sizes.varying_scalar_words;
    let varying_vector_words = read_words_at(bytes, varying_vectors_at, sizes.varying_vector_words);
    let varying_vector_values = read_varying_vectors(
        &varying_vector_words,
        &names,
        number_of_fixed_scalars + number_of_fixed_vectors + number_of_varying_scalars,
        number_of_varying_vectors,
        &lengths,
        elements,
    );

    let properties = FieldLineSetProperties3 {
        number_of_field_lines: lines,
        fixed_scalar_values,
        fixed_vector_values,
        varying_scalar_values,
        varying_vector_values,
    };
    proof {
        assert(properties@.fixed_scalar_values =~~= spec_properties.fixed_scalar_values);
        assert(properties@.fixed_vector_values =~~= spec_properties.fixed_vector_values);
        assert(properties@.varying_scalar_values =~~= spec_properties.varying_scalar_values);
        assert(properties@.varying_vector_values =~~= spec_properties.varying_vector_values);
        assert(properties@ == spec_properties);
    }
    if !properties.is_well_formed() {
        return None;
    }
    match properties.number_of_field_line_elements() {
        Some(count) => {
            if count != elements {
                return None;
            }
        },
        None => {
            return None;
        },
    }
    let lower_bounds = Vec3::new(bounds[0], bounds[2], bounds[4]);
    let upper_bounds = Vec3::new(bounds[1], bounds[3], bounds[5]);
    Some((lower_bounds, upper_bounds, properties))
}

} // verus!
