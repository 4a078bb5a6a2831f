//! Seeding with positions that are listed by hand.

use crate::geometry::Point3;
use crate::io::snapshot::fdt;
use vstd::prelude::*;
use vstd::slice::slice_index_get;

verus! {

/// Generator for 3D seed points that were listed by hand.
#[derive(Clone, Debug)]
pub struct ManualSeeder3 {
    seed_points: Vec<Point3<fdt>>,
}

impl View for ManualSeeder3 {
    type V = Seq<Point3<fdt>>;

    closed spec fn view(&self) -> Seq<Point3<fdt>> {
        self.seed_points@
    }
}

impl ManualSeeder3 {
    /// Creates a new seeder that produces the given positions, in their order.
    pub fn new(seed_points: Vec<Point3<fdt>>) -> (seeder: Self)
        ensures
            seeder@ == seed_points@,
    {
        ManualSeeder3 { seed_points }
    }

    /// Number of seed points that the seeder produces.
    pub fn number_of_points(&self) -> (number: usize)
        ensures
            number == self@.len(),
    {
        self.seed_points.len()
    }

    /// The seed points that the seeder produces.
    pub fn points(&self) -> (points: &Vec<Point3<fdt>>)
        ensures
            points@ == self@,
    {
        &self.seed_points
    }
}

/// The byte that ends a line.
pub const LINE_END: u8 = 0x0A;

/// The byte that stands between the coordinates of a position.
pub const COORDINATE_END: u8 = 0x2C;

/// The place of the first separator at or after the given place, or the
/// end of the bytes where there is none.
pub open spec fn piece_end(bytes: Seq<u8>, from: int, separator: u8) -> int
    decreases bytes.len() - from,
{
    if from < 0 || from >= bytes.len() {
        bytes.len() as int
    } else if bytes[from] == separator {
        from
    } else {
        piece_end(bytes, from + 1, separator)
    }
}

/// The pieces between the separators, from the given place on.
pub open spec fn pieces_from(bytes: Seq<u8>, from: int, separator: u8) -> Seq<Seq<u8>>
    decreases bytes.len() - from,
{
    let end = piece_end(bytes, from, separator);
    if from < 0 || from > bytes.len() {
        Seq::empty()
    } else if from <= end < bytes.len() {
        seq![bytes.subrange(from, end)] + pieces_from(bytes, end + 1, separator)
    } else {
        seq![bytes.subrange(from, bytes.len() as int)]
    }
}

/// The pieces of the bytes between the separators: one more than there
/// are separators.
pub open spec fn pieces(bytes: Seq<u8>, separator: u8) -> Seq<Seq<u8>> {
    pieces_from(bytes, 0, separator)
}

/// Whether a byte is blank: a space, a tab or a carriage return.
pub open spec fn is_blank_byte(byte: u8) -> bool {
    byte == 0x20 || byte == 0x09 || byte == 0x0D
}

/// Whether a line holds nothing but blanks.
pub open spec fn is_blank_line(line: Seq<u8>) -> bool {
    forall|i: int| 0 <= i < line.len() ==> is_blank_byte(#[trigger] line[i])
}

/// Says that a line of a list of positions does not consist of three
/// coordinates.
#[derive(Debug, Copy, Clone, PartialEq, Eq, Structural)]
pub struct InvalidSeedLine {
    /// Number of the line, counted from one.
    pub line_number: usize,
}

/// The coordinates on the given lines, each as it is written: for each
/// line that is not blank, the three pieces between its two commas. The
/// first line that is neither blank nor made of three pieces is an error.
pub open spec fn coordinates_of_lines(lines: Seq<Seq<u8>>) -> Result<Seq<Seq<Seq<u8>>>, int>
    decreases lines.len(),
{
    if lines.len() == 0 {
        Ok(Seq::empty())
    } else {
        match coordinates_of_lines(lines.drop_last()) {
            Err(line_number) => Err(line_number),
            Ok(positions) => if is_blank_line(lines.last()) {
                Ok(positions)
            } else if pieces(lines.last(), COORDINATE_END).len() == 3 {
                Ok(positions.push(pieces(lines.last(), COORDINATE_END)))
            } else {
                Err(lines.len() as int)
            },
        }
    }
}

/// The place of the first separator is at or after the place where the
/// search begins, and no byte between the two is a separator.
proof fn lemma_piece_end(bytes: Seq<u8>, from: int, separator: u8)
    requires
        0 <= from <= bytes.len(),
    ensures
        from <= piece_end(bytes, from, separator) <= bytes.len(),
        piece_end(bytes, from, separator) < bytes.len() ==> bytes[piece_end(
            bytes,
            from,
            separator,
        )] == separator,
        forall|i: int| from <= i < piece_end(bytes, from, separator) ==> bytes[i] != separator,
    decreases bytes.len() - from,
{
    if from < bytes.len() && bytes[from] != separator {
        lemma_piece_end(bytes, from + 1, separator);
    }
}

/// The place of the first separator, found by looking at byte after byte.
proof fn lemma_piece_end_is(bytes: Seq<u8>, from: int, end: int, separator: u8)
    requires
        0 <= from <= end <= bytes.len(),
        end < bytes.len() ==> bytes[end] == separator,
        forall|i: int| from <= i < end ==> bytes[i] != separator,
    ensures
        piece_end(bytes, from, separator) == end,
    decreases end - from,
{
    if from < end {
        lemma_piece_end_is(bytes, from + 1, end, separator);
    }
}

/// The contents of the given pieces.
pub open spec fn pieces_view(pieces: Seq<Vec<u8>>) -> Seq<Seq<u8>> {
    pieces.map_values(|piece: Vec<u8>| piece@)
}

/// Splits the bytes at the separators.
fn split(bytes: &[u8], separator: u8) -> (result: Vec<Vec<u8>>)
    ensures
        pieces_view(result@) == pieces(bytes@, separator),
{
    let len = bytes.len();
    let mut result: Vec<Vec<u8>> = Vec::new();
    let mut piece: Vec<u8> = Vec::new();
    let ghost mut start: int = 0;
    assert(pieces_view(result@) =~= Seq::empty());
    assert(pieces_view(result@) + pieces_from(bytes@, start, separator) =~= pieces(
        bytes@,
        separator,
    ));
    for i in 0..len
        invariant
            len == bytes@.len(),
            0 <= start <= i,
            piece@ == bytes@.subrange(start, i as int),
            forall|j: int| start <= j < i ==> bytes@[j] != separator,
            pieces_view(result@) + pieces_from(bytes@, start, separator) == pieces(
                bytes@,
                separator,
            ),
    {
        let byte = *slice_index_get(bytes, i);
        if byte == separator {
            proof {
                lemma_piece_end_is(bytes@, start, i as int, separator);
                assert(pieces_view(result@.push(piece)) =~= pieces_view(result@).push(piece@));
                assert(pieces_view(result@).push(piece@) + pieces_from(bytes@, i + 1, separator)
                    =~= pieces_view(result@) + pieces_from(bytes@, start, separator));
                start = i + 1;
            }
            result.push(piece);
            piece = Vec::new();
            assert(piece@ =~= bytes@.subrange(start, i + 1));
        } else {
            piece.push(byte);
            assert(piece@ =~= bytes@.subrange(start, i + 1));
        }
    }
    proof {
        lemma_piece_end_is(bytes@, start, len as int, separator);
        assert(pieces_view(result@.push(piece)) =~= pieces_view(result@).push(piece@));
        assert(pieces_view(result@).push(piece@) =~= pieces_view(result@) + pieces_from(
            bytes@,
            start,
            separator,
        ));
    }
    result.push(piece);
    result
}

/// Whether a line holds nothing but blanks.
fn holds_only_blanks(line: &Vec<u8>) -> (blank: bool)
    ensures
        blank == is_blank_line(line@),
{
    for i in 0..line.len()
        invariant
            forall|j: int| 0 <= j < i ==> is_blank_byte(#[trigger] line@[j]),
    {
        let byte = line[i];
        if !(byte == 0x20 || byte == 0x09 || byte == 0x0D) {
            return false;
        }
    }
    true
}

/// Where the first lines of a text fail, the text fails with the same
/// line.
proof fn lemma_coordinates_fail_with_prefix(lines: Seq<Seq<u8>>, i: int)
    requires
        0 <= i <= lines.len(),
        coordinates_of_lines(lines.take(i)) is Err,
    ensures
        coordinates_of_lines(lines) == coordinates_of_lines(lines.take(i)),
    decreases lines.len() - i,
{
    if i < lines.len() {
        assert(lines.take(i + 1).drop_last() =~= lines.take(i));
        lemma_coordinates_fail_with_prefix(lines, i + 1);
    } else {
        assert(lines.take(i) =~= lines);
    }
}

/// The contents of the coordinates of the given positions.
pub open spec fn coordinates_view(positions: Seq<Vec<Vec<u8>>>) -> Seq<Seq<Seq<u8>>> {
    positions.map_values(|position: Vec<Vec<u8>>| pieces_view(position@))
}

/// Splits the text of a list of positions into the coordinates of the
/// positions, each as it is written. Each line of the text consists of the
/// three coordinates of one position, with commas between them; blank
/// lines are passed over.
pub fn split_seed_points(text: &[u8]) -> (result: Result<Vec<Vec<Vec<u8>>>, InvalidSeedLine>)
    ensures
        match coordinates_of_lines(pieces(text@, LINE_END)) {
            Ok(positions) => result is Ok && coordinates_view(result->Ok_0@) == positions,
            Err(line_number) => result == Err::<Vec<Vec<Vec<u8>>>, InvalidSeedLine>(
                InvalidSeedLine { line_number: line_number as usize },
            ) && 1 <= line_number <= usize::MAX,
        },
{
    let lines = split(text, LINE_END);
    let ghost all = pieces_view(lines@);
    let mut positions: Vec<Vec<Vec<u8>>> = Vec::new();
    assert(all.take(0) =~= Seq::empty());
    assert(coordinates_view(positions@) =~= Seq::empty());
    for i in 0..lines.len()
        invariant
            all == pieces_view(lines@),
            all == pieces(text@, LINE_END),
            coordinates_of_lines(all.take(i as int)) == Ok::<Seq<Seq<Seq<u8>>>, int>(
                coordinates_view(positions@),
            ),
    {
        proof {
            assert(all.take(i + 1).drop_last() =~= all.take(i as int));
            assert(all.take(i + 1).last() == lines@[i as int]@);
        }
        if !holds_only_blanks(&lines[i]) {
            let coordinates = split(lines[i].as_slice(), COORDINATE_END);
            if coordinates.len() != 3 {
                proof {
                    lemma_coordinates_fail_with_prefix(all, i + 1);
                }
                return Err(InvalidSeedLine { line_number: i + 1 });
            }
            let ghost before = positions@;
            positions.push(coordinates);
            assert(coordinates_view(positions@) =~= coordinates_view(before).push(
                pieces_view(coordinates@),
            ));
        }
    }
    assert(all.take(lines.len() as int) =~= all);
    Ok(positions)
}

} // verus!
