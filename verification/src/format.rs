//! The text format of level pieces.
//!
//! A piece is written as its rows, separated by `~`. A row is written as blocks,
//! separated by `_`; blank characters around a row are ignored. A block is
//! `tile:count`: the position of a tile type in the catalog and the number of
//! consecutive cells of that type, both in ASCII digits. So `0:3_3:1_1:2` is a
//! row of three bricks, one cell of air and two cells of wood.

use vstd::prelude::*;
use crate::error::LevelError;
use crate::piece::LevelPiece;
use crate::tile::TileType;

verus! {

/// The character between two rows.
pub const ROW_DELIMITER: char = '~';

/// The character between two blocks of a row.
pub const BLOCK_DELIMITER: char = '_';

/// The character between the tile and the count of a block.
pub const FIELD_DELIMITER: char = ':';

/// A run of cells of one type.
#[derive(PartialEq, Eq, Structural, Copy, Clone, Debug)]
pub struct Block {
    pub tile: TileType,
    pub count: usize,
}

/// The parts of a text between the occurrences of a delimiter, in order: one
/// part more than the text has delimiters, each possibly empty.
pub open spec fn split(text: Seq<char>, delimiter: char) -> Seq<Seq<char>>
    decreases text.len(),
{
    if text.len() == 0 {
        seq![Seq::<char>::empty()]
    } else {
        let front = split(text.drop_last(), delimiter);
        if text.last() == delimiter {
            front.push(Seq::<char>::empty())
        } else {
            front.drop_last().push(front.last().push(text.last()))
        }
    }
}

/// The text that is made of parts with a delimiter between each two of them.
pub open spec fn join(parts: Seq<Seq<char>>, delimiter: char) -> Seq<char>
    decreases parts.len(),
{
    if parts.len() == 0 {
        Seq::<char>::empty()
    } else if parts.len() == 1 {
        parts[0]
    } else {
        join(parts.drop_last(), delimiter).push(delimiter) + parts.last()
    }
}

/// Whether a character is blank: whether it has the Unicode property
/// `White_Space`.
pub open spec fn is_blank(c: char) -> bool {
    let code = c as u32;
    ||| 0x09 <= code <= 0x0D
    ||| code == 0x20
    ||| code == 0x85
    ||| code == 0xA0
    ||| code == 0x1680
    ||| 0x2000 <= code <= 0x200A
    ||| code == 0x2028
    ||| code == 0x2029
    ||| code == 0x202F
    ||| code == 0x205F
    ||| code == 0x3000
}

/// A text without the blank characters at its start.
pub open spec fn trim_start(text: Seq<char>) -> Seq<char>
    decreases text.len(),
{
    if text.len() > 0 && is_blank(text.first()) {
        trim_start(text.drop_first())
    } else {
        text
    }
}

/// A text without the blank characters at its end.
pub open spec fn trim_end(text: Seq<char>) -> Seq<char>
    decreases text.len(),
{
    if text.len() > 0 && is_blank(text.last()) {
        trim_end(text.drop_last())
    } else {
        text
    }
}

/// A text without the blank characters at its start and at its end.
pub open spec fn trim(text: Seq<char>) -> Seq<char> {
    trim_end(trim_start(text))
}

/// Whether a character is an ASCII digit.
pub open spec fn is_digit(c: char) -> bool {
    '0' <= c <= '9'
}

/// The value of an ASCII digit.
pub open spec fn digit_value(c: char) -> nat {
    (c as u32 - '0' as u32) as nat
}

/// Whether a text is a number: one ASCII digit or more, and nothing else.
pub open spec fn is_number(text: Seq<char>) -> bool {
    text.len() > 0 && forall|i: int| 0 <= i < text.len() ==> is_digit(#[trigger] text[i])
}

/// The value of a text of digits, read as a decimal number.
pub open spec fn decimal_value(digits: Seq<char>) -> nat
    decreases digits.len(),
{
    if digits.len() == 0 {
        0
    } else {
        10 * decimal_value(digits.drop_last()) + digit_value(digits.last())
    }
}

/// The number that a text stands for, if it is a number that a machine word can
/// hold.
pub open spec fn parse_number(text: Seq<char>) -> Option<usize> {
    if is_number(text) && decimal_value(text) <= usize::MAX {
        Some(decimal_value(text) as usize)
    } else {
        None
    }
}

/// The block that a text stands for, if it is of the form `tile:count` with a
/// tile of the catalog.
pub open spec fn parse_block(text: Seq<char>) -> Option<Block> {
    let fields = split(text, FIELD_DELIMITER);
    if fields.len() == 2 {
        match (parse_number(fields[0]), parse_number(fields[1])) {
            (Some(index), Some(count)) => match TileType::spec_from_index(index as nat) {
                Some(tile) => Some(Block { tile, count }),
                None => None,
            },
            _ => None,
        }
    } else {
        None
    }
}

/// The cells that a block stands for.
pub open spec fn run(block: Block) -> Seq<TileType> {
    Seq::new(block.count as nat, |i: int| block.tile)
}

/// The cells that a sequence of blocks stands for: their runs, one after the
/// other.
pub open spec fn expand(blocks: Seq<Block>) -> Seq<TileType>
    decreases blocks.len(),
{
    if blocks.len() == 0 {
        Seq::<TileType>::empty()
    } else {
        expand(blocks.drop_last()) + run(blocks.last())
    }
}

/// The sum of the counts of a sequence of blocks.
pub open spec fn total_count(blocks: Seq<Block>) -> nat
    decreases blocks.len(),
{
    if blocks.len() == 0 {
        0
    } else {
        total_count(blocks.drop_last()) + blocks.last().count as nat
    }
}

/// The texts of the rows of a piece.
pub open spec fn row_texts(text: Seq<char>) -> Seq<Seq<char>> {
    split(text, ROW_DELIMITER)
}

/// The texts of the blocks of row `row` of a piece.
pub open spec fn block_texts(text: Seq<char>, row: int) -> Seq<Seq<char>> {
    split(trim(row_texts(text)[row]), BLOCK_DELIMITER)
}

/// The block that stands at position `block` of row `row`, if the text there is
/// a block.
pub open spec fn block_at(text: Seq<char>, row: int, block: int) -> Option<Block> {
    parse_block(block_texts(text, row)[block])
}

/// Whether `(row, block)` is the position of a block of the text.
pub open spec fn is_block_position(text: Seq<char>, row: int, block: int) -> bool {
    0 <= row < row_texts(text).len() && 0 <= block < block_texts(text, row).len()
}

/// Whether every block that comes before position `block` of row `row`, reading
/// row by row, is well formed.
pub open spec fn well_formed_before(text: Seq<char>, row: int, block: int) -> bool {
    forall|r: int, b: int|
        is_block_position(text, r, b) && (r < row || (r == row && b < block)) ==> (
        #[trigger] block_at(text, r, b)) is Some
}

/// Whether every block of a text is well formed.
pub open spec fn well_formed(text: Seq<char>) -> bool {
    forall|r: int, b: int|
        is_block_position(text, r, b) ==> (#[trigger] block_at(text, r, b)) is Some
}

/// Whether `(row, block)` is the position of the first block of the text that
/// is not well formed.
pub open spec fn first_malformed(text: Seq<char>, row: int, block: int) -> bool {
    &&& is_block_position(text, row, block)
    &&& block_at(text, row, block) is None
    &&& well_formed_before(text, row, block)
}

/// The first `len` blocks of row `row`.
pub open spec fn blocks_of(text: Seq<char>, row: int, len: int) -> Seq<Block> {
    Seq::new(len as nat, |b: int| block_at(text, row, b).unwrap())
}

/// The cells of row `row` of the piece that a text stands for.
pub open spec fn row_cells(text: Seq<char>, row: int) -> Seq<TileType> {
    expand(blocks_of(text, row, block_texts(text, row).len() as int))
}

/// The rows of the piece that a well-formed text stands for: as many as the
/// text has rows, in the order of the text.
pub open spec fn piece_rows(text: Seq<char>) -> Seq<Seq<TileType>> {
    Seq::new(row_texts(text).len(), |r: int| row_cells(text, r))
}

/// The parts of a text that was split.
pub open spec fn texts(parts: Seq<Vec<char>>) -> Seq<Seq<char>> {
    Seq::new(parts.len(), |i: int| parts[i]@)
}

/// A text is split into at least one part.
pub proof fn lemma_split_is_not_empty(text: Seq<char>, delimiter: char)
    ensures
        split(text, delimiter).len() > 0,
    decreases text.len(),
{
    if text.len() > 0 {
        lemma_split_is_not_empty(text.drop_last(), delimiter);
    }
}

/// No part of a split text holds the delimiter, and the parts with delimiters
/// between them make up the text: splitting loses nothing.
pub proof fn lemma_split_parts(text: Seq<char>, delimiter: char)
    ensures
        forall|i: int, j: int|
            0 <= i < split(text, delimiter).len() && 0 <= j < split(text, delimiter)[i].len()
                ==> #[trigger] split(text, delimiter)[i][j] != delimiter,
        join(split(text, delimiter), delimiter) == text,
    decreases text.len(),
{
    let parts = split(text, delimiter);
    lemma_split_is_not_empty(text, delimiter);
    if text.len() == 0 {
        assert(join(parts, delimiter) =~= text);
    } else {
        let front = split(text.drop_last(), delimiter);
        lemma_split_is_not_empty(text.drop_last(), delimiter);
        lemma_split_parts(text.drop_last(), delimiter);
        assert(text =~= text.drop_last().push(text.last()));
        if text.last() == delimiter {
            assert(parts.drop_last() =~= front);
            assert(join(parts, delimiter) == join(front, delimiter).push(delimiter)
                + parts.last());
            assert(join(parts, delimiter) =~= text);
        } else {
            let grown = front.last().push(text.last());
            assert(parts.last() == grown);
            if front.len() == 1 {
                assert(join(parts, delimiter) =~= text);
            } else {
                assert(parts.drop_last() =~= front.drop_last());
                assert(join(front, delimiter) == join(front.drop_last(), delimiter).push(
                    delimiter,
                ) + front.last());
                assert(join(parts, delimiter) =~= text);
            }
        }
    }
}

/// Whether the part of a text from `start` up to `end` is the text without the
/// blank characters at its start and at its end: all that lies before and behind
/// the part is blank, and the part neither begins nor ends with a blank
/// character.
pub open spec fn is_trimmed_part(text: Seq<char>, start: int, end: int) -> bool {
    &&& 0 <= start <= end <= text.len()
    &&& forall|i: int| 0 <= i < start ==> is_blank(#[trigger] text[i])
    &&& forall|i: int| end <= i < text.len() ==> is_blank(#[trigger] text[i])
    &&& start < end ==> !is_blank(text[start]) && !is_blank(text[end - 1])
}

/// Taking the blank characters off the start of a text leaves the end of the
/// text, from its first character that is not blank.
proof fn lemma_trim_start_part(text: Seq<char>) -> (start: int)
    ensures
        0 <= start <= text.len(),
        trim_start(text) == text.subrange(start, text.len() as int),
        forall|i: int| 0 <= i < start ==> is_blank(#[trigger] text[i]),
        start < text.len() ==> !is_blank(text[start]),
    decreases text.len(),
{
    if text.len() > 0 && is_blank(text.first()) {
        let rest = text.drop_first();
        let inner = lemma_trim_start_part(rest);
        assert(rest.subrange(inner, rest.len() as int) =~= text.subrange(
            inner + 1,
            text.len() as int,
        ));
        assert forall|i: int| 0 <= i < inner + 1 implies is_blank(#[trigger] text[i]) by {
            if i > 0 {
                assert(text[i] == rest[i - 1]);
            }
        }
        if inner < rest.len() {
            assert(text[inner + 1] == rest[inner]);
        }
        inner + 1
    } else {
        assert(text.subrange(0, text.len() as int) =~= text);
        0
    }
}

/// Taking the blank characters off the end of a text leaves the start of the
/// text, up to its last character that is not blank.
proof fn lemma_trim_end_part(text: Seq<char>) -> (end: int)
    ensures
        0 <= end <= text.len(),
        trim_end(text) == text.subrange(0, end),
        forall|i: int| end <= i < text.len() ==> is_blank(#[trigger] text[i]),
        0 < end ==> !is_blank(text[end - 1]),
    decreases text.len(),
{
    if text.len() > 0 && is_blank(text.last()) {
        let rest = text.drop_last();
        let inner = lemma_trim_end_part(rest);
        assert(rest.subrange(0, inner) =~= text.subrange(0, inner));
        assert forall|i: int| inner <= i < text.len() implies is_blank(#[trigger] text[i]) by {
            if i < rest.len() {
                assert(text[i] == rest[i]);
            }
        }
        if 0 < inner {
            assert(text[inner - 1] == rest[inner - 1]);
        }
        inner
    } else {
        assert(text.subrange(0, text.len() as int) =~= text);
        text.len() as int
    }
}

/// Trimming takes blank characters off the two ends of a text and nothing else,
/// and it takes off all of them: the trimmed text is a part of the text with
/// only blank characters before and behind it, and with no blank character at
/// either of its ends.
pub proof fn lemma_trim_is_tight(text: Seq<char>) -> (part: (int, int))
    ensures
        is_trimmed_part(text, part.0, part.1),
        trim(text) == text.subrange(part.0, part.1),
{
    let start = lemma_trim_start_part(text);
    let kept = text.subrange(start, text.len() as int);
    let end = lemma_trim_end_part(kept);
    assert(kept.subrange(0, end) =~= text.subrange(start, start + end));
    assert forall|i: int| start + end <= i < text.len() implies is_blank(#[trigger] text[i]) by {
        assert(text[i] == kept[i - start]);
    }
    if 0 < end {
        assert(text[start + end - 1] == kept[end - 1]);
        assert(text[start] == kept[0]);
    }
    (start, start + end)
}

/// The number of cells that blocks stand for is the sum of their counts.
pub proof fn lemma_expand_len(blocks: Seq<Block>)
    ensures
        expand(blocks).len() == total_count(blocks),
    decreases blocks.len(),
{
    if blocks.len() > 0 {
        lemma_expand_len(blocks.drop_last());
    }
}

/// Each row of the piece that a text stands for is as long as the sum of the
/// counts of the blocks of that row of the text.
pub proof fn lemma_row_length_is_sum_of_counts(text: Seq<char>, row: int)
    requires
        0 <= row < row_texts(text).len(),
    ensures
        piece_rows(text)[row].len() == total_count(
            blocks_of(text, row, block_texts(text, row).len() as int),
        ),
{
    lemma_expand_len(blocks_of(text, row, block_texts(text, row).len() as int));
}

/// A text is well formed exactly if it has no first malformed block, and it has
/// at most one.
pub proof fn lemma_first_malformed_is_unique(text: Seq<char>, row: int, block: int)
    requires
        first_malformed(text, row, block),
    ensures
        !well_formed(text),
        forall|r: int, b: int| first_malformed(text, r, b) ==> r == row && b == block,
{
    assert(block_at(text, row, block) is None);
    assert forall|r: int, b: int| first_malformed(text, r, b) implies r == row && b == block by {
        if r < row || (r == row && b < block) {
            assert(block_at(text, r, b) is Some);
        } else if row < r || (row == r && block < b) {
            assert(block_at(text, row, block) is Some);
        }
    }
}

/// The value of a number does not shrink when digits are put behind it.
proof fn lemma_decimal_value_grows(digits: Seq<char>, len: int)
    requires
        0 <= len <= digits.len(),
    ensures
        decimal_value(digits.take(len)) <= decimal_value(digits),
    decreases digits.len() - len,
{
    if len < digits.len() {
        lemma_decimal_value_grows(digits, len + 1);
        assert(digits.take(len + 1).drop_last() =~= digits.take(len));
    } else {
        assert(digits.take(len) =~= digits);
    }
}

/// Gives the characters of a text.
pub fn text_chars(text: &str) -> (chars: Vec<char>)
    ensures
        chars@ == text@,
{
    let mut chars: Vec<char> = Vec::new();
    for c in it: text.chars()
        invariant
            chars@ == it.seq().take(it.index() as int),
            it.seq() == text@,
    {
        chars.push(c);
    }
    chars
}

/// Splits a text at every occurrence of a delimiter.
pub fn split_text(text: &Vec<char>, delimiter: char) -> (parts: Vec<Vec<char>>)
    ensures
        texts(parts@) == split(text@, delimiter),
        parts@.len() > 0,
{
    let mut parts: Vec<Vec<char>> = Vec::new();
    let mut current: Vec<char> = Vec::new();
    let mut i: usize = 0;
    while i < text.len()
        invariant
            i <= text.len(),
            texts(parts@).push(current@) == split(text@.take(i as int), delimiter),
        decreases text.len() - i,
    {
        let c = text[i];
        proof {
            assert(text@.take(i + 1).drop_last() =~= text@.take(i as int));
            assert(text@.take(i + 1).last() == c);
        }
        let ghost front = texts(parts@).push(current@);
        if c == delimiter {
            parts.push(current);
            current = Vec::new();
            assert(texts(parts@).push(current@) =~= front.push(Seq::<char>::empty()));
        } else {
            current.push(c);
            assert(texts(parts@).push(current@) =~= front.drop_last().push(front.last().push(c)));
        }
        i += 1;
    }
    proof {
        assert(text@.take(i as int) =~= text@);
    }
    let ghost front = texts(parts@).push(current@);
    parts.push(current);
    assert(texts(parts@) =~= front);
    parts
}

/// Tells whether a character is blank.
pub fn blank(c: char) -> (b: bool)
    ensures
        b == is_blank(c),
{
    let code: u32 = c as u32;
    (0x09 <= code && code <= 0x0D) || code == 0x20 || code == 0x85 || code == 0xA0 || code
        == 0x1680 || (0x2000 <= code && code <= 0x200A) || code == 0x2028 || code == 0x2029 || code
        == 0x202F || code == 0x205F || code == 0x3000
}

/// Takes the blank characters off the start and the end of a text.
pub fn trim_text(text: &Vec<char>) -> (trimmed: Vec<char>)
    ensures
        trimmed@ == trim(text@),
{
    let len = text.len();
    let mut start: usize = 0;
    assert(text@.subrange(0, len as int) =~= text@);
    while start < len && blank(text[start])
        invariant
            start <= len,
            len == text@.len(),
            trim_start(text@) == trim_start(text@.subrange(start as int, len as int)),
        decreases len - start,
    {
        proof {
            let rest = text@.subrange(start as int, len as int);
            assert(rest.first() == text@[start as int]);
            assert(rest.drop_first() =~= text@.subrange(start + 1, len as int));
        }
        start += 1;
    }
    let ghost kept = text@.subrange(start as int, len as int);
    assert(trim_start(text@) == kept);
    let mut end: usize = len;
    while end > start && blank(text[end - 1])
        invariant
            start <= end <= len,
            len == text@.len(),
            kept == text@.subrange(start as int, len as int),
            trim_end(kept) == trim_end(text@.subrange(start as int, end as int)),
        decreases end - start,
    {
        proof {
            let rest = text@.subrange(start as int, end as int);
            assert(rest.last() == text@[end - 1]);
            assert(rest.drop_last() =~= text@.subrange(start as int, end - 1));
        }
        end -= 1;
    }
    assert(trim_end(kept) == text@.subrange(start as int, end as int));
    let mut trimmed: Vec<char> = Vec::new();
    let mut i: usize = start;
    while i < end
        invariant
            start <= i <= end <= len,
            len == text@.len(),
            trimmed@ == text@.subrange(start as int, i as int),
        decreases end - i,
    {
        trimmed.push(text[i]);
        assert(trimmed@ =~= text@.subrange(start as int, i + 1));
        i += 1;
    }
    trimmed
}

/// Tells whether a character is an ASCII digit.
pub fn ascii_digit(c: char) -> (b: bool)
    ensures
        b == is_digit(c),
{
    let code: u32 = c as u32;
    48 <= code && code <= 57
}

/// Reads a text as a decimal number.
///
/// The result is `None` when the text is empty, holds anything but ASCII digits,
/// or stands for a number that a machine word cannot hold.
pub fn read_number(text: &Vec<char>) -> (number: Option<usize>)
    ensures
        number == parse_number(text@),
{
    let len = text.len();
    if len == 0 {
        return None;
    }
    let mut value: usize = 0;
    let mut i: usize = 0;
    while i < len
        invariant
            i <= len,
            len == text@.len(),
            forall|k: int| 0 <= k < i ==> is_digit(#[trigger] text@[k]),
            value == decimal_value(text@.take(i as int)),
        decreases len - i,
    {
        let c = text[i];
        if !ascii_digit(c) {
            return None;
        }
        let digit: usize = (c as u32 - 48) as usize;
        proof {
            assert(text@.take(i + 1).drop_last() =~= text@.take(i as int));
            assert(text@.take(i + 1).last() == c);
            assert(digit == digit_value(c));
            lemma_decimal_value_grows(text@, i + 1);
        }
        if value > (usize::MAX - digit) / 10 {
            return None;
        }
        value = 10 * value + digit;
        i += 1;
    }
    proof {
        assert(text@.take(i as int) =~= text@);
    }
    Some(value)
}

/// Reads a text as a block.
///
/// The result is `None` unless the text is `tile:count`, where `tile` is the
/// position of a tile type in the catalog and `count` a number that a machine
/// word can hold, both written in ASCII digits.
pub fn read_block(text: &Vec<char>) -> (block: Option<Block>)
    ensures
        block == parse_block(text@),
{
    let fields = split_text(text, FIELD_DELIMITER);
    if fields.len() != 2 {
        return None;
    }
    assert(texts(fields@)[0] == fields@[0]@);
    assert(texts(fields@)[1] == fields@[1]@);
    let index = read_number(&fields[0]);
    let count = read_number(&fields[1]);
    match (index, count) {
        (Some(index), Some(count)) => match TileType::from_index(index) {
            Some(tile) => Some(Block { tile, count }),
            None => None,
        },
        _ => None,
    }
}

/// Puts the cells of a block behind the cells of a row.
pub fn push_run(cells: &mut Vec<TileType>, block: Block)
    ensures
        final(cells)@ == old(cells)@ + run(block),
{
    let mut i: usize = 0;
    while i < block.count
        invariant
            i <= block.count,
            cells@.len() == old(cells)@.len() + i,
            forall|k: int| 0 <= k < old(cells)@.len() ==> cells@[k] == old(cells)@[k],
            forall|k: int| old(cells)@.len() <= k < cells@.len() ==> cells@[k] == block.tile,
        decreases block.count - i,
    {
        cells.push(block.tile);
        i += 1;
    }
    assert(cells@ =~= old(cells)@ + run(block));
}

/// Reads the text of a piece.
///
/// The rows of the piece are the rows of the text, in order, each made of the
/// runs of its blocks: the piece has as many rows as the text, and each row as
/// many cells as the counts of its blocks add up to. A text with a block that is
/// not well formed is refused, with the position of the first such block. An
/// empty row, such as the one behind a delimiter at the end of the text, holds
/// one empty block, which is not well formed.
pub fn piece_from_string(string: String) -> (result: Result<LevelPiece, LevelError>)
    ensures
        result is Ok <==> well_formed(string@),
        match result {
            Ok(piece) => {
                &&& piece.rows() == piece_rows(string@)
                &&& piece.rows().len() == row_texts(string@).len()
                &&& forall|r: int|
                    0 <= r < piece.rows().len() ==> (#[trigger] piece.rows()[r]).len()
                        == total_count(
                        blocks_of(string@, r, block_texts(string@, r).len() as int),
                    )
            },
            Err(error) => error matches LevelError::MalformedLevelData { row, block }
                && first_malformed(string@, row as int, block as int),
        },
{
    let text = text_chars(string.as_str());
    let rows = split_text(&text, ROW_DELIMITER);
    let ghost source = string@;
    let mut data: Vec<Vec<TileType>> = Vec::new();
    let mut row_index: usize = 0;
    while row_index < rows.len()
        invariant
            row_index <= rows.len(),
            source == string@,
            texts(rows@) == row_texts(source),
            well_formed_before(source, row_index as int, 0),
            data@.len() == row_index,
            forall|r: int| 0 <= r < row_index ==> (#[trigger] data@[r])@ == row_cells(source, r),
        decreases rows.len() - row_index,
    {
        assert(texts(rows@)[row_index as int] == rows@[row_index as int]@);
        let row = trim_text(&rows[row_index]);
        let blocks = split_text(&row, BLOCK_DELIMITER);
        assert(texts(blocks@) == block_texts(source, row_index as int));
        let mut cells: Vec<TileType> = Vec::new();
        let mut block_index: usize = 0;
        while block_index < blocks.len()
            invariant
                block_index <= blocks.len(),
                row_index < rows.len(),
                source == string@,
                texts(rows@) == row_texts(source),
                texts(blocks@) == block_texts(source, row_index as int),
                well_formed_before(source, row_index as int, block_index as int),
                cells@ == expand(blocks_of(source, row_index as int, block_index as int)),
            decreases blocks.len() - block_index,
        {
            assert(texts(blocks@)[block_index as int] == blocks@[block_index as int]@);
            match read_block(&blocks[block_index]) {
                Some(block) => {
                    proof {
                        let grown = blocks_of(source, row_index as int, block_index + 1);
                        assert(grown.drop_last() =~= blocks_of(
                            source,
                            row_index as int,
                            block_index as int,
                        ));
                        assert(grown.last() == block);
                    }
                    push_run(&mut cells, block);
                },
                None => {
                    proof {
                        assert(texts(rows@).len() == rows@.len());
                        assert(texts(blocks@).len() == blocks@.len());
                        assert(is_block_position(source, row_index as int, block_index as int));
                        assert(block_at(source, row_index as int, block_index as int) is None);
                        assert(first_malformed(source, row_index as int, block_index as int));
                        lemma_first_malformed_is_unique(
                            source,
                            row_index as int,
                            block_index as int,
                        );
                    }
                    return Err(
                        LevelError::MalformedLevelData { row: row_index, block: block_index },
                    );
                },
            }
            block_index += 1;
        }
        data.push(cells);
        row_index += 1;
    }
    let piece = LevelPiece { data };
    proof {
        assert(piece.rows() =~= piece_rows(source));
        assert forall|r: int| 0 <= r < piece.rows().len() implies (#[trigger] piece.rows()[r]).len()
            == total_count(blocks_of(source, r, block_texts(source, r).len() as int)) by {
            lemma_row_length_is_sum_of_counts(source, r);
        }
    }
    Ok(piece)
}

} // verus!
