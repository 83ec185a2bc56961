//! Decoding of a level's tile data: comma-separated tile codes, one row per
//! line, into a flat row-major list of byte-sized codes followed by the row
//! width.

use vstd::prelude::*;

verus! {

/// The byte that ends a row.
pub const NEWLINE: u8 = 10;

/// The byte that ends a tile code.
pub const COMMA: u8 = 44;

/// The byte of the digit zero.
pub const ZERO: u8 = 48;

/// The byte of the digit nine.
pub const NINE: u8 = 57;

/// Why a level could not be loaded.
#[derive(Clone, Copy, Debug, PartialEq, Eq, Structural)]
pub enum MapError {
    /// The text is not well-formed XML.
    InvalidXml,
    /// A `data` element has no first child, or that child carries no text.
    EmptyData,
    /// The document holds no `map` element.
    NotAMap,
    /// The tile data holds a byte that is no digit, comma or line break.
    NotANumber { byte: u8 },
    /// The digits of one tile code add up to more than a byte holds.
    TileTooLarge,
    /// The first row holds more tiles than a byte can count.
    TooWide,
    /// The tile list is empty, so it does not even hold its row width.
    NoWidth,
    /// The row width is zero.
    ZeroWidth,
    /// The number of tiles is no multiple of the row width.
    NotRectangular,
}

pub open spec fn is_digit(b: u8) -> bool {
    ZERO <= b <= NINE
}

/// How many commas `data` holds.
pub open spec fn commas(data: Seq<u8>) -> nat
    decreases data.len(),
{
    if data.len() == 0 {
        0
    } else if data.last() == COMMA {
        commas(data.drop_last()) + 1
    } else {
        commas(data.drop_last())
    }
}

/// The code of the tile that `data` ends in: the sum of the digits that
/// follow its last comma.
pub open spec fn open_tile(data: Seq<u8>) -> nat
    decreases data.len(),
{
    if data.len() == 0 {
        0
    } else if data.last() == COMMA {
        0
    } else if is_digit(data.last()) {
        open_tile(data.drop_last()) + (data.last() - ZERO) as nat
    } else {
        open_tile(data.drop_last())
    }
}

/// The codes of the tiles that a comma has ended, in the order of the data.
pub open spec fn closed_tiles(data: Seq<u8>) -> Seq<u8>
    decreases data.len(),
{
    if data.len() == 0 {
        Seq::empty()
    } else if data.last() == COMMA {
        closed_tiles(data.drop_last()).push(open_tile(data.drop_last()) as u8)
    } else {
        closed_tiles(data.drop_last())
    }
}

/// The row width: the number of commas before the first line break that has
/// a comma before it, or zero where there is no such line break.
pub open spec fn row_width(data: Seq<u8>) -> nat
    decreases data.len(),
{
    if data.len() == 0 {
        0
    } else if row_width(data.drop_last()) == 0 && data.last() == NEWLINE {
        commas(data.drop_last())
    } else {
        row_width(data.drop_last())
    }
}

/// What is wrong with the byte at index `i`, given the bytes before it.
pub open spec fn fault_at(data: Seq<u8>, i: int) -> Option<MapError> {
    let b = data[i];
    let before = data.take(i);
    if b == NEWLINE {
        if row_width(before) == 0 && commas(before) > u8::MAX {
            Some(MapError::TooWide)
        } else {
            None
        }
    } else if b == COMMA {
        None
    } else if is_digit(b) {
        if open_tile(before) + (b - ZERO) > u8::MAX {
            Some(MapError::TileTooLarge)
        } else {
            None
        }
    } else {
        Some(MapError::NotANumber { byte: b })
    }
}

/// No byte among the first `n` of `data` is at fault.
pub open spec fn clean(data: Seq<u8>, n: int) -> bool {
    forall|i: int| 0 <= i < n ==> (#[trigger] fault_at(data, i)) is None
}

/// The index `i` is the first byte of `data` at fault.
pub open spec fn first_fault(data: Seq<u8>, i: int) -> bool {
    0 <= i < data.len() && clean(data, i) && fault_at(data, i) is Some
}

/// The decoded tile list of clean data: every tile code in order, the last
/// one being the tile that no comma ends, and then the row width.
pub open spec fn tile_list(data: Seq<u8>) -> Seq<u8> {
    closed_tiles(data).push(open_tile(data) as u8).push(row_width(data) as u8)
}

/// What decoding `data` gives: the tile list where every byte is clean, else
/// the fault of the first byte that is not.
pub open spec fn decoded(data: Seq<u8>) -> Result<Seq<u8>, MapError> {
    if clean(data, data.len() as int) {
        Ok(tile_list(data))
    } else {
        Err(fault_at(data, choose|i: int| first_fault(data, i)).unwrap())
    }
}

/// The line break at index `p` is the first that has a comma before it.
pub open spec fn fixes_width(data: Seq<u8>, p: int) -> bool {
    &&& 0 <= p < data.len()
    &&& data[p] == NEWLINE
    &&& commas(data.take(p)) > 0
    &&& forall|q: int| 0 <= q < p && data[q] == NEWLINE ==> commas(#[trigger] data.take(q)) == 0
}

/// The tile list holds one tile more than the data has commas, and then the
/// row width.
pub proof fn lemma_tile_list_len(data: Seq<u8>)
    ensures
        closed_tiles(data).len() == commas(data),
        tile_list(data).len() == commas(data) + 2,
    decreases data.len(),
{
    if data.len() > 0 {
        lemma_tile_list_len(data.drop_last());
    }
}

/// A comma ends the tile before it and opens a new one: of the data `front`,
/// a comma and a stretch `field` without comma, the tiles closed are those
/// of `front` and the tile that `front` ended in, and the open tile is that
/// of `field` alone.
pub proof fn lemma_comma_separates(front: Seq<u8>, field: Seq<u8>)
    requires
        !field.contains(COMMA),
    ensures
        closed_tiles(front.push(COMMA) + field) == closed_tiles(front).push(
            open_tile(front) as u8,
        ),
        open_tile(front.push(COMMA) + field) == open_tile(field),
        commas(front.push(COMMA) + field) == commas(front) + 1,
    decreases field.len(),
{
    let data = front.push(COMMA) + field;
    if field.len() == 0 {
        assert(data == front.push(COMMA));
        assert(data.drop_last() == front);
    } else {
        let shorter = field.drop_last();
        assert(data.drop_last() == front.push(COMMA) + shorter);
        assert(data.last() == field.last());
        assert(field[field.len() - 1] != COMMA);
        assert forall|k: int| 0 <= k < shorter.len() implies shorter[k] != COMMA by {
            assert(field[k] == shorter[k]);
        }
        lemma_comma_separates(front, shorter);
    }
}

/// The row width is the number of commas before the first line break that
/// has a comma before it, and zero where no line break has one.
pub proof fn lemma_row_width(data: Seq<u8>)
    ensures
        forall|p: int|
            fixes_width(data, p) ==> row_width(data) == commas(#[trigger] data.take(p)),
        (forall|p: int| !fixes_width(data, p)) ==> row_width(data) == 0,
    decreases data.len(),
{
    if data.len() > 0 {
        let front = data.drop_last();
        let last = data.len() - 1;
        lemma_row_width(front);
        assert(data.take(last) == front);
        assert forall|p: int|
            #![trigger front.take(p)]
            #![trigger data.take(p)]
            0 <= p <= last implies front.take(p) == data.take(p) by {}
        assert forall|p: int| p < last implies (fixes_width(front, p) <==> fixes_width(
            data,
            p,
        )) by {}
        assert forall|p: int| fixes_width(data, p) implies row_width(data) == commas(
            #[trigger] data.take(p),
        ) by {
            if p < last {
                assert(fixes_width(front, p));
                assert(row_width(front) == commas(front.take(p)));
            } else {
                if row_width(front) != 0 {
                    let earlier = choose|e: int| fixes_width(front, e);
                    assert(data.take(earlier) == front.take(earlier));
                    assert(commas(data.take(earlier)) == 0);
                }
            }
        }
        if forall|p: int| !fixes_width(data, p) {
            assert forall|p: int| !fixes_width(front, p) by {
                assert(!fixes_width(data, p));
            }
            if data.last() == NEWLINE && commas(front) > 0 {
                lemma_first_break_exists(data, last);
            }
        }
    }
}

/// Where some line break has a comma before it, one of them is the first.
pub proof fn lemma_first_break_exists(data: Seq<u8>, p: int)
    requires
        0 <= p < data.len(),
        data[p] == NEWLINE,
        commas(data.take(p)) > 0,
    ensures
        exists|first: int| 0 <= first <= p && fixes_width(data, first),
    decreases p,
{
    if exists|q: int| 0 <= q < p && data[q] == NEWLINE && commas(#[trigger] data.take(q)) > 0 {
        let q = choose|q: int|
            0 <= q < p && data[q] == NEWLINE && commas(#[trigger] data.take(q)) > 0;
        lemma_first_break_exists(data, q);
    } else {
        assert(fixes_width(data, p));
    }
}

/// In clean data every tile code and the row width fit a byte, so that the
/// tile list loses nothing of them.
pub proof fn lemma_clean_fits(data: Seq<u8>, n: int)
    requires
        0 <= n <= data.len(),
        clean(data, n),
    ensures
        open_tile(data.take(n)) <= u8::MAX,
        row_width(data.take(n)) <= u8::MAX,
    decreases n,
{
    if n > 0 {
        lemma_clean_fits(data, n - 1);
        assert(data.take(n).drop_last() == data.take(n - 1));
        assert(fault_at(data, n - 1) is None);
    }
}

/// Data that is not clean has a first fault.
pub proof fn lemma_first_fault_exists(data: Seq<u8>, n: int)
    requires
        0 <= n <= data.len(),
        !clean(data, n),
    ensures
        exists|i: int| 0 <= i < n && first_fault(data, i),
    decreases n,
{
    if clean(data, n - 1) {
        assert(first_fault(data, n - 1));
    } else {
        lemma_first_fault_exists(data, n - 1);
    }
}

/// At most one index is the first fault.
pub proof fn lemma_first_fault_unique(data: Seq<u8>, i: int, j: int)
    requires
        first_fault(data, i),
        first_fault(data, j),
    ensures
        i == j,
{
    if i < j {
        assert(fault_at(data, i) is None);
    } else if j < i {
        assert(fault_at(data, j) is None);
    }
}

/// Data with a first fault at `i` decodes to that fault.
pub proof fn lemma_decoded_fault(data: Seq<u8>, i: int)
    requires
        first_fault(data, i),
    ensures
        decoded(data) == Err::<Seq<u8>, MapError>(fault_at(data, i).unwrap()),
{
    assert(!clean(data, data.len() as int));
    let j = choose|j: int| first_fault(data, j);
    lemma_first_fault_unique(data, i, j);
}

/// Decodes tile data into the flat tile list with the row width appended.
///
/// A tile code is the sum of its digits. Line breaks separate nothing: only
/// the first one that follows a comma matters, and fixes the row width.
pub fn decode_tiles(data: &[u8]) -> (r: Result<Vec<u8>, MapError>)
    ensures
        match r {
            Ok(list) => decoded(data@) == Ok::<Seq<u8>, MapError>(list@),
            Err(e) => decoded(data@) == Err::<Seq<u8>, MapError>(e),
        },
{
    let mut tiles: Vec<u8> = Vec::new();
    let mut tile: u8 = 0;
    let mut width: u8 = 0;
    let mut count: usize = 0;
    let mut i: usize = 0;
    while i < data.len()
        invariant
            i <= data.len(),
            clean(data@, i as int),
            tiles@ == closed_tiles(data@.take(i as int)),
            tile == open_tile(data@.take(i as int)),
            width == row_width(data@.take(i as int)),
            count == commas(data@.take(i as int)),
            count <= i,
        decreases data.len() - i,
    {
        let b = data[i];
        proof {
            let next = data@.take(i + 1);
            assert(next.drop_last() == data@.take(i as int));
            assert(next.last() == b);
        }
        if b == NEWLINE {
            if width == 0 {
                if count > 255 {
                    proof {
                        lemma_decoded_fault(data@, i as int);
                    }
                    return Err(MapError::TooWide);
                }
                width = count as u8;
            }
        } else if b == COMMA {
            tiles.push(tile);
            tile = 0;
            count += 1;
        } else if ZERO <= b && b <= NINE {
            let digit: u8 = b - ZERO;
            if tile > 255 - digit {
                proof {
                    lemma_decoded_fault(data@, i as int);
                }
                return Err(MapError::TileTooLarge);
            }
            tile += digit;
        } else {
            proof {
                lemma_decoded_fault(data@, i as int);
            }
            return Err(MapError::NotANumber { byte: b });
        }
        i += 1;
    }
    proof {
        assert(data@.take(data.len() as int) == data@);
    }
    tiles.push(tile);
    tiles.push(width);
    Ok(tiles)
}

} // verus!
