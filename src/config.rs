//! The textual map format: one line per row, bottom row first, one symbol
//! per column: `-` a free cell, `#` a permanent wall, `0` a destructible wall.
//! Every line ends in a line feed; the last one may omit it.
use vstd::prelude::*;

use crate::grid::{
    cell_index, in_grid, Tile, TileMap, TileStatus, TILE_COUNT, TILE_COUNT_HORIZONTAL,
    TILE_COUNT_VERTICAL,
};

verus! {

/// Bytes taken by one line of map text: a symbol per column and a line feed.
pub const LINE_LENGTH: usize = 14;

/// Length of a map text whose last line ends in a line feed.
pub const MAP_TEXT_LENGTH: usize = 154;

/// Symbol of a free cell: `-`.
pub const FREE_SYMBOL: u8 = 45;

/// Symbol of a permanent wall: `#`.
pub const PERMANENT_WALL_SYMBOL: u8 = 35;

/// Symbol of a destructible wall: `0`.
pub const WALL_SYMBOL: u8 = 48;

/// The line feed that ends a line.
pub const LINE_FEED: u8 = 10;

/// Why a map text was rejected.
#[derive(Clone, Copy, Debug, PartialEq, Eq, Structural)]
pub enum MapError {
    /// The text does not hold exactly one line of the grid's width per row.
    BadShape,
    /// A cell holds a byte that names no status; the first such cell in text order.
    UnknownSymbol { col: usize, row: usize, symbol: u8 },
}

/// The status that a map symbol stands for.
pub open spec fn symbol_status(b: u8) -> Option<TileStatus> {
    if b == FREE_SYMBOL {
        Some(TileStatus::Free)
    } else if b == PERMANENT_WALL_SYMBOL {
        Some(TileStatus::PermanentWall)
    } else if b == WALL_SYMBOL {
        Some(TileStatus::Wall)
    } else {
        None
    }
}

/// Offset in the text of the symbol for cell `(col, row)`.
pub open spec fn symbol_offset(col: int, row: int) -> int {
    row * 14 + col
}

/// Offset in the text of the line feed that ends row `row`.
pub open spec fn line_end_offset(row: int) -> int {
    row * 14 + 13
}

/// The text has one line per row, each of one symbol per column.
pub open spec fn shape_ok(text: Seq<u8>) -> bool {
    &&& (text.len() == MAP_TEXT_LENGTH || text.len() == MAP_TEXT_LENGTH - 1)
    &&& forall|row: int|
        0 <= row < TILE_COUNT_VERTICAL && line_end_offset(row) < text.len()
            ==> text[#[trigger] line_end_offset(row)] == LINE_FEED
}

/// Every cell of the text holds a known symbol.
pub open spec fn symbols_known(text: Seq<u8>) -> bool {
    forall|col: int, row: int|
        in_grid(col, row) ==> (#[trigger] symbol_status(text[symbol_offset(col, row)])).is_some()
}

/// The map `m` has, at every cell, the status that `text` gives it.
pub open spec fn matches_text(m: TileMap, text: Seq<u8>) -> bool {
    &&& m.wf()
    &&& forall|col: int, row: int|
        in_grid(col, row) ==> Some(#[trigger] m@[cell_index(col, row)]) == symbol_status(
            text[symbol_offset(col, row)],
        )
}

/// The status for one map symbol.
fn parse_symbol(b: u8) -> (r: Option<TileStatus>)
    ensures
        r == symbol_status(b),
{
    if b == FREE_SYMBOL {
        Some(TileStatus::Free)
    } else if b == PERMANENT_WALL_SYMBOL {
        Some(TileStatus::PermanentWall)
    } else if b == WALL_SYMBOL {
        Some(TileStatus::Wall)
    } else {
        None
    }
}

/// Reads a map from its text.
///
/// The text is accepted exactly when it has the grid's shape and every cell
/// holds a known symbol; otherwise the error says which of the two failed.
pub fn read_map(text: &[u8]) -> (r: Result<TileMap, MapError>)
    ensures
        match r {
            Ok(m) => shape_ok(text@) && symbols_known(text@) && matches_text(m, text@),
            Err(MapError::BadShape) => !shape_ok(text@),
            Err(MapError::UnknownSymbol { col, row, symbol }) => {
                &&& shape_ok(text@)
                &&& in_grid(col as int, row as int)
                &&& text@[symbol_offset(col as int, row as int)] == symbol
                &&& symbol_status(symbol) is None
                &&& forall|c: int, w: int|
                    in_grid(c, w) && symbol_offset(c, w) < symbol_offset(col as int, row as int)
                        ==> (#[trigger] symbol_status(text@[symbol_offset(c, w)])).is_some()
            },
        },
{
    if text.len() != MAP_TEXT_LENGTH && text.len() != MAP_TEXT_LENGTH - 1 {
        return Err(MapError::BadShape);
    }
    let mut row: usize = 0;
    while row < TILE_COUNT_VERTICAL
        invariant
            text@.len() == MAP_TEXT_LENGTH || text@.len() == MAP_TEXT_LENGTH - 1,
            row <= TILE_COUNT_VERTICAL,
            forall|w: int|
                0 <= w < row && line_end_offset(w) < text@.len()
                    ==> text@[#[trigger] line_end_offset(w)] == LINE_FEED,
        decreases TILE_COUNT_VERTICAL - row,
    {
        let end = row * LINE_LENGTH + 13;
        if end < text.len() && text[end] != LINE_FEED {
            assert(line_end_offset(row as int) == end);
            return Err(MapError::BadShape);
        }
        row = row + 1;
    }
    let mut statuses: Vec<TileStatus> = vec![TileStatus::Free; TILE_COUNT];
    let mut row: usize = 0;
    while row < TILE_COUNT_VERTICAL
        invariant
            shape_ok(text@),
            row <= TILE_COUNT_VERTICAL,
            statuses@.len() == TILE_COUNT,
            forall|c: int, w: int|
                in_grid(c, w) && w < row ==> Some(#[trigger] statuses@[cell_index(c, w)])
                    == symbol_status(text@[symbol_offset(c, w)]),
        decreases TILE_COUNT_VERTICAL - row,
    {
        let mut col: usize = 0;
        while col < TILE_COUNT_HORIZONTAL
            invariant
                shape_ok(text@),
                row < TILE_COUNT_VERTICAL,
                col <= TILE_COUNT_HORIZONTAL,
                statuses@.len() == TILE_COUNT,
                forall|c: int, w: int|
                    in_grid(c, w) && (w < row || (w == row && c < col)) ==> Some(
                        #[trigger] statuses@[cell_index(c, w)],
                    ) == symbol_status(text@[symbol_offset(c, w)]),
            decreases TILE_COUNT_HORIZONTAL - col,
        {
            let symbol = text[row * LINE_LENGTH + col];
            match parse_symbol(symbol) {
                Some(status) => {
                    statuses.set(col * TILE_COUNT_VERTICAL + row, status);
                },
                None => {
                    assert forall|c: int, w: int|
                        in_grid(c, w) && symbol_offset(c, w) < symbol_offset(
                            col as int,
                            row as int,
                        ) implies (#[trigger] symbol_status(text@[symbol_offset(c, w)])).is_some() by {
                        assert(w < row || (w == row && c < col));
                        assert(Some(statuses@[cell_index(c, w)]) == symbol_status(
                            text@[symbol_offset(c, w)],
                        ));
                    }
                    return Err(MapError::UnknownSymbol { col, row, symbol });
                },
            }
            col = col + 1;
        }
        row = row + 1;
    }
    let m = TileMap::from_statuses(&statuses);
    assert forall|c: int, w: int| in_grid(c, w) implies (#[trigger] symbol_status(
        text@[symbol_offset(c, w)],
    )).is_some() by {
        assert(Some(statuses@[cell_index(c, w)]) == symbol_status(text@[symbol_offset(c, w)]));
    }
    Ok(m)
}

/// A text of the grid's shape whose every cell is the free symbol.
pub open spec fn all_free_text(text: Seq<u8>) -> bool {
    &&& shape_ok(text)
    &&& forall|col: int, row: int|
        in_grid(col, row) ==> text[#[trigger] symbol_offset(col, row)] == FREE_SYMBOL
}

/// Loading a map text whose every cell is free is accepted, and reading
/// back any cell of the loaded map gives a free tile whose coordinates are
/// that cell's own column and row.
pub proof fn lemma_free_map_round_trip(text: Seq<u8>, m: TileMap)
    requires
        all_free_text(text),
        matches_text(m, text),
    ensures
        shape_ok(text),
        symbols_known(text),
        forall|col: int, row: int|
            in_grid(col, row) ==> #[trigger] m.tile(col, row) == (Tile {
                status: TileStatus::Free,
                coordinates: [col as usize, row as usize],
            }),
{
    assert forall|col: int, row: int| in_grid(col, row) implies (#[trigger] symbol_status(
        text[symbol_offset(col, row)],
    )).is_some() by {
        assert(text[symbol_offset(col, row)] == FREE_SYMBOL);
    }
    assert forall|col: int, row: int| in_grid(col, row) implies #[trigger] m.tile(col, row) == (Tile {
        status: TileStatus::Free,
        coordinates: [col as usize, row as usize],
    }) by {
        assert(text[symbol_offset(col, row)] == FREE_SYMBOL);
        assert(Some(m@[cell_index(col, row)]) == symbol_status(text[symbol_offset(col, row)]));
    }
}

} // verus!
