//! The text form of a terrain, and the parser that reads it.
//!
//! A terrain is written as one line of tokens for each row of the grid. A
//! token is a number, the level of a plain tile, or one of the glyphs
//! `/ \ - |`, a ramp between two plain neighbours.

use crate::terrain::{Cliffs, Plain, Ramp, Side, Tile};
use crate::text::{chars_of, number, parse_number, split, split_chars, trim, trim_chars};
use crate::util::{cell_of, first_index, lemma_first_index, lemma_no_index, rows_of, MatrixHelper};
use vstd::prelude::*;

verus! {

/// One of the four signs that stand for a ramp.
#[derive(Debug, PartialEq, Eq, Copy, Clone, Structural)]
pub enum Glyph {
    /// `/`, between the cells below left and above right.
    Slash,
    /// `\`, between the cells above left and below right.
    Backslash,
    /// `-`, between the cells to the left and to the right.
    Dash,
    /// `|`, between the cells above and below.
    Bar,
}

impl Glyph {
    /// The two sides on which this glyph needs a plain neighbour.
    pub open spec fn ends(self) -> (Side, Side) {
        match self {
            Glyph::Slash => (Side::BottomLeft, Side::TopRight),
            Glyph::Backslash => (Side::TopLeft, Side::BottomRight),
            Glyph::Dash => (Side::Left, Side::Right),
            Glyph::Bar => (Side::Top, Side::Bottom),
        }
    }

    /// The character that writes this glyph.
    pub fn sign(&self) -> (sign: char)
        ensures
            glyph_of(seq![sign]) == Some(*self),
    {
        match self {
            Glyph::Slash => '/',
            Glyph::Backslash => '\\',
            Glyph::Dash => '-',
            Glyph::Bar => '|',
        }
    }
}

/// What one token of the text stands for: an elevation level or a ramp.
#[derive(Debug, PartialEq, Eq, Copy, Clone, Structural)]
pub enum TextCell {
    Plain(u32),
    Ramp(Glyph),
}

/// Why a text is no terrain. Rows count the lines that are not blank and
/// columns count the tokens of a line, both from 0.
#[derive(Debug, PartialEq, Eq, Copy, Clone, Structural)]
pub enum ParseError {
    /// The token at (`row`, `col`) is neither a level nor a ramp glyph.
    SyntaxError { row: usize, col: usize },
    /// Row `row` has `width` tokens, and the first row has another number.
    ShapeError { row: usize, width: usize },
    /// The ramp at (`row`, `col`) lacks one of the two neighbours that its
    /// glyph needs: the grid ends there.
    PlacementError { row: usize, col: usize, glyph: Glyph },
    /// The two neighbours that the ramp at (`row`, `col`) needs are there,
    /// but one of them is no plain tile, or both are on one level.
    LevelError { row: usize, col: usize, glyph: Glyph },
}

/// The glyph that a token writes, where it writes one.
pub open spec fn glyph_of(token: Seq<char>) -> Option<Glyph> {
    if token.len() != 1 {
        None
    } else if token[0] == '/' {
        Some(Glyph::Slash)
    } else if token[0] == '\\' {
        Some(Glyph::Backslash)
    } else if token[0] == '-' {
        Some(Glyph::Dash)
    } else if token[0] == '|' {
        Some(Glyph::Bar)
    } else {
        None
    }
}

/// What a token stands for, where it stands for anything.
pub open spec fn symbol_of(token: Seq<char>) -> Option<TextCell> {
    match glyph_of(token) {
        Some(glyph) => Some(TextCell::Ramp(glyph)),
        None => match number(token) {
            Some(level) => Some(TextCell::Plain(level)),
            None => None,
        },
    }
}

/// The tokens of each line that is not blank, in order: a line is stripped
/// of the white space at its ends, then cut at every single space.
pub open spec fn token_rows(lines: Seq<Seq<char>>) -> Seq<Seq<Seq<char>>>
    decreases lines.len(),
{
    if lines.len() == 0 {
        Seq::empty()
    } else {
        let earlier = token_rows(lines.drop_last());
        let line = trim(lines.last());
        if line.len() == 0 {
            earlier
        } else {
            earlier.push(split(line, ' '))
        }
    }
}

/// The rows of tokens that a text holds.
pub open spec fn rows_of_text(text: Seq<char>) -> Seq<Seq<Seq<char>>> {
    token_rows(split(text, '\n'))
}

/// Holds of the columns of `row` whose token stands for nothing.
pub open spec fn is_bad_token(row: Seq<Seq<char>>) -> spec_fn(int) -> bool {
    |col: int| symbol_of(row[col]) is None
}

/// Holds of the rows that have a token which stands for nothing.
pub open spec fn is_bad_row(rows: Seq<Seq<Seq<char>>>) -> spec_fn(int) -> bool {
    |row: int| first_index(rows[row].len() as int, is_bad_token(rows[row])) is Some
}

/// What the tokens of a row stand for.
pub open spec fn row_symbols(row: Seq<Seq<char>>) -> Seq<TextCell> {
    row.map_values(|token: Seq<char>| symbol_of(token)->0)
}

/// What the tokens of every row stand for.
pub open spec fn symbols(rows: Seq<Seq<Seq<char>>>) -> Seq<Seq<TextCell>> {
    rows.map_values(|row: Seq<Seq<char>>| row_symbols(row))
}

/// The grid of symbols that a text holds, or the first token, row by row,
/// that stands for nothing.
pub open spec fn cells_outcome(text: Seq<char>) -> Result<Seq<Seq<TextCell>>, ParseError> {
    let rows = rows_of_text(text);
    match first_index(rows.len() as int, is_bad_row(rows)) {
        Some(row) => Err(
            ParseError::SyntaxError {
                row: row as usize,
                col: first_index(rows[row].len() as int, is_bad_token(rows[row]))->0 as usize,
            },
        ),
        None => Ok(symbols(rows)),
    }
}

/// Whether `result` holds what `outcome` says: the same grid, or the same error.
pub open spec fn yields<T>(
    result: Result<Vec<Vec<T>>, ParseError>,
    outcome: Result<Seq<Seq<T>>, ParseError>,
) -> bool {
    match outcome {
        Ok(grid) => result matches Ok(cells) && rows_of(cells@) == grid,
        Err(fault) => result matches Err(found) && found == fault,
    }
}

/// Reads what a token stands for.
fn parse_symbol(token: &Vec<char>) -> (symbol: Option<TextCell>)
    ensures
        symbol == symbol_of(token@),
{
    if token.len() == 1 {
        let sign = token[0];
        if sign == '/' {
            return Some(TextCell::Ramp(Glyph::Slash));
        } else if sign == '\\' {
            return Some(TextCell::Ramp(Glyph::Backslash));
        } else if sign == '-' {
            return Some(TextCell::Ramp(Glyph::Dash));
        } else if sign == '|' {
            return Some(TextCell::Ramp(Glyph::Bar));
        }
    }
    match parse_number(token) {
        Some(level) => Some(TextCell::Plain(level)),
        None => None,
    }
}

/// The rows of the first lines of a text are the first rows of the text.
proof fn lemma_token_rows_prefix(lines: Seq<Seq<char>>, count: int)
    requires
        0 <= count <= lines.len(),
    ensures
        token_rows(lines.take(count)).is_prefix_of(token_rows(lines)),
    decreases lines.len(),
{
    if count == lines.len() {
        assert(lines.take(count) =~= lines);
    } else {
        lemma_token_rows_prefix(lines.drop_last(), count);
        assert(lines.drop_last().take(count) =~= lines.take(count));
    }
}

/// Reads the grid of symbols that a text holds. Lines are cut at `\n`; a
/// line that holds white space alone is skipped; the tokens of a line are
/// what lies between single spaces, once the white space at its ends is
/// gone. The first token that stands for nothing, row by row, is an error.
#[verifier::loop_isolation(false)]
pub fn parse_text_cells(text: &str) -> (result: Result<Vec<Vec<TextCell>>, ParseError>)
    ensures
        yields(result, cells_outcome(text@)),
{
    let chars = chars_of(text);
    let lines = split_chars(&chars, '\n');
    let ghost all_lines = rows_of(lines@);
    let ghost rows = rows_of_text(text@);
    let mut ter: Vec<Vec<TextCell>> = Vec::new();
    let mut i: usize = 0;
    assert(rows_of(ter@) =~= symbols(token_rows(all_lines.take(0))));
    while i < lines.len()
        invariant
            i <= lines.len(),
            ter.len() == token_rows(all_lines.take(i as int)).len(),
            rows_of(ter@) == symbols(token_rows(all_lines.take(i as int))),
            forall|row: int| 0 <= row < ter.len() ==> !#[trigger] is_bad_row(rows)(row),
        decreases lines.len() - i,
    {
        let ghost earlier = token_rows(all_lines.take(i as int));
        proof {
            lemma_token_rows_prefix(all_lines, i + 1);
            assert(all_lines.take(i + 1).drop_last() =~= all_lines.take(i as int));
        }
        let line = trim_chars(&lines[i]);
        if line.len() > 0 {
            let tokens = split_chars(&line, ' ');
            let ghost row = rows_of(tokens@);
            let ghost row_ind = ter.len() as int;
            assert(token_rows(all_lines.take(i + 1)) == earlier.push(row));
            assert(rows[row_ind] == row) by {
                let sooner = token_rows(all_lines.take(i + 1));
                assert(sooner[row_ind] == rows.subrange(0, sooner.len() as int)[row_ind]);
            }
            let mut cell_row: Vec<TextCell> = Vec::new();
            let mut col_ind: usize = 0;
            while col_ind < tokens.len()
                invariant
                    col_ind <= tokens.len(),
                    cell_row@ == row_symbols(row.take(col_ind as int)),
                    forall|col: int| 0 <= col < col_ind ==> !#[trigger] is_bad_token(row)(col),
                decreases tokens.len() - col_ind,
            {
                match parse_symbol(&tokens[col_ind]) {
                    Some(cell) => {
                        cell_row.push(cell);
                        assert(cell_row@ =~= row_symbols(row.take(col_ind + 1)));
                    },
                    None => {
                        proof {
                            assert(is_bad_token(row)(col_ind as int));
                            lemma_first_index(row.len() as int, is_bad_token(row), col_ind as int);
                            assert(is_bad_row(rows)(row_ind));
                            lemma_first_index(rows.len() as int, is_bad_row(rows), row_ind);
                        }
                        return Err(ParseError::SyntaxError { row: ter.len(), col: col_ind });
                    },
                }
                col_ind += 1;
            }
            proof {
                lemma_no_index(row.len() as int, is_bad_token(row));
                assert(row.take(col_ind as int) =~= row);
                assert(rows_of(ter@.push(cell_row)) =~= rows_of(ter@).push(cell_row@));
                assert(symbols(earlier.push(row)) =~= symbols(earlier).push(row_symbols(row)));
            }
            ter.push(cell_row);
        }
        i += 1;
    }
    proof {
        assert(all_lines.take(i as int) =~= all_lines);
        lemma_no_index(rows.len() as int, is_bad_row(rows));
    }
    Ok(ter)
}

/// The symbol on side `side` of cell (`row`, `col`), if the grid has one there.
pub open spec fn symbol_beside(cells: Seq<Seq<TextCell>>, row: int, col: int, side: Side) -> Option<
    TextCell,
> {
    cell_of(cells, row + side.offset().0, col + side.offset().1)
}

/// Whether the cell on side `side` of the plain cell (`row`, `col`) is plain
/// and exactly one level lower than `level`.
pub open spec fn drops_on(
    cells: Seq<Seq<TextCell>>,
    row: int,
    col: int,
    level: u32,
    side: Side,
) -> bool {
    match symbol_beside(cells, row, col, side) {
        Some(TextCell::Plain(lower)) => lower + 1 == level,
        _ => false,
    }
}

/// The tile of a plain cell: its level, and a cliff on each edge beyond
/// which the terrain is plain and exactly one level lower.
pub open spec fn plain_tile(cells: Seq<Seq<TextCell>>, row: int, col: int, level: u32) -> Plain {
    Plain {
        level,
        cliffs: Cliffs {
            top: drops_on(cells, row, col, level, Side::Top),
            bottom: drops_on(cells, row, col, level, Side::Bottom),
            left: drops_on(cells, row, col, level, Side::Left),
            right: drops_on(cells, row, col, level, Side::Right),
        },
    }
}

/// The tile of a ramp cell. The two cells at the ends of its glyph are plain
/// and on two levels: the ramp climbs from the lower to the higher, and its
/// low side is the side of the lower. A missing neighbour is a
/// `PlacementError`; a neighbour that is a ramp, or two neighbours on one
/// level, are a `LevelError`.
pub open spec fn ramp_tile(cells: Seq<Seq<TextCell>>, row: int, col: int, glyph: Glyph) -> Result<
    Ramp,
    ParseError,
> {
    let (first, second) = glyph.ends();
    match (symbol_beside(cells, row, col, first), symbol_beside(cells, row, col, second)) {
        (Some(TextCell::Plain(one)), Some(TextCell::Plain(other))) => if one < other {
            Ok(Ramp { bottom_level: one, top_level: other, bottom_side: first })
        } else if one > other {
            Ok(Ramp { bottom_level: other, top_level: one, bottom_side: second })
        } else {
            Err(ParseError::LevelError { row: row as usize, col: col as usize, glyph })
        },
        (Some(_), Some(_)) => Err(
            ParseError::LevelError { row: row as usize, col: col as usize, glyph },
        ),
        _ => Err(ParseError::PlacementError { row: row as usize, col: col as usize, glyph }),
    }
}

/// The tile of cell (`row`, `col`), or why it has none.
pub open spec fn resolve(cells: Seq<Seq<TextCell>>, row: int, col: int) -> Result<
    Tile,
    ParseError,
> {
    match cells[row][col] {
        TextCell::Plain(level) => Ok(Tile::Plain(plain_tile(cells, row, col, level))),
        TextCell::Ramp(glyph) => match ramp_tile(cells, row, col, glyph) {
            Ok(ramp) => Ok(Tile::Ramp(ramp)),
            Err(fault) => Err(fault),
        },
    }
}

/// Holds of the rows that are not as long as the first.
pub open spec fn is_ragged_row(cells: Seq<Seq<TextCell>>) -> spec_fn(int) -> bool {
    |row: int| cells[row].len() != cells[0].len()
}

/// Holds of the columns of row `row` whose cell has no tile.
pub open spec fn is_unresolved(cells: Seq<Seq<TextCell>>, row: int) -> spec_fn(int) -> bool {
    |col: int| resolve(cells, row, col) is Err
}

/// Holds of the rows that have a cell without a tile.
pub open spec fn has_unresolved(cells: Seq<Seq<TextCell>>) -> spec_fn(int) -> bool {
    |row: int| first_index(cells[row].len() as int, is_unresolved(cells, row)) is Some
}

/// The tiles of the cells of row `row`.
pub open spec fn resolved_row(cells: Seq<Seq<TextCell>>, row: int) -> Seq<Tile> {
    Seq::new(cells[row].len(), |col: int| resolve(cells, row, col)->Ok_0)
}

/// The tiles of all cells.
pub open spec fn resolved(cells: Seq<Seq<TextCell>>) -> Seq<Seq<Tile>> {
    Seq::new(cells.len(), |row: int| resolved_row(cells, row))
}

/// The grid of tiles that a grid of symbols stands for. Where a row is not
/// as long as the first, the first such row is a `ShapeError`. Else, where
/// a cell has no tile, the first such cell, row by row, gives the error.
pub open spec fn tiles_outcome(cells: Seq<Seq<TextCell>>) -> Result<Seq<Seq<Tile>>, ParseError> {
    if let Some(row) = first_index(cells.len() as int, is_ragged_row(cells)) {
        Err(ParseError::ShapeError { row: row as usize, width: cells[row].len() as usize })
    } else if let Some(row) = first_index(cells.len() as int, has_unresolved(cells)) {
        let col = first_index(cells[row].len() as int, is_unresolved(cells, row))->0;
        Err(resolve(cells, row, col)->Err_0)
    } else {
        Ok(resolved(cells))
    }
}

/// The terrain grid that a text describes, or the first thing that is wrong
/// with it: a token that stands for nothing; else a row of another length
/// than the first; else a ramp without the neighbours that it needs.
pub open spec fn parse_outcome(text: Seq<char>) -> Result<Seq<Seq<Tile>>, ParseError> {
    match cells_outcome(text) {
        Ok(cells) => tiles_outcome(cells),
        Err(fault) => Err(fault),
    }
}

/// The symbol on side `side` of cell (`row`, `col`), if there is one.
fn symbol_at(ter: &Vec<Vec<TextCell>>, row: usize, col: usize, side: Side) -> (symbol: Option<
    TextCell,
>)
    ensures
        symbol == symbol_beside(rows_of(ter@), row as int, col as int, side),
{
    match ter.neighbor(row, col, side.step()) {
        Some(cell) => Some(*cell),
        None => None,
    }
}

/// Tells whether the cell on side `side` of (`row`, `col`) is plain and one
/// level below `level`.
fn is_lower(ter: &Vec<Vec<TextCell>>, row: usize, col: usize, level: u32, side: Side) -> (lower:
    bool)
    ensures
        lower == drops_on(rows_of(ter@), row as int, col as int, level, side),
{
    match symbol_at(ter, row, col, side) {
        Some(TextCell::Plain(beside)) => beside < level && beside == level - 1,
        _ => false,
    }
}

/// The tile of the ramp cell at (`row`, `col`), or why it has none.
fn resolve_ramp(ter: &Vec<Vec<TextCell>>, row: usize, col: usize, glyph: Glyph) -> (tile: Result<
    Ramp,
    ParseError,
>)
    ensures
        tile == ramp_tile(rows_of(ter@), row as int, col as int, glyph),
{
    let (first, second) = match glyph {
        Glyph::Slash => (Side::BottomLeft, Side::TopRight),
        Glyph::Backslash => (Side::TopLeft, Side::BottomRight),
        Glyph::Dash => (Side::Left, Side::Right),
        Glyph::Bar => (Side::Top, Side::Bottom),
    };
    let one_end = symbol_at(ter, row, col, first);
    let other_end = symbol_at(ter, row, col, second);
    match (one_end, other_end) {
        (Some(TextCell::Plain(one)), Some(TextCell::Plain(other))) => {
            if one < other {
                Ok(Ramp { bottom_level: one, top_level: other, bottom_side: first })
            } else if one > other {
                Ok(Ramp { bottom_level: other, top_level: one, bottom_side: second })
            } else {
                Err(ParseError::LevelError { row, col, glyph })
            }
        },
        (Some(_), Some(_)) => Err(ParseError::LevelError { row, col, glyph }),
        _ => Err(ParseError::PlacementError { row, col, glyph }),
    }
}

/// The tile of the cell at (`row`, `col`), or why it has none.
fn resolve_cell(ter: &Vec<Vec<TextCell>>, row: usize, col: usize) -> (tile: Result<
    Tile,
    ParseError,
>)
    requires
        row < ter.len(),
        col < ter[row as int].len(),
    ensures
        tile == resolve(rows_of(ter@), row as int, col as int),
{
    match ter[row][col] {
        TextCell::Plain(level) => {
            let cliffs = Cliffs {
                top: is_lower(ter, row, col, level, Side::Top),
                bottom: is_lower(ter, row, col, level, Side::Bottom),
                left: is_lower(ter, row, col, level, Side::Left),
                right: is_lower(ter, row, col, level, Side::Right),
            };
            Ok(Tile::Plain(Plain { level, cliffs }))
        },
        TextCell::Ramp(glyph) => match resolve_ramp(ter, row, col, glyph) {
            Ok(ramp) => Ok(Tile::Ramp(ramp)),
            Err(fault) => Err(fault),
        },
    }
}

/// Reads a terrain grid from a text: one row for each line that is not
/// blank, one tile for each token. A number is a plain tile on that level; it
/// gets a cliff on each edge beyond which the terrain is plain and one level
/// lower. One of `/ \ - |` is a ramp between the two plain neighbours that
/// the glyph points at.
#[verifier::loop_isolation(false)]
pub fn parse(text: &str) -> (result: Result<Vec<Vec<Tile>>, ParseError>)
    ensures
        yields(result, parse_outcome(text@)),
{
    let ter = match parse_text_cells(text) {
        Ok(ter) => ter,
        Err(fault) => {
            return Err(fault);
        },
    };
    let ghost cells = rows_of(ter@);
    let map_height = ter.len();

    let mut row_ind: usize = 0;
    while row_ind < map_height
        invariant
            row_ind <= map_height,
            forall|row: int| 0 <= row < row_ind ==> !#[trigger] is_ragged_row(cells)(row),
        decreases map_height - row_ind,
    {
        if ter[row_ind].len() != ter[0].len() {
            proof {
                assert(is_ragged_row(cells)(row_ind as int));
                lemma_first_index(cells.len() as int, is_ragged_row(cells), row_ind as int);
            }
            return Err(ParseError::ShapeError { row: row_ind, width: ter[row_ind].len() });
        }
        row_ind += 1;
    }
    proof {
        lemma_no_index(cells.len() as int, is_ragged_row(cells));
    }

    let mut result: Vec<Vec<Tile>> = Vec::new();
    let mut y: usize = 0;
    while y < map_height
        invariant
            y <= map_height,
            result.len() == y,
            forall|row: int| 0 <= row < y ==> !#[trigger] has_unresolved(cells)(row),
            forall|row: int| 0 <= row < y ==> (#[trigger] result[row])@ == resolved_row(cells, row),
        decreases map_height - y,
    {
        let map_width = ter[y].len();
        let mut row_tiles: Vec<Tile> = Vec::new();
        let mut x: usize = 0;
        while x < map_width
            invariant
                x <= map_width,
                row_tiles.len() == x,
                forall|col: int| 0 <= col < x ==> !#[trigger] is_unresolved(cells, y as int)(col),
                forall|col: int|
                    0 <= col < x ==> Ok::<Tile, ParseError>(#[trigger] row_tiles[col]) == resolve(
                        cells,
                        y as int,
                        col,
                    ),
            decreases map_width - x,
        {
            match resolve_cell(&ter, y, x) {
                Ok(tile) => row_tiles.push(tile),
                Err(fault) => {
                    proof {
                        assert(is_unresolved(cells, y as int)(x as int));
                        lemma_first_index(
                            cells[y as int].len() as int,
                            is_unresolved(cells, y as int),
                            x as int,
                        );
                        assert(has_unresolved(cells)(y as int));
                        lemma_first_index(cells.len() as int, has_unresolved(cells), y as int);
                    }
                    return Err(fault);
                },
            }
            x += 1;
        }
        proof {
            lemma_no_index(cells[y as int].len() as int, is_unresolved(cells, y as int));
            assert(row_tiles@ =~= resolved_row(cells, y as int));
        }
        result.push(row_tiles);
        y += 1;
    }
    proof {
        lemma_no_index(cells.len() as int, has_unresolved(cells));
        assert(rows_of(result@) =~= resolved(cells));
    }
    Ok(result)
}

} // verus!
