//! What holds of reading and building together.

use crate::facing::{all_face_outward, lemma_terrain_faces_outward, ramps_climb};
use crate::geometry::{
    along, beside, cell_centre, cell_mesh, cell_vertex_count, cliff_face, corner_normal,
    flank_face_count, left_flank, left_flank_face, lemma_cell_vertex_count,
    lemma_vertex_count_before, low_side_beside, mesh_before, right_flank, right_flank_face,
    terrain_mesh, top_face, vertex_count,
};
use crate::mesh::{buffers_model, turn, MeshBuffers};
use crate::terrain::{buildable, Cliffs, Plain, Ramp, Side, Tile, QUAD_HEIGHT, QUAD_SIZE};
use crate::text_map::{
    cells_outcome, drops_on, has_unresolved, is_ragged_row, is_unresolved, parse_outcome,
    resolve, resolved, resolved_row, symbol_beside, tiles_outcome, yields, ParseError, TextCell,
};
use crate::util::{
    cell_of, first_index, is_first, is_rectangular, lemma_first_index_found, lemma_no_index,
    rows_of,
};
use vstd::prelude::*;

verus! {

/// Where a grid of symbols has tiles, it has one tile for each symbol, every
/// row of tiles is as long as the first, and each tile is the one that
/// `resolve` gives.
pub proof fn lemma_tiles_keep_the_shape(cells: Seq<Seq<TextCell>>)
    requires
        tiles_outcome(cells) is Ok,
    ensures
        is_rectangular(cells),
        is_rectangular(tiles_outcome(cells)->Ok_0),
        tiles_outcome(cells)->Ok_0.len() == cells.len(),
        forall|row: int|
            0 <= row < cells.len() ==> (#[trigger] tiles_outcome(cells)->Ok_0[row]).len()
                == cells[row].len(),
        forall|row: int, col: int|
            0 <= row < cells.len() && 0 <= col < cells[row].len() ==> resolve(cells, row, col)
                == Ok::<Tile, ParseError>(#[trigger] tiles_outcome(cells)->Ok_0[row][col]),
{
    let tiles = tiles_outcome(cells)->Ok_0;
    lemma_first_index_found(cells.len() as int, is_ragged_row(cells));
    lemma_first_index_found(cells.len() as int, has_unresolved(cells));
    assert(tiles == resolved(cells));
    assert forall|row: int| 0 <= row < cells.len() implies (#[trigger] cells[row]).len()
        == cells[0].len() by {
        assert(!is_ragged_row(cells)(row));
    }
    assert forall|row: int| 0 <= row < tiles.len() implies (#[trigger] tiles[row]).len()
        == tiles[0].len() by {
        assert(tiles[row] == resolved_row(cells, row));
        assert(tiles[0] == resolved_row(cells, 0));
    }
    assert forall|row: int, col: int|
        0 <= row < cells.len() && 0 <= col < cells[row].len() implies resolve(cells, row, col)
        == Ok::<Tile, ParseError>(#[trigger] tiles[row][col]) by {
        assert(!has_unresolved(cells)(row));
        lemma_first_index_found(cells[row].len() as int, is_unresolved(cells, row));
        assert(!is_unresolved(cells, row)(col));
        assert(tiles[row] == resolved_row(cells, row));
    }
}

/// Every ramp of a grid that was read climbs: its bottom level is below its
/// top level. The plain cell on its low side is on the bottom level, and the
/// plain cell across is on the top level.
pub proof fn lemma_ramps_climb(cells: Seq<Seq<TextCell>>, row: int, col: int)
    requires
        tiles_outcome(cells) is Ok,
        0 <= row < cells.len(),
        0 <= col < cells[row].len(),
        tiles_outcome(cells)->Ok_0[row][col] is Ramp,
    ensures
        ({
            let ramp = tiles_outcome(cells)->Ok_0[row][col]->Ramp_0;
            &&& ramp.bottom_level < ramp.top_level
            &&& symbol_beside(cells, row, col, ramp.bottom_side) == Some(
                TextCell::Plain(ramp.bottom_level),
            )
            &&& symbol_beside(cells, row, col, ramp.bottom_side.opposite()) == Some(
                TextCell::Plain(ramp.top_level),
            )
        }),
{
    lemma_tiles_keep_the_shape(cells);
}

/// Of two plain cells that share an edge, one a level above the other, the
/// higher records a cliff on the shared edge and the lower records none
/// there. `side` is the edge of the higher cell at (`row`, `col`).
pub proof fn lemma_cliff_on_the_higher_cell(
    cells: Seq<Seq<TextCell>>,
    row: int,
    col: int,
    side: Side,
)
    requires
        tiles_outcome(cells) is Ok,
        0 <= row < cells.len(),
        0 <= col < cells[row].len(),
        !side.is_corner(),
        cells[row][col] is Plain,
        symbol_beside(cells, row, col, side) is Some,
        symbol_beside(cells, row, col, side)->0 is Plain,
        symbol_beside(cells, row, col, side)->0->Plain_0 + 1 == cells[row][col]->Plain_0,
    ensures
        ({
            let tiles = tiles_outcome(cells)->Ok_0;
            let higher = tiles[row][col];
            let lower = tiles[row + side.offset().0][col + side.offset().1];
            &&& higher is Plain
            &&& higher->Plain_0.level == cells[row][col]->Plain_0
            &&& higher->Plain_0.cliffs.has(side)
            &&& lower is Plain
            &&& lower->Plain_0.level + 1 == higher->Plain_0.level
            &&& !lower->Plain_0.cliffs.has(side.opposite())
        }),
{
    lemma_tiles_keep_the_shape(cells);
    let beside_row = row + side.offset().0;
    let beside_col = col + side.offset().1;
    assert(0 <= beside_row < cells.len() && 0 <= beside_col < cells[beside_row].len());
    assert(symbol_beside(cells, beside_row, beside_col, side.opposite()) == Some(cells[row][col]));
    let tiles = tiles_outcome(cells)->Ok_0;
    assert(resolve(cells, beside_row, beside_col) == Ok::<Tile, ParseError>(
        tiles[beside_row][beside_col],
    ));
}

/// A text whose tokens all stand for something, and in which some row is not
/// as long as the first, gives a `ShapeError` that names the first such row.
pub proof fn lemma_ragged_rows_are_a_shape_error(text: Seq<char>, ragged: usize)
    requires
        cells_outcome(text) is Ok,
        ragged < cells_outcome(text)->Ok_0.len(),
        cells_outcome(text)->Ok_0[ragged as int].len() != cells_outcome(text)->Ok_0[0].len(),
    ensures
        parse_outcome(text) matches Err(ParseError::ShapeError { row, width }) && ({
            let cells = cells_outcome(text)->Ok_0;
            &&& row <= ragged
            &&& is_first(cells.len() as int, is_ragged_row(cells), row as int)
            &&& width == cells[row as int].len() as usize
        }),
{
    let cells = cells_outcome(text)->Ok_0;
    assert(is_ragged_row(cells)(ragged as int));
    lemma_first_index_found(cells.len() as int, is_ragged_row(cells));
    let first = first_index(cells.len() as int, is_ragged_row(cells))->0;
    if ragged < first {
        assert(!is_ragged_row(cells)(ragged as int));
    }
}

/// A plain tile on `level` without cliffs.
pub open spec fn level_tile(level: u32) -> Tile {
    Tile::Plain(
        Plain { level, cliffs: Cliffs { top: false, bottom: false, left: false, right: false } },
    )
}

/// Whether every tile of a grid is a plain tile on `level` without cliffs.
pub open spec fn is_level_ground(grid: Seq<Seq<Tile>>, level: u32) -> bool {
    forall|row: int, col: int|
        0 <= row < grid.len() && 0 <= col < grid[row].len() ==> #[trigger] grid[row][col]
            == level_tile(level)
}

/// A rectangular grid of one level throughout reads as level ground: every
/// tile is plain on that level and records no cliff.
pub proof fn lemma_one_level_reads_as_level_ground(cells: Seq<Seq<TextCell>>, level: u32)
    requires
        is_rectangular(cells),
        forall|row: int, col: int|
            0 <= row < cells.len() && 0 <= col < cells[row].len() ==> #[trigger] cells[row][col]
                == TextCell::Plain(level),
    ensures
        tiles_outcome(cells) is Ok,
        is_level_ground(tiles_outcome(cells)->Ok_0, level),
{
    assert forall|row: int| 0 <= row < cells.len() implies !#[trigger] is_ragged_row(cells)(
        row,
    ) by {
        assert(cells[row].len() == cells[0].len());
    }
    lemma_no_index(cells.len() as int, is_ragged_row(cells));
    assert forall|row: int, col: int|
        0 <= row < cells.len() && 0 <= col < cells[row].len() implies #[trigger] resolve(
        cells,
        row,
        col,
    ) == Ok::<Tile, ParseError>(level_tile(level)) by {
        assert(cells[row][col] == TextCell::Plain(level));
        assert forall|side: Side| !side.is_corner() implies !drops_on(
            cells,
            row,
            col,
            level,
            side,
        ) by {
            let beside_row = row + side.offset().0;
            let beside_col = col + side.offset().1;
            if 0 <= beside_row < cells.len() && 0 <= beside_col < cells[beside_row].len() {
                assert(cells[beside_row][beside_col] == TextCell::Plain(level));
            }
        }
    }
    assert forall|row: int| 0 <= row < cells.len() implies !#[trigger] has_unresolved(cells)(
        row,
    ) by {
        assert forall|col: int| 0 <= col < cells[row].len() implies !#[trigger] is_unresolved(
            cells,
            row,
        )(col) by {
            assert(resolve(cells, row, col) is Ok);
        }
        lemma_no_index(cells[row].len() as int, is_unresolved(cells, row));
    }
    lemma_no_index(cells.len() as int, has_unresolved(cells));
    lemma_tiles_keep_the_shape(cells);
}

/// On level ground every cell adds one quad whose normals point straight up.
proof fn lemma_level_cell(grid: Seq<Seq<Tile>>, level: u32, row: int, col: int)
    requires
        is_level_ground(grid, level),
        0 <= row < grid.len(),
        0 <= col < grid[row].len(),
    ensures
        cell_mesh(grid, row, col).positions.len() == 4,
        cell_mesh(grid, row, col).indices.len() == 6,
        cell_mesh(grid, row, col).normals == seq![
            (0int, 10int, 0int),
            (0, 10, 0),
            (0, 10, 0),
            (0, 10, 0),
        ],
{
    assert(grid[row][col] == level_tile(level));
    assert forall|side: Side| #[trigger] low_side_beside(grid, row, col, side) is None by {
        let beside_row = row + side.offset().0;
        let beside_col = col + side.offset().1;
        if 0 <= beside_row < grid.len() && 0 <= beside_col < grid[beside_row].len() {
            assert(grid[beside_row][beside_col] == level_tile(level));
        }
    }
    assert forall|corner: Side| corner.is_corner() implies #[trigger] corner_normal(
        grid,
        row,
        col,
        corner,
    ) == (0int, 10int, 0int) by {
        assert(low_side_beside(grid, row, col, beside(corner)) is None);
        assert(low_side_beside(grid, row, col, along(corner)) is None);
        assert(low_side_beside(grid, row, col, corner) is None);
    }
    assert(corner_normal(grid, row, col, Side::BottomLeft) == (0int, 10int, 0int));
    assert(corner_normal(grid, row, col, Side::TopLeft) == (0int, 10int, 0int));
    assert(corner_normal(grid, row, col, Side::TopRight) == (0int, 10int, 0int));
    assert(corner_normal(grid, row, col, Side::BottomRight) == (0int, 10int, 0int));
}

/// On level ground the cells before (`row`, `col`) add one quad each, with
/// normals that point straight up.
proof fn lemma_level_mesh_before(grid: Seq<Seq<Tile>>, level: u32, row: int, col: int)
    requires
        is_rectangular(grid),
        is_level_ground(grid, level),
        0 <= row <= grid.len(),
        0 <= col,
        row < grid.len() ==> col <= grid[0].len(),
        row == grid.len() ==> col == 0,
    ensures
        mesh_before(grid, row, col).positions.len() == 4 * (row * grid[0].len() + col),
        mesh_before(grid, row, col).indices.len() == 6 * (row * grid[0].len() + col),
        mesh_before(grid, row, col).normals.len() == 4 * (row * grid[0].len() + col),
        forall|i: int|
            0 <= i < mesh_before(grid, row, col).normals.len() ==> #[trigger] mesh_before(
                grid,
                row,
                col,
            ).normals[i] == (0int, 10int, 0int),
    decreases row, col,
{
    let width = grid[0].len() as int;
    if col > 0 {
        lemma_level_mesh_before(grid, level, row, col - 1);
        lemma_level_cell(grid, level, row, col - 1);
    } else if row > 0 {
        lemma_level_mesh_before(grid, level, row - 1, width);
        assert((row - 1) * width + width == row * width) by (nonlinear_arith);
    } else {
        assert(0 * width == 0);
    }
}

/// The mesh of level ground is one quad for each cell and nothing else:
/// four vertices and two triangles a cell, no cliff face, no ramp face, and
/// every normal points straight up.
pub proof fn lemma_level_ground_is_flat(grid: Seq<Seq<Tile>>, level: u32)
    requires
        is_rectangular(grid),
        is_level_ground(grid, level),
    ensures
        terrain_mesh(grid).positions.len() == 4 * (grid.len() * grid[0].len()),
        terrain_mesh(grid).indices.len() == 6 * (grid.len() * grid[0].len()),
        terrain_mesh(grid).normals.len() == terrain_mesh(grid).positions.len(),
        forall|i: int|
            0 <= i < terrain_mesh(grid).normals.len() ==> #[trigger] terrain_mesh(grid).normals[i]
                == (0int, 10int, 0int),
{
    lemma_level_mesh_before(grid, level, grid.len() as int, 0);
}

/// Reading is a function of the text: two results that `parse` may give for
/// one text are both the same grid or both the same error.
pub proof fn lemma_parse_is_deterministic(
    text: Seq<char>,
    first: Result<Vec<Vec<Tile>>, ParseError>,
    second: Result<Vec<Vec<Tile>>, ParseError>,
)
    requires
        yields(first, parse_outcome(text)),
        yields(second, parse_outcome(text)),
    ensures
        match (first, second) {
            (Ok(one), Ok(other)) => rows_of(one@) == rows_of(other@),
            (Err(one), Err(other)) => one == other,
            _ => false,
        },
{
}

/// Building is a function of the grid: two sets of buffers that
/// `build_mesh` may give for one grid hold the same numbers in the same order.
pub proof fn lemma_build_is_deterministic(
    grid: Seq<Seq<Tile>>,
    first: MeshBuffers,
    second: MeshBuffers,
)
    requires
        buffers_model(first.0@, first.1@, first.2@, first.3@) == terrain_mesh(grid),
        buffers_model(second.0@, second.1@, second.2@, second.3@) == terrain_mesh(grid),
    ensures
        first.0@ == second.0@,
        first.1@ == second.1@,
        first.2@ == second.2@,
        first.3@ == second.3@,
{
    let one = buffers_model(first.0@, first.1@, first.2@, first.3@);
    let other = buffers_model(second.0@, second.1@, second.2@, second.3@);
    assert(first.0@ =~= second.0@) by {
        assert(first.0@.len() == one.positions.len());
        assert(second.0@.len() == other.positions.len());
        assert forall|i: int| 0 <= i < first.0@.len() implies first.0@[i] == second.0@[i] by {
            assert(one.positions[i] == other.positions[i]);
        }
    }
    assert(first.1@ =~= second.1@) by {
        assert(first.1@.len() == one.indices.len());
        assert(second.1@.len() == other.indices.len());
        assert forall|i: int| 0 <= i < first.1@.len() implies first.1@[i] == second.1@[i] by {
            assert(one.indices[i] == other.indices[i]);
        }
    }
    assert(first.2@ =~= second.2@) by {
        assert(first.2@.len() == one.normals.len());
        assert(second.2@.len() == other.normals.len());
        assert forall|i: int| 0 <= i < first.2@.len() implies first.2@[i] == second.2@[i] by {
            assert(one.normals[i] == other.normals[i]);
        }
    }
    assert(first.3@ =~= second.3@) by {
        assert(first.3@.len() == one.uvs.len());
        assert(second.3@.len() == other.uvs.len());
        assert forall|i: int| 0 <= i < first.3@.len() implies first.3@[i] == second.3@[i] by {
            assert(one.uvs[i] == other.uvs[i]);
        }
    }
}

/// A text that holds a rectangular grid of one level throughout builds into
/// level ground: one quad for each cell, no cliff face, no ramp face, and
/// every normal straight up.
pub proof fn lemma_one_level_builds_flat(text: Seq<char>, level: u32)
    requires
        cells_outcome(text) is Ok,
        is_rectangular(cells_outcome(text)->Ok_0),
        forall|row: int, col: int|
            0 <= row < cells_outcome(text)->Ok_0.len() && 0 <= col < cells_outcome(
                text,
            )->Ok_0[row].len() ==> #[trigger] cells_outcome(text)->Ok_0[row][col]
                == TextCell::Plain(level),
    ensures
        parse_outcome(text) is Ok,
        ({
            let cells = cells_outcome(text)->Ok_0;
            let mesh = terrain_mesh(parse_outcome(text)->Ok_0);
            &&& mesh.positions.len() == 4 * (cells.len() * cells[0].len())
            &&& mesh.indices.len() == 6 * (cells.len() * cells[0].len())
            &&& mesh.normals.len() == mesh.positions.len()
            &&& forall|i: int|
                0 <= i < mesh.normals.len() ==> #[trigger] mesh.normals[i] == (0int, 10int, 0int)
        }),
{
    let cells = cells_outcome(text)->Ok_0;
    lemma_one_level_reads_as_level_ground(cells, level);
    lemma_tiles_keep_the_shape(cells);
    lemma_level_ground_is_flat(tiles_outcome(cells)->Ok_0, level);
}

/// The mesh of a grid has four vertices for each tile, four more for each
/// cliff that a plain tile records, and three more for each flank face of a
/// ramp.
pub proof fn lemma_vertex_count(grid: Seq<Seq<Tile>>)
    ensures
        terrain_mesh(grid).positions.len() == vertex_count(grid),
        forall|row: int, col: int|
            #![trigger cell_vertex_count(grid, row, col)]
            cell_mesh(grid, row, col).positions.len() == cell_vertex_count(grid, row, col)
                && cell_vertex_count(grid, row, col) == 4 + (match grid[row][col] {
                Tile::Plain(plain) => 4 * plain.cliffs.count(),
                Tile::Ramp(ramp) => 3 * flank_face_count(grid, row, col, ramp),
            }),
{
    lemma_vertex_count_before(grid, grid.len() as int, 0);
    assert forall|row: int, col: int|
        #![trigger cell_vertex_count(grid, row, col)]
        cell_mesh(grid, row, col).positions.len() == cell_vertex_count(grid, row, col) by {
        lemma_cell_vertex_count(grid, row, col);
    }
}

/// The face of a cliff stands upright in the plane of the edge that it is
/// on, reaches from the level below the tile up to the tile, and its normals
/// point away from the tile, straight across that edge.
pub proof fn lemma_cliff_face_bridges_one_level(level: int, side: Side)
    requires
        !side.is_corner(),
    ensures
        ({
            let face = cliff_face(level, side);
            let (x, z) = side.direction();
            &&& face.positions.len() == 4
            &&& face.normals.len() == 4
            &&& face.indices == seq![0int, 2, 1, 0, 3, 2]
            &&& forall|i: int|
                0 <= i < 4 ==> (#[trigger] face.positions[i]).0 * x + face.positions[i].2 * z
                    == QUAD_SIZE / 2
            &&& face.positions[0].1 == (level - 1) * QUAD_HEIGHT
            &&& face.positions[1].1 == level * QUAD_HEIGHT
            &&& face.positions[2].1 == level * QUAD_HEIGHT
            &&& face.positions[3].1 == (level - 1) * QUAD_HEIGHT
            &&& forall|i: int| 0 <= i < 4 ==> #[trigger] face.normals[i] == (10 * x, 0int, 10 * z)
        }),
{
    let face = cliff_face(level, side);
    let half = QUAD_SIZE / 2;
    let low = (level - 1) * QUAD_HEIGHT;
    let high = level * QUAD_HEIGHT;
    assert(face.indices =~= seq![0int, 2, 1, 0, 3, 2]);
    match side {
        Side::Bottom => {
            assert(face.positions =~= seq![
                (-half, low, half),
                (-half, high, half),
                (half, high, half),
                (half, low, half),
            ]);
            assert(face.normals =~= seq![(0int, 0int, 10int), (0, 0, 10), (0, 0, 10), (0, 0, 10)]);
        },
        Side::Right => {
            assert(face.positions =~= seq![
                (half, low, half),
                (half, high, half),
                (half, high, -half),
                (half, low, -half),
            ]);
            assert(face.normals =~= seq![(10int, 0int, 0int), (10, 0, 0), (10, 0, 0), (10, 0, 0)]);
        },
        Side::Top => {
            assert(face.positions =~= seq![
                (half, low, -half),
                (half, high, -half),
                (-half, high, -half),
                (-half, low, -half),
            ]);
            assert(face.normals =~= seq![
                (0int, 0int, -10int),
                (0, 0, -10),
                (0, 0, -10),
                (0, 0, -10),
            ]);
        },
        _ => {
            assert(face.positions =~= seq![
                (-half, low, -half),
                (-half, high, -half),
                (-half, high, half),
                (-half, low, half),
            ]);
            assert(face.normals =~= seq![
                (-10int, 0int, 0int),
                (-10, 0, 0),
                (-10, 0, 0),
                (-10, 0, 0),
            ]);
        },
    }
}

/// A plain tile adds one face for each cliff that it records, after its top
/// and after the faces of the cliffs that come before it.
pub proof fn lemma_cell_holds_its_cliff_faces(grid: Seq<Seq<Tile>>, row: int, col: int, side: Side)
    requires
        grid[row][col] is Plain,
        grid[row][col]->Plain_0.cliffs.has(side),
    ensures
        ({
            let plain = grid[row][col]->Plain_0;
            let (x, z) = cell_centre(grid, row, col);
            let face = cliff_face(plain.level as int, side).moved(x, z);
            let first = 4 + 4 * plain.cliffs.count_before(side);
            let cell = cell_mesh(grid, row, col);
            &&& first + 4 <= cell.positions.len()
            &&& cell.positions.subrange(first, first + 4) == face.positions
            &&& cell.normals.subrange(first, first + 4) == face.normals
            &&& cell.uvs.subrange(first, first + 4) == face.uvs
        }),
{
    let plain = grid[row][col]->Plain_0;
    let (x, z) = cell_centre(grid, row, col);
    let level = plain.level as int;
    let face = cliff_face(level, side).moved(x, z);
    let first = 4 + 4 * plain.cliffs.count_before(side);
    let cell = cell_mesh(grid, row, col);
    let top = top_face(grid, row, col, level).moved(x, z);
    let with_top = top.append_if(plain.cliffs.top, cliff_face(level, Side::Top).moved(x, z));
    let with_bottom = with_top.append_if(
        plain.cliffs.bottom,
        cliff_face(level, Side::Bottom).moved(x, z),
    );
    let with_left = with_bottom.append_if(
        plain.cliffs.left,
        cliff_face(level, Side::Left).moved(x, z),
    );
    assert(cell == with_left.append_if(
        plain.cliffs.right,
        cliff_face(level, Side::Right).moved(x, z),
    ));
    assert(top.positions.len() == 4 && top.normals.len() == 4 && top.uvs.len() == 4);
    assert(face.positions.len() == 4 && face.normals.len() == 4 && face.uvs.len() == 4);
    assert(cell.positions.subrange(first, first + 4) =~= face.positions);
    assert(cell.normals.subrange(first, first + 4) =~= face.normals);
    assert(cell.uvs.subrange(first, first + 4) =~= face.uvs);
}

/// The step to a flank of an edge ramp is the step to the left or to the
/// right of a ramp with its low end at `Bottom`, turned with the ramp; and
/// the normals of a flank face point out of the ramp, straight towards the
/// cell on that flank.
pub proof fn lemma_flanks_turn_with_the_ramp(ramp: Ramp)
    requires
        !ramp.bottom_side.is_corner(),
    ensures
        ({
            let turns = ramp.bottom_side.quarter_turns();
            let left = left_flank(ramp.bottom_side);
            let right = right_flank(ramp.bottom_side);
            &&& turn((-1, 0, 0), turns) == (left.1, 0int, left.0)
            &&& turn((1, 0, 0), turns) == (right.1, 0int, right.0)
            &&& left_flank_face(ramp).turned(turns).normals == seq![
                (10 * left.1, 0int, 10 * left.0),
                (10 * left.1, 0int, 10 * left.0),
                (10 * left.1, 0int, 10 * left.0),
            ]
            &&& right_flank_face(ramp).turned(turns).normals == seq![
                (10 * right.1, 0int, 10 * right.0),
                (10 * right.1, 0int, 10 * right.0),
                (10 * right.1, 0int, 10 * right.0),
            ]
        }),
{
    let turns = ramp.bottom_side.quarter_turns();
    let left = left_flank(ramp.bottom_side);
    let right = right_flank(ramp.bottom_side);
    assert(left_flank_face(ramp).turned(turns).normals =~= seq![
        (10 * left.1, 0int, 10 * left.0),
        (10 * left.1, 0int, 10 * left.0),
        (10 * left.1, 0int, 10 * left.0),
    ]);
    assert(right_flank_face(ramp).turned(turns).normals =~= seq![
        (10 * right.1, 0int, 10 * right.0),
        (10 * right.1, 0int, 10 * right.0),
        (10 * right.1, 0int, 10 * right.0),
    ]);
}

/// The mesh of every grid that was read is well formed and faces outward:
/// the ramps of such a grid climb, so none of its faces is turned inside out.
pub proof fn lemma_read_terrain_faces_outward(cells: Seq<Seq<TextCell>>)
    requires
        tiles_outcome(cells) is Ok,
    ensures
        ramps_climb(tiles_outcome(cells)->Ok_0),
        terrain_mesh(tiles_outcome(cells)->Ok_0).well_formed(),
        all_face_outward(terrain_mesh(tiles_outcome(cells)->Ok_0)),
{
    let tiles = tiles_outcome(cells)->Ok_0;
    lemma_tiles_keep_the_shape(cells);
    assert forall|row: int, col: int|
        0 <= row < tiles.len() && 0 <= col < tiles[row].len() implies (#[trigger] tiles[row][col]
        matches Tile::Ramp(ramp) ==> ramp.bottom_level < ramp.top_level) by {
        if tiles[row][col] is Ramp {
            lemma_ramps_climb(cells, row, col);
        }
    }
    lemma_terrain_faces_outward(tiles);
}

/// Reading and building are a function of the text: two runs on one text
/// that both end in a mesh end in buffers that hold the same numbers in the
/// same order.
pub proof fn lemma_same_text_same_mesh(
    text: Seq<char>,
    first_tiles: Vec<Vec<Tile>>,
    second_tiles: Vec<Vec<Tile>>,
    first: MeshBuffers,
    second: MeshBuffers,
)
    requires
        yields(Ok(first_tiles), parse_outcome(text)),
        yields(Ok(second_tiles), parse_outcome(text)),
        buffers_model(first.0@, first.1@, first.2@, first.3@) == terrain_mesh(
            rows_of(first_tiles@),
        ),
        buffers_model(second.0@, second.1@, second.2@, second.3@) == terrain_mesh(
            rows_of(second_tiles@),
        ),
    ensures
        first.0@ == second.0@,
        first.1@ == second.1@,
        first.2@ == second.2@,
        first.3@ == second.3@,
{
    lemma_parse_is_deterministic(text, Ok(first_tiles), Ok(second_tiles));
    lemma_build_is_deterministic(rows_of(first_tiles@), first, second);
}

/// A cliff is recorded only where the terrain drops: the cell beyond the edge
/// is plain, exactly one level lower, and records no cliff on its side of
/// the edge.
pub proof fn lemma_cliff_means_a_drop(cells: Seq<Seq<TextCell>>, row: int, col: int, side: Side)
    requires
        tiles_outcome(cells) is Ok,
        0 <= row < cells.len(),
        0 <= col < cells[row].len(),
        tiles_outcome(cells)->Ok_0[row][col] is Plain,
        tiles_outcome(cells)->Ok_0[row][col]->Plain_0.cliffs.has(side),
    ensures
        !side.is_corner(),
        ({
            let tiles = tiles_outcome(cells)->Ok_0;
            let higher = tiles[row][col]->Plain_0;
            let beyond = cell_of(tiles, row + side.offset().0, col + side.offset().1);
            &&& beyond is Some
            &&& beyond->0 is Plain
            &&& beyond->0->Plain_0.level + 1 == higher.level
            &&& !beyond->0->Plain_0.cliffs.has(side.opposite())
        }),
{
    lemma_tiles_keep_the_shape(cells);
    let level = cells[row][col]->Plain_0;
    assert(drops_on(cells, row, col, level, side));
    lemma_cliff_on_the_higher_cell(cells, row, col, side);
}

/// A grid that was read is one that `build_mesh` takes, where it has a row
/// and a `u32` can number the vertices of its mesh.
pub proof fn lemma_read_terrain_is_buildable(cells: Seq<Seq<TextCell>>)
    requires
        tiles_outcome(cells) is Ok,
        cells.len() > 0,
        vertex_count(tiles_outcome(cells)->Ok_0) <= u32::MAX,
    ensures
        buildable(tiles_outcome(cells)->Ok_0),
{
    lemma_tiles_keep_the_shape(cells);
}

} // verus!
