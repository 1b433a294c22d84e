//! What the mesh of a terrain grid is: the faces of each tile, and the order
//! in which the tiles add them.
//!
//! Lengths are whole numbers of tenths: 25 stands for 2.5. The x axis runs
//! along the columns and the z axis along the rows, so `Top` is towards -z
//! and `Left` towards -x; y points up. A cell measures `QUAD_SIZE` across
//! and one level is `QUAD_HEIGHT` high.

use crate::mesh::MeshModel;
use crate::terrain::{Plain, Ramp, Side, Tile, QUAD_HEIGHT, QUAD_SIZE};
use crate::util::{cell_of, is_rectangular};
use vstd::prelude::*;

verus! {

/// Four corners joined by two triangles, with the texture stretched over them.
pub open spec fn quad(positions: Seq<(int, int, int)>, normals: Seq<(int, int, int)>) -> MeshModel {
    MeshModel {
        positions,
        indices: seq![0, 2, 1, 0, 3, 2],
        normals,
        uvs: seq![(0, 10), (0, 0), (10, 0), (10, 10)],
    }
}

/// Three corners joined by one triangle.
pub open spec fn triangle(
    positions: Seq<(int, int, int)>,
    normals: Seq<(int, int, int)>,
    uvs: Seq<(int, int)>,
) -> MeshModel {
    MeshModel { positions, indices: seq![0, 2, 1], normals, uvs }
}

/// Where the middle of cell (`row`, `col`) lies, as (x, z): the grid is
/// centred on the origin.
pub open spec fn cell_centre(grid: Seq<Seq<Tile>>, row: int, col: int) -> (int, int) {
    (
        QUAD_SIZE * col - (QUAD_SIZE / 2) * grid[0].len() + QUAD_SIZE / 2,
        QUAD_SIZE * row - (QUAD_SIZE / 2) * grid.len() + QUAD_SIZE / 2,
    )
}

/// The edge that a corner shares with the neighbour in the same row.
pub open spec fn beside(corner: Side) -> Side {
    match corner {
        Side::TopLeft | Side::BottomLeft => Side::Left,
        _ => Side::Right,
    }
}

/// The edge that a corner shares with the neighbour in the same column.
pub open spec fn along(corner: Side) -> Side {
    match corner {
        Side::TopLeft | Side::TopRight => Side::Top,
        _ => Side::Bottom,
    }
}

/// Whether a ramp with its low end on `low`, lying on side `at` of a plain
/// tile, lends its normal to that tile's corner `corner`.
///
/// A ramp across an edge of the tile shades both corners of that edge where
/// its low end is the shared edge or the edge across from it. It shades one
/// corner where its low end is an edge or a corner of its own that meets the
/// shared edge there, and nothing where its low end is a corner away from
/// the shared edge. A ramp across a corner of the tile shades that corner,
/// unless it is a corner ramp whose low end is neither the shared corner nor
/// the corner across from it.
pub open spec fn shades(at: Side, low: Side, corner: Side) -> bool {
    match at {
        Side::Bottom => match low {
            Side::Bottom | Side::Top => corner == Side::BottomLeft || corner == Side::BottomRight,
            Side::Left | Side::TopLeft => corner == Side::BottomLeft,
            Side::Right | Side::TopRight => corner == Side::BottomRight,
            _ => false,
        },
        Side::Top => match low {
            Side::Bottom | Side::Top => corner == Side::TopLeft || corner == Side::TopRight,
            Side::Left | Side::BottomLeft => corner == Side::TopLeft,
            Side::Right | Side::BottomRight => corner == Side::TopRight,
            _ => false,
        },
        Side::Left => match low {
            Side::Left | Side::Right => corner == Side::BottomLeft || corner == Side::TopLeft,
            Side::Top | Side::TopRight => corner == Side::TopLeft,
            Side::Bottom | Side::BottomRight => corner == Side::BottomLeft,
            _ => false,
        },
        Side::Right => match low {
            Side::Left | Side::Right => corner == Side::TopRight || corner == Side::BottomRight,
            Side::Top | Side::TopLeft => corner == Side::TopRight,
            Side::Bottom | Side::BottomLeft => corner == Side::BottomRight,
            _ => false,
        },
        _ => corner == at && (!low.is_corner() || low == at || low == at.opposite()),
    }
}

/// A ramp shades only corners of the tile that it touches: the two corners
/// of the edge that it lies across, or the corner that it lies across.
pub proof fn lemma_shaded_corners_touch_the_ramp(at: Side, low: Side, corner: Side)
    requires
        shades(at, low, corner),
    ensures
        corner.is_corner(),
        at == beside(corner) || at == along(corner) || at == corner,
{
}

/// The low side of the tile at (`row`, `col`), where the grid has a ramp there.
pub open spec fn low_side_at(grid: Seq<Seq<Tile>>, row: int, col: int) -> Option<Side> {
    match cell_of(grid, row, col) {
        Some(Tile::Ramp(ramp)) => Some(ramp.bottom_side),
        _ => None,
    }
}

/// The low side of the ramp on side `at` of cell (`row`, `col`), where the
/// grid has a ramp there.
pub open spec fn low_side_beside(grid: Seq<Seq<Tile>>, row: int, col: int, at: Side) -> Option<
    Side,
> {
    low_side_at(grid, row + at.offset().0, col + at.offset().1)
}

/// Whether the neighbour on side `at` of a plain tile, a ramp with its low
/// end on `low` if it is one, shades the tile's corner `corner`.
pub open spec fn is_shaded_from(at: Side, low: Option<Side>, corner: Side) -> bool {
    low is Some && shades(at, low->0, corner)
}

/// The normal at a corner of the top of a plain tile, given the low sides of
/// the ramps, if they are ramps, in the same row, in the same column and
/// across the corner. It points straight up unless one of the three shades the
/// corner; the neighbour in the same row comes before the one in the same
/// column, and both come before the one across the corner.
pub open spec fn blended_normal(
    corner: Side,
    beside_low: Option<Side>,
    along_low: Option<Side>,
    across_low: Option<Side>,
) -> (int, int, int) {
    if is_shaded_from(beside(corner), beside_low, corner) {
        beside_low->0.normal()
    } else if is_shaded_from(along(corner), along_low, corner) {
        along_low->0.normal()
    } else if is_shaded_from(corner, across_low, corner) {
        across_low->0.normal()
    } else {
        (0, 10, 0)
    }
}

/// The normal at one corner of the top of the plain tile at (`row`, `col`).
pub open spec fn corner_normal(grid: Seq<Seq<Tile>>, row: int, col: int, corner: Side) -> (
    int,
    int,
    int,
) {
    blended_normal(
        corner,
        low_side_beside(grid, row, col, beside(corner)),
        low_side_beside(grid, row, col, along(corner)),
        low_side_beside(grid, row, col, corner),
    )
}

/// The top of a plain tile, about the origin. Its corners come in the order
/// bottom left, top left, top right, bottom right.
pub open spec fn top_face(grid: Seq<Seq<Tile>>, row: int, col: int, level: int) -> MeshModel {
    let half = QUAD_SIZE / 2;
    let y = level * QUAD_HEIGHT;
    quad(
        seq![(-half, y, half), (-half, y, -half), (half, y, -half), (half, y, half)],
        seq![
            corner_normal(grid, row, col, Side::BottomLeft),
            corner_normal(grid, row, col, Side::TopLeft),
            corner_normal(grid, row, col, Side::TopRight),
            corner_normal(grid, row, col, Side::BottomRight),
        ],
    )
}

/// The vertical face below edge `side` of a plain tile at `level`, about the
/// origin: it spans the level below the tile and faces outwards.
pub open spec fn cliff_face(level: int, side: Side) -> MeshModel {
    let half = QUAD_SIZE / 2;
    let low = (level - 1) * QUAD_HEIGHT;
    let high = level * QUAD_HEIGHT;
    quad(
        seq![(-half, low, half), (-half, high, half), (half, high, half), (half, low, half)],
        seq![(0, 0, 10), (0, 0, 10), (0, 0, 10), (0, 0, 10)],
    ).turned(side.quarter_turns())
}

/// The faces of a plain tile whose middle is at (`x`, `z`): its top, then one
/// face for each cliff, in the order top, bottom, left, right.
pub open spec fn plain_faces(
    grid: Seq<Seq<Tile>>,
    row: int,
    col: int,
    plain: Plain,
    x: int,
    z: int,
) -> MeshModel {
    let level = plain.level as int;
    top_face(grid, row, col, level).moved(x, z).append_if(
        plain.cliffs.top,
        cliff_face(level, Side::Top).moved(x, z),
    ).append_if(plain.cliffs.bottom, cliff_face(level, Side::Bottom).moved(x, z)).append_if(
        plain.cliffs.left,
        cliff_face(level, Side::Left).moved(x, z),
    ).append_if(plain.cliffs.right, cliff_face(level, Side::Right).moved(x, z))
}

/// The step (rows, columns) from a ramp to the cell on its left flank, for a
/// viewer who stands at the low end and looks up the slope. A corner ramp
/// takes the left flank of the edge that follows it clockwise, seen from
/// above with `Top` away from the viewer.
pub open spec fn left_flank(side: Side) -> (int, int) {
    match side {
        Side::Left | Side::BottomLeft => (-1, 0),
        Side::Top | Side::TopLeft => (0, 1),
        Side::Right | Side::TopRight => (1, 0),
        Side::Bottom | Side::BottomRight => (0, -1),
    }
}

/// The step (rows, columns) from a ramp to the cell on its right flank. A
/// corner ramp takes the right flank of the edge that follows it
/// anticlockwise.
pub open spec fn right_flank(side: Side) -> (int, int) {
    match side {
        Side::Left | Side::TopLeft => (1, 0),
        Side::Top | Side::TopRight => (0, -1),
        Side::Right | Side::BottomRight => (-1, 0),
        Side::Bottom | Side::BottomLeft => (0, 1),
    }
}

/// Whether the tile `step` = (rows, columns) away from (`row`, `col`) is a
/// corner ramp.
pub open spec fn corner_ramp_at(
    grid: Seq<Seq<Tile>>,
    row: int,
    col: int,
    step: (int, int),
) -> bool {
    match cell_of(grid, row + step.0, col + step.1) {
        Some(Tile::Ramp(ramp)) => ramp.bottom_side.is_corner(),
        _ => false,
    }
}

/// Whether the tile `step` = (rows, columns) away from (`row`, `col`) is plain.
pub open spec fn plain_at(grid: Seq<Seq<Tile>>, row: int, col: int, step: (int, int)) -> bool {
    cell_of(grid, row + step.0, col + step.1) matches Some(Tile::Plain(_))
}

/// The sloped face of the ramp at (`row`, `col`), about the origin and with
/// its low end at `Bottom`. A corner ramp raises its far corner only and has
/// fixed normals. An edge ramp tilts as a whole; its normals lean forward,
/// and the two at its upper edge lean sideways too where the tile on that
/// flank is a corner ramp.
pub open spec fn slope_face(grid: Seq<Seq<Tile>>, row: int, col: int, ramp: Ramp) -> MeshModel {
    let half = QUAD_SIZE / 2;
    let low = ramp.bottom_level * QUAD_HEIGHT;
    let high = ramp.top_level * QUAD_HEIGHT;
    if ramp.bottom_side.is_corner() {
        quad(
            seq![(-half, low, half), (-half, low, -half), (half, high, -half), (half, low, half)],
            seq![(-7, 7, 7), (-7, 7, 0), (-7, 7, 7), (0, 7, 7)],
        )
    } else {
        quad(
            seq![(-half, low, half), (-half, high, -half), (half, high, -half), (half, low, half)],
            seq![
                (0, 7, 7),
                if corner_ramp_at(grid, row, col, left_flank(ramp.bottom_side)) {
                    (-7, 7, 7)
                } else {
                    (0, 7, 7)
                },
                if corner_ramp_at(grid, row, col, right_flank(ramp.bottom_side)) {
                    (7, 7, 7)
                } else {
                    (0, 7, 7)
                },
                (0, 7, 7),
            ],
        )
    }
}

/// The triangle that closes the left flank of an edge ramp, about the origin
/// and with the ramp's low end at `Bottom`.
pub open spec fn left_flank_face(ramp: Ramp) -> MeshModel {
    let half = QUAD_SIZE / 2;
    let low = ramp.bottom_level * QUAD_HEIGHT;
    let high = ramp.top_level * QUAD_HEIGHT;
    triangle(
        seq![(-half, low, -half), (-half, high, -half), (-half, low, half)],
        seq![(-10, 0, 0), (-10, 0, 0), (-10, 0, 0)],
        seq![(0, 10), (0, 0), (10, 10)],
    )
}

/// The triangle that closes the right flank of an edge ramp, about the
/// origin and with the ramp's low end at `Bottom`.
pub open spec fn right_flank_face(ramp: Ramp) -> MeshModel {
    let half = QUAD_SIZE / 2;
    let low = ramp.bottom_level * QUAD_HEIGHT;
    let high = ramp.top_level * QUAD_HEIGHT;
    triangle(
        seq![(half, low, half), (half, high, -half), (half, low, -half)],
        seq![(10, 0, 0), (10, 0, 0), (10, 0, 0)],
        seq![(0, 10), (10, 0), (10, 10)],
    )
}

/// Whether the ramp at (`row`, `col`) gets a face on its left flank: it is an
/// edge ramp and the tile on that flank is plain.
pub open spec fn has_left_flank_face(grid: Seq<Seq<Tile>>, row: int, col: int, ramp: Ramp) -> bool {
    !ramp.bottom_side.is_corner() && plain_at(grid, row, col, left_flank(ramp.bottom_side))
}

/// Whether the ramp at (`row`, `col`) gets a face on its right flank: it is
/// an edge ramp and the tile on that flank is plain.
pub open spec fn has_right_flank_face(
    grid: Seq<Seq<Tile>>,
    row: int,
    col: int,
    ramp: Ramp,
) -> bool {
    !ramp.bottom_side.is_corner() && plain_at(grid, row, col, right_flank(ramp.bottom_side))
}

/// The number of flank faces that the ramp at (`row`, `col`) gets.
pub open spec fn flank_face_count(grid: Seq<Seq<Tile>>, row: int, col: int, ramp: Ramp) -> int {
    (if has_left_flank_face(grid, row, col, ramp) {
        1int
    } else {
        0
    }) + (if has_right_flank_face(grid, row, col, ramp) {
        1int
    } else {
        0
    })
}

/// The faces of a ramp whose middle is at (`x`, `z`): its sloped face, then
/// the left and the right flank face where it has them, all turned to the
/// ramp's low side.
pub open spec fn ramp_faces(
    grid: Seq<Seq<Tile>>,
    row: int,
    col: int,
    ramp: Ramp,
    x: int,
    z: int,
) -> MeshModel {
    let turns = ramp.bottom_side.quarter_turns();
    slope_face(grid, row, col, ramp).turned(turns).moved(x, z).append_if(
        has_left_flank_face(grid, row, col, ramp),
        left_flank_face(ramp).turned(turns).moved(x, z),
    ).append_if(
        has_right_flank_face(grid, row, col, ramp),
        right_flank_face(ramp).turned(turns).moved(x, z),
    )
}

/// What the tile at (`row`, `col`) adds to the mesh: its faces, about the
/// middle of its cell.
pub open spec fn cell_mesh(grid: Seq<Seq<Tile>>, row: int, col: int) -> MeshModel {
    let (x, z) = cell_centre(grid, row, col);
    match grid[row][col] {
        Tile::Plain(plain) => plain_faces(grid, row, col, plain, x, z),
        Tile::Ramp(ramp) => ramp_faces(grid, row, col, ramp, x, z),
    }
}

/// The mesh of the cells that come before (`row`, `col`): every earlier row
/// in full, then the cells of row `row` to the left of `col`.
pub open spec fn mesh_before(grid: Seq<Seq<Tile>>, row: int, col: int) -> MeshModel
    decreases row, col,
{
    if col > 0 {
        mesh_before(grid, row, col - 1).append(cell_mesh(grid, row, col - 1))
    } else if row > 0 {
        mesh_before(grid, row - 1, grid[row - 1].len() as int)
    } else {
        MeshModel::empty()
    }
}

/// The mesh of a terrain grid: what its tiles add, row by row and, within a
/// row, column by column.
pub open spec fn terrain_mesh(grid: Seq<Seq<Tile>>) -> MeshModel {
    mesh_before(grid, grid.len() as int, 0)
}

/// The number of vertices that the tile at (`row`, `col`) adds to the mesh:
/// four for its top or slope, four for each cliff, three for each flank face.
pub open spec fn cell_vertex_count(grid: Seq<Seq<Tile>>, row: int, col: int) -> int {
    match grid[row][col] {
        Tile::Plain(plain) => 4 + 4 * plain.cliffs.count(),
        Tile::Ramp(ramp) => 4 + 3 * flank_face_count(grid, row, col, ramp),
    }
}

/// The sum of `cell_vertex_count` over the cells that come before (`row`, `col`).
pub open spec fn vertex_count_before(grid: Seq<Seq<Tile>>, row: int, col: int) -> int
    decreases row, col,
{
    if col > 0 {
        vertex_count_before(grid, row, col - 1) + cell_vertex_count(grid, row, col - 1)
    } else if row > 0 {
        vertex_count_before(grid, row - 1, grid[row - 1].len() as int)
    } else {
        0
    }
}

/// The sum of `cell_vertex_count` over the cells of a grid.
pub open spec fn vertex_count(grid: Seq<Seq<Tile>>) -> int {
    vertex_count_before(grid, grid.len() as int, 0)
}

/// A tile adds as many vertices as `cell_vertex_count` says: between 4 and 20.
pub proof fn lemma_cell_vertex_count(grid: Seq<Seq<Tile>>, row: int, col: int)
    ensures
        cell_mesh(grid, row, col).positions.len() == cell_vertex_count(grid, row, col),
        4 <= cell_vertex_count(grid, row, col) <= 20,
{
}

/// The mesh of the cells before (`row`, `col`) has as many vertices as those
/// cells add, one by one.
pub proof fn lemma_vertex_count_before(grid: Seq<Seq<Tile>>, row: int, col: int)
    requires
        0 <= row,
        0 <= col,
    ensures
        mesh_before(grid, row, col).positions.len() == vertex_count_before(grid, row, col),
        vertex_count_before(grid, row, col) >= 0,
    decreases row, col,
{
    if col > 0 {
        lemma_vertex_count_before(grid, row, col - 1);
        lemma_cell_vertex_count(grid, row, col - 1);
    } else if row > 0 {
        lemma_vertex_count_before(grid, row - 1, grid[row - 1].len() as int);
    }
}

/// The cells before any position add no more vertices than the whole grid.
pub proof fn lemma_count_grows(grid: Seq<Seq<Tile>>, row: int, col: int)
    requires
        0 <= row <= grid.len(),
        0 <= col,
        row < grid.len() ==> col <= grid[row].len(),
        row == grid.len() ==> col == 0,
    ensures
        vertex_count_before(grid, row, col) <= vertex_count(grid),
    decreases
            grid.len() - row,
            (if row < grid.len() {
                grid[row].len() - col
            } else {
                0
            }),
{
    if row < grid.len() {
        if col < grid[row].len() {
            lemma_count_grows(grid, row, col + 1);
            lemma_cell_vertex_count(grid, row, col);
        } else {
            lemma_count_grows(grid, row + 1, 0);
        }
    }
}

/// In a rectangular grid, the cells before (`row`, `col`) add at least four
/// vertices each.
pub proof fn lemma_count_at_least(grid: Seq<Seq<Tile>>, row: int, col: int)
    requires
        is_rectangular(grid),
        0 <= row <= grid.len(),
        0 <= col,
        row < grid.len() ==> col <= grid[0].len(),
        row == grid.len() ==> col == 0,
    ensures
        vertex_count_before(grid, row, col) >= 4 * (row * grid[0].len() + col),
    decreases row, col,
{
    let width = grid[0].len() as int;
    if col > 0 {
        lemma_count_at_least(grid, row, col - 1);
        lemma_cell_vertex_count(grid, row, col - 1);
    } else if row > 0 {
        lemma_count_at_least(grid, row - 1, width);
        assert((row - 1) * width + width == row * width) by (nonlinear_arith);
    } else {
        assert(0 * width == 0);
    }
}

} // verus!
