//! The tiles of a terrain grid, and the builder that turns a grid into a
//! triangle mesh.

use crate::facing::{all_face_outward, lemma_terrain_faces_outward, ramps_climb};
use crate::geometry::{
    blended_normal, cell_mesh, cell_vertex_count, cliff_face, corner_normal,
    flank_face_count, left_flank, left_flank_face, lemma_cell_vertex_count, lemma_count_at_least,
    lemma_count_grows, lemma_vertex_count_before, low_side_at, mesh_before, plain_faces, quad,
    ramp_faces, right_flank, right_flank_face, shades, slope_face, terrain_mesh, triangle,
    vertex_count, vertex_count_before,
};
use crate::mesh::{
    buffers_model, slide, slide_all, turn, turn_all, uvs_model, vertex_model, vertices_model, Mesh,
    MeshBuffers, Uv, Vertex,
};
use crate::util::{is_rectangular, rows_of, MatrixHelper};
use vstd::prelude::*;

verus! {

/// Width and depth of a cell, in tenths of a world unit: 5.0.
pub const QUAD_SIZE: i64 = 50;

/// Height of one elevation level, in tenths of a world unit: 5.0.
pub const QUAD_HEIGHT: i64 = 50;

/// The largest distance from the origin, along x or z, at which the builder
/// places the middle of a cell.
const REACH: i64 = 0x1_0000_0000_0000;

/// One of the four edges or four corners of a cell. `Top` is the side of the
/// previous row, `Left` the side of the previous column.
#[derive(Debug, PartialEq, Eq, Copy, Clone, Structural)]
pub enum Side {
    Left,
    Top,
    Right,
    Bottom,
    TopLeft,
    TopRight,
    BottomLeft,
    BottomRight,
}

impl Side {
    /// Whether this side is a corner.
    pub open spec fn is_corner(self) -> bool {
        self == Side::TopLeft || self == Side::TopRight || self == Side::BottomLeft || self
            == Side::BottomRight
    }

    /// The step (rows, columns) from a cell to its neighbour on this side.
    pub open spec fn offset(self) -> (int, int) {
        match self {
            Side::Left => (0, -1),
            Side::Top => (-1, 0),
            Side::Right => (0, 1),
            Side::Bottom => (1, 0),
            Side::TopLeft => (-1, -1),
            Side::TopRight => (-1, 1),
            Side::BottomLeft => (1, -1),
            Side::BottomRight => (1, 1),
        }
    }

    /// The side across the cell.
    pub open spec fn opposite(self) -> Side {
        match self {
            Side::Left => Side::Right,
            Side::Top => Side::Bottom,
            Side::Right => Side::Left,
            Side::Bottom => Side::Top,
            Side::TopLeft => Side::BottomRight,
            Side::TopRight => Side::BottomLeft,
            Side::BottomLeft => Side::TopRight,
            Side::BottomRight => Side::TopLeft,
        }
    }

    /// The direction (x, z) in which this side lies, seen from the middle of
    /// the cell: columns run along x, rows along z.
    pub open spec fn direction(self) -> (int, int) {
        (self.offset().1, self.offset().0)
    }

    /// The shading normal of a ramp whose low end is on this side: it leans
    /// from the vertical towards the low end, by 0.7 on each axis involved.
    pub open spec fn normal(self) -> (int, int, int) {
        (7 * self.direction().0, 7, 7 * self.direction().1)
    }

    /// The number of quarter turns that carries geometry drawn for a low end
    /// at `Bottom` to a low end on this side. A corner turns with the edge
    /// that follows it anticlockwise, seen from above with `Top` away from
    /// the viewer.
    pub open spec fn quarter_turns(self) -> int {
        match self {
            Side::Bottom | Side::BottomLeft => 0,
            Side::Right | Side::BottomRight => 1,
            Side::Top | Side::TopRight => 2,
            Side::Left | Side::TopLeft => 3,
        }
    }

    /// The step (rows, columns) from a cell to its neighbour on this side.
    pub fn step(&self) -> (step: (i32, i32))
        ensures
            (step.0 as int, step.1 as int) == self.offset(),
    {
        match self {
            Side::Left => (0, -1),
            Side::Top => (-1, 0),
            Side::Right => (0, 1),
            Side::Bottom => (1, 0),
            Side::TopLeft => (-1, -1),
            Side::TopRight => (-1, 1),
            Side::BottomLeft => (1, -1),
            Side::BottomRight => (1, 1),
        }
    }

    /// The shading normal of a ramp whose low end is on this side.
    pub fn ramp_normal(&self) -> (normal: Vertex)
        ensures
            vertex_model(normal) == self.normal(),
    {
        match self {
            Side::Left => (-7, 7, 0),
            Side::Top => (0, 7, -7),
            Side::Right => (7, 7, 0),
            Side::Bottom => (0, 7, 7),
            Side::TopLeft => (-7, 7, -7),
            Side::TopRight => (7, 7, -7),
            Side::BottomLeft => (-7, 7, 7),
            Side::BottomRight => (7, 7, 7),
        }
    }
}

/// The edges of a plain tile that drop to a neighbour one level lower.
#[derive(Debug, PartialEq, Eq, Copy, Clone, Structural)]
pub struct Cliffs {
    pub top: bool,
    pub bottom: bool,
    pub left: bool,
    pub right: bool,
}

impl Cliffs {
    /// Whether a cliff is recorded on `side`. No cliff is ever recorded on a corner.
    pub open spec fn has(self, side: Side) -> bool {
        match side {
            Side::Top => self.top,
            Side::Bottom => self.bottom,
            Side::Left => self.left,
            Side::Right => self.right,
            _ => false,
        }
    }

    /// The number of cliffs recorded on the edges that come before `side`
    /// in the order top, bottom, left, right.
    pub open spec fn count_before(self, side: Side) -> int {
        (if self.top && side != Side::Top {
            1int
        } else {
            0
        }) + (if self.bottom && (side == Side::Left || side == Side::Right) {
            1int
        } else {
            0
        }) + (if self.left && side == Side::Right {
            1int
        } else {
            0
        })
    }

    /// The number of cliffs recorded.
    pub open spec fn count(self) -> int {
        (if self.top {
            1int
        } else {
            0
        }) + (if self.bottom {
            1int
        } else {
            0
        }) + (if self.left {
            1int
        } else {
            0
        }) + (if self.right {
            1int
        } else {
            0
        })
    }
}

/// A flat tile at one elevation level.
#[derive(Debug, PartialEq, Eq, Copy, Clone, Structural)]
pub struct Plain {
    pub level: u32,
    pub cliffs: Cliffs,
}

/// A sloped tile that joins two levels; `bottom_side` is its low edge or corner.
#[derive(Debug, PartialEq, Eq, Copy, Clone, Structural)]
pub struct Ramp {
    pub bottom_level: u32,
    pub top_level: u32,
    pub bottom_side: Side,
}

/// One cell of the terrain grid.
#[derive(Debug, PartialEq, Eq, Copy, Clone, Structural)]
pub enum Tile {
    Plain(Plain),
    Ramp(Ramp),
}

impl Tile {
    /// The ramp, where this tile is one.
    pub fn as_ramp(&self) -> (found: Option<&Ramp>)
        ensures
            match *self {
                Tile::Ramp(ramp) => found == Some(&ramp),
                Tile::Plain(_) => found is None,
            },
    {
        match self {
            Tile::Ramp(ramp) => Some(ramp),
            _ => None,
        }
    }

    /// The plain tile, where this tile is one.
    pub fn as_plain(&self) -> (found: Option<&Plain>)
        ensures
            match *self {
                Tile::Plain(plain) => found == Some(&plain),
                Tile::Ramp(_) => found is None,
            },
    {
        match self {
            Tile::Plain(plain) => Some(plain),
            _ => None,
        }
    }
}

/// Whether a ramp with its low end on `side` is a corner ramp.
pub fn is_corner_ramp(side: &Side) -> (corner: bool)
    ensures
        corner == side.is_corner(),
{
    match side {
        Side::Left => false,
        Side::Top => false,
        Side::Right => false,
        Side::Bottom => false,
        Side::TopLeft => true,
        Side::TopRight => true,
        Side::BottomLeft => true,
        Side::BottomRight => true,
    }
}

/// The step (rows, columns) from a ramp with its low end on `ramp_side` to
/// the cell on its left flank.
pub fn ramp_left_shift(ramp_side: Side) -> (shift: (i32, i32))
    ensures
        (shift.0 as int, shift.1 as int) == left_flank(ramp_side),
{
    match ramp_side {
        Side::Left => (-1, 0),
        Side::Top => (0, 1),
        Side::Right => (1, 0),
        Side::Bottom => (0, -1),
        Side::TopLeft => (0, 1),
        Side::TopRight => (1, 0),
        Side::BottomLeft => (-1, 0),
        Side::BottomRight => (0, -1),
    }
}

/// The step (rows, columns) from a ramp with its low end on `ramp_side` to
/// the cell on its right flank.
pub fn ramp_right_shift(ramp_side: Side) -> (shift: (i32, i32))
    ensures
        (shift.0 as int, shift.1 as int) == right_flank(ramp_side),
{
    match ramp_side {
        Side::Left => (1, 0),
        Side::Top => (0, -1),
        Side::Right => (-1, 0),
        Side::Bottom => (0, 1),
        Side::TopLeft => (1, 0),
        Side::TopRight => (0, -1),
        Side::BottomLeft => (0, 1),
        Side::BottomRight => (-1, 0),
    }
}

/// Turns points about the vertical axis, from a low end at `Bottom` to a low
/// end on `side`.
pub fn rotate_vertices(points: &Vec<Vertex>, side: &Side) -> (turned: Vec<Vertex>)
    requires
        forall|i: int|
            0 <= i < points.len() ==> (#[trigger] points[i]).0 > i64::MIN && points[i].2 > i64::MIN,
    ensures
        vertices_model(turned@) == turn_all(vertices_model(points@), side.quarter_turns()),
        turned.len() == points.len(),
{
    let turns: u8 = match side {
        Side::Left => 3,
        Side::Top => 2,
        Side::Right => 1,
        Side::Bottom => 0,
        Side::TopLeft => 3,
        Side::TopRight => 2,
        Side::BottomLeft => 0,
        Side::BottomRight => 1,
    };
    let mut turned: Vec<Vertex> = Vec::new();
    let mut i: usize = 0;
    while i < points.len()
        invariant
            i <= points.len(),
            turns == side.quarter_turns(),
            turned.len() == i,
            forall|j: int|
                0 <= j < points.len() ==> (#[trigger] points[j]).0 > i64::MIN && points[j].2
                    > i64::MIN,
            forall|j: int|
                0 <= j < i ==> vertex_model(#[trigger] turned[j]) == turn(
                    vertex_model(points[j]),
                    turns as int,
                ),
        decreases points.len() - i,
    {
        let (x, y, z) = points[i];
        let point: Vertex = if turns == 1 {
            (z, y, -x)
        } else if turns == 2 {
            (-x, y, -z)
        } else if turns == 3 {
            (-z, y, x)
        } else {
            (x, y, z)
        };
        turned.push(point);
        i += 1;
    }
    assert(vertices_model(turned@) =~= turn_all(vertices_model(points@), side.quarter_turns()));
    turned
}

/// Moves points in the horizontal plane.
pub fn shift_vertices(points: &Vec<Vertex>, x_shift: i64, z_shift: i64) -> (shifted: Vec<Vertex>)
    requires
        forall|i: int|
            0 <= i < points.len() ==> i64::MIN <= (#[trigger] points[i]).0 + x_shift <= i64::MAX
                && i64::MIN <= points[i].2 + z_shift <= i64::MAX,
    ensures
        vertices_model(shifted@) == slide_all(
            vertices_model(points@),
            x_shift as int,
            z_shift as int,
        ),
        shifted.len() == points.len(),
{
    let mut shifted: Vec<Vertex> = Vec::new();
    let mut i: usize = 0;
    while i < points.len()
        invariant
            i <= points.len(),
            shifted.len() == i,
            forall|j: int|
                0 <= j < points.len() ==> i64::MIN <= (#[trigger] points[j]).0 + x_shift
                    <= i64::MAX && i64::MIN <= points[j].2 + z_shift <= i64::MAX,
            forall|j: int|
                0 <= j < i ==> vertex_model(#[trigger] shifted[j]) == slide(
                    vertex_model(points[j]),
                    x_shift as int,
                    z_shift as int,
                ),
        decreases points.len() - i,
    {
        let (x, y, z) = points[i];
        shifted.push((x + x_shift, y, z + z_shift));
        i += 1;
    }
    assert(vertices_model(shifted@) =~= slide_all(
        vertices_model(points@),
        x_shift as int,
        z_shift as int,
    ));
    shifted
}

/// A quad with the given corners and normals.
fn quad_buffers(positions: Vec<Vertex>, normals: Vec<Vertex>) -> (face: Mesh)
    requires
        positions.len() == 4,
        normals.len() == 4,
    ensures
        face@ == quad(vertices_model(positions@), vertices_model(normals@)),
        face@.well_formed(),
{
    let indices: Vec<u32> = vec![0, 2, 1, 0, 3, 2];
    let uvs: Vec<Uv> = vec![(0, 10), (0, 0), (10, 0), (10, 10)];
    let face = Mesh { positions, indices, normals, uvs };
    assert(face@.indices =~= seq![0, 2, 1, 0, 3, 2]);
    assert(face@.uvs =~= seq![(0, 10), (0, 0), (10, 0), (10, 10)]);
    face
}

/// A triangle with the given corners, normals and texture coordinates.
fn triangle_buffers(positions: Vec<Vertex>, normals: Vec<Vertex>, uvs: Vec<Uv>) -> (face: Mesh)
    requires
        positions.len() == 3,
        normals.len() == 3,
        uvs.len() == 3,
    ensures
        face@ == triangle(
            vertices_model(positions@),
            vertices_model(normals@),
            uvs_model(uvs@),
        ),
        face@.well_formed(),
{
    let indices: Vec<u32> = vec![0, 2, 1];
    let face = Mesh { positions, indices, normals, uvs };
    assert(face@.indices =~= seq![0, 2, 1]);
    face
}

/// Turns points drawn about the origin to `side` and moves them to a cell
/// whose middle is at (`shift_x`, `shift_z`).
fn place(points: &Vec<Vertex>, side: &Side, shift_x: i64, shift_z: i64) -> (placed: Vec<Vertex>)
    requires
        -REACH <= shift_x <= REACH,
        -REACH <= shift_z <= REACH,
        forall|i: int|
            0 <= i < points.len() ==> -REACH <= (#[trigger] points[i]).0 <= REACH && -REACH
                <= points[i].2 <= REACH,
    ensures
        vertices_model(placed@) == slide_all(
            turn_all(vertices_model(points@), side.quarter_turns()),
            shift_x as int,
            shift_z as int,
        ),
        placed.len() == points.len(),
{
    let rotated_vertices = rotate_vertices(points, side);
    proof {
        let turned = turn_all(vertices_model(points@), side.quarter_turns());
        assert forall|i: int| 0 <= i < rotated_vertices.len() implies -REACH <= (
        #[trigger] rotated_vertices[i]).0 <= REACH && -REACH <= rotated_vertices[i].2
            <= REACH by {
            assert(vertices_model(rotated_vertices@)[i] == vertex_model(rotated_vertices[i]));
            assert(turned[i] == turn(vertex_model(points[i]), side.quarter_turns()));
            assert(-REACH <= points[i].0 <= REACH);
        }
    }
    shift_vertices(&rotated_vertices, shift_x, shift_z)
}

/// The face below edge `side` of a plain tile at `level` whose middle is at
/// (`shift_x`, `shift_z`).
fn cliff_buffers(level: u32, side: Side, shift_x: i64, shift_z: i64) -> (face: Mesh)
    requires
        -REACH <= shift_x <= REACH,
        -REACH <= shift_z <= REACH,
    ensures
        face@ == cliff_face(level as int, side).moved(shift_x as int, shift_z as int),
        face@.well_formed(),
        face@.positions.len() == 4,
{
    let half = QUAD_SIZE / 2;
    let back = -half;
    let low = (level as i64 - 1) * QUAD_HEIGHT;
    let high = level as i64 * QUAD_HEIGHT;
    let cliff_vertices: Vec<Vertex> = vec![
        (back, low, half),
        (back, high, half),
        (half, high, half),
        (half, low, half),
    ];
    let outward: Vec<Vertex> = vec![(0, 0, 10), (0, 0, 10), (0, 0, 10), (0, 0, 10)];
    proof {
        let flat = quad(
            seq![
                (back as int, low as int, half as int),
                (back as int, high as int, half as int),
                (half as int, high as int, half as int),
                (half as int, low as int, half as int),
            ],
            seq![(0, 0, 10), (0, 0, 10), (0, 0, 10), (0, 0, 10)],
        );
        assert(vertices_model(cliff_vertices@) =~= flat.positions);
        assert(vertices_model(outward@) =~= flat.normals);
    }
    let shifted_vertices = place(&cliff_vertices, &side, shift_x, shift_z);
    let normals = rotate_vertices(&outward, &side);
    quad_buffers(shifted_vertices, normals)
}

/// The low side of the ramp at (`row`, `col`), if there is a ramp.
fn ramp_side_at(tiles: &Vec<Vec<Tile>>, row: i32, col: i32) -> (low: Option<Side>)
    ensures
        low == low_side_at(rows_of(tiles@), row as int, col as int),
{
    match tiles.cell(row, col) {
        Some(tile) => match tile.as_ramp() {
            Some(ramp) => Some(ramp.bottom_side),
            None => None,
        },
        None => None,
    }
}

/// Whether a ramp with its low end on `low`, on side `at` of a plain tile,
/// lends its normal to the tile's corner `corner`.
fn lends_normal(at: Side, low: Side, corner: Side) -> (lends: bool)
    ensures
        lends == shades(at, low, corner),
{
    let on_left = corner == Side::BottomLeft || corner == Side::TopLeft;
    let on_top = corner == Side::TopLeft || corner == Side::TopRight;
    let on_right = corner == Side::TopRight || corner == Side::BottomRight;
    let on_bottom = corner == Side::BottomLeft || corner == Side::BottomRight;
    match at {
        Side::Bottom => match low {
            Side::Bottom | Side::Top => on_bottom,
            Side::Left | Side::TopLeft => corner == Side::BottomLeft,
            Side::Right | Side::TopRight => corner == Side::BottomRight,
            _ => false,
        },
        Side::Top => match low {
            Side::Bottom | Side::Top => on_top,
            Side::Left | Side::BottomLeft => corner == Side::TopLeft,
            Side::Right | Side::BottomRight => corner == Side::TopRight,
            _ => false,
        },
        Side::Left => match low {
            Side::Left | Side::Right => on_left,
            Side::Top | Side::TopRight => corner == Side::TopLeft,
            Side::Bottom | Side::BottomRight => corner == Side::BottomLeft,
            _ => false,
        },
        Side::Right => match low {
            Side::Left | Side::Right => on_right,
            Side::Top | Side::TopLeft => corner == Side::TopRight,
            Side::Bottom | Side::BottomLeft => corner == Side::BottomRight,
            _ => false,
        },
        Side::TopLeft => corner == Side::TopLeft && (!is_corner_ramp(&low) || low == Side::TopLeft
            || low == Side::BottomRight),
        Side::TopRight => corner == Side::TopRight && (!is_corner_ramp(&low) || low
            == Side::TopRight || low == Side::BottomLeft),
        Side::BottomLeft => corner == Side::BottomLeft && (!is_corner_ramp(&low) || low
            == Side::BottomLeft || low == Side::TopRight),
        Side::BottomRight => corner == Side::BottomRight && (!is_corner_ramp(&low) || low
            == Side::BottomRight || low == Side::TopLeft),
    }
}

/// The normal at `corner` of the top of a plain tile, given the low sides of
/// the ramps in the same row, in the same column and across the corner.
fn shaded_normal(
    corner: Side,
    beside_low: Option<Side>,
    along_low: Option<Side>,
    across_low: Option<Side>,
) -> (normal: Vertex)
    requires
        corner.is_corner(),
    ensures
        vertex_model(normal) == blended_normal(corner, beside_low, along_low, across_low),
{
    let beside_edge = match corner {
        Side::TopLeft | Side::BottomLeft => Side::Left,
        _ => Side::Right,
    };
    let along_edge = match corner {
        Side::TopLeft | Side::TopRight => Side::Top,
        _ => Side::Bottom,
    };
    if let Some(low) = beside_low {
        if lends_normal(beside_edge, low, corner) {
            return low.ramp_normal();
        }
    }
    if let Some(low) = along_low {
        if lends_normal(along_edge, low, corner) {
            return low.ramp_normal();
        }
    }
    if let Some(low) = across_low {
        if lends_normal(corner, low, corner) {
            return low.ramp_normal();
        }
    }
    (0, 10, 0)
}

/// The normals at the four corners of the top of the plain tile at
/// (`row_ind`, `col_ind`): bottom left, top left, top right, bottom right.
fn plain_normals(tiles: &Vec<Vec<Tile>>, row_ind: i32, col_ind: i32) -> (normals: Vec<Vertex>)
    requires
        0 <= row_ind < i32::MAX,
        0 <= col_ind < i32::MAX,
    ensures
        vertices_model(normals@) == seq![
            corner_normal(rows_of(tiles@), row_ind as int, col_ind as int, Side::BottomLeft),
            corner_normal(rows_of(tiles@), row_ind as int, col_ind as int, Side::TopLeft),
            corner_normal(rows_of(tiles@), row_ind as int, col_ind as int, Side::TopRight),
            corner_normal(rows_of(tiles@), row_ind as int, col_ind as int, Side::BottomRight),
        ],
{
    let below = ramp_side_at(tiles, row_ind + 1, col_ind);
    let above = ramp_side_at(tiles, row_ind - 1, col_ind);
    let left = ramp_side_at(tiles, row_ind, col_ind - 1);
    let right = ramp_side_at(tiles, row_ind, col_ind + 1);
    let below_left = ramp_side_at(tiles, row_ind + 1, col_ind - 1);
    let above_left = ramp_side_at(tiles, row_ind - 1, col_ind - 1);
    let above_right = ramp_side_at(tiles, row_ind - 1, col_ind + 1);
    let below_right = ramp_side_at(tiles, row_ind + 1, col_ind + 1);

    let normals: Vec<Vertex> = vec![
        shaded_normal(Side::BottomLeft, left, below, below_left),
        shaded_normal(Side::TopLeft, left, above, above_left),
        shaded_normal(Side::TopRight, right, above, above_right),
        shaded_normal(Side::BottomRight, right, below, below_right),
    ];
    assert(vertices_model(normals@) =~= seq![
        corner_normal(rows_of(tiles@), row_ind as int, col_ind as int, Side::BottomLeft),
        corner_normal(rows_of(tiles@), row_ind as int, col_ind as int, Side::TopLeft),
        corner_normal(rows_of(tiles@), row_ind as int, col_ind as int, Side::TopRight),
        corner_normal(rows_of(tiles@), row_ind as int, col_ind as int, Side::BottomRight),
    ]);
    normals
}

/// The faces of the plain tile at (`row`, `col`), whose middle is at
/// (`shift_x`, `shift_z`).
fn plain_buffers(
    tiles: &Vec<Vec<Tile>>,
    row: usize,
    col: usize,
    plain: &Plain,
    shift_x: i64,
    shift_z: i64,
) -> (cell: Mesh)
    requires
        row < i32::MAX,
        col < i32::MAX,
        -REACH <= shift_x <= REACH,
        -REACH <= shift_z <= REACH,
    ensures
        cell@ == plain_faces(
            rows_of(tiles@),
            row as int,
            col as int,
            *plain,
            shift_x as int,
            shift_z as int,
        ),
        cell@.well_formed(),
        cell@.positions.len() == 4 + 4 * plain.cliffs.count(),
{
    let half = QUAD_SIZE / 2;
    let back = -half;
    let height = plain.level as i64 * QUAD_HEIGHT;
    let plain_vertices: Vec<Vertex> = vec![
        (back, height, half),
        (back, height, back),
        (half, height, back),
        (half, height, half),
    ];
    let shifted_plain_vertices = shift_vertices(&plain_vertices, shift_x, shift_z);
    let normals = plain_normals(tiles, row as i32, col as i32);
    proof {
        assert(vertices_model(plain_vertices@) =~= seq![
            (back as int, height as int, half as int),
            (back as int, height as int, back as int),
            (half as int, height as int, back as int),
            (half as int, height as int, half as int),
        ]);
        assert(vertices_model(shifted_plain_vertices@).len() == 4);
        assert(vertices_model(normals@).len() == 4);
    }
    let mut cell = quad_buffers(shifted_plain_vertices, normals);
    if plain.cliffs.top {
        let face = cliff_buffers(plain.level, Side::Top, shift_x, shift_z);
        cell.append(&face);
    }
    if plain.cliffs.bottom {
        let face = cliff_buffers(plain.level, Side::Bottom, shift_x, shift_z);
        cell.append(&face);
    }
    if plain.cliffs.left {
        let face = cliff_buffers(plain.level, Side::Left, shift_x, shift_z);
        cell.append(&face);
    }
    if plain.cliffs.right {
        let face = cliff_buffers(plain.level, Side::Right, shift_x, shift_z);
        cell.append(&face);
    }
    cell
}

/// The faces of the ramp at (`row`, `col`), whose middle is at (`shift_x`,
/// `shift_z`).
fn ramp_buffers(
    tiles: &Vec<Vec<Tile>>,
    row: usize,
    col: usize,
    ramp: &Ramp,
    shift_x: i64,
    shift_z: i64,
) -> (cell: Mesh)
    requires
        row < i32::MAX,
        col < i32::MAX,
        -REACH <= shift_x <= REACH,
        -REACH <= shift_z <= REACH,
    ensures
        cell@ == ramp_faces(
            rows_of(tiles@),
            row as int,
            col as int,
            *ramp,
            shift_x as int,
            shift_z as int,
        ),
        cell@.well_formed(),
        cell@.positions.len() == 4 + 3 * flank_face_count(
            rows_of(tiles@),
            row as int,
            col as int,
            *ramp,
        ),
{
    let half = QUAD_SIZE / 2;
    let back = -half;
    let low = ramp.bottom_level as i64 * QUAD_HEIGHT;
    let high = ramp.top_level as i64 * QUAD_HEIGHT;
    let bottom_side = ramp.bottom_side;
    let corner = is_corner_ramp(&bottom_side);
    let ghost grid = rows_of(tiles@);

    let ramp_vertices: Vec<Vertex> = if corner {
        vec![(back, low, half), (back, low, back), (half, high, back), (half, low, half)]
    } else {
        vec![(back, low, half), (back, high, back), (half, high, back), (half, low, half)]
    };
    let left_neighbor = tiles.cell_relative(row as i32, col as i32, ramp_left_shift(bottom_side));
    let right_neighbor = tiles.cell_relative(
        row as i32,
        col as i32,
        ramp_right_shift(bottom_side),
    );
    let ramp_normals: Vec<Vertex> = if corner {
        vec![(-7, 7, 7), (-7, 7, 0), (-7, 7, 7), (0, 7, 7)]
    } else {
        let top_left_norm: Vertex = match left_neighbor {
            Some(Tile::Ramp(flank)) if is_corner_ramp(&flank.bottom_side) => (-7, 7, 7),
            _ => (0, 7, 7),
        };
        let top_right_norm: Vertex = match right_neighbor {
            Some(Tile::Ramp(flank)) if is_corner_ramp(&flank.bottom_side) => (7, 7, 7),
            _ => (0, 7, 7),
        };
        vec![(0, 7, 7), top_left_norm, top_right_norm, (0, 7, 7)]
    };
    proof {
        let slope = slope_face(grid, row as int, col as int, *ramp);
        assert(vertices_model(ramp_vertices@) =~= slope.positions);
        assert(vertices_model(ramp_normals@) =~= slope.normals);
    }
    let shifted_vertices = place(&ramp_vertices, &bottom_side, shift_x, shift_z);
    let normals = rotate_vertices(&ramp_normals, &bottom_side);
    let mut cell = quad_buffers(shifted_vertices, normals);

    let left_is_plain = match left_neighbor {
        Some(Tile::Plain(_)) => true,
        _ => false,
    };
    if !corner && left_is_plain {
        let cliff_vertices: Vec<Vertex> = vec![
            (back, low, back),
            (back, high, back),
            (back, low, half),
        ];
        let outward: Vec<Vertex> = vec![(-10, 0, 0), (-10, 0, 0), (-10, 0, 0)];
        let uvs: Vec<Uv> = vec![(0, 10), (0, 0), (10, 10)];
        proof {
            let flank = left_flank_face(*ramp);
            assert(vertices_model(cliff_vertices@) =~= flank.positions);
            assert(vertices_model(outward@) =~= flank.normals);
            assert(uvs_model(uvs@) =~= flank.uvs);
        }
        let shifted_vertices = place(&cliff_vertices, &bottom_side, shift_x, shift_z);
        let normals = rotate_vertices(&outward, &bottom_side);
        let face = triangle_buffers(shifted_vertices, normals, uvs);
        cell.append(&face);
    }
    let right_is_plain = match right_neighbor {
        Some(Tile::Plain(_)) => true,
        _ => false,
    };
    if !corner && right_is_plain {
        let cliff_vertices: Vec<Vertex> = vec![
            (half, low, half),
            (half, high, back),
            (half, low, back),
        ];
        let outward: Vec<Vertex> = vec![(10, 0, 0), (10, 0, 0), (10, 0, 0)];
        let uvs: Vec<Uv> = vec![(0, 10), (10, 0), (10, 10)];
        proof {
            let flank = right_flank_face(*ramp);
            assert(vertices_model(cliff_vertices@) =~= flank.positions);
            assert(vertices_model(outward@) =~= flank.normals);
            assert(uvs_model(uvs@) =~= flank.uvs);
        }
        let shifted_vertices = place(&cliff_vertices, &bottom_side, shift_x, shift_z);
        let normals = rotate_vertices(&outward, &bottom_side);
        let face = triangle_buffers(shifted_vertices, normals, uvs);
        cell.append(&face);
    }
    cell
}

/// Whether `build_mesh` takes a grid: it has a row, its rows are of one
/// length, and a `u32` can number the vertices of its mesh.
pub open spec fn buildable(grid: Seq<Seq<Tile>>) -> bool {
    &&& grid.len() > 0
    &&& is_rectangular(grid)
    &&& vertex_count(grid) <= u32::MAX
}

/// Builds the mesh of a terrain grid: positions, triangle indices, normals
/// and texture coordinates, all in tenths. The tiles add their faces row by
/// row and, within a row, column by column.
///
/// The grid has at least one row, its rows are of one length, and its mesh
/// has no more vertices than a `u32` can number: `can_build` tells.
pub fn build_mesh(tiles: Vec<Vec<Tile>>) -> (mesh: MeshBuffers)
    requires
        buildable(rows_of(tiles@)),
    ensures
        buffers_model(mesh.0@, mesh.1@, mesh.2@, mesh.3@) == terrain_mesh(rows_of(tiles@)),
        terrain_mesh(rows_of(tiles@)).well_formed(),
        ramps_climb(rows_of(tiles@)) ==> all_face_outward(terrain_mesh(rows_of(tiles@))),
        mesh.0.len() == vertex_count(rows_of(tiles@)),
        mesh.2.len() == mesh.0.len(),
        mesh.3.len() == mesh.0.len(),
{
    proof {
        if ramps_climb(rows_of(tiles@)) {
            lemma_terrain_faces_outward(rows_of(tiles@));
        }
    }
    let vertical_tiles = tiles.len();
    let horizontal_tiles = tiles[0].len();
    let ghost grid = rows_of(tiles@);
    proof {
        lemma_vertex_count_before(grid, grid.len() as int, 0);
    }

    let mut mesh = Mesh::new();
    let mut row_ind: usize = 0;
    while row_ind < vertical_tiles
        invariant
            row_ind <= vertical_tiles,
            vertical_tiles == tiles.len(),
            horizontal_tiles == tiles[0].len(),
            grid == rows_of(tiles@),
            is_rectangular(grid),
            vertex_count(grid) <= u32::MAX,
            mesh@ == mesh_before(grid, row_ind as int, 0),
            mesh@.well_formed(),
        decreases vertical_tiles - row_ind,
    {
        let mut col_ind: usize = 0;
        assert(grid[row_ind as int].len() == horizontal_tiles);
        while col_ind < horizontal_tiles
            invariant
                row_ind < vertical_tiles,
                col_ind <= horizontal_tiles,
                vertical_tiles == tiles.len(),
                horizontal_tiles == tiles[0].len(),
                horizontal_tiles == tiles[row_ind as int].len(),
                grid == rows_of(tiles@),
                is_rectangular(grid),
                vertex_count(grid) <= u32::MAX,
                mesh@ == mesh_before(grid, row_ind as int, col_ind as int),
                mesh@.well_formed(),
            decreases horizontal_tiles - col_ind,
        {
            proof {
                let row = row_ind as int;
                let col = col_ind as int;
                let width = horizontal_tiles as int;
                let height = vertical_tiles as int;
                lemma_count_at_least(grid, height, 0);
                assert(row < height * width && col < height * width && height <= height * width
                    && width <= height * width) by (nonlinear_arith)
                    requires
                        0 <= row < height,
                        0 <= col < width,
                ;
                lemma_count_grows(grid, row, col + 1);
                lemma_vertex_count_before(grid, row, col);
                lemma_cell_vertex_count(grid, row, col);
            }
            let shift_x = QUAD_SIZE * (col_ind as i64) - (QUAD_SIZE / 2) * (horizontal_tiles as i64)
                + QUAD_SIZE / 2;
            let shift_z = QUAD_SIZE * (row_ind as i64) - (QUAD_SIZE / 2) * (vertical_tiles as i64)
                + QUAD_SIZE / 2;
            let cell = match &tiles[row_ind][col_ind] {
                Tile::Plain(plain) => plain_buffers(
                    &tiles,
                    row_ind,
                    col_ind,
                    plain,
                    shift_x,
                    shift_z,
                ),
                Tile::Ramp(ramp) => ramp_buffers(&tiles, row_ind, col_ind, ramp, shift_x, shift_z),
            };
            assert(cell@ == cell_mesh(grid, row_ind as int, col_ind as int));
            mesh.append(&cell);
            col_ind += 1;
        }
        row_ind += 1;
    }
    assert(buffers_model(mesh.positions@, mesh.indices@, mesh.normals@, mesh.uvs@) == mesh@);
    (mesh.positions, mesh.indices, mesh.normals, mesh.uvs)
}

/// The number of vertices that the tile at (`row`, `col`) adds to the mesh.
fn count_cell(tiles: &Vec<Vec<Tile>>, row: usize, col: usize) -> (count: u64)
    requires
        row < tiles.len(),
        col < tiles[row as int].len(),
    ensures
        count == cell_vertex_count(rows_of(tiles@), row as int, col as int),
        4 <= count <= 20,
{
    match &tiles[row][col] {
        Tile::Plain(plain) => {
            let mut count: u64 = 4;
            if plain.cliffs.top {
                count += 4;
            }
            if plain.cliffs.bottom {
                count += 4;
            }
            if plain.cliffs.left {
                count += 4;
            }
            if plain.cliffs.right {
                count += 4;
            }
            count
        },
        Tile::Ramp(ramp) => {
            let mut count: u64 = 4;
            if !is_corner_ramp(&ramp.bottom_side) {
                match tiles.neighbor(row, col, ramp_left_shift(ramp.bottom_side)) {
                    Some(Tile::Plain(_)) => count += 3,
                    _ => (),
                }
                match tiles.neighbor(row, col, ramp_right_shift(ramp.bottom_side)) {
                    Some(Tile::Plain(_)) => count += 3,
                    _ => (),
                }
            }
            count
        },
    }
}

/// Tells whether `build_mesh` takes a grid.
pub fn can_build(tiles: &Vec<Vec<Tile>>) -> (ok: bool)
    ensures
        ok == buildable(rows_of(tiles@)),
{
    let ghost grid = rows_of(tiles@);
    let vertical_tiles = tiles.len();
    if vertical_tiles == 0 {
        return false;
    }
    let horizontal_tiles = tiles[0].len();
    let mut row_ind: usize = 0;
    while row_ind < vertical_tiles
        invariant
            row_ind <= vertical_tiles,
            vertical_tiles == tiles.len(),
            horizontal_tiles == tiles[0].len(),
            grid == rows_of(tiles@),
            forall|row: int| 0 <= row < row_ind ==> (#[trigger] grid[row]).len() == grid[0].len(),
        decreases vertical_tiles - row_ind,
    {
        if tiles[row_ind].len() != horizontal_tiles {
            assert(grid[row_ind as int].len() != grid[0].len());
            return false;
        }
        row_ind += 1;
    }
    let mut count: u64 = 0;
    let mut row_ind: usize = 0;
    while row_ind < vertical_tiles
        invariant
            row_ind <= vertical_tiles,
            vertical_tiles == tiles.len(),
            horizontal_tiles == tiles[0].len(),
            grid == rows_of(tiles@),
            is_rectangular(grid),
            count == vertex_count_before(grid, row_ind as int, 0),
            count <= u32::MAX,
        decreases vertical_tiles - row_ind,
    {
        let mut col_ind: usize = 0;
        assert(grid[row_ind as int].len() == horizontal_tiles);
        while col_ind < horizontal_tiles
            invariant
                row_ind < vertical_tiles,
                col_ind <= horizontal_tiles,
                vertical_tiles == tiles.len(),
                horizontal_tiles == tiles[row_ind as int].len(),
                grid == rows_of(tiles@),
                is_rectangular(grid),
                count == vertex_count_before(grid, row_ind as int, col_ind as int),
                count <= u32::MAX,
            decreases horizontal_tiles - col_ind,
        {
            count += count_cell(tiles, row_ind, col_ind);
            col_ind += 1;
            if count > u32::MAX as u64 {
                proof {
                    lemma_count_grows(grid, row_ind as int, col_ind as int);
                }
                return false;
            }
        }
        row_ind += 1;
    }
    true
}

} // verus!
