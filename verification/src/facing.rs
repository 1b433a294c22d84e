//! Which way the triangles of a terrain mesh face.

use crate::geometry::{
    cell_centre, cell_mesh, cliff_face, corner_normal, has_left_flank_face,
    has_right_flank_face, left_flank_face, mesh_before, quad, right_flank_face, slope_face,
    terrain_mesh, top_face, triangle,
};
use crate::mesh::{lemma_append_well_formed, slide, turn, MeshModel};
use crate::terrain::{Plain, Ramp, Side, Tile, QUAD_HEIGHT, QUAD_SIZE};
use vstd::prelude::*;

verus! {

/// The step from `from` to `to`.
pub open spec fn step(from: (int, int, int), to: (int, int, int)) -> (int, int, int) {
    (to.0 - from.0, to.1 - from.1, to.2 - from.2)
}

/// The cross product of two directions.
pub open spec fn cross(a: (int, int, int), b: (int, int, int)) -> (int, int, int) {
    (a.1 * b.2 - a.2 * b.1, a.2 * b.0 - a.0 * b.2, a.0 * b.1 - a.1 * b.0)
}

/// The dot product of two directions.
pub open spec fn dot(a: (int, int, int), b: (int, int, int)) -> int {
    a.0 * b.0 + a.1 * b.1 + a.2 * b.2
}

/// The direction in which the triangle with the corners `a`, `b`, `c` faces:
/// seen from there, the corners run anticlockwise in that order.
pub open spec fn facing(a: (int, int, int), b: (int, int, int), c: (int, int, int)) -> (
    int,
    int,
    int,
) {
    cross(step(a, b), step(a, c))
}

/// Whether three corners, with the normals `at_a`, `at_b`, `at_c`, are wound
/// so that the triangle faces the side to which all three normals point.
pub open spec fn wound_outward(
    a: (int, int, int),
    b: (int, int, int),
    c: (int, int, int),
    at_a: (int, int, int),
    at_b: (int, int, int),
    at_c: (int, int, int),
) -> bool {
    &&& dot(facing(a, b, c), at_a) > 0
    &&& dot(facing(a, b, c), at_b) > 0
    &&& dot(facing(a, b, c), at_c) > 0
}

/// Whether triangle number `number` of a mesh faces the side to which the
/// normals at its corners point.
pub open spec fn faces_outward(mesh: MeshModel, number: int) -> bool {
    let a = mesh.indices[3 * number];
    let b = mesh.indices[3 * number + 1];
    let c = mesh.indices[3 * number + 2];
    wound_outward(
        mesh.positions[a],
        mesh.positions[b],
        mesh.positions[c],
        mesh.normals[a],
        mesh.normals[b],
        mesh.normals[c],
    )
}

/// Whether every triangle of a mesh faces the side to which the normals at
/// its corners point: none is seen from behind by a viewer who looks at the
/// lit side of the surface.
pub open spec fn all_face_outward(mesh: MeshModel) -> bool {
    forall|number: int|
        0 <= number && 3 * number < mesh.indices.len() ==> #[trigger] faces_outward(mesh, number)
}

/// A turn about the vertical axis carries the facing of a triangle along,
/// and keeps the dot product of two directions.
pub proof fn lemma_turn_keeps_winding(
    a: (int, int, int),
    b: (int, int, int),
    c: (int, int, int),
    at_a: (int, int, int),
    at_b: (int, int, int),
    at_c: (int, int, int),
    quarters: int,
)
    ensures
        wound_outward(
            turn(a, quarters),
            turn(b, quarters),
            turn(c, quarters),
            turn(at_a, quarters),
            turn(at_b, quarters),
            turn(at_c, quarters),
        ) == wound_outward(a, b, c, at_a, at_b, at_c),
{
    let u = step(a, b);
    let v = step(a, c);
    assert(step(turn(a, quarters), turn(b, quarters)) == turn(u, quarters));
    assert(step(turn(a, quarters), turn(c, quarters)) == turn(v, quarters));
    lemma_turn_keeps_cross(u, v, quarters);
    lemma_turn_keeps_dot(cross(u, v), at_a, quarters);
    lemma_turn_keeps_dot(cross(u, v), at_b, quarters);
    lemma_turn_keeps_dot(cross(u, v), at_c, quarters);
}

/// A turn about the vertical axis carries the cross product of two
/// directions along.
proof fn lemma_turn_keeps_cross(u: (int, int, int), v: (int, int, int), quarters: int)
    ensures
        cross(turn(u, quarters), turn(v, quarters)) == turn(cross(u, v), quarters),
{
    assert((-u.0) * (-v.2) == u.0 * v.2 && (-u.2) * (-v.0) == u.2 * v.0 && (-u.0) * v.1 == -(u.0
        * v.1) && u.1 * (-v.0) == -(u.1 * v.0) && (-u.2) * v.1 == -(u.2 * v.1) && u.1 * (-v.2)
        == -(u.1 * v.2) && (-u.2) * v.0 == -(u.2 * v.0) && u.0 * (-v.2) == -(u.0 * v.2) && (
    -u.0) * v.2 == -(u.0 * v.2) && u.2 * (-v.0) == -(u.2 * v.0)) by (nonlinear_arith);
}

/// A turn about the vertical axis keeps the dot product of two directions.
proof fn lemma_turn_keeps_dot(u: (int, int, int), v: (int, int, int), quarters: int)
    ensures
        dot(turn(u, quarters), turn(v, quarters)) == dot(u, v),
{
    assert((-u.0) * (-v.0) == u.0 * v.0 && (-u.2) * (-v.2) == u.2 * v.2) by (nonlinear_arith);
}

/// A move in the horizontal plane changes the facing of no triangle.
pub proof fn lemma_move_keeps_winding(
    a: (int, int, int),
    b: (int, int, int),
    c: (int, int, int),
    dx: int,
    dz: int,
)
    ensures
        facing(slide(a, dx, dz), slide(b, dx, dz), slide(c, dx, dz)) == facing(a, b, c),
{
    assert(step(slide(a, dx, dz), slide(b, dx, dz)) == step(a, b));
    assert(step(slide(a, dx, dz), slide(c, dx, dz)) == step(a, c));
}

/// A mesh that is turned and moved as a whole keeps its triangles facing
/// the way their normals point.
pub proof fn lemma_placed_faces_outward(face: MeshModel, quarters: int, dx: int, dz: int)
    requires
        face.well_formed(),
        all_face_outward(face),
    ensures
        face.turned(quarters).moved(dx, dz).well_formed(),
        all_face_outward(face.turned(quarters).moved(dx, dz)),
{
    let placed = face.turned(quarters).moved(dx, dz);
    assert forall|number: int| 0 <= number && 3 * number < placed.indices.len() implies
        #[trigger] faces_outward(placed, number) by {
        assert(faces_outward(face, number));
        let a = face.indices[3 * number];
        let b = face.indices[3 * number + 1];
        let c = face.indices[3 * number + 2];
        assert(0 <= a < face.positions.len());
        assert(0 <= b < face.positions.len());
        assert(0 <= c < face.positions.len());
        lemma_turn_keeps_winding(
            face.positions[a],
            face.positions[b],
            face.positions[c],
            face.normals[a],
            face.normals[b],
            face.normals[c],
            quarters,
        );
        lemma_move_keeps_winding(
            turn(face.positions[a], quarters),
            turn(face.positions[b], quarters),
            turn(face.positions[c], quarters),
            dx,
            dz,
        );
    }
}

/// Two meshes whose triangles face the way their normals point, one after
/// the other, are such a mesh.
pub proof fn lemma_append_faces_outward(first: MeshModel, second: MeshModel)
    requires
        first.well_formed(),
        second.well_formed(),
        all_face_outward(first),
        all_face_outward(second),
    ensures
        first.append(second).well_formed(),
        all_face_outward(first.append(second)),
{
    lemma_append_well_formed(first, second);
    let joined = first.append(second);
    let base = first.positions.len() as int;
    assert forall|number: int| 0 <= number && 3 * number < joined.indices.len() implies
        #[trigger] faces_outward(joined, number) by {
        if 3 * number < first.indices.len() {
            assert(faces_outward(first, number));
            let a = first.indices[3 * number];
            let b = first.indices[3 * number + 1];
            let c = first.indices[3 * number + 2];
            assert(0 <= a < base && 0 <= b < base && 0 <= c < base);
        } else {
            let later = number - first.indices.len() / 3;
            assert(3 * later == 3 * number - first.indices.len());
            assert(faces_outward(second, later));
            let a = second.indices[3 * later];
            let b = second.indices[3 * later + 1];
            let c = second.indices[3 * later + 2];
            assert(0 <= a < second.positions.len());
            assert(0 <= b < second.positions.len());
            assert(0 <= c < second.positions.len());
            assert(joined.indices[3 * number] == a + base);
            assert(joined.indices[3 * number + 1] == b + base);
            assert(joined.indices[3 * number + 2] == c + base);
        }
    }
}

/// A face that may be left out keeps a mesh one whose triangles face the way
/// their normals point.
proof fn lemma_append_if_faces_outward(first: MeshModel, wanted: bool, second: MeshModel)
    requires
        first.well_formed(),
        all_face_outward(first),
        wanted ==> second.well_formed() && all_face_outward(second),
    ensures
        first.append_if(wanted, second).well_formed(),
        all_face_outward(first.append_if(wanted, second)),
{
    if wanted {
        lemma_append_faces_outward(first, second);
    }
}

/// A quad whose corners run a, b, c, d faces outward where its two
/// triangles, a c b and a d c, do.
proof fn lemma_quad_faces_outward(positions: Seq<(int, int, int)>, normals: Seq<(int, int, int)>)
    requires
        positions.len() == 4,
        normals.len() == 4,
        wound_outward(
            positions[0],
            positions[2],
            positions[1],
            normals[0],
            normals[2],
            normals[1],
        ),
        wound_outward(
            positions[0],
            positions[3],
            positions[2],
            normals[0],
            normals[3],
            normals[2],
        ),
    ensures
        quad(positions, normals).well_formed(),
        all_face_outward(quad(positions, normals)),
{
    let face = quad(positions, normals);
    assert forall|number: int| 0 <= number && 3 * number < face.indices.len() implies
        #[trigger] faces_outward(face, number) by {
        assert(number == 0 || number == 1);
    }
}

/// A triangle whose corners run a, b, c faces outward where a c b does.
proof fn lemma_triangle_faces_outward(
    positions: Seq<(int, int, int)>,
    normals: Seq<(int, int, int)>,
    uvs: Seq<(int, int)>,
)
    requires
        positions.len() == 3,
        normals.len() == 3,
        uvs.len() == 3,
        wound_outward(
            positions[0],
            positions[2],
            positions[1],
            normals[0],
            normals[2],
            normals[1],
        ),
    ensures
        triangle(positions, normals, uvs).well_formed(),
        all_face_outward(triangle(positions, normals, uvs)),
{
    let face = triangle(positions, normals, uvs);
    assert forall|number: int| 0 <= number && 3 * number < face.indices.len() implies
        #[trigger] faces_outward(face, number) by {
        assert(number == 0);
    }
}

/// The facing of a triangle, worked out from the steps along two of its edges.
proof fn lemma_facing(
    a: (int, int, int),
    b: (int, int, int),
    c: (int, int, int),
    ux: int,
    uy: int,
    uz: int,
    vx: int,
    vy: int,
    vz: int,
)
    requires
        step(a, b) == (ux, uy, uz),
        step(a, c) == (vx, vy, vz),
    ensures
        facing(a, b, c) == (uy * vz - uz * vy, uz * vx - ux * vz, ux * vy - uy * vx),
{
}

/// A triangle that faces straight up is wound outward where each of its
/// normals has a part that points up.
proof fn lemma_wound_upward(
    a: (int, int, int),
    b: (int, int, int),
    c: (int, int, int),
    at_a: (int, int, int),
    at_b: (int, int, int),
    at_c: (int, int, int),
    up: int,
)
    requires
        facing(a, b, c) == (0int, up, 0int),
        up > 0,
        at_a.1 > 0,
        at_b.1 > 0,
        at_c.1 > 0,
    ensures
        wound_outward(a, b, c, at_a, at_b, at_c),
{
    assert(up * at_a.1 > 0 && up * at_b.1 > 0 && up * at_c.1 > 0) by (nonlinear_arith)
        requires
            up > 0,
            at_a.1 > 0,
            at_b.1 > 0,
            at_c.1 > 0,
    ;
}

/// The normal at a corner of a plain tile has a part that points up.
proof fn lemma_corner_normal_points_up(grid: Seq<Seq<Tile>>, row: int, col: int, corner: Side)
    ensures
        corner_normal(grid, row, col, corner).1 > 0,
{
}

/// The top of a plain tile faces up, whatever shades its corners.
proof fn lemma_top_faces_outward(grid: Seq<Seq<Tile>>, row: int, col: int, level: int)
    ensures
        top_face(grid, row, col, level).well_formed(),
        all_face_outward(top_face(grid, row, col, level)),
{
    let face = top_face(grid, row, col, level);
    let half = QUAD_SIZE / 2;
    let y = level * QUAD_HEIGHT;
    lemma_corner_normal_points_up(grid, row, col, Side::BottomLeft);
    lemma_corner_normal_points_up(grid, row, col, Side::TopLeft);
    lemma_corner_normal_points_up(grid, row, col, Side::TopRight);
    lemma_corner_normal_points_up(grid, row, col, Side::BottomRight);
    assert(face.positions[0] == (-half, y, half));
    assert(face.positions[1] == (-half, y, -half));
    assert(face.positions[2] == (half, y, -half));
    assert(face.positions[3] == (half, y, half));
    assert(step(face.positions[0], face.positions[1]) == (0int, 0int, -50int));
    assert(step(face.positions[0], face.positions[2]) == (50int, 0int, -50int));
    assert(step(face.positions[0], face.positions[3]) == (50int, 0int, 0int));
    lemma_facing(face.positions[0], face.positions[2], face.positions[1], 50, 0, -50, 0, 0, -50);
    lemma_facing(face.positions[0], face.positions[3], face.positions[2], 50, 0, 0, 50, 0, -50);
    lemma_wound_upward(
        face.positions[0],
        face.positions[2],
        face.positions[1],
        face.normals[0],
        face.normals[2],
        face.normals[1],
        2500,
    );
    lemma_wound_upward(
        face.positions[0],
        face.positions[3],
        face.positions[2],
        face.normals[0],
        face.normals[3],
        face.normals[2],
        2500,
    );
    lemma_quad_faces_outward(face.positions, face.normals);
}

/// The face of a cliff faces away from its tile.
proof fn lemma_cliff_faces_outward(level: int, side: Side)
    ensures
        cliff_face(level, side).well_formed(),
        all_face_outward(cliff_face(level, side)),
{
    let half = QUAD_SIZE / 2;
    let low = (level - 1) * QUAD_HEIGHT;
    let high = level * QUAD_HEIGHT;
    let positions = seq![
        (-half, low, half),
        (-half, high, half),
        (half, high, half),
        (half, low, half),
    ];
    let normals = seq![(0int, 0int, 10int), (0, 0, 10), (0, 0, 10), (0, 0, 10)];
    assert(step(positions[0], positions[1]) == (0int, 50int, 0int));
    assert(step(positions[0], positions[2]) == (50int, 50int, 0int));
    assert(step(positions[0], positions[3]) == (50int, 0int, 0int));
    lemma_facing(positions[0], positions[2], positions[1], 50, 50, 0, 0, 50, 0);
    lemma_facing(positions[0], positions[3], positions[2], 50, 0, 0, 50, 50, 0);
    lemma_quad_faces_outward(positions, normals);
    lemma_placed_faces_outward(quad(positions, normals), side.quarter_turns(), 0, 0);
    let placed = quad(positions, normals).turned(side.quarter_turns()).moved(0, 0);
    assert(placed.positions =~= cliff_face(level, side).positions);
    assert(placed == cliff_face(level, side));
}

/// The sloped face of a ramp that climbs faces up and towards its low end.
proof fn lemma_slope_faces_outward(grid: Seq<Seq<Tile>>, row: int, col: int, ramp: Ramp)
    requires
        ramp.bottom_level < ramp.top_level,
    ensures
        slope_face(grid, row, col, ramp).well_formed(),
        all_face_outward(slope_face(grid, row, col, ramp)),
{
    let face = slope_face(grid, row, col, ramp);
    let half = QUAD_SIZE / 2;
    let low = ramp.bottom_level * QUAD_HEIGHT;
    let high = ramp.top_level * QUAD_HEIGHT;
    let climb = high - low;
    assert(climb > 0);
    assert(face.positions[0] == (-half, low, half));
    assert(face.positions[2] == (half, high, -half));
    assert(face.positions[3] == (half, low, half));
    assert(step(face.positions[0], face.positions[2]) == (50int, climb, -50int));
    assert(step(face.positions[0], face.positions[3]) == (50int, 0int, 0int));
    lemma_facing(
        face.positions[0],
        face.positions[3],
        face.positions[2],
        50,
        0,
        0,
        50,
        climb,
        -50,
    );
    if ramp.bottom_side.is_corner() {
        assert(face.positions[1] == (-half, low, -half));
        assert(step(face.positions[0], face.positions[1]) == (0int, 0int, -50int));
        lemma_facing(
            face.positions[0],
            face.positions[2],
            face.positions[1],
            50,
            climb,
            -50,
            0,
            0,
            -50,
        );
        assert(face.normals =~= seq![(-7int, 7int, 7int), (-7, 7, 0), (-7, 7, 7), (0, 7, 7)]);
    } else {
        assert(face.positions[1] == (-half, high, -half));
        assert(step(face.positions[0], face.positions[1]) == (0int, climb, -50int));
        lemma_facing(
            face.positions[0],
            face.positions[2],
            face.positions[1],
            50,
            climb,
            -50,
            0,
            climb,
            -50,
        );
        assert(face.normals[0] == (0int, 7int, 7int));
        assert(face.normals[1] == (-7int, 7int, 7int) || face.normals[1] == (0int, 7int, 7int));
        assert(face.normals[2] == (7int, 7int, 7int) || face.normals[2] == (0int, 7int, 7int));
        assert(face.normals[3] == (0int, 7int, 7int));
    }
    lemma_quad_faces_outward(face.positions, face.normals);
}

/// The flank faces of a ramp that climbs face out of the ramp.
proof fn lemma_flanks_face_outward(ramp: Ramp)
    requires
        ramp.bottom_level < ramp.top_level,
    ensures
        left_flank_face(ramp).well_formed(),
        all_face_outward(left_flank_face(ramp)),
        right_flank_face(ramp).well_formed(),
        all_face_outward(right_flank_face(ramp)),
{
    let half = QUAD_SIZE / 2;
    let low = ramp.bottom_level * QUAD_HEIGHT;
    let high = ramp.top_level * QUAD_HEIGHT;
    let climb = high - low;
    assert(climb > 0);
    let left = left_flank_face(ramp);
    assert(left.positions[0] == (-half, low, -half));
    assert(left.positions[1] == (-half, high, -half));
    assert(left.positions[2] == (-half, low, half));
    assert(step(left.positions[0], left.positions[2]) == (0int, 0int, 50int));
    assert(step(left.positions[0], left.positions[1]) == (0int, climb, 0int));
    lemma_facing(
        left.positions[0],
        left.positions[2],
        left.positions[1],
        0,
        0,
        50,
        0,
        climb,
        0,
    );
    lemma_triangle_faces_outward(left.positions, left.normals, left.uvs);
    let right = right_flank_face(ramp);
    assert(right.positions[0] == (half, low, half));
    assert(right.positions[1] == (half, high, -half));
    assert(right.positions[2] == (half, low, -half));
    assert(step(right.positions[0], right.positions[2]) == (0int, 0int, -50int));
    assert(step(right.positions[0], right.positions[1]) == (0int, climb, -50int));
    lemma_facing(
        right.positions[0],
        right.positions[2],
        right.positions[1],
        0,
        0,
        -50,
        0,
        climb,
        -50,
    );
    lemma_triangle_faces_outward(right.positions, right.normals, right.uvs);
}

/// Whether every ramp of a grid climbs: its bottom level is below its top level.
pub open spec fn ramps_climb(grid: Seq<Seq<Tile>>) -> bool {
    forall|row: int, col: int|
        0 <= row < grid.len() && 0 <= col < grid[row].len() ==> (#[trigger] grid[row][col]
            matches Tile::Ramp(ramp) ==> ramp.bottom_level < ramp.top_level)
}

/// What a tile adds to the mesh is well formed and faces outward.
pub proof fn lemma_cell_faces_outward(grid: Seq<Seq<Tile>>, row: int, col: int)
    requires
        grid[row][col] matches Tile::Ramp(ramp) ==> ramp.bottom_level < ramp.top_level,
    ensures
        cell_mesh(grid, row, col).well_formed(),
        all_face_outward(cell_mesh(grid, row, col)),
{
    let (x, z) = cell_centre(grid, row, col);
    match grid[row][col] {
        Tile::Plain(plain) => {
            let level = plain.level as int;
            lemma_top_faces_outward(grid, row, col, level);
            lemma_placed_faces_outward(top_face(grid, row, col, level), 0, x, z);
            let top = top_face(grid, row, col, level).moved(x, z);
            assert(top_face(grid, row, col, level).turned(0).positions =~= top_face(
                grid,
                row,
                col,
                level,
            ).positions);
            assert(top_face(grid, row, col, level).turned(0).normals =~= top_face(
                grid,
                row,
                col,
                level,
            ).normals);
            assert(top_face(grid, row, col, level).turned(0) == top_face(grid, row, col, level));
            lemma_cliff_faces_outward(level, Side::Top);
            lemma_cliff_faces_outward(level, Side::Bottom);
            lemma_cliff_faces_outward(level, Side::Left);
            lemma_cliff_faces_outward(level, Side::Right);
            lemma_moved_faces_outward(cliff_face(level, Side::Top), x, z);
            lemma_moved_faces_outward(cliff_face(level, Side::Bottom), x, z);
            lemma_moved_faces_outward(cliff_face(level, Side::Left), x, z);
            lemma_moved_faces_outward(cliff_face(level, Side::Right), x, z);
            let with_top = top.append_if(
                plain.cliffs.top,
                cliff_face(level, Side::Top).moved(x, z),
            );
            lemma_append_if_faces_outward(
                top,
                plain.cliffs.top,
                cliff_face(level, Side::Top).moved(x, z),
            );
            let with_bottom = with_top.append_if(
                plain.cliffs.bottom,
                cliff_face(level, Side::Bottom).moved(x, z),
            );
            lemma_append_if_faces_outward(
                with_top,
                plain.cliffs.bottom,
                cliff_face(level, Side::Bottom).moved(x, z),
            );
            let with_left = with_bottom.append_if(
                plain.cliffs.left,
                cliff_face(level, Side::Left).moved(x, z),
            );
            lemma_append_if_faces_outward(
                with_bottom,
                plain.cliffs.left,
                cliff_face(level, Side::Left).moved(x, z),
            );
            lemma_append_if_faces_outward(
                with_left,
                plain.cliffs.right,
                cliff_face(level, Side::Right).moved(x, z),
            );
        },
        Tile::Ramp(ramp) => {
            let turns = ramp.bottom_side.quarter_turns();
            lemma_slope_faces_outward(grid, row, col, ramp);
            lemma_flanks_face_outward(ramp);
            lemma_placed_faces_outward(slope_face(grid, row, col, ramp), turns, x, z);
            lemma_placed_faces_outward(left_flank_face(ramp), turns, x, z);
            lemma_placed_faces_outward(right_flank_face(ramp), turns, x, z);
            let slope = slope_face(grid, row, col, ramp).turned(turns).moved(x, z);
            let with_left = slope.append_if(
                has_left_flank_face(grid, row, col, ramp),
                left_flank_face(ramp).turned(turns).moved(x, z),
            );
            lemma_append_if_faces_outward(
                slope,
                has_left_flank_face(grid, row, col, ramp),
                left_flank_face(ramp).turned(turns).moved(x, z),
            );
            lemma_append_if_faces_outward(
                with_left,
                has_right_flank_face(grid, row, col, ramp),
                right_flank_face(ramp).turned(turns).moved(x, z),
            );
        },
    }
}

/// A mesh that is moved as a whole keeps its triangles facing the way their
/// normals point.
proof fn lemma_moved_faces_outward(face: MeshModel, dx: int, dz: int)
    requires
        face.well_formed(),
        all_face_outward(face),
    ensures
        face.moved(dx, dz).well_formed(),
        all_face_outward(face.moved(dx, dz)),
{
    let placed = face.moved(dx, dz);
    assert forall|number: int| 0 <= number && 3 * number < placed.indices.len() implies
        #[trigger] faces_outward(placed, number) by {
        assert(faces_outward(face, number));
        let a = face.indices[3 * number];
        let b = face.indices[3 * number + 1];
        let c = face.indices[3 * number + 2];
        assert(0 <= a < face.positions.len());
        assert(0 <= b < face.positions.len());
        assert(0 <= c < face.positions.len());
        lemma_move_keeps_winding(face.positions[a], face.positions[b], face.positions[c], dx, dz);
    }
}

/// The mesh of the cells before (`row`, `col`) is well formed and faces outward.
proof fn lemma_mesh_before_faces_outward(grid: Seq<Seq<Tile>>, row: int, col: int)
    requires
        ramps_climb(grid),
        0 <= row <= grid.len(),
        0 <= col,
        row < grid.len() ==> col <= grid[row].len(),
        row == grid.len() ==> col == 0,
    ensures
        mesh_before(grid, row, col).well_formed(),
        all_face_outward(mesh_before(grid, row, col)),
    decreases row, col,
{
    if col > 0 {
        lemma_mesh_before_faces_outward(grid, row, col - 1);
        assert(grid[row][col - 1] matches Tile::Ramp(ramp) ==> ramp.bottom_level < ramp.top_level);
        lemma_cell_faces_outward(grid, row, col - 1);
        lemma_append_faces_outward(mesh_before(grid, row, col - 1), cell_mesh(grid, row, col - 1));
    } else if row > 0 {
        lemma_mesh_before_faces_outward(grid, row - 1, grid[row - 1].len() as int);
    }
}

/// The mesh of a grid whose ramps climb is well formed, and each of its
/// triangles is wound so that it faces the side to which the normals at its
/// corners point: up for a top, away from the tile for a cliff, up the slope
/// for a ramp, out of the ramp for a flank face.
pub proof fn lemma_terrain_faces_outward(grid: Seq<Seq<Tile>>)
    requires
        ramps_climb(grid),
    ensures
        terrain_mesh(grid).well_formed(),
        all_face_outward(terrain_mesh(grid)),
{
    lemma_mesh_before_faces_outward(grid, grid.len() as int, 0);
}

} // verus!
