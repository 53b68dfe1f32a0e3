use vstd::prelude::*;

verus! {

/// Edge length of a box and of the player's square.
pub const BOX_SIZE: i32 = 30;

/// Width of the field that boxes are placed in.
pub const FIELD_WIDTH: i32 = 800;

/// Height of the field that boxes are placed in.
pub const FIELD_HEIGHT: i32 = 600;

/// Half the edge length of the square field of view around the player.
pub const VIEW_HALF_EXTENT: i32 = 100;

/// A position on the field, in whole field units.
#[derive(Clone, Copy, Debug, PartialEq, Eq, Structural)]
pub struct Point {
    pub x: i32,
    pub y: i32,
}

/// The 30x30 squares anchored (top-left) at `a` and `b` intersect.
pub open spec fn overlaps(a: Point, b: Point) -> bool {
    &&& a.x + BOX_SIZE > b.x
    &&& b.x + BOX_SIZE > a.x
    &&& a.y + BOX_SIZE > b.y
    &&& b.y + BOX_SIZE > a.y
}

/// The Euclidean distance between `p` and `q` is below the box edge length.
pub open spec fn near(p: Point, q: Point) -> bool {
    (p.x - q.x) * (p.x - q.x) + (p.y - q.y) * (p.y - q.y) < BOX_SIZE * BOX_SIZE
}

/// The box anchored at `b` intersects the square field of view centred on
/// `player`, whose corner lies `VIEW_HALF_EXTENT` above and left of it.
pub open spec fn in_view(player: Point, b: Point) -> bool {
    &&& b.x + BOX_SIZE > player.x - VIEW_HALF_EXTENT
    &&& player.x + VIEW_HALF_EXTENT > b.x
    &&& b.y + BOX_SIZE > player.y - VIEW_HALF_EXTENT
    &&& player.y + VIEW_HALF_EXTENT > b.y
}

/// The anchor lies inside the field `[0, FIELD_WIDTH) x [0, FIELD_HEIGHT)`.
pub open spec fn in_field(p: Point) -> bool {
    0 <= p.x < FIELD_WIDTH && 0 <= p.y < FIELD_HEIGHT
}

/// Whether the boxes anchored at `a` and `b` overlap.
pub fn boxes_overlap(a: &Point, b: &Point) -> (r: bool)
    ensures
        r == overlaps(*a, *b),
{
    let (ax, ay, bx, by) = (a.x as i64, a.y as i64, b.x as i64, b.y as i64);
    let size = BOX_SIZE as i64;
    ax + size > bx && bx + size > ax && ay + size > by && by + size > ay
}

/// Whether the player at `player_position` is close enough to open the box
/// anchored at `box_position`: their distance is strictly below 30.
pub fn player_near_box(player_position: &Point, box_position: &Point) -> (r: bool)
    ensures
        r == near(*player_position, *box_position),
{
    let dx: i64 = player_position.x as i64 - box_position.x as i64;
    let dy: i64 = player_position.y as i64 - box_position.y as i64;
    let size = BOX_SIZE as i64;
    if dx >= size || dx <= -size || dy >= size || dy <= -size {
        assert(dx * dx >= 900 || dy * dy >= 900) by (nonlinear_arith)
            requires
                dx >= 30 || dx <= -30 || dy >= 30 || dy <= -30,
        ;
        assert(dx * dx >= 0 && dy * dy >= 0) by (nonlinear_arith);
        false
    } else {
        assert(0 <= dx * dx < 900 && 0 <= dy * dy < 900) by (nonlinear_arith)
            requires
                -30 < dx < 30,
                -30 < dy < 30,
        ;
        dx * dx + dy * dy < size * size
    }
}

/// Whether the box anchored at `box_position` is inside the player's field of
/// view.
pub fn in_field_of_view(player_position: &Point, box_position: &Point) -> (r: bool)
    ensures
        r == in_view(*player_position, *box_position),
{
    let (px, py) = (player_position.x as i64, player_position.y as i64);
    let (bx, by) = (box_position.x as i64, box_position.y as i64);
    let size = BOX_SIZE as i64;
    let half = VIEW_HALF_EXTENT as i64;
    bx + size > px - half && px + half > bx && by + size > py - half && py + half > by
}

} // verus!
