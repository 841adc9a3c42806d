//! The mathematical model of a level: which rooms are accepted, and which
//! cells of the grid are floor.

use vstd::prelude::*;
use crate::grid::TileGrid;
use crate::rect::Rect;
use crate::tile::TileClassification;

verus! {

/// Whether `v` lies between `a` and `b`, ends included, whichever of the two is smaller.
pub open spec fn between(a: int, b: int, v: int) -> bool {
    (a <= v && v <= b) || (b <= v && v <= a)
}

/// Whether `(x, y)` lies on the L-shaped corridor from `from` to `to`: first
/// along the row of `from` to the column of `to`, then along that column to `to`.
pub open spec fn on_corridor(from: (int, int), to: (int, int), x: int, y: int) -> bool {
    (y == from.1 && between(from.0, to.0, x)) || (x == to.0 && between(from.1, to.1, y))
}

/// Whether the rectangle is well formed and touches no cell of the outer ring
/// of a grid of the given dimensions.
pub open spec fn inside_border(room: Rect, width: int, height: int) -> bool {
    1 <= room.x1 < room.x2 <= width - 2 && 1 <= room.y1 < room.y2 <= height - 2
}

/// Whether the candidate intersects none of the rooms.
pub open spec fn clear_of(rooms: Seq<Rect>, candidate: Rect) -> bool {
    forall|i: int| 0 <= i < rooms.len() ==> !candidate.spec_intersects(#[trigger] rooms[i])
}

/// Whether the candidate becomes a room, given the rooms accepted before it.
pub open spec fn accepts(width: int, height: int, rooms: Seq<Rect>, candidate: Rect) -> bool {
    inside_border(candidate, width, height) && clear_of(rooms, candidate)
}

/// The room list that a sequence of candidates leads to: each candidate in
/// turn is kept if it lies inside the border and intersects no room kept
/// before it.
pub open spec fn accepted_rooms(width: int, height: int, candidates: Seq<Rect>) -> Seq<Rect>
    decreases candidates.len(),
{
    if candidates.len() == 0 {
        Seq::empty()
    } else {
        let earlier = accepted_rooms(width, height, candidates.drop_last());
        if accepts(width, height, earlier, candidates.last()) {
            earlier.push(candidates.last())
        } else {
            earlier
        }
    }
}

/// Whether `(x, y)` lies in the interior of one of the rooms.
pub open spec fn in_some_room(rooms: Seq<Rect>, x: int, y: int) -> bool {
    exists|i: int| 0 <= i < rooms.len() && (#[trigger] rooms[i]).interior_contains(x, y)
}

/// Whether `(x, y)` lies on the corridor that joins room `i` to the room before it.
pub open spec fn corridor_to(rooms: Seq<Rect>, i: int, x: int, y: int) -> bool {
    on_corridor(rooms[i - 1].spec_center(), rooms[i].spec_center(), x, y)
}

/// Whether `(x, y)` lies on the corridor between two consecutive rooms.
pub open spec fn on_some_corridor(rooms: Seq<Rect>, x: int, y: int) -> bool {
    exists|i: int| 0 < i < rooms.len() && #[trigger] corridor_to(rooms, i, x, y)
}

/// Whether the room list makes `(x, y)` a floor cell.
pub open spec fn carved(rooms: Seq<Rect>, x: int, y: int) -> bool {
    in_some_room(rooms, x, y) || on_some_corridor(rooms, x, y)
}

/// Whether the grid shows exactly the rooms and corridors of the room list:
/// floor where the list carves, wall everywhere else.
pub open spec fn shows_rooms(grid: &TileGrid, rooms: Seq<Rect>) -> bool {
    forall|x: int, y: int|
        grid.in_bounds(x, y) ==> #[trigger] grid.tile_at(x, y) == (if carved(rooms, x, y) {
            TileClassification::Floor
        } else {
            TileClassification::Wall
        })
}

/// Whether every room of the list lies inside the border.
pub open spec fn all_inside_border(rooms: Seq<Rect>, width: int, height: int) -> bool {
    forall|i: int| 0 <= i < rooms.len() ==> inside_border(#[trigger] rooms[i], width, height)
}

/// Whether no two rooms of the list intersect.
pub open spec fn pairwise_disjoint(rooms: Seq<Rect>) -> bool {
    forall|i: int, j: int|
        0 <= i < j < rooms.len() ==> !(#[trigger] rooms[i]).spec_intersects(#[trigger] rooms[j])
}

/// Whether the grid and the room list are what the candidates lead to on a
/// grid of the given dimensions.
pub open spec fn is_rooms_layout(
    width: int,
    height: int,
    candidates: Seq<Rect>,
    grid: &TileGrid,
    rooms: Seq<Rect>,
) -> bool {
    &&& grid.wf()
    &&& grid.spec_width() == width
    &&& grid.spec_height() == height
    &&& rooms == accepted_rooms(width, height, candidates)
    &&& shows_rooms(grid, rooms)
}

/// Whether one of the positions is `(x, y)`.
pub open spec fn splattered(positions: Seq<(usize, usize)>, x: int, y: int) -> bool {
    exists|i: int|
        0 <= i < positions.len() && (#[trigger] positions[i]).0 == x && positions[i].1 == y
}

/// The centre cell of a grid of the given dimensions.
pub open spec fn center_cell(width: int, height: int) -> (int, int) {
    (width / 2, height / 2)
}

/// Whether the grid is an open floor with a wall on its outer ring and on
/// every position but the centre cell.
pub open spec fn is_splatter_layout(
    width: int,
    height: int,
    positions: Seq<(usize, usize)>,
    grid: &TileGrid,
) -> bool {
    &&& grid.wf()
    &&& grid.spec_width() == width
    &&& grid.spec_height() == height
    &&& forall|x: int, y: int|
        grid.in_bounds(x, y) ==> #[trigger] grid.tile_at(x, y) == (if grid.on_perimeter(x, y) || (
        (x, y) != center_cell(width, height) && splattered(positions, x, y)) {
            TileClassification::Wall
        } else {
            TileClassification::Floor
        })
}

/// Whether every cell of every corridor between consecutive rooms is a floor
/// cell of the grid.
pub open spec fn corridors_open(grid: &TileGrid, rooms: Seq<Rect>) -> bool {
    forall|i: int, x: int, y: int|
        0 < i < rooms.len() && #[trigger] corridor_to(rooms, i, x, y) ==> grid.in_bounds(x, y)
            && grid.tile_at(x, y) == TileClassification::Floor
}

/// Adding a room to the list carves its interior and, if it is not the
/// first, the corridor from the last room, and nothing else.
pub proof fn lemma_carved_push(rooms: Seq<Rect>, room: Rect, x: int, y: int)
    ensures
        carved(rooms.push(room), x, y) == (carved(rooms, x, y) || room.interior_contains(x, y) || (
        rooms.len() > 0 && on_corridor(rooms.last().spec_center(), room.spec_center(), x, y))),
{
    let longer = rooms.push(room);
    let n = rooms.len() as int;
    if in_some_room(longer, x, y) {
        let i = choose|i: int|
            0 <= i < longer.len() && (#[trigger] longer[i]).interior_contains(x, y);
        if i < n {
            assert(rooms[i].interior_contains(x, y));
        }
    }
    if on_some_corridor(longer, x, y) {
        let i = choose|i: int| 0 < i < longer.len() && #[trigger] corridor_to(longer, i, x, y);
        if i < n {
            assert(longer[i - 1] == rooms[i - 1]);
            assert(corridor_to(rooms, i, x, y));
        } else {
            assert(longer[i - 1] == rooms.last());
        }
    }
    if in_some_room(rooms, x, y) {
        let i = choose|i: int|
            0 <= i < rooms.len() && (#[trigger] rooms[i]).interior_contains(x, y);
        assert(longer[i].interior_contains(x, y));
    }
    if on_some_corridor(rooms, x, y) {
        let i = choose|i: int| 0 < i < rooms.len() && #[trigger] corridor_to(rooms, i, x, y);
        assert(longer[i - 1] == rooms[i - 1]);
        assert(longer[i] == rooms[i]);
        assert(corridor_to(longer, i, x, y));
    }
    if room.interior_contains(x, y) {
        assert(longer[n].interior_contains(x, y));
    }
    if n > 0 && on_corridor(rooms.last().spec_center(), room.spec_center(), x, y) {
        assert(longer[n - 1] == rooms.last());
        assert(longer[n] == room);
        assert(corridor_to(longer, n, x, y));
    }
}

/// An empty room list carves nothing.
pub proof fn lemma_carved_empty(x: int, y: int)
    ensures
        !carved(Seq::<Rect>::empty(), x, y),
{
}

/// What rooms inside the border carve lies inside the border too.
pub proof fn lemma_carved_inside(rooms: Seq<Rect>, width: int, height: int, x: int, y: int)
    requires
        all_inside_border(rooms, width, height),
        carved(rooms, x, y),
    ensures
        1 <= x <= width - 2,
        1 <= y <= height - 2,
{
    if in_some_room(rooms, x, y) {
        let i = choose|i: int|
            0 <= i < rooms.len() && (#[trigger] rooms[i]).interior_contains(x, y);
        assert(inside_border(rooms[i], width, height));
    } else {
        let i = choose|i: int| 0 < i < rooms.len() && #[trigger] corridor_to(rooms, i, x, y);
        assert(inside_border(rooms[i], width, height));
        assert(inside_border(rooms[i - 1], width, height));
    }
}

/// The accepted rooms are candidates, in the order of the candidates; they lie
/// inside the border and no two of them intersect.
pub proof fn lemma_accepted_rooms(width: int, height: int, candidates: Seq<Rect>)
    ensures
        accepted_rooms(width, height, candidates).len() <= candidates.len(),
        all_inside_border(accepted_rooms(width, height, candidates), width, height),
        pairwise_disjoint(accepted_rooms(width, height, candidates)),
        forall|i: int|
            0 <= i < accepted_rooms(width, height, candidates).len() ==> candidates.contains(
                #[trigger] accepted_rooms(width, height, candidates)[i],
            ),
    decreases candidates.len(),
{
    if candidates.len() > 0 {
        let shorter = candidates.drop_last();
        let earlier = accepted_rooms(width, height, shorter);
        lemma_accepted_rooms(width, height, shorter);
        let rooms = accepted_rooms(width, height, candidates);
        assert forall|i: int| 0 <= i < rooms.len() implies candidates.contains(
            #[trigger] rooms[i],
        ) by {
            if i < earlier.len() {
                assert(shorter.contains(earlier[i]));
                let j = choose|j: int| 0 <= j < shorter.len() && shorter[j] == earlier[i];
                assert(candidates[j] == rooms[i]);
            } else {
                assert(candidates[candidates.len() - 1] == rooms[i]);
            }
        }
        if accepts(width, height, earlier, candidates.last()) {
            assert forall|i: int, j: int| 0 <= i < j < rooms.len() implies !(#[trigger] rooms[i])
                .spec_intersects(#[trigger] rooms[j]) by {
                if j < earlier.len() {
                    assert(!earlier[i].spec_intersects(earlier[j]));
                } else {
                    assert(!candidates.last().spec_intersects(earlier[i]));
                }
            }
        }
    }
}

/// A first candidate that lies inside the border is always accepted, and
/// stays the first room whatever follows.
pub proof fn lemma_first_room(width: int, height: int, candidates: Seq<Rect>)
    requires
        candidates.len() > 0,
        inside_border(candidates[0], width, height),
    ensures
        accepted_rooms(width, height, candidates).len() > 0,
        accepted_rooms(width, height, candidates)[0] == candidates[0],
    decreases candidates.len(),
{
    let shorter = candidates.drop_last();
    if shorter.len() > 0 {
        lemma_first_room(width, height, shorter);
    } else {
        assert(accepted_rooms(width, height, shorter) =~= Seq::<Rect>::empty());
    }
}

/// A grid that shows rooms inside the border has a wall on every cell of its
/// outer ring.
pub proof fn lemma_rooms_keep_border(grid: &TileGrid, rooms: Seq<Rect>)
    requires
        shows_rooms(grid, rooms),
        all_inside_border(rooms, grid.spec_width(), grid.spec_height()),
    ensures
        grid.perimeter_is_wall(),
{
    assert forall|x: int, y: int| grid.on_perimeter(x, y) implies #[trigger] grid.tile_at(x, y)
        == TileClassification::Wall by {
        if carved(rooms, x, y) {
            lemma_carved_inside(rooms, grid.spec_width(), grid.spec_height(), x, y);
        }
    }
}

/// In a grid that shows rooms inside the border, the centre of every room
/// that spans at least two cells on each axis is a floor cell.
pub proof fn lemma_center_is_floor(grid: &TileGrid, rooms: Seq<Rect>, i: int)
    requires
        shows_rooms(grid, rooms),
        all_inside_border(rooms, grid.spec_width(), grid.spec_height()),
        0 <= i < rooms.len(),
        rooms[i].spec_width() >= 2,
        rooms[i].spec_height() >= 2,
    ensures
        grid.in_bounds(rooms[i].spec_center().0, rooms[i].spec_center().1),
        grid.tile_at(rooms[i].spec_center().0, rooms[i].spec_center().1)
            == TileClassification::Floor,
{
    let c = rooms[i].spec_center();
    assert(inside_border(rooms[i], grid.spec_width(), grid.spec_height()));
    assert(rooms[i].interior_contains(c.0, c.1));
    assert(in_some_room(rooms, c.0, c.1));
}

/// In a grid that shows rooms inside the border, every cell of every
/// corridor between consecutive rooms is a floor cell.
pub proof fn lemma_corridors_open(grid: &TileGrid, rooms: Seq<Rect>)
    requires
        shows_rooms(grid, rooms),
        all_inside_border(rooms, grid.spec_width(), grid.spec_height()),
    ensures
        corridors_open(grid, rooms),
{
    assert forall|i: int, x: int, y: int|
        0 < i < rooms.len() && #[trigger] corridor_to(rooms, i, x, y) implies grid.in_bounds(x, y)
        && grid.tile_at(x, y) == TileClassification::Floor by {
        assert(on_some_corridor(rooms, x, y));
        lemma_carved_inside(rooms, grid.spec_width(), grid.spec_height(), x, y);
    }
}

} // verus!
