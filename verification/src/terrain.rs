//! Level-layout post-processing and population.
//!
//! The room-carving and cave-noise algorithms are collaborators: they hand
//! this module their layouts as plain grids.  This module owns everything
//! the simulation depends on: merging the layouts, carving the water
//! overlay, removing terrain unreachable from the player spawn, validating
//! doors, placing the stairs, and scattering items and robots.

use crate::data::NpcType;
use crate::entity::Entity;
use crate::geom::{abs_int, Coord};
use crate::grid::Grid;
use crate::rng::Rng;
use crate::spawner::spec_spawned_npc;
use crate::weapon::WeaponType;
use crate::world::World;
use vstd::prelude::*;

verus! {

/// The index of the last level; it has no stairs down.
pub const FINAL_LEVEL: u8 = 5;

/// Squared distance from the spawn a stairs tile must exceed.
pub const DISTANCE_FOR_STAIRS: u64 = 125;

/// A cell of the room-and-corridor layout; `None` is empty space the cave
/// layout shows through.
#[derive(Clone, Copy, PartialEq, Eq, Structural, Debug)]
pub enum RoomCell {
    Floor,
    Wall,
    Door,
}

/// A cell of the cave layout.
#[derive(Clone, Copy, PartialEq, Eq, Structural, Debug)]
pub enum CaveCell {
    Floor,
    Wall,
}

/// A cell of the finished level layout.
#[derive(Clone, Copy, PartialEq, Eq, Structural, Debug)]
pub enum LevelCell {
    Floor,
    CaveFloor,
    Wall,
    CaveWall,
    Door,
    Grass,
    Water,
    PlayerSpawn,
    Stairs,
}

/// Whether a cell kind can be walked over (doors count: they open).
pub open spec fn spec_walkable(c: LevelCell) -> bool {
    match c {
        LevelCell::Floor | LevelCell::CaveFloor | LevelCell::Door | LevelCell::Grass
            | LevelCell::PlayerSpawn | LevelCell::Stairs => true,
        _ => false,
    }
}

/// Whether a cell kind blocks movement outright.
pub open spec fn spec_barrier(c: LevelCell) -> bool {
    match c {
        LevelCell::Wall | LevelCell::CaveWall | LevelCell::Water => true,
        _ => false,
    }
}

/// Whether two coordinates are one cardinal step apart.
pub open spec fn spec_cardinal_adjacent(a: Coord, b: Coord) -> bool {
    ||| (a.x == b.x && abs_int(a.y - b.y) == 1)
    ||| (a.y == b.y && abs_int(a.x - b.x) == 1)
}

/// Whether a sequence of coordinates is a walkable 4-directional path.
pub open spec fn spec_path_ok(g: Grid<LevelCell>, path: Seq<Coord>) -> bool {
    &&& path.len() >= 1
    &&& forall|i: int|
        0 <= i < path.len() ==> g.in_bounds(#[trigger] path[i]) && spec_walkable(
            g.spec_get(path[i]),
        )
    &&& forall|i: int|
        0 <= i < path.len() - 1 ==> spec_cardinal_adjacent(#[trigger] path[i], path[i + 1])
}

/// Whether `to` is connected to `from` by a 4-directional walkable path.
pub open spec fn spec_reachable(g: Grid<LevelCell>, from: Coord, to: Coord) -> bool {
    exists|path: Seq<Coord>|
        #[trigger] spec_path_ok(g, path) && path.first() == from && path.last() == to
}

/// A walkable cell reaches itself.
proof fn lemma_reachable_refl(g: Grid<LevelCell>, c: Coord)
    requires
        g.in_bounds(c),
        spec_walkable(g.spec_get(c)),
    ensures
        spec_reachable(g, c, c),
{
    let path = seq![c];
    assert(spec_path_ok(g, path));
    assert(path.first() == c && path.last() == c);
}

/// Reachability extends across one walkable cardinal step.
proof fn lemma_reachable_step(g: Grid<LevelCell>, s: Coord, c: Coord, n: Coord)
    requires
        spec_reachable(g, s, c),
        g.in_bounds(n),
        spec_walkable(g.spec_get(n)),
        spec_cardinal_adjacent(c, n),
    ensures
        spec_reachable(g, s, n),
{
    let path = choose|path: Seq<Coord>|
        #[trigger] spec_path_ok(g, path) && path.first() == s && path.last() == c;
    let extended = path.push(n);
    assert forall|i: int|
        0 <= i < extended.len() implies g.in_bounds(#[trigger] extended[i]) && spec_walkable(
        g.spec_get(extended[i]),
    ) by {
        if i < path.len() {
            assert(extended[i] == path[i]);
        }
    }
    assert forall|i: int|
        0 <= i < extended.len() - 1 implies spec_cardinal_adjacent(
        #[trigger] extended[i],
        extended[i + 1],
    ) by {
        if i < path.len() - 1 {
            assert(extended[i] == path[i] && extended[i + 1] == path[i + 1]);
        } else {
            assert(extended[i] == path.last() && extended[i + 1] == n);
        }
    }
    assert(spec_path_ok(g, extended));
    assert(extended.first() == s && extended.last() == n);
}

/// Every cell a path visits is reachable from its start.
proof fn lemma_path_prefix_reachable(g: Grid<LevelCell>, path: Seq<Coord>, i: int)
    requires
        spec_path_ok(g, path),
        0 <= i < path.len(),
    ensures
        spec_reachable(g, path.first(), path[i]),
{
    let prefix = path.subrange(0, i + 1);
    assert(spec_path_ok(g, prefix));
    assert(prefix.first() == path.first() && prefix.last() == path[i]);
}

/// Reachability carries over to a second grid in which every cell reachable
/// and walkable in the first is still walkable.
proof fn lemma_reachable_transfer(g1: Grid<LevelCell>, g2: Grid<LevelCell>, s: Coord, c: Coord)
    requires
        spec_reachable(g1, s, c),
        g1.spec_width() == g2.spec_width(),
        g1.spec_height() == g2.spec_height(),
        forall|d: Coord|
            g1.in_bounds(d) && spec_walkable(#[trigger] g1.spec_get(d)) && spec_reachable(g1, s, d)
                ==> spec_walkable(g2.spec_get(d)),
    ensures
        spec_reachable(g2, s, c),
{
    let path = choose|path: Seq<Coord>|
        #[trigger] spec_path_ok(g1, path) && path.first() == s && path.last() == c;
    assert forall|i: int|
        0 <= i < path.len() implies g2.in_bounds(#[trigger] path[i]) && spec_walkable(
        g2.spec_get(path[i]),
    ) by {
        lemma_path_prefix_reachable(g1, path, i);
    }
    assert(spec_path_ok(g2, path));
}

/// The number of `false` entries of a boolean sequence.
pub open spec fn spec_false_count(s: Seq<bool>) -> int
    decreases s.len(),
{
    if s.len() == 0 {
        0
    } else {
        spec_false_count(s.drop_last()) + if s.last() {
            0int
        } else {
            1int
        }
    }
}

proof fn lemma_false_count_bounds(s: Seq<bool>)
    ensures
        0 <= spec_false_count(s) <= s.len(),
    decreases s.len(),
{
    if s.len() > 0 {
        lemma_false_count_bounds(s.drop_last());
    }
}

/// Marking a `false` entry `true` lowers the count by one.
proof fn lemma_false_count_update(s: Seq<bool>, i: int)
    requires
        0 <= i < s.len(),
        !s[i],
    ensures
        spec_false_count(s.update(i, true)) == spec_false_count(s) - 1,
    decreases s.len(),
{
    let upd = s.update(i, true);
    if i == s.len() - 1 {
        assert(upd.drop_last() =~= s.drop_last());
    } else {
        assert(upd.drop_last() =~= s.drop_last().update(i, true));
        lemma_false_count_update(s.drop_last(), i);
    }
}

/// Whether the visited grid is closed under walkable cardinal steps except
/// at the coordinates still on the worklist.
spec fn spec_fill_closed_except(
    map: Grid<LevelCell>,
    visited: Grid<bool>,
    pending: Seq<Coord>,
) -> bool {
    forall|c: Coord, n: Coord|
        visited.in_bounds(c) && #[trigger] visited.spec_get(c) && !pending.contains(c)
            && map.in_bounds(n) && spec_walkable(map.spec_get(n)) && #[trigger]
        spec_cardinal_adjacent(c, n) ==> visited.spec_get(n)
}

/// Marks every cell connected to `start` by walkable cardinal steps: a cell
/// is marked if and only if it is walkable and reachable from `start`.
/// One flood-fill step: marks and enqueues the neighbour `n` of the
/// reachable cell `c` when it is an unvisited walkable cell of the grid.
fn visit_neighbour(
    map: &Grid<LevelCell>,
    visited: &mut Grid<bool>,
    queue: &mut Vec<Coord>,
    start: Coord,
    c: Coord,
    n: Coord,
) -> (marked: bool)
    requires
        map.wf(),
        old(visited).wf(),
        old(visited).spec_width() == map.spec_width(),
        old(visited).spec_height() == map.spec_height(),
        map.in_bounds(c),
        old(visited).spec_get(c),
        forall|c2: Coord|
            old(visited).in_bounds(c2) && #[trigger] old(visited).spec_get(c2) ==> spec_walkable(
                map.spec_get(c2),
            ) && spec_reachable(*map, start, c2),
        spec_cardinal_adjacent(c, n),
    ensures
        final(visited).wf(),
        final(visited).spec_width() == map.spec_width(),
        final(visited).spec_height() == map.spec_height(),
        forall|o: Coord|
            old(visited).in_bounds(o) && #[trigger] old(visited).spec_get(o)
                ==> final(visited).spec_get(o),
        forall|c2: Coord|
            final(visited).in_bounds(c2) && #[trigger] final(visited).spec_get(c2)
                ==> spec_walkable(map.spec_get(c2)) && spec_reachable(*map, start, c2),
        map.in_bounds(n) && spec_walkable(map.spec_get(n)) ==> final(visited).spec_get(n),
        forall|y: Coord| old(queue)@.contains(y) ==> final(queue)@.contains(y),
        forall|i: int|
            0 <= i < old(queue)@.len() ==> #[trigger] final(queue)@[i] == old(queue)@[i],
        final(queue)@.len() >= old(queue)@.len(),
        marked ==> {
            &&& map.in_bounds(n) && spec_walkable(map.spec_get(n)) && !old(visited).spec_get(n)
            &&& spec_false_count(final(visited)@) == spec_false_count(old(visited)@) - 1
            &&& forall|o: Coord|
                old(visited).in_bounds(o) && o != n ==> final(visited).spec_get(o) == old(
                    visited,
                ).spec_get(o)
            &&& final(visited).spec_get(n)
            &&& final(queue)@ == old(queue)@.push(n)
            &&& final(queue)@.contains(n)
        },
        !marked ==> {
            &&& *final(visited) == *old(visited)
            &&& *final(queue) == *old(queue)
            &&& !(map.in_bounds(n) && spec_walkable(map.spec_get(n)) && !old(
                visited,
            ).spec_get(n))
        },
{
    if !map.contains_coord(n) {
        return false;
    }
    let cell = map.get(n);
    let walk = match cell {
        LevelCell::Floor | LevelCell::CaveFloor | LevelCell::Door | LevelCell::Grass
            | LevelCell::PlayerSpawn | LevelCell::Stairs => true,
        _ => false,
    };
    if !walk {
        return false;
    }
    if visited.get(n) {
        return false;
    }
    proof {
        visited.lemma_index(n);
        lemma_false_count_update(visited@, visited.spec_index_of(n));
        lemma_reachable_step(*map, start, c, n);
    }
    visited.set(n, true);
    queue.push(n);
    proof {
        assert(queue@.last() == n);
        assert(queue@.contains(n));
        assert forall|y: Coord| old(queue)@.contains(y) implies queue@.contains(y) by {
            let j = choose|j: int| 0 <= j < old(queue)@.len() && old(queue)@[j] == y;
            assert(queue@[j] == y);
        }
    }
    true
}

#[verifier::rlimit(100)]
fn flood_fill(map: &Grid<LevelCell>, start: Coord) -> (visited: Grid<bool>)
    requires
        map.wf(),
        map.in_bounds(start),
        spec_walkable(map.spec_get(start)),
    ensures
        visited.wf(),
        visited.spec_width() == map.spec_width(),
        visited.spec_height() == map.spec_height(),
        forall|c: Coord|
            visited.in_bounds(c) && #[trigger] visited.spec_get(c) ==> spec_walkable(
                map.spec_get(c),
            ) && spec_reachable(*map, start, c),
        forall|c: Coord|
            map.in_bounds(c) && spec_walkable(#[trigger] map.spec_get(c)) && spec_reachable(
                *map,
                start,
                c,
            ) ==> visited.spec_get(c),
{
    let mut visited: Grid<bool> = Grid::new_filled(map.width(), map.height(), false);
    let ghost filled = visited;
    proof {
        visited.lemma_index(start);
    }
    visited.set(start, true);
    let mut queue: Vec<Coord> = Vec::new();
    queue.push(start);
    proof {
        lemma_reachable_refl(*map, start);
        assert forall|c: Coord| visited.in_bounds(c) && #[trigger] visited.spec_get(c) implies c
            == start by {
            if c != start {
                filled.lemma_index(c);
                assert(filled.spec_get(c) == false);
            }
        }
        assert(queue@[0] == start);
        assert(queue@.contains(start));
    }
    loop
        invariant
            map.wf(),
            visited.wf(),
            visited.spec_width() == map.spec_width(),
            visited.spec_height() == map.spec_height(),
            map.in_bounds(start),
            spec_walkable(map.spec_get(start)),
            visited.spec_get(start),
            forall|i: int|
                0 <= i < queue@.len() ==> map.in_bounds(#[trigger] queue@[i])
                    && visited.spec_get(queue@[i]),
            forall|c: Coord|
                visited.in_bounds(c) && #[trigger] visited.spec_get(c) ==> spec_walkable(
                    map.spec_get(c),
                ) && spec_reachable(*map, start, c),
            spec_fill_closed_except(*map, visited, queue@),
        ensures
            queue@.len() == 0,
            visited.wf(),
            visited.spec_width() == map.spec_width(),
            visited.spec_height() == map.spec_height(),
            visited.spec_get(start),
            forall|c: Coord|
                visited.in_bounds(c) && #[trigger] visited.spec_get(c) ==> spec_walkable(
                    map.spec_get(c),
                ) && spec_reachable(*map, start, c),
            spec_fill_closed_except(*map, visited, queue@),
        decreases spec_false_count(visited@), queue@.len(),
    {
        proof {
            lemma_false_count_bounds(visited@);
        }
        let ghost queue_at_entry = queue@;
        let c = match queue.pop() {
            Some(c) => c,
            None => {
                break ;
            },
        };
        let ghost popped_queue = queue@;
        let ghost before = visited;
        proof {
            assert(queue_at_entry =~= popped_queue.push(c));
            assert(queue_at_entry[queue_at_entry.len() - 1] == c);
            assert(map.in_bounds(c));
            assert(visited.spec_get(c));
        }
        let north = Coord { x: c.x, y: c.y - 1 };
        let east = Coord { x: c.x + 1, y: c.y };
        let south = Coord { x: c.x, y: c.y + 1 };
        let west = Coord { x: c.x - 1, y: c.y };
        let ghost count0 = spec_false_count(visited@);
        let m1 = visit_neighbour(map, &mut visited, &mut queue, start, c, north);
        let ghost count1 = spec_false_count(visited@);
        let m2 = visit_neighbour(map, &mut visited, &mut queue, start, c, east);
        let ghost count2 = spec_false_count(visited@);
        let m3 = visit_neighbour(map, &mut visited, &mut queue, start, c, south);
        let ghost count3 = spec_false_count(visited@);
        let m4 = visit_neighbour(map, &mut visited, &mut queue, start, c, west);
        let marked_any = m1 || m2 || m3 || m4;
        proof {
            lemma_false_count_bounds(visited@);
            if marked_any {
                assert(count1 <= count0 && count2 <= count1 && count3 <= count2
                    && spec_false_count(visited@) <= count3);
                assert(spec_false_count(visited@) < count0);
            } else {
                assert(visited == before);
                assert(queue@ =~= popped_queue);
                assert(queue@.len() < queue_at_entry.len());
            }
        }
        proof {
            // the popped cell is now closed: every walkable neighbour is
            // one of the four scanned cells
            assert forall|c2: Coord, n: Coord|
                visited.in_bounds(c2) && #[trigger] visited.spec_get(c2) && !queue@.contains(c2)
                    && map.in_bounds(n) && spec_walkable(map.spec_get(n)) && #[trigger]
                spec_cardinal_adjacent(c2, n) implies visited.spec_get(n) by {
                if c2 == c {
                    assert(n == north || n == east || n == south || n == west);
                } else {
                    // a marked, off-worklist cell other than the popped one
                    // was marked and closed before this iteration
                    assert(!popped_queue.contains(c2)) by {
                        if popped_queue.contains(c2) {
                            let j = choose|j: int|
                                0 <= j < popped_queue.len() && popped_queue[j] == c2;
                            assert(queue@[j] == c2);
                        }
                    }
                    assert(before.spec_get(c2)) by {
                        if !before.spec_get(c2) {
                            assert(queue@.contains(c2));
                        }
                    }
                    assert(!popped_queue.push(c).contains(c2)) by {
                        if popped_queue.push(c).contains(c2) {
                            let j = choose|j: int|
                                0 <= j < popped_queue.push(c).len() && popped_queue.push(c)[j]
                                    == c2;
                            if j < popped_queue.len() {
                                assert(popped_queue[j] == c2);
                            } else {
                                assert(c2 == c);
                            }
                        }
                    }
                    assert(before.spec_get(n));
                }
            }
        }
    }
    proof {
        assert forall|c: Coord|
            map.in_bounds(c) && spec_walkable(#[trigger] map.spec_get(c)) && spec_reachable(
            *map,
            start,
            c,
        ) implies visited.spec_get(c) by {
            let path = choose|path: Seq<Coord>|
                #[trigger] spec_path_ok(*map, path) && path.first() == start && path.last() == c;
            lemma_closed_covers(*map, visited, path, path.len() - 1);
        }
    }
    visited
}

/// Why level generation failed.
#[derive(Clone, Copy, PartialEq, Eq, Structural, Debug)]
pub enum TerrainError {
    /// No floor tile lies far enough from the spawn to hold the stairs.
    NoStairsLocation,
}

/// The merged kind of one cell: the room-and-corridor layout takes
/// precedence where it is non-empty, and the cave layout shows through the
/// gaps.
pub open spec fn spec_combined_cell(rc: Option<RoomCell>, cc: CaveCell) -> LevelCell {
    match rc {
        Some(RoomCell::Floor) => LevelCell::Floor,
        Some(RoomCell::Wall) => LevelCell::Wall,
        Some(RoomCell::Door) => LevelCell::Door,
        None => match cc {
            CaveCell::Floor => LevelCell::CaveFloor,
            CaveCell::Wall => LevelCell::CaveWall,
        },
    }
}

/// The merged kind of a cell with the player spawn marked.
pub open spec fn spec_base_cell(
    rooms: Grid<Option<RoomCell>>,
    cave: Grid<CaveCell>,
    spawn: Coord,
    c: Coord,
) -> LevelCell {
    if c == spawn {
        LevelCell::PlayerSpawn
    } else {
        spec_combined_cell(rooms.spec_get(c), cave.spec_get(c))
    }
}

/// How the water overlay rewrites one merged cell: the spawn is immune,
/// walls sometimes erode into water, and everything else under the overlay
/// becomes water.
pub open spec fn spec_water_cell_ok(
    base: LevelCell,
    wet: bool,
    out: LevelCell,
) -> bool {
    if !wet || base == LevelCell::PlayerSpawn {
        out == base
    } else {
        match base {
            LevelCell::Wall | LevelCell::CaveWall => out == base || out == LevelCell::Water,
            _ => out == LevelCell::Water,
        }
    }
}

/// Whether the cell at `c` is on the grid and walkable.
pub open spec fn spec_side_walk(g: Grid<LevelCell>, c: Coord) -> bool {
    g.in_bounds(c) && spec_walkable(g.spec_get(c))
}

/// Whether the cell at `c` is off the grid or blocks movement.
pub open spec fn spec_side_barrier(g: Grid<LevelCell>, c: Coord) -> bool {
    !g.in_bounds(c) || spec_barrier(g.spec_get(c))
}

/// Whether a door at `c` separates two walkable cells through a barrier:
/// walkable to its west and east with barriers above and below, or the
/// other way around.
pub open spec fn spec_door_valid(g: Grid<LevelCell>, c: Coord) -> bool {
    let north = Coord { x: c.x, y: (c.y - 1) as i32 };
    let south = Coord { x: c.x, y: (c.y + 1) as i32 };
    let west = Coord { x: (c.x - 1) as i32, y: c.y };
    let east = Coord { x: (c.x + 1) as i32, y: c.y };
    ||| (spec_side_walk(g, west) && spec_side_walk(g, east) && spec_side_barrier(g, north)
        && spec_side_barrier(g, south))
    ||| (spec_side_walk(g, north) && spec_side_walk(g, south) && spec_side_barrier(g, west)
        && spec_side_barrier(g, east))
}

/// Door validity is a function of each cell's walk / barrier class alone.
proof fn lemma_door_valid_stable(g1: Grid<LevelCell>, g2: Grid<LevelCell>, c: Coord)
    requires
        g1.spec_width() == g2.spec_width(),
        g1.spec_height() == g2.spec_height(),
        forall|d: Coord|
            g1.in_bounds(d) ==> spec_walkable(#[trigger] g1.spec_get(d)) == spec_walkable(
                g2.spec_get(d),
            ) && spec_barrier(g1.spec_get(d)) == spec_barrier(g2.spec_get(d)),
        spec_door_valid(g1, c),
        g1.in_bounds(c),
    ensures
        spec_door_valid(g2, c),
{
}

/// In a closed visited grid whose start is marked, every cell of a walkable
/// path from the start is marked.
proof fn lemma_closed_covers(
    map: Grid<LevelCell>,
    visited: Grid<bool>,
    path: Seq<Coord>,
    i: int,
)
    requires
        map.wf(),
        visited.wf(),
        visited.spec_width() == map.spec_width(),
        visited.spec_height() == map.spec_height(),
        spec_path_ok(map, path),
        visited.spec_get(path.first()),
        spec_fill_closed_except(map, visited, Seq::<Coord>::empty()),
        0 <= i < path.len(),
    ensures
        visited.spec_get(path[i]),
    decreases i,
{
    if i > 0 {
        lemma_closed_covers(map, visited, path, i - 1);
        assert(spec_cardinal_adjacent(path[i - 1], path[i]));
        assert(!Seq::<Coord>::empty().contains(path[i - 1]));
    }
}

/// The wall kind an unreachable walkable cell collapses into.
pub open spec fn spec_wall_of(c: LevelCell) -> LevelCell {
    match c {
        LevelCell::CaveFloor => LevelCell::CaveWall,
        _ => LevelCell::Wall,
    }
}

/// Merges the two layouts, marks the spawn, and carves the water overlay:
/// the spawn cell is immune, overlay walls sometimes erode into water, and
/// every other overlaid cell becomes water.
fn build_base(
    rooms: &Grid<Option<RoomCell>>,
    cave: &Grid<CaveCell>,
    water: &Grid<bool>,
    spawn: Coord,
    rng: &mut Rng,
) -> (out: Grid<LevelCell>)
    requires
        rooms.wf(),
        cave.wf(),
        water.wf(),
        cave.spec_width() == rooms.spec_width(),
        cave.spec_height() == rooms.spec_height(),
        water.spec_width() == rooms.spec_width(),
        water.spec_height() == rooms.spec_height(),
        rooms.in_bounds(spawn),
    ensures
        out.wf(),
        out.spec_width() == rooms.spec_width(),
        out.spec_height() == rooms.spec_height(),
        forall|c: Coord|
            out.in_bounds(c) ==> spec_water_cell_ok(
                spec_base_cell(*rooms, *cave, spawn, c),
                water.spec_get(c),
                #[trigger] out.spec_get(c),
            ),
{
    let width = rooms.width();
    let height = rooms.height();
    let mut out: Grid<LevelCell> = Grid::new_filled(width, height, LevelCell::Wall);
    let mut y: usize = 0;
    while y < height
        invariant
            rooms.wf(),
            cave.wf(),
            water.wf(),
            out.wf(),
            cave.spec_width() == rooms.spec_width(),
            cave.spec_height() == rooms.spec_height(),
            water.spec_width() == rooms.spec_width(),
            water.spec_height() == rooms.spec_height(),
            out.spec_width() == rooms.spec_width(),
            out.spec_height() == rooms.spec_height(),
            width == rooms.spec_width(),
            height == rooms.spec_height(),
            y <= height,
            forall|c: Coord|
                out.in_bounds(c) && c.y < y ==> spec_water_cell_ok(
                    spec_base_cell(*rooms, *cave, spawn, c),
                    water.spec_get(c),
                    #[trigger] out.spec_get(c),
                ),
        decreases height - y,
    {
        let mut x: usize = 0;
        while x < width
            invariant
                rooms.wf(),
                cave.wf(),
                water.wf(),
                out.wf(),
                cave.spec_width() == rooms.spec_width(),
                cave.spec_height() == rooms.spec_height(),
                water.spec_width() == rooms.spec_width(),
                water.spec_height() == rooms.spec_height(),
                out.spec_width() == rooms.spec_width(),
                out.spec_height() == rooms.spec_height(),
                width == rooms.spec_width(),
                height == rooms.spec_height(),
                y < height,
                x <= width,
                forall|c: Coord|
                    out.in_bounds(c) && (c.y < y || (c.y == y && c.x < x))
                        ==> spec_water_cell_ok(
                        spec_base_cell(*rooms, *cave, spawn, c),
                        water.spec_get(c),
                        #[trigger] out.spec_get(c),
                    ),
            decreases width - x,
        {
            let c = Coord { x: x as i32, y: y as i32 };
            let base: LevelCell = if c.x == spawn.x && c.y == spawn.y {
                LevelCell::PlayerSpawn
            } else {
                match rooms.get(c) {
                    Some(RoomCell::Floor) => LevelCell::Floor,
                    Some(RoomCell::Wall) => LevelCell::Wall,
                    Some(RoomCell::Door) => LevelCell::Door,
                    None => match cave.get(c) {
                        CaveCell::Floor => LevelCell::CaveFloor,
                        CaveCell::Wall => LevelCell::CaveWall,
                    },
                }
            };
            let wet = water.get(c);
            let cell: LevelCell = if !wet {
                base
            } else {
                match base {
                    LevelCell::PlayerSpawn => base,
                    LevelCell::Wall | LevelCell::CaveWall => {
                        // an overlaid wall erodes into water a quarter of
                        // the time
                        if rng.range_inclusive(0, 100) > 75 {
                            LevelCell::Water
                        } else {
                            base
                        }
                    },
                    _ => LevelCell::Water,
                }
            };
            out.set(c, cell);
            x += 1;
        }
        y += 1;
    }
    out
}

/// Collapses every walkable cell the flood fill did not reach into its
/// wall kind.
fn remove_unreachable(map: &mut Grid<LevelCell>, visited: &Grid<bool>)
    requires
        old(map).wf(),
        visited.wf(),
        visited.spec_width() == old(map).spec_width(),
        visited.spec_height() == old(map).spec_height(),
    ensures
        final(map).wf(),
        final(map).spec_width() == old(map).spec_width(),
        final(map).spec_height() == old(map).spec_height(),
        forall|c: Coord|
            old(map).in_bounds(c) ==> #[trigger] final(map).spec_get(c) == (if spec_walkable(
                old(map).spec_get(c),
            ) && !visited.spec_get(c) {
                spec_wall_of(old(map).spec_get(c))
            } else {
                old(map).spec_get(c)
            }),
{
    let width = map.width();
    let height = map.height();
    let ghost g0 = *map;
    let mut y: usize = 0;
    while y < height
        invariant
            g0.wf(),
            map.wf(),
            visited.wf(),
            visited.spec_width() == g0.spec_width(),
            visited.spec_height() == g0.spec_height(),
            map.spec_width() == g0.spec_width(),
            map.spec_height() == g0.spec_height(),
            width == g0.spec_width(),
            height == g0.spec_height(),
            y <= height,
            forall|c: Coord|
                g0.in_bounds(c) && c.y < y ==> #[trigger] map.spec_get(c) == (if spec_walkable(
                    g0.spec_get(c),
                ) && !visited.spec_get(c) {
                    spec_wall_of(g0.spec_get(c))
                } else {
                    g0.spec_get(c)
                }),
            forall|c: Coord|
                g0.in_bounds(c) && c.y >= y ==> #[trigger] map.spec_get(c) == g0.spec_get(c),
        decreases height - y,
    {
        let mut x: usize = 0;
        while x < width
            invariant
                g0.wf(),
                map.wf(),
                visited.wf(),
                visited.spec_width() == g0.spec_width(),
                visited.spec_height() == g0.spec_height(),
                map.spec_width() == g0.spec_width(),
                map.spec_height() == g0.spec_height(),
                width == g0.spec_width(),
                height == g0.spec_height(),
                y < height,
                x <= width,
                forall|c: Coord|
                    g0.in_bounds(c) && (c.y < y || (c.y == y && c.x < x)) ==> #[trigger]
                    map.spec_get(c) == (if spec_walkable(g0.spec_get(c)) && !visited.spec_get(c) {
                        spec_wall_of(g0.spec_get(c))
                    } else {
                        g0.spec_get(c)
                    }),
                forall|c: Coord|
                    g0.in_bounds(c) && (c.y > y || (c.y == y && c.x >= x)) ==> #[trigger]
                    map.spec_get(c) == g0.spec_get(c),
            decreases width - x,
        {
            let c = Coord { x: x as i32, y: y as i32 };
            let cell = map.get(c);
            let walk = match cell {
                LevelCell::Floor | LevelCell::CaveFloor | LevelCell::Door | LevelCell::Grass
                    | LevelCell::PlayerSpawn | LevelCell::Stairs => true,
                _ => false,
            };
            if walk && !visited.get(c) {
                let wall = match cell {
                    LevelCell::CaveFloor => LevelCell::CaveWall,
                    _ => LevelCell::Wall,
                };
                map.set(c, wall);
            }
            x += 1;
        }
        y += 1;
    }
}

/// Whether the door at `c` separates two walkable cells through a barrier.
fn door_valid_at(map: &Grid<LevelCell>, c: Coord) -> (b: bool)
    requires
        map.wf(),
        map.in_bounds(c),
    ensures
        b == spec_door_valid(*map, c),
{
    let north = Coord { x: c.x, y: c.y - 1 };
    let south = Coord { x: c.x, y: c.y + 1 };
    let west = Coord { x: c.x - 1, y: c.y };
    let east = Coord { x: c.x + 1, y: c.y };
    let wn = side_walk(map, north);
    let ws = side_walk(map, south);
    let ww = side_walk(map, west);
    let we = side_walk(map, east);
    let bn = side_barrier(map, north);
    let bs = side_barrier(map, south);
    let bw = side_barrier(map, west);
    let be = side_barrier(map, east);
    (ww && we && bn && bs) || (wn && ws && bw && be)
}

/// Whether the cell at `c` is on the grid and walkable.
fn side_walk(map: &Grid<LevelCell>, c: Coord) -> (b: bool)
    requires
        map.wf(),
    ensures
        b == spec_side_walk(*map, c),
{
    if map.contains_coord(c) {
        match map.get(c) {
            LevelCell::Floor | LevelCell::CaveFloor | LevelCell::Door | LevelCell::Grass
                | LevelCell::PlayerSpawn | LevelCell::Stairs => true,
            _ => false,
        }
    } else {
        false
    }
}

/// Whether the cell at `c` is off the grid or blocks movement.
fn side_barrier(map: &Grid<LevelCell>, c: Coord) -> (b: bool)
    requires
        map.wf(),
    ensures
        b == spec_side_barrier(*map, c),
{
    if map.contains_coord(c) {
        match map.get(c) {
            LevelCell::Wall | LevelCell::CaveWall | LevelCell::Water => true,
            _ => false,
        }
    } else {
        true
    }
}

/// Every cell keeps its walk and barrier class between the two grids.
pub open spec fn spec_classes_equal(g1: Grid<LevelCell>, g2: Grid<LevelCell>) -> bool {
    &&& g1.spec_width() == g2.spec_width()
    &&& g1.spec_height() == g2.spec_height()
    &&& forall|d: Coord|
        g1.in_bounds(d) ==> spec_walkable(#[trigger] g1.spec_get(d)) == spec_walkable(
            g2.spec_get(d),
        ) && spec_barrier(g1.spec_get(d)) == spec_barrier(g2.spec_get(d))
}

/// Drops every door that does not separate two walkable cells through a
/// barrier, replacing it with floor.
fn remove_invalid_doors(map: &mut Grid<LevelCell>)
    requires
        old(map).wf(),
    ensures
        final(map).wf(),
        final(map).spec_width() == old(map).spec_width(),
        final(map).spec_height() == old(map).spec_height(),
        forall|c: Coord|
            old(map).in_bounds(c) ==> #[trigger] final(map).spec_get(c) == (if old(
                map,
            ).spec_get(c) == LevelCell::Door && !spec_door_valid(*old(map), c) {
                LevelCell::Floor
            } else {
                old(map).spec_get(c)
            }),
        spec_classes_equal(*old(map), *final(map)),
{
    let width = map.width();
    let height = map.height();
    let ghost g0 = *map;
    let mut y: usize = 0;
    while y < height
        invariant
            g0.wf(),
            map.wf(),
            map.spec_width() == g0.spec_width(),
            map.spec_height() == g0.spec_height(),
            width == g0.spec_width(),
            height == g0.spec_height(),
            y <= height,
            forall|c: Coord|
                g0.in_bounds(c) && (c.y < y) ==> #[trigger] map.spec_get(c) == (if g0.spec_get(c)
                    == LevelCell::Door && !spec_door_valid(g0, c) {
                    LevelCell::Floor
                } else {
                    g0.spec_get(c)
                }),
            forall|c: Coord|
                g0.in_bounds(c) && (c.y >= y) ==> #[trigger] map.spec_get(c) == g0.spec_get(c),
            spec_classes_equal(g0, *map),
        decreases height - y,
    {
        let mut x: usize = 0;
        while x < width
            invariant
                g0.wf(),
                map.wf(),
                map.spec_width() == g0.spec_width(),
                map.spec_height() == g0.spec_height(),
                width == g0.spec_width(),
                height == g0.spec_height(),
                y < height,
                x <= width,
                forall|c: Coord|
                    g0.in_bounds(c) && (c.y < y || (c.y == y && c.x < x)) ==> #[trigger]
                    map.spec_get(c) == (if g0.spec_get(c) == LevelCell::Door && !spec_door_valid(
                        g0,
                        c,
                    ) {
                        LevelCell::Floor
                    } else {
                        g0.spec_get(c)
                    }),
                forall|c: Coord|
                    g0.in_bounds(c) && (c.y > y || (c.y == y && c.x >= x)) ==> #[trigger]
                    map.spec_get(c) == g0.spec_get(c),
                spec_classes_equal(g0, *map),
            decreases width - x,
        {
            let c = Coord { x: x as i32, y: y as i32 };
            let cell = map.get(c);
            if cell == LevelCell::Door {
                let valid = door_valid_at(map, c);
                proof {
                    // validity reads only walk / barrier classes, which the
                    // pass preserves, so checking mid-pass agrees with the
                    // original grid
                    if spec_door_valid(*map, c) {
                        lemma_door_valid_stable(*map, g0, c);
                    }
                    if spec_door_valid(g0, c) {
                        lemma_door_valid_stable(g0, *map, c);
                    }
                }
                if !valid {
                    map.set(c, LevelCell::Floor);
                }
            }
            x += 1;
        }
        y += 1;
    }
}

/// Chooses the stairs tile: a floor or cave-floor cell whose squared
/// distance from the spawn exceeds the threshold, drawn from the qualifying
/// tiles; fails when no tile qualifies.
fn choose_stairs_coord(map: &mut Grid<LevelCell>, spawn: Coord, rng: &mut Rng) -> (r: Result<
    Coord,
    TerrainError,
>)
    requires
        old(map).wf(),
        old(map).in_bounds(spawn),
    ensures
        final(map).wf(),
        final(map).spec_width() == old(map).spec_width(),
        final(map).spec_height() == old(map).spec_height(),
        match r {
            Ok(sc) => {
                &&& old(map).in_bounds(sc)
                &&& (old(map).spec_get(sc) == LevelCell::Floor || old(map).spec_get(sc)
                    == LevelCell::CaveFloor)
                &&& sc.spec_distance2(spawn) > DISTANCE_FOR_STAIRS
                &&& final(map).spec_get(sc) == LevelCell::Stairs
                &&& forall|c: Coord|
                    old(map).in_bounds(c) && c != sc ==> #[trigger] final(map).spec_get(c) == old(
                        map,
                    ).spec_get(c)
            },
            Err(TerrainError::NoStairsLocation) => {
                &&& *final(map) == *old(map)
                &&& forall|c: Coord|
                    old(map).in_bounds(c) ==> !((old(map).spec_get(c) == LevelCell::Floor || old(
                        map,
                    ).spec_get(c) == LevelCell::CaveFloor) && c.spec_distance2(spawn)
                        > DISTANCE_FOR_STAIRS)
            },
        },
{
    let width = map.width();
    let height = map.height();
    let mut candidates: Vec<Coord> = Vec::new();
    let mut y: usize = 0;
    while y < height
        invariant
            map.wf(),
            map.in_bounds(spawn),
            width == map.spec_width(),
            height == map.spec_height(),
            y <= height,
            forall|i: int|
                0 <= i < candidates@.len() ==> {
                    let c = #[trigger] candidates@[i];
                    &&& map.in_bounds(c)
                    &&& (map.spec_get(c) == LevelCell::Floor || map.spec_get(c)
                        == LevelCell::CaveFloor)
                    &&& c.spec_distance2(spawn) > DISTANCE_FOR_STAIRS
                },
            forall|c: Coord|
                map.in_bounds(c) && c.y < y && (map.spec_get(c) == LevelCell::Floor
                    || map.spec_get(c) == LevelCell::CaveFloor) && c.spec_distance2(spawn)
                    > DISTANCE_FOR_STAIRS ==> candidates@.contains(c),
        decreases height - y,
    {
        let mut x: usize = 0;
        while x < width
            invariant
                map.wf(),
                map.in_bounds(spawn),
                width == map.spec_width(),
                height == map.spec_height(),
                y < height,
                x <= width,
                forall|i: int|
                    0 <= i < candidates@.len() ==> {
                        let c = #[trigger] candidates@[i];
                        &&& map.in_bounds(c)
                        &&& (map.spec_get(c) == LevelCell::Floor || map.spec_get(c)
                            == LevelCell::CaveFloor)
                        &&& c.spec_distance2(spawn) > DISTANCE_FOR_STAIRS
                    },
                forall|c: Coord|
                    map.in_bounds(c) && (c.y < y || (c.y == y && c.x < x)) && (map.spec_get(c)
                        == LevelCell::Floor || map.spec_get(c) == LevelCell::CaveFloor)
                        && c.spec_distance2(spawn) > DISTANCE_FOR_STAIRS
                        ==> candidates@.contains(c),
            decreases width - x,
        {
            let c = Coord { x: x as i32, y: y as i32 };
            let cell = map.get(c);
            let is_floor = match cell {
                LevelCell::Floor | LevelCell::CaveFloor => true,
                _ => false,
            };
            if is_floor {
                let d2 = c.distance2(spawn);
                if d2 > DISTANCE_FOR_STAIRS {
                    let ghost prev = candidates@;
                    candidates.push(c);
                    proof {
                        assert forall|o: Coord| prev.contains(o) implies candidates@.contains(
                            o,
                        ) by {
                            let j = choose|j: int| 0 <= j < prev.len() && prev[j] == o;
                            assert(candidates@[j] == o);
                        }
                        assert(candidates@.last() == c);
                        assert(candidates@.contains(c));
                    }
                }
            }
            x += 1;
        }
        y += 1;
    }
    if candidates.len() == 0 {
        return Err(TerrainError::NoStairsLocation);
    }
    let index = rng.below(candidates.len());
    let stairs_coord = candidates[index];
    map.set(stairs_coord, LevelCell::Stairs);
    Ok(stairs_coord)
}

/// Converts a share of the floor tiles to crushable grass.
fn add_grass(map: &mut Grid<LevelCell>, rng: &mut Rng)
    requires
        old(map).wf(),
    ensures
        final(map).wf(),
        final(map).spec_width() == old(map).spec_width(),
        final(map).spec_height() == old(map).spec_height(),
        forall|c: Coord|
            old(map).in_bounds(c) ==> (if old(map).spec_get(c) == LevelCell::Floor {
                final(map).spec_get(c) == LevelCell::Floor || #[trigger] final(map).spec_get(c)
                    == LevelCell::Grass
            } else {
                final(map).spec_get(c) == old(map).spec_get(c)
            }),
{
    let width = map.width();
    let height = map.height();
    let ghost g0 = *map;
    let mut y: usize = 0;
    while y < height
        invariant
            g0.wf(),
            map.wf(),
            map.spec_width() == g0.spec_width(),
            map.spec_height() == g0.spec_height(),
            width == g0.spec_width(),
            height == g0.spec_height(),
            y <= height,
            forall|c: Coord|
                g0.in_bounds(c) ==> (if g0.spec_get(c) == LevelCell::Floor {
                    map.spec_get(c) == LevelCell::Floor || #[trigger] map.spec_get(c)
                        == LevelCell::Grass
                } else {
                    map.spec_get(c) == g0.spec_get(c)
                }),
        decreases height - y,
    {
        let mut x: usize = 0;
        while x < width
            invariant
                g0.wf(),
                map.wf(),
                map.spec_width() == g0.spec_width(),
                map.spec_height() == g0.spec_height(),
                width == g0.spec_width(),
                height == g0.spec_height(),
                y < height,
                x <= width,
                forall|c: Coord|
                    g0.in_bounds(c) ==> (if g0.spec_get(c) == LevelCell::Floor {
                        map.spec_get(c) == LevelCell::Floor || #[trigger] map.spec_get(c)
                            == LevelCell::Grass
                    } else {
                        map.spec_get(c) == g0.spec_get(c)
                    }),
            decreases width - x,
        {
            let c = Coord { x: x as i32, y: y as i32 };
            if map.get(c) == LevelCell::Floor {
                // roughly a tenth of the floor becomes grass
                if rng.range_inclusive(0, 9) == 0 {
                    map.set(c, LevelCell::Grass);
                }
            }
            x += 1;
        }
        y += 1;
    }
}

/// The merged, spawn-marked, water-carved base layout: every cell is the
/// water overlay's rewrite of the merged cell, and the dimensions match the
/// room layout's.
pub open spec fn spec_base_ok(
    rooms: Grid<Option<RoomCell>>,
    cave: Grid<CaveCell>,
    water: Grid<bool>,
    spawn: Coord,
    g0: Grid<LevelCell>,
) -> bool {
    &&& g0.wf()
    &&& g0.spec_width() == rooms.spec_width()
    &&& g0.spec_height() == rooms.spec_height()
    &&& forall|c: Coord|
        g0.in_bounds(c) ==> spec_water_cell_ok(
            spec_base_cell(rooms, cave, spawn, c),
            water.spec_get(c),
            #[trigger] g0.spec_get(c),
        )
}

/// Every walkable cell unreachable from the spawn has collapsed into its
/// wall kind; everything else is unchanged.
pub open spec fn spec_unreachable_removed(
    g0: Grid<LevelCell>,
    g1: Grid<LevelCell>,
    spawn: Coord,
) -> bool {
    &&& g1.wf()
    &&& g1.spec_width() == g0.spec_width()
    &&& g1.spec_height() == g0.spec_height()
    &&& forall|c: Coord|
        g0.in_bounds(c) ==> #[trigger] g1.spec_get(c) == (if spec_walkable(g0.spec_get(c))
            && !spec_reachable(g0, spawn, c) {
            spec_wall_of(g0.spec_get(c))
        } else {
            g0.spec_get(c)
        })
}

/// Every invalid door has become floor; everything else is unchanged.
pub open spec fn spec_doors_dropped(g1: Grid<LevelCell>, g2: Grid<LevelCell>) -> bool {
    &&& g2.wf()
    &&& g2.spec_width() == g1.spec_width()
    &&& g2.spec_height() == g1.spec_height()
    &&& forall|c: Coord|
        g1.in_bounds(c) ==> #[trigger] g2.spec_get(c) == (if g1.spec_get(c) == LevelCell::Door
            && !spec_door_valid(g1, c) {
            LevelCell::Floor
        } else {
            g1.spec_get(c)
        })
}

/// No floor or cave-floor cell lies beyond the stairs distance threshold.
pub open spec fn spec_stairs_candidates_absent(g: Grid<LevelCell>, spawn: Coord) -> bool {
    forall|c: Coord|
        g.in_bounds(c) ==> !((#[trigger] g.spec_get(c) == LevelCell::Floor || g.spec_get(c)
            == LevelCell::CaveFloor) && c.spec_distance2(spawn) > DISTANCE_FOR_STAIRS)
}

/// Generation failed for stairs: after merging, water carving, reachability
/// removal and door validation, no tile far enough from the spawn was left
/// to hold the stairs.
pub open spec fn spec_stairs_starved(
    rooms: Grid<Option<RoomCell>>,
    cave: Grid<CaveCell>,
    water: Grid<bool>,
    spawn: Coord,
    g0: Grid<LevelCell>,
    g1: Grid<LevelCell>,
    g2: Grid<LevelCell>,
) -> bool {
    &&& spec_base_ok(rooms, cave, water, spawn, g0)
    &&& spec_unreachable_removed(g0, g1, spawn)
    &&& spec_doors_dropped(g1, g2)
    &&& spec_stairs_candidates_absent(g2, spawn)
}

/// Produces the finished level layout from the two generated layouts and
/// the water overlay.  Post-processing, in order: mark the player spawn;
/// carve the water overlay (the spawn is immune, overlaid walls erode with
/// fixed probability); collapse every walkable cell unreachable from the
/// spawn; drop doors that no longer separate two walkable cells; on
/// non-final levels place the stairs on a dry floor tile far from the
/// spawn — placing them after the water is carved, so stairs and water
/// never coincide; finally convert a share of the floor to grass.
///
/// On success, every floor and cave-floor cell is connected to the spawn by
/// a 4-directional walkable path, every remaining door separates two
/// walkable cells through barriers, non-final levels hold exactly one
/// stairs cell and its squared distance from the spawn exceeds the
/// threshold, and the final level holds none.
pub fn generate(
    rooms: &Grid<Option<RoomCell>>,
    cave: &Grid<CaveCell>,
    water: &Grid<bool>,
    player_spawn: Coord,
    level: u8,
    rng: &mut Rng,
) -> (r: Result<Grid<LevelCell>, TerrainError>)
    requires
        rooms.wf(),
        cave.wf(),
        water.wf(),
        cave.spec_width() == rooms.spec_width(),
        cave.spec_height() == rooms.spec_height(),
        water.spec_width() == rooms.spec_width(),
        water.spec_height() == rooms.spec_height(),
        rooms.in_bounds(player_spawn),
    ensures
        match r {
            Ok(g) => {
                &&& g.wf()
                &&& g.spec_width() == rooms.spec_width()
                &&& g.spec_height() == rooms.spec_height()
                &&& g.spec_get(player_spawn) == LevelCell::PlayerSpawn
                &&& forall|c: Coord|
                    g.in_bounds(c) && c != player_spawn ==> #[trigger] g.spec_get(c)
                        != LevelCell::PlayerSpawn
                &&& forall|c: Coord|
                    g.in_bounds(c) && (#[trigger] g.spec_get(c) == LevelCell::Floor
                        || g.spec_get(c) == LevelCell::CaveFloor) ==> spec_reachable(
                        g,
                        player_spawn,
                        c,
                    )
                &&& forall|c: Coord|
                    g.in_bounds(c) && #[trigger] g.spec_get(c) == LevelCell::Door
                        ==> spec_door_valid(g, c)
                &&& (level != FINAL_LEVEL ==> exists|sc: Coord|
                    {
                        &&& g.in_bounds(sc)
                        &&& #[trigger] g.spec_get(sc) == LevelCell::Stairs
                        &&& sc.spec_distance2(player_spawn) > DISTANCE_FOR_STAIRS
                        &&& forall|c: Coord|
                            g.in_bounds(c) && c != sc ==> #[trigger] g.spec_get(c)
                                != LevelCell::Stairs
                    })
                &&& (level == FINAL_LEVEL ==> forall|c: Coord|
                    g.in_bounds(c) ==> #[trigger] g.spec_get(c) != LevelCell::Stairs)
            },
            Err(TerrainError::NoStairsLocation) => level != FINAL_LEVEL && exists|
                g0: Grid<LevelCell>,
                g1: Grid<LevelCell>,
                g2: Grid<LevelCell>,
            |
                #[trigger] spec_stairs_starved(*rooms, *cave, *water, player_spawn, g0, g1, g2),
        },
{
    let mut map = build_base(rooms, cave, water, player_spawn, rng);
    proof {
        assert(map.spec_get(player_spawn) == LevelCell::PlayerSpawn);
        assert forall|c: Coord| map.in_bounds(c) implies #[trigger] map.spec_get(c)
            != LevelCell::Stairs && map.spec_get(c) != LevelCell::Grass && (c != player_spawn
            ==> map.spec_get(c) != LevelCell::PlayerSpawn) by {
            assert(spec_water_cell_ok(
                spec_base_cell(*rooms, *cave, player_spawn, c),
                water.spec_get(c),
                map.spec_get(c),
            ));
        }
    }
    let visited = flood_fill(&map, player_spawn);
    let ghost g0 = map;
    remove_unreachable(&mut map, &visited);
    let ghost g1 = map;
    remove_invalid_doors(&mut map);
    let ghost g2 = map;
    let stairs: Option<Coord> = if level != FINAL_LEVEL {
        match choose_stairs_coord(&mut map, player_spawn, rng) {
            Ok(sc) => Some(sc),
            Err(e) => {
                proof {
                    assert(spec_base_ok(*rooms, *cave, *water, player_spawn, g0));
                    assert forall|c: Coord|
                        g0.in_bounds(c) implies #[trigger] g1.spec_get(c) == (if spec_walkable(
                        g0.spec_get(c),
                    ) && !spec_reachable(g0, player_spawn, c) {
                        spec_wall_of(g0.spec_get(c))
                    } else {
                        g0.spec_get(c)
                    }) by {
                        if spec_walkable(g0.spec_get(c)) && spec_reachable(g0, player_spawn, c) {
                            assert(visited.spec_get(c));
                        }
                        if visited.spec_get(c) {
                            assert(spec_reachable(g0, player_spawn, c));
                        }
                    }
                    assert(spec_unreachable_removed(g0, g1, player_spawn));
                    assert(spec_doors_dropped(g1, g2));
                    assert(spec_stairs_candidates_absent(g2, player_spawn));
                    assert(spec_stairs_starved(*rooms, *cave, *water, player_spawn, g0, g1, g2));
                }
                return Err(e);
            },
        }
    } else {
        None
    };
    let ghost g3 = map;
    add_grass(&mut map, rng);
    let ghost g4 = map;

    proof {
        // no stairs exist before they are placed
        assert forall|c: Coord| g2.in_bounds(c) implies #[trigger] g2.spec_get(c)
            != LevelCell::Stairs by {}
        // walk and barrier classes survive the stairs and grass passes
        assert(spec_classes_equal(g1, g4)) by {
            assert forall|d: Coord| g1.in_bounds(d) implies spec_walkable(
                #[trigger] g1.spec_get(d),
            ) == spec_walkable(g4.spec_get(d)) && spec_barrier(g1.spec_get(d)) == spec_barrier(
                g4.spec_get(d),
            ) by {}
        }
        // a cell reachable and walkable in the flood-fill grid stays
        // walkable to the end
        assert forall|d: Coord|
            g0.in_bounds(d) && spec_walkable(#[trigger] g0.spec_get(d)) && spec_reachable(
            g0,
            player_spawn,
            d,
        ) implies spec_walkable(g4.spec_get(d)) by {
            assert(visited.spec_get(d));
            assert(g1.spec_get(d) == g0.spec_get(d));
        }
        // every remaining floor cell was reachable at flood time
        assert forall|c: Coord|
            g4.in_bounds(c) && (#[trigger] g4.spec_get(c) == LevelCell::Floor || g4.spec_get(c)
                == LevelCell::CaveFloor) implies spec_reachable(g4, player_spawn, c) by {
            assert(g3.spec_get(c) == g4.spec_get(c) || g3.spec_get(c) == LevelCell::Floor);
            assert(g2.spec_get(c) == LevelCell::Floor || g2.spec_get(c) == LevelCell::CaveFloor);
            assert(g1.spec_get(c) == LevelCell::Floor || g1.spec_get(c) == LevelCell::CaveFloor
                || g1.spec_get(c) == LevelCell::Door);
            assert(g1.spec_get(c) == g0.spec_get(c) && visited.spec_get(c));
            assert(spec_reachable(g0, player_spawn, c));
            lemma_reachable_transfer(g0, g4, player_spawn, c);
        }
        // every remaining door is valid
        assert forall|c: Coord|
            g4.in_bounds(c) && #[trigger] g4.spec_get(c) == LevelCell::Door implies
            spec_door_valid(g4, c) by {
            assert(g3.spec_get(c) == LevelCell::Door);
            assert(g2.spec_get(c) == LevelCell::Door);
            assert(g1.spec_get(c) == LevelCell::Door && spec_door_valid(g1, c));
            lemma_door_valid_stable(g1, g4, c);
        }
        // the spawn marker survives every pass, and no other cell gains it
        lemma_reachable_refl(g0, player_spawn);
        assert(visited.spec_get(player_spawn));
        assert(g4.spec_get(player_spawn) == LevelCell::PlayerSpawn);
        assert forall|c: Coord| g4.in_bounds(c) && c != player_spawn implies #[trigger]
            g4.spec_get(c) != LevelCell::PlayerSpawn by {
            if g4.spec_get(c) == LevelCell::PlayerSpawn {
                assert(g3.spec_get(c) == LevelCell::PlayerSpawn);
                assert(g2.spec_get(c) == LevelCell::PlayerSpawn);
                assert(g1.spec_get(c) == LevelCell::PlayerSpawn);
                assert(g0.spec_get(c) == LevelCell::PlayerSpawn);
            }
        }
        // the stairs, when placed, are unique
        if stairs is Some {
            let sc = stairs->Some_0;
            assert(g4.spec_get(sc) == LevelCell::Stairs);
            assert forall|c: Coord| g4.in_bounds(c) && c != sc implies #[trigger] g4.spec_get(c)
                != LevelCell::Stairs by {
                if g4.spec_get(c) == LevelCell::Stairs {
                    assert(g3.spec_get(c) == LevelCell::Stairs);
                    assert(g2.spec_get(c) == LevelCell::Stairs);
                }
            }
        } else {
            assert forall|c: Coord| g4.in_bounds(c) implies #[trigger] g4.spec_get(c)
                != LevelCell::Stairs by {
                if g4.spec_get(c) == LevelCell::Stairs {
                    assert(g3.spec_get(c) == LevelCell::Stairs);
                }
            }
        }
    }
    Ok(map)
}

/// Per-level spawn counts for each robot kind; index by level - 1.
pub struct EnemyCounts {
    pub mini: Vec<usize>,
    pub sec: Vec<usize>,
    pub robo: Vec<usize>,
    pub doom: Vec<usize>,
}

impl EnemyCounts {
    /// The fixed per-level population table.
    pub fn new() -> (c: EnemyCounts)
        ensures
            c.mini@ =~= seq![8usize, 10, 10, 12, 12],
            c.sec@ =~= seq![2usize, 2, 4, 6, 6],
            c.robo@ =~= seq![2usize, 3, 3, 4, 4],
            c.doom@ =~= seq![0usize, 0, 1, 2, 4],
    {
        EnemyCounts {
            mini: vec![8, 10, 10, 12, 12],
            sec: vec![2, 2, 4, 6, 6],
            robo: vec![2, 3, 3, 4, 4],
            doom: vec![0, 0, 1, 2, 4],
        }
    }
}

/// The per-level item pools and unlock tables.
pub struct TerrainState {
    /// Ranged weapons still to be handed out, drawn from the back.
    pub ranged_weapons: Vec<WeaponType>,
    /// Levels on which a cattle prod appears.
    pub cattle_prod_floors: Vec<u8>,
    /// Levels on which a chainsaw appears.
    pub chainsaw_floors: Vec<u8>,
}

/// The AI record attached to a spawned robot.
#[derive(Clone, Copy, PartialEq, Eq, Structural, Debug)]
pub struct Agent {
    pub npc_type: NpcType,
}

impl Agent {
    pub fn new(npc_type: NpcType) -> (a: Agent)
        ensures
            a.npc_type == npc_type,
    {
        Agent { npc_type }
    }
}

/// Whether a level number occurs in an unlock table.
fn floors_contain(floors: &Vec<u8>, level: u8) -> (b: bool)
    ensures
        b == floors@.contains(level),
{
    let mut i: usize = 0;
    while i < floors.len()
        invariant
            i <= floors@.len(),
            forall|j: int| 0 <= j < i ==> floors@[j] != level,
        decreases floors@.len() - i,
    {
        if floors[i] == level {
            return true;
        }
        i += 1;
    }
    false
}

impl World {
    /// Whether an item can be dropped at a coordinate: it lies on the grid.
    fn can_drop_item(&self, coord: Coord) -> (b: bool)
        requires
            self.wf(),
        ensures
            b == self.spatial_table.in_bounds(coord),
    {
        let w = self.spatial_table.width();
        let h = self.spatial_table.height();
        coord.x >= 0 && coord.y >= 0 && (coord.x as usize) < w && (coord.y as usize) < h
    }
}

/// One medkit drop: the last coordinate is popped and, when it lies on
/// the grid, a fresh medkit appears there.  With no coordinates left
/// nothing happens.
pub open spec fn spec_medkit_drop(
    pre: World,
    post: World,
    cands_pre: Seq<Coord>,
    cands_post: Seq<Coord>,
) -> bool {
    if cands_pre.len() == 0 {
        &&& post == pre
        &&& cands_post == cands_pre
    } else {
        let c = cands_pre.last();
        &&& cands_post == cands_pre.drop_last()
        &&& if pre.spatial_table.in_bounds(c) {
            exists|e: Entity| #[trigger] crate::spawner::spec_spawned_medkit(pre, post, e, c)
        } else {
            post == pre
        }
    }
}

/// One weapon drop of a fixed kind: the last coordinate is popped and,
/// when it lies on the grid, a fresh ground weapon of that kind appears
/// there.
pub open spec fn spec_weapon_drop(
    pre: World,
    post: World,
    cands_pre: Seq<Coord>,
    cands_post: Seq<Coord>,
    wpn: WeaponType,
) -> bool {
    if cands_pre.len() == 0 {
        &&& post == pre
        &&& cands_post == cands_pre
    } else {
        let c = cands_pre.last();
        &&& cands_post == cands_pre.drop_last()
        &&& if pre.spatial_table.in_bounds(c) {
            exists|e: Entity|
                #[trigger] crate::spawner::spec_spawned_weapon_item(pre, post, e, c, wpn)
        } else {
            post == pre
        }
    }
}

/// One weapon drop from the level pool: the weapon is popped from the pool
/// exactly when a coordinate was popped for it.
pub open spec fn spec_pool_weapon_drop(
    pre: World,
    post: World,
    cands_pre: Seq<Coord>,
    cands_post: Seq<Coord>,
    pool_pre: Seq<WeaponType>,
    pool_post: Seq<WeaponType>,
) -> bool {
    if cands_pre.len() == 0 {
        &&& post == pre
        &&& cands_post == cands_pre
        &&& pool_post == pool_pre
    } else {
        &&& pool_pre.len() > 0
        &&& pool_post == pool_pre.drop_last()
        &&& spec_weapon_drop(pre, post, cands_pre, cands_post, pool_pre.last())
    }
}

/// One level-gated weapon drop: nothing happens on levels outside the
/// unlock table.
pub open spec fn spec_gated_drop(
    pre: World,
    post: World,
    cands_pre: Seq<Coord>,
    cands_post: Seq<Coord>,
    wpn: WeaponType,
    gate: bool,
) -> bool {
    if gate {
        spec_weapon_drop(pre, post, cands_pre, cands_post, wpn)
    } else {
        &&& post == pre
        &&& cands_post == cands_pre
    }
}

/// The whole item pass, witnessed: the coordinates are shuffled, one
/// medkit and the two last weapons of the level pool are dropped, and the
/// level-gated cattle prod and chainsaw follow.
pub open spec fn spec_items_trace(
    pre: World,
    post: World,
    level: u8,
    pool_pre: Seq<WeaponType>,
    pool_post: Seq<WeaponType>,
    cattle_prod_floors: Seq<u8>,
    chainsaw_floors: Seq<u8>,
    cands_pre: Seq<Coord>,
    cands_post: Seq<Coord>,
    shuffled: Seq<Coord>,
    w0: World,
    m1: World,
    m2: World,
    m3: World,
    m4: World,
    k1: Seq<Coord>,
    k2: Seq<Coord>,
    k3: Seq<Coord>,
    k4: Seq<Coord>,
    q1: Seq<WeaponType>,
) -> bool {
    &&& shuffled.to_multiset() == cands_pre.to_multiset()
    &&& shuffled.len() == cands_pre.len()
    // the shuffle touches only the random source
    &&& w0 == (World { rng: w0.rng, ..pre })
    &&& spec_medkit_drop(w0, m1, shuffled, k1)
    &&& spec_pool_weapon_drop(m1, m2, k1, k2, pool_pre, q1)
    &&& spec_pool_weapon_drop(m2, m3, k2, k3, q1, pool_post)
    &&& spec_gated_drop(m3, m4, k3, k4, WeaponType::CattleProd, cattle_prod_floors.contains(level))
    &&& spec_gated_drop(m4, post, k4, cands_post, WeaponType::Chainsaw, chainsaw_floors.contains(level))
}

/// Scatters the level's items over the shuffled empty floor coordinates:
/// one medkit, two ranged weapons drawn from the level pool, and the
/// level-gated melee weapon unlocks.  Coordinates off the grid are skipped.
pub fn generate_items(
    level: u8,
    world: &mut World,
    terrain_state: &mut TerrainState,
    empty_coords: &mut Vec<Coord>,
)
    requires
        old(world).wf(),
        old(terrain_state).ranged_weapons@.len() >= 2,
    ensures
        final(world).wf(),
        final(terrain_state).cattle_prod_floors == old(terrain_state).cattle_prod_floors,
        final(terrain_state).chainsaw_floors == old(terrain_state).chainsaw_floors,
        exists|
            shuffled: Seq<Coord>,
            w0: World,
            m1: World,
            m2: World,
            m3: World,
            m4: World,
            k1: Seq<Coord>,
            k2: Seq<Coord>,
            k3: Seq<Coord>,
            k4: Seq<Coord>,
            q1: Seq<WeaponType>,
        |
            #[trigger] spec_items_trace(
                *old(world),
                *final(world),
                level,
                old(terrain_state).ranged_weapons@,
                final(terrain_state).ranged_weapons@,
                old(terrain_state).cattle_prod_floors@,
                old(terrain_state).chainsaw_floors@,
                old(empty_coords)@,
                final(empty_coords)@,
                shuffled,
                w0,
                m1,
                m2,
                m3,
                m4,
                k1,
                k2,
                k3,
                k4,
                q1,
            ),
{
    world.rng.shuffle(empty_coords);
    let ghost shuffled = empty_coords@;
    let ghost w0 = *world;

    // one medkit
    if let Some(coord) = empty_coords.pop() {
        if world.can_drop_item(coord) {
            let medkit = world.spawn_medkit(coord);
            proof {
                assert(crate::spawner::spec_spawned_medkit(w0, *world, medkit, coord));
            }
        }
    }
    let ghost (m1, k1) = (*world, empty_coords@);
    proof {
        assert(spec_medkit_drop(w0, m1, shuffled, k1));
    }

    // two ranged weapons from the level pool
    let ghost pool0 = terrain_state.ranged_weapons@;
    if let Some(coord) = empty_coords.pop() {
        let weapon = terrain_state.ranged_weapons.pop().unwrap();
        if world.can_drop_item(coord) {
            let dropped = world.spawn_weapon(coord, weapon);
            proof {
                assert(crate::spawner::spec_spawned_weapon_item(
                    m1,
                    *world,
                    dropped,
                    coord,
                    pool0.last(),
                ));
            }
        }
    }
    let ghost (m2, k2, q1) = (*world, empty_coords@, terrain_state.ranged_weapons@);
    proof {
        assert(spec_pool_weapon_drop(m1, m2, k1, k2, old(terrain_state).ranged_weapons@, q1));
    }
    if let Some(coord) = empty_coords.pop() {
        let weapon = terrain_state.ranged_weapons.pop().unwrap();
        if world.can_drop_item(coord) {
            let dropped = world.spawn_weapon(coord, weapon);
            proof {
                assert(crate::spawner::spec_spawned_weapon_item(
                    m2,
                    *world,
                    dropped,
                    coord,
                    q1.last(),
                ));
            }
        }
    }
    let ghost (m3, k3) = (*world, empty_coords@);
    proof {
        assert(spec_pool_weapon_drop(m2, m3, k2, k3, q1, terrain_state.ranged_weapons@));
    }

    // the level-gated melee unlocks
    if floors_contain(&terrain_state.cattle_prod_floors, level) {
        if let Some(coord) = empty_coords.pop() {
            if world.can_drop_item(coord) {
                let dropped = world.spawn_weapon(coord, WeaponType::CattleProd);
                proof {
                    assert(crate::spawner::spec_spawned_weapon_item(
                        m3,
                        *world,
                        dropped,
                        coord,
                        WeaponType::CattleProd,
                    ));
                }
            }
        }
    }
    let ghost (m4, k4) = (*world, empty_coords@);
    proof {
        assert(spec_gated_drop(
            m3,
            m4,
            k3,
            k4,
            WeaponType::CattleProd,
            old(terrain_state).cattle_prod_floors@.contains(level),
        ));
    }
    if floors_contain(&terrain_state.chainsaw_floors, level) {
        if let Some(coord) = empty_coords.pop() {
            if world.can_drop_item(coord) {
                let dropped = world.spawn_weapon(coord, WeaponType::Chainsaw);
                proof {
                    assert(crate::spawner::spec_spawned_weapon_item(
                        m4,
                        *world,
                        dropped,
                        coord,
                        WeaponType::Chainsaw,
                    ));
                }
            }
        }
    }
    proof {
        assert(spec_gated_drop(
            m4,
            *world,
            k4,
            empty_coords@,
            WeaponType::Chainsaw,
            old(terrain_state).chainsaw_floors@.contains(level),
        ));
        assert(spec_items_trace(
            *old(world),
            *world,
            level,
            old(terrain_state).ranged_weapons@,
            terrain_state.ranged_weapons@,
            old(terrain_state).cattle_prod_floors@,
            old(terrain_state).chainsaw_floors@,
            old(empty_coords)@,
            empty_coords@,
            shuffled,
            w0,
            m1,
            m2,
            m3,
            m4,
            k1,
            k2,
            k3,
            k4,
            q1,
        ));
    }
}

/// Whether a candidate coordinate can hold a robot: on the grid with a
/// free character slot.
pub open spec fn spec_npc_spawnable(w: World, c: Coord) -> bool {
    w.spatial_table.in_bounds(c) && w.spatial_table.spec_layers_at(c).character is None
}

/// The melee damage, armour and hit points each robot kind spawns with.
pub open spec fn spec_npc_stats(kind: NpcType) -> (u32, u32, u32) {
    match kind {
        NpcType::MiniBot => (1u32, 1u32, 4u32),
        NpcType::SecBot => (2u32, 3u32, 5u32),
        NpcType::RoboCop => (3u32, 5u32, 10u32),
        NpcType::DoomBot => (5u32, 10u32, 30u32),
    }
}

/// The per-level spawn count of one robot kind.
pub open spec fn spec_npc_count(kind: NpcType, level: u8) -> int {
    let table: Seq<usize> = match kind {
        NpcType::MiniBot => seq![8usize, 10, 10, 12, 12],
        NpcType::SecBot => seq![2usize, 2, 4, 6, 6],
        NpcType::RoboCop => seq![2usize, 3, 3, 4, 4],
        NpcType::DoomBot => seq![0usize, 0, 1, 2, 4],
    };
    table[level - 1] as int
}

/// One population step: the last candidate is popped; a spawnable one
/// receives a fresh robot of the given kind with its statistics and AI
/// record, any other is skipped.  With no candidates left nothing happens.
pub open spec fn spec_npc_step(
    pre: World,
    post: World,
    agents_pre: Map<Entity, Agent>,
    agents_post: Map<Entity, Agent>,
    cands_pre: Seq<Coord>,
    cands_post: Seq<Coord>,
    kind: NpcType,
) -> bool {
    if cands_pre.len() == 0 {
        &&& post == pre
        &&& agents_post == agents_pre
        &&& cands_post == cands_pre
    } else {
        let c = cands_pre.last();
        &&& cands_post == cands_pre.drop_last()
        &&& if spec_npc_spawnable(pre, c) {
            exists|e: Entity|
                {
                    &&& #[trigger] spec_spawned_npc(
                        pre,
                        post,
                        e,
                        c,
                        kind,
                        spec_npc_stats(kind).0,
                        spec_npc_stats(kind).1,
                        spec_npc_stats(kind).2,
                    )
                    &&& crate::spawner::spec_fresh(pre, post, e)
                    &&& agents_post == agents_pre.insert(e, Agent { npc_type: kind })
                }
        } else {
            &&& post == pre
            &&& agents_post == agents_pre
        }
    }
}

/// The candidate list after one pop: unchanged when already empty.
pub open spec fn spec_popped(cands: Seq<Coord>) -> Seq<Coord> {
    if cands.len() == 0 {
        cands
    } else {
        cands.drop_last()
    }
}

/// A population batch of one robot kind: `count` population steps, each
/// popping one candidate.
pub open spec fn spec_npc_batch(
    pre: World,
    post: World,
    agents_pre: Map<Entity, Agent>,
    agents_post: Map<Entity, Agent>,
    cands_pre: Seq<Coord>,
    cands_post: Seq<Coord>,
    kind: NpcType,
    count: nat,
) -> bool
    decreases count,
{
    if count == 0 {
        &&& post == pre
        &&& agents_post == agents_pre
        &&& cands_post == cands_pre
    } else {
        exists|mid: World, agents_mid: Map<Entity, Agent>|
            {
                &&& #[trigger] spec_npc_step(
                    pre,
                    mid,
                    agents_pre,
                    agents_mid,
                    cands_pre,
                    spec_popped(cands_pre),
                    kind,
                )
                &&& spec_npc_batch(
                    mid,
                    post,
                    agents_mid,
                    agents_post,
                    spec_popped(cands_pre),
                    cands_post,
                    kind,
                    (count - 1) as nat,
                )
            }
    }
}

/// A batch extends by one more population step at its end.
proof fn lemma_npc_batch_snoc(
    pre: World,
    mid: World,
    post: World,
    agents_pre: Map<Entity, Agent>,
    agents_mid: Map<Entity, Agent>,
    agents_post: Map<Entity, Agent>,
    cands_pre: Seq<Coord>,
    cands_mid: Seq<Coord>,
    cands_post: Seq<Coord>,
    kind: NpcType,
    count: nat,
)
    requires
        spec_npc_batch(pre, mid, agents_pre, agents_mid, cands_pre, cands_mid, kind, count),
        spec_npc_step(mid, post, agents_mid, agents_post, cands_mid, cands_post, kind),
    ensures
        spec_npc_batch(pre, post, agents_pre, agents_post, cands_pre, cands_post, kind, count + 1),
    decreases count,
{
    if count == 0 {
        assert(cands_post == spec_popped(cands_pre));
        assert(spec_npc_step(
            pre,
            post,
            agents_pre,
            agents_post,
            cands_pre,
            spec_popped(cands_pre),
            kind,
        ));
        assert(spec_npc_batch(
            post,
            post,
            agents_post,
            agents_post,
            spec_popped(cands_pre),
            cands_post,
            kind,
            0,
        ));
        assert(spec_npc_batch(
            pre,
            post,
            agents_pre,
            agents_post,
            cands_pre,
            cands_post,
            kind,
            1,
        ));
    } else {
        let (m1, a1) = choose|m1: World, a1: Map<Entity, Agent>|
            {
                &&& #[trigger] spec_npc_step(
                    pre,
                    m1,
                    agents_pre,
                    a1,
                    cands_pre,
                    spec_popped(cands_pre),
                    kind,
                )
                &&& spec_npc_batch(
                    m1,
                    mid,
                    a1,
                    agents_mid,
                    spec_popped(cands_pre),
                    cands_mid,
                    kind,
                    (count - 1) as nat,
                )
            };
        lemma_npc_batch_snoc(
            m1,
            mid,
            post,
            a1,
            agents_mid,
            agents_post,
            spec_popped(cands_pre),
            cands_mid,
            cands_post,
            kind,
            (count - 1) as nat,
        );
    }
}

/// The whole population pass, witnessed: the candidates are shuffled, then
/// each robot kind runs its per-level batch over the worklist in turn.
pub open spec fn spec_npcs_trace(
    pre: World,
    post: World,
    agents_pre: Map<Entity, Agent>,
    agents_post: Map<Entity, Agent>,
    cands_pre: Seq<Coord>,
    cands_post: Seq<Coord>,
    level: u8,
    shuffled: Seq<Coord>,
    w0: World,
    w1: World,
    w2: World,
    w3: World,
    a1: Map<Entity, Agent>,
    a2: Map<Entity, Agent>,
    a3: Map<Entity, Agent>,
    c1: Seq<Coord>,
    c2: Seq<Coord>,
    c3: Seq<Coord>,
) -> bool {
    &&& shuffled.to_multiset() == cands_pre.to_multiset()
    &&& shuffled.len() == cands_pre.len()
    // the shuffle touches only the random source
    &&& w0 == (World { rng: w0.rng, ..pre })
    &&& spec_npc_batch(
        w0,
        w1,
        agents_pre,
        a1,
        shuffled,
        c1,
        NpcType::MiniBot,
        spec_npc_count(NpcType::MiniBot, level) as nat,
    )
    &&& spec_npc_batch(
        w1,
        w2,
        a1,
        a2,
        c1,
        c2,
        NpcType::SecBot,
        spec_npc_count(NpcType::SecBot, level) as nat,
    )
    &&& spec_npc_batch(
        w2,
        w3,
        a2,
        a3,
        c2,
        c3,
        NpcType::RoboCop,
        spec_npc_count(NpcType::RoboCop, level) as nat,
    )
    &&& spec_npc_batch(
        w3,
        post,
        a3,
        agents_post,
        c3,
        cands_post,
        NpcType::DoomBot,
        spec_npc_count(NpcType::DoomBot, level) as nat,
    )
}

/// Spawns the level's robots over the shuffled candidate coordinates, one
/// fixed count of each kind, attaching an AI record to each.  Candidates
/// that cannot hold a character are skipped.
pub fn generate_npcs(
    level: u8,
    world: &mut World,
    npc_candidates: &mut Vec<Coord>,
    agents: &mut crate::table::ComponentTable<Agent>,
)
    requires
        old(world).wf(),
        1 <= level <= FINAL_LEVEL,
        crate::world::keys_live(old(agents)@, old(world).entity_allocator),
    ensures
        final(world).wf(),
        crate::world::keys_live(final(agents)@, final(world).entity_allocator),
        final(world).player_entity == old(world).player_entity,
        final(world).message_log == old(world).message_log,
        final(world).external_events == old(world).external_events,
        exists|
            shuffled: Seq<Coord>,
            w0: World,
            w1: World,
            w2: World,
            w3: World,
            a1: Map<Entity, Agent>,
            a2: Map<Entity, Agent>,
            a3: Map<Entity, Agent>,
            c1: Seq<Coord>,
            c2: Seq<Coord>,
            c3: Seq<Coord>,
        |
            #[trigger] spec_npcs_trace(
                *old(world),
                *final(world),
                old(agents)@,
                final(agents)@,
                old(npc_candidates)@,
                final(npc_candidates)@,
                level,
                shuffled,
                w0,
                w1,
                w2,
                w3,
                a1,
                a2,
                a3,
                c1,
                c2,
                c3,
            ),
{
    world.rng.shuffle(npc_candidates);
    let ghost shuffled = npc_candidates@;
    let ghost w0 = *world;
    let counts = EnemyCounts::new();
    let index = (level - 1) as usize;
    proof {
        assert(counts.mini@[index as int] as int == spec_npc_count(NpcType::MiniBot, level));
        assert(counts.sec@[index as int] as int == spec_npc_count(NpcType::SecBot, level));
        assert(counts.robo@[index as int] as int == spec_npc_count(NpcType::RoboCop, level));
        assert(counts.doom@[index as int] as int == spec_npc_count(NpcType::DoomBot, level));
    }

    spawn_npc_batch(world, npc_candidates, agents, NpcType::MiniBot, counts.mini[index]);
    let ghost (w1, a1, c1) = (*world, agents@, npc_candidates@);
    spawn_npc_batch(world, npc_candidates, agents, NpcType::SecBot, counts.sec[index]);
    let ghost (w2, a2, c2) = (*world, agents@, npc_candidates@);
    spawn_npc_batch(world, npc_candidates, agents, NpcType::RoboCop, counts.robo[index]);
    let ghost (w3, a3, c3) = (*world, agents@, npc_candidates@);
    spawn_npc_batch(world, npc_candidates, agents, NpcType::DoomBot, counts.doom[index]);
    proof {
        assert(spec_npcs_trace(
            *old(world),
            *world,
            old(agents)@,
            agents@,
            old(npc_candidates)@,
            npc_candidates@,
            level,
            shuffled,
            w0,
            w1,
            w2,
            w3,
            a1,
            a2,
            a3,
            c1,
            c2,
            c3,
        ));
    }
}

/// Spawns up to `count` robots of one kind onto the candidate list's tail.
fn spawn_npc_batch(
    world: &mut World,
    npc_candidates: &mut Vec<Coord>,
    agents: &mut crate::table::ComponentTable<Agent>,
    npc_type: NpcType,
    count: usize,
)
    requires
        old(world).wf(),
        crate::world::keys_live(old(agents)@, old(world).entity_allocator),
    ensures
        final(world).wf(),
        crate::world::keys_live(final(agents)@, final(world).entity_allocator),
        final(world).player_entity == old(world).player_entity,
        final(world).message_log == old(world).message_log,
        final(world).external_events == old(world).external_events,
        spec_npc_batch(
            *old(world),
            *final(world),
            old(agents)@,
            final(agents)@,
            old(npc_candidates)@,
            final(npc_candidates)@,
            npc_type,
            count as nat,
        ),
{
    let mut i: usize = 0;
    while i < count
        invariant
            world.wf(),
            crate::world::keys_live(agents@, world.entity_allocator),
            world.player_entity == old(world).player_entity,
            world.message_log == old(world).message_log,
            world.external_events == old(world).external_events,
            i <= count,
            spec_npc_batch(
                *old(world),
                *world,
                old(agents)@,
                agents@,
                old(npc_candidates)@,
                npc_candidates@,
                npc_type,
                i as nat,
            ),
        decreases count - i,
    {
        let ghost (step_pre, agents_pre, cands_pre) = (*world, agents@, npc_candidates@);
        if let Some(coord) = npc_candidates.pop() {
            let spawnable = match world.spatial_table.layers_at(coord) {
                Some(layers) => match layers.character {
                    Some(_) => false,
                    None => true,
                },
                None => false,
            };
            if spawnable {
                let e = match npc_type {
                    NpcType::MiniBot => world.spawn_minibot(coord),
                    NpcType::SecBot => world.spawn_secbot(coord),
                    NpcType::RoboCop => world.spawn_robocop(coord),
                    NpcType::DoomBot => world.spawn_doombot(coord),
                };
                let ghost agents_before = agents@;
                agents.insert(e, Agent::new(npc_type));
                proof {
                    assert forall|o: Entity| #[trigger] agents@.contains_key(o) implies
                        world.entity_allocator.spec_exists(o) by {}
                    crate::world::lemma_table_insert_view(
                        world.entity_allocator,
                        agents_before,
                        agents@,
                        e,
                        Agent { npc_type },
                    );
                    assert(spec_spawned_npc(
                        step_pre,
                        *world,
                        e,
                        coord,
                        npc_type,
                        spec_npc_stats(npc_type).0,
                        spec_npc_stats(npc_type).1,
                        spec_npc_stats(npc_type).2,
                    ));
                    assert(spec_npc_step(
                        step_pre,
                        *world,
                        agents_pre,
                        agents@,
                        cands_pre,
                        npc_candidates@,
                        npc_type,
                    ));
                }
            } else {
                proof {
                    assert(!spec_npc_spawnable(step_pre, coord));
                    assert(spec_npc_step(
                        step_pre,
                        *world,
                        agents_pre,
                        agents@,
                        cands_pre,
                        npc_candidates@,
                        npc_type,
                    ));
                }
            }
        } else {
            proof {
                assert(spec_npc_step(
                    step_pre,
                    *world,
                    agents_pre,
                    agents@,
                    cands_pre,
                    npc_candidates@,
                    npc_type,
                ));
            }
        }
        proof {
            lemma_npc_batch_snoc(
                *old(world),
                step_pre,
                *world,
                old(agents)@,
                agents_pre,
                agents@,
                old(npc_candidates)@,
                cands_pre,
                npc_candidates@,
                npc_type,
                i as nat,
            );
        }
        i += 1;
    }
}

} // verus!
