//! The ground under the game: square chunks of tiles, kept loaded around the camera.

use vstd::prelude::*;
use crate::aabb::{clamp_coord, clamp_to_coord, Point};

verus! {

/// A tile of the ground; it belongs to the chunk at these chunk coordinates.
#[derive(Clone, Copy, Debug, PartialEq, Eq, Structural)]
pub struct GroundTile {
    pub chunk_x: i64,
    pub chunk_y: i64,
}

/// How the ground is cut up, and which chunks are loaded.
pub struct GroundSystem {
    /// Side of a tile, in thousandths of a world unit.
    pub tile_size: u32,
    /// Tiles along the side of a chunk.
    pub chunk_size: u32,
    /// How many chunks are kept loaded on each side of the chunk under the camera.
    pub render_distance: u32,
    /// The chunks that are loaded, each of them once, in the order in which
    /// they were loaded.
    pub loaded_chunks: Vec<(i64, i64)>,
}

/// What a look at the camera asks of the world.
pub struct GroundUpdate {
    /// Positions, in the list of tiles, of the tiles to remove.
    pub despawn: Vec<usize>,
    /// The chunks to fill with tiles.
    pub spawn: Vec<(i64, i64)>,
}

/// The chunk coordinate of the chunk that holds `coordinate`, for chunks
/// `extent` thousandths wide: the quotient rounded down, also left of zero.
pub open spec fn chunk_under(coordinate: int, extent: int) -> int {
    coordinate / extent
}

/// `chunk` is within `distance` chunks of `center` on both axes.
pub open spec fn in_reach(center: (i64, i64), distance: u32, chunk: (i64, i64)) -> bool {
    &&& center.0 - distance <= chunk.0 <= center.0 + distance
    &&& center.1 - distance <= chunk.1 <= center.1 + distance
}

/// Chunks along the side of the square that is kept loaded.
pub open spec fn reach_side(distance: u32) -> int {
    2 * distance + 1
}

/// The chunk at position `k` of the square around `center`, counted column by column.
pub open spec fn reach_chunk(center: (i64, i64), distance: u32, k: int) -> (i64, i64) {
    (
        (center.0 - distance + k / reach_side(distance)) as i64,
        (center.1 - distance + k % reach_side(distance)) as i64,
    )
}

/// Positions in `tiles` of the tiles whose chunk is out of reach, in order.
pub open spec fn out_of_reach(tiles: Seq<GroundTile>, center: (i64, i64), distance: u32) -> Seq<
    usize,
>
    decreases tiles.len(),
{
    if tiles.len() == 0 {
        Seq::empty()
    } else {
        let earlier = out_of_reach(tiles.drop_last(), center, distance);
        if in_reach(center, distance, (tiles.last().chunk_x, tiles.last().chunk_y)) {
            earlier
        } else {
            earlier.push((tiles.len() - 1) as usize)
        }
    }
}

/// The chunks among `loaded` that are in reach, in order.
pub open spec fn still_loaded(loaded: Seq<(i64, i64)>, center: (i64, i64), distance: u32) -> Seq<
    (i64, i64),
>
    decreases loaded.len(),
{
    if loaded.len() == 0 {
        Seq::empty()
    } else {
        let earlier = still_loaded(loaded.drop_last(), center, distance);
        if in_reach(center, distance, loaded.last()) {
            earlier.push(loaded.last())
        } else {
            earlier
        }
    }
}

/// The first `upto` chunks of the square around `center` that are not among
/// `loaded`, in order.
pub open spec fn newly_needed(
    loaded: Seq<(i64, i64)>,
    center: (i64, i64),
    distance: u32,
    upto: int,
) -> Seq<(i64, i64)>
    decreases upto,
{
    if upto <= 0 {
        Seq::empty()
    } else {
        let earlier = newly_needed(loaded, center, distance, upto - 1);
        let chunk = reach_chunk(center, distance, upto - 1);
        if loaded.contains(chunk) {
            earlier
        } else {
            earlier.push(chunk)
        }
    }
}

impl GroundSystem {
    /// No chunk is loaded twice.
    pub open spec fn wf(self) -> bool {
        no_chunk_twice(self.loaded_chunks@)
    }

    /// Side of a chunk, in thousandths of a world unit.
    pub open spec fn extent(self) -> int {
        self.chunk_size * self.tile_size
    }

    /// The chunk under `camera`.
    pub open spec fn center(self, camera: Point) -> (i64, i64) {
        (
            chunk_under(camera.x as int, self.extent()) as i64,
            chunk_under(camera.y as int, self.extent()) as i64,
        )
    }
}

/// Where, along one axis, the tile at position `local` of the chunk `chunk`
/// begins, for chunks of `chunk_size` tiles of `tile_size` thousandths.
pub open spec fn tile_origin(chunk: int, local: int, chunk_size: int, tile_size: int) -> int {
    chunk * (chunk_size * tile_size) + local * tile_size
}

impl GroundSystem {
    /// The corner at which the tile at `(local_x, local_y)` of the chunk
    /// `(chunk_x, chunk_y)` is drawn; the edge of the grid stops it.
    pub fn tile_corner(&self, chunk_x: i64, chunk_y: i64, local_x: u32, local_y: u32) -> (corner:
        Point)
        ensures
            corner.x == clamp_coord(
                tile_origin(
                    chunk_x as int,
                    local_x as int,
                    self.chunk_size as int,
                    self.tile_size as int,
                ),
            ),
            corner.y == clamp_coord(
                tile_origin(
                    chunk_y as int,
                    local_y as int,
                    self.chunk_size as int,
                    self.tile_size as int,
                ),
            ),
    {
        Point {
            x: clamp_to_coord(axis_origin(chunk_x, local_x, self.chunk_size, self.tile_size)),
            y: clamp_to_coord(axis_origin(chunk_y, local_y, self.chunk_size, self.tile_size)),
        }
    }
}

fn axis_origin(chunk: i64, local: u32, chunk_size: u32, tile_size: u32) -> (origin: i128)
    ensures
        origin == tile_origin(chunk as int, local as int, chunk_size as int, tile_size as int),
{
    assert(0 <= chunk_size * tile_size <= 0xFFFF_FFFF * 0xFFFF_FFFF) by (nonlinear_arith)
        requires
            0 <= chunk_size <= 0xFFFF_FFFF,
            0 <= tile_size <= 0xFFFF_FFFF,
    ;
    let extent: i128 = chunk_size as i128 * tile_size as i128;
    assert(-0x8000_0000_0000_0000 * (0xFFFF_FFFF * 0xFFFF_FFFF) <= chunk * extent
        <= 0x8000_0000_0000_0000 * (0xFFFF_FFFF * 0xFFFF_FFFF)) by (nonlinear_arith)
        requires
            -0x8000_0000_0000_0000 <= chunk <= 0x8000_0000_0000_0000,
            0 <= extent <= 0xFFFF_FFFF * 0xFFFF_FFFF,
    ;
    assert(0 <= local * tile_size <= 0xFFFF_FFFF * 0xFFFF_FFFF) by (nonlinear_arith)
        requires
            0 <= local <= 0xFFFF_FFFF,
            0 <= tile_size <= 0xFFFF_FFFF,
    ;
    chunk as i128 * extent + local as i128 * tile_size as i128
}

impl Default for GroundSystem {
    fn default() -> (g: Self)
        ensures
            g.tile_size == 64_000,
            g.chunk_size == 16,
            g.render_distance == 4,
            g.loaded_chunks@.len() == 0,
            g.wf(),
    {
        GroundSystem {
            tile_size: 64_000,
            chunk_size: 16,
            render_distance: 4,
            loaded_chunks: Vec::new(),
        }
    }
}

/// The chunk coordinate of the chunk that holds `coordinate`.
pub fn chunk_of(coordinate: i32, extent: u64) -> (chunk: i64)
    requires
        extent > 0,
    ensures
        chunk as int == chunk_under(coordinate as int, extent as int),
        -0x8000_0000 <= chunk <= 0x7FFF_FFFF,
{
    if coordinate >= 0 {
        let c: u64 = coordinate as u64;
        let q: u64 = c / extent;
        assert(q <= c) by (nonlinear_arith)
            requires
                q == c / extent,
                extent > 0,
        ;
        q as i64
    } else {
        let a: u64 = (-(coordinate as i64)) as u64;
        let q: u64 = (a - 1) / extent;
        assert(q <= a - 1) by (nonlinear_arith)
            requires
                q == (a - 1) / (extent as int),
                extent > 0,
                a >= 1,
        ;
        // Left of zero the quotient rounds away from zero.
        assert((-(a as int)) / (extent as int) == -(q as int) - 1) by (nonlinear_arith)
            requires
                q == (a - 1) / (extent as int),
                extent > 0,
                a >= 1,
        ;
        -(q as i64) - 1
    }
}

fn is_in_reach(center: (i64, i64), distance: u32, chunk: (i64, i64)) -> (b: bool)
    requires
        -0x8000_0000 <= center.0 <= 0x7FFF_FFFF,
        -0x8000_0000 <= center.1 <= 0x7FFF_FFFF,
    ensures
        b == in_reach(center, distance, chunk),
{
    let d: i64 = distance as i64;
    center.0 - d <= chunk.0 && chunk.0 <= center.0 + d && center.1 - d <= chunk.1 && chunk.1
        <= center.1 + d
}

fn is_loaded(loaded: &Vec<(i64, i64)>, chunk: (i64, i64)) -> (b: bool)
    ensures
        b == loaded@.contains(chunk),
{
    let mut i: usize = 0;
    while i < loaded.len()
        invariant
            i <= loaded.len(),
            forall|j: int| 0 <= j < i ==> loaded@[j] != chunk,
        decreases loaded.len() - i,
    {
        let at = loaded[i];
        if at.0 == chunk.0 && at.1 == chunk.1 {
            return true;
        }
        i += 1;
    }
    false
}

/// Keeps the square of chunks around the camera loaded.
///
/// Tiles whose chunk has fallen out of reach are to be removed, chunks that
/// have come into reach and are not loaded yet are to be filled, and the
/// list of loaded chunks becomes those that stayed in reach followed by
/// those that are new. Without a camera, or with chunks of no size, nothing
/// happens.
pub fn update_ground_chunks(
    camera: Option<Point>,
    ground_system: &mut GroundSystem,
    existing_tiles: &Vec<GroundTile>,
) -> (update: GroundUpdate)
    ensures
        final(ground_system).tile_size == old(ground_system).tile_size,
        final(ground_system).chunk_size == old(ground_system).chunk_size,
        final(ground_system).render_distance == old(ground_system).render_distance,
        camera is None || old(ground_system).extent() == 0 ==> {
            &&& final(ground_system).loaded_chunks@ == old(ground_system).loaded_chunks@
            &&& update.despawn@.len() == 0
            &&& update.spawn@.len() == 0
        },
        camera matches Some(at) ==> old(ground_system).extent() != 0 ==> {
            let center = old(ground_system).center(at);
            let distance = old(ground_system).render_distance;
            &&& update.despawn@ == out_of_reach(existing_tiles@, center, distance)
            &&& update.spawn@ == newly_needed(
                old(ground_system).loaded_chunks@,
                center,
                distance,
                reach_side(distance) * reach_side(distance),
            )
            &&& final(ground_system).loaded_chunks@ == still_loaded(
                old(ground_system).loaded_chunks@,
                center,
                distance,
            ) + update.spawn@
            &&& forall|chunk: (i64, i64)|
                #[trigger] final(ground_system).loaded_chunks@.contains(chunk) <==> in_reach(
                    center,
                    distance,
                    chunk,
                )
        },
        old(ground_system).wf() ==> final(ground_system).wf(),
{
    let mut update = GroundUpdate { despawn: Vec::new(), spawn: Vec::new() };
    let at = match camera {
        Some(p) => p,
        None => {
            return update;
        },
    };
    assert(ground_system.chunk_size * ground_system.tile_size <= 0xFFFF_FFFF * 0xFFFF_FFFF)
        by (nonlinear_arith)
        requires
            ground_system.chunk_size <= 0xFFFF_FFFF,
            ground_system.tile_size <= 0xFFFF_FFFF,
    ;
    let extent: u64 = ground_system.chunk_size as u64 * ground_system.tile_size as u64;
    if extent == 0 {
        return update;
    }
    let center: (i64, i64) = (chunk_of(at.x, extent), chunk_of(at.y, extent));
    let distance: u32 = ground_system.render_distance;
    let ghost before = ground_system.loaded_chunks@;

    let mut i: usize = 0;
    while i < existing_tiles.len()
        invariant
            i <= existing_tiles.len(),
            -0x8000_0000 <= center.0 <= 0x7FFF_FFFF,
            -0x8000_0000 <= center.1 <= 0x7FFF_FFFF,
            update.despawn@ == out_of_reach(existing_tiles@.take(i as int), center, distance),
            update.spawn@.len() == 0,
        decreases existing_tiles.len() - i,
    {
        proof {
            assert(existing_tiles@.take(i as int + 1).drop_last() == existing_tiles@.take(i as int));
            assert(existing_tiles@.take(i as int + 1).last() == existing_tiles@[i as int]);
        }
        let tile = existing_tiles[i];
        if !is_in_reach(center, distance, (tile.chunk_x, tile.chunk_y)) {
            update.despawn.push(i);
        }
        i += 1;
    }
    proof {
        assert(existing_tiles@.take(i as int) == existing_tiles@);
    }

    let side: u128 = 2 * (distance as u128) + 1;
    assert(side * side <= 0x1_FFFF_FFFF * 0x1_FFFF_FFFF) by (nonlinear_arith)
        requires
            side <= 0x1_FFFF_FFFF,
    ;
    let cells: u128 = side * side;
    let mut k: u128 = 0;
    while k < cells
        invariant
            k <= cells,
            cells == side * side,
            side == reach_side(distance),
            -0x8000_0000 <= center.0 <= 0x7FFF_FFFF,
            -0x8000_0000 <= center.1 <= 0x7FFF_FFFF,
            ground_system.loaded_chunks@ == before,
            update.spawn@ == newly_needed(before, center, distance, k as int),
            update.despawn@ == out_of_reach(existing_tiles@, center, distance),
        decreases cells - k,
    {
        let column: u128 = k / side;
        let row: u128 = k % side;
        assert(column < side) by (nonlinear_arith)
            requires
                column == k / side,
                k < side * side,
                side > 0,
        ;
        let chunk: (i64, i64) = (
            center.0 - distance as i64 + column as i64,
            center.1 - distance as i64 + row as i64,
        );
        assert(chunk == reach_chunk(center, distance, k as int));
        if !is_loaded(&ground_system.loaded_chunks, chunk) {
            update.spawn.push(chunk);
        }
        k += 1;
    }

    let mut kept: Vec<(i64, i64)> = Vec::new();
    let mut j: usize = 0;
    while j < ground_system.loaded_chunks.len()
        invariant
            j <= ground_system.loaded_chunks.len(),
            -0x8000_0000 <= center.0 <= 0x7FFF_FFFF,
            -0x8000_0000 <= center.1 <= 0x7FFF_FFFF,
            ground_system.loaded_chunks@ == before,
            kept@ == still_loaded(before.take(j as int), center, distance),
        decreases ground_system.loaded_chunks.len() - j,
    {
        proof {
            assert(before.take(j as int + 1).drop_last() == before.take(j as int));
            assert(before.take(j as int + 1).last() == before[j as int]);
        }
        let chunk = ground_system.loaded_chunks[j];
        if is_in_reach(center, distance, chunk) {
            kept.push(chunk);
        }
        j += 1;
    }
    proof {
        assert(before.take(j as int) == before);
    }
    let mut n: usize = 0;
    while n < update.spawn.len()
        invariant
            n <= update.spawn.len(),
            kept@ == still_loaded(before, center, distance) + update.spawn@.take(n as int),
        decreases update.spawn.len() - n,
    {
        kept.push(update.spawn[n]);
        proof {
            assert(update.spawn@.take(n as int + 1) == update.spawn@.take(n as int).push(
                update.spawn@[n as int],
            ));
        }
        n += 1;
    }
    proof {
        assert(update.spawn@.take(n as int) == update.spawn@);
        assert forall|chunk: (i64, i64)| #[trigger]
            kept@.contains(chunk) <==> in_reach(center, distance, chunk) by {
            lemma_loaded_is_the_square(before, center, distance, chunk);
        }
        lemma_loaded_is_the_square(before, center, distance, center);
    }
    ground_system.loaded_chunks = kept;
    update
}

/// The list has no chunk twice.
pub open spec fn no_chunk_twice(chunks: Seq<(i64, i64)>) -> bool {
    forall|i: int, j: int| 0 <= i < j < chunks.len() ==> chunks[i] != chunks[j]
}

/// A position in the square is the column times the side plus the row.
proof fn lemma_cell(side: int, column: int, row: int)
    requires
        side > 0,
        0 <= column,
        0 <= row < side,
    ensures
        (column * side + row) / side == column,
        (column * side + row) % side == row,
        column < side ==> column * side + row < side * side,
{
    vstd::arithmetic::div_mod::lemma_fundamental_div_mod_converse(
        column * side + row,
        side,
        column,
        row,
    );
    if column < side {
        assert(column * side + row < side * side) by (nonlinear_arith)
            requires
                0 <= column < side,
                0 <= row < side,
        ;
    }
}

/// Every position of the square names a chunk in reach, and no two
/// positions name the same chunk.
proof fn lemma_square(center: (i64, i64), distance: u32, k: int)
    requires
        -0x8000_0000 <= center.0 <= 0x7FFF_FFFF,
        -0x8000_0000 <= center.1 <= 0x7FFF_FFFF,
        0 <= k < reach_side(distance) * reach_side(distance),
    ensures
        in_reach(center, distance, reach_chunk(center, distance, k)),
        reach_chunk(center, distance, k).0 == center.0 - distance + k / reach_side(distance),
        reach_chunk(center, distance, k).1 == center.1 - distance + k % reach_side(distance),
        0 <= k / reach_side(distance) < reach_side(distance),
{
    let side = reach_side(distance);
    assert(0 <= k / side < side) by (nonlinear_arith)
        requires
            0 <= k < side * side,
            side > 0,
    ;
}

/// What stays loaded was loaded and is in reach, and whatever was loaded
/// and is in reach stays loaded.
pub proof fn lemma_still_loaded(loaded: Seq<(i64, i64)>, center: (i64, i64), distance: u32)
    ensures
        forall|c: (i64, i64)|
            #[trigger] still_loaded(loaded, center, distance).contains(c) <==> loaded.contains(c)
                && in_reach(center, distance, c),
        no_chunk_twice(loaded) ==> no_chunk_twice(still_loaded(loaded, center, distance)),
    decreases loaded.len(),
{
    let result = still_loaded(loaded, center, distance);
    if loaded.len() > 0 {
        let shorter = loaded.drop_last();
        let earlier = still_loaded(shorter, center, distance);
        lemma_still_loaded(shorter, center, distance);
        assert forall|c: (i64, i64)| #[trigger]
            result.contains(c) <==> loaded.contains(c) && in_reach(center, distance, c) by {
            if loaded.contains(c) {
                let i = choose|i: int| 0 <= i < loaded.len() && loaded[i] == c;
                if i < shorter.len() {
                    assert(shorter[i] == c);
                }
            }
            if shorter.contains(c) {
                let i = choose|i: int| 0 <= i < shorter.len() && shorter[i] == c;
                assert(loaded[i] == c);
            }
            if earlier.contains(c) {
                let i = choose|i: int| 0 <= i < earlier.len() && earlier[i] == c;
                if in_reach(center, distance, loaded.last()) {
                    assert(result[i] == c);
                }
            }
            if result.contains(c) && !earlier.contains(c) {
                let i = choose|i: int| 0 <= i < result.len() && result[i] == c;
                if i < earlier.len() {
                    assert(earlier[i] == c);
                }
                assert(c == loaded.last());
                assert(loaded[loaded.len() - 1] == c);
            }
            if c == loaded.last() && in_reach(center, distance, c) {
                assert(result[result.len() - 1] == c);
            }
        }
        if no_chunk_twice(loaded) {
            assert(no_chunk_twice(shorter)) by {
                assert forall|i: int, j: int| 0 <= i < j < shorter.len() implies shorter[i]
                    != shorter[j] by {
                    assert(loaded[i] != loaded[j]);
                }
            }
            assert forall|i: int, j: int| 0 <= i < j < result.len() implies result[i]
                != result[j] by {
                if j < earlier.len() {
                    assert(earlier[i] != earlier[j]);
                } else {
                    // the last element is new: it was not among the earlier ones
                    assert(result[j] == loaded.last());
                    assert(earlier[i] == result[i]);
                    assert(earlier.contains(earlier[i]));
                    assert(shorter.contains(earlier[i]));
                    let at = choose|at: int| 0 <= at < shorter.len() && shorter[at] == earlier[i];
                    assert(loaded[at] != loaded[loaded.len() - 1]);
                }
            }
        }
    }
}

/// What is newly needed is in the square and was not loaded, it holds every
/// such chunk among the positions looked at, and none of them twice.
pub proof fn lemma_newly_needed(
    loaded: Seq<(i64, i64)>,
    center: (i64, i64),
    distance: u32,
    upto: int,
)
    requires
        -0x8000_0000 <= center.0 <= 0x7FFF_FFFF,
        -0x8000_0000 <= center.1 <= 0x7FFF_FFFF,
        0 <= upto <= reach_side(distance) * reach_side(distance),
    ensures
        forall|c: (i64, i64)|
            #[trigger] newly_needed(loaded, center, distance, upto).contains(c) <==> !loaded.contains(
                c,
            ) && exists|k: int| 0 <= k < upto && c == #[trigger] reach_chunk(center, distance, k),
        no_chunk_twice(newly_needed(loaded, center, distance, upto)),
    decreases upto,
{
    let result = newly_needed(loaded, center, distance, upto);
    if upto > 0 {
        let earlier = newly_needed(loaded, center, distance, upto - 1);
        let last = reach_chunk(center, distance, upto - 1);
        lemma_newly_needed(loaded, center, distance, upto - 1);
        assert forall|c: (i64, i64)| #[trigger]
            result.contains(c) <==> !loaded.contains(c) && exists|k: int|
                0 <= k < upto && c == #[trigger] reach_chunk(center, distance, k) by {
            if earlier.contains(c) {
                let i = choose|i: int| 0 <= i < earlier.len() && earlier[i] == c;
                assert(result[i] == c);
                let k = choose|k: int|
                    0 <= k < upto - 1 && c == #[trigger] reach_chunk(center, distance, k);
                assert(0 <= k < upto && c == reach_chunk(center, distance, k));
            }
            if result.contains(c) && !earlier.contains(c) {
                let i = choose|i: int| 0 <= i < result.len() && result[i] == c;
                if i < earlier.len() {
                    assert(earlier[i] == c);
                }
                assert(c == last);
                assert(0 <= upto - 1 < upto && c == reach_chunk(center, distance, upto - 1));
            }
            if !loaded.contains(c) && exists|k: int|
                0 <= k < upto && c == #[trigger] reach_chunk(center, distance, k) {
                let k = choose|k: int|
                    0 <= k < upto && c == #[trigger] reach_chunk(center, distance, k);
                if k < upto - 1 {
                    assert(earlier.contains(c));
                } else {
                    assert(c == last);
                    assert(result[result.len() - 1] == c);
                }
            }
        }
        assert forall|i: int, j: int| 0 <= i < j < result.len() implies result[i] != result[j] by {
            if j < earlier.len() {
                assert(earlier[i] != earlier[j]);
            } else {
                assert(result[j] == last);
                assert(earlier[i] == result[i]);
                assert(earlier.contains(earlier[i]));
                let k = choose|k: int|
                    0 <= k < upto - 1 && earlier[i] == #[trigger] reach_chunk(center, distance, k);
                lemma_square(center, distance, k);
                lemma_square(center, distance, upto - 1);
                let side = reach_side(distance);
                if reach_chunk(center, distance, k) == last {
                    assert(k / side == (upto - 1) / side);
                    assert(k % side == (upto - 1) % side);
                    vstd::arithmetic::div_mod::lemma_fundamental_div_mod(k, side);
                    vstd::arithmetic::div_mod::lemma_fundamental_div_mod(upto - 1, side);
                    assert(false);
                }
            }
        }
    }
}

/// After an update the loaded chunks are those of the square around the
/// camera, all of them and no others, and if no chunk was loaded twice
/// before, none is afterwards.
pub proof fn lemma_loaded_is_the_square(
    loaded: Seq<(i64, i64)>,
    center: (i64, i64),
    distance: u32,
    chunk: (i64, i64),
)
    requires
        -0x8000_0000 <= center.0 <= 0x7FFF_FFFF,
        -0x8000_0000 <= center.1 <= 0x7FFF_FFFF,
    ensures
        ({
            let after = still_loaded(loaded, center, distance) + newly_needed(
                loaded,
                center,
                distance,
                reach_side(distance) * reach_side(distance),
            );
            &&& after.contains(chunk) <==> in_reach(center, distance, chunk)
            &&& no_chunk_twice(loaded) ==> no_chunk_twice(after)
        }),
{
    let side = reach_side(distance);
    let cells = side * side;
    assert(cells >= 0) by (nonlinear_arith)
        requires
            cells == side * side,
    ;
    let kept = still_loaded(loaded, center, distance);
    let fresh = newly_needed(loaded, center, distance, cells);
    let after = kept + fresh;
    lemma_still_loaded(loaded, center, distance);
    lemma_newly_needed(loaded, center, distance, cells);
    if after.contains(chunk) {
        let i = choose|i: int| 0 <= i < after.len() && after[i] == chunk;
        if i < kept.len() {
            assert(kept[i] == chunk);
            assert(kept.contains(chunk));
        } else {
            assert(fresh[i - kept.len()] == chunk);
            assert(fresh.contains(chunk));
            let k = choose|k: int|
                0 <= k < cells && chunk == #[trigger] reach_chunk(center, distance, k);
            lemma_square(center, distance, k);
        }
    }
    if in_reach(center, distance, chunk) {
        let column = chunk.0 - (center.0 - distance);
        let row = chunk.1 - (center.1 - distance);
        lemma_cell(side, column, row);
        let k = column * side + row;
        lemma_square(center, distance, k);
        assert(chunk == reach_chunk(center, distance, k));
        if loaded.contains(chunk) {
            assert(kept.contains(chunk));
            let i = choose|i: int| 0 <= i < kept.len() && kept[i] == chunk;
            assert(after[i] == chunk);
        } else {
            assert(fresh.contains(chunk));
            let i = choose|i: int| 0 <= i < fresh.len() && fresh[i] == chunk;
            assert(after[kept.len() + i] == chunk);
        }
    }
    if no_chunk_twice(loaded) {
        assert forall|i: int, j: int| 0 <= i < j < after.len() implies after[i] != after[j] by {
            if j < kept.len() {
                assert(kept[i] != kept[j]);
            } else if i >= kept.len() {
                assert(fresh[i - kept.len()] != fresh[j - kept.len()]);
            } else {
                assert(kept[i] == after[i]);
                assert(fresh[j - kept.len()] == after[j]);
                assert(kept.contains(kept[i]));
                assert(fresh.contains(fresh[j - kept.len()]));
            }
        }
    }
}

} // verus!
