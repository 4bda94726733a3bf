//! The integer side of the server state: which fractal is shown, the size of
//! a tile in pixels, and where each tile sits in the grid.
use vstd::prelude::*;
use crate::models::resolution::Resolution;
use crate::models::u8_data::U8Data;
use crate::utils::random_index;

verus! {

/// The fractal after `current`, wrapping around after the last of `count`.
pub fn next_fractal_index(current: usize, count: usize) -> (next: usize)
    requires
        count > 0,
        current < usize::MAX,
    ensures
        next == (current + 1) % (count as int),
{
    (current + 1) % count
}

/// The fractal before `current`, wrapping around before the first.
pub fn previous_fractal_index(current: usize, count: usize) -> (previous: usize)
    requires
        current == 0 ==> count > 0,
    ensures
        previous == if current == 0 {
            count - 1
        } else {
            current - 1
        },
{
    if current == 0 {
        count - 1
    } else {
        current - 1
    }
}

/// Going to the next fractal and back again returns to the same one.
pub proof fn lemma_next_then_previous(current: usize, count: usize)
    requires
        current < count,
    ensures
        ({
            let next = (current + 1) % (count as int);
            (if next == 0 { count - 1 } else { next - 1 }) == current
        }),
{
    if current + 1 < count {
        vstd::arithmetic::div_mod::lemma_small_mod((current + 1) as nat, count as nat);
    } else {
        vstd::arithmetic::div_mod::lemma_mod_self_0(count as int);
    }
}

/// Going to the previous fractal and forward again returns to the same one.
pub proof fn lemma_previous_then_next(current: usize, count: usize)
    requires
        current < count,
    ensures
        ({
            let previous = if current == 0 { count - 1 } else { current - 1 };
            (previous + 1) % (count as int) == current
        }),
{
    if current == 0 {
        vstd::arithmetic::div_mod::lemma_mod_self_0(count as int);
    } else {
        vstd::arithmetic::div_mod::lemma_small_mod(current as nat, count as nat);
    }
}

/// The pixel size of one tile when a `width` by `height` image is split
/// into `tiles` by `tiles` tiles; each side is kept modulo 2^16 (`as u16`).
pub fn calculate_resolution(width: u32, height: u32, tiles: u32) -> (r: Resolution)
    requires
        tiles > 0,
    ensures
        r.nx == (width / tiles) % 0x1_0000,
        r.ny == (height / tiles) % 0x1_0000,
{
    let tile_width = ((width / tiles) % 0x1_0000) as u16;
    let tile_height = ((height / tiles) % 0x1_0000) as u16;
    Resolution::new(tile_width, tile_height)
}

/// The column and row of tile `id` in a grid `tiles` wide, both counted
/// modulo 256 as the tile number and the width are bytes (`as u8`).
pub open spec fn tile_cell(id: int, tiles: int) -> (u8, u8) {
    (((id % 256) % (tiles % 256)) as u8, ((id % 256) / (tiles % 256)) as u8)
}

/// The column and row of tile `id` in a grid `tiles` wide.
pub fn tile_position(id: u8, tiles: u32) -> (cell: (u8, u8))
    requires
        tiles % 256 != 0,
    ensures
        cell == tile_cell(id as int, tiles as int),
{
    let width = (tiles % 256) as u8;
    (id % width, id / width)
}

/// The cells of the `count * count` tiles of the grid, tile by tile.
pub fn tile_positions(count: u32) -> (cells: Vec<(u8, u8)>)
    requires
        count * count <= u32::MAX,
        count == 0 || count % 256 != 0,
    ensures
        cells@.len() == count * count,
        forall|k: int| 0 <= k < cells@.len() ==> #[trigger] cells@[k] == tile_cell(k, count as int),
{
    let total = count * count;
    let mut cells: Vec<(u8, u8)> = Vec::new();
    let mut i: u32 = 0;
    while i < total
        invariant
            total == count * count,
            count == 0 || count % 256 != 0,
            i <= total,
            cells@.len() == i,
            forall|k: int| 0 <= k < i ==> #[trigger] cells@[k] == tile_cell(k, count as int),
        decreases total - i,
    {
        assert(count != 0) by (nonlinear_arith)
            requires
                i < total,
                total == count * count,
        ;
        let cell = tile_position((i % 256) as u8, count);
        cells.push(cell);
        i = i + 1;
    }
    cells
}

/// When the grid has at most 256 tiles, tile `k` sits at column `k % count`
/// and row `k / count`, so every cell of the grid holds exactly one tile.
pub proof fn lemma_small_grid_cells(count: int, k: int, l: int)
    requires
        0 < count,
        count * count <= 256,
        0 <= k < count * count,
        0 <= l < count * count,
    ensures
        tile_cell(k, count) == ((k % count) as u8, (k / count) as u8),
        k % count < count && k / count < count,
        k != l ==> tile_cell(k, count) != tile_cell(l, count),
{
    assert(count <= 16) by (nonlinear_arith)
        requires
            0 < count,
            count * count <= 256,
    ;
    assert(k < 256 && l < 256);
    assert(k / count < count) by (nonlinear_arith)
        requires
            0 <= k < count * count,
            0 < count,
    ;
    assert(l / count < count) by (nonlinear_arith)
        requires
            0 <= l < count * count,
            0 < count,
    ;
    if k != l && tile_cell(k, count) == tile_cell(l, count) {
        assert(k % count == l % count);
        assert(k / count == l / count);
        vstd::arithmetic::div_mod::lemma_fundamental_div_mod(k, count);
        vstd::arithmetic::div_mod::lemma_fundamental_div_mod(l, count);
    }
}

/// Takes a tile chosen at random out of `tiles`, or `None` when there is
/// none left.
pub fn take_random_tile<T>(tiles: &mut Vec<T>) -> (tile: Option<T>)
    ensures
        tile is None <==> old(tiles)@.len() == 0,
        tile is None ==> final(tiles)@ == old(tiles)@,
        tile matches Some(t) ==> exists|i: int|
            0 <= i < old(tiles)@.len() && t == old(tiles)@[i] && final(tiles)@ == old(
                tiles,
            )@.remove(i),
{
    if tiles.len() == 0 {
        return None;
    }
    let index = random_index(tiles.len());
    Some(tiles.remove(index))
}

/// What a fragment task is made of besides its fractal: the tile it
/// covers, its identifier block, its iteration bound and its resolution.
pub struct TaskParts<T> {
    pub tile: T,
    pub id: U8Data,
    pub max_iteration: u32,
    pub resolution: Resolution,
}

/// The parts of the next fragment task of a `width` by `height` image split
/// `tiles_per_side` by `tiles_per_side`: a tile taken at random out of
/// `tiles`, the identifier block at offset 0 of 16 bytes, the bound of 256
/// iterations and the tile resolution; `None`, with `tiles` unchanged, when
/// no tile is left.
pub fn next_task_parts<T>(tiles: &mut Vec<T>, width: u32, height: u32, tiles_per_side: u32) -> (parts: Option<TaskParts<T>>)
    requires
        old(tiles)@.len() > 0 ==> tiles_per_side > 0,
    ensures
        parts is None <==> old(tiles)@.len() == 0,
        parts is None ==> final(tiles)@ == old(tiles)@,
        parts matches Some(p) ==> {
            &&& exists|i: int|
                0 <= i < old(tiles)@.len() && p.tile == old(tiles)@[i] && final(tiles)@ == old(
                    tiles,
                )@.remove(i)
            &&& p.id.offset == 0
            &&& p.id.count == 16
            &&& p.max_iteration == 256
            &&& p.resolution.nx == (width / tiles_per_side) % 0x1_0000
            &&& p.resolution.ny == (height / tiles_per_side) % 0x1_0000
        },
{
    match take_random_tile(tiles) {
        Some(tile) => {
            let resolution = calculate_resolution(width, height, tiles_per_side);
            Some(TaskParts { tile, id: U8Data::new(0, 16), max_iteration: 256, resolution })
        },
        None => None,
    }
}

} // verus!
