use vstd::prelude::*;

verus! {

/// Offset of the tile at `index` along one axis of the overlay: every tile
/// before it, and one margin before each tile and before this one.
pub open spec fn tile_origin(index: int, size: int, margin: int) -> int {
    index * size + (index + 1) * margin
}

/// Extent of the overlay along one axis: `count` tiles with a margin before,
/// between and after them.
pub open spec fn span_extent(count: int, size: int, margin: int) -> int {
    count * size + (count + 1) * margin
}

/// What is left of the work area's extent for the zones themselves, once the
/// border on both sides and the gaps between zones are taken out.
pub open spec fn zone_room(extent: int, border: int, gap: int, count: int) -> int {
    extent - 2 * border - (count - 1) * gap
}

/// Extent of one zone: the room shared evenly, rounded down.
pub open spec fn zone_size(extent: int, border: int, gap: int, count: int) -> int {
    zone_room(extent, border, gap, count) / count
}

/// Offset of the zone at `index` along one axis of the screen.
pub open spec fn zone_origin(index: int, size: int, border: int, gap: int, origin: int) -> int {
    index * size + border + index * gap + origin
}

pub proof fn lemma_tile_within(index: int, count: int, size: int, margin: int)
    requires
        0 <= index < count,
        size >= 0,
        margin >= 0,
    ensures
        margin <= tile_origin(index, size, margin),
        tile_origin(index, size, margin) + size + margin <= span_extent(count, size, margin),
{
    assert(index * size >= 0) by (nonlinear_arith)
        requires
            index >= 0,
            size >= 0,
    ;
    assert(index * margin >= 0) by (nonlinear_arith)
        requires
            index >= 0,
            margin >= 0,
    ;
    assert((index + 1) * size <= count * size) by (nonlinear_arith)
        requires
            index + 1 <= count,
            size >= 0,
    ;
    assert((index + 1) * margin <= count * margin) by (nonlinear_arith)
        requires
            index + 1 <= count,
            margin >= 0,
    ;
    assert(tile_origin(index, size, margin) == index * size + index * margin + margin) by (
    nonlinear_arith);
    assert(span_extent(count, size, margin) == count * size + count * margin + margin) by (
    nonlinear_arith);
    assert((index + 1) * size == index * size + size) by (nonlinear_arith);
    assert((index + 1) * margin == index * margin + margin) by (nonlinear_arith);
}

/// Tiles at distinct indices leave at least one margin between them.
pub proof fn lemma_tiles_apart(i: int, j: int, size: int, margin: int)
    requires
        0 <= i < j,
        size >= 0,
        margin >= 0,
    ensures
        tile_origin(i, size, margin) + size + margin <= tile_origin(j, size, margin),
{
    assert((j - i - 1) * (size + margin) >= 0) by (nonlinear_arith)
        requires
            j - i - 1 >= 0,
            size + margin >= 0,
    ;
    assert(tile_origin(j, size, margin) - tile_origin(i, size, margin) == (j - i) * (size
        + margin)) by (nonlinear_arith);
    assert((j - i) * (size + margin) == (j - i - 1) * (size + margin) + size + margin) by (
    nonlinear_arith);
}

pub proof fn lemma_zone_within(
    index: int,
    count: int,
    extent: int,
    border: int,
    gap: int,
    origin: int,
)
    requires
        0 <= index < count,
        border >= 0,
        gap >= 0,
        zone_room(extent, border, gap, count) >= 0,
    ensures
        zone_size(extent, border, gap, count) >= 0,
        origin + border <= zone_origin(
            index,
            zone_size(extent, border, gap, count),
            border,
            gap,
            origin,
        ),
        zone_origin(index, zone_size(extent, border, gap, count), border, gap, origin)
            + zone_size(extent, border, gap, count) <= origin + extent - border,
{
    let room = zone_room(extent, border, gap, count);
    let z = zone_size(extent, border, gap, count);
    assert(z >= 0 && count * z <= room) by (nonlinear_arith)
        requires
            z == room / count,
            room >= 0,
            count >= 1,
    ;
    assert(index * z + index * gap >= 0) by (nonlinear_arith)
        requires
            index >= 0,
            z >= 0,
            gap >= 0,
    ;
    assert(index * z + index * gap + z <= count * z + (count - 1) * gap) by (nonlinear_arith)
        requires
            index <= count - 1,
            z >= 0,
            gap >= 0,
    ;
}

/// Zones at distinct indices are at least one gap apart.
pub proof fn lemma_zones_apart(i: int, j: int, size: int, border: int, gap: int, origin: int)
    requires
        0 <= i < j,
        size >= 0,
        gap >= 0,
    ensures
        zone_origin(i, size, border, gap, origin) + size + gap <= zone_origin(
            j,
            size,
            border,
            gap,
            origin,
        ),
{
    assert(i * size + i * gap + size + gap <= j * size + j * gap) by (nonlinear_arith)
        requires
            0 <= i < j,
            size >= 0,
            gap >= 0,
    ;
}

} // verus!
