//! The layers of the solar-system window, each a bit of a mask.
use vstd::prelude::*;

verus! {

pub const ORBITS: u32 = 0x1;

pub const CME: u32 = 0x2;

pub const SPOTS: u32 = 0x4;

pub const FLARES: u32 = 0x8;

/// Always drawn; the bit is kept so that the others stay where they are.
pub const GRID: u32 = 0x10;

pub const LABELS: u32 = 0x20;

/// Always drawn, as the graticule is.
pub const STARS: u32 = 0x40;

/// Decoded stations and the arc to the station being worked.
pub const QSO: u32 = 0x80;

/// Amateur-radio satellites and their orbits.
pub const SATS: u32 = 0x100;

/// The auroral oval.
pub const AURORA: u32 = 0x200;

/// The other planets, their moons and their rings.
pub const PLANETS: u32 = 0x400;

/// Which entities are still missing from the log. Off until it is asked for.
pub const AWARDS: u32 = 0x800;

/// Cloud cover and the lightning inside it.
pub const CLOUDS: u32 = 0x1000;

/// Sunspots and flares together, as one button shows them.
pub const SUN_OBS: u32 = 0xc;

/// Every layer that is on by default: all but the awards.
pub const ALL: u32 = 0x17ff;

/// Whether a mask was the full set of layers once: each set that has been lacks
/// the layers that came later.
pub open spec fn was_all(mask: u32) -> bool {
    mask == 0x7f || mask == 0xff || mask == 0x1ff || mask == 0x3ff || mask == 0x7ff
}

/// A stored mask as it is now to be read. One that meant everything when it was
/// stored still does.
pub fn upgraded(mask: u32) -> (r: u32)
    ensures
        r == if was_all(mask) {
            ALL
        } else {
            mask
        },
{
    if mask == 0x7f || mask == 0xff || mask == 0x1ff || mask == 0x3ff || mask == 0x7ff {
        ALL
    } else {
        mask
    }
}

/// The layers as bits, the pair and the full set as what they stand for, and
/// the full sets that have been: no two layers share a bit, and each full set
/// is the one before it and the layer that came next.
pub proof fn law_layers_are_bits()
    ensures
        SUN_OBS == SPOTS | FLARES,
        0x7fu32 == ORBITS | CME | SPOTS | FLARES | GRID | LABELS | STARS,
        0xffu32 == 0x7fu32 | QSO,
        0x1ffu32 == 0xffu32 | SATS,
        0x3ffu32 == 0x1ffu32 | AURORA,
        0x7ffu32 == 0x3ffu32 | PLANETS,
        ALL == 0x7ffu32 | CLOUDS,
        ALL & AWARDS == 0,
        AWARDS & CLOUDS == 0,
{
    assert(0xcu32 == 0x4u32 | 0x8u32) by (bit_vector);
    assert(0x7fu32 == 0x1u32 | 0x2u32 | 0x4u32 | 0x8u32 | 0x10u32 | 0x20u32 | 0x40u32)
        by (bit_vector);
    assert(0xffu32 == 0x7fu32 | 0x80u32) by (bit_vector);
    assert(0x1ffu32 == 0xffu32 | 0x100u32) by (bit_vector);
    assert(0x3ffu32 == 0x1ffu32 | 0x200u32) by (bit_vector);
    assert(0x7ffu32 == 0x3ffu32 | 0x400u32) by (bit_vector);
    assert(0x17ffu32 == 0x7ffu32 | 0x1000u32) by (bit_vector);
    assert(0x17ffu32 & 0x800u32 == 0) by (bit_vector);
    assert(0x800u32 & 0x1000u32 == 0) by (bit_vector);
}

/// Switching layers on or off does that to them, and leaves the others alone.
pub proof fn law_switching_is_local(mask: u32, bits: u32, other: u32)
    ensures
        bits != 0 ==> (mask | bits) & bits != 0,
        (mask & !bits) & bits == 0,
        bits & other == 0 ==> (mask | bits) & other == mask & other,
        bits & other == 0 ==> (mask & !bits) & other == mask & other,
{
    assert(bits != 0 ==> (mask | bits) & bits != 0) by (bit_vector);
    assert((mask & !bits) & bits == 0) by (bit_vector);
    assert(bits & other == 0 ==> (mask | bits) & other == mask & other) by (bit_vector);
    assert(bits & other == 0 ==> (mask & !bits) & other == mask & other) by (bit_vector);
}

/// A mask that had every layer on when it was stored has every layer on now, and any
/// other is read as it is.
pub proof fn law_full_masks_stay_full(mask: u32)
    ensures
        was_all(ORBITS | CME | SPOTS | FLARES | GRID | LABELS | STARS),
        was_all(ORBITS | CME | SPOTS | FLARES | GRID | LABELS | STARS | QSO),
        was_all(ORBITS | CME | SPOTS | FLARES | GRID | LABELS | STARS | QSO | SATS),
        was_all(ORBITS | CME | SPOTS | FLARES | GRID | LABELS | STARS | QSO | SATS | AURORA),
        was_all(
            ORBITS | CME | SPOTS | FLARES | GRID | LABELS | STARS | QSO | SATS | AURORA | PLANETS,
        ),
        was_all(mask) ==> mask & 0x7f == 0x7f && mask <= 0x7ff && mask & (mask + 1) as u32 == 0,
        !was_all(0),
        !was_all(ALL),
{
    law_layers_are_bits();
    assert(0x7fu32 & 0x7f == 0x7f && 0xffu32 & 0x7f == 0x7f && 0x1ffu32 & 0x7f == 0x7f && 0x3ffu32
        & 0x7f == 0x7f && 0x7ffu32 & 0x7f == 0x7f) by (bit_vector);
    assert(0x7fu32 & 0x80 == 0 && 0xffu32 & 0x100 == 0 && 0x1ffu32 & 0x200 == 0 && 0x3ffu32 & 0x400
        == 0 && 0x7ffu32 & 0x800 == 0) by (bit_vector);
}

} // verus!
