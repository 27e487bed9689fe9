//! How the panels share the window: columns and rows with dividers that can be
//! dragged. Lengths are in thousandths of a point, parts in millionths.
use vstd::prelude::*;

verus! {

/// The whole of a length, in parts.
pub const WHOLE: u32 = 1_000_000;

/// The breadth of a divider.
pub const HANDLE: u32 = 7_000;

/// Least widths of the decode list and of the contact beside it.
pub const DECODES_MIN: u32 = 180_000;

pub const CONTACT_MIN: u32 = 220_000;

/// Least heights of the operating panel and of the waterfall above it. The panel
/// leaves more room than the waterfall's least as long as there is any.
pub const PANEL_MIN: u32 = 190_000;

pub const WATERFALL_MIN: u32 = 80_000;

pub const WATERFALL_ROOM: u32 = 140_000;

/// Least width of each side of the SSTV panel, and of the picture being received
/// and the gallery on its receiving side.
pub const SSTV_SIDE_MIN: u32 = 300_000;

pub const GALLERY_MIN: u32 = 150_000;

pub const LIVE_MIN: u32 = 160_000;

/// What stands below the map: the divider, the station card and the buttons with
/// their gaps.
pub const BELOW_MAP: u32 = 124_000;

/// A length kept between two ends, of which the upper gives way to the lower.
pub open spec fn kept_between(x: int, lo: int, hi: int) -> int {
    if x > hi && hi > lo {
        hi
    } else if x < lo || hi <= lo {
        lo
    } else {
        x
    }
}

/// A part of a length.
pub open spec fn part_of(length: u32, part: u32) -> int {
    length * part / (WHOLE as int)
}

fn share(length: u32, part: u32, lo: u32, hi: i64) -> (r: u32)
    requires
        hi <= u32::MAX,
    ensures
        r == kept_between(part_of(length, part), lo as int, hi as int),
{
    assert(length * part <= u64::MAX) by (nonlinear_arith)
        requires
            length <= 0xffff_ffff,
            part <= 0xffff_ffff,
    ;
    let x: u64 = length as u64 * part as u64 / WHOLE as u64;
    if hi <= lo as i64 || x < lo as u64 {
        lo
    } else if x > hi as u64 {
        hi as u32
    } else {
        x as u32
    }
}

fn rest(length: u32, taken: u32, least: u32) -> (r: u32)
    ensures
        r == if length - taken - HANDLE > least {
            length - taken - HANDLE
        } else {
            least as int
        },
{
    let left: i64 = length as i64 - taken as i64 - HANDLE as i64;
    if left > least as i64 {
        left as u32
    } else {
        least
    }
}

/// The width of the decode list: a part of the panel, each side with a usable
/// least.
pub fn decode_list_width(width: u32, part: u32) -> (r: u32)
    ensures
        r == kept_between(
            part_of(width, part),
            DECODES_MIN as int,
            width - HANDLE - CONTACT_MIN,
        ),
{
    share(width, part, DECODES_MIN, width as i64 - HANDLE as i64 - CONTACT_MIN as i64)
}

/// The heights of the operating panel and of the waterfall above it.
pub fn digital_rows(total: u32, part: u32) -> (r: (u32, u32))
    ensures
        r.0 == kept_between(part_of(total, part), PANEL_MIN as int, total - WATERFALL_ROOM),
        r.1 == if total - r.0 - HANDLE > WATERFALL_MIN {
            total - r.0 - HANDLE
        } else {
            WATERFALL_MIN as int
        },
{
    let panel: u32 = share(total, part, PANEL_MIN, total as i64 - WATERFALL_ROOM as i64);
    (panel, rest(total, panel, WATERFALL_MIN))
}

/// The columns of the SSTV panel.
#[derive(Clone, Copy, Debug, PartialEq, Eq, Structural)]
pub struct SstvColumns {
    /// The side that sends.
    pub send: u32,
    /// The side that receives: the picture in progress and the gallery.
    pub receive: u32,
    pub live: u32,
    pub gallery: u32,
}

/// The columns of the SSTV panel, from the parts that the dividers are at.
pub fn sstv_columns(width: u32, send_part: u32, gallery_part: u32) -> (r: SstvColumns)
    ensures
        r.send == kept_between(
            part_of(width, send_part),
            SSTV_SIDE_MIN as int,
            width - HANDLE - SSTV_SIDE_MIN,
        ),
        r.receive == if width - r.send - HANDLE > SSTV_SIDE_MIN {
            width - r.send - HANDLE
        } else {
            SSTV_SIDE_MIN as int
        },
        r.gallery == kept_between(
            part_of(r.receive, gallery_part),
            GALLERY_MIN as int,
            r.receive - HANDLE - LIVE_MIN,
        ),
        r.live == if r.receive - r.gallery - HANDLE > LIVE_MIN {
            r.receive - r.gallery - HANDLE
        } else {
            LIVE_MIN as int
        },
{
    let send: u32 = share(
        width,
        send_part,
        SSTV_SIDE_MIN,
        width as i64 - HANDLE as i64 - SSTV_SIDE_MIN as i64,
    );
    let receive: u32 = rest(width, send, SSTV_SIDE_MIN);
    let gallery: u32 = share(
        receive,
        gallery_part,
        GALLERY_MIN,
        receive as i64 - HANDLE as i64 - LIVE_MIN as i64,
    );
    SstvColumns { send, receive, live: rest(receive, gallery, LIVE_MIN), gallery }
}

/// The greatest height of the map: what leaves room for the station card and the
/// buttons below, no more than the width, and never under its least.
pub open spec fn map_most(height: u32, width: u32, least: u32) -> int {
    let room = height - BELOW_MAP;
    let most = if room < width {
        room
    } else {
        width as int
    };
    if most > least {
        most
    } else {
        least as int
    }
}

/// The height of the map: from its least to its greatest, by the part that the
/// divider is at.
pub fn map_height(height: u32, width: u32, least: u32, part: u32) -> (r: u32)
    requires
        part <= WHOLE,
    ensures
        r == least + (map_most(height, width, least) - least) * part / (WHOLE as int),
        least <= r <= map_most(height, width, least),
{
    let room: i64 = height as i64 - BELOW_MAP as i64;
    let most: i64 = if room < width as i64 {
        room
    } else {
        width as i64
    };
    let span: u64 = if most > least as i64 {
        (most - least as i64) as u64
    } else {
        0
    };
    assert(span * part <= span * 1_000_000) by (nonlinear_arith)
        requires
            0 <= part <= 1_000_000,
            0 <= span,
    ;
    let grown: u64 = span * part as u64 / WHOLE as u64;
    assert(grown <= span);
    (least as u64 + grown) as u32
}

/// The dividers of the panels.
#[derive(Clone, Copy, Debug, PartialEq, Eq, Structural)]
pub enum Divider {
    /// Between the receiving side of the SSTV panel and the sending one.
    Send,
    /// Between the picture in progress and the gallery.
    Gallery,
    /// Between the decode list and the contact.
    Decodes,
    /// Between the waterfall and the operating panel.
    Panel,
    /// Between the map and the station card.
    World,
}

/// The parts that a pointer's way along a length comes to, cut off toward none.
pub open spec fn way_in_parts(moved: int, length: int) -> int {
    if moved >= 0 {
        moved * WHOLE / length
    } else {
        -((-moved) * WHOLE / length)
    }
}

impl Divider {
    /// The least part that it can be dragged to.
    pub open spec fn least(&self) -> u32 {
        match self {
            Divider::Send => 220_000,
            Divider::Gallery => 200_000,
            Divider::Decodes => 280_000,
            Divider::Panel => 200_000,
            Divider::World => 0,
        }
    }

    /// The greatest part that it can be dragged to.
    pub open spec fn most(&self) -> u32 {
        match self {
            Divider::Send => 600_000,
            Divider::Gallery => 600_000,
            Divider::Decodes => 720_000,
            Divider::Panel => 820_000,
            Divider::World => WHOLE,
        }
    }

    /// Whether the part grows with the pointer's way to the right or down. Where
    /// it does not, what stands on the other side does.
    pub open spec fn grows(&self) -> bool {
        *self == Divider::Decodes || *self == Divider::World
    }

    fn ends(&self) -> (r: (u32, u32))
        ensures
            r == (self.least(), self.most()),
    {
        match self {
            Divider::Send => (220_000, 600_000),
            Divider::Gallery => (200_000, 600_000),
            Divider::Decodes => (280_000, 720_000),
            Divider::Panel => (200_000, 820_000),
            Divider::World => (0, WHOLE),
        }
    }

    /// The part after a drag, before it is kept within the ends.
    pub open spec fn moved_to(&self, part: u32, moved: i32, length: u32) -> int {
        let way = way_in_parts(
            moved as int,
            if length > 1000 {
                length as int
            } else {
                1000
            },
        );
        if self.grows() {
            part + way
        } else {
            part - way
        }
    }

    /// The pointer drags the divider along a length.
    pub fn drag(&self, part: u32, moved: i32, length: u32) -> (r: u32)
        ensures
            r == kept_between(
                self.moved_to(part, moved, length),
                self.least() as int,
                self.most() as int,
            ),
    {
        let (least, most) = self.ends();
        let grows = match self {
            Divider::Decodes | Divider::World => true,
            _ => false,
        };
        let length: i64 = if length > 1000 {
            length as i64
        } else {
            1000
        };
        let ahead: i64 = if moved >= 0 {
            moved as i64
        } else {
            -(moved as i64)
        };
        let way: i64 = ahead * WHOLE as i64 / length;
        proof {
            let full = ahead * 1_000_000;
            assert(0 <= full / length as int <= full) by (nonlinear_arith)
                requires
                    0 <= full,
                    length >= 1000,
            ;
        }
        let to: i64 = if (moved >= 0) == grows {
            part as i64 + way
        } else {
            part as i64 - way
        };
        if to > most as i64 {
            most
        } else if to < least as i64 {
            least
        } else {
            to as u32
        }
    }
}

/// Both sides of the SSTV panel keep a usable width, and where there is room for
/// both they and the divider fill the panel exactly.
pub proof fn law_columns_fill_the_panel(width: u32, send_part: u32, gallery_part: u32)
    ensures
        ({
            let send = kept_between(
                part_of(width, send_part),
                SSTV_SIDE_MIN as int,
                width - HANDLE - SSTV_SIDE_MIN,
            );
            let receive = if width - send - HANDLE > SSTV_SIDE_MIN {
                width - send - HANDLE
            } else {
                SSTV_SIDE_MIN as int
            };
            &&& send >= SSTV_SIDE_MIN && receive >= SSTV_SIDE_MIN
            &&& width >= 2 * SSTV_SIDE_MIN + HANDLE ==> send + HANDLE + receive == width
        }),
{
}

/// The picture in progress and the gallery keep a usable width, and where there
/// is room for both they and the divider fill the receiving side exactly.
pub proof fn law_receiving_side_is_filled(receive: u32, gallery_part: u32)
    ensures
        ({
            let gallery = kept_between(
                part_of(receive, gallery_part),
                GALLERY_MIN as int,
                receive - HANDLE - LIVE_MIN,
            );
            let live = if receive - gallery - HANDLE > LIVE_MIN {
                receive - gallery - HANDLE
            } else {
                LIVE_MIN as int
            };
            &&& gallery >= GALLERY_MIN && live >= LIVE_MIN
            &&& receive >= GALLERY_MIN + HANDLE + LIVE_MIN ==> gallery + HANDLE + live == receive
        }),
{
}

/// The operating panel and the waterfall keep a usable height, and where there is
/// room for both they and the divider fill the window exactly.
pub proof fn law_rows_fill_the_window(total: u32, part: u32)
    ensures
        ({
            let panel = kept_between(
                part_of(total, part),
                PANEL_MIN as int,
                total - WATERFALL_ROOM,
            );
            let waterfall = if total - panel - HANDLE > WATERFALL_MIN {
                total - panel - HANDLE
            } else {
                WATERFALL_MIN as int
            };
            &&& panel >= PANEL_MIN && waterfall >= WATERFALL_MIN
            &&& total >= PANEL_MIN + WATERFALL_ROOM ==> panel + HANDLE + waterfall == total
        }),
{
}

/// A divider stays within its ends wherever it is dragged, and one that is not
/// moved stays where it is.
pub proof fn law_divider_stays_within(d: Divider, part: u32, moved: i32, length: u32)
    ensures
        d.least() <= kept_between(
            d.moved_to(part, moved, length),
            d.least() as int,
            d.most() as int,
        ) <= d.most(),
        d.least() <= part <= d.most() ==> kept_between(
            d.moved_to(part, 0, length),
            d.least() as int,
            d.most() as int,
        ) == part,
{
    let l: int = if length > 1000 {
        length as int
    } else {
        1000
    };
    assert(0int * WHOLE / l == 0) by (nonlinear_arith)
        requires
            l >= 1000,
    ;
}

/// A length that is kept between two ends is the one between them that is nearest,
/// so one that lies between them stays. Where the ends cross there is only the
/// lower one.
pub proof fn law_kept_length_is_nearest(x: int, lo: int, hi: int, q: int)
    ensures
        hi <= lo ==> kept_between(x, lo, hi) == lo,
        lo <= hi ==> lo <= kept_between(x, lo, hi) <= hi,
        lo <= x <= hi ==> kept_between(x, lo, hi) == x,
        lo <= q <= hi && kept_between(x, lo, hi) > x ==> q >= kept_between(x, lo, hi),
        lo <= q <= hi && kept_between(x, lo, hi) < x ==> q <= kept_between(x, lo, hi),
{
}

/// Parts are millionths: all of them are the whole length, and more of them are no
/// shorter.
pub proof fn law_parts_are_millionths(length: u32, part: u32, more: u32)
    ensures
        part_of(length, 1_000_000) == length,
        part_of(length, 0) == 0,
        part <= more ==> part_of(length, part) <= part_of(length, more),
        part_of(length, part) * 1_000_000 <= length * part < (part_of(length, part) + 1)
            * 1_000_000,
{
    assert(part <= more ==> length * part <= length * more) by (nonlinear_arith);
    assert(length * 0 == 0);
}

/// The decode list and the contact beside it keep 180 and 220 points, and where
/// there is room for both the list is as wide as its part of the panel says, as far
/// as that leaves the contact its least. Beside them stands a divider of 7.
pub proof fn law_decode_list_leaves_room(width: u32, part: u32)
    ensures
        ({
            let list = kept_between(
                part_of(width, part),
                DECODES_MIN as int,
                width - HANDLE - CONTACT_MIN,
            );
            &&& list >= 180_000
            &&& width >= 407_000 ==> list + 7_000 + 220_000 <= width
            &&& 180_000 <= part_of(width, part) && part_of(width, part) + 227_000 <= width ==> list
                == part_of(width, part)
        }),
{
}

/// The other panels keep their least sizes too: each side of the SSTV panel 300
/// points, its gallery 150 and the picture beside it 160; the operating panel 190,
/// with 140 for the waterfall above it where there is room for that.
pub proof fn law_panels_keep_their_least_sizes(length: u32, part: u32)
    ensures
        ({
            let send = kept_between(
                part_of(length, part),
                SSTV_SIDE_MIN as int,
                length - HANDLE - SSTV_SIDE_MIN,
            );
            let gallery = kept_between(
                part_of(length, part),
                GALLERY_MIN as int,
                length - HANDLE - LIVE_MIN,
            );
            let panel = kept_between(
                part_of(length, part),
                PANEL_MIN as int,
                length - WATERFALL_ROOM,
            );
            &&& send >= 300_000 && (length >= 607_000 ==> length - send - 7_000 >= 300_000)
            &&& gallery >= 150_000 && (length >= 317_000 ==> length - gallery - 7_000 >= 160_000)
            &&& panel >= 190_000 && (length >= 330_000 ==> length - panel >= 140_000)
        }),
{
}

/// The map leaves 124 points below it for the station card and the buttons and is no
/// taller than it is wide, unless that is less than its least height.
pub proof fn law_map_leaves_room_below(height: u32, width: u32, least: u32)
    ensures
        ({
            let most = map_most(height, width, least);
            &&& most >= least
            &&& most > least ==> most + 124_000 <= height && most <= width
            &&& most > least ==> most + 124_000 == height || most == width
            &&& most == least ==> height <= least + 124_000 || width <= least
        }),
{
}

/// A divider follows the pointer: along the whole of a length it moves by the whole
/// of its parts, back as far as forth, and farther with the pointer. What stands
/// before it grows when it moves on, so that the part of what stands behind it
/// shrinks.
pub proof fn law_divider_follows_the_pointer(d: Divider, part: u32, moved: i32, length: u32)
    requires
        length > 1000,
        moved >= 0,
        moved > i32::MIN,
    ensures
        way_in_parts(length as int, length as int) == 1_000_000,
        way_in_parts(-(moved as int), length as int) == -way_in_parts(moved as int, length as int),
        way_in_parts(moved as int, length as int) * length <= moved * 1_000_000 < (way_in_parts(
            moved as int,
            length as int,
        ) + 1) * length,
        d == Divider::Decodes || d == Divider::World ==> d.moved_to(part, moved, length) == part
            + way_in_parts(moved as int, length as int),
        d == Divider::Send || d == Divider::Gallery || d == Divider::Panel ==> d.moved_to(
            part,
            moved,
            length,
        ) == part - way_in_parts(moved as int, length as int),
{
    let l = length as int;
    let m = moved * 1_000_000;
    assert(l * 1_000_000 / l == 1_000_000) by (nonlinear_arith)
        requires
            l > 0,
    ;
    assert(m / l * l <= m < (m / l + 1) * l) by (nonlinear_arith)
        requires
            l > 0,
    ;
    if moved == 0 {
        assert(0int / l == 0) by (nonlinear_arith)
            requires
                l > 0,
        ;
    }
}

/// How far each divider can be dragged, in hundredths of its length: the two of the
/// SSTV panel, that beside the decode list, that above the operating panel, and that
/// below the map, which goes all the way.
pub proof fn law_dividers_have_their_ends(d: Divider)
    ensures
        d.least() == 10_000 * match d {
            Divider::Send => 22int,
            Divider::Gallery => 20,
            Divider::Decodes => 28,
            Divider::Panel => 20,
            Divider::World => 0,
        },
        d.most() == 10_000 * match d {
            Divider::Send => 60int,
            Divider::Gallery => 60,
            Divider::Decodes => 72,
            Divider::Panel => 82,
            Divider::World => 100,
        },
{
}

} // verus!
