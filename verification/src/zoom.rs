//! How large a chart is shown.
use vstd::prelude::*;

verus! {

/// The least and the most magnification, in thousandths.
pub const MIN_ZOOM: i32 = 100;

pub const MAX_ZOOM: i32 = 4000;

/// How far a picture may be squashed and stretched vertically, in thousandths.
pub const MIN_ASPECT: i32 = 250;

pub const MAX_ASPECT: i32 = 4000;

/// How the live chart is scaled into the panel.
#[derive(Clone, Copy, Debug, PartialEq, Eq, Structural)]
pub enum Zoom {
    /// To the panel's width, and never past one screen pixel per chart pixel.
    FitWidth,
    /// So that all of the chart is in view, however tall it has grown.
    Whole,
    /// A magnification in thousandths; none for one that is no number.
    Fixed(Option<i32>),
}

/// A size on the screen, in pixels, each side as a fraction.
#[derive(Clone, Copy, Debug, PartialEq, Eq, Structural)]
pub struct ScreenSize {
    pub w: u64,
    pub w_of: u64,
    pub h: u64,
    pub h_of: u64,
}

/// A length that is at least one.
pub open spec fn side(n: u16) -> int {
    if n > 1 {
        n as int
    } else {
        1
    }
}

/// A vertical stretch within its limits; none for one that is no number, which
/// stretches nothing.
pub open spec fn stretch(aspect: Option<i32>) -> int {
    match aspect {
        None => 1000,
        Some(a) => limited(a as int, MIN_ASPECT as int, MAX_ASPECT as int),
    }
}

/// A number held between two others.
pub open spec fn limited(n: int, lo: int, hi: int) -> int {
    if n < lo {
        lo
    } else if n > hi {
        hi
    } else {
        n
    }
}

/// A fraction that is at least one part in `least`, and at most one.
pub open spec fn shrunk(f: (int, int), least: int) -> (int, int) {
    if f.0 * least < f.1 {
        (1, least)
    } else if f.0 > f.1 {
        (1, 1)
    } else {
        f
    }
}

/// The magnification of a chart of a size, in a panel of a size in thousandths
/// of a pixel, as a fraction.
pub open spec fn scale(
    zoom: Zoom,
    aspect: Option<i32>,
    view: (u32, u32),
    size: (u16, u16),
) -> (int, int) {
    let across = (view.0 as int, 1000 * side(size.0));
    let down = (view.1 as int, side(size.1) * stretch(aspect));
    match zoom {
        Zoom::FitWidth => shrunk(across, 10),
        Zoom::Whole => shrunk(
            if down.0 * across.1 < across.0 * down.1 {
                down
            } else {
                across
            },
            100,
        ),
        Zoom::Fixed(None) => (1, 1),
        Zoom::Fixed(Some(z)) => (limited(z as int, MIN_ZOOM as int, MAX_ZOOM as int), 1000),
    }
}

fn at_least_one(n: u16) -> (r: u64)
    ensures
        r == side(n),
        1 <= r <= 0xffff,
{
    if n > 1 {
        n as u64
    } else {
        1
    }
}

fn limit(n: i32, lo: i32, hi: i32) -> (r: i32)
    ensures
        r == limited(n as int, lo as int, hi as int),
{
    if n < lo {
        lo
    } else if n > hi {
        hi
    } else {
        n
    }
}

fn shrink(num: u64, den: u64, least: u64) -> (r: (u64, u64))
    requires
        num <= 0xffff_ffff,
        1 <= den <= 0xffff_ffff,
        1 <= least <= 100,
    ensures
        (r.0 as int, r.1 as int) == shrunk((num as int, den as int), least as int),
        r.0 <= 0xffff_ffff,
        1 <= r.1 <= 0xffff_ffff,
        r.0 <= r.1,
{
    assert(0 <= num * least <= 0xffff_ffff * 100) by (nonlinear_arith)
        requires
            num <= 0xffff_ffff,
            1 <= least <= 100,
    ;
    if num * least < den {
        (1, least)
    } else if num > den {
        (1, 1)
    } else {
        (num, den)
    }
}

fn find_scale(zoom: Zoom, w: u64, h: u64, tall: u64, view: (u32, u32)) -> (r: (u64, u64))
    requires
        1 <= w <= 0xffff,
        1 <= h <= 0xffff,
        250 <= tall <= 4000,
    ensures
        ({
            let across = (view.0 as int, 1000 * w as int);
            let down = (view.1 as int, h * tall as int);
            (r.0 as int, r.1 as int) == match zoom {
                Zoom::FitWidth => shrunk(across, 10),
                Zoom::Whole => shrunk(
                    if down.0 * across.1 < across.0 * down.1 {
                        down
                    } else {
                        across
                    },
                    100,
                ),
                Zoom::Fixed(None) => (1, 1),
                Zoom::Fixed(Some(z)) => (limited(z as int, MIN_ZOOM as int, MAX_ZOOM as int), 1000),
            }
        }),
        r.0 <= 0xffff_ffff,
        1 <= r.1 <= 0xffff_ffff,
{
    match zoom {
        Zoom::FitWidth => shrink(view.0 as u64, 1000 * w, 10),
        Zoom::Whole => {
            assert(1 <= h * tall <= 0xffff * 4000) by (nonlinear_arith)
                requires
                    1 <= h <= 0xffff,
                    250 <= tall <= 4000,
            ;
            let high: u64 = h * tall;
            let wide: u64 = 1000 * w;
            assert(0 <= view.1 * wide <= 0xffff_ffff * 0xffff_ffff) by (nonlinear_arith)
                requires
                    0 <= view.1 <= 0xffff_ffff,
                    0 <= wide <= 0xffff_ffff,
            ;
            assert(0 <= view.0 * high <= 0xffff_ffff * 0xffff_ffff) by (nonlinear_arith)
                requires
                    0 <= view.0 <= 0xffff_ffff,
                    0 <= high <= 0xffff_ffff,
            ;
            if (view.1 as u64) * wide < (view.0 as u64) * high {
                shrink(view.1 as u64, high, 100)
            } else {
                shrink(view.0 as u64, wide, 100)
            }
        },
        Zoom::Fixed(None) => (1, 1),
        Zoom::Fixed(Some(z)) => (limit(z, MIN_ZOOM, MAX_ZOOM) as u64, 1000),
    }
}

/// The size on the screen of a chart of `size` pixels in a panel of `view`
/// thousandths of a pixel, at a magnification and a vertical stretch in
/// thousandths.
pub fn live_size(
    zoom: Zoom,
    aspect: Option<i32>,
    view: (u32, u32),
    size: (u16, u16),
) -> (r: ScreenSize)
    ensures
        ({
            let s = scale(zoom, aspect, view, size);
            &&& r.w == side(size.0) * s.0
            &&& r.w_of == s.1
            &&& r.h == side(size.1) * s.0 * stretch(aspect)
            &&& r.h_of == s.1 * 1000
        }),
        r.w_of > 0,
        r.h_of > 0,
{
    let w: u64 = at_least_one(size.0);
    let h: u64 = at_least_one(size.1);
    let tall: u64 = match aspect {
        None => 1000,
        Some(a) => limit(a, MIN_ASPECT, MAX_ASPECT) as u64,
    };
    let s = find_scale(zoom, w, h, tall, view);
    let num: u64 = s.0;
    assert(0 <= w * num <= 0xffff * 0xffff_ffff) by (nonlinear_arith)
        requires
            0 <= w <= 0xffff,
            0 <= num <= 0xffff_ffff,
    ;
    assert(0 <= h * num <= 0xffff * 0xffff_ffff) by (nonlinear_arith)
        requires
            0 <= h <= 0xffff,
            0 <= num <= 0xffff_ffff,
    ;
    let high: u64 = h * num;
    assert(0 <= high * tall <= 0xffff * 0xffff_ffff * 4000) by (nonlinear_arith)
        requires
            0 <= high <= 0xffff * 0xffff_ffff,
            0 <= tall <= 4000,
    ;
    ScreenSize { w: w * num, w_of: s.1, h: high * tall, h_of: s.1 * 1000 }
}

/// Fitting never magnifies: a chart blown up past its own pixels is blurrier, and
/// no more legible.
pub proof fn law_fitting_never_magnifies(
    zoom: Zoom,
    aspect: Option<i32>,
    view: (u32, u32),
    size: (u16, u16),
)
    requires
        zoom is FitWidth || zoom is Whole,
    ensures
        0 <= scale(zoom, aspect, view, size).0 <= scale(zoom, aspect, view, size).1,
{
}

/// A magnification that was asked for is honoured whatever the panel's size is.
pub proof fn law_magnifying_ignores_the_panel(
    z: Option<i32>,
    aspect: Option<i32>,
    view: (u32, u32),
    other: (u32, u32),
    size: (u16, u16),
)
    ensures
        scale(Zoom::Fixed(z), aspect, view, size) == scale(Zoom::Fixed(z), aspect, other, size),
{
}

/// The stretch scales the height and nothing else, unless all of the chart is to
/// be in view.
pub proof fn law_stretch_keeps_the_width(
    zoom: Zoom,
    aspect: Option<i32>,
    other: Option<i32>,
    view: (u32, u32),
    size: (u16, u16),
)
    requires
        !(zoom is Whole),
    ensures
        scale(zoom, aspect, view, size) == scale(zoom, other, view, size),
{
}

/// The whole chart fits in the panel both ways, stretched as it is, unless it
/// would have to be shrunk to less than a hundredth.
pub proof fn law_whole_chart_fits(aspect: Option<i32>, view: (u32, u32), size: (u16, u16))
    requires
        view.0 * 100 >= 1000 * side(size.0),
        view.1 * 100 >= side(size.1) * stretch(aspect),
    ensures
        ({
            let s = scale(Zoom::Whole, aspect, view, size);
            &&& side(size.0) * s.0 * 1000 <= view.0 * s.1
            &&& side(size.1) * s.0 * stretch(aspect) <= view.1 * s.1
        }),
{
    let w = side(size.0);
    let high = side(size.1) * stretch(aspect);
    let s = scale(Zoom::Whole, aspect, view, size);
    let v0 = view.0 as int;
    let v1 = view.1 as int;
    assert(high > 0) by (nonlinear_arith)
        requires
            high == side(size.1) * stretch(aspect),
            side(size.1) >= 1,
            stretch(aspect) >= 250,
    ;
    let down = v1 * (1000 * w) < v0 * high;
    let f = if down {
        (v1, high)
    } else {
        (v0, 1000 * w)
    };
    assert(s == shrunk(f, 100));
    assert(f.0 * 1000 * w <= v0 * f.1 && f.0 * high <= v1 * f.1) by (nonlinear_arith)
        requires
            f == (if v1 * (1000 * w) < v0 * high {
                (v1, high)
            } else {
                (v0, 1000 * w)
            }),
    ;
    if f.0 > f.1 {
        assert(1000 * w <= v0 && high <= v1) by (nonlinear_arith)
            requires
                f.0 > f.1,
                f.1 > 0,
                f.0 * 1000 * w <= v0 * f.1,
                f.0 * high <= v1 * f.1,
                w > 0,
                high > 0,
                v0 >= 0,
                v1 >= 0,
        ;
        assert(s.0 * 1000 * w <= v0 * s.1 && s.0 * high <= v1 * s.1) by (nonlinear_arith)
            requires
                s == (1int, 1int),
                1000 * w <= v0,
                high <= v1,
        ;
    } else {
        assert(s == f);
    }
    assert(side(size.0) * s.0 * 1000 == s.0 * 1000 * w) by (nonlinear_arith)
        requires
            w == side(size.0),
    ;
    assert(side(size.1) * s.0 * stretch(aspect) == s.0 * high) by (nonlinear_arith)
        requires
            high == side(size.1) * stretch(aspect),
    ;
}

/// A chart that is fitted to the width is as wide as the panel, unless it would have
/// to be blown up, or shrunk to less than a tenth. One without pixels counts as one
/// pixel wide.
pub proof fn law_fitted_chart_is_as_wide_as_the_panel(
    aspect: Option<i32>,
    view: (u32, u32),
    size: (u16, u16),
)
    ensures
        ({
            let s = scale(Zoom::FitWidth, aspect, view, size);
            let w = if size.0 == 0 {
                1
            } else {
                size.0 as int
            };
            &&& 100 * w <= view.0 <= 1000 * w ==> 1000 * w * s.0 == view.0 * s.1
            &&& view.0 > 1000 * w ==> s.0 == s.1
            &&& view.0 < 100 * w ==> 10 * s.0 == s.1
            &&& s.1 > 0
        }),
{
    let w = side(size.0);
    assert(1000 * w * (view.0 as int) == (view.0 as int) * (1000 * w)) by (nonlinear_arith);
}

/// A magnification is taken as it is between a tenth and four times, and held to
/// that beyond; the stretch is held between a quarter and four times. What is no
/// number changes nothing.
pub proof fn law_magnification_has_its_limits(
    z: i32,
    aspect: Option<i32>,
    view: (u32, u32),
    size: (u16, u16),
)
    ensures
        100 <= z <= 4000 ==> scale(Zoom::Fixed(Some(z)), aspect, view, size) == (z as int, 1000int),
        z < 100 ==> scale(Zoom::Fixed(Some(z)), aspect, view, size) == (100int, 1000int),
        z > 4000 ==> scale(Zoom::Fixed(Some(z)), aspect, view, size) == (4000int, 1000int),
        scale(Zoom::Fixed(None), aspect, view, size) == (1int, 1int),
        250 <= z <= 4000 ==> stretch(Some(z)) == z,
        z < 250 ==> stretch(Some(z)) == 250,
        z > 4000 ==> stretch(Some(z)) == 4000,
        stretch(None) == 1000,
{
}

} // verus!
