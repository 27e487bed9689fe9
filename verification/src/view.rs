//! The visible part of the spectrum.
use vstd::prelude::*;

verus! {

/// A hertz. Frequencies of the view are counted in thousandths of it.
pub const HZ: i64 = 1000;

/// The largest frequency and span that the view reckons with.
pub const FREQ_MAX: i64 = 1_000_000_000_000_000_000;

/// What of the spectrum is visible, and how.
#[derive(Clone, Copy, Debug, PartialEq, Eq, Structural)]
pub struct ViewState {
    /// The visible span. Without a width it is unset: the whole span that the
    /// device receives is meant.
    pub view_lo: i64,
    pub view_hi: i64,
    /// The levels of the scale's ends.
    pub db_floor: i64,
    pub db_ceil: i64,
    pub fft_size: u32,
    /// The part of the height that the spectrum line has, in thousandths; the
    /// rest is the waterfall's.
    pub spectrum_fraction: u32,
    /// Whether the line is hidden.
    pub spectrum_collapsed: bool,
}

/// The span that a device receives.
#[derive(Clone, Copy, Debug, PartialEq, Eq, Structural)]
pub struct Device {
    pub center: i64,
    pub span: i64,
}

impl Device {
    /// The invariant: centre and span are frequencies that can be reckoned with.
    pub open spec fn wf(&self) -> bool {
        -FREQ_MAX <= self.center <= FREQ_MAX && 0 <= self.span <= FREQ_MAX
    }

    /// The ends of the span. An odd span has its odd part above the centre.
    pub open spec fn lo(&self) -> int {
        self.center - self.span / 2
    }

    pub open spec fn hi(&self) -> int {
        self.lo() + self.span
    }
}

/// A visible span inside a device's, of the same width where there is room: one
/// that sticks out is moved in.
pub open spec fn inside(v: ViewState, d: Device) -> (int, int) {
    let w = v.width();
    let w = if w < d.span {
        w
    } else {
        d.span as int
    };
    let least = d.span / 1000;
    let w = if w > least {
        w
    } else {
        least as int
    };
    let (lo, hi) = if v.view_lo < d.lo() {
        (d.lo(), d.lo() + w)
    } else {
        (v.view_lo as int, v.view_hi as int)
    };
    if hi > d.hi() {
        (d.hi() - w, d.hi())
    } else {
        (lo, hi)
    }
}

impl ViewState {
    /// The invariant: the ends are frequencies that can be reckoned with.
    pub open spec fn wf(&self) -> bool {
        -2 * FREQ_MAX <= self.view_lo <= 2 * FREQ_MAX && -2 * FREQ_MAX <= self.view_hi <= 2
            * FREQ_MAX
    }

    /// The width of the visible span.
    pub open spec fn width(&self) -> int {
        self.view_hi - self.view_lo
    }

    /// The part of the height that the spectrum line has: none when it is hidden.
    pub fn effective_spectrum_fraction(&self) -> (r: u32)
        ensures
            r == if self.spectrum_collapsed {
                0
            } else {
                self.spectrum_fraction
            },
    {
        if self.spectrum_collapsed {
            0
        } else {
            self.spectrum_fraction
        }
    }

    /// The width of the visible span.
    pub fn span(&self) -> (r: i64)
        requires
            self.wf(),
        ensures
            r == self.width(),
    {
        self.view_hi - self.view_lo
    }

    /// Whether the visible span is unset.
    pub fn is_unset(&self) -> (r: bool)
        ensures
            r == (self.width() <= 0),
    {
        self.view_hi <= self.view_lo
    }

    /// The view with the whole span of the device visible.
    pub open spec fn fitted(&self, d: Device) -> ViewState {
        ViewState { view_lo: d.lo() as i64, view_hi: d.hi() as i64, ..*self }
    }

    /// Show the whole span of the device.
    pub fn fit(&mut self, d: &Device)
        requires
            d.wf(),
        ensures
            *final(self) == old(self).fitted(*d),
            final(self).wf(),
            final(self).width() == d.span,
    {
        self.view_lo = d.center - d.span / 2;
        self.view_hi = self.view_lo + d.span;
    }

    /// Move the visible span inside the device's, keeping its width.
    pub fn clamp_to(&mut self, d: &Device)
        requires
            old(self).wf(),
            d.wf(),
        ensures
            *final(self) == (ViewState {
                view_lo: inside(*old(self), *d).0 as i64,
                view_hi: inside(*old(self), *d).1 as i64,
                ..*old(self)
            }),
            final(self).wf(),
    {
        let lo: i64 = d.center - d.span / 2;
        let hi: i64 = lo + d.span;
        let w: i64 = self.view_hi - self.view_lo;
        let w: i64 = if w < d.span {
            w
        } else {
            d.span
        };
        let least: i64 = d.span / 1000;
        let w: i64 = if w > least {
            w
        } else {
            least
        };
        if self.view_lo < lo {
            self.view_lo = lo;
            self.view_hi = lo + w;
        }
        if self.view_hi > hi {
            self.view_hi = hi;
            self.view_lo = hi - w;
        }
    }
}

/// A clamped view lies inside the device's span. It keeps its width unless that
/// is more than the device has, or less than a thousandth of it.
pub proof fn law_clamped_view_is_inside(v: ViewState, d: Device)
    requires
        d.wf(),
        v.width() >= 0,
    ensures
        d.lo() <= inside(v, d).0,
        inside(v, d).1 <= d.hi(),
        d.span / 1000 <= v.width() <= d.span ==> inside(v, d).1 - inside(v, d).0 == v.width(),
{
}

/// Clamping leaves a view alone that fits, and so does nothing the second time.
pub proof fn law_clamping_settles(v: ViewState, d: Device)
    requires
        d.wf(),
        d.lo() <= v.view_lo,
        v.view_hi <= d.hi(),
    ensures
        inside(v, d) == (v.view_lo as int, v.view_hi as int),
{
}

/// Clamping moves a view no further than it has to: of the spans of its width
/// inside the device's, none, as the one from `q` on may be, starts nearer to
/// where the view started. A view wider than the device's span shows all of that.
pub proof fn law_clamping_moves_the_least(v: ViewState, d: Device, q: int)
    requires
        d.wf(),
        d.span <= 1000 * (v.view_hi - v.view_lo),
    ensures
        ({
            let w = v.view_hi - v.view_lo;
            let (lo, hi) = inside(v, d);
            &&& w <= d.span ==> hi - lo == w
            &&& w > d.span ==> hi - lo == d.span
            &&& 2 * lo >= 2 * d.center - d.span
            &&& 2 * hi <= 2 * d.center + d.span + 1
            &&& w <= d.span && 2 * q >= 2 * d.center - d.span && 2 * (q + w) <= 2 * d.center + d.span
                ==> {
                &&& lo >= v.view_lo ==> q >= lo || lo - v.view_lo <= v.view_lo - q
                &&& lo <= v.view_lo ==> q <= lo || v.view_lo - lo <= q - v.view_lo
            }
        }),
{
}

/// The whole span of a device is as wide as the device's and around its centre.
/// The levels and the FFT stay as they are set.
pub proof fn law_fitted_view_is_the_device(v: ViewState, d: Device)
    requires
        d.wf(),
    ensures
        ({
            let f = v.fitted(d);
            &&& f.view_hi - f.view_lo == d.span
            &&& 0 <= f.view_lo + f.view_hi - 2 * d.center <= 1
            &&& inside(f, d) == (f.view_lo as int, f.view_hi as int)
            &&& f.db_floor == v.db_floor && f.db_ceil == v.db_ceil && f.fft_size == v.fft_size
            &&& f.spectrum_fraction == v.spectrum_fraction
            &&& f.spectrum_collapsed == v.spectrum_collapsed
        }),
{
}

/// A view that sticks out of the device's span and is narrower than a thousandth of it
/// is widened to that as it is moved in.
pub proof fn law_clamped_view_keeps_a_least_width(v: ViewState, d: Device)
    requires
        d.wf(),
        0 <= v.view_hi - v.view_lo,
        1000 * (v.view_hi - v.view_lo) < d.span,
        2 * v.view_lo < 2 * d.center - d.span || 2 * v.view_hi > 2 * d.center + d.span + 1,
    ensures
        ({
            let (lo, hi) = inside(v, d);
            &&& 1000 * (hi - lo) <= d.span < 1000 * (hi - lo + 1)
            &&& 2 * v.view_lo < 2 * d.center - d.span ==> 0 <= 2 * lo - (2 * d.center - d.span) <= 1
            &&& 2 * v.view_lo >= 2 * d.center - d.span ==> 0 <= 2 * hi - (2 * d.center + d.span) <= 1
        }),
{
}

} // verus!
