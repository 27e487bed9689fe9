//! The spectrum settings that a view asks of the engine, the pace of the
//! waterfall, and automatic levels.
use crate::view::{Device, ViewState, HZ};
use vstd::prelude::*;

verus! {

/// The largest FFT that zooming grows to.
pub const FFT_MAX: u32 = 32_768;

/// The smallest FFT that is asked for.
pub const FFT_MIN: u32 = 1024;

/// The zoom past which the FFT grows no more.
pub const ZOOM_MAX: i64 = 8;

/// Levels are counted in parts of a decibel so small that every step of a
/// frame's scale is a whole number of them.
pub const DB: i64 = 510_000;

/// The lowest and highest floor, and the lowest and highest ceiling, that the
/// manual controls allow.
pub const FLOOR_MIN: i64 = -81_600_000;

pub const FLOOR_MAX: i64 = -20_400_000;

pub const CEIL_MIN: i64 = -51_000_000;

pub const CEIL_MAX: i64 = 10_200_000;

/// The longest time between two frames that the waterfall catches up on, in
/// microseconds.
pub const CATCH_UP_US: i64 = 300_000;

/// The most rows that are written at once.
pub const ROWS_MAX: u64 = 32;

/// The parts of a row that the waterfall counts in.
pub const ROW: u64 = 1_000_000_000;

/// A span of the spectrum that the engine computes, in halves of the view's measure.
#[derive(Clone, Copy, Debug, PartialEq, Eq, Structural)]
pub struct Viewport {
    pub lo: i128,
    pub hi: i128,
}

impl Viewport {
    /// The invariant: the ends are frequencies that can be reckoned with, as those
    /// of every span that a view asks for are.
    pub open spec fn wf(&self) -> bool {
        &&& -0x1000_0000_0000_0000_0000 <= self.lo <= 0x1000_0000_0000_0000_0000
        &&& -0x1000_0000_0000_0000_0000 <= self.hi <= 0x1000_0000_0000_0000_0000
    }
}

/// The spectrum settings of the engine.
#[derive(Clone, Copy, Debug, PartialEq, Eq, Structural)]
pub struct SpectrumConfig {
    pub fft_size: u32,
    /// The levels of the scale's ends.
    pub floor: i64,
    pub ceil: i64,
    /// The span that is computed; none is all of the device's.
    pub viewport: Option<Viewport>,
    pub fps: u8,
}

/// The ends of the device's span, in halves of the view's measure.
pub open spec fn device_lo(d: Device) -> int {
    2 * d.center - d.span
}

pub open spec fn device_hi(d: Device) -> int {
    2 * d.center + d.span
}

/// Whether the view is zoomed in, by more than a twentieth.
pub open spec fn zoomed(d: Device, v: ViewState) -> bool {
    v.width() > 0 && d.span > 0 && 20 * d.span > 21 * v.width()
}

/// How wide the computed span is: twice the view, so that it can be panned
/// without a change, and no more than the device has.
pub open spec fn slack(d: Device, v: ViewState) -> int {
    if 2 * v.width() < d.span {
        2 * v.width()
    } else {
        d.span as int
    }
}

/// Where the computed span starts: around the view, and inside the device's.
pub open spec fn viewport_lo(d: Device, v: ViewState) -> int {
    let lo = v.view_lo + v.view_hi - slack(d, v);
    let most = device_hi(d) - 2 * slack(d, v);
    if lo < device_lo(d) {
        device_lo(d)
    } else if lo > most {
        most
    } else {
        lo
    }
}

/// The span that a view asks for; none when it is not zoomed in.
pub open spec fn viewport_for(d: Device, v: ViewState) -> Option<Viewport> {
    if zoomed(d, v) {
        Some(
            Viewport {
                lo: viewport_lo(d, v) as i128,
                hi: (viewport_lo(d, v) + 2 * slack(d, v)) as i128,
            },
        )
    } else {
        None
    }
}

/// The FFT size that a zoom asks for, before it is rounded to one that there is:
/// the chosen one times the zoom.
pub open spec fn wanted_fft(d: Device, v: ViewState) -> int {
    if zoomed(d, v) {
        let full = if d.span < ZOOM_MAX * v.width() {
            d.span as int
        } else {
            ZOOM_MAX * v.width()
        };
        (v.fft_size * full + v.width() - 1) / v.width()
    } else {
        v.fft_size as int
    }
}

/// The settings that a view asks for.
pub open spec fn ideal_config(d: Device, v: ViewState, fps: u32) -> SpectrumConfig {
    SpectrumConfig {
        fft_size: grown(
            if v.fft_size > FFT_MIN {
                v.fft_size as int
            } else {
                FFT_MIN as int
            },
            wanted_fft(d, v),
        ) as u32,
        floor: v.db_floor,
        ceil: v.db_ceil,
        viewport: viewport_for(d, v),
        fps: if fps < 255 {
            fps as u8
        } else {
            255
        },
    }
}

fn find_viewport(d: &Device, v: &ViewState) -> (r: Option<Viewport>)
    ensures
        r == viewport_for(*d, *v),
{
    let w: i128 = v.view_hi as i128 - v.view_lo as i128;
    let span: i128 = d.span as i128;
    if !(w > 0 && span > 0 && 20 * span > 21 * w) {
        return None;
    }
    let slack: i128 = if 2 * w < span {
        2 * w
    } else {
        span
    };
    let dev_lo: i128 = 2 * (d.center as i128) - span;
    let dev_hi: i128 = 2 * (d.center as i128) + span;
    let lo: i128 = v.view_lo as i128 + v.view_hi as i128 - slack;
    let most: i128 = dev_hi - 2 * slack;
    let lo: i128 = if lo < dev_lo {
        dev_lo
    } else if lo > most {
        most
    } else {
        lo
    };
    Some(Viewport { lo, hi: lo + 2 * slack })
}

fn find_wanted(d: &Device, v: &ViewState) -> (r: u64)
    ensures
        r == wanted_fft(*d, *v),
{
    let chosen: u32 = v.fft_size;
    let w: i128 = v.view_hi as i128 - v.view_lo as i128;
    let span: i128 = d.span as i128;
    if !(w > 0 && span > 0 && 20 * span > 21 * w) {
        return chosen as u64;
    }
    let full: i128 = if span < ZOOM_MAX as i128 * w {
        span
    } else {
        ZOOM_MAX as i128 * w
    };
    assert(0 <= chosen * full <= 0xffff_ffff * 0x8_0000_0000_0000_0000) by (nonlinear_arith)
        requires
            0 <= chosen <= 0xffff_ffff,
            0 <= full <= 0x8_0000_0000_0000_0000,
    ;
    let r: i128 = (chosen as i128 * full + w - 1) / w;
    assert(0 <= r <= 0x8_0000_0000) by (nonlinear_arith)
        requires
            w > 0,
            0 <= full <= 8 * w,
            0 <= chosen <= 0xffff_ffff,
            r == (chosen * full + w - 1) / w as int,
    ;
    r as u64
}

/// The settings that a view asks of the engine. The computed span has slack
/// around the visible one, and the FFT grows with the zoom.
pub fn desired_spectrum_cfg(d: &Device, v: &ViewState, fps: u32) -> (r: SpectrumConfig)
    ensures
        r == ideal_config(*d, *v, fps),
{
    let wanted: u64 = find_wanted(d, v);
    SpectrumConfig {
        fft_size: zoomed_fft(v.fft_size, wanted),
        floor: v.db_floor,
        ceil: v.db_ceil,
        viewport: find_viewport(d, v),
        fps: if fps < 255 {
            fps as u8
        } else {
            255
        },
    }
}

/// Whether the view is inside a computed span with a margin of a twentieth, on
/// each side where that is not the end of the device's span, and the two have
/// about the widths that they are meant to.
pub open spec fn covers(p: Viewport, d: Device, v: ViewState) -> bool {
    let w = if v.width() > HZ {
        v.width()
    } else {
        HZ as int
    };
    let span = p.hi - p.lo;
    &&& 20 * (2 * v.view_lo - p.lo) >= span || p.lo <= device_lo(d) + 2 * HZ
    &&& 20 * (p.hi - 2 * v.view_hi) >= span || p.hi >= device_hi(d) - 2 * HZ
    &&& 10 * span >= 23 * w
    &&& span <= 7 * w
}

/// Whether the settings that the engine has still serve the view, whose own
/// would be `ideal`. A computed span serves if it is the very one that the view
/// asks for, or covers the view.
pub open spec fn still_good(
    sent: Option<SpectrumConfig>,
    ideal: SpectrumConfig,
    d: Device,
    v: ViewState,
) -> bool {
    sent matches Some(s) && {
        &&& s.fft_size == ideal.fft_size
        &&& s.floor == ideal.floor
        &&& s.ceil == ideal.ceil
        &&& s.fps == ideal.fps
        &&& match (s.viewport, ideal.viewport) {
            (None, None) => true,
            (Some(p), Some(q)) => p == q || covers(p, d, v),
            _ => false,
        }
    }
}

fn is_covered(p: &Viewport, d: &Device, v: &ViewState) -> (r: bool)
    requires
        p.wf(),
    ensures
        r == covers(*p, *d, *v),
{
    let w: i128 = v.view_hi as i128 - v.view_lo as i128;
    let w: i128 = if w > HZ as i128 {
        w
    } else {
        HZ as i128
    };
    let span: i128 = p.hi - p.lo;
    let dev_lo: i128 = 2 * (d.center as i128) - d.span as i128;
    let dev_hi: i128 = 2 * (d.center as i128) + d.span as i128;
    let lo_ok = 20 * (2 * (v.view_lo as i128) - p.lo) >= span || p.lo <= dev_lo + 2 * HZ as i128;
    let hi_ok = 20 * (p.hi - 2 * (v.view_hi as i128)) >= span || p.hi >= dev_hi - 2 * HZ as i128;
    lo_ok && hi_ok && 10 * span >= 23 * w && span <= 7 * w
}

/// Whether the settings that the engine has still serve the view. While it is
/// panned inside the computed span they do, and the waterfall's history stays.
pub fn cfg_still_good(
    sent: &Option<SpectrumConfig>,
    ideal: &SpectrumConfig,
    d: &Device,
    v: &ViewState,
) -> (r: bool)
    requires
        sent matches Some(s) ==> s.viewport matches Some(p) ==> p.wf(),
    ensures
        r == still_good(*sent, *ideal, *d, *v),
{
    match sent {
        None => false,
        Some(s) => {
            if s.fft_size != ideal.fft_size || s.floor != ideal.floor || s.ceil != ideal.ceil
                || s.fps != ideal.fps {
                return false;
            }
            match (&s.viewport, &ideal.viewport) {
                (None, None) => true,
                (Some(p), Some(q)) => *p == *q || is_covered(p, d, v),
                _ => false,
            }
        },
    }
}

/// Settings that were just asked for serve the view that asked: while the view
/// rests nothing is sent twice, and the waterfall keeps its history.
pub proof fn law_ideal_settings_serve(d: Device, v: ViewState, fps: u32)
    ensures
        ({
            let ideal = ideal_config(d, v, fps);
            still_good(Some(ideal), ideal, d, v)
        }),
{
}

/// The computed span lies inside the device's.
pub proof fn law_viewport_inside(d: Device, v: ViewState)
    ensures
        viewport_for(d, v) matches Some(p) ==> device_lo(d) <= p.lo < p.hi <= device_hi(d),
{
}

/// What is on screen is computed: a view that is zoomed in and lies inside the
/// device's span lies inside the span that it asks for. Frequencies of a computed
/// span are in halves of the view's measure.
pub proof fn law_viewport_holds_the_view(d: Device, v: ViewState, fps: u32)
    requires
        2 * d.center - d.span <= 2 * v.view_lo,
        2 * v.view_hi <= 2 * d.center + d.span,
    ensures
        ideal_config(d, v, fps).viewport matches Some(p) ==> p.lo <= 2 * v.view_lo && 2 * v.view_hi
            <= p.hi,
{
}

/// A span is asked for just where the view is narrower than the device's span by
/// more than a twentieth. It is twice as wide as the view, or as wide as the
/// device's span where that is less; it lies inside the device's; and of all such
/// spans none, as `q` may be, has its centre nearer to the view's.
pub proof fn law_viewport_is_centred_on_the_view(d: Device, v: ViewState, fps: u32, q: int)
    requires
        d.span >= 0,
    ensures
        ({
            let w = v.view_hi - v.view_lo;
            let width = 2 * if 2 * w < d.span {
                2 * w
            } else {
                d.span as int
            };
            let (least, most) = (2 * d.center - d.span, 2 * d.center + d.span);
            let aim = 2 * (v.view_lo + v.view_hi);
            &&& ideal_config(d, v, fps).viewport is Some <==> 0 < 21 * w < 20 * d.span
            &&& ideal_config(d, v, fps).viewport matches Some(p) ==> {
                &&& p.hi - p.lo == width
                &&& least <= p.lo && p.hi <= most
                &&& least <= q && q + width <= most ==> {
                    &&& p.lo + p.hi <= aim ==> q + q + width <= p.lo + p.hi || aim - (p.lo + p.hi)
                        <= (q + q + width) - aim
                    &&& p.lo + p.hi >= aim ==> q + q + width >= p.lo + p.hi || (p.lo + p.hi) - aim
                        <= aim - (q + q + width)
                }
            }
        }),
{
}

proof fn lemma_grown(fft: int, wanted: int)
    requires
        fft > 0,
    ensures
        fft <= grown(fft, wanted),
        grown(fft, wanted) >= wanted || grown(fft, wanted) >= 32_768,
        grown(fft, wanted) > fft ==> {
            &&& grown(fft, wanted) % 2 == 0
            &&& grown(fft, wanted) / 2 >= fft
            &&& grown(fft, wanted) / 2 < wanted
            &&& grown(fft, wanted) < 65_536
        },
        exists|k: nat| grown(fft, wanted) == fft * #[trigger] vstd::arithmetic::power2::pow2(k),
    decreases 2 * FFT_MAX - fft,
{
    if fft < wanted && fft < FFT_MAX {
        lemma_grown(fft * 2, wanted);
        let k = choose|k: nat|
            grown(fft * 2, wanted) == (fft * 2) * #[trigger] vstd::arithmetic::power2::pow2(k);
        vstd::arithmetic::power2::lemma_pow2_unfold(k + 1);
        let p = vstd::arithmetic::power2::pow2(k) as int;
        assert((fft * 2) * p == fft * (2 * p)) by (nonlinear_arith);
        assert(grown(fft, wanted) == fft * vstd::arithmetic::power2::pow2(k + 1));
    } else {
        vstd::arithmetic::power2::lemma2_to64();
        assert(fft * vstd::arithmetic::power2::pow2(0) == fft) by (nonlinear_arith)
            requires
                vstd::arithmetic::power2::pow2(0) == 1,
        ;
    }
}

/// The FFT grows with the zoom, up to eight times: it is the chosen size, at least
/// 1024, doubled as often as it takes to have as many bins on screen as the chosen
/// size has without zoom, and no more often; past 32768 it is not doubled. Without
/// zoom it is not doubled at all.
pub proof fn law_fft_grows_with_the_zoom(d: Device, v: ViewState, fps: u32)
    ensures
        ({
            let w = v.view_hi - v.view_lo;
            let base = if v.fft_size > 1024 {
                v.fft_size as int
            } else {
                1024
            };
            let full = if d.span < 8 * w {
                d.span as int
            } else {
                8 * w
            };
            let fft = ideal_config(d, v, fps).fft_size as int;
            &&& exists|k: nat| fft == base * #[trigger] vstd::arithmetic::power2::pow2(k)
            &&& !(0 < 21 * w < 20 * d.span) ==> fft == base
            &&& 0 < 21 * w < 20 * d.span ==> {
                &&& fft * w >= v.fft_size * full || fft >= 32_768
                &&& fft > base ==> (fft / 2) * w < v.fft_size * full && fft < 65_536
            }
        }),
{
    let w = v.view_hi - v.view_lo;
    let base = if v.fft_size > 1024 {
        v.fft_size as int
    } else {
        1024
    };
    let wanted = wanted_fft(d, v);
    lemma_grown(base, wanted);
    if 0 < 21 * w < 20 * d.span {
        let full = if d.span < 8 * w {
            d.span as int
        } else {
            8 * w
        };
        let need = v.fft_size * full;
        assert(0 <= need) by (nonlinear_arith)
            requires
                0 <= v.fft_size,
                0 <= full,
                need == v.fft_size * full,
        ;
        let fft = grown(base, wanted);
        assert(fft >= wanted ==> fft * w >= need) by (nonlinear_arith)
            requires
                wanted == (need + w - 1) / w,
                w > 0,
        ;
        assert(fft / 2 < wanted ==> (fft / 2) * w < need) by (nonlinear_arith)
            requires
                wanted == (need + w - 1) / w,
                w > 0,
        ;
        assert(wanted <= 0x8_0000_0000) by (nonlinear_arith)
            requires
                wanted == (need + w - 1) / w,
                w > 0,
                need == v.fft_size * full,
                0 <= full <= 8 * w,
                0 <= v.fft_size <= 0xffff_ffff,
        ;
    }
}

/// The levels and the frame rate are asked for as they are set, the rate as far as
/// it can be counted.
pub proof fn law_scale_and_rate_are_asked_for(d: Device, v: ViewState, fps: u32)
    ensures
        ideal_config(d, v, fps).floor == v.db_floor,
        ideal_config(d, v, fps).ceil == v.db_ceil,
        fps <= 255 ==> ideal_config(d, v, fps).fps == fps,
        fps > 255 ==> ideal_config(d, v, fps).fps == 255,
{
}

/// Settings that still serve show what is on screen, to within a hertz at the ends
/// of the device's span: with the levels, the rate and the FFT that the view asks
/// for, and neither far wider nor hardly wider than it, unless it is the very span
/// that the view asks for.
pub proof fn law_serving_settings_hold_the_view(
    s: SpectrumConfig,
    d: Device,
    v: ViewState,
    fps: u32,
)
    requires
        still_good(Some(s), ideal_config(d, v, fps), d, v),
        2 * d.center - d.span <= 2 * v.view_lo,
        2 * v.view_hi <= 2 * d.center + d.span,
        s.viewport matches Some(p) ==> p.lo <= p.hi,
    ensures
        ({
            let ideal = ideal_config(d, v, fps);
            let w = v.view_hi - v.view_lo;
            &&& s.fft_size == ideal.fft_size && s.fps == ideal.fps
            &&& s.floor == v.db_floor && s.ceil == v.db_ceil
            &&& s.viewport is Some <==> ideal.viewport is Some
            &&& s.viewport matches Some(p) ==> {
                &&& p.lo <= 2 * v.view_lo + 2000
                &&& 2 * v.view_hi <= p.hi + 2000
                &&& w >= 1000 && s.viewport != ideal.viewport ==> 23 * w <= 10 * (p.hi - p.lo) <= 70
                    * w
            }
        }),
{
}

/// Panning by up to two fifths of the view needs no new settings, so the waterfall
/// keeps its history.
pub proof fn law_panning_keeps_the_settings(d: Device, v: ViewState, fps: u32, moved: i64)
    requires
        v.view_hi - v.view_lo >= 1000,
        2 * (v.view_hi - v.view_lo) <= d.span,
        -2 * (v.view_hi - v.view_lo) <= 5 * moved <= 2 * (v.view_hi - v.view_lo),
        i64::MIN <= v.view_lo + moved <= i64::MAX,
        i64::MIN <= v.view_hi + moved <= i64::MAX,
    ensures
        ({
            let panned = ViewState {
                view_lo: (v.view_lo + moved) as i64,
                view_hi: (v.view_hi + moved) as i64,
                ..v
            };
            still_good(Some(ideal_config(d, v, fps)), ideal_config(d, panned, fps), d, panned)
        }),
{
}

/// The waterfall's pace: when it last moved, in microseconds, and the part of a
/// row that is left over.
#[derive(Clone, Copy, Debug, PartialEq, Eq, Structural)]
pub struct WfPace {
    pub last: i64,
    pub carry: u64,
}

/// How long the waterfall catches up on.
pub open spec fn catch_up(last: int, now: int) -> int {
    if last <= 0 || now < last {
        0
    } else if now - last > CATCH_UP_US {
        CATCH_UP_US as int
    } else {
        now - last
    }
}

impl WfPace {
    /// The invariant: less than a row is left over.
    pub open spec fn wf(&self) -> bool {
        self.carry < ROW
    }

    /// What is due at a moment, in parts of a row.
    pub open spec fn due(&self, now: int, rate: int) -> int {
        self.carry + catch_up(self.last as int, now) * rate
    }

    /// The rows that are written at a moment.
    pub open spec fn rows_due(&self, now: int, rate: int) -> int {
        if self.due(now, rate) / ROW as int <= ROWS_MAX {
            self.due(now, rate) / ROW as int
        } else {
            ROWS_MAX as int
        }
    }

    /// The part of a row that is left over then.
    pub open spec fn left_over(&self, now: int, rate: int) -> int {
        self.due(now, rate) % ROW as int
    }

    /// A frame at `now`: how many rows to write, at `rate` thousandths of a row a
    /// second. What is no whole row is carried over. Without a spectrum nothing
    /// is written. A long gap is not caught up on.
    pub fn wf_tick(&mut self, has_frame: bool, now: i64, rate: u32) -> (rows: u32)
        requires
            old(self).wf(),
        ensures
            final(self).wf(),
            final(self).last == now,
            has_frame ==> final(self).carry == old(self).left_over(now as int, rate as int),
            has_frame ==> rows == old(self).rows_due(now as int, rate as int),
            !has_frame ==> rows == 0 && final(self).carry == old(self).carry,
    {
        let gap: i128 = now as i128 - self.last as i128;
        let dt: u64 = if self.last <= 0 || gap < 0 {
            0
        } else if gap > CATCH_UP_US as i128 {
            CATCH_UP_US as u64
        } else {
            gap as u64
        };
        self.last = now;
        if !has_frame {
            return 0;
        }
        assert(0 <= dt * rate <= 300_000 * 0xffff_ffff) by (nonlinear_arith)
            requires
                0 <= dt <= 300_000,
                0 <= rate <= 0xffff_ffff,
        ;
        let due: u64 = self.carry + dt * rate as u64;
        self.carry = due % ROW;
        let n: u64 = due / ROW;
        if n <= ROWS_MAX {
            n as u32
        } else {
            ROWS_MAX as u32
        }
    }
}

/// The waterfall keeps its pace: over two frames that write no more than the
/// most rows each, what is written and what is left over make up what was due.
pub proof fn law_rows_keep_pace(carry: int, first: int, second: int)
    requires
        0 <= carry < ROW,
        0 <= first,
        0 <= second,
    ensures
        ({
            let a = carry + first;
            let b = a % ROW as int + second;
            (a / ROW as int + b / ROW as int) * ROW + b % ROW as int == carry + first + second
        }),
{
}

/// The size that an FFT grows to, by doubling, until it reaches what the zoom
/// asks for or the largest size.
pub open spec fn grown(fft: int, wanted: int) -> int
    decreases 2 * FFT_MAX - fft when fft > 0
{
    if fft < wanted && fft < FFT_MAX {
        grown(fft * 2, wanted)
    } else {
        fft
    }
}

/// The FFT size for a zoom: the chosen size, at least the smallest, doubled
/// until it reaches `wanted`.
pub fn zoomed_fft(chosen: u32, wanted: u64) -> (r: u32)
    ensures
        r == grown(
            if chosen > FFT_MIN {
                chosen as int
            } else {
                FFT_MIN as int
            },
            wanted as int,
        ),
{
    let mut fft: u32 = if chosen > FFT_MIN {
        chosen
    } else {
        FFT_MIN
    };
    let ghost start = fft as int;
    while (fft as u64) < wanted && fft < FFT_MAX
        invariant
            fft > 0,
            grown(fft as int, wanted as int) == grown(start, wanted as int),
        decreases 2 * FFT_MAX - fft,
    {
        fft = fft * 2;
    }
    fft
}

/// How many bins are below a level.
pub open spec fn bins_below(bins: Seq<u8>, level: int) -> nat
    decreases bins.len(),
{
    if bins.len() == 0 {
        0
    } else {
        bins_below(bins.drop_last(), level) + if bins.last() < level {
            1nat
        } else {
            0nat
        }
    }
}

/// How many bins are at a level.
spec fn bins_at(bins: Seq<u8>, level: int) -> nat
    decreases bins.len(),
{
    if bins.len() == 0 {
        0
    } else {
        bins_at(bins.drop_last(), level) + if bins.last() == level {
            1nat
        } else {
            0nat
        }
    }
}

proof fn lemma_bins_next(bins: Seq<u8>, level: int)
    ensures
        bins_below(bins, level + 1) == bins_below(bins, level) + bins_at(bins, level),
        bins_below(bins, level) <= bins.len(),
        bins_below(bins, 0) == 0,
        bins_below(bins, 256) == bins.len(),
        bins_at(bins, level) <= bins.len(),
    decreases bins.len(),
{
    if bins.len() > 0 {
        lemma_bins_next(bins.drop_last(), level);
    }
}

/// How many bins are at each level.
fn histogram(bins: &[u8]) -> (r: Vec<usize>)
    ensures
        r@.len() == 256,
        forall|v: int| 0 <= v < 256 ==> #[trigger] r@[v] == bins_at(bins@, v),
{
    let mut h: Vec<usize> = Vec::new();
    let mut v: usize = 0;
    while v < 256
        invariant
            v <= 256,
            h@.len() == v,
            forall|k: int| 0 <= k < v ==> #[trigger] h@[k] == 0,
        decreases 256 - v,
    {
        h.push(0);
        v = v + 1;
    }
    let mut i: usize = 0;
    assert(bins@.take(0) =~= Seq::<u8>::empty());
    while i < bins.len()
        invariant
            i <= bins@.len(),
            h@.len() == 256,
            forall|v: int|
                0 <= v < 256 ==> #[trigger] h@[v] == bins_at(bins@.take(i as int), v) && h@[v] <= i,
        decreases bins@.len() - i,
    {
        assert(bins@.take(i + 1).drop_last() =~= bins@.take(i as int));
        let b: usize = bins[i] as usize;
        let n: usize = h[b];
        h.set(b, n + 1);
        i = i + 1;
    }
    assert(bins@.take(i as int) =~= bins@);
    h
}

/// The level that stands at a place once a frame's bins are in order, which is
/// what automatic scaling goes by: no more than `place` bins are below it, and
/// more than that are at it or below.
pub fn level_at(bins: &[u8], place: usize) -> (r: u8)
    requires
        place < bins@.len(),
    ensures
        bins_below(bins@, r as int) <= place < bins_below(bins@, r + 1),
{
    let h = histogram(bins);
    let mut below: usize = 0;
    let mut v: usize = 0;
    proof {
        lemma_bins_next(bins@, 0);
    }
    while v < 255
        invariant
            v <= 255,
            place < bins@.len(),
            h@.len() == 256,
            forall|k: int| 0 <= k < 256 ==> #[trigger] h@[k] == bins_at(bins@, k),
            below == bins_below(bins@, v as int),
            below <= place,
        decreases 255 - v,
    {
        proof {
            lemma_bins_next(bins@, v as int);
            lemma_bins_next(bins@, v + 1);
        }
        let here: usize = h[v];
        if place - below < here {
            return v as u8;
        }
        below = below + here;
        v = v + 1;
    }
    proof {
        lemma_bins_next(bins@, 255);
    }
    255
}

/// One level stands at a place, and at a later place no lower one.
pub proof fn law_levels_rise(bins: Seq<u8>, i: int, a: int, j: int, b: int)
    requires
        bins_below(bins, a) <= i < bins_below(bins, a + 1),
        bins_below(bins, b) <= j < bins_below(bins, b + 1),
        i <= j,
    ensures
        a <= b,
        i == j ==> a == b,
{
    if b < a {
        lemma_below_grows(bins, b + 1, a);
    }
    if a < b {
        lemma_below_grows(bins, a + 1, b);
    }
}

proof fn lemma_below_grows(bins: Seq<u8>, a: int, b: int)
    requires
        a <= b,
    ensures
        bins_below(bins, a) <= bins_below(bins, b),
    decreases bins.len(),
{
    if bins.len() > 0 {
        lemma_below_grows(bins.drop_last(), a, b);
    }
}

/// The level that stands at a place once the bins are in order.
pub open spec fn level_in_order(bins: Seq<u8>, place: int) -> u8 {
    choose|a: u8| #[trigger] stands_at(bins, place, a)
}

/// Whether a level stands at a place once the bins are in order.
pub open spec fn stands_at(bins: Seq<u8>, place: int, a: u8) -> bool {
    bins_below(bins, a as int) <= place < bins_below(bins, a + 1)
}

/// A level of a frame whose scale goes from `floor` to `ceil` thousandths of a
/// decibel.
pub open spec fn level_of(code: u8, floor: i32, ceil: i32) -> int {
    510 * floor + 2 * code * (ceil - floor)
}

/// The scale for a noise level and a peak: the noise just above the floor, the
/// peak with headroom, at least 24 dB between them, inside what the manual
/// controls allow, and then at least 10 dB between them.
pub open spec fn scale_for(noise: int, peak: int) -> (int, int) {
    let floor = noise - 5 * DB;
    let ceil = peak + 6 * DB;
    let mid = (floor + ceil) / 2;
    let close = ceil - floor < 24 * DB;
    let floor = held(
        if close {
            mid - 12 * DB
        } else {
            floor
        },
        FLOOR_MIN as int,
        FLOOR_MAX as int,
    );
    let ceil = held(
        if close {
            mid + 12 * DB
        } else {
            ceil
        },
        CEIL_MIN as int,
        CEIL_MAX as int,
    );
    if ceil - floor < 10 * DB {
        (
            floor,
            if floor + 10 * DB < CEIL_MAX {
                floor + 10 * DB
            } else {
                CEIL_MAX as int
            },
        )
    } else {
        (floor, ceil)
    }
}

/// A level held between two others.
pub open spec fn held(n: int, lo: int, hi: int) -> int {
    if n < lo {
        lo
    } else if n > hi {
        hi
    } else {
        n
    }
}

/// The place of the noise floor among `n` bins in order: a quarter of the way.
pub open spec fn noise_place(n: int) -> int {
    (n + 1) / 4
}

/// The place of the strong signals among `n` bins in order: the hottest hundredth
/// is left out.
pub open spec fn peak_place(n: int) -> int {
    (99 * (n - 1) + 50) / 100
}

/// The scale for a frame; none for one that is empty or has no range.
pub open spec fn levels_for(bins: Seq<u8>, floor: i32, ceil: i32) -> Option<(int, int)> {
    if bins.len() == 0 || ceil <= floor {
        None
    } else {
        let n = bins.len() as int;
        Some(
            scale_for(
                level_of(level_in_order(bins, noise_place(n)), floor, ceil),
                level_of(level_in_order(bins, peak_place(n)), floor, ceil),
            ),
        )
    }
}

fn hold(n: i64, lo: i64, hi: i64) -> (r: i64)
    ensures
        r == held(n as int, lo as int, hi as int),
{
    if n < lo {
        lo
    } else if n > hi {
        hi
    } else {
        n
    }
}

/// The level at a place, in the scale's own measure.
fn level_there(bins: &[u8], place: usize, floor: i32, ceil: i32) -> (r: i64)
    requires
        place < bins@.len(),
        floor < ceil,
    ensures
        r == level_of(level_in_order(bins@, place as int), floor, ceil),
        -0x400_0000_0000 <= r <= 0x400_0000_0000,
        r % 2 == 0,
{
    let a: u8 = level_at(bins, place);
    proof {
        assert(stands_at(bins@, place as int, a));
        law_levels_rise(
            bins@,
            place as int,
            a as int,
            place as int,
            level_in_order(bins@, place as int) as int,
        );
    }
    let range: i64 = ceil as i64 - floor as i64;
    assert(0 <= 2 * a * range <= 510 * 0xffff_ffff) by (nonlinear_arith)
        requires
            0 <= a <= 255,
            0 <= range <= 0xffff_ffff,
    ;
    proof {
        lemma_level_even(a, floor, ceil);
    }
    510 * (floor as i64) + 2 * (a as i64) * range
}

/// The scale, floor and ceiling, for the best contrast of a waterfall, from a
/// frame whose own scale goes from `floor` to `ceil` thousandths of a decibel. A
/// single strong carrier does not set it.
pub fn pick_levels(bins: &[u8], floor: i32, ceil: i32) -> (r: Option<(i64, i64)>)
    ensures
        match r {
            Some(l) => levels_for(bins@, floor, ceil) == Some((l.0 as int, l.1 as int)),
            None => levels_for(bins@, floor, ceil) is None,
        },
{
    let n: usize = bins.len();
    if n == 0 || ceil <= floor {
        return None;
    }
    let last: u128 = n as u128 - 1;
    let quarter: u128 = (last + 2) / 4;
    let most: u128 = (99 * last + 50) / 100;
    let noise: i64 = level_there(bins, quarter as usize, floor, ceil);
    let peak: i64 = level_there(bins, most as usize, floor, ceil);
    let mut lo: i64 = noise - 5 * DB;
    let mut hi: i64 = peak + 6 * DB;
    if hi - lo < 24 * DB {
        let mid: i64 = middle(lo, hi);
        lo = mid - 12 * DB;
        hi = mid + 12 * DB;
    }
    let lo: i64 = hold(lo, FLOOR_MIN, FLOOR_MAX);
    let hi: i64 = hold(hi, CEIL_MIN, CEIL_MAX);
    if hi - lo < 10 * DB {
        return Some(
            (
                lo,
                if lo + 10 * DB < CEIL_MAX {
                    lo + 10 * DB
                } else {
                    CEIL_MAX
                },
            ),
        );
    }
    Some((lo, hi))
}

fn middle(a: i64, b: i64) -> (r: i64)
    requires
        -0x800_0000_0000 <= a <= 0x800_0000_0000,
        -0x800_0000_0000 <= b <= 0x800_0000_0000,
    ensures
        r == (a + b) / 2,
{
    let sum: i64 = a + b;
    if sum >= 0 {
        sum / 2
    } else {
        -((1 - sum) / 2)
    }
}

/// A picked scale is one that the manual controls could set, and has at least
/// 24 dB from floor to ceiling.
pub proof fn law_picked_scale_is_usable(bins: Seq<u8>, floor: i32, ceil: i32)
    ensures
        levels_for(bins, floor, ceil) matches Some(s) ==> {
            &&& FLOOR_MIN <= s.0 <= FLOOR_MAX
            &&& CEIL_MIN <= s.1 <= CEIL_MAX
            &&& s.1 - s.0 >= 24 * DB
        },
{
    let n = bins.len() as int;
    lemma_level_even(level_in_order(bins, noise_place(n)), floor, ceil);
    lemma_level_even(level_in_order(bins, peak_place(n)), floor, ceil);
}

proof fn lemma_below_without(bins: Seq<u8>, k: int, level: int)
    requires
        0 <= k < bins.len(),
    ensures
        bins_below(bins, level) == bins_below(bins.remove(k), level) + if bins[k] < level {
            1nat
        } else {
            0nat
        },
    decreases bins.len(),
{
    let t = bins.drop_last();
    if k < t.len() {
        lemma_below_without(t, k, level);
        assert(bins.remove(k).drop_last() =~= t.remove(k));
    } else {
        assert(bins.remove(k) =~= t);
    }
}

proof fn lemma_below_in_any_order(a: Seq<u8>, b: Seq<u8>, level: int)
    requires
        a.to_multiset() == b.to_multiset(),
    ensures
        bins_below(a, level) == bins_below(b, level),
    decreases a.len(),
{
    broadcast use vstd::seq_lib::group_to_multiset_ensures;

    a.to_multiset_ensures();
    b.to_multiset_ensures();
    if a.len() > 0 {
        let x = a.last();
        assert(a.contains(x));
        assert(b.to_multiset().count(x) > 0);
        assert(b.contains(x));
        let k = choose|k: int| 0 <= k < b.len() && b[k] == x;
        let last = a.len() - 1;
        assert(a.remove(last) =~= a.drop_last());
        assert(a.remove(last).to_multiset() == b.remove(k).to_multiset());
        lemma_below_in_any_order(a.drop_last(), b.remove(k), level);
        lemma_below_without(b, k, level);
    }
}

proof fn lemma_below_raised(bins: Seq<u8>, k: int, to: u8, level: int)
    requires
        0 <= k < bins.len(),
        forall|i: int| 0 <= i < bins.len() ==> (#[trigger] bins[i]) <= bins[k],
        bins[k] <= to,
    ensures
        level <= bins[k] ==> bins_below(bins.update(k, to), level) == bins_below(bins, level),
        level > bins[k] ==> bins_below(bins, level) == bins.len() && bins_below(
            bins.update(k, to),
            level,
        ) >= bins.len() - 1,
{
    let raised = bins.update(k, to);
    assert(raised.remove(k) =~= bins.remove(k));
    lemma_below_without(bins, k, level);
    lemma_below_without(raised, k, level);
    if level > bins[k] {
        lemma_all_below(bins, level);
    }
}

proof fn lemma_all_below(bins: Seq<u8>, level: int)
    requires
        forall|i: int| 0 <= i < bins.len() ==> (#[trigger] bins[i]) < level,
    ensures
        bins_below(bins, level) == bins.len(),
    decreases bins.len(),
{
    if bins.len() > 0 {
        let t = bins.drop_last();
        assert forall|i: int| 0 <= i < t.len() implies (#[trigger] t[i]) < level by {
            assert(t[i] == bins[i]);
        }
        lemma_all_below(t, level);
        assert(bins[bins.len() - 1] < level);
    }
}

/// A level stands at every place.
proof fn lemma_level_found(bins: Seq<u8>, place: int, from: int) -> (a: u8)
    requires
        0 <= place < bins.len(),
        0 <= from <= 255,
        bins_below(bins, from) <= place,
    ensures
        stands_at(bins, place, a),
    decreases 256 - from,
{
    lemma_bins_next(bins, from);
    if place < bins_below(bins, from + 1) {
        from as u8
    } else {
        lemma_level_found(bins, place, from + 1)
    }
}

proof fn lemma_same_level(a: Seq<u8>, b: Seq<u8>, place: int, level: u8)
    requires
        stands_at(a, place, level),
        stands_at(b, place, level),
    ensures
        level_in_order(a, place) == level_in_order(b, place),
{
    law_levels_rise(a, place, level as int, place, level_in_order(a, place) as int);
    law_levels_rise(b, place, level as int, place, level_in_order(b, place) as int);
}

/// The order of the bins does not matter to the picked scale.
pub proof fn law_order_leaves_the_scale(a: Seq<u8>, b: Seq<u8>, floor: i32, ceil: i32)
    requires
        a.to_multiset() == b.to_multiset(),
    ensures
        levels_for(a, floor, ceil) == levels_for(b, floor, ceil),
{
    broadcast use vstd::seq_lib::group_to_multiset_ensures;

    let n = a.len() as int;
    a.to_multiset_ensures();
    b.to_multiset_ensures();
    if n > 0 {
        lemma_bins_next(a, 0);
        lemma_same_in_any_order(a, b, noise_place(n));
        lemma_same_in_any_order(a, b, peak_place(n));
    }
}

proof fn lemma_same_in_any_order(a: Seq<u8>, b: Seq<u8>, place: int)
    requires
        a.to_multiset() == b.to_multiset(),
        0 <= place < a.len(),
    ensures
        level_in_order(a, place) == level_in_order(b, place),
{
    lemma_bins_next(a, 0);
    let level = lemma_level_found(a, place, 0);
    lemma_below_in_any_order(a, b, level as int);
    lemma_below_in_any_order(a, b, level + 1);
    lemma_same_level(a, b, place, level);
}

proof fn lemma_below_when_sorted(s: Seq<u8>, i: int, level: int)
    requires
        0 <= i < s.len(),
        forall|a: int, b: int| 0 <= a < b < s.len() ==> s[a] <= s[b],
    ensures
        s[i] < level ==> bins_below(s, level) > i,
        s[i] >= level ==> bins_below(s, level) <= i,
    decreases s.len(),
{
    let t = s.drop_last();
    if i < t.len() {
        lemma_below_when_sorted(t, i, level);
        assert(s[i] <= s[s.len() - 1]);
    } else {
        lemma_bins_next(t, level);
        if s[i] < level {
            assert forall|a: int| 0 <= a < s.len() implies (#[trigger] s[a]) < level by {
                assert(a < i ==> s[a] <= s[i]);
            }
            lemma_all_below(s, level);
        }
    }
}

proof fn lemma_level_when_sorted(s: Seq<u8>, i: int)
    requires
        0 <= i < s.len(),
        forall|a: int, b: int| 0 <= a < b < s.len() ==> s[a] <= s[b],
    ensures
        level_in_order(s, i) == s[i],
{
    lemma_below_when_sorted(s, i, s[i] as int);
    lemma_below_when_sorted(s, i, s[i] + 1);
    assert(stands_at(s, i, s[i]));
    law_levels_rise(s, i, s[i] as int, i, level_in_order(s, i) as int);
}

/// The scale goes by two bins of the frame once it is in order: the noise, which
/// stands a quarter of the way up, to the nearest place, and the strong signals,
/// which stand 99 hundredths of the way up. The floor is 5 dB below the noise and
/// the ceiling 6 dB above the signals; where that is less than 24 dB, 24 dB around
/// the same middle, to the part of a decibel that is counted in; and each end is
/// held within what the manual controls allow, from -160 to -40 dB and from -100 to
/// 20 dB.
///
/// `s` is the frame in order. Levels are in 510000ths of a decibel, the frame's own
/// scale in thousandths.
pub proof fn law_scale_goes_by_noise_and_signals(
    bins: Seq<u8>,
    s: Seq<u8>,
    i: int,
    j: int,
    floor: i32,
    ceil: i32,
)
    requires
        floor < ceil,
        s.to_multiset() == bins.to_multiset(),
        forall|a: int, b: int| 0 <= a < b < s.len() ==> s[a] <= s[b],
        0 <= i < s.len(),
        0 <= j < s.len(),
        -2 < 4 * i - (s.len() - 1) <= 2,
        -50 < 100 * j - 99 * (s.len() - 1) <= 50,
    ensures
        ({
            let noise = 510 * floor + 2 * s[i] * (ceil - floor);
            let peak = 510 * floor + 2 * s[j] * (ceil - floor);
            let wide = peak - noise >= 13 * 510_000;
            let (lo, hi) = if wide {
                (noise - 5 * 510_000, peak + 6 * 510_000)
            } else {
                (
                    (noise + peak + 510_000) / 2 - 12 * 510_000,
                    (noise + peak + 510_000) / 2 + 12 * 510_000,
                )
            };
            levels_for(bins, floor, ceil) matches Some(l) && {
                &&& l.0 == if lo < -160 * 510_000 {
                    -160 * 510_000
                } else if lo > -40 * 510_000 {
                    -40 * 510_000
                } else {
                    lo
                }
                &&& l.1 == if hi < -100 * 510_000 {
                    -100 * 510_000
                } else if hi > 20 * 510_000 {
                    20 * 510_000int
                } else {
                    hi
                }
            }
        }),
{
    let n = s.len() as int;
    s.to_multiset_ensures();
    bins.to_multiset_ensures();
    law_order_leaves_the_scale(bins, s, floor, ceil);
    law_picked_scale_is_usable(bins, floor, ceil);
    lemma_level_when_sorted(s, i);
    lemma_level_when_sorted(s, j);
    assert(noise_place(n) == i);
    assert(peak_place(n) == j);
    lemma_level_even(s[i], floor, ceil);
    lemma_level_even(s[j], floor, ceil);
    assert(s[i] <= s[j]);
    assert(2 * s[i] * (ceil - floor) <= 2 * s[j] * (ceil - floor)) by (nonlinear_arith)
        requires
            s[i] <= s[j],
            floor < ceil,
    ;
}

/// The quiet ends of a frame do not set the scale: bins that are below the noise,
/// which is at `level`, can be lowered in any way, as long as they stay fewer than a
/// quarter of the frame.
pub proof fn law_quiet_bins_leave_the_scale(
    a: Seq<u8>,
    b: Seq<u8>,
    level: u8,
    floor: i32,
    ceil: i32,
)
    requires
        a.len() == b.len() > 0,
        forall|k: int| 0 <= k < a.len() ==> #[trigger] a[k] == b[k] || (b[k] < level && a[k] < level),
        4 * a.filter(|x: u8| x < level).len() <= a.len() - 2,
    ensures
        levels_for(a, floor, ceil) == levels_for(b, floor, ceil),
{
    let n = a.len() as int;
    lemma_below_is_filter(a, level);
    lemma_below_alike(a, b, level);
    lemma_bins_next(a, 0);
    assert forall|place: int| noise_place(n) <= place < n implies level_in_order(a, place)
        == level_in_order(b, place) by {
        let x = lemma_level_found(a, place, 0);
        if x < level {
            lemma_below_grows(a, x + 1, level as int);
        }
        assert forall|y: int| y >= level implies bins_below(a, y) == bins_below(b, y) by {
            lemma_below_alike_above(a, b, level, y);
        }
        lemma_same_level(a, b, place, x);
    }
}

proof fn lemma_below_is_filter(a: Seq<u8>, level: u8)
    ensures
        bins_below(a, level as int) == a.filter(|x: u8| x < level).len(),
    decreases a.len(),
{
    reveal(Seq::filter);
    if a.len() > 0 {
        lemma_below_is_filter(a.drop_last(), level);
    }
}

proof fn lemma_below_alike(a: Seq<u8>, b: Seq<u8>, level: u8)
    requires
        a.len() == b.len(),
        forall|k: int| 0 <= k < a.len() ==> #[trigger] a[k] == b[k] || (b[k] < level && a[k] < level),
    ensures
        bins_below(a, level as int) == bins_below(b, level as int),
{
    lemma_below_alike_above(a, b, level, level as int);
}

proof fn lemma_below_alike_above(a: Seq<u8>, b: Seq<u8>, level: u8, y: int)
    requires
        y >= level,
        a.len() == b.len(),
        forall|k: int| 0 <= k < a.len() ==> #[trigger] a[k] == b[k] || (b[k] < level && a[k] < level),
    ensures
        bins_below(a, y) == bins_below(b, y),
    decreases a.len(),
{
    if a.len() > 0 {
        let (s, t) = (a.drop_last(), b.drop_last());
        assert forall|k: int| 0 <= k < s.len() implies #[trigger] s[k] == t[k] || (t[k] < level
            && s[k] < level) by {
            assert(a[k] == s[k]);
        }
        lemma_below_alike_above(s, t, level, y);
        assert(a[a.len() - 1] == a.last());
    }
}

/// A single strong carrier does not set the scale: in a frame of more than 51
/// bins the strongest one can be raised to any level, and the bins then stand in
/// any order, without moving it.
pub proof fn law_one_carrier_leaves_the_scale(
    bins: Seq<u8>,
    k: int,
    to: u8,
    after: Seq<u8>,
    floor: i32,
    ceil: i32,
)
    requires
        bins.len() > 51,
        0 <= k < bins.len(),
        forall|i: int| 0 <= i < bins.len() ==> (#[trigger] bins[i]) <= bins[k],
        bins[k] <= to,
        after.to_multiset() == bins.update(k, to).to_multiset(),
    ensures
        levels_for(after, floor, ceil) == levels_for(bins, floor, ceil),
{
    let n = bins.len() as int;
    let raised = bins.update(k, to);
    law_order_leaves_the_scale(after, raised, floor, ceil);
    lemma_raised_level(bins, k, to, noise_place(n));
    lemma_raised_level(bins, k, to, peak_place(n));
}

proof fn lemma_raised_level(bins: Seq<u8>, k: int, to: u8, place: int)
    requires
        0 <= k < bins.len(),
        forall|i: int| 0 <= i < bins.len() ==> (#[trigger] bins[i]) <= bins[k],
        bins[k] <= to,
        0 <= place < bins.len() - 1,
    ensures
        level_in_order(bins.update(k, to), place) == level_in_order(bins, place),
{
    lemma_bins_next(bins, 0);
    let level = lemma_level_found(bins, place, 0);
    lemma_below_raised(bins, k, to, level as int);
    lemma_below_raised(bins, k, to, level + 1);
    lemma_same_level(bins.update(k, to), bins, place, level);
}

proof fn lemma_level_even(code: u8, floor: i32, ceil: i32)
    ensures
        level_of(code, floor, ceil) % 2 == 0,
{
    assert(2 * code * (ceil - floor) == 2 * (code * (ceil - floor))) by (nonlinear_arith);
}

/// Where a frequency is among the bins of a frame, as a fraction.
pub open spec fn bin_place(hz: int, center: int, span: int, n: int) -> (int, int) {
    ((2 * hz - (2 * center - span)) * n, 2 * span)
}

/// The first bin that the view shows.
pub open spec fn first_bin(v: ViewState, d: Device, n: int) -> int {
    let p = bin_place(v.view_lo as int, d.center as int, d.span as int, n);
    held(p.0 / p.1, 0, n)
}

/// The bin past the last that the view shows.
pub open spec fn past_bin(v: ViewState, d: Device, n: int) -> int {
    let p = bin_place(v.view_hi as int, d.center as int, d.span as int, n);
    held((p.0 + p.1 - 1) / p.1, 0, n)
}

/// The bins that automatic levels go by: those that the view shows, or all when
/// it shows none.
pub open spec fn visible_bins(bins: Seq<u8>, v: ViewState, d: Device) -> Seq<u8> {
    let lo = first_bin(v, d, bins.len() as int);
    let hi = past_bin(v, d, bins.len() as int);
    if hi > lo {
        bins.subrange(lo, hi)
    } else {
        bins
    }
}

/// Automatic levels go by what is on screen: of the `n` bins that share out the
/// device's span, those of which some part is in view. `lo` and `hi` are the ends of
/// their run; where no bin is in view all count.
pub proof fn law_bins_in_view_count(bins: Seq<u8>, v: ViewState, d: Device, lo: int, hi: int)
    requires
        d.span > 0,
        0 <= lo <= hi <= bins.len(),
        forall|k: int|
            0 <= k < bins.len() ==> (lo <= k < hi <==> #[trigger] shows_bin(
                v,
                d,
                bins.len() as int,
                k,
            )),
    ensures
        lo < hi ==> visible_bins(bins, v, d) == bins.subrange(lo, hi),
        lo == hi && v.view_lo < v.view_hi ==> visible_bins(bins, v, d) == bins,
{
    let n = bins.len() as int;
    let den = 2 * d.span;
    let from = 2 * v.view_lo - (2 * d.center - d.span);
    let to = 2 * v.view_hi - (2 * d.center - d.span);
    let a = first_bin(v, d, n);
    let b = past_bin(v, d, n);
    assert forall|k: int| 0 <= k < n implies (a <= k < b <==> #[trigger] shows_bin(v, d, n, k)) by {
        let (x, y) = (from * n, to * n);
        assert(x / den <= k <==> (k + 1) * den > x) by (nonlinear_arith)
            requires
                den > 0,
        ;
        assert(k < (y + den - 1) / den <==> k * den < y) by (nonlinear_arith)
            requires
                den > 0,
        ;
    }
    if lo < hi {
        assert(shows_bin(v, d, n, lo));
        assert(shows_bin(v, d, n, hi - 1));
        assert(a <= lo && hi <= b);
        if a < lo {
            assert(shows_bin(v, d, n, a));
        }
        if hi < b {
            assert(shows_bin(v, d, n, b - 1));
        }
    } else if a < b {
        assert(shows_bin(v, d, n, a));
    }
}

/// Whether some part of a bin is in view: bin `k` of `n` takes the `k`-th part of the
/// device's span.
pub open spec fn shows_bin(v: ViewState, d: Device, n: int, k: int) -> bool {
    let base = 2 * d.center - d.span;
    &&& (2 * v.view_lo - base) * n < (k + 1) * (2 * d.span)
    &&& k * (2 * d.span) < (2 * v.view_hi - base) * n
}

/// The bin at a distance `from` into a span `den` of `n` bins, rounded down or up
/// and held within the frame.
fn bin_at(from: i128, den: i128, n: usize, up: bool) -> (r: usize)
    requires
        0 < den <= 0xffff_ffff_ffff_fffe,
    ensures
        r == held(
            (from * n + (if up {
                den - 1
            } else {
                0
            })) / den as int,
            0,
            n as int,
        ),
{
    let extra: i128 = if up {
        den - 1
    } else {
        0
    };
    if from < 0 {
        assert((from * n + extra) / den as int <= 0) by (nonlinear_arith)
            requires
                from <= -1,
                0 <= n,
                0 <= extra < den,
        ;
        return 0;
    }
    if from >= den {
        assert((from * n + extra) / den as int >= n) by (nonlinear_arith)
            requires
                from >= den,
                den > 0,
                0 <= n,
                0 <= extra,
        ;
        return n;
    }
    assert(0 <= from * n <= 0xffff_ffff_ffff_fffd * 0xffff_ffff_ffff_ffff) by (nonlinear_arith)
        requires
            0 <= from <= 0xffff_ffff_ffff_fffd,
            0 <= n <= 0xffff_ffff_ffff_ffff,
    ;
    let q: u128 = (from as u128 * n as u128 + extra as u128) / den as u128;
    assert(q <= n) by (nonlinear_arith)
        requires
            0 <= from <= den - 1,
            0 <= extra <= den - 1,
            0 <= n,
            q == (from * n + extra) / den as int,
    ;
    q as usize
}

/// Automatic levels for a frame that covers the span `d`: only the bins inside
/// the view count, so that a strong station off the screen does not skew them.
pub fn auto_levels(bins: &[u8], d: &Device, v: &ViewState, floor: i32, ceil: i32) -> (r: Option<
    (i64, i64),
>)
    ensures
        match r {
            Some(l) => d.span > 0 && levels_for(visible_bins(bins@, *v, *d), floor, ceil) == Some(
                (l.0 as int, l.1 as int),
            ),
            None => d.span <= 0 || levels_for(visible_bins(bins@, *v, *d), floor, ceil) is None,
        },
{
    let n: usize = bins.len();
    if n == 0 || d.span <= 0 {
        return None;
    }
    let base: i128 = 2 * (d.center as i128) - d.span as i128;
    let den: i128 = 2 * (d.span as i128);
    let from: i128 = 2 * (v.view_lo as i128) - base;
    let to: i128 = 2 * (v.view_hi as i128) - base;
    let lo: usize = bin_at(from, den, n, false);
    let hi: usize = bin_at(to, den, n, true);
    if hi > lo {
        pick_levels(vstd::slice::slice_subrange(bins, lo, hi), floor, ceil)
    } else {
        pick_levels(bins, floor, ceil)
    }
}

/// The waterfall runs at its rate, in thousandths of a row a second: the rows that
/// are written and what is left over make up the time since the last frame, in
/// microseconds, and what was left over then, up to 32 rows at once.
pub proof fn law_rows_follow_the_clock(p: WfPace, now: int, rate: int)
    requires
        p.wf(),
        0 <= rate,
        0 < p.last <= now <= p.last + 300_000,
    ensures
        0 <= p.left_over(now, rate) < 1_000_000_000,
        0 <= p.rows_due(now, rate) <= 32,
        p.rows_due(now, rate) < 32 ==> p.rows_due(now, rate) * 1_000_000_000 + p.left_over(now, rate)
            == p.carry + (now - p.last) * rate,
        p.rows_due(now, rate) == 32 ==> p.carry + (now - p.last) * rate >= 32_000_000_000,
{
    assert(0 <= (now - p.last) * rate) by (nonlinear_arith)
        requires
            p.last <= now,
            0 <= rate,
    ;
}

/// After more than three tenths of a second without a frame only those are caught
/// up on, and at the start, or when the clock went back, nothing is.
pub proof fn law_long_gaps_are_not_caught_up_on(p: WfPace, now: int, rate: int)
    ensures
        p.last > 0 && now > p.last + 300_000 ==> p.due(now, rate) == p.due(p.last + 300_000, rate),
        p.last <= 0 || now <= p.last ==> p.due(now, rate) == p.carry,
{
    assert(0 * rate == 0);
}

/// A computed span other than the one that is asked for serves as long as it has the
/// view inside it with a twentieth of it to spare on either side, or ends where the
/// device's span does, to within a hertz, and is neither hardly wider than the view
/// nor more than three and a half times as wide; a view under a hertz counts as one.
/// All else has to be as it is asked for.
pub proof fn law_serving_spans_have_a_margin(
    s: SpectrumConfig,
    p: Viewport,
    d: Device,
    v: ViewState,
    fps: u32,
)
    requires
        s.viewport == Some(p),
        s.viewport != ideal_config(d, v, fps).viewport,
        s.fft_size == ideal_config(d, v, fps).fft_size && s.fps == ideal_config(d, v, fps).fps,
        s.floor == v.db_floor && s.ceil == v.db_ceil,
    ensures
        ({
            let wide = p.hi - p.lo;
            let w = if v.view_hi - v.view_lo < 1000 {
                1000
            } else {
                v.view_hi - v.view_lo
            };
            still_good(Some(s), ideal_config(d, v, fps), d, v) <==> ideal_config(d, v, fps).viewport
                is Some && (40 * v.view_lo >= 20 * p.lo + wide || p.lo <= 2 * d.center - d.span
                + 2000) && (20 * p.hi >= 40 * v.view_hi + wide || p.hi + 2000 >= 2 * d.center
                + d.span) && 23 * w <= 10 * wide <= 70 * w
        }),
{
}

/// A frame gives a scale unless it is empty or its own scale has no range.
pub proof fn law_frames_give_a_scale(bins: Seq<u8>, floor: i32, ceil: i32)
    ensures
        levels_for(bins, floor, ceil) is Some <==> bins.len() > 0 && floor < ceil,
{
}

} // verus!
