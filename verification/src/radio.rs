//! The controls above the panadapter: what their buttons show and ask for.
use crate::command::{Command, Mode, Vfo};
use crate::overlay::SkimmerKind;
use vstd::prelude::*;

verus! {

/// How near the dial has to be to a band's digital frequency for its button to
/// be lit, in hertz.
pub const BAND_NEAR_HZ: i64 = 500;

/// The usual dial frequencies of a digital mode: the band's name, and the
/// frequency in hertz.
pub open spec fn dial_freqs(mode: Mode) -> Seq<(&'static str, i64)> {
    match mode {
        Mode::Psk => seq![
            ("80m", 3_580_000i64),
            ("40m", 7_040_000),
            ("30m", 10_142_000),
            ("20m", 14_070_000),
            ("17m", 18_097_000),
            ("15m", 21_070_000),
            ("12m", 24_920_000),
            ("10m", 28_120_000),
        ],
        Mode::Rtty => seq![
            ("80m", 3_580_000i64),
            ("40m", 7_040_000),
            ("30m", 10_140_000),
            ("20m", 14_080_000),
            ("17m", 18_100_000),
            ("15m", 21_080_000),
            ("12m", 24_920_000),
            ("10m", 28_080_000),
        ],
        Mode::Ft4 => seq![
            ("80m", 3_575_000i64),
            ("40m", 7_047_500),
            ("30m", 10_140_000),
            ("20m", 14_080_000),
            ("17m", 18_104_000),
            ("15m", 21_140_000),
            ("12m", 24_919_000),
            ("10m", 28_180_000),
        ],
        Mode::Rade => seq![
            ("80m", 3_625_000i64),
            ("40m", 7_177_000),
            ("20m", 14_236_000),
            ("15m", 21_313_000),
            ("10m", 28_330_000),
        ],
        Mode::Sstv => seq![
            ("80m", 3_730_000i64),
            ("40m", 7_171_000),
            ("20m", 14_230_000),
            ("15m", 21_340_000),
            ("10m", 28_680_000),
        ],
        Mode::Olivia => seq![
            ("80m", 3_581_000i64),
            ("40m", 7_073_000),
            ("30m", 10_142_000),
            ("20m", 14_076_000),
            ("17m", 18_103_000),
            ("15m", 21_076_000),
            ("10m", 28_076_000),
        ],
        Mode::Thor => seq![
            ("80m", 3_580_000i64),
            ("40m", 7_070_000),
            ("30m", 10_147_000),
            ("20m", 14_073_000),
            ("17m", 18_103_000),
            ("15m", 21_073_000),
            ("10m", 28_073_000),
        ],
        Mode::Fsq => seq![
            ("80m", 3_575_000i64),
            ("40m", 7_105_000),
            ("30m", 10_144_000),
            ("20m", 14_105_000),
            ("17m", 18_104_000),
            ("15m", 21_105_000),
            ("10m", 28_105_000),
        ],
        Mode::RfPaint => seq![],
        _ => seq![
            ("160m", 1_840_000i64),
            ("80m", 3_573_000),
            ("40m", 7_074_000),
            ("30m", 10_136_000),
            ("20m", 14_074_000),
            ("17m", 18_100_000),
            ("15m", 21_074_000),
            ("12m", 24_915_000),
            ("10m", 28_074_000),
            ("6m", 50_313_000),
        ],
    }
}

/// The usual dial frequencies of a digital mode, with the bands' names, lowest
/// band first. A mode without its own has those of FT8; RF Paint has none.
pub fn digi_dial_freqs(mode: Mode) -> (r: Vec<(&'static str, i64)>)
    ensures
        r@ == dial_freqs(mode),
{
    let v: Vec<(&'static str, i64)> = match mode {
        Mode::Psk => vec![
            ("80m", 3_580_000),
            ("40m", 7_040_000),
            ("30m", 10_142_000),
            ("20m", 14_070_000),
            ("17m", 18_097_000),
            ("15m", 21_070_000),
            ("12m", 24_920_000),
            ("10m", 28_120_000),
        ],
        Mode::Rtty => vec![
            ("80m", 3_580_000),
            ("40m", 7_040_000),
            ("30m", 10_140_000),
            ("20m", 14_080_000),
            ("17m", 18_100_000),
            ("15m", 21_080_000),
            ("12m", 24_920_000),
            ("10m", 28_080_000),
        ],
        Mode::Ft4 => vec![
            ("80m", 3_575_000),
            ("40m", 7_047_500),
            ("30m", 10_140_000),
            ("20m", 14_080_000),
            ("17m", 18_104_000),
            ("15m", 21_140_000),
            ("12m", 24_919_000),
            ("10m", 28_180_000),
        ],
        Mode::Rade => vec![
            ("80m", 3_625_000),
            ("40m", 7_177_000),
            ("20m", 14_236_000),
            ("15m", 21_313_000),
            ("10m", 28_330_000),
        ],
        Mode::Sstv => vec![
            ("80m", 3_730_000),
            ("40m", 7_171_000),
            ("20m", 14_230_000),
            ("15m", 21_340_000),
            ("10m", 28_680_000),
        ],
        Mode::Olivia => vec![
            ("80m", 3_581_000),
            ("40m", 7_073_000),
            ("30m", 10_142_000),
            ("20m", 14_076_000),
            ("17m", 18_103_000),
            ("15m", 21_076_000),
            ("10m", 28_076_000),
        ],
        Mode::Thor => vec![
            ("80m", 3_580_000),
            ("40m", 7_070_000),
            ("30m", 10_147_000),
            ("20m", 14_073_000),
            ("17m", 18_103_000),
            ("15m", 21_073_000),
            ("10m", 28_073_000),
        ],
        Mode::Fsq => vec![
            ("80m", 3_575_000),
            ("40m", 7_105_000),
            ("30m", 10_144_000),
            ("20m", 14_105_000),
            ("17m", 18_104_000),
            ("15m", 21_105_000),
            ("10m", 28_105_000),
        ],
        Mode::RfPaint => Vec::new(),
        _ => vec![
            ("160m", 1_840_000),
            ("80m", 3_573_000),
            ("40m", 7_074_000),
            ("30m", 10_136_000),
            ("20m", 14_074_000),
            ("17m", 18_100_000),
            ("15m", 21_074_000),
            ("12m", 24_915_000),
            ("10m", 28_074_000),
            ("6m", 50_313_000),
        ],
    };
    assert(v@ =~= dial_freqs(mode));
    v
}

/// The first of some frequencies that lies between two edges.
pub open spec fn first_within(freqs: Seq<(&'static str, i64)>, lo: int, hi: int) -> Option<i64>
    decreases freqs.len(),
{
    if freqs.len() == 0 {
        None
    } else if lo <= freqs[0].1 <= hi {
        Some(freqs[0].1)
    } else {
        first_within(freqs.drop_first(), lo, hi)
    }
}

/// The usual dial frequency of a mode on a band, if there is one: the first that
/// lies between the band's edges. A band without edges has none.
pub fn digi_freq_for_band(mode: Mode, edges: Option<(i64, i64)>) -> (r: Option<i64>)
    ensures
        r == match edges {
            Some(e) => first_within(dial_freqs(mode), e.0 as int, e.1 as int),
            None => None,
        },
{
    let (lo, hi) = match edges {
        Some(e) => e,
        None => {
            return None;
        },
    };
    let freqs = digi_dial_freqs(mode);
    let mut i: usize = 0;
    assert(freqs@.skip(0) =~= freqs@);
    while i < freqs.len()
        invariant
            edges == Some((lo, hi)),
            freqs@ == dial_freqs(mode),
            i <= freqs@.len(),
            first_within(freqs@.skip(i as int), lo as int, hi as int) == first_within(
                freqs@,
                lo as int,
                hi as int,
            ),
        decreases freqs@.len() - i,
    {
        if lo <= freqs[i].1 && freqs[i].1 <= hi {
            return Some(freqs[i].1);
        }
        assert(freqs@.skip(i as int).drop_first() =~= freqs@.skip(i + 1));
        i = i + 1;
    }
    None
}

/// What a band's button looks like and asks for.
#[derive(Debug)]
pub struct BandButton {
    pub enabled: bool,
    pub lit: bool,
    /// Where it tunes to, in a mode that keeps its mode on a band change.
    pub tune_to: Option<i64>,
}

/// What decides a band's button.
#[derive(Debug)]
pub struct BandFacts {
    /// The edges of the band, in hertz.
    pub edges: Option<(i64, i64)>,
    /// Its usual frequency.
    pub default_hz: i64,
    /// Whether the radio can receive there.
    pub reachable: bool,
    /// Whether it is the band that the radio is on.
    pub current: bool,
}

/// Where a band's button tunes to: the band's usual frequency in RF Paint, which
/// has no calling frequencies; the mode's in another digital mode; else it is a
/// plain band change.
pub open spec fn band_target(mode: Mode, digital: bool, f: BandFacts) -> Option<i64> {
    if mode == Mode::RfPaint {
        Some(f.default_hz)
    } else if digital {
        match f.edges {
            Some(e) => first_within(dial_freqs(mode), e.0 as int, e.1 as int),
            None => None,
        }
    } else {
        None
    }
}

/// Whether a band's button is lit: in a digital mode when the dial is near where it
/// tunes to, else when the radio is on the band.
pub open spec fn band_lit(mode: Mode, digital: bool, dial_hz: int, f: BandFacts) -> bool {
    if mode == Mode::RfPaint {
        f.current
    } else {
        match band_target(mode, digital, f) {
            Some(hz) => -BAND_NEAR_HZ < dial_hz - hz < BAND_NEAR_HZ,
            None => !digital && f.current,
        }
    }
}

/// A band's button. A digital mode's button works only on bands where it has a
/// frequency, and is lit when the dial is near that.
pub fn band_button(mode: Mode, digital: bool, dial_hz: i64, f: &BandFacts) -> (r: BandButton)
    ensures
        r.tune_to == band_target(mode, digital, *f),
        r.enabled == (f.reachable && (digital ==> r.tune_to is Some)),
        r.lit == band_lit(mode, digital, dial_hz as int, *f),
{
    let tune_to: Option<i64> = if mode == Mode::RfPaint {
        Some(f.default_hz)
    } else if digital {
        digi_freq_for_band(mode, f.edges)
    } else {
        None
    };
    let lit = if mode == Mode::RfPaint {
        f.current
    } else {
        match tune_to {
            Some(hz) => {
                let d: i128 = dial_hz as i128 - hz as i128;
                -(BAND_NEAR_HZ as i128) < d && d < BAND_NEAR_HZ as i128
            },
            None => !digital && f.current,
        }
    };
    BandButton { enabled: f.reachable && (!digital || tune_to.is_some()), lit, tune_to }
}

/// A press on a band's button.
pub fn press_band(b: &BandButton, band: u8, active: Vfo) -> (r: Command)
    ensures
        r == match b.tune_to {
            Some(freq) => Command::TuneHz { vfo: active, freq },
            None => Command::SetBand(band),
        },
{
    match b.tune_to {
        Some(freq) => Command::TuneHz { vfo: active, freq },
        None => Command::SetBand(band),
    }
}

/// In a digital mode a band's button never changes the band without tuning to a
/// frequency of the mode that lies on that band.
pub proof fn law_digital_band_keeps_the_mode(mode: Mode, f: BandFacts)
    requires
        mode != Mode::RfPaint,
        band_target(mode, true, f) is Some,
    ensures
        f.edges matches Some(e) && e.0 <= band_target(mode, true, f)->0 <= e.1,
        tabled(dial_freqs(mode), band_target(mode, true, f)->0),
{
    let e = f.edges->0;
    lemma_first_within(dial_freqs(mode), e.0 as int, e.1 as int);
}

/// Whether a digital mode has a frequency on a band that starts above `below` and
/// holds `hz`: the button of any such band tunes there.
pub open spec fn calls_on(mode: Mode, below: int, hz: i64) -> bool {
    forall|f: BandFacts|
        f.edges matches Some(e) && below < e.0 <= hz <= e.1 ==> #[trigger] band_target(
            mode,
            true,
            f,
        ) == Some(hz)
}

/// Whether a digital mode has no frequency between two others.
pub open spec fn calls_nowhere(mode: Mode, above: int, below: int) -> bool {
    forall|f: BandFacts|
        f.edges matches Some(e) && above < e.0 && e.1 < below ==> #[trigger] band_target(
            mode,
            true,
            f,
        ) is None
}

proof fn lemma_first_is(freqs: Seq<(&'static str, i64)>, k: int, lo: int, hi: int)
    requires
        0 <= k <= freqs.len(),
        forall|i: int| 0 <= i < k ==> !(lo <= (#[trigger] freqs[i]).1 <= hi),
        k < freqs.len() ==> lo <= freqs[k].1 <= hi,
    ensures
        k < freqs.len() ==> first_within(freqs, lo, hi) == Some(freqs[k].1),
        k == freqs.len() ==> first_within(freqs, lo, hi) is None,
    decreases freqs.len(),
{
    if freqs.len() > 0 && k > 0 {
        let t = freqs.drop_first();
        assert(!(lo <= freqs[0].1 <= hi));
        assert forall|i: int| 0 <= i < k - 1 implies !(lo <= (#[trigger] t[i]).1 <= hi) by {
            assert(t[i] == freqs[i + 1]);
        }
        lemma_first_is(t, k - 1, lo, hi);
    }
}

/// The frequency at a place of a rising table is where a band's button tunes that
/// starts above the one before; between two there is none.
proof fn lemma_calls(mode: Mode, k: int)
    requires
        mode != Mode::RfPaint,
        0 <= k <= dial_freqs(mode).len(),
        forall|i: int, j: int|
            0 <= i < j < dial_freqs(mode).len() ==> dial_freqs(mode)[i].1 < dial_freqs(mode)[j].1,
    ensures
        ({
            let t = dial_freqs(mode);
            let below = if k == 0 {
                0
            } else {
                t[k - 1].1 as int
            };
            &&& k < t.len() && (k == 0 ==> t[k].1 > 0) ==> calls_on(mode, below, t[k].1)
            &&& calls_nowhere(
                mode,
                below,
                if k < t.len() {
                    t[k].1 as int
                } else {
                    i64::MAX + 1
                },
            )
        }),
{
    let t = dial_freqs(mode);
    let below = if k == 0 {
        0
    } else {
        t[k - 1].1 as int
    };
    let above = if k < t.len() {
        t[k].1 as int
    } else {
        i64::MAX + 1
    };
    assert forall|f: BandFacts|
        f.edges matches Some(e) && below < e.0 && e.1 < above implies #[trigger] band_target(
        mode,
        true,
        f,
    ) is None by {
        let e = f.edges->0;
        assert forall|i: int| 0 <= i < t.len() implies !(e.0 <= (#[trigger] t[i]).1 <= e.1) by {
            if i < k - 1 {
                assert(t[i].1 < t[k - 1].1);
            }
            if k < i {
                assert(t[k].1 < t[i].1);
            }
        }
        lemma_first_is(t, t.len() as int, e.0 as int, e.1 as int);
    }
    if k < t.len() {
        assert forall|f: BandFacts|
            f.edges matches Some(e) && below < e.0 <= t[k].1 <= e.1 implies #[trigger] band_target(
            mode,
            true,
            f,
        ) == Some(t[k].1) by {
            let e = f.edges->0;
            assert forall|i: int| 0 <= i < k implies !(e.0 <= (#[trigger] t[i]).1 <= e.1) by {
                if i < k - 1 {
                    assert(t[i].1 < t[k - 1].1);
                }
            }
            lemma_first_is(t, k, e.0 as int, e.1 as int);
        }
    }
}

/// Where FT8 is called, whatever the exact edges of a band are: the frequency on each band
/// from 160 m to 6 m, and nowhere else. A digital mode without frequencies of its own is
/// called there too.
pub proof fn law_ft8_calling_frequencies(mode: Mode)
    requires
        mode != Mode::Psk && mode != Mode::Rtty && mode != Mode::Ft4 && mode != Mode::Rade,
        mode != Mode::Sstv && mode != Mode::Olivia && mode != Mode::Thor && mode != Mode::Fsq,
        mode != Mode::RfPaint,
    ensures
        calls_on(mode, 0, 1_840_000),
        calls_nowhere(mode, 0, 1_840_000),
        calls_on(mode, 1_840_000, 3_573_000),
        calls_nowhere(mode, 1_840_000, 3_573_000),
        calls_on(mode, 3_573_000, 7_074_000),
        calls_nowhere(mode, 3_573_000, 7_074_000),
        calls_on(mode, 7_074_000, 10_136_000),
        calls_nowhere(mode, 7_074_000, 10_136_000),
        calls_on(mode, 10_136_000, 14_074_000),
        calls_nowhere(mode, 10_136_000, 14_074_000),
        calls_on(mode, 14_074_000, 18_100_000),
        calls_nowhere(mode, 14_074_000, 18_100_000),
        calls_on(mode, 18_100_000, 21_074_000),
        calls_nowhere(mode, 18_100_000, 21_074_000),
        calls_on(mode, 21_074_000, 24_915_000),
        calls_nowhere(mode, 21_074_000, 24_915_000),
        calls_on(mode, 24_915_000, 28_074_000),
        calls_nowhere(mode, 24_915_000, 28_074_000),
        calls_on(mode, 28_074_000, 50_313_000),
        calls_nowhere(mode, 28_074_000, 50_313_000),
        calls_nowhere(mode, 50_313_000, i64::MAX + 1),
{
    lemma_calls(mode, 0);
    lemma_calls(mode, 1);
    lemma_calls(mode, 2);
    lemma_calls(mode, 3);
    lemma_calls(mode, 4);
    lemma_calls(mode, 5);
    lemma_calls(mode, 6);
    lemma_calls(mode, 7);
    lemma_calls(mode, 8);
    lemma_calls(mode, 9);
    lemma_calls(mode, 10);
}

/// Where FT4 is called, on each band that it has, and nowhere else.
pub proof fn law_ft4_calling_frequencies()
    ensures
        calls_on(Mode::Ft4, 0, 3_575_000),
        calls_nowhere(Mode::Ft4, 0, 3_575_000),
        calls_on(Mode::Ft4, 3_575_000, 7_047_500),
        calls_nowhere(Mode::Ft4, 3_575_000, 7_047_500),
        calls_on(Mode::Ft4, 7_047_500, 10_140_000),
        calls_nowhere(Mode::Ft4, 7_047_500, 10_140_000),
        calls_on(Mode::Ft4, 10_140_000, 14_080_000),
        calls_nowhere(Mode::Ft4, 10_140_000, 14_080_000),
        calls_on(Mode::Ft4, 14_080_000, 18_104_000),
        calls_nowhere(Mode::Ft4, 14_080_000, 18_104_000),
        calls_on(Mode::Ft4, 18_104_000, 21_140_000),
        calls_nowhere(Mode::Ft4, 18_104_000, 21_140_000),
        calls_on(Mode::Ft4, 21_140_000, 24_919_000),
        calls_nowhere(Mode::Ft4, 21_140_000, 24_919_000),
        calls_on(Mode::Ft4, 24_919_000, 28_180_000),
        calls_nowhere(Mode::Ft4, 24_919_000, 28_180_000),
        calls_nowhere(Mode::Ft4, 28_180_000, i64::MAX + 1),
{
    lemma_calls(Mode::Ft4, 0);
    lemma_calls(Mode::Ft4, 1);
    lemma_calls(Mode::Ft4, 2);
    lemma_calls(Mode::Ft4, 3);
    lemma_calls(Mode::Ft4, 4);
    lemma_calls(Mode::Ft4, 5);
    lemma_calls(Mode::Ft4, 6);
    lemma_calls(Mode::Ft4, 7);
    lemma_calls(Mode::Ft4, 8);
}

/// Where PSK is called, on each band that it has, and nowhere else.
pub proof fn law_psk_calling_frequencies()
    ensures
        calls_on(Mode::Psk, 0, 3_580_000),
        calls_nowhere(Mode::Psk, 0, 3_580_000),
        calls_on(Mode::Psk, 3_580_000, 7_040_000),
        calls_nowhere(Mode::Psk, 3_580_000, 7_040_000),
        calls_on(Mode::Psk, 7_040_000, 10_142_000),
        calls_nowhere(Mode::Psk, 7_040_000, 10_142_000),
        calls_on(Mode::Psk, 10_142_000, 14_070_000),
        calls_nowhere(Mode::Psk, 10_142_000, 14_070_000),
        calls_on(Mode::Psk, 14_070_000, 18_097_000),
        calls_nowhere(Mode::Psk, 14_070_000, 18_097_000),
        calls_on(Mode::Psk, 18_097_000, 21_070_000),
        calls_nowhere(Mode::Psk, 18_097_000, 21_070_000),
        calls_on(Mode::Psk, 21_070_000, 24_920_000),
        calls_nowhere(Mode::Psk, 21_070_000, 24_920_000),
        calls_on(Mode::Psk, 24_920_000, 28_120_000),
        calls_nowhere(Mode::Psk, 24_920_000, 28_120_000),
        calls_nowhere(Mode::Psk, 28_120_000, i64::MAX + 1),
{
    lemma_calls(Mode::Psk, 0);
    lemma_calls(Mode::Psk, 1);
    lemma_calls(Mode::Psk, 2);
    lemma_calls(Mode::Psk, 3);
    lemma_calls(Mode::Psk, 4);
    lemma_calls(Mode::Psk, 5);
    lemma_calls(Mode::Psk, 6);
    lemma_calls(Mode::Psk, 7);
    lemma_calls(Mode::Psk, 8);
}

/// Where RTTY is called, on each band that it has, and nowhere else.
pub proof fn law_rtty_calling_frequencies()
    ensures
        calls_on(Mode::Rtty, 0, 3_580_000),
        calls_nowhere(Mode::Rtty, 0, 3_580_000),
        calls_on(Mode::Rtty, 3_580_000, 7_040_000),
        calls_nowhere(Mode::Rtty, 3_580_000, 7_040_000),
        calls_on(Mode::Rtty, 7_040_000, 10_140_000),
        calls_nowhere(Mode::Rtty, 7_040_000, 10_140_000),
        calls_on(Mode::Rtty, 10_140_000, 14_080_000),
        calls_nowhere(Mode::Rtty, 10_140_000, 14_080_000),
        calls_on(Mode::Rtty, 14_080_000, 18_100_000),
        calls_nowhere(Mode::Rtty, 14_080_000, 18_100_000),
        calls_on(Mode::Rtty, 18_100_000, 21_080_000),
        calls_nowhere(Mode::Rtty, 18_100_000, 21_080_000),
        calls_on(Mode::Rtty, 21_080_000, 24_920_000),
        calls_nowhere(Mode::Rtty, 21_080_000, 24_920_000),
        calls_on(Mode::Rtty, 24_920_000, 28_080_000),
        calls_nowhere(Mode::Rtty, 24_920_000, 28_080_000),
        calls_nowhere(Mode::Rtty, 28_080_000, i64::MAX + 1),
{
    lemma_calls(Mode::Rtty, 0);
    lemma_calls(Mode::Rtty, 1);
    lemma_calls(Mode::Rtty, 2);
    lemma_calls(Mode::Rtty, 3);
    lemma_calls(Mode::Rtty, 4);
    lemma_calls(Mode::Rtty, 5);
    lemma_calls(Mode::Rtty, 6);
    lemma_calls(Mode::Rtty, 7);
    lemma_calls(Mode::Rtty, 8);
}

/// Where Olivia is called, on each band that it has, and nowhere else.
pub proof fn law_olivia_calling_frequencies()
    ensures
        calls_on(Mode::Olivia, 0, 3_581_000),
        calls_nowhere(Mode::Olivia, 0, 3_581_000),
        calls_on(Mode::Olivia, 3_581_000, 7_073_000),
        calls_nowhere(Mode::Olivia, 3_581_000, 7_073_000),
        calls_on(Mode::Olivia, 7_073_000, 10_142_000),
        calls_nowhere(Mode::Olivia, 7_073_000, 10_142_000),
        calls_on(Mode::Olivia, 10_142_000, 14_076_000),
        calls_nowhere(Mode::Olivia, 10_142_000, 14_076_000),
        calls_on(Mode::Olivia, 14_076_000, 18_103_000),
        calls_nowhere(Mode::Olivia, 14_076_000, 18_103_000),
        calls_on(Mode::Olivia, 18_103_000, 21_076_000),
        calls_nowhere(Mode::Olivia, 18_103_000, 21_076_000),
        calls_on(Mode::Olivia, 21_076_000, 28_076_000),
        calls_nowhere(Mode::Olivia, 21_076_000, 28_076_000),
        calls_nowhere(Mode::Olivia, 28_076_000, i64::MAX + 1),
{
    lemma_calls(Mode::Olivia, 0);
    lemma_calls(Mode::Olivia, 1);
    lemma_calls(Mode::Olivia, 2);
    lemma_calls(Mode::Olivia, 3);
    lemma_calls(Mode::Olivia, 4);
    lemma_calls(Mode::Olivia, 5);
    lemma_calls(Mode::Olivia, 6);
    lemma_calls(Mode::Olivia, 7);
}

/// Where THOR is called, on each band that it has, and nowhere else.
pub proof fn law_thor_calling_frequencies()
    ensures
        calls_on(Mode::Thor, 0, 3_580_000),
        calls_nowhere(Mode::Thor, 0, 3_580_000),
        calls_on(Mode::Thor, 3_580_000, 7_070_000),
        calls_nowhere(Mode::Thor, 3_580_000, 7_070_000),
        calls_on(Mode::Thor, 7_070_000, 10_147_000),
        calls_nowhere(Mode::Thor, 7_070_000, 10_147_000),
        calls_on(Mode::Thor, 10_147_000, 14_073_000),
        calls_nowhere(Mode::Thor, 10_147_000, 14_073_000),
        calls_on(Mode::Thor, 14_073_000, 18_103_000),
        calls_nowhere(Mode::Thor, 14_073_000, 18_103_000),
        calls_on(Mode::Thor, 18_103_000, 21_073_000),
        calls_nowhere(Mode::Thor, 18_103_000, 21_073_000),
        calls_on(Mode::Thor, 21_073_000, 28_073_000),
        calls_nowhere(Mode::Thor, 21_073_000, 28_073_000),
        calls_nowhere(Mode::Thor, 28_073_000, i64::MAX + 1),
{
    lemma_calls(Mode::Thor, 0);
    lemma_calls(Mode::Thor, 1);
    lemma_calls(Mode::Thor, 2);
    lemma_calls(Mode::Thor, 3);
    lemma_calls(Mode::Thor, 4);
    lemma_calls(Mode::Thor, 5);
    lemma_calls(Mode::Thor, 6);
    lemma_calls(Mode::Thor, 7);
}

/// Where FSQ is called, on each band that it has, and nowhere else.
pub proof fn law_fsq_calling_frequencies()
    ensures
        calls_on(Mode::Fsq, 0, 3_575_000),
        calls_nowhere(Mode::Fsq, 0, 3_575_000),
        calls_on(Mode::Fsq, 3_575_000, 7_105_000),
        calls_nowhere(Mode::Fsq, 3_575_000, 7_105_000),
        calls_on(Mode::Fsq, 7_105_000, 10_144_000),
        calls_nowhere(Mode::Fsq, 7_105_000, 10_144_000),
        calls_on(Mode::Fsq, 10_144_000, 14_105_000),
        calls_nowhere(Mode::Fsq, 10_144_000, 14_105_000),
        calls_on(Mode::Fsq, 14_105_000, 18_104_000),
        calls_nowhere(Mode::Fsq, 14_105_000, 18_104_000),
        calls_on(Mode::Fsq, 18_104_000, 21_105_000),
        calls_nowhere(Mode::Fsq, 18_104_000, 21_105_000),
        calls_on(Mode::Fsq, 21_105_000, 28_105_000),
        calls_nowhere(Mode::Fsq, 21_105_000, 28_105_000),
        calls_nowhere(Mode::Fsq, 28_105_000, i64::MAX + 1),
{
    lemma_calls(Mode::Fsq, 0);
    lemma_calls(Mode::Fsq, 1);
    lemma_calls(Mode::Fsq, 2);
    lemma_calls(Mode::Fsq, 3);
    lemma_calls(Mode::Fsq, 4);
    lemma_calls(Mode::Fsq, 5);
    lemma_calls(Mode::Fsq, 6);
    lemma_calls(Mode::Fsq, 7);
}

/// Where SSTV is called, on each band that it has, and nowhere else.
pub proof fn law_sstv_calling_frequencies()
    ensures
        calls_on(Mode::Sstv, 0, 3_730_000),
        calls_nowhere(Mode::Sstv, 0, 3_730_000),
        calls_on(Mode::Sstv, 3_730_000, 7_171_000),
        calls_nowhere(Mode::Sstv, 3_730_000, 7_171_000),
        calls_on(Mode::Sstv, 7_171_000, 14_230_000),
        calls_nowhere(Mode::Sstv, 7_171_000, 14_230_000),
        calls_on(Mode::Sstv, 14_230_000, 21_340_000),
        calls_nowhere(Mode::Sstv, 14_230_000, 21_340_000),
        calls_on(Mode::Sstv, 21_340_000, 28_680_000),
        calls_nowhere(Mode::Sstv, 21_340_000, 28_680_000),
        calls_nowhere(Mode::Sstv, 28_680_000, i64::MAX + 1),
{
    lemma_calls(Mode::Sstv, 0);
    lemma_calls(Mode::Sstv, 1);
    lemma_calls(Mode::Sstv, 2);
    lemma_calls(Mode::Sstv, 3);
    lemma_calls(Mode::Sstv, 4);
    lemma_calls(Mode::Sstv, 5);
}

/// Where RADE is called, on each band that it has, and nowhere else.
pub proof fn law_rade_calling_frequencies()
    ensures
        calls_on(Mode::Rade, 0, 3_625_000),
        calls_nowhere(Mode::Rade, 0, 3_625_000),
        calls_on(Mode::Rade, 3_625_000, 7_177_000),
        calls_nowhere(Mode::Rade, 3_625_000, 7_177_000),
        calls_on(Mode::Rade, 7_177_000, 14_236_000),
        calls_nowhere(Mode::Rade, 7_177_000, 14_236_000),
        calls_on(Mode::Rade, 14_236_000, 21_313_000),
        calls_nowhere(Mode::Rade, 14_236_000, 21_313_000),
        calls_on(Mode::Rade, 21_313_000, 28_330_000),
        calls_nowhere(Mode::Rade, 21_313_000, 28_330_000),
        calls_nowhere(Mode::Rade, 28_330_000, i64::MAX + 1),
{
    lemma_calls(Mode::Rade, 0);
    lemma_calls(Mode::Rade, 1);
    lemma_calls(Mode::Rade, 2);
    lemma_calls(Mode::Rade, 3);
    lemma_calls(Mode::Rade, 4);
    lemma_calls(Mode::Rade, 5);
}

/// Whether a table of frequencies holds one.
pub open spec fn tabled(freqs: Seq<(&'static str, i64)>, hz: i64) -> bool {
    exists|i: int| 0 <= i < freqs.len() && (#[trigger] freqs[i]).1 == hz
}

proof fn lemma_first_within(freqs: Seq<(&'static str, i64)>, lo: int, hi: int)
    ensures
        first_within(freqs, lo, hi) matches Some(hz) ==> lo <= hz <= hi && tabled(freqs, hz),
    decreases freqs.len(),
{
    if freqs.len() > 0 {
        let t = freqs.drop_first();
        lemma_first_within(t, lo, hi);
        if let Some(hz) = first_within(freqs, lo, hi) {
            if lo <= freqs[0].1 <= hi {
                assert(freqs[0].1 == hz);
            } else {
                let i = choose|i: int| 0 <= i < t.len() && (#[trigger] t[i]).1 == hz;
                assert(freqs[i + 1].1 == hz);
            }
        }
    }
}

/// The state of an antenna tuner.
#[derive(Clone, Copy, Debug, PartialEq, Eq, Structural)]
pub enum AtuState {
    Bypassed,
    Tuning,
    /// A match is in circuit.
    Success,
    Failed,
}

/// The tuner's button: lit while a match is in circuit and while it runs.
pub fn atu_lit(atu: AtuState) -> (r: bool)
    ensures
        r == (atu == AtuState::Success || atu == AtuState::Tuning),
{
    atu == AtuState::Success || atu == AtuState::Tuning
}

/// A press on the tuner's button: take a match out, else tune. A running cycle
/// cannot be interrupted, so presses during it are ignored.
pub fn press_atu(atu: AtuState) -> (r: Option<Command>)
    ensures
        r == match atu {
            AtuState::Tuning => None::<Command>,
            AtuState::Success => Some(Command::BypassAtu),
            AtuState::Bypassed => Some(Command::StartAtu),
            AtuState::Failed => Some(Command::StartAtu),
        },
{
    match atu {
        AtuState::Tuning => None,
        AtuState::Success => Some(Command::BypassAtu),
        AtuState::Bypassed => Some(Command::StartAtu),
        AtuState::Failed => Some(Command::StartAtu),
    }
}

/// What the tip of the tuner's button says.
pub fn atu_tip(atu: AtuState) -> (r: &'static str)
    ensures
        r@ == match atu {
            AtuState::Success => "Tuner in circuit — click to bypass it"@,
            AtuState::Tuning => "Tuning — the radio is transmitting"@,
            AtuState::Failed => "The last tune failed — click to run it again"@,
            AtuState::Bypassed => "Tune the radio's antenna tuner (this transmits briefly)"@,
        },
{
    match atu {
        AtuState::Success => "Tuner in circuit — click to bypass it",
        AtuState::Tuning => "Tuning — the radio is transmitting",
        AtuState::Failed => "The last tune failed — click to run it again",
        AtuState::Bypassed => "Tune the radio's antenna tuner (this transmits briefly)",
    }
}

/// What the radio can do, of what the transmit controls go by.
#[derive(Clone, Copy, Debug, PartialEq, Eq, Structural)]
pub struct RadioCaps {
    pub transmits: bool,
    pub has_atu: bool,
}

/// Which transmit controls are shown.
#[derive(Clone, Copy, Debug, PartialEq, Eq, Structural)]
pub struct TxControls {
    /// The transmit box, and XIT beside RIT.
    pub shown: bool,
    pub keyer: bool,
    pub atu: bool,
}

/// Which transmit controls are shown: none on a radio that only receives or is
/// not known yet, the voice keyer where the mode allows it, and the tuner where
/// there is one.
pub fn tx_controls(caps: Option<RadioCaps>, allows_keyer: bool) -> (r: TxControls)
    ensures
        r.shown == (caps matches Some(c) && c.transmits),
        r.keyer == (r.shown && allows_keyer),
        r.atu == (caps matches Some(c) && c.transmits && c.has_atu),
{
    match caps {
        Some(c) => TxControls {
            shown: c.transmits,
            keyer: c.transmits && allows_keyer,
            atu: c.transmits && c.has_atu,
        },
        None => TxControls { shown: false, keyer: false, atu: false },
    }
}

/// The switches of the radio that the top bar toggles.
#[derive(Clone, Copy, Debug, PartialEq, Eq, Structural)]
pub struct Switches {
    pub split: bool,
    pub sub_rx: bool,
    pub rit: bool,
    pub rit_hz: i32,
    pub xit: bool,
    pub xit_hz: i32,
    pub muted: bool,
    pub recording: bool,
    pub noise_blanker: bool,
    pub auto_notch: bool,
    pub ptt: bool,
    pub tune: bool,
}

/// A control of the top bar that was used.
#[derive(Clone, Copy, Debug, PartialEq, Eq, Structural)]
pub enum TopBar {
    Vfo(Vfo),
    Swap,
    CopyAtoB,
    Split,
    SubRx,
    Rit,
    /// The offset was dialled.
    RitHz(i32),
    Xit,
    XitHz(i32),
    Mute,
    Record,
    NoiseBlanker,
    AutoNotch,
    Ptt,
    Tune,
}

/// What a control of the top bar asks for: each switch turns over, and an offset
/// that is dialled leaves its switch as it is.
pub open spec fn asked(s: Switches, c: TopBar) -> Command {
    match c {
        TopBar::Vfo(v) => Command::SelectVfo(v),
        TopBar::Swap => Command::SwapVfos,
        TopBar::CopyAtoB => Command::CopyAtoB,
        TopBar::Split => Command::SetSplit(!s.split),
        TopBar::SubRx => Command::SetSubRx(!s.sub_rx),
        TopBar::Rit => Command::SetRit { enabled: !s.rit, hz: s.rit_hz },
        TopBar::RitHz(hz) => Command::SetRit { enabled: s.rit, hz },
        TopBar::Xit => Command::SetXit { enabled: !s.xit, hz: s.xit_hz },
        TopBar::XitHz(hz) => Command::SetXit { enabled: s.xit, hz },
        TopBar::Mute => Command::SetMute(!s.muted),
        TopBar::Record => Command::SetRecording(!s.recording),
        TopBar::NoiseBlanker => Command::SetNoiseBlanker(!s.noise_blanker),
        TopBar::AutoNotch => Command::SetAutoNotch(!s.auto_notch),
        TopBar::Ptt => Command::SetPtt(!s.ptt),
        TopBar::Tune => Command::SetTune(!s.tune),
    }
}

/// What a control of the top bar asks for.
pub fn top_bar(s: &Switches, c: TopBar) -> (r: Command)
    ensures
        r == asked(*s, c),
{
    match c {
        TopBar::Vfo(v) => Command::SelectVfo(v),
        TopBar::Swap => Command::SwapVfos,
        TopBar::CopyAtoB => Command::CopyAtoB,
        TopBar::Split => Command::SetSplit(!s.split),
        TopBar::SubRx => Command::SetSubRx(!s.sub_rx),
        TopBar::Rit => Command::SetRit { enabled: !s.rit, hz: s.rit_hz },
        TopBar::RitHz(hz) => Command::SetRit { enabled: s.rit, hz },
        TopBar::Xit => Command::SetXit { enabled: !s.xit, hz: s.xit_hz },
        TopBar::XitHz(hz) => Command::SetXit { enabled: s.xit, hz },
        TopBar::Mute => Command::SetMute(!s.muted),
        TopBar::Record => Command::SetRecording(!s.recording),
        TopBar::NoiseBlanker => Command::SetNoiseBlanker(!s.noise_blanker),
        TopBar::AutoNotch => Command::SetAutoNotch(!s.auto_notch),
        TopBar::Ptt => Command::SetPtt(!s.ptt),
        TopBar::Tune => Command::SetTune(!s.tune),
    }
}

/// How a cell of an award grid is drawn.
#[derive(Clone, Copy, Debug, PartialEq, Eq, Structural)]
pub enum AwardCell {
    Confirmed,
    Worked,
    Open,
}

/// How a cell of an award grid is drawn.
pub fn award_cell(worked: bool, confirmed: bool) -> (r: AwardCell)
    ensures
        r == if confirmed {
            AwardCell::Confirmed
        } else if worked {
            AwardCell::Worked
        } else {
            AwardCell::Open
        },
{
    if confirmed {
        AwardCell::Confirmed
    } else if worked {
        AwardCell::Worked
    } else {
        AwardCell::Open
    }
}

/// What the tip of the record button says: where it records to, or what it does.
pub fn rec_tip(file: &Option<String>) -> (r: String)
    ensures
        r@ == match file {
            Some(f) => "Recording to "@ + f@ + " — click to stop"@,
            None => "Record receiver audio to MP3"@,
        },
{
    match file {
        Some(f) => {
            let mut t = String::from_str("Recording to ");
            t.append(f.as_str());
            t.append(" — click to stop");
            t
        },
        None => String::from_str("Record receiver audio to MP3"),
    }
}

/// The label of the noise reduction button, with its level while it is on.
pub fn nr_label(on: bool, level: &str) -> (r: String)
    ensures
        r@ == if on {
            "NR "@ + level@
        } else {
            "NR"@
        },
{
    if on {
        let mut t = String::from_str("NR ");
        t.append(level);
        t
    } else {
        String::from_str("NR")
    }
}

/// Whether the threshold of the gain control is shown: only for a radio whose
/// threshold is moved from here, and while the gain control is on.
pub fn agc_threshold_shown(flex: bool, agc_off: bool) -> (r: bool)
    ensures
        r == (flex && !agc_off),
{
    flex && !agc_off
}

/// What the tip of the voice keyer's button says, by the label of the message
/// that is on the air.
pub fn keyer_tip(playing: Option<&str>) -> (r: String)
    ensures
        r@ == match playing {
            Some(l) => "Transmitting "@ + l@ + " — click to open the voice keyer"@,
            None => "Voice keyer: record and transmit stored messages"@,
        },
{
    match playing {
        Some(l) => {
            let mut t = String::from_str("Transmitting ");
            t.append(l);
            t.append(" — click to open the voice keyer");
            t
        },
        None => String::from_str("Voice keyer: record and transmit stored messages"),
    }
}

/// A skimmer's switch and squelch: the least signal-to-noise ratio that earns a
/// box on the waterfall, in decibels.
#[derive(Clone, Copy, Debug, PartialEq, Eq, Structural)]
pub struct SkimmerKindCfg {
    pub enabled: bool,
    pub squelch_db: i16,
}

/// The skimmers.
#[derive(Clone, Copy, Debug, PartialEq, Eq, Structural)]
pub struct SkimmerCfg {
    pub cw: SkimmerKindCfg,
    pub psk: SkimmerKindCfg,
    pub rtty: SkimmerKindCfg,
}

/// What was changed in a skimmer's row.
#[derive(Clone, Copy, Debug, PartialEq, Eq, Structural)]
pub enum SkimmerEdit {
    Toggle,
    Squelch(i16),
}

impl SkimmerCfg {
    /// A skimmer's settings.
    pub open spec fn of(&self, kind: SkimmerKind) -> SkimmerKindCfg {
        match kind {
            SkimmerKind::Cw => self.cw,
            SkimmerKind::Psk => self.psk,
            SkimmerKind::Rtty => self.rtty,
        }
    }

    /// Whether any skimmer runs.
    pub fn any_enabled(&self) -> (r: bool)
        ensures
            r == exists|k: SkimmerKind| (#[trigger] self.of(k)).enabled,
    {
        assert(self.of(SkimmerKind::Cw) == self.cw);
        assert(self.of(SkimmerKind::Psk) == self.psk);
        assert(self.of(SkimmerKind::Rtty) == self.rtty);
        self.cw.enabled || self.psk.enabled || self.rtty.enabled
    }

    /// A change in a skimmer's row: the settings to send, none when that leaves
    /// them as they are. The others stay.
    pub fn edit(&self, kind: SkimmerKind, e: SkimmerEdit) -> (r: Option<SkimmerCfg>)
        ensures
            ({
                let was = self.of(kind);
                let to = match e {
                    SkimmerEdit::Toggle => SkimmerKindCfg { enabled: !was.enabled, ..was },
                    SkimmerEdit::Squelch(db) => SkimmerKindCfg { squelch_db: db, ..was },
                };
                match r {
                    None => to == was,
                    Some(c) => to != was && forall|k: SkimmerKind| #[trigger]
                        c.of(k) == if k == kind {
                            to
                        } else {
                            self.of(k)
                        },
                }
            }),
    {
        let was: SkimmerKindCfg = match kind {
            SkimmerKind::Cw => self.cw,
            SkimmerKind::Psk => self.psk,
            SkimmerKind::Rtty => self.rtty,
        };
        let to = match e {
            SkimmerEdit::Toggle => SkimmerKindCfg { enabled: !was.enabled, squelch_db: was.squelch_db },
            SkimmerEdit::Squelch(db) => SkimmerKindCfg { enabled: was.enabled, squelch_db: db },
        };
        if to == was {
            return None;
        }
        let mut c = *self;
        match kind {
            SkimmerKind::Cw => {
                c.cw = to;
            },
            SkimmerKind::Psk => {
                c.psk = to;
            },
            SkimmerKind::Rtty => {
                c.rtty = to;
            },
        }
        Some(c)
    }
}

/// In a digital mode a band's button is lit once it was pressed, and as long as the
/// dial stays within half a kilohertz of where it tuned to. A band without a
/// frequency of the mode is never lit.
pub proof fn law_band_is_lit_near_its_frequency(mode: Mode, dial_hz: int, f: BandFacts)
    requires
        mode != Mode::RfPaint,
    ensures
        band_lit(mode, true, dial_hz, f) <==> (band_target(mode, true, f) matches Some(hz)
            && dial_hz < hz + 500 && hz < dial_hz + 500),
        band_lit(mode, false, dial_hz, f) <==> f.current,
        band_lit(Mode::RfPaint, true, dial_hz, f) <==> f.current,
        band_target(mode, false, f) is None,
        band_target(Mode::RfPaint, true, f) == Some(f.default_hz),
{
}

/// The amateur band that a frequency in hertz lies on, by its name.
pub open spec fn band_named(hz: int) -> Seq<char> {
    if 1_800_000 <= hz <= 2_000_000 {
        "160m"@
    } else if 3_500_000 <= hz <= 4_000_000 {
        "80m"@
    } else if 7_000_000 <= hz <= 7_300_000 {
        "40m"@
    } else if 10_100_000 <= hz <= 10_150_000 {
        "30m"@
    } else if 14_000_000 <= hz <= 14_350_000 {
        "20m"@
    } else if 18_068_000 <= hz <= 18_168_000 {
        "17m"@
    } else if 21_000_000 <= hz <= 21_450_000 {
        "15m"@
    } else if 24_890_000 <= hz <= 24_990_000 {
        "12m"@
    } else if 28_000_000 <= hz <= 29_700_000 {
        "10m"@
    } else if 50_000_000 <= hz <= 54_000_000 {
        "6m"@
    } else {
        ""@
    }
}

/// Each usual frequency of a mode stands under the name of the amateur band that it
/// lies on, and the lowest comes first.
pub proof fn law_frequencies_are_named_by_their_band(mode: Mode, i: int, j: int)
    requires
        0 <= i <= j < dial_freqs(mode).len(),
    ensures
        dial_freqs(mode)[i].0@ == band_named(dial_freqs(mode)[i].1 as int),
        i < j ==> dial_freqs(mode)[i].1 < dial_freqs(mode)[j].1,
{
}

/// A switch of the top bar asks for what it is not: pressed again once the radio has
/// done so it asks for what was before. An offset is kept when its switch is pressed,
/// and its switch when the offset is dialled.
pub proof fn law_switches_turn_over(s: Switches, hz: i32)
    ensures
        asked(s, TopBar::Split) == Command::SetSplit(!s.split),
        asked(s, TopBar::SubRx) == Command::SetSubRx(!s.sub_rx),
        asked(s, TopBar::Mute) == Command::SetMute(!s.muted),
        asked(s, TopBar::Record) == Command::SetRecording(!s.recording),
        asked(s, TopBar::NoiseBlanker) == Command::SetNoiseBlanker(!s.noise_blanker),
        asked(s, TopBar::AutoNotch) == Command::SetAutoNotch(!s.auto_notch),
        asked(s, TopBar::Ptt) == Command::SetPtt(!s.ptt),
        asked(s, TopBar::Tune) == Command::SetTune(!s.tune),
        asked(s, TopBar::Rit) matches Command::SetRit { enabled, hz } && enabled == !s.rit && hz
            == s.rit_hz && asked(Switches { rit: enabled, ..s }, TopBar::Rit) == (Command::SetRit {
            enabled: s.rit,
            hz: s.rit_hz,
        }),
        asked(s, TopBar::Xit) matches Command::SetXit { enabled, hz } && enabled == !s.xit && hz
            == s.xit_hz && asked(Switches { xit: enabled, ..s }, TopBar::Xit) == (Command::SetXit {
            enabled: s.xit,
            hz: s.xit_hz,
        }),
        asked(s, TopBar::RitHz(hz)) == (Command::SetRit { enabled: s.rit, hz }),
        asked(s, TopBar::XitHz(hz)) == (Command::SetXit { enabled: s.xit, hz }),
{
}

} // verus!
