//! Network spots: which are shown, how they fade with age, and what a click on
//! one does.
use crate::carried::Place;
use crate::command::{Command, Mode, Vfo};
use crate::frame::in_view;
use crate::logbook::{Logbook, LookupProvider, NetworkConfig, wants_lookup};
use crate::qso::LogEditForm;
use crate::text::trimmed;
use crate::view::ViewState;
use vstd::prelude::*;

verus! {

/// Where a spot comes from.
#[derive(Clone, Copy, Debug, PartialEq, Eq, Structural)]
pub enum SpotKind {
    DxCluster,
    Pota,
    Sota,
    PskReporter,
    FreeDv,
}

/// A station that the network reported.
#[derive(Debug)]
pub struct Spot {
    pub kind: SpotKind,
    pub call: String,
    /// The frequency, in thousandths of a hertz.
    pub freq: i64,
    /// The frequency as a log entry shows it, in megahertz.
    pub freq_mhz: String,
    /// The mode, as the network names it.
    pub mode: String,
    /// The mode that the radio would be put in for it.
    pub radio_mode: Option<Mode>,
    pub when_utc: i64,
    pub grid: Option<String>,
    /// Where the station is, if that is known.
    pub loc: Option<Place>,
    /// A park or a summit.
    pub reference: Option<String>,
    pub comment: String,
}

/// The filters of the spot list.
#[derive(Clone, Copy, Debug, PartialEq, Eq, Structural)]
pub struct SpotFilter {
    pub dx: bool,
    pub pota: bool,
    pub sota: bool,
    pub psk: bool,
    pub freedv: bool,
    /// Only spots inside the panadapter's span.
    pub in_view_only: bool,
}

/// A spot on the panadapter: how far it has faded.
#[derive(Clone, Copy, Debug, PartialEq, Eq, Structural)]
pub struct SpotMark {
    /// The spot, by its place in the list.
    pub spot: usize,
    /// What is left of its light, out of `of`.
    pub left: i128,
    pub of: i128,
}

/// Index of a spot kind in the row of filters.
pub fn spot_kind_index(kind: SpotKind) -> (r: usize)
    ensures
        r == match kind {
            SpotKind::DxCluster => 0int,
            SpotKind::Pota => 1,
            SpotKind::Sota => 2,
            SpotKind::PskReporter => 3,
            SpotKind::FreeDv => 4,
        },
{
    match kind {
        SpotKind::DxCluster => 0,
        SpotKind::Pota => 1,
        SpotKind::Sota => 2,
        SpotKind::PskReporter => 3,
        SpotKind::FreeDv => 4,
    }
}

impl Default for SpotFilter {
    fn default() -> (r: SpotFilter)
        ensures
            r == (SpotFilter {
                dx: true,
                pota: true,
                sota: true,
                psk: true,
                freedv: true,
                in_view_only: false,
            }),
    {
        SpotFilter {
            dx: true,
            pota: true,
            sota: true,
            psk: true,
            freedv: true,
            in_view_only: false,
        }
    }
}

impl SpotFilter {
    /// Whether a kind of spot is shown.
    pub open spec fn shows_kind(&self, kind: SpotKind) -> bool {
        match kind {
            SpotKind::DxCluster => self.dx,
            SpotKind::Pota => self.pota,
            SpotKind::Sota => self.sota,
            SpotKind::PskReporter => self.psk,
            SpotKind::FreeDv => self.freedv,
        }
    }

    /// Whether a spot is shown, with a view on the panadapter.
    pub open spec fn admits(&self, s: Spot, v: ViewState) -> bool {
        self.shows_kind(s.kind) && (self.in_view_only ==> in_view(v, s.freq as int))
    }

    /// Whether a kind of spot is shown.
    pub fn kind_on(&self, kind: SpotKind) -> (r: bool)
        ensures
            r == self.shows_kind(kind),
    {
        match kind {
            SpotKind::DxCluster => self.dx,
            SpotKind::Pota => self.pota,
            SpotKind::Sota => self.sota,
            SpotKind::PskReporter => self.psk,
            SpotKind::FreeDv => self.freedv,
        }
    }

    /// Show or hide a kind of spot.
    pub fn toggle(&mut self, kind: SpotKind)
        ensures
            final(self).in_view_only == old(self).in_view_only,
            forall|k: SpotKind| #[trigger]
                final(self).shows_kind(k) == if k == kind {
                    !old(self).shows_kind(k)
                } else {
                    old(self).shows_kind(k)
                },
    {
        match kind {
            SpotKind::DxCluster => {
                self.dx = !self.dx;
            },
            SpotKind::Pota => {
                self.pota = !self.pota;
            },
            SpotKind::Sota => {
                self.sota = !self.sota;
            },
            SpotKind::PskReporter => {
                self.psk = !self.psk;
            },
            SpotKind::FreeDv => {
                self.freedv = !self.freedv;
            },
        }
    }

    fn takes(&self, s: &Spot, v: &ViewState) -> (r: bool)
        ensures
            r == self.admits(*s, *v),
    {
        self.kind_on(s.kind) && (!self.in_view_only || (v.view_lo <= s.freq && s.freq
            <= v.view_hi))
    }

    /// The spots that the list shows, by their places.
    pub fn listed(&self, spots: &Vec<Spot>, v: &ViewState) -> (r: Vec<usize>)
        ensures
            r@ == listed_spots(*self, spots@, *v, spots@.len() as int),
    {
        let mut out: Vec<usize> = Vec::new();
        let mut i: usize = 0;
        while i < spots.len()
            invariant
                i <= spots@.len(),
                out@ == listed_spots(*self, spots@, *v, i as int),
            decreases spots@.len() - i,
        {
            if self.takes(&spots[i], v) {
                out.push(i);
            }
            i = i + 1;
        }
        out
    }

    /// The dots of the spots on the map, each with its kind, which colours it.
    pub fn map_dots(&self, spots: &Vec<Spot>) -> (r: Vec<(Place, SpotKind)>)
        ensures
            r@ == dots_of(*self, spots@, spots@.len() as int),
    {
        let mut out: Vec<(Place, SpotKind)> = Vec::new();
        let mut i: usize = 0;
        while i < spots.len()
            invariant
                i <= spots@.len(),
                out@ == dots_of(*self, spots@, i as int),
            decreases spots@.len() - i,
        {
            let s = &spots[i];
            if self.kind_on(s.kind) {
                if let Some(p) = s.loc {
                    out.push((p, s.kind));
                }
            }
            i = i + 1;
        }
        out
    }

    /// The spots on the panadapter, and how far each has faded. Newest spots
    /// are solid; they dim over the last quarter of their lifetime.
    pub fn net_overlay(
        &self,
        spots: &Vec<Spot>,
        v: &ViewState,
        max_age_secs: u32,
        now_utc: i64,
    ) -> (r: Vec<SpotMark>)
        ensures
            r@ == spot_marks(
                *self,
                spots@,
                *v,
                lifetime(max_age_secs),
                now_utc as int,
                spots@.len() as int,
            ),
    {
        let max_age: i64 = if max_age_secs > 60 {
            max_age_secs as i64
        } else {
            60
        };
        let mut out: Vec<SpotMark> = Vec::new();
        let mut i: usize = 0;
        while i < spots.len()
            invariant
                i <= spots@.len(),
                max_age == lifetime(max_age_secs),
                60 <= max_age <= 0xffff_ffff,
                out@ == spot_marks(*self, spots@, *v, max_age as int, now_utc as int, i as int),
            decreases spots@.len() - i,
        {
            let s = &spots[i];
            if self.takes(s, v) {
                let age: i128 = now_utc as i128 - s.when_utc as i128;
                let age: i128 = if age > 0 {
                    age
                } else {
                    0
                };
                if age <= max_age as i128 {
                    let of: i128 = 20 * (max_age as i128);
                    let left: i128 = 80 * (max_age as i128 - age);
                    let left: i128 = if left > of {
                        of
                    } else if left < 3 * (max_age as i128) {
                        3 * (max_age as i128)
                    } else {
                        left
                    };
                    out.push(SpotMark { spot: i, left, of });
                }
            }
            i = i + 1;
        }
        out
    }
}

/// The dots of the first `n` spots on the map: those of the kinds that are shown
/// and whose place is known.
pub open spec fn dots_of(f: SpotFilter, spots: Seq<Spot>, n: int) -> Seq<(Place, SpotKind)>
    decreases n,
{
    if n <= 0 {
        seq![]
    } else {
        let rest = dots_of(f, spots, n - 1);
        let s = spots[n - 1];
        match s.loc {
            Some(p) if f.shows_kind(s.kind) => rest.push((p, s.kind)),
            _ => rest,
        }
    }
}

/// The spots that the list shows, of the first `n`.
pub open spec fn listed_spots(f: SpotFilter, spots: Seq<Spot>, v: ViewState, n: int) -> Seq<usize>
    decreases n,
{
    if n <= 0 {
        seq![]
    } else if f.admits(spots[n - 1], v) {
        listed_spots(f, spots, v, n - 1).push((n - 1) as usize)
    } else {
        listed_spots(f, spots, v, n - 1)
    }
}

/// How long a spot is shown, in seconds; at least a minute.
pub open spec fn lifetime(max_age_secs: u32) -> int {
    if max_age_secs > 60 {
        max_age_secs as int
    } else {
        60
    }
}

/// The age of a spot; one from the future is new.
pub open spec fn age_of(s: Spot, now_utc: int) -> int {
    if now_utc > s.when_utc {
        now_utc - s.when_utc
    } else {
        0
    }
}

/// What is left of a spot's light at an age, out of twenty times its lifetime.
/// The last quarter of that is the fade, and what is left is never less than
/// three twentieths.
pub open spec fn light(life: int, age: int) -> int {
    let left = 80 * (life - age);
    if left > 20 * life {
        20 * life
    } else if left < 3 * life {
        3 * life
    } else {
        left
    }
}

/// The marks of the first `n` spots: those shown and not too old.
pub open spec fn spot_marks(
    f: SpotFilter,
    spots: Seq<Spot>,
    v: ViewState,
    life: int,
    now_utc: int,
    n: int,
) -> Seq<SpotMark>
    decreases n,
{
    if n <= 0 {
        seq![]
    } else {
        let rest = spot_marks(f, spots, v, life, now_utc, n - 1);
        let s = spots[n - 1];
        let age = age_of(s, now_utc);
        if f.admits(s, v) && age <= life {
            rest.push(
                SpotMark {
                    spot: (n - 1) as usize,
                    left: light(life, age) as i128,
                    of: (20 * life) as i128,
                },
            )
        } else {
            rest
        }
    }
}

/// A spot is solid for the first three quarters of its lifetime, its light never
/// grows with its age, and it stays readable to the end.
pub proof fn law_spot_fades_in_the_last_quarter(life: int, a: int, b: int)
    requires
        60 <= life,
        0 <= a <= b <= life,
    ensures
        4 * a <= 3 * life ==> light(life, a) == 20 * life,
        light(life, b) <= light(life, a),
        light(life, b) >= 3 * life,
{
}

/// What is shown after a spot's numbers: the park or summit, and the comment.
pub open spec fn info_text(s: Spot) -> Seq<char> {
    match s.reference {
        Some(r) => if s.comment@.len() > 0 {
            r@ + " · "@ + s.comment@
        } else {
            r@
        },
        None => s.comment@,
    }
}

/// How the radio is tuned to a spot: a pitch below it for CW, so that it lands in
/// the CW passband, and in its mode if that is one of the radio's.
pub open spec fn tunes_to(s: Spot, vfo: Vfo, pitch: i64) -> Seq<Command> {
    match s.radio_mode {
        Some(Mode::Cw) => seq![
            Command::Tune { vfo, freq: (s.freq - pitch) as i64 },
            Command::SetMode(Mode::Cw),
        ],
        Some(m) => seq![Command::Tune { vfo, freq: s.freq }, Command::SetMode(m)],
        None => seq![Command::Tune { vfo, freq: s.freq }],
    }
}

impl Spot {
    /// What is shown after a spot's numbers.
    pub fn info(&self) -> (r: String)
        ensures
            r@ == info_text(*self),
    {
        match &self.reference {
            Some(t) => {
                let mut s = t.clone();
                if !self.comment.as_str().is_empty() {
                    s.append(" · ");
                    s.append(self.comment.as_str());
                }
                s
            },
            None => self.comment.clone(),
        }
    }

    /// A click on the spot: what tunes the radio to it.
    pub fn select(&self, vfo: Vfo, pitch: i64) -> (r: Vec<Command>)
        requires
            i64::MIN <= self.freq - pitch <= i64::MAX,
        ensures
            r@ == tunes_to(*self, vfo, pitch),
    {
        let mut out: Vec<Command> = Vec::new();
        let below = match self.radio_mode {
            Some(m) => m == Mode::Cw,
            None => false,
        };
        let freq: i64 = if below {
            self.freq - pitch
        } else {
            self.freq
        };
        out.push(Command::Tune { vfo, freq });
        if let Some(m) = self.radio_mode {
            out.push(Command::SetMode(m));
        }
        assert(out@ =~= tunes_to(*self, vfo, pitch));
        out
    }
}

/// Whether a form is a new entry for a spot.
pub open spec fn prefilled(f: LogEditForm, spot: Spot, now: i64) -> bool {
    &&& f.is_seeded(now, spot.freq_mhz@, spot.mode@)
    &&& f.call@ == spot.call@
    &&& f.grid@ == match spot.grid {
        Some(g) => g@,
        None => Seq::<char>::empty(),
    }
    &&& f.comment@ == spot.comment@
}

impl Logbook {
    /// Whether the log has an entry open that is pre-filled from a spot, and the
    /// call queued for a lookup where that is wanted.
    pub open spec fn opens_entry(
        &self,
        next: &Logbook,
        cfg: NetworkConfig,
        spot: Spot,
        now: i64,
    ) -> bool {
        &&& next.log == self.log
        &&& next.show
        &&& next.net_log == self.net_log
        &&& next.pending_uploads == self.pending_uploads
        &&& next.edit matches Some(form) && prefilled(form, spot, now)
        &&& if wants_lookup(cfg, spot.call@) {
            &&& next.pending_lookups@.len() == self.pending_lookups@.len() + 1
            &&& next.pending_lookups@.drop_last() == self.pending_lookups@
            &&& next.pending_lookups@.last()@ == trimmed(spot.call@)
        } else {
            next.pending_lookups == self.pending_lookups
        }
    }

    /// A click on a spot: tune to it, set its mode, and open a pre-filled log
    /// entry.
    pub fn select_spot(
        &mut self,
        cfg: &NetworkConfig,
        spot: &Spot,
        vfo: Vfo,
        pitch: i64,
        now: i64,
    ) -> (r: Vec<Command>)
        requires
            i64::MIN <= spot.freq - pitch <= i64::MAX,
        ensures
            r@ == tunes_to(*spot, vfo, pitch),
            old(self).opens_entry(final(self), *cfg, *spot, now),
    {
        self.prefill_from_spot(cfg, spot, now);
        spot.select(vfo, pitch)
    }

    /// Open a fresh log entry pre-filled from a clicked spot, and queue a
    /// lookup of its call if auto-lookup is on.
    pub fn prefill_from_spot(&mut self, cfg: &NetworkConfig, spot: &Spot, now: i64)
        ensures
            old(self).opens_entry(final(self), *cfg, *spot, now),
    {
        let mut form = LogEditForm::new_entry(now, spot.freq_mhz.as_str(), spot.mode.as_str());
        form.call = spot.call.clone();
        if let Some(g) = &spot.grid {
            form.grid = g.clone();
        }
        if !spot.comment.as_str().is_empty() {
            form.comment = spot.comment.clone();
        }
        assert(form.comment@ =~= spot.comment@);
        assert(match spot.grid {
            Some(g) => form.grid@ == g@,
            None => form.grid@ =~= Seq::<char>::empty(),
        });
        self.edit = Some(form);
        self.show = true;
        self.queue_lookup(cfg, spot.call.as_str());
    }
}

/// The entities that were worked, as found in a log of some length.
pub struct WorkedEntities {
    /// The length of the log that they were found in.
    pub len: Option<usize>,
    pub names: Vec<String>,
}

impl WorkedEntities {
    /// Whether the names have to be found again: the log has another length.
    pub fn is_stale(&self, log_len: usize) -> (r: bool)
        ensures
            r == (self.len != Some(log_len)),
    {
        match self.len {
            Some(l) => l != log_len,
            None => true,
        }
    }

    /// Take in the entity of each contact of a log.
    pub fn refresh(&mut self, entities: Vec<Option<String>>)
        ensures
            final(self).len == Some(entities@.len() as usize),
            forall|n: Seq<char>|
                names_in(final(self).names@, n) <==> exists|i: int|
                    0 <= i < entities@.len() && (#[trigger] entities@[i]) is Some
                        && entities@[i]->0@ == n,
    {
        let n: usize = entities.len();
        let ghost all = entities@;
        let mut names: Vec<String> = Vec::new();
        let mut i: usize = 0;
        while i < n
            invariant
                i <= n,
                n == all.len(),
                entities@ == all,
                forall|m: Seq<char>|
                    names_in(names@, m) <==> exists|k: int|
                        0 <= k < i && (#[trigger] all[k]) is Some && all[k]->0@ == m,
            decreases n - i,
        {
            let ghost before = names@;
            if let Some(e) = &entities[i] {
                if !has_name(&names, e.as_str()) {
                    let e = e.clone();
                    names.push(e);
                    proof {
                        assert forall|m: Seq<char>|
                            names_in(names@, m) <==> (names_in(before, m) || m == all[i as int]->0@) by {
                            if names_in(before, m) {
                                let k = choose|k: int|
                                    0 <= k < before.len() && (#[trigger] before[k])@ == m;
                                assert(names@[k]@ == m);
                            }
                            if m == all[i as int]->0@ {
                                assert(names@[before.len() as int]@ == m);
                            }
                            if names_in(names@, m) {
                                let k = choose|k: int|
                                    0 <= k < names@.len() && (#[trigger] names@[k])@ == m;
                                if k < before.len() {
                                    assert(before[k]@ == m);
                                }
                            }
                        }
                    }
                }
            }
            proof {
                assert forall|m: Seq<char>|
                    names_in(names@, m) <==> exists|k: int|
                        0 <= k < i + 1 && (#[trigger] all[k]) is Some && all[k]->0@ == m by {
                    if names_in(before, m) {
                        let k = choose|k: int|
                            0 <= k < i && (#[trigger] all[k]) is Some && all[k]->0@ == m;
                        assert(all[k] is Some);
                    }
                    assert(all[i as int] == entities@[i as int]);
                    if exists|k: int|
                        0 <= k < i + 1 && (#[trigger] all[k]) is Some && all[k]->0@ == m {
                        let k = choose|k: int|
                            0 <= k < i + 1 && (#[trigger] all[k]) is Some && all[k]->0@ == m;
                        if k < i {
                            assert(names_in(before, m));
                        }
                    }
                }
            }
            i = i + 1;
        }
        self.len = Some(n);
        self.names = names;
    }

    /// Whether a spot's station would be a new entity; one whose entity is not
    /// known is not.
    pub fn is_needed(&self, entity: &Option<String>) -> (r: bool)
        ensures
            r == match entity {
                Some(e) => !names_in(self.names@, e@),
                None => false,
            },
    {
        match entity {
            Some(e) => !has_name(&self.names, e.as_str()),
            None => false,
        }
    }
}

/// Whether a name is in a list.
pub open spec fn names_in(v: Seq<String>, n: Seq<char>) -> bool {
    exists|i: int| 0 <= i < v.len() && (#[trigger] v[i])@ == n
}

fn has_name(v: &Vec<String>, n: &str) -> (r: bool)
    ensures
        r == names_in(v@, n@),
{
    let wanted = n.to_owned();
    let mut i: usize = 0;
    while i < v.len()
        invariant
            wanted@ == n@,
            i <= v@.len(),
            forall|k: int| 0 <= k < i ==> (#[trigger] v@[k])@ != n@,
        decreases v@.len() - i,
    {
        if v[i] == wanted {
            assert(v@[i as int]@ == n@);
            return true;
        }
        i = i + 1;
    }
    false
}

/// The list shows a spot just where its kind is on and, with the list narrowed to
/// the panadapter, its frequency is on it. The spots stand in the order in which
/// they came.
pub proof fn law_list_shows_what_the_filters_let_through(
    f: SpotFilter,
    spots: Seq<Spot>,
    v: ViewState,
    n: int,
)
    requires
        0 <= n <= spots.len() <= usize::MAX,
    ensures
        ({
            let r = listed_spots(f, spots, v, n);
            &&& forall|k: int| 0 <= k < r.len() ==> 0 <= (#[trigger] r[k]) < n
            &&& forall|k: int, l: int| 0 <= k < l < r.len() ==> (#[trigger] r[k]) < (#[trigger] r[l])
            &&& forall|i: int|
                0 <= i < n ==> (r.contains(i as usize) <==> f.shows_kind((#[trigger] spots[i]).kind)
                    && (f.in_view_only ==> v.view_lo <= spots[i].freq <= v.view_hi))
        }),
    decreases n,
{
    if n > 0 {
        law_list_shows_what_the_filters_let_through(f, spots, v, n - 1);
        let rest = listed_spots(f, spots, v, n - 1);
        let r = listed_spots(f, spots, v, n);
        assert forall|i: int| 0 <= i < n implies (r.contains(i as usize) <==> f.shows_kind(
            (#[trigger] spots[i]).kind,
        ) && (f.in_view_only ==> v.view_lo <= spots[i].freq <= v.view_hi)) by {
            if i < n - 1 {
                if rest.contains(i as usize) {
                    let k = choose|k: int| 0 <= k < rest.len() && rest[k] == i as usize;
                    assert(r[k] == i as usize);
                }
                if r.contains(i as usize) {
                    let k = choose|k: int| 0 <= k < r.len() && r[k] == i as usize;
                    assert(k < rest.len() && rest[k] == i as usize);
                }
            } else {
                if f.admits(spots[i], v) {
                    assert(r[r.len() - 1] == i as usize);
                }
                if rest.contains(i as usize) {
                    let k = choose|k: int| 0 <= k < rest.len() && rest[k] == i as usize;
                    assert(rest[k] < n - 1);
                }
            }
        }
    }
}

/// Whether a spot is marked on the panadapter with some light.
pub open spec fn marked_with(marks: Seq<SpotMark>, i: int, left: int, of: int) -> bool {
    exists|k: int|
        0 <= k < marks.len() && (#[trigger] marks[k]).spot == i && marks[k].left == left
            && marks[k].of == of
}

/// The marks of the first spots are of those.
proof fn lemma_marks_in_front(
    f: SpotFilter,
    spots: Seq<Spot>,
    v: ViewState,
    life: int,
    now_utc: int,
    n: int,
)
    requires
        n <= spots.len() <= usize::MAX,
    ensures
        forall|k: int|
            0 <= k < spot_marks(f, spots, v, life, now_utc, n).len() ==> (#[trigger] spot_marks(
                f,
                spots,
                v,
                life,
                now_utc,
                n,
            )[k]).spot < n,
    decreases n,
{
    if n > 0 {
        lemma_marks_in_front(f, spots, v, life, now_utc, n - 1);
        let all = spot_marks(f, spots, v, life, now_utc, n);
        let rest = spot_marks(f, spots, v, life, now_utc, n - 1);
        assert forall|k: int| 0 <= k < all.len() implies (#[trigger] all[k]).spot < n by {
            if k < rest.len() {
                assert(all[k] == rest[k]);
            }
        }
    }
}

/// The panadapter marks the spots that the list shows and that are no older than
/// the age that is set, or a minute where that is less. One is solid for three
/// quarters of that time and dims evenly afterwards, to no less than three
/// twentieths; one stamped ahead of the clock is new.
pub proof fn law_marks_dim_with_age(
    f: SpotFilter,
    spots: Seq<Spot>,
    v: ViewState,
    max_age_secs: u32,
    now_utc: int,
    n: int,
    i: int,
)
    requires
        0 <= i < n <= spots.len() <= usize::MAX,
        -0x8000_0000_0000_0000 <= now_utc <= 0x7fff_ffff_ffff_ffff,
    ensures
        ({
            let marks = spot_marks(f, spots, v, lifetime(max_age_secs), now_utc, n);
            let life = if max_age_secs < 60 {
                60
            } else {
                max_age_secs as int
            };
            let since = now_utc - spots[i].when_utc;
            let listed = f.shows_kind(spots[i].kind) && (f.in_view_only ==> v.view_lo
                <= spots[i].freq <= v.view_hi);
            &&& listed && 4 * since <= 3 * life ==> marked_with(marks, i, 20 * life, 20 * life)
            &&& listed && 3 * life <= 4 * since && 80 * since <= 77 * life ==> marked_with(
                marks,
                i,
                80 * (life - since),
                20 * life,
            )
            &&& listed && 80 * since >= 77 * life && since <= life ==> marked_with(
                marks,
                i,
                3 * life,
                20 * life,
            )
            &&& !listed || since > life ==> forall|k: int|
                0 <= k < marks.len() ==> (#[trigger] marks[k]).spot != i
        }),
    decreases n,
{
    let life = lifetime(max_age_secs);
    let all = spot_marks(f, spots, v, life, now_utc, n);
    let rest = spot_marks(f, spots, v, life, now_utc, n - 1);
    let age = age_of(spots[i], now_utc);
    lemma_marks_in_front(f, spots, v, life, now_utc, n - 1);
    if i < n - 1 {
        law_marks_dim_with_age(f, spots, v, max_age_secs, now_utc, n - 1, i);
        if f.admits(spots[i], v) && age <= life {
            let k = choose|k: int|
                0 <= k < rest.len() && (#[trigger] rest[k]).spot == i && rest[k].left == light(
                    life,
                    age,
                ) && rest[k].of == 20 * life;
            assert(all[k] == rest[k]);
        } else {
            assert forall|k: int| 0 <= k < all.len() implies (#[trigger] all[k]).spot != i by {
                if k < rest.len() {
                    assert(all[k] == rest[k]);
                }
            }
        }
    } else if f.admits(spots[i], v) && age <= life {
        assert(all[all.len() - 1].spot == i);
    }
}

/// A click on a spot puts the radio where the station is heard: on its frequency,
/// or for CW a pitch below it, so that it sounds at the pitch. It is put in the
/// station's mode, if that is one of the radio's, and nothing else is asked for.
pub proof fn law_click_tunes_to_the_station(s: Spot, vfo: Vfo, pitch: i64)
    requires
        i64::MIN <= s.freq - pitch <= i64::MAX,
    ensures
        ({
            let r = tunes_to(s, vfo, pitch);
            let offset = if s.radio_mode == Some(Mode::Cw) {
                pitch as int
            } else {
                0
            };
            &&& r[0] matches Command::Tune { vfo: to, freq } && to == vfo && freq + offset == s.freq
            &&& r.len() == if s.radio_mode is Some {
                2int
            } else {
                1
            }
            &&& s.radio_mode matches Some(m) ==> r[1] == Command::SetMode(m)
        }),
{
}

/// The map has a dot for each spot of a kind that is shown whose place is known, in
/// the colour of its kind, and for no other; where the panadapter is does not matter.
pub proof fn law_map_shows_the_places(f: SpotFilter, spots: Seq<Spot>, n: int)
    requires
        0 <= n < spots.len(),
    ensures
        dots_of(f, spots, 0) == Seq::<(Place, SpotKind)>::empty(),
        spots[n].loc is Some && f.shows_kind(spots[n].kind) ==> dots_of(f, spots, n + 1) == dots_of(
            f,
            spots,
            n,
        ).push((spots[n].loc->0, spots[n].kind)),
        spots[n].loc is None || !f.shows_kind(spots[n].kind) ==> dots_of(f, spots, n + 1) == dots_of(
            f,
            spots,
            n,
        ),
        f.shows_kind(SpotKind::DxCluster) == f.dx && f.shows_kind(SpotKind::Pota) == f.pota,
        f.shows_kind(SpotKind::Sota) == f.sota && f.shows_kind(SpotKind::PskReporter) == f.psk,
        f.shows_kind(SpotKind::FreeDv) == f.freedv,
{
}

/// A click on a spot opens a new entry with what the spot says: its call, frequency,
/// mode, comment and, where it has one, its grid, at the present moment. The log, and
/// what is queued for upload, stay; the call is looked up where that is configured.
pub proof fn law_spot_fills_the_entry(
    before: Logbook,
    after: Logbook,
    cfg: NetworkConfig,
    spot: Spot,
    now: i64,
)
    requires
        before.opens_entry(&after, cfg, spot, now),
    ensures
        after.show,
        after.edit matches Some(f) && f.id == 0 && f.seed_utc == now && f.call@ == spot.call@
            && f.freq_mhz@ == spot.freq_mhz@ && f.mode@ == spot.mode@ && f.comment@ == spot.comment@
            && f.grid@.len() == (match spot.grid {
            Some(g) => g@.len(),
            None => 0,
        }) && (spot.grid is Some ==> f.grid@ == spot.grid->0@),
        after.log == before.log && after.pending_uploads == before.pending_uploads,
        after.net_log == before.net_log,
        ({
            let looks = trimmed(spot.call@).len() > 0 && cfg.auto_lookup && cfg.lookup_provider
                != LookupProvider::Off;
            &&& looks ==> after.pending_lookups@.drop_last() == before.pending_lookups@
                && after.pending_lookups@.last()@ == trimmed(spot.call@)
            &&& !looks ==> after.pending_lookups == before.pending_lookups
        }),
{
}

/// Behind a spot's numbers stand its park or summit and its comment, with a dot
/// between them only where there are both.
pub proof fn law_spots_show_reference_and_comment(s: Spot)
    ensures
        s.reference is None ==> info_text(s) == s.comment@,
        s.reference matches Some(r) ==> s.comment@.len() == 0 ==> info_text(s) == r@,
        s.reference matches Some(r) ==> s.comment@.len() > 0 ==> info_text(s) == r@ + " · "@
            + s.comment@,
{
}

} // verus!
