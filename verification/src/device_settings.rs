//! The tabs of the settings dialog: which parts they show, and what their lines
//! say.
use crate::carried::Double;
use crate::settings::{Backend, Bindings, StatusTone};
use crate::text::{decimal, fmt_u64};
use vstd::prelude::*;

verus! {

/// What the radio tab shows below the choice of the interface.
#[derive(Clone, Copy, Debug, PartialEq, Eq, Structural)]
pub enum RadioTab {
    /// There is no radio configuration here.
    NativeOnly,
    /// The device's gains and antenna.
    Device,
    Hpsdr,
    Cat,
    Tci,
    Icom,
    Flex,
    /// An interface has to be chosen first.
    PickOne,
}

/// What the radio tab shows for an interface.
pub fn radio_tab(backend: Option<Backend>) -> (r: RadioTab)
    ensures
        r == match backend {
            None => RadioTab::NativeOnly,
            Some(Backend::Soapy) => RadioTab::Device,
            Some(Backend::Hpsdr) => RadioTab::Hpsdr,
            Some(Backend::Cat) => RadioTab::Cat,
            Some(Backend::Tci) => RadioTab::Tci,
            Some(Backend::Icom) => RadioTab::Icom,
            Some(Backend::Flex) => RadioTab::Flex,
            Some(Backend::Auto) => RadioTab::PickOne,
        },
{
    match backend {
        None => RadioTab::NativeOnly,
        Some(Backend::Soapy) => RadioTab::Device,
        Some(Backend::Hpsdr) => RadioTab::Hpsdr,
        Some(Backend::Cat) => RadioTab::Cat,
        Some(Backend::Tci) => RadioTab::Tci,
        Some(Backend::Icom) => RadioTab::Icom,
        Some(Backend::Flex) => RadioTab::Flex,
        Some(Backend::Auto) => RadioTab::PickOne,
    }
}

/// Whether the radio's own sound card is offered: only the CAT interface uses
/// one, and the devices have to be known.
pub fn radio_audio_shown(backend: Option<Backend>, devices_known: bool) -> (r: bool)
    ensures
        r == (backend == Some(Backend::Cat) && devices_known),
{
    let cat = match backend {
        Some(b) => b == Backend::Cat,
        None => false,
    };
    cat && devices_known
}

/// A name that was picked, or a hint that none was.
pub fn shown_or(picked: &str, hint: &str) -> (r: String)
    ensures
        r@ == if picked@.len() == 0 {
            hint@
        } else {
            picked@
        },
{
    if picked.is_empty() {
        hint.to_owned()
    } else {
        picked.to_owned()
    }
}

/// A gain stage of a device.
#[derive(Debug)]
pub struct GainStage {
    pub name: String,
    pub transmits: bool,
    pub min_db: Double,
}

/// A gain as it is set.
#[derive(Debug)]
pub struct Gain {
    pub name: String,
    pub db: Double,
}

/// The gain of a stage: as it is set first, or the least.
pub open spec fn gain_in(gains: Seq<Gain>, stage: GainStage, n: int) -> Double
    decreases gains.len() - n,
{
    if n < 0 || n >= gains.len() {
        stage.min_db
    } else if gains[n].name@ == stage.name@ {
        gains[n].db
    } else {
        gain_in(gains, stage, n + 1)
    }
}

/// The gain of a stage.
pub fn gain_of(gains: &Vec<Gain>, stage: &GainStage) -> (r: Double)
    ensures
        r == gain_in(gains@, *stage, 0),
{
    let mut i: usize = 0;
    while i < gains.len()
        invariant
            i <= gains@.len(),
            gain_in(gains@, *stage, 0) == gain_in(gains@, *stage, i as int),
        decreases gains@.len() - i,
    {
        if crate::text::same(gains[i].name.as_str(), stage.name.as_str()) {
            return gains[i].db;
        }
        i = i + 1;
    }
    stage.min_db
}

/// Whether a device has a gain stage in a direction.
pub fn has_stage(stages: &Vec<GainStage>, transmits: bool) -> (r: bool)
    ensures
        r == exists|i: int| 0 <= i < stages@.len() && (#[trigger] stages@[i]).transmits == transmits,
{
    let mut i: usize = 0;
    while i < stages.len()
        invariant
            i <= stages@.len(),
            forall|j: int| 0 <= j < i ==> (#[trigger] stages@[j]).transmits != transmits,
        decreases stages@.len() - i,
    {
        if stages[i].transmits == transmits {
            return true;
        }
        i = i + 1;
    }
    false
}

/// The line under a connection test.
pub fn test_line(result: &Option<Result<String, String>>) -> (r: Option<(StatusTone, String)>)
    ensures
        match (*result, r) {
            (Some(Ok(s)), Some(l)) => l.0 == StatusTone::Good && l.1@ == "Connected: "@ + s@,
            (Some(Err(e)), Some(l)) => l.0 == StatusTone::Bad && l.1@ == "Failed: "@ + e@,
            (None, None) => true,
            _ => false,
        },
{
    match result {
        Some(Ok(s)) => {
            let mut t = "Connected: ".to_owned();
            t.append(s.as_str());
            Some((StatusTone::Good, t))
        },
        Some(Err(e)) => {
            let mut t = "Failed: ".to_owned();
            t.append(e.as_str());
            Some((StatusTone::Bad, t))
        },
        None => None,
    }
}

/// Whether a server is warned about: its protocol knows no passwords, and it
/// listens to the whole network.
pub fn warns_of_exposure(enabled: bool, open_to_network: bool) -> (r: bool)
    ensures
        r == (enabled && open_to_network),
{
    enabled && open_to_network
}

/// What an address to listen on is called.
pub fn bind_label(bind: &str) -> (r: &'static str)
    ensures
        r@ == if bind@ == "127.0.0.1"@ {
            "127.0.0.1 (this machine)"@
        } else {
            "0.0.0.0 (whole network)"@
        },
{
    if crate::text::same(bind, "127.0.0.1") {
        "127.0.0.1 (this machine)"
    } else {
        "0.0.0.0 (whole network)"
    }
}

/// What the FreeDV tab says of the reported station.
#[derive(Debug)]
pub enum Reporting {
    Nothing,
    /// The callsign or the grid is missing: the connection is for viewing only.
    ViewOnly,
    /// The station under which is reported.
    As(String),
}

/// What the FreeDV tab says of the reported station, given the program's version.
pub fn reporting(enabled: bool, seeded: bool, call: &str, grid: &str, version: &str) -> (r:
    Reporting)
    ensures
        match r {
            Reporting::Nothing => !enabled || !seeded,
            Reporting::ViewOnly => enabled && seeded && (call@.len() == 0 || grid@.len() == 0),
            Reporting::As(t) => {
                &&& enabled && seeded && call@.len() > 0 && grid@.len() > 0
                &&& t@ == "Reporting as "@ + call@ + " / "@ + grid@ + " — SDRoxide "@ + version@
            },
        },
{
    if !enabled || !seeded {
        return Reporting::Nothing;
    }
    if call.is_empty() || grid.is_empty() {
        return Reporting::ViewOnly;
    }
    let mut t = "Reporting as ".to_owned();
    t.append(call);
    t.append(" / ");
    t.append(grid);
    t.append(" — SDRoxide ");
    t.append(version);
    Reporting::As(t)
}

/// What is known of the MIDI connection.
#[derive(Debug)]
pub struct MidiStatus {
    pub connected: bool,
    pub port: String,
    pub error: Option<String>,
}

/// The line about the MIDI connection.
pub fn midi_line(s: &MidiStatus) -> (r: (StatusTone, String))
    ensures
        if s.connected {
            r.0 == StatusTone::Good && r.1@ == "● "@ + s.port@
        } else {
            match s.error {
                Some(e) => r.0 == StatusTone::Bad && r.1@ == e@,
                None => r.0 == StatusTone::Plain && r.1@ == "Not connected."@,
            }
        },
{
    if s.connected {
        let mut t = "● ".to_owned();
        t.append(s.port.as_str());
        return (StatusTone::Good, t);
    }
    match &s.error {
        Some(e) => (StatusTone::Bad, e.clone()),
        None => (StatusTone::Plain, "Not connected.".to_owned()),
    }
}

/// The line that names the control that moved last, which is what makes an
/// unlabelled one bindable.
pub fn last_midi_line(last: Option<(&str, u8)>) -> (r: String)
    ensures
        match last {
            Some(m) => r@ == "Last message: "@ + m.0@ + "  value "@ + decimal(m.1 as nat),
            None => r@ == "Move a control to see it here."@,
        },
{
    match last {
        Some((label, value)) => {
            let mut t = "Last message: ".to_owned();
            t.append(label);
            t.append("  value ");
            t.append(fmt_u64(value as u64).as_str());
            t
        },
        None => "Move a control to see it here.".to_owned(),
    }
}

/// A key that is bound to an action.
#[derive(Debug)]
pub struct KeyBinding {
    pub chord: String,
    /// The action, by its place in the list.
    pub action: u32,
    /// How far a press moves, and whether downwards.
    pub step: Double,
    pub down: bool,
    pub enabled: bool,
}

impl KeyBinding {
    /// Pick an action. Another one starts out with its own step.
    pub fn pick(&mut self, action: u32, default_step: Double)
        ensures
            final(self).action == action,
            final(self).step == default_step,
            final(self).chord == old(self).chord,
            final(self).down == old(self).down,
            final(self).enabled == old(self).enabled,
    {
        self.action = action;
        self.step = default_step;
    }
}

/// Whether any key is bound to an action.
pub open spec fn bound(rows: Seq<KeyBinding>, action: u32) -> bool {
    exists|i: int| 0 <= i < rows.len() && (#[trigger] rows[i]).action == action
}

impl Bindings<KeyBinding> {
    /// Whether holding a key to talk is offered as one click: no key does so yet.
    pub fn offers(&self, action: u32) -> (r: bool)
        ensures
            r == !bound(self.rows@, action),
    {
        let mut i: usize = 0;
        while i < self.rows.len()
            invariant
                i <= self.rows@.len(),
                forall|j: int| 0 <= j < i ==> (#[trigger] self.rows@[j]).action != action,
            decreases self.rows@.len() - i,
        {
            if self.rows[i].action == action {
                assert(self.rows@[i as int].action == action);
                return false;
            }
            i = i + 1;
        }
        true
    }

    /// Bind an action to a key, if none has it. No row waits for a key on that
    /// account.
    pub fn bind(&mut self, row: KeyBinding)
        ensures
            final(self).capture == old(self).capture,
            bound(final(self).rows@, row.action),
            if bound(old(self).rows@, row.action) {
                final(self).rows == old(self).rows
            } else {
                final(self).rows@ == old(self).rows@.push(row)
            },
    {
        if self.offers(row.action) {
            let ghost n = self.rows@.len() as int;
            self.rows.push(row);
            assert(self.rows@[n] == row);
        }
    }
}

/// An Icom model: its name and the address it has unless it was changed.
#[derive(Debug)]
pub struct IcomRadio {
    pub model: String,
    pub civ_address: u8,
}

impl IcomRadio {
    /// Pick a model. The address goes with it, and can be changed afterwards.
    pub fn pick(&mut self, model: &str, address: u8)
        ensures
            final(self).model@ == model@,
            final(self).civ_address == address,
    {
        self.model = model.to_owned();
        self.civ_address = address;
    }

    /// An address was typed; what is no byte leaves it as it is.
    pub fn type_address(&mut self, text: &str)
        ensures
            final(self).model == old(self).model,
            final(self).civ_address == match crate::settings::hex_byte(text@) {
                Some(v) => v as u8,
                None => old(self).civ_address,
            },
    {
        if let Some(v) = crate::settings::parse_hex_byte(text) {
            self.civ_address = v;
        }
    }
}

/// The gain of a stage is what was set first for its name, or its least where nothing
/// was.
pub proof fn law_first_gain_of_a_stage_counts(gains: Seq<Gain>, stage: GainStage, n: int, i: int)
    requires
        0 <= n <= i <= gains.len(),
        forall|k: int| n <= k < i ==> (#[trigger] gains[k]).name@ != stage.name@,
    ensures
        i < gains.len() && gains[i].name@ == stage.name@ ==> gain_in(gains, stage, n) == gains[i].db,
        i == gains.len() ==> gain_in(gains, stage, n) == stage.min_db,
    decreases i - n,
{
    if n < i {
        law_first_gain_of_a_stage_counts(gains, stage, n + 1, i);
    }
}

} // verus!
