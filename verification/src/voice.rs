//! The voice keyer: which of its buttons work, what they say, and what they ask
//! for.
//!
//! Everything that the window shows comes from the engine, which owns the
//! recordings and the transmitter. The buttons only ever send requests.
use crate::command::Command;
use crate::text::{decimal, fmt_u64, is_blank, trim, trimmed};
use vstd::prelude::*;

verus! {

/// What the keyer is doing, by the slots that it does it with.
#[derive(Clone, Copy, Debug, PartialEq, Eq, Structural)]
pub struct VoiceStatus {
    pub recording: Option<u8>,
    /// The message that is on the air.
    pub playing: Option<u8>,
    /// The message that is played locally.
    pub previewing: Option<u8>,
}

/// What the transmitter is doing.
#[derive(Clone, Copy, Debug, PartialEq, Eq, Structural)]
pub struct TxState {
    pub ptt: bool,
    pub tune: bool,
}

/// What the length column of a row shows.
#[derive(Clone, Copy, Debug, PartialEq, Eq, Structural)]
pub enum LengthCell {
    /// The position in the recording being made.
    Recording,
    /// The position in the message on the air, and its length.
    Playing,
    /// The position in the message played locally, and its length.
    Previewing,
    /// Nothing is recorded.
    Empty,
    /// The length of the message.
    Length,
}

/// The buttons of one slot.
#[derive(Clone, Copy, Debug, PartialEq, Eq, Structural)]
pub struct VoiceRow {
    pub recording: bool,
    pub playing: bool,
    pub previewing: bool,
    /// Whether REC works.
    pub can_record: bool,
    /// Whether PLAY, or STOP in its place, works.
    pub can_preview: bool,
    /// Whether TX, or STOP in its place, works.
    pub can_play: bool,
    /// Whether DEL works.
    pub can_erase: bool,
    pub length: LengthCell,
}

/// Whether a slot is the one that something is done with.
pub open spec fn is_at(what: Option<u8>, slot: u8) -> bool {
    what == Some(slot)
}

fn at(what: Option<u8>, slot: u8) -> (r: bool)
    ensures
        r == is_at(what, slot),
{
    match what {
        Some(s) => s == slot,
        None => false,
    }
}

/// The buttons of a slot.
///
/// Recording uses the microphone, so it needs the transmitter, the keyer and
/// the local playback to be idle. Listening needs a recording and a quiet
/// transmitter. Transmitting needs a recording, and neither a recording being
/// made nor TUNE. Whatever runs can be stopped, and nothing that runs erased.
pub open spec fn row_of(v: VoiceStatus, tx: TxState, slot: u8, empty: bool) -> VoiceRow {
    let rec = is_at(v.recording, slot);
    let play = is_at(v.playing, slot);
    let prev = is_at(v.previewing, slot);
    VoiceRow {
        recording: rec,
        playing: play,
        previewing: prev,
        can_record: !((v.recording is Some && !rec) || v.playing is Some || v.previewing is Some
            || tx.ptt || tx.tune),
        can_preview: prev || (!empty && v.recording is None && !tx.ptt && !tx.tune
            && v.previewing is None),
        can_play: play || (!empty && v.recording is None && !tx.tune && v.playing is None),
        can_erase: !empty && !rec && !play && !prev,
        length: if rec {
            LengthCell::Recording
        } else if play {
            LengthCell::Playing
        } else if prev {
            LengthCell::Previewing
        } else if empty {
            LengthCell::Empty
        } else {
            LengthCell::Length
        },
    }
}

/// The buttons of a slot.
pub fn voice_row(v: &VoiceStatus, tx: &TxState, slot: u8, empty: bool) -> (r: VoiceRow)
    ensures
        r == row_of(*v, *tx, slot, empty),
{
    let recording = at(v.recording, slot);
    let playing = at(v.playing, slot);
    let previewing = at(v.previewing, slot);
    let busy_elsewhere = (v.recording.is_some() && !recording) || v.playing.is_some()
        || v.previewing.is_some() || tx.ptt || tx.tune;
    let length = if recording {
        LengthCell::Recording
    } else if playing {
        LengthCell::Playing
    } else if previewing {
        LengthCell::Previewing
    } else if empty {
        LengthCell::Empty
    } else {
        LengthCell::Length
    };
    VoiceRow {
        recording,
        playing,
        previewing,
        can_record: !busy_elsewhere,
        can_preview: previewing || (!empty && v.recording.is_none() && !tx.ptt && !tx.tune
            && v.previewing.is_none()),
        can_play: playing || (!empty && v.recording.is_none() && !tx.tune && v.playing.is_none()),
        can_erase: !empty && !recording && !playing && !previewing,
        length,
    }
}

/// Nothing new is put on the air, recorded or played while a slot is being
/// recorded, except to stop it, and nothing is recorded while anything is sent
/// or heard.
pub proof fn law_recording_is_exclusive(v: VoiceStatus, tx: TxState, slot: u8, empty: bool)
    ensures
        v.recording is Some && !is_at(v.recording, slot) ==> !row_of(
            v,
            tx,
            slot,
            empty,
        ).can_record,
        v.recording is Some && row_of(v, tx, slot, empty).can_play ==> is_at(v.playing, slot),
        v.recording is Some && row_of(v, tx, slot, empty).can_preview ==> is_at(
            v.previewing,
            slot,
        ),
        v.playing is Some || v.previewing is Some || tx.ptt || tx.tune ==> !row_of(
            v,
            tx,
            slot,
            empty,
        ).can_record,
{
}

/// An empty slot can be neither played, nor transmitted, nor erased.
pub proof fn law_empty_slot_does_nothing(v: VoiceStatus, tx: TxState, slot: u8)
    requires
        !is_at(v.playing, slot),
        !is_at(v.previewing, slot),
    ensures
        !row_of(v, tx, slot, true).can_play,
        !row_of(v, tx, slot, true).can_preview,
        !row_of(v, tx, slot, true).can_erase,
{
}

/// The REC button: stop and store what is being recorded, else record.
pub fn press_record(row: &VoiceRow, slot: u8) -> (r: Command)
    ensures
        r == Command::VoiceRecord(
            if row.recording {
                None
            } else {
                Some(slot)
            },
        ),
{
    if row.recording {
        Command::VoiceRecord(None)
    } else {
        Command::VoiceRecord(Some(slot))
    }
}

/// The PLAY button: stop listening, else listen.
pub fn press_preview(row: &VoiceRow, slot: u8) -> (r: Command)
    ensures
        r == Command::VoicePreview(
            if row.previewing {
                None
            } else {
                Some(slot)
            },
        ),
{
    if row.previewing {
        Command::VoicePreview(None)
    } else {
        Command::VoicePreview(Some(slot))
    }
}

/// The TX button: stop transmitting, else transmit.
pub fn press_play(row: &VoiceRow, slot: u8) -> (r: Command)
    ensures
        r == Command::VoicePlay(
            if row.playing {
                None
            } else {
                Some(slot)
            },
        ),
{
    if row.playing {
        Command::VoicePlay(None)
    } else {
        Command::VoicePlay(Some(slot))
    }
}

/// What the tip of the PLAY button says.
pub fn preview_tip(row: &VoiceRow, tx: &TxState, empty: bool) -> (r: &'static str)
    ensures
        r@ == if row.previewing {
            "Stop listening"@
        } else if empty {
            "Nothing recorded in this slot"@
        } else if tx.ptt || tx.tune {
            "Not while transmitting"@
        } else {
            "Listen to this message — nothing is transmitted"@
        },
{
    if row.previewing {
        "Stop listening"
    } else if empty {
        "Nothing recorded in this slot"
    } else if tx.ptt || tx.tune {
        "Not while transmitting"
    } else {
        "Listen to this message — nothing is transmitted"
    }
}

/// What the tip of the TX button says.
pub fn play_tip(row: &VoiceRow, tx: &TxState, empty: bool) -> (r: &'static str)
    ensures
        r@ == if row.playing {
            "Stop transmitting"@
        } else if empty {
            "Nothing recorded in this slot"@
        } else if tx.tune {
            "TUNE is active — switch it off first"@
        } else {
            "Transmit this message"@
        },
{
    if row.playing {
        "Stop transmitting"
    } else if empty {
        "Nothing recorded in this slot"
    } else if tx.tune {
        "TUNE is active — switch it off first"
    } else {
        "Transmit this message"
    }
}

impl VoiceStatus {
    /// Whether anything is running, so that the position has to be redrawn.
    pub fn busy(&self) -> (r: bool)
        ensures
            r == (self.recording is Some || self.playing is Some || self.previewing is Some),
    {
        self.recording.is_some() || self.playing.is_some() || self.previewing.is_some()
    }
}

/// The window, and the slot label being typed into: only the row with the focus
/// is the operator's, the others show the engine's names.
#[derive(Debug)]
pub struct VoiceWindow {
    pub show: bool,
    pub editing: Option<(usize, String)>,
}

impl VoiceWindow {
    /// Whether the window stays open in a mode: one without the keyer closes
    /// it.
    pub fn visible(&mut self, allows_keyer: bool) -> (r: bool)
        ensures
            r == allows_keyer,
            final(self).show == (old(self).show && allows_keyer),
            final(self).editing == old(self).editing,
    {
        if !allows_keyer {
            self.show = false;
        }
        allows_keyer
    }

    /// The name that a row shows.
    pub fn name_of(&self, slot: usize, stored: &str) -> (r: String)
        ensures
            r@ == match self.editing {
                Some(e) => if e.0 == slot {
                    e.1@
                } else {
                    stored@
                },
                None => stored@,
            },
    {
        if let Some(e) = &self.editing {
            if e.0 == slot {
                return e.1.clone();
            }
        }
        stored.to_owned()
    }

    /// The operator typed a name.
    pub fn name_changed(&mut self, slot: usize, text: &str)
        ensures
            final(self).show == old(self).show,
            final(self).editing matches Some(e) && e.0 == slot && e.1@ == text@,
    {
        self.editing = Some((slot, text.to_owned()));
    }

    /// A row lost the focus: the name typed into it is stored.
    pub fn name_left(&mut self, slot: usize) -> (r: Option<Command>)
        requires
            slot <= u8::MAX,
        ensures
            final(self).show == old(self).show,
            final(self).editing is None,
            match old(self).editing {
                Some(e) => if e.0 == slot {
                    r == Some(Command::VoiceRename { slot: slot as u8, name: e.1 })
                } else {
                    r is None
                },
                None => r is None,
            },
    {
        match self.editing.take() {
            Some(e) => {
                if e.0 == slot {
                    Some(Command::VoiceRename { slot: slot as u8, name: e.1 })
                } else {
                    None
                }
            },
            None => None,
        }
    }
}

/// What an empty name field of a slot hints.
pub fn slot_hint(slot: usize) -> (r: String)
    requires
        slot < usize::MAX,
    ensures
        r@ == "Slot "@ + decimal((slot + 1) as nat),
{
    let mut s = "Slot ".to_owned();
    s.append(fmt_u64((slot + 1) as u64).as_str());
    s
}

/// Store the current frequency and mode under the name that was typed, and
/// empty the entry; without a name nothing is stored.
pub fn store_memory(name: &mut String) -> (r: Option<Command>)
    ensures
        if trimmed(old(name)@).len() > 0 {
            &&& r matches Some(Command::StoreMemory(n)) && n@ == trimmed(old(name)@)
            &&& final(name)@.len() == 0
        } else {
            &&& r is None
            &&& *final(name) == *old(name)
        },
{
    if is_blank(name.as_str()) {
        return None;
    }
    let n = trim(name.as_str());
    *name = String::new();
    Some(Command::StoreMemory(n))
}

/// What is idle can be used: with the keyer and the transmitter at rest every slot can
/// be recorded, and one that holds a message can be heard, sent and erased. What runs
/// can always be stopped.
pub proof fn law_idle_keyer_can_be_used(v: VoiceStatus, tx: TxState, slot: u8, empty: bool)
    ensures
        v.recording is None && v.playing is None && v.previewing is None && !tx.ptt && !tx.tune
            ==> {
            let r = row_of(v, tx, slot, empty);
            r.can_record && r.can_preview == !empty && r.can_play == !empty && r.can_erase == !empty
        },
        v.playing == Some(slot) ==> row_of(v, tx, slot, empty).can_play,
        v.previewing == Some(slot) ==> row_of(v, tx, slot, empty).can_preview,
        v.recording == Some(slot) && v.playing is None && v.previewing is None && !tx.ptt && !tx.tune
            ==> row_of(v, tx, slot, empty).can_record,
        v.recording == Some(slot) || v.playing == Some(slot) || v.previewing == Some(slot)
            ==> !row_of(v, tx, slot, empty).can_erase,
{
}

/// Nothing is sent over a tune or another message, and nothing is played to the
/// operator while the transmitter is on or another message plays.
pub proof fn law_one_message_at_a_time(v: VoiceStatus, tx: TxState, slot: u8, empty: bool)
    ensures
        v.playing != Some(slot) && (tx.tune || v.playing is Some) ==> !row_of(
            v,
            tx,
            slot,
            empty,
        ).can_play,
        v.previewing != Some(slot) && (tx.tune || tx.ptt || v.previewing is Some) ==> !row_of(
            v,
            tx,
            slot,
            empty,
        ).can_preview,
        !tx.tune && v.playing is None && v.recording is None && !empty ==> row_of(
            v,
            tx,
            slot,
            empty,
        ).can_play,
{
}

} // verus!
