//! The panel of the RADE digital voice mode: whether the far end is locked, and
//! who is talking.
use crate::command::Command;
use crate::text::{decimal, fmt_u64};
use vstd::prelude::*;

verus! {

/// What the modem reports.
#[derive(Clone, Copy, Debug, PartialEq, Eq, Structural)]
pub struct RadeStatus {
    /// Whether it is locked to the far end.
    pub sync: bool,
    pub transmitting: bool,
    /// Samples lost between the receiver and the decoder.
    pub dropped: u64,
}

/// What the panel says of the link.
#[derive(Clone, Copy, Debug, PartialEq, Eq, Structural)]
pub enum LinkState {
    Transmitting,
    Sync,
    Searching,
}

impl RadeStatus {
    /// What the panel says of the link. While transmitting it says nothing of a
    /// lock, for nothing is received.
    pub open spec fn link_spec(&self) -> LinkState {
        if self.transmitting {
            LinkState::Transmitting
        } else if self.sync {
            LinkState::Sync
        } else {
            LinkState::Searching
        }
    }

    /// What the panel says of the link.
    pub fn link(&self) -> (r: LinkState)
        ensures
            r == self.link_spec(),
    {
        if self.transmitting {
            LinkState::Transmitting
        } else if self.sync {
            LinkState::Sync
        } else {
            LinkState::Searching
        }
    }

    /// The word beside the lamp. The lamp and the readouts of the link are lit
    /// only in sync.
    pub fn link_label(&self) -> (r: &'static str)
        ensures
            r@ == match self.link_spec() {
                LinkState::Transmitting => "transmitting"@,
                LinkState::Sync => "SYNC"@,
                LinkState::Searching => "searching"@,
            },
    {
        match self.link() {
            LinkState::Transmitting => "transmitting",
            LinkState::Sync => "SYNC",
            LinkState::Searching => "searching",
        }
    }

    /// The label of the talk button.
    pub fn talk_label(&self) -> (r: &'static str)
        ensures
            r@ == if self.transmitting {
                "STOP TALKING"@
            } else {
                "TALK (PTT)"@
            },
    {
        if self.transmitting {
            "STOP TALKING"
        } else {
            "TALK (PTT)"
        }
    }

    /// A press on the talk button opens or closes an over.
    pub fn press_talk(&self) -> (r: Command)
        ensures
            r == Command::DigiTxActive(!self.transmitting),
    {
        Command::DigiTxActive(!self.transmitting)
    }

    /// The warning that samples were lost; none while all arrive.
    pub fn dropped_note(&self) -> (r: Option<String>)
        ensures
            match r {
                None => self.dropped == 0,
                Some(t) => self.dropped > 0 && t@ == "⚠ "@ + decimal(self.dropped as nat)
                    + " samples dropped between the receiver and the decoder — this machine is not keeping up with the neural decode."@,
            },
    {
        if self.dropped == 0 {
            return None;
        }
        let mut t = String::from_str("⚠ ");
        t.append(fmt_u64(self.dropped).as_str());
        t.append(
            " samples dropped between the receiver and the decoder — this machine is not keeping up with the neural decode.",
        );
        Some(t)
    }
}

/// A press on the button that mutes the raw signal: the setting turns over and
/// is to be sent, once the settings of the engine are known. Returns whether to
/// send it.
pub fn press_mute_analog(mute: &mut bool, seeded: bool) -> (send: bool)
    ensures
        send == seeded,
        *final(mute) == if seeded {
            !*old(mute)
        } else {
            *old(mute)
        },
{
    if seeded {
        *mute = !*mute;
    }
    seeded
}

} // verus!
