//! The SSTV panel: the picture being received, the gallery of received ones,
//! and the five transmit slots with their messages.
use crate::sort::{
    in_order, law_stable_sort_in_order, law_stable_sort_keeps_items, lemma_filtered, orders, sort,
    stable_sort,
};
use crate::text::{before, chars_of, decimal, fmt_u64, same, str_before};
use crate::text::{lemma_before_strict, lemma_before_total, lemma_before_transitive};
use crate::wefax::{gray_of, Picture, Rgb};
use crate::command::Command;
use vstd::prelude::*;

verus! {

/// Transmit-image slots.
pub const SLOTS: usize = 5;

/// Received pictures held at once.
pub const RECEIVED_MAX: usize = 60;

/// Received pictures loaded from disk at most.
pub const GALLERY_FILES_MAX: usize = 40;

/// The place of Martin 1, which transmission starts out with, in the list of
/// modes. Modes go by their places in that list.
pub const MARTIN_1: u8 = 0;

/// A transmit-image slot: the source picture, three bytes per pixel.
#[derive(Debug)]
pub struct SstvSlot {
    pub src_rgb: Vec<u8>,
    pub sw: u16,
    pub sh: u16,
}

/// A received picture.
#[derive(Clone, Copy, Debug, PartialEq, Eq, Structural)]
pub struct SstvRecv {
    /// The mode it came in, unless it was loaded from disk.
    pub mode: Option<u8>,
    /// The number of its texture.
    pub tex: u64,
}

/// What the engine says of reception and transmission.
#[derive(Clone, Copy, Debug, PartialEq, Eq, Structural)]
pub struct SstvStatus {
    pub detected: Option<u8>,
    pub rx_active: bool,
    pub tx_active: bool,
}

/// What the activity line says.
#[derive(Clone, Copy, Debug, PartialEq, Eq, Structural)]
pub enum Activity {
    Transmitting,
    Receiving,
    /// Nothing now; the mode that was last heard.
    Last(u8),
    Listening,
}

/// What the transmit preview needs.
#[derive(Clone, Copy, Debug, PartialEq, Eq, Structural)]
pub enum PreviewNeed {
    /// It is up to date.
    AsIs,
    /// Compose it anew from this slot.
    Build(usize),
    /// There is nothing to show.
    Drop,
}

/// A mode choice for the engine: a fixed one, or detection.
#[derive(Clone, Copy, Debug, PartialEq, Eq, Structural)]
pub struct ModeChoice(pub Option<u8>);

/// What the TX button asks for: this slot's picture in this mode.
#[derive(Clone, Copy, Debug, PartialEq, Eq, Structural)]
pub struct Transmit {
    pub slot: usize,
    pub mode: u8,
}

/// The state of the panel.
pub struct SstvUi {
    pub tx_mode: u8,
    /// Operator callsign for the transmit-image header.
    pub callsign: String,
    /// Whether the receive mode is detected; transmission then starts out with
    /// Martin 1 until a mode is heard or the operator picks one.
    pub auto: bool,
    /// Overlay message of each slot.
    pub slot_messages: Vec<String>,
    pub slots: Vec<Option<SstvSlot>>,
    pub selected_slot: usize,
    /// Received pictures, newest first.
    pub received: Vec<SstvRecv>,
    /// The picture being received.
    pub rx: Option<Picture>,
    pub rx_id: u32,
    pub status: SstvStatus,
    /// Gallery entry shown enlarged.
    pub enlarged: Option<usize>,
    /// The detected mode that was last taken over for transmission, so a steady
    /// detection doesn't keep overriding the operator's choice.
    pub last_detected: Option<u8>,
    pub preview_dirty: bool,
    pub loaded_disk: bool,
    /// The slot that a picked file goes into.
    pub pick_target: Option<usize>,
}

/// A black picture.
pub open spec fn black(w: u16, h: u16) -> Seq<Rgb> {
    Seq::new((w * h) as nat, |i: int| gray_of(0))
}

/// A picture with a row of it replaced.
pub open spec fn with_row(px: Seq<Rgb>, w: u16, y: u16, rgb: Seq<u8>) -> Seq<Rgb> {
    Seq::new(
        px.len(),
        |i: int|
            if y * w <= i < y * w + w {
                let x = i - y * w;
                Rgb { r: rgb[3 * x], g: rgb[3 * x + 1], b: rgb[3 * x + 2] }
            } else {
                px[i]
            },
    )
}

impl SstvUi {
    /// The panel at its start: detecting, with empty slots and messages, and
    /// nothing received, nothing shown and nothing read from disk yet.
    pub open spec fn at_start(&self) -> bool {
        &&& self.tx_mode == MARTIN_1
        &&& self.auto
        &&& self.callsign@.len() == 0
        &&& self.slot_messages@.len() == SLOTS
        &&& self.slots@.len() == SLOTS
        &&& forall|i: int| 0 <= i < SLOTS ==> (#[trigger] self.slot_messages@[i])@.len() == 0
        &&& forall|i: int| 0 <= i < SLOTS ==> (#[trigger] self.slots@[i]) is None
        &&& self.selected_slot == 0
        &&& self.received@.len() == 0
        &&& self.rx is None
        &&& self.rx_id == 0
        &&& self.status == (SstvStatus { detected: None, rx_active: false, tx_active: false })
        &&& self.enlarged is None
        &&& self.last_detected is None
        &&& self.preview_dirty
        &&& !self.loaded_disk
        &&& self.pick_target is None
    }
}

impl Default for SstvUi {
    fn default() -> (r: SstvUi)
        ensures
            r.wf(),
            r.at_start(),
    {
        let mut slot_messages: Vec<String> = Vec::new();
        let mut slots: Vec<Option<SstvSlot>> = Vec::new();
        let mut i: usize = 0;
        while i < SLOTS
            invariant
                i <= SLOTS,
                slot_messages@.len() == i,
                slots@.len() == i,
                forall|k: int| 0 <= k < i ==> (#[trigger] slot_messages@[k])@.len() == 0,
                forall|k: int| 0 <= k < i ==> (#[trigger] slots@[k]) is None,
            decreases SLOTS - i,
        {
            slot_messages.push(String::new());
            slots.push(None);
            i = i + 1;
        }
        SstvUi {
            tx_mode: MARTIN_1,
            callsign: String::new(),
            auto: true,
            slot_messages,
            slots,
            selected_slot: 0,
            received: Vec::new(),
            rx: None,
            rx_id: 0,
            status: SstvStatus { detected: None, rx_active: false, tx_active: false },
            enlarged: None,
            last_detected: None,
            preview_dirty: true,
            loaded_disk: false,
            pick_target: None,
        }
    }
}

impl SstvUi {
    /// There are five slots, each with a message, one of them is selected, and
    /// the picture being received has the size that it says.
    pub open spec fn wf(&self) -> bool {
        &&& self.slots@.len() == SLOTS
        &&& self.slot_messages@.len() == SLOTS
        &&& self.selected_slot < SLOTS
        &&& self.rx matches Some(p) ==> p.pixels@.len() == p.size.0 * p.size.1
        &&& self.pick_target matches Some(t) ==> t < SLOTS
    }

    /// Everything but the picture being received.
    pub open spec fn same_but_rx(&self, o: &SstvUi) -> bool {
        *self == SstvUi { rx: self.rx, rx_id: self.rx_id, ..*o }
    }

    /// The picture that a row goes into: the one being received, or a black one
    /// if the row belongs to another.
    pub open spec fn row_base(&self, id: u32, w: u16, h: u16) -> Seq<Rgb> {
        if self.rx_id != id || self.rx is None {
            black(w, h)
        } else {
            self.rx->0.pixels@
        }
    }

    /// The size of that picture: the detected mode's for a new one. One that was
    /// begun in another mode keeps its size.
    pub open spec fn row_size(&self, id: u32, w: u16, h: u16) -> (usize, usize) {
        if self.rx_id != id || self.rx is None {
            (w as usize, h as usize)
        } else {
            self.rx->0.size
        }
    }

    /// Whether a row is painted: the detected mode has it, and it is whole.
    pub open spec fn row_painted(&self, y: u16, rgb: Seq<u8>, w: u16, h: u16) -> bool {
        self.status.detected is Some && y < h && rgb.len() >= 3 * w
    }

    /// What a scanline does: it is painted into its picture. Without a detected
    /// mode it is ignored.
    pub open spec fn lined(
        &self,
        next: &SstvUi,
        id: u32,
        y: u16,
        rgb: Seq<u8>,
        w: u16,
        h: u16,
    ) -> bool {
        if self.status.detected is Some {
            let base = self.row_base(id, w, h);
            &&& next.same_but_rx(self)
            &&& next.rx_id == id
            &&& next.rx is Some
            &&& next.rx->0.size == self.row_size(id, w, h)
            &&& next.rx->0.pixels@ == if self.row_painted(y, rgb, w, h) {
                with_row(base, w, y, rgb)
            } else {
                base
            }
        } else {
            *next == *self
        }
    }

    /// What a completed picture does: it goes to the front of the gallery, if it
    /// decoded.
    pub open spec fn finished(&self, next: &SstvUi, mode: u8, tex: Option<u64>) -> bool {
        &&& *next == SstvUi { received: next.received, rx: None, ..*self }
        &&& match tex {
            Some(t) => {
                let all = seq![SstvRecv { mode: Some(mode), tex: t }] + self.received@;
                next.received@ == all.take(
                    if all.len() < RECEIVED_MAX {
                        all.len() as int
                    } else {
                        RECEIVED_MAX as int
                    },
                )
            },
            None => next.received == self.received,
        }
    }

    /// A decoded scanline arrived: paint it into the picture being received.
    /// `w` and `h` are the size of the detected mode; without one the row is
    /// ignored. Returns whether the picture has to be shown anew.
    pub fn on_line(&mut self, id: u32, y: u16, rgb: &[u8], w: u16, h: u16) -> (shown: bool)
        requires
            old(self).wf(),
            old(self).row_painted(y, rgb@, w, h) ==> y * w + w <= old(self).row_base(
                id,
                w,
                h,
            ).len(),
        ensures
            final(self).wf(),
            shown == old(self).status.detected is Some,
            old(self).lined(final(self), id, y, rgb@, w, h),
    {
        if self.status.detected.is_none() {
            return false;
        }
        let stored = self.rx.take();
        let (size, mut pixels) = match stored {
            Some(p) if self.rx_id == id => (p.size, p.pixels),
            _ => ((w as usize, h as usize), black_pixels(w, h)),
        };
        self.rx_id = id;
        assert(pixels@ == old(self).row_base(id, w, h));
        if y < h && rgb.len() >= w as usize * 3 {
            paint_row(&mut pixels, w, y, rgb);
        }
        self.rx = Some(Picture { size, pixels });
        true
    }

    /// A completed picture arrived: if it decoded, to the texture `tex`, it goes
    /// to the front of the gallery. The picture being received is done with.
    pub fn on_image(&mut self, mode: u8, tex: Option<u64>)
        requires
            old(self).wf(),
        ensures
            final(self).wf(),
            old(self).finished(final(self), mode, tex),
    {
        if let Some(t) = tex {
            let recv = SstvRecv { mode: Some(mode), tex: t };
            self.received.insert(0, recv);
            let ghost all = seq![recv] + old(self).received@;
            assert(self.received@ =~= all);
            self.received.truncate(RECEIVED_MAX);
            assert(self.received@ =~= all.take(self.received@.len() as int));
        }
        self.rx = None;
    }

    /// The panel with a new status: a newly detected mode is taken over.
    pub open spec fn with_status(&self, s: SstvStatus) -> SstvUi {
        let heard = s.detected != self.last_detected && s.detected is Some;
        SstvUi {
            tx_mode: if heard {
                s.detected->0
            } else {
                self.tx_mode
            },
            preview_dirty: self.preview_dirty || heard,
            last_detected: s.detected,
            status: s,
            ..*self
        }
    }

    /// The engine's status. A newly detected mode is taken over for the next
    /// transmission; a steady detection is not, so that it does not fight the
    /// operator's choice.
    pub fn on_status(&mut self, s: SstvStatus)
        requires
            old(self).wf(),
        ensures
            final(self).wf(),
            *final(self) == old(self).with_status(s),
    {
        let changed = match (s.detected, self.last_detected) {
            (Some(a), Some(b)) => a != b,
            (None, None) => false,
            _ => true,
        };
        if changed {
            if let Some(m) = s.detected {
                self.tx_mode = m;
                self.preview_dirty = true;
            }
            self.last_detected = s.detected;
        }
        self.status = s;
    }

    /// The overlay message for the slot being edited.
    pub fn current_message(&self) -> (r: &str)
        requires
            self.wf(),
        ensures
            r@ == self.slot_messages@[self.selected_slot as int]@,
    {
        self.slot_messages[self.selected_slot].as_str()
    }

    /// What the transmit preview needs, once the mode, the slot, the callsign or
    /// the message has changed.
    pub fn ensure_preview(&mut self) -> (r: PreviewNeed)
        requires
            old(self).wf(),
        ensures
            final(self).wf(),
            *final(self) == (SstvUi { preview_dirty: false, ..*old(self) }),
            r == if !old(self).preview_dirty {
                PreviewNeed::AsIs
            } else if old(self).slots@[old(self).selected_slot as int] is Some {
                PreviewNeed::Build(old(self).selected_slot)
            } else {
                PreviewNeed::Drop
            },
    {
        if !self.preview_dirty {
            return PreviewNeed::AsIs;
        }
        self.preview_dirty = false;
        if self.slots[self.selected_slot].is_some() {
            PreviewNeed::Build(self.selected_slot)
        } else {
            PreviewNeed::Drop
        }
    }

    /// A picked image file was loaded: it goes into the slot that it was picked
    /// for, which becomes the selected one. Returns the slot whose file is to
    /// be saved. A file that is no image changes only what is being waited for.
    pub fn picked(&mut self, image: Option<SstvSlot>) -> (r: Option<usize>)
        requires
            old(self).wf(),
        ensures
            final(self).wf(),
            match (old(self).pick_target, image) {
                (Some(t), Some(img)) => {
                    &&& r == Some(t)
                    &&& *final(self) == SstvUi {
                        slots: final(self).slots,
                        selected_slot: t,
                        preview_dirty: true,
                        pick_target: None,
                        ..*old(self)
                    }
                    &&& final(self).slots@ == old(self).slots@.update(t as int, Some(img))
                },
                _ => {
                    &&& r is None
                    &&& *final(self) == SstvUi { pick_target: None, ..*old(self) }
                },
            },
    {
        match (self.pick_target.take(), image) {
            (Some(t), Some(img)) => {
                self.set_slot(t, img);
                Some(t)
            },
            _ => None,
        }
    }

    /// Put an image into a slot and select it. The slot's file is to be saved.
    pub fn set_slot(&mut self, slot: usize, image: SstvSlot)
        requires
            old(self).wf(),
            slot < SLOTS,
        ensures
            final(self).wf(),
            *final(self) == (SstvUi {
                slots: final(self).slots,
                selected_slot: slot,
                preview_dirty: true,
                ..*old(self)
            }),
            final(self).slots@ == old(self).slots@.update(slot as int, Some(image)),
    {
        self.slots.set(slot, Some(image));
        self.selected_slot = slot;
        self.preview_dirty = true;
    }

    /// Keep the header's callsign as the operator's.
    pub fn sync_callsign(&mut self, my_call: &str)
        requires
            old(self).wf(),
        ensures
            final(self).wf(),
            *final(self) == (SstvUi {
                callsign: final(self).callsign,
                preview_dirty: old(self).preview_dirty || old(self).callsign@ != my_call@,
                ..*old(self)
            }),
            final(self).callsign@ == my_call@,
    {
        if !same(self.callsign.as_str(), my_call) {
            self.callsign = my_call.to_owned();
            self.preview_dirty = true;
        }
    }

    /// The Auto button: detect the mode, and start out with Martin 1.
    pub fn press_auto(&mut self) -> (r: ModeChoice)
        requires
            old(self).wf(),
        ensures
            final(self).wf(),
            *final(self) == (SstvUi {
                auto: true,
                tx_mode: MARTIN_1,
                preview_dirty: true,
                ..*old(self)
            }),
            r == ModeChoice(None),
    {
        self.auto = true;
        self.tx_mode = MARTIN_1;
        self.preview_dirty = true;
        ModeChoice(None)
    }

    /// A mode button: receive and transmit in that mode.
    pub fn press_mode(&mut self, m: u8) -> (r: ModeChoice)
        requires
            old(self).wf(),
        ensures
            final(self).wf(),
            *final(self) == (SstvUi {
                auto: false,
                tx_mode: m,
                preview_dirty: true,
                ..*old(self)
            }),
            r == ModeChoice(Some(m)),
    {
        self.auto = false;
        self.tx_mode = m;
        self.preview_dirty = true;
        ModeChoice(Some(m))
    }

    /// Whether a mode's button is lit.
    pub fn mode_lit(&self, m: u8) -> (r: bool)
        ensures
            r == (!self.auto && self.tx_mode == m),
    {
        !self.auto && self.tx_mode == m
    }

    /// The label of the Auto button, which shows the mode that is used meanwhile.
    pub fn auto_label(&self, mode_label: &str) -> (r: String)
        ensures
            r@ == if self.auto {
                "Auto ("@ + mode_label@ + ")"@
            } else {
                "Auto"@
            },
    {
        let mut t = "Auto".to_owned();
        if self.auto {
            t = "Auto (".to_owned();
            t.append(mode_label);
            t.append(")");
        }
        t
    }

    /// The label of the button that loads an image.
    pub fn load_label(&self) -> (r: &'static str)
        requires
            self.wf(),
        ensures
            r@ == if self.slots@[self.selected_slot as int] is Some {
                "Change image…"@
            } else {
                "Load image…"@
            },
    {
        if self.has_image() {
            "Change image…"
        } else {
            "Load image…"
        }
    }

    /// What the activity line says.
    pub fn activity(&self) -> (r: Activity)
        ensures
            r == if self.status.tx_active {
                Activity::Transmitting
            } else if self.status.rx_active {
                Activity::Receiving
            } else {
                match self.status.detected {
                    Some(m) => Activity::Last(m),
                    None => Activity::Listening,
                }
            },
    {
        if self.status.tx_active {
            Activity::Transmitting
        } else if self.status.rx_active {
            Activity::Receiving
        } else {
            match self.status.detected {
                Some(m) => Activity::Last(m),
                None => Activity::Listening,
            }
        }
    }

    /// Whether a click on a slot asks for a file for it: a double click does, and
    /// any click on an empty slot.
    pub open spec fn picks(&self, slot: usize, double: bool) -> bool {
        double || self.slots@[slot as int] is None
    }

    /// A click on a slot. A single one selects it, and the messages are saved on
    /// leaving the other; a double one, or one on an empty slot, asks for a file
    /// for it. Returns whether to open the file picker, and whether to save the
    /// messages.
    pub fn click_slot(&mut self, slot: usize, double: bool) -> (r: (bool, bool))
        requires
            old(self).wf(),
            slot < SLOTS,
        ensures
            final(self).wf(),
            r.0 == old(self).picks(slot, double),
            r.1 == (!double && slot != old(self).selected_slot),
            *final(self) == (SstvUi {
                pick_target: if old(self).picks(slot, double) {
                    Some(slot)
                } else {
                    old(self).pick_target
                },
                selected_slot: if double {
                    old(self).selected_slot
                } else {
                    slot
                },
                preview_dirty: old(self).preview_dirty || r.1,
                ..*old(self)
            }),
    {
        let pick = double || self.slots[slot].is_none();
        if pick {
            self.pick_target = Some(slot);
        }
        if !double && slot != self.selected_slot {
            self.selected_slot = slot;
            self.preview_dirty = true;
            (pick, true)
        } else {
            (pick, false)
        }
    }

    /// The button that loads an image into the selected slot.
    pub fn press_load(&mut self)
        requires
            old(self).wf(),
        ensures
            final(self).wf(),
            *final(self) == (SstvUi {
                pick_target: Some(old(self).selected_slot),
                ..*old(self)
            }),
    {
        self.pick_target = Some(self.selected_slot);
    }

    /// Whether the selected slot holds an image, which its load button says.
    pub fn has_image(&self) -> (r: bool)
        requires
            self.wf(),
        ensures
            r == self.slots@[self.selected_slot as int] is Some,
    {
        self.slots[self.selected_slot].is_some()
    }

    /// The operator edited the selected slot's message.
    pub fn edit_message(&mut self, text: &str)
        requires
            old(self).wf(),
        ensures
            final(self).wf(),
            *final(self) == (SstvUi {
                slot_messages: final(self).slot_messages,
                preview_dirty: true,
                ..*old(self)
            }),
            ({
                let k = old(self).selected_slot as int;
                &&& final(self).slot_messages@ == old(self).slot_messages@.update(
                    k,
                    final(self).slot_messages@[k],
                )
                &&& final(self).slot_messages@[k]@ == text@
            }),
    {
        let k: usize = self.selected_slot;
        self.slot_messages.set(k, text.to_owned());
        self.preview_dirty = true;
    }

    /// Whether the TX button works: there is an image and nothing is on the air.
    pub fn can_tx(&self) -> (r: bool)
        requires
            self.wf(),
        ensures
            r == (self.slots@[self.selected_slot as int] is Some && !self.status.tx_active),
    {
        self.has_image() && !self.status.tx_active
    }

    /// The TX button: the messages are saved, and this is to be composed and
    /// sent, if the slot holds an image.
    pub fn press_tx(&self) -> (r: Option<Transmit>)
        requires
            self.wf(),
        ensures
            r == if self.slots@[self.selected_slot as int] is Some {
                Some(Transmit { slot: self.selected_slot, mode: self.tx_mode })
            } else {
                None::<Transmit>
            },
    {
        if self.has_image() {
            Some(Transmit { slot: self.selected_slot, mode: self.tx_mode })
        } else {
            None
        }
    }

    /// The button that stops a picture on the air.
    pub fn press_abort(&self) -> (r: Option<Command>)
        ensures
            r == if self.status.tx_active {
                Some(Command::DigiAbortTx)
            } else {
                None
            },
    {
        if self.status.tx_active {
            Some(Command::DigiAbortTx)
        } else {
            None
        }
    }

    /// The gallery entry that is shown enlarged; one that no longer exists is
    /// closed.
    pub fn enlarged_entry(&mut self) -> (r: Option<SstvRecv>)
        requires
            old(self).wf(),
        ensures
            final(self).wf(),
            match old(self).enlarged {
                Some(i) => if i < old(self).received@.len() {
                    &&& *final(self) == *old(self)
                    &&& r == Some(old(self).received@[i as int])
                } else {
                    &&& *final(self) == SstvUi { enlarged: None, ..*old(self) }
                    &&& r is None
                },
                None => *final(self) == *old(self) && r is None,
            },
    {
        match self.enlarged {
            Some(i) => {
                if i < self.received.len() {
                    Some(self.received[i])
                } else {
                    self.enlarged = None;
                    None
                }
            },
            None => None,
        }
    }

    /// On first entry, take in what was stored: the slots that have a file, the
    /// messages as far as they go, and the gallery's textures.
    pub fn load_disk_once(
        &mut self,
        slots: Vec<Option<SstvSlot>>,
        messages: Vec<String>,
        gallery: &Vec<u64>,
    )
        requires
            old(self).wf(),
        ensures
            final(self).wf(),
            old(self).loaded_disk ==> *final(self) == *old(self),
            !old(self).loaded_disk ==> {
                &&& *final(self) == SstvUi {
                    slots: final(self).slots,
                    slot_messages: final(self).slot_messages,
                    received: final(self).received,
                    loaded_disk: true,
                    ..*old(self)
                }
                &&& final(self).slots@ == Seq::new(
                    SLOTS as nat,
                    |i: int|
                        if i < slots@.len() && slots@[i] is Some {
                            slots@[i]
                        } else {
                            old(self).slots@[i]
                        },
                )
                &&& final(self).slot_messages@ == Seq::new(
                    SLOTS as nat,
                    |i: int|
                        if i < messages@.len() {
                            messages@[i]
                        } else {
                            old(self).slot_messages@[i]
                        },
                )
                &&& final(self).received@ == old(self).received@ + gallery@.map_values(
                    |t: u64| SstvRecv { mode: None, tex: t },
                )
            },
    {
        if self.loaded_disk {
            return ;
        }
        self.loaded_disk = true;
        let mut slots = slots;
        slots.truncate(SLOTS);
        self.restore_slots(slots);
        self.restore_messages(messages);
        let mut i: usize = 0;
        let ghost start = self.received@;
        let ghost base = *self;
        while i < gallery.len()
            invariant
                i <= gallery@.len(),
                *self == (SstvUi { received: self.received, ..base }),
                self.received@ == start + gallery@.take(i as int).map_values(
                    |t: u64| SstvRecv { mode: None, tex: t },
                ),
            decreases gallery@.len() - i,
        {
            self.received.push(SstvRecv { mode: None, tex: gallery[i] });
            assert(self.received@ =~= start + gallery@.take(i + 1).map_values(
                |t: u64| SstvRecv { mode: None, tex: t },
            ));
            i = i + 1;
        }
        assert(gallery@.take(i as int) =~= gallery@);
    }

    fn restore_slots(&mut self, slots: Vec<Option<SstvSlot>>)
        requires
            old(self).wf(),
            slots@.len() <= SLOTS,
        ensures
            final(self).wf(),
            *final(self) == (SstvUi { slots: final(self).slots, ..*old(self) }),
            final(self).slots@ == Seq::new(
                SLOTS as nat,
                |i: int|
                    if i < slots@.len() && slots@[i] is Some {
                        slots@[i]
                    } else {
                        old(self).slots@[i]
                    },
            ),
    {
        let ghost all = slots@;
        let mut slots = slots;
        let mut i: usize = slots.len();
        // Taken from the back, so that each picture can be moved out.
        while i > 0
            invariant
                i <= all.len() <= SLOTS,
                slots@ == all.take(i as int),
                self.slots@.len() == SLOTS,
                *self == (SstvUi { slots: self.slots, ..*old(self) }),
                forall|k: int|
                    0 <= k < SLOTS ==> #[trigger] self.slots@[k] == (if i <= k < all.len()
                        && all[k] is Some {
                        all[k]
                    } else {
                        old(self).slots@[k]
                    }),
            decreases i,
        {
            i = i - 1;
            let entry = slots.remove(i);
            assert(slots@ =~= all.take(i as int));
            if entry.is_some() {
                self.slots.set(i, entry);
            }
        }
        assert(self.slots@ =~= Seq::new(
            SLOTS as nat,
            |i: int|
                if i < all.len() && all[i] is Some {
                    all[i]
                } else {
                    old(self).slots@[i]
                },
        ));
    }

    fn restore_messages(&mut self, messages: Vec<String>)
        requires
            old(self).wf(),
        ensures
            final(self).wf(),
            *final(self) == (SstvUi { slot_messages: final(self).slot_messages, ..*old(self) }),
            final(self).slot_messages@ == Seq::new(
                SLOTS as nat,
                |i: int|
                    if i < messages@.len() {
                        messages@[i]
                    } else {
                        old(self).slot_messages@[i]
                    },
            ),
    {
        let mut i: usize = 0;
        while i < messages.len() && i < SLOTS
            invariant
                i <= messages@.len(),
                i <= SLOTS,
                self.slot_messages@.len() == SLOTS,
                *self == (SstvUi { slot_messages: self.slot_messages, ..*old(self) }),
                forall|k: int|
                    0 <= k < SLOTS ==> #[trigger] self.slot_messages@[k] == (if k < i {
                        messages@[k]
                    } else {
                        old(self).slot_messages@[k]
                    }),
            decreases SLOTS - i,
        {
            let m = messages[i].clone();
            self.slot_messages.set(i, m);
            i = i + 1;
        }
        assert(self.slot_messages@ =~= Seq::new(
            SLOTS as nat,
            |i: int|
                if i < messages@.len() {
                    messages@[i]
                } else {
                    old(self).slot_messages@[i]
                },
        ));
    }
}

fn black_pixels(w: u16, h: u16) -> (r: Vec<Rgb>)
    ensures
        r@ == black(w, h),
{
    proof {
        lemma_area(w, h);
    }
    let total: usize = w as usize * h as usize;
    let mut px: Vec<Rgb> = Vec::new();
    let mut i: usize = 0;
    while i < total
        invariant
            total == w * h,
            i <= total,
            px@.len() == i,
            forall|k: int| 0 <= k < i ==> px@[k] == gray_of(0),
        decreases total - i,
    {
        px.push(Rgb { r: 0, g: 0, b: 0 });
        i = i + 1;
    }
    assert(px@ =~= black(w, h));
    px
}

proof fn lemma_area(w: u16, h: u16)
    ensures
        0 <= w * h <= 0xfffe_0001,
{
    assert(0 <= w * h <= 0xfffe_0001) by (nonlinear_arith)
        requires
            w <= 0xffff,
            h <= 0xffff,
    ;
}

fn paint_row(px: &mut Vec<Rgb>, w: u16, y: u16, rgb: &[u8])
    requires
        y * w + w <= old(px)@.len(),
        rgb@.len() >= 3 * w,
    ensures
        final(px)@ == with_row(old(px)@, w, y, rgb@),
{
    proof {
        lemma_area(w, y);
        assert(0 <= y * w <= 0xfffe_0001) by (nonlinear_arith)
            requires
                0 <= w * y <= 0xfffe_0001,
        ;
    }
    let row: usize = y as usize * w as usize;
    let wide: usize = w as usize;
    let total: usize = px.len();
    let mut x: usize = 0;
    while x < wide
        invariant
            px@.len() == total,
            row == y * w,
            wide == w,
            row + wide <= px@.len(),
            rgb@.len() >= 3 * w,
            px@.len() == old(px)@.len(),
            x <= wide,
            forall|i: int|
                0 <= i < px@.len() ==> #[trigger] px@[i] == (if row <= i < row + x {
                    with_row(old(px)@, w, y, rgb@)[i]
                } else {
                    old(px)@[i]
                }),
        decreases wide - x,
    {
        let c = Rgb { r: rgb[3 * x], g: rgb[3 * x + 1], b: rgb[3 * x + 2] };
        px.set(row + x, c);
        x = x + 1;
    }
    assert(px@ =~= with_row(old(px)@, w, y, rgb@));
}

/// Whether a moved slant control is sent: once the drag is over, or at once when
/// it was set without dragging.
pub fn slant_sends(drag_stopped: bool, changed: bool, dragged: bool) -> (r: bool)
    ensures
        r == (drag_stopped || (changed && !dragged)),
{
    drag_stopped || (changed && !dragged)
}

/// The pixels of an image file, three bytes each, with its width and height, as
/// the `image` crate decodes it; `None` for bytes that are no image of a format
/// that it knows.
pub uninterp spec fn rgb_of(file: Seq<u8>) -> Option<(Seq<u8>, u32, u32)>;

/// `image::guess_format`, `image::load_from_memory_with_format` and
/// `DynamicImage::to_rgb8`: an image file as 8-bit colors, its width and its
/// height. The format is told by the file's first bytes, and what is decoded
/// depends on the bytes alone.
#[verifier::external_body]
fn load_rgb8(file: &[u8]) -> (r: Option<(Vec<u8>, u32, u32)>)
    ensures
        match r {
            Some(img) => rgb_of(file@) == Some((img.0@, img.1, img.2)),
            None => rgb_of(file@) is None,
        },
{
    let format = image::guess_format(file).ok()?;
    let img = image::load_from_memory_with_format(file, format).ok()?.to_rgb8();
    let (w, h) = (img.width(), img.height());
    Some((img.into_raw(), w, h))
}

/// A decoded picture whose sides can be counted in 16 bits.
pub open spec fn countable(img: Option<(Seq<u8>, u32, u32)>) -> Option<(Seq<u8>, u16, u16)> {
    match img {
        Some(i) => if i.1 <= u16::MAX && i.2 <= u16::MAX {
            Some((i.0, i.1 as u16, i.2 as u16))
        } else {
            None
        },
        None => None,
    }
}

/// A decoded picture, unless a side is too long to be counted in 16 bits.
pub fn count_sides(img: Option<(Vec<u8>, u32, u32)>) -> (r: Option<(Vec<u8>, u16, u16)>)
    ensures
        match img {
            Some(i) => if i.1 <= u16::MAX && i.2 <= u16::MAX {
                r == Some((i.0, i.1 as u16, i.2 as u16))
            } else {
                r is None
            },
            None => r is None,
        },
{
    match img {
        Some((rgb, w, h)) => {
            if w > u16::MAX as u32 || h > u16::MAX as u32 {
                return None;
            }
            Some((rgb, w as u16, h as u16))
        },
        None => None,
    }
}

/// Decode a picture file to its pixels, three bytes each, plus its size.
pub fn decode_image(file: &[u8]) -> (r: Option<(Vec<u8>, u16, u16)>)
    ensures
        match r {
            Some(img) => countable(rgb_of(file@)) == Some((img.0@, img.1, img.2)),
            None => countable(rgb_of(file@)) is None,
        },
{
    count_sides(load_rgb8(file))
}

/// The name of a slot's file.
pub fn sstv_save_slot(i: usize) -> (r: String)
    ensures
        r@ == "slot"@ + decimal(i as nat) + ".png"@,
{
    let mut s = "slot".to_owned();
    s.append(fmt_u64(i as u64).as_str());
    s.append(".png");
    s
}

/// The slots as read from disk: none without a directory.
pub fn sstv_load_slots(read: Option<Vec<Option<SstvSlot>>>) -> (r: Vec<Option<SstvSlot>>)
    requires
        read matches Some(v) ==> v@.len() == SLOTS,
    ensures
        r@.len() == SLOTS,
        match read {
            Some(v) => r@ == v@,
            None => forall|i: int| 0 <= i < SLOTS ==> (#[trigger] r@[i]) is None,
        },
{
    match read {
        Some(v) => v,
        None => {
            let mut out: Vec<Option<SstvSlot>> = Vec::new();
            out.push(None);
            out.push(None);
            out.push(None);
            out.push(None);
            out.push(None);
            out
        },
    }
}

/// The messages to be written: each slot's, in order. In a browser there is
/// nowhere to write them.
pub fn sstv_save_messages(messages: &Vec<String>, has_disk: bool) -> (r: Option<Vec<String>>)
    ensures
        match r {
            Some(out) => has_disk && out@ =~= messages@,
            None => !has_disk,
        },
{
    if !has_disk {
        return None;
    }
    let mut out: Vec<String> = Vec::new();
    let mut i: usize = 0;
    while i < messages.len()
        invariant
            i <= messages@.len(),
            out@ =~= messages@.take(i as int),
        decreases messages@.len() - i,
    {
        out.push(messages[i].clone());
        i = i + 1;
    }
    assert(messages@.take(i as int) =~= messages@);
    Some(out)
}

/// The messages as read from disk: none in a browser.
pub fn sstv_load_messages(read: Option<Vec<String>>) -> (r: Vec<String>)
    ensures
        r@ == match read {
            Some(v) => v@,
            None => Seq::<String>::empty(),
        },
{
    match read {
        Some(v) => v,
        None => Vec::new(),
    }
}

/// Whether a file name is that of a PNG: something, a dot, and the extension.
pub open spec fn is_png(name: Seq<char>) -> bool {
    name.len() > 4 && name.skip(name.len() - 4) == seq!['.', 'p', 'n', 'g']
}

fn has_png_extension(name: &str) -> (r: bool)
    ensures
        r == is_png(name@),
{
    let v = chars_of(name);
    let n: usize = v.len();
    if n <= 4 {
        return false;
    }
    let ghost tail = name@.skip(n - 4);
    assert(tail.len() == 4);
    let r = v[n - 4] == '.' && v[n - 3] == 'p' && v[n - 2] == 'n' && v[n - 1] == 'g';
    proof {
        assert(tail[0] == v@[n - 4] && tail[1] == v@[n - 3] && tail[2] == v@[n - 2] && tail[3]
            == v@[n - 1]);
        let png = seq!['.', 'p', 'n', 'g'];
        if r {
            assert(tail =~= png);
        }
        if tail == png {
            assert(tail[0] == png[0] && tail[1] == png[1] && tail[2] == png[2] && tail[3] == png[3]);
        }
    }
    r
}

/// Whether one file comes before another: the later name first, since the names
/// carry timestamps.
pub open spec fn later_name(a: String, b: String) -> bool {
    before(b@, a@)
}

/// The order of the gallery's files.
pub open spec fn newest_names() -> spec_fn(String, String) -> bool {
    |a: String, b: String| later_name(a, b)
}

/// The PNG files among some names.
pub open spec fn pngs(names: Seq<String>) -> Seq<String> {
    names.filter(png_name())
}

/// Whether a name is that of a PNG.
pub open spec fn png_name() -> spec_fn(String) -> bool {
    |s: String| is_png(s@)
}

/// The files of the received pictures to load.
pub open spec fn gallery_files(names: Seq<String>) -> Seq<String> {
    let all = stable_sort(pngs(names), newest_names());
    all.take(
        if all.len() < GALLERY_FILES_MAX {
            all.len() as int
        } else {
            GALLERY_FILES_MAX as int
        },
    )
}

/// The files of the received pictures to load: the newest by name, no more than
/// the gallery takes from disk.
pub fn sstv_load_gallery(names: &Vec<String>) -> (r: Vec<String>)
    ensures
        r@ == gallery_files(names@),
{
    let mut files: Vec<String> = Vec::new();
    let mut i: usize = 0;
    proof {
        reveal(Seq::filter);
        assert(names@.take(0) =~= Seq::<String>::empty());
    }
    while i < names.len()
        invariant
            i <= names@.len(),
            files@ == pngs(names@.take(i as int)),
        decreases names@.len() - i,
    {
        proof {
            reveal(Seq::filter);
            assert(names@.take(i + 1).drop_last() =~= names@.take(i as int));
        }
        if has_png_extension(names[i].as_str()) {
            files.push(names[i].clone());
        }
        i = i + 1;
    }
    assert(names@.take(i as int) =~= names@);
    let first = |a: &String, b: &String| -> (r: bool)
        ensures
            r == later_name(*a, *b),
    { str_before(b.as_str(), a.as_str()) };
    sort(&mut files, first, Ghost(newest_names()));
    let ghost all = files@;
    files.truncate(GALLERY_FILES_MAX);
    assert(files@ =~= all.take(files@.len() as int));
    files
}

proof fn lemma_newest_names_orders()
    ensures
        orders(newest_names()),
{
    let lt = newest_names();
    assert forall|a: String| !#[trigger] lt(a, a) by {
        lemma_before_strict(a@, a@);
    }
    assert forall|a: String, b: String, c: String|
        #![trigger lt(a, b), lt(b, c)]
        lt(a, b) && lt(b, c) implies lt(a, c) by {
        lemma_before_transitive(c@, b@, a@);
    }
    assert forall|a: String, b: String, c: String|
        #![trigger lt(a, b), lt(b, c)]
        !lt(a, b) && !lt(b, c) implies !lt(a, c) by {
        lemma_before_total(a@, b@);
        lemma_before_total(b@, c@);
        lemma_before_strict(c@, a@);
        if before(a@, b@) && before(b@, c@) {
            lemma_before_transitive(a@, b@, c@);
        }
    }
}

/// The gallery's files are loaded newest first: no name stands before a later
/// one.
pub proof fn law_gallery_files_newest_first(names: Seq<String>, i: int, j: int)
    requires
        0 <= i < j < stable_sort(pngs(names), newest_names()).len(),
    ensures
        ({
            let all = stable_sort(pngs(names), newest_names());
            !before(all[i]@, all[j]@)
        }),
{
    lemma_newest_names_orders();
    law_stable_sort_in_order(pngs(names), newest_names());
    let all = stable_sort(pngs(names), newest_names());
    assert(in_order(all, newest_names()));
    assert(!later_name(all[j], all[i]));
}

/// A steady detection never overrides the operator's choice of mode: once a
/// detected mode has been taken over, the same status leaves the mode alone.
pub proof fn law_steady_detection_keeps_the_choice(
    ui: SstvUi,
    first: SstvStatus,
    again: SstvStatus,
    chosen: u8,
)
    requires
        again.detected == first.detected,
    ensures
        ({
            let picked = SstvUi { tx_mode: chosen, auto: false, ..ui.with_status(first) };
            picked.with_status(again).tx_mode == chosen
        }),
{
}

/// A mode that is newly detected is what is sent next, and the preview is composed
/// anew for it; without one the choice stays. The picture, the gallery and the slots
/// are left alone.
pub proof fn law_new_detection_is_taken_over(ui: SstvUi, s: SstvStatus, m: u8)
    requires
        s.detected == Some(m),
    ensures
        ui.last_detected != Some(m) ==> ui.with_status(s).tx_mode == m && ui.with_status(
            s,
        ).preview_dirty,
        ui.last_detected == Some(m) ==> ui.with_status(s).tx_mode == ui.tx_mode,
        ui.with_status(SstvStatus { detected: None, ..s }).tx_mode == ui.tx_mode,
        ui.with_status(s).status == s,
        ui.with_status(s).last_detected == Some(m),
        ui.with_status(s).slots == ui.slots && ui.with_status(s).received == ui.received,
        ui.with_status(s).rx == ui.rx && ui.with_status(s).selected_slot == ui.selected_slot,
        ui.with_status(s).auto == ui.auto,
{
}

/// A scanline is found in its row, a pixel for every three bytes, and the other rows
/// stay as they were.
pub proof fn law_rows_go_where_they_belong(
    px: Seq<Rgb>,
    w: u16,
    y: u16,
    rgb: Seq<u8>,
    row: int,
    x: int,
)
    requires
        0 <= x < w,
        0 <= row,
        row * w + x < px.len(),
    ensures
        with_row(px, w, y, rgb).len() == px.len(),
        row == y ==> with_row(px, w, y, rgb)[row * w + x] == (Rgb {
            r: rgb[3 * x],
            g: rgb[3 * x + 1],
            b: rgb[3 * x + 2],
        }),
        row != y ==> with_row(px, w, y, rgb)[row * w + x] == px[row * w + x],
{
    assert(row * w >= 0) by (nonlinear_arith)
        requires
            row >= 0,
    ;
    if row < y {
        assert(row * w + w <= y * w) by (nonlinear_arith)
            requires
                row + 1 <= y,
        ;
    } else if row > y {
        assert(y * w + w <= row * w) by (nonlinear_arith)
            requires
                y + 1 <= row,
        ;
    }
}

/// A row of another picture starts a black one in the size of the detected mode, and
/// a row of the same picture goes on with what is there.
pub proof fn law_another_picture_starts_black(ui: SstvUi, id: u32, w: u16, h: u16, i: int)
    requires
        0 <= i < w * h,
    ensures
        ui.rx is None || ui.rx_id != id ==> ui.row_base(id, w, h).len() == w * h && ui.row_base(
            id,
            w,
            h,
        )[i] == (Rgb { r: 0, g: 0, b: 0 }) && ui.row_size(id, w, h) == (w as usize, h as usize),
        ui.rx is Some && ui.rx_id == id ==> ui.row_base(id, w, h) == ui.rx->0.pixels@
            && ui.row_size(id, w, h) == ui.rx->0.size,
{
}

/// A picture that is complete is the first of the gallery, in the mode in which it
/// came; sixty are held, and what is dropped is the oldest.
pub proof fn law_complete_pictures_lead_the_gallery(
    before: SstvUi,
    after: SstvUi,
    mode: u8,
    t: u64,
    i: int,
)
    requires
        before.finished(&after, mode, Some(t)),
        0 < i < after.received@.len(),
    ensures
        after.rx is None,
        after.received@[0] == (SstvRecv { mode: Some(mode), tex: t }),
        after.received@[i] == before.received@[i - 1],
        before.received@.len() < 60 ==> after.received@.len() == before.received@.len() + 1,
        before.received@.len() >= 60 ==> after.received@.len() == 60,
{
}

/// The gallery loads PNG files and nothing else: those whose name ends with the
/// extension and has something before it.
pub proof fn law_only_pngs_are_loaded(names: Seq<String>, s: String)
    ensures
        pngs(names).contains(s) <==> names.contains(s) && is_png(s@),
        is_png(s@) <==> s@.len() > 4 && s@[s@.len() - 4] == '.' && s@[s@.len() - 3] == 'p'
            && s@[s@.len() - 2] == 'n' && s@[s@.len() - 1] == 'g',
{
    lemma_filtered(names, png_name(), s);
    if s@.len() > 4 {
        let e = s@.skip(s@.len() - 4);
        assert(e.len() == 4);
        assert(e[0] == s@[s@.len() - 4] && e[1] == s@[s@.len() - 3] && e[2] == s@[s@.len() - 2]
            && e[3] == s@[s@.len() - 1]);
        if e[0] == '.' && e[1] == 'p' && e[2] == 'n' && e[3] == 'g' {
            assert(e == seq!['.', 'p', 'n', 'g']);
        }
    }
}

/// A row is painted if the detected mode has it and all of its pixels came, of three
/// bytes each.
pub proof fn law_whole_rows_are_painted(ui: SstvUi, y: u16, rgb: Seq<u8>, w: u16, h: u16)
    ensures
        ui.row_painted(y, rgb, w, h) <==> ui.status.detected is Some && y < h && rgb.len() >= 3 * w,
{
}

/// A picture that did not decode is not in the gallery, and is done with all the same.
pub proof fn law_broken_pictures_are_dropped(before: SstvUi, after: SstvUi, mode: u8)
    requires
        before.finished(&after, mode, None),
    ensures
        after.received == before.received,
        after.rx is None,
        after.slots == before.slots && after.tx_mode == before.tx_mode,
{
}

/// The panel starts out detecting, with five empty slots, and sends in the first mode
/// of the list until another is heard or picked.
pub proof fn law_panel_starts_out_detecting(ui: SstvUi, i: int)
    requires
        ui.at_start(),
        0 <= i < 5,
    ensures
        ui.auto && ui.tx_mode == 0,
        ui.slots@.len() == 5 && ui.slots@[i] is None,
        ui.slot_messages@.len() == 5 && ui.slot_messages@[i]@.len() == 0,
        ui.selected_slot == 0 && ui.received@.len() == 0 && ui.rx is None,
        !ui.loaded_disk && ui.preview_dirty,
{
}

/// The gallery loads the forty newest of the stored pictures, or all if there are
/// fewer, and the newest first: none that is left out has a later name than one that
/// is loaded.
pub proof fn law_forty_newest_files_are_loaded(names: Seq<String>, i: int, j: int)
    requires
        0 <= i < gallery_files(names).len(),
        i < j < pngs(names).len(),
    ensures
        pngs(names).len() <= 40 ==> gallery_files(names).len() == pngs(names).len(),
        pngs(names).len() > 40 ==> gallery_files(names).len() == 40,
        !before(gallery_files(names)[i]@, stable_sort(pngs(names), newest_names())[j]@),
        gallery_files(names)[i] == stable_sort(pngs(names), newest_names())[i],
{
    law_stable_sort_keeps_items(pngs(names), newest_names());
    law_gallery_files_newest_first(names, i, j);
}

/// A row that comes while no mode is detected changes nothing; any other leaves all but
/// the picture being received as it is.
pub proof fn law_rows_touch_only_the_picture(
    before: SstvUi,
    after: SstvUi,
    id: u32,
    y: u16,
    rgb: Seq<u8>,
    w: u16,
    h: u16,
)
    requires
        before.lined(&after, id, y, rgb, w, h),
    ensures
        before.status.detected is None ==> after == before,
        before.status.detected is Some ==> after.rx is Some && after.rx_id == id,
        after.received == before.received && after.slots == before.slots && after.tx_mode
            == before.tx_mode,
        after.status == before.status && after.selected_slot == before.selected_slot,
{
}

/// A picture is taken whose sides can be counted in sixteen bits, as it is.
pub proof fn law_pictures_have_countable_sides(rgb: Seq<u8>, w: u32, h: u32)
    ensures
        countable(Some((rgb, w, h))) is Some <==> w <= 65_535 && h <= 65_535,
        countable(Some((rgb, w, h))) matches Some(i) ==> i.0 == rgb && i.1 == w && i.2 == h,
        countable(None) is None,
{
}

/// A click on an empty slot asks for a picture for it, and so does a double click on
/// any; a single one on a slot that has one does not.
pub proof fn law_empty_slots_ask_for_a_picture(ui: SstvUi, slot: usize)
    ensures
        ui.picks(slot, true),
        ui.picks(slot, false) <==> ui.slots@[slot as int] is None,
{
}

} // verus!
