//! The RF Paint panel: text or a picture painted on the waterfall, and when the
//! previews are built anew.
use crate::text::{is_blank, same, trimmed};
use crate::wefax::{gray_image, shows, Picture};
use crate::command::Command;
use vstd::prelude::*;

verus! {

/// A picture in grays.
#[derive(Debug)]
pub struct Gray {
    pub pixels: Vec<u8>,
    pub w: u16,
    pub h: u16,
}

/// The state of the panel.
#[derive(Debug)]
pub struct RfPaintUi {
    /// The line of text to paint.
    pub text: String,
    /// The text that its preview was built from.
    pub text_built_for: String,
    /// The picture to paint.
    pub img: Option<Gray>,
    /// Whether the picture changed since its preview was built.
    pub img_dirty: bool,
}

/// What a frame has to build.
#[derive(Debug)]
pub struct Rebuild {
    /// The preview of the text.
    pub text: bool,
    /// The preview of the picture.
    pub image: bool,
    /// The picture as it is shown; none when there is none or it did not change.
    pub shown: Option<Picture>,
}

impl Default for RfPaintUi {
    /// An empty panel. The text counts as changed, so that an empty one is built
    /// once.
    fn default() -> (r: RfPaintUi)
        ensures
            r.text@.len() == 0,
            r.text_built_for@ == seq!['\0'],
            r.img is None,
            r.img_dirty,
    {
        let mut never = String::new();
        never.push('\0');
        assert(never@ =~= seq!['\0']);
        RfPaintUi { text: String::new(), text_built_for: never, img: None, img_dirty: true }
    }
}

impl RfPaintUi {
    /// A picture file was picked: its grays, or none when it could not be read.
    pub fn picked(&mut self, img: Option<Gray>)
        ensures
            *final(self) == (RfPaintUi { img, img_dirty: true, ..*old(self) }),
    {
        self.img = img;
        self.img_dirty = true;
    }

    /// What changed since the frame before, which then counts as built.
    pub fn ensure(&mut self) -> (r: Rebuild)
        ensures
            r.text == (old(self).text_built_for@ != old(self).text@),
            r.image == old(self).img_dirty,
            match r.shown {
                Some(p) => old(self).img_dirty && (old(self).img matches Some(g) && shows(
                    p,
                    g.pixels@,
                    g.w,
                    g.h,
                )),
                None => !old(self).img_dirty || old(self).img is None,
            },
            final(self).text == old(self).text,
            final(self).text_built_for@ == old(self).text@,
            final(self).img == old(self).img,
            !final(self).img_dirty,
    {
        let text = !same(self.text_built_for.as_str(), self.text.as_str());
        if text {
            self.text_built_for = self.text.clone();
        }
        let image = self.img_dirty;
        self.img_dirty = false;
        let shown = match &self.img {
            Some(g) if image => Some(gray_image(g.pixels.as_slice(), g.w, g.h)),
            _ => None,
        };
        Rebuild { text, image, shown }
    }

    /// Whether the text can be sent.
    pub fn can_paint_text(&self, transmitting: bool) -> (r: bool)
        ensures
            r == (trimmed(self.text@).len() > 0 && !transmitting),
    {
        !is_blank(self.text.as_str()) && !transmitting
    }

    /// Whether the picture can be sent.
    pub fn can_paint_image(&self, transmitting: bool) -> (r: bool)
        ensures
            r == (self.img is Some && !transmitting),
    {
        self.img.is_some() && !transmitting
    }

    /// The button that paints the text, which was drawn into `file` if it could
    /// be.
    pub fn press_text(&self, transmitting: bool, file: Option<Vec<u8>>) -> (r: Option<Command>)
        ensures
            r == match file {
                Some(f) => if trimmed(self.text@).len() > 0 && !transmitting {
                    Some(Command::DigiImageTx(f))
                } else {
                    None
                },
                None => None,
            },
    {
        match file {
            Some(f) => if self.can_paint_text(transmitting) {
                Some(Command::DigiImageTx(f))
            } else {
                None
            },
            None => None,
        }
    }

    /// The button that paints the picture, which was encoded as `file` if it
    /// could be.
    pub fn press_image(&self, transmitting: bool, file: Option<Vec<u8>>) -> (r: Option<Command>)
        ensures
            r == match file {
                Some(f) => if self.img is Some && !transmitting {
                    Some(Command::DigiImageTx(f))
                } else {
                    None
                },
                None => None,
            },
    {
        match file {
            Some(f) => if self.can_paint_image(transmitting) {
                Some(Command::DigiImageTx(f))
            } else {
                None
            },
            None => None,
        }
    }

    /// The button that stops the painting, which is there while it goes on.
    pub fn press_abort(&self, transmitting: bool) -> (r: Option<Command>)
        ensures
            r == if transmitting {
                Some(Command::DigiAbortTx)
            } else {
                None
            },
    {
        if transmitting {
            Some(Command::DigiAbortTx)
        } else {
            None
        }
    }
}

/// How much of a painting was sent, in thousandths.
pub fn progress(tx_sent: Option<u32>) -> (r: u32)
    ensures
        r == match tx_sent {
            None => 0,
            Some(n) => if n < 1000 {
                n
            } else {
                1000
            },
        },
{
    match tx_sent {
        None => 0,
        Some(n) => if n < 1000 {
            n
        } else {
            1000
        },
    }
}

} // verus!
