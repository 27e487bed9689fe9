//! The weather-fax panel: the chart being painted, and the gallery of ones
//! already saved.
//!
//! The picture is built here as well as in the engine, because a remote client
//! sees only the line events, and the panel has to paint a chart that is still
//! twelve minutes from finishing.
use crate::sort::{in_order, law_stable_sort_in_order, orders, sort, stable_sort};
use crate::text::{before, str_before};
use crate::text::{lemma_before_strict, lemma_before_total, lemma_before_transitive};
use crate::zoom::Zoom;
use vstd::prelude::*;

verus! {

/// Widest a chart may get before the panel refuses it, as a guard on a length
/// that arrives from the wire.
pub const MAX_W: usize = 4096;

/// Tallest, matching the demodulator's own limit with headroom.
pub const MAX_H: usize = 4096;

/// Charts held as textures at once. The rest stay on disk and are counted
/// rather than loaded.
pub const GALLERY_MAX: usize = 48;

/// The gray of rows that never arrived.
pub const MID_GRAY: u8 = 128;

/// An opaque colour.
#[derive(Clone, Copy, Debug, PartialEq, Eq, Structural)]
pub struct Rgb {
    pub r: u8,
    pub g: u8,
    pub b: u8,
}

/// A picture, top row first.
#[derive(Debug)]
pub struct Picture {
    pub size: (usize, usize),
    pub pixels: Vec<Rgb>,
}

/// What a chart's file name says of it.
#[derive(Debug)]
pub struct ChartMeta {
    /// When it was received.
    pub unix: i64,
    /// Date, time and station.
    pub label: String,
}

/// A saved chart in the gallery.
#[derive(Debug)]
pub struct Chart {
    /// File name it was saved under, which carries its date and dial.
    pub name: String,
    /// When it was received and where from, read back out of that name. `None`
    /// for a file in the directory that is not one of ours.
    pub meta: Option<ChartMeta>,
    pub size: (u16, u16),
}

/// What the texture of the live chart needs.
#[derive(Debug)]
pub enum LiveTexture {
    /// There is no chart to show.
    Nothing,
    /// It is up to date.
    AsIs,
    /// A new picture for the texture that exists.
    Replace(Picture),
    /// A first picture, for a texture to be made.
    Create(Picture),
}

/// The state of the panel.
pub struct WefaxUi {
    /// The chart being received: one byte per pixel, top row first.
    pub live: Vec<u8>,
    pub live_w: u16,
    pub live_h: u16,
    /// Which picture `live` belongs to, so a restarted transmission clears it
    /// rather than appending to the previous chart.
    pub image_id: u32,
    /// Whether the live chart has a texture.
    pub live_tex: bool,
    /// Whether rows have arrived since that texture was made.
    pub dirty: bool,
    /// How the live chart is scaled into the panel.
    pub zoom: Zoom,
    /// How far it is stretched vertically on top of that, in thousandths; none
    /// for what is no number. Its own control, because the proportions are a
    /// property of the signal: a chart received at the wrong line rate comes out
    /// stretched or squashed.
    pub aspect: Option<i32>,
    /// Whether the live view keeps the newest rows in sight.
    pub follow: bool,
    /// Saved charts, newest first.
    pub gallery: Vec<Chart>,
    pub loaded_disk: bool,
    /// Charts on disk beyond the ones held as textures.
    pub disk_extra: usize,
    /// Where charts are being saved.
    pub dir: String,
    /// Which gallery entry is open full-size, if any.
    pub viewing: Option<usize>,
}

/// A gray as a colour.
pub open spec fn gray_of(v: u8) -> Rgb {
    Rgb { r: v, g: v, b: v }
}

/// The pixel of a raster, black past its end.
pub open spec fn gray_at(gray: Seq<u8>, i: int) -> u8 {
    if i < gray.len() {
        gray[i]
    } else {
        0
    }
}

/// Whether a picture shows a raster at a size.
pub open spec fn shows(p: Picture, gray: Seq<u8>, w: u16, h: u16) -> bool {
    &&& p.size == (w as usize, h as usize)
    &&& p.pixels@ == Seq::new((w * h) as nat, |i: int| gray_of(gray_at(gray, i)))
}

/// A single-channel raster as a picture. A short raster is padded with black.
pub fn gray_image(gray: &[u8], w: u16, h: u16) -> (p: Picture)
    ensures
        shows(p, gray@, w, h),
{
    proof {
        assert(w * h <= 0xffff_ffff) by (nonlinear_arith)
            requires
                w <= 0xffff,
                h <= 0xffff,
        ;
    }
    let total: usize = w as usize * h as usize;
    let mut pixels: Vec<Rgb> = Vec::new();
    let mut i: usize = 0;
    while i < total
        invariant
            total == w * h,
            i <= total,
            pixels@.len() == i,
            forall|k: int| 0 <= k < i ==> #[trigger] pixels@[k] == gray_of(gray_at(gray@, k)),
        decreases total - i,
    {
        let v: u8 = if i < gray.len() {
            gray[i]
        } else {
            0
        };
        pixels.push(Rgb { r: v, g: v, b: v });
        i = i + 1;
    }
    assert(pixels@ =~= Seq::new((w * h) as nat, |i: int| gray_of(gray_at(gray@, i))));
    Picture { size: (w as usize, h as usize), pixels }
}

/// The grays of an image file with its width and height, as the `image` crate
/// decodes it; `None` for bytes that are no image of a format that it knows.
pub uninterp spec fn luma_of(file: Seq<u8>) -> Option<(Seq<u8>, u32, u32)>;

/// `image::guess_format`, `image::load_from_memory_with_format` and
/// `DynamicImage::to_luma8`: an image file as 8-bit grays, its width and its
/// height. The format is told by the file's first bytes, and what is decoded
/// depends on the bytes alone.
#[verifier::external_body]
fn load_luma8(file: &[u8]) -> (r: Option<(Vec<u8>, u32, u32)>)
    ensures
        match r {
            Some(img) => luma_of(file@) == Some((img.0@, img.1, img.2)),
            None => luma_of(file@) is None,
        },
{
    let format = image::guess_format(file).ok()?;
    let img = image::load_from_memory_with_format(file, format).ok()?.to_luma8();
    let (w, h) = (img.width(), img.height());
    Some((img.into_raw(), w, h))
}

/// Whether a decoded raster has a size that the panel takes.
pub open spec fn size_ok(w: u32, h: u32) -> bool {
    0 < w <= MAX_W * 4 && 0 < h <= MAX_H * 4
}

/// A decoded raster with its size, unless that is out of bounds.
pub open spec fn accepted(img: Option<(Seq<u8>, u32, u32)>) -> Option<(Seq<u8>, u16, u16)> {
    match img {
        Some(i) => if size_ok(i.1, i.2) {
            Some((i.0, i.1 as u16, i.2 as u16))
        } else {
            None
        },
        None => None,
    }
}

/// A raster with its size, over its view.
pub open spec fn raster_view(r: Option<(Vec<u8>, u16, u16)>) -> Option<(Seq<u8>, u16, u16)> {
    match r {
        Some(i) => Some((i.0@, i.1, i.2)),
        None => None,
    }
}

/// Take a decoded raster if its size is within bounds.
pub fn accept_size(img: Option<(Vec<u8>, u32, u32)>) -> (r: Option<(Vec<u8>, u16, u16)>)
    ensures
        raster_view(r) == accepted(
            match img {
                Some(i) => Some((i.0@, i.1, i.2)),
                None => None,
            },
        ),
{
    match img {
        Some((gray, w, h)) => {
            if w == 0 || h == 0 || w as usize > MAX_W * 4 || h as usize > MAX_H * 4 {
                None
            } else {
                Some((gray, w as u16, h as u16))
            }
        },
        None => None,
    }
}

/// Decode a PNG to a single-channel raster plus its size.
pub fn decode_gray(png: &[u8]) -> (r: Option<(Vec<u8>, u16, u16)>)
    ensures
        raster_view(r) == accepted(luma_of(png@)),
{
    accept_size(load_luma8(png))
}

impl Chart {
    /// When it was received; 0 when the name does not say.
    pub open spec fn when_spec(&self) -> int {
        match self.meta {
            Some(m) => m.unix as int,
            None => 0,
        }
    }

    /// When it was received, for ordering. A chart whose name says nothing
    /// sorts oldest; there is nowhere better to put it.
    pub fn when(&self) -> (r: i64)
        ensures
            r == self.when_spec(),
    {
        match &self.meta {
            Some(m) => m.unix,
            None => 0,
        }
    }

    /// Whether this chart stands before another in the gallery.
    fn goes_before(&self, o: &Chart) -> (r: bool)
        ensures
            r == comes_first(*self, *o),
    {
        self.when() > o.when() || (self.when() == o.when() && str_before(
            self.name.as_str(),
            o.name.as_str(),
        ))
    }

    /// Date, time and station, or the bare file name when the name is not one
    /// this program wrote.
    pub fn title(&self) -> (r: String)
        ensures
            r@ == match self.meta {
                Some(m) => m.label@,
                None => self.name@,
            },
    {
        match &self.meta {
            Some(m) => m.label.clone(),
            None => self.name.clone(),
        }
    }
}

/// Newest first, and by name where the times are the same.
pub open spec fn comes_first(a: Chart, b: Chart) -> bool {
    a.when_spec() > b.when_spec() || (a.when_spec() == b.when_spec() && before(a.name@, b.name@))
}

/// The order of the gallery.
pub open spec fn chart_before() -> spec_fn(Chart, Chart) -> bool {
    |a: Chart, b: Chart| comes_first(a, b)
}

/// The gallery with one more chart at the front.
pub open spec fn with_chart(
    gallery: Seq<Chart>,
    after: Seq<Chart>,
    name: Seq<char>,
    meta: Option<ChartMeta>,
    size: (u16, u16),
) -> bool {
    let n = if gallery.len() < GALLERY_MAX {
        gallery.len() + 1
    } else {
        GALLERY_MAX as nat
    };
    &&& after.len() == n
    &&& after[0].name@ == name
    &&& after[0].meta == meta
    &&& after[0].size == size
    &&& after.skip(1) == gallery.take(n - 1)
}

impl Default for WefaxUi {
    fn default() -> (r: WefaxUi)
        ensures
            r.wf(),
            r.live_w == 0,
            r.live_h == 0,
            r.image_id == 0,
            !r.live_tex,
            !r.dirty,
            r.zoom == Zoom::FitWidth,
            r.aspect == Some(1000i32),
            r.follow,
            r.gallery@.len() == 0,
            !r.loaded_disk,
            r.disk_extra == 0,
            r.dir@.len() == 0,
            r.viewing is None,
    {
        WefaxUi {
            live: Vec::new(),
            live_w: 0,
            live_h: 0,
            image_id: 0,
            live_tex: false,
            dirty: false,
            zoom: Zoom::FitWidth,
            aspect: Some(1000),
            follow: true,
            gallery: Vec::new(),
            loaded_disk: false,
            disk_extra: 0,
            dir: String::new(),
            viewing: None,
        }
    }
}

impl WefaxUi {
    /// The live raster has the size that it is said to have.
    pub open spec fn wf(&self) -> bool {
        &&& self.live@.len() == self.live_w * self.live_h
        &&& self.live_w <= MAX_W
        &&& self.live_h <= MAX_H
    }

    /// Whether a row of that number and width may belong to any chart.
    pub open spec fn row_ok(y: u16, gray: Seq<u8>) -> bool {
        0 < gray.len() <= MAX_W && y < MAX_H
    }

    /// Whether a row starts a new picture.
    pub open spec fn row_starts(&self, image_id: u32, y: u16) -> bool {
        image_id != self.image_id || y == 0
    }

    /// Rows of the picture before the row is put in.
    pub open spec fn rows_before(&self, image_id: u32, y: u16) -> int {
        if self.row_starts(image_id, y) {
            0
        } else {
            self.live_h as int
        }
    }

    /// Whether a row is put in: it may belong to a chart, has the picture's
    /// width, and is not behind the ones that are there.
    pub open spec fn row_fits(&self, image_id: u32, y: u16, gray: Seq<u8>) -> bool {
        &&& Self::row_ok(y, gray)
        &&& self.row_starts(image_id, y) || gray.len() == self.live_w
        &&& y >= self.rows_before(image_id, y)
    }

    /// The raster once a row that fits is in: what was there, a gray band where
    /// rows are missing, and the row.
    pub open spec fn with_row(&self, image_id: u32, y: u16, gray: Seq<u8>) -> Seq<u8> {
        let h = self.rows_before(image_id, y);
        let kept = if self.row_starts(image_id, y) {
            Seq::<u8>::empty()
        } else {
            self.live@
        };
        kept + Seq::new((gray.len() * (y - h)) as nat, |i: int| MID_GRAY) + gray
    }

    /// The rest of the panel, which rows do not touch.
    pub open spec fn same_gallery(&self, o: &WefaxUi) -> bool {
        &&& self.zoom == o.zoom
        &&& self.aspect == o.aspect
        &&& self.follow == o.follow
        &&& self.gallery == o.gallery
        &&& self.loaded_disk == o.loaded_disk
        &&& self.disk_extra == o.disk_extra
        &&& self.dir == o.dir
        &&& self.viewing == o.viewing
    }

    /// The chart in progress, which the gallery does not touch.
    pub open spec fn same_live(&self, o: &WefaxUi) -> bool {
        &&& self.live == o.live
        &&& self.live_w == o.live_w
        &&& self.live_h == o.live_h
        &&& self.image_id == o.image_id
        &&& self.live_tex == o.live_tex
        &&& self.dirty == o.dirty
        &&& self.zoom == o.zoom
        &&& self.aspect == o.aspect
        &&& self.follow == o.follow
    }

    /// Adopt a freshly decoded scan line.
    ///
    /// A row of an impossible width, or further down than any chart reaches,
    /// changes nothing. A row of another picture, or row 0, starts a new
    /// picture. A row past the next one leaves a gray band; one behind it, or of
    /// another width, is dropped.
    pub fn push_line(&mut self, image_id: u32, y: u16, gray: &[u8])
        requires
            old(self).wf(),
        ensures
            final(self).wf(),
            final(self).same_gallery(old(self)),
            final(self).live_tex == old(self).live_tex,
            !Self::row_ok(y, gray@) ==> *final(self) == *old(self),
            Self::row_ok(y, gray@) ==> final(self).image_id == image_id,
            old(self).row_fits(image_id, y, gray@) ==> {
                &&& final(self).live@ == old(self).with_row(image_id, y, gray@)
                &&& final(self).live_w == gray@.len()
                &&& final(self).live_h == y + 1
                &&& final(self).dirty
            },
            Self::row_ok(y, gray@) && !old(self).row_fits(image_id, y, gray@) ==> {
                &&& final(self).live@ == old(self).live@
                &&& final(self).live_w == old(self).live_w
                &&& final(self).live_h == old(self).live_h
                &&& final(self).dirty == old(self).dirty
            },
    {
        if gray.len() == 0 || gray.len() > MAX_W || y as usize >= MAX_H {
            return ;
        }
        if image_id != self.image_id || y == 0 {
            self.image_id = image_id;
            self.live.clear();
            self.live_w = gray.len() as u16;
            self.live_h = 0;
            assert(self.live@ =~= Seq::<u8>::empty());
        }
        if gray.len() != self.live_w as usize || y < self.live_h {
            return ;
        }
        let ghost kept = self.live@;
        let ghost h = self.live_h as int;
        let w: usize = self.live_w as usize;
        proof {
            assert(w * y <= 4096 * 4096) by (nonlinear_arith)
                requires
                    w <= 4096,
                    y <= 4096,
            ;
            assert(w * h + w * (y - h) == w * y) by (nonlinear_arith);
            assert(w * h <= w * y) by (nonlinear_arith)
                requires
                    h <= y,
                    0 <= w,
            ;
            assert(w * (y + 1) == w * y + w) by (nonlinear_arith);
        }
        self.live.resize(w * y as usize, MID_GRAY);
        assert(self.live@ =~= kept + Seq::new((w * (y - h)) as nat, |i: int| MID_GRAY));
        self.live.extend_from_slice(gray);
        assert(self.live@ =~= old(self).with_row(image_id, y, gray@));
        self.live_h = y + 1;
        self.dirty = true;
    }

    /// Width and rows received of the chart in progress.
    pub fn live_size(&self) -> (r: (u16, u16))
        ensures
            r == (self.live_w, self.live_h),
    {
        (self.live_w, self.live_h)
    }

    /// Whether any row has been received.
    pub fn has_live(&self) -> (r: bool)
        ensures
            r == (self.live_h > 0),
    {
        self.live_h > 0
    }

    /// Throw the live chart away: the operator restarting, or a completed one
    /// having moved to the gallery.
    pub fn clear_live(&mut self)
        requires
            old(self).wf(),
        ensures
            final(self).wf(),
            final(self).same_gallery(old(self)),
            final(self).live@.len() == 0,
            final(self).live_w == old(self).live_w,
            final(self).live_h == 0,
            final(self).image_id == old(self).image_id,
            !final(self).live_tex,
            !final(self).dirty,
    {
        self.live.clear();
        self.live_h = 0;
        self.live_tex = false;
        self.dirty = false;
    }

    /// The live chart as a picture for its texture, made only when rows have
    /// arrived: a full chart is two megapixels and changes twice a second.
    pub fn live_texture(&mut self) -> (r: LiveTexture)
        requires
            old(self).wf(),
        ensures
            final(self).wf(),
            final(self).same_gallery(old(self)),
            final(self).live == old(self).live,
            final(self).live_w == old(self).live_w,
            final(self).live_h == old(self).live_h,
            final(self).image_id == old(self).image_id,
            old(self).live_h == 0 ==> r is Nothing && *final(self) == *old(self),
            old(self).live_h > 0 ==> !final(self).dirty && final(self).live_tex,
            old(self).live_h > 0 && !old(self).dirty && old(self).live_tex ==> r is AsIs,
            old(self).live_h > 0 && old(self).dirty && old(self).live_tex ==> {
                &&& r is Replace
                &&& shows(r->Replace_0, old(self).live@, old(self).live_w, old(self).live_h)
            },
            old(self).live_h > 0 && !old(self).live_tex ==> {
                &&& r is Create
                &&& shows(r->Create_0, old(self).live@, old(self).live_w, old(self).live_h)
            },
    {
        if self.live_h == 0 {
            return LiveTexture::Nothing;
        }
        if !self.dirty && self.live_tex {
            return LiveTexture::AsIs;
        }
        let img = gray_image(self.live.as_slice(), self.live_w, self.live_h);
        self.dirty = false;
        if self.live_tex {
            LiveTexture::Replace(img)
        } else {
            self.live_tex = true;
            LiveTexture::Create(img)
        }
    }

    /// Whether the counters of the panel have room for one more chart.
    pub open spec fn has_room(&self) -> bool {
        &&& self.gallery@.len() >= GALLERY_MAX ==> self.disk_extra + self.gallery@.len() + 1
            - GALLERY_MAX <= usize::MAX
        &&& self.viewing matches Some(v) ==> v < usize::MAX
    }

    /// What a decoded chart does to the panel: it goes to the front of the
    /// gallery, those past the end are counted instead of held, and the entry
    /// that is open moves down by one.
    pub open spec fn charted(
        &self,
        next: &WefaxUi,
        name: Seq<char>,
        meta: Option<ChartMeta>,
        img: Option<(Seq<u8>, u16, u16)>,
    ) -> bool {
        match img {
            None => *next == *self,
            Some(i) => {
                &&& next.same_live(self)
                &&& next.loaded_disk == self.loaded_disk
                &&& next.dir == self.dir
                &&& with_chart(self.gallery@, next.gallery@, name, meta, (i.1, i.2))
                &&& next.disk_extra == self.disk_extra + self.gallery@.len() + 1
                    - next.gallery@.len()
                &&& next.viewing == match self.viewing {
                    Some(v) => Some((v + 1) as usize),
                    None => None,
                }
            },
        }
    }

    /// Add a decoded chart to the front of the gallery. Gives the picture of
    /// which a texture is to be made.
    pub fn add_decoded(
        &mut self,
        name: &str,
        meta: Option<ChartMeta>,
        img: Option<(Vec<u8>, u16, u16)>,
    ) -> (r: Option<Picture>)
        requires
            old(self).wf(),
            old(self).has_room(),
        ensures
            final(self).wf(),
            old(self).charted(final(self), name@, meta, raster_view(img)),
            match img {
                Some(i) => r is Some && shows(r->0, i.0@, i.1, i.2),
                None => r is None,
            },
    {
        let (gray, w, h) = match img {
            Some(i) => i,
            None => {
                return None;
            },
        };
        let picture = gray_image(gray.as_slice(), w, h);
        let chart = Chart { name: name.to_owned(), meta, size: (w, h) };
        self.gallery.insert(0, chart);
        assert(self.gallery@.skip(1) =~= old(self).gallery@);
        if self.gallery.len() > GALLERY_MAX {
            self.disk_extra = self.disk_extra + (self.gallery.len() - GALLERY_MAX);
            self.gallery.truncate(GALLERY_MAX);
        }
        assert(self.gallery@.skip(1) =~= old(self).gallery@.take(self.gallery@.len() - 1));
        if let Some(v) = self.viewing {
            self.viewing = Some(v + 1);
        }
        Some(picture)
    }

    /// Add a PNG to the front of the gallery; bytes that are no picture of a
    /// size that the panel takes change nothing.
    ///
    /// The name is the metadata: `meta` is what was read back out of it.
    pub fn add_chart(&mut self, name: &str, meta: Option<ChartMeta>, png: &[u8]) -> (r: Option<
        Picture,
    >)
        requires
            old(self).wf(),
            old(self).has_room(),
        ensures
            final(self).wf(),
            old(self).charted(final(self), name@, meta, accepted(luma_of(png@))),
            match accepted(luma_of(png@)) {
                Some(i) => r is Some && shows(r->0, i.0, i.1, i.2),
                None => r is None,
            },
    {
        self.add_decoded(name, meta, decode_gray(png))
    }

    /// Put the gallery in newest-first order, whatever order the entries
    /// arrived in.
    pub fn sort_gallery(&mut self)
        requires
            old(self).wf(),
        ensures
            final(self).wf(),
            final(self).same_live(old(self)),
            final(self).loaded_disk == old(self).loaded_disk,
            final(self).disk_extra == old(self).disk_extra,
            final(self).dir == old(self).dir,
            final(self).viewing == old(self).viewing,
            final(self).gallery@ == stable_sort(old(self).gallery@, chart_before()),
    {
        let first = |a: &Chart, b: &Chart| -> (r: bool)
            ensures
                r == comes_first(*a, *b),
        { a.goes_before(b) };
        sort(&mut self.gallery, first, Ghost(chart_before()));
    }
}

proof fn lemma_chart_before_orders()
    ensures
        orders(chart_before()),
{
    let lt = chart_before();
    assert forall|a: Chart| !#[trigger] lt(a, a) by {
        lemma_before_strict(a.name@, a.name@);
    }
    assert forall|a: Chart, b: Chart, c: Chart|
        #![trigger lt(a, b), lt(b, c)]
        lt(a, b) && lt(b, c) implies lt(a, c) by {
        if before(a.name@, b.name@) && before(b.name@, c.name@) {
            lemma_before_transitive(a.name@, b.name@, c.name@);
        }
    }
    assert forall|a: Chart, b: Chart, c: Chart|
        #![trigger lt(a, b), lt(b, c)]
        !lt(a, b) && !lt(b, c) implies !lt(a, c) by {
        if lt(a, c) {
            lemma_before_total(a.name@, b.name@);
            lemma_before_total(b.name@, c.name@);
            lemma_before_strict(a.name@, c.name@);
            if before(c.name@, b.name@) && before(b.name@, a.name@) {
                lemma_before_transitive(c.name@, b.name@, a.name@);
            }
        }
    }
}

/// A sorted gallery is browsed newest first, by when each chart was received,
/// and by name among charts of one moment.
pub proof fn law_gallery_newest_first(gallery: Seq<Chart>, i: int, j: int)
    requires
        0 <= i < j < stable_sort(gallery, chart_before()).len(),
    ensures
        ({
            let sorted = stable_sort(gallery, chart_before());
            &&& sorted[i].when_spec() >= sorted[j].when_spec()
            &&& sorted[i].when_spec() == sorted[j].when_spec() ==> !before(
                sorted[j].name@,
                sorted[i].name@,
            )
        }),
{
    lemma_chart_before_orders();
    law_stable_sort_in_order(gallery, chart_before());
    let sorted = stable_sort(gallery, chart_before());
    assert(in_order(sorted, chart_before()));
    assert(!comes_first(sorted[j], sorted[i]));
}

/// Rows that arrive one after the other build the chart downwards: each is
/// found where its number says, and the ones above it stay as they were.
pub proof fn law_rows_build_downwards(ui: WefaxUi, image_id: u32, y: u16, gray: Seq<u8>, i: int)
    requires
        ui.wf(),
        ui.row_fits(image_id, y, gray),
        0 <= i < gray.len() * (y + 1),
    ensures
        ui.with_row(image_id, y, gray).len() == gray.len() * (y + 1),
        ui.with_row(image_id, y, gray)[i] == (if i >= gray.len() * y {
            gray[i - gray.len() * y]
        } else if i < gray.len() * ui.rows_before(image_id, y) {
            ui.live@[i]
        } else {
            MID_GRAY
        }),
{
    let n = gray.len() as int;
    let h = ui.rows_before(image_id, y);
    assert(n * h + n * (y - h) == n * y) by (nonlinear_arith);
    assert(n * (y + 1) == n * y + n) by (nonlinear_arith);
    assert(n * (y - h) >= 0) by (nonlinear_arith)
        requires
            n >= 0,
            y >= h,
    ;
    assert(h == 0 ==> n * h == 0) by (nonlinear_arith);
}

/// A chart is taken up to 16384 pixels a side, and not without any; what is taken
/// keeps its pixels and its size.
pub proof fn law_charts_have_a_size(gray: Seq<u8>, w: u32, h: u32)
    ensures
        accepted(Some((gray, w, h))) is Some <==> 1 <= w <= 16_384 && 1 <= h <= 16_384,
        accepted(Some((gray, w, h))) matches Some(i) ==> i.0 == gray && i.1 == w && i.2 == h,
        accepted(None) is None,
{
}

/// A row is taken if it is at most 4096 pixels wide and among the first 4096, has
/// the width of its picture, and is not behind those that are there. Row 0 and a row
/// of another picture start anew.
pub proof fn law_rows_that_fit_are_taken(ui: WefaxUi, image_id: u32, y: u16, gray: Seq<u8>)
    ensures
        ({
            let anew = image_id != ui.image_id || y == 0;
            ui.row_fits(image_id, y, gray) <==> 1 <= gray.len() <= 4096 && y < 4096 && (anew || (
            gray.len() == ui.live_w && y >= ui.live_h))
        }),
{
}

/// Rows that never came are shown in middle gray, between what was there before and
/// the row that came.
pub proof fn law_missing_rows_are_gray(ui: WefaxUi, image_id: u32, y: u16, gray: Seq<u8>, i: int)
    requires
        ui.wf(),
        ui.row_fits(image_id, y, gray),
        image_id == ui.image_id && y > 0,
        gray.len() * ui.live_h <= i < gray.len() * y,
    ensures
        ui.with_row(image_id, y, gray)[i] == 128,
{
    assert(gray.len() * (y + 1) == gray.len() * y + gray.len()) by (nonlinear_arith);
    assert(gray.len() * ui.live_h >= 0) by (nonlinear_arith);
    law_rows_build_downwards(ui, image_id, y, gray, i);
}

/// The gallery holds 48 charts: a new one leads, the others follow as they stood,
/// and those that find no place are counted. The chart that is open stays open.
pub proof fn law_new_charts_lead_the_gallery(
    before: WefaxUi,
    after: WefaxUi,
    name: Seq<char>,
    meta: Option<ChartMeta>,
    img: (Seq<u8>, u16, u16),
    i: int,
)
    requires
        before.charted(&after, name, meta, Some(img)),
        before.has_room(),
        0 < i < after.gallery@.len(),
        before.gallery@.len() <= 48,
    ensures
        after.gallery@[0].name@ == name && after.gallery@[0].size == (img.1, img.2),
        after.gallery@[0].meta == meta,
        after.gallery@[i] == before.gallery@[i - 1],
        after.gallery@.len() <= 48,
        after.gallery@.len() + after.disk_extra == before.gallery@.len() + before.disk_extra + 1,
        before.viewing matches Some(v) ==> after.viewing == Some((v + 1) as usize) && (v + 1
            < after.gallery@.len() ==> after.gallery@[v + 1] == before.gallery@[v as int]),
        before.viewing is None ==> after.viewing is None,
{
    assert(after.gallery@.skip(1)[i - 1] == after.gallery@[i]);
    if before.viewing is Some {
        let v = before.viewing->0 as int;
        if v + 1 < after.gallery@.len() {
            assert(after.gallery@.skip(1)[v] == after.gallery@[v + 1]);
        }
    }
}

/// A raster is shown pixel by pixel, each in its gray, and black where it is short.
pub proof fn law_pictures_show_the_raster(p: Picture, gray: Seq<u8>, w: u16, h: u16, i: int)
    requires
        shows(p, gray, w, h),
        0 <= i < w * h,
    ensures
        p.size.0 == w && p.size.1 == h,
        p.pixels@.len() == w * h,
        i < gray.len() ==> p.pixels@[i] == (Rgb { r: gray[i], g: gray[i], b: gray[i] }),
        i >= gray.len() ==> p.pixels@[i] == (Rgb { r: 0, g: 0, b: 0 }),
{
}

} // verus!
