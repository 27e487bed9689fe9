//! The Hellschreiber receive raster: a scrolling strip of dot columns.
//!
//! Hell has no sync, so the vertical phase of the incoming text floats freely
//! against the receiver's column boundary. Every column is therefore drawn
//! twice, stacked: whatever the phase, one complete legible copy is on screen.
//!
//! The strip is a ring of raw grays. A batch of columns changes a run of it,
//! and only that run has to be sent to the texture again, unless the appearance
//! controls have moved.
use vstd::arithmetic::div_mod::lemma_fundamental_div_mod_converse;
use vstd::prelude::*;

verus! {

/// Dot rows in one received column. Fixed by the mode; batches carrying
/// anything else are rejected rather than allowed to corrupt the ring.
pub const ROWS: usize = 14;

/// Rows actually drawn: every column twice, stacked.
pub const DISPLAY_ROWS: usize = ROWS * 2;

/// Columns of scrollback, about two minutes at Feld Hell's 17.5 columns a
/// second. 2048 is the texture side that every target guarantees.
pub const RING_COLS: usize = 2048;

/// The receive strip.
pub struct HellUi {
    /// Raw received grays, `RING_COLS * ROWS`, column-major. Kept so that a
    /// change of contrast can re-derive the whole texture.
    pub gray: Vec<u8>,
    /// Whether a texture of the strip exists.
    pub built: bool,
    /// Absolute columns received; also the ring write head.
    pub head: u64,
    /// The `seq` the next batch should carry.
    pub expect: u64,
}

/// A run of ring columns, `x0..x0 + n`.
#[derive(Clone, Copy, Debug, PartialEq, Eq, Structural)]
pub struct Run {
    pub x0: usize,
    pub n: usize,
}

/// What has to reach the texture after a batch.
#[derive(Clone, Copy, Debug, PartialEq, Eq, Structural)]
pub enum Upload {
    /// The batch was refused.
    Nothing,
    /// There is no texture yet, or it was shaded for other controls.
    Rebuild,
    /// One run of columns.
    One(Run),
    /// A run that wrapped the ring, as two writes.
    Two(Run, Run),
}

/// The gray of dot `r` of ring column `x`.
pub open spec fn dot(gray: Seq<u8>, x: int, r: int) -> u8 {
    gray[x * ROWS + r]
}

/// How far ring slot `x` lies behind absolute column `start`.
pub open spec fn offset_of(start: int, x: int) -> int {
    (x - start) % (RING_COLS as int)
}

/// Whether writing `n` columns from absolute column `start` reaches slot `x`.
pub open spec fn reached(start: int, n: int, x: int) -> bool {
    offset_of(start, x) < n
}

/// The last of those `n` columns that lands in slot `x`.
pub open spec fn last_writer(start: int, n: int, x: int) -> int {
    let k = offset_of(start, x);
    k + RING_COLS * ((n - 1 - k) / (RING_COLS as int))
}

/// The ring after `n` columns of `cols` were written from absolute column
/// `start` on: each slot holds the last column that landed in it.
pub open spec fn written(gray: Seq<u8>, start: int, cols: Seq<u8>, n: int) -> Seq<u8> {
    Seq::new(
        (RING_COLS * ROWS) as nat,
        |i: int|
            if reached(start, n, i / (ROWS as int)) {
                dot(cols, last_writer(start, n, i / (ROWS as int)), i % (ROWS as int))
            } else {
                gray[i]
            },
    )
}

/// The ring after `n` blank columns from absolute column `start` on.
pub open spec fn blanked(gray: Seq<u8>, start: int, n: int) -> Seq<u8> {
    Seq::new(
        (RING_COLS * ROWS) as nat,
        |i: int|
            if reached(start, n, i / (ROWS as int)) {
                0u8
            } else {
                gray[i]
            },
    )
}

/// An unwritten ring.
pub open spec fn paper() -> Seq<u8> {
    Seq::new((RING_COLS * ROWS) as nat, |i: int| 0u8)
}

/// Whether a batch has the geometry of the mode.
pub open spec fn batch_ok(rows: u8, cols: Seq<u8>) -> bool {
    rows == ROWS && cols.len() > 0 && cols.len() % (ROWS as nat) == 0
}

/// The raster of ring columns `x0..x0 + n`, row by row, every dot written into
/// both stacked halves.
pub open spec fn doubled(gray: Seq<u8>, x0: int, n: int) -> Seq<u8> {
    Seq::new(
        (n * DISPLAY_ROWS) as nat,
        |i: int| dot(gray, (x0 + i % n) % (RING_COLS as int), (i / n) % (ROWS as int)),
    )
}

/// Writing column `c` extends `written` by one.
proof fn lemma_write_step(start: int, c: int, x: int)
    requires
        0 <= c,
        0 <= x < RING_COLS,
    ensures
        x == (start + c) % (RING_COLS as int) ==> reached(start, c + 1, x) && last_writer(
            start,
            c + 1,
            x,
        ) == c,
        x != (start + c) % (RING_COLS as int) ==> reached(start, c + 1, x) == reached(start, c, x)
            && (reached(start, c, x) ==> last_writer(start, c + 1, x) == last_writer(start, c, x)),
{
}

impl HellUi {
    /// The ring always holds every slot, and a column is expected at the
    /// earliest where the write head stands.
    pub open spec fn wf(&self) -> bool {
        &&& self.gray@.len() == RING_COLS * ROWS
        &&& self.head <= self.expect
    }

    /// The write head once a batch at `seq` has made room for itself: at the
    /// start of a fresh strip, or past a gap of the right width.
    pub open spec fn batch_start(&self, seq: u64) -> int {
        if seq < self.expect {
            0
        } else {
            self.head + gap_width(self.expect, seq)
        }
    }

    /// The ring at that moment.
    pub open spec fn batch_base(&self, seq: u64) -> Seq<u8> {
        if seq < self.expect {
            paper()
        } else {
            blanked(self.gray@, self.head as int, gap_width(self.expect, seq))
        }
    }

    /// A batch absorbed at `seq`.
    pub open spec fn absorbed(&self, next: &HellUi, seq: u64, cols: Seq<u8>) -> bool {
        let n = cols.len() as int / (ROWS as int);
        &&& next.gray@ == written(self.batch_base(seq), self.batch_start(seq), cols, n)
        &&& next.head == self.batch_start(seq) + n
        &&& next.expect == seq + n
    }
}

/// Columns lost between the one that was expected and `seq`, at most a ring.
pub open spec fn gap_width(expect: u64, seq: u64) -> int {
    if seq - expect < RING_COLS {
        seq - expect
    } else {
        RING_COLS as int
    }
}

impl Default for HellUi {
    fn default() -> (r: HellUi)
        ensures
            r.wf(),
            r.gray@ == paper(),
            !r.built,
            r.head == 0,
            r.expect == 0,
    {
        let gray = blank_ring();
        HellUi { gray, built: false, head: 0, expect: 0 }
    }
}

/// An unwritten ring.
fn blank_ring() -> (r: Vec<u8>)
    ensures
        r@ == paper(),
{
    let mut gray: Vec<u8> = Vec::new();
    let total: usize = RING_COLS * ROWS;
    let mut i: usize = 0;
    while i < total
        invariant
            total == RING_COLS * ROWS,
            i <= total,
            gray@.len() == i,
            forall|j: int| 0 <= j < i ==> gray@[j] == 0u8,
        decreases total - i,
    {
        gray.push(0);
        i = i + 1;
    }
    assert(gray@ =~= paper());
    gray
}

impl HellUi {
    /// Wipe the strip, on a mode change, a variant change, or on request.
    pub fn clear(&mut self)
        ensures
            final(self).wf(),
            final(self).gray@ == paper(),
            final(self).head == 0,
            final(self).expect == 0,
            !final(self).built,
    {
        self.gray = blank_ring();
        self.head = 0;
        self.expect = 0;
        self.built = false;
    }

    /// Absorb a batch of received columns.
    ///
    /// A batch of another geometry changes nothing. A `seq` behind the expected
    /// one starts a fresh strip; one ahead of it leaves a gap of the right
    /// width. `look_moved` says whether the appearance controls differ from
    /// those that the texture was shaded for.
    pub fn on_columns(&mut self, seq: u64, rows: u8, cols: &[u8], look_moved: bool) -> (up: Upload)
        requires
            old(self).wf(),
            seq + cols@.len() / (ROWS as nat) <= u64::MAX,
        ensures
            final(self).wf(),
            !batch_ok(rows, cols@) ==> *final(self) == *old(self) && up == Upload::Nothing,
            batch_ok(rows, cols@) ==> {
                &&& old(self).absorbed(final(self), seq, cols@)
                &&& final(self).built
                &&& up == upload_plan(
                    old(self).built && seq >= old(self).expect && !look_moved,
                    old(self).batch_start(seq),
                    cols@.len() as int / (ROWS as int),
                )
            },
    {
        if rows as usize != ROWS || cols.len() == 0 || cols.len() % ROWS != 0 {
            return Upload::Nothing;
        }
        if seq < self.expect {
            self.clear();
        } else if seq > self.expect {
            let lost: u64 = seq - self.expect;
            let gap: u64 = if lost < RING_COLS as u64 {
                lost
            } else {
                RING_COLS as u64
            };
            self.blank(gap);
        } else {
            assert(blanked(self.gray@, self.head as int, 0) =~= self.gray@);
        }
        let n: usize = cols.len() / ROWS;
        let start: u64 = self.head;
        let ghost base = self.gray@;
        let ghost built = self.built;
        assert(written(base, start as int, cols@, 0) =~= base);
        let mut c: usize = 0;
        while c < n
            invariant
                self.gray@.len() == RING_COLS * ROWS,
                base.len() == RING_COLS * ROWS,
                cols@.len() == n * ROWS,
                start + n <= u64::MAX,
                c <= n,
                self.head == start,
                self.built == built,
                self.gray@ == written(base, start as int, cols@, c as int),
            decreases n - c,
        {
            let x: usize = ((start + c as u64) % RING_COLS as u64) as usize;
            self.set_column(x, cols, c);
            proof {
                assert forall|i: int| 0 <= i < RING_COLS * ROWS implies self.gray@[i] == written(
                    base,
                    start as int,
                    cols@,
                    c + 1,
                )[i] by {
                    lemma_write_step(start as int, c as int, i / (ROWS as int));
                }
                assert(self.gray@ =~= written(base, start as int, cols@, c + 1));
            }
            c = c + 1;
        }
        self.head = start + n as u64;
        self.expect = seq + n as u64;
        self.upload(start, n, look_moved)
    }

    /// Copy column `c` of a batch into ring slot `x`.
    fn set_column(&mut self, x: usize, cols: &[u8], c: usize)
        requires
            old(self).gray@.len() == RING_COLS * ROWS,
            x < RING_COLS,
            (c + 1) * ROWS <= cols@.len(),
        ensures
            final(self).gray@.len() == RING_COLS * ROWS,
            forall|i: int|
                0 <= i < RING_COLS * ROWS ==> #[trigger] final(self).gray@[i] == (if i / (
                ROWS as int) == x {
                    dot(cols@, c as int, i % (ROWS as int))
                } else {
                    old(self).gray@[i]
                }),
            final(self).head == old(self).head,
            final(self).expect == old(self).expect,
            final(self).built == old(self).built,
    {
        let total: usize = cols.len();
        let mut r: usize = 0;
        while r < ROWS
            invariant
                self.gray@.len() == RING_COLS * ROWS,
                x < RING_COLS,
                (c + 1) * ROWS <= total,
                total == cols@.len(),
                r <= ROWS,
                forall|i: int|
                    0 <= i < RING_COLS * ROWS ==> #[trigger] self.gray@[i] == (if i / (ROWS as int)
                        == x && i % (ROWS as int) < r {
                        dot(cols@, c as int, i % (ROWS as int))
                    } else {
                        old(self).gray@[i]
                    }),
                self.head == old(self).head,
                self.expect == old(self).expect,
                self.built == old(self).built,
            decreases ROWS - r,
        {
            let v: u8 = cols[c * ROWS + r];
            self.gray.set(x * ROWS + r, v);
            r = r + 1;
        }
    }

    /// Advance the head over `n` columns of blank paper.
    fn blank(&mut self, n: u64)
        requires
            old(self).wf(),
            old(self).expect + n <= u64::MAX,
        ensures
            final(self).wf(),
            final(self).gray@ == blanked(old(self).gray@, old(self).head as int, n as int),
            final(self).head == old(self).head + n,
            final(self).expect == old(self).expect + n,
            final(self).built == old(self).built,
    {
        let start: u64 = self.head;
        let ghost base = self.gray@;
        assert(blanked(base, start as int, 0) =~= base);
        let blank_column: [u8; 14] = [0u8; 14];
        let mut c: u64 = 0;
        while c < n
            invariant
                self.gray@.len() == RING_COLS * ROWS,
                base.len() == RING_COLS * ROWS,
                start + n <= u64::MAX,
                c <= n,
                self.head == start,
                self.expect == old(self).expect,
                self.built == old(self).built,
                blank_column@.len() == ROWS,
                forall|r: int| 0 <= r < ROWS ==> blank_column@[r] == 0u8,
                self.gray@ == blanked(base, start as int, c as int),
            decreases n - c,
        {
            let x: usize = ((start + c) % RING_COLS as u64) as usize;
            self.set_column(x, blank_column.as_slice(), 0);
            proof {
                assert forall|i: int| 0 <= i < RING_COLS * ROWS implies self.gray@[i] == blanked(
                    base,
                    start as int,
                    c + 1,
                )[i] by {
                    lemma_write_step(start as int, c as int, i / (ROWS as int));
                }
                assert(self.gray@ =~= blanked(base, start as int, c + 1));
            }
            c = c + 1;
        }
        self.head = start + n;
        self.expect = self.expect + n;
    }

    /// The raster of ring columns `x0..x0 + n`, `n` pixels wide, each column's
    /// dots written into both stacked halves.
    pub fn patch(&self, x0: usize, n: usize) -> (px: Vec<u8>)
        requires
            self.wf(),
            x0 + n <= usize::MAX,
            n * DISPLAY_ROWS <= usize::MAX,
        ensures
            px@ == doubled(self.gray@, x0 as int, n as int),
    {
        let mut px: Vec<u8> = Vec::new();
        let mut row: usize = 0;
        while row < DISPLAY_ROWS
            invariant
                self.wf(),
                x0 + n <= usize::MAX,
                n * DISPLAY_ROWS <= usize::MAX,
                row <= DISPLAY_ROWS,
                px@.len() == row * n,
                forall|i: int|
                    0 <= i < px@.len() ==> #[trigger] px@[i] == doubled(
                        self.gray@,
                        x0 as int,
                        n as int,
                    )[i],
            decreases DISPLAY_ROWS - row,
        {
            let r: usize = row % ROWS;
            let mut c: usize = 0;
            while c < n
                invariant
                    self.wf(),
                    x0 + n <= usize::MAX,
                    n * DISPLAY_ROWS <= usize::MAX,
                    row < DISPLAY_ROWS,
                    r == row % ROWS,
                    c <= n,
                    px@.len() == row * n + c,
                    forall|i: int|
                        0 <= i < px@.len() ==> #[trigger] px@[i] == doubled(
                            self.gray@,
                            x0 as int,
                            n as int,
                        )[i],
                decreases n - c,
            {
                let x: usize = (x0 + c) % RING_COLS;
                px.push(self.gray[x * ROWS + r]);
                proof {
                    let i = row * n + c;
                    lemma_fundamental_div_mod_converse(i, n as int, row as int, c as int);
                    assert(row * n + c < n * 28) by (nonlinear_arith)
                        requires
                            row < 28,
                            c < n,
                    ;
                    assert(i < n * DISPLAY_ROWS);
                    assert(px@[i] == doubled(self.gray@, x0 as int, n as int)[i]);
                }
                c = c + 1;
            }
            proof {
                assert((row + 1) * n == row * n + n) by (nonlinear_arith);
            }
            row = row + 1;
        }
        proof {
            assert(row * n == n * 28) by (nonlinear_arith)
                requires
                    row == 28,
            ;
            assert(px@ =~= doubled(self.gray@, x0 as int, n as int));
        }
        px
    }

    /// Which writes bring `n` columns from absolute index `start` on into the
    /// texture: two when the run wraps the ring, all of it when there is no
    /// texture of the present appearance.
    fn upload(&mut self, start: u64, n: usize, look_moved: bool) -> (up: Upload)
        ensures
            final(self).gray@ == old(self).gray@,
            final(self).head == old(self).head,
            final(self).expect == old(self).expect,
            final(self).built,
            up == upload_plan(old(self).built && !look_moved, start as int, n as int),
    {
        if !self.built || look_moved {
            self.built = true;
            return Upload::Rebuild;
        }
        let x0: usize = (start % RING_COLS as u64) as usize;
        let room: usize = RING_COLS - x0;
        if n > room {
            Upload::Two(Run { x0, n: room }, Run { x0: 0, n: n - room })
        } else {
            Upload::One(Run { x0, n })
        }
    }

    /// Re-derive the raster of the whole strip from the stored grays. Runs on
    /// first use and whenever the appearance controls move, which is what makes
    /// the contrast slider act on the whole scrollback.
    pub fn rebuild(&mut self) -> (px: Vec<u8>)
        requires
            old(self).wf(),
        ensures
            final(self).wf(),
            final(self).gray@ == old(self).gray@,
            final(self).head == old(self).head,
            final(self).expect == old(self).expect,
            final(self).built,
            px@ == doubled(old(self).gray@, 0, RING_COLS as int),
    {
        self.built = true;
        self.patch(0, RING_COLS)
    }

    /// Whether the strip must be rebuilt before it can be drawn.
    pub fn stale(&self, look_moved: bool) -> (r: bool)
        ensures
            r == (!self.built || look_moved),
    {
        !self.built || look_moved
    }
}

/// The writes that bring `n` columns from absolute index `start` on into the
/// texture, given whether one of the present appearance exists.
pub open spec fn upload_plan(ready: bool, start: int, n: int) -> Upload {
    let x0 = start % (RING_COLS as int);
    let room = RING_COLS - x0;
    if !ready {
        Upload::Rebuild
    } else if n > room {
        Upload::Two(
            Run { x0: x0 as usize, n: room as usize },
            Run { x0: 0, n: (n - room) as usize },
        )
    } else {
        Upload::One(Run { x0: x0 as usize, n: n as usize })
    }
}

/// The newest columns of a batch, as many as the ring holds, can be read back
/// from the ring slots where their absolute positions fall.
pub proof fn law_newest_columns_are_kept(
    ring: Seq<u8>,
    start: int,
    cols: Seq<u8>,
    n: int,
    c: int,
    r: int,
)
    requires
        0 <= start,
        0 <= c < n,
        n - RING_COLS <= c,
        0 <= r < ROWS,
    ensures
        dot(written(ring, start, cols, n), (start + c) % (RING_COLS as int), r) == dot(cols, c, r),
{
    let x = (start + c) % (RING_COLS as int);
    let i = x * ROWS + r;
    assert(i / (ROWS as int) == x && i % (ROWS as int) == r);
    assert(offset_of(start, x) == c % (RING_COLS as int));
    assert(last_writer(start, n, x) == c);
}

/// A column that was in the ring before stays as it was, as long as the batch
/// does not come round to its slot.
pub proof fn law_older_columns_stay(
    ring: Seq<u8>,
    start: int,
    cols: Seq<u8>,
    n: int,
    back: int,
    r: int,
)
    requires
        ring.len() == RING_COLS * ROWS,
        0 <= n,
        1 <= back <= RING_COLS - n,
        0 <= r < ROWS,
    ensures
        dot(written(ring, start, cols, n), (start - back) % (RING_COLS as int), r) == dot(
            ring,
            (start - back) % (RING_COLS as int),
            r,
        ),
{
    let x = (start - back) % (RING_COLS as int);
    let i = x * ROWS + r;
    assert(i / (ROWS as int) == x && i % (ROWS as int) == r);
    assert(offset_of(start, x) == RING_COLS - back);
}

/// The column that a slot holds is the newest of the batch that falls there.
proof fn lemma_last_writer(start: int, n: int, x: int, c: int)
    requires
        0 <= x < RING_COLS,
        0 <= n,
        n - RING_COLS <= c < n,
        (c - offset_of(start, x)) % (RING_COLS as int) == 0,
    ensures
        c >= 0 ==> reached(start, n, x) && last_writer(start, n, x) == c,
        c < 0 ==> !reached(start, n, x),
{
}

/// The virtual column of a batch that falls into a slot: the newest, or one from
/// before the batch if it does not come round to that slot.
proof fn lemma_newest_for(start: int, n: int, x: int) -> (c: int)
    requires
        0 <= x < RING_COLS,
        0 <= n,
    ensures
        n - RING_COLS <= c < n,
        (c - offset_of(start, x)) % (RING_COLS as int) == 0,
        c >= 0 <==> reached(start, n, x),
        c >= 0 ==> last_writer(start, n, x) == c,
{
    let k = offset_of(start, x);
    let c = k + RING_COLS * ((n - 1 - k) / (RING_COLS as int));
    lemma_last_writer(start, n, x, c);
    c
}

proof fn lemma_written_in_turn(ring: Seq<u8>, start: int, a: Seq<u8>, b: Seq<u8>)
    requires
        a.len() % (ROWS as nat) == 0,
        b.len() % (ROWS as nat) == 0,
    ensures
        ({
            let na = a.len() as int / (ROWS as int);
            let nb = b.len() as int / (ROWS as int);
            written(written(ring, start, a, na), start + na, b, nb) == written(
                ring,
                start,
                a + b,
                na + nb,
            )
        }),
{
    let na = a.len() as int / (ROWS as int);
    let nb = b.len() as int / (ROWS as int);
    let mid = written(ring, start, a, na);
    let turned = written(mid, start + na, b, nb);
    let joined = written(ring, start, a + b, na + nb);
    assert forall|i: int| 0 <= i < RING_COLS * ROWS implies turned[i] == joined[i] by {
        let x = i / (ROWS as int);
        let r = i % (ROWS as int);
        assert(0 <= x < RING_COLS && 0 <= r < ROWS);
        let c2 = lemma_newest_for(start + na, nb, x);
        let c1 = lemma_newest_for(start, na, x);
        lemma_offsets(start, na, x, c2);
        lemma_last_writer(start, na + nb, x, na + c2);
        if c2 >= 0 {
            assert(dot(b, c2, r) == dot(a + b, na + c2, r));
        } else {
            lemma_same_place(c1, na + c2, offset_of(start, x), na);
            if c1 >= 0 {
                assert(dot(a, c1, r) == dot(a + b, c1, r));
            }
        }
    }
    assert(turned =~= joined);
}

proof fn lemma_offsets(start: int, na: int, x: int, c2: int)
    requires
        (c2 - offset_of(start + na, x)) % (RING_COLS as int) == 0,
    ensures
        (na + c2 - offset_of(start, x)) % (RING_COLS as int) == 0,
{
}

proof fn lemma_same_place(c: int, d: int, k: int, n: int)
    requires
        n - RING_COLS <= c < n,
        n - RING_COLS <= d < n,
        (c - k) % (RING_COLS as int) == 0,
        (d - k) % (RING_COLS as int) == 0,
    ensures
        c == d,
{
}

/// Two batches that follow each other leave the strip as one joined batch does.
pub proof fn law_batches_join(
    before: HellUi,
    mid: HellUi,
    after: HellUi,
    joined: HellUi,
    seq: u64,
    next: u64,
    rows: u8,
    a: Seq<u8>,
    b: Seq<u8>,
)
    requires
        before.wf(),
        batch_ok(rows, a),
        batch_ok(rows, b),
        before.absorbed(&mid, seq, a),
        next == mid.expect,
        mid.absorbed(&after, next, b),
        before.absorbed(&joined, seq, a + b),
    ensures
        after.gray@ == joined.gray@,
        after.head == joined.head,
        after.expect == joined.expect,
{
    lemma_written_in_turn(before.batch_base(seq), before.batch_start(seq), a, b);
    assert(blanked(mid.gray@, mid.head as int, 0) =~= mid.gray@);
}

/// A dropped batch leaves a gap of its real width: the columns between the
/// expected one and the one that came are blank, and what followed them starts
/// after the gap.
pub proof fn law_gap_has_the_right_width(
    before: HellUi,
    after: HellUi,
    seq: u64,
    cols: Seq<u8>,
    g: int,
    r: int,
)
    requires
        before.wf(),
        before.absorbed(&after, seq, cols),
        0 <= g < seq - before.expect,
        seq - before.expect + cols.len() / (ROWS as nat) <= RING_COLS,
        0 <= r < ROWS,
    ensures
        dot(after.gray@, (before.head + g) % (RING_COLS as int), r) == 0,
        after.head - before.head == after.expect - before.expect,
{
    let x = (before.head + g) % (RING_COLS as int);
    let i = x * ROWS + r;
    let n = cols.len() as int / (ROWS as int);
    let start = before.batch_start(seq);
    assert(i / (ROWS as int) == x && i % (ROWS as int) == r);
    assert(offset_of(before.head as int, x) == g);
    assert(offset_of(start, x) == RING_COLS + g - (seq - before.expect));
}

/// Every received column is drawn twice, stacked: of a patch of ring columns, the
/// pixel in a row and the one fourteen rows further down show the same dot of the
/// column that stands there, and each of its fourteen dots is shown.
pub proof fn law_columns_are_drawn_twice(gray: Seq<u8>, x0: int, n: int, col: int, row: int)
    requires
        0 <= col < n,
        0 <= row < 14,
    ensures
        ({
            let px = doubled(gray, x0, n);
            let want = gray[(x0 + col) % 2048 * 14 + row];
            &&& px.len() == n * 28
            &&& px[row * n + col] == want
            &&& px[(row + 14) * n + col] == want
        }),
{
    let a = row * n + col;
    let b = (row + 14) * n + col;
    assert(0 <= a < n * 28 && a % n == col && a / n == row) by (nonlinear_arith)
        requires
            a == row * n + col,
            0 <= col < n,
            0 <= row < 14,
    {
        vstd::arithmetic::div_mod::lemma_fundamental_div_mod_converse(a, n, row, col);
    }
    assert(0 <= b < n * 28 && b % n == col && b / n == row + 14) by (nonlinear_arith)
        requires
            b == (row + 14) * n + col,
            0 <= col < n,
            0 <= row < 14,
    {
        vstd::arithmetic::div_mod::lemma_fundamental_div_mod_converse(b, n, row + 14, col);
    }
}

/// What a batch of up to a ring of columns changed is what is sent to the texture:
/// the runs that are written hold just the slots where its columns fall, and a
/// texture that is missing or shaded for other controls is made anew.
pub proof fn law_upload_brings_what_changed(start: int, n: int, x: int)
    requires
        0 <= start,
        0 < n <= 2048,
        0 <= x < 2048,
    ensures
        ({
            let fell = exists|c: int| start <= c < start + n && #[trigger] (c % 2048) == x;
            &&& upload_plan(false, start, n) == Upload::Rebuild
            &&& match upload_plan(true, start, n) {
                Upload::One(r) => r.x0 + r.n <= 2048 && (fell <==> r.x0 <= x < r.x0 + r.n),
                Upload::Two(r, s) => r.x0 + r.n <= 2048 && s.x0 + s.n <= 2048 && (fell <==> r.x0
                    <= x < r.x0 + r.n || s.x0 <= x < s.x0 + s.n),
                _ => false,
            }
        }),
{
    let x0 = start % 2048;
    let base = start - x0;
    assert(base % 2048 == 0);
    let c = if x >= x0 {
        base + x
    } else {
        base + 2048 + x
    };
    assert(c % 2048 == x);
    assert forall|d: int| start <= d < start + n && #[trigger] (d % 2048) == x implies d == c by {}
}

/// A batch is taken if its columns have the fourteen dots of the mode and none of them
/// is cut short.
pub proof fn law_batches_hold_whole_columns(rows: u8, cols: Seq<u8>, n: nat)
    ensures
        batch_ok(rows, cols) && n == cols.len() / 14 ==> rows == 14 && n > 0 && cols.len() == 14 * n,
        rows == 14 && n > 0 && cols.len() == 14 * n ==> batch_ok(rows, cols),
{
}

/// A batch behind the expected column starts a fresh strip: what was there is gone, and
/// the columns stand at its beginning.
pub proof fn law_an_older_batch_starts_afresh(
    before: HellUi,
    after: HellUi,
    seq: u64,
    cols: Seq<u8>,
    c: int,
    r: int,
)
    requires
        before.wf(),
        before.absorbed(&after, seq, cols),
        seq < before.expect,
        batch_ok(14, cols),
        cols.len() <= 14 * 2048,
        0 <= c < 2048,
        0 <= r < 14,
    ensures
        after.head == cols.len() / 14,
        after.expect == seq + cols.len() / 14,
        c < cols.len() / 14 ==> after.gray@[c * 14 + r] == cols[c * 14 + r],
        c >= cols.len() / 14 ==> after.gray@[c * 14 + r] == 0,
{
    let n = cols.len() as int / 14;
    let i = c * 14 + r;
    assert(i / 14 == c && i % 14 == r);
    assert(0 <= i < 2048 * 14);
    assert(offset_of(0, c) == c);
    if c < n {
        law_newest_columns_are_kept(paper(), 0, cols, n, c, r);
    }
}

} // verus!
