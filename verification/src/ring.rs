//! Fixed-size circular buffer of quantized display rows.
//!
//! The buffer always holds exactly `height` rows of exactly `width` bytes;
//! before real data arrives the rows carry a striped filler pattern. A write
//! lands on the row the offset points at and advances the offset by one,
//! modulo the height, so a renderer can sample the buffer as an endlessly
//! scrolling texture; `scroll_parts` exposes the offset and the height, whose
//! quotient is the fractional scroll position.

use vstd::arithmetic::div_mod::{
    lemma_fundamental_div_mod, lemma_mod_bound, lemma_mod_multiples_vanish, lemma_small_mod,
};
use vstd::prelude::*;

verus! {

/// The filler byte at column `i` of a fresh row: stripes an eighth of the
/// width wide (at least one column), half on, half off.
pub open spec fn filler_byte(width: nat, i: nat) -> u8 {
    let slen = if width / 8 >= 1 {
        width / 8
    } else {
        1
    };
    if i % slen < slen / 2 {
        255u8
    } else {
        0u8
    }
}

/// A fresh row: the stripe pattern across the full width.
pub open spec fn filler_row(width: nat) -> Seq<u8> {
    Seq::new(width, |i: int| filler_byte(width, i as nat))
}

/// One write: replace the row under the offset, advance the offset by one
/// modulo the height.
pub open spec fn ring_write(rows: Seq<Seq<u8>>, off: nat, row: Seq<u8>) -> (Seq<Seq<u8>>, nat)
    recommends
        rows.len() >= 1,
        off < rows.len(),
{
    (rows.update(off as int, row), ((off + 1) % rows.len()))
}

/// A sequence of writes, oldest first.
pub open spec fn ring_write_all(rows: Seq<Seq<u8>>, off: nat, ws: Seq<Seq<u8>>) -> (
    Seq<Seq<u8>>,
    nat,
)
    decreases ws.len(),
{
    if ws.len() == 0 {
        (rows, off)
    } else {
        let step = ring_write(rows, off, ws[0]);
        ring_write_all(step.0, step.1, ws.drop_first())
    }
}

/// A row write attempt with a row of the wrong width is rejected.
#[derive(Clone, Copy, PartialEq, Eq, Structural, Debug)]
pub enum RingError {
    /// The row's length differs from the buffer's fixed width.
    WidthMismatch,
}

/// The circular row buffer backing the scrolling display.
pub struct RingDisplayBuffer {
    rows: Vec<Vec<u8>>,
    width: usize,
    offset: usize,
}

impl View for RingDisplayBuffer {
    type V = Seq<Seq<u8>>;

    closed spec fn view(&self) -> Seq<Seq<u8>> {
        self.rows@.map_values(|r: Vec<u8>| r@)
    }
}

impl RingDisplayBuffer {
    pub closed spec fn spec_width(&self) -> nat {
        self.width as nat
    }

    pub open spec fn spec_height(&self) -> nat {
        self@.len()
    }

    pub closed spec fn spec_offset(&self) -> nat {
        self.offset as nat
    }

    /// Exactly `height` rows exist at all times, each of the fixed width,
    /// and the offset stays inside the buffer.
    pub open spec fn wf(&self) -> bool {
        &&& self.spec_width() >= 1
        &&& self.spec_height() >= 1
        &&& self.spec_offset() < self.spec_height()
        &&& forall|i: int| 0 <= i < self@.len() ==> (#[trigger] self@[i]).len() == self.spec_width()
    }

    /// A fresh buffer: `height` filler rows, offset zero.
    pub fn new(width: usize, height: usize) -> (r: RingDisplayBuffer)
        requires
            width >= 1,
            height >= 1,
        ensures
            r.wf(),
            r.spec_width() == width,
            r.spec_height() == height,
            r.spec_offset() == 0,
            forall|i: int| 0 <= i < height ==> r@[i] =~= filler_row(width as nat),
    {
        let mut rows: Vec<Vec<u8>> = Vec::new();
        let mut i: usize = 0;
        while i < height
            invariant
                width >= 1,
                i <= height,
                rows@.len() == i,
                forall|j: int|
                    0 <= j < i ==> (#[trigger] rows@[j])@ =~= filler_row(width as nat),
            decreases height - i,
        {
            let row = filler(width);
            rows.push(row);
            i += 1;
        }
        let r = RingDisplayBuffer { rows, width, offset: 0 };
        proof {
            assert(forall|i: int| 0 <= i < height ==> r@[i] =~= filler_row(width as nat));
        }
        r
    }

    pub fn width(&self) -> (w: usize)
        ensures
            w == self.spec_width(),
    {
        self.width
    }

    pub fn height(&self) -> (h: usize)
        ensures
            h == self.spec_height(),
    {
        self.rows.len()
    }

    /// The row the next write will overwrite: the oldest row once the
    /// buffer has wrapped.
    pub fn offset(&self) -> (o: usize)
        ensures
            o == self.spec_offset(),
    {
        self.offset
    }

    /// Numerator and denominator of the fractional scroll position
    /// `offset / height` that a renderer applies to its texture.
    pub fn scroll_parts(&self) -> (s: (usize, usize))
        ensures
            s.0 == self.spec_offset(),
            s.1 == self.spec_height(),
    {
        (self.offset, self.rows.len())
    }

    /// Read one row by its physical index.
    pub fn row(&self, i: usize) -> (r: &Vec<u8>)
        requires
            i < self.spec_height(),
        ensures
            r@ == self@[i as int],
    {
        &self.rows[i]
    }

    /// Store `row` at the offset and advance the offset, wrapping at the
    /// height; a row of the wrong width is rejected and changes nothing.
    pub fn write_row(&mut self, row: Vec<u8>) -> (r: Result<(), RingError>)
        requires
            old(self).wf(),
        ensures
            final(self).wf(),
            final(self).spec_width() == old(self).spec_width(),
            final(self).spec_height() == old(self).spec_height(),
            row@.len() != old(self).spec_width() ==> r == Result::<(), RingError>::Err(
                RingError::WidthMismatch,
            ) && final(self)@ == old(self)@ && final(self).spec_offset() == old(self).spec_offset(),
            row@.len() == old(self).spec_width() ==> r == Result::<(), RingError>::Ok(()) && final(self)@ == ring_write(old(self)@, old(self).spec_offset(), row@).0 && final(self).spec_offset() == ring_write(old(self)@, old(self).spec_offset(), row@).1,
    {
        if row.len() != self.width {
            return Err(RingError::WidthMismatch);
        }
        let off = self.offset;
        let height = self.rows.len();
        self.rows[off] = row;
        self.offset = (off + 1) % height;
        proof {
            assert(self@ =~= ring_write(old(self)@, off as nat, self.rows@[off as int]@).0);
            lemma_mod_bound((off + 1) as int, height as int);
        }
        Ok(())
    }
}

/// Build one filler row.
fn filler(width: usize) -> (r: Vec<u8>)
    requires
        width >= 1,
    ensures
        r@ =~= filler_row(width as nat),
{
    let slen = if width / 8 >= 1 {
        width / 8
    } else {
        1
    };
    let half = slen / 2;
    let mut r: Vec<u8> = Vec::new();
    let mut i: usize = 0;
    while i < width
        invariant
            i <= width,
            r@.len() == i,
            slen == (if width / 8 >= 1 {
                width / 8
            } else {
                1
            }),
            half == slen / 2,
            slen >= 1,
            forall|j: int| 0 <= j < i ==> r@[j] == filler_byte(width as nat, j as nat),
        decreases width - i,
    {
        let b: u8 = if i % slen < half {
            255
        } else {
            0
        };
        r.push(b);
        i += 1;
    }
    r
}

/// After any series of writes into a fresh buffer of height `h`, the offset
/// has advanced by the number of writes modulo `h`, the most recent
/// `min(writes, h)` rows sit where they were written, and rows not yet
/// written keep their initial content.
pub proof fn lemma_ring_history(rows0: Seq<Seq<u8>>, ws: Seq<Seq<u8>>, h: nat)
    requires
        h >= 1,
        rows0.len() == h,
    ensures
        ring_write_all(rows0, 0, ws).0.len() == h,
        ring_write_all(rows0, 0, ws).1 == ws.len() % h,
        forall|t: int|
            0 <= t < ws.len() && t < h ==> #[trigger] ring_write_all(rows0, 0, ws).0[(
            (ws.len() - 1 - t) % (h as int)) as int] == ws[ws.len() - 1 - t],
        forall|j: int|
            ws.len() <= j < h ==> #[trigger] ring_write_all(rows0, 0, ws).0[j] == rows0[j],
    decreases ws.len(),
{
    if ws.len() == 0 {
        lemma_small_mod(0, h);
    } else {
        let ws0 = ws.drop_last();
        let w = ws.last();
        let m = ws0.len() as int;
        lemma_ring_history(rows0, ws0, h);
        lemma_write_all_snoc(rows0, 0, ws0, w);
        assert(ws0.push(w) =~= ws);
        let r0 = ring_write_all(rows0, 0, ws0).0;
        let o0 = ring_write_all(rows0, 0, ws0).1;
        let rr = ring_write_all(rows0, 0, ws).0;
        let oo = ring_write_all(rows0, 0, ws).1;
        assert(o0 == m % (h as int));
        lemma_mod_bound(m, h as int);
        // The new offset advances by one, modulo the height.
        assert(oo == ((m % (h as int)) + 1) % (h as int));
        assert(((m % (h as int)) + 1) % (h as int) == (m + 1) % (h as int)) by {
            lemma_fundamental_div_mod(m, h as int);
            lemma_mod_multiples_vanish(m / (h as int), (m % (h as int)) + 1, h as int);
        }
        // Every prior in-window write survives: the slot just written is not
        // any of the previous `h - 1` slots.
        assert forall|t: int| 1 <= t < ws.len() && t < h implies #[trigger] rr[(
        (ws.len() - 1 - t) % (h as int)) as int] == ws[ws.len() - 1 - t] by {
            let idx = (m - t) % (h as int);
            lemma_mod_bound(m - t, h as int);
            assert(r0[((ws0.len() - 1 - (t - 1)) % (h as int)) as int] == ws0[ws0.len() - 1 - (t
                - 1)]);
            assert(ws0.len() - 1 - (t - 1) == m - t);
            assert(r0[idx] == ws0[m - t]);
            assert(idx != m % (h as int)) by {
                lemma_fundamental_div_mod(m, h as int);
                lemma_fundamental_div_mod(m - t, h as int);
                let q1 = m / (h as int);
                let q2 = (m - t) / (h as int);
                if idx == m % (h as int) {
                    assert(t == (h as int) * (q1 - q2)) by (nonlinear_arith)
                        requires
                            m == (h as int) * q1 + m % (h as int),
                            m - t == (h as int) * q2 + (m - t) % (h as int),
                            (m - t) % (h as int) == m % (h as int),
                    ;
                    assert(false) by (nonlinear_arith)
                        requires
                            t == (h as int) * (q1 - q2),
                            1 <= t,
                            t < h as int,
                            h >= 1,
                    ;
                }
            }
        }
        if m < h {
            lemma_small_mod(m as nat, h);
        }
    }
}

/// A series of writes never changes how many rows exist, and the offset
/// stays inside the buffer.
pub proof fn lemma_ring_write_all_len(rows: Seq<Seq<u8>>, off: nat, ws: Seq<Seq<u8>>)
    requires
        rows.len() >= 1,
        off < rows.len(),
    ensures
        ring_write_all(rows, off, ws).0.len() == rows.len(),
        ring_write_all(rows, off, ws).1 < rows.len(),
    decreases ws.len(),
{
    if ws.len() > 0 {
        let step = ring_write(rows, off, ws[0]);
        assert(step.0.len() == rows.len());
        lemma_mod_bound((off + 1) as int, rows.len() as int);
        lemma_ring_write_all_len(step.0, step.1, ws.drop_first());
        assert(ring_write_all(rows, off, ws) == ring_write_all(step.0, step.1, ws.drop_first()));
    } else {
        assert(ring_write_all(rows, off, ws) == (rows, off));
    }
}

/// Writing one more row after a series is the series extended by that row.
pub proof fn lemma_write_all_snoc(rows: Seq<Seq<u8>>, off: nat, ws: Seq<Seq<u8>>, w: Seq<u8>)
    ensures
        ring_write_all(rows, off, ws.push(w)) == ring_write(
            ring_write_all(rows, off, ws).0,
            ring_write_all(rows, off, ws).1,
            w,
        ),
    decreases ws.len(),
{
    if ws.len() == 0 {
        let step = ring_write(rows, off, ws.push(w)[0]);
        assert(ws.push(w).drop_first() =~= Seq::<Seq<u8>>::empty());
        assert(ws.push(w)[0] == w);
        assert(ring_write_all(step.0, step.1, ws.push(w).drop_first()) == (step.0, step.1));
        assert(ring_write_all(rows, off, ws.push(w)) == step);
        assert(ring_write_all(rows, off, ws) == (rows, off));
    } else {
        let step = ring_write(rows, off, ws[0]);
        lemma_write_all_snoc(step.0, step.1, ws.drop_first(), w);
        assert(ws.push(w).drop_first() =~= ws.drop_first().push(w));
        assert(ws.push(w)[0] == ws[0]);
        assert(ring_write_all(rows, off, ws.push(w)) == ring_write_all(
            step.0,
            step.1,
            ws.drop_first().push(w),
        ));
        assert(ring_write_all(rows, off, ws) == ring_write_all(step.0, step.1, ws.drop_first()));
    }
}

/// Ring buffer wraparound: writing `h + k` rows (`k < h`) into a fresh
/// buffer of height `h` leaves the offset at `k`, and the buffer holds the
/// most recent `h` rows with the oldest of them at the offset.
pub proof fn lemma_ring_wraparound(rows0: Seq<Seq<u8>>, ws: Seq<Seq<u8>>, h: nat, k: nat)
    requires
        h >= 1,
        k < h,
        rows0.len() == h,
        ws.len() == h + k,
    ensures
        ring_write_all(rows0, 0, ws).1 == k,
        forall|i: int|
            0 <= i < h ==> #[trigger] ring_write_all(rows0, 0, ws).0[((k + i) % (h as int)) as int]
                == ws[k + i],
{
    lemma_ring_history(rows0, ws, h);
    assert((h + k) % h == k) by {
        lemma_mod_multiples_vanish(1, k as int, h as int);
        lemma_small_mod(k, h);
    }
    assert forall|i: int|
        0 <= i < h implies #[trigger] ring_write_all(rows0, 0, ws).0[((k + i) % (h as int)) as int]
        == ws[k + i] by {
        let t = h - 1 - i;
        assert(ws.len() - 1 - t == k + i);
        assert(ring_write_all(rows0, 0, ws).0[((ws.len() - 1 - t) % (h as int)) as int]
            == ws[ws.len() - 1 - t]);
    }
}

} // verus!
