//! The assembled streaming pipeline: capture hands sample chunks to a
//! bounded queue; the engine stage drains it, frames the stream into
//! windows, transforms and quantizes each one, publishes telemetry, and
//! queues rows for the display; the display stage drains its queue into
//! the circular row buffer.
//!
//! Each stage runs in its own execution context in a deployed program;
//! here the stages are methods of one structure, and their contracts state
//! what one full turn of each context does with the shared queues.

use crate::channel::{BoundedChannel, Policy, SendOutcome};
use crate::engine::{bin_byte, SpectralEngine};
use crate::framer::{residue_of, window_count, windows_of, Framer};
use crate::ring::{ring_write_all, RingDisplayBuffer};
use crate::telemetry::{
    telemetry_views, ChannelKey, FrameView, SinkError, TelemetryFrame, TelemetrySink,
};
use vstd::prelude::*;

verus! {

/// A fatal pipeline condition: a consumer thread is gone while its
/// producer still runs. There is no recovery; the caller tears the
/// pipeline down.
#[derive(Clone, Copy, PartialEq, Eq, Structural, Debug)]
pub enum PipelineError {
    /// The display consumer disconnected from the engine stage.
    DisplayDisconnected,
    /// The telemetry consumer disconnected from the engine stage.
    TelemetryDisconnected,
}

/// All queued sample chunks, concatenated in arrival order.
pub open spec fn cat_chunks(chunks: Seq<Vec<u32>>) -> Seq<u32>
    decreases chunks.len(),
{
    if chunks.len() == 0 {
        Seq::empty()
    } else {
        chunks[0]@ + cat_chunks(chunks.drop_first())
    }
}

/// The views of queued display rows, oldest first.
pub open spec fn row_views(rows: Seq<Vec<u8>>) -> Seq<Seq<u8>> {
    rows.map_values(|r: Vec<u8>| r@)
}

/// Offering `items` one by one to a bounded queue holding `buf`: each item
/// is appended if there is room at that moment and dropped otherwise.
pub open spec fn offered<T>(buf: Seq<T>, cap: nat, items: Seq<T>) -> Seq<T>
    decreases items.len(),
{
    if items.len() == 0 {
        buf
    } else {
        offered(
            if buf.len() < cap {
                buf.push(items[0])
            } else {
                buf
            },
            cap,
            items.drop_first(),
        )
    }
}

/// Everything the engine publishes to telemetry for a run of windows: the
/// raw spectrum, then the quantized row, of each window in order.
pub open spec fn engine_frames(spectra: Seq<Vec<(u32, u32)>>, rows: Seq<Vec<u8>>) -> Seq<
    (ChannelKey, FrameView),
>
    recommends
        spectra.len() == rows.len(),
{
    Seq::new(
        2 * spectra.len(),
        |i: int|
            if i % 2 == 0 {
                (ChannelKey::RawSpectrum, FrameView::Spectrum(spectra[i / 2]@))
            } else {
                (ChannelKey::QuantizedRow, FrameView::Row(rows[i / 2]@))
            },
    )
}

/// One more processed window appends its spectrum frame and its row frame.
pub proof fn lemma_engine_frames_snoc(
    spectra: Seq<Vec<(u32, u32)>>,
    rows: Seq<Vec<u8>>,
    b: Vec<(u32, u32)>,
    r: Vec<u8>,
)
    requires
        spectra.len() == rows.len(),
    ensures
        engine_frames(spectra.push(b), rows.push(r)) =~= engine_frames(spectra, rows).push(
            (ChannelKey::RawSpectrum, FrameView::Spectrum(b@)),
        ).push((ChannelKey::QuantizedRow, FrameView::Row(r@))),
{
    let len = spectra.len() as int;
    assert forall|i: int| 0 <= i < 2 * len + 2 implies engine_frames(spectra.push(b), rows.push(r))[i]
        == engine_frames(spectra, rows).push(
        (ChannelKey::RawSpectrum, FrameView::Spectrum(b@)),
    ).push((ChannelKey::QuantizedRow, FrameView::Row(r@)))[i] by {
        if i < 2 * len {
            assert(i / 2 < len);
        } else if i == 2 * len {
            assert(i % 2 == 0 && i / 2 == len);
        } else {
            assert(i % 2 == 1 && i / 2 == len);
        }
    }
}

/// Concatenating one more chunk.
pub proof fn lemma_cat_chunks_snoc(chunks: Seq<Vec<u32>>, c: Vec<u32>)
    ensures
        cat_chunks(chunks.push(c)) =~= cat_chunks(chunks) + c@,
    decreases chunks.len(),
{
    if chunks.len() == 0 {
        assert(chunks.push(c).drop_first() =~= Seq::<Vec<u32>>::empty());
        assert(chunks.push(c)[0] == c);
        assert(cat_chunks(chunks.push(c).drop_first()) =~= Seq::<u32>::empty());
        assert(cat_chunks(chunks.push(c)) =~= c@);
        assert(cat_chunks(chunks) =~= Seq::<u32>::empty());
    } else {
        lemma_cat_chunks_snoc(chunks.drop_first(), c);
        assert(chunks.push(c).drop_first() =~= chunks.drop_first().push(c));
        assert(chunks.push(c)[0] == chunks[0]);
        assert(cat_chunks(chunks.push(c)) == chunks[0]@ + cat_chunks(chunks.drop_first().push(c)));
        assert(cat_chunks(chunks) == chunks[0]@ + cat_chunks(chunks.drop_first()));
        assert(chunks[0]@ + (cat_chunks(chunks.drop_first()) + c@) =~= (chunks[0]@ + cat_chunks(
            chunks.drop_first(),
        )) + c@);
    }
}

/// Offering one more item.
pub proof fn lemma_offered_snoc<T>(buf: Seq<T>, cap: nat, items: Seq<T>, w: T)
    ensures
        offered(buf, cap, items.push(w)) == (if offered(buf, cap, items).len() < cap {
            offered(buf, cap, items).push(w)
        } else {
            offered(buf, cap, items)
        }),
    decreases items.len(),
{
    if items.len() == 0 {
        assert(items.push(w).drop_first() =~= Seq::<T>::empty());
        assert(items.push(w)[0] == w);
        let buf2 = if buf.len() < cap {
            buf.push(w)
        } else {
            buf
        };
        assert(offered(buf2, cap, items.push(w).drop_first()) == buf2);
        assert(offered(buf, cap, items.push(w)) == buf2);
        assert(offered(buf, cap, items) == buf);
    } else {
        let buf2 = if buf.len() < cap {
            buf.push(items[0])
        } else {
            buf
        };
        lemma_offered_snoc(buf2, cap, items.drop_first(), w);
        assert(items.push(w).drop_first() =~= items.drop_first().push(w));
        assert(items.push(w)[0] == items[0]);
        assert(offered(buf, cap, items.push(w)) == offered(
            buf2,
            cap,
            items.drop_first().push(w),
        ));
        assert(offered(buf, cap, items) == offered(buf2, cap, items.drop_first()));
    }
}

/// The whole streaming core, one field per stage or queue.
pub struct Pipeline {
    framer: Framer,
    engine: SpectralEngine,
    sample_q: BoundedChannel<Vec<u32>>,
    display_q: BoundedChannel<Vec<u8>>,
    sink: TelemetrySink,
    ring: RingDisplayBuffer,
}

impl Pipeline {
    /// Transform size: samples per window.
    pub closed spec fn spec_size(&self) -> nat {
        self.framer.spec_size()
    }

    /// Row width: bins per spectrum, `size / 2 + 1`.
    pub closed spec fn spec_width(&self) -> nat {
        self.engine.spec_width()
    }

    pub closed spec fn spec_height(&self) -> nat {
        self.ring.spec_height()
    }

    /// The partial window carried between chunks.
    pub closed spec fn spec_residue(&self) -> Seq<u32> {
        self.framer@
    }

    /// Chunks waiting for the engine stage.
    pub closed spec fn spec_sample_queue(&self) -> Seq<Vec<u32>> {
        self.sample_q@
    }

    /// Rows waiting for the display stage.
    pub closed spec fn spec_display_queue(&self) -> Seq<Vec<u8>> {
        self.display_q@
    }

    /// Frames waiting for the diagnostics consumer.
    pub closed spec fn spec_sink_queue(&self) -> Seq<(ChannelKey, TelemetryFrame)> {
        self.sink@
    }

    /// The display buffer's rows.
    pub closed spec fn spec_ring(&self) -> Seq<Seq<u8>> {
        self.ring@
    }

    pub closed spec fn spec_ring_offset(&self) -> nat {
        self.ring.spec_offset()
    }

    pub closed spec fn spec_display_connected(&self) -> bool {
        self.display_q.spec_connected()
    }

    pub closed spec fn spec_sample_connected(&self) -> bool {
        self.sample_q.spec_connected()
    }

    pub closed spec fn spec_sample_cap(&self) -> nat {
        self.sample_q.spec_cap()
    }

    pub closed spec fn spec_display_cap(&self) -> nat {
        self.display_q.spec_cap()
    }

    pub closed spec fn spec_sink_cap(&self) -> nat {
        self.sink.spec_cap()
    }

    pub closed spec fn spec_sink_connected(&self) -> bool {
        self.sink.spec_connected()
    }

    pub closed spec fn wf(&self) -> bool {
        &&& self.framer.wf()
        &&& self.engine.wf()
        &&& self.sample_q.wf()
        &&& self.display_q.wf()
        &&& self.sink.wf()
        &&& self.ring.wf()
        &&& self.engine.spec_size() == self.framer.spec_size()
        &&& self.ring.spec_width() == self.engine.spec_width()
        &&& self.sample_q.spec_policy() == Policy::DropWarn
        &&& self.display_q.spec_policy() == Policy::DropWarn
        &&& forall|i: int|
            0 <= i < self.display_q@.len() ==> (#[trigger] self.display_q@[i])@.len()
                == self.engine.spec_width()
    }

    /// Assemble a pipeline for windows of `size` samples: queue depths for
    /// the three hand-offs and the number of retained display rows are
    /// fixed here for its whole life.
    pub fn new(
        size: usize,
        sample_depth: usize,
        display_depth: usize,
        telemetry_depth: usize,
        height: usize,
    ) -> (r: Pipeline)
        requires
            size >= 1,
            sample_depth >= 1,
            display_depth >= 1,
            telemetry_depth >= 1,
            height >= 1,
        ensures
            r.wf(),
            r.spec_size() == size,
            r.spec_width() == size / 2 + 1,
            r.spec_height() == height,
            r.spec_residue() == Seq::<u32>::empty(),
            r.spec_sample_queue() == Seq::<Vec<u32>>::empty(),
            r.spec_display_queue() == Seq::<Vec<u8>>::empty(),
            r.spec_sink_queue() == Seq::<(ChannelKey, TelemetryFrame)>::empty(),
            r.spec_ring_offset() == 0,
            r.spec_sample_cap() == sample_depth,
            r.spec_display_cap() == display_depth,
            r.spec_sink_cap() == telemetry_depth,
            r.spec_sample_connected(),
            r.spec_display_connected(),
            r.spec_sink_connected(),
            r.spec_capture_warnings() == 0,
    {
        let engine = SpectralEngine::new(size);
        let width = engine.width();
        Pipeline {
            framer: Framer::new(size),
            engine,
            sample_q: BoundedChannel::new(sample_depth, Policy::DropWarn),
            display_q: BoundedChannel::new(display_depth, Policy::DropWarn),
            sink: TelemetrySink::new(telemetry_depth),
            ring: RingDisplayBuffer::new(width, height),
        }
    }

    /// The capture side: offer one chunk, never waiting. A full queue
    /// drops the chunk and counts a warning; a disconnected engine stage
    /// is the capture thread's stop condition.
    pub fn push_samples(&mut self, chunk: Vec<u32>) -> (o: SendOutcome)
        requires
            old(self).wf(),
        ensures
            final(self).wf(),
            final(self).spec_size() == old(self).spec_size(),
            final(self).spec_width() == old(self).spec_width(),
            final(self).spec_height() == old(self).spec_height(),
            final(self).spec_residue() == old(self).spec_residue(),
            final(self).spec_display_queue() == old(self).spec_display_queue(),
            final(self).spec_sink_queue() == old(self).spec_sink_queue(),
            final(self).spec_ring() == old(self).spec_ring(),
            final(self).spec_ring_offset() == old(self).spec_ring_offset(),
            final(self).spec_sample_cap() == old(self).spec_sample_cap(),
            final(self).spec_display_cap() == old(self).spec_display_cap(),
            final(self).spec_sink_cap() == old(self).spec_sink_cap(),
            final(self).spec_sample_connected() == old(self).spec_sample_connected(),
            final(self).spec_display_connected() == old(self).spec_display_connected(),
            final(self).spec_sink_connected() == old(self).spec_sink_connected(),
            old(self).spec_sample_connected() && old(self).spec_sample_queue().len() < old(self).spec_sample_cap() ==> o == SendOutcome::Accepted && final(self).spec_sample_queue() == old(self).spec_sample_queue().push(chunk) && final(self).spec_capture_warnings() == old(self).spec_capture_warnings(),
            old(self).spec_sample_connected() && old(self).spec_sample_queue().len() >= old(self).spec_sample_cap() ==> o == SendOutcome::Dropped && final(self).spec_sample_queue()
                == old(self).spec_sample_queue() && final(self).spec_capture_warnings() == (if old(self).spec_capture_warnings() < 0xffff_ffff_ffff_ffff {
                old(self).spec_capture_warnings() + 1
            } else {
                old(self).spec_capture_warnings()
            }),
            !old(self).spec_sample_connected() ==> o == SendOutcome::Disconnected && final(self).spec_sample_queue() == old(self).spec_sample_queue() && final(self).spec_capture_warnings() == old(self).spec_capture_warnings(),
    {
        self.sample_q.produce(chunk)
    }

    /// Chunks dropped under burst, as the capture queue's saturating
    /// warning counter.
    pub closed spec fn spec_capture_warnings(&self) -> nat {
        self.sample_q.spec_warnings()
    }

    /// Warnings counted on the capture queue: chunks dropped under burst.
    pub fn capture_warnings(&self) -> (w: u64)
        ensures
            w == self.spec_capture_warnings(),
    {
        self.sample_q.warnings()
    }

    /// Publish one raw sample block to the diagnostics channel for it, a
    /// best-effort send like every telemetry publication.
    pub fn publish_source_samples(&mut self, block: Vec<u32>) -> (r: Result<(), SinkError>)
        requires
            old(self).wf(),
        ensures
            final(self).wf(),
            final(self).spec_size() == old(self).spec_size(),
            final(self).spec_width() == old(self).spec_width(),
            final(self).spec_height() == old(self).spec_height(),
            final(self).spec_residue() == old(self).spec_residue(),
            final(self).spec_sample_queue() == old(self).spec_sample_queue(),
            final(self).spec_display_queue() == old(self).spec_display_queue(),
            final(self).spec_ring() == old(self).spec_ring(),
            final(self).spec_ring_offset() == old(self).spec_ring_offset(),
            final(self).spec_sample_cap() == old(self).spec_sample_cap(),
            final(self).spec_display_cap() == old(self).spec_display_cap(),
            final(self).spec_sink_cap() == old(self).spec_sink_cap(),
            final(self).spec_sample_connected() == old(self).spec_sample_connected(),
            final(self).spec_display_connected() == old(self).spec_display_connected(),
            final(self).spec_sink_connected() == old(self).spec_sink_connected(),
            !old(self).spec_sink_connected() ==> r == Result::<(), SinkError>::Err(
                SinkError::Disconnected,
            ) && final(self).spec_sink_queue() == old(self).spec_sink_queue(),
            old(self).spec_sink_connected() && old(self).spec_sink_queue().len() < old(self).spec_sink_cap() ==> r == Result::<(), SinkError>::Ok(()) && final(self).spec_sink_queue()
                == old(self).spec_sink_queue().push(
                (ChannelKey::SourceSamples, TelemetryFrame::Samples(block)),
            ),
            old(self).spec_sink_connected() && old(self).spec_sink_queue().len() >= old(self).spec_sink_cap() ==> r == Result::<(), SinkError>::Ok(()) && final(self).spec_sink_queue()
                == old(self).spec_sink_queue(),
    {
        self.sink.send(ChannelKey::SourceSamples, TelemetryFrame::Samples(block))
    }

    /// The diagnostics side: take the oldest telemetry frame, if any.
    pub fn recv_telemetry(&mut self) -> (r: Option<(ChannelKey, TelemetryFrame)>)
        requires
            old(self).wf(),
        ensures
            final(self).wf(),
            final(self).spec_size() == old(self).spec_size(),
            final(self).spec_width() == old(self).spec_width(),
            final(self).spec_height() == old(self).spec_height(),
            final(self).spec_residue() == old(self).spec_residue(),
            final(self).spec_sample_queue() == old(self).spec_sample_queue(),
            final(self).spec_display_queue() == old(self).spec_display_queue(),
            final(self).spec_ring() == old(self).spec_ring(),
            final(self).spec_ring_offset() == old(self).spec_ring_offset(),
            final(self).spec_sample_cap() == old(self).spec_sample_cap(),
            final(self).spec_display_cap() == old(self).spec_display_cap(),
            final(self).spec_sink_cap() == old(self).spec_sink_cap(),
            final(self).spec_sample_connected() == old(self).spec_sample_connected(),
            final(self).spec_display_connected() == old(self).spec_display_connected(),
            final(self).spec_sink_connected() == old(self).spec_sink_connected(),
            old(self).spec_sink_queue().len() == 0 ==> r is None && final(self).spec_sink_queue()
                == old(self).spec_sink_queue(),
            old(self).spec_sink_queue().len() > 0 ==> r == Some(old(self).spec_sink_queue()[0])
                && final(self).spec_sink_queue() == old(self).spec_sink_queue().drop_first(),
    {
        self.sink.recv()
    }

    /// The offset and height of the ring, for the renderer's scroll
    /// fraction.
    pub fn scroll_parts(&self) -> (s: (usize, usize))
        requires
            self.wf(),
        ensures
            s.0 == self.spec_ring_offset(),
            s.1 == self.spec_height(),
    {
        self.ring.scroll_parts()
    }

    /// Read one physical row of the ring.
    pub fn ring_row(&self, i: usize) -> (r: &Vec<u8>)
        requires
            self.wf(),
            i < self.spec_height(),
        ensures
            r@ == self.spec_ring()[i as int],
    {
        self.ring.row(i)
    }

    /// The width of every row, `size / 2 + 1`.
    pub fn width(&self) -> (w: usize)
        requires
            self.wf(),
        ensures
            w == self.spec_width(),
    {
        self.engine.width()
    }

    /// The display side: drain every queued row into the ring buffer, in
    /// order, never waiting; returns how many rows were written.
    pub fn drain_display(&mut self) -> (n: usize)
        requires
            old(self).wf(),
        ensures
            final(self).wf(),
            final(self).spec_size() == old(self).spec_size(),
            final(self).spec_width() == old(self).spec_width(),
            final(self).spec_height() == old(self).spec_height(),
            final(self).spec_residue() == old(self).spec_residue(),
            final(self).spec_sample_queue() == old(self).spec_sample_queue(),
            final(self).spec_sink_queue() == old(self).spec_sink_queue(),
            final(self).spec_display_queue() == Seq::<Vec<u8>>::empty(),
            final(self).spec_sample_cap() == old(self).spec_sample_cap(),
            final(self).spec_display_cap() == old(self).spec_display_cap(),
            final(self).spec_sink_cap() == old(self).spec_sink_cap(),
            final(self).spec_sample_connected() == old(self).spec_sample_connected(),
            final(self).spec_display_connected() == old(self).spec_display_connected(),
            final(self).spec_sink_connected() == old(self).spec_sink_connected(),
            n == old(self).spec_display_queue().len(),
            final(self).spec_ring() == ring_write_all(
                old(self).spec_ring(),
                old(self).spec_ring_offset(),
                row_views(old(self).spec_display_queue()),
            ).0,
            final(self).spec_ring_offset() == ring_write_all(
                old(self).spec_ring(),
                old(self).spec_ring_offset(),
                row_views(old(self).spec_display_queue()),
            ).1,
    {
        let ghost dq0 = self.display_q@;
        let ghost ring0 = self.ring@;
        let ghost off0 = self.ring.spec_offset();
        let len0 = self.display_q.len();
        let mut n: usize = 0;
        proof {
            assert(row_views(dq0.take(0)) =~= Seq::<Seq<u8>>::empty());
        }
        loop
            invariant
                self.wf(),
                self.framer == old(self).framer,
                self.engine == old(self).engine,
                self.sample_q == old(self).sample_q,
                self.sink == old(self).sink,
                len0 == dq0.len(),
                n <= len0,
                self.display_q@ == dq0.skip(n as int),
                self.display_q.spec_cap() == old(self).display_q.spec_cap(),
                self.display_q.spec_policy() == old(self).display_q.spec_policy(),
                self.display_q.spec_connected() == old(self).display_q.spec_connected(),
                forall|i: int| 0 <= i < dq0.len() ==> (#[trigger] dq0[i])@.len() == self.spec_width(),
                self.ring@ == ring_write_all(ring0, off0, row_views(dq0.take(n as int))).0,
                self.ring.spec_offset() == ring_write_all(
                    ring0,
                    off0,
                    row_views(dq0.take(n as int)),
                ).1,
            ensures
                self.wf(),
                self.framer == old(self).framer,
                self.engine == old(self).engine,
                self.sample_q == old(self).sample_q,
                self.sink == old(self).sink,
                self.display_q@.len() == 0,
                self.display_q.spec_cap() == old(self).display_q.spec_cap(),
                self.display_q.spec_policy() == old(self).display_q.spec_policy(),
                self.display_q.spec_connected() == old(self).display_q.spec_connected(),
                n == dq0.len(),
                self.ring@ == ring_write_all(ring0, off0, row_views(dq0.take(n as int))).0,
                self.ring.spec_offset() == ring_write_all(
                    ring0,
                    off0,
                    row_views(dq0.take(n as int)),
                ).1,
            decreases self.display_q@.len(),
        {
            let next = self.display_q.recv();
            match next {
                None => {
                    proof {
                        assert(dq0.skip(n as int).len() == 0);
                    }
                    break ;
                },
                Some(row) => {
                    proof {
                        assert(dq0.skip(n as int)[0] == dq0[n as int]);
                        assert(dq0.skip(n as int).drop_first() =~= dq0.skip(n as int + 1));
                    }
                    let res = self.ring.write_row(row);
                    proof {
                        assert(res is Ok);
                        crate::ring::lemma_write_all_snoc(
                            ring0,
                            off0,
                            row_views(dq0.take(n as int)),
                            dq0[n as int]@,
                        );
                        assert(row_views(dq0.take(n as int)).push(dq0[n as int]@) =~= row_views(
                            dq0.take(n as int + 1),
                        ));
                    }
                    n += 1;
                },
            }
        }
        proof {
            assert(dq0.take(dq0.len() as int) =~= dq0);
            assert(self.display_q@ =~= Seq::<Vec<u8>>::empty());
            crate::ring::lemma_ring_write_all_len(ring0, off0, row_views(dq0));
        }
        n
    }

    /// One full turn of the engine stage: drain every queued chunk through
    /// the framer and, for each completed window, transform it, publish
    /// the raw spectrum and the quantized row to telemetry, and offer the
    /// row to the display queue. Returns the spectra and rows of this
    /// turn, in window order; a disconnected display or telemetry
    /// consumer is fatal and reported instead.
    #[verifier::loop_isolation(false)]
    #[verifier::rlimit(60)]
    pub fn engine_step(&mut self) -> (r: Result<(Vec<Vec<(u32, u32)>>, Vec<Vec<u8>>), PipelineError>)
        requires
            old(self).wf(),
        ensures
            final(self).wf(),
            final(self).spec_size() == old(self).spec_size(),
            final(self).spec_width() == old(self).spec_width(),
            final(self).spec_height() == old(self).spec_height(),
            final(self).spec_ring() == old(self).spec_ring(),
            final(self).spec_ring_offset() == old(self).spec_ring_offset(),
            final(self).spec_display_connected() == old(self).spec_display_connected(),
            final(self).spec_sink_connected() == old(self).spec_sink_connected(),
            final(self).spec_sample_connected() == old(self).spec_sample_connected(),
            final(self).spec_sample_cap() == old(self).spec_sample_cap(),
            final(self).spec_display_cap() == old(self).spec_display_cap(),
            final(self).spec_sink_cap() == old(self).spec_sink_cap(),
            old(self).spec_display_connected() && old(self).spec_sink_connected() ==> r is Ok,
            r is Err ==> !old(self).spec_display_connected() || !old(self).spec_sink_connected(),
            (!old(self).spec_display_connected() || !old(self).spec_sink_connected())
                && window_count(
                old(self).spec_residue() + cat_chunks(old(self).spec_sample_queue()),
                old(self).spec_size(),
            ) > 0 ==> r is Err,
            r matches Ok(out) ==> ({
                let stream = old(self).spec_residue() + cat_chunks(old(self).spec_sample_queue());
                let n = old(self).spec_size();
                let width = old(self).spec_width();
                &&& final(self).spec_sample_queue() == Seq::<Vec<u32>>::empty()
                &&& final(self).spec_residue() == residue_of(stream, n)
                &&& out.0@.len() == window_count(stream, n)
                &&& out.1@.len() == window_count(stream, n)
                &&& (forall|w: int|
                    0 <= w < out.0@.len() ==> (#[trigger] out.0@[w])@.len() == width
                        && out.1@[w]@.len() == width)
                &&& (forall|w: int, b: int|
                    0 <= w < out.0@.len() && 0 <= b < width ==> (#[trigger] out.1@[w]@[b]) as nat
                        == bin_byte(out.0@[w]@[b], width))
                &&& row_views(final(self).spec_display_queue()) == offered(
                    row_views(old(self).spec_display_queue()),
                    old(self).spec_display_cap(),
                    row_views(out.1@),
                )
                &&& telemetry_views(final(self).spec_sink_queue()) == offered(
                    telemetry_views(old(self).spec_sink_queue()),
                    old(self).spec_sink_cap(),
                    engine_frames(out.0@, out.1@),
                )
            }),
    {
        let ghost res0 = self.framer@;
        let ghost sq0 = self.sample_q@;
        let ghost dqv0 = row_views(self.display_q@);
        let ghost sink0 = self.sink@;
        let ghost n = self.spec_size();
        let ghost width = self.spec_width();
        let ghost dcap = self.display_q.spec_cap();
        let ghost scap = self.sink.spec_cap();
        let len0 = self.sample_q.len();
        let mut spectra: Vec<Vec<(u32, u32)>> = Vec::new();
        let mut rows: Vec<Vec<u8>> = Vec::new();
        let mut j: usize = 0;
        proof {
            self.framer.lemma_wf();
            assert(cat_chunks(sq0.take(0)) =~= Seq::<u32>::empty());
            assert(res0 + cat_chunks(sq0.take(0)) =~= res0);
            crate::framer::lemma_windows_short(res0, n);
            assert(row_views(rows@) =~= Seq::<Seq<u8>>::empty());
            assert(row_views(self.display_q@) == offered(dqv0, dcap, row_views(rows@)));
            assert(engine_frames(spectra@, rows@) =~= Seq::<(ChannelKey, FrameView)>::empty());
            assert(telemetry_views(self.sink@) == offered(
                telemetry_views(sink0),
                scap,
                engine_frames(spectra@, rows@),
            ));
        }
        while self.sample_q.len() > 0
            invariant
                self.wf(),
                self.spec_size() == n,
                self.spec_width() == width,
                self.ring == old(self).ring,
                self.display_q.spec_connected() == old(self).display_q.spec_connected(),
                self.sink.spec_connected() == old(self).sink.spec_connected(),
                self.sample_q.spec_connected() == old(self).sample_q.spec_connected(),
                self.display_q.spec_cap() == dcap,
                self.sample_q.spec_cap() == old(self).sample_q.spec_cap(),
                self.sink.spec_cap() == old(self).sink.spec_cap(),
                j <= len0,
                self.sample_q@ == sq0.skip(j as int),
                self.framer@ == residue_of(res0 + cat_chunks(sq0.take(j as int)), n),
                spectra@.len() == rows@.len(),
                rows@.len() == window_count(res0 + cat_chunks(sq0.take(j as int)), n),
                forall|w: int|
                    0 <= w < spectra@.len() ==> (#[trigger] spectra@[w])@.len() == width
                        && rows@[w]@.len() == width,
                forall|w: int, b: int|
                    0 <= w < spectra@.len() && 0 <= b < width ==> (#[trigger] rows@[w]@[b]) as nat
                        == bin_byte(spectra@[w]@[b], width),
                row_views(self.display_q@) == offered(dqv0, dcap, row_views(rows@)),
                telemetry_views(self.sink@) == offered(
                    telemetry_views(sink0),
                    scap,
                    engine_frames(spectra@, rows@),
                ),
                rows@.len() > 0 ==> old(self).display_q.spec_connected() && old(self).sink.spec_connected(),
            decreases len0 - j,
        {
            let next = self.sample_q.recv();
            let chunk = match next {
                None => {
                    proof {
                        assert(false);
                    }
                    vstd::pervasive::unreached::<Vec<u32>>()
                },
                Some(c) => c,
            };
            proof {
                assert(sq0.skip(j as int)[0] == sq0[j as int]);
                assert(sq0.skip(j as int).drop_first() =~= sq0.skip(j as int + 1));
                assert(sq0.take(j as int + 1) =~= sq0.take(j as int).push(sq0[j as int]));
                lemma_cat_chunks_snoc(sq0.take(j as int), sq0[j as int]);
            }
            let ghost stream_j = res0 + cat_chunks(sq0.take(j as int));
            let ghost stream_j1 = res0 + cat_chunks(sq0.take(j as int + 1));
            proof {
                assert(stream_j1 =~= stream_j + chunk@);
            }
            let ghost framer_pre = self.framer@;
            let wins = self.framer.push_chunk(&chunk);
            proof {
                crate::framer::lemma_framing_split(stream_j, chunk@, n);
                crate::framer::lemma_windows_len(framer_pre + chunk@, n);
                assert(windows_of(stream_j1, n) =~= windows_of(stream_j, n) + windows_of(
                    framer_pre + chunk@,
                    n,
                ));
                assert(self.framer@ == residue_of(stream_j1, n));
            }
            let ghost count_j = window_count(stream_j, n);
            let ghost wins_map = wins@.map_values(|v: Vec<u32>| v@);
            let mut w: usize = 0;
            while w < wins.len()
                invariant
                    w <= wins@.len(),
                    self.wf(),
                    self.spec_size() == n,
                    self.spec_width() == width,
                    self.ring == old(self).ring,
                    self.display_q.spec_connected() == old(self).display_q.spec_connected(),
                    self.sink.spec_connected() == old(self).sink.spec_connected(),
                    self.sample_q.spec_connected() == old(self).sample_q.spec_connected(),
                    self.display_q.spec_cap() == dcap,
                    self.sample_q.spec_cap() == old(self).sample_q.spec_cap(),
                    self.sink.spec_cap() == old(self).sink.spec_cap(),
                    self.sample_q@ == sq0.skip(j as int + 1),
                    self.framer@ == residue_of(stream_j1, n),
                    spectra@.len() == rows@.len(),
                    rows@.len() == count_j + w,
                    forall|ww: int|
                        0 <= ww < spectra@.len() ==> (#[trigger] spectra@[ww])@.len() == width
                            && rows@[ww]@.len() == width,
                    forall|ww: int, b: int|
                        0 <= ww < spectra@.len() && 0 <= b < width ==> (#[trigger] rows@[ww]@[b]) as nat
                            == bin_byte(spectra@[ww]@[b], width),
                    row_views(self.display_q@) == offered(dqv0, dcap, row_views(rows@)),
                    telemetry_views(self.sink@) == offered(
                        telemetry_views(sink0),
                        scap,
                        engine_frames(spectra@, rows@),
                    ),
                    rows@.len() > 0 ==> old(self).display_q.spec_connected() && old(self).sink.spec_connected(),
                decreases wins@.len() - w,
            {
                proof {
                    assert(wins_map[w as int] == wins@[w as int]@);
                    assert(wins@[w as int]@.len() == n);
                }
                let win = &wins[w];
                let out = self.engine.process_window(win);
                let bins = out.0;
                let row = out.1;
                let ghost frames_pre = engine_frames(spectra@, rows@);
                let ghost entry1 = (ChannelKey::RawSpectrum, FrameView::Spectrum(bins@));
                let ghost entry2 = (ChannelKey::QuantizedRow, FrameView::Row(row@));
                let ghost sink_a = self.sink@;
                let bins_copy = copy_bins(&bins);
                let send1 = self.sink.send(
                    ChannelKey::RawSpectrum,
                    TelemetryFrame::Spectrum(bins_copy),
                );
                if send1.is_err() {
                    return Err(PipelineError::TelemetryDisconnected);
                }
                proof {
                    lemma_offered_snoc(telemetry_views(sink0), scap, frames_pre, entry1);
                    if sink_a.len() < scap {
                        assert(telemetry_views(self.sink@) =~= telemetry_views(sink_a).push(
                            entry1,
                        ));
                    }
                    assert(telemetry_views(self.sink@) == offered(
                        telemetry_views(sink0),
                        scap,
                        frames_pre.push(entry1),
                    ));
                }
                let ghost sink_b = self.sink@;
                let row_copy = copy_row(&row);
                let send2 = self.sink.send(ChannelKey::QuantizedRow, TelemetryFrame::Row(row_copy));
                if send2.is_err() {
                    return Err(PipelineError::TelemetryDisconnected);
                }
                proof {
                    lemma_offered_snoc(telemetry_views(sink0), scap, frames_pre.push(entry1), entry2);
                    if sink_b.len() < scap {
                        assert(telemetry_views(self.sink@) =~= telemetry_views(sink_b).push(
                            entry2,
                        ));
                    }
                    assert(telemetry_views(self.sink@) == offered(
                        telemetry_views(sink0),
                        scap,
                        frames_pre.push(entry1).push(entry2),
                    ));
                }
                let row_copy2 = copy_row(&row);
                let ghost pre_dq = self.display_q@;
                let o = self.display_q.produce(row_copy2);
                match o {
                    SendOutcome::Disconnected => {
                        return Err(PipelineError::DisplayDisconnected);
                    },
                    _ => {},
                }
                proof {
                    lemma_offered_snoc(dqv0, dcap, row_views(rows@), row@);
                    if pre_dq.len() < dcap {
                        assert(row_views(self.display_q@) =~= row_views(pre_dq).push(row@));
                    }
                }
                let ghost rows_pre = rows@;
                let ghost spectra_pre = spectra@;
                spectra.push(bins);
                rows.push(row);
                proof {
                    assert(row_views(rows@) =~= row_views(rows_pre).push(rows@[rows_pre.len() as int]@));
                    lemma_engine_frames_snoc(
                        spectra_pre,
                        rows_pre,
                        spectra@[spectra_pre.len() as int],
                        rows@[rows_pre.len() as int],
                    );
                    assert(engine_frames(spectra@, rows@) =~= frames_pre.push(entry1).push(entry2));
                    assert forall|ww: int| 0 <= ww < spectra@.len() implies (#[trigger] spectra@[ww])@.len()
                        == width && rows@[ww]@.len() == width by {
                        if ww < spectra_pre.len() {
                            assert(spectra@[ww] == spectra_pre[ww]);
                            assert(rows@[ww] == rows_pre[ww]);
                        } else {
                            assert(spectra@[ww] == spectra_pre.push(spectra@[spectra_pre.len() as int])[ww]);
                        }
                    }
                    assert forall|ww: int, b: int|
                        0 <= ww < spectra@.len() && 0 <= b < width implies (#[trigger] rows@[ww]@[b]) as nat
                        == bin_byte(spectra@[ww]@[b], width) by {
                        if ww < spectra_pre.len() {
                            assert(spectra@[ww] == spectra_pre[ww]);
                            assert(rows@[ww] == rows_pre[ww]);
                        }
                    }
                }
                w += 1;
            }
            proof {
                assert(rows@.len() == count_j + wins_map.len());
                assert(window_count(stream_j1, n) == count_j + wins_map.len()) by {
                    assert(windows_of(stream_j1, n).len() == windows_of(stream_j, n).len()
                        + windows_of(framer_pre + chunk@, n).len());
                }
            }
            j += 1;
        }
        proof {
            assert(sq0.skip(j as int).len() == 0);
            assert(j == len0);
            assert(sq0.take(len0 as int) =~= sq0);
            assert(self.sample_q@ =~= Seq::<Vec<u32>>::empty());
        }
        Ok((spectra, rows))
    }
}

/// Byte-for-byte copy of a display row.
fn copy_row(v: &Vec<u8>) -> (r: Vec<u8>)
    ensures
        r@ == v@,
{
    let mut r: Vec<u8> = Vec::new();
    let mut i: usize = 0;
    while i < v.len()
        invariant
            i <= v@.len(),
            r@ =~= v@.take(i as int),
        decreases v@.len() - i,
    {
        r.push(v[i]);
        i += 1;
        proof {
            assert(r@ =~= v@.take(i as int));
        }
    }
    proof {
        assert(v@.take(v@.len() as int) =~= v@);
    }
    r
}

/// Pair-for-pair copy of a spectrum.
fn copy_bins(v: &Vec<(u32, u32)>) -> (r: Vec<(u32, u32)>)
    ensures
        r@ == v@,
{
    let mut r: Vec<(u32, u32)> = Vec::new();
    let mut i: usize = 0;
    while i < v.len()
        invariant
            i <= v@.len(),
            r@ =~= v@.take(i as int),
        decreases v@.len() - i,
    {
        let p = v[i];
        r.push(p);
        i += 1;
        proof {
            assert(r@ =~= v@.take(i as int));
        }
    }
    proof {
        assert(v@.take(v@.len() as int) =~= v@);
    }
    r
}


} // verus!
