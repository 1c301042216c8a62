//! Best-effort fan-out of intermediate pipeline artifacts to diagnostic
//! consumers.
//!
//! The sink is a bounded queue with the drop-and-warn policy: diagnostics
//! never throttle the pipeline, a full sink only costs individual frames.
//! A store keeps the latest frame per channel for the consumers to render;
//! frames of one channel arrive in producer order, so the store ends up
//! with the last frame sent on each channel.

use crate::channel::{BoundedChannel, Policy, SendOutcome};
use vstd::prelude::*;

verus! {

/// The named diagnostic channels the pipeline publishes on.
#[derive(Clone, Copy, PartialEq, Eq, Structural)]
pub enum ChannelKey {
    /// The raw complex spectrum of each window.
    RawSpectrum,
    /// The quantized magnitude row of each window.
    QuantizedRow,
    /// Raw sample blocks from a source.
    SourceSamples,
}

impl ChannelKey {
    /// The channel's display name.
    pub fn label(&self) -> (r: &'static str)
        ensures
            *self is RawSpectrum ==> r@ == "FFT Output"@,
            *self is QuantizedRow ==> r@ == "FFT Processed Output"@,
            *self is SourceSamples ==> r@ == "Dummy output"@,
    {
        match self {
            ChannelKey::RawSpectrum => "FFT Output",
            ChannelKey::QuantizedRow => "FFT Processed Output",
            ChannelKey::SourceSamples => "Dummy output",
        }
    }
}

/// One diagnostic artifact.
pub enum TelemetryFrame {
    /// Complex spectrum, one `(re, im)` bit-pattern pair per bin.
    Spectrum(Vec<(u32, u32)>),
    /// Quantized magnitude row.
    Row(Vec<u8>),
    /// Raw sample block, one 32-bit sample word each.
    Samples(Vec<u32>),
}

/// The mathematical content of a frame: the views of the vectors it
/// carries.
pub enum FrameView {
    Spectrum(Seq<(u32, u32)>),
    Row(Seq<u8>),
    Samples(Seq<u32>),
}

/// The view of one frame.
pub open spec fn frame_view(f: TelemetryFrame) -> FrameView {
    match f {
        TelemetryFrame::Spectrum(v) => FrameView::Spectrum(v@),
        TelemetryFrame::Row(v) => FrameView::Row(v@),
        TelemetryFrame::Samples(v) => FrameView::Samples(v@),
    }
}

/// The views of queued telemetry entries, oldest first.
pub open spec fn telemetry_views(s: Seq<(ChannelKey, TelemetryFrame)>) -> Seq<
    (ChannelKey, FrameView),
> {
    s.map_values(|e: (ChannelKey, TelemetryFrame)| (e.0, frame_view(e.1)))
}

/// Sending on a disconnected sink: the diagnostics consumer is gone.
#[derive(Clone, Copy, PartialEq, Eq, Structural, Debug)]
pub enum SinkError {
    Disconnected,
}

/// The bounded fan-out queue feeding the diagnostics consumer. The view is
/// the queued `(key, frame)` pairs, oldest first.
pub struct TelemetrySink {
    q: BoundedChannel<(ChannelKey, TelemetryFrame)>,
}

impl View for TelemetrySink {
    type V = Seq<(ChannelKey, TelemetryFrame)>;

    closed spec fn view(&self) -> Seq<(ChannelKey, TelemetryFrame)> {
        self.q@
    }
}

impl TelemetrySink {
    pub closed spec fn wf(&self) -> bool {
        &&& self.q.wf()
        &&& self.q.spec_policy() == Policy::DropWarn
    }

    pub closed spec fn spec_cap(&self) -> nat {
        self.q.spec_cap()
    }

    pub closed spec fn spec_connected(&self) -> bool {
        self.q.spec_connected()
    }

    pub closed spec fn spec_dropped(&self) -> nat {
        self.q.spec_dropped()
    }

    pub fn new(cap: usize) -> (r: TelemetrySink)
        requires
            cap >= 1,
        ensures
            r.wf(),
            r@ == Seq::<(ChannelKey, TelemetryFrame)>::empty(),
            r.spec_cap() == cap,
            r.spec_connected(),
            r.spec_dropped() == 0,
    {
        TelemetrySink { q: BoundedChannel::new(cap, Policy::DropWarn) }
    }

    /// Publish one frame, never waiting. A full sink drops the frame and
    /// records the warning, which is a success for the caller; a
    /// disconnected consumer is an error the producer must stop on.
    pub fn send(&mut self, key: ChannelKey, frame: TelemetryFrame) -> (r: Result<(), SinkError>)
        requires
            old(self).wf(),
        ensures
            final(self).wf(),
            final(self).spec_cap() == old(self).spec_cap(),
            final(self).spec_connected() == old(self).spec_connected(),
            !old(self).spec_connected() ==> r == Result::<(), SinkError>::Err(
                SinkError::Disconnected,
            ) && final(self)@ == old(self)@,
            old(self).spec_connected() && old(self)@.len() < old(self).spec_cap() ==> r
                == Result::<(), SinkError>::Ok(()) && final(self)@ == old(self)@.push((key, frame))
                && final(self).spec_dropped() == old(self).spec_dropped(),
            old(self).spec_connected() && old(self)@.len() >= old(self).spec_cap() ==> r
                == Result::<(), SinkError>::Ok(()) && final(self)@ == old(self)@ && final(self).spec_dropped() == old(self).spec_dropped() + 1,
    {
        match self.q.produce((key, frame)) {
            SendOutcome::Disconnected => Err(SinkError::Disconnected),
            SendOutcome::Accepted => Ok(()),
            SendOutcome::Dropped => Ok(()),
        }
    }

    /// Take the oldest queued frame, in producer order.
    pub fn recv(&mut self) -> (r: Option<(ChannelKey, TelemetryFrame)>)
        requires
            old(self).wf(),
        ensures
            final(self).wf(),
            final(self).spec_cap() == old(self).spec_cap(),
            final(self).spec_connected() == old(self).spec_connected(),
            final(self).spec_dropped() == old(self).spec_dropped(),
            old(self)@.len() == 0 ==> r is None && final(self)@ == old(self)@,
            old(self)@.len() > 0 ==> r == Some(old(self)@[0]) && final(self)@ == old(self)@.drop_first(),
    {
        self.q.recv()
    }

    /// Frames dropped so far: the rate-visible warning counter
    /// (saturating; `spec_dropped` counts exactly).
    pub closed spec fn spec_warnings(&self) -> nat {
        self.q.spec_warnings()
    }

    pub fn warnings(&self) -> (w: u64)
        ensures
            w == self.spec_warnings(),
    {
        self.q.warnings()
    }

    /// The diagnostics consumer has gone away.
    pub fn disconnect(&mut self)
        requires
            old(self).wf(),
        ensures
            final(self).wf(),
            !final(self).spec_connected(),
            final(self)@ == old(self)@,
            final(self).spec_cap() == old(self).spec_cap(),
            final(self).spec_dropped() == old(self).spec_dropped(),
    {
        self.q.disconnect()
    }
}

/// The last frame for `key` in `s`, with `dflt` standing for what was
/// already on display.
pub open spec fn latest_for(
    key: ChannelKey,
    s: Seq<(ChannelKey, TelemetryFrame)>,
    dflt: Option<TelemetryFrame>,
) -> Option<TelemetryFrame>
    decreases s.len(),
{
    if s.len() == 0 {
        dflt
    } else {
        latest_for(
            key,
            s.drop_first(),
            if s[0].0 == key {
                Some(s[0].1)
            } else {
                dflt
            },
        )
    }
}

/// What the diagnostics consumer shows: the latest frame seen per channel.
pub struct TelemetryStore {
    raw_spectrum: Option<TelemetryFrame>,
    quantized_row: Option<TelemetryFrame>,
    source_samples: Option<TelemetryFrame>,
}

impl TelemetryStore {
    pub closed spec fn spec_latest(&self, key: ChannelKey) -> Option<TelemetryFrame> {
        match key {
            ChannelKey::RawSpectrum => self.raw_spectrum,
            ChannelKey::QuantizedRow => self.quantized_row,
            ChannelKey::SourceSamples => self.source_samples,
        }
    }

    pub fn new() -> (r: TelemetryStore)
        ensures
            forall|k: ChannelKey| r.spec_latest(k) is None,
    {
        TelemetryStore { raw_spectrum: None, quantized_row: None, source_samples: None }
    }

    /// The latest frame shown for a channel.
    pub fn latest(&self, key: ChannelKey) -> (r: &Option<TelemetryFrame>)
        ensures
            *r == self.spec_latest(key),
    {
        match key {
            ChannelKey::RawSpectrum => &self.raw_spectrum,
            ChannelKey::QuantizedRow => &self.quantized_row,
            ChannelKey::SourceSamples => &self.source_samples,
        }
    }

    /// Drain the sink completely, keeping the last frame per channel:
    /// frames of one channel are applied in producer order, so each channel
    /// ends at the newest frame that reached the sink.
    pub fn update_from(&mut self, sink: &mut TelemetrySink)
        requires
            old(sink).wf(),
        ensures
            final(sink).wf(),
            final(sink)@.len() == 0,
            final(sink).spec_connected() == old(sink).spec_connected(),
            final(sink).spec_cap() == old(sink).spec_cap(),
            forall|k: ChannelKey| #[trigger]
                final(self).spec_latest(k) == latest_for(k, old(sink)@, old(self).spec_latest(k)),
    {
        loop
            invariant
                sink.wf(),
                sink.spec_connected() == old(sink).spec_connected(),
                sink.spec_cap() == old(sink).spec_cap(),
                forall|k: ChannelKey| #[trigger]
                    latest_for(k, old(sink)@, old(self).spec_latest(k)) == latest_for(
                        k,
                        sink@,
                        self.spec_latest(k),
                    ),
            ensures
                sink.wf(),
                sink@.len() == 0,
                sink.spec_connected() == old(sink).spec_connected(),
                sink.spec_cap() == old(sink).spec_cap(),
                forall|k: ChannelKey| #[trigger]
                    latest_for(k, old(sink)@, old(self).spec_latest(k)) == latest_for(
                        k,
                        sink@,
                        self.spec_latest(k),
                    ),
            decreases sink@.len(),
        {
            let next = sink.recv();
            match next {
                None => {
                    break ;
                },
                Some((key, frame)) => {
                    match key {
                        ChannelKey::RawSpectrum => {
                            self.raw_spectrum = Some(frame);
                        },
                        ChannelKey::QuantizedRow => {
                            self.quantized_row = Some(frame);
                        },
                        ChannelKey::SourceSamples => {
                            self.source_samples = Some(frame);
                        },
                    }
                },
            }
        }
    }
}

} // verus!
