use spectro::telemetry::{ChannelKey, SinkError, TelemetryFrame, TelemetrySink, TelemetryStore};

fn samples_frame(v: Vec<u32>) -> TelemetryFrame {
    TelemetryFrame::Samples(v)
}

fn frame_samples(f: &TelemetryFrame) -> &Vec<u32> {
    match f {
        TelemetryFrame::Samples(v) => v,
        _ => panic!("expected a samples frame"),
    }
}

#[test]
fn channel_labels_match_their_wire_names() {
    assert_eq!(ChannelKey::RawSpectrum.label(), "FFT Output");
    assert_eq!(ChannelKey::QuantizedRow.label(), "FFT Processed Output");
    assert_eq!(ChannelKey::SourceSamples.label(), "Dummy output");
}

#[test]
fn full_sink_drops_quietly_and_counts() {
    let mut sink = TelemetrySink::new(2);
    for i in 0..5u32 {
        let r = sink.send(ChannelKey::SourceSamples, samples_frame(vec![i]));
        assert_eq!(r, Ok(()));
    }
    assert_eq!(sink.warnings(), 3);
}

#[test]
fn disconnected_sink_is_an_error() {
    let mut sink = TelemetrySink::new(2);
    sink.disconnect();
    let r = sink.send(ChannelKey::SourceSamples, samples_frame(vec![1]));
    assert_eq!(r, Err(SinkError::Disconnected));
}

#[test]
fn frames_drain_in_producer_order() {
    let mut sink = TelemetrySink::new(8);
    sink.send(ChannelKey::SourceSamples, samples_frame(vec![1])).unwrap();
    sink.send(ChannelKey::SourceSamples, samples_frame(vec![2])).unwrap();
    let (k1, f1) = sink.recv().unwrap();
    let (k2, f2) = sink.recv().unwrap();
    assert!(matches!(k1, ChannelKey::SourceSamples));
    assert!(matches!(k2, ChannelKey::SourceSamples));
    assert_eq!(frame_samples(&f1), &vec![1]);
    assert_eq!(frame_samples(&f2), &vec![2]);
    assert!(sink.recv().is_none());
}

#[test]
fn store_keeps_the_latest_frame_per_channel() {
    let mut sink = TelemetrySink::new(8);
    let mut store = TelemetryStore::new();
    sink.send(ChannelKey::SourceSamples, samples_frame(vec![1])).unwrap();
    sink.send(ChannelKey::SourceSamples, samples_frame(vec![2])).unwrap();
    sink.send(ChannelKey::QuantizedRow, TelemetryFrame::Row(vec![9, 9])).unwrap();
    store.update_from(&mut sink);

    let latest = store.latest(ChannelKey::SourceSamples).as_ref().unwrap();
    assert_eq!(frame_samples(latest), &vec![2]);
    match store.latest(ChannelKey::QuantizedRow).as_ref().unwrap() {
        TelemetryFrame::Row(r) => assert_eq!(r, &vec![9, 9]),
        _ => panic!("expected a row frame"),
    }
    assert!(store.latest(ChannelKey::RawSpectrum).is_none());
    // The sink is fully drained.
    assert!(sink.recv().is_none());
}

#[test]
fn store_survives_an_empty_drain() {
    let mut sink = TelemetrySink::new(4);
    let mut store = TelemetryStore::new();
    sink.send(ChannelKey::SourceSamples, samples_frame(vec![7])).unwrap();
    store.update_from(&mut sink);
    store.update_from(&mut sink);
    let latest = store.latest(ChannelKey::SourceSamples).as_ref().unwrap();
    assert_eq!(frame_samples(latest), &vec![7]);
}
