use spectro::channel::SendOutcome;
use spectro::pipeline::Pipeline;
use spectro::telemetry::{ChannelKey, TelemetryFrame};

fn bits(v: f32) -> u32 {
    v.to_bits()
}

fn square_wave_chunk(cycles: usize) -> Vec<u32> {
    let mut chunk = Vec::new();
    for _ in 0..cycles {
        for _ in 0..4 {
            chunk.push(bits(1.0));
        }
        for _ in 0..4 {
            chunk.push(bits(-1.0));
        }
    }
    chunk
}

#[test]
fn end_to_end_two_windows_reach_the_display() {
    // Transform size 8 at a nominal rate of 8: two identical windows of
    // one square-wave cycle each.
    let mut p = Pipeline::new(8, 10, 10, 128, 4);
    assert_eq!(p.width(), 5);

    let o = p.push_samples(square_wave_chunk(2));
    assert_eq!(o, SendOutcome::Accepted);

    let (spectra, rows) = p.engine_step().unwrap();
    assert_eq!(spectra.len(), 2);
    assert_eq!(rows.len(), 2);
    assert_eq!(rows[0].len(), 5);
    assert_eq!(rows[1].len(), 5);
    // Identical input windows give identical magnitude patterns.
    assert_eq!(rows[0], rows[1]);

    let written = p.drain_display();
    assert_eq!(written, 2);
    assert_eq!(p.scroll_parts(), (2, 4));
    assert_eq!(p.ring_row(0), &rows[0]);
    assert_eq!(p.ring_row(1), &rows[1]);
}

#[test]
fn engine_publishes_telemetry_per_window() {
    let mut p = Pipeline::new(8, 10, 10, 128, 4);
    p.push_samples(square_wave_chunk(1));
    let (_spectra, rows) = p.engine_step().unwrap();
    assert_eq!(rows.len(), 1);

    let (k1, _f1) = p.recv_telemetry().unwrap();
    let (k2, f2) = p.recv_telemetry().unwrap();
    assert!(matches!(k1, ChannelKey::RawSpectrum));
    assert!(matches!(k2, ChannelKey::QuantizedRow));
    match f2 {
        TelemetryFrame::Row(r) => assert_eq!(r, rows[0]),
        _ => panic!("expected the quantized row"),
    }
    assert!(p.recv_telemetry().is_none());
}

#[test]
fn residue_carries_across_engine_steps() {
    let mut p = Pipeline::new(8, 10, 10, 128, 4);
    // 12 samples: one window and 4 samples of residue.
    let mut chunk = square_wave_chunk(1);
    chunk.extend(vec![bits(1.0); 4]);
    p.push_samples(chunk);
    let (_, rows) = p.engine_step().unwrap();
    assert_eq!(rows.len(), 1);

    // 4 more samples complete the second window.
    p.push_samples(vec![bits(-1.0); 4]);
    let (_, rows2) = p.engine_step().unwrap();
    assert_eq!(rows2.len(), 1);
}

#[test]
fn capture_overload_drops_chunks_not_blocks() {
    let mut p = Pipeline::new(8, 2, 10, 128, 4);
    assert_eq!(p.push_samples(vec![bits(0.0); 3]), SendOutcome::Accepted);
    assert_eq!(p.push_samples(vec![bits(0.0); 3]), SendOutcome::Accepted);
    assert_eq!(p.push_samples(vec![bits(0.0); 3]), SendOutcome::Dropped);
    assert_eq!(p.push_samples(vec![bits(0.0); 3]), SendOutcome::Dropped);
    assert_eq!(p.capture_warnings(), 2);
}

#[test]
fn display_queue_overflow_drops_rows_without_stalling_the_engine() {
    // Display queue of depth 1: the second window's row is dropped, the
    // engine step still completes.
    let mut p = Pipeline::new(8, 10, 1, 128, 4);
    p.push_samples(square_wave_chunk(2));
    let (_, rows) = p.engine_step().unwrap();
    assert_eq!(rows.len(), 2);
    assert_eq!(p.drain_display(), 1);
}

#[test]
fn source_blocks_reach_the_diagnostics_channel() {
    let mut p = Pipeline::new(8, 10, 10, 128, 4);
    let block = vec![1u32, 2, 3];
    assert_eq!(p.publish_source_samples(block.clone()), Ok(()));
    let (k, f) = p.recv_telemetry().unwrap();
    assert!(matches!(k, ChannelKey::SourceSamples));
    match f {
        TelemetryFrame::Samples(v) => assert_eq!(v, block),
        _ => panic!("expected the raw sample block"),
    }
}
