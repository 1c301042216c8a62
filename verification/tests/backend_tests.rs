use spectro::backend::{
    AudioBackend, Backend, Backends, Device, DeviceError, DeviceRegistry, DummyBackend,
    DummyDevice, SynthSource,
};

#[test]
fn synth_source_walks_the_table_by_the_frequency_ratio() {
    // Four entries at a quarter of the sample rate: one entry per sample.
    let mut src = SynthSource::new(vec![10, 20, 30, 40], 4, 1);
    let block = src.next_block(6);
    assert_eq!(block, vec![20, 30, 40, 10, 20, 30]);
}

#[test]
fn synth_source_at_zero_frequency_stays_put() {
    let mut src = SynthSource::new(vec![5, 6, 7, 8], 48000, 0);
    assert_eq!(src.next_block(3), vec![5, 5, 5]);
}

#[test]
fn synth_source_half_rate_steps_two_entries() {
    let mut src = SynthSource::new(vec![1, 2, 3, 4], 8, 4);
    assert_eq!(src.next_block(4), vec![3, 1, 3, 1]);
}

#[test]
fn dummy_device_emits_its_block_size() {
    let lut: Vec<u32> = (0..4096u32).collect();
    let mut d = DummyDevice::new(48000, lut);
    let block = d.next_block();
    assert_eq!(block.len(), 2048);
    assert!(!d.can_tune());
    assert_eq!(d.tune(7000), Err(DeviceError::TuneUnsupported));
    d.close();
}

#[test]
fn audio_backend_tracks_selection() {
    let mut b = AudioBackend::new(vec!["mic".to_string(), "line".to_string()]);
    assert_eq!(b.display_text(), "Audio");
    assert_eq!(b.select_device(1), Ok(()));
    assert_eq!(b.select_device(2), Err(DeviceError::BadSelection));
    b.update_devices(vec!["usb".to_string()]);
    assert_eq!(b.select_device(0), Ok(()));
}

#[test]
fn audio_backend_without_devices_cannot_build() {
    let b = AudioBackend::new(Vec::new());
    assert!(matches!(b.build_device(), Err(DeviceError::NoDevice)));
}

#[test]
fn audio_backend_requests_one_channel_at_44100() {
    let b = AudioBackend::new(vec!["mic".to_string()]);
    let (dev, req) = b.build_device().unwrap();
    assert_eq!((dev.channels, dev.sample_rate), (1, 44100));
    assert_eq!((req.channels, req.sample_rate), (1, 44100));
}

#[test]
fn dummy_backend_builds_a_synthetic_device() {
    let b = DummyBackend::new();
    assert_eq!(b.display_text(), "Dummy");
    let mut dev = b.build_device((0..64u32).collect());
    assert!(!dev.can_tune());
    assert_eq!(dev.tune(100), Err(DeviceError::TuneUnsupported));
    dev.close();
}

#[test]
fn default_backends_list_audio_then_dummy() {
    let backends = Backends::default();
    assert_eq!(backends.0.len(), 2);
    assert_eq!(backends.0[0].display_text(), "Audio");
    assert_eq!(backends.0[1].display_text(), "Dummy");
}

#[test]
fn registry_closes_before_replacing() {
    let b = DummyBackend::new();
    let mut reg = DeviceRegistry::new();
    assert!(!reg.has_active());
    assert!(!reg.close_active());

    reg.set_active(b.build_device((0..16u32).collect()));
    assert!(reg.has_active());

    // Replacing: the old device must be closed (and is consumed) before
    // the new one can be installed.
    assert!(reg.close_active());
    assert!(!reg.has_active());
    reg.set_active(b.build_device((0..16u32).collect()));
    assert!(reg.has_active());
}

#[test]
fn every_device_kind_reports_tuning_unsupported() {
    let audio = AudioBackend::new(vec!["mic".to_string()]);
    let (dev, _req) = audio.build_device().unwrap();
    let mut d = Device::Audio(dev);
    assert!(!d.can_tune());
    assert_eq!(d.tune(1), Err(DeviceError::TuneUnsupported));
    d.close();
}
