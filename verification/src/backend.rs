//! Audio source backends and the running devices they build.
//!
//! Backends come in two kinds: the platform audio capture, of which only
//! the decisions live here (which stream configuration to request; the
//! capture call itself is platform work outside the library), and the
//! synthetic signal source, whose waveform generation is all here. The
//! registry keeps at most one device active and closes the old one before
//! a new one may be installed.

use vstd::arithmetic::div_mod::{lemma_mod_bound, lemma_multiply_divide_lt};
use vstd::prelude::*;

verus! {

/// Why a device operation was refused.
#[derive(Clone, Copy, PartialEq, Eq, Structural, Debug)]
pub enum DeviceError {
    /// The device cannot tune.
    TuneUnsupported,
    /// No capture device is available to build from.
    NoDevice,
    /// A selection index past the end of the device list.
    BadSelection,
}

/// The stream configuration a hardware capture is asked for: one channel
/// at the target sample rate. Starting the actual stream is the platform
/// layer's work.
pub struct StreamRequest {
    pub channels: u16,
    pub sample_rate: u32,
}

/// Phase of a table-driven oscillator after `i` steps, in 32.32 fixed
/// point, wrapping at `m` (the table length scaled by 2^32).
pub open spec fn phase_at(p0: nat, step: nat, m: nat, i: nat) -> nat
    recommends
        m >= 1,
    decreases i,
{
    if i == 0 {
        p0
    } else {
        (phase_at(p0, step, m, (i - 1) as nat) + step) % m
    }
}

/// Sine-table signal generator: a lookup table indexed by an accumulating
/// phase. The table is handed in at construction (the values are opaque
/// 32-bit sample words); the phase advances in 32.32 fixed point by
/// `table_len * freq / sample_rate` table positions per sample.
pub struct SynthSource {
    lut: Vec<u32>,
    phase: u64,
    step: u64,
}

impl SynthSource {
    pub closed spec fn spec_lut(&self) -> Seq<u32> {
        self.lut@
    }

    pub closed spec fn spec_phase(&self) -> nat {
        self.phase as nat
    }

    pub closed spec fn spec_step(&self) -> nat {
        self.step as nat
    }

    /// The wrap point: table length in 32.32 fixed point.
    pub open spec fn spec_modulus(&self) -> nat {
        self.spec_lut().len() * 0x1_0000_0000
    }

    pub closed spec fn wf(&self) -> bool {
        &&& 1 <= self.lut@.len() <= 0x100_0000
        &&& (self.phase as nat) < self.spec_modulus()
        &&& (self.step as nat) <= self.spec_modulus()
    }

    /// Build a generator for `freq` hertz at `sample_rate` hertz from a
    /// wave table. The table may hold at most 2^24 entries so the fixed
    /// point phase cannot overflow; the frequency may not exceed the
    /// sample rate.
    pub fn new(lut: Vec<u32>, sample_rate: u32, freq: u32) -> (r: SynthSource)
        requires
            1 <= lut@.len() <= 0x100_0000,
            sample_rate >= 1,
            freq <= sample_rate,
        ensures
            r.wf(),
            r.spec_lut() == lut@,
            r.spec_phase() == 0,
            r.spec_step() == (lut@.len() * 0x1_0000_0000 * freq) as int / (sample_rate as int),
    {
        let len128: u128 = lut.len() as u128;
        proof {
            assert(len128 * 0x1_0000_0000 * (freq as u128) < 0x1_0000_0000_0000_0000_0000_0000)
                by (nonlinear_arith)
                requires
                    len128 <= 0x100_0000,
                    freq < 0x1_0000_0000,
            ;
        }
        let num: u128 = len128 * 0x1_0000_0000 * (freq as u128);
        let step128: u128 = num / (sample_rate as u128);
        proof {
            assert(len128 * 0x1_0000_0000 <= 0x100_0000_0000_0000_0000_0000) by (nonlinear_arith)
                requires
                    len128 <= 0x100_0000,
            ;
            assert(num <= (len128 * 0x1_0000_0000) * (sample_rate as u128)) by (nonlinear_arith)
                requires
                    num == (len128 * 0x1_0000_0000) * (freq as u128),
                    freq <= sample_rate,
            ;
            assert(step128 <= len128 * 0x1_0000_0000) by {
                vstd::arithmetic::div_mod::lemma_div_is_ordered(
                    num as int,
                    ((len128 * 0x1_0000_0000) * (sample_rate as u128)) as int,
                    sample_rate as int,
                );
                vstd::arithmetic::div_mod::lemma_div_by_multiple(
                    (len128 * 0x1_0000_0000) as int,
                    sample_rate as int,
                );
            }
        }
        let step: u64 = step128 as u64;
        SynthSource { lut, phase: 0, step }
    }

    /// Advance the phase one sample and look the sample word up.
    pub fn next_sample(&mut self) -> (s: u32)
        requires
            old(self).wf(),
        ensures
            final(self).wf(),
            final(self).spec_lut() == old(self).spec_lut(),
            final(self).spec_step() == old(self).spec_step(),
            final(self).spec_phase() == (old(self).spec_phase() + old(self).spec_step())
                % old(self).spec_modulus(),
            s == old(self).spec_lut()[(final(self).spec_phase() / 0x1_0000_0000) as int],
    {
        let modulus: u64 = (self.lut.len() as u64) * 0x1_0000_0000;
        proof {
            assert((self.lut.len() as u64) * 0x1_0000_0000 <= 0x100_0000_0000_0000_0000)
                by (nonlinear_arith)
                requires
                    self.lut@.len() <= 0x100_0000,
            ;
        }
        let next = (self.phase + self.step) % modulus;
        proof {
            lemma_mod_bound((self.phase + self.step) as int, modulus as int);
        }
        self.phase = next;
        let idx = (next / 0x1_0000_0000) as usize;
        proof {
            lemma_multiply_divide_lt(next as int, self.lut@.len() as int, 0x1_0000_0000);
        }
        self.lut[idx]
    }

    /// Generate one block of samples. Sample `i` of the block is the table
    /// word under the phase after `i + 1` steps.
    pub fn next_block(&mut self, n: usize) -> (out: Vec<u32>)
        requires
            old(self).wf(),
        ensures
            final(self).wf(),
            final(self).spec_lut() == old(self).spec_lut(),
            final(self).spec_step() == old(self).spec_step(),
            out@.len() == n,
            final(self).spec_phase() == phase_at(
                old(self).spec_phase(),
                old(self).spec_step(),
                old(self).spec_modulus(),
                n as nat,
            ),
            forall|i: int|
                0 <= i < n ==> out@[i] == old(self).spec_lut()[(phase_at(
                    old(self).spec_phase(),
                    old(self).spec_step(),
                    old(self).spec_modulus(),
                    (i + 1) as nat,
                ) / 0x1_0000_0000) as int],
    {
        let ghost p0 = self.spec_phase();
        let ghost st = self.spec_step();
        let ghost m = self.spec_modulus();
        let mut out: Vec<u32> = Vec::new();
        let mut i: usize = 0;
        while i < n
            invariant
                self.wf(),
                self.spec_lut() == old(self).spec_lut(),
                self.spec_step() == st,
                self.spec_modulus() == m,
                i <= n,
                out@.len() == i,
                self.spec_phase() == phase_at(p0, st, m, i as nat),
                forall|j: int|
                    0 <= j < i ==> out@[j] == old(self).spec_lut()[(phase_at(p0, st, m, (j
                        + 1) as nat) / 0x1_0000_0000) as int],
            decreases n - i,
        {
            let s = self.next_sample();
            out.push(s);
            i += 1;
        }
        out
    }
}

/// A running synthetic device: the generator plus its block size. The
/// pacing sleep between blocks and the thread that runs it are platform
/// work; the device itself only decides what each block holds.
pub struct DummyDevice {
    source: SynthSource,
    block_size: usize,
}

impl DummyDevice {
    pub closed spec fn wf(&self) -> bool {
        self.source.wf()
    }

    pub closed spec fn spec_block_size(&self) -> nat {
        self.block_size as nat
    }

    pub closed spec fn spec_source(&self) -> SynthSource {
        self.source
    }

    /// A generator at a quarter of the sample rate, emitting blocks of
    /// 2048 samples, from the wave table handed in.
    pub fn new(sample_rate: usize, lut: Vec<u32>) -> (r: DummyDevice)
        requires
            1 <= sample_rate <= 0xffff_ffff,
            1 <= lut@.len() <= 0x100_0000,
        ensures
            r.wf(),
            r.spec_block_size() == 2048,
            r.spec_source().spec_lut() == lut@,
            r.spec_source().spec_phase() == 0,
            r.spec_source().spec_step() == (lut@.len() * 0x1_0000_0000 * ((sample_rate
                / 4) as nat)) as int / (sample_rate as int),
    {
        let rate = sample_rate as u32;
        let freq = rate / 4;
        let source = SynthSource::new(lut, rate, freq);
        DummyDevice { source, block_size: 2048 }
    }

    /// The next block of samples for the capture channel: the generator
    /// steps once per sample, and each word is the table word under the
    /// advanced phase.
    pub fn next_block(&mut self) -> (out: Vec<u32>)
        requires
            old(self).wf(),
        ensures
            final(self).wf(),
            final(self).spec_block_size() == old(self).spec_block_size(),
            out@.len() == old(self).spec_block_size(),
            final(self).spec_source().spec_lut() == old(self).spec_source().spec_lut(),
            final(self).spec_source().spec_step() == old(self).spec_source().spec_step(),
            final(self).spec_source().spec_phase() == phase_at(
                old(self).spec_source().spec_phase(),
                old(self).spec_source().spec_step(),
                old(self).spec_source().spec_modulus(),
                old(self).spec_block_size(),
            ),
            forall|i: int|
                0 <= i < out@.len() ==> out@[i] == old(self).spec_source().spec_lut()[(phase_at(
                    old(self).spec_source().spec_phase(),
                    old(self).spec_source().spec_step(),
                    old(self).spec_source().spec_modulus(),
                    (i + 1) as nat,
                ) / 0x1_0000_0000) as int],
    {
        let n = self.block_size;
        self.source.next_block(n)
    }

    pub fn can_tune(&self) -> (r: bool)
        ensures
            !r,
    {
        false
    }

    /// This device has no tuner.
    pub fn tune(&mut self, _freq: usize) -> (r: Result<(), DeviceError>)
        ensures
            r == Result::<(), DeviceError>::Err(DeviceError::TuneUnsupported),
            *final(self) == *old(self),
    {
        Err(DeviceError::TuneUnsupported)
    }

    /// Stop the device. Taking it by value guarantees no block can be
    /// produced from it after the call returns.
    pub fn close(self) {
    }
}

/// A running hardware capture device, by its requested configuration; the
/// platform stream handle lives with the platform layer.
pub struct AudioDevice {
    pub channels: u16,
    pub sample_rate: u32,
}

impl AudioDevice {
    pub fn can_tune(&self) -> (r: bool)
        ensures
            !r,
    {
        false
    }

    /// This device has no tuner.
    pub fn tune(&mut self, _freq: usize) -> (r: Result<(), DeviceError>)
        ensures
            r == Result::<(), DeviceError>::Err(DeviceError::TuneUnsupported),
            *final(self) == *old(self),
    {
        Err(DeviceError::TuneUnsupported)
    }

    /// Stop the device; the platform layer drops its stream with it.
    pub fn close(self) {
    }
}

/// A running device of either kind.
pub enum Device {
    Audio(AudioDevice),
    Synthetic(DummyDevice),
}

impl Device {
    pub open spec fn wf(&self) -> bool {
        match self {
            Device::Audio(_) => true,
            Device::Synthetic(d) => d.wf(),
        }
    }

    /// No current device kind can tune.
    pub fn can_tune(&self) -> (r: bool)
        ensures
            !r,
    {
        match self {
            Device::Audio(d) => d.can_tune(),
            Device::Synthetic(d) => d.can_tune(),
        }
    }

    /// Tuning always reports the explicit unsupported condition.
    pub fn tune(&mut self, freq: usize) -> (r: Result<(), DeviceError>)
        ensures
            r == Result::<(), DeviceError>::Err(DeviceError::TuneUnsupported),
            *final(self) == *old(self),
    {
        match self {
            Device::Audio(d) => d.tune(freq),
            Device::Synthetic(d) => d.tune(freq),
        }
    }

    /// Stop the device, consuming it.
    pub fn close(self) {
        match self {
            Device::Audio(d) => d.close(),
            Device::Synthetic(d) => d.close(),
        }
    }
}

/// The platform-audio backend: the list of capture device names and the
/// chosen one. Enumerating real devices is platform work; the names are
/// handed in and refreshed from outside.
pub struct AudioBackend {
    devices: Vec<String>,
    current_device: usize,
}

impl AudioBackend {
    pub closed spec fn spec_devices(&self) -> Seq<String> {
        self.devices@
    }

    pub closed spec fn spec_current(&self) -> nat {
        self.current_device as nat
    }

    pub closed spec fn wf(&self) -> bool {
        &&& (self.devices@.len() == 0 ==> self.current_device == 0)
        &&& (self.devices@.len() > 0 ==> (self.current_device as nat) < self.devices@.len())
    }

    pub fn new(devices: Vec<String>) -> (r: AudioBackend)
        ensures
            r.wf(),
            r.spec_devices() == devices@,
            r.spec_current() == 0,
    {
        AudioBackend { devices, current_device: 0 }
    }

    pub fn display_text(&self) -> (r: &'static str)
        ensures
            r@ == "Audio"@,
    {
        "Audio"
    }

    /// Replace the device list with a fresh enumeration; the selection
    /// resets to the first entry.
    pub fn update_devices(&mut self, devices: Vec<String>)
        ensures
            final(self).wf(),
            final(self).spec_devices() == devices@,
            final(self).spec_current() == 0,
    {
        self.devices = devices;
        self.current_device = 0;
    }

    /// Choose a device by its place in the list.
    pub fn select_device(&mut self, i: usize) -> (r: Result<(), DeviceError>)
        requires
            old(self).wf(),
        ensures
            final(self).wf(),
            final(self).spec_devices() == old(self).spec_devices(),
            i < old(self).spec_devices().len() ==> r == Result::<(), DeviceError>::Ok(()) && final(self).spec_current() == i,
            i >= old(self).spec_devices().len() ==> r == Result::<(), DeviceError>::Err(
                DeviceError::BadSelection,
            ) && final(self).spec_current() == old(self).spec_current(),
    {
        if i < self.devices.len() {
            self.current_device = i;
            Ok(())
        } else {
            Err(DeviceError::BadSelection)
        }
    }

    /// Decide the capture configuration for the chosen device: one
    /// channel at 44100 hertz. With no device to capture from, building
    /// fails and no pipeline starts.
    pub fn build_device(&self) -> (r: Result<(AudioDevice, StreamRequest), DeviceError>)
        requires
            self.wf(),
        ensures
            self.spec_devices().len() == 0 ==> r is Err && r == Result::<
                (AudioDevice, StreamRequest),
                DeviceError,
            >::Err(DeviceError::NoDevice),
            self.spec_devices().len() > 0 ==> r is Ok && (r matches Ok(p) && p.0.channels == 1
                && p.0.sample_rate == 44100 && p.1.channels == 1 && p.1.sample_rate == 44100),
    {
        if self.devices.len() == 0 {
            return Err(DeviceError::NoDevice);
        }
        let dev = AudioDevice { channels: 1, sample_rate: 44100 };
        let req = StreamRequest { channels: 1, sample_rate: 44100 };
        Ok((dev, req))
    }
}

/// The synthetic backend: builds the table-driven generator device.
pub struct DummyBackend {
    sample_rate: usize,
}

impl DummyBackend {
    pub closed spec fn spec_sample_rate(&self) -> nat {
        self.sample_rate as nat
    }

    pub fn new() -> (r: DummyBackend)
        ensures
            r.spec_sample_rate() == 48000,
    {
        DummyBackend { sample_rate: 48000 }
    }

    pub fn display_text(&self) -> (r: &'static str)
        ensures
            r@ == "Dummy"@,
    {
        "Dummy"
    }

    /// Build the generator device, bound to this configuration: the given
    /// wave table, this backend's sample rate (a quarter of it as the
    /// generated frequency) and blocks of 2048 samples.
    pub fn build_device(&self, lut: Vec<u32>) -> (r: Device)
        requires
            1 <= self.spec_sample_rate() <= 0xffff_ffff,
            1 <= lut@.len() <= 0x100_0000,
        ensures
            r.wf(),
            r is Synthetic,
            r matches Device::Synthetic(d) ==> d.spec_block_size() == 2048
                && d.spec_source().spec_lut() == lut@ && d.spec_source().spec_phase() == 0
                && d.spec_source().spec_step() == (lut@.len() * 0x1_0000_0000 * ((
            self.spec_sample_rate() / 4) as nat)) as int / (self.spec_sample_rate() as int),
    {
        Device::Synthetic(DummyDevice::new(self.sample_rate, lut))
    }
}

/// One backend of either kind.
pub enum Backend {
    Audio(AudioBackend),
    Synthetic(DummyBackend),
}

impl Backend {
    /// The backend's display name.
    pub fn display_text(&self) -> (r: &'static str)
        ensures
            *self is Audio ==> r@ == "Audio"@,
            *self is Synthetic ==> r@ == "Dummy"@,
    {
        match self {
            Backend::Audio(b) => b.display_text(),
            Backend::Synthetic(b) => b.display_text(),
        }
    }
}

/// Every backend this build knows of.
pub struct Backends(pub Vec<Backend>);

impl Default for Backends {
    /// The platform capture backend (devices to be enumerated by the
    /// platform layer) and the synthetic backend.
    fn default() -> (r: Backends)
        ensures
            r.0@.len() == 2,
            r.0@[0] is Audio,
            r.0@[1] is Synthetic,
    {
        let audio = Backend::Audio(AudioBackend::new(Vec::new()));
        let synth = Backend::Synthetic(DummyBackend::new());
        let mut items: Vec<Backend> = Vec::new();
        items.push(audio);
        items.push(synth);
        Backends(items)
    }
}

/// Keeps at most one device live. A new device may only be installed once
/// the previous one is closed, so two are never concurrently active.
pub struct DeviceRegistry {
    active: Option<Device>,
}

impl DeviceRegistry {
    pub closed spec fn spec_active(&self) -> Option<Device> {
        self.active
    }

    pub fn new() -> (r: DeviceRegistry)
        ensures
            r.spec_active() is None,
    {
        DeviceRegistry { active: None }
    }

    pub fn has_active(&self) -> (r: bool)
        ensures
            r == (self.spec_active() is Some),
    {
        self.active.is_some()
    }

    /// Close and drop the active device, if any. After this returns the
    /// closed device is gone: nothing can make it produce again.
    pub fn close_active(&mut self) -> (had: bool)
        ensures
            final(self).spec_active() is None,
            had == (old(self).spec_active() is Some),
    {
        let prev = self.active.take();
        match prev {
            Some(d) => {
                d.close();
                true
            },
            None => false,
        }
    }

    /// Install a freshly built device. The slot must be empty: the old
    /// device is closed first, never concurrently live with the new one.
    pub fn set_active(&mut self, d: Device)
        requires
            old(self).spec_active() is None,
        ensures
            final(self).spec_active() == Some(d),
    {
        self.active = Some(d);
    }
}

} // verus!
