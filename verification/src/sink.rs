//! The sample sink: the exclusively-locked owner of one take's open WAV
//! writer. The capture stream hands it buffers from its own execution
//! context under a non-blocking lock attempt — a buffer that loses the
//! race is dropped whole, never written in part — while finalizing blocks
//! until no write is in flight, closes the writer once, and turns every
//! later write into a no-op.

use vstd::prelude::*;

verus! {

/// Container sample encodings a WAV file can declare.
#[derive(Clone, Copy, Debug, PartialEq, Eq, Structural)]
pub enum WavSampleFormat {
    Int,
    Float,
}

/// The closed set of device sample formats the capture stream can deliver.
#[derive(Clone, Copy, Debug, PartialEq, Eq, Structural)]
pub enum DeviceSampleFormat {
    F32,
    I16,
    U16,
}

/// The container format a take file declares at creation; it cannot change
/// for the file's lifetime.
#[derive(Clone, Copy, Debug, PartialEq, Eq, Structural)]
pub struct WavSpec {
    pub channels: u16,
    pub sample_rate: u32,
    pub bits_per_sample: u16,
    pub sample_format: WavSampleFormat,
}

/// The capture configuration a take records under, as read once from the
/// selected device's default input capability.
#[derive(Clone, Copy, Debug, PartialEq, Eq, Structural)]
pub struct StreamConfig {
    pub channels: u16,
    pub sample_rate: u32,
    pub sample_format: DeviceSampleFormat,
}

pub open spec fn spec_sample_format(format: DeviceSampleFormat) -> WavSampleFormat {
    match format {
        DeviceSampleFormat::U16 => WavSampleFormat::Int,
        DeviceSampleFormat::I16 => WavSampleFormat::Int,
        DeviceSampleFormat::F32 => WavSampleFormat::Float,
    }
}

/// Bytes per sample of each device format.
pub open spec fn spec_sample_size(format: DeviceSampleFormat) -> u16 {
    match format {
        DeviceSampleFormat::U16 => 2,
        DeviceSampleFormat::I16 => 2,
        DeviceSampleFormat::F32 => 4,
    }
}

/// The container encoding used for each device format: both integer
/// formats are written as integer samples, floating-point capture as
/// floating-point samples.
pub fn sample_format(format: DeviceSampleFormat) -> (r: WavSampleFormat)
    ensures
        r == spec_sample_format(format),
{
    match format {
        DeviceSampleFormat::U16 => WavSampleFormat::Int,
        DeviceSampleFormat::I16 => WavSampleFormat::Int,
        DeviceSampleFormat::F32 => WavSampleFormat::Float,
    }
}

/// Derives the container format from the capture configuration: channel
/// count and sample rate carry over, the bit depth is the device sample
/// width in bits, and the encoding follows the device format. Every
/// combination this produces is one the container accepts.
pub fn wav_spec_from_config(config: &StreamConfig) -> (r: WavSpec)
    ensures
        r.channels == config.channels,
        r.sample_rate == config.sample_rate,
        r.bits_per_sample == 8 * spec_sample_size(config.sample_format),
        r.sample_format == spec_sample_format(config.sample_format),
{
    let bits: u16 = match config.sample_format {
        DeviceSampleFormat::U16 => 16,
        DeviceSampleFormat::I16 => 16,
        DeviceSampleFormat::F32 => 32,
    };
    WavSpec {
        channels: config.channels,
        sample_rate: config.sample_rate,
        bits_per_sample: bits,
        sample_format: sample_format(config.sample_format),
    }
}

/// The fixed conversion rule from an unsigned 16-bit device sample to a
/// signed 16-bit container sample: the value is shifted down by half the
/// unsigned range, so silence (32768) maps to 0.
pub open spec fn convert_u16_spec(s: u16) -> i16 {
    (s as int - 32768) as i16
}

pub fn convert_u16_sample(s: u16) -> (r: i16)
    ensures
        r == convert_u16_spec(s),
{
    if s >= 32768 {
        (s - 32768) as i16
    } else {
        (s as i32 - 32768) as i16
    }
}

/// One buffer of captured samples, tagged by device format. The set is
/// closed: a new format forces a decision here and in every match.
/// Floating-point capture is written unconverted by the unverified rim and
/// has no case in this model.
pub enum SampleBuffer {
    I16(Vec<i16>),
    U16(Vec<u16>),
}

impl SampleBuffer {
    /// The container samples this buffer contributes, in arrival order.
    pub open spec fn container_samples(&self) -> Seq<i16> {
        match self {
            SampleBuffer::I16(v) => v@,
            SampleBuffer::U16(v) => v@.map_values(|s: u16| convert_u16_spec(s)),
        }
    }
}

/// The outcome of the producer's non-blocking attempt on the sink's lock.
/// The producer must never block on file work, so a contended attempt
/// drops the buffer rather than queueing or waiting.
#[derive(Clone, Copy, Debug, PartialEq, Eq, Structural)]
pub enum LockAttempt {
    Acquired,
    Contended,
}

/// What a sample sink is at any moment: whether the writer is still
/// present, the format declared at creation, and the samples durably
/// handed to the writer, in order.
pub struct SinkView {
    pub present: bool,
    pub format: WavSpec,
    pub written: Seq<i16>,
}

/// One write under the locking policy: only a granted attempt on a sink
/// whose writer is still present appends — the whole buffer, in order;
/// every other write changes nothing.
pub open spec fn write_step(v: SinkView, acquired: bool, samples: Seq<i16>) -> SinkView {
    if acquired && v.present {
        SinkView { written: v.written + samples, ..v }
    } else {
        v
    }
}

/// Closing the writer: what was written stays written, and the writer is
/// gone.
pub open spec fn finalize_step(v: SinkView) -> SinkView {
    SinkView { present: false, ..v }
}

/// The shared, exclusively-lockable handle to one take's open WAV writer.
pub struct SampleSink {
    format: WavSpec,
    present: bool,
    samples: Vec<i16>,
}

impl View for SampleSink {
    type V = SinkView;

    closed spec fn view(&self) -> SinkView {
        SinkView { present: self.present, format: self.format, written: self.samples@ }
    }
}

impl SampleSink {
    /// Creates the take file's writer and declares its format up front.
    pub fn create(format: WavSpec) -> (s: SampleSink)
        ensures
            s@.present,
            s@.format == format,
            s@.written == Seq::<i16>::empty(),
    {
        let s = SampleSink { format, present: true, samples: Vec::new() };
        proof {
            assert(s@.written =~= Seq::<i16>::empty());
        }
        s
    }

    /// Whether the writer is still present (not yet finalized).
    pub fn is_present(&self) -> (r: bool)
        ensures
            r == self@.present,
    {
        self.present
    }

    pub fn format(&self) -> (r: WavSpec)
        ensures
            r == self@.format,
    {
        self.format
    }

    /// The samples durably handed to the writer so far, in arrival order.
    pub fn written(&self) -> (r: &Vec<i16>)
        ensures
            r@ == self@.written,
    {
        &self.samples
    }

    /// Flushes and closes the writer. Blocks on the lock, so it never
    /// interrupts a write that already acquired it. Returns whether this
    /// call closed the writer: a second finalize finds none and reports
    /// `false`, and later writes are no-ops by the `write_step` policy.
    pub fn finalize(&mut self) -> (r: bool)
        ensures
            final(self)@ == finalize_step(old(self)@),
            r == old(self)@.present,
    {
        let was_present = self.present;
        self.present = false;
        was_present
    }
}

/// Appends one captured buffer to the sink under the producer's
/// non-blocking locking policy: a contended attempt drops the buffer
/// whole, a granted attempt on a finalized sink is a no-op, and a granted
/// attempt on a present writer appends every sample of the buffer, in
/// arrival order, converted to the container representation.
pub fn write_input_data(sink: &mut SampleSink, attempt: LockAttempt, input: &SampleBuffer)
    ensures
        final(sink)@ == write_step(old(sink)@, attempt is Acquired, input.container_samples()),
{
    match attempt {
        LockAttempt::Contended => {},
        LockAttempt::Acquired => {
            if sink.present {
                match input {
                    SampleBuffer::I16(v) => {
                        let mut i: usize = 0;
                        while i < v.len()
                            invariant
                                i <= v@.len(),
                                sink.present == old(sink).present,
                                sink.format == old(sink).format,
                                sink.samples@ == old(sink).samples@ + v@.subrange(0, i as int),
                            decreases v@.len() - i,
                        {
                            let s = v[i];
                            proof {
                                assert(old(sink).samples@ + v@.subrange(0, i + 1)
                                    =~= (old(sink).samples@ + v@.subrange(0, i as int)).push(
                                    v@[i as int],
                                ));
                            }
                            sink.samples.push(s);
                            i = i + 1;
                        }
                        proof {
                            assert(v@.subrange(0, v@.len() as int) =~= v@);
                        }
                    },
                    SampleBuffer::U16(v) => {
                        let ghost converted = v@.map_values(|s: u16| convert_u16_spec(s));
                        let mut i: usize = 0;
                        while i < v.len()
                            invariant
                                i <= v@.len(),
                                converted == v@.map_values(|s: u16| convert_u16_spec(s)),
                                sink.present == old(sink).present,
                                sink.format == old(sink).format,
                                sink.samples@ == old(sink).samples@ + converted.subrange(
                                    0,
                                    i as int,
                                ),
                            decreases v@.len() - i,
                        {
                            let s = convert_u16_sample(v[i]);
                            proof {
                                assert(converted[i as int] == convert_u16_spec(v@[i as int]));
                                assert(old(sink).samples@ + converted.subrange(0, i + 1)
                                    =~= (old(sink).samples@ + converted.subrange(0, i as int)).push(
                                    converted[i as int],
                                ));
                            }
                            sink.samples.push(s);
                            i = i + 1;
                        }
                        proof {
                            assert(converted.subrange(0, converted.len() as int) =~= converted);
                        }
                    },
                }
            }
        },
    }
}

/// The sink state after a run of buffers is written in arrival order, each
/// under a granted lock attempt and with no finalize in between.
pub open spec fn sink_after_writes(v: SinkView, buffers: Seq<Seq<i16>>) -> SinkView
    decreases buffers.len(),
{
    if buffers.len() == 0 {
        v
    } else {
        sink_after_writes(write_step(v, true, buffers.first()), buffers.drop_first())
    }
}

pub open spec fn total_samples(buffers: Seq<Seq<i16>>) -> nat
    decreases buffers.len(),
{
    if buffers.len() == 0 {
        0
    } else {
        buffers.first().len() + total_samples(buffers.drop_first())
    }
}

/// A sink that receives buffers `b1, …, bn` without a concurrent finalize
/// writes every sample of every buffer, in order: what is written is the
/// concatenation of the buffers, and its length is the sum of their
/// lengths.
pub proof fn lemma_sink_receives_all(v: SinkView, buffers: Seq<Seq<i16>>)
    requires
        v.present,
    ensures
        sink_after_writes(v, buffers).present,
        sink_after_writes(v, buffers).format == v.format,
        sink_after_writes(v, buffers).written == v.written + buffers.flatten(),
        sink_after_writes(v, buffers).written.len() == v.written.len() + total_samples(buffers),
    decreases buffers.len(),
{
    if buffers.len() == 0 {
        assert(v.written + buffers.flatten() =~= v.written);
    } else {
        let first = buffers.first();
        let rest = buffers.drop_first();
        lemma_sink_receives_all(write_step(v, true, first), rest);
        assert((v.written + first) + rest.flatten() =~= v.written + (first + rest.flatten()));
    }
}

/// No write ever truncates: whatever the lock race's outcome, the sink
/// holds either exactly what it held before the write or that plus the
/// whole buffer; and finalizing, whenever it runs, neither loses nor adds
/// a sample, and turns every later write into a no-op.
pub proof fn lemma_write_atomic(v: SinkView, acquired: bool, samples: Seq<i16>)
    ensures
        write_step(v, acquired, samples).written == v.written + samples || write_step(
            v,
            acquired,
            samples,
        ).written == v.written,
        finalize_step(v).written == v.written,
        write_step(finalize_step(v), acquired, samples) == finalize_step(v),
{
}

} // verus!
