use wav_recorder::sink::{
    convert_u16_sample, sample_format, wav_spec_from_config, DeviceSampleFormat, LockAttempt,
    SampleBuffer, SampleSink, StreamConfig, WavSampleFormat, WavSpec, write_input_data,
};

fn int_spec() -> WavSpec {
    WavSpec {
        channels: 2,
        sample_rate: 44100,
        bits_per_sample: 16,
        sample_format: WavSampleFormat::Int,
    }
}

#[test]
fn buffers_without_finalize_are_written_in_order() {
    let mut sink = SampleSink::create(int_spec());
    write_input_data(&mut sink, LockAttempt::Acquired, &SampleBuffer::I16(vec![1, 2, 3]));
    write_input_data(&mut sink, LockAttempt::Acquired, &SampleBuffer::I16(vec![]));
    write_input_data(&mut sink, LockAttempt::Acquired, &SampleBuffer::I16(vec![-4, 5]));
    assert_eq!(sink.written().as_slice(), &[1, 2, 3, -4, 5]);
    assert_eq!(sink.written().len(), 3 + 0 + 2);
}

#[test]
fn contended_write_drops_the_whole_buffer() {
    let mut sink = SampleSink::create(int_spec());
    write_input_data(&mut sink, LockAttempt::Acquired, &SampleBuffer::I16(vec![7, 8]));
    write_input_data(&mut sink, LockAttempt::Contended, &SampleBuffer::I16(vec![9, 10]));
    write_input_data(&mut sink, LockAttempt::Acquired, &SampleBuffer::I16(vec![11]));
    assert_eq!(sink.written().as_slice(), &[7, 8, 11]);
}

#[test]
fn finalize_closes_once_and_later_writes_are_noops() {
    let mut sink = SampleSink::create(int_spec());
    write_input_data(&mut sink, LockAttempt::Acquired, &SampleBuffer::I16(vec![1]));
    assert!(sink.is_present());
    assert!(sink.finalize());
    assert!(!sink.is_present());
    write_input_data(&mut sink, LockAttempt::Acquired, &SampleBuffer::I16(vec![2]));
    assert_eq!(sink.written().as_slice(), &[1]);
    assert!(!sink.finalize());
}

#[test]
fn unsigned_samples_are_shifted_to_signed() {
    assert_eq!(convert_u16_sample(0), i16::MIN);
    assert_eq!(convert_u16_sample(32768), 0);
    assert_eq!(convert_u16_sample(65535), i16::MAX);
    assert_eq!(convert_u16_sample(32769), 1);
    let mut sink = SampleSink::create(int_spec());
    write_input_data(&mut sink, LockAttempt::Acquired, &SampleBuffer::U16(vec![0, 32768, 65535]));
    assert_eq!(sink.written().as_slice(), &[-32768, 0, 32767]);
}

#[test]
fn declared_format_is_fixed_at_creation() {
    let mut sink = SampleSink::create(int_spec());
    write_input_data(&mut sink, LockAttempt::Acquired, &SampleBuffer::I16(vec![1]));
    sink.finalize();
    assert_eq!(sink.format(), int_spec());
}

#[test]
fn wav_spec_follows_the_capture_configuration() {
    let config = StreamConfig {
        channels: 1,
        sample_rate: 48000,
        sample_format: DeviceSampleFormat::U16,
    };
    let spec = wav_spec_from_config(&config);
    assert_eq!(spec.channels, 1);
    assert_eq!(spec.sample_rate, 48000);
    assert_eq!(spec.bits_per_sample, 16);
    assert_eq!(spec.sample_format, WavSampleFormat::Int);

    let float_config = StreamConfig {
        channels: 2,
        sample_rate: 44100,
        sample_format: DeviceSampleFormat::F32,
    };
    let float_spec = wav_spec_from_config(&float_config);
    assert_eq!(float_spec.bits_per_sample, 32);
    assert_eq!(float_spec.sample_format, WavSampleFormat::Float);
}

#[test]
fn integer_formats_write_integer_samples() {
    assert_eq!(sample_format(DeviceSampleFormat::I16), WavSampleFormat::Int);
    assert_eq!(sample_format(DeviceSampleFormat::U16), WavSampleFormat::Int);
    assert_eq!(sample_format(DeviceSampleFormat::F32), WavSampleFormat::Float);
}
