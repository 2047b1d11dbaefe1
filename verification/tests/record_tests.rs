use xiaoai::client::audio_config::{default_audio_config, AudioConfig};
use xiaoai::client::record::{
    capture_config_for_recording, convert_a113_s32_to_s16, stream_chunk_sizes, transform_stream_chunk,
    RecorderControl, RecorderState, StreamAccumulator,
};

fn config(pcm: &str, channels: u16, bits: u16, rate: u32, period: u32, buffer: u32) -> AudioConfig {
    AudioConfig {
        pcm: pcm.to_string(),
        channels,
        bits_per_sample: bits,
        sample_rate: rate,
        period_size: period,
        buffer_size: buffer,
    }
}

#[test]
fn default_config_values() {
    let c = default_audio_config();
    assert_eq!(c.pcm, "noop");
    assert_eq!(c.channels, 1);
    assert_eq!(c.bits_per_sample, 16);
    assert_eq!(c.sample_rate, 16000);
    assert_eq!(c.period_size, 1024);
    assert_eq!(c.buffer_size, 4096);
    assert_eq!(c.validate(), Ok(()));
}

#[test]
fn validate_reports_first_broken_rule() {
    assert_eq!(config("default", 2, 32, 48000, 1, 65536).validate(), Ok(()));
    assert_eq!(
        config("hw:0", 1, 16, 16000, 1024, 4096).validate(),
        Err("pcm 'hw:0' not allowed".to_string())
    );
    assert_eq!(
        config("noop", 3, 16, 16000, 1024, 4096).validate(),
        Err("channels 3 out of range [1,2]".to_string())
    );
    assert_eq!(
        config("noop", 0, 24, 16000, 1024, 4096).validate(),
        Err("channels 0 out of range [1,2]".to_string())
    );
    assert_eq!(
        config("noop", 1, 24, 16000, 1024, 4096).validate(),
        Err("bits_per_sample 24 not in [16,32]".to_string())
    );
    assert_eq!(
        config("noop", 1, 16, 7999, 1024, 4096).validate(),
        Err("sample_rate 7999 out of range [8000,48000]".to_string())
    );
    assert_eq!(
        config("noop", 1, 16, 48001, 1024, 4096).validate(),
        Err("sample_rate 48001 out of range [8000,48000]".to_string())
    );
    assert_eq!(
        config("noop", 1, 16, 8000, 0, 4096).validate(),
        Err("period_size 0 out of range".to_string())
    );
    assert_eq!(
        config("noop", 1, 16, 8000, 65537, 4096).validate(),
        Err("period_size 65537 out of range".to_string())
    );
    assert_eq!(
        config("noop", 1, 16, 8000, 1, 70000).validate(),
        Err("buffer_size 70000 out of range".to_string())
    );
}

#[test]
fn capture_config_widens_16_bit_to_32() {
    let c = capture_config_for_recording(&config("noop", 2, 16, 16000, 10, 20));
    assert_eq!(c.bits_per_sample, 32);
    assert_eq!(c.pcm, "noop");
    assert_eq!(c.channels, 2);
    assert_eq!(c.sample_rate, 16000);
    assert_eq!(c.period_size, 10);
    assert_eq!(c.buffer_size, 20);
    let d = capture_config_for_recording(&config("noop", 1, 32, 16000, 10, 20));
    assert_eq!(d.bits_per_sample, 32);
    let e = capture_config_for_recording(&config("noop", 1, 8, 16000, 10, 20));
    assert_eq!(e.bits_per_sample, 8);
}

#[test]
fn convert_shifts_by_eight_and_saturates() {
    // 0x00123400 >> 8 = 0x1234.
    assert_eq!(convert_a113_s32_to_s16(&[0x00, 0x34, 0x12, 0x00]), vec![0x34, 0x12]);
    // i32::MIN >> 8 saturates to i16::MIN.
    assert_eq!(convert_a113_s32_to_s16(&[0x00, 0x00, 0x00, 0x80]), vec![0x00, 0x80]);
    // 0x7f000000 >> 8 saturates to i16::MAX.
    assert_eq!(convert_a113_s32_to_s16(&[0x00, 0x00, 0x00, 0x7f]), vec![0xff, 0x7f]);
    // -256 >> 8 = -1; -1 >> 8 = -1 (arithmetic shift rounds down).
    assert_eq!(
        convert_a113_s32_to_s16(&[0x00, 0xff, 0xff, 0xff, 0xff, 0xff, 0xff, 0xff]),
        vec![0xff, 0xff, 0xff, 0xff]
    );
    // The low byte is dropped.
    assert_eq!(convert_a113_s32_to_s16(&[0xab, 0x01, 0x00, 0x00]), vec![0x01, 0x00]);
}

#[test]
fn convert_rejects_partial_frames() {
    assert_eq!(convert_a113_s32_to_s16(&[1, 2, 3]), Vec::<u8>::new());
    assert_eq!(convert_a113_s32_to_s16(&[]), Vec::<u8>::new());
}

#[test]
fn transform_converts_only_16_bit_requests_captured_at_32() {
    let req16 = config("noop", 1, 16, 16000, 1, 1);
    let req32 = config("noop", 1, 32, 16000, 1, 1);
    let cap32 = config("noop", 1, 32, 16000, 1, 1);
    let cap16 = config("noop", 1, 16, 16000, 1, 1);
    let chunk = vec![0x00, 0x34, 0x12, 0x00];
    assert_eq!(transform_stream_chunk(chunk.clone(), &req16, &cap32), vec![0x34, 0x12]);
    assert_eq!(transform_stream_chunk(chunk.clone(), &req32, &cap32), chunk);
    assert_eq!(transform_stream_chunk(chunk.clone(), &req16, &cap16), chunk);
}

#[test]
fn chunk_sizes_follow_the_capture_settings() {
    assert_eq!(stream_chunk_sizes(&config("noop", 1, 32, 16000, 1024, 4096)), (16384, 4096));
    assert_eq!(stream_chunk_sizes(&config("noop", 2, 16, 16000, 160, 480)), (1920, 640));
    // Widths under 8 bits count as one byte; zero channels and sizes as one.
    assert_eq!(stream_chunk_sizes(&config("noop", 0, 4, 16000, 0, 0)), (1, 1));
}

#[test]
fn accumulator_hands_on_full_chunks_in_order() {
    let mut acc = StreamAccumulator::new(4);
    assert_eq!(acc.feed(&[1, 2, 3]), Vec::<Vec<u8>>::new());
    assert_eq!(acc.feed(&[4, 5, 6, 7, 8, 9, 10]), vec![vec![1, 2, 3, 4], vec![5, 6, 7, 8]]);
    assert_eq!(acc.feed(&[]), Vec::<Vec<u8>>::new());
    assert_eq!(acc.feed(&[11, 12]), vec![vec![9, 10, 11, 12]]);
}

#[test]
fn recorder_ignores_a_second_start_and_stops_once() {
    let mut r = RecorderControl::new();
    assert_eq!(r.state, RecorderState::Idle);
    assert!(r.should_start());
    r.on_started();
    assert_eq!(r.state, RecorderState::Recording);
    assert!(!r.should_start());
    // The end of the capture stream stops it.
    assert!(r.on_stop());
    assert_eq!(r.state, RecorderState::Idle);
    // Stopping an idle recorder does nothing.
    assert!(!r.on_stop());
}
