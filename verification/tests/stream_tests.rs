use xiaoai::audio::reader::{split_stereo_samples, SampleQueue};
use xiaoai::config::{AudioConfig, AudioScene};
use xiaoai::net::discovery::{Discovery, SERVER_PORT};
use xiaoai::net::peer::{PeerAddr, PeerIp};
use xiaoai::net::protocol::{identified_role, pong_for, ChannelRole, ControlPacket};
use xiaoai::net::stream::{frame_with_size, should_pace, FrameStream, STREAM_LEAD_IN_US};
use xiaoai::stereo_core::alsa::{is_redirected, redirected_asound_conf};
use xiaoai::stereo_core::protocol as stereo;

#[test]
fn config_presets() {
    let d = AudioConfig::default();
    assert_eq!(d.audio_scene, AudioScene::Voice);
    assert_eq!((d.sample_rate, d.channels, d.frame_size, d.bitrate), (16_000, 1, 320, 32_000));
    assert_eq!(d.capture_device, "plug:Capture");
    assert_eq!(d.playback_device, "default");
    assert!(!d.vbr && !d.fec);
    let m = AudioConfig::music();
    assert_eq!(m.audio_scene, AudioScene::Music);
    assert_eq!((m.sample_rate, m.channels, m.frame_size, m.bitrate), (48_000, 2, 960, 320_000));
    assert_eq!(m.playback_device, "default");
    let v = AudioConfig::voice();
    assert_eq!(v.audio_scene, AudioScene::Voice);
    assert_eq!((v.sample_rate, v.channels, v.frame_size, v.bitrate), (16_000, 1, 320, 32_000));
}

#[test]
fn frames_carry_a_big_endian_length() {
    assert_eq!(frame_with_size(&[9, 8, 7]), vec![0, 0, 0, 3, 9, 8, 7]);
    assert_eq!(frame_with_size(&[]), vec![0, 0, 0, 0]);
    let big = vec![1u8; 0x0102];
    let framed = frame_with_size(&big);
    assert_eq!(&framed[..4], &[0, 0, 1, 2]);
    assert_eq!(framed.len(), 4 + 0x0102);
}

#[test]
fn pacing_waits_when_more_than_a_second_ahead() {
    assert!(!should_pace(2_000_000, 1_000_000));
    assert!(should_pace(2_000_001, 1_000_000));
}

#[test]
fn discovery_announces_and_reads_the_server_port() {
    assert!(matches!(Discovery::beacon(), ControlPacket::ServerHello { port } if port == SERVER_PORT));
    let sender = PeerAddr { ip: PeerIp::V4(0xc0a8_0102), port: 40000 };
    assert_eq!(
        Discovery::server_address(&ControlPacket::ServerHello { port: 8889 }, sender),
        Some(PeerAddr { ip: PeerIp::V4(0xc0a8_0102), port: 8889 })
    );
    assert_eq!(Discovery::server_address(&ControlPacket::Ping { client_ts: 1 }, sender), None);
}

#[test]
fn pings_get_pongs_and_handshakes_give_roles() {
    assert!(matches!(
        pong_for(&ControlPacket::Ping { client_ts: 11 }, 99),
        Some(ControlPacket::Pong { client_ts: 11, server_ts: 99 })
    ));
    assert!(pong_for(&ControlPacket::StartStreaming { start_time: 1 }, 99).is_none());
    assert_eq!(identified_role(&ControlPacket::ClientIdentify { role: ChannelRole::Right }), Some(ChannelRole::Right));
    assert_eq!(identified_role(&ControlPacket::Ping { client_ts: 1 }), None);

    assert!(matches!(
        stereo::pong_for(&stereo::ControlPacket::Ping { client_ts: 5, seq: 2 }, 70),
        Some(stereo::ControlPacket::Pong { client_ts: 5, server_ts: 70, seq: 2 })
    ));
    assert!(stereo::pong_for(&stereo::ControlPacket::Volume(3), 70).is_none());
    assert_eq!(
        stereo::identified_role(&stereo::ControlPacket::ClientIdentify { role: stereo::ChannelRole::Left }),
        Some(stereo::ChannelRole::Left)
    );
    assert_eq!(stereo::announced_port(&stereo::ControlPacket::ServerHello { udp_port: 4321 }), Some(4321));
    assert_eq!(stereo::announced_port(&stereo::ControlPacket::Volume(1)), None);
}

#[test]
fn alsa_configuration_is_redirected_once() {
    let conf = "pcm.!default { type hw card 0 }\nctl.!default { type hw card 0 }\n";
    let out = redirected_asound_conf(conf, "/data/stereo").unwrap();
    assert!(out.starts_with("pcm.original_default { type hw card 0 }\nctl.!default { type hw card 0 }\n"));
    assert!(out.contains("\npcm.!default {\n    type plug \n"));
    assert!(out.ends_with("file \"| /data/stereo --inject\" \n    format \"raw\"\n}\n"));
    assert_eq!(redirected_asound_conf(&out, "/data/stereo"), None);
    assert!(is_redirected(&out));
    assert!(!is_redirected(conf));
    let empty = redirected_asound_conf("", "/x").unwrap();
    assert!(empty.starts_with("\npcm.!default {"));
}

#[test]
fn decoded_samples_split_into_channels() {
    assert_eq!(split_stereo_samples(&[1, 2, 3, 4], 2), (vec![1, 3], vec![2, 4]));
    assert_eq!(split_stereo_samples(&[1, 2, 3], 1), (vec![1, 2, 3], vec![1, 2, 3]));
    assert_eq!(split_stereo_samples(&[1, 2, 3], 6), (vec![1, 2, 3], vec![1, 2, 3]));
}

#[test]
fn sample_queue_hands_out_chunks() {
    let mut q = SampleQueue::new();
    assert!(q.needs_more(2));
    assert_eq!(q.take_chunk(2), None);
    q.extend(vec![1, 2, 3], vec![4, 5, 6]);
    assert!(!q.needs_more(3));
    assert!(q.needs_more(4));
    assert_eq!(q.take_chunk(2), Some((vec![1, 2], vec![4, 5])));
    assert_eq!(q.take_chunk(2), Some((vec![3], vec![6])));
    assert_eq!(q.take_chunk(2), None);
}

#[test]
fn stream_frames_are_stamped_a_frame_apart_after_the_lead_in() {
    let mut st = FrameStream::start(1_000_000, 20_000);
    assert_eq!(STREAM_LEAD_IN_US, 500_000);
    assert_eq!(st.on_chunk(960, 960), Some(1_500_000));
    assert_eq!(st.on_chunk(1000, 960), Some(1_520_000));
    assert_eq!(st.on_chunk(960, 960), Some(1_540_000));
    // A short chunk ends the stream and leaves the timing as it was.
    assert_eq!(st.on_chunk(100, 960), None);
    assert_eq!(st.next_frame_ts, 1_560_000);
}
