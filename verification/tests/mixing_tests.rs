use xiaoai::net::peer::{PeerAddr, PeerIp};
use xiaoai::stereo_core::master::{
    local_wait_us, playback_channels, remove_slave, split_channels, stereo_frame, SlaveSession,
    MasterLoop, MasterSession, SessionPhase, StreamTimeline, PLAYBACK_DELAY_US,
};
use xiaoai::stereo_core::mixer::{frame_layout, mix_frames};
use xiaoai::stereo_core::protocol::{ChannelRole, ControlPacket};
use xiaoai::stereo_core::slave::{frames_lost, SlavePlayback};

fn le(samples: &[i16]) -> Vec<u8> {
    samples.iter().flat_map(|s| s.to_le_bytes()).collect()
}

#[test]
fn mix_sums_and_saturates() {
    let a = le(&[30000, -30000, 5, -7]);
    let b = le(&[10000, -10000, 6, 3]);
    assert_eq!(mix_frames(&vec![a, b], 4), vec![32767, -32768, 11, -4]);
}

#[test]
fn mix_of_one_stream_is_that_stream() {
    let a = le(&[1, -2, 32767, -32768]);
    assert_eq!(mix_frames(&vec![a], 4), vec![1, -2, 32767, -32768]);
}

#[test]
fn mix_of_no_stream_is_silence() {
    assert_eq!(mix_frames(&vec![], 3), vec![0, 0, 0]);
}

#[test]
fn frame_layout_counts_samples_and_bytes() {
    assert_eq!(frame_layout(960, 2), (1920, 3840));
}

#[test]
fn stereo_frame_decodes_interleaved_pairs() {
    let raw = le(&[1, 2, -3, -4]);
    assert_eq!(stereo_frame(&raw, 2), vec![1, 2, -3, -4]);
}

#[test]
fn split_picks_each_roles_channel() {
    let raw = le(&[1, 2, 3, 4, 5, 6]);
    assert_eq!(
        split_channels(&raw, 3, ChannelRole::Left, ChannelRole::Right),
        (vec![1, 3, 5], vec![2, 4, 6])
    );
    assert_eq!(
        split_channels(&raw, 3, ChannelRole::Right, ChannelRole::Right),
        (vec![2, 4, 6], vec![2, 4, 6])
    );
    assert_eq!(split_channels(&raw, 2, ChannelRole::Right, ChannelRole::Left), (vec![2, 4], vec![1, 3]));
}

#[test]
fn player_goes_mono_once_a_slave_joins() {
    assert_eq!(playback_channels(false), 2);
    assert_eq!(playback_channels(true), 1);
}

fn addr(ip: u32, port: u16) -> PeerAddr {
    PeerAddr { ip: PeerIp::V4(ip), port }
}

#[test]
fn remove_slave_drops_every_session_at_the_address() {
    let mut sessions = vec![
        SlaveSession { udp_addr: addr(1, 10), role: ChannelRole::Left },
        SlaveSession { udp_addr: addr(2, 10), role: ChannelRole::Right },
        SlaveSession { udp_addr: addr(1, 10), role: ChannelRole::Right },
        SlaveSession { udp_addr: addr(1, 11), role: ChannelRole::Left },
    ];
    remove_slave(&mut sessions, addr(1, 10));
    assert_eq!(
        sessions,
        vec![
            SlaveSession { udp_addr: addr(2, 10), role: ChannelRole::Right },
            SlaveSession { udp_addr: addr(1, 11), role: ChannelRole::Left },
        ]
    );
    let v6 = PeerAddr { ip: PeerIp::V6 { octets: 1, flowinfo: 0, scope_id: 0 }, port: 10 };
    let mut only = vec![SlaveSession { udp_addr: v6, role: ChannelRole::Left }];
    remove_slave(&mut only, addr(1, 10));
    assert_eq!(only.len(), 1);
}

#[test]
fn timeline_spaces_frames_by_their_duration() {
    let mut t = StreamTimeline::new();
    t.begin_frame(1_000_000, 5);
    assert_eq!(t.stream_start_ts, 1_000_000);
    assert_eq!(t.stream_start_seq, 5);
    t.begin_frame(2_000_000, 6);
    assert_eq!(t.stream_start_ts, 1_000_000);
    assert_eq!(t.target_ts(5, 20_000, PLAYBACK_DELAY_US), 1_200_000);
    assert_eq!(t.target_ts(8, 20_000, PLAYBACK_DELAY_US), 1_260_000);
    t.reset();
    assert_eq!(t.stream_start_ts, 0);
    assert_eq!(t.stream_start_seq, 5);
    t.begin_frame(9_000_000, 40);
    assert_eq!(t.target_ts(41, 20_000, 0), 9_020_000);
}

#[test]
fn master_sleeps_only_for_waits_over_a_millisecond() {
    assert_eq!(local_wait_us(100, 5_000), Some(4_900));
    assert_eq!(local_wait_us(100, 1_100), None);
    assert_eq!(local_wait_us(100, 1_101), Some(1_001));
    assert_eq!(local_wait_us(5_000, 100), None);
}

#[test]
fn slave_counts_lost_frames() {
    assert_eq!(frames_lost(None, 10), 0);
    assert_eq!(frames_lost(Some(3), 4), 0);
    assert_eq!(frames_lost(Some(3), 7), 3);
    assert_eq!(frames_lost(Some(9), 2), 0);
}

#[test]
fn master_loop_reopens_the_player_only_when_the_mode_changes() {
    let mut m = MasterLoop::new();
    assert_eq!(m.begin_frame(1_000, false), Some(2));
    assert_eq!(m.timeline.stream_start_ts, 1_000);
    assert_eq!(m.timeline.stream_start_seq, 0);
    m.end_frame();
    assert_eq!(m.begin_frame(2_000, false), None);
    m.end_frame();
    assert_eq!(m.begin_frame(3_000, true), Some(1));
    assert_eq!(m.player_channels, Some(1));
    // The stream started at the first frame and goes on.
    assert_eq!(m.timeline.stream_start_ts, 1_000);
    m.end_frame();
    assert_eq!(m.seq, 3);
    assert_eq!(m.begin_frame(4_000, true), None);
    assert_eq!(m.begin_frame(5_000, false), Some(2));
}

#[test]
fn a_session_registers_answers_and_leaves_no_trace() {
    let other = SlaveSession { udp_addr: addr(2, 10), role: ChannelRole::Left };
    let mut slaves = vec![other];
    let mut session = MasterSession::new();
    assert!(session.on_handshake(&ControlPacket::ClientIdentify { role: ChannelRole::Right }));
    assert_eq!(session.phase, SessionPhase::AwaitAddress(ChannelRole::Right));
    session.on_address(addr(1, 10), &mut slaves);
    let mine = SlaveSession { udp_addr: addr(1, 10), role: ChannelRole::Right };
    assert_eq!(slaves, vec![other, mine]);
    match session.on_control(&ControlPacket::Ping { client_ts: 5, seq: 9 }, 77) {
        Some(ControlPacket::Pong { client_ts, server_ts, seq }) => assert_eq!((client_ts, server_ts, seq), (5, 77, 9)),
        _ => panic!("expected a pong"),
    }
    assert!(session.on_control(&ControlPacket::Volume(3), 77).is_none());
    session.on_closed(&mut slaves);
    assert_eq!(session.phase, SessionPhase::Closed);
    assert_eq!(slaves, vec![other]);
}

#[test]
fn a_session_without_identification_ends() {
    let mut session = MasterSession::new();
    assert!(!session.on_handshake(&ControlPacket::Volume(1)));
    assert_eq!(session.phase, SessionPhase::Closed);
}

#[test]
fn slave_conceals_the_gap_before_each_frame() {
    let mut p = SlavePlayback::new();
    assert_eq!(p.on_frame(5), 0);
    assert_eq!(p.on_frame(6), 0);
    assert_eq!(p.on_frame(9), 2);
    assert_eq!(p.last_seq, Some(9));
    assert_eq!(p.on_frame(9), 0);
}
