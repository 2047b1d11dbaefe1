use xiaoai::stereo_core::jitter_buffer::JitterBuffer;
use xiaoai::stereo_core::protocol::AudioPacket;

fn packet(seq: u32, timestamp: u128, byte: u8) -> AudioPacket {
    AudioPacket { seq, timestamp, data: vec![byte] }
}

#[test]
fn releases_in_sequence_order_when_due() {
    let mut jb = JitterBuffer::new(50_000);
    assert_eq!(jb.target_delay_us, 50_000);
    jb.push(packet(3, 300, 3));
    jb.push(packet(1, 100, 1));
    jb.push(packet(2, 200, 2));
    assert_eq!(jb.pop_frame(50), None);
    assert_eq!(jb.pop_frame(100), Some((1, vec![1])));
    assert_eq!(jb.pop_frame(150), None);
    assert_eq!(jb.pop_frame(1000), Some((2, vec![2])));
    assert_eq!(jb.pop_frame(1000), Some((3, vec![3])));
    assert_eq!(jb.pop_frame(1000), None);
}

#[test]
fn drops_packets_not_newer_than_the_last_played() {
    let mut jb = JitterBuffer::new(0);
    jb.push(packet(5, 0, 5));
    assert_eq!(jb.pop_frame(0), Some((5, vec![5])));
    jb.push(packet(4, 0, 4));
    jb.push(packet(5, 0, 55));
    assert_eq!(jb.pop_frame(10), None);
    jb.push(packet(6, 0, 6));
    assert_eq!(jb.pop_frame(10), Some((6, vec![6])));
}

#[test]
fn playback_never_rewinds_after_late_arrivals() {
    let mut jb = JitterBuffer::new(0);
    jb.push(packet(10, 0, 10));
    assert_eq!(jb.pop_frame(0), Some((10, vec![10])));
    for s in [3u32, 9, 10, 12, 11] {
        jb.push(packet(s, 0, s as u8));
    }
    assert_eq!(jb.pop_frame(0), Some((11, vec![11])));
    assert_eq!(jb.pop_frame(0), Some((12, vec![12])));
    assert_eq!(jb.pop_frame(0), None);
}

#[test]
fn equal_sequence_numbers_leave_in_arrival_order() {
    let mut jb = JitterBuffer::new(0);
    jb.push(packet(2, 0, 20));
    jb.push(packet(2, 0, 21));
    assert_eq!(jb.pop_frame(0), Some((2, vec![20])));
    assert_eq!(jb.pop_frame(0), Some((2, vec![21])));
}

#[test]
fn waits_for_the_first_packet_even_if_a_later_one_is_due() {
    let mut jb = JitterBuffer::new(0);
    jb.push(packet(1, 500, 1));
    jb.push(packet(2, 100, 2));
    assert_eq!(jb.pop_frame(200), None);
    assert_eq!(jb.pop_frame(500), Some((1, vec![1])));
}

#[test]
fn clear_forgets_packets_and_history() {
    let mut jb = JitterBuffer::new(0);
    jb.push(packet(7, 0, 7));
    assert_eq!(jb.pop_frame(0), Some((7, vec![7])));
    jb.push(packet(8, 0, 8));
    jb.clear();
    assert_eq!(jb.pop_frame(0), None);
    jb.push(packet(1, 0, 1));
    assert_eq!(jb.pop_frame(0), Some((1, vec![1])));
}

#[test]
fn draining_a_cleared_buffer_releases_each_packet_once_in_order() {
    let mut jb = JitterBuffer::new(0);
    jb.push(packet(1, 0, 1));
    assert_eq!(jb.pop_frame(0), Some((1, vec![1])));
    jb.clear();
    for s in [7u32, 2, 9, 4, 5] {
        jb.push(packet(s, 10 * s as u128, s as u8));
    }
    let mut out = Vec::new();
    while let Some((seq, data)) = jb.pop_frame(1_000) {
        out.push((seq, data[0]));
    }
    assert_eq!(out, vec![(2, 2), (4, 4), (5, 5), (7, 7), (9, 9)]);
    assert_eq!(jb.pop_frame(1_000), None);
}
