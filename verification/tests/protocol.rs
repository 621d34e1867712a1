//! Behavioural tests of the engine: pose decoding, malformed datagrams,
//! correlation, claiming, timeouts, and the wire encoding.
use cocube::{CoCube, WaitOutcome};

fn reply_datagram(id: &[u8], payload: &[u8]) -> Vec<u8> {
    let mut d = b"res,".to_vec();
    d.extend_from_slice(id);
    d.push(b',');
    d.extend_from_slice(payload);
    d
}

#[test]
fn pose_report_scales_device_units() {
    let mut cc = CoCube::new(1);
    cc.apply_datagram(b"pos,6400000,640000,90");
    let p = cc.get_position();
    assert_eq!(p, [100000, 10000, 90]);
    // metric pair: swapped, scaled by 135 / 100000, rounded to nearest
    assert_eq!(cc.state.pose.pos_m_first, 14); // 10000 * 0.00135 = 13.5, half up
    assert_eq!(cc.state.pose.pos_m_second, 135); // 100000 * 0.00135 = 135
}

#[test]
fn pose_report_truncates_toward_zero() {
    let mut cc = CoCube::new(1);
    cc.apply_datagram(b"pos,-1000,1000,-45");
    let p = cc.get_position();
    assert_eq!(p, [-15, 15, -45]);
}

#[test]
fn metric_half_rounds_away_from_zero() {
    let mut cc = CoCube::new(1);
    cc.apply_datagram(b"pos,0,-640000,0");
    // y units -10000: -13.5 rounds away from zero to -14
    assert_eq!(cc.state.pose.pos_m_first, -14);
    assert_eq!(cc.state.pose.pos_m_second, 0);
}

#[test]
fn pose_report_fields_are_trimmed() {
    let mut cc = CoCube::new(1);
    cc.apply_datagram(b" pos , 640 , 1280 , 7 ");
    assert_eq!(cc.get_position(), [10, 20, 7]);
}

#[test]
fn malformed_datagrams_leave_state_unchanged() {
    let mut cc = CoCube::new(1);
    cc.apply_datagram(b"pos,640,1280,90");
    cc.apply_datagram(b"res,abc123,OK");
    let before = cc.get_position();

    cc.apply_datagram(b"");
    cc.apply_datagram(b"hello");
    cc.apply_datagram(b"pos,1,2"); // too short
    cc.apply_datagram(b"pos,abc,2,3"); // not an integer
    cc.apply_datagram(b"pos,1,2,3.5"); // not an integer
    cc.apply_datagram(b"res,onlyid"); // too short
    cc.apply_datagram(b"position,1,2,3"); // unknown tag
    cc.apply_datagram(b",,,,");

    assert_eq!(cc.get_position(), before);
    // the filed reply is still claimable: nothing touched the tables
    match cc.wait_poll(b"abc123", false) {
        WaitOutcome::Claimed(v) => assert_eq!(v, b"OK".to_vec()),
        _ => panic!("reply was lost"),
    }
}

#[test]
fn pose_value_out_of_range_is_ignored() {
    let mut cc = CoCube::new(1);
    cc.apply_datagram(b"pos,640,1280,90");
    cc.apply_datagram(b"pos,2147483648,0,0"); // x beyond i32
    assert_eq!(cc.get_position(), [10, 20, 90]);
    cc.apply_datagram(b"pos,-2147483648,2147483647,0"); // extremes are valid
    assert_eq!(cc.get_position(), [-33554432, 33554431, 0]);
}

#[test]
fn dispatch_registers_pending_identifier() {
    let mut cc = CoCube::new(1);
    let d = cc.move_by_steps("forward", 40, 10);
    assert!(d.expects_reply);
    assert_eq!(d.id.len(), 6);
    assert_eq!(
        cc.pending_command(&d.id),
        Some(b"CoCube move by step".to_vec())
    );

    // an unrelated reply leaves it pending
    cc.apply_datagram(b"res,zzzzzz,NO");
    assert_eq!(
        cc.pending_command(&d.id),
        Some(b"CoCube move by step".to_vec())
    );

    // the matching reply removes it
    cc.apply_datagram(&reply_datagram(&d.id, b"OK"));
    assert_eq!(cc.pending_command(&d.id), None);
}

#[test]
fn fire_and_forget_dispatch_registers_nothing() {
    let mut cc = CoCube::new(1);
    let d = cc.wheels_stop();
    assert!(!d.expects_reply);
    assert_eq!(cc.pending_command(&d.id), None);
}

#[test]
fn claimed_payload_is_exact_and_claimed_once() {
    let mut cc = CoCube::new(1);
    let d = cc.mb_display(42);
    cc.apply_datagram(&reply_datagram(&d.id, b"shown: 42"));
    match cc.wait_poll(&d.id, false) {
        WaitOutcome::Claimed(v) => assert_eq!(v, b"shown: 42".to_vec()),
        _ => panic!("expected the payload"),
    }
    // a second wait on the same identifier never succeeds
    match cc.wait_poll(&d.id, false) {
        WaitOutcome::KeepWaiting => {}
        _ => panic!("payload must be claimable exactly once"),
    }
}

#[test]
fn expired_wait_returns_no_result() {
    let mut cc = CoCube::new(1);
    let d = cc.mb_display_off();
    match cc.wait_poll(&d.id, true) {
        WaitOutcome::TimedOut => {}
        _ => panic!("an expired wait must time out"),
    }
    // no claimable entry exists for the identifier
    match cc.wait_poll(&d.id, false) {
        WaitOutcome::KeepWaiting => {}
        _ => panic!("nothing should be claimable"),
    }
    // the pending entry is not removed by the timeout
    assert_eq!(
        cc.pending_command(&d.id),
        Some(b"[display:mbDisplayOff]".to_vec())
    );
}

#[test]
fn expired_wait_wins_over_a_filed_result() {
    let mut cc = CoCube::new(1);
    let d = cc.mb_display(7);
    cc.apply_datagram(&reply_datagram(&d.id, b"late"));
    match cc.wait_poll(&d.id, true) {
        WaitOutcome::TimedOut => {}
        _ => panic!("an expired wait must time out"),
    }
    // the result stays filed: the timeout claimed nothing
    match cc.wait_poll(&d.id, false) {
        WaitOutcome::Claimed(v) => assert_eq!(v, b"late".to_vec()),
        _ => panic!("the filed result should still be there"),
    }
}

#[test]
fn parameter_encoding_quotes_non_integers() {
    let mut cc = CoCube::new(1);
    let params = vec![b"left".to_vec(), b"40".to_vec()];
    let d = cc.process_data(b"CoCube move", &params, false, 3000);
    assert_eq!(d.message[0], b'0');
    assert_eq!(d.message[1], b',');
    assert_eq!(&d.message[2..8], &d.id[..]);
    assert_eq!(&d.message[8..], &b",CoCube move,\"left\",40"[..]);
}

#[test]
fn parameter_encoding_single_token() {
    let mut cc = CoCube::new(1);
    let params = vec![b"forward".to_vec()];
    let d = cc.process_data(b"CoCube move", &params, false, 3000);
    assert_eq!(&d.message[8..], &b",CoCube move,\"forward\""[..]);
}

#[test]
fn parameter_encoding_bare_integers() {
    let mut cc = CoCube::new(1);
    let params = vec![
        b"40".to_vec(),
        b"-12".to_vec(),
        b"+7".to_vec(),
        b"2147483648".to_vec(), // too large for i32: quoted
    ];
    let d = cc.process_data(b"t", &params, false, 3000);
    assert_eq!(&d.message[8..], &b",t,40,-12,+7,\"2147483648\""[..]);
}

#[test]
fn message_without_parameters_has_no_trailing_comma() {
    let mut cc = CoCube::new(1);
    let d = cc.wheels_break();
    assert_eq!(d.message[0], b'0');
    assert_eq!(&d.message[8..], &b",CoCube wheels break"[..]);
}

#[test]
fn reply_expecting_message_sets_flag() {
    let mut cc = CoCube::new(1);
    let d = cc.move_millisecs("backward", 30, 1500);
    assert_eq!(d.message[0], b'1');
    assert_eq!(&d.message[8..], &b",CoCube move for millisecs,\"backward\",30,1500"[..]);
    assert_eq!(d.timeout_ms, 4500);
}

#[test]
fn end_to_end_move_by_steps_round_trip() {
    let mut cc = CoCube::new(1);
    let d = cc.move_by_steps("forward", 40, 10);
    assert!(d.expects_reply);
    assert_eq!(&d.message[8..], &b",CoCube move by step,\"forward\",40,10"[..]);

    // inject the matching reply on the receive path within the budget
    cc.apply_datagram(&reply_datagram(&d.id, b"OK"));

    let payload = match cc.wait_poll(&d.id, false) {
        WaitOutcome::Claimed(v) => v,
        _ => panic!("the reply must satisfy the wait"),
    };
    assert_eq!(payload, b"OK".to_vec());
}

#[test]
fn correlation_identifiers_are_short_hex() {
    let mut cc = CoCube::new(1);
    let d1 = cc.mb_display(1);
    let d2 = cc.mb_display(2);
    for d in [&d1, &d2] {
        assert_eq!(d.id.len(), 6);
        assert!(d
            .id
            .iter()
            .all(|b| b.is_ascii_digit() || (b'a'..=b'f').contains(b)));
    }
    assert_ne!(d1.id, d2.id);
}

#[test]
fn initial_position_is_zero() {
    let cc = CoCube::new(7);
    assert_eq!(cc.get_position(), [0, 0, 0]);
    assert_eq!(cc.robot_id, 7);
}

#[test]
fn color_is_packed_high_byte_first() {
    let mut cc = CoCube::new(1);
    let d = cc.set_all_neo_pixels_color(255, 0, 5);
    assert_eq!(&d.message[8..], &b",set all NeoPixels color,16711685"[..]);
    let d2 = cc.set_display_color(0, 1, 2);
    assert_eq!(&d2.message[8..], &b",set display color,258"[..]);
}

#[test]
fn signed_arguments_are_rendered_with_their_sign() {
    let mut cc = CoCube::new(1);
    let d = cc.rotate_to_angle(-90, 20);
    assert_eq!(&d.message[8..], &b",CoCube rotate to angle,-90,20"[..]);
    let d2 = cc.gripper_degree(-3);
    assert_eq!(&d2.message[8..], &b",Gripper degree,-3"[..]);
    let d3 = cc.move_to(-200, 300, 50);
    assert_eq!(&d3.message[8..], &b",CoCube move to,-200,300,50"[..]);
}

#[test]
fn each_pose_report_overwrites_the_previous() {
    let mut cc = CoCube::new(1);
    cc.apply_datagram(b"pos,640,640,10");
    cc.apply_datagram(b"pos,1280,1280,20");
    assert_eq!(cc.get_position(), [20, 20, 20]);
}

#[test]
fn reply_payload_stops_at_the_next_comma() {
    let mut cc = CoCube::new(1);
    cc.apply_datagram(b"res,abc123,first,second");
    match cc.wait_poll(b"abc123", false) {
        WaitOutcome::Claimed(v) => assert_eq!(v, b"first".to_vec()),
        _ => panic!("expected the payload"),
    }
}

#[test]
fn non_utf8_datagrams_are_discarded() {
    let mut cc = CoCube::new(1);
    cc.apply_datagram(b"pos,640,1280,90");

    // a res-shaped datagram with an invalid byte files nothing
    let mut bad = b"res,a,".to_vec();
    bad.push(0xFF);
    cc.apply_datagram(&bad);
    match cc.wait_poll(b"a", false) {
        WaitOutcome::KeepWaiting => {}
        _ => panic!("a datagram that is not UTF-8 must be discarded"),
    }

    cc.apply_datagram(&[0xC0, 0xAF]); // overlong two-byte sequence
    cc.apply_datagram(&[0xED, 0xA0, 0x80]); // surrogate
    cc.apply_datagram(&[0xF4, 0x90, 0x80, 0x80]); // beyond U+10FFFF
    cc.apply_datagram(&[0xE2, 0x82]); // truncated sequence
    cc.apply_datagram(&[b'p', b'o', b's', b',', b'1', b',', b'2', b',', b'3', 0x80]);
    assert_eq!(cc.get_position(), [10, 20, 90]);
}

#[test]
fn valid_multibyte_text_is_accepted() {
    let mut cc = CoCube::new(1);
    // payload with a two-byte scalar is valid text and kept byte-for-byte
    let datagram = [b'r', b'e', b's', b',', b'k', b',', b'c', b'a', b'f', 0xC3, 0xA9];
    cc.apply_datagram(&datagram);
    match cc.wait_poll(b"k", false) {
        WaitOutcome::Claimed(v) => assert_eq!(v, vec![b'c', b'a', b'f', 0xC3, 0xA9]),
        _ => panic!("valid text must be decoded"),
    }
}
