use rollback_core::codec::{decode, encode, from_byte, intent, to_byte, AxisIntent, Controls, InputSample};
use rollback_core::wire::{encode as encode_message, parse, Message};

fn controls(bits: u8) -> Controls {
    Controls { up: bits & 1 != 0, down: bits & 2 != 0, right: bits & 4 != 0, left: bits & 8 != 0 }
}

#[test]
fn decode_inverts_encode_for_every_control_state() {
    for bits in 0u8..16 {
        let c = controls(bits);
        assert_eq!(decode(encode(c)), c);
    }
}

#[test]
fn encode_inverts_decode_for_every_valid_sample() {
    for bits in 0u8..16 {
        let s = InputSample { bits };
        assert_eq!(encode(decode(s)), s);
    }
}

#[test]
fn encode_sets_one_bit_per_control() {
    let up = Controls { up: true, down: false, right: false, left: false };
    let down = Controls { up: false, down: true, right: false, left: false };
    let right = Controls { up: false, down: false, right: true, left: false };
    let left = Controls { up: false, down: false, right: false, left: true };
    assert_eq!(encode(up).bits, 1);
    assert_eq!(encode(down).bits, 2);
    assert_eq!(encode(right).bits, 4);
    assert_eq!(encode(left).bits, 8);
    assert_eq!(encode(controls(0)).bits, 0);
    assert_eq!(encode(controls(15)).bits, 15);
}

#[test]
fn intent_cancels_opposite_controls() {
    assert_eq!(intent(InputSample { bits: 1 }), AxisIntent { horizontal: 0, vertical: 1 });
    assert_eq!(intent(InputSample { bits: 2 }), AxisIntent { horizontal: 0, vertical: -1 });
    assert_eq!(intent(InputSample { bits: 4 }), AxisIntent { horizontal: 1, vertical: 0 });
    assert_eq!(intent(InputSample { bits: 8 }), AxisIntent { horizontal: -1, vertical: 0 });
    assert_eq!(intent(InputSample { bits: 3 }), AxisIntent { horizontal: 0, vertical: 0 });
    assert_eq!(intent(InputSample { bits: 15 }), AxisIntent { horizontal: 0, vertical: 0 });
    assert_eq!(intent(InputSample { bits: 5 }), AxisIntent { horizontal: 1, vertical: 1 });
}

#[test]
fn wire_byte_clears_unused_bits() {
    assert_eq!(from_byte(0xff).bits, 15);
    assert_eq!(from_byte(0x25).bits, 5);
    assert_eq!(to_byte(from_byte(9)), 9);
}

#[test]
fn sync_request_layout_and_round_trip() {
    let m = Message::SyncRequest { nonce: 0x0403_0201, timestamp_ms: 0x0c0b_0a09_0807_0605 };
    let b = encode_message(&m).unwrap();
    assert_eq!(b, vec![0, 1, 2, 3, 4, 5, 6, 7, 8, 9, 10, 11, 12]);
    match parse(&b) {
        Some(Message::SyncRequest { nonce, timestamp_ms }) => {
            assert_eq!(nonce, 0x0403_0201);
            assert_eq!(timestamp_ms, 0x0c0b_0a09_0807_0605);
        }
        _ => panic!("sync request did not parse back"),
    }
}

#[test]
fn sync_reply_round_trip() {
    let m = Message::SyncReply { nonce: 77, timestamp_ms: 123_456 };
    let b = encode_message(&m).unwrap();
    assert_eq!(b[0], 1);
    match parse(&b) {
        Some(Message::SyncReply { nonce, timestamp_ms }) => {
            assert_eq!(nonce, 77);
            assert_eq!(timestamp_ms, 123_456);
        }
        _ => panic!("sync reply did not parse back"),
    }
}

#[test]
fn input_message_round_trip() {
    let samples = vec![InputSample { bits: 3 }, InputSample { bits: 12 }];
    let m = Message::Input { nonce: 9, tick: 300, samples: samples.clone() };
    let b = encode_message(&m).unwrap();
    assert_eq!(b.len(), 16);
    assert_eq!(b[0], 2);
    assert_eq!(b[13], 2);
    assert_eq!(&b[14..], &[3, 12]);
    match parse(&b) {
        Some(Message::Input { nonce, tick, samples: s }) => {
            assert_eq!(nonce, 9);
            assert_eq!(tick, 300);
            assert_eq!(s, samples);
        }
        _ => panic!("input message did not parse back"),
    }
}

#[test]
fn malformed_messages_are_rejected() {
    assert!(parse(&vec![0, 1, 2]).is_none());
    assert!(parse(&vec![7; 13]).is_none());
    let mut b = encode_message(&Message::SyncRequest { nonce: 1, timestamp_ms: 2 }).unwrap();
    b.push(0);
    assert!(parse(&b).is_none());
    let mut i = encode_message(&Message::Input { nonce: 1, tick: 2, samples: vec![InputSample { bits: 1 }] }).unwrap();
    i[14] = 0x10;
    assert!(parse(&i).is_none());
    i[14] = 1;
    i[13] = 2;
    assert!(parse(&i).is_none());
}

#[test]
fn invalid_samples_are_not_encoded() {
    let m = Message::Input { nonce: 1, tick: 2, samples: vec![InputSample { bits: 16 }] };
    assert!(encode_message(&m).is_none());
    let many = Message::Input { nonce: 1, tick: 2, samples: vec![InputSample { bits: 0 }; 256] };
    assert!(encode_message(&many).is_none());
}
