use rollback_core::scheduler::InputMessage;
use rollback_core::wire::{decode_message, encode_message, MESSAGE_LEN};

#[test]
fn a_message_has_six_bytes_in_the_documented_order() {
    let bytes = encode_message(InputMessage { sender: 1, frame: 0x0102_0304, symbol: 24 });
    assert_eq!(bytes, vec![1, 4, 3, 2, 1, 24]);
    assert_eq!(bytes.len(), MESSAGE_LEN);
}

#[test]
fn messages_survive_the_round_trip() {
    for sender in 0..2usize {
        for frame in [0u32, 1, 255, 256, 65_535, 65_536, 16_777_216, u32::MAX - 1, u32::MAX] {
            for symbol in [0u8, 1, 24, 31, 255] {
                let message = InputMessage { sender, frame, symbol };
                assert_eq!(decode_message(&encode_message(message)), Some(message));
            }
        }
    }
}

#[test]
fn bytes_of_another_length_are_no_message() {
    assert_eq!(decode_message(&[]), None);
    assert_eq!(decode_message(&[0, 1, 0, 0, 0]), None);
    assert_eq!(decode_message(&[0, 1, 0, 0, 0, 8, 0]), None);
}

#[test]
fn a_first_byte_that_is_no_handle_is_no_message() {
    assert_eq!(decode_message(&[2, 1, 0, 0, 0, 8]), None);
    assert_eq!(decode_message(&[255, 1, 0, 0, 0, 8]), None);
    assert_eq!(
        decode_message(&[0, 10, 0, 0, 0, 8]),
        Some(InputMessage { sender: 0, frame: 10, symbol: 8 })
    );
}
