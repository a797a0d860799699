use mylsb::bits::{pack, unpack};
use mylsb::channel::{decode, encode};
use mylsb::error::StegoError;
use mylsb::payload::{embed, extract};

#[test]
fn embed_is_pack_then_encode() {
    let before: Vec<u8> = (100..130u8).collect();
    let mut by_steps = before.clone();
    assert_eq!(encode(&mut by_steps, &pack(b"ok")), Ok(()));
    let mut at_once = before.clone();
    assert_eq!(embed(&mut at_once, b"ok"), Ok(()));
    assert_eq!(at_once, by_steps);
}

#[test]
fn embed_writes_the_bits_of_the_message() {
    let mut buffer = vec![0x00u8; 10];
    assert_eq!(embed(&mut buffer, &[0x41]), Ok(()));
    assert_eq!(buffer, vec![0, 1, 0, 0, 0, 0, 0, 1, 0, 0]);
}

#[test]
fn embed_takes_a_message_of_exactly_an_eighth_of_the_buffer() {
    let mut buffer = vec![0xFFu8; 16];
    assert_eq!(embed(&mut buffer, &[0x00, 0x0F]), Ok(()));
    assert_eq!(buffer, vec![
        0xFE, 0xFE, 0xFE, 0xFE, 0xFE, 0xFE, 0xFE, 0xFE, 0xFE, 0xFE, 0xFE, 0xFE, 0xFF, 0xFF, 0xFF,
        0xFF,
    ]);
}

#[test]
fn embed_refuses_a_message_one_bit_too_long() {
    let before = vec![0xFFu8; 15];
    let mut buffer = before.clone();
    assert_eq!(embed(&mut buffer, &[0x00, 0x0F]), Err(StegoError::CapacityExceeded));
    assert_eq!(buffer, before);
}

#[test]
fn embed_refuses_a_message_longer_than_the_buffer_and_writes_nothing() {
    let before: Vec<u8> = (0..12u8).collect();
    let mut buffer = before.clone();
    assert_eq!(embed(&mut buffer, &[1, 2, 3, 4]), Err(StegoError::CapacityExceeded));
    assert_eq!(buffer, before);
    let mut none: Vec<u8> = Vec::new();
    assert_eq!(embed(&mut none, &[1]), Err(StegoError::CapacityExceeded));
}

#[test]
fn embed_of_the_empty_message_changes_nothing() {
    let before = vec![3u8, 1, 4, 1, 5, 9, 2, 6, 5];
    let mut buffer = before.clone();
    assert_eq!(embed(&mut buffer, &[]), Ok(()));
    assert_eq!(buffer, before);
    assert_eq!(decode(&buffer).len(), 9);
    assert_eq!(extract(&buffer).len(), 1);
    let mut none: Vec<u8> = Vec::new();
    assert_eq!(embed(&mut none, &[]), Ok(()));
}

#[test]
fn extract_is_decode_then_unpack() {
    let buffer: Vec<u8> = (0..50u8).map(|i| i.wrapping_mul(91).wrapping_add(7)).collect();
    assert_eq!(extract(&buffer), unpack(&decode(&buffer)));
    assert_eq!(extract(&buffer).len(), 6);
}

#[test]
fn extract_spells_the_lowest_bits() {
    assert_eq!(extract(&[0, 1, 0, 0, 0, 0, 0, 1]), vec![0x41]);
    assert_eq!(extract(&[2, 3, 4, 4, 6, 8, 10, 13, 1, 1, 1]), vec![0x41]);
    assert_eq!(extract(&[1, 1, 1, 1, 1, 1, 1]), Vec::<u8>::new());
}

#[test]
fn round_trip_in_a_buffer_of_exactly_the_capacity() {
    let message = b"verified";
    let mut buffer = vec![0xA0u8; 64];
    assert_eq!(embed(&mut buffer, message), Ok(()));
    let read = decode(&buffer);
    assert_eq!(unpack(&read[..8 * message.len()]), message.to_vec());
    assert_eq!(extract(&buffer), message.to_vec());
}

#[test]
fn round_trip_in_a_larger_buffer() {
    let message: Vec<u8> = (0..=255u8).collect();
    let before: Vec<u8> = (0..3000u32).map(|i| (i * 7 % 251) as u8).collect();
    let mut buffer = before.clone();
    assert_eq!(embed(&mut buffer, &message), Ok(()));
    let read = decode(&buffer);
    assert_eq!(unpack(&read[..8 * message.len()]), message);
    let all = extract(&buffer);
    assert_eq!(all.len(), 3000 / 8);
    assert_eq!(all[..message.len()], message[..]);
    assert_eq!(all[message.len()..], extract(&before)[message.len()..]);
    for i in 0..3000 {
        assert_eq!(buffer[i] >> 1, before[i] >> 1);
    }
    assert_eq!(buffer[2048..], before[2048..]);
}
