use hw_cpu::codec::{decode_frame, encode_message, DecodeError};
use hw_cpu::message::{FromHost, PerfBits};

fn sample_bits() -> PerfBits {
    PerfBits {
        all_cores_load: 0.5f32.to_bits(),
        all_cores_avg: 0.1f32.to_bits(),
        peak_core_load: 0.3f32.to_bits(),
        memory_load: 0.2f32.to_bits(),
        daytime: true,
    }
}

#[test]
fn show_perf_round_trip() {
    let msg = FromHost::ShowPerf(sample_bits());
    let frame = encode_message(&msg);
    assert_eq!(decode_frame(&frame), Ok(msg));
}

#[test]
fn clear_screen_round_trip() {
    let msg = FromHost::ClearScreen;
    let frame = encode_message(&msg);
    assert_eq!(decode_frame(&frame), Ok(msg));
}

#[test]
fn encoded_frame_is_zero_free_and_terminated() {
    let frame = encode_message(&FromHost::ShowPerf(sample_bits()));
    assert_eq!(*frame.last().unwrap(), 0x00);
    assert!(frame[..frame.len() - 1].iter().all(|&b| b != 0x00));
}

#[test]
fn encoding_matches_postcard_cobs() {
    // The wire format is what postcard's COBS flavor produces for the
    // equivalent field tuple: tag varint, four little-endian floats, one
    // bool byte, stuffed and terminated.
    let expected: Vec<u8> =
        postcard::to_allocvec_cobs(&(1u8, 0.5f32, 0.1f32, 0.3f32, 0.2f32, true)).unwrap();
    let frame = encode_message(&FromHost::ShowPerf(sample_bits()));
    assert_eq!(frame, expected);

    let expected: Vec<u8> = postcard::to_allocvec_cobs(&0u8).unwrap();
    let frame = encode_message(&FromHost::ClearScreen);
    assert_eq!(frame, expected);
}

#[test]
fn known_bytes_decode_to_snapshot() {
    // Tag 0x01, then 0.5, 0.1, 0.3, 0.2 as little-endian floats, then the
    // bool byte 1 — stuffed (three zeros fall at offsets 1..4) and closed
    // by the terminator.
    let frame: Vec<u8> = vec![
        0x02, 0x01, 0x01, 0x01, 0x0f, 0x3f, 0xcd, 0xcc, 0xcc, 0x3d, 0x9a, 0x99, 0x99, 0x3e,
        0xcd, 0xcc, 0x4c, 0x3e, 0x01, 0x00,
    ];
    assert_eq!(decode_frame(&frame), Ok(FromHost::ShowPerf(sample_bits())));
}

#[test]
fn empty_frame_is_missing_terminator() {
    assert_eq!(decode_frame(&vec![]), Err(DecodeError::MissingTerminator));
}

#[test]
fn unterminated_frame_is_missing_terminator() {
    assert_eq!(
        decode_frame(&vec![0x02, 0x01]),
        Err(DecodeError::MissingTerminator)
    );
}

#[test]
fn overrunning_code_byte_is_malformed() {
    // The code byte announces four bytes but only one follows.
    assert_eq!(
        decode_frame(&vec![0x05, 0x01, 0x00]),
        Err(DecodeError::Malformed)
    );
}

#[test]
fn zero_code_byte_is_malformed() {
    assert_eq!(
        decode_frame(&vec![0x00, 0x01, 0x00]),
        Err(DecodeError::Malformed)
    );
}

#[test]
fn unknown_tag_is_bad_message() {
    // A one-byte payload 0x07 unstuffs fine but selects no variant.
    assert_eq!(
        decode_frame(&vec![0x02, 0x07, 0x00]),
        Err(DecodeError::BadMessage)
    );
}

#[test]
fn truncated_payload_is_bad_message() {
    // Tag 0x01 demands seventeen more bytes; only two follow.
    assert_eq!(
        decode_frame(&vec![0x04, 0x01, 0x22, 0x33, 0x00]),
        Err(DecodeError::BadMessage)
    );
}

#[test]
fn bad_bool_byte_is_bad_message() {
    let mut frame = encode_message(&FromHost::ShowPerf(PerfBits {
        all_cores_load: 0x01010101,
        all_cores_avg: 0x01010101,
        peak_core_load: 0x01010101,
        memory_load: 0x01010101,
        daytime: true,
    }));
    // The stuffed payload of this message is one block holding the bytes
    // verbatim; corrupt the bool byte (second last before the terminator).
    let n = frame.len();
    frame[n - 2] = 0x07;
    assert_eq!(decode_frame(&frame), Err(DecodeError::BadMessage));
}
