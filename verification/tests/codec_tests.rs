use backup_fam::codec::{decode, encode, Decoded, HEADER_LEN};
use backup_fam::command::{Command, Direction, Opcode, MAX_PAYLOAD};

fn sample_request() -> Command {
    Command::request(Opcode::FetchChunk, 0x0102_0304_0506_0708, 2000, vec![7, 8, 9])
}

fn sample_frame() -> Vec<u8> {
    vec![
        0, 4, // opcode
        1, 2, 3, 4, 5, 6, 7, 8, // command id
        0, 0, 0x07, 0xd0, // ttl
        0, // direction
        0, 0, 0, 0, 0, 0, 0, 0, // correlation id
        0, 0, 0, 3, // payload length
        7, 8, 9,
    ]
}

#[test]
fn encode_writes_fields_in_network_byte_order() {
    assert_eq!(encode(&sample_request()), sample_frame());
}

#[test]
fn encode_response_carries_correlation_id() {
    let request = Command::request(Opcode::Ping, 0xffee_ddcc_bbaa_9988, 5, vec![]);
    let response = Command::answer(&request, Opcode::Ack, vec![1]);
    let bytes = encode(&response);
    assert_eq!(bytes.len(), HEADER_LEN + 1);
    assert_eq!(&bytes[0..2], &[0, 6]);
    assert_eq!(&bytes[2..10], &[0xff, 0xee, 0xdd, 0xcc, 0xbb, 0xaa, 0x99, 0x88]);
    assert_eq!(bytes[14], 1);
    assert_eq!(&bytes[15..23], &[0xff, 0xee, 0xdd, 0xcc, 0xbb, 0xaa, 0x99, 0x88]);
    assert_eq!(&bytes[23..27], &[0, 0, 0, 1]);
}

#[test]
fn decode_inverts_encode() {
    let c = sample_request();
    let bytes = encode(&c);
    assert_eq!(decode(&bytes), Decoded::Complete { command: c, consumed: 30 });
}

#[test]
fn decode_inverts_encode_for_every_opcode_and_direction() {
    let opcodes = [
        Opcode::Ping,
        Opcode::Announce,
        Opcode::RequestContribution,
        Opcode::FetchChunk,
        Opcode::StoreChunk,
        Opcode::Ack,
        Opcode::Error,
    ];
    for (i, op) in opcodes.iter().enumerate() {
        let request = Command::request(*op, u64::MAX - i as u64, u32::MAX, vec![i as u8; i]);
        let response = Command::answer(&request, *op, vec![0xff; 2 * i]);
        for c in [request, response] {
            let bytes = encode(&c);
            let consumed = bytes.len();
            assert_eq!(decode(&bytes), Decoded::Complete { command: c, consumed });
        }
    }
}

#[test]
fn decode_ignores_what_follows_the_frame() {
    let mut bytes = sample_frame();
    bytes.extend_from_slice(&[0xde, 0xad]);
    assert_eq!(decode(&bytes), Decoded::Complete { command: sample_request(), consumed: 30 });
}

#[test]
fn decode_waits_for_the_rest_of_a_header() {
    assert_eq!(decode(&[]), Decoded::NeedMoreData);
    assert_eq!(decode(&sample_frame()[..26]), Decoded::NeedMoreData);
}

#[test]
fn decode_waits_for_the_rest_of_a_payload() {
    assert_eq!(decode(&sample_frame()[..29]), Decoded::NeedMoreData);
}

#[test]
fn decode_rejects_an_unknown_direction() {
    let mut bytes = sample_frame();
    bytes[14] = 2;
    assert_eq!(decode(&bytes), Decoded::Malformed);
}

#[test]
fn decode_rejects_a_request_with_a_correlation_id() {
    let mut bytes = sample_frame();
    bytes[22] = 1;
    assert_eq!(decode(&bytes), Decoded::Malformed);
}

#[test]
fn decode_rejects_a_payload_length_over_the_limit() {
    let mut bytes = sample_frame();
    bytes[23] = 0xff;
    bytes[24] = 0xff;
    bytes[25] = 0xff;
    bytes[26] = 0xe5;
    assert_eq!(decode(&bytes), Decoded::Malformed);
    bytes[26] = 0xe4;
    assert_eq!(decode(&bytes), Decoded::NeedMoreData);
    assert_eq!(MAX_PAYLOAD, 0xffff_ffe4);
    assert_eq!(MAX_PAYLOAD as u64 + HEADER_LEN as u64, u32::MAX as u64);
}

#[test]
fn decode_surfaces_an_unknown_opcode() {
    let mut bytes = sample_frame();
    bytes[0] = 0x12;
    bytes[1] = 0x34;
    assert_eq!(
        decode(&bytes),
        Decoded::UnknownOpcode { code: 0x1234, command_id: 0x0102_0304_0506_0708, consumed: 30 }
    );
    bytes[0] = 0;
    bytes[1] = 0;
    assert_eq!(decode(&bytes), Decoded::UnknownOpcode { code: 0, command_id: 0x0102_0304_0506_0708, consumed: 30 });
}

#[test]
fn decode_rejects_a_request_whose_ttl_is_used_up() {
    let c = Command::request(Opcode::Ping, 9, 0, vec![]);
    assert_eq!(decode(&encode(&c)), Decoded::TtlExpired { command_id: 9, consumed: 27 });
}

#[test]
fn decode_accepts_a_response_with_ttl_zero() {
    let request = Command::request(Opcode::Ping, 9, 0, vec![]);
    let response = Command::answer(&request, Opcode::Ping, vec![]);
    assert_eq!(response.direction, Direction::Response);
    assert_eq!(decode(&encode(&response)), Decoded::Complete { command: response, consumed: 27 });
}

#[test]
fn opcode_codes_round_trip() {
    assert_eq!(Opcode::Ping.to_wire(), 1);
    assert_eq!(Opcode::Error.to_wire(), 7);
    assert_eq!(Opcode::from_wire(4), Some(Opcode::FetchChunk));
    assert_eq!(Opcode::from_wire(0), None);
    assert_eq!(Opcode::from_wire(8), None);
}

#[test]
fn clone_keeps_every_field() {
    let c = sample_request();
    assert_eq!(c.clone(), c);
}
