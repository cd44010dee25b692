use xregister::codec::{MalformedEnvelope, XregisterCall};

fn account(b: u8) -> [u8; 32] {
    [b; 32]
}

fn encoded(pallet: u8, method: u8, acc: [u8; 32], name: &[u8]) -> Vec<u8> {
    XregisterCall::new(pallet, method, acc, name.to_vec()).encode()
}

#[test]
fn encode_lays_out_ids_account_length_and_name() {
    let bytes = encoded(7, 3, account(0xAA), b"ab");
    let mut expected = vec![7u8, 3];
    expected.extend_from_slice(&[0xAA; 32]);
    expected.push(2 << 2);
    expected.extend_from_slice(b"ab");
    assert_eq!(bytes, expected);
}

#[test]
fn encode_empty_name_has_zero_length_byte() {
    let bytes = encoded(1, 2, account(0), b"");
    assert_eq!(bytes.len(), 35);
    assert_eq!(bytes[34], 0);
}

#[test]
fn encode_length_prefix_single_byte_mode_upper_edge() {
    let name = vec![b'x'; 63];
    let bytes = encoded(1, 2, account(0), &name);
    assert_eq!(bytes[34], 63 << 2);
    assert_eq!(bytes.len(), 34 + 1 + 63);
}

#[test]
fn encode_length_prefix_two_byte_mode() {
    let name = vec![b'x'; 64];
    let bytes = encoded(1, 2, account(0), &name);
    assert_eq!(&bytes[34..36], &[0x01, 0x01]);
    assert_eq!(bytes.len(), 34 + 2 + 64);
}

#[test]
fn encode_length_prefix_four_byte_mode() {
    let name = vec![0u8; 16384];
    let bytes = encoded(1, 2, account(0), &name);
    assert_eq!(&bytes[34..38], &[0x02, 0x00, 0x01, 0x00]);
    assert_eq!(bytes.len(), 34 + 4 + 16384);
}

#[test]
fn decode_inverts_encode() {
    for len in [0usize, 1, 63, 64, 100, 16383, 16384, 20000] {
        let name: Vec<u8> = (0..len).map(|i| (i % 251) as u8).collect();
        let bytes = encoded(9, 4, account(0x5C), &name);
        let call = XregisterCall::decode(&bytes).expect("decodes");
        assert_eq!(call.call_index, [9, 4]);
        assert_eq!(call.account, account(0x5C));
        assert_eq!(call.name, name);
    }
}

#[test]
fn decode_rejects_truncated_input() {
    let bytes = encoded(7, 3, account(1), b"shipname");
    for cut in [0usize, 1, 20, 34, 35, bytes.len() - 1] {
        assert!(matches!(XregisterCall::decode(&bytes[..cut].to_vec()), Err(MalformedEnvelope)));
    }
}

#[test]
fn decode_rejects_trailing_bytes() {
    let mut bytes = encoded(7, 3, account(1), b"shipname");
    bytes.push(0);
    assert!(XregisterCall::decode(&bytes).is_err());
}

#[test]
fn decode_rejects_non_canonical_length() {
    let mut bytes = vec![7u8, 3];
    bytes.extend_from_slice(&[1; 32]);
    // length 1 written in the two-byte mode
    bytes.extend_from_slice(&[0x05, 0x00]);
    bytes.push(b'a');
    assert!(XregisterCall::decode(&bytes).is_err());
}

#[test]
fn decode_rejects_oversized_length_mode() {
    let mut bytes = vec![7u8, 3];
    bytes.extend_from_slice(&[1; 32]);
    bytes.push(0b0000_0111);
    bytes.extend_from_slice(&[0, 0, 0, 0, 0]);
    assert!(XregisterCall::decode(&bytes).is_err());
}
