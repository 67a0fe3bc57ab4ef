use sodiumoxide::crypto::sign;
use xaynet_coordinator::codec::DecodeError;
use xaynet_coordinator::message::{check_message_signature, MessageHeader, MessageTag, HEADER_LEN};

fn build_message(tag: u8, payload: &[u8]) -> (Vec<u8>, Vec<u8>) {
    sodiumoxide::init().unwrap();
    let (pk, sk) = sign::gen_keypair();
    let coordinator_pk = vec![0x0Cu8; 32];

    let mut signed = vec![tag];
    signed.extend((payload.len() as u32).to_be_bytes());
    signed.extend(payload);
    let signature = sign::sign_detached(&signed, &sk);

    let mut bytes = pk.as_ref().to_vec();
    bytes.extend(&coordinator_pk);
    bytes.extend(signature.to_bytes());
    bytes.extend(&signed);
    (bytes, pk.as_ref().to_vec())
}

#[test]
fn parse_message_envelope() {
    let payload = vec![0xAB; 10];
    let (bytes, pk) = build_message(1, &payload);
    assert_eq!(bytes.len(), HEADER_LEN + payload.len());
    let header = MessageHeader::parse(&bytes).unwrap();
    assert_eq!(header.participant_pk, pk);
    assert_eq!(header.coordinator_pk, vec![0x0Cu8; 32]);
    assert_eq!(header.tag, MessageTag::Sum);
    assert_eq!(header.length, 10);
    assert_eq!(MessageHeader::payload_of(&bytes), payload);
}

#[test]
fn envelope_signature_covers_the_remainder() {
    let (bytes, _) = build_message(2, &[1, 2, 3]);
    assert!(check_message_signature(&bytes));
    let mut tampered = bytes.clone();
    let last = tampered.len() - 1;
    tampered[last] ^= 0xff;
    assert!(!check_message_signature(&tampered));
}

#[test]
fn envelope_rejects_bad_tags_and_lengths() {
    let (bytes, _) = build_message(9, &[]);
    assert_eq!(
        MessageHeader::parse(&bytes).unwrap_err(),
        DecodeError::InvalidTag
    );
    let (mut bytes, _) = build_message(3, &[1, 2]);
    bytes.push(0);
    assert_eq!(
        MessageHeader::parse(&bytes).unwrap_err(),
        DecodeError::TrailingBytes
    );
    assert_eq!(
        MessageHeader::parse(&vec![0u8; 10]).unwrap_err(),
        DecodeError::TooShort
    );
}
