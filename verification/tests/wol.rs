use wakey::Error;
use wakey::WolPacket;
use wakey::{MAC_PER_MAGIC, MAC_SIZE};

#[test]
fn extend_mac_test() {
    let mac = vec![0x01, 0x02, 0x03, 0x04, 0x05, 0x06];

    let extended_mac = WolPacket::extend_mac(&mac);

    assert_eq!(extended_mac.len(), MAC_PER_MAGIC * MAC_SIZE);
    for i in 0..MAC_PER_MAGIC {
        let start = MAC_SIZE * i;
        let end = MAC_SIZE * (i + 1);

        assert_eq!(&mac[..], &extended_mac[start..end]);
    }
}

#[test]
fn mac_to_byte_test() {
    let mac = "01:02:03:04:05:06";
    let result = WolPacket::mac_to_byte(mac, ':');

    assert!(result
        .unwrap()
        .eq(&vec![0x01, 0x02, 0x03, 0x04, 0x05, 0x06]));
}

#[test]
fn mac_to_byte_invalid_chars_test() {
    let mac = "ZZ:02:03:04:05:06";

    if let Err(Error::Hex { c: 'Z', index: 0 }) = WolPacket::mac_to_byte(mac, ':') {
    } else {
        assert!(false);
    }
}

#[test]
fn mac_to_byte_invalid_separator_test() {
    let mac = "01002:03:04:05:06";
    assert!(WolPacket::mac_to_byte(mac, ':').is_err());
}

#[test]
fn create_packet_bytes_test() {
    let bytes = WolPacket::create_packet_bytes(&[0xFF, 0xFF, 0xFF, 0xFF, 0xFF, 0xFF]);

    assert_eq!(bytes.len(), MAC_SIZE * MAC_PER_MAGIC + 6);
    assert!(bytes.iter().all(|&x| x == 0xFF));
}

#[test]
fn from_bytes_wrong_length_test() {
    assert!(matches!(
        WolPacket::from_bytes(&[]),
        Err(Error::InvalidHexArrayLength)
    ));
    assert!(matches!(
        WolPacket::from_bytes(&[0x01, 0x02, 0x03, 0x04, 0x05]),
        Err(Error::InvalidHexArrayLength)
    ));
    assert!(matches!(
        WolPacket::from_bytes(&[0x01, 0x02, 0x03, 0x04, 0x05, 0x06, 0x07]),
        Err(Error::InvalidHexArrayLength)
    ));
}

#[test]
fn from_bytes_layout_test() {
    let mac = [0x01u8, 0x02, 0x03, 0x04, 0x05, 0x06];
    let wol = WolPacket::from_bytes(&mac).unwrap();
    let payload = wol.payload();

    assert_eq!(payload.len(), 102);
    assert!(payload[..6].iter().all(|&b| b == 0xFF));
    for i in 0..16 {
        assert_eq!(&payload[6 + 6 * i..6 + 6 * i + 6], &mac[..]);
    }
}

#[test]
fn parse_text_matches_from_bytes_test() {
    let parsed = WolPacket::from_string("01:02:03:04:05:06", ':').unwrap();
    let built = WolPacket::from_bytes(&[0x01, 0x02, 0x03, 0x04, 0x05, 0x06]).unwrap();

    assert_eq!(parsed.payload(), built.payload());
}

#[test]
fn all_ff_packet_test() {
    let wol = WolPacket::from_bytes(&[0xFF; 6]).unwrap();

    assert_eq!(wol.payload().len(), 102);
    assert!(wol.payload().iter().all(|&b| b == 0xFF));
}

#[test]
fn invalid_separator_is_length_error_test() {
    // "01002" is valid hex, but stripping leaves thirteen digits: the
    // failure is about length, not about any character.
    assert!(matches!(
        WolPacket::mac_to_byte("01002:03:04:05:06", ':'),
        Err(Error::InvalidHexStringLength)
    ));
    assert!(matches!(
        WolPacket::from_string("01002:03:04:05:06", ':'),
        Err(Error::InvalidHexStringLength)
    ));
}

#[test]
fn mixed_case_hex_test() {
    let bytes = WolPacket::mac_to_byte("aA:bB:cC:dD:eE:fF", ':').unwrap();
    assert_eq!(bytes, vec![0xAA, 0xBB, 0xCC, 0xDD, 0xEE, 0xFF]);
}

#[test]
fn no_separator_present_test() {
    let bytes = WolPacket::mac_to_byte("010203040506", ':').unwrap();
    assert_eq!(bytes, vec![0x01, 0x02, 0x03, 0x04, 0x05, 0x06]);
}

#[test]
fn separator_anywhere_test() {
    let bytes = WolPacket::mac_to_byte(":0:10203:04050:6:", ':').unwrap();
    assert_eq!(bytes, vec![0x01, 0x02, 0x03, 0x04, 0x05, 0x06]);
}

#[test]
fn empty_input_test() {
    assert!(matches!(
        WolPacket::from_string("", ':'),
        Err(Error::InvalidHexStringLength)
    ));
}

#[test]
fn too_short_hex_test() {
    // ten digits decode cleanly to five bytes: still a length error
    assert!(matches!(
        WolPacket::mac_to_byte("01:02:03:04:05", ':'),
        Err(Error::InvalidHexStringLength)
    ));
}

#[test]
fn odd_run_with_invalid_char_test() {
    // an odd digit count is reported before the bad character is reached
    assert!(matches!(
        WolPacket::mac_to_byte("0ZZ", ':'),
        Err(Error::InvalidHexStringLength)
    ));
}

#[test]
fn invalid_char_position_test() {
    // positions are counted after the separator is stripped
    if let Err(Error::Hex { c, index }) = WolPacket::mac_to_byte("01:0G:03:04:05:06", ':') {
        assert_eq!(c, 'G');
        assert_eq!(index, 3);
    } else {
        panic!("expected a hex decode error");
    }
}
