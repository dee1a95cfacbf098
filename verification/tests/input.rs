use butterfly::name::{name_of_bytes, name_of_hash};
use butterfly::wire::{push_be32, read_be32, split_frames};
use butterfly::{FtpProtocol, InvalidCorpusEntry, PacketProtocol, Packets};
use libafl::inputs::BytesInput;

fn session() -> Vec<FtpProtocol> {
    vec![FtpProtocol::USER(BytesInput::new(b"a".to_vec())), FtpProtocol::PASV, FtpProtocol::QUIT]
}

fn session_bytes() -> Vec<u8> {
    let mut expected = vec![0, 0, 0, 3];
    expected.extend_from_slice(&[0, 0, 0, 8]);
    expected.extend_from_slice(b"USER a\r\n");
    expected.extend_from_slice(&[0, 0, 0, 6]);
    expected.extend_from_slice(b"PASV\r\n");
    expected.extend_from_slice(&[0, 0, 0, 6]);
    expected.extend_from_slice(b"QUIT\r\n");
    expected
}

#[test]
fn serialized_round_trip() {
    let input = Packets::new(session());
    assert_eq!(input.len(), 3);
    let bytes = input.to_bytes();
    assert_eq!(bytes, session_bytes());
    assert_eq!(input.checked_to_bytes(), Some(session_bytes()));
    let name = input.generate_name();
    assert_eq!(name.len(), 16);
    assert!(name.chars().all(|c| c.is_ascii_digit() || ('a'..='f').contains(&c)));
    let back = Packets::<FtpProtocol>::from_bytes(&bytes).unwrap();
    assert_eq!(back.packets(), &session());
    assert_eq!(back.to_bytes(), bytes);
}

#[test]
fn empty_input_is_a_zero_count() {
    let input = Packets::<BytesInput>::new(Vec::new());
    assert_eq!(input.to_bytes(), vec![0, 0, 0, 0]);
    let back = Packets::<BytesInput>::from_bytes(&[0, 0, 0, 0]).unwrap();
    assert_eq!(back.len(), 0);
}

#[test]
fn byte_string_packets_round_trip() {
    let packets =
        vec![BytesInput::new(b"hello".to_vec()), BytesInput::new(Vec::new()), BytesInput::new(vec![0xff; 300])];
    let input = Packets::new(packets.clone());
    let bytes = input.to_bytes();
    assert_eq!(&bytes[..4], &[0, 0, 0, 3]);
    assert_eq!(&bytes[4..13], &[0, 0, 0, 5, b'h', b'e', b'l', b'l', b'o']);
    assert_eq!(&bytes[13..17], &[0, 0, 0, 0]);
    assert_eq!(&bytes[17..21], &[0, 0, 1, 44]);
    assert_eq!(bytes.len(), 21 + 300);
    let back = Packets::<BytesInput>::from_bytes(&bytes).unwrap();
    assert_eq!(back.packets(), &packets);
}

#[test]
fn packets_can_be_changed_in_place() {
    let mut input = Packets::new(session());
    input.packets_mut().remove(1);
    assert_eq!(input.len(), 2);
    assert_eq!(input.packets()[1], FtpProtocol::QUIT);
    assert_eq!(
        input.into_packets(),
        vec![FtpProtocol::USER(BytesInput::new(b"a".to_vec())), FtpProtocol::QUIT]
    );
}

#[test]
fn truncated_input_is_rejected() {
    assert_eq!(split_frames(&[]), Err(InvalidCorpusEntry::Truncated));
    assert_eq!(split_frames(&[0, 0, 0]), Err(InvalidCorpusEntry::Truncated));
    assert_eq!(split_frames(&[0, 0, 0, 1]), Err(InvalidCorpusEntry::Truncated));
    assert_eq!(split_frames(&[0, 0, 0, 1, 0, 0]), Err(InvalidCorpusEntry::Truncated));
    assert_eq!(split_frames(&[0, 0, 0, 2, 0, 0, 0, 1, 7]), Err(InvalidCorpusEntry::Truncated));
    assert!(matches!(
        Packets::<BytesInput>::from_bytes(&[0, 0, 0]),
        Err(InvalidCorpusEntry::Truncated)
    ));
}

#[test]
fn bad_length_prefix_is_rejected() {
    assert_eq!(split_frames(&[0, 0, 0, 1, 0, 0, 0, 5, 1, 2]), Err(InvalidCorpusEntry::BadLength));
    assert_eq!(
        split_frames(&[0, 0, 0, 1, 0xff, 0xff, 0xff, 0xff]),
        Err(InvalidCorpusEntry::BadLength)
    );
    assert!(matches!(
        Packets::<BytesInput>::from_bytes(&[0, 0, 0, 1, 0, 0, 0, 1]),
        Err(InvalidCorpusEntry::BadLength)
    ));
}

#[test]
fn leftover_bytes_are_rejected() {
    assert_eq!(split_frames(&[0, 0, 0, 0, 9]), Err(InvalidCorpusEntry::Leftover));
    assert_eq!(
        split_frames(&[0, 0, 0, 1, 0, 0, 0, 1, 7, 0, 0, 0, 0]),
        Err(InvalidCorpusEntry::Leftover)
    );
    let mut bytes = session_bytes();
    bytes.push(0);
    assert!(matches!(
        Packets::<FtpProtocol>::from_bytes(&bytes),
        Err(InvalidCorpusEntry::Leftover)
    ));
}

#[test]
fn record_that_is_no_packet_is_rejected() {
    let mut bytes = vec![0, 0, 0, 1, 0, 0, 0, 6];
    bytes.extend_from_slice(b"NOOP\r\n");
    assert!(matches!(
        Packets::<FtpProtocol>::from_bytes(&bytes),
        Err(InvalidCorpusEntry::BadPacket)
    ));
    assert!(Packets::<BytesInput>::from_bytes(&bytes).is_ok());
}

#[test]
fn records_are_split_in_order() {
    assert_eq!(split_frames(&[0, 0, 0, 0]), Ok(Vec::new()));
    assert_eq!(
        split_frames(&[0, 0, 0, 2, 0, 0, 0, 2, 5, 6, 0, 0, 0, 0]),
        Ok(vec![vec![5, 6], vec![]])
    );
}

#[test]
fn numbers_go_most_significant_byte_first() {
    let mut buf = vec![9];
    push_be32(&mut buf, 0x0102_0304);
    assert_eq!(buf, vec![9, 1, 2, 3, 4]);
    push_be32(&mut buf, u32::MAX);
    assert_eq!(&buf[5..], &[0xff, 0xff, 0xff, 0xff]);
    assert_eq!(read_be32(&buf, 1), 0x0102_0304);
    assert_eq!(read_be32(&[0, 0, 1, 0], 0), 256);
    assert_eq!(read_be32(&[0x80, 0, 0, 0], 0), 0x8000_0000);
}

#[test]
fn name_is_sixteen_hex_digits_of_the_hash() {
    assert_eq!(name_of_hash(0x0123_4567_89ab_cdef), "0123456789abcdef");
    assert_eq!(name_of_hash(0), "0000000000000000");
    assert_eq!(name_of_hash(u64::MAX), "ffffffffffffffff");
    assert_eq!(name_of_hash(0xa), "000000000000000a");
}

#[test]
fn name_depends_on_the_bytes_alone() {
    let bytes = session_bytes();
    let expected = format!("{:016x}", libafl_bolts::hash_std(&bytes));
    assert_eq!(name_of_bytes(&bytes), expected);
    assert_eq!(Packets::new(session()).generate_name(), expected);
    assert_eq!(Packets::new(session()).generate_name(), Packets::new(session()).generate_name());
    let other = Packets::new(vec![FtpProtocol::QUIT]);
    assert_ne!(other.generate_name(), expected);
    assert_ne!(name_of_bytes(b"0000000000000000"), "0000000000000000");
}

#[test]
fn byte_string_packet_writes_its_bytes() {
    let packet = BytesInput::new(b"abc".to_vec());
    let mut buf = vec![1];
    packet.write(&mut buf);
    assert_eq!(buf, vec![1, b'a', b'b', b'c']);
    assert_eq!(BytesInput::from_bytes(b"xyz"), Some(BytesInput::new(b"xyz".to_vec())));
}
