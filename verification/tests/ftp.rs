use butterfly::{
    FtpProtocol, HasCrossoverInsertMutation, HasCrossoverReplaceMutation, HasSpliceMutation,
    MutationResult, PacketProtocol,
};
use libafl::inputs::BytesInput;
use libafl_bolts::rands::StdRand;

fn data(text: &[u8]) -> BytesInput {
    BytesInput::new(text.to_vec())
}

fn written(packet: &FtpProtocol) -> Vec<u8> {
    let mut buf = Vec::new();
    packet.write(&mut buf);
    buf
}

fn all_commands() -> Vec<(FtpProtocol, &'static [u8])> {
    vec![
        (FtpProtocol::USER(data(b"anonymous")), b"USER anonymous\r\n"),
        (FtpProtocol::USER(data(b"")), b"USER \r\n"),
        (FtpProtocol::PASS(data(b"secret")), b"PASS secret\r\n"),
        (FtpProtocol::PASV, b"PASV\r\n"),
        (FtpProtocol::TYPE(b'A', b'N'), b"TYPE AN\r\n"),
        (FtpProtocol::LIST(None), b"LIST\r\n"),
        (FtpProtocol::LIST(Some(data(b"/tmp"))), b"LIST /tmp\r\n"),
        (FtpProtocol::LIST(Some(data(b""))), b"LIST \r\n"),
        (FtpProtocol::CWD(data(b"/home")), b"CWD /home\r\n"),
        (FtpProtocol::CWD(data(b"a\r\nb")), b"CWD a\r\nb\r\n"),
        (FtpProtocol::QUIT, b"QUIT\r\n"),
    ]
}

#[test]
fn commands_are_written_with_crlf() {
    for (packet, bytes) in all_commands() {
        assert_eq!(written(&packet), bytes);
    }
    let mut buf = b"x".to_vec();
    FtpProtocol::PASV.write(&mut buf);
    assert_eq!(buf, b"xPASV\r\n");
}

#[test]
fn written_commands_are_read_back() {
    for (packet, bytes) in all_commands() {
        assert_eq!(FtpProtocol::from_bytes(bytes), Some(packet));
    }
}

#[test]
fn other_bytes_are_no_command() {
    let bad: Vec<&[u8]> = vec![
        b"",
        b"USER",
        b"USER\r\n",
        b"USERx\r\n",
        b"USER a",
        b"USER a\n",
        b"PASV \r\n",
        b"PASVx\r\n",
        b"QUIT now\r\n",
        b"TYPE A\r\n",
        b"TYPE ANX\r\n",
        b"LISTx\r\n",
        b"NOOP\r\n",
        b"user a\r\n",
    ];
    for bytes in bad {
        assert_eq!(FtpProtocol::from_bytes(bytes), None, "{:?}", bytes);
    }
}

#[test]
fn commands_without_bytes_are_skipped() {
    let mut rand = StdRand::with_seed(0);
    let user = FtpProtocol::USER(data(b"abc"));
    let plain = [FtpProtocol::PASV, FtpProtocol::QUIT, FtpProtocol::TYPE(1, 2), FtpProtocol::LIST(None)];
    for other in &plain {
        let mut target = user.clone();
        assert_eq!(
            target.mutate_crossover_insert(&mut rand, other).unwrap(),
            MutationResult::Skipped
        );
        assert_eq!(
            target.mutate_crossover_replace(&mut rand, other).unwrap(),
            MutationResult::Skipped
        );
        assert_eq!(target.mutate_splice(&mut rand, other).unwrap(), MutationResult::Skipped);
        assert_eq!(target, user);
        let mut target = other.clone();
        assert_eq!(
            target.mutate_crossover_insert(&mut rand, &user).unwrap(),
            MutationResult::Skipped
        );
        assert_eq!(
            target.mutate_crossover_replace(&mut rand, &user).unwrap(),
            MutationResult::Skipped
        );
        assert_eq!(target.mutate_splice(&mut rand, &user).unwrap(), MutationResult::Skipped);
        assert_eq!(&target, other);
    }
    assert_eq!(FtpProtocol::PASV.inner_data(), None);
    assert_eq!(user.inner_data(), Some(&data(b"abc")));
}

#[test]
fn commands_with_bytes_keep_their_kind() {
    let mut rand = StdRand::with_seed(1);
    let source = FtpProtocol::CWD(data(b"0123456789"));
    for _ in 0..50 {
        let mut target = FtpProtocol::USER(data(b"abc"));
        assert_eq!(
            target.mutate_crossover_insert(&mut rand, &source).unwrap(),
            MutationResult::Mutated
        );
        match &target {
            FtpProtocol::USER(name) => {
                let bytes: &Vec<u8> = name.as_ref();
                assert!(bytes.len() > 3 && bytes.len() <= 13);
            }
            other => panic!("kind changed: {:?}", other),
        }
        let mut target = FtpProtocol::LIST(Some(data(b"abc")));
        assert_eq!(
            target.mutate_crossover_replace(&mut rand, &source).unwrap(),
            MutationResult::Mutated
        );
        match &target {
            FtpProtocol::LIST(Some(dir)) => {
                let bytes: &Vec<u8> = dir.as_ref();
                assert_eq!(bytes.len(), 3);
            }
            other => panic!("kind changed: {:?}", other),
        }
        let mut target = FtpProtocol::PASS(data(b"abc"));
        assert_eq!(target.mutate_splice(&mut rand, &source).unwrap(), MutationResult::Mutated);
        assert!(matches!(target, FtpProtocol::PASS(_)));
    }
    assert_eq!(source, FtpProtocol::CWD(data(b"0123456789")));
}

#[test]
fn empty_bytes_are_skipped() {
    let mut rand = StdRand::with_seed(0);
    let mut target = FtpProtocol::USER(data(b""));
    let source = FtpProtocol::PASS(data(b"abc"));
    assert_eq!(target.mutate_crossover_insert(&mut rand, &source).unwrap(), MutationResult::Skipped);
    assert_eq!(target.mutate_splice(&mut rand, &source).unwrap(), MutationResult::Skipped);
    assert_eq!(target, FtpProtocol::USER(data(b"")));
}
