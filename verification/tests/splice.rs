use butterfly::bytes::splice_bytes;
use butterfly::{HasSpliceMutation, MutationResult, PacketSpliceMutator};
use libafl::inputs::BytesInput;
use libafl_bolts::rands::StdRand;

#[test]
fn test_splice_empty() {
    let mut state = StdRand::with_seed(0);
    let mut a = BytesInput::new(Vec::new());
    let b = BytesInput::new(Vec::new());

    for _ in 0..100 {
        assert_eq!(a.mutate_splice(&mut state, &b).unwrap(), MutationResult::Skipped);
    }
}

#[test]
fn test_splice_len1() {
    let mut state = StdRand::with_seed(0);
    let mut a = BytesInput::new(b"A".to_vec());
    let b = BytesInput::new(b"B".to_vec());

    for _ in 0..100 {
        assert_eq!(a.mutate_splice(&mut state, &b).unwrap(), MutationResult::Mutated);
        let bytes: &Vec<u8> = a.as_ref();
        assert_eq!(bytes, b"B");
    }
}

#[test]
fn test_splice_resize() {
    let mut state = StdRand::with_seed(0);
    let mut a = BytesInput::new(b"A".to_vec());
    let b = BytesInput::new(
        b"asdasd fasd fa sdf asdf asdfasfd asdfsadf asdfsadf asdfsa df ".to_vec(),
    );

    for _ in 0..100 {
        assert_eq!(a.mutate_splice(&mut state, &b).unwrap(), MutationResult::Mutated);
    }
}

#[test]
fn splice_bytes_at_given_draws() {
    let mut dst = b"hello".to_vec();
    splice_bytes(&mut dst, &b"ABCDEF".to_vec(), 4, 1);
    assert_eq!(dst, b"hEFlo");
    let mut dst = b"hello".to_vec();
    splice_bytes(&mut dst, &b"ABCDEF".to_vec(), 0, 3);
    assert_eq!(dst, b"helABCDEF");
    let mut dst = b"hello".to_vec();
    splice_bytes(&mut dst, &b"ABCDEF".to_vec(), 1, 0);
    assert_eq!(dst, b"BCDEF");
    let mut dst = b"hello".to_vec();
    splice_bytes(&mut dst, &b"ABCDEF".to_vec(), 5, 4);
    assert_eq!(dst, b"hellF");
}

#[test]
fn splice_never_empties_a_packet() {
    let mut state = StdRand::with_seed(5);
    let b = BytesInput::new(b"0123456789".to_vec());
    for _ in 0..200 {
        let mut a = BytesInput::new(b"abc".to_vec());
        assert_eq!(a.mutate_splice(&mut state, &b).unwrap(), MutationResult::Mutated);
        let bytes: &Vec<u8> = a.as_ref();
        assert!(bytes.len() >= 3);
        assert_eq!(*bytes.last().unwrap() == b'9' || bytes.len() == 3, true);
    }
    let mut a = BytesInput::new(b"abc".to_vec());
    let empty = BytesInput::new(Vec::new());
    assert_eq!(a.mutate_splice(&mut state, &empty).unwrap(), MutationResult::Skipped);
    assert_eq!(a, BytesInput::new(b"abc".to_vec()));
}

#[test]
fn splice_mutator_respects_min_packets() {
    let mut state = StdRand::with_seed(0);
    let mut mutator = PacketSpliceMutator::<BytesInput>::new(4);
    assert_eq!(mutator.min_packets(), 4);
    let four: Vec<BytesInput> = (0..4u8).map(|i| BytesInput::new(vec![i; 3])).collect();
    let mut input = four.clone();
    assert_eq!(mutator.mutate(&mut state, &mut input).unwrap(), MutationResult::Skipped);
    assert_eq!(input, four);
    let five: Vec<BytesInput> = (0..5u8).map(|i| BytesInput::new(vec![i; 3])).collect();
    let mut input = five.clone();
    assert_eq!(mutator.mutate(&mut state, &mut input).unwrap(), MutationResult::Mutated);
    assert_eq!(input.len(), 4);
    let untouched = input.iter().filter(|p| five.contains(p)).count();
    assert!(untouched >= 3);
}

#[test]
fn splice_mutator_never_goes_below_one_packet() {
    let mut state = StdRand::with_seed(0);
    let mut mutator = PacketSpliceMutator::<BytesInput>::new(0);
    assert_eq!(mutator.min_packets(), 1);
    let mut one = vec![BytesInput::new(b"A".to_vec())];
    assert_eq!(mutator.mutate(&mut state, &mut one).unwrap(), MutationResult::Skipped);
    assert_eq!(one.len(), 1);
    let mut none: Vec<BytesInput> = Vec::new();
    assert_eq!(mutator.mutate(&mut state, &mut none).unwrap(), MutationResult::Skipped);
}

#[test]
fn splice_puts_the_packet_back_when_skipped() {
    let mut state = StdRand::with_seed(0);
    let mutator = PacketSpliceMutator::<BytesInput>::new(1);
    let start = vec![
        BytesInput::new(b"aaa".to_vec()),
        BytesInput::new(Vec::new()),
        BytesInput::new(b"ccc".to_vec()),
    ];
    let mut input = start.clone();
    assert_eq!(mutator.mutate_at(&mut state, &mut input, 0).unwrap(), MutationResult::Skipped);
    assert_eq!(input, start);
    assert_eq!(mutator.mutate_at(&mut state, &mut input, 1).unwrap(), MutationResult::Skipped);
    assert_eq!(input, start);
    let mut input = vec![
        BytesInput::new(b"x".to_vec()),
        BytesInput::new(b"aaa".to_vec()),
        BytesInput::new(b"b".to_vec()),
        BytesInput::new(b"y".to_vec()),
    ];
    assert_eq!(mutator.mutate_at(&mut state, &mut input, 1).unwrap(), MutationResult::Mutated);
    assert_eq!(input.len(), 3);
    assert_eq!(input[0], BytesInput::new(b"x".to_vec()));
    assert_eq!(input[2], BytesInput::new(b"y".to_vec()));
    let merged: &Vec<u8> = input[1].as_ref();
    assert!(merged.len() == 3 && merged.contains(&b'b'));
    assert_eq!(mutator.name(), "PacketSpliceMutator");
}
