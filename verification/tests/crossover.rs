use butterfly::bytes::{insert_bytes, replace_bytes};
use butterfly::{
    HasCrossoverInsertMutation, HasCrossoverReplaceMutation, MutationResult,
    PacketCrossoverInsertMutator, PacketCrossoverReplaceMutator,
};
use libafl::inputs::BytesInput;
use libafl_bolts::rands::StdRand;

#[test]
fn test_insert_empty() {
    let mut state = StdRand::with_seed(0);
    let mut a = BytesInput::new(Vec::new());
    let b = BytesInput::new(Vec::new());

    for _ in 0..100 {
        assert_eq!(a.mutate_crossover_insert(&mut state, &b).unwrap(), MutationResult::Skipped);
    }
}

#[test]
fn test_insert_len1() {
    let mut state = StdRand::with_seed(0);
    let b = BytesInput::new(b"B".to_vec());

    for _ in 0..100 {
        let mut a = BytesInput::new(b"A".to_vec());
        assert_eq!(a.mutate_crossover_insert(&mut state, &b).unwrap(), MutationResult::Mutated);
        let bytes: &Vec<u8> = a.as_ref();
        assert!(bytes == b"AB" || bytes == b"BA");
    }
}

#[test]
fn test_insert_resize() {
    let mut state = StdRand::with_seed(0);
    let mut a = BytesInput::new(b"A".to_vec());
    let b = BytesInput::new(
        b"asdasd fasd fa sdf asdf asdfasfd asdfsadf asdfsadf asdfsa df ".to_vec(),
    );

    for _ in 0..100 {
        assert_eq!(a.mutate_crossover_insert(&mut state, &b).unwrap(), MutationResult::Mutated);
    }
}

#[test]
fn test_replace_empty() {
    let mut state = StdRand::with_seed(0);
    let mut a = BytesInput::new(Vec::new());
    let b = BytesInput::new(Vec::new());

    for _ in 0..100 {
        assert_eq!(a.mutate_crossover_replace(&mut state, &b).unwrap(), MutationResult::Skipped);
    }
}

#[test]
fn test_replace_len1() {
    let mut state = StdRand::with_seed(0);
    let mut a = BytesInput::new(b"A".to_vec());
    let b = BytesInput::new(b"B".to_vec());

    for _ in 0..100 {
        assert_eq!(a.mutate_crossover_replace(&mut state, &b).unwrap(), MutationResult::Mutated);
        let bytes: &Vec<u8> = a.as_ref();
        assert_eq!(bytes, b"B");
    }
}

#[test]
fn test_replace_resize() {
    let mut state = StdRand::with_seed(0);
    let mut a = BytesInput::new(b"A".to_vec());
    let b = BytesInput::new(
        b"asdasd fasd fa sdf asdf asdfasfd asdfsadf asdfsadf asdfsa df ".to_vec(),
    );

    for _ in 0..100 {
        assert_eq!(a.mutate_crossover_replace(&mut state, &b).unwrap(), MutationResult::Mutated);
    }
}

#[test]
fn test_mutator_insert() {
    let mut state = StdRand::with_seed(0);
    let mut mutator = PacketCrossoverInsertMutator::<BytesInput>::new();
    let mut input = vec![BytesInput::new(vec![0; 4096]), BytesInput::new(vec![1; 4096])];

    while mutator.mutate(&mut state, &mut input).unwrap() == MutationResult::Skipped {}

    let mut modified = false;

    let first: &Vec<u8> = input[0].as_ref();
    for b in first {
        if *b == 1 {
            modified = true;
        }
    }
    let second: &Vec<u8> = input[1].as_ref();
    for b in second {
        if *b == 0 {
            modified = true;
        }
    }

    assert!(modified);
    assert!(first.len() > 4096 || second.len() > 4096);
}

#[test]
fn test_mutator_replace() {
    let mut state = StdRand::with_seed(0);
    let mut mutator = PacketCrossoverReplaceMutator::<BytesInput>::new();
    let mut input = vec![BytesInput::new(vec![0; 4096]), BytesInput::new(vec![1; 4096])];

    while mutator.mutate(&mut state, &mut input).unwrap() == MutationResult::Skipped {}

    let mut modified = false;

    let first: &Vec<u8> = input[0].as_ref();
    for b in first {
        if *b == 1 {
            modified = true;
        }
    }
    let second: &Vec<u8> = input[1].as_ref();
    for b in second {
        if *b == 0 {
            modified = true;
        }
    }

    assert!(modified);
}

#[test]
fn insert_bytes_at_given_draws() {
    let mut dst = b"hello".to_vec();
    insert_bytes(&mut dst, &b"ABCDEF".to_vec(), 2, 1, 3);
    assert_eq!(dst, b"hCDEello");
    let mut dst = b"hello".to_vec();
    insert_bytes(&mut dst, &b"ABCDEF".to_vec(), 0, 0, 1);
    assert_eq!(dst, b"Ahello");
    let mut dst = b"hello".to_vec();
    insert_bytes(&mut dst, &b"ABCDEF".to_vec(), 5, 4, 1);
    assert_eq!(dst, b"hellFo");
    let mut dst = b"hello".to_vec();
    insert_bytes(&mut dst, &b"ABCDEF".to_vec(), 0, 5, 6);
    assert_eq!(dst, b"helloABCDEF");
}

#[test]
fn replace_bytes_at_given_draws() {
    let mut dst = b"hello".to_vec();
    replace_bytes(&mut dst, &b"ABCDEF".to_vec(), 2, 1, 3);
    assert_eq!(dst, b"hCDEo");
    let mut dst = b"hello".to_vec();
    replace_bytes(&mut dst, &b"ABCDEF".to_vec(), 0, 0, 5);
    assert_eq!(dst, b"ABCDE");
    let mut dst = b"hello".to_vec();
    replace_bytes(&mut dst, &b"ABCDEF".to_vec(), 5, 4, 1);
    assert_eq!(dst, b"hellF");
}

#[test]
fn insert_grows_by_one_to_other_len() {
    let mut state = StdRand::with_seed(7);
    let b = BytesInput::new(b"0123456789".to_vec());
    for _ in 0..200 {
        let mut a = BytesInput::new(b"abc".to_vec());
        assert_eq!(a.mutate_crossover_insert(&mut state, &b).unwrap(), MutationResult::Mutated);
        let bytes: &Vec<u8> = a.as_ref();
        assert!(4 <= bytes.len() && bytes.len() <= 13);
        let kept: Vec<u8> = bytes.iter().copied().filter(|c| c.is_ascii_lowercase()).collect();
        assert_eq!(kept, b"abc");
    }
}

#[test]
fn replace_keeps_the_length() {
    let mut state = StdRand::with_seed(7);
    let b = BytesInput::new(b"0123456789".to_vec());
    for _ in 0..200 {
        let mut a = BytesInput::new(b"abc".to_vec());
        assert_eq!(a.mutate_crossover_replace(&mut state, &b).unwrap(), MutationResult::Mutated);
        let bytes: &Vec<u8> = a.as_ref();
        assert_eq!(bytes.len(), 3);
        assert!(bytes.iter().any(|c| c.is_ascii_digit()));
    }
}

#[test]
fn crossover_skips_short_inputs_and_one_empty_side() {
    let mut state = StdRand::with_seed(0);
    let mut insert = PacketCrossoverInsertMutator::<BytesInput>::new();
    let mut replace = PacketCrossoverReplaceMutator::<BytesInput>::new();
    let mut none: Vec<BytesInput> = Vec::new();
    assert_eq!(insert.mutate(&mut state, &mut none).unwrap(), MutationResult::Skipped);
    assert_eq!(replace.mutate(&mut state, &mut none).unwrap(), MutationResult::Skipped);
    let mut one = vec![BytesInput::new(b"A".to_vec())];
    assert_eq!(insert.mutate(&mut state, &mut one).unwrap(), MutationResult::Skipped);
    assert_eq!(replace.mutate(&mut state, &mut one).unwrap(), MutationResult::Skipped);
    assert_eq!(one, vec![BytesInput::new(b"A".to_vec())]);
    let mut a = BytesInput::new(b"A".to_vec());
    let empty = BytesInput::new(Vec::new());
    assert_eq!(a.mutate_crossover_insert(&mut state, &empty).unwrap(), MutationResult::Skipped);
    assert_eq!(a.mutate_crossover_replace(&mut state, &empty).unwrap(), MutationResult::Skipped);
    assert_eq!(a, BytesInput::new(b"A".to_vec()));
}

#[test]
fn crossover_at_given_positions_changes_one_packet() {
    let mut state = StdRand::with_seed(3);
    let insert = PacketCrossoverInsertMutator::<BytesInput>::new();
    let start = vec![
        BytesInput::new(b"aaa".to_vec()),
        BytesInput::new(b"bbb".to_vec()),
        BytesInput::new(b"ccc".to_vec()),
    ];
    let mut input = start.clone();
    assert_eq!(insert.mutate_at(&mut state, &mut input, 1, 1).unwrap(), MutationResult::Skipped);
    assert_eq!(input, start);
    assert_eq!(insert.mutate_at(&mut state, &mut input, 2, 0).unwrap(), MutationResult::Mutated);
    assert_eq!(input[0], start[0]);
    assert_eq!(input[1], start[1]);
    let grown: &Vec<u8> = input[2].as_ref();
    assert!(grown.len() > 3 && grown.contains(&b'a') && !grown.contains(&b'b'));
    let replace = PacketCrossoverReplaceMutator::<BytesInput>::new();
    let mut input = start.clone();
    assert_eq!(replace.mutate_at(&mut state, &mut input, 0, 2).unwrap(), MutationResult::Mutated);
    assert_eq!(input[1], start[1]);
    assert_eq!(input[2], start[2]);
    let changed: &Vec<u8> = input[0].as_ref();
    assert!(changed.len() == 3 && changed.contains(&b'c') && !changed.contains(&b'b'));
}

#[test]
fn crossover_mutators_have_names() {
    assert_eq!(
        PacketCrossoverInsertMutator::<BytesInput>::new().name(),
        "PacketCrossoverInsertMutator"
    );
    assert_eq!(
        PacketCrossoverReplaceMutator::<BytesInput>::new().name(),
        "PacketCrossoverReplaceMutator"
    );
}
