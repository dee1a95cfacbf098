use butterfly::{MutationResult, PacketDeleteMutator, PacketDuplicateMutator, PacketReorderMutator};
use libafl_bolts::rands::StdRand;

fn packets(n: u8) -> Vec<Vec<u8>> {
    (0..n).map(|i| vec![i, i]).collect()
}

#[test]
fn reorder_skips_one_packet() {
    let mut rand = StdRand::with_seed(0);
    let mut mutator = PacketReorderMutator::<Vec<u8>>::new();
    let mut input = packets(1);
    for _ in 0..100 {
        assert_eq!(mutator.mutate(&mut rand, &mut input).unwrap(), MutationResult::Skipped);
        assert_eq!(input, packets(1));
    }
    let mut empty: Vec<Vec<u8>> = Vec::new();
    assert_eq!(mutator.mutate(&mut rand, &mut empty).unwrap(), MutationResult::Skipped);
    assert!(empty.is_empty());
}

#[test]
fn reorder_swaps_two_packets() {
    let mut rand = StdRand::with_seed(0);
    let mut mutator = PacketReorderMutator::<Vec<u8>>::new();
    for _ in 0..100 {
        let mut input = packets(5);
        let result = mutator.mutate(&mut rand, &mut input).unwrap();
        let moved = (0..5).filter(|&i| input[i] != packets(5)[i]).count();
        match result {
            MutationResult::Skipped => assert_eq!(moved, 0),
            MutationResult::Mutated => assert_eq!(moved, 2),
        }
        let mut sorted = input.clone();
        sorted.sort();
        assert_eq!(sorted, packets(5));
    }
}

#[test]
fn reorder_at_given_positions() {
    let mutator = PacketReorderMutator::<Vec<u8>>::new();
    let mut input = packets(4);
    assert_eq!(mutator.mutate_at(&mut input, 1, 3), MutationResult::Mutated);
    assert_eq!(input, vec![vec![0, 0], vec![3, 3], vec![2, 2], vec![1, 1]]);
    assert_eq!(mutator.mutate_at(&mut input, 2, 2), MutationResult::Skipped);
    assert_eq!(input, vec![vec![0, 0], vec![3, 3], vec![2, 2], vec![1, 1]]);
}

#[test]
fn delete_with_min_four() {
    let mut rand = StdRand::with_seed(0);
    let mut mutator = PacketDeleteMutator::<Vec<u8>>::new(4);
    let mut input = packets(4);
    assert_eq!(mutator.mutate(&mut rand, &mut input).unwrap(), MutationResult::Skipped);
    assert_eq!(input, packets(4));
    let mut input = packets(5);
    assert_eq!(mutator.mutate(&mut rand, &mut input).unwrap(), MutationResult::Mutated);
    assert_eq!(input.len(), 4);
    for packet in &input {
        assert!(packets(5).contains(packet));
    }
}

#[test]
fn delete_never_empties_the_input() {
    let mut rand = StdRand::with_seed(0);
    let mut mutator = PacketDeleteMutator::<Vec<u8>>::new(0);
    assert_eq!(mutator.min_packets(), 1);
    let mut input = packets(1);
    assert_eq!(mutator.mutate(&mut rand, &mut input).unwrap(), MutationResult::Skipped);
    assert_eq!(input, packets(1));
    let mut input = packets(2);
    assert_eq!(mutator.mutate(&mut rand, &mut input).unwrap(), MutationResult::Mutated);
    assert_eq!(input.len(), 1);
    let mut empty: Vec<Vec<u8>> = Vec::new();
    assert_eq!(mutator.mutate(&mut rand, &mut empty).unwrap(), MutationResult::Skipped);
}

#[test]
fn delete_at_given_position() {
    let mutator = PacketDeleteMutator::<Vec<u8>>::new(2);
    let mut input = packets(3);
    assert_eq!(mutator.mutate_at(&mut input, 1), MutationResult::Mutated);
    assert_eq!(input, vec![vec![0, 0], vec![2, 2]]);
    assert_eq!(mutator.mutate_at(&mut input, 0), MutationResult::Skipped);
    assert_eq!(input, vec![vec![0, 0], vec![2, 2]]);
}

#[test]
fn duplicate_with_max_two() {
    let mut rand = StdRand::with_seed(0);
    let mut mutator = PacketDuplicateMutator::<Vec<u8>>::new(2);
    let mut input = packets(2);
    assert_eq!(mutator.mutate(&mut rand, &mut input).unwrap(), MutationResult::Skipped);
    assert_eq!(input, packets(2));
    let mut input = packets(1);
    while mutator.mutate(&mut rand, &mut input).unwrap() == MutationResult::Skipped {
        assert_eq!(input, packets(1));
    }
    assert_eq!(input, vec![vec![0, 0], vec![0, 0]]);
}

#[test]
fn duplicate_skips_empty_input() {
    let mut rand = StdRand::with_seed(0);
    let mut mutator = PacketDuplicateMutator::<Vec<u8>>::new(16);
    assert_eq!(mutator.max_packets(), 16);
    let mut empty: Vec<Vec<u8>> = Vec::new();
    assert_eq!(mutator.mutate(&mut rand, &mut empty).unwrap(), MutationResult::Skipped);
    assert!(empty.is_empty());
}

#[test]
fn duplicate_at_given_positions() {
    let mutator = PacketDuplicateMutator::<Vec<u8>>::new(4);
    let mut input = packets(3);
    assert_eq!(mutator.mutate_at(&mut input, 0, 3), MutationResult::Mutated);
    assert_eq!(input, vec![vec![0, 0], vec![1, 1], vec![2, 2], vec![0, 0]]);
    assert_eq!(mutator.mutate_at(&mut input, 0, 1), MutationResult::Skipped);
    let mut input = packets(3);
    assert_eq!(mutator.mutate_at(&mut input, 2, 0), MutationResult::Mutated);
    assert_eq!(input, vec![vec![2, 2], vec![0, 0], vec![1, 1], vec![2, 2]]);
    assert_eq!(mutator.mutate_at(&mut packets(3), 1, 1), MutationResult::Skipped);
}

#[test]
fn sequence_mutators_have_names() {
    assert_eq!(PacketReorderMutator::<Vec<u8>>::new().name(), "PacketReorderMutator");
    assert_eq!(PacketDeleteMutator::<Vec<u8>>::new(1).name(), "PacketDeleteMutator");
    assert_eq!(PacketDuplicateMutator::<Vec<u8>>::new(1).name(), "PacketDuplicateMutator");
}
