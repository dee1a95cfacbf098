use butterfly::{
    MutationResult, PacketCrossoverInsertMutator, PacketCrossoverReplaceMutator,
    PacketDeleteMutator, PacketDuplicateMutator, PacketMutationScheduler, PacketMutator,
    PacketReorderMutator, PacketSpliceMutator,
};
use libafl::inputs::BytesInput;
use libafl_bolts::rands::StdRand;

fn all_mutators() -> Vec<PacketMutator<BytesInput>> {
    vec![
        PacketMutator::Reorder(PacketReorderMutator::new()),
        PacketMutator::Delete(PacketDeleteMutator::new(4)),
        PacketMutator::Duplicate(PacketDuplicateMutator::new(16)),
        PacketMutator::CrossoverInsert(PacketCrossoverInsertMutator::new()),
        PacketMutator::CrossoverReplace(PacketCrossoverReplaceMutator::new()),
        PacketMutator::Splice(PacketSpliceMutator::new(4)),
    ]
}

fn packets(n: u8) -> Vec<BytesInput> {
    (0..n).map(|i| BytesInput::new(vec![i; 4])).collect()
}

#[test]
fn scheduler_draws_a_registered_mutator() {
    let mut rand = StdRand::with_seed(0);
    let scheduler = PacketMutationScheduler::new(all_mutators());
    let mut seen = [false; 6];
    for _ in 0..500 {
        let id = scheduler.schedule(&mut rand);
        assert!(id < 6);
        seen[id] = true;
    }
    assert!(seen.iter().all(|s| *s));
    assert_eq!(scheduler.iterations(), 1);
    assert_eq!(scheduler.name(), "PacketMutationScheduler");
    assert_eq!(scheduler.mutations().len(), 6);
    let names: Vec<&str> = scheduler.mutations().iter().map(|m| m.name()).collect();
    assert_eq!(
        names,
        vec![
            "PacketReorderMutator",
            "PacketDeleteMutator",
            "PacketDuplicateMutator",
            "PacketCrossoverInsertMutator",
            "PacketCrossoverReplaceMutator",
            "PacketSpliceMutator",
        ]
    );
}

#[test]
fn one_round_runs_one_mutator() {
    let mut rand = StdRand::with_seed(0);
    let mut scheduler = PacketMutationScheduler::new(all_mutators());
    for _ in 0..300 {
        let start = packets(6);
        let mut input = start.clone();
        match scheduler.mutate_once(&mut rand, &mut input).unwrap() {
            MutationResult::Skipped => assert_eq!(input, start),
            MutationResult::Mutated => {
                assert_ne!(input, start);
                assert!(5 <= input.len() && input.len() <= 7);
                let changed = input.iter().filter(|p| !start.contains(p)).count();
                assert!(changed <= 1);
            }
        }
    }
}

#[test]
fn chosen_mutator_is_the_one_that_runs() {
    let mut rand = StdRand::with_seed(0);
    let mut scheduler = PacketMutationScheduler::new(all_mutators());
    let mut input = packets(6);
    assert_eq!(scheduler.get_and_mutate(1, &mut rand, &mut input).unwrap(), MutationResult::Mutated);
    assert_eq!(input.len(), 5);
    let mut input = packets(4);
    assert_eq!(scheduler.get_and_mutate(1, &mut rand, &mut input).unwrap(), MutationResult::Skipped);
    assert_eq!(input, packets(4));
    let mut input = packets(16);
    assert_eq!(scheduler.get_and_mutate(2, &mut rand, &mut input).unwrap(), MutationResult::Skipped);
    assert_eq!(input, packets(16));
    let mut input = packets(5);
    assert_eq!(scheduler.get_and_mutate(5, &mut rand, &mut input).unwrap(), MutationResult::Mutated);
    assert_eq!(input.len(), 4);
}

#[test]
fn rounds_go_on_until_something_is_mutated() {
    let mut rand = StdRand::with_seed(0);
    let mut scheduler = PacketMutationScheduler::new(all_mutators());
    for _ in 0..50 {
        let start = packets(6);
        let mut input = start.clone();
        let result = scheduler.scheduled_mutate(&mut rand, &mut input, 1000).unwrap();
        assert_eq!(result, MutationResult::Mutated);
        assert_ne!(input, start);
        assert!(5 <= input.len() && input.len() <= 7);
    }
}

#[test]
fn rounds_end_when_every_mutator_skips() {
    let mut rand = StdRand::with_seed(0);
    let mut scheduler = PacketMutationScheduler::new(vec![
        PacketMutator::Reorder(PacketReorderMutator::new()),
        PacketMutator::Delete(PacketDeleteMutator::new(1)),
        PacketMutator::Splice(PacketSpliceMutator::new(1)),
    ]);
    let mut input = packets(1);
    assert_eq!(
        scheduler.scheduled_mutate(&mut rand, &mut input, 100).unwrap(),
        MutationResult::Skipped
    );
    assert_eq!(input, packets(1));
    let mut input = packets(5);
    assert_eq!(scheduler.scheduled_mutate(&mut rand, &mut input, 0).unwrap(), MutationResult::Skipped);
    assert_eq!(input, packets(5));
}

#[test]
fn mutators_of_a_scheduler_can_be_exchanged() {
    let mut scheduler = PacketMutationScheduler::new(all_mutators());
    scheduler.mutations_mut().truncate(1);
    assert_eq!(scheduler.mutations().len(), 1);
    assert_eq!(scheduler.mutations()[0].name(), "PacketReorderMutator");
    let mut rand = StdRand::with_seed(0);
    assert_eq!(scheduler.schedule(&mut rand), 0);
}
