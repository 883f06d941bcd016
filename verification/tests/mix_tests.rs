use map_bench::mix::{Mix, Operation};

fn count(ops: &[Operation], op: Operation) -> usize {
    ops.iter().filter(|o| **o == op).count()
}

#[test]
fn read_heavy_expands_exactly() {
    let ops = Mix::read_heavy().to_ops();
    assert_eq!(ops.len(), 100);
    assert_eq!(count(&ops, Operation::Read), 95);
    assert_eq!(count(&ops, Operation::Insert), 2);
    assert_eq!(count(&ops, Operation::Remove), 1);
    assert_eq!(count(&ops, Operation::Update), 1);
    assert_eq!(count(&ops, Operation::Upsert), 1);
}

#[test]
fn read_99_expands_exactly() {
    let ops = Mix::read_99().to_ops();
    assert_eq!(ops.len(), 100);
    assert_eq!(count(&ops, Operation::Read), 99);
    assert_eq!(count(&ops, Operation::Insert), 1);
    assert_eq!(count(&ops, Operation::Remove), 0);
    assert_eq!(count(&ops, Operation::Update), 0);
    assert_eq!(count(&ops, Operation::Upsert), 0);
}

#[test]
fn read_100_is_all_reads() {
    let ops = Mix::read_100().to_ops();
    assert_eq!(ops.len(), 100);
    assert!(ops.iter().all(|o| *o == Operation::Read));
}

#[test]
fn custom_mix_expands_exactly() {
    let mix = Mix { read: 3, insert: 2, remove: 1, update: 0, upsert: 4 };
    let ops = mix.to_ops();
    assert_eq!(ops.len(), 10);
    assert_eq!(count(&ops, Operation::Read), 3);
    assert_eq!(count(&ops, Operation::Insert), 2);
    assert_eq!(count(&ops, Operation::Remove), 1);
    assert_eq!(count(&ops, Operation::Update), 0);
    assert_eq!(count(&ops, Operation::Upsert), 4);
}

#[test]
fn empty_mix_expands_to_nothing() {
    let mix = Mix { read: 0, insert: 0, remove: 0, update: 0, upsert: 0 };
    assert!(mix.to_ops().is_empty());
}

#[test]
fn shuffle_preserves_the_multiset_of_tags() {
    // Two independent expansions of one mix are shuffled differently,
    // but both must carry exactly the declared tag counts.
    let mix = Mix { read: 40, insert: 30, remove: 20, update: 5, upsert: 5 };
    let a = mix.to_ops();
    let b = mix.to_ops();
    for op in [
        Operation::Read,
        Operation::Insert,
        Operation::Remove,
        Operation::Update,
        Operation::Upsert,
    ] {
        assert_eq!(count(&a, op), count(&b, op));
    }
    assert_eq!(count(&a, Operation::Read), 40);
    assert_eq!(count(&a, Operation::Insert), 30);
    assert_eq!(count(&a, Operation::Remove), 20);
    assert_eq!(count(&a, Operation::Update), 5);
    assert_eq!(count(&a, Operation::Upsert), 5);
}
