use partial_io::quickcheck_types::{emit_op, limits_from, pick_error};
use partial_io::{
    ErrorKind, GenError, GenInterrupted, GenInterruptedWouldBlock, GenNoErrors, GenWouldBlock,
    PartialOp, PartialWithErrors,
};
use quickcheck::{Arbitrary, Gen};

#[derive(Clone, Debug)]
struct ShrinkOp(PartialOp);

impl Arbitrary for ShrinkOp {
    fn arbitrary(_g: &mut Gen) -> Self {
        ShrinkOp(PartialOp::Unlimited)
    }

    fn shrink(&self) -> Box<dyn Iterator<Item = Self>> {
        Box::new(self.0.shrink().into_iter().map(ShrinkOp))
    }
}

fn shrink_list(items: &[PartialOp]) -> Vec<Vec<PartialOp>> {
    let seed: Vec<ShrinkOp> = items.iter().map(|op| ShrinkOp(*op)).collect();
    seed.shrink().map(|list| list.into_iter().map(|op| op.0).collect()).collect()
}

fn limits(values: &[usize]) -> Vec<PartialOp> {
    values.iter().map(|&n| PartialOp::Limited(n)).collect()
}

#[test]
fn generate_yields_size_directives() {
    for size in [0usize, 2, 3, 10, 100] {
        let mut g = Gen::new(size);
        let seq = PartialWithErrors::<GenInterrupted>::generate(size, &mut g);
        assert_eq!(seq.len(), size);
    }
}

#[test]
fn generated_limits_lie_in_one_to_size() {
    let mut g = Gen::new(100);
    let mut above_one = 0;
    for _ in 0..20 {
        let seq = PartialWithErrors::<GenNoErrors>::generate(100, &mut g);
        assert_eq!(seq.len(), 100);
        for op in seq.iter() {
            match *op {
                PartialOp::Limited(n) => {
                    assert!(1 <= n && n < 100);
                    if n > 1 {
                        above_one += 1;
                    }
                }
                other => panic!("unexpected directive: {:?}", other),
            }
        }
    }
    assert!(above_one > 0);
}

#[test]
fn size_two_leaves_one_limit_to_draw() {
    let mut g = Gen::new(2);
    for _ in 0..50 {
        let seq = PartialWithErrors::<GenNoErrors>::generate(2, &mut g);
        assert_eq!(seq.into_vec(), vec![PartialOp::Limited(1), PartialOp::Limited(1)]);
    }
}

#[test]
fn interrupted_policy_generates_only_interrupted() {
    let mut g = Gen::new(100);
    let mut errors = 0;
    let mut limits = 0;
    for _ in 0..20 {
        let seq = PartialWithErrors::<GenInterrupted>::generate(100, &mut g);
        for op in seq.iter() {
            match *op {
                PartialOp::Limited(n) => {
                    assert!(1 <= n && n < 100);
                    limits += 1;
                }
                PartialOp::Fail(kind) => {
                    assert_eq!(kind, ErrorKind::Interrupted);
                    errors += 1;
                }
                PartialOp::Unlimited => panic!("unexpected directive"),
            }
        }
    }
    assert!(errors > 0);
    assert!(limits > 0);
}

#[test]
fn would_block_policy_generates_only_would_block() {
    let mut g = Gen::new(100);
    let mut errors = 0;
    for _ in 0..20 {
        let seq = PartialWithErrors::<GenWouldBlock>::generate(100, &mut g);
        for op in seq.iter() {
            match *op {
                PartialOp::Limited(n) => assert!(1 <= n && n < 100),
                PartialOp::Fail(kind) => {
                    assert_eq!(kind, ErrorKind::WouldBlock);
                    errors += 1;
                }
                PartialOp::Unlimited => panic!("unexpected directive"),
            }
        }
    }
    assert!(errors > 0);
}

#[test]
fn mixed_policy_generates_both_kinds() {
    let mut g = Gen::new(100);
    let mut interrupted = 0;
    let mut would_block = 0;
    for _ in 0..50 {
        let seq = PartialWithErrors::<GenInterruptedWouldBlock>::generate(100, &mut g);
        for op in seq.iter() {
            match *op {
                PartialOp::Limited(n) => assert!(1 <= n && n < 100),
                PartialOp::Fail(ErrorKind::Interrupted) => interrupted += 1,
                PartialOp::Fail(ErrorKind::WouldBlock) => would_block += 1,
                other => panic!("unexpected directive: {:?}", other),
            }
        }
    }
    assert!(interrupted > 0);
    assert!(would_block > 0);
}

#[test]
fn no_errors_policy_never_generates_an_error() {
    let mut g = Gen::new(10);
    let mut policy = GenNoErrors;
    for _ in 0..1000 {
        assert_eq!(policy.gen_error(&mut g), None);
    }
}

#[test]
fn single_kind_policies_generate_their_kind_or_nothing() {
    let mut g = Gen::new(10);
    let mut interrupted = GenInterrupted;
    let mut would_block = GenWouldBlock;
    let mut both = GenInterruptedWouldBlock;
    for _ in 0..1000 {
        let a = interrupted.gen_error(&mut g);
        assert!(a.is_none() || a == Some(ErrorKind::Interrupted));
        let b = would_block.gen_error(&mut g);
        assert!(b.is_none() || b == Some(ErrorKind::WouldBlock));
        let c = both.gen_error(&mut g);
        assert!(
            c.is_none() || c == Some(ErrorKind::Interrupted) || c == Some(ErrorKind::WouldBlock)
        );
    }
}

#[test]
fn pick_error_picks_only_on_a_hit() {
    let mut g = Gen::new(10);
    let kinds = [ErrorKind::BrokenPipe, ErrorKind::TimedOut];
    for _ in 0..100 {
        assert_eq!(pick_error(false, &mut g, &kinds), None);
        let picked = pick_error(true, &mut g, &kinds);
        assert!(picked == Some(ErrorKind::BrokenPipe) || picked == Some(ErrorKind::TimedOut));
    }
    assert_eq!(pick_error(true, &mut g, &[ErrorKind::Other]), Some(ErrorKind::Other));
}

#[test]
fn arbitrary_takes_its_size_from_the_generator() {
    let mut g = Gen::new(37);
    let seq = PartialWithErrors::<GenInterrupted>::arbitrary(&mut g).unwrap();
    assert_eq!(seq.len(), 37);
    let mut empty = Gen::new(0);
    let seq = PartialWithErrors::<GenWouldBlock>::arbitrary(&mut empty).unwrap();
    assert_eq!(seq.len(), 0);
}

#[test]
fn arbitrary_of_size_one_has_no_limit_to_draw() {
    let mut g = Gen::new(1);
    for _ in 0..100 {
        assert!(PartialWithErrors::<GenNoErrors>::arbitrary(&mut g).is_none());
    }
}

#[test]
fn size_one_yields_a_failure_when_the_policy_has_one() {
    let mut g = Gen::new(1);
    let mut failures = 0;
    let mut nothing = 0;
    for _ in 0..400 {
        match PartialWithErrors::<GenInterrupted>::arbitrary(&mut g) {
            Some(seq) => {
                assert_eq!(seq.into_vec(), vec![PartialOp::Fail(ErrorKind::Interrupted)]);
                failures += 1;
            }
            None => nothing += 1,
        }
    }
    assert!(failures > 0);
    assert!(nothing > 0);
}

#[test]
fn emit_op_reports_when_there_is_no_limit_to_draw() {
    assert_eq!(emit_op(None, 1), None);
    assert_eq!(emit_op(None, 0), None);
    assert_eq!(emit_op(None, 2), Some(PartialOp::Limited(1)));
    assert_eq!(
        emit_op(Some(ErrorKind::WouldBlock), 1),
        Some(PartialOp::Fail(ErrorKind::WouldBlock))
    );
    assert_eq!(
        emit_op(Some(ErrorKind::Interrupted), 50),
        Some(PartialOp::Fail(ErrorKind::Interrupted))
    );
    for _ in 0..200 {
        match emit_op(None, 10) {
            Some(PartialOp::Limited(n)) => assert!(1 <= n && n < 10),
            other => panic!("unexpected directive: {:?}", other),
        }
    }
}

#[test]
fn generated_sequences_never_hold_a_zero_limit() {
    let mut g = Gen::new(50);
    for _ in 0..50 {
        let seq = PartialWithErrors::<GenInterruptedWouldBlock>::arbitrary(&mut g).unwrap();
        assert!(seq.iter().all(|op| *op != PartialOp::Limited(0)));
    }
}

#[test]
fn shrink_of_a_limit_offers_smaller_positive_limits() {
    assert_eq!(PartialOp::Limited(10).shrink(), limits(&[5, 8, 9]));
    assert_eq!(PartialOp::Limited(100).shrink(), limits(&[50, 75, 88, 94, 97, 99]));
    assert_eq!(PartialOp::Limited(2).shrink(), limits(&[1]));
    assert_eq!(PartialOp::Limited(3).shrink(), limits(&[2]));
}

#[test]
fn shrink_never_offers_a_zero_limit() {
    for n in 0..300usize {
        let smaller = PartialOp::Limited(n).shrink();
        for op in smaller {
            match op {
                PartialOp::Limited(k) => assert!(1 <= k && k < n),
                other => panic!("unexpected candidate: {:?}", other),
            }
        }
    }
    let big = PartialOp::Limited(usize::MAX).shrink();
    assert!(!big.is_empty());
    assert!(big.iter().all(|op| *op != PartialOp::Limited(0)));
}

#[test]
fn shrink_of_smallest_limits_offers_nothing() {
    assert_eq!(PartialOp::Limited(0).shrink(), Vec::new());
    assert_eq!(PartialOp::Limited(1).shrink(), Vec::new());
}

#[test]
fn shrink_leaves_failures_and_unlimited_alone() {
    assert_eq!(PartialOp::Unlimited.shrink(), Vec::new());
    assert_eq!(PartialOp::Fail(ErrorKind::Interrupted).shrink(), Vec::new());
    assert_eq!(PartialOp::Fail(ErrorKind::WouldBlock).shrink(), Vec::new());
    assert_eq!(PartialOp::Fail(ErrorKind::Other).shrink(), Vec::new());
}

#[test]
fn limits_from_drops_zero_and_keeps_order() {
    assert_eq!(limits_from(&vec![0, 5, 0, 8, 9, 0]), limits(&[5, 8, 9]));
    assert_eq!(limits_from(&vec![0, 0]), Vec::new());
    assert_eq!(limits_from(&Vec::new()), Vec::new());
    assert_eq!(limits_from(&vec![3, 2, 1]), limits(&[3, 2, 1]));
}

#[test]
fn from_items_refuses_a_zero_limit() {
    let good = vec![
        PartialOp::Limited(3),
        PartialOp::Fail(ErrorKind::Interrupted),
        PartialOp::Unlimited,
    ];
    let seq = PartialWithErrors::<GenInterrupted>::from_items(good.clone()).unwrap();
    assert_eq!(seq.to_vec(), good);
    let bad = vec![PartialOp::Limited(3), PartialOp::Limited(0)];
    assert!(PartialWithErrors::<GenInterrupted>::from_items(bad).is_none());
    let empty = PartialWithErrors::<GenNoErrors>::from_items(Vec::new()).unwrap();
    assert!(empty.is_empty());
}

#[test]
fn sequence_hands_out_its_directives_in_order() {
    let items = vec![
        PartialOp::Limited(2),
        PartialOp::Fail(ErrorKind::WouldBlock),
        PartialOp::Limited(9),
    ];
    let seq = PartialWithErrors::<GenWouldBlock>::from_items(items.clone()).unwrap();
    assert_eq!(seq.len(), 3);
    assert_eq!(seq[1], PartialOp::Fail(ErrorKind::WouldBlock));
    let copy = seq.clone();
    assert_eq!(copy.into_vec(), items);
    let walked: Vec<PartialOp> = seq.into_iter().collect();
    assert_eq!(walked, items);
}

#[test]
fn generated_sequence_drives_a_wrapper_queue() {
    let mut g = Gen::new(20);
    let seq = PartialWithErrors::<GenNoErrors>::generate(20, &mut g);
    let expected = seq.to_vec();
    let mut ops = partial_io::SyncOps::new(seq.into_iter());
    for op in expected {
        match (op, ops.next_write(1000)) {
            (PartialOp::Limited(n), partial_io::IoStep::Proceed(len)) => assert_eq!(len, n),
            other => panic!("unexpected step: {:?}", other),
        }
    }
    assert_eq!(ops.next_write(1000), partial_io::IoStep::Proceed(1000));
}

#[test]
fn shrunk_lists_never_gain_a_zero_limit() {
    let mut g = Gen::new(30);
    for _ in 0..10 {
        let seq = PartialWithErrors::<GenInterruptedWouldBlock>::generate(30, &mut g);
        let candidates = shrink_list(&seq);
        assert!(!candidates.is_empty());
        for candidate in candidates {
            assert!(candidate.len() <= seq.len());
            assert!(candidate.iter().all(|op| *op != PartialOp::Limited(0)));
            assert!(PartialWithErrors::<GenInterruptedWouldBlock>::from_items(candidate).is_some());
        }
    }
}

#[test]
fn shrunk_lists_keep_their_error_kinds() {
    let seed = vec![
        PartialOp::Fail(ErrorKind::Interrupted),
        PartialOp::Limited(4),
        PartialOp::Fail(ErrorKind::WouldBlock),
    ];
    let candidates = shrink_list(&seed);
    assert_eq!(candidates[0], Vec::new());
    for candidate in &candidates {
        for op in candidate {
            match *op {
                PartialOp::Limited(n) => assert!(1 <= n && n <= 4),
                PartialOp::Fail(kind) => {
                    assert!(kind == ErrorKind::Interrupted || kind == ErrorKind::WouldBlock)
                }
                PartialOp::Unlimited => panic!("unexpected directive"),
            }
        }
    }
    let same_length: Vec<&Vec<PartialOp>> =
        candidates.iter().filter(|c| c.len() == seed.len()).collect();
    assert_eq!(
        same_length,
        vec![
            &vec![
                PartialOp::Fail(ErrorKind::Interrupted),
                PartialOp::Limited(2),
                PartialOp::Fail(ErrorKind::WouldBlock)
            ],
            &vec![
                PartialOp::Fail(ErrorKind::Interrupted),
                PartialOp::Limited(3),
                PartialOp::Fail(ErrorKind::WouldBlock)
            ],
        ]
    );
}

#[test]
fn try_generate_succeeds_wherever_a_limit_can_be_drawn() {
    let mut g = Gen::new(10);
    assert!(PartialWithErrors::<GenNoErrors>::try_generate(1, &mut g).is_none());
    for _ in 0..100 {
        match PartialWithErrors::<GenInterruptedWouldBlock>::try_generate(1, &mut g) {
            Some(seq) => {
                assert_eq!(seq.len(), 1);
                assert!(
                    seq[0] == PartialOp::Fail(ErrorKind::Interrupted)
                        || seq[0] == PartialOp::Fail(ErrorKind::WouldBlock)
                );
            }
            None => {}
        }
    }
    let empty = PartialWithErrors::<GenInterrupted>::try_generate(0, &mut g).unwrap();
    assert!(empty.is_empty());
    for size in [2usize, 3, 5, 64] {
        let seq = PartialWithErrors::<GenNoErrors>::try_generate(size, &mut g).unwrap();
        assert_eq!(seq.len(), size);
        for op in seq.iter() {
            match *op {
                PartialOp::Limited(n) => assert!(1 <= n && n < size),
                other => panic!("unexpected directive: {:?}", other),
            }
        }
    }
}
