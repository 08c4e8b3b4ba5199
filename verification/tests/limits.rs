use nix::errno::Errno;
use tcp_proxy::limits::{
    adjust_descriptor_limit, conclude_adjustment, conclude_restore, desired_limit, plan_limit,
    restore_descriptor_limit, LimitOutcome, LimitPlan, RestoreOutcome, DESCRIPTORS_PER_RULE,
    RESERVED_DESCRIPTORS,
};

#[test]
fn desired_limit_counts_three_per_rule_and_a_reserve() {
    assert_eq!(DESCRIPTORS_PER_RULE, 3);
    assert_eq!(RESERVED_DESCRIPTORS, 64);
    assert_eq!(desired_limit(0), 64);
    assert_eq!(desired_limit(1), 67);
    assert_eq!(desired_limit(10), 94);
    assert_eq!(desired_limit(1000), 3064);
    assert_eq!(desired_limit(65536), 196_672);
}

#[test]
fn desired_limit_is_capped() {
    assert_eq!(desired_limit(usize::MAX), u64::MAX);
    let last_exact = ((u64::MAX - 64) / 3) as usize;
    assert_eq!(desired_limit(last_exact), 3 * (last_exact as u64) + 64);
    assert_eq!(desired_limit(last_exact + 1), u64::MAX);
}

#[test]
fn desired_limit_never_falls() {
    let mut last = 0;
    for n in 0..5000usize {
        let limit = desired_limit(n);
        assert!(limit >= last);
        assert!(limit > n as u64);
        last = limit;
    }
}

#[test]
fn plan_keeps_a_limit_above_the_rule_count() {
    assert_eq!(plan_limit(1024, 4096, 10), LimitPlan::Keep);
    assert_eq!(plan_limit(11, 4096, 10), LimitPlan::Keep);
    assert_eq!(plan_limit(1, 1, 0), LimitPlan::Keep);
    assert_eq!(plan_limit(u64::MAX, u64::MAX, 1_000_000), LimitPlan::Keep);
}

#[test]
fn plan_raises_a_limit_at_or_below_the_rule_count() {
    assert_eq!(plan_limit(10, 4096, 10), LimitPlan::Raise { soft: 94, hard: 4096 });
    assert_eq!(plan_limit(9, 4096, 10), LimitPlan::Raise { soft: 94, hard: 4096 });
    assert_eq!(plan_limit(0, 0, 0), LimitPlan::Raise { soft: 64, hard: 0 });
    assert_eq!(plan_limit(1024, 2048, 5000), LimitPlan::Raise { soft: 15_064, hard: 2048 });
}

#[test]
fn conclusion_follows_plan_and_answer() {
    match conclude_adjustment(1024, 4096, LimitPlan::Keep, Ok(())) {
        LimitOutcome::Sufficient { soft, hard } => assert_eq!((soft, hard), (1024, 4096)),
        other => panic!("{:?}", other),
    }
    match conclude_adjustment(10, 4096, LimitPlan::Raise { soft: 94, hard: 4096 }, Ok(())) {
        LimitOutcome::Raised { previous, soft, hard } => {
            assert_eq!((previous, soft, hard), (10, 94, 4096))
        }
        other => panic!("{:?}", other),
    }
    let refused = Err(Errno::EPERM);
    match conclude_adjustment(10, 50, LimitPlan::Raise { soft: 94, hard: 50 }, refused) {
        LimitOutcome::RaiseFailed { previous, wanted, hard, error } => {
            assert_eq!((previous, wanted, hard), (10, 94, 50));
            assert_eq!(error, Errno::EPERM);
        }
        other => panic!("{:?}", other),
    }
}

#[test]
fn restore_conclusion_follows_outcome_and_answer() {
    let raised = LimitOutcome::Raised { previous: 10, soft: 94, hard: 4096 };
    match conclude_restore(&raised, Ok(())) {
        RestoreOutcome::Restored { soft } => assert_eq!(soft, 10),
        other => panic!("{:?}", other),
    }
    match conclude_restore(&raised, Err(Errno::EINVAL)) {
        RestoreOutcome::RestoreFailed { soft, error } => {
            assert_eq!(soft, 10);
            assert_eq!(error, Errno::EINVAL);
        }
        other => panic!("{:?}", other),
    }
    let kept = LimitOutcome::Sufficient { soft: 1024, hard: 4096 };
    assert!(matches!(conclude_restore(&kept, Ok(())), RestoreOutcome::Untouched));
    let failed = LimitOutcome::RaiseFailed { previous: 1, wanted: 67, hard: 1, error: Errno::EPERM };
    assert!(matches!(conclude_restore(&failed, Err(Errno::EPERM)), RestoreOutcome::Untouched));
    let unknown = LimitOutcome::QueryFailed { error: Errno::ENOSYS };
    assert!(matches!(conclude_restore(&unknown, Ok(())), RestoreOutcome::Untouched));
}

#[test]
fn adjustment_reports_what_it_found() {
    let outcome = adjust_descriptor_limit(0);
    match outcome {
        LimitOutcome::Sufficient { soft, hard: _ } => assert!(soft > 0),
        LimitOutcome::Raised { previous, soft, hard: _ } => {
            assert_eq!(previous, 0);
            assert_eq!(soft, 64);
        }
        LimitOutcome::RaiseFailed { previous, wanted, hard: _, error: _ } => {
            assert_eq!(previous, 0);
            assert_eq!(wanted, 64);
        }
        LimitOutcome::QueryFailed { error: _ } => {}
    }
}

#[test]
fn adjustment_and_restore_agree() {
    let outcome = adjust_descriptor_limit(3);
    let raised_from = match outcome {
        LimitOutcome::Raised { previous, soft, hard: _ } => {
            assert!(previous <= 3);
            assert_eq!(soft, 73);
            Some(previous)
        }
        _ => None,
    };
    match restore_descriptor_limit(&outcome) {
        RestoreOutcome::Untouched => assert_eq!(raised_from, None),
        RestoreOutcome::Restored { soft } => assert_eq!(Some(soft), raised_from),
        RestoreOutcome::RestoreFailed { soft, error: _ } => assert_eq!(Some(soft), raised_from),
    }
}
