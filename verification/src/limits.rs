//! The limit on open descriptors: how many the rules call for, when the
//! limit in force is too low, and what to ask of the system then.
//!
//! Every rule holds one listening socket while it runs, and every relayed
//! connection holds two descriptors, one towards the client and one
//! towards the upstream. The limit asked for leaves room for one
//! connection per rule and a fixed reserve for the process itself.

use nix::errno::Errno;
use vstd::prelude::*;

verus! {

/// Descriptors that one rule is sized for: its listening socket and the
/// two ends of one relayed connection.
pub const DESCRIPTORS_PER_RULE: u64 = 3;

/// Descriptors kept for the process itself: its standard streams, the
/// store and whatever the runtime holds.
pub const RESERVED_DESCRIPTORS: u64 = 64;

/// The error number of a failed system call, `nix::errno::Errno`. It is
/// carried along as it came and never looked into.
#[verifier::external_type_specification]
#[verifier::external_body]
pub struct ExErrno(Errno);

/// What to do about the limit on open descriptors.
#[derive(Debug, Clone, Copy, PartialEq, Eq, Structural)]
pub enum LimitPlan {
    /// The soft limit in force is enough.
    Keep,
    /// Ask for the soft limit `soft`, and leave the hard limit at `hard`.
    Raise { soft: u64, hard: u64 },
}

/// How the adjustment of the limit went.
#[derive(Debug)]
pub enum LimitOutcome {
    /// The soft limit in force was enough and stays.
    Sufficient { soft: u64, hard: u64 },
    /// The soft limit was raised from `previous` to `soft`.
    Raised { previous: u64, soft: u64, hard: u64 },
    /// The system refused to raise the soft limit from `previous` to
    /// `wanted`: the limit in force stays.
    RaiseFailed { previous: u64, wanted: u64, hard: u64, error: Errno },
    /// The system did not tell the limits in force: nothing was changed.
    QueryFailed { error: Errno },
}

/// How giving the limit back went.
#[derive(Debug)]
pub enum RestoreOutcome {
    /// The limit had not been raised.
    Untouched,
    /// The soft limit stands at `soft` again.
    Restored { soft: u64 },
    /// The system refused to set the soft limit back to `soft`.
    RestoreFailed { soft: u64, error: Errno },
}

/// The soft limit that `rule_count` rules call for, capped at the largest
/// limit there is.
pub open spec fn desired_limit_of(rule_count: int) -> int {
    if DESCRIPTORS_PER_RULE * rule_count + RESERVED_DESCRIPTORS <= u64::MAX {
        DESCRIPTORS_PER_RULE * rule_count + RESERVED_DESCRIPTORS
    } else {
        u64::MAX as int
    }
}

/// A soft limit that does not even exceed the number of rules is too low.
pub open spec fn is_insufficient(soft: u64, rule_count: int) -> bool {
    soft <= rule_count
}

/// The plan for `rule_count` rules under the limits `soft` and `hard`.
pub open spec fn plan_of(soft: u64, hard: u64, rule_count: int) -> LimitPlan {
    if is_insufficient(soft, rule_count) {
        LimitPlan::Raise { soft: desired_limit_of(rule_count) as u64, hard }
    } else {
        LimitPlan::Keep
    }
}

/// The soft limit that `rule_count` rules call for.
pub fn desired_limit(rule_count: usize) -> (limit: u64)
    ensures
        limit == desired_limit_of(rule_count as int),
{
    let per_rule: u128 = DESCRIPTORS_PER_RULE as u128;
    let count: u128 = rule_count as u128;
    assert(per_rule * count == DESCRIPTORS_PER_RULE * rule_count && per_rule * count <= 3
        * 0xFFFF_FFFF_FFFF_FFFF) by (nonlinear_arith)
        requires
            per_rule == 3,
            DESCRIPTORS_PER_RULE == 3,
            count == rule_count,
            count <= 0xFFFF_FFFF_FFFF_FFFF,
    ;
    let wide: u128 = per_rule * count + (RESERVED_DESCRIPTORS as u128);
    if wide <= u64::MAX as u128 {
        wide as u64
    } else {
        u64::MAX
    }
}

/// Decides what to do about the limit for `rule_count` rules, given the
/// soft and hard limit in force.
pub fn plan_limit(soft: u64, hard: u64, rule_count: usize) -> (plan: LimitPlan)
    ensures
        plan == plan_of(soft, hard, rule_count as int),
{
    if soft as u128 <= rule_count as u128 {
        LimitPlan::Raise { soft: desired_limit(rule_count), hard }
    } else {
        LimitPlan::Keep
    }
}

/// A plan never lowers the soft limit, and never touches the hard limit.
pub proof fn lemma_plan_raises(soft: u64, hard: u64, rule_count: int)
    requires
        0 <= rule_count <= u64::MAX,
    ensures
        plan_of(soft, hard, rule_count) matches LimitPlan::Raise { soft: new_soft, hard: new_hard }
            ==> soft <= new_soft && new_hard == hard && rule_count <= new_soft,
{
    assert(DESCRIPTORS_PER_RULE == 3 && RESERVED_DESCRIPTORS == 64);
}

/// More rules never call for a lower limit.
pub proof fn lemma_desired_limit_monotonic(fewer: int, more: int)
    requires
        0 <= fewer <= more,
    ensures
        RESERVED_DESCRIPTORS <= desired_limit_of(fewer) <= desired_limit_of(more) <= u64::MAX,
{
    assert(DESCRIPTORS_PER_RULE == 3 && RESERVED_DESCRIPTORS == 64);
}

/// Asks the system for the soft and hard limit on open descriptors of
/// this process, with `nix::sys::resource::getrlimit`. Nothing is claimed
/// of the answer: it is what the system says at the time of the call.
#[verifier::external_body]
fn query_descriptor_limit() -> (r: Result<(u64, u64), Errno>) {
    nix::sys::resource::getrlimit(nix::sys::resource::Resource::RLIMIT_NOFILE)
}

/// Asks the system to set the soft and hard limit on open descriptors of
/// this process, with `nix::sys::resource::setrlimit`. Nothing is claimed
/// of the answer: the system may refuse any request.
#[verifier::external_body]
fn set_descriptor_limit(soft: u64, hard: u64) -> (r: Result<(), Errno>) {
    nix::sys::resource::setrlimit(nix::sys::resource::Resource::RLIMIT_NOFILE, soft, hard)
}

/// Says how the adjustment went, from the limits in force, the plan made
/// for them and, where the plan was to raise the limit, the system's
/// answer to that request.
pub fn conclude_adjustment(
    soft: u64,
    hard: u64,
    plan: LimitPlan,
    answer: Result<(), Errno>,
) -> (outcome: LimitOutcome)
    ensures
        match plan {
            LimitPlan::Keep => outcome matches LimitOutcome::Sufficient { soft: s, hard: h } && s
                == soft && h == hard,
            LimitPlan::Raise { soft: wanted, hard: kept } => match answer {
                Ok(_) => outcome matches LimitOutcome::Raised { previous, soft: s, hard: h }
                    && previous == soft && s == wanted && h == kept,
                Err(e) => outcome matches LimitOutcome::RaiseFailed {
                    previous,
                    wanted: w,
                    hard: h,
                    error,
                } && previous == soft && w == wanted && h == kept && error == e,
            },
        },
{
    match plan {
        LimitPlan::Keep => LimitOutcome::Sufficient { soft, hard },
        LimitPlan::Raise { soft: wanted, hard: kept } => match answer {
            Ok(_) => LimitOutcome::Raised { previous: soft, soft: wanted, hard: kept },
            Err(error) => LimitOutcome::RaiseFailed { previous: soft, wanted, hard: kept, error },
        },
    }
}

/// Makes room for `rule_count` rules: reads the limits in force and,
/// where the soft limit is too low, asks for the limit that the rules
/// call for. Whatever the system answers, the outcome says what was found
/// and what was asked.
pub fn adjust_descriptor_limit(rule_count: usize) -> (outcome: LimitOutcome)
    ensures
        match outcome {
            LimitOutcome::Sufficient { soft, hard } => plan_of(soft, hard, rule_count as int)
                == LimitPlan::Keep,
            LimitOutcome::Raised { previous, soft, hard } => plan_of(
                previous,
                hard,
                rule_count as int,
            ) == (LimitPlan::Raise { soft, hard }),
            LimitOutcome::RaiseFailed { previous, wanted, hard, error } => plan_of(
                previous,
                hard,
                rule_count as int,
            ) == (LimitPlan::Raise { soft: wanted, hard }),
            LimitOutcome::QueryFailed { error } => true,
        },
{
    match query_descriptor_limit() {
        Err(error) => LimitOutcome::QueryFailed { error },
        Ok((soft, hard)) => {
            let plan = plan_limit(soft, hard, rule_count);
            let answer = match plan {
                LimitPlan::Keep => Ok(()),
                LimitPlan::Raise { soft: wanted, hard: kept } => set_descriptor_limit(wanted, kept),
            };
            conclude_adjustment(soft, hard, plan, answer)
        },
    }
}

/// The soft limit to set again when the process ends, if the adjustment
/// changed it.
pub open spec fn limit_to_restore(outcome: LimitOutcome) -> Option<(u64, u64)> {
    match outcome {
        LimitOutcome::Raised { previous, soft, hard } => Some((previous, hard)),
        _ => None,
    }
}

/// Says how giving the limit back went, from the outcome of the
/// adjustment and, where there was a limit to give back, the system's
/// answer to that request.
pub fn conclude_restore(outcome: &LimitOutcome, answer: Result<(), Errno>) -> (restored:
    RestoreOutcome)
    ensures
        match limit_to_restore(*outcome) {
            None => restored is Untouched,
            Some((previous, hard)) => match answer {
                Ok(_) => restored matches RestoreOutcome::Restored { soft } && soft == previous,
                Err(e) => restored matches RestoreOutcome::RestoreFailed { soft, error } && soft
                    == previous && error == e,
            },
        },
{
    match outcome {
        LimitOutcome::Raised { previous, soft, hard } => match answer {
            Ok(_) => RestoreOutcome::Restored { soft: *previous },
            Err(error) => RestoreOutcome::RestoreFailed { soft: *previous, error },
        },
        _ => RestoreOutcome::Untouched,
    }
}

/// Gives back the soft limit that the adjustment raised, if it raised
/// one. Whatever the system answers, the outcome names the soft limit
/// that was asked for.
pub fn restore_descriptor_limit(outcome: &LimitOutcome) -> (restored: RestoreOutcome)
    ensures
        match limit_to_restore(*outcome) {
            None => restored is Untouched,
            Some((previous, hard)) => match restored {
                RestoreOutcome::Restored { soft } => soft == previous,
                RestoreOutcome::RestoreFailed { soft, error } => soft == previous,
                RestoreOutcome::Untouched => false,
            },
        },
{
    let answer = match outcome {
        LimitOutcome::Raised { previous, soft, hard } => set_descriptor_limit(*previous, *hard),
        _ => Ok(()),
    };
    conclude_restore(outcome, answer)
}

} // verus!
