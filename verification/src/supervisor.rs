//! The batch of listeners that runs at one time, and its replacement when
//! the rules have changed.
//!
//! One listener runs for each pair of the normal form of the rules. The
//! supervisor notes what becomes of each listener by itself: the end of
//! one changes nothing for the others. On a restart the whole batch is
//! given up and a batch for the new rules takes its place.

use crate::rules::{emitted, is_normal_form, ProxyConfig, RawConfig};
use vstd::prelude::*;

verus! {

/// What has become of one listener.
#[derive(Debug, Clone, Copy, PartialEq, Eq, Structural)]
pub enum TaskStatus {
    /// Launched and not known to have ended.
    Running,
    /// Ended with an error.
    Failed,
    /// Ended without one.
    Ended,
}

/// One listener of a batch.
#[derive(Debug, Clone, Copy, PartialEq, Eq, Structural)]
pub struct Task {
    pub rule: ProxyConfig,
    pub status: TaskStatus,
}

/// The batch of listeners that runs at one time.
#[derive(Debug)]
pub struct Supervisor {
    tasks: Vec<Task>,
}

/// The rules of the tasks, in their order.
pub open spec fn rules_of(tasks: Seq<Task>) -> Seq<ProxyConfig> {
    Seq::new(tasks.len(), |i: int| tasks[i].rule)
}

/// `tasks` is the batch to launch for `raws`: one running listener for
/// each pair of the normal form, in its order.
pub open spec fn is_fresh_batch(raws: Seq<RawConfig>, tasks: Seq<Task>) -> bool {
    &&& is_normal_form(raws, rules_of(tasks))
    &&& forall|i: int| 0 <= i < tasks.len() ==> (#[trigger] tasks[i]).status is Running
}

/// Some listener of the batch runs for the pair `p`.
pub open spec fn is_listening(tasks: Seq<Task>, p: ProxyConfig) -> bool {
    exists|i: int| 0 <= i < tasks.len() && (#[trigger] tasks[i]).rule == p && tasks[i].status is Running
}

impl View for Supervisor {
    type V = Seq<Task>;

    closed spec fn view(&self) -> Seq<Task> {
        self.tasks@
    }
}

impl Supervisor {
    /// The batch to launch for the rules `raws`.
    pub fn start(raws: &[RawConfig]) -> (supervisor: Supervisor)
        ensures
            is_fresh_batch(raws@, supervisor@),
    {
        Supervisor { tasks: fresh_tasks(raws) }
    }

    pub fn len(&self) -> (n: usize)
        ensures
            n == self@.len(),
    {
        self.tasks.len()
    }

    /// The task at position `index`, if the batch has that many.
    pub fn task(&self, index: usize) -> (task: Option<Task>)
        ensures
            task == (if index < self@.len() {
                Some(self@[index as int])
            } else {
                None
            }),
    {
        if index < self.tasks.len() {
            Some(self.tasks[index])
        } else {
            None
        }
    }

    /// Notes what has become of the listener at position `index`. The
    /// other listeners stay as they are. Says whether the batch has a
    /// listener at that position; if not, nothing changes.
    pub fn record(&mut self, index: usize, status: TaskStatus) -> (known: bool)
        ensures
            known == (index < old(self)@.len()),
            known ==> final(self)@ == old(self)@.update(
                index as int,
                Task { rule: old(self)@[index as int].rule, status },
            ),
            !known ==> final(self)@ == old(self)@,
    {
        if index < self.tasks.len() {
            let rule = self.tasks[index].rule;
            self.tasks.set(index, Task { rule, status });
            true
        } else {
            false
        }
    }

    /// Replaces the batch by the batch for the rules `raws`, and hands
    /// out the batch that ran until now, every listener of which is to be
    /// cancelled.
    pub fn restart(&mut self, raws: &[RawConfig]) -> (cancelled: Vec<Task>)
        ensures
            cancelled@ == old(self)@,
            is_fresh_batch(raws@, final(self)@),
    {
        let mut tasks = fresh_tasks(raws);
        std::mem::swap(&mut self.tasks, &mut tasks);
        tasks
    }
}

fn fresh_tasks(raws: &[RawConfig]) -> (tasks: Vec<Task>)
    ensures
        is_fresh_batch(raws@, tasks@),
{
    let rules = ProxyConfig::from_raw(raws);
    let mut tasks: Vec<Task> = Vec::new();
    let mut i: usize = 0;
    while i < rules.len()
        invariant
            i <= rules.len(),
            tasks@.len() == i,
            forall|j: int|
                0 <= j < i ==> (#[trigger] tasks@[j]) == (Task {
                    rule: rules@[j],
                    status: TaskStatus::Running,
                }),
        decreases rules.len() - i,
    {
        tasks.push(Task { rule: rules[i], status: TaskStatus::Running });
        i = i + 1;
    }
    assert(rules_of(tasks@) =~= rules@);
    tasks
}

/// After a restart the listeners are those of the new rules: a pair that
/// the new rules no longer stand for has no listener, and every pair that
/// they stand for has one.
pub proof fn lemma_fresh_batch_listens(raws: Seq<RawConfig>, tasks: Seq<Task>, p: ProxyConfig)
    requires
        is_fresh_batch(raws, tasks),
    ensures
        is_listening(tasks, p) <==> emitted(raws, p),
{
    let rules = rules_of(tasks);
    if is_listening(tasks, p) {
        let i = choose|i: int|
            0 <= i < tasks.len() && (#[trigger] tasks[i]).rule == p && tasks[i].status is Running;
        assert(rules[i] == p);
        assert(rules.contains(p));
    }
    if emitted(raws, p) {
        assert(rules.contains(p));
        let i = choose|i: int| 0 <= i < rules.len() && rules[i] == p;
        assert(tasks[i].rule == p);
    }
}

/// The end of one listener changes nothing for the others: after a note
/// on the listener at `index`, every other pair has a listener exactly if
/// it had one before.
pub proof fn lemma_record_isolated(tasks: Seq<Task>, index: int, status: TaskStatus, p: ProxyConfig)
    requires
        0 <= index < tasks.len(),
        p != tasks[index].rule,
    ensures
        is_listening(tasks.update(index, Task { rule: tasks[index].rule, status }), p)
            <==> is_listening(tasks, p),
{
    let after = tasks.update(index, Task { rule: tasks[index].rule, status });
    if is_listening(tasks, p) {
        let i = choose|i: int|
            0 <= i < tasks.len() && (#[trigger] tasks[i]).rule == p && tasks[i].status is Running;
        assert(after[i] == tasks[i]);
    }
    if is_listening(after, p) {
        let i = choose|i: int|
            0 <= i < after.len() && (#[trigger] after[i]).rule == p && after[i].status is Running;
        assert(after[i] == tasks[i]);
    }
}

} // verus!
