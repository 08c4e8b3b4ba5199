//! Changes to the stored list of raw rules: rules are added at its end,
//! and the rules of one host are taken out wherever they stand.

use crate::rules::RawConfig;
use vstd::prelude::*;

verus! {

/// The rule is for a host other than `ip`.
pub open spec fn is_for_other_host(rule: RawConfig, ip: Seq<char>) -> bool {
    rule.ip@ != ip
}

/// The stored rules without those for the host `ip`.
pub open spec fn without_host(store: Seq<RawConfig>, ip: Seq<char>) -> Seq<RawConfig> {
    store.filter(|rule: RawConfig| is_for_other_host(rule, ip))
}

/// How a request to change the stored rules ended.
#[derive(Debug, Clone, Copy, PartialEq, Eq, Structural)]
pub enum MutationStatus {
    /// The changed rules are stored: the listeners are to be restarted.
    Applied,
    /// The stored rules could not be read.
    StoreUnreadable,
    /// The changed rules could not be written down.
    SerializeFailed,
    /// The changed rules could not be stored.
    WriteFailed,
}

/// The status of a request of which the steps went as told: the first
/// step that failed decides, and the later ones are not looked at.
pub open spec fn status_of(read: bool, serialized: bool, written: bool) -> MutationStatus {
    if !read {
        MutationStatus::StoreUnreadable
    } else if !serialized {
        MutationStatus::SerializeFailed
    } else if !written {
        MutationStatus::WriteFailed
    } else {
        MutationStatus::Applied
    }
}

impl MutationStatus {
    /// The text that answers the request.
    pub open spec fn text(self) -> Seq<char> {
        match self {
            MutationStatus::Applied => "rules updated"@,
            MutationStatus::StoreUnreadable => "unable to read the stored rules"@,
            MutationStatus::SerializeFailed => "unable to serialize the rules"@,
            MutationStatus::WriteFailed => "unable to write the rules"@,
        }
    }

    /// The status of a request of which the steps went as told.
    pub fn conclude(read: bool, serialized: bool, written: bool) -> (status: MutationStatus)
        ensures
            status == status_of(read, serialized, written),
    {
        if !read {
            MutationStatus::StoreUnreadable
        } else if !serialized {
            MutationStatus::SerializeFailed
        } else if !written {
            MutationStatus::WriteFailed
        } else {
            MutationStatus::Applied
        }
    }

    /// Whether the listeners are to be restarted: only after a change
    /// that was stored.
    pub fn fires_restart(&self) -> (fires: bool)
        ensures
            fires == (*self is Applied),
    {
        match self {
            MutationStatus::Applied => true,
            _ => false,
        }
    }

    /// The text that answers the request.
    pub fn message(&self) -> (text: &'static str)
        ensures
            text@ == self.text(),
    {
        match self {
            MutationStatus::Applied => "rules updated",
            MutationStatus::StoreUnreadable => "unable to read the stored rules",
            MutationStatus::SerializeFailed => "unable to serialize the rules",
            MutationStatus::WriteFailed => "unable to write the rules",
        }
    }
}

/// The listeners are restarted exactly when every step of the request
/// went well.
pub proof fn lemma_restart_only_when_stored(read: bool, serialized: bool, written: bool)
    ensures
        status_of(read, serialized, written) is Applied <==> read && serialized && written,
{
}

/// No two ways for a request to end are answered by the same text.
pub proof fn lemma_status_texts_differ(x: MutationStatus, y: MutationStatus)
    requires
        x != y,
    ensures
        x.text() != y.text(),
{
    reveal_strlit("rules updated");
    reveal_strlit("unable to read the stored rules");
    reveal_strlit("unable to serialize the rules");
    reveal_strlit("unable to write the rules");
    assert("rules updated"@.len() == 13);
    assert("unable to read the stored rules"@.len() == 31);
    assert("unable to serialize the rules"@.len() == 29);
    assert("unable to write the rules"@.len() == 25);
}

/// Adds `new_rules` at the end of the stored rules, in their order.
pub fn add_rules(store: Vec<RawConfig>, new_rules: Vec<RawConfig>) -> (changed: Vec<RawConfig>)
    ensures
        changed@ == store@ + new_rules@,
{
    let mut changed = store;
    let mut added = new_rules;
    changed.append(&mut added);
    changed
}

/// Takes every rule for the host `ip` out of the stored rules, however
/// often it stands there. The other rules keep their order.
pub fn remove_rules(store: Vec<RawConfig>, ip: &str) -> (changed: Vec<RawConfig>)
    ensures
        changed@ == without_host(store@, ip@),
{
    let host = ip.to_owned();
    let ghost all = store@;
    let ghost pred = |rule: RawConfig| is_for_other_host(rule, ip@);
    let mut changed: Vec<RawConfig> = Vec::new();
    proof {
        reveal(Seq::filter);
        assert(all.take(0) =~= Seq::<RawConfig>::empty());
    }
    for rule in it: store.into_iter()
        invariant
            it.seq() == all,
            host@ == ip@,
            pred == (|rule: RawConfig| is_for_other_host(rule, ip@)),
            changed@ == all.take(it.index()).filter(pred),
            it.index() == it.seq().len() ==> changed@ == all.filter(pred),
    {
        proof {
            reveal(Seq::filter);
            assert(all.take(it.index() + 1).drop_last() =~= all.take(it.index()));
            assert(all.take(it.index() + 1).last() == rule);
        }
        if rule.ip != host {
            changed.push(rule);
        }
        assert(it.index() + 1 == it.seq().len() ==> all.take(it.index() + 1) =~= all);
    }
    changed
}

/// After the rules of a host were taken out, none of them is left, and
/// every rule of another host is still there.
pub proof fn lemma_removed_host_is_gone(store: Seq<RawConfig>, ip: Seq<char>, rule: RawConfig)
    ensures
        without_host(store, ip).contains(rule) <==> store.contains(rule) && rule.ip@ != ip,
{
    let pred = |rule: RawConfig| is_for_other_host(rule, ip);
    if without_host(store, ip).contains(rule) {
        let i = choose|i: int| 0 <= i < store.filter(pred).len() && store.filter(pred)[i] == rule;
        store.lemma_filter_pred(pred, i);
        store.lemma_filter_contains_rev(pred, rule);
    }
    if store.contains(rule) && rule.ip@ != ip {
        let i = choose|i: int| 0 <= i < store.len() && store[i] == rule;
        store.lemma_filter_contains(pred, i);
    }
}

/// Taking the rules of a host out a second time changes nothing.
pub proof fn lemma_remove_twice(store: Seq<RawConfig>, ip: Seq<char>)
    ensures
        without_host(without_host(store, ip), ip) == without_host(store, ip),
    decreases store.len(),
{
    let pred = |rule: RawConfig| is_for_other_host(rule, ip);
    reveal(Seq::filter);
    if store.len() > 0 {
        lemma_remove_twice(store.drop_last(), ip);
        let front = store.drop_last().filter(pred);
        if pred(store.last()) {
            assert(front.push(store.last()).drop_last() =~= front);
        }
    }
}

} // verus!
