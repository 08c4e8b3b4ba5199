//! Forwarding rules: the raw records as they are written down, and the
//! concrete pairs of addresses that they stand for.
//!
//! A raw rule names an upstream host and either one port on each side or a
//! range of ports on each side. A rule with a range on each side pairs the
//! two ranges position by position, as far as the shorter one reaches.
//! Normalizing a list of raw rules gives every pair once, in ascending
//! order, whatever the order of the raw rules was.

use crate::addr::{ipv4_of_text, lemma_socket_rank, Ipv4Addr, SocketAddrV4};
use std::collections::BTreeSet;
use vstd::prelude::*;
use vstd::std_specs::btree::increasing_seq;
use vstd::std_specs::cmp::OrdSpec;

verus! {

/// The upstream port of a raw rule: one port, or an inclusive range.
#[derive(Debug, Clone, Copy, PartialEq, Eq, Structural)]
pub enum SourcePortOptions {
    Range { start: u16, end: u16 },
    Single(u16),
}

/// The listening port of a raw rule: one port, or an inclusive range.
#[derive(Debug, Clone, Copy, PartialEq, Eq, Structural)]
pub enum TargetPortOptions {
    Range { start: u16, end: u16 },
    Single(u16),
}

/// A forwarding rule as it is written down.
#[derive(Debug, Clone)]
pub struct RawConfig {
    pub ip: String,
    pub port: SourcePortOptions,
    pub target_port: TargetPortOptions,
}

/// One concrete forwarding: connections accepted on `target_addr` are
/// relayed to `source_addr`.
#[derive(Debug, Clone, Copy, PartialEq, Eq, Structural)]
pub struct ProxyConfig {
    pub source_addr: SocketAddrV4,
    pub target_addr: SocketAddrV4,
}

/// What is to be said of one raw rule.
#[derive(Debug, Clone, Copy, PartialEq, Eq, Structural)]
pub enum RuleStatus {
    /// The rule stands for every pair it names.
    Valid,
    /// Both sides are ranges of different lengths: the positions that the
    /// shorter range lacks are left out.
    RangesTruncated,
    /// The host is no IPv4 address: the rule stands for nothing.
    InvalidIp,
    /// One side is a single port and the other a range: the rule stands
    /// for nothing.
    MismatchedPorts,
}

/// The number of ports in the inclusive range from `start` to `end`.
pub open spec fn range_len(start: u16, end: u16) -> int {
    if start <= end {
        end - start + 1
    } else {
        0
    }
}

pub open spec fn min_int(x: int, y: int) -> int {
    if x <= y {
        x
    } else {
        y
    }
}

/// The forwarding from the wildcard address at `target_port` to `ip` at
/// `source_port`.
pub open spec fn forwarding(ip: Ipv4Addr, source_port: u16, target_port: u16) -> ProxyConfig {
    ProxyConfig {
        source_addr: SocketAddrV4 { ip, port: source_port },
        target_addr: SocketAddrV4 { ip: Ipv4Addr { a: 0, b: 0, c: 0, d: 0 }, port: target_port },
    }
}

/// The pairs that a rule with a valid host `ip` stands for, in the order
/// of their positions.
pub open spec fn port_pairs(
    ip: Ipv4Addr,
    port: SourcePortOptions,
    target_port: TargetPortOptions,
) -> Seq<ProxyConfig> {
    match (port, target_port) {
        (SourcePortOptions::Single(s), TargetPortOptions::Single(t)) => seq![forwarding(ip, s, t)],
        (
            SourcePortOptions::Range { start: s_start, end: s_end },
            TargetPortOptions::Range { start: t_start, end: t_end },
        ) => Seq::new(
            min_int(range_len(s_start, s_end), range_len(t_start, t_end)) as nat,
            |k: int| forwarding(ip, (s_start + k) as u16, (t_start + k) as u16),
        ),
        _ => Seq::empty(),
    }
}

impl Default for SourcePortOptions {
    fn default() -> (r: Self)
        ensures
            r == (SourcePortOptions::Range { start: 0, end: 0 }),
    {
        SourcePortOptions::Range { start: 0, end: 0 }
    }
}

impl Default for TargetPortOptions {
    fn default() -> (r: Self)
        ensures
            r == (TargetPortOptions::Range { start: 0, end: 0 }),
    {
        TargetPortOptions::Range { start: 0, end: 0 }
    }
}

impl Default for RawConfig {
    /// The blank rule that serves as an example record: no host, and the
    /// range from port 0 to port 0 on each side.
    fn default() -> (r: Self)
        ensures
            r.ip@ == Seq::<char>::empty(),
            r.port == (SourcePortOptions::Range { start: 0, end: 0 }),
            r.target_port == (TargetPortOptions::Range { start: 0, end: 0 }),
    {
        RawConfig {
            ip: String::new(),
            port: SourcePortOptions::Range { start: 0, end: 0 },
            target_port: TargetPortOptions::Range { start: 0, end: 0 },
        }
    }
}

impl RawConfig {
    /// The pairs that the rule stands for, in the order of their
    /// positions; none where the host is no address or the two sides are
    /// of different kinds.
    pub open spec fn pairs(&self) -> Seq<ProxyConfig> {
        match ipv4_of_text(self.ip@) {
            Some(ip) => port_pairs(ip, self.port, self.target_port),
            None => Seq::empty(),
        }
    }

    /// What is to be said of the rule.
    pub open spec fn spec_status(&self) -> RuleStatus {
        if ipv4_of_text(self.ip@) is None {
            RuleStatus::InvalidIp
        } else {
            match (self.port, self.target_port) {
                (SourcePortOptions::Single(_), TargetPortOptions::Single(_)) => RuleStatus::Valid,
                (
                    SourcePortOptions::Range { start: s_start, end: s_end },
                    TargetPortOptions::Range { start: t_start, end: t_end },
                ) => if range_len(s_start, s_end) == range_len(t_start, t_end) {
                    RuleStatus::Valid
                } else {
                    RuleStatus::RangesTruncated
                },
                _ => RuleStatus::MismatchedPorts,
            }
        }
    }

    pub fn new(ip: String, port: SourcePortOptions, target_port: TargetPortOptions) -> (r: Self)
        ensures
            r.ip == ip,
            r.port == port,
            r.target_port == target_port,
    {
        RawConfig { ip, port, target_port }
    }

    /// Tells whether the rule is valid, and if not, what is wrong with it.
    pub fn status(&self) -> (s: RuleStatus)
        ensures
            s == self.spec_status(),
    {
        if Ipv4Addr::parse(self.ip.as_str()).is_none() {
            return RuleStatus::InvalidIp;
        }
        match self.port {
            SourcePortOptions::Single(_) => match self.target_port {
                TargetPortOptions::Single(_) => RuleStatus::Valid,
                TargetPortOptions::Range { .. } => RuleStatus::MismatchedPorts,
            },
            SourcePortOptions::Range { start: s_start, end: s_end } => match self.target_port {
                TargetPortOptions::Single(_) => RuleStatus::MismatchedPorts,
                TargetPortOptions::Range { start: t_start, end: t_end } => {
                    if range_count(s_start, s_end) == range_count(t_start, t_end) {
                        RuleStatus::Valid
                    } else {
                        RuleStatus::RangesTruncated
                    }
                },
            },
        }
    }

    /// Lists the pairs that the rule stands for.
    pub fn expand(&self) -> (pairs: Vec<ProxyConfig>)
        ensures
            pairs@ == self.pairs(),
    {
        let ip = match Ipv4Addr::parse(self.ip.as_str()) {
            Some(ip) => ip,
            None => { return Vec::new(); },
        };
        match self.port {
            SourcePortOptions::Single(s) => match self.target_port {
                TargetPortOptions::Single(t) => {
                    let mut pairs = Vec::new();
                    pairs.push(make_forwarding(ip, s, t));
                    assert(pairs@ =~= self.pairs());
                    pairs
                },
                TargetPortOptions::Range { .. } => Vec::new(),
            },
            SourcePortOptions::Range { start: s_start, end: s_end } => match self.target_port {
                TargetPortOptions::Single(_) => Vec::new(),
                TargetPortOptions::Range { start: t_start, end: t_end } => {
                    let s_count = range_count(s_start, s_end);
                    let t_count = range_count(t_start, t_end);
                    let count = if s_count <= t_count {
                        s_count
                    } else {
                        t_count
                    };
                    let mut pairs: Vec<ProxyConfig> = Vec::new();
                    let mut k: u32 = 0;
                    while k < count
                        invariant
                            k <= count,
                            count == min_int(range_len(s_start, s_end), range_len(t_start, t_end)),
                            pairs@.len() == k,
                            forall|j: int|
                                0 <= j < k ==> pairs@[j] == forwarding(
                                    ip,
                                    (s_start + j) as u16,
                                    (t_start + j) as u16,
                                ),
                        decreases count - k,
                    {
                        let s = (s_start as u32 + k) as u16;
                        let t = (t_start as u32 + k) as u16;
                        pairs.push(make_forwarding(ip, s, t));
                        k = k + 1;
                    }
                    assert(pairs@ =~= self.pairs());
                    pairs
                },
            },
        }
    }
}

/// Counts the ports in the inclusive range from `start` to `end`.
fn range_count(start: u16, end: u16) -> (n: u32)
    ensures
        n == range_len(start, end),
{
    if start <= end {
        (end - start) as u32 + 1
    } else {
        0
    }
}

fn make_forwarding(ip: Ipv4Addr, source_port: u16, target_port: u16) -> (p: ProxyConfig)
    ensures
        p == forwarding(ip, source_port, target_port),
{
    ProxyConfig::new(
        (SocketAddrV4::new(ip, source_port), SocketAddrV4::new(Ipv4Addr::unspecified(), target_port)),
    )
}

/// A pair is among those that the raw rules stand for.
pub open spec fn emitted(raws: Seq<RawConfig>, p: ProxyConfig) -> bool {
    exists|i: int| 0 <= i < raws.len() && #[trigger] raws[i].pairs().contains(p)
}

/// Each pair stands before every later one.
pub open spec fn ascending(rules: Seq<ProxyConfig>) -> bool {
    forall|i: int, j: int| 0 <= i < j < rules.len() ==> rules[i].precedes(rules[j])
}

/// `rules` is the normal form of `raws`: it holds exactly the pairs that
/// the raw rules stand for, in ascending order, and so each of them once.
pub open spec fn is_normal_form(raws: Seq<RawConfig>, rules: Seq<ProxyConfig>) -> bool {
    &&& ascending(rules)
    &&& forall|p: ProxyConfig| rules.contains(p) <==> emitted(raws, p)
}

/// In an ascending list, all but the last pair are the pairs of the list
/// other than the last, and they ascend.
proof fn lemma_drop_last(x: Seq<ProxyConfig>)
    requires
        ascending(x),
        x.len() > 0,
    ensures
        ascending(x.drop_last()),
        forall|p: ProxyConfig| x.drop_last().contains(p) <==> x.contains(p) && p != x.last(),
{
    let front = x.drop_last();
    assert forall|p: ProxyConfig| front.contains(p) <==> x.contains(p) && p != x.last() by {
        if front.contains(p) {
            let i = choose|i: int| 0 <= i < front.len() && front[i] == p;
            assert(x[i] == p);
            assert(x[i].precedes(x[x.len() - 1]));
            lemma_key(p, x.last());
        }
        if x.contains(p) && p != x.last() {
            let i = choose|i: int| 0 <= i < x.len() && x[i] == p;
            assert(front[i] == p);
        }
    }
    assert forall|i: int, j: int| 0 <= i < j < front.len() implies front[i].precedes(front[j]) by {
        assert(x[i].precedes(x[j]));
    }
}

/// Two ascending lists of the same pairs are the same list.
pub proof fn lemma_ascending_unique(x: Seq<ProxyConfig>, y: Seq<ProxyConfig>)
    requires
        ascending(x),
        ascending(y),
        forall|p: ProxyConfig| x.contains(p) <==> y.contains(p),
    ensures
        x == y,
    decreases x.len(),
{
    if x.len() == 0 {
        if y.len() > 0 {
            assert(y.contains(y[0]));
        }
        assert(x =~= y);
    } else {
        assert(x.contains(x.last())) by {
            assert(x[x.len() - 1] == x.last());
        }
        assert(y.len() > 0);
        assert(y.contains(y.last())) by {
            assert(y[y.len() - 1] == y.last());
        }
        let i = choose|i: int| 0 <= i < x.len() && x[i] == y.last();
        let j = choose|j: int| 0 <= j < y.len() && y[j] == x.last();
        lemma_key(x.last(), y.last());
        lemma_key(y.last(), x.last());
        if i < x.len() - 1 {
            assert(x[i].precedes(x[x.len() - 1]));
        }
        if j < y.len() - 1 {
            assert(y[j].precedes(y[y.len() - 1]));
        }
        assert(x.last() == y.last());
        lemma_drop_last(x);
        lemma_drop_last(y);
        assert forall|p: ProxyConfig| x.drop_last().contains(p) <==> y.drop_last().contains(p) by {
            assert(x.contains(p) <==> y.contains(p));
        }
        lemma_ascending_unique(x.drop_last(), y.drop_last());
        assert(x =~= x.drop_last().push(x.last()));
        assert(y =~= y.drop_last().push(y.last()));
    }
}

/// A list of raw rules has one normal form.
pub proof fn lemma_normal_form_unique(
    raws: Seq<RawConfig>,
    x: Seq<ProxyConfig>,
    y: Seq<ProxyConfig>,
)
    requires
        is_normal_form(raws, x),
        is_normal_form(raws, y),
    ensures
        x == y,
{
    lemma_ascending_unique(x, y);
}

/// The normal form does not depend on the order of the raw rules: two
/// lists that hold the same raw rules, each as often, have the same
/// normal form.
pub proof fn lemma_normal_form_of_permutation(
    raws: Seq<RawConfig>,
    permuted: Seq<RawConfig>,
    x: Seq<ProxyConfig>,
    y: Seq<ProxyConfig>,
)
    requires
        raws.to_multiset() == permuted.to_multiset(),
        is_normal_form(raws, x),
        is_normal_form(permuted, y),
    ensures
        x == y,
{
    assert forall|p: ProxyConfig| emitted(raws, p) <==> emitted(permuted, p) by {
        if emitted(raws, p) {
            lemma_emitted_of_contained(raws, permuted, p);
        }
        if emitted(permuted, p) {
            lemma_emitted_of_contained(permuted, raws, p);
        }
    }
    lemma_ascending_unique(x, y);
}

/// What the raw rules of one list stand for, the raw rules of every list
/// that holds them all stand for too.
proof fn lemma_emitted_of_contained(raws: Seq<RawConfig>, other: Seq<RawConfig>, p: ProxyConfig)
    requires
        raws.to_multiset() == other.to_multiset(),
        emitted(raws, p),
    ensures
        emitted(other, p),
{
    broadcast use vstd::seq_lib::group_to_multiset_ensures;

    let i = choose|i: int| 0 <= i < raws.len() && #[trigger] raws[i].pairs().contains(p);
    assert(raws.contains(raws[i]));
    assert(raws.to_multiset().count(raws[i]) > 0);
    assert(other.contains(raws[i]));
    let j = choose|j: int| 0 <= j < other.len() && other[j] == raws[i];
    assert(other[j].pairs().contains(p));
}

/// No pair stands twice in a normal form, however many raw rules stand
/// for it.
pub proof fn lemma_normal_form_no_duplicates(raws: Seq<RawConfig>, rules: Seq<ProxyConfig>)
    requires
        is_normal_form(raws, rules),
    ensures
        rules.no_duplicates(),
{
    assert forall|i: int, j: int| 0 <= i < rules.len() && 0 <= j < rules.len() && i != j implies rules[i]
        != rules[j] by {
        lemma_key(rules[i], rules[j]);
        lemma_key(rules[j], rules[i]);
        if i < j {
            assert(rules[i].precedes(rules[j]));
        } else {
            assert(rules[j].precedes(rules[i]));
        }
    }
}

/// A raw rule that stands for nothing changes no normal form: the other
/// rules of the list stand for what they stood for without it.
pub proof fn lemma_empty_rule_ignored(raws: Seq<RawConfig>, rule: RawConfig, rules: Seq<ProxyConfig>)
    requires
        rule.pairs().len() == 0,
        is_normal_form(raws, rules),
    ensures
        is_normal_form(raws.push(rule), rules),
{
    let longer = raws.push(rule);
    assert forall|p: ProxyConfig| emitted(raws, p) <==> emitted(longer, p) by {
        if emitted(raws, p) {
            let i = choose|i: int| 0 <= i < raws.len() && #[trigger] raws[i].pairs().contains(p);
            assert(longer[i].pairs().contains(p));
        }
        if emitted(longer, p) {
            let i = choose|i: int| 0 <= i < longer.len() && #[trigger] longer[i].pairs().contains(p);
            if i < raws.len() {
                assert(raws[i].pairs().contains(p));
            } else {
                assert(longer[i] == rule);
            }
        }
    }
}

/// How many pairs a raw rule stands for: none where it is refused, one
/// for a single port on each side, and for two ranges as many as the
/// shorter range has ports.
pub proof fn lemma_pair_count(rule: RawConfig)
    ensures
        rule.spec_status() is InvalidIp || rule.spec_status() is MismatchedPorts
            ==> rule.pairs().len() == 0,
        rule.spec_status() is RangesTruncated ==> rule.port is Range && rule.target_port is Range,
        ipv4_of_text(rule.ip@) is Some ==> match (rule.port, rule.target_port) {
            (SourcePortOptions::Single(_), TargetPortOptions::Single(_)) => rule.pairs().len() == 1,
            (
                SourcePortOptions::Range { start: s_start, end: s_end },
                TargetPortOptions::Range { start: t_start, end: t_end },
            ) => rule.pairs().len() == min_int(
                range_len(s_start, s_end),
                range_len(t_start, t_end),
            ),
            _ => rule.pairs().len() == 0,
        },
{
}

/// Some pair of the first `n` raw rules has the key `key`.
spec fn keyed(raws: Seq<RawConfig>, n: int, key: u128) -> bool {
    exists|j: int, k: int|
        0 <= j < n && 0 <= k < raws[j].pairs().len() && (#[trigger] raws[j].pairs()[k]).key()
            == key
}

/// The key of a pair orders it as `precedes` does, and no two pairs
/// share a key.
proof fn lemma_key(x: ProxyConfig, y: ProxyConfig)
    ensures
        0 <= x.key() < 0x1_0000_0000_0000_0000_0000_0000,
        x.precedes(y) <==> x.key() < y.key(),
        x.key() == y.key() ==> x == y,
{
    lemma_socket_rank(x.source_addr, y.source_addr);
    lemma_socket_rank(x.target_addr, y.target_addr);
}

/// What a set in key order hands out ascends.
proof fn lemma_increasing_keys(s: Seq<&u128>)
    requires
        increasing_seq(s),
    ensures
        forall|i: int, j: int| 0 <= i < j < s.len() ==> *s[i] < *s[j],
{
    broadcast use vstd::laws_cmp::group_laws_cmp;
    broadcast use vstd::std_specs::btree::group_btree_axioms;

    assert(vstd::laws_cmp::obeys_cmp::<u128>());
    assert(vstd::laws_cmp::obeys_cmp::<&u128>());
    assert forall|i: int, j: int| 0 <= i < j < s.len() implies *s[i] < *s[j] by {
        assert((&s[i]).cmp_spec(&s[j]) is Less);
    }
}

fn insert_key(set: &mut BTreeSet<u128>, key: u128)
    ensures
        final(set)@ == old(set)@.insert(key),
{
    broadcast use vstd::laws_cmp::group_laws_cmp;

    set.insert(key);
}

fn key_of(p: &ProxyConfig) -> (key: u128)
    ensures
        key == p.key(),
{
    let source: u64 = (p.source_addr.ip.to_bits() as u64) * 0x1_0000 + (p.source_addr.port as u64);
    let target: u64 = (p.target_addr.ip.to_bits() as u64) * 0x1_0000 + (p.target_addr.port as u64);
    (source as u128) * 0x1_0000_0000_0000 + (target as u128)
}

fn socket_of_rank(rank: u64) -> (addr: SocketAddrV4)
    requires
        rank < 0x1_0000_0000_0000,
    ensures
        addr.rank() == rank,
{
    SocketAddrV4::new(Ipv4Addr::from_bits((rank / 0x1_0000) as u32), (rank % 0x1_0000) as u16)
}

fn pair_of_key(key: u128) -> (p: ProxyConfig)
    requires
        key < 0x1_0000_0000_0000_0000_0000_0000,
    ensures
        p.key() == key,
{
    let source = socket_of_rank((key / 0x1_0000_0000_0000) as u64);
    let target = socket_of_rank((key % 0x1_0000_0000_0000) as u64);
    ProxyConfig::new((source, target))
}

/// Lists the pairs whose keys the set holds, in ascending order.
fn pairs_in_order(set: &BTreeSet<u128>) -> (rules: Vec<ProxyConfig>)
    requires
        forall|key: u128| set@.contains(key) ==> key < 0x1_0000_0000_0000_0000_0000_0000,
    ensures
        ascending(rules@),
        forall|p: ProxyConfig| rules@.contains(p) <==> set@.contains(p.key() as u128),
{
    let mut rules: Vec<ProxyConfig> = Vec::new();
    for key in it: set.iter()
        invariant
            rules@.len() == it.index(),
            forall|j: int| 0 <= j < rules@.len() ==> rules@[j].key() == *it.seq()[j],
            it.seq().unref().to_set() == set@,
            increasing_seq(it.seq()),
            forall|key: u128| set@.contains(key) ==> key < 0x1_0000_0000_0000_0000_0000_0000,
            ascending(rules@),
            it.index() == it.seq().len() ==> forall|p: ProxyConfig|
                rules@.contains(p) <==> set@.contains(p.key() as u128),
    {
        let ghost before = rules@;
        proof {
            lemma_increasing_keys(it.seq());
        }
        assert(set@.contains(*key)) by {
            assert(it.seq().unref()[it.index()] == *key);
            assert(it.seq().unref().to_set().contains(*key));
        }
        let pair = pair_of_key(*key);
        rules.push(pair);
        assert(ascending(rules@)) by {
            assert forall|i: int, j: int| 0 <= i < j < rules@.len() implies rules@[i].precedes(
                rules@[j],
            ) by {
                lemma_key(rules@[i], rules@[j]);
                assert(rules@[i] == before[i]);
                assert(rules@[i].key() == *it.seq()[i]);
                assert(rules@[j].key() == *it.seq()[j]);
                assert(*it.seq()[i] < *it.seq()[j]);
            }
        }
        assert(it.index() + 1 == it.seq().len() ==> forall|p: ProxyConfig|
            rules@.contains(p) <==> set@.contains(p.key() as u128)) by {
            if it.index() + 1 == it.seq().len() {
                let keys = it.seq().unref();
                assert forall|p: ProxyConfig| rules@.contains(p) <==> set@.contains(
                    p.key() as u128,
                ) by {
                    lemma_key(p, p);
                    if rules@.contains(p) {
                        let j = choose|j: int| 0 <= j < rules@.len() && rules@[j] == p;
                        assert(keys[j] == p.key());
                        assert(keys.to_set().contains(keys[j]));
                    }
                    if set@.contains(p.key() as u128) {
                        assert(keys.to_set().contains(p.key() as u128));
                        assert(keys.contains(p.key() as u128));
                        let j = choose|j: int| 0 <= j < keys.len() && keys[j] == p.key() as u128;
                        lemma_key(rules@[j], p);
                        assert(rules@[j] == p);
                    }
                }
            }
        }
    }
    rules
}

impl ProxyConfig {
    /// The order of pairs: by upstream address first, then by listening
    /// address.
    pub open spec fn precedes(self, other: ProxyConfig) -> bool {
        self.source_addr.precedes(other.source_addr) || (self.source_addr == other.source_addr
            && self.target_addr.precedes(other.target_addr))
    }

    /// The pair as one number that orders pairs as `precedes` does.
    spec fn key(self) -> int {
        self.source_addr.rank() * 0x1_0000_0000_0000 + self.target_addr.rank()
    }

    /// Normalizes a list of raw rules: every pair that one of them stands
    /// for, each once, in ascending order.
    pub fn from_raw(raw_config_list: &[RawConfig]) -> (rules: Vec<ProxyConfig>)
        ensures
            is_normal_form(raw_config_list@, rules@),
    {
        let ghost raws = raw_config_list@;
        let mut set: BTreeSet<u128> = BTreeSet::new();
        let mut i: usize = 0;
        while i < raw_config_list.len()
            invariant
                i <= raw_config_list.len(),
                raws == raw_config_list@,
                forall|key: u128| set@.contains(key) <==> keyed(raws, i as int, key),
            decreases raw_config_list.len() - i,
        {
            let pairs = raw_config_list[i].expand();
            let mut k: usize = 0;
            while k < pairs.len()
                invariant
                    k <= pairs.len(),
                    i < raw_config_list.len(),
                    raws == raw_config_list@,
                    pairs@ == raws[i as int].pairs(),
                    forall|key: u128|
                        set@.contains(key) <==> keyed(raws, i as int, key) || exists|m: int|
                            0 <= m < k && (#[trigger] pairs@[m]).key() == key,
                decreases pairs.len() - k,
            {
                insert_key(&mut set, key_of(&pairs[k]));
                k = k + 1;
            }
            proof {
                assert forall|key: u128| set@.contains(key) <==> keyed(raws, i + 1, key) by {
                    if keyed(raws, i + 1, key) {
                        let (j, m) = choose|j: int, m: int|
                            0 <= j < i + 1 && 0 <= m < raws[j].pairs().len() && (
                            #[trigger] raws[j].pairs()[m]).key() == key;
                        if j < i {
                            assert(keyed(raws, i as int, key));
                        } else {
                            assert(pairs@[m].key() == key);
                        }
                    }
                    if set@.contains(key) && !keyed(raws, i as int, key) {
                        let m = choose|m: int|
                            0 <= m < pairs@.len() && (#[trigger] pairs@[m]).key() == key;
                        assert(raws[i as int].pairs()[m].key() == key);
                    }
                }
            }
            i = i + 1;
        }
        proof {
            assert forall|key: u128| set@.contains(key) implies key
                < 0x1_0000_0000_0000_0000_0000_0000 by {
                let (j, m) = choose|j: int, m: int|
                    0 <= j < raws.len() && 0 <= m < raws[j].pairs().len() && (
                    #[trigger] raws[j].pairs()[m]).key() == key;
                lemma_key(raws[j].pairs()[m], raws[j].pairs()[m]);
            }
        }
        let rules = pairs_in_order(&set);
        proof {
            assert forall|p: ProxyConfig| rules@.contains(p) <==> emitted(raws, p) by {
                lemma_key(p, p);
                if emitted(raws, p) {
                    let j = choose|j: int|
                        0 <= j < raws.len() && #[trigger] raws[j].pairs().contains(p);
                    let m = choose|m: int| 0 <= m < raws[j].pairs().len() && raws[j].pairs()[m] == p;
                    assert(raws[j].pairs()[m].key() == p.key());
                    assert(keyed(raws, raws.len() as int, p.key() as u128));
                }
                if rules@.contains(p) {
                    let (j, m) = choose|j: int, m: int|
                        0 <= j < raws.len() && 0 <= m < raws[j].pairs().len() && (
                        #[trigger] raws[j].pairs()[m]).key() == p.key() as u128;
                    lemma_key(raws[j].pairs()[m], p);
                    assert(raws[j].pairs().contains(p));
                }
            }
        }
        rules
    }

    fn new(addrs: (SocketAddrV4, SocketAddrV4)) -> (p: ProxyConfig)
        ensures
            p.source_addr == addrs.0,
            p.target_addr == addrs.1,
    {
        ProxyConfig { source_addr: addrs.0, target_addr: addrs.1 }
    }
}

} // verus!
