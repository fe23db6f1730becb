use vstd::prelude::*;

verus! {

/// Failures a node may take before it is put in cooldown.
pub const FAILURE_THRESHOLD: usize = 3;

/// Length of a cooldown, in milliseconds.
pub const COOLDOWN_MILLIS: u64 = 60000;

/// What a node is: its address, its failure count and its cooldown deadline
/// (milliseconds since the epoch).
pub struct NodeView {
    pub url: Seq<char>,
    pub failures: nat,
    pub cooldown: Option<u64>,
}

/// What a pool is: its nodes in rotation order and the rotation cursor.
pub struct PoolView {
    pub nodes: Seq<NodeView>,
    pub index: int,
}

/// A node is cooling at `now` while its deadline lies in the future.
pub open spec fn cooling(n: NodeView, now: u64) -> bool {
    match n.cooldown {
        Some(d) => now < d,
        None => false,
    }
}

/// The position of the node `j` steps after the cursor.
pub open spec fn slot(v: PoolView, j: int) -> int {
    (v.index + j) % (v.nodes.len() as int)
}

/// The first offset at or after `j` (and before a full cycle) whose node is
/// not cooling.
pub open spec fn free_offset(v: PoolView, now: u64, j: int) -> Option<int>
    decreases v.nodes.len() - j,
{
    if j < 0 || j >= v.nodes.len() {
        None
    } else if !cooling(v.nodes[slot(v, j)], now) {
        Some(j)
    } else {
        free_offset(v, now, j + 1)
    }
}

/// A node as it is handed out: an expired cooldown is cleared together with
/// the failure count.
pub open spec fn refreshed(n: NodeView) -> NodeView {
    if n.cooldown is Some {
        NodeView { url: n.url, failures: 0, cooldown: None }
    } else {
        n
    }
}

/// The pool after handing out the node at offset `j`.
pub open spec fn picked(v: PoolView, j: int) -> PoolView {
    let k = slot(v, j);
    PoolView {
        nodes: v.nodes.update(k, refreshed(v.nodes[k])),
        index: (k + 1) % (v.nodes.len() as int),
    }
}

/// What `next` does at time `now`: the pool afterwards and the address handed out.
pub open spec fn next_spec(v: PoolView, now: u64) -> (PoolView, Option<Seq<char>>) {
    match free_offset(v, now, 0) {
        None => (v, None),
        Some(j) => (picked(v, j), Some(v.nodes[slot(v, j)].url)),
    }
}

/// The first position whose node has address `url`, if any.
pub open spec fn find_url(nodes: Seq<NodeView>, url: Seq<char>, from: int) -> Option<int>
    decreases nodes.len() - from,
{
    if from < 0 || from >= nodes.len() {
        None
    } else if nodes[from].url == url {
        Some(from)
    } else {
        find_url(nodes, url, from + 1)
    }
}

/// `now + COOLDOWN_MILLIS`, held at the largest time.
pub open spec fn deadline_after(now: u64) -> u64 {
    if now as int + COOLDOWN_MILLIS as int > u64::MAX as int {
        u64::MAX
    } else {
        (now + COOLDOWN_MILLIS) as u64
    }
}

/// A node after one more failure at time `now` (the count stops at the
/// largest `usize`).
pub open spec fn failed(n: NodeView, now: u64) -> NodeView {
    let f = if n.failures < usize::MAX {
        n.failures + 1
    } else {
        n.failures
    };
    NodeView {
        url: n.url,
        failures: f,
        cooldown: if f > FAILURE_THRESHOLD {
            Some(deadline_after(now))
        } else {
            n.cooldown
        },
    }
}

/// What `report_failure` does at time `now`.
pub open spec fn failure_spec(v: PoolView, url: Seq<char>, now: u64) -> PoolView {
    match find_url(v.nodes, url, 0) {
        None => v,
        Some(k) => PoolView { nodes: v.nodes.update(k, failed(v.nodes[k], now)), index: v.index },
    }
}

/// What `report_success` does.
pub open spec fn success_spec(v: PoolView, url: Seq<char>) -> PoolView {
    match find_url(v.nodes, url, 0) {
        None => v,
        Some(k) => PoolView {
            nodes: v.nodes.update(
                k,
                NodeView { url: v.nodes[k].url, failures: 0, cooldown: v.nodes[k].cooldown },
            ),
            index: v.index,
        },
    }
}

struct Node {
    url: String,
    failures: usize,
    cooldown_until: Option<u64>,
}

impl Node {
    closed spec fn view(&self) -> NodeView {
        NodeView { url: self.url@, failures: self.failures as nat, cooldown: self.cooldown_until }
    }
}

proof fn lemma_mod_succ(k: int, n: int)
    requires
        0 <= k < n,
    ensures
        (k + 1) % n == if k + 1 == n {
            0
        } else {
            k + 1
        },
{
    if k + 1 == n {
        vstd::arithmetic::div_mod::lemma_mod_self_0(n);
    } else {
        vstd::arithmetic::div_mod::lemma_small_mod((k + 1) as nat, n as nat);
    }
}

/// Relies on `SystemTime::elapsed` from the epoch: the wall-clock time in
/// milliseconds. Nothing is promised of its value.
#[verifier::external_body]
fn clock_millis() -> (r: u64) {
    std::time::UNIX_EPOCH.elapsed().map_or(0, |d| d.as_millis() as u64)
}

/// The egress node pool: a fixed rotation of proxy endpoints with their
/// failure counts and cooldown deadlines.
pub struct GridManager {
    nodes: Vec<Node>,
    index: usize,
}

impl View for GridManager {
    type V = PoolView;

    closed spec fn view(&self) -> PoolView {
        PoolView { nodes: self.nodes@.map_values(|n: Node| n.view()), index: self.index as int }
    }
}

impl GridManager {
    /// The cursor points into the rotation, or is 0 when the rotation is empty.
    pub closed spec fn wf(&self) -> bool {
        &&& (self.nodes@.len() == 0 ==> self.index == 0)
        &&& (self.nodes@.len() > 0 ==> self.index < self.nodes@.len())
    }

    /// A pool of the given addresses, in that order, all healthy, with the
    /// cursor on the first.
    pub fn new(proxies: Vec<String>) -> (r: GridManager)
        ensures
            r.wf(),
            r@.index == 0,
            r@.nodes.len() == proxies@.len(),
            forall|i: int|
                0 <= i < proxies@.len() ==> #[trigger] r@.nodes[i] == (NodeView {
                    url: proxies@[i]@,
                    failures: 0,
                    cooldown: None,
                }),
    {
        let mut nodes: Vec<Node> = Vec::new();
        let mut i: usize = 0;
        while i < proxies.len()
            invariant
                i <= proxies@.len(),
                nodes@.len() == i,
                forall|k: int|
                    0 <= k < i ==> #[trigger] nodes@[k].view() == (NodeView {
                        url: proxies@[k]@,
                        failures: 0,
                        cooldown: None,
                    }),
            decreases proxies@.len() - i,
        {
            nodes.push(Node { url: proxies[i].clone(), failures: 0, cooldown_until: None });
            i = i + 1;
        }
        GridManager { nodes, index: 0 }
    }

    /// Hands out the next node in rotation that is not cooling at time `now`,
    /// clearing an expired cooldown and its failure count; scans at most one
    /// full cycle and returns `None` when every node is cooling or there is none.
    pub fn next_at(&mut self, now: u64) -> (r: Option<String>)
        requires
            old(self).wf(),
        ensures
            final(self).wf(),
            final(self)@ == next_spec(old(self)@, now).0,
            r is None <==> next_spec(old(self)@, now).1 is None,
            r is Some ==> next_spec(old(self)@, now).1 == Some(r->0@),
    {
        let n = self.nodes.len();
        if n == 0 {
            return None;
        }
        let ghost v = self@;
        let start = self.index;
        let mut j: usize = 0;
        let mut k: usize = start;
        proof {
            vstd::arithmetic::div_mod::lemma_small_mod(start as nat, n as nat);
        }
        while j < n
            invariant
                self@ == v,
                old(self)@ == v,
                self.wf(),
                n == v.nodes.len(),
                n > 0,
                start == v.index,
                j <= n,
                j < n ==> k == slot(v, j as int),
                k < n,
                free_offset(v, now, 0) == free_offset(v, now, j as int),
            decreases n - j,
        {
            let cooling_now = match self.nodes[k].cooldown_until {
                Some(d) => now < d,
                None => false,
            };
            assert(self.nodes@[k as int].view() == v.nodes[k as int]);
            if !cooling_now {
                let url = self.nodes[k].url.clone();
                if self.nodes[k].cooldown_until.is_some() {
                    let fresh = Node { url: self.nodes[k].url.clone(), failures: 0, cooldown_until: None };
                    self.nodes.set(k, fresh);
                }
                self.index = if k + 1 == n {
                    0
                } else {
                    k + 1
                };
                proof {
                    assert(free_offset(v, now, j as int) == Some(j as int));
                    let p = picked(v, j as int);
                    assert(k as int == slot(v, j as int));
                    assert(refreshed(v.nodes[k as int]) == self.nodes@[k as int].view());
                    assert(self@.nodes =~= p.nodes);
                    lemma_mod_succ(k as int, n as int);
                    assert(self@.index == p.index);
                    assert(self@ == p);
                    assert(next_spec(v, now).0 == p);
                    assert(url@ == v.nodes[slot(v, j as int)].url);
                }
                return Some(url);
            }
            proof {
                vstd::arithmetic::div_mod::lemma_add_mod_noop(v.index + j, 1, n as int);
                if n > 1 {
                    vstd::arithmetic::div_mod::lemma_small_mod(1, n as nat);
                } else {
                    vstd::arithmetic::div_mod::lemma_mod_self_0(1);
                }
                lemma_mod_succ(k as int, n as int);
            }
            j = j + 1;
            k = if k + 1 == n {
                0
            } else {
                k + 1
            };
        }
        None
    }

    /// Hands out the next eligible node, judged at the current time.
    pub fn get_next_node(&mut self) -> (r: Option<String>)
        requires
            old(self).wf(),
        ensures
            final(self).wf(),
            exists|now: u64|
                {
                    &&& final(self)@ == next_spec(old(self)@, now).0
                    &&& (r is None <==> next_spec(old(self)@, now).1 is None)
                    &&& (r is Some ==> next_spec(old(self)@, now).1 == Some(r->0@))
                },
    {
        let now = clock_millis();
        self.next_at(now)
    }

    /// The position of the first node with address `url`.
    fn position_of(&self, url: &str) -> (r: Option<usize>)
        ensures
            match r {
                Option::None => find_url(self@.nodes, url@, 0) is None,
                Option::Some(k) => k < self.nodes@.len() && find_url(self@.nodes, url@, 0) == Some(
                    k as int,
                ),
            },
    {
        let target = String::from_str(url);
        let mut i: usize = 0;
        while i < self.nodes.len()
            invariant
                i <= self.nodes@.len(),
                target@ == url@,
                find_url(self@.nodes, url@, 0) == find_url(self@.nodes, url@, i as int),
            decreases self.nodes@.len() - i,
        {
            assert(self.nodes@[i as int].view() == self@.nodes[i as int]);
            if self.nodes[i].url == target {
                return Some(i);
            }
            i = i + 1;
        }
        None
    }

    /// Counts one more failure of the node with address `url` at time `now`;
    /// past the threshold the node goes into cooldown until `now` plus the
    /// cooldown length. An unknown address changes nothing.
    pub fn report_failure_at(&mut self, proxy_url: &str, now: u64)
        requires
            old(self).wf(),
        ensures
            final(self).wf(),
            final(self)@ == failure_spec(old(self)@, proxy_url@, now),
    {
        match self.position_of(proxy_url) {
            None => {},
            Some(k) => {
                let old_node = &self.nodes[k];
                let failures = if old_node.failures < usize::MAX {
                    old_node.failures + 1
                } else {
                    old_node.failures
                };
                let cooldown_until = if failures > FAILURE_THRESHOLD {
                    Some(
                        if now <= u64::MAX - COOLDOWN_MILLIS {
                            now + COOLDOWN_MILLIS
                        } else {
                            u64::MAX
                        },
                    )
                } else {
                    old_node.cooldown_until
                };
                let node = Node { url: old_node.url.clone(), failures, cooldown_until };
                let ghost v = self@;
                self.nodes.set(k, node);
                proof {
                    assert(self@.nodes =~= v.nodes.update(k as int, failed(v.nodes[k as int], now)));
                }
            },
        }
    }

    /// Counts one more failure of the node with address `proxy_url`, at the
    /// current time.
    pub fn report_failure(&mut self, proxy_url: &str)
        requires
            old(self).wf(),
        ensures
            final(self).wf(),
            exists|now: u64| final(self)@ == failure_spec(old(self)@, proxy_url@, now),
    {
        let now = clock_millis();
        self.report_failure_at(proxy_url, now);
    }

    /// Clears the failure count of the node with address `proxy_url`; its
    /// cooldown, if any, stays.
    pub fn report_success(&mut self, proxy_url: &str)
        requires
            old(self).wf(),
        ensures
            final(self).wf(),
            final(self)@ == success_spec(old(self)@, proxy_url@),
    {
        match self.position_of(proxy_url) {
            None => {},
            Some(k) => {
                let node = Node {
                    url: self.nodes[k].url.clone(),
                    failures: 0,
                    cooldown_until: self.nodes[k].cooldown_until,
                };
                let ghost v = self@;
                self.nodes.set(k, node);
                proof {
                    assert(self@.nodes =~= success_spec(v, proxy_url@).nodes);
                }
            },
        }
    }
}

/// The pool and the answers after one `next` call at each of the given times.
pub open spec fn run_next(v: PoolView, times: Seq<u64>) -> (PoolView, Seq<Option<Seq<char>>>)
    decreases times.len(),
{
    if times.len() == 0 {
        (v, Seq::empty())
    } else {
        let first = next_spec(v, times[0]);
        let rest = run_next(first.0, times.drop_first());
        (rest.0, seq![first.1] + rest.1)
    }
}

/// The pool after one failure report for `url` at each of the given times.
pub open spec fn run_failures(v: PoolView, url: Seq<char>, times: Seq<u64>) -> PoolView
    decreases times.len(),
{
    if times.len() == 0 {
        v
    } else {
        run_failures(failure_spec(v, url, times[0]), url, times.drop_first())
    }
}

proof fn lemma_free_offset_skip(v: PoolView, now: u64, m: int, j: int)
    requires
        0 <= m <= j <= v.nodes.len(),
        forall|x: int| m <= x < j ==> cooling(#[trigger] v.nodes[slot(v, x)], now),
    ensures
        free_offset(v, now, m) == free_offset(v, now, j),
    decreases j - m,
{
    if m < j {
        lemma_free_offset_skip(v, now, m + 1, j);
    }
}

/// A node handed out by `next` is never one that is cooling.
pub proof fn lemma_next_skips_cooling(v: PoolView, now: u64)
    requires
        0 <= v.index,
    ensures
        match free_offset(v, now, 0) {
            Option::None => true,
            Option::Some(j) => 0 <= j < v.nodes.len() && !cooling(v.nodes[slot(v, j)], now),
        },
{
    lemma_free_offset_found(v, now, 0);
}

proof fn lemma_free_offset_found(v: PoolView, now: u64, m: int)
    requires
        0 <= m,
    ensures
        match free_offset(v, now, m) {
            Option::None => forall|x: int| m <= x < v.nodes.len() ==> cooling(#[trigger] v.nodes[slot(v, x)], now),
            Option::Some(j) => m <= j < v.nodes.len() && !cooling(v.nodes[slot(v, j)], now),
        },
    decreases v.nodes.len() - m,
{
    if m < v.nodes.len() {
        lemma_free_offset_found(v, now, m + 1);
    }
}

/// When every node is cooling, `next` answers "none available" after at most
/// one cycle of the rotation and leaves the pool as it was.
pub proof fn lemma_all_cooling_none(v: PoolView, now: u64)
    requires
        0 <= v.index,
        forall|i: int| 0 <= i < v.nodes.len() ==> cooling(#[trigger] v.nodes[i], now),
    ensures
        next_spec(v, now) == (v, Option::<Seq<char>>::None),
{
    if v.nodes.len() > 0 {
        assert forall|x: int| 0 <= x < v.nodes.len() implies cooling(#[trigger] v.nodes[slot(v, x)], now) by {
            assert(0 <= slot(v, x) < v.nodes.len());
        }
    }
    lemma_free_offset_skip(v, now, 0, v.nodes.len() as int);
}

/// When the nodes before position `j` in the rotation are cooling and the
/// node at `j` has a deadline that has passed, `next` hands that node out,
/// with its cooldown cleared and its failure count back at 0.
pub proof fn lemma_expired_node_recovers(v: PoolView, now: u64, j: int)
    requires
        0 <= v.index < v.nodes.len(),
        0 <= j < v.nodes.len(),
        forall|x: int| 0 <= x < j ==> cooling(#[trigger] v.nodes[slot(v, x)], now),
        v.nodes[slot(v, j)].cooldown is Some,
        v.nodes[slot(v, j)].cooldown->0 <= now,
    ensures
        next_spec(v, now).1 == Some(v.nodes[slot(v, j)].url),
        next_spec(v, now).0.nodes[slot(v, j)] == (NodeView {
            url: v.nodes[slot(v, j)].url,
            failures: 0,
            cooldown: None,
        }),
{
    lemma_free_offset_skip(v, now, 0, j);
    assert(0 <= slot(v, j) < v.nodes.len());
}

proof fn lemma_find_url_update(nodes: Seq<NodeView>, url: Seq<char>, k: int, n: NodeView, from: int)
    requires
        0 <= k < nodes.len(),
        n.url == nodes[k].url,
    ensures
        find_url(nodes.update(k, n), url, from) == find_url(nodes, url, from),
    decreases nodes.len() - from,
{
    if 0 <= from < nodes.len() {
        lemma_find_url_update(nodes, url, k, n, from + 1);
    }
}

proof fn lemma_find_url_found(nodes: Seq<NodeView>, url: Seq<char>, from: int)
    requires
        0 <= from,
    ensures
        match find_url(nodes, url, from) {
            Option::None => true,
            Option::Some(k) => from <= k < nodes.len() && nodes[k].url == url,
        },
    decreases nodes.len() - from,
{
    if from < nodes.len() {
        lemma_find_url_found(nodes, url, from + 1);
    }
}

/// Failure reports for a known address change only that node: its address
/// stays, and each report counts one more failure (up to the largest count).
proof fn lemma_run_failures(v: PoolView, url: Seq<char>, times: Seq<u64>, k: int)
    requires
        find_url(v.nodes, url, 0) == Some(k),
        v.nodes[k].failures <= usize::MAX,
    ensures
        find_url(run_failures(v, url, times).nodes, url, 0) == Some(k),
        run_failures(v, url, times).nodes.len() == v.nodes.len(),
        run_failures(v, url, times).index == v.index,
        run_failures(v, url, times).nodes[k].failures >= v.nodes[k].failures,
        run_failures(v, url, times).nodes[k].failures <= usize::MAX,
        run_failures(v, url, times).nodes[k].failures >= v.nodes[k].failures + times.len()
            || run_failures(
            v,
            url,
            times,
        ).nodes[k].failures == usize::MAX,
        times.len() > 0 && run_failures(v, url, times).nodes[k].failures > FAILURE_THRESHOLD
            ==> run_failures(v, url, times).nodes[k].cooldown == Some(
            deadline_after(times.last()),
        ),
        forall|i: int|
            0 <= i < v.nodes.len() && i != k ==> #[trigger] run_failures(v, url, times).nodes[i]
                == v.nodes[i],
    decreases times.len(),
{
    lemma_find_url_found(v.nodes, url, 0);
    if times.len() > 0 {
        let v1 = failure_spec(v, url, times[0]);
        lemma_find_url_update(v.nodes, url, k, failed(v.nodes[k], times[0]), 0);
        lemma_run_failures(v1, url, times.drop_first(), k);
        if times.len() > 1 {
            assert(times.drop_first().last() == times.last());
        }
    }
}

/// After four failure reports for a node with no success in between, the node
/// is cooling until the deadline set by the last report, and `next` hands out
/// no cooling node.
pub proof fn lemma_fourth_failure_cools(v: PoolView, url: Seq<char>, times: Seq<u64>, now: u64)
    requires
        times.len() == 4,
        0 <= v.index,
        find_url(v.nodes, url, 0) is Some,
        v.nodes[find_url(v.nodes, url, 0)->0].failures <= usize::MAX,
        now < deadline_after(times.last()),
    ensures
        ({
            let k = find_url(v.nodes, url, 0)->0;
            let w = run_failures(v, url, times);
            &&& w.nodes[k].cooldown == Some(deadline_after(times.last()))
            &&& cooling(w.nodes[k], now)
            &&& (free_offset(w, now, 0) is Some ==> slot(w, free_offset(w, now, 0)->0) != k)
        }),
{
    let k = find_url(v.nodes, url, 0)->0;
    lemma_run_failures(v, url, times, k);
    lemma_next_skips_cooling(run_failures(v, url, times), now);
}

/// With no node in cooldown, `next` called once per time hands out the nodes
/// in the fixed cyclic order that starts at the cursor; the nodes themselves
/// stay as they were.
pub proof fn lemma_rotation(v: PoolView, times: Seq<u64>)
    requires
        0 <= v.index < v.nodes.len(),
        forall|i: int| 0 <= i < v.nodes.len() ==> (#[trigger] v.nodes[i]).cooldown is None,
    ensures
        run_next(v, times).0.nodes == v.nodes,
        run_next(v, times).0.index == (v.index + times.len()) % (v.nodes.len() as int),
        run_next(v, times).1.len() == times.len(),
        forall|i: int|
            0 <= i < times.len() ==> #[trigger] run_next(v, times).1[i] == Some(
                v.nodes[(v.index + i) % (v.nodes.len() as int)].url,
            ),
    decreases times.len(),
{
    let n = v.nodes.len() as int;
    if times.len() > 0 {
        vstd::arithmetic::div_mod::lemma_small_mod(v.index as nat, n as nat);
        assert(free_offset(v, times[0], 0) == Some(0int));
        let v1 = next_spec(v, times[0]).0;
        assert(v1.nodes =~= v.nodes);
        lemma_rotation(v1, times.drop_first());
        let rs = run_next(v, times).1;
        assert forall|i: int| 0 <= i < times.len() implies #[trigger] rs[i] == Some(
            v.nodes[(v.index + i) % n].url,
        ) by {
            if i > 0 {
                vstd::arithmetic::div_mod::lemma_add_mod_noop(v.index + 1, i - 1, n);
                vstd::arithmetic::div_mod::lemma_mod_twice(v.index + 1, n);
                vstd::arithmetic::div_mod::lemma_add_mod_noop(v1.index, i - 1, n);
            }
        }
        vstd::arithmetic::div_mod::lemma_add_mod_noop(v.index + 1, times.len() - 1, n);
        vstd::arithmetic::div_mod::lemma_add_mod_noop(v1.index, times.len() - 1, n);
        vstd::arithmetic::div_mod::lemma_mod_twice(v.index + 1, n);
    } else {
        vstd::arithmetic::div_mod::lemma_small_mod(v.index as nat, n as nat);
    }
}

/// A failure or success report about one node leaves every other node, and
/// the cursor, as they were: what befalls one node's attempt does not change
/// which other nodes are eligible.
pub proof fn lemma_report_touches_one_node(v: PoolView, url: Seq<char>, now: u64, i: int)
    requires
        0 <= i < v.nodes.len(),
        v.nodes[i].url != url,
    ensures
        failure_spec(v, url, now).nodes[i] == v.nodes[i],
        success_spec(v, url).nodes[i] == v.nodes[i],
        failure_spec(v, url, now).nodes.len() == v.nodes.len(),
        success_spec(v, url).nodes.len() == v.nodes.len(),
        failure_spec(v, url, now).index == v.index,
        success_spec(v, url).index == v.index,
{
    lemma_find_url_found(v.nodes, url, 0);
}

} // verus!
