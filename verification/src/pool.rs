//! Pooling of WebDriver sessions: per-driver pools with acquire/release,
//! capacity limits, idle expiry and statistics that always agree with the
//! pool's contents.
//!
//! The pooled client type is a parameter; times are milliseconds on a
//! monotonic clock that the caller reads.

use vstd::prelude::*;
use crate::config::Config;
use crate::driver::DriverType;

verus! {

/// Counters of one driver's pool.
#[derive(Debug, Clone, Copy)]
pub struct PoolStats {
    pub total_connections: usize,
    pub in_use: usize,
    pub idle: usize,
    pub total_acquisitions: u64,
    pub total_releases: u64,
    pub total_timeouts: u64,
    pub total_health_check_failures: u64,
}

impl PoolStats {
    /// All counters zero.
    pub fn zero() -> (r: PoolStats)
        ensures
            r.total_connections == 0 && r.in_use == 0 && r.idle == 0 && r.total_acquisitions == 0
                && r.total_releases == 0 && r.total_timeouts == 0 && r.total_health_check_failures == 0,
    {
        PoolStats {
            total_connections: 0,
            in_use: 0,
            idle: 0,
            total_acquisitions: 0,
            total_releases: 0,
            total_timeouts: 0,
            total_health_check_failures: 0,
        }
    }
}

impl Default for PoolStats {
    fn default() -> (r: PoolStats)
        ensures
            r.total_connections == 0 && r.in_use == 0 && r.idle == 0 && r.total_acquisitions == 0
                && r.total_releases == 0 && r.total_timeouts == 0 && r.total_health_check_failures == 0,
    {
        PoolStats::zero()
    }
}

/// Settings of the pool, taken from the server configuration.
#[derive(Debug, Clone, Copy)]
pub struct PoolConfig {
    /// Largest number of sessions per driver.
    pub max_connections_per_driver: usize,
    /// Idle time after which a session is closed, in seconds.
    pub idle_timeout_secs: u64,
    /// Time allowed for acquiring a session, in milliseconds.
    pub acquire_timeout_ms: u64,
    /// Interval between idle sweeps, in seconds.
    pub cleanup_interval_secs: u64,
}

impl PoolConfig {
    /// The pool settings of a configuration; sweeps run every minute.
    pub fn from(config: &Config) -> (r: PoolConfig)
        ensures
            r.max_connections_per_driver == config.pool_max_connections_per_driver,
            r.idle_timeout_secs == config.pool_idle_timeout_secs,
            r.acquire_timeout_ms == config.pool_acquire_timeout_ms,
            r.cleanup_interval_secs == 60,
    {
        PoolConfig {
            max_connections_per_driver: config.pool_max_connections_per_driver,
            idle_timeout_secs: config.pool_idle_timeout_secs,
            acquire_timeout_ms: config.pool_acquire_timeout_ms,
            cleanup_interval_secs: 60,
        }
    }
}

/// A session held by the pool.
pub struct PooledConnection<C> {
    client: C,
    last_used_ms: u64,
    in_use: bool,
    session_id: String,
}

/// Session id, whether in use, and time of last use of a pooled session.
pub type ConnInfo = (Seq<char>, bool, u64);

impl<C> PooledConnection<C> {
    /// The session id, whether in use, and when last used.
    pub closed spec fn info(&self) -> ConnInfo {
        (self.session_id@, self.in_use, self.last_used_ms)
    }

    /// A session that has just been added, not in use, last used at
    /// `now_ms`.
    pub fn new(client: C, session_id: String, now_ms: u64) -> (r: PooledConnection<C>)
        ensures
            r.info() == (session_id@, false, now_ms),
    {
        PooledConnection { client, last_used_ms: now_ms, in_use: false, session_id }
    }

    /// Hands the session out at `now_ms`.
    pub fn mark_in_use(&mut self, now_ms: u64)
        ensures
            final(self).info() == (old(self).info().0, true, now_ms),
    {
        self.in_use = true;
        self.last_used_ms = now_ms;
    }

    /// Takes the session back at `now_ms`.
    pub fn mark_released(&mut self, now_ms: u64)
        ensures
            final(self).info() == (old(self).info().0, false, now_ms),
    {
        self.in_use = false;
        self.last_used_ms = now_ms;
    }

    /// Whether the session is not in use and was last used more than
    /// `idle_ms` milliseconds before `now_ms`.
    pub fn is_idle_for(&self, idle_ms: u64, now_ms: u64) -> (r: bool)
        ensures
            r == (!self.info().1 && now_ms - self.info().2 > idle_ms),
    {
        !self.in_use && now_ms > self.last_used_ms && now_ms - self.last_used_ms > idle_ms
    }
}

/// Whether a session was released more than `timeout_secs` seconds before `now_ms`.
pub open spec fn idle_expired(c: ConnInfo, timeout_secs: u64, now_ms: u64) -> bool {
    !c.1 && now_ms - c.2 > timeout_secs * 1000
}

/// Number of sessions in use.
pub open spec fn count_in_use(s: Seq<ConnInfo>) -> nat
    decreases s.len(),
{
    if s.len() == 0 { 0 } else { count_in_use(s.drop_last()) + if s.last().1 { 1nat } else { 0nat } }
}

/// Number of idle sessions.
pub open spec fn count_idle(s: Seq<ConnInfo>) -> nat
    decreases s.len(),
{
    if s.len() == 0 { 0 } else { count_idle(s.drop_last()) + if s.last().1 { 0nat } else { 1nat } }
}

/// Index of the first idle session.
pub open spec fn first_idle(s: Seq<ConnInfo>) -> Option<int> {
    if exists|i: int| 0 <= i < s.len() && !(#[trigger] s[i]).1 {
        Some(choose|i: int| 0 <= i < s.len() && !s[i].1 && forall|j: int| 0 <= j < i ==> (#[trigger] s[j]).1)
    } else {
        None
    }
}

/// Index of the first in-use session with the given id.
pub open spec fn first_in_use_with(s: Seq<ConnInfo>, id: Seq<char>) -> Option<int> {
    if exists|i: int| 0 <= i < s.len() && (#[trigger] s[i]).0 == id && s[i].1 {
        Some(choose|i: int| 0 <= i < s.len() && s[i].0 == id && s[i].1
            && forall|j: int| 0 <= j < i ==> !((#[trigger] s[j]).0 == id && s[j].1))
    } else {
        None
    }
}

/// Index of the first session with the given id.
pub open spec fn first_with(s: Seq<ConnInfo>, id: Seq<char>) -> Option<int> {
    if exists|i: int| 0 <= i < s.len() && (#[trigger] s[i]).0 == id {
        Some(choose|i: int| 0 <= i < s.len() && s[i].0 == id && forall|j: int| 0 <= j < i ==> (#[trigger] s[j]).0 != id)
    } else {
        None
    }
}

/// The sessions that survive an idle sweep.
pub open spec fn surviving(s: Seq<ConnInfo>, timeout_secs: u64, now_ms: u64) -> Seq<ConnInfo>
    decreases s.len(),
{
    if s.len() == 0 {
        s
    } else {
        let r = surviving(s.drop_last(), timeout_secs, now_ms);
        if idle_expired(s.last(), timeout_secs, now_ms) { r } else { r.push(s.last()) }
    }
}

/// The clients of the sessions an idle sweep takes out, in order; the
/// clients are paired with the sessions by position.
pub open spec fn expired_clients<C>(cl: Seq<C>, s: Seq<ConnInfo>, timeout_secs: u64, now_ms: u64) -> Seq<C>
    decreases s.len(),
{
    if s.len() == 0 {
        Seq::empty()
    } else {
        let r = expired_clients(cl.take(s.len() - 1), s.drop_last(), timeout_secs, now_ms);
        if idle_expired(s.last(), timeout_secs, now_ms) { r.push(cl[s.len() - 1]) } else { r }
    }
}

/// The clients of the sessions that survive an idle sweep, in order.
pub open spec fn surviving_clients<C>(cl: Seq<C>, s: Seq<ConnInfo>, timeout_secs: u64, now_ms: u64) -> Seq<C>
    decreases s.len(),
{
    if s.len() == 0 {
        Seq::empty()
    } else {
        let r = surviving_clients(cl.take(s.len() - 1), s.drop_last(), timeout_secs, now_ms);
        if idle_expired(s.last(), timeout_secs, now_ms) { r } else { r.push(cl[s.len() - 1]) }
    }
}

proof fn lemma_counts_total(s: Seq<ConnInfo>)
    ensures
        count_in_use(s) + count_idle(s) == s.len(),
    decreases s.len(),
{
    if s.len() > 0 {
        lemma_counts_total(s.drop_last());
    }
}

proof fn lemma_counts_push(s: Seq<ConnInfo>, c: ConnInfo)
    ensures
        count_in_use(s.push(c)) == count_in_use(s) + if c.1 { 1nat } else { 0nat },
        count_idle(s.push(c)) == count_idle(s) + if c.1 { 0nat } else { 1nat },
{
    assert(s.push(c).drop_last() == s);
}

proof fn lemma_counts_update(s: Seq<ConnInfo>, i: int, c: ConnInfo)
    requires
        0 <= i < s.len(),
    ensures
        count_in_use(s.update(i, c)) + (if s[i].1 { 1nat } else { 0nat })
            == count_in_use(s) + (if c.1 { 1nat } else { 0nat }),
        count_idle(s.update(i, c)) + (if s[i].1 { 0nat } else { 1nat })
            == count_idle(s) + (if c.1 { 0nat } else { 1nat }),
    decreases s.len(),
{
    if i == s.len() - 1 {
        assert(s.update(i, c).drop_last() == s.drop_last());
    } else {
        lemma_counts_update(s.drop_last(), i, c);
        assert(s.update(i, c).drop_last() == s.drop_last().update(i, c));
    }
}

proof fn lemma_counts_remove(s: Seq<ConnInfo>, i: int)
    requires
        0 <= i < s.len(),
    ensures
        count_in_use(s.remove(i)) + (if s[i].1 { 1nat } else { 0nat }) == count_in_use(s),
        count_idle(s.remove(i)) + (if s[i].1 { 0nat } else { 1nat }) == count_idle(s),
    decreases s.len(),
{
    if i == s.len() - 1 {
        assert(s.remove(i) == s.drop_last());
    } else {
        lemma_counts_remove(s.drop_last(), i);
        assert(s.remove(i).drop_last() == s.drop_last().remove(i));
        assert(s.remove(i).last() == s.last());
    }
}

proof fn lemma_surviving_counts(s: Seq<ConnInfo>, timeout_secs: u64, now_ms: u64)
    ensures
        count_in_use(surviving(s, timeout_secs, now_ms)) == count_in_use(s),
        count_idle(surviving(s, timeout_secs, now_ms)) + (s.len() - surviving(s, timeout_secs, now_ms).len()) == count_idle(s),
        surviving(s, timeout_secs, now_ms).len() <= s.len(),
    decreases s.len(),
{
    if s.len() > 0 {
        lemma_surviving_counts(s.drop_last(), timeout_secs, now_ms);
        let r = surviving(s.drop_last(), timeout_secs, now_ms);
        if !idle_expired(s.last(), timeout_secs, now_ms) {
            lemma_counts_push(r, s.last());
        }
    }
}

proof fn lemma_first_idle_is(s: Seq<ConnInfo>, k: int)
    requires
        0 <= k < s.len(),
        !s[k].1,
        forall|j: int| 0 <= j < k ==> (#[trigger] s[j]).1,
    ensures
        first_idle(s) == Some(k),
{
    let c = choose|i: int| 0 <= i < s.len() && !s[i].1 && forall|j: int| 0 <= j < i ==> (#[trigger] s[j]).1;
    if c < k { assert(s[c].1); } else if c > k { assert(s[k].1); }
}

proof fn lemma_first_in_use_with_is(s: Seq<ConnInfo>, id: Seq<char>, k: int)
    requires
        0 <= k < s.len(),
        s[k].0 == id && s[k].1,
        forall|j: int| 0 <= j < k ==> !((#[trigger] s[j]).0 == id && s[j].1),
    ensures
        first_in_use_with(s, id) == Some(k),
{
    assert(s[k].0 == id && s[k].1);
    let c = choose|i: int| 0 <= i < s.len() && s[i].0 == id && s[i].1
        && forall|j: int| 0 <= j < i ==> !((#[trigger] s[j]).0 == id && s[j].1);
    if c < k { assert(!(s[c].0 == id && s[c].1)); } else if c > k { assert(!(s[k].0 == id && s[k].1)); }
}

proof fn lemma_first_with_is(s: Seq<ConnInfo>, id: Seq<char>, k: int)
    requires
        0 <= k < s.len(),
        s[k].0 == id,
        forall|j: int| 0 <= j < k ==> (#[trigger] s[j]).0 != id,
    ensures
        first_with(s, id) == Some(k),
{
    let c = choose|i: int| 0 <= i < s.len() && s[i].0 == id && forall|j: int| 0 <= j < i ==> (#[trigger] s[j]).0 != id;
    if c < k { assert(s[c].0 != id); } else if c > k { assert(s[k].0 != id); }
}

/// Statistics after a session is handed out.
pub open spec fn stats_after_acquire(st: PoolStats) -> PoolStats {
    PoolStats {
        in_use: (st.in_use + 1) as usize,
        idle: (st.idle - 1) as usize,
        total_acquisitions: (st.total_acquisitions + 1) as u64,
        ..st
    }
}

/// Statistics after a session is added.
pub open spec fn stats_after_add(st: PoolStats) -> PoolStats {
    PoolStats { total_connections: (st.total_connections + 1) as usize, in_use: (st.in_use + 1) as usize, ..st }
}

/// Statistics after a session is released.
pub open spec fn stats_after_release(st: PoolStats) -> PoolStats {
    PoolStats {
        in_use: (st.in_use - 1) as usize,
        idle: (st.idle + 1) as usize,
        total_releases: (st.total_releases + 1) as u64,
        ..st
    }
}

/// Statistics after a session leaves the pool.
pub open spec fn stats_after_remove(st: PoolStats, was_in_use: bool) -> PoolStats {
    if was_in_use {
        PoolStats { total_connections: (st.total_connections - 1) as usize, in_use: (st.in_use - 1) as usize, ..st }
    } else {
        PoolStats { total_connections: (st.total_connections - 1) as usize, idle: (st.idle - 1) as usize, ..st }
    }
}

/// Statistics after an idle sweep that left `remaining` sessions and took out `removed`.
pub open spec fn stats_after_sweep(st: PoolStats, remaining: nat, removed: nat) -> PoolStats {
    PoolStats { total_connections: remaining as usize, idle: (st.idle - removed) as usize, ..st }
}

/// The sessions of one driver, with their statistics.
pub struct DriverPool<C> {
    connections: Vec<PooledConnection<C>>,
    max_connections: usize,
    stats: PoolStats,
}

impl<C> DriverPool<C> {
    /// The pooled sessions, in the order they were added.
    pub closed spec fn conns(&self) -> Seq<ConnInfo> {
        self.connections@.map_values(|c: PooledConnection<C>| c.info())
    }

    /// The clients of the pooled sessions, in the same order.
    pub closed spec fn clients(&self) -> Seq<C> {
        self.connections@.map_values(|c: PooledConnection<C>| c.client)
    }

    /// The largest number of sessions.
    pub closed spec fn capacity(&self) -> nat {
        self.max_connections as nat
    }

    /// The statistics.
    pub closed spec fn statistics(&self) -> PoolStats {
        self.stats
    }

    /// The statistics agree with the sessions: the connection count is the
    /// number of sessions, and the in-use and idle counts count them.
    pub open spec fn wf(&self) -> bool {
        &&& self.statistics().total_connections == self.conns().len()
        &&& self.statistics().in_use == count_in_use(self.conns())
        &&& self.statistics().idle == count_idle(self.conns())
        &&& self.conns().len() <= self.capacity()
    }

    /// An empty pool for at most `max_connections` sessions.
    pub fn new(max_connections: usize) -> (r: DriverPool<C>)
        ensures
            r.wf(),
            r.conns() == Seq::<ConnInfo>::empty(),
            r.clients() == Seq::<C>::empty(),
            r.capacity() == max_connections,
            r.statistics() == PoolStats::zero_spec(),
    {
        let r = DriverPool { connections: Vec::new(), max_connections, stats: PoolStats::zero() };
        assert(r.conns() =~= Seq::<ConnInfo>::empty());
        assert(r.clients() =~= Seq::<C>::empty());
        r
    }

    /// Whether another session fits.
    pub fn has_capacity(&self) -> (r: bool)
        ensures
            r == (self.conns().len() < self.capacity()),
    {
        self.connections.len() < self.max_connections
    }

    /// The statistics.
    pub fn get_stats(&self) -> (r: PoolStats)
        ensures
            r == self.statistics(),
    {
        self.stats
    }

    /// Marks the first idle session as in use and hands out a clone of its
    /// client with its session id; `None` when every session is in use.
    #[verifier::loop_isolation(false)]
    pub fn try_acquire(&mut self, now_ms: u64) -> (r: Option<(C, String)>)
        where C: Clone,
        requires
            old(self).wf(),
            old(self).statistics().total_acquisitions < u64::MAX,
        ensures
            final(self).wf(),
            final(self).capacity() == old(self).capacity(),
            final(self).clients() == old(self).clients(),
            match first_idle(old(self).conns()) {
                Some(i) => r matches Some((c, id)) && id@ == old(self).conns()[i].0
                    && vstd::pervasive::cloned(old(self).clients()[i], c)
                    && final(self).conns() == old(self).conns().update(i, (old(self).conns()[i].0, true, now_ms))
                    && final(self).statistics() == stats_after_acquire(old(self).statistics()),
                None => r is None && final(self).conns() == old(self).conns()
                    && final(self).statistics() == old(self).statistics(),
            },
    {
        let ghost s = self.conns();
        let mut i: usize = 0;
        while i < self.connections.len()
            invariant
                i <= self.connections.len(),
                self.connections@ == old(self).connections@,
                self.stats == old(self).stats,
                self.max_connections == old(self).max_connections,
                s == self.conns(),
                forall|j: int| 0 <= j < i ==> (#[trigger] s[j]).1,
            decreases self.connections.len() - i,
        {
            if !self.connections[i].in_use {
                proof {
                    assert(s[i as int] == self.connections@[i as int].info());
                    lemma_first_idle_is(s, i as int);
                    lemma_counts_update(s, i as int, (s[i as int].0, true, now_ms));
                    lemma_counts_total(s);
                }
                let mut c = self.connections.remove(i);
                c.in_use = true;
                c.last_used_ms = now_ms;
                let out = (c.client.clone(), c.session_id.clone());
                self.connections.insert(i, c);
                self.stats.in_use = self.stats.in_use + 1;
                self.stats.idle = self.stats.idle - 1;
                self.stats.total_acquisitions = self.stats.total_acquisitions + 1;
                assert(self.conns() =~= s.update(i as int, (s[i as int].0, true, now_ms)));
                assert(self.clients() =~= old(self).clients());
                return Some(out);
            }
            i = i + 1;
        }
        proof {
            assert forall|j: int| 0 <= j < s.len() implies (#[trigger] s[j]).1 by {}
        }
        None
    }

    /// Adds a new session, already in use; refused (`false`) when full.
    pub fn add(&mut self, client: C, session_id: String, now_ms: u64) -> (r: bool)
        requires
            old(self).wf(),
        ensures
            final(self).wf(),
            final(self).capacity() == old(self).capacity(),
            r == (old(self).conns().len() < old(self).capacity()),
            r ==> final(self).conns() == old(self).conns().push((session_id@, true, now_ms))
                && final(self).clients() == old(self).clients().push(client)
                && final(self).statistics() == stats_after_add(old(self).statistics()),
            !r ==> final(self).conns() == old(self).conns() && final(self).clients() == old(self).clients()
                && final(self).statistics() == old(self).statistics(),
    {
        if self.connections.len() < self.max_connections {
            let ghost s = self.conns();
            let conn = PooledConnection { client, last_used_ms: now_ms, in_use: true, session_id };
            self.connections.push(conn);
            proof {
                lemma_counts_push(s, (session_id@, true, now_ms));
                lemma_counts_total(s);
            }
            self.stats.total_connections = self.stats.total_connections + 1;
            self.stats.in_use = self.stats.in_use + 1;
            assert(self.conns() =~= s.push((session_id@, true, now_ms)));
            assert(self.clients() =~= old(self).clients().push(client));
            true
        } else {
            false
        }
    }

    /// Marks the first in-use session with this id as released; `false`
    /// when there is none.
    #[verifier::loop_isolation(false)]
    pub fn release(&mut self, session_id: &str, now_ms: u64) -> (r: bool)
        requires
            old(self).wf(),
            old(self).statistics().total_releases < u64::MAX,
        ensures
            final(self).wf(),
            final(self).capacity() == old(self).capacity(),
            final(self).clients() == old(self).clients(),
            match first_in_use_with(old(self).conns(), session_id@) {
                Some(i) => r && final(self).conns() == old(self).conns().update(i, (session_id@, false, now_ms))
                    && final(self).statistics() == stats_after_release(old(self).statistics()),
                None => !r && final(self).conns() == old(self).conns()
                    && final(self).statistics() == old(self).statistics(),
            },
    {
        let ghost s = self.conns();
        let mut i: usize = 0;
        while i < self.connections.len()
            invariant
                i <= self.connections.len(),
                self.connections@ == old(self).connections@,
                self.stats == old(self).stats,
                self.max_connections == old(self).max_connections,
                s == self.conns(),
                forall|j: int| 0 <= j < i ==> !((#[trigger] s[j]).0 == session_id@ && s[j].1),
            decreases self.connections.len() - i,
        {
            if crate::text::str_equal(self.connections[i].session_id.as_str(), session_id) && self.connections[i].in_use {
                proof {
                    assert(s[i as int] == self.connections@[i as int].info());
                    lemma_first_in_use_with_is(s, session_id@, i as int);
                    lemma_counts_update(s, i as int, (session_id@, false, now_ms));
                    lemma_counts_total(s);
                }
                let mut c = self.connections.remove(i);
                c.in_use = false;
                c.last_used_ms = now_ms;
                self.connections.insert(i, c);
                self.stats.in_use = self.stats.in_use - 1;
                self.stats.idle = self.stats.idle + 1;
                self.stats.total_releases = self.stats.total_releases + 1;
                assert(self.conns() =~= s.update(i as int, (session_id@, false, now_ms)));
                assert(self.clients() =~= old(self).clients());
                return true;
            }
            i = i + 1;
        }
        false
    }

    /// Takes the first session with this id out of the pool and returns its
    /// client.
    #[verifier::loop_isolation(false)]
    pub fn remove(&mut self, session_id: &str) -> (r: Option<C>)
        requires
            old(self).wf(),
        ensures
            final(self).wf(),
            final(self).capacity() == old(self).capacity(),
            match first_with(old(self).conns(), session_id@) {
                Some(i) => r == Some(old(self).clients()[i]) && final(self).conns() == old(self).conns().remove(i)
                    && final(self).clients() == old(self).clients().remove(i)
                    && final(self).statistics() == stats_after_remove(old(self).statistics(), old(self).conns()[i].1),
                None => r is None && final(self).conns() == old(self).conns()
                    && final(self).clients() == old(self).clients()
                    && final(self).statistics() == old(self).statistics(),
            },
    {
        let ghost s = self.conns();
        let mut i: usize = 0;
        while i < self.connections.len()
            invariant
                i <= self.connections.len(),
                self.connections@ == old(self).connections@,
                self.stats == old(self).stats,
                self.max_connections == old(self).max_connections,
                s == self.conns(),
                forall|j: int| 0 <= j < i ==> (#[trigger] s[j]).0 != session_id@,
            decreases self.connections.len() - i,
        {
            if crate::text::str_equal(self.connections[i].session_id.as_str(), session_id) {
                proof {
                    assert(s[i as int] == self.connections@[i as int].info());
                    lemma_first_with_is(s, session_id@, i as int);
                    lemma_counts_remove(s, i as int);
                }
                let c = self.connections.remove(i);
                self.stats.total_connections = self.stats.total_connections - 1;
                if c.in_use {
                    self.stats.in_use = self.stats.in_use - 1;
                } else {
                    self.stats.idle = self.stats.idle - 1;
                }
                assert(self.conns() =~= s.remove(i as int));
                assert(self.clients() =~= old(self).clients().remove(i as int));
                return Some(c.client);
            }
            i = i + 1;
        }
        None
    }

    /// Takes out every session idle for longer than the timeout and returns
    /// their clients; the others stay, in order.
    #[verifier::loop_isolation(false)]
    pub fn remove_idle(&mut self, timeout_secs: u64, now_ms: u64) -> (r: Vec<C>)
        requires
            old(self).wf(),
        ensures
            final(self).wf(),
            final(self).capacity() == old(self).capacity(),
            final(self).conns() == surviving(old(self).conns(), timeout_secs, now_ms),
            final(self).clients() == surviving_clients(old(self).clients(), old(self).conns(), timeout_secs, now_ms),
            r@ == expired_clients(old(self).clients(), old(self).conns(), timeout_secs, now_ms),
            r.len() == old(self).conns().len() - final(self).conns().len(),
            final(self).statistics() == stats_after_sweep(old(self).statistics(), final(self).conns().len(), r.len() as nat),
    {
        let ghost s = self.conns();
        let ghost cl = self.clients();
        let mut rest: Vec<PooledConnection<C>> = Vec::new();
        std::mem::swap(&mut rest, &mut self.connections);
        let mut removed: Vec<C> = Vec::new();
        let mut kept: Vec<PooledConnection<C>> = Vec::new();
        let total = rest.len();
        let mut i: usize = 0;
        proof {
            lemma_surviving_counts(s, timeout_secs, now_ms);
            assert(kept@.map_values(|c: PooledConnection<C>| c.client) =~= Seq::<C>::empty());
        }
        while rest.len() > 0
            invariant
                i + rest.len() == total,
                total == s.len(),
                cl.len() == s.len(),
                rest@.map_values(|c: PooledConnection<C>| c.info()) == s.subrange(i as int, total as int),
                rest@.map_values(|c: PooledConnection<C>| c.client) == cl.subrange(i as int, total as int),
                kept@.map_values(|c: PooledConnection<C>| c.info()) == surviving(s.take(i as int), timeout_secs, now_ms),
                kept@.map_values(|c: PooledConnection<C>| c.client)
                    == surviving_clients(cl.take(i as int), s.take(i as int), timeout_secs, now_ms),
                removed@ == expired_clients(cl.take(i as int), s.take(i as int), timeout_secs, now_ms),
                removed.len() + kept.len() == i,
            decreases rest.len(),
        {
            proof {
                lemma_surviving_counts(s.take(i as int), timeout_secs, now_ms);
                assert(s.take(i + 1).drop_last() == s.take(i as int));
                assert(cl.take(i + 1).take(i as int) == cl.take(i as int));
                assert(rest@.map_values(|c: PooledConnection<C>| c.info())[0] == s[i as int]);
                assert(rest@.map_values(|c: PooledConnection<C>| c.client)[0] == cl[i as int]);
            }
            let ghost old_rest = rest@.map_values(|c: PooledConnection<C>| c.info());
            let ghost old_rest_cl = rest@.map_values(|c: PooledConnection<C>| c.client);
            let c = rest.remove(0);
            proof {
                assert(rest@.map_values(|c: PooledConnection<C>| c.info()) =~= old_rest.subrange(1, old_rest.len() as int));
                assert(old_rest.subrange(1, old_rest.len() as int) =~= s.subrange(i + 1, total as int));
                assert(rest@.map_values(|c: PooledConnection<C>| c.client) =~= old_rest_cl.subrange(1, old_rest_cl.len() as int));
                assert(old_rest_cl.subrange(1, old_rest_cl.len() as int) =~= cl.subrange(i + 1, total as int));
            }
            let ghost before = kept@.map_values(|c: PooledConnection<C>| c.info());
            let ghost before_cl = kept@.map_values(|c: PooledConnection<C>| c.client);
            let elapsed: u64 = if now_ms >= c.last_used_ms { now_ms - c.last_used_ms } else { 0 };
            if !c.in_use && (elapsed as u128) > (timeout_secs as u128) * 1000 {
                removed.push(c.client);
            } else {
                kept.push(c);
                assert(kept@.map_values(|c: PooledConnection<C>| c.info()) =~= before.push(c.info()));
                assert(kept@.map_values(|c: PooledConnection<C>| c.client) =~= before_cl.push(c.client));
            }
            assert(rest@.map_values(|c: PooledConnection<C>| c.info()) =~= s.subrange(i + 1, total as int));
            i = i + 1;
        }
        assert(s.take(total as int) == s);
        assert(cl.take(total as int) == cl);
        proof {
            lemma_surviving_counts(s, timeout_secs, now_ms);
            lemma_counts_total(s);
        }
        self.connections = kept;
        self.stats.total_connections = self.connections.len();
        self.stats.idle = self.stats.idle - removed.len();
        assert(self.clients() == surviving_clients(cl, s, timeout_secs, now_ms));
        removed
    }

    /// Records a pooled session found dead: it leaves the pool and the
    /// failure is counted.
    pub fn discard_dead(&mut self, session_id: &str) -> (r: Option<C>)
        requires
            old(self).wf(),
            old(self).statistics().total_health_check_failures < u64::MAX,
        ensures
            final(self).wf(),
            final(self).capacity() == old(self).capacity(),
            match first_with(old(self).conns(), session_id@) {
                Some(i) => r == Some(old(self).clients()[i]) && final(self).conns() == old(self).conns().remove(i)
                    && final(self).clients() == old(self).clients().remove(i),
                None => r is None && final(self).conns() == old(self).conns()
                    && final(self).clients() == old(self).clients(),
            },
            final(self).statistics().total_health_check_failures == old(self).statistics().total_health_check_failures + 1,
            final(self).statistics().total_acquisitions == old(self).statistics().total_acquisitions,
            final(self).statistics().total_releases == old(self).statistics().total_releases,
    {
        let r = self.remove(session_id);
        self.stats.total_health_check_failures = self.stats.total_health_check_failures + 1;
        r
    }

    /// Takes out every session and returns their clients; the statistics
    /// start over from zero.
    pub fn close_all(&mut self) -> (r: Vec<C>)
        requires
            old(self).wf(),
        ensures
            final(self).wf(),
            final(self).capacity() == old(self).capacity(),
            final(self).conns() == Seq::<ConnInfo>::empty(),
            final(self).clients() == Seq::<C>::empty(),
            final(self).statistics() == PoolStats::zero_spec(),
            r@ == old(self).clients(),
    {
        let ghost cl = self.clients();
        let mut rest: Vec<PooledConnection<C>> = Vec::new();
        std::mem::swap(&mut rest, &mut self.connections);
        let mut out: Vec<C> = Vec::new();
        let total = rest.len();
        let mut i: usize = 0;
        while rest.len() > 0
            invariant
                i + rest.len() == total,
                cl.len() == total,
                out@ == cl.take(i as int),
                rest@.map_values(|c: PooledConnection<C>| c.client) == cl.subrange(i as int, total as int),
            decreases rest.len(),
        {
            let ghost old_rest = rest@.map_values(|c: PooledConnection<C>| c.client);
            assert(old_rest[0] == cl[i as int]);
            let c = rest.remove(0);
            out.push(c.client);
            assert(rest@.map_values(|c: PooledConnection<C>| c.client) =~= old_rest.subrange(1, old_rest.len() as int));
            assert(out@ =~= cl.take(i + 1));
            i = i + 1;
        }
        assert(cl.take(total as int) == cl);
        self.stats = PoolStats::zero();
        assert(self.conns() =~= Seq::<ConnInfo>::empty());
        assert(self.clients() =~= Seq::<C>::empty());
        out
    }
}

impl PoolStats {
    /// Statistics of an empty pool.
    pub open spec fn zero_spec() -> PoolStats {
        PoolStats {
            total_connections: 0,
            in_use: 0,
            idle: 0,
            total_acquisitions: 0,
            total_releases: 0,
            total_timeouts: 0,
            total_health_check_failures: 0,
        }
    }
}

/// The session pools of all drivers.
/// Every client of a driver's pool, if it has one.
pub open spec fn pool_clients<C>(p: Option<DriverPool<C>>) -> Seq<C> {
    match p {
        Some(p) => p.clients(),
        None => Seq::empty(),
    }
}

/// The clients an idle sweep takes out of a driver's pool, if it has one.
pub open spec fn swept_clients<C>(p: Option<DriverPool<C>>, timeout_secs: u64, now_ms: u64) -> Seq<C> {
    match p {
        Some(p) => expired_clients(p.clients(), p.conns(), timeout_secs, now_ms),
        None => Seq::empty(),
    }
}

/// The pools of all drivers, one per driver type, created on first use,
/// with the settings they were made with.
pub struct ConnectionPool<C> {
    chrome: Option<DriverPool<C>>,
    firefox: Option<DriverPool<C>>,
    edge: Option<DriverPool<C>>,
    config: PoolConfig,
    enabled: bool,
}

impl<C> ConnectionPool<C> {
    /// The pool of a driver, if one was created.
    pub closed spec fn pool(&self, d: DriverType) -> Option<DriverPool<C>> {
        match d {
            DriverType::Chrome => self.chrome,
            DriverType::Firefox => self.firefox,
            DriverType::Edge => self.edge,
        }
    }

    /// The settings.
    pub closed spec fn settings(&self) -> PoolConfig {
        self.config
    }

    /// Whether pooling is on.
    pub closed spec fn on(&self) -> bool {
        self.enabled
    }

    /// Every driver pool is well formed and sized by the settings.
    pub open spec fn wf(&self) -> bool {
        forall|d: DriverType| #[trigger] self.pool(d) matches Some(p)
            ==> p.wf() && p.capacity() == self.settings().max_connections_per_driver
    }

    /// No pool yet; pooling on or off as configured.
    pub fn new(config: &Config) -> (r: ConnectionPool<C>)
        ensures
            r.wf(),
            r.on() == config.pool_enabled,
            r.settings() == PoolConfig::from_config_spec(config),
            forall|d: DriverType| #[trigger] r.pool(d) is None,
    {
        ConnectionPool { chrome: None, firefox: None, edge: None, config: PoolConfig::from(config), enabled: config.pool_enabled }
    }

    /// Whether pooling is on.
    pub fn is_enabled(&self) -> (r: bool)
        ensures
            r == self.on(),
    {
        self.enabled
    }

    /// The settings.
    pub fn get_config(&self) -> (r: PoolConfig)
        ensures
            r == self.settings(),
    {
        self.config
    }

    fn take_pool(&mut self, d: DriverType) -> (r: Option<DriverPool<C>>)
        ensures
            r == old(self).pool(d),
            final(self).pool(d) is None,
            forall|e: DriverType| e != d ==> final(self).pool(e) == old(self).pool(e),
            final(self).settings() == old(self).settings(),
            final(self).on() == old(self).on(),
    {
        let mut out: Option<DriverPool<C>> = None;
        match d {
            DriverType::Chrome => std::mem::swap(&mut out, &mut self.chrome),
            DriverType::Firefox => std::mem::swap(&mut out, &mut self.firefox),
            DriverType::Edge => std::mem::swap(&mut out, &mut self.edge),
        }
        out
    }

    fn put_pool(&mut self, d: DriverType, p: Option<DriverPool<C>>)
        ensures
            final(self).pool(d) == p,
            forall|e: DriverType| e != d ==> final(self).pool(e) == old(self).pool(e),
            final(self).settings() == old(self).settings(),
            final(self).on() == old(self).on(),
    {
        match d {
            DriverType::Chrome => self.chrome = p,
            DriverType::Firefox => self.firefox = p,
            DriverType::Edge => self.edge = p,
        }
    }

    /// Hands out an idle pooled session of a driver as (session id, client);
    /// `None` when pooling is off, the driver has no pool or no idle session.
    #[verifier::spinoff_prover]
    #[verifier::rlimit(40)]
    pub fn acquire(&mut self, driver_type: &DriverType, now_ms: u64) -> (r: Option<(String, C)>)
        where C: Clone,
        requires
            old(self).wf(),
            old(self).pool(*driver_type) matches Some(p) ==> p.statistics().total_acquisitions < u64::MAX,
        ensures
            final(self).wf(),
            final(self).on() == old(self).on(),
            final(self).settings() == old(self).settings(),
            forall|e: DriverType| e != *driver_type ==> #[trigger] final(self).pool(e) == old(self).pool(e),
            !old(self).on() ==> r is None && final(self).pool(*driver_type) == old(self).pool(*driver_type),
            old(self).on() ==> match old(self).pool(*driver_type) {
                None => r is None && final(self).pool(*driver_type) is None,
                Some(p) => final(self).pool(*driver_type) matches Some(q) && q.clients() == p.clients() && match first_idle(p.conns()) {
                    Some(i) => r matches Some((id, c)) && id@ == p.conns()[i].0
                        && vstd::pervasive::cloned(p.clients()[i], c)
                        && q.conns() == p.conns().update(i, (p.conns()[i].0, true, now_ms))
                        && q.statistics() == stats_after_acquire(p.statistics()),
                    None => r is None && q.conns() == p.conns() && q.statistics() == p.statistics(),
                },
            },
    {
        if !self.enabled {
            return None;
        }
        let d = *driver_type;
        let taken = self.take_pool(d);
        match taken {
            None => None,
            Some(mut p) => {
                let got = p.try_acquire(now_ms);
                self.put_pool(d, Some(p));
                match got {
                    Some((client, id)) => Some((id, client)),
                    None => None,
                }
            },
        }
    }

    /// Drops a pooled session that failed its health check and counts the failure.
    pub fn discard_dead(&mut self, driver_type: &DriverType, session_id: &str)
        requires
            old(self).wf(),
            old(self).pool(*driver_type) matches Some(p) ==> p.statistics().total_health_check_failures < u64::MAX,
        ensures
            final(self).wf(),
            final(self).on() == old(self).on(),
            final(self).settings() == old(self).settings(),
            forall|e: DriverType| e != *driver_type ==> #[trigger] final(self).pool(e) == old(self).pool(e),
            match old(self).pool(*driver_type) {
                None => final(self).pool(*driver_type) is None,
                Some(p) => final(self).pool(*driver_type) matches Some(q)
                    && q.statistics().total_health_check_failures == p.statistics().total_health_check_failures + 1
                    && match first_with(p.conns(), session_id@) {
                        Some(i) => q.conns() == p.conns().remove(i),
                        None => q.conns() == p.conns(),
                    },
            },
    {
        let d = *driver_type;
        let taken = self.take_pool(d);
        match taken {
            None => {},
            Some(mut p) => {
                let _ = p.discard_dead(session_id);
                self.put_pool(d, Some(p));
            },
        }
    }

    /// Adds a new in-use session to a driver's pool, creating the pool on
    /// first use; `false` when pooling is off or the pool is full.
    pub fn add(&mut self, driver_type: DriverType, client: C, session_id: String, now_ms: u64) -> (r: bool)
        requires
            old(self).wf(),
        ensures
            final(self).wf(),
            final(self).on() == old(self).on(),
            final(self).settings() == old(self).settings(),
            forall|e: DriverType| e != driver_type ==> #[trigger] final(self).pool(e) == old(self).pool(e),
            !old(self).on() ==> !r && final(self).pool(driver_type) == old(self).pool(driver_type),
            old(self).on() ==> (final(self).pool(driver_type) matches Some(q) && ({
                let before = match old(self).pool(driver_type) {
                    Some(p) => p.conns(),
                    None => Seq::<ConnInfo>::empty(),
                };
                &&& r == (before.len() < old(self).settings().max_connections_per_driver)
                &&& r ==> q.conns() == before.push((session_id@, true, now_ms))
                &&& !r ==> q.conns() == before
            })),
    {
        if !self.enabled {
            return false;
        }
        let taken = self.take_pool(driver_type);
        let mut p = match taken {
            Some(p) => p,
            None => DriverPool::new(self.config.max_connections_per_driver),
        };
        let added = p.add(client, session_id, now_ms);
        self.put_pool(driver_type, Some(p));
        added
    }

    /// Returns an in-use session of a driver to its pool.
    pub fn release(&mut self, driver_type: &DriverType, session_id: &str, now_ms: u64)
        requires
            old(self).wf(),
            old(self).pool(*driver_type) matches Some(p) ==> p.statistics().total_releases < u64::MAX,
        ensures
            final(self).wf(),
            final(self).on() == old(self).on(),
            final(self).settings() == old(self).settings(),
            forall|e: DriverType| e != *driver_type ==> #[trigger] final(self).pool(e) == old(self).pool(e),
            !old(self).on() ==> final(self).pool(*driver_type) == old(self).pool(*driver_type),
            old(self).on() ==> match old(self).pool(*driver_type) {
                None => final(self).pool(*driver_type) is None,
                Some(p) => final(self).pool(*driver_type) matches Some(q) && match first_in_use_with(p.conns(), session_id@) {
                    Some(i) => q.conns() == p.conns().update(i, (session_id@, false, now_ms))
                        && q.statistics() == stats_after_release(p.statistics()),
                    None => q.conns() == p.conns() && q.statistics() == p.statistics(),
                },
            },
    {
        if !self.enabled {
            return;
        }
        let d = *driver_type;
        let taken = self.take_pool(d);
        match taken {
            None => {},
            Some(mut p) => {
                let _ = p.release(session_id, now_ms);
                self.put_pool(d, Some(p));
            },
        }
    }

    /// Takes a session of a driver out of its pool.
    pub fn remove(&mut self, driver_type: &DriverType, session_id: &str) -> (r: Option<C>)
        requires
            old(self).wf(),
        ensures
            final(self).wf(),
            final(self).on() == old(self).on(),
            final(self).settings() == old(self).settings(),
            forall|e: DriverType| e != *driver_type ==> #[trigger] final(self).pool(e) == old(self).pool(e),
            !old(self).on() ==> r is None && final(self).pool(*driver_type) == old(self).pool(*driver_type),
            old(self).on() ==> match old(self).pool(*driver_type) {
                None => r is None && final(self).pool(*driver_type) is None,
                Some(p) => final(self).pool(*driver_type) matches Some(q) && match first_with(p.conns(), session_id@) {
                    Some(i) => r == Some(p.clients()[i]) && q.conns() == p.conns().remove(i)
                        && q.clients() == p.clients().remove(i)
                        && q.statistics() == stats_after_remove(p.statistics(), p.conns()[i].1),
                    None => r is None && q.conns() == p.conns() && q.clients() == p.clients()
                        && q.statistics() == p.statistics(),
                },
            },
    {
        if !self.enabled {
            return None;
        }
        let d = *driver_type;
        let taken = self.take_pool(d);
        match taken {
            None => None,
            Some(mut p) => {
                let c = p.remove(session_id);
                self.put_pool(d, Some(p));
                c
            },
        }
    }

    /// Whether a driver's pool can take another session: always when pooling
    /// is off or the driver has no pool yet.
    pub fn has_capacity(&self, driver_type: &DriverType) -> (r: bool)
        ensures
            r == (!self.on() || match self.pool(*driver_type) {
                Some(p) => p.conns().len() < p.capacity(),
                None => true,
            }),
    {
        if !self.enabled {
            return true;
        }
        let p = match driver_type {
            DriverType::Chrome => &self.chrome,
            DriverType::Firefox => &self.firefox,
            DriverType::Edge => &self.edge,
        };
        match p {
            Some(p) => p.has_capacity(),
            None => true,
        }
    }

    /// The statistics of every existing pool, in the order Chrome, Firefox, Edge.
    pub fn get_stats(&self) -> (r: Vec<(DriverType, PoolStats)>)
        ensures
            forall|i: int| 0 <= i < r.len() ==> (self.pool((#[trigger] r@[i]).0) matches Some(p) && p.statistics() == r@[i].1),
            forall|d: DriverType| #[trigger] self.pool(d) is Some ==> exists|i: int| 0 <= i < r.len() && r@[i].0 == d,
    {
        let mut r: Vec<(DriverType, PoolStats)> = Vec::new();
        if let Some(p) = &self.chrome { r.push((DriverType::Chrome, p.get_stats())); }
        if let Some(p) = &self.firefox { r.push((DriverType::Firefox, p.get_stats())); }
        if let Some(p) = &self.edge { r.push((DriverType::Edge, p.get_stats())); }
        proof {
            assert forall|d: DriverType| #[trigger] self.pool(d) is Some implies exists|i: int| 0 <= i < r.len() && r@[i].0 == d by {
                match d {
                    DriverType::Chrome => { assert(r@[0].0 == d); },
                    DriverType::Firefox => {
                        if self.chrome is Some { assert(r@[1].0 == d); } else { assert(r@[0].0 == d); }
                    },
                    DriverType::Edge => { assert(r@[r.len() - 1].0 == d); },
                }
            }
        }
        r
    }

    fn sweep_pool(&mut self, d: DriverType, out: &mut Vec<C>, close_all: bool, timeout_secs: u64, now_ms: u64)
        requires
            old(self).wf(),
        ensures
            final(out)@ == old(out)@ + if close_all {
                pool_clients(old(self).pool(d))
            } else {
                swept_clients(old(self).pool(d), timeout_secs, now_ms)
            },
            final(self).wf(),
            final(self).on() == old(self).on(),
            final(self).settings() == old(self).settings(),
            forall|e: DriverType| e != d ==> #[trigger] final(self).pool(e) == old(self).pool(e),
            match old(self).pool(d) {
                None => final(self).pool(d) is None,
                Some(p) => final(self).pool(d) matches Some(q) && if close_all {
                    q.conns() == Seq::<ConnInfo>::empty() && q.statistics() == PoolStats::zero_spec()
                } else {
                    q.conns() == surviving(p.conns(), timeout_secs, now_ms)
                },
            },
    {
        let taken = self.take_pool(d);
        match taken {
            None => {
                assert(old(self).pool(d) is None);
                assert(pool_clients(old(self).pool(d)) =~= Seq::<C>::empty());
                assert(swept_clients(old(self).pool(d), timeout_secs, now_ms) =~= Seq::<C>::empty());
                assert(out@ =~= old(out)@ + Seq::<C>::empty());
            },
            Some(mut p) => {
                let ghost p0 = p;
                assert(old(self).pool(d) == Some(p0));
                if close_all {
                    let mut removed = p.close_all();
                    assert(removed@ == p0.clients());
                    assert(pool_clients(old(self).pool(d)) == p0.clients());
                    out.append(&mut removed);
                } else {
                    let mut removed = p.remove_idle(timeout_secs, now_ms);
                    assert(removed@ == expired_clients(p0.clients(), p0.conns(), timeout_secs, now_ms));
                    out.append(&mut removed);
                }
                self.put_pool(d, Some(p));
            },
        }
    }

    /// Takes every session out of every pool and returns their clients; the
    /// statistics start over from zero.
    pub fn close_all(&mut self) -> (r: Vec<C>)
        requires
            old(self).wf(),
        ensures
            final(self).wf(),
            final(self).on() == old(self).on(),
            final(self).settings() == old(self).settings(),
            forall|d: DriverType| match old(self).pool(d) {
                None => final(self).pool(d) is None,
                Some(p) => #[trigger] final(self).pool(d) matches Some(q) && q.conns() == Seq::<ConnInfo>::empty()
                    && q.statistics() == PoolStats::zero_spec(),
            },
            r@ == pool_clients(old(self).pool(DriverType::Chrome)) + pool_clients(old(self).pool(DriverType::Firefox))
                + pool_clients(old(self).pool(DriverType::Edge)),
    {
        let mut out: Vec<C> = Vec::new();
        assert(out@ =~= Seq::<C>::empty());
        self.sweep_pool(DriverType::Chrome, &mut out, true, 0, 0);
        self.sweep_pool(DriverType::Firefox, &mut out, true, 0, 0);
        self.sweep_pool(DriverType::Edge, &mut out, true, 0, 0);
        proof {
            assert forall|d: DriverType| match old(self).pool(d) {
                None => self.pool(d) is None,
                Some(p) => #[trigger] self.pool(d) matches Some(q) && q.conns() == Seq::<ConnInfo>::empty()
                    && q.statistics() == PoolStats::zero_spec(),
            } by {
                match d { DriverType::Chrome => {}, DriverType::Firefox => {}, DriverType::Edge => {} }
            }
        }
        out
    }

    /// Takes out, in every pool, the sessions idle for longer than the
    /// configured idle timeout, and returns their clients.
    pub fn run_cleanup(&mut self, now_ms: u64) -> (r: Vec<C>)
        requires
            old(self).wf(),
        ensures
            final(self).wf(),
            final(self).on() == old(self).on(),
            final(self).settings() == old(self).settings(),
            forall|d: DriverType| match old(self).pool(d) {
                None => final(self).pool(d) is None,
                Some(p) => #[trigger] final(self).pool(d) matches Some(q)
                    && q.conns() == surviving(p.conns(), old(self).settings().idle_timeout_secs, now_ms),
            },
            r@ == swept_clients(old(self).pool(DriverType::Chrome), old(self).settings().idle_timeout_secs, now_ms)
                + swept_clients(old(self).pool(DriverType::Firefox), old(self).settings().idle_timeout_secs, now_ms)
                + swept_clients(old(self).pool(DriverType::Edge), old(self).settings().idle_timeout_secs, now_ms),
    {
        let t = self.config.idle_timeout_secs;
        let mut out: Vec<C> = Vec::new();
        assert(out@ =~= Seq::<C>::empty());
        self.sweep_pool(DriverType::Chrome, &mut out, false, t, now_ms);
        self.sweep_pool(DriverType::Firefox, &mut out, false, t, now_ms);
        self.sweep_pool(DriverType::Edge, &mut out, false, t, now_ms);
        proof {
            assert forall|d: DriverType| match old(self).pool(d) {
                None => self.pool(d) is None,
                Some(p) => #[trigger] self.pool(d) matches Some(q)
                    && q.conns() == surviving(p.conns(), old(self).settings().idle_timeout_secs, now_ms),
            } by {
                match d { DriverType::Chrome => {}, DriverType::Firefox => {}, DriverType::Edge => {} }
            }
        }
        out
    }
}

impl PoolConfig {
    /// The pool settings a configuration gives.
    pub open spec fn from_config_spec(config: &Config) -> PoolConfig {
        PoolConfig {
            max_connections_per_driver: config.pool_max_connections_per_driver,
            idle_timeout_secs: config.pool_idle_timeout_secs,
            acquire_timeout_ms: config.pool_acquire_timeout_ms,
            cleanup_interval_secs: 60,
        }
    }
}

/// Handing out an idle session and taking it back leaves the in-use and
/// idle counts as they were, and counts one acquisition and one release.
pub proof fn lemma_acquire_then_release(st: PoolStats)
    requires
        st.idle >= 1,
        st.in_use < usize::MAX,
        st.total_acquisitions < u64::MAX,
        st.total_releases < u64::MAX,
    ensures
        stats_after_release(stats_after_acquire(st)).in_use == st.in_use,
        stats_after_release(stats_after_acquire(st)).idle == st.idle,
        stats_after_release(stats_after_acquire(st)).total_connections == st.total_connections,
        stats_after_release(stats_after_acquire(st)).total_acquisitions == st.total_acquisitions + 1,
        stats_after_release(stats_after_acquire(st)).total_releases == st.total_releases + 1,
{
}

/// An idle sweep keeps exactly the sessions that are in use or were used
/// within the timeout; every session it keeps was in the pool before.
pub proof fn lemma_sweep_keeps_recent(s: Seq<ConnInfo>, timeout_secs: u64, now_ms: u64)
    ensures
        forall|k: int| 0 <= k < surviving(s, timeout_secs, now_ms).len()
            ==> !idle_expired(#[trigger] surviving(s, timeout_secs, now_ms)[k], timeout_secs, now_ms)
                && s.contains(surviving(s, timeout_secs, now_ms)[k]),
    decreases s.len(),
{
    if s.len() > 0 {
        lemma_sweep_keeps_recent(s.drop_last(), timeout_secs, now_ms);
        let r = surviving(s.drop_last(), timeout_secs, now_ms);
        assert forall|k: int| 0 <= k < surviving(s, timeout_secs, now_ms).len()
            implies !idle_expired(#[trigger] surviving(s, timeout_secs, now_ms)[k], timeout_secs, now_ms)
                && s.contains(surviving(s, timeout_secs, now_ms)[k]) by {
            if k < r.len() {
                assert(surviving(s, timeout_secs, now_ms)[k] == r[k]);
                let j = choose|j: int| 0 <= j < s.drop_last().len() && s.drop_last()[j] == r[k];
                assert(s[j] == r[k]);
            } else {
                assert(surviving(s, timeout_secs, now_ms)[k] == s.last());
                assert(s[s.len() - 1] == s.last());
            }
        }
    }
}

} // verus!
