//! The VPN client: connection limits and retry bookkeeping, the cluster of
//! servers, and the decisions of the client's connection state machine.
//!
//! Time is measured in milliseconds. Functions that read the clock have a
//! companion that takes the time as an argument; the companion's contract
//! says exactly what happens at that time.

use vstd::prelude::*;
use crate::clock::now_millis;
use crate::config::{ClusteringConfig, Config, ConnectionLimitsConfig, LoadBalancingStrategy};
use crate::net::{dotted, ipv4, ipv4_spec, IpAddress};
use crate::ipv4_text::{lemma_parse_dotted_roundtrip, parse_dotted, parse_ipv4};
use crate::protocol::handler::{data_pack_view, keepalive_pack_view, ProtocolHandler};
use crate::protocol::pack::Pack;
use crate::protocol::session::SessionManager;
use crate::tunnel::{TunnelConfig, TunnelManager};
use crate::net::SocketAddress;
use crate::random::random_below;
use crate::error::{Result, VpnError};
use crate::text::{decimal, join2, u64_to_decimal};
use crate::unicode::str_eq;

verus! {

/// Connection status of the client.
#[derive(Debug, Clone, Copy, PartialEq, Eq, Structural)]
pub enum ConnectionStatus {
    Disconnected,
    Connecting,
    /// Protocol connected but no tunnel
    Connected,
    /// Full tunnel established
    Tunneling,
}

/// How long a connection attempt counts against the rate limit, which is
/// a number of attempts per second.
pub const RATE_WINDOW_MS: u64 = 1000;

/// Retry bookkeeping of one endpoint.
#[derive(Debug, Clone)]
pub struct RetryRecord {
    pub endpoint: String,
    /// Failed attempts since the last reset
    pub count: u32,
    /// When the record was last written
    pub last_attempt_ms: u64,
}

/// The retry record of `endpoint`, as (count, time of last attempt).
pub open spec fn retry_lookup(records: Seq<RetryRecord>, endpoint: Seq<char>) -> Option<(u32, u64)>
    decreases records.len(),
{
    if records.len() == 0 {
        None
    } else if records[0].endpoint@ == endpoint {
        Some((records[0].count, records[0].last_attempt_ms))
    } else {
        retry_lookup(records.drop_first(), endpoint)
    }
}

/// No endpoint has two records.
pub open spec fn distinct_endpoints(records: Seq<RetryRecord>) -> bool {
    forall|i: int, j: int|
        0 <= i < j < records.len() ==> #[trigger] records[i].endpoint@ != #[trigger] records[j].endpoint@
}

/// The connection attempts that still count at `now`: those made less than
/// a second before.
pub open spec fn recent_attempts(attempts: Seq<u64>, now: u64) -> Seq<u64> {
    attempts.filter(|a: u64| a + RATE_WINDOW_MS > now)
}

proof fn lemma_lookup_absent(records: Seq<RetryRecord>, endpoint: Seq<char>)
    requires
        forall|i: int| 0 <= i < records.len() ==> #[trigger] records[i].endpoint@ != endpoint,
    ensures
        retry_lookup(records, endpoint) is None,
    decreases records.len(),
{
    if records.len() > 0 {
        lemma_lookup_absent(records.drop_first(), endpoint);
    }
}

proof fn lemma_lookup_at(records: Seq<RetryRecord>, i: int)
    requires
        distinct_endpoints(records),
        0 <= i < records.len(),
    ensures
        retry_lookup(records, records[i].endpoint@) == Some((records[i].count, records[i].last_attempt_ms)),
    decreases records.len(),
{
    if i > 0 {
        assert(records[0].endpoint@ != records[i].endpoint@);
        let rest = records.drop_first();
        assert(rest[i - 1] == records[i]);
        lemma_lookup_at(rest, i - 1);
    }
}

proof fn lemma_lookup_update(records: Seq<RetryRecord>, i: int, r: RetryRecord, endpoint: Seq<char>)
    requires
        distinct_endpoints(records),
        0 <= i < records.len(),
        records[i].endpoint@ == r.endpoint@,
    ensures
        distinct_endpoints(records.update(i, r)),
        retry_lookup(records.update(i, r), endpoint) == if endpoint == r.endpoint@ {
            Some((r.count, r.last_attempt_ms))
        } else {
            retry_lookup(records, endpoint)
        },
    decreases records.len(),
{
    let u = records.update(i, r);
    assert(distinct_endpoints(u)) by {
        assert forall|a: int, b: int| 0 <= a < b < u.len() implies #[trigger] u[a].endpoint@
            != #[trigger] u[b].endpoint@ by {
            assert(records[a].endpoint@ != records[b].endpoint@);
        }
    }
    if i == 0 {
        assert(u.drop_first() =~= records.drop_first());
        if endpoint != r.endpoint@ {
        }
    } else {
        let rest = records.drop_first();
        assert(u.drop_first() =~= rest.update(i - 1, r));
        assert(distinct_endpoints(rest)) by {
            assert forall|a: int, b: int| 0 <= a < b < rest.len() implies #[trigger] rest[a].endpoint@
                != #[trigger] rest[b].endpoint@ by {
                assert(records[a + 1].endpoint@ != records[b + 1].endpoint@);
            }
        }
        lemma_lookup_update(rest, i - 1, r, endpoint);
        assert(records[0].endpoint@ != records[i].endpoint@);
    }
}

proof fn lemma_lookup_push(records: Seq<RetryRecord>, r: RetryRecord, endpoint: Seq<char>)
    requires
        distinct_endpoints(records),
        forall|i: int| 0 <= i < records.len() ==> #[trigger] records[i].endpoint@ != r.endpoint@,
    ensures
        distinct_endpoints(records.push(r)),
        retry_lookup(records.push(r), endpoint) == if endpoint == r.endpoint@ {
            Some((r.count, r.last_attempt_ms))
        } else {
            retry_lookup(records, endpoint)
        },
    decreases records.len(),
{
    let p = records.push(r);
    assert(distinct_endpoints(p)) by {
        assert forall|a: int, b: int| 0 <= a < b < p.len() implies #[trigger] p[a].endpoint@
            != #[trigger] p[b].endpoint@ by {
            if b < records.len() {
                assert(records[a].endpoint@ != records[b].endpoint@);
            } else {
                assert(records[a].endpoint@ != r.endpoint@);
            }
        }
    }
    if records.len() > 0 {
        let rest = records.drop_first();
        assert(p.drop_first() =~= rest.push(r));
        assert(distinct_endpoints(rest)) by {
            assert forall|a: int, b: int| 0 <= a < b < rest.len() implies #[trigger] rest[a].endpoint@
                != #[trigger] rest[b].endpoint@ by {
                assert(records[a + 1].endpoint@ != records[b + 1].endpoint@);
            }
        }
        assert(forall|i: int| 0 <= i < rest.len() ==> #[trigger] rest[i].endpoint@ != r.endpoint@) by {
            assert forall|i: int| 0 <= i < rest.len() implies #[trigger] rest[i].endpoint@ != r.endpoint@ by {
                assert(rest[i] == records[i + 1]);
            }
        }
        assert(records[0].endpoint@ != r.endpoint@);
        lemma_lookup_push(rest, r, endpoint);
    } else {
        assert(p.drop_first() =~= Seq::<RetryRecord>::empty());
        assert(retry_lookup(p.drop_first(), endpoint) is None);
    }
}

/// Connection tracking for limits and rate limiting.
#[derive(Debug)]
pub struct ConnectionTracker {
    /// Active connection count
    pub active_connections: u32,
    /// When the recent connection attempts were made
    pub connection_attempts: Vec<u64>,
    /// Retry bookkeeping, one record per endpoint
    pub retry_attempts: Vec<RetryRecord>,
}

/// The text of a refusal for too many concurrent connections.
pub open spec fn limit_message(current: u32, max: u32) -> Seq<char> {
    "Maximum concurrent connections reached: "@ + decimal(current as nat) + "/"@ + decimal(
        max as nat,
    )
}

/// The text of a refusal for too many attempts within a second.
pub open spec fn rate_message(attempts: nat, rps: u32) -> Seq<char> {
    "Too many connection attempts: "@ + decimal(attempts) + "/"@ + decimal(rps as nat)
        + " per second"@
}

/// The text of a refusal for too many retries.
pub open spec fn retry_message(endpoint: Seq<char>, count: u32, limit: u32, wait_secs: nat) -> Seq<
    char,
> {
    "Too many retry attempts for "@ + endpoint + ": "@ + decimal(count as nat) + "/"@ + decimal(
        limit as nat,
    ) + ". Wait "@ + decimal(wait_secs) + " seconds."@
}

/// How long an endpoint that has failed `count` times must wait before the
/// next try, in milliseconds: the retry delay (in milliseconds) once for
/// each failure from the limit on.
pub open spec fn retry_cooldown_ms(config: ConnectionLimitsConfig, count: u32) -> int {
    config.retry_delay * (count - config.retry_attempts + 1)
}

/// The milliseconds from `from` to `to`, or zero when `to` is earlier.
pub open spec fn elapsed_ms(from: u64, to: u64) -> int {
    if to >= from {
        to - from
    } else {
        0
    }
}

/// What `can_connect` does at time `now`: the tracker `new` it leaves and the
/// answer `r`.
pub open spec fn connect_check(
    old: ConnectionTracker,
    config: ConnectionLimitsConfig,
    now: u64,
    new: ConnectionTracker,
    r: Result<()>,
) -> bool {
    &&& new.active_connections == old.active_connections
    &&& new.retry_attempts@ == old.retry_attempts@
    &&& if config.max_connections > 0 && old.active_connections >= config.max_connections {
        &&& new.connection_attempts@ == old.connection_attempts@
        &&& r matches Err(VpnError::ConnectionLimitReached(m)) && m@ == limit_message(
            old.active_connections,
            config.max_connections,
        )
    } else if config.rate_limit_rps > 0 {
        let recent = recent_attempts(old.connection_attempts@, now);
        if recent.len() >= config.rate_limit_rps {
            &&& new.connection_attempts@ == recent
            &&& r matches Err(VpnError::RateLimitExceeded(m)) && m@ == rate_message(
                recent.len(),
                config.rate_limit_rps,
            )
        } else {
            &&& new.connection_attempts@ == recent.push(now)
            &&& r is Ok
        }
    } else {
        &&& new.connection_attempts@ == old.connection_attempts@
        &&& r is Ok
    }
}

/// What `can_retry` does for `endpoint` at time `now`.
pub open spec fn retry_check(
    old: ConnectionTracker,
    endpoint: Seq<char>,
    config: ConnectionLimitsConfig,
    now: u64,
    new: ConnectionTracker,
    r: Result<()>,
) -> bool {
    &&& new.active_connections == old.active_connections
    &&& new.connection_attempts@ == old.connection_attempts@
    &&& distinct_endpoints(new.retry_attempts@)
    &&& if config.retry_attempts == 0 {
        new.retry_attempts@ == old.retry_attempts@ && r is Ok
    } else {
        match retry_lookup(old.retry_attempts@, endpoint) {
            Some((count, last)) if count >= config.retry_attempts => {
                let cooldown = retry_cooldown_ms(config, count);
                let waited = elapsed_ms(last, now);
                if waited < cooldown {
                    &&& new.retry_attempts@ == old.retry_attempts@
                    &&& r matches Err(VpnError::RetryLimitExceeded(m)) && m@ == retry_message(
                        endpoint,
                        count,
                        config.retry_attempts,
                        ((cooldown - waited) / 1000) as nat,
                    )
                } else {
                    &&& forall|e: Seq<char>| #[trigger]
                        retry_lookup(new.retry_attempts@, e) == if e == endpoint {
                            Some((0u32, now))
                        } else {
                            retry_lookup(old.retry_attempts@, e)
                        }
                    &&& r is Ok
                }
            },
            _ => new.retry_attempts@ == old.retry_attempts@ && r is Ok,
        }
    }
}

/// After a failed attempt on `endpoint` at `now`: its count is one more (or
/// one, for a new endpoint) and its time is `now`; other endpoints keep theirs.
pub open spec fn retry_recorded(
    old: ConnectionTracker,
    endpoint: Seq<char>,
    now: u64,
    new: ConnectionTracker,
) -> bool {
    forall|e: Seq<char>| #[trigger]
        retry_lookup(new.retry_attempts@, e) == if e == endpoint {
            Some(
                (
                    (match retry_lookup(old.retry_attempts@, endpoint) {
                        Some((c, _)) => c,
                        None => 0u32,
                    }).wrapping_add(1),
                    now,
                ),
            )
        } else {
            retry_lookup(old.retry_attempts@, e)
        }
}

impl ConnectionTracker {
    /// The retry records name each endpoint once.
    pub open spec fn well_formed(&self) -> bool {
        distinct_endpoints(self.retry_attempts@)
    }

    /// The retry record of `endpoint`, as (count, time of last attempt).
    pub open spec fn retry_record(&self, endpoint: Seq<char>) -> Option<(u32, u64)> {
        retry_lookup(self.retry_attempts@, endpoint)
    }

    /// A tracker with no connections, attempts or retries.
    pub fn new() -> (r: Self)
        ensures
            r.well_formed(),
            r.active_connections == 0,
            r.connection_attempts@ == Seq::<u64>::empty(),
            r.retry_attempts@ == Seq::<RetryRecord>::empty(),
    {
        Self { active_connections: 0, connection_attempts: Vec::new(), retry_attempts: Vec::new() }
    }

    /// Position of the record of `endpoint`.
    fn find_retry(&self, endpoint: &str) -> (r: Option<usize>)
        ensures
            r matches Some(i) ==> i < self.retry_attempts@.len()
                && self.retry_attempts@[i as int].endpoint@ == endpoint@,
            r is None ==> forall|i: int|
                0 <= i < self.retry_attempts@.len() ==> #[trigger] self.retry_attempts@[i].endpoint@
                    != endpoint@,
    {
        let mut i: usize = 0;
        while i < self.retry_attempts.len()
            invariant
                i <= self.retry_attempts@.len(),
                forall|j: int| 0 <= j < i ==> #[trigger] self.retry_attempts@[j].endpoint@ != endpoint@,
            decreases self.retry_attempts@.len() - i,
        {
            if str_eq(self.retry_attempts[i].endpoint.as_str(), endpoint) {
                return Some(i);
            }
            i = i + 1;
        }
        None
    }

    /// Drops the connection attempts made a second or more before `now`.
    fn drop_old_attempts(&mut self, now: u64)
        ensures
            final(self).connection_attempts@ == recent_attempts(old(self).connection_attempts@, now),
            final(self).active_connections == old(self).active_connections,
            final(self).retry_attempts@ == old(self).retry_attempts@,
    {
        let ghost pred = |a: u64| a + RATE_WINDOW_MS > now;
        let mut kept: Vec<u64> = Vec::new();
        let mut i: usize = 0;
        while i < self.connection_attempts.len()
            invariant
                i <= self.connection_attempts@.len(),
                pred == (|a: u64| a + RATE_WINDOW_MS > now),
                kept@ == self.connection_attempts@.subrange(0, i as int).filter(pred),
            decreases self.connection_attempts@.len() - i,
        {
            let a = self.connection_attempts[i];
            proof {
                let s = self.connection_attempts@.subrange(0, i + 1);
                assert(s.drop_last() =~= self.connection_attempts@.subrange(0, i as int));
                assert(s.last() == a);
                reveal(Seq::filter);
            }
            if now < RATE_WINDOW_MS || a > now - RATE_WINDOW_MS {
                kept.push(a);
            }
            i = i + 1;
        }
        assert(self.connection_attempts@.subrange(0, i as int) =~= self.connection_attempts@);
        self.connection_attempts = kept;
    }

    /// Checks the concurrent-connection limit and the per-second rate limit at
    /// time `now`, and counts the attempt when it is allowed.
    pub fn can_connect_at(&mut self, config: &ConnectionLimitsConfig, now: u64) -> (r: Result<()>)
        ensures
            connect_check(*old(self), *config, now, *final(self), r),
    {
        if config.max_connections > 0 {
            let current = self.active_connections;
            if current >= config.max_connections {
                let a = join2("Maximum concurrent connections reached: ", u64_to_decimal(current as u64).as_str());
                let b = join2(a.as_str(), "/");
                let m = join2(b.as_str(), u64_to_decimal(config.max_connections as u64).as_str());
                return Err(VpnError::ConnectionLimitReached(m));
            }
        }
        if config.rate_limit_rps > 0 {
            self.drop_old_attempts(now);
            let n = self.connection_attempts.len();
            if n as u64 >= config.rate_limit_rps as u64 {
                let a = join2("Too many connection attempts: ", u64_to_decimal(n as u64).as_str());
                let b = join2(a.as_str(), "/");
                let c = join2(b.as_str(), u64_to_decimal(config.rate_limit_rps as u64).as_str());
                let m = join2(c.as_str(), " per second");
                return Err(VpnError::RateLimitExceeded(m));
            }
            self.connection_attempts.push(now);
        }
        Ok(())
    }

    /// Checks the concurrent-connection limit and the rate limit now.
    pub fn can_connect(&mut self, config: &ConnectionLimitsConfig) -> (r: Result<()>)
        ensures
            exists|now: u64| connect_check(*old(self), *config, now, *final(self), r),
    {
        let now = now_millis();
        self.can_connect_at(config, now)
    }

    /// Checks the retry limit of `endpoint` at time `now`. An endpoint that
    /// has failed `retry_attempts` times or more must wait a cooldown that
    /// grows with each further failure; once it has waited, its count starts
    /// again from zero.
    pub fn can_retry_at(&mut self, endpoint: &str, config: &ConnectionLimitsConfig, now: u64) -> (r:
        Result<()>)
        requires
            old(self).well_formed(),
        ensures
            retry_check(*old(self), endpoint@, *config, now, *final(self), r),
    {
        if config.retry_attempts == 0 {
            return Ok(());
        }
        match self.find_retry(endpoint) {
            Some(i) => {
                let count = self.retry_attempts[i].count;
                let last = self.retry_attempts[i].last_attempt_ms;
                proof {
                    lemma_lookup_at(self.retry_attempts@, i as int);
                }
                if count >= config.retry_attempts {
                    let waited: u64 = if now >= last {
                        now - last
                    } else {
                        0
                    };
                    let factor: u64 = (count - config.retry_attempts + 1) as u64;
                    let delay: u128 = config.retry_delay as u128;
                    assert(delay * factor <= 0xffff_ffff_u128 * 0xffff_ffff_u128) by (nonlinear_arith)
                        requires
                            delay <= 0xffff_ffff,
                            factor <= 0xffff_ffff,
                    ;
                    let cooldown: u128 = delay * factor as u128;
                    assert(cooldown == retry_cooldown_ms(*config, count)) by (nonlinear_arith)
                        requires
                            factor == count - config.retry_attempts + 1,
                            delay == config.retry_delay,
                            cooldown == delay * factor,
                    ;
                    if (waited as u128) < cooldown {
                        let wait_secs: u128 = (cooldown - waited as u128) / 1000;
                        assert(wait_secs <= u64::MAX) by (nonlinear_arith)
                            requires
                                wait_secs == (cooldown - waited as u128) / 1000,
                                cooldown == delay * factor,
                                delay <= u32::MAX,
                                factor <= u32::MAX,
                        ;
                        let a = join2("Too many retry attempts for ", endpoint);
                        let b = join2(a.as_str(), ": ");
                        let c = join2(b.as_str(), u64_to_decimal(count as u64).as_str());
                        let d = join2(c.as_str(), "/");
                        let e = join2(d.as_str(), u64_to_decimal(config.retry_attempts as u64).as_str());
                        let f = join2(e.as_str(), ". Wait ");
                        let g = join2(f.as_str(), u64_to_decimal(wait_secs as u64).as_str());
                        let m = join2(g.as_str(), " seconds.");
                        return Err(VpnError::RetryLimitExceeded(m));
                    } else {
                        let rec = RetryRecord { endpoint: endpoint.to_owned(), count: 0, last_attempt_ms: now };
                        proof {
                            assert forall|e: Seq<char>| #[trigger]
                                retry_lookup(self.retry_attempts@.update(i as int, rec), e) == if e == endpoint@ {
                                    Some((0u32, now))
                                } else {
                                    retry_lookup(self.retry_attempts@, e)
                                } by {
                                lemma_lookup_update(self.retry_attempts@, i as int, rec, e);
                            }
                            lemma_lookup_update(self.retry_attempts@, i as int, rec, endpoint@);
                        }
                        self.retry_attempts.set(i, rec);
                    }
                }
            },
            None => {
                proof {
                    lemma_lookup_absent(self.retry_attempts@, endpoint@);
                }
            },
        }
        Ok(())
    }

    /// Checks the retry limit of `endpoint` now.
    pub fn can_retry(&mut self, endpoint: &str, config: &ConnectionLimitsConfig) -> (r: Result<()>)
        requires
            old(self).well_formed(),
        ensures
            exists|now: u64| retry_check(*old(self), endpoint@, *config, now, *final(self), r),
    {
        let now = now_millis();
        self.can_retry_at(endpoint, config, now)
    }

    /// Counts a new connection (the count wraps as an atomic counter does).
    pub fn record_connection(&mut self)
        ensures
            final(self).active_connections == old(self).active_connections.wrapping_add(1),
            final(self).connection_attempts@ == old(self).connection_attempts@,
            final(self).retry_attempts@ == old(self).retry_attempts@,
    {
        self.active_connections = self.active_connections.wrapping_add(1);
    }

    /// Counts a disconnection (the count wraps as an atomic counter does).
    pub fn record_disconnection(&mut self)
        ensures
            final(self).active_connections == old(self).active_connections.wrapping_sub(1),
            final(self).connection_attempts@ == old(self).connection_attempts@,
            final(self).retry_attempts@ == old(self).retry_attempts@,
    {
        self.active_connections = self.active_connections.wrapping_sub(1);
    }

    /// Counts a failed attempt on `endpoint` at time `now`.
    pub fn record_retry_at(&mut self, endpoint: &str, now: u64)
        requires
            old(self).well_formed(),
        ensures
            final(self).well_formed(),
            final(self).active_connections == old(self).active_connections,
            final(self).connection_attempts@ == old(self).connection_attempts@,
            retry_recorded(*old(self), endpoint@, now, *final(self)),
    {
        match self.find_retry(endpoint) {
            Some(i) => {
                proof {
                    lemma_lookup_at(self.retry_attempts@, i as int);
                }
                let count = self.retry_attempts[i].count;
                let rec = RetryRecord {
                    endpoint: endpoint.to_owned(),
                    count: count.wrapping_add(1),
                    last_attempt_ms: now,
                };
                proof {
                    assert forall|e: Seq<char>| #[trigger]
                        retry_lookup(self.retry_attempts@.update(i as int, rec), e) == if e == endpoint@ {
                            Some((count.wrapping_add(1), now))
                        } else {
                            retry_lookup(self.retry_attempts@, e)
                        } by {
                        lemma_lookup_update(self.retry_attempts@, i as int, rec, e);
                    }
                    lemma_lookup_update(self.retry_attempts@, i as int, rec, endpoint@);
                }
                self.retry_attempts.set(i, rec);
            },
            None => {
                proof {
                    lemma_lookup_absent(self.retry_attempts@, endpoint@);
                }
                let rec = RetryRecord { endpoint: endpoint.to_owned(), count: 1, last_attempt_ms: now };
                proof {
                    assert forall|e: Seq<char>| #[trigger]
                        retry_lookup(self.retry_attempts@.push(rec), e) == if e == endpoint@ {
                            Some((1u32, now))
                        } else {
                            retry_lookup(self.retry_attempts@, e)
                        } by {
                        lemma_lookup_push(self.retry_attempts@, rec, e);
                    }
                    lemma_lookup_push(self.retry_attempts@, rec, endpoint@);
                }
                self.retry_attempts.push(rec);
            },
        }
    }

    /// Counts a failed attempt on `endpoint` now.
    pub fn record_retry(&mut self, endpoint: &str)
        requires
            old(self).well_formed(),
        ensures
            final(self).well_formed(),
            final(self).active_connections == old(self).active_connections,
            final(self).connection_attempts@ == old(self).connection_attempts@,
            exists|now: u64| #[trigger] retry_recorded(*old(self), endpoint@, now, *final(self)),
    {
        let now = now_millis();
        self.record_retry_at(endpoint, now);
    }
}

/// Cluster node information.
#[derive(Debug, Clone)]
pub struct ClusterNode {
    pub address: String,
    pub endpoint: Option<SocketAddress>,
    pub is_healthy: bool,
    pub active_connections: u32,
    /// When the node was last checked
    pub last_health_check_ms: u64,
    /// How long the node took to answer
    pub response_time_ms: u64,
}

/// The outcome of looking up a node's address.
#[derive(Debug, Clone, Copy)]
pub enum HealthProbe {
    /// The address resolved; the first address found
    Resolved(SocketAddress),
    /// The lookup succeeded but gave no address
    NoAddress,
    /// The lookup failed
    Failed,
}

/// Cluster manager for handling multiple VPN endpoints.
#[derive(Debug)]
pub struct ClusterManager {
    pub nodes: Vec<ClusterNode>,
    pub current_node_index: usize,
    pub total_connections: u32,
    pub config: ClusteringConfig,
    /// When the last failover happened
    pub last_failover_ms: u64,
}

/// Indices of the healthy nodes, in order.
pub open spec fn healthy_indices(nodes: Seq<ClusterNode>) -> Seq<int>
    decreases nodes.len(),
{
    if nodes.len() == 0 {
        Seq::empty()
    } else {
        let rest = healthy_indices(nodes.drop_last());
        if nodes.last().is_healthy {
            rest.push(nodes.len() - 1)
        } else {
            rest
        }
    }
}

/// Whether node `i` is a healthy node with the fewest connections, and no
/// healthy node before it has as few.
pub open spec fn is_least_loaded(nodes: Seq<ClusterNode>, i: int) -> bool {
    &&& 0 <= i < nodes.len()
    &&& nodes[i].is_healthy
    &&& forall|j: int|
        0 <= j < nodes.len() && #[trigger] nodes[j].is_healthy ==> nodes[i].active_connections
            <= nodes[j].active_connections
    &&& forall|j: int|
        0 <= j < i && #[trigger] nodes[j].is_healthy ==> nodes[j].active_connections
            > nodes[i].active_connections
}

/// The first healthy node met when stepping round from `current`, trying
/// the nodes `current + k`, `current + k + 1`, ... up to `current + len`.
pub open spec fn next_healthy_after(nodes: Seq<ClusterNode>, current: int, k: int) -> Option<int>
    decreases nodes.len() + 1 - k,
{
    if k < 1 || k > nodes.len() {
        None
    } else if nodes[(current + k) % (nodes.len() as int)].is_healthy {
        Some((current + k) % (nodes.len() as int))
    } else {
        next_healthy_after(nodes, current, k + 1)
    }
}

proof fn lemma_mod_step(x: int, m: int)
    requires
        x >= 0,
        m > 0,
    ensures
        ((x % m) + 1) % m == (x + 1) % m,
{
    vstd::arithmetic::div_mod::lemma_fundamental_div_mod(x, m);
    vstd::arithmetic::div_mod::lemma_mod_multiples_vanish(x / m, x % m + 1, m);
}

proof fn lemma_healthy_indices(nodes: Seq<ClusterNode>)
    ensures
        forall|k: int|
            0 <= k < healthy_indices(nodes).len() ==> 0 <= #[trigger] healthy_indices(nodes)[k]
                < nodes.len() && nodes[healthy_indices(nodes)[k]].is_healthy,
        (healthy_indices(nodes).len() == 0) <==> (forall|i: int|
            0 <= i < nodes.len() ==> !#[trigger] nodes[i].is_healthy),
    decreases nodes.len(),
{
    if nodes.len() > 0 {
        let init = nodes.drop_last();
        lemma_healthy_indices(init);
        assert forall|i: int| 0 <= i < init.len() implies init[i] == nodes[i] by {}
        if healthy_indices(nodes).len() == 0 {
            assert forall|i: int| 0 <= i < nodes.len() implies !#[trigger] nodes[i].is_healthy by {
                if i < init.len() {
                    assert(init[i] == nodes[i]);
                }
            }
        }
    }
}

/// The first healthy node among the nodes `start + k`, `start + k + 1`, ...
/// up to one round from `start` (stepping round the end of the list).
pub open spec fn first_healthy_from(nodes: Seq<ClusterNode>, start: int, k: int) -> Option<int>
    decreases nodes.len() - k,
{
    if k < 0 || k >= nodes.len() {
        None
    } else if nodes[(start + k) % (nodes.len() as int)].is_healthy {
        Some((start + k) % (nodes.len() as int))
    } else {
        first_healthy_from(nodes, start, k + 1)
    }
}

/// A node that [`first_healthy_from`] finds is a healthy node.
pub proof fn lemma_first_healthy_from(nodes: Seq<ClusterNode>, start: int, k: int)
    requires
        nodes.len() > 0,
    ensures
        first_healthy_from(nodes, start, k) matches Some(i) ==> 0 <= i < nodes.len() && nodes[i].is_healthy,
    decreases nodes.len() - k,
{
    if 0 <= k < nodes.len() {
        lemma_first_healthy_from(nodes, start, k + 1);
    }
}

/// One round-robin pick from the cursor: the first healthy node at or after
/// it, with the cursor moved just past that node; no node and the cursor
/// left alone when no node is healthy.
pub open spec fn round_robin_step(nodes: Seq<ClusterNode>, cursor: int) -> (Option<int>, int) {
    match first_healthy_from(nodes, cursor, 0) {
        Some(i) => (Some(i), (i + 1) % (nodes.len() as int)),
        None => (None, cursor),
    }
}

/// The nodes that `k` round-robin picks in a row give, from the cursor.
pub open spec fn round_robin_picks(nodes: Seq<ClusterNode>, cursor: int, k: nat) -> Seq<Option<int>>
    decreases k,
{
    if k == 0 {
        Seq::empty()
    } else {
        let (p, next) = round_robin_step(nodes, cursor);
        seq![p] + round_robin_picks(nodes, next, (k - 1) as nat)
    }
}

impl ClusterManager {
    /// The current index is a node, when there are nodes.
    pub open spec fn well_formed(&self) -> bool {
        self.nodes@.len() > 0 ==> self.current_node_index < self.nodes@.len()
    }

    /// A manager for the configured nodes at time `now`: every node healthy,
    /// unresolved and idle.
    pub fn new_at(config: ClusteringConfig, now: u64) -> (r: Self)
        ensures
            r.well_formed(),
            r.nodes@.len() == config.cluster_nodes@.len(),
            forall|i: int|
                0 <= i < r.nodes@.len() ==> {
                    let n = #[trigger] r.nodes@[i];
                    &&& n.address@ == config.cluster_nodes@[i]@
                    &&& n.endpoint is None
                    &&& n.is_healthy
                    &&& n.active_connections == 0
                    &&& n.last_health_check_ms == now
                    &&& n.response_time_ms == 0
                },
            r.current_node_index == 0,
            r.total_connections == 0,
            r.config == config,
            r.last_failover_ms == now,
    {
        let mut nodes: Vec<ClusterNode> = Vec::new();
        let mut i: usize = 0;
        while i < config.cluster_nodes.len()
            invariant
                i <= config.cluster_nodes@.len(),
                nodes@.len() == i,
                forall|j: int|
                    0 <= j < i ==> {
                        let n = #[trigger] nodes@[j];
                        &&& n.address@ == config.cluster_nodes@[j]@
                        &&& n.endpoint is None
                        &&& n.is_healthy
                        &&& n.active_connections == 0
                        &&& n.last_health_check_ms == now
                        &&& n.response_time_ms == 0
                    },
            decreases config.cluster_nodes@.len() - i,
        {
            let address = config.cluster_nodes[i].clone();
            nodes.push(
                ClusterNode {
                    address,
                    endpoint: None,
                    is_healthy: true,
                    active_connections: 0,
                    last_health_check_ms: now,
                    response_time_ms: 0,
                },
            );
            i = i + 1;
        }
        Self { nodes, current_node_index: 0, total_connections: 0, config, last_failover_ms: now }
    }

    /// A manager for the configured nodes, made now.
    pub fn new(config: ClusteringConfig) -> (r: Self)
        ensures
            r.well_formed(),
            r.nodes@.len() == config.cluster_nodes@.len(),
            forall|i: int|
                0 <= i < r.nodes@.len() ==> {
                    let n = #[trigger] r.nodes@[i];
                    &&& n.address@ == config.cluster_nodes@[i]@
                    &&& n.endpoint is None
                    &&& n.is_healthy
                    &&& n.active_connections == 0
                    &&& n.last_health_check_ms == r.last_failover_ms
                    &&& n.response_time_ms == 0
                },
            r.current_node_index == 0,
            r.total_connections == 0,
            r.config == config,
    {
        let now = now_millis();
        Self::new_at(config, now)
    }

    /// Indices of the healthy nodes, in order.
    pub fn healthy_node_indices(&self) -> (r: Vec<usize>)
        ensures
            r@.len() == healthy_indices(self.nodes@).len(),
            forall|k: int| 0 <= k < r@.len() ==> r@[k] == #[trigger] healthy_indices(self.nodes@)[k],
    {
        let mut r: Vec<usize> = Vec::new();
        let mut i: usize = 0;
        while i < self.nodes.len()
            invariant
                i <= self.nodes@.len(),
                r@.len() == healthy_indices(self.nodes@.subrange(0, i as int)).len(),
                forall|k: int|
                    0 <= k < r@.len() ==> r@[k] == #[trigger] healthy_indices(
                        self.nodes@.subrange(0, i as int),
                    )[k],
            decreases self.nodes@.len() - i,
        {
            let ghost prefix = self.nodes@.subrange(0, i + 1);
            assert(prefix.drop_last() =~= self.nodes@.subrange(0, i as int));
            assert(prefix.last() == self.nodes@[i as int]);
            if self.nodes[i].is_healthy {
                r.push(i);
            }
            i = i + 1;
        }
        assert(self.nodes@.subrange(0, i as int) =~= self.nodes@);
        r
    }

    /// The healthy node with the fewest connections (the first such).
    fn least_loaded(&self) -> (r: Option<usize>)
        ensures
            r matches Some(i) ==> is_least_loaded(self.nodes@, i as int),
            r is None <==> forall|i: int| 0 <= i < self.nodes@.len() ==> !#[trigger] self.nodes@[i].is_healthy,
    {
        let mut best: Option<usize> = None;
        let mut i: usize = 0;
        while i < self.nodes.len()
            invariant
                i <= self.nodes@.len(),
                best matches Some(b) ==> b < i && is_least_loaded(self.nodes@.subrange(0, i as int), b as int),
                best is None ==> forall|j: int| 0 <= j < i ==> !#[trigger] self.nodes@[j].is_healthy,
            decreases self.nodes@.len() - i,
        {
            let ghost before = self.nodes@.subrange(0, i as int);
            let ghost after = self.nodes@.subrange(0, i + 1);
            assert forall|j: int| 0 <= j < i implies #[trigger] after[j] == before[j] by {}
            let n = &self.nodes[i];
            if n.is_healthy {
                match best {
                    None => {
                        best = Some(i);
                        assert forall|j: int| 0 <= j < after.len() && #[trigger] after[j].is_healthy implies
                            after[i as int].active_connections <= after[j].active_connections by {
                            if j < i {
                                assert(after[j] == self.nodes@[j]);
                            }
                        }
                    },
                    Some(b) => {
                        if n.active_connections < self.nodes[b].active_connections {
                            best = Some(i);
                            assert forall|j: int| 0 <= j < after.len() && #[trigger] after[j].is_healthy implies
                                after[i as int].active_connections <= after[j].active_connections by {
                                if j < i {
                                    assert(before[j].is_healthy);
                                }
                            }
                            assert forall|j: int| 0 <= j < i && #[trigger] after[j].is_healthy implies
                                after[j].active_connections > after[i as int].active_connections by {
                                assert(before[j].is_healthy);
                            }
                        } else {
                            assert forall|j: int| 0 <= j < after.len() && #[trigger] after[j].is_healthy implies
                                after[b as int].active_connections <= after[j].active_connections by {
                                if j < i {
                                    assert(before[j].is_healthy);
                                }
                            }
                            assert forall|j: int| 0 <= j < b && #[trigger] after[j].is_healthy implies
                                after[j].active_connections > after[b as int].active_connections by {
                                assert(before[j].is_healthy);
                            }
                        }
                    },
                }
            } else {
                if let Some(b) = best {
                    assert forall|j: int| 0 <= j < after.len() && #[trigger] after[j].is_healthy implies
                        after[b as int].active_connections <= after[j].active_connections by {
                        if j < i {
                            assert(before[j].is_healthy);
                        }
                    }
                    assert forall|j: int| 0 <= j < b && #[trigger] after[j].is_healthy implies
                        after[j].active_connections > after[b as int].active_connections by {
                        assert(before[j].is_healthy);
                    }
                }
            }
            i = i + 1;
        }
        assert(self.nodes@.subrange(0, i as int) =~= self.nodes@);
        best
    }

    /// The first healthy node at or after `start`, going round once.
    fn first_healthy_index(&self, start: usize) -> (r: Option<usize>)
        requires
            start < self.nodes@.len(),
        ensures
            r == match first_healthy_from(self.nodes@, start as int, 0) {
                Some(i) => Some(i as usize),
                None => None::<usize>,
            },
            r matches Some(i) ==> i < self.nodes@.len(),
    {
        proof {
            lemma_first_healthy_from(self.nodes@, start as int, 0);
        }
        let n = self.nodes.len();
        let mut idx: usize = start;
        let mut k: usize = 0;
        proof {
            vstd::arithmetic::div_mod::lemma_small_mod(start as nat, n as nat);
        }
        while k < n
            invariant
                n == self.nodes@.len(),
                start < n,
                k <= n,
                idx < n,
                idx == (start + k) % (n as int),
                first_healthy_from(self.nodes@, start as int, 0) == first_healthy_from(
                    self.nodes@,
                    start as int,
                    k as int,
                ),
            decreases n - k,
        {
            if self.nodes[idx].is_healthy {
                return Some(idx);
            }
            proof {
                lemma_mod_step(start + k, n as int);
            }
            idx = if idx + 1 == n { 0 } else { idx + 1 };
            proof {
                if idx == 0 {
                    vstd::arithmetic::div_mod::lemma_mod_self_0(n as int);
                } else {
                    vstd::arithmetic::div_mod::lemma_small_mod(idx as nat, n as nat);
                }
            }
            k = k + 1;
        }
        None
    }

    /// The `k`-th healthy node (counting from 0 in node order), if there are
    /// more than `k`.
    pub fn healthy_node(&self, k: usize) -> (r: Option<usize>)
        ensures
            k < healthy_indices(self.nodes@).len() ==> r == Some(healthy_indices(self.nodes@)[k as int] as usize),
            k >= healthy_indices(self.nodes@).len() ==> r is None,
    {
        let healthy = self.healthy_node_indices();
        if k < healthy.len() {
            Some(healthy[k])
        } else {
            None
        }
    }

    /// The node to use next, by the configured load balancing strategy:
    /// round robin (also for the weighted and hashing strategies) takes the
    /// first healthy node at or after the cursor and moves the cursor past
    /// it; least connections takes the first healthy
    /// node with the fewest connections; random takes a healthy node by
    /// chance.
    pub fn get_next_node(&mut self) -> (r: Option<usize>)
        requires
            old(self).well_formed(),
        ensures
            final(self).well_formed(),
            final(self).nodes@ == old(self).nodes@,
            final(self).total_connections == old(self).total_connections,
            final(self).config == old(self).config,
            final(self).last_failover_ms == old(self).last_failover_ms,
            old(self).nodes@.len() == 0 ==> r is None && final(self).current_node_index
                == old(self).current_node_index,
            r matches Some(i) ==> i < old(self).nodes@.len() && old(self).nodes@[i as int].is_healthy,
            old(self).nodes@.len() > 0 ==> match old(self).config.load_balancing_strategy {
                LoadBalancingStrategy::LeastConnections => {
                    &&& final(self).current_node_index == old(self).current_node_index
                    &&& (r is None <==> healthy_indices(old(self).nodes@).len() == 0)
                    &&& (r matches Some(i) ==> is_least_loaded(old(self).nodes@, i as int))
                },
                LoadBalancingStrategy::Random => {
                    &&& final(self).current_node_index == old(self).current_node_index
                    &&& (r is None <==> healthy_indices(old(self).nodes@).len() == 0)
                    &&& (r matches Some(i) ==> healthy_indices(old(self).nodes@).contains(i as int))
                },
                _ => {
                    &&& r == match round_robin_step(old(self).nodes@, old(self).current_node_index as int).0 {
                        Some(i) => Some(i as usize),
                        None => None,
                    }
                    &&& final(self).current_node_index == round_robin_step(
                        old(self).nodes@,
                        old(self).current_node_index as int,
                    ).1
                },
            },
            next_node_choice(*old(self), *final(self), r),
    {
        proof {
            lemma_healthy_indices(self.nodes@);
        }
        if self.nodes.len() == 0 {
            return None;
        }
        proof {
            lemma_first_healthy_from(self.nodes@, self.current_node_index as int, 0);
        }
        match self.config.load_balancing_strategy {
            LoadBalancingStrategy::LeastConnections => self.least_loaded(),
            LoadBalancingStrategy::Random => {
                let count = self.healthy_node_indices().len();
                if count == 0 {
                    return None;
                }
                let k = random_below(count);
                self.healthy_node(k)
            },
            _ => {
                let found = self.first_healthy_index(self.current_node_index);
                match found {
                    Some(i) => {
                        self.current_node_index = (i + 1) % self.nodes.len();
                        Some(i)
                    },
                    None => None,
                }
            },
        }
    }

    /// Update peer count (current active peers across the cluster).
    pub fn update_peer_count(&mut self, count: u32)
        ensures
            final(self).total_connections == count,
            final(self).nodes@ == old(self).nodes@,
            final(self).current_node_index == old(self).current_node_index,
            final(self).config == old(self).config,
            final(self).last_failover_ms == old(self).last_failover_ms,
    {
        self.total_connections = count;
    }

    /// Get current peer count.
    pub fn get_peer_count(&self) -> (r: u32)
        ensures
            r == self.total_connections,
    {
        self.total_connections
    }

    /// Get cluster nodes count.
    pub fn get_nodes_count(&self) -> (r: usize)
        ensures
            r == self.nodes@.len(),
    {
        self.nodes.len()
    }

    /// Whether the cluster can take another peer.
    pub fn can_add_peer(&self) -> (r: bool)
        ensures
            r == (self.total_connections < self.config.max_peers_per_cluster),
    {
        self.total_connections < self.config.max_peers_per_cluster
    }

    /// The nodes whose last check is older than the health check interval at
    /// time `now`, in order.
    pub fn nodes_due_for_health_check_at(&self, now: u64) -> (r: Vec<usize>)
        ensures
            forall|k: int| 0 <= k < r@.len() ==> #[trigger] r@[k] < self.nodes@.len(),
            forall|k: int, l: int| 0 <= k < l < r@.len() ==> #[trigger] r@[k] < #[trigger] r@[l],
            forall|i: int|
                0 <= i < self.nodes@.len() ==> (r@.contains(i as usize) <==> elapsed_ms(
                    #[trigger] self.nodes@[i].last_health_check_ms,
                    now,
                ) > self.config.health_check_interval * 1000),
    {
        let limit: u64 = self.config.health_check_interval as u64 * 1000;
        let mut r: Vec<usize> = Vec::new();
        let mut i: usize = 0;
        while i < self.nodes.len()
            invariant
                i <= self.nodes@.len(),
                limit == self.config.health_check_interval * 1000,
                forall|k: int| 0 <= k < r@.len() ==> #[trigger] r@[k] < i,
                forall|k: int, l: int| 0 <= k < l < r@.len() ==> #[trigger] r@[k] < #[trigger] r@[l],
                forall|j: int|
                    0 <= j < i ==> (r@.contains(j as usize) <==> elapsed_ms(
                        #[trigger] self.nodes@[j].last_health_check_ms,
                        now,
                    ) > self.config.health_check_interval * 1000),
            decreases self.nodes@.len() - i,
        {
            let last = self.nodes[i].last_health_check_ms;
            let waited: u64 = if now >= last {
                now - last
            } else {
                0
            };
            let ghost before = r@;
            if waited > limit {
                r.push(i);
            }
            assert forall|j: int| 0 <= j < i + 1 implies (r@.contains(j as usize) <==> elapsed_ms(
                #[trigger] self.nodes@[j].last_health_check_ms,
                now,
            ) > self.config.health_check_interval * 1000) by {
                if j < i {
                    if before.contains(j as usize) {
                        let k = choose|k: int| 0 <= k < before.len() && before[k] == j as usize;
                        assert(r@[k] == j as usize);
                    }
                    if r@.contains(j as usize) {
                        let k = choose|k: int| 0 <= k < r@.len() && r@[k] == j as usize;
                        assert(k < before.len());
                        assert(before[k] == j as usize);
                    }
                } else {
                    if waited > limit {
                        assert(r@[r@.len() - 1] == i);
                    } else if r@.contains(j as usize) {
                        let k = choose|k: int| 0 <= k < r@.len() && r@[k] == j as usize;
                        assert(before[k] < i);
                    }
                }
            }
            i = i + 1;
        }
        r
    }

    /// Records the outcome of checking node `index` at time `now`: a resolved
    /// address makes the node healthy and remembers the address; a failed
    /// lookup makes it unhealthy; a lookup without an address changes nothing.
    pub fn record_health_probe_at(&mut self, index: usize, probe: HealthProbe, now: u64)
        requires
            index < old(self).nodes@.len(),
        ensures
            final(self).current_node_index == old(self).current_node_index,
            final(self).total_connections == old(self).total_connections,
            final(self).config == old(self).config,
            final(self).last_failover_ms == old(self).last_failover_ms,
            final(self).nodes@ == match probe {
                HealthProbe::Resolved(addr) => old(self).nodes@.update(
                    index as int,
                    ClusterNode {
                        endpoint: Some(addr),
                        is_healthy: true,
                        last_health_check_ms: now,
                        ..old(self).nodes@[index as int]
                    },
                ),
                HealthProbe::NoAddress => old(self).nodes@,
                HealthProbe::Failed => old(self).nodes@.update(
                    index as int,
                    ClusterNode {
                        is_healthy: false,
                        last_health_check_ms: now,
                        ..old(self).nodes@[index as int]
                    },
                ),
            },
    {
        match probe {
            HealthProbe::Resolved(addr) => {
                let old_node = &self.nodes[index];
                let n = ClusterNode {
                    address: old_node.address.clone(),
                    endpoint: Some(addr),
                    is_healthy: true,
                    active_connections: old_node.active_connections,
                    last_health_check_ms: now,
                    response_time_ms: old_node.response_time_ms,
                };
                self.nodes.set(index, n);
            },
            HealthProbe::NoAddress => {},
            HealthProbe::Failed => {
                let old_node = &self.nodes[index];
                let n = ClusterNode {
                    address: old_node.address.clone(),
                    endpoint: old_node.endpoint,
                    is_healthy: false,
                    active_connections: old_node.active_connections,
                    last_health_check_ms: now,
                    response_time_ms: old_node.response_time_ms,
                };
                self.nodes.set(index, n);
            },
        }
    }

    /// What failing over at time `now` does: unless the last failover was
    /// less than the failover timeout ago, the next healthy node after the
    /// current one (stepping round) becomes current and is returned, and the
    /// failover time is `now`; otherwise, or when no node is healthy, nothing
    /// is returned and the current node and failover time stay.
    pub open spec fn failover_step(old: ClusterManager, now: u64, new: ClusterManager, r: Option<usize>) -> bool {
        &&& new.nodes@ == old.nodes@
        &&& new.total_connections == old.total_connections
        &&& new.config == old.config
        &&& elapsed_ms(old.last_failover_ms, now) < old.config.failover_timeout * 1000 ==> {
            &&& r is None
            &&& new.current_node_index == old.current_node_index
            &&& new.last_failover_ms == old.last_failover_ms
        }
        &&& elapsed_ms(old.last_failover_ms, now) >= old.config.failover_timeout * 1000 ==> {
            &&& r == (match next_healthy_after(old.nodes@, old.current_node_index as int, 1) {
                Some(i) => Some(i as usize),
                None => None,
            })
            &&& r matches Some(i) ==> new.current_node_index == i && new.last_failover_ms == now
            &&& r is None ==> new.current_node_index == old.current_node_index
                && new.last_failover_ms == old.last_failover_ms
        }
    }

    /// Handles failover at time `now`: unless the last failover was less than
    /// the failover timeout ago, steps round from the current node to the
    /// next healthy one, makes it current and returns it.
    pub fn failover_at(&mut self, now: u64) -> (r: Option<usize>)
        requires
            old(self).well_formed(),
        ensures
            final(self).well_formed(),
            final(self).nodes@ == old(self).nodes@,
            final(self).total_connections == old(self).total_connections,
            final(self).config == old(self).config,
            Self::failover_step(*old(self), now, *final(self), r),
    {
        let waited: u64 = if now >= self.last_failover_ms {
            now - self.last_failover_ms
        } else {
            0
        };
        if waited < self.config.failover_timeout as u64 * 1000 {
            return None;
        }
        let len = self.nodes.len();
        if len == 0 {
            return None;
        }
        let ghost start = self.current_node_index as int;
        let mut step: usize = 0;
        proof {
            vstd::arithmetic::div_mod::lemma_small_mod(start as nat, len as nat);
        }
        while step < len
            invariant
                elapsed_ms(old(self).last_failover_ms, now) >= old(self).config.failover_timeout * 1000,
                start == old(self).current_node_index,
                len == self.nodes@.len(),
                len > 0,
                step <= len,
                0 <= start < len,
                self.current_node_index == (start + step) % (len as int),
                next_healthy_after(self.nodes@, start, 1) == next_healthy_after(
                    self.nodes@,
                    start,
                    step + 1,
                ),
                self.last_failover_ms == old(self).last_failover_ms,
                self.nodes@ == old(self).nodes@,
                self.total_connections == old(self).total_connections,
                self.config == old(self).config,
            decreases len - step,
        {
            proof {
                lemma_mod_step(start + step, len as int);
            }
            self.current_node_index = (self.current_node_index + 1) % len;
            if self.nodes[self.current_node_index].is_healthy {
                self.last_failover_ms = now;
                return Some(self.current_node_index);
            }
            step = step + 1;
        }
        proof {
            vstd::arithmetic::div_mod::lemma_mod_multiples_vanish(1, start, len as int);
            vstd::arithmetic::div_mod::lemma_small_mod(start as nat, len as nat);
        }
        None
    }

    /// Handles failover now.
    pub fn failover(&mut self) -> (r: Option<usize>)
        requires
            old(self).well_formed(),
        ensures
            final(self).well_formed(),
            final(self).nodes@ == old(self).nodes@,
            r matches Some(i) ==> i < final(self).nodes@.len() && final(self).nodes@[i as int].is_healthy
                && final(self).current_node_index == i,
            r is None ==> final(self).current_node_index == old(self).current_node_index,
            exists|now: u64| #[trigger] Self::failover_step(*old(self), now, *final(self), r),
    {
        let now = now_millis();
        let r = self.failover_at(now);
        let count = self.nodes.len();
        proof {
            if count > 0 {
                lemma_next_healthy_after(self.nodes@, old(self).current_node_index as int, 1);
            }
            assert(Self::failover_step(*old(self), now, *self, r));
        }
        r
    }
}

/// The addresses the server assigned at authentication, as text.
#[derive(Debug, Clone)]
pub struct AssignedAddresses {
    pub local_ip: String,
    pub gateway_ip: String,
    pub netmask: String,
    /// Where in the server's answer the addresses were found
    pub source: String,
}

/// What the client knows of its authentication with the server.
#[derive(Debug)]
pub struct AuthInfo {
    pub session_id: Option<String>,
    pub is_authenticated: bool,
    pub ip_config: Option<AssignedAddresses>,
}

/// VPN session information.
#[derive(Debug)]
pub struct VpnSessionInfo {
    pub session_id: Option<String>,
    pub server_endpoint: Option<SocketAddress>,
    pub is_authenticated: bool,
    pub connection_status: ConnectionStatus,
    pub assigned_ip: Option<String>,
    pub vpn_server_ip: Option<IpAddress>,
}

/// How a keepalive is to be sent.
#[derive(Debug, Clone, Copy, PartialEq, Eq, Structural)]
pub enum KeepaliveMode {
    /// Over the tunnel, in the binary protocol
    Binary,
    /// Over HTTP, by the authenticated session
    Http,
}

/// The outcome of resolving a cluster node's address.
#[derive(Debug)]
pub enum Resolution {
    /// The first address found
    Found(SocketAddress),
    /// The lookup gave no address
    Empty,
    /// The lookup failed, with this message
    Failed(String),
}

/// Where a cluster connection goes.
#[derive(Debug)]
pub enum ClusterTarget {
    /// The node's known endpoint
    Endpoint(SocketAddress),
    /// The node at this index, whose address must first be resolved
    Resolve(usize, String),
}

/// SoftEther VPN client: its configuration and the state of its
/// connection, authentication, session, tunnel and cluster.
pub struct VpnClient {
    pub config: Config,
    pub auth: Option<AuthInfo>,
    pub protocol_handler: Option<ProtocolHandler>,
    pub session_manager: Option<SessionManager>,
    pub tunnel_manager: Option<TunnelManager>,
    pub status: ConnectionStatus,
    pub server_endpoint: Option<SocketAddress>,
    /// Cluster manager for SSL-VPN RPC farm support
    pub cluster_manager: Option<ClusterManager>,
    pub connection_tracker: ConnectionTracker,
}

/// The text `server:port` that names an endpoint for retry bookkeeping.
pub open spec fn endpoint_key(server: Seq<char>, port: u16) -> Seq<char> {
    server + ":"@ + decimal(port as nat)
}

/// The local address used when the server assigned none.
pub open spec fn fallback_local() -> u32 {
    ipv4_spec(10, 224, 51, 132)
}

/// The gateway used when the server assigned none.
pub open spec fn fallback_gateway() -> u32 {
    ipv4_spec(10, 224, 51, 1)
}

/// The netmask used when the server assigned none.
pub open spec fn fallback_netmask() -> u32 {
    ipv4_spec(255, 255, 255, 0)
}

/// The tunnel addresses (local, gateway, netmask) for what authentication
/// gave; `None` when there was no authentication at all.
pub open spec fn tunnel_addresses(auth: Option<AuthInfo>) -> Option<(u32, u32, u32)> {
    match auth {
        None => None,
        Some(a) => match a.ip_config {
            Some(c) => Some(
                (
                    match parse_dotted(c.local_ip@) {
                        Some(x) => x,
                        None => fallback_local(),
                    },
                    match parse_dotted(c.gateway_ip@) {
                        Some(x) => x,
                        None => fallback_gateway(),
                    },
                    match parse_dotted(c.netmask@) {
                        Some(x) => x,
                        None => fallback_netmask(),
                    },
                ),
            ),
            None => Some((fallback_local(), fallback_gateway(), fallback_netmask())),
        },
    }
}

fn or_default(x: Option<u32>, d: u32) -> (r: u32)
    ensures
        r == match x {
            Some(v) => v,
            None => d,
        },
{
    match x {
        Some(v) => v,
        None => d,
    }
}

impl VpnClient {
    /// The tracker and the cluster manager are consistent.
    pub open spec fn well_formed(&self) -> bool {
        &&& self.connection_tracker.well_formed()
        &&& self.cluster_manager matches Some(m) ==> m.well_formed()
    }

    /// A client for `config`, with `tracker` counting its connections.
    pub fn new_with_shared_tracker(config: Config, tracker: ConnectionTracker) -> (r: Result<Self>)
        requires
            tracker.well_formed(),
        ensures
            r matches Ok(c) && {
                &&& c.well_formed()
                &&& c.config == config
                &&& c.status == ConnectionStatus::Disconnected
                &&& c.auth is None && c.protocol_handler is None && c.session_manager is None
                &&& c.tunnel_manager is None && c.server_endpoint is None
                &&& c.connection_tracker == tracker
                &&& (c.cluster_manager is Some <==> config.clustering.enabled)
                &&& c.cluster_manager matches Some(m) ==> m.nodes@.len()
                    == config.clustering.cluster_nodes@.len() && forall|i: int|
                    0 <= i < m.nodes@.len() ==> (#[trigger] m.nodes@[i]).address@
                        == config.clustering.cluster_nodes@[i]@ && m.nodes@[i].is_healthy
                        && m.nodes@[i].endpoint is None && m.nodes@[i].active_connections == 0
            },
    {
        let cluster_manager = if config.clustering.enabled {
            Some(ClusterManager::new(config.clustering.duplicate()))
        } else {
            None
        };
        Ok(VpnClient {
            config,
            auth: None,
            protocol_handler: None,
            session_manager: None,
            tunnel_manager: None,
            status: ConnectionStatus::Disconnected,
            server_endpoint: None,
            cluster_manager,
            connection_tracker: tracker,
        })
    }

    /// A client for `config` with a tracker of its own. An invalid
    /// configuration is refused with the error that validation gives.
    pub fn new(config: Config) -> (r: Result<Self>)
        ensures
            r is Ok <==> config.validation_message() is None,
            r matches Err(e) ==> (e matches VpnError::Config(m) && m@ == config.validation_message()->Some_0),
            r matches Ok(c) ==> {
                &&& c.well_formed()
                &&& c.config == config
                &&& c.status == ConnectionStatus::Disconnected
                &&& c.auth is None && c.protocol_handler is None && c.session_manager is None
                &&& c.tunnel_manager is None && c.server_endpoint is None
                &&& c.connection_tracker.active_connections == 0
                &&& c.connection_tracker.connection_attempts@.len() == 0
                &&& c.connection_tracker.retry_attempts@.len() == 0
                &&& (c.cluster_manager is Some <==> config.clustering.enabled)
            },
    {
        match config.validate() {
            Ok(()) => {},
            Err(e) => {
                return Err(e);
            },
        }
        Self::new_with_shared_tracker(config, ConnectionTracker::new())
    }

    /// The first step of connecting to `server:port` at time `now`: the
    /// client must be disconnected, and the connection and retry limits must
    /// allow it; then the client is connecting, and the endpoint's key is
    /// returned for the rest of the attempt.
    pub fn begin_connect_at(&mut self, server: &str, port: u16, now: u64) -> (r: Result<String>)
        requires
            old(self).well_formed(),
        ensures
            final(self).well_formed(),
            final(self).config == old(self).config,
            final(self).server_endpoint == old(self).server_endpoint,
            old(self).status != ConnectionStatus::Disconnected ==> (r matches Err(
                VpnError::Connection(m),
            ) && m@ == "Already connected or connecting"@) && final(self).status == old(self).status
                && final(self).connection_tracker == old(self).connection_tracker,
            old(self).status == ConnectionStatus::Disconnected ==> {
                let key = endpoint_key(server@, port);
                let limits = old(self).config.connection_limits;
                exists|mid: ConnectionTracker, cr: Result<()>| {
                    &&& #[trigger] connect_check(old(self).connection_tracker, limits, now, mid, cr)
                    &&& mid.well_formed()
                    &&& match cr {
                        Err(e) => r == Err::<String, VpnError>(e) && final(self).connection_tracker
                            == mid && final(self).status == old(self).status,
                        Ok(_) => exists|rr: Result<()>| {
                            &&& #[trigger] retry_check(mid, key, limits, now, final(self).connection_tracker, rr)
                            &&& match rr {
                                Err(e) => r == Err::<String, VpnError>(e) && final(self).status
                                    == old(self).status,
                                Ok(_) => (r matches Ok(k) && k@ == key) && final(self).status
                                    == ConnectionStatus::Connecting,
                            }
                        },
                    }
                }
            },
    {
        if self.status != ConnectionStatus::Disconnected {
            return Err(VpnError::Connection("Already connected or connecting".to_owned()));
        }
        let head = join2(server, ":");
        let key = join2(head.as_str(), u64_to_decimal(port as u64).as_str());
        assert(key@ == endpoint_key(server@, port));
        let ghost before = self.connection_tracker;
        let ghost limits = self.config.connection_limits;
        let cr = self.connection_tracker.can_connect_at(&self.config.connection_limits, now);
        let ghost mid = self.connection_tracker;
        let ghost gcr = cr;
        assert(connect_check(before, limits, now, mid, gcr));
        assert(mid.well_formed());
        match cr {
            Err(e) => {
                return Err(e);
            },
            Ok(()) => {},
        }
        let rr = self.connection_tracker.can_retry_at(key.as_str(), &self.config.connection_limits, now);
        let ghost grr = rr;
        assert(retry_check(mid, key@, limits, now, self.connection_tracker, grr));
        match rr {
            Err(e) => {
                return Err(e);
            },
            Ok(()) => {},
        }
        self.status = ConnectionStatus::Connecting;
        let r: Result<String> = Ok(key);
        assert(grr is Ok);
        assert(retry_check(mid, endpoint_key(server@, port), limits, now, self.connection_tracker, grr));
        assert(exists|rr: Result<()>| {
            &&& #[trigger] retry_check(mid, endpoint_key(server@, port), limits, now, self.connection_tracker, rr)
            &&& match rr {
                Err(e) => r == Err::<String, VpnError>(e) && self.status == old(self).status,
                Ok(_) => (r matches Ok(k) && k@ == endpoint_key(server@, port)) && self.status
                    == ConnectionStatus::Connecting,
            }
        });
        r
    }

    /// The first step of connecting to `server:port`, now.
    pub fn begin_connect(&mut self, server: &str, port: u16) -> (r: Result<String>)
        requires
            old(self).well_formed(),
        ensures
            final(self).well_formed(),
            final(self).config == old(self).config,
            old(self).status != ConnectionStatus::Disconnected ==> (r matches Err(
                VpnError::Connection(m),
            ) && m@ == "Already connected or connecting"@) && final(self).status == old(self).status,
            r matches Ok(k) ==> k@ == endpoint_key(server@, port) && final(self).status
                == ConnectionStatus::Connecting,
            r is Err && old(self).status == ConnectionStatus::Disconnected ==> final(self).status
                == ConnectionStatus::Disconnected,
            old(self).status == ConnectionStatus::Disconnected ==> exists|now: u64|
                #[trigger] connect_attempt(*old(self), *final(self), server@, port, now, r),
    {
        let now = now_millis();
        let r = self.begin_connect_at(server, port, now);
        proof {
            if old(self).status == ConnectionStatus::Disconnected {
                assert(connect_attempt(*old(self), *self, server@, port, now, r));
            }
        }
        r
    }

    /// Records the server address the attempt connects to.
    pub fn set_server_endpoint(&mut self, endpoint: SocketAddress)
        ensures
            final(self).server_endpoint == Some(endpoint),
            final(self).status == old(self).status,
            final(self).config == old(self).config,
            final(self).connection_tracker == old(self).connection_tracker,
            final(self).cluster_manager == old(self).cluster_manager,
    {
        self.server_endpoint = Some(endpoint);
    }

    /// Whether the attempt on `endpoint_key` must first wait the retry delay:
    /// there is a delay and the endpoint has failed before.
    pub fn needs_retry_delay(&self, endpoint_key: &str) -> (r: bool)
        requires
            self.well_formed(),
        ensures
            r == (self.config.connection_limits.retry_delay > 0 && (match self.connection_tracker.retry_record(endpoint_key@) {
                Some((count, _)) => count > 0,
                None => false,
            })),
    {
        if self.config.connection_limits.retry_delay == 0 {
            return false;
        }
        match self.connection_tracker.find_retry(endpoint_key) {
            Some(i) => {
                proof {
                    lemma_lookup_at(self.connection_tracker.retry_attempts@, i as int);
                }
                self.connection_tracker.retry_attempts[i].count > 0
            },
            None => {
                proof {
                    lemma_lookup_absent(self.connection_tracker.retry_attempts@, endpoint_key@);
                }
                false
            },
        }
    }

    /// The last step of connecting, at time `now`: an attempt that opened a
    /// session (with its protocol handler and authentication state) counts
    /// a connection and leaves the client connected; a failed one counts a
    /// retry on the endpoint and leaves it disconnected.
    pub fn finish_connect_at(
        &mut self,
        endpoint_key: &str,
        outcome: Option<(ProtocolHandler, AuthInfo)>,
        now: u64,
    )
        requires
            old(self).well_formed(),
        ensures
            final(self).well_formed(),
            final(self).config == old(self).config,
            final(self).server_endpoint == old(self).server_endpoint,
            final(self).cluster_manager == old(self).cluster_manager,
            match outcome {
                Some((h, a)) => {
                    &&& final(self).status == ConnectionStatus::Connected
                    &&& final(self).protocol_handler == Some(h)
                    &&& final(self).auth == Some(a)
                    &&& final(self).connection_tracker.active_connections
                        == old(self).connection_tracker.active_connections.wrapping_add(1)
                    &&& final(self).connection_tracker.retry_attempts@
                        == old(self).connection_tracker.retry_attempts@
                },
                None => {
                    &&& final(self).status == ConnectionStatus::Disconnected
                    &&& final(self).protocol_handler == old(self).protocol_handler
                    &&& final(self).auth == old(self).auth
                    &&& final(self).connection_tracker.active_connections
                        == old(self).connection_tracker.active_connections
                    &&& retry_recorded(old(self).connection_tracker, endpoint_key@, now, final(self).connection_tracker)
                },
            },
    {
        match outcome {
            Some((h, a)) => {
                self.protocol_handler = Some(h);
                self.auth = Some(a);
                self.connection_tracker.record_connection();
                self.status = ConnectionStatus::Connected;
            },
            None => {
                self.connection_tracker.record_retry_at(endpoint_key, now);
                self.status = ConnectionStatus::Disconnected;
            },
        }
    }

    /// Authentication needs a connection.
    pub fn authentication_precheck(&self) -> (r: Result<()>)
        ensures
            self.auth is Some ==> r is Ok,
            self.auth is None ==> (r matches Err(VpnError::Connection(m)) && m@ == "Not connected"@),
    {
        if self.auth.is_none() {
            return Err(VpnError::Connection("Not connected".to_owned()));
        }
        Ok(())
    }

    /// Completes a successful authentication: records the addresses the
    /// server assigned (when it assigned any), marks the client connected
    /// and starts a session manager.
    pub fn complete_authentication(&mut self, assigned: Option<AssignedAddresses>) -> (r: Result<()>)
        ensures
            old(self).auth is None ==> (r matches Err(VpnError::Connection(m)) && m@
                == "Not connected"@) && final(self).status == old(self).status
                && final(self).session_manager == old(self).session_manager,
            old(self).auth matches Some(a) ==> {
                &&& r is Ok
                &&& final(self).status == ConnectionStatus::Connected
                &&& final(self).auth matches Some(b) && b.session_id == a.session_id
                    && b.is_authenticated == a.is_authenticated && b.ip_config == (match assigned {
                    Some(x) => Some(x),
                    None => a.ip_config,
                })
                &&& final(self).session_manager matches Some(m) && m.session_id is None
            },
            final(self).config == old(self).config,
            final(self).server_endpoint == old(self).server_endpoint,
            final(self).tunnel_manager == old(self).tunnel_manager,
            final(self).connection_tracker == old(self).connection_tracker,
            final(self).cluster_manager == old(self).cluster_manager,
    {
        match self.auth.take() {
            None => {
                return Err(VpnError::Connection("Not connected".to_owned()));
            },
            Some(a) => {
                let ip_config = match assigned {
                    Some(x) => Some(x),
                    None => a.ip_config,
                };
                self.auth = Some(AuthInfo { session_id: a.session_id, is_authenticated: a.is_authenticated, ip_config });
            },
        }
        self.status = ConnectionStatus::Connected;
        let session_manager = SessionManager::new(&self.config)?;
        self.session_manager = Some(session_manager);
        Ok(())
    }

    /// Disconnect from the VPN server: a connected client counts a
    /// disconnection; the tunnel is marked down and every part of the
    /// connection is dropped.
    pub fn disconnect(&mut self) -> (r: Result<()>)
        requires
            old(self).well_formed(),
        ensures
            r is Ok,
            final(self).well_formed(),
            final(self).status == ConnectionStatus::Disconnected,
            final(self).tunnel_manager is None,
            final(self).session_manager is None,
            final(self).protocol_handler is None,
            final(self).auth is None,
            final(self).server_endpoint is None,
            final(self).connection_tracker.active_connections == if old(self).status
                == ConnectionStatus::Connected || old(self).status == ConnectionStatus::Tunneling {
                old(self).connection_tracker.active_connections.wrapping_sub(1)
            } else {
                old(self).connection_tracker.active_connections
            },
            final(self).connection_tracker.retry_attempts@ == old(self).connection_tracker.retry_attempts@,
            final(self).config == old(self).config,
            final(self).cluster_manager == old(self).cluster_manager,
    {
        if self.status == ConnectionStatus::Connected || self.status == ConnectionStatus::Tunneling {
            self.connection_tracker.record_disconnection();
        }
        if let Some(tm) = &mut self.tunnel_manager {
            tm.mark_torn_down();
        }
        self.tunnel_manager = None;
        self.session_manager = None;
        self.protocol_handler = None;
        self.auth = None;
        self.status = ConnectionStatus::Disconnected;
        self.server_endpoint = None;
        Ok(())
    }

    /// Tears down the tunnel while keeping the connection: with a tunnel,
    /// marks it down and goes back to connected.
    pub fn teardown_tunnel(&mut self) -> (r: Result<()>)
        ensures
            r is Ok,
            old(self).tunnel_manager is Some ==> final(self).status == ConnectionStatus::Connected
                && (final(self).tunnel_manager matches Some(t) && !t.is_established),
            old(self).tunnel_manager is None ==> final(self).status == old(self).status
                && final(self).tunnel_manager is None,
            final(self).config == old(self).config,
            final(self).server_endpoint == old(self).server_endpoint,
            final(self).connection_tracker == old(self).connection_tracker,
            final(self).cluster_manager == old(self).cluster_manager,
    {
        if let Some(tm) = &mut self.tunnel_manager {
            tm.mark_torn_down();
            self.status = ConnectionStatus::Connected;
        }
        Ok(())
    }

    /// Current connection status.
    pub fn status(&self) -> (r: ConnectionStatus)
        ensures
            r == self.status,
    {
        self.status
    }

    /// Server endpoint (if connected).
    pub fn server_endpoint(&self) -> (r: Option<SocketAddress>)
        ensures
            r == self.server_endpoint,
    {
        self.server_endpoint
    }

    /// How a keepalive is sent now: over the tunnel when tunneling, else
    /// over HTTP, which needs a connection.
    pub fn keepalive_mode(&self) -> (r: Result<KeepaliveMode>)
        ensures
            self.status == ConnectionStatus::Tunneling ==> r == Ok::<KeepaliveMode, VpnError>(KeepaliveMode::Binary),
            self.status != ConnectionStatus::Tunneling && self.auth is Some ==> r == Ok::<KeepaliveMode, VpnError>(KeepaliveMode::Http),
            self.status != ConnectionStatus::Tunneling && self.auth is None ==> (r matches Err(
                VpnError::Connection(m),
            ) && m@ == "Not connected"@),
    {
        if self.status == ConnectionStatus::Tunneling {
            return Ok(KeepaliveMode::Binary);
        }
        if self.auth.is_none() {
            return Err(VpnError::Connection("Not connected".to_owned()));
        }
        Ok(KeepaliveMode::Http)
    }

    /// After an HTTP keepalive at time `now`: the session manager, where
    /// there is one, records it.
    pub fn record_keepalive_at(&mut self, now: u64) -> (r: Result<()>)
        ensures
            match old(self).session_manager {
                None => r is Ok && final(self).session_manager is None,
                Some(m) => match m.session_id {
                    None => (r matches Err(VpnError::Connection(e)) && e@ == "No active session"@),
                    Some(_) => r is Ok && (final(self).session_manager matches Some(n)
                        && n.last_keepalive_ms == Some(now) && n.session_id == m.session_id),
                },
            },
            final(self).status == old(self).status,
            final(self).config == old(self).config,
            final(self).connection_tracker == old(self).connection_tracker,
    {
        if let Some(sm) = &mut self.session_manager {
            sm.send_keepalive_at(now)?;
        }
        Ok(())
    }

    /// The data PACK that carries `packet_data`, stamped `timestamp`; there
    /// must be a protocol handler with a session.
    pub fn data_pack_for(&self, packet_data: &[u8], timestamp: u64) -> (r: Result<Pack>)
        ensures
            match self.protocol_handler {
                None => r matches Err(VpnError::Connection(m)) && m@ == "Protocol handler not initialized"@,
                Some(h) => if !h.session_established {
                    r matches Err(VpnError::Connection(m)) && m@ == "Session not established"@
                } else {
                    r matches Ok(p) && p@ == data_pack_view(h.session_id, packet_data@, timestamp)
                },
            },
    {
        match &self.protocol_handler {
            None => Err(VpnError::Connection("Protocol handler not initialized".to_owned())),
            Some(h) => {
                if !h.has_session() {
                    return Err(VpnError::Connection("Session not established".to_owned()));
                }
                Ok(h.create_data_pack_at(packet_data, timestamp))
            },
        }
    }

    /// The keepalive PACK stamped `timestamp`; there must be a protocol
    /// handler with a session.
    pub fn keepalive_pack_for(&self, timestamp: u64) -> (r: Result<Pack>)
        ensures
            match self.protocol_handler {
                None => r matches Err(VpnError::Connection(m)) && m@ == "Protocol handler not initialized"@,
                Some(h) => if !h.session_established {
                    r matches Err(VpnError::Connection(m)) && m@ == "Session not established"@
                } else {
                    r matches Ok(p) && p@ == keepalive_pack_view(h.session_id, timestamp)
                },
            },
    {
        match &self.protocol_handler {
            None => Err(VpnError::Connection("Protocol handler not initialized".to_owned())),
            Some(h) => {
                if !h.has_session() {
                    return Err(VpnError::Connection("Session not established".to_owned()));
                }
                Ok(h.create_keepalive_pack_at(timestamp))
            },
        }
    }

    /// Whether the client is ready for packet forwarding: connected, with a
    /// session manager.
    pub fn is_ready_for_packets(&self) -> (r: bool)
        ensures
            r == (self.status == ConnectionStatus::Connected && self.session_manager is Some),
    {
        self.status == ConnectionStatus::Connected && self.session_manager.is_some()
    }

    /// The tunnel configuration for the addresses authentication gave:
    /// `vpnse0` with the assigned addresses (each falling back on its own
    /// default), or the default configuration without authentication.
    pub fn tunnel_config(&self) -> (r: TunnelConfig)
        ensures
            match tunnel_addresses(self.auth) {
                Some((l, g, n)) => r.is_vpnse0(l, g, n),
                None => r.is_vpnse0(ipv4_spec(10, 0, 0, 2), ipv4_spec(10, 0, 0, 1), ipv4_spec(255, 255, 255, 0)),
            },
            self.auth matches Some(a) ==> (a.ip_config matches Some(c) ==> {
                &&& forall|ip: u32| #[trigger] dotted(ip) == c.local_ip@ ==> r.local_ip == ip
                &&& forall|ip: u32| #[trigger] dotted(ip) == c.gateway_ip@ ==> r.remote_ip == ip
                &&& forall|ip: u32| #[trigger] dotted(ip) == c.netmask@ ==> r.netmask == ip
            }),
    {
        match &self.auth {
            None => TunnelConfig::default(),
            Some(a) => match &a.ip_config {
                Some(c) => {
                    let r = TunnelConfig::vpnse0(
                        or_default(parse_ipv4(c.local_ip.as_str()), ipv4(10, 224, 51, 132)),
                        or_default(parse_ipv4(c.gateway_ip.as_str()), ipv4(10, 224, 51, 1)),
                        or_default(parse_ipv4(c.netmask.as_str()), ipv4(255, 255, 255, 0)),
                    );
                    assert forall|ip: u32| #[trigger] dotted(ip) == c.local_ip@ implies r.local_ip == ip by {
                        lemma_parse_dotted_roundtrip(ip);
                    }
                    assert forall|ip: u32| #[trigger] dotted(ip) == c.gateway_ip@ implies r.remote_ip == ip by {
                        lemma_parse_dotted_roundtrip(ip);
                    }
                    assert forall|ip: u32| #[trigger] dotted(ip) == c.netmask@ implies r.netmask == ip by {
                        lemma_parse_dotted_roundtrip(ip);
                    }
                    r
                },
                None => TunnelConfig::vpnse0(ipv4(10, 224, 51, 132), ipv4(10, 224, 51, 1), ipv4(255, 255, 255, 0)),
            },
        }
    }

    /// The first step of establishing the tunnel: the client must be
    /// connected and authenticated; a tunnel manager for the tunnel
    /// configuration is made when there is none.
    pub fn prepare_tunnel(&mut self) -> (r: Result<()>)
        ensures
            old(self).status != ConnectionStatus::Connected ==> (r matches Err(VpnError::Connection(m))
                && m@ == "Must be connected first"@) && final(self).tunnel_manager == old(self).tunnel_manager,
            old(self).status == ConnectionStatus::Connected && old(self).session_manager is None ==> (r matches Err(
                VpnError::Connection(m),
            ) && m@ == "Must be authenticated first"@) && final(self).tunnel_manager == old(self).tunnel_manager,
            old(self).status == ConnectionStatus::Connected && old(self).session_manager is Some ==> {
                &&& r is Ok
                &&& old(self).tunnel_manager is Some ==> final(self).tunnel_manager == old(self).tunnel_manager
                &&& old(self).tunnel_manager is None ==> (final(self).tunnel_manager matches Some(t) && !t.is_established
                    && match tunnel_addresses(old(self).auth) {
                    Some((l, g, n)) => t.config.is_vpnse0(l, g, n),
                    None => t.config.is_vpnse0(ipv4_spec(10, 0, 0, 2), ipv4_spec(10, 0, 0, 1), ipv4_spec(255, 255, 255, 0)),
                })
            },
            final(self).status == old(self).status,
            final(self).config == old(self).config,
            final(self).auth == old(self).auth,
            final(self).session_manager == old(self).session_manager,
            final(self).server_endpoint == old(self).server_endpoint,
            final(self).connection_tracker == old(self).connection_tracker,
            final(self).cluster_manager == old(self).cluster_manager,
    {
        if self.status != ConnectionStatus::Connected {
            return Err(VpnError::Connection("Must be connected first".to_owned()));
        }
        if self.session_manager.is_none() {
            return Err(VpnError::Connection("Must be authenticated first".to_owned()));
        }
        if self.tunnel_manager.is_none() {
            let config = self.tunnel_config();
            self.tunnel_manager = Some(TunnelManager::new(config));
        }
        Ok(())
    }

    /// The last step of establishing the tunnel: with a tunnel manager, the
    /// tunnel is up and the client is tunneling.
    pub fn tunnel_established(&mut self)
        ensures
            old(self).tunnel_manager is Some ==> final(self).status == ConnectionStatus::Tunneling
                && (final(self).tunnel_manager matches Some(t) && t.is_established),
            old(self).tunnel_manager is None ==> final(self).status == old(self).status
                && final(self).tunnel_manager is None,
            final(self).config == old(self).config,
            final(self).server_endpoint == old(self).server_endpoint,
            final(self).connection_tracker == old(self).connection_tracker,
            final(self).cluster_manager == old(self).cluster_manager,
    {
        if let Some(tm) = &mut self.tunnel_manager {
            tm.mark_established();
            self.status = ConnectionStatus::Tunneling;
        }
    }

    /// Whether the tunnel is established.
    pub fn is_tunnel_established(&self) -> (r: bool)
        ensures
            r == (self.status == ConnectionStatus::Tunneling && (self.tunnel_manager matches Some(t)
                && t.is_established)),
    {
        self.status == ConnectionStatus::Tunneling && match &self.tunnel_manager {
            Some(t) => t.is_established(),
            None => false,
        }
    }

    /// VPN session information, while there is an authentication state. A
    /// connected or tunneling client reports the address `192.168.100.10`.
    pub fn get_session_info(&self) -> (r: Option<VpnSessionInfo>)
        ensures
            self.auth is None ==> r is None,
            self.auth matches Some(a) ==> (r matches Some(info) && {
                &&& info.session_id == a.session_id
                &&& info.server_endpoint == self.server_endpoint
                &&& info.is_authenticated == a.is_authenticated
                &&& info.connection_status == self.status
                &&& (self.status == ConnectionStatus::Connected || self.status == ConnectionStatus::Tunneling)
                    ==> (info.assigned_ip matches Some(ip) && ip@ == "192.168.100.10"@)
                &&& !(self.status == ConnectionStatus::Connected || self.status == ConnectionStatus::Tunneling)
                    ==> info.assigned_ip is None
                &&& info.vpn_server_ip == match self.server_endpoint {
                    Some(e) => Some(e.ip),
                    None => None::<IpAddress>,
                }
            }),
    {
        match &self.auth {
            None => None,
            Some(a) => {
                let session_id = match &a.session_id {
                    Some(s) => Some(s.clone()),
                    None => None,
                };
                let assigned_ip = if self.status == ConnectionStatus::Connected || self.status
                    == ConnectionStatus::Tunneling {
                    Some("192.168.100.10".to_owned())
                } else {
                    None
                };
                let vpn_server_ip = match self.server_endpoint {
                    Some(e) => Some(e.ip),
                    None => None,
                };
                Some(
                    VpnSessionInfo {
                        session_id,
                        server_endpoint: self.server_endpoint,
                        is_authenticated: a.is_authenticated,
                        connection_status: self.status,
                        assigned_ip,
                        vpn_server_ip,
                    },
                )
            },
        }
    }

    /// Update the cluster's peer count (when clustering).
    pub fn update_peer_count(&mut self, count: u32)
        ensures
            old(self).cluster_manager matches Some(m) ==> (final(self).cluster_manager matches Some(n)
                && n.total_connections == count && n.nodes@ == m.nodes@ && n.current_node_index
                == m.current_node_index && n.config == m.config && n.last_failover_ms == m.last_failover_ms),
            old(self).cluster_manager is None ==> final(self).cluster_manager is None,
            final(self).status == old(self).status,
            final(self).config == old(self).config,
            final(self).connection_tracker == old(self).connection_tracker,
    {
        if let Some(cm) = &mut self.cluster_manager {
            cm.update_peer_count(count);
        }
    }

    /// The cluster's peer count (zero without clustering).
    pub fn get_peer_count(&self) -> (r: u32)
        ensures
            r == match self.cluster_manager {
                Some(m) => m.total_connections,
                None => 0,
            },
    {
        match &self.cluster_manager {
            Some(cm) => cm.get_peer_count(),
            None => 0,
        }
    }

    /// The number of cluster nodes (zero without clustering).
    pub fn get_nodes_count(&self) -> (r: usize)
        ensures
            r == match self.cluster_manager {
                Some(m) => m.nodes@.len(),
                None => 0,
            },
    {
        match &self.cluster_manager {
            Some(cm) => cm.get_nodes_count(),
            None => 0,
        }
    }

    /// Whether another peer can be added (always, without clustering).
    pub fn can_add_peer(&self) -> (r: bool)
        ensures
            r == match self.cluster_manager {
                Some(m) => m.total_connections < m.config.max_peers_per_cluster,
                None => true,
            },
    {
        match &self.cluster_manager {
            Some(cm) => cm.can_add_peer(),
            None => true,
        }
    }

    /// Address, health and connection count of each cluster node.
    pub fn get_cluster_status(&self) -> (r: Option<Vec<(String, bool, u32)>>)
        ensures
            self.cluster_manager is None ==> r is None,
            self.cluster_manager matches Some(m) ==> (r matches Some(v) && v@.len() == m.nodes@.len()
                && forall|i: int|
                0 <= i < v@.len() ==> (#[trigger] v@[i]).0@ == m.nodes@[i].address@ && v@[i].1
                    == m.nodes@[i].is_healthy && v@[i].2 == m.nodes@[i].active_connections),
    {
        match &self.cluster_manager {
            None => None,
            Some(cm) => {
                let mut v: Vec<(String, bool, u32)> = Vec::new();
                let mut i: usize = 0;
                while i < cm.nodes.len()
                    invariant
                        i <= cm.nodes@.len(),
                        v@.len() == i,
                        forall|j: int|
                            0 <= j < i ==> (#[trigger] v@[j]).0@ == cm.nodes@[j].address@ && v@[j].1
                                == cm.nodes@[j].is_healthy && v@[j].2 == cm.nodes@[j].active_connections,
                    decreases cm.nodes@.len() - i,
                {
                    let n = &cm.nodes[i];
                    v.push((n.address.clone(), n.is_healthy, n.active_connections));
                    i = i + 1;
                }
                Some(v)
            },
        }
    }

    /// Counts a connection to cluster node `index` at `endpoint`: the node
    /// gets one more connection, the cluster one more peer, and the client
    /// records the endpoint.
    fn use_cluster_node(&mut self, index: usize, endpoint: SocketAddress)
        requires
            old(self).cluster_manager matches Some(m) && index < m.nodes@.len() && m.well_formed(),
        ensures
            final(self).server_endpoint == Some(endpoint),
            final(self).cluster_manager matches Some(n) && {
                let m = old(self).cluster_manager->Some_0;
                &&& n.well_formed()
                &&& n.nodes@ == m.nodes@.update(
                    index as int,
                    ClusterNode {
                        endpoint: Some(endpoint),
                        active_connections: m.nodes@[index as int].active_connections.wrapping_add(1),
                        ..m.nodes@[index as int]
                    },
                )
                &&& n.total_connections == m.total_connections.wrapping_add(1)
                &&& n.current_node_index == m.current_node_index
                &&& n.config == m.config
            },
            final(self).status == old(self).status,
            final(self).config == old(self).config,
            final(self).connection_tracker == old(self).connection_tracker,
            final(self).auth == old(self).auth,
    {
        self.server_endpoint = Some(endpoint);
        if let Some(cm) = &mut self.cluster_manager {
            let old_node = &cm.nodes[index];
            let n = ClusterNode {
                address: old_node.address.clone(),
                endpoint: Some(endpoint),
                is_healthy: old_node.is_healthy,
                active_connections: old_node.active_connections.wrapping_add(1),
                last_health_check_ms: old_node.last_health_check_ms,
                response_time_ms: old_node.response_time_ms,
            };
            cm.nodes.set(index, n);
            cm.total_connections = cm.total_connections.wrapping_add(1);
        }
    }

    /// The first step of connecting to the cluster: clustering must be
    /// enabled; the load balancer picks a node. A node with a known endpoint
    /// is used at once; otherwise its address must be resolved first.
    pub fn select_cluster_node(&mut self) -> (r: Result<ClusterTarget>)
        requires
            old(self).well_formed(),
        ensures
            final(self).well_formed(),
            final(self).status == old(self).status,
            final(self).config == old(self).config,
            final(self).connection_tracker == old(self).connection_tracker,
            !old(self).config.clustering.enabled ==> (r matches Err(VpnError::Configuration(m)) && m@
                == "Clustering is not enabled"@) && final(self).cluster_manager == old(self).cluster_manager,
            old(self).config.clustering.enabled && old(self).cluster_manager is None ==> (r matches Err(
                VpnError::Connection(m),
            ) && m@ == "No available cluster nodes"@),
            r matches Ok(ClusterTarget::Endpoint(e)) ==> final(self).server_endpoint == Some(e),
            r matches Ok(ClusterTarget::Resolve(i, a)) ==> (final(self).cluster_manager matches Some(n)
                && i < n.nodes@.len() && n.nodes@[i as int].address@ == a@ && n.nodes@[i as int].endpoint is None),
            old(self).config.clustering.enabled ==> (old(self).cluster_manager matches Some(m) ==> cluster_selection(
                m,
                final(self).cluster_manager,
                r,
            )),
    {
        if !self.config.clustering.enabled {
            return Err(VpnError::Configuration("Clustering is not enabled".to_owned()));
        }
        let ghost old_cm = self.cluster_manager;
        let picked = match &mut self.cluster_manager {
            None => None,
            Some(cm) => {
                let p = cm.get_next_node();
                proof {
                    assert(next_node_choice(old_cm->Some_0, *cm, p));
                }
                proof {
                    lemma_healthy_indices(cm.nodes@);
                    if let Some(i) = p {
                        if cm.config.load_balancing_strategy == LoadBalancingStrategy::Random {
                            let k = choose|k: int| 0 <= k < healthy_indices(cm.nodes@).len() && healthy_indices(cm.nodes@)[k] == i as int;
                            assert(0 <= healthy_indices(cm.nodes@)[k] < cm.nodes@.len());
                        }
                    }
                }
                p
            },
        };
        let ghost mid_cm = self.cluster_manager;
        assert(old_cm is Some ==> (mid_cm matches Some(m) && next_node_choice(old_cm->Some_0, m, picked)));
        assert(old_cm is None ==> picked is None);
        match picked {
            None => Err(VpnError::Connection("No available cluster nodes".to_owned())),
            Some(i) => {
                let cm = match &self.cluster_manager {
                    Some(cm) => cm,
                    None => {
                        return Err(VpnError::Connection("No available cluster nodes".to_owned()));
                    },
                };
                match cm.nodes[i].endpoint {
                    Some(e) => {
                        self.use_cluster_node(i, e);
                        Ok(ClusterTarget::Endpoint(e))
                    },
                    None => Ok(ClusterTarget::Resolve(i, cm.nodes[i].address.clone())),
                }
            },
        }
    }

    /// The second step of connecting to the cluster, after resolving the
    /// address of node `index`: the first address found is remembered and
    /// used; a lookup without an address leaves no node to connect to; a
    /// failed lookup marks the node unhealthy.
    pub fn cluster_node_resolved(&mut self, index: usize, resolution: Resolution) -> (r: Result<SocketAddress>)
        requires
            old(self).well_formed(),
            old(self).cluster_manager matches Some(m) && index < m.nodes@.len(),
        ensures
            final(self).well_formed(),
            final(self).status == old(self).status,
            final(self).config == old(self).config,
            final(self).connection_tracker == old(self).connection_tracker,
            final(self).cluster_manager matches Some(n) && n.nodes@.len() == old(self).cluster_manager->Some_0.nodes@.len(),
            match resolution {
                Resolution::Found(addr) => r == Ok::<SocketAddress, VpnError>(addr) && final(self).server_endpoint == Some(addr)
                    && final(self).cluster_manager->Some_0.nodes@[index as int].endpoint == Some(addr)
                    && final(self).cluster_manager->Some_0.nodes@[index as int].active_connections
                    == old(self).cluster_manager->Some_0.nodes@[index as int].active_connections.wrapping_add(1)
                    && final(self).cluster_manager->Some_0.total_connections
                    == old(self).cluster_manager->Some_0.total_connections.wrapping_add(1),
                Resolution::Empty => (r matches Err(VpnError::Connection(m)) && m@ == "No available cluster nodes"@)
                    && final(self).cluster_manager == old(self).cluster_manager,
                Resolution::Failed(msg) => (r matches Err(VpnError::Connection(m)) && m@
                    == "Failed to resolve cluster node "@ + old(self).cluster_manager->Some_0.nodes@[index as int].address@
                    + ": "@ + msg@) && !final(self).cluster_manager->Some_0.nodes@[index as int].is_healthy,
            },
    {
        match resolution {
            Resolution::Found(addr) => {
                self.use_cluster_node(index, addr);
                Ok(addr)
            },
            Resolution::Empty => Err(VpnError::Connection("No available cluster nodes".to_owned())),
            Resolution::Failed(msg) => {
                let mut text = "Failed to resolve cluster node ".to_owned();
                if let Some(cm) = &mut self.cluster_manager {
                    let old_node = &cm.nodes[index];
                    let head = join2("Failed to resolve cluster node ", old_node.address.as_str());
                    let head2 = join2(head.as_str(), ": ");
                    text = join2(head2.as_str(), msg.as_str());
                    let n = ClusterNode {
                        address: old_node.address.clone(),
                        endpoint: old_node.endpoint,
                        is_healthy: false,
                        active_connections: old_node.active_connections,
                        last_health_check_ms: old_node.last_health_check_ms,
                        response_time_ms: old_node.response_time_ms,
                    };
                    cm.nodes.set(index, n);
                }
                Err(VpnError::Connection(text))
            },
        }
    }

    /// Failover at time `now`: clustering and failover must be enabled; the
    /// cluster steps to the next healthy node, whose known endpoint the
    /// client then uses.
    pub fn failover_target_at(&mut self, now: u64) -> (r: Result<SocketAddress>)
        requires
            old(self).well_formed(),
        ensures
            final(self).well_formed(),
            final(self).status == old(self).status,
            final(self).config == old(self).config,
            final(self).connection_tracker == old(self).connection_tracker,
            !(old(self).config.clustering.enabled && old(self).config.clustering.enable_failover) ==> (r matches Err(
                VpnError::Configuration(m),
            ) && m@ == "Clustering failover is not enabled"@) && final(self).cluster_manager == old(self).cluster_manager,
            r is Err && old(self).config.clustering.enabled && old(self).config.clustering.enable_failover
                ==> (r matches Err(VpnError::Connection(m)) && m@ == "No healthy nodes available for failover"@),
            r matches Ok(e) ==> final(self).server_endpoint == Some(e) && (final(self).cluster_manager matches Some(n)
                && n.nodes@[n.current_node_index as int].endpoint == Some(e) && n.nodes@[n.current_node_index as int].is_healthy),
            r is Err ==> final(self).server_endpoint == old(self).server_endpoint,
            old(self).config.clustering.enabled && old(self).config.clustering.enable_failover ==> match old(
                self,
            ).cluster_manager {
                Some(m) => (final(self).cluster_manager matches Some(n) && {
                    let t = elapsed_ms(m.last_failover_ms, now) >= m.config.failover_timeout * 1000;
                    let target = next_healthy_after(m.nodes@, m.current_node_index as int, 1);
                    &&& n.nodes@ == m.nodes@
                    &&& (t && target is Some) ==> n.current_node_index == target->Some_0
                        && n.last_failover_ms == now
                    &&& !(t && target is Some) ==> n.current_node_index == m.current_node_index
                    &&& r is Ok <==> (t && target is Some && m.nodes@[target->Some_0].endpoint is Some)
                }),
                None => final(self).cluster_manager is None && r is Err,
            },
            failover_attempt(*old(self), *final(self), now, r),
    {
        if !self.config.clustering.enabled || !self.config.clustering.enable_failover {
            return Err(VpnError::Configuration("Clustering failover is not enabled".to_owned()));
        }
        let picked = match &mut self.cluster_manager {
            Some(cm) => {
                let p = cm.failover_at(now);
                let count = cm.nodes.len();
                proof {
                    if count > 0 {
                        lemma_next_healthy_after(cm.nodes@, old(self).cluster_manager->Some_0.current_node_index as int, 1);
                    }
                }
                match p {
                    Some(i) => cm.nodes[i].endpoint,
                    None => None,
                }
            },
            None => None,
        };
        match picked {
            Some(e) => {
                self.server_endpoint = Some(e);
                Ok(e)
            },
            None => Err(VpnError::Connection("No healthy nodes available for failover".to_owned())),
        }
    }

    /// Failover now.
    pub fn failover_target(&mut self) -> (r: Result<SocketAddress>)
        requires
            old(self).well_formed(),
        ensures
            final(self).well_formed(),
            final(self).status == old(self).status,
            !(old(self).config.clustering.enabled && old(self).config.clustering.enable_failover) ==> (r matches Err(
                VpnError::Configuration(m),
            ) && m@ == "Clustering failover is not enabled"@),
            r matches Ok(e) ==> final(self).server_endpoint == Some(e),
            exists|now: u64| #[trigger] failover_attempt(*old(self), *final(self), now, r),
    {
        let now = now_millis();
        let r = self.failover_target_at(now);
        proof {
            assert(failover_attempt(*old(self), *self, now, r));
        }
        r
    }
}



/// A connection counted and then a disconnection leave the count of active
/// connections as it was.
pub proof fn lemma_connect_disconnect_restores(active: u32)
    ensures
        active.wrapping_add(1).wrapping_sub(1) == active,
{
}

/// A connection check that allows the attempt under a concurrency limit was
/// made below that limit.
pub proof fn lemma_allowed_below_limit(
    old: ConnectionTracker,
    config: ConnectionLimitsConfig,
    now: u64,
    new: ConnectionTracker,
)
    requires
        connect_check(old, config, now, new, Ok(())),
        config.max_connections > 0,
    ensures
        old.active_connections < config.max_connections,
{
}

/// After a connection check that allows the attempt under a rate limit, no
/// more attempts than the limit were made within the last second, every one
/// of them counted in that second, the new one last.
pub proof fn lemma_rate_limit_respected(
    old: ConnectionTracker,
    config: ConnectionLimitsConfig,
    now: u64,
    new: ConnectionTracker,
)
    requires
        connect_check(old, config, now, new, Ok(())),
        config.rate_limit_rps > 0,
    ensures
        new.connection_attempts@.len() <= config.rate_limit_rps,
        new.connection_attempts@.last() == now,
        forall|i: int|
            0 <= i < new.connection_attempts@.len() - 1 ==> #[trigger] new.connection_attempts@[i]
                + RATE_WINDOW_MS > now,
{
    let recent = recent_attempts(old.connection_attempts@, now);
    old.connection_attempts@.lemma_filter_len(|a: u64| a + RATE_WINDOW_MS > now);
    assert forall|i: int| 0 <= i < recent.len() implies #[trigger] recent[i] + RATE_WINDOW_MS > now by {
        old.connection_attempts@.lemma_filter_pred(|a: u64| a + RATE_WINDOW_MS > now, i);
    }
}

/// An endpoint that has failed as often as the retry limit allows is let
/// through only once its cooldown has passed, and its count then starts
/// again from zero.
pub proof fn lemma_retry_waits_for_cooldown(
    old: ConnectionTracker,
    endpoint: Seq<char>,
    config: ConnectionLimitsConfig,
    now: u64,
    new: ConnectionTracker,
    count: u32,
    last: u64,
)
    requires
        retry_check(old, endpoint, config, now, new, Ok(())),
        config.retry_attempts > 0,
        retry_lookup(old.retry_attempts@, endpoint) == Some((count, last)),
        count >= config.retry_attempts,
    ensures
        elapsed_ms(last, now) >= retry_cooldown_ms(config, count),
        retry_lookup(new.retry_attempts@, endpoint) == Some((0u32, now)),
{
}

/// What a pick of the next node does to a cluster manager: the nodes and
/// configuration stay; a picked node is a healthy node; the strategy
/// decides which (round robin, also for the weighted and hashing
/// strategies: the first healthy node at or after the cursor, the cursor
/// moving past it).
pub open spec fn next_node_choice(old: ClusterManager, new: ClusterManager, r: Option<usize>) -> bool {
    &&& new.nodes@ == old.nodes@
    &&& new.config == old.config
    &&& r matches Some(i) ==> i < old.nodes@.len() && old.nodes@[i as int].is_healthy
    &&& old.nodes@.len() == 0 ==> r is None && new.current_node_index == old.current_node_index
    &&& old.nodes@.len() > 0 ==> match old.config.load_balancing_strategy {
        LoadBalancingStrategy::LeastConnections => {
            &&& new.current_node_index == old.current_node_index
            &&& (r is None <==> healthy_indices(old.nodes@).len() == 0)
            &&& (r matches Some(i) ==> is_least_loaded(old.nodes@, i as int))
        },
        LoadBalancingStrategy::Random => {
            &&& new.current_node_index == old.current_node_index
            &&& (r is None <==> healthy_indices(old.nodes@).len() == 0)
            &&& (r matches Some(i) ==> healthy_indices(old.nodes@).contains(i as int))
        },
        _ => {
            &&& r == match round_robin_step(old.nodes@, old.current_node_index as int).0 {
                Some(i) => Some(i as usize),
                None => None,
            }
            &&& new.current_node_index == round_robin_step(old.nodes@, old.current_node_index as int).1
        },
    }
}

/// What selecting a cluster node does to the manager `old` (leaving `new`):
/// the load balancer picks a node; without one there is none to use; a
/// picked node with a known endpoint is used at once, and one without has
/// its address resolved first.
pub open spec fn cluster_selection(old: ClusterManager, new: Option<ClusterManager>, r: Result<ClusterTarget>) -> bool {
    exists|mid: ClusterManager, p: Option<usize>| {
        &&& #[trigger] next_node_choice(old, mid, p)
        &&& match p {
            None => (r matches Err(VpnError::Connection(m)) && m@ == "No available cluster nodes"@) && new
                == Some(mid),
            Some(i) => i < mid.nodes@.len() && match mid.nodes@[i as int].endpoint {
                Some(e) => (r matches Ok(ClusterTarget::Endpoint(x)) && x == e) && (new matches Some(n)
                    && n.current_node_index == mid.current_node_index),
                None => (r matches Ok(ClusterTarget::Resolve(j, a)) && j == i && a@
                    == mid.nodes@[i as int].address@) && new == Some(mid),
            },
        }
    }
}

/// Node `i` is the first healthy node met going round from `cursor`: it is
/// healthy, and every node passed on the way to it is not.
pub open spec fn first_healthy_at_or_after(nodes: Seq<ClusterNode>, cursor: int, i: int) -> bool {
    &&& 0 <= i < nodes.len()
    &&& nodes[i].is_healthy
    &&& forall|m: int|
        0 <= m < round_robin_steps(cursor, nodes.len() as int, i) ==> !#[trigger] nodes[(cursor + m) % (
        nodes.len() as int)].is_healthy
}

proof fn lemma_first_healthy_from_is_first(nodes: Seq<ClusterNode>, start: int, k: int)
    requires
        0 <= start < nodes.len(),
        0 <= k <= nodes.len(),
        forall|m: int| 0 <= m < k ==> !#[trigger] nodes[(start + m) % (nodes.len() as int)].is_healthy,
    ensures
        first_healthy_from(nodes, start, k) matches Some(i) ==> first_healthy_at_or_after(nodes, start, i),
    decreases nodes.len() - k,
{
    let n = nodes.len() as int;
    if k < n {
        if nodes[(start + k) % n].is_healthy {
            let i = (start + k) % n;
            lemma_mod_window(start + k, n);
            assert(round_robin_steps(start, n, i) == k);
        } else {
            lemma_first_healthy_from_is_first(nodes, start, k + 1);
        }
    }
}

/// Selecting a cluster node under round robin (and the weighted and hashing
/// strategies) uses the node the load balancer picks: the first healthy node
/// at or after the cursor, going round, with the cursor moved just past it.
/// A node whose endpoint is known is used at once; otherwise its address is
/// to be resolved. The selection fails exactly when no node is healthy.
pub proof fn lemma_cluster_selection_round_robin(
    old: ClusterManager,
    new: Option<ClusterManager>,
    r: Result<ClusterTarget>,
)
    requires
        old.well_formed(),
        old.config.load_balancing_strategy != LoadBalancingStrategy::LeastConnections,
        old.config.load_balancing_strategy != LoadBalancingStrategy::Random,
        cluster_selection(old, new, r),
    ensures
        r is Err <==> forall|i: int| 0 <= i < old.nodes@.len() ==> !#[trigger] old.nodes@[i].is_healthy,
        r matches Ok(ClusterTarget::Resolve(i, a)) ==> {
            &&& first_healthy_at_or_after(old.nodes@, old.current_node_index as int, i as int)
            &&& a@ == old.nodes@[i as int].address@
            &&& old.nodes@[i as int].endpoint is None
            &&& new matches Some(n) && n.current_node_index == (i + 1) % (old.nodes@.len() as int)
        },
        r matches Ok(ClusterTarget::Endpoint(e)) ==> exists|i: int| {
            &&& #[trigger] first_healthy_at_or_after(old.nodes@, old.current_node_index as int, i)
            &&& old.nodes@[i].endpoint == Some(e)
            &&& new matches Some(n) && n.current_node_index == (i + 1) % (old.nodes@.len() as int)
        },
{
    let (mid, p) = choose|mid: ClusterManager, p: Option<usize>| {
        &&& #[trigger] next_node_choice(old, mid, p)
        &&& match p {
            None => (r matches Err(VpnError::Connection(m)) && m@ == "No available cluster nodes"@) && new
                == Some(mid),
            Some(i) => i < mid.nodes@.len() && match mid.nodes@[i as int].endpoint {
                Some(e) => (r matches Ok(ClusterTarget::Endpoint(x)) && x == e) && (new matches Some(n)
                    && n.current_node_index == mid.current_node_index),
                None => (r matches Ok(ClusterTarget::Resolve(j, a)) && j == i && a@
                    == mid.nodes@[i as int].address@) && new == Some(mid),
            },
        }
    };
    let nodes = old.nodes@;
    let cursor = old.current_node_index as int;
    if nodes.len() > 0 {
        lemma_first_healthy_from(nodes, cursor, 0);
        lemma_first_healthy_from_is_first(nodes, cursor, 0);
        if exists|i: int| 0 <= i < nodes.len() && #[trigger] nodes[i].is_healthy {
            lemma_first_healthy_exists(nodes, cursor, 0);
        }
        assert(nodes.len() == old.nodes.len());
        let f = first_healthy_from(nodes, cursor, 0);
        assert(p == match f {
            Some(i) => Some(i as usize),
            None => None::<usize>,
        });
        if let Some(i) = f {
            assert(0 <= i < nodes.len());
            assert(p == Some(i as usize));
            assert((i as usize) as int == i);
            assert(first_healthy_at_or_after(nodes, cursor, i));
            assert(mid.current_node_index == (i + 1) % (nodes.len() as int));
        }
    }
}

/// What failing over at time `now` does to a client: with clustering and
/// failover enabled, the cluster steps to the next healthy node after the
/// current one, unless the last failover was less than the failover timeout
/// ago; the client then uses that node's known endpoint. Otherwise nothing
/// moves and the attempt fails.
pub open spec fn failover_attempt(old: VpnClient, new: VpnClient, now: u64, r: Result<SocketAddress>) -> bool {
    &&& new.config == old.config
    &&& new.status == old.status
    &&& r matches Ok(e) ==> new.server_endpoint == Some(e) && (new.cluster_manager matches Some(n)
        && n.nodes@[n.current_node_index as int].endpoint == Some(e))
    &&& r is Err ==> new.server_endpoint == old.server_endpoint
    &&& !(old.config.clustering.enabled && old.config.clustering.enable_failover) ==> (r matches Err(
        VpnError::Configuration(m),
    ) && m@ == "Clustering failover is not enabled"@) && new.cluster_manager == old.cluster_manager
    &&& old.config.clustering.enabled && old.config.clustering.enable_failover ==> {
        &&& r is Err ==> (r matches Err(VpnError::Connection(m)) && m@ == "No healthy nodes available for failover"@)
        &&& match old.cluster_manager {
            Some(m) => (new.cluster_manager matches Some(n) && {
                let t = elapsed_ms(m.last_failover_ms, now) >= m.config.failover_timeout * 1000;
                let target = next_healthy_after(m.nodes@, m.current_node_index as int, 1);
                &&& n.nodes@ == m.nodes@
                &&& n.config == m.config
                &&& (t && target is Some) ==> n.current_node_index == target->Some_0
                    && n.last_failover_ms == now
                &&& !(t && target is Some) ==> n.current_node_index == m.current_node_index
                    && n.last_failover_ms == m.last_failover_ms
                &&& r is Ok <==> (t && target is Some && m.nodes@[target->Some_0].endpoint is Some)
            }),
            None => new.cluster_manager is None && r is Err,
        }
    }
}

/// Failover waits for its timeout: an attempt less than the failover
/// timeout after the last failover fails with "No healthy nodes available
/// for failover" and leaves the current node, the time of the last failover
/// and the endpoint in use as they were. A failover that goes through was
/// made at least the timeout after the last one, moves to a healthy node
/// whose endpoint it returns, and records `now` as the last failover.
pub proof fn lemma_failover_respects_timeout(old: VpnClient, new: VpnClient, now: u64, r: Result<SocketAddress>)
    requires
        failover_attempt(old, new, now, r),
        old.config.clustering.enabled,
        old.config.clustering.enable_failover,
        old.cluster_manager is Some,
    ensures
        elapsed_ms(old.cluster_manager->Some_0.last_failover_ms, now)
            < old.cluster_manager->Some_0.config.failover_timeout * 1000 ==> {
            &&& r matches Err(VpnError::Connection(m)) && m@ == "No healthy nodes available for failover"@
            &&& new.server_endpoint == old.server_endpoint
            &&& new.cluster_manager matches Some(n) && n.current_node_index
                == old.cluster_manager->Some_0.current_node_index && n.last_failover_ms
                == old.cluster_manager->Some_0.last_failover_ms
        },
        r matches Ok(e) ==> {
            let m = old.cluster_manager->Some_0;
            &&& elapsed_ms(m.last_failover_ms, now) >= m.config.failover_timeout * 1000
            &&& new.server_endpoint == Some(e)
            &&& new.cluster_manager matches Some(n) && n.last_failover_ms == now && 0 <= n.current_node_index
                < m.nodes@.len() && m.nodes@[n.current_node_index as int].is_healthy
                && m.nodes@[n.current_node_index as int].endpoint == Some(e)
        },
{
    let m = old.cluster_manager->Some_0;
    if m.nodes@.len() > 0 {
        lemma_next_healthy_after(m.nodes@, m.current_node_index as int, 1);
    } else {
        assert(next_healthy_after(m.nodes@, m.current_node_index as int, 1) is None);
    }
}

/// Two failovers in a row cannot both go through within the failover
/// timeout: after one succeeds at `t1`, another at any `t2` from `t1` up to
/// the timeout later fails, and the current node stays where the first put
/// it.
pub proof fn lemma_no_second_failover_within_timeout(
    c0: VpnClient,
    c1: VpnClient,
    c2: VpnClient,
    t1: u64,
    t2: u64,
    r1: Result<SocketAddress>,
    r2: Result<SocketAddress>,
)
    requires
        failover_attempt(c0, c1, t1, r1),
        failover_attempt(c1, c2, t2, r2),
        c0.config.clustering.enabled,
        c0.config.clustering.enable_failover,
        c0.cluster_manager is Some,
        r1 is Ok,
        t1 <= t2,
        t2 - t1 < c0.cluster_manager->Some_0.config.failover_timeout * 1000,
    ensures
        r2 matches Err(VpnError::Connection(m)) && m@ == "No healthy nodes available for failover"@,
        c2.cluster_manager matches Some(n) && n.current_node_index == c1.cluster_manager->Some_0.current_node_index,
{
    lemma_failover_respects_timeout(c0, c1, t1, r1);
    lemma_failover_respects_timeout(c1, c2, t2, r2);
}

/// What an attempt to connect a disconnected client to `server:port` at
/// time `now` does: the connection check, and if it passes the retry check
/// for the endpoint, both under the client's limits; the client connects
/// only when both pass.
pub open spec fn connect_attempt(
    old: VpnClient,
    new: VpnClient,
    server: Seq<char>,
    port: u16,
    now: u64,
    r: Result<String>,
) -> bool {
    let key = endpoint_key(server, port);
    let limits = old.config.connection_limits;
    exists|mid: ConnectionTracker, cr: Result<()>| {
        &&& #[trigger] connect_check(old.connection_tracker, limits, now, mid, cr)
        &&& mid.well_formed()
        &&& match cr {
            Err(e) => r == Err::<String, VpnError>(e) && new.connection_tracker == mid && new.status
                == old.status,
            Ok(_) => exists|rr: Result<()>| {
                &&& #[trigger] retry_check(mid, key, limits, now, new.connection_tracker, rr)
                &&& match rr {
                    Err(e) => r == Err::<String, VpnError>(e) && new.status == old.status,
                    Ok(_) => (r matches Ok(k) && k@ == key) && new.status == ConnectionStatus::Connecting,
                }
            },
        }
    }
}

/// Connecting respects the limits, whenever it is tried: with the
/// concurrent-connection limit reached, the attempt is refused with
/// `ConnectionLimitReached` and the client stays as it was; an attempt that
/// goes through was made below that limit, within the rate limit of the
/// last second, and, for an endpoint that used up its retries, after its
/// cooldown; it leaves the client connecting. A refused attempt never
/// changes the client's status, and no attempt changes the count of active
/// connections.
pub proof fn lemma_connect_attempt_respects_limits(
    old: VpnClient,
    new: VpnClient,
    server: Seq<char>,
    port: u16,
    now: u64,
    r: Result<String>,
)
    requires
        connect_attempt(old, new, server, port, now, r),
    ensures
        new.connection_tracker.active_connections == old.connection_tracker.active_connections,
        ({
            let limits = old.config.connection_limits;
            limits.max_connections > 0 && old.connection_tracker.active_connections >= limits.max_connections
        }) ==> (r matches Err(VpnError::ConnectionLimitReached(m)) && m@ == limit_message(
            old.connection_tracker.active_connections,
            old.config.connection_limits.max_connections,
        )) && new.status == old.status,
        r is Err ==> new.status == old.status,
        r matches Ok(k) ==> {
            let limits = old.config.connection_limits;
            &&& k@ == endpoint_key(server, port)
            &&& new.status == ConnectionStatus::Connecting
            &&& limits.max_connections > 0 ==> old.connection_tracker.active_connections
                < limits.max_connections
            &&& limits.rate_limit_rps > 0 ==> recent_attempts(
                old.connection_tracker.connection_attempts@,
                now,
            ).len() < limits.rate_limit_rps
            &&& forall|count: u32, last: u64|
                limits.retry_attempts > 0 && #[trigger] retry_lookup(
                    old.connection_tracker.retry_attempts@,
                    endpoint_key(server, port),
                ) == Some((count, last)) && count >= limits.retry_attempts ==> elapsed_ms(last, now)
                    >= retry_cooldown_ms(limits, count)
        },
{
    let key = endpoint_key(server, port);
    let limits = old.config.connection_limits;
    let (mid, cr) = choose|mid: ConnectionTracker, cr: Result<()>| {
        &&& #[trigger] connect_check(old.connection_tracker, limits, now, mid, cr)
        &&& mid.well_formed()
        &&& match cr {
            Err(e) => r == Err::<String, VpnError>(e) && new.connection_tracker == mid && new.status
                == old.status,
            Ok(_) => exists|rr: Result<()>| {
                &&& #[trigger] retry_check(mid, key, limits, now, new.connection_tracker, rr)
                &&& match rr {
                    Err(e) => r == Err::<String, VpnError>(e) && new.status == old.status,
                    Ok(_) => (r matches Ok(k) && k@ == key) && new.status == ConnectionStatus::Connecting,
                }
            },
        }
    };
    if cr is Ok {
        let rr = choose|rr: Result<()>| {
            &&& #[trigger] retry_check(mid, key, limits, now, new.connection_tracker, rr)
            &&& match rr {
                Err(e) => r == Err::<String, VpnError>(e) && new.status == old.status,
                Ok(_) => (r matches Ok(k) && k@ == key) && new.status == ConnectionStatus::Connecting,
            }
        };
        assert(mid.retry_attempts@ == old.connection_tracker.retry_attempts@);
    }
}

/// The tunnel takes the addresses the server assigned: where the assigned
/// local address, gateway and netmask are the dotted text of `local`,
/// `gateway` and `netmask`, the tunnel's local address is `local`, its remote
/// end is `gateway` and its netmask is `netmask`.
pub proof fn lemma_tunnel_uses_assigned_addresses(auth: Option<AuthInfo>, local: u32, gateway: u32, netmask: u32)
    requires
        auth matches Some(a) && a.ip_config matches Some(c) && c.local_ip@ == dotted(local)
            && c.gateway_ip@ == dotted(gateway) && c.netmask@ == dotted(netmask),
    ensures
        tunnel_addresses(auth) == Some((local, gateway, netmask)),
{
    lemma_parse_dotted_roundtrip(local);
    lemma_parse_dotted_roundtrip(gateway);
    lemma_parse_dotted_roundtrip(netmask);
}

proof fn lemma_next_healthy_after(nodes: Seq<ClusterNode>, current: int, k: int)
    requires
        nodes.len() > 0,
        current >= 0,
    ensures
        next_healthy_after(nodes, current, k) matches Some(i) ==> 0 <= i < nodes.len()
            && nodes[i].is_healthy,
    decreases nodes.len() + 1 - k,
{
    if 1 <= k <= nodes.len() {
        lemma_next_healthy_after(nodes, current, k + 1);
    }
}

/// The node that round robin picks `k` picks after `current`, among `n`.
pub open spec fn round_robin_pick(current: int, n: int, k: int) -> int {
    (current + k) % n
}

proof fn lemma_mod_window(x: int, n: int)
    requires
        n > 0,
        0 <= x < 2 * n,
    ensures
        x < n ==> x % n == x,
        x >= n ==> x % n == x - n,
{
    if x < n {
        vstd::arithmetic::div_mod::lemma_small_mod(x as nat, n as nat);
    } else {
        vstd::arithmetic::div_mod::lemma_small_mod((x - n) as nat, n as nat);
        vstd::arithmetic::div_mod::lemma_mod_add_multiples_vanish(x - n, n);
    }
}

/// How many picks after `current` round robin reaches node `i`, among `n`.
pub open spec fn round_robin_steps(current: int, n: int, i: int) -> int {
    if i >= current {
        i - current
    } else {
        i - current + n
    }
}

/// Round robin is fair: from any node, `n` consecutive picks among `n`
/// nodes visit every node (node `i` after `round_robin_steps` picks), and
/// no node twice.
pub proof fn lemma_round_robin_visits_all(current: int, n: int)
    requires
        0 <= current < n,
    ensures
        forall|i: int|
            0 <= i < n ==> 0 <= #[trigger] round_robin_steps(current, n, i) < n && round_robin_pick(
                current,
                n,
                round_robin_steps(current, n, i),
            ) == i,
        forall|k1: int, k2: int|
            0 <= k1 < k2 < n ==> #[trigger] round_robin_pick(current, n, k1) != #[trigger] round_robin_pick(
                current,
                n,
                k2,
            ),
{
    assert forall|i: int| 0 <= i < n implies 0 <= #[trigger] round_robin_steps(current, n, i) < n
        && round_robin_pick(current, n, round_robin_steps(current, n, i)) == i by {
        lemma_mod_window(current + round_robin_steps(current, n, i), n);
    }
    assert forall|k1: int, k2: int|
        0 <= k1 < k2 < n implies #[trigger] round_robin_pick(current, n, k1) != #[trigger] round_robin_pick(current, n, k2) by {
        lemma_mod_window(current + k1, n);
        lemma_mod_window(current + k2, n);
    }
}

/// Round robin over healthy nodes goes round in turn: with every node
/// healthy, `k` picks in a row from the cursor give the nodes `cursor`,
/// `cursor + 1`, ... (stepping round the end of the list); together with
/// [`lemma_round_robin_visits_all`], `n` picks visit each of `n` nodes once.
/// Whatever the health of the nodes, every pick is a healthy node, and there
/// is a pick exactly when some node is healthy.
pub proof fn lemma_round_robin_in_turn(nodes: Seq<ClusterNode>, cursor: int, k: nat)
    requires
        nodes.len() > 0,
        0 <= cursor < nodes.len(),
    ensures
        round_robin_picks(nodes, cursor, k).len() == k,
        forall|j: int|
            0 <= j < k ==> (#[trigger] round_robin_picks(nodes, cursor, k)[j] matches Some(i) ==> 0 <= i
                < nodes.len() && nodes[i].is_healthy),
        (exists|i: int| 0 <= i < nodes.len() && #[trigger] nodes[i].is_healthy) ==> forall|j: int|
            0 <= j < k ==> #[trigger] round_robin_picks(nodes, cursor, k)[j] is Some,
        (forall|i: int| 0 <= i < nodes.len() ==> #[trigger] nodes[i].is_healthy) ==> forall|j: int|
            0 <= j < k ==> #[trigger] round_robin_picks(nodes, cursor, k)[j] == Some(
                round_robin_pick(cursor, nodes.len() as int, j),
            ),
    decreases k,
{
    let n = nodes.len() as int;
    if k > 0 {
        let (p, next) = round_robin_step(nodes, cursor);
        lemma_first_healthy_from(nodes, cursor, 0);
        if exists|i: int| 0 <= i < nodes.len() && #[trigger] nodes[i].is_healthy {
            lemma_first_healthy_exists(nodes, cursor, 0);
        }
        if p is Some {
            let i = p->Some_0;
            vstd::arithmetic::div_mod::lemma_mod_bound(i + 1, n);
        }
        assert(0 <= next < n);
        lemma_round_robin_in_turn(nodes, next, (k - 1) as nat);
        let rest = round_robin_picks(nodes, next, (k - 1) as nat);
        assert(round_robin_picks(nodes, cursor, k) == seq![p] + rest);
        if forall|i: int| 0 <= i < nodes.len() ==> #[trigger] nodes[i].is_healthy {
            vstd::arithmetic::div_mod::lemma_small_mod(cursor as nat, n as nat);
            assert(nodes[(cursor + 0) % n].is_healthy);
            assert(p == Some(cursor));
            assert forall|j: int| 0 <= j < k implies #[trigger] round_robin_picks(nodes, cursor, k)[j] == Some(
                round_robin_pick(cursor, n, j),
            ) by {
                if j > 0 {
                    assert(round_robin_picks(nodes, cursor, k)[j] == rest[j - 1]);
                    assert(rest[j - 1] == Some(round_robin_pick(next, n, j - 1)));
                    assert(next == (cursor + 1) % n);
                    vstd::arithmetic::div_mod::lemma_add_mod_noop(cursor + 1, j - 1, n);
                    vstd::arithmetic::div_mod::lemma_mod_twice(cursor + 1, n);
                    vstd::arithmetic::div_mod::lemma_add_mod_noop(next, j - 1, n);
                    assert((next + (j - 1)) % n == (cursor + j) % n);
                } else {
                    assert(round_robin_pick(cursor, n, 0) == cursor);
                }
            }
        }
        assert forall|j: int| 0 <= j < k implies (#[trigger] round_robin_picks(nodes, cursor, k)[j] matches Some(i)
            ==> 0 <= i < nodes.len() && nodes[i].is_healthy) by {
            if j > 0 {
                assert(round_robin_picks(nodes, cursor, k)[j] == rest[j - 1]);
            }
        }
        if exists|i: int| 0 <= i < nodes.len() && #[trigger] nodes[i].is_healthy {
            assert forall|j: int| 0 <= j < k implies #[trigger] round_robin_picks(nodes, cursor, k)[j] is Some by {
                if j > 0 {
                    assert(round_robin_picks(nodes, cursor, k)[j] == rest[j - 1]);
                }
            }
        }
    }
}

/// Some node is found from the cursor when some node is healthy.
proof fn lemma_first_healthy_exists(nodes: Seq<ClusterNode>, start: int, k: int)
    requires
        nodes.len() > 0,
        0 <= start < nodes.len(),
        0 <= k <= nodes.len(),
        forall|m: int| 0 <= m < k ==> !nodes[#[trigger] ((start + m) % (nodes.len() as int))].is_healthy,
        exists|i: int| 0 <= i < nodes.len() && #[trigger] nodes[i].is_healthy,
    ensures
        first_healthy_from(nodes, start, k) is Some,
    decreases nodes.len() - k,
{
    let n = nodes.len() as int;
    if k == n {
        let i = choose|i: int| 0 <= i < nodes.len() && #[trigger] nodes[i].is_healthy;
        let m = if i >= start { i - start } else { i - start + n };
        lemma_mod_window(start + m, n);
        assert(nodes[(start + m) % n].is_healthy);
        assert(false);
    } else if !nodes[(start + k) % n].is_healthy {
        lemma_first_healthy_exists(nodes, start, k + 1);
    }
}

} // verus!
