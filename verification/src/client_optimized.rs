//! The high-performance client's bookkeeping: performance settings and
//! statistics, packet batches, and adaptive MTU tuning. Its channels and
//! background tasks are run by the caller.

use vstd::prelude::*;
use crate::client::elapsed_ms;
use crate::clock::now_millis;
use crate::config::VpnConfig;
use crate::error::{Result, VpnError};
use crate::text::join2;

verus! {

/// Performance configuration. Durations are in milliseconds.
#[derive(Debug, Clone, Copy, PartialEq, Eq, Structural)]
pub struct PerformanceConfig {
    /// Maximum concurrent connections
    pub max_connections: usize,
    /// Packet batch size for bulk processing
    pub packet_batch_size: usize,
    /// Buffer sizes
    pub send_buffer_size: usize,
    pub receive_buffer_size: usize,
    /// Timeout settings
    pub connection_timeout_ms: u64,
    pub keepalive_interval_ms: u64,
    /// Performance tuning
    pub enable_compression: bool,
    pub enable_packet_batching: bool,
    pub adaptive_mtu: bool,
    /// Monitoring
    pub stats_interval_ms: u64,
    pub enable_detailed_stats: bool,
}

impl Default for PerformanceConfig {
    fn default() -> (r: Self)
        ensures
            r == (PerformanceConfig {
                max_connections: 10,
                packet_batch_size: 32,
                send_buffer_size: 65536,
                receive_buffer_size: 65536,
                connection_timeout_ms: 30_000,
                keepalive_interval_ms: 30_000,
                enable_compression: true,
                enable_packet_batching: true,
                adaptive_mtu: true,
                stats_interval_ms: 10_000,
                enable_detailed_stats: true,
            }),
    {
        PerformanceConfig {
            max_connections: 10,
            packet_batch_size: 32,
            send_buffer_size: 65536,
            receive_buffer_size: 65536,
            connection_timeout_ms: 30_000,
            keepalive_interval_ms: 30_000,
            enable_compression: true,
            enable_packet_batching: true,
            adaptive_mtu: true,
            stats_interval_ms: 10_000,
            enable_detailed_stats: true,
        }
    }
}

/// Performance statistics snapshot.
#[derive(Debug, Clone, Copy, PartialEq, Eq, Structural)]
pub struct PerformanceSnapshot {
    pub bytes_sent: u64,
    pub bytes_received: u64,
    pub packets_sent: u64,
    pub packets_received: u64,
    pub avg_latency_ms: u64,
    pub throughput_mbps: u64,
    pub packet_loss_percent: u64,
    pub connection_drops: u64,
    pub cpu_usage_percent: u64,
    pub memory_usage_mb: u64,
    pub active_connections: u64,
    pub protocol_errors: u64,
    pub network_errors: u64,
    pub tunnel_errors: u64,
    /// When the snapshot was taken
    pub timestamp_ms: u64,
}

/// Real-time performance statistics. Counters wrap around as the atomic
/// counters they stand for do.
#[derive(Debug, Clone, Copy, PartialEq, Eq, Structural)]
pub struct PerformanceStats {
    pub bytes_sent: u64,
    pub bytes_received: u64,
    pub packets_sent: u64,
    pub packets_received: u64,
    pub avg_latency_ms: u64,
    pub throughput_mbps: u64,
    pub packet_loss_percent: u64,
    pub connection_drops: u64,
    pub cpu_usage_percent: u64,
    pub memory_usage_mb: u64,
    pub active_connections: u64,
    pub protocol_errors: u64,
    pub network_errors: u64,
    pub tunnel_errors: u64,
    /// When the statistics were last updated
    pub last_update_ms: u64,
    pub is_monitoring: bool,
}

/// The moving average that gives the history seven parts in eight; the
/// first sample is taken as it is.
pub open spec fn moving_average(current: u64, sample: u64) -> u64 {
    if current == 0 {
        sample
    } else {
        (current.wrapping_mul(7).wrapping_add(sample) / 8) as u64
    }
}

fn average(current: u64, sample: u64) -> (r: u64)
    ensures
        r == moving_average(current, sample),
{
    if current == 0 {
        sample
    } else {
        current.wrapping_mul(7).wrapping_add(sample) / 8
    }
}

/// Statistics with every counter at zero, made at time `now`.
pub open spec fn zeroed_stats(now: u64) -> PerformanceStats {
    PerformanceStats {
        bytes_sent: 0,
        bytes_received: 0,
        packets_sent: 0,
        packets_received: 0,
        avg_latency_ms: 0,
        throughput_mbps: 0,
        packet_loss_percent: 0,
        connection_drops: 0,
        cpu_usage_percent: 0,
        memory_usage_mb: 0,
        active_connections: 0,
        protocol_errors: 0,
        network_errors: 0,
        tunnel_errors: 0,
        last_update_ms: now,
        is_monitoring: false,
    }
}

impl PerformanceStats {
    /// Statistics with every counter at zero, made at time `now`.
    pub fn new_at(now: u64) -> (r: Self)
        ensures
            r == zeroed_stats(now),
    {
        PerformanceStats {
            bytes_sent: 0,
            bytes_received: 0,
            packets_sent: 0,
            packets_received: 0,
            avg_latency_ms: 0,
            throughput_mbps: 0,
            packet_loss_percent: 0,
            connection_drops: 0,
            cpu_usage_percent: 0,
            memory_usage_mb: 0,
            active_connections: 0,
            protocol_errors: 0,
            network_errors: 0,
            tunnel_errors: 0,
            last_update_ms: now,
            is_monitoring: false,
        }
    }

    /// Statistics with every counter at zero, made now.
    pub fn new() -> (r: Self)
        ensures
            r == zeroed_stats(r.last_update_ms),
    {
        Self::new_at(now_millis())
    }

    /// Adds traffic to the counters.
    pub fn update_traffic(&mut self, bytes_sent: u64, bytes_received: u64, packets_sent: u64, packets_received: u64)
        ensures
            *final(self) == (PerformanceStats {
                bytes_sent: old(self).bytes_sent.wrapping_add(bytes_sent),
                bytes_received: old(self).bytes_received.wrapping_add(bytes_received),
                packets_sent: old(self).packets_sent.wrapping_add(packets_sent),
                packets_received: old(self).packets_received.wrapping_add(packets_received),
                ..*old(self)
            }),
    {
        self.bytes_sent = self.bytes_sent.wrapping_add(bytes_sent);
        self.bytes_received = self.bytes_received.wrapping_add(bytes_received);
        self.packets_sent = self.packets_sent.wrapping_add(packets_sent);
        self.packets_received = self.packets_received.wrapping_add(packets_received);
    }

    /// Folds a latency and a throughput sample into their moving averages.
    pub fn update_performance(&mut self, latency_ms: u64, throughput_mbps: u64)
        ensures
            *final(self) == (PerformanceStats {
                avg_latency_ms: moving_average(old(self).avg_latency_ms, latency_ms),
                throughput_mbps: moving_average(old(self).throughput_mbps, throughput_mbps),
                ..*old(self)
            }),
    {
        self.avg_latency_ms = average(self.avg_latency_ms, latency_ms);
        self.throughput_mbps = average(self.throughput_mbps, throughput_mbps);
    }

    /// The statistics as a snapshot taken at time `now`.
    pub fn snapshot_at(&self, now: u64) -> (r: PerformanceSnapshot)
        ensures
            r == (PerformanceSnapshot {
                bytes_sent: self.bytes_sent,
                bytes_received: self.bytes_received,
                packets_sent: self.packets_sent,
                packets_received: self.packets_received,
                avg_latency_ms: self.avg_latency_ms,
                throughput_mbps: self.throughput_mbps,
                packet_loss_percent: self.packet_loss_percent,
                connection_drops: self.connection_drops,
                cpu_usage_percent: self.cpu_usage_percent,
                memory_usage_mb: self.memory_usage_mb,
                active_connections: self.active_connections,
                protocol_errors: self.protocol_errors,
                network_errors: self.network_errors,
                tunnel_errors: self.tunnel_errors,
                timestamp_ms: now,
            }),
    {
        PerformanceSnapshot {
            bytes_sent: self.bytes_sent,
            bytes_received: self.bytes_received,
            packets_sent: self.packets_sent,
            packets_received: self.packets_received,
            avg_latency_ms: self.avg_latency_ms,
            throughput_mbps: self.throughput_mbps,
            packet_loss_percent: self.packet_loss_percent,
            connection_drops: self.connection_drops,
            cpu_usage_percent: self.cpu_usage_percent,
            memory_usage_mb: self.memory_usage_mb,
            active_connections: self.active_connections,
            protocol_errors: self.protocol_errors,
            network_errors: self.network_errors,
            tunnel_errors: self.tunnel_errors,
            timestamp_ms: now,
        }
    }

    /// The statistics as a snapshot taken now.
    pub fn snapshot(&self) -> (r: PerformanceSnapshot)
        ensures
            r == self.snapshot_spec(r.timestamp_ms),
    {
        self.snapshot_at(now_millis())
    }

    /// The snapshot of these statistics at time `now`.
    pub open spec fn snapshot_spec(&self, now: u64) -> PerformanceSnapshot {
        PerformanceSnapshot {
            bytes_sent: self.bytes_sent,
            bytes_received: self.bytes_received,
            packets_sent: self.packets_sent,
            packets_received: self.packets_received,
            avg_latency_ms: self.avg_latency_ms,
            throughput_mbps: self.throughput_mbps,
            packet_loss_percent: self.packet_loss_percent,
            connection_drops: self.connection_drops,
            cpu_usage_percent: self.cpu_usage_percent,
            memory_usage_mb: self.memory_usage_mb,
            active_connections: self.active_connections,
            protocol_errors: self.protocol_errors,
            network_errors: self.network_errors,
            tunnel_errors: self.tunnel_errors,
            timestamp_ms: now,
        }
    }

    /// Counts a batch of packets sent.
    pub fn record_outbound_batch(&mut self, packets: &Vec<Vec<u8>>)
        ensures
            *final(self) == (PerformanceStats {
                bytes_sent: old(self).bytes_sent.wrapping_add(total_len(packets@)),
                packets_sent: old(self).packets_sent.wrapping_add(packets@.len() as u64),
                ..*old(self)
            }),
    {
        let mut total: u64 = 0;
        let mut i: usize = 0;
        while i < packets.len()
            invariant
                i <= packets@.len(),
                total == total_len(packets@.subrange(0, i as int)),
            decreases packets@.len() - i,
        {
            proof {
                let s = packets@.subrange(0, i + 1);
                assert(s.drop_last() =~= packets@.subrange(0, i as int));
            }
            total = total.wrapping_add(packets[i].len() as u64);
            i = i + 1;
        }
        assert(packets@.subrange(0, i as int) =~= packets@);
        self.update_traffic(total, 0, packets.len() as u64, 0);
    }
}

/// The number of bytes in `packets`, wrapping as a 64-bit counter does.
pub open spec fn total_len(packets: Seq<Vec<u8>>) -> u64
    decreases packets.len(),
{
    if packets.len() == 0 {
        0
    } else {
        total_len(packets.drop_last()).wrapping_add(packets.last()@.len() as u64)
    }
}

/// The throughput between two snapshots, in megabits per second, when they
/// are at least a second apart.
pub open spec fn throughput_between(last: PerformanceSnapshot, current: PerformanceSnapshot) -> Option<u64> {
    let secs = (elapsed_ms(last.timestamp_ms, current.timestamp_ms) / 1000) as u64;
    let bytes = current.bytes_sent.wrapping_add(current.bytes_received).wrapping_sub(last.bytes_sent).wrapping_sub(
        last.bytes_received,
    );
    if secs > 0 {
        Some((bytes.wrapping_mul(8) / secs.wrapping_mul(1_000_000)) as u64)
    } else {
        None
    }
}

/// The throughput between two snapshots, in megabits per second, when they
/// are at least a second apart.
pub fn throughput_mbps_between(last: &PerformanceSnapshot, current: &PerformanceSnapshot) -> (r: Option<u64>)
    ensures
        r == throughput_between(*last, *current),
{
    let waited: u64 = if current.timestamp_ms >= last.timestamp_ms {
        current.timestamp_ms - last.timestamp_ms
    } else {
        0
    };
    let secs = waited / 1000;
    let bytes = current.bytes_sent.wrapping_add(current.bytes_received).wrapping_sub(last.bytes_sent).wrapping_sub(
        last.bytes_received,
    );
    if secs > 0 {
        let per = secs.wrapping_mul(1_000_000);
        if per == 0 {
            return None;
        }
        Some(bytes.wrapping_mul(8) / per)
    } else {
        None
    }
}

/// A batch of packets waiting to be sent together.
#[derive(Debug)]
pub struct PacketBatch {
    pub packets: Vec<Vec<u8>>,
    pub total_size: usize,
    /// When the batch was started
    pub created_at_ms: u64,
}

/// A batch is sent once it holds this many packets.
pub const BATCH_PACKETS: usize = 32;

/// A batch is sent once it holds this many bytes.
pub const BATCH_BYTES: usize = 65536;

/// A batch is sent once it is older than this many milliseconds.
pub const BATCH_AGE_MS: u64 = 10;

impl PacketBatch {
    /// An empty batch started at time `now`.
    pub fn new_at(now: u64) -> (r: Self)
        ensures
            r.packets@.len() == 0,
            r.total_size == 0,
            r.created_at_ms == now,
    {
        Self { packets: Vec::new(), total_size: 0, created_at_ms: now }
    }

    /// An empty batch started now.
    pub fn new() -> (r: Self)
        ensures
            r.packets@.len() == 0,
            r.total_size == 0,
    {
        Self::new_at(now_millis())
    }

    /// Adds a packet at time `now`; answers whether the batch should now be
    /// sent: it holds 32 packets or 64 KiB, or is older than 10 ms.
    pub fn add_packet_at(&mut self, packet: Vec<u8>, now: u64) -> (r: bool)
        requires
            old(self).total_size + packet@.len() <= usize::MAX,
        ensures
            final(self).packets@ == old(self).packets@.push(packet),
            final(self).total_size == old(self).total_size + packet@.len(),
            final(self).created_at_ms == old(self).created_at_ms,
            r == (final(self).packets@.len() >= BATCH_PACKETS || final(self).total_size >= BATCH_BYTES
                || elapsed_ms(old(self).created_at_ms, now) > BATCH_AGE_MS),
    {
        self.total_size = self.total_size + packet.len();
        self.packets.push(packet);
        let age: u64 = if now >= self.created_at_ms {
            now - self.created_at_ms
        } else {
            0
        };
        self.packets.len() >= BATCH_PACKETS || self.total_size >= BATCH_BYTES || age > BATCH_AGE_MS
    }

    /// Adds a packet now; answers whether the batch should now be sent.
    pub fn add_packet(&mut self, packet: Vec<u8>) -> (r: bool)
        requires
            old(self).total_size + packet@.len() <= usize::MAX,
        ensures
            final(self).packets@ == old(self).packets@.push(packet),
            final(self).total_size == old(self).total_size + packet@.len(),
            (final(self).packets@.len() >= BATCH_PACKETS || final(self).total_size >= BATCH_BYTES) ==> r,
    {
        self.add_packet_at(packet, now_millis())
    }

    /// Whether the batch is empty.
    pub fn is_empty(&self) -> (r: bool)
        ensures
            r == (self.packets@.len() == 0),
    {
        self.packets.len() == 0
    }

    /// Number of packets in the batch.
    pub fn len(&self) -> (r: usize)
        ensures
            r == self.packets@.len(),
    {
        self.packets.len()
    }

    /// Number of bytes in the batch.
    pub fn total_size(&self) -> (r: usize)
        ensures
            r == self.total_size,
    {
        self.total_size
    }

    /// Takes the packets out, starting a new batch at time `now`.
    pub fn drain_at(&mut self, now: u64) -> (r: Vec<Vec<u8>>)
        ensures
            r@ == old(self).packets@,
            final(self).packets@.len() == 0,
            final(self).total_size == 0,
            final(self).created_at_ms == now,
    {
        let mut packets: Vec<Vec<u8>> = Vec::new();
        std::mem::swap(&mut packets, &mut self.packets);
        self.total_size = 0;
        self.created_at_ms = now;
        packets
    }
}

/// The smallest MTU that adaptive tuning goes down to.
pub const MIN_MTU: u64 = 1280;

/// The largest MTU that adaptive tuning goes up to.
pub const MAX_MTU: u64 = 9000;

/// The MTU that adaptive tuning picks: 100 less (down to 1280) on packet
/// loss over 5%, 100 more (up to 9000) when latency is under 50 ms and
/// throughput over 100 Mbit/s, else the same.
pub open spec fn tuned_mtu(mtu: u64, stats: PerformanceSnapshot) -> u64 {
    if stats.packet_loss_percent > 5 {
        if mtu - 100 > MIN_MTU {
            (mtu - 100) as u64
        } else {
            MIN_MTU
        }
    } else if stats.avg_latency_ms < 50 && stats.throughput_mbps > 100 {
        if mtu + 100 < MAX_MTU {
            (mtu + 100) as u64
        } else {
            MAX_MTU
        }
    } else {
        mtu
    }
}

/// High-performance VPN client state.
pub struct OptimizedVpnClient {
    pub config: VpnConfig,
    pub perf_config: PerformanceConfig,
    pub stats: PerformanceStats,
    pub is_running: bool,
    pub packet_batch: PacketBatch,
    pub adaptive_mtu: u64,
}

impl OptimizedVpnClient {
    /// The MTU stays within the tuning range.
    pub open spec fn well_formed(&self) -> bool {
        MIN_MTU <= self.adaptive_mtu <= MAX_MTU
    }

    /// A client that is not running, with the default performance
    /// configuration unless one is given, and an MTU of 1500.
    pub fn new(config: VpnConfig, perf_config: Option<PerformanceConfig>) -> (r: Self)
        ensures
            r.well_formed(),
            r.config == config,
            r.perf_config == match perf_config {
                Some(p) => p,
                None => PerformanceConfig {
                    max_connections: 10,
                    packet_batch_size: 32,
                    send_buffer_size: 65536,
                    receive_buffer_size: 65536,
                    connection_timeout_ms: 30_000,
                    keepalive_interval_ms: 30_000,
                    enable_compression: true,
                    enable_packet_batching: true,
                    adaptive_mtu: true,
                    stats_interval_ms: 10_000,
                    enable_detailed_stats: true,
                },
            },
            !r.is_running,
            r.adaptive_mtu == 1500,
            r.packet_batch.packets@.len() == 0,
            r.packet_batch.total_size == 0,
            r.stats == zeroed_stats(r.stats.last_update_ms),
    {
        let perf_config = match perf_config {
            Some(p) => p,
            None => PerformanceConfig::default(),
        };
        Self {
            config,
            perf_config,
            stats: PerformanceStats::new(),
            is_running: false,
            packet_batch: PacketBatch::new(),
            adaptive_mtu: 1500,
        }
    }

    /// Connecting, given whether the configured server address parsed (and
    /// the parser's message when it did not): the binary protocol that this
    /// client spoke is gone, so every attempt fails.
    pub fn connect(&mut self, server_address: std::result::Result<(), String>) -> (r: Result<()>)
        ensures
            match server_address {
                Err(e) => r matches Err(VpnError::Config(m)) && m@ == "Invalid server address: "@ + e@,
                Ok(_) => r matches Err(VpnError::Network(m)) && m@
                    == "Binary protocol no longer supported - use VpnClient instead"@,
            },
            final(self).is_running == old(self).is_running,
    {
        match server_address {
            Err(e) => Err(VpnError::Config(join2("Invalid server address: ", e.as_str()))),
            Ok(()) => Err(VpnError::Network("Binary protocol no longer supported - use VpnClient instead".to_owned())),
        }
    }

    /// Current performance statistics.
    pub fn get_stats(&self) -> (r: PerformanceSnapshot)
        ensures
            r == self.stats.snapshot_spec(r.timestamp_ms),
    {
        self.stats.snapshot()
    }

    /// Tunes the MTU to the current statistics, when adaptive MTU is on.
    pub fn optimize_performance(&mut self) -> (r: Result<()>)
        requires
            old(self).well_formed(),
        ensures
            r is Ok,
            final(self).well_formed(),
            exists|now: u64| {
                let s = #[trigger] old(self).stats.snapshot_spec(now);
                final(self).adaptive_mtu == if old(self).perf_config.adaptive_mtu {
                    tuned_mtu(old(self).adaptive_mtu, s)
                } else {
                    old(self).adaptive_mtu
                }
            },
            final(self).stats == old(self).stats,
            final(self).is_running == old(self).is_running,
    {
        let stats = self.stats.snapshot();
        if self.perf_config.adaptive_mtu {
            let current = self.adaptive_mtu;
            let new_mtu = if stats.packet_loss_percent > 5 {
                if current - 100 > MIN_MTU {
                    current - 100
                } else {
                    MIN_MTU
                }
            } else if stats.avg_latency_ms < 50 && stats.throughput_mbps > 100 {
                if current + 100 < MAX_MTU {
                    current + 100
                } else {
                    MAX_MTU
                }
            } else {
                current
            };
            self.adaptive_mtu = new_mtu;
        }
        assert(self.stats.snapshot_spec(stats.timestamp_ms) == stats);
        Ok(())
    }

    /// Stops the client: it is no longer running or monitoring.
    pub fn disconnect(&mut self) -> (r: Result<()>)
        ensures
            r is Ok,
            !final(self).is_running,
            !final(self).stats.is_monitoring,
            final(self).adaptive_mtu == old(self).adaptive_mtu,
    {
        self.is_running = false;
        self.stats.is_monitoring = false;
        Ok(())
    }

    /// Whether the client is running.
    pub fn is_connected(&self) -> (r: bool)
        ensures
            r == self.is_running,
    {
        self.is_running
    }
}

} // verus!
