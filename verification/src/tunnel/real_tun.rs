//! Packets on their way through the tunnel: the session's XOR scrambling,
//! the processor's statistics, and the state of a TUN interface. Reading and
//! writing the device is done by the caller.

use vstd::prelude::*;
use crate::error::Result;

verus! {

/// `data` with every byte XORed with the key byte at its position, the key
/// repeating.
pub open spec fn xor_with(data: Seq<u8>, key: Seq<u8>) -> Seq<u8> {
    Seq::new(data.len(), |i: int| data[i] ^ key[i % (key.len() as int)])
}

/// Scrambling twice with the same key gives the data back.
pub proof fn lemma_xor_twice(data: Seq<u8>, key: Seq<u8>)
    requires
        key.len() > 0,
    ensures
        xor_with(xor_with(data, key), key) == data,
{
    assert forall|i: int| 0 <= i < data.len() implies #[trigger] xor_with(xor_with(data, key), key)[i] == data[i] by {
        let a = data[i];
        let k = key[i % (key.len() as int)];
        assert((a ^ k) ^ k == a) by (bit_vector);
    }
    assert(xor_with(xor_with(data, key), key) =~= data);
}

fn xor_bytes(data: &Vec<u8>, key: &[u8]) -> (r: Vec<u8>)
    requires
        key@.len() > 0 || data@.len() == 0,
    ensures
        r@ == xor_with(data@, key@),
{
    let mut out: Vec<u8> = Vec::new();
    let mut i: usize = 0;
    while i < data.len()
        invariant
            i <= data@.len(),
            key@.len() > 0 || data@.len() == 0,
            out@.len() == i,
            forall|j: int| 0 <= j < i ==> out@[j] == data@[j] ^ key@[j % (key@.len() as int)],
        decreases data@.len() - i,
    {
        let k = key[i % key.len()];
        out.push(data[i] ^ k);
        i = i + 1;
    }
    assert(out@ =~= xor_with(data@, key@));
    out
}

/// Packet data structure for VPN tunneling. Addresses are IPv4 addresses
/// as integers.
#[derive(Debug, Clone)]
pub struct VpnPacket {
    pub data: Vec<u8>,
    pub source_ip: u32,
    pub dest_ip: u32,
    pub protocol: u8,
    pub encrypted: bool,
}

impl VpnPacket {
    /// A packet that is not encrypted.
    pub fn new(data: Vec<u8>, source_ip: u32, dest_ip: u32, protocol: u8) -> (r: Self)
        ensures
            r.data@ == data@,
            r.source_ip == source_ip,
            r.dest_ip == dest_ip,
            r.protocol == protocol,
            !r.encrypted,
    {
        Self { data, source_ip, dest_ip, protocol, encrypted: false }
    }

    /// Scrambles the data with the session key (once: an encrypted packet is
    /// left as it is).
    pub fn encrypt(&mut self, session_key: &[u8]) -> (r: Result<()>)
        requires
            old(self).encrypted || old(self).data@.len() == 0 || session_key@.len() > 0,
        ensures
            r is Ok,
            final(self).encrypted,
            final(self).data@ == if old(self).encrypted {
                old(self).data@
            } else {
                xor_with(old(self).data@, session_key@)
            },
            final(self).source_ip == old(self).source_ip,
            final(self).dest_ip == old(self).dest_ip,
            final(self).protocol == old(self).protocol,
    {
        if self.encrypted {
            return Ok(());
        }
        self.data = xor_bytes(&self.data, session_key);
        self.encrypted = true;
        Ok(())
    }

    /// Unscrambles the data with the session key (only an encrypted packet).
    pub fn decrypt(&mut self, session_key: &[u8]) -> (r: Result<()>)
        requires
            !old(self).encrypted || old(self).data@.len() == 0 || session_key@.len() > 0,
        ensures
            r is Ok,
            !final(self).encrypted,
            final(self).data@ == if old(self).encrypted {
                xor_with(old(self).data@, session_key@)
            } else {
                old(self).data@
            },
            final(self).source_ip == old(self).source_ip,
            final(self).dest_ip == old(self).dest_ip,
            final(self).protocol == old(self).protocol,
    {
        if !self.encrypted {
            return Ok(());
        }
        self.data = xor_bytes(&self.data, session_key);
        self.encrypted = false;
        Ok(())
    }

    /// Packet size in bytes.
    pub fn size(&self) -> (r: usize)
        ensures
            r == self.data@.len(),
    {
        self.data.len()
    }
}

/// Packet processing statistics.
#[derive(Debug, Clone, Copy, PartialEq, Eq, Structural)]
pub struct PacketStats {
    pub packets_sent: u64,
    pub packets_received: u64,
    pub bytes_sent: u64,
    pub bytes_received: u64,
    pub encryption_errors: u64,
    pub decryption_errors: u64,
}

impl Default for PacketStats {
    fn default() -> (r: Self)
        ensures
            r == (PacketStats {
                packets_sent: 0,
                packets_received: 0,
                bytes_sent: 0,
                bytes_received: 0,
                encryption_errors: 0,
                decryption_errors: 0,
            }),
    {
        PacketStats {
            packets_sent: 0,
            packets_received: 0,
            bytes_sent: 0,
            bytes_received: 0,
            encryption_errors: 0,
            decryption_errors: 0,
        }
    }
}

/// Packet processor for the VPN tunnel: the session key and what it has
/// processed.
pub struct PacketProcessor {
    pub session_key: Vec<u8>,
    pub stats: PacketStats,
}

impl PacketProcessor {
    /// A processor for `session_key` with empty statistics.
    pub fn new(session_key: Vec<u8>) -> (r: Self)
        ensures
            r.session_key@ == session_key@,
            r.stats == (PacketStats {
                packets_sent: 0,
                packets_received: 0,
                bytes_sent: 0,
                bytes_received: 0,
                encryption_errors: 0,
                decryption_errors: 0,
            }),
    {
        Self { session_key, stats: PacketStats::default() }
    }

    /// Processes one outgoing packet: encrypts it with the session key and
    /// counts it (the counters wrap).
    pub fn process_packet(&mut self, packet: &mut VpnPacket) -> (r: Result<()>)
        requires
            old(packet).encrypted || old(packet).data@.len() == 0 || old(self).session_key@.len() > 0,
        ensures
            r is Ok,
            final(packet).encrypted,
            final(packet).data@ == if old(packet).encrypted {
                old(packet).data@
            } else {
                xor_with(old(packet).data@, old(self).session_key@)
            },
            final(self).session_key@ == old(self).session_key@,
            final(self).stats == (PacketStats {
                packets_sent: old(self).stats.packets_sent.wrapping_add(1),
                bytes_sent: old(self).stats.bytes_sent.wrapping_add(final(packet).data@.len() as u64),
                ..old(self).stats
            }),
    {
        packet.encrypt(self.session_key.as_slice())?;
        self.stats.packets_sent = self.stats.packets_sent.wrapping_add(1);
        self.stats.bytes_sent = self.stats.bytes_sent.wrapping_add(packet.size() as u64);
        Ok(())
    }

    /// Current packet processing statistics.
    pub fn get_stats(&self) -> (r: PacketStats)
        ensures
            r == self.stats,
    {
        self.stats
    }
}

/// The key a new interface's packet processor starts with.
pub const EXAMPLE_SESSION_KEY: &'static str = "example_session_key_32_bytes_long";

/// State of a real TUN interface.
pub struct RealTunInterface {
    pub interface_name: String,
    pub packet_processor: Option<PacketProcessor>,
    pub is_running: bool,
}

impl RealTunInterface {
    /// An interface that is not created yet.
    pub fn new(interface_name: String) -> (r: Self)
        ensures
            r.interface_name == interface_name,
            r.packet_processor is None,
            !r.is_running,
    {
        Self { interface_name, packet_processor: None, is_running: false }
    }

    /// Records that the device was created: a packet processor with the
    /// example session key starts and the interface runs.
    pub fn interface_created(&mut self)
        ensures
            final(self).is_running,
            final(self).packet_processor matches Some(p) && p.session_key@ == vstd::utf8::encode_utf8(
                EXAMPLE_SESSION_KEY@,
            ) && p.stats == PacketStats::default_spec(),
            final(self).interface_name == old(self).interface_name,
    {
        let key = EXAMPLE_SESSION_KEY.as_bytes();
        let mut bytes: Vec<u8> = Vec::new();
        let mut i: usize = 0;
        while i < key.len()
            invariant
                i <= key@.len(),
                bytes@ == key@.subrange(0, i as int),
            decreases key@.len() - i,
        {
            bytes.push(key[i]);
            i = i + 1;
        }
        assert(bytes@ =~= key@);
        self.packet_processor = Some(PacketProcessor::new(bytes));
        self.is_running = true;
    }

    /// Records that the device was destroyed.
    pub fn interface_destroyed(&mut self) -> (r: Result<()>)
        ensures
            r is Ok,
            !final(self).is_running,
            final(self).packet_processor is None,
            final(self).interface_name == old(self).interface_name,
    {
        self.is_running = false;
        self.packet_processor = None;
        Ok(())
    }

    /// Whether the interface is running.
    pub fn is_running(&self) -> (r: bool)
        ensures
            r == self.is_running,
    {
        self.is_running
    }

    /// Packet processing statistics, while there is a processor.
    pub fn get_packet_stats(&self) -> (r: Option<PacketStats>)
        ensures
            r == match self.packet_processor {
                Some(p) => Some(p.stats),
                None => None::<PacketStats>,
            },
    {
        match &self.packet_processor {
            Some(p) => Some(p.get_stats()),
            None => None,
        }
    }
}

impl PacketStats {
    /// Statistics with every counter at zero.
    pub open spec fn default_spec() -> PacketStats {
        PacketStats {
            packets_sent: 0,
            packets_received: 0,
            bytes_sent: 0,
            bytes_received: 0,
            encryption_errors: 0,
            decryption_errors: 0,
        }
    }
}

} // verus!
