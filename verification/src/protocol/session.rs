//! Session management for the SoftEther SSL-VPN protocol: the session id
//! and the times of its start and last keepalive.

use vstd::prelude::*;
use crate::client::elapsed_ms;
use crate::clock::now_millis;
use crate::config::Config;
use crate::error::{Result, VpnError};
use crate::random::new_v4_uuid;

verus! {

/// Session manager for SoftEther VPN connections.
pub struct SessionManager {
    /// The session's UUID, as its 128-bit value
    pub session_id: Option<u128>,
    /// When the session started
    pub start_time_ms: Option<u64>,
    /// When the last keepalive was sent
    pub last_keepalive_ms: Option<u64>,
    pub config: Config,
}

impl SessionManager {
    /// A manager with no session.
    pub fn new(config: &Config) -> (r: Result<Self>)
        ensures
            r matches Ok(m) && m.session_id is None && m.start_time_ms is None
                && m.last_keepalive_ms is None && m.config.same_as(*config),
    {
        Ok(Self { session_id: None, start_time_ms: None, last_keepalive_ms: None, config: config.duplicate() })
    }

    /// Starts a session with the given id at time `now`.
    pub fn start_session_at(&mut self, session_id: u128, now: u64) -> (r: Result<u128>)
        ensures
            r == Ok::<u128, VpnError>(session_id),
            final(self).session_id == Some(session_id),
            final(self).start_time_ms == Some(now),
            final(self).last_keepalive_ms == Some(now),
    {
        self.session_id = Some(session_id);
        self.start_time_ms = Some(now);
        self.last_keepalive_ms = Some(now);
        Ok(session_id)
    }

    /// Starts a new session with a fresh random (version 4) UUID, now.
    pub fn start_session(&mut self) -> (r: Result<u128>)
        ensures
            r matches Ok(id) && final(self).session_id == Some(id) && (id >> 76u128) & 0xf == 4
                && (id >> 62u128) & 0x3 == 2,
            final(self).start_time_ms is Some,
            final(self).last_keepalive_ms == final(self).start_time_ms,
    {
        let id = new_v4_uuid();
        let now = now_millis();
        self.start_session_at(id, now)
    }

    /// Records a keepalive at time `now`; there must be a session.
    pub fn send_keepalive_at(&mut self, now: u64) -> (r: Result<()>)
        ensures
            old(self).session_id is None ==> (r matches Err(VpnError::Connection(m)) && m@
                == "No active session"@) && final(self).last_keepalive_ms == old(self).last_keepalive_ms,
            old(self).session_id is Some ==> r is Ok && final(self).last_keepalive_ms == Some(now),
            final(self).session_id == old(self).session_id,
            final(self).start_time_ms == old(self).start_time_ms,
    {
        if self.session_id.is_none() {
            return Err(VpnError::Connection("No active session".to_owned()));
        }
        self.last_keepalive_ms = Some(now);
        Ok(())
    }

    /// Records a keepalive now; there must be a session.
    pub fn send_keepalive(&mut self) -> (r: Result<()>)
        ensures
            old(self).session_id is None ==> (r matches Err(VpnError::Connection(m)) && m@
                == "No active session"@) && final(self).last_keepalive_ms == old(self).last_keepalive_ms,
            old(self).session_id is Some ==> r is Ok && final(self).last_keepalive_ms is Some,
            final(self).session_id == old(self).session_id,
            final(self).start_time_ms == old(self).start_time_ms,
    {
        let now = now_millis();
        self.send_keepalive_at(now)
    }

    /// Check if a session is active.
    pub fn is_active(&self) -> (r: bool)
        ensures
            r == self.session_id is Some,
    {
        self.session_id.is_some()
    }

    /// The session id.
    pub fn session_id(&self) -> (r: Option<u128>)
        ensures
            r == self.session_id,
    {
        self.session_id
    }

    /// How long the session has run at time `now`, in milliseconds.
    pub fn session_duration_at(&self, now: u64) -> (r: Option<u64>)
        ensures
            r == match self.start_time_ms {
                Some(s) => Some(elapsed_ms(s, now) as u64),
                None => None::<u64>,
            },
    {
        match self.start_time_ms {
            Some(s) => Some(if now >= s { now - s } else { 0 }),
            None => None,
        }
    }

    /// How long the session has run, in milliseconds.
    pub fn session_duration(&self) -> (r: Option<u64>)
        ensures
            r is Some <==> self.start_time_ms is Some,
    {
        self.session_duration_at(now_millis())
    }

    /// Milliseconds since the last keepalive at time `now`.
    pub fn time_since_keepalive_at(&self, now: u64) -> (r: Option<u64>)
        ensures
            r == match self.last_keepalive_ms {
                Some(s) => Some(elapsed_ms(s, now) as u64),
                None => None::<u64>,
            },
    {
        match self.last_keepalive_ms {
            Some(s) => Some(if now >= s { now - s } else { 0 }),
            None => None,
        }
    }

    /// Milliseconds since the last keepalive.
    pub fn time_since_keepalive(&self) -> (r: Option<u64>)
        ensures
            r is Some <==> self.last_keepalive_ms is Some,
    {
        self.time_since_keepalive_at(now_millis())
    }

    /// Ends the session.
    pub fn end_session(&mut self)
        ensures
            final(self).session_id is None,
            final(self).start_time_ms is None,
            final(self).last_keepalive_ms is None,
    {
        self.session_id = None;
        self.start_time_ms = None;
        self.last_keepalive_ms = None;
    }
}

} // verus!
