//! Outbound telemetry interfaces: the heartbeat client the engine pings
//! with its region and version, and the player-inspection request payloads.
//! Network transport lives outside the library; the types and the throttle
//! bookkeeping live here.

use vstd::prelude::*;

use crate::clock::now_ms;

verus! {

/// Minimum milliseconds between two heartbeats.
pub const HEARTBEAT_INTERVAL_MS: u64 = 900000;

/// What one heartbeat carries.
pub struct HeartbeatSendArgs {
    pub id: String,
    pub version: String,
    pub region: String,
}

/// The heartbeat capability: whether enough time has passed to send, and
/// the send itself.
pub trait HeartbeatApi {
    fn can_send(&self) -> bool;

    fn send(&mut self, args: HeartbeatSendArgs);
}

/// A heartbeat client that only keeps the throttle bookkeeping and sends
/// nothing anywhere.
pub struct FakeHeartbeatApi {
    pub last_heartbeat_ms: u64,
    pub heartbeat_interval_ms: u64,
}

impl HeartbeatApi for FakeHeartbeatApi {
    fn can_send(&self) -> bool {
        let now = now_ms();
        now.saturating_sub(self.last_heartbeat_ms) >= self.heartbeat_interval_ms
    }

    fn send(&mut self, args: HeartbeatSendArgs) {
        let _ = args;
        self.last_heartbeat_ms = now_ms();
    }
}

impl FakeHeartbeatApi {
    /// The throttle window opens at construction: nothing is due until a
    /// full interval has passed from `now`.
    pub fn new(now: u64) -> (r: FakeHeartbeatApi)
        ensures
            r.last_heartbeat_ms == now,
            r.heartbeat_interval_ms == HEARTBEAT_INTERVAL_MS,
    {
        FakeHeartbeatApi { last_heartbeat_ms: now, heartbeat_interval_ms: HEARTBEAT_INTERVAL_MS }
    }
}

/// A player-inspection request.
pub struct GetCharacterInfoArgs {
    pub client_id: String,
    pub version: String,
    pub region: String,
    pub raid_name: String,
    pub boss: String,
    pub characters: Vec<String>,
    pub difficulty: Option<String>,
    pub cleared: bool,
}

/// One gem of an inspected player's loadout.
#[derive(Clone, Copy, PartialEq, Eq, Structural, Debug)]
pub struct GemData {
    pub tier: u8,
    pub skill_id: u32,
    pub gem_type: u8,
    pub value: u32,
}

/// One engraving of an inspected player's loadout.
#[derive(Clone, Copy, PartialEq, Eq, Structural, Debug)]
pub struct Engraving {
    pub id: u32,
    pub level: u8,
}

/// A player-inspection client that answers nothing; used where the stats
/// service is unavailable.
pub struct FakeStatsApi;

impl FakeStatsApi {
    pub fn new() -> (r: FakeStatsApi) {
        FakeStatsApi
    }
}

} // verus!
