//! When the inverter bridge is switched on and off.
//!
//! The bridge goes off as soon as the command to run is withdrawn. It goes
//! on only while the command stands and once the voltage ramp, which starts
//! at 0, has reached the voltage asked for.

use vstd::prelude::*;

verus! {

/// Period of the motor task.
pub const MOTOR_TICK_US: u64 = 100;

/// Ticks from one trace message to the next.
pub const TRACE_EVERY_N_TICKS: u32 = 2000;

/// What the command to run did since the last tick.
#[derive(Copy, Clone, Debug, PartialEq, Eq, Structural)]
pub enum Edge {
    Steady,
    /// The motor is to run.
    Rising,
    /// The motor is to stop: switch the bridge off.
    Falling,
}

/// What to do at the end of a tick.
#[derive(Copy, Clone, Debug, PartialEq, Eq, Structural)]
pub struct TickEnd {
    /// Switch the bridge on.
    pub enable: bool,
    /// Write a trace message.
    pub trace: bool,
}

/// The command of the last tick, and the number of ticks modulo 2^32.
#[derive(Copy, Clone, Debug, PartialEq, Eq, Structural)]
pub struct MotorGate {
    pub prev_enabled: bool,
    pub tick: u32,
}

/// How the command changed.
pub open spec fn edge(before: bool, now: bool) -> Edge {
    if now && !before {
        Edge::Rising
    } else if !now && before {
        Edge::Falling
    } else {
        Edge::Steady
    }
}

/// When the bridge is switched on.
pub open spec fn switches_on(enabled: bool, bridge_on: bool, ramp_done: bool) -> bool {
    enabled && !bridge_on && ramp_done
}

/// Whether a trace message is written at the end of a tick.
pub open spec fn traces(tick: u32) -> bool {
    tick % TRACE_EVERY_N_TICKS == 0
}

/// There is one trace message in any 2000 ticks.
pub proof fn law_traces(tick: u32, k: int)
    requires
        0 < k < 2000,
        tick + 2000 <= u32::MAX,
        traces(tick),
    ensures
        !traces((tick + k) as u32),
        traces((tick + 2000) as u32),
{
}

impl MotorGate {
    pub fn new() -> (g: MotorGate)
        ensures
            g == (MotorGate { prev_enabled: false, tick: 0 }),
    {
        MotorGate { prev_enabled: false, tick: 0 }
    }

    /// Takes note of the command; the bridge goes off on a falling edge.
    pub fn on_command(&mut self, enabled: bool) -> (e: Edge)
        ensures
            e == edge(old(self).prev_enabled, enabled),
            *final(self) == (MotorGate { prev_enabled: enabled, ..*old(self) }),
    {
        let e = if enabled && !self.prev_enabled {
            Edge::Rising
        } else if !enabled && self.prev_enabled {
            Edge::Falling
        } else {
            Edge::Steady
        };
        self.prev_enabled = enabled;
        e
    }

    /// Ends a tick. `bridge_on` is the state of the bridge and `ramp_done`
    /// whether the voltage has reached the one asked for.
    pub fn end_tick(&mut self, bridge_on: bool, ramp_done: bool) -> (end: TickEnd)
        ensures
            final(self).prev_enabled == old(self).prev_enabled,
            final(self).tick == (old(self).tick + 1) % 0x1_0000_0000,
            end.enable == switches_on(old(self).prev_enabled, bridge_on, ramp_done),
            end.trace == traces(final(self).tick),
    {
        self.tick = self.tick.wrapping_add(1);
        TickEnd {
            enable: self.prev_enabled && !bridge_on && ramp_done,
            trace: self.tick % TRACE_EVERY_N_TICKS == 0,
        }
    }
}

/// The bridge after a tick with the given command.
pub open spec fn bridge_after(before: bool, bridge_on: bool, enabled: bool, ramp_done: bool) -> bool {
    let held = bridge_on && edge(before, enabled) != Edge::Falling;
    held || switches_on(enabled, held, ramp_done)
}

/// Once the command is withdrawn the bridge is off after every tick until
/// the command comes back, if the bridge is only ever on under a command.
pub proof fn law_bridge_needs_the_command(
    before: bool,
    bridge_on: bool,
    enabled: bool,
    ramp_done: bool,
)
    requires
        bridge_on ==> before,
    ensures
        bridge_after(before, bridge_on, enabled, ramp_done) ==> enabled,
{
}

/// The bridge is not switched on before the ramp has reached its target.
pub proof fn law_bridge_waits_for_the_ramp(before: bool, enabled: bool)
    ensures
        !bridge_after(before, false, enabled, false),
{
}

/// Under the command the bridge stays on, and goes on once the ramp is done. It
/// goes off when the command is withdrawn.
pub proof fn law_bridge_follows_command_and_ramp(
    before: bool,
    bridge_on: bool,
    enabled: bool,
    ramp_done: bool,
)
    ensures
        enabled ==> bridge_after(before, bridge_on, enabled, ramp_done) == (bridge_on || ramp_done),
        before && !enabled ==> !bridge_after(before, bridge_on, enabled, ramp_done),
        !before && !enabled ==> bridge_after(before, bridge_on, enabled, ramp_done) == bridge_on,
        switches_on(enabled, bridge_on, ramp_done) <==> enabled && !bridge_on && ramp_done,
{
}

/// An edge is where the command changes, and tells which way.
pub proof fn law_edges(before: bool, now: bool)
    ensures
        edge(before, now) is Steady <==> before == now,
        edge(before, now) is Rising ==> now,
        edge(before, now) is Falling ==> !now,
{
}

} // verus!
