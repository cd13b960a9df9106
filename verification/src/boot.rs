//! The course of one boot.
//!
//! The node reads its mode switch once, brings the radio up for that mode,
//! and then either serves the configuration form until it is switched off,
//! or samples its sensors, sends the readings and goes to sleep. Where the
//! radio cannot be brought up, the node shows a fault and restarts.
//!
//! The platform does the work; this module decides what is to be done
//! next.

use vstd::prelude::*;
use crate::wifi_helper::{
    bringup_action,
    bringup_next,
    bringup_start,
    connect_wifi,
    create_ap,
    WifiAction,
    WifiBringup,
    WifiPhase,
};

verus! {

/// What the node does in this boot.
#[derive(Debug, Clone, Copy, PartialEq, Eq, Structural)]
pub enum BootMode {
    /// It opens its own network and serves the configuration form.
    Provisioning,
    /// It joins the configured network and reports its readings.
    Telemetry,
}

/// The budget of attempts and the pauses of a boot.
#[derive(Debug, Clone, Copy, PartialEq, Eq, Structural)]
pub struct RetryState {
    /// How many attempts may be made, at the radio and at the collector.
    pub max_attempts: u32,
    /// The pause between two attempts, in milliseconds.
    pub backoff_ms: u32,
    /// How long the fault is shown before the restart, in milliseconds.
    pub fault_ms: u32,
}

/// What a report is at.
#[derive(Debug, Clone, Copy, PartialEq, Eq, Structural)]
pub enum TelemetryPhase {
    /// Reading the sensors.
    Sampling,
    /// Sending the readings.
    Sending,
    /// Pausing after a failed attempt to send.
    BackingOff,
    /// Going to sleep.
    Sleeping,
}

/// Where the boot stands.
#[derive(Debug, Clone, Copy, PartialEq, Eq, Structural)]
pub enum BootState {
    /// The mode switch is to be read.
    SelectMode,
    /// The radio is brought up for the mode.
    NetworkBringup(BootMode, WifiBringup),
    /// The form is served. Nothing but a restart ends this.
    Provisioning,
    /// The readings are taken and sent; `attempt` counts the attempts to
    /// send, from 1.
    Telemetry { attempt: u32, phase: TelemetryPhase },
    /// The fault is shown, and then the node restarts.
    Recover { shown: bool },
}

/// What has happened.
#[derive(Debug, Clone, Copy, PartialEq, Eq, Structural)]
pub enum BootEvent {
    /// The mode switch was read: it is high or low.
    Switch(bool),
    /// The action ended, well or not.
    Finished(bool),
}

/// What the platform is to do next.
#[derive(Debug, Clone, Copy, PartialEq, Eq, Structural)]
pub enum BootAction {
    /// Read the mode switch.
    ReadModeSwitch,
    /// Work on the radio.
    Radio(WifiAction),
    /// Serve the form, without end.
    Serve,
    /// Read the sensors and build the report.
    Sample,
    /// Send the report to the collector.
    Send,
    /// Wait for so many milliseconds.
    Wait(u32),
    /// Sleep for the configured time; the node restarts when it wakes.
    DeepSleep,
    /// Blink the fault light for so many milliseconds.
    ShowFault(u32),
    /// Restart the node.
    Restart,
}

/// The mode that the level of the switch selects: a report where it is
/// high, the form where it is low.
pub open spec fn mode_of(high: bool) -> BootMode {
    if high {
        BootMode::Telemetry
    } else {
        BootMode::Provisioning
    }
}

/// The mode that the level of the switch selects.
pub fn select_mode(high: bool) -> (mode: BootMode)
    ensures
        mode == mode_of(high),
{
    if high {
        BootMode::Telemetry
    } else {
        BootMode::Provisioning
    }
}

/// The state that follows the bring-up state `w` of the mode `mode`: the
/// mode's work once the radio is up, the fault once the attempts are spent.
pub open spec fn after_bringup(mode: BootMode, w: WifiBringup) -> BootState {
    match w.phase {
        WifiPhase::Up => match mode {
            BootMode::Provisioning => BootState::Provisioning,
            BootMode::Telemetry => BootState::Telemetry { attempt: 1, phase: TelemetryPhase::Sampling },
        },
        WifiPhase::Exhausted => BootState::Recover { shown: false },
        _ => BootState::NetworkBringup(mode, w),
    }
}

/// The state of a report after the event `ok` in the phase `phase` of the
/// attempt `attempt`. The node goes to sleep once the report is sent or the
/// attempts are spent.
pub open spec fn telemetry_next(
    retry: RetryState,
    attempt: u32,
    phase: TelemetryPhase,
    ok: bool,
) -> BootState {
    match phase {
        TelemetryPhase::Sampling => BootState::Telemetry {
            attempt,
            phase: if retry.max_attempts == 0 {
                TelemetryPhase::Sleeping
            } else {
                TelemetryPhase::Sending
            },
        },
        TelemetryPhase::Sending => BootState::Telemetry {
            attempt,
            phase: if ok || attempt >= retry.max_attempts {
                TelemetryPhase::Sleeping
            } else {
                TelemetryPhase::BackingOff
            },
        },
        TelemetryPhase::BackingOff => if attempt < retry.max_attempts {
            BootState::Telemetry { attempt: (attempt + 1) as u32, phase: TelemetryPhase::Sending }
        } else {
            BootState::Telemetry { attempt, phase: TelemetryPhase::Sleeping }
        },
        TelemetryPhase::Sleeping => BootState::Telemetry { attempt, phase },
    }
}

/// The state that follows `state` on `event`. An event that the state does
/// not wait for changes nothing.
pub open spec fn boot_next(retry: RetryState, state: BootState, event: BootEvent) -> BootState {
    match (state, event) {
        (BootState::SelectMode, BootEvent::Switch(high)) => after_bringup(
            mode_of(high),
            bringup_start(high, retry.max_attempts, retry.backoff_ms),
        ),
        (BootState::NetworkBringup(mode, w), BootEvent::Finished(ok)) => after_bringup(
            mode,
            bringup_next(w, ok),
        ),
        (BootState::Telemetry { attempt, phase }, BootEvent::Finished(ok)) => telemetry_next(
            retry,
            attempt,
            phase,
            ok,
        ),
        (BootState::Recover { shown }, BootEvent::Finished(_)) => BootState::Recover {
            shown: true,
        },
        _ => state,
    }
}

/// What the platform is to do in `state`.
pub open spec fn boot_action(retry: RetryState, state: BootState) -> BootAction {
    match state {
        BootState::SelectMode => BootAction::ReadModeSwitch,
        BootState::NetworkBringup(_, w) => BootAction::Radio(bringup_action(w)),
        BootState::Provisioning => BootAction::Serve,
        BootState::Telemetry { phase, .. } => match phase {
            TelemetryPhase::Sampling => BootAction::Sample,
            TelemetryPhase::Sending => BootAction::Send,
            TelemetryPhase::BackingOff => BootAction::Wait(retry.backoff_ms),
            TelemetryPhase::Sleeping => BootAction::DeepSleep,
        },
        BootState::Recover { shown } => if shown {
            BootAction::Restart
        } else {
            BootAction::ShowFault(retry.fault_ms)
        },
    }
}

/// The state that follows the bring-up state `w` of the mode `mode`.
fn leave_bringup(mode: BootMode, w: WifiBringup) -> (next: BootState)
    ensures
        next == after_bringup(mode, w),
{
    match w.phase {
        WifiPhase::Up => match mode {
            BootMode::Provisioning => BootState::Provisioning,
            BootMode::Telemetry => BootState::Telemetry { attempt: 1, phase: TelemetryPhase::Sampling },
        },
        WifiPhase::Exhausted => BootState::Recover { shown: false },
        _ => BootState::NetworkBringup(mode, w),
    }
}

impl RetryState {
    /// The state in which every boot begins.
    pub fn start(&self) -> (state: BootState)
        ensures
            state == BootState::SelectMode,
    {
        BootState::SelectMode
    }

    /// What the platform is to do in `state`.
    pub fn action(&self, state: BootState) -> (action: BootAction)
        ensures
            action == boot_action(*self, state),
    {
        match state {
            BootState::SelectMode => BootAction::ReadModeSwitch,
            BootState::NetworkBringup(_, w) => BootAction::Radio(w.action()),
            BootState::Provisioning => BootAction::Serve,
            BootState::Telemetry { attempt: _, phase } => match phase {
                TelemetryPhase::Sampling => BootAction::Sample,
                TelemetryPhase::Sending => BootAction::Send,
                TelemetryPhase::BackingOff => BootAction::Wait(self.backoff_ms),
                TelemetryPhase::Sleeping => BootAction::DeepSleep,
            },
            BootState::Recover { shown } => if shown {
                BootAction::Restart
            } else {
                BootAction::ShowFault(self.fault_ms)
            },
        }
    }

    /// The state that follows `state` on `event`.
    pub fn step(&self, state: BootState, event: BootEvent) -> (next: BootState)
        ensures
            next == boot_next(*self, state, event),
    {
        match (state, event) {
            (BootState::SelectMode, BootEvent::Switch(high)) => {
                match select_mode(high) {
                    BootMode::Telemetry => leave_bringup(
                        BootMode::Telemetry,
                        connect_wifi(self.max_attempts, self.backoff_ms),
                    ),
                    BootMode::Provisioning => leave_bringup(
                        BootMode::Provisioning,
                        create_ap(self.max_attempts, self.backoff_ms),
                    ),
                }
            },
            (BootState::NetworkBringup(mode, w), BootEvent::Finished(ok)) => leave_bringup(
                mode,
                w.advance(ok),
            ),
            (BootState::Telemetry { attempt, phase }, BootEvent::Finished(ok)) => {
                match phase {
                    TelemetryPhase::Sampling => BootState::Telemetry {
                        attempt,
                        phase: if self.max_attempts == 0 {
                            TelemetryPhase::Sleeping
                        } else {
                            TelemetryPhase::Sending
                        },
                    },
                    TelemetryPhase::Sending => BootState::Telemetry {
                        attempt,
                        phase: if ok || attempt >= self.max_attempts {
                            TelemetryPhase::Sleeping
                        } else {
                            TelemetryPhase::BackingOff
                        },
                    },
                    TelemetryPhase::BackingOff => if attempt < self.max_attempts {
                        BootState::Telemetry { attempt: attempt + 1, phase: TelemetryPhase::Sending }
                    } else {
                        BootState::Telemetry { attempt, phase: TelemetryPhase::Sleeping }
                    },
                    TelemetryPhase::Sleeping => BootState::Telemetry { attempt, phase },
                }
            },
            (BootState::Recover { shown: _ }, BootEvent::Finished(_)) => BootState::Recover {
                shown: true,
            },
            _ => state,
        }
    }
}

/// The mode of a boot is decided once: while the radio is brought up, no
/// event changes it, and the radio's state moves as the bring-up says.
pub proof fn lemma_mode_is_kept(retry: RetryState, mode: BootMode, w: WifiBringup, event: BootEvent)
    ensures
        match boot_next(retry, BootState::NetworkBringup(mode, w), event) {
            BootState::NetworkBringup(m, _) => m == mode,
            BootState::Provisioning => mode == BootMode::Provisioning,
            BootState::Telemetry { .. } => mode == BootMode::Telemetry,
            BootState::Recover { .. } => true,
            BootState::SelectMode => false,
        },
{
}

/// Once the attempts at the radio are spent the fault is shown; once the
/// radio is up the work of the mode begins.
pub proof fn lemma_bringup_ends(retry: RetryState, mode: BootMode, w: WifiBringup, ok: bool)
    ensures
        bringup_next(w, ok).phase == WifiPhase::Exhausted ==> boot_next(
            retry,
            BootState::NetworkBringup(mode, w),
            BootEvent::Finished(ok),
        ) == (BootState::Recover { shown: false }),
        bringup_next(w, ok).phase == WifiPhase::Up && mode == BootMode::Provisioning ==> boot_next(
            retry,
            BootState::NetworkBringup(mode, w),
            BootEvent::Finished(ok),
        ) == BootState::Provisioning,
        bringup_next(w, ok).phase == WifiPhase::Up && mode == BootMode::Telemetry ==> boot_next(
            retry,
            BootState::NetworkBringup(mode, w),
            BootEvent::Finished(ok),
        ) == (BootState::Telemetry { attempt: 1, phase: TelemetryPhase::Sampling }),
{
}

/// Serving the form never ends by itself, and neither do the sleep after a
/// report and the restart after a fault: no event leads out of them.
pub proof fn lemma_final_states_stay(retry: RetryState, attempt: u32, event: BootEvent)
    ensures
        boot_next(retry, BootState::Provisioning, event) == BootState::Provisioning,
        boot_next(
            retry,
            BootState::Telemetry { attempt, phase: TelemetryPhase::Sleeping },
            event,
        ) == (BootState::Telemetry { attempt, phase: TelemetryPhase::Sleeping }),
        boot_next(retry, BootState::Recover { shown: true }, event) == (BootState::Recover {
            shown: true,
        }),
{
}

/// A report is sent at most as often as the budget allows, and the node
/// goes to sleep after the report whether it was sent or not.
pub proof fn lemma_report_ends_in_sleep(retry: RetryState, attempt: u32, ok: bool)
    requires
        1 <= attempt <= retry.max_attempts,
    ensures
        ok || attempt == retry.max_attempts ==> boot_next(
            retry,
            BootState::Telemetry { attempt, phase: TelemetryPhase::Sending },
            BootEvent::Finished(ok),
        ) == (BootState::Telemetry { attempt, phase: TelemetryPhase::Sleeping }),
        !ok && attempt < retry.max_attempts ==> boot_next(
            retry,
            boot_next(
                retry,
                BootState::Telemetry { attempt, phase: TelemetryPhase::Sending },
                BootEvent::Finished(ok),
            ),
            BootEvent::Finished(true),
        ) == (BootState::Telemetry {
            attempt: (attempt + 1) as u32,
            phase: TelemetryPhase::Sending,
        }),
{
}

} // verus!
