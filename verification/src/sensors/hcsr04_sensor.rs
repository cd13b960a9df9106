//! The ultrasonic gauge: how long the echo of a pulse lasts.
//!
//! After the trigger the platform polls the echo pin and reads the clock.
//! The echo begins when the pin is first seen high and ends when it is seen
//! low after that. Where this has not happened more than 60 milliseconds
//! after the listening began, the measurement is given up and counts as 0.

use vstd::prelude::*;

verus! {

/// How long an echo is listened for, in milliseconds.
pub const ECHO_TIMEOUT_MS: u64 = 60;

/// A measurement that is under way.
#[derive(Debug, Clone, Copy, PartialEq, Eq, Structural)]
pub struct EchoListener {
    /// When the listening began, in microseconds.
    pub listen_start_us: u64,
    /// When the echo pin was first seen high, in microseconds.
    pub echo_start_us: Option<u64>,
}

/// How a measurement stands after a poll.
#[derive(Debug, Clone, Copy, PartialEq, Eq, Structural)]
pub enum EchoStep {
    /// The pin is to be polled again.
    Listening(EchoListener),
    /// The echo lasted so many microseconds; 0 where none was measured in
    /// time.
    Measured(u64),
}

/// `later - earlier`, or 0 where the clock has gone back.
pub open spec fn elapsed(earlier: u64, later: u64) -> u64 {
    if later >= earlier {
        (later - earlier) as u64
    } else {
        0
    }
}

/// Whether the listening that began at `listen_start_us` has lasted more
/// than 60 whole milliseconds at `now_us`.
pub open spec fn timed_out(listen_start_us: u64, now_us: u64) -> bool {
    elapsed(listen_start_us, now_us) / 1000 > ECHO_TIMEOUT_MS
}

/// How the measurement `l` stands after the pin was polled at `now_us` and
/// seen high or low.
pub open spec fn echo_poll(l: EchoListener, pin_high: bool, now_us: u64) -> EchoStep {
    match l.echo_start_us {
        Some(began) if !pin_high => EchoStep::Measured(elapsed(began, now_us)),
        _ => if timed_out(l.listen_start_us, now_us) {
            EchoStep::Measured(0)
        } else if l.echo_start_us is None && pin_high {
            EchoStep::Listening(EchoListener { echo_start_us: Some(now_us), ..l })
        } else {
            EchoStep::Listening(l)
        },
    }
}

impl EchoListener {
    /// Begins to listen at `now_us`.
    pub fn new(now_us: u64) -> (l: EchoListener)
        ensures
            l == (EchoListener { listen_start_us: now_us, echo_start_us: None }),
    {
        EchoListener { listen_start_us: now_us, echo_start_us: None }
    }

    /// How the measurement stands after the pin was polled at `now_us` and
    /// seen high or low.
    pub fn measure_echo_pulse(self, pin_high: bool, now_us: u64) -> (step: EchoStep)
        ensures
            step == echo_poll(self, pin_high, now_us),
    {
        match self.echo_start_us {
            Some(began) if !pin_high => {
                return EchoStep::Measured(
                    if now_us >= began {
                        now_us - began
                    } else {
                        0
                    },
                );
            },
            _ => {},
        }
        let waited: u64 = if now_us >= self.listen_start_us {
            now_us - self.listen_start_us
        } else {
            0
        };
        if waited / 1000 > ECHO_TIMEOUT_MS {
            EchoStep::Measured(0)
        } else if self.echo_start_us.is_none() && pin_high {
            EchoStep::Listening(
                EchoListener { listen_start_us: self.listen_start_us, echo_start_us: Some(now_us) },
            )
        } else {
            EchoStep::Listening(self)
        }
    }
}

/// A measurement never lasts longer than the time allowed: a poll after
/// that time ends it. It then counts as 0, unless the poll sees the end of
/// an echo that had begun.
pub proof fn lemma_echo_times_out(l: EchoListener, pin_high: bool, now_us: u64)
    requires
        timed_out(l.listen_start_us, now_us),
    ensures
        echo_poll(l, pin_high, now_us) is Measured,
        l.echo_start_us is None || pin_high ==> echo_poll(l, pin_high, now_us)
            == EchoStep::Measured(0),
{
}

} // verus!
