//! Bringing the radio up, as a client of the configured network or as the
//! node's own access point.
//!
//! The platform does the work on the radio; this module decides what is to
//! be done next. An attempt drops what is left of an earlier session,
//! starts the radio and, as a client, joins the network and waits for an
//! address. When a step fails the attempt is over; after a pause the next
//! attempt begins, until the budget of attempts is spent.

use vstd::prelude::*;

verus! {

/// The name of the node's own network.
pub const AP_SSID: &'static str = "ESP Config";

/// The address of the node in its own network.
pub const AP_GATEWAY: &'static str = "192.168.70.1";

/// How many bits of an address name the node's own network.
pub const AP_MASK_BITS: u8 = 24;

/// The channel of the node's own network.
pub const AP_CHANNEL: u8 = 1;

/// How many stations can join the node's own network at a time.
pub const AP_MAX_CONNECTIONS: u16 = 5;

/// What an attempt is at.
#[derive(Debug, Clone, Copy, PartialEq, Eq, Structural)]
pub enum WifiPhase {
    /// Dropping what is left of an earlier session.
    Disconnecting,
    /// Starting the radio.
    Starting,
    /// Joining the network.
    Connecting,
    /// Waiting for the network interface to come up.
    WaitingForNetif,
    /// Pausing after a failed attempt.
    BackingOff,
    /// The radio is up.
    Up,
    /// The budget of attempts is spent.
    Exhausted,
}

/// What the platform is to do next.
#[derive(Debug, Clone, Copy, PartialEq, Eq, Structural)]
pub enum WifiAction {
    /// Disconnect; the outcome does not matter.
    Disconnect,
    /// Start the radio.
    Start,
    /// Join the configured network.
    Connect,
    /// Wait for the network interface to come up.
    WaitNetifUp,
    /// Wait for so many milliseconds.
    Wait(u32),
    /// Nothing more: the radio is up.
    Done,
    /// Nothing more: every attempt has failed.
    GiveUp,
}

/// The state of bringing the radio up.
#[derive(Debug, Clone, Copy, PartialEq, Eq, Structural)]
pub struct WifiBringup {
    /// Whether the node joins a network; it opens its own otherwise.
    pub client: bool,
    /// The number of the attempt, from 1.
    pub attempt: u32,
    /// How many attempts may be made.
    pub max_attempts: u32,
    /// The pause between two attempts, in milliseconds.
    pub backoff_ms: u32,
    pub phase: WifiPhase,
}

/// The state before the first attempt. With a budget of no attempts there
/// is nothing to try.
pub open spec fn bringup_start(client: bool, max_attempts: u32, backoff_ms: u32) -> WifiBringup {
    WifiBringup {
        client,
        attempt: 1,
        max_attempts,
        backoff_ms,
        phase: if max_attempts == 0 {
            WifiPhase::Exhausted
        } else {
            WifiPhase::Disconnecting
        },
    }
}

/// The state after a step of the attempt has failed: the pause before the
/// next attempt, or the end where this was the last.
pub open spec fn after_failure(s: WifiBringup) -> WifiBringup {
    if s.attempt >= s.max_attempts {
        WifiBringup { phase: WifiPhase::Exhausted, ..s }
    } else {
        WifiBringup { phase: WifiPhase::BackingOff, ..s }
    }
}

/// The state that follows `s` when the action of `s` ended well (`ok`) or
/// did not.
pub open spec fn bringup_next(s: WifiBringup, ok: bool) -> WifiBringup {
    match s.phase {
        WifiPhase::Disconnecting => WifiBringup { phase: WifiPhase::Starting, ..s },
        WifiPhase::Starting => if !ok {
            after_failure(s)
        } else if s.client {
            WifiBringup { phase: WifiPhase::Connecting, ..s }
        } else {
            WifiBringup { phase: WifiPhase::Up, ..s }
        },
        WifiPhase::Connecting => if ok {
            WifiBringup { phase: WifiPhase::WaitingForNetif, ..s }
        } else {
            after_failure(s)
        },
        WifiPhase::WaitingForNetif => if ok {
            WifiBringup { phase: WifiPhase::Up, ..s }
        } else {
            after_failure(s)
        },
        WifiPhase::BackingOff => if s.attempt < s.max_attempts {
            WifiBringup { attempt: (s.attempt + 1) as u32, phase: WifiPhase::Disconnecting, ..s }
        } else {
            WifiBringup { phase: WifiPhase::Exhausted, ..s }
        },
        WifiPhase::Up => s,
        WifiPhase::Exhausted => s,
    }
}

/// What the platform is to do in the state `s`.
pub open spec fn bringup_action(s: WifiBringup) -> WifiAction {
    match s.phase {
        WifiPhase::Disconnecting => WifiAction::Disconnect,
        WifiPhase::Starting => WifiAction::Start,
        WifiPhase::Connecting => WifiAction::Connect,
        WifiPhase::WaitingForNetif => WifiAction::WaitNetifUp,
        WifiPhase::BackingOff => WifiAction::Wait(s.backoff_ms),
        WifiPhase::Up => WifiAction::Done,
        WifiPhase::Exhausted => WifiAction::GiveUp,
    }
}

/// Begins to join the configured network, with `max_attempts` attempts and
/// a pause of `backoff_ms` milliseconds between two of them.
pub fn connect_wifi(max_attempts: u32, backoff_ms: u32) -> (s: WifiBringup)
    ensures
        s == bringup_start(true, max_attempts, backoff_ms),
{
    WifiBringup {
        client: true,
        attempt: 1,
        max_attempts,
        backoff_ms,
        phase: if max_attempts == 0 {
            WifiPhase::Exhausted
        } else {
            WifiPhase::Disconnecting
        },
    }
}

/// Begins to open the node's own access point, with `max_attempts` attempts
/// and a pause of `backoff_ms` milliseconds between two of them.
pub fn create_ap(max_attempts: u32, backoff_ms: u32) -> (s: WifiBringup)
    ensures
        s == bringup_start(false, max_attempts, backoff_ms),
{
    WifiBringup {
        client: false,
        attempt: 1,
        max_attempts,
        backoff_ms,
        phase: if max_attempts == 0 {
            WifiPhase::Exhausted
        } else {
            WifiPhase::Disconnecting
        },
    }
}

impl WifiBringup {
    /// What the platform is to do now.
    pub fn action(&self) -> (action: WifiAction)
        ensures
            action == bringup_action(*self),
    {
        match self.phase {
            WifiPhase::Disconnecting => WifiAction::Disconnect,
            WifiPhase::Starting => WifiAction::Start,
            WifiPhase::Connecting => WifiAction::Connect,
            WifiPhase::WaitingForNetif => WifiAction::WaitNetifUp,
            WifiPhase::BackingOff => WifiAction::Wait(self.backoff_ms),
            WifiPhase::Up => WifiAction::Done,
            WifiPhase::Exhausted => WifiAction::GiveUp,
        }
    }

    /// The state after a step of the attempt has failed.
    fn fail(self) -> (next: WifiBringup)
        ensures
            next == after_failure(self),
    {
        let mut next = self;
        if self.attempt >= self.max_attempts {
            next.phase = WifiPhase::Exhausted;
        } else {
            next.phase = WifiPhase::BackingOff;
        }
        next
    }

    /// The state that follows when the action ended well (`ok`) or did
    /// not.
    pub fn advance(self, ok: bool) -> (next: WifiBringup)
        ensures
            next == bringup_next(self, ok),
    {
        let mut next = self;
        match self.phase {
            WifiPhase::Disconnecting => {
                next.phase = WifiPhase::Starting;
            },
            WifiPhase::Starting => {
                if !ok {
                    return self.fail();
                } else if self.client {
                    next.phase = WifiPhase::Connecting;
                } else {
                    next.phase = WifiPhase::Up;
                }
            },
            WifiPhase::Connecting => {
                if ok {
                    next.phase = WifiPhase::WaitingForNetif;
                } else {
                    return self.fail();
                }
            },
            WifiPhase::WaitingForNetif => {
                if ok {
                    next.phase = WifiPhase::Up;
                } else {
                    return self.fail();
                }
            },
            WifiPhase::BackingOff => {
                if self.attempt < self.max_attempts {
                    next.attempt = self.attempt + 1;
                    next.phase = WifiPhase::Disconnecting;
                } else {
                    next.phase = WifiPhase::Exhausted;
                }
            },
            WifiPhase::Up => {},
            WifiPhase::Exhausted => {},
        }
        next
    }

    /// Whether the radio is up.
    pub fn is_up(&self) -> (up: bool)
        ensures
            up == (self.phase == WifiPhase::Up),
    {
        self.phase == WifiPhase::Up
    }

    /// Whether every attempt has failed.
    pub fn is_exhausted(&self) -> (spent: bool)
        ensures
            spent == (self.phase == WifiPhase::Exhausted),
    {
        self.phase == WifiPhase::Exhausted
    }
}

/// The state after the steps with the outcomes `outcomes`, one after the
/// other, from the state `s`.
pub open spec fn bringup_run(s: WifiBringup, outcomes: Seq<bool>) -> WifiBringup
    decreases outcomes.len(),
{
    if outcomes.len() == 0 {
        s
    } else {
        bringup_next(bringup_run(s, outcomes.drop_last()), outcomes.last())
    }
}

/// Whether `outcomes` are those of one attempt that fails, with the pause
/// that follows it: the disconnect, the steps that end well, the step that
/// fails, and the pause. The radio can fail to start; a client can also
/// fail to join the network or to get its address.
pub open spec fn is_failed_attempt(client: bool, outcomes: Seq<bool>) -> bool {
    ||| outcomes.len() == 3 && !outcomes[1]
    ||| client && outcomes.len() == 4 && outcomes[1] && !outcomes[2]
    ||| client && outcomes.len() == 5 && outcomes[1] && outcomes[2] && !outcomes[3]
}

/// The state after the attempts with the outcomes `attempts`, one attempt
/// after the other, from the state `s`.
pub open spec fn after_attempts(s: WifiBringup, attempts: Seq<Seq<bool>>) -> WifiBringup
    decreases attempts.len(),
{
    if attempts.len() == 0 {
        s
    } else {
        bringup_run(after_attempts(s, attempts.drop_last()), attempts.last())
    }
}

/// The steps of a run, one by one.
proof fn lemma_run_step(s: WifiBringup, outcomes: Seq<bool>)
    requires
        outcomes.len() > 0,
    ensures
        bringup_run(s, outcomes) == bringup_next(
            bringup_run(s, outcomes.drop_last()),
            outcomes.last(),
        ),
{
}

/// Running one failed attempt from the beginning of an attempt.
proof fn lemma_one_failed_attempt(s: WifiBringup, outcomes: Seq<bool>)
    requires
        s.phase == WifiPhase::Disconnecting,
        is_failed_attempt(s.client, outcomes),
    ensures
        bringup_run(s, outcomes) == (if s.attempt >= s.max_attempts {
            WifiBringup { phase: WifiPhase::Exhausted, ..s }
        } else {
            WifiBringup { attempt: (s.attempt + 1) as u32, phase: WifiPhase::Disconnecting, ..s }
        }),
{
    let n = outcomes.len() as int;
    let o0 = outcomes.subrange(0, 0);
    let o1 = outcomes.subrange(0, 1);
    let o2 = outcomes.subrange(0, 2);
    let o3 = outcomes.subrange(0, 3);
    assert(bringup_run(s, o0) == s);
    assert(o1.drop_last() == o0 && o1.last() == outcomes[0]);
    lemma_run_step(s, o1);
    assert(bringup_run(s, o1).phase == WifiPhase::Starting);
    assert(o2.drop_last() == o1 && o2.last() == outcomes[1]);
    lemma_run_step(s, o2);
    assert(o3.drop_last() == o2 && o3.last() == outcomes[2]);
    lemma_run_step(s, o3);
    if n == 3 {
        assert(o3 == outcomes);
    } else {
        let o4 = outcomes.subrange(0, 4);
        assert(o4.drop_last() == o3 && o4.last() == outcomes[3]);
        lemma_run_step(s, o4);
        if n == 4 {
            assert(o4 == outcomes);
        } else {
            let o5 = outcomes.subrange(0, 5);
            assert(o5.drop_last() == o4 && o5.last() == outcomes[4]);
            lemma_run_step(s, o5);
            assert(o5 == outcomes);
        }
    }
}

/// Where every attempt fails, at whatever step, exactly as many attempts
/// are made as the budget allows: after fewer failures the next attempt is
/// about to begin, after the last the work is given up.
pub proof fn lemma_all_attempts_fail(
    client: bool,
    max_attempts: u32,
    backoff_ms: u32,
    attempts: Seq<Seq<bool>>,
)
    requires
        max_attempts >= 1,
        attempts.len() <= max_attempts,
        forall|i: int| 0 <= i < attempts.len() ==> is_failed_attempt(client, #[trigger] attempts[i]),
    ensures
        attempts.len() < max_attempts ==> after_attempts(
            bringup_start(client, max_attempts, backoff_ms),
            attempts,
        ) == (WifiBringup {
            client,
            attempt: (attempts.len() + 1) as u32,
            max_attempts,
            backoff_ms,
            phase: WifiPhase::Disconnecting,
        }),
        attempts.len() == max_attempts ==> after_attempts(
            bringup_start(client, max_attempts, backoff_ms),
            attempts,
        ) == (WifiBringup {
            client,
            attempt: max_attempts,
            max_attempts,
            backoff_ms,
            phase: WifiPhase::Exhausted,
        }),
    decreases attempts.len(),
{
    if attempts.len() > 0 {
        let earlier = attempts.drop_last();
        assert forall|i: int| 0 <= i < earlier.len() implies is_failed_attempt(
            client,
            #[trigger] earlier[i],
        ) by {
            assert(earlier[i] == attempts[i]);
        }
        lemma_all_attempts_fail(client, max_attempts, backoff_ms, earlier);
        lemma_one_failed_attempt(
            after_attempts(bringup_start(client, max_attempts, backoff_ms), earlier),
            attempts.last(),
        );
    }
}

/// The outcomes of an attempt in which every step ends well.
pub open spec fn good_attempt(client: bool) -> Seq<bool> {
    if client {
        seq![true, true, true, true]
    } else {
        seq![true, true]
    }
}

/// An attempt in which every step ends well brings the radio up at once,
/// whatever the attempt's number: no further attempt is made.
pub proof fn lemma_first_success_ends(s: WifiBringup)
    requires
        s.phase == WifiPhase::Disconnecting,
    ensures
        bringup_run(s, good_attempt(s.client)) == (WifiBringup { phase: WifiPhase::Up, ..s }),
        bringup_action(bringup_run(s, good_attempt(s.client))) == WifiAction::Done,
{
    let o = good_attempt(s.client);
    if s.client {
        assert(o.drop_last() == seq![true, true, true]);
        assert(o.drop_last().drop_last() == seq![true, true]);
        assert(o.drop_last().drop_last().drop_last() == seq![true]);
        assert(o.drop_last().drop_last().drop_last().drop_last() == Seq::<bool>::empty());
    } else {
        assert(o.drop_last() == seq![true]);
        assert(o.drop_last().drop_last() == Seq::<bool>::empty());
    }
    reveal_with_fuel(bringup_run, 5);
}

} // verus!
