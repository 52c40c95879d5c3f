use vstd::prelude::*;
use vstd::string::StringExecFns;

use crate::text::str_eq;
use crate::time::{render_time, Time, WIB_OFFSET};

verus! {

broadcast use vstd::array::group_array_axioms;

// ---------------------------------------------------------------------------
// Run orders and single relays.
// ---------------------------------------------------------------------------

/// Run duration, in seconds, of a command that names none (one hour).
pub const DEFAULT_RUN_SECS: u32 = 3600;

/// A scheduled run: the relay is on from `start_at` until `end_at`.
#[derive(Clone, Copy, Debug)]
pub struct RunOrder {
    pub start_at: Time,
    pub end_at: Time,
}

impl RunOrder {
    pub open spec fn well_formed(self) -> bool {
        self.start_at.0 <= self.end_at.0
    }

    /// An order ending before it starts is a programming error, ruled out
    /// here rather than carried as a runtime value.
    pub fn new(start_at: u64, end_at: u64) -> (r: Self)
        requires
            start_at <= end_at,
        ensures
            r.start_at.0 == start_at,
            r.end_at.0 == end_at,
            r.well_formed(),
    {
        Self { start_at: Time::new(start_at), end_at: Time::new(end_at) }
    }
}

#[derive(Clone, Copy)]
pub enum SetState {
    Run(RunOrder),
    Stop,
}

/// A deadline notice produced by a poll: the named relay's run order has
/// reached its end time.
pub struct Event {
    /// time to stop the device when it is true
    pub run_deadline: bool,
    pub name: &'static str,
}

/// What the relay operations can reject.
#[derive(Debug)]
pub enum RelayError {
    /// No relay carries the requested name.
    NameNotFound,
    /// The command carries no on/off instruction.
    MissingInstruction,
    /// The named relay already runs an order; it keeps that order.
    AlreadyRunning(&'static str),
}

impl RelayError {
    pub open spec fn spec_text(self) -> Seq<char> {
        match self {
            RelayError::NameNotFound => "cannot resolve name"@,
            RelayError::MissingInstruction => "invalid instruction"@,
            RelayError::AlreadyRunning(name) => "relay "@ + name@
                + " at ON state, turn off first!"@,
        }
    }

    pub fn to_text(&self) -> (s: String)
        ensures
            s@ == self.spec_text(),
    {
        match self {
            RelayError::NameNotFound => String::from_str("cannot resolve name"),
            RelayError::MissingInstruction => String::from_str("invalid instruction"),
            RelayError::AlreadyRunning(name) => {
                let mut s = String::from_str("relay ");
                s.append(name);
                s.append(" at ON state, turn off first!");
                s
            },
        }
    }
}

/// One controlled output: its static name, the commanded level of the
/// physical output, and the active run order, if any.  The output is on
/// exactly while an order is running.
#[derive(Debug)]
pub struct Relay {
    pub name: &'static str,
    pub output_on: bool,
    pub running: Option<RunOrder>,
}

/// The relay after an unconditional stop: output low, no order.
pub open spec fn relay_stopped(rel: Relay) -> Relay {
    Relay { name: rel.name, output_on: false, running: None }
}

/// The relay after accepting an order: output high, order held.
pub open spec fn relay_running(rel: Relay, ord: RunOrder) -> Relay {
    Relay { name: rel.name, output_on: true, running: Some(ord) }
}

impl Relay {
    pub open spec fn well_formed(self) -> bool {
        &&& (self.running matches Some(ord) ==> ord.well_formed())
        &&& (self.running is Some <==> self.output_on)
    }

    pub fn new(name: &'static str) -> (r: Self)
        ensures
            r == (Relay { name, output_on: false, running: None }),
            r.well_formed(),
    {
        Self { name, output_on: false, running: None }
    }

    /// Accept a run order.  A relay already running keeps its existing order
    /// untouched and reports the conflict instead.
    pub fn run(&mut self, ord: RunOrder) -> (r: Result<(), RelayError>)
        requires
            old(self).well_formed(),
            ord.well_formed(),
        ensures
            final(self).well_formed(),
            old(self).running is Some ==> r == Err::<(), RelayError>(
                RelayError::AlreadyRunning(old(self).name),
            ) && *final(self) == *old(self),
            old(self).running is None ==> r is Ok && *final(self) == relay_running(
                *old(self),
                ord,
            ),
    {
        match self.running {
            None => {
                self.running = Some(ord);
            },
            Some(_) => {
                return Err(RelayError::AlreadyRunning(self.name));
            },
        }
        self.output_on = true;
        Ok(())
    }

    /// Drive the output low and clear any order; idempotent.
    pub fn stop(&mut self)
        ensures
            *final(self) == relay_stopped(*old(self)),
            final(self).well_formed(),
    {
        self.output_on = false;
        self.running = None;
    }

    pub fn set(&mut self, state: SetState) -> (r: Result<(), RelayError>)
        requires
            old(self).well_formed(),
            state matches SetState::Run(ord) ==> ord.well_formed(),
        ensures
            final(self).well_formed(),
            state matches SetState::Run(ord) ==> ({
                &&& old(self).running is Some ==> r == Err::<(), RelayError>(
                    RelayError::AlreadyRunning(old(self).name),
                ) && *final(self) == *old(self)
                &&& old(self).running is None ==> r is Ok && *final(self) == relay_running(
                    *old(self),
                    ord,
                )
            }),
            state is Stop ==> r is Ok && *final(self) == relay_stopped(*old(self)),
    {
        match state {
            SetState::Run(ord) => self.run(ord),
            SetState::Stop => {
                self.stop();
                Ok(())
            },
        }
    }

    /// Whether the relay's order, if any, has reached its end time.
    pub open spec fn spec_run_deadline(self, now: u64) -> bool {
        self.running matches Some(ord) && ord.end_at.0 <= now
    }

    pub fn is_run_deadline(&self, now: u64) -> (r: bool)
        ensures
            r == self.spec_run_deadline(now),
    {
        if let Some(r) = &self.running {
            return r.end_at.0 <= now;
        }
        false
    }

    pub fn get_status(&self) -> (r: RelayStatus<'_>)
        ensures
            r.name@ == self.name@,
            r.matches_relay(*self),
    {
        RelayStatus { name: self.name, run_info: self.running.as_ref() }
    }
}

// ---------------------------------------------------------------------------
// The two-relay bank.
// ---------------------------------------------------------------------------

/// Selects one or both relays; as a bitmask First is 1, Second is 2 and Both
/// is 3.
#[derive(Clone, Copy, Debug, PartialEq, Eq, Structural)]
pub enum RelayAddr {
    First,
    Second,
    Both,
}

pub open spec fn targets_first(a: RelayAddr) -> bool {
    a is First || a is Both
}

pub open spec fn targets_second(a: RelayAddr) -> bool {
    a is Second || a is Both
}

/// The bank of the two controlled outputs.
#[derive(Debug)]
pub struct DoubleRelay {
    pub first_relay: Relay,
    pub second_relay: Relay,
}

impl DoubleRelay {
    pub open spec fn well_formed(self) -> bool {
        self.first_relay.well_formed() && self.second_relay.well_formed()
    }

    pub fn new() -> (r: Self)
        ensures
            r.well_formed(),
            r.first_relay == (Relay { name: "pompa_air", output_on: false, running: None }),
            r.second_relay == (Relay { name: "lain_lain", output_on: false, running: None }),
            r.first_relay.name@ == "pompa_air"@,
            r.second_relay.name@ == "lain_lain"@,
    {
        Self { first_relay: Relay::new("pompa_air"), second_relay: Relay::new("lain_lain") }
    }

    /// Apply `state` to the selected relays, first relay first.  A stop
    /// always succeeds on every selected relay.  A run order is refused by a
    /// relay that is already running: that relay and any not yet reached are
    /// left untouched, though a first relay already set stays set.
    pub fn set(&mut self, target: RelayAddr, state: SetState) -> (r: Result<(), RelayError>)
        requires
            old(self).well_formed(),
            state matches SetState::Run(ord) ==> ord.well_formed(),
        ensures
            final(self).well_formed(),
            !targets_first(target) ==> final(self).first_relay == old(self).first_relay,
            !targets_second(target) ==> final(self).second_relay == old(self).second_relay,
            state is Stop ==> r is Ok && final(self).first_relay == (if targets_first(target) {
                relay_stopped(old(self).first_relay)
            } else {
                old(self).first_relay
            }) && final(self).second_relay == (if targets_second(target) {
                relay_stopped(old(self).second_relay)
            } else {
                old(self).second_relay
            }),
            state matches SetState::Run(ord) ==> ({
                if targets_first(target) && old(self).first_relay.running is Some {
                    &&& r == Err::<(), RelayError>(
                        RelayError::AlreadyRunning(old(self).first_relay.name),
                    )
                    &&& *final(self) == *old(self)
                } else if targets_second(target) && old(self).second_relay.running is Some {
                    &&& r == Err::<(), RelayError>(
                        RelayError::AlreadyRunning(old(self).second_relay.name),
                    )
                    &&& final(self).first_relay == (if targets_first(target) {
                        relay_running(old(self).first_relay, ord)
                    } else {
                        old(self).first_relay
                    })
                    &&& final(self).second_relay == old(self).second_relay
                } else {
                    &&& r is Ok
                    &&& final(self).first_relay == (if targets_first(target) {
                        relay_running(old(self).first_relay, ord)
                    } else {
                        old(self).first_relay
                    })
                    &&& final(self).second_relay == (if targets_second(target) {
                        relay_running(old(self).second_relay, ord)
                    } else {
                        old(self).second_relay
                    })
                }
            }),
    {
        let muxed: u8 = match target {
            RelayAddr::First => 1,
            RelayAddr::Second => 2,
            RelayAddr::Both => 3,
        };
        proof {
            assert((1u8 & 1) == 1 && (2u8 & 1) == 0 && (3u8 & 1) == 1) by (bit_vector);
            assert((1u8 >> 1) == 0 && (2u8 >> 1) == 1 && (3u8 >> 1) == 1) by (bit_vector);
        }
        if (muxed & 1) == 1 {
            self.first_relay.set(state)?;
        }
        if (muxed >> 1) == 1 {
            self.second_relay.set(state)?;
        }
        Ok(())
    }

    /// Resolve a relay name, or the word "both", to an address.
    pub open spec fn spec_resolve(self, name: Seq<char>) -> Option<RelayAddr> {
        if name == "both"@ {
            Some(RelayAddr::Both)
        } else if name == self.first_relay.name@ {
            Some(RelayAddr::First)
        } else if name == self.second_relay.name@ {
            Some(RelayAddr::Second)
        } else {
            None
        }
    }

    pub fn resolve_addr(&self, name: &str) -> (r: Option<RelayAddr>)
        ensures
            r == self.spec_resolve(name@),
    {
        if str_eq(name, "both") {
            Some(RelayAddr::Both)
        } else if str_eq(name, self.first_relay.name) {
            Some(RelayAddr::First)
        } else if str_eq(name, self.second_relay.name) {
            Some(RelayAddr::Second)
        } else {
            None
        }
    }

    /// Report, per relay, whether its run order has reached its deadline at
    /// `now`.  An idle relay yields no event; detection does not stop the
    /// relay, that is the caller's decision.
    #[must_use]
    pub fn pool_event(&self, now: u64) -> (r: [Option<Event>; 2])
        ensures
            r[0] == (if self.first_relay.spec_run_deadline(now) {
                Some(Event { run_deadline: true, name: self.first_relay.name })
            } else {
                None::<Event>
            }),
            r[1] == (if self.second_relay.spec_run_deadline(now) {
                Some(Event { run_deadline: true, name: self.second_relay.name })
            } else {
                None::<Event>
            }),
    {
        let e1 = self.first_relay.is_run_deadline(now);
        let e2 = self.second_relay.is_run_deadline(now);

        let ev1 = if e1 {
            Some(Event { run_deadline: true, name: self.first_relay.name })
        } else {
            None
        };
        let ev2 = if e2 {
            Some(Event { run_deadline: true, name: self.second_relay.name })
        } else {
            None
        };
        [ev1, ev2]
    }

    /// Carry out a parsed command at time `now`: resolve the addressed
    /// relays, then start a run order ending after the requested duration
    /// (an hour when none is given), or stop.  On success the snapshot of
    /// the affected relays, as they stand after the command, is returned.
    pub fn interprete<'a>(&'a mut self, query: RelayQuery, now: u64) -> (r: Result<
        DoubleRelayStatus<'a>,
        RelayError,
    >)
        requires
            old(self).well_formed(),
            now + u32::MAX <= u64::MAX,
        ensures
            final(self).well_formed(),
            ({
                let outcome = spec_interprete_state(
                    *old(self),
                    (match query.name {
                        None => None,
                        Some(n) => Some(n@),
                    }),
                    query.instruction,
                    query.duration,
                    now,
                );
                &&& *final(self) == outcome.0
                &&& (match outcome.1 {
                    Ok(addr) => r is Ok && status_matches(r->Ok_0, outcome.0, addr),
                    Err(e) => r is Err && r->Err_0 == e,
                })
            }),
    {
        let name = match query.name {
            None => {
                return Err(RelayError::NameNotFound);
            },
            Some(n) => n,
        };
        let r_addr = match self.resolve_addr(name) {
            None => {
                return Err(RelayError::NameNotFound);
            },
            Some(a) => a,
        };
        let instruction = match query.instruction {
            None => {
                return Err(RelayError::MissingInstruction);
            },
            Some(i) => i,
        };
        let instruction = if instruction {
            let t = now;
            let end = match query.duration {
                None => t + DEFAULT_RUN_SECS as u64,
                Some(dur) => t + dur as u64,
            };
            SetState::Run(RunOrder::new(t, end))
        } else {
            SetState::Stop
        };
        self.set(r_addr, instruction)?;
        Ok(self.get_status(r_addr))
    }

    /// A read-only snapshot of the selected relay or, for Both, of the pair.
    pub fn get_status(&self, target: RelayAddr) -> (r: DoubleRelayStatus<'_>)
        ensures
            target is First ==> (r matches DoubleRelayStatus::Single(s) && s.matches_relay(
                self.first_relay,
            )),
            target is Second ==> (r matches DoubleRelayStatus::Single(s) && s.matches_relay(
                self.second_relay,
            )),
            target is Both ==> (r matches DoubleRelayStatus::Both(b) && b[0].matches_relay(
                self.first_relay,
            ) && b[1].matches_relay(self.second_relay)),
    {
        let single = match target {
            RelayAddr::First => self.first_relay.get_status(),
            RelayAddr::Second => self.second_relay.get_status(),
            RelayAddr::Both => {
                return DoubleRelayStatus::Both(
                    [self.first_relay.get_status(), self.second_relay.get_status()],
                );
            },
        };
        DoubleRelayStatus::Single(single)
    }
}

/// The run order a command starting at `now` asks for: until `now` plus the
/// requested duration, or an hour when none is given.
pub open spec fn spec_order(now: u64, duration: Option<u32>) -> RunOrder {
    let end = match duration {
        None => now + DEFAULT_RUN_SECS,
        Some(d) => now + d,
    };
    RunOrder { start_at: Time(now), end_at: Time(end as u64) }
}

/// The bank after stopping the relays that `addr` selects.
pub open spec fn spec_set_stop(bank: DoubleRelay, addr: RelayAddr) -> DoubleRelay {
    DoubleRelay {
        first_relay: if targets_first(addr) {
            relay_stopped(bank.first_relay)
        } else {
            bank.first_relay
        },
        second_relay: if targets_second(addr) {
            relay_stopped(bank.second_relay)
        } else {
            bank.second_relay
        },
    }
}

/// The bank after the relays that `addr` selects accept order `ord`.
pub open spec fn spec_set_run(bank: DoubleRelay, addr: RelayAddr, ord: RunOrder) -> DoubleRelay {
    DoubleRelay {
        first_relay: if targets_first(addr) {
            relay_running(bank.first_relay, ord)
        } else {
            bank.first_relay
        },
        second_relay: if targets_second(addr) {
            relay_running(bank.second_relay, ord)
        } else {
            bank.second_relay
        },
    }
}

/// The bank after only its first relay, where selected, accepts `ord` (the
/// second relay refused the order and stays as it was).
pub open spec fn spec_run_first_only(bank: DoubleRelay, addr: RelayAddr, ord: RunOrder) -> DoubleRelay {
    DoubleRelay {
        first_relay: if targets_first(addr) {
            relay_running(bank.first_relay, ord)
        } else {
            bank.first_relay
        },
        second_relay: bank.second_relay,
    }
}

/// What carrying out a parsed command does: the bank afterwards, and either
/// the affected address or the error.  A missing or unresolvable name and a
/// missing instruction change nothing; a stop always succeeds; a run order
/// is refused by a selected relay that is already running, though an order
/// the first relay already accepted stands.
pub open spec fn spec_interprete_state(
    bank: DoubleRelay,
    name: Option<Seq<char>>,
    instruction: Option<bool>,
    duration: Option<u32>,
    now: u64,
) -> (DoubleRelay, Result<RelayAddr, RelayError>) {
    match name {
        None => (bank, Err(RelayError::NameNotFound)),
        Some(n) => match bank.spec_resolve(n) {
            None => (bank, Err(RelayError::NameNotFound)),
            Some(addr) => match instruction {
                None => (bank, Err(RelayError::MissingInstruction)),
                Some(false) => (spec_set_stop(bank, addr), Ok(addr)),
                Some(true) => {
                    let ord = spec_order(now, duration);
                    if targets_first(addr) && bank.first_relay.running is Some {
                        (bank, Err(RelayError::AlreadyRunning(bank.first_relay.name)))
                    } else if targets_second(addr) && bank.second_relay.running is Some {
                        (
                            spec_run_first_only(bank, addr, ord),
                            Err(RelayError::AlreadyRunning(bank.second_relay.name)),
                        )
                    } else {
                        (spec_set_run(bank, addr, ord), Ok(addr))
                    }
                },
            },
        },
    }
}

/// Whether snapshot `st` reports the relays of `bank` that `addr` selects.
pub open spec fn status_matches(st: DoubleRelayStatus, bank: DoubleRelay, addr: RelayAddr) -> bool {
    match addr {
        RelayAddr::First => st matches DoubleRelayStatus::Single(s) && s.matches_relay(
            bank.first_relay,
        ),
        RelayAddr::Second => st matches DoubleRelayStatus::Single(s) && s.matches_relay(
            bank.second_relay,
        ),
        RelayAddr::Both => st matches DoubleRelayStatus::Both(b) && b[0].matches_relay(
            bank.first_relay,
        ) && b[1].matches_relay(bank.second_relay),
    }
}

// ---------------------------------------------------------------------------
// Status snapshots and their rendering.
// ---------------------------------------------------------------------------

/// Snapshot of one relay: its name and, while running, its order.
#[derive(Debug)]
pub struct RelayStatus<'r> {
    pub name: &'r str,
    pub run_info: Option<&'r RunOrder>,
}

/// The rendered status of one relay.
pub open spec fn render_relay_status(name: Seq<char>, run_info: Option<RunOrder>) -> Seq<char> {
    let head = "Relay "@ + name + " status "@;
    match run_info {
        None => head + "off"@,
        Some(ord) => head + "on\nstart: "@ + render_time(ord.start_at.0 as int) + "\nfinish: "@
            + render_time(ord.end_at.0 as int),
    }
}

impl<'r> RelayStatus<'r> {
    /// Whether this snapshot reports relay `rel`.
    pub open spec fn matches_relay(self, rel: Relay) -> bool {
        &&& self.name == rel.name
        &&& (self.run_info is Some <==> rel.running is Some)
        &&& (self.run_info matches Some(o) ==> rel.running matches Some(ord) && *o == ord)
    }

    /// The run order in the snapshot, as a value.
    pub open spec fn spec_run_order(self) -> Option<RunOrder> {
        match self.run_info {
            None => None,
            Some(o) => Some(*o),
        }
    }

    pub fn to_text(&self) -> (s: String)
        requires
            self.run_info matches Some(o) ==> o.start_at.0 + WIB_OFFSET <= u64::MAX
                && o.end_at.0 + WIB_OFFSET <= u64::MAX,
        ensures
            s@ == render_relay_status(self.name@, self.spec_run_order()),
    {
        let mut s = String::from_str("Relay ");
        s.append(self.name);
        s.append(" status ");
        match self.run_info {
            None => s.append("off"),
            Some(ord) => {
                s.append("on\nstart: ");
                let t = ord.start_at.to_text();
                s.append(t.as_str());
                s.append("\nfinish: ");
                let t = ord.end_at.to_text();
                s.append(t.as_str());
            },
        }
        s
    }
}

/// Snapshot of the selected relays: one, or the pair.
#[derive(Debug)]
pub enum DoubleRelayStatus<'r> {
    Single(RelayStatus<'r>),
    Both([RelayStatus<'r>; 2]),
}

/// The rendered status of the selection: one relay's status, or both
/// separated by a blank line.
pub open spec fn render_double_status(r: DoubleRelayStatus) -> Seq<char> {
    match r {
        DoubleRelayStatus::Single(s) => render_relay_status(s.name@, s.spec_run_order()),
        DoubleRelayStatus::Both(b) => render_relay_status(b[0].name@, b[0].spec_run_order())
            + "\n\n"@ + render_relay_status(b[1].name@, b[1].spec_run_order()),
    }
}

impl<'r> DoubleRelayStatus<'r> {
    pub open spec fn times_renderable(self) -> bool {
        match self {
            DoubleRelayStatus::Single(s) => s.run_info matches Some(o) ==> o.start_at.0
                + WIB_OFFSET <= u64::MAX && o.end_at.0 + WIB_OFFSET <= u64::MAX,
            DoubleRelayStatus::Both(b) => (b[0].run_info matches Some(o) ==> o.start_at.0
                + WIB_OFFSET <= u64::MAX && o.end_at.0 + WIB_OFFSET <= u64::MAX) && (
            b[1].run_info matches Some(o) ==> o.start_at.0 + WIB_OFFSET <= u64::MAX && o.end_at.0
                + WIB_OFFSET <= u64::MAX),
        }
    }

    pub fn to_text(&self) -> (s: String)
        requires
            self.times_renderable(),
        ensures
            s@ == render_double_status(*self),
    {
        match self {
            DoubleRelayStatus::Single(st) => st.to_text(),
            DoubleRelayStatus::Both(b) => {
                let mut s = b[0].to_text();
                s.append("\n\n");
                let t = b[1].to_text();
                s.append(t.as_str());
                s
            },
        }
    }
}

/// A parsed relay command: the addressed name, the instruction (true for
/// "turn on"), and for "on" the run duration in seconds.
#[derive(Debug)]
pub struct RelayQuery<'a> {
    pub name: Option<&'a str>,
    /// set On when is true
    pub instruction: Option<bool>,
    /// time second
    pub duration: Option<u32>,
}

impl<'a> Default for RelayQuery<'a> {
    fn default() -> (r: Self)
        ensures
            r.name is None,
            r.instruction is None,
            r.duration is None,
    {
        RelayQuery { name: None, instruction: None, duration: None }
    }
}

} // verus!
