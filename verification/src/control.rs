use vstd::prelude::*;
use vstd::string::StringExecFns;

use crate::queue::{enqueue_msg_model, MsgFMQueue};
use crate::relay::{relay_stopped, DoubleRelay, Relay, RunOrder};
use crate::telegram::SendMessage;
use crate::time::{render_time, WIB_OFFSET};

verus! {

// ---------------------------------------------------------------------------
// The control loop's policy: deadline enforcement and bounded retries.
// The loop's outside work (waiting, pin levels, the network) stays with the
// caller; what is decided here is which relays to stop, what to queue, and
// when retrying must give way to escalation.
// ---------------------------------------------------------------------------

/// How many times a failed deadline stop is retried before escalation.
pub const CRITICAL_RETRY_LIMIT: u8 = 12;

/// Cooldown between critical retries, in milliseconds (five minutes).
pub const CRITICAL_COOLDOWN_MS: u32 = 300000;

/// At most this many queued messages are sent per loop iteration.
pub const MAX_SEND_EFFORT: usize = 8;

/// Whether both relays' run orders, if any, lie where their times can be
/// rendered.
pub open spec fn orders_renderable(bank: DoubleRelay) -> bool {
    &&& (bank.first_relay.running matches Some(o) ==> o.start_at.0 + WIB_OFFSET <= u64::MAX
        && o.end_at.0 + WIB_OFFSET <= u64::MAX)
    &&& (bank.second_relay.running matches Some(o) ==> o.start_at.0 + WIB_OFFSET <= u64::MAX
        && o.end_at.0 + WIB_OFFSET <= u64::MAX)
}

/// The notice queued when a relay is stopped at its deadline.
pub open spec fn render_deadline_msg(name: Seq<char>, ord: RunOrder) -> Seq<char> {
    "Deadline... Turned off "@ + name + "\nStart: "@ + render_time(ord.start_at.0 as int)
        + "\nFinish: "@ + render_time(ord.end_at.0 as int)
}

/// One relay's part of a sweep at `now`: an overdue relay is stopped and its
/// notice joins the outbox; any other relay and the outbox stay as they are.
pub open spec fn spec_sweep_one(
    rel: Relay,
    msgs: Seq<(u32, Seq<char>)>,
    now: u64,
    order_by: u32,
) -> (Relay, Seq<(u32, Seq<char>)>) {
    if rel.spec_run_deadline(now) {
        (
            relay_stopped(rel),
            enqueue_msg_model(
                msgs,
                (order_by, render_deadline_msg(rel.name@, rel.running->Some_0)),
            ),
        )
    } else {
        (rel, msgs)
    }
}

/// A whole sweep: the first relay is handled before the second.
pub open spec fn spec_deadline_sweep(
    bank: DoubleRelay,
    msgs: Seq<(u32, Seq<char>)>,
    now: u64,
    order_by: u32,
) -> (DoubleRelay, Seq<(u32, Seq<char>)>) {
    let first = spec_sweep_one(bank.first_relay, msgs, now, order_by);
    let second = spec_sweep_one(bank.second_relay, first.1, now, order_by);
    (DoubleRelay { first_relay: first.0, second_relay: second.0 }, second.1)
}

/// Enforce deadlines at `now`: every relay whose run order has ended is
/// stopped, and one notice per stopped relay, addressed to `order_by`, is
/// queued for delivery.  Detection and action stay in one place so a caller
/// can retry the whole sweep; a sweep with nothing overdue changes nothing.
pub fn relay_service(
    relay: &mut DoubleRelay,
    message_queue: &mut MsgFMQueue,
    now: u64,
    order_by: u32,
)
    requires
        old(relay).well_formed(),
        old(message_queue).well_formed(),
        orders_renderable(*old(relay)),
    ensures
        final(relay).well_formed(),
        final(message_queue).well_formed(),
        ({
            let swept = spec_deadline_sweep(
                *old(relay),
                old(message_queue).messages(),
                now,
                order_by,
            );
            *final(relay) == swept.0 && final(message_queue).messages() == swept.1
        }),
{
    if let Some(ord) = relay.first_relay.running {
        if ord.end_at.0 <= now {
            let mut text = String::from_str("Deadline... Turned off ");
            text.append(relay.first_relay.name);
            text.append("\nStart: ");
            let t = ord.start_at.to_text();
            text.append(t.as_str());
            text.append("\nFinish: ");
            let t = ord.end_at.to_text();
            text.append(t.as_str());
            relay.first_relay.stop();
            message_queue.enqueue(SendMessage { chat_id: order_by, text });
        }
    }
    if let Some(ord) = relay.second_relay.running {
        if ord.end_at.0 <= now {
            let mut text = String::from_str("Deadline... Turned off ");
            text.append(relay.second_relay.name);
            text.append("\nStart: ");
            let t = ord.start_at.to_text();
            text.append(t.as_str());
            text.append("\nFinish: ");
            let t = ord.end_at.to_text();
            text.append(t.as_str());
            relay.second_relay.stop();
            message_queue.enqueue(SendMessage { chat_id: order_by, text });
        }
    }
}

/// What the escalation policy tells the caller to do after a failed stop.
#[derive(Clone, Copy, Debug, PartialEq, Eq, Structural)]
pub enum CriticalAction {
    /// Wait out the cooldown and try the sweep again.
    RetryAfterCooldown,
    /// The retry bound is exhausted: a relay that cannot be commanded off is
    /// a hazard, so the control process must stop.
    Escalate,
}

/// The critical section's bookkeeping: how many retries of a failed
/// deadline stop remain before escalation.
pub struct CriticalRetry {
    pub attempts_left: u8,
}

impl CriticalRetry {
    /// A fresh critical section with the full retry budget.
    pub fn new() -> (r: Self)
        ensures
            r.attempts_left == CRITICAL_RETRY_LIMIT,
    {
        CriticalRetry { attempts_left: CRITICAL_RETRY_LIMIT }
    }

    /// Record one failed attempt.  The caller is told to retry exactly as
    /// long as the budget lasts, and to escalate once it is spent.
    pub fn note_failure(&mut self) -> (a: CriticalAction)
        ensures
            old(self).attempts_left == 0 ==> a == CriticalAction::Escalate
                && *final(self) == *old(self),
            old(self).attempts_left > 0 ==> a == CriticalAction::RetryAfterCooldown
                && final(self).attempts_left == old(self).attempts_left - 1,
    {
        if self.attempts_left == 0 {
            CriticalAction::Escalate
        } else {
            self.attempts_left = self.attempts_left - 1;
            CriticalAction::RetryAfterCooldown
        }
    }
}

} // verus!
