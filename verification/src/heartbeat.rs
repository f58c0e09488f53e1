//! Heartbeat scheduler: the control-frame cadence on the relay's
//! write half, and the periodic backend status poll.
//!
//! One latency stats frame goes out on every one-second tick; every
//! tenth tick also carries a keepalive with the next sequence
//! number. Before the first tick an initial pair — one latency
//! stats frame and keepalive number one — opens the session. Once
//! the negotiated polling interval has elapsed, the backend command
//! status is polled; a command no longer `new` or `running` ends
//! the session.

use vstd::prelude::*;

use crate::codec::{encode_keepalive, encode_latency_stats, keepalive_bytes, latency_stats_bytes};

verus! {

/// Seconds between heartbeat ticks.
pub const TICK_SECONDS: u64 = 1;

/// Every this many ticks, a keepalive goes out.
pub const KEEPALIVE_TICK_INTERVAL: u32 = 10;

/// Heartbeat state: ticks completed, the sequence of the last
/// keepalive sent, when the backend was last polled, and the
/// negotiated polling interval.
pub struct Heartbeat {
    pub ticks: u32,
    pub keepalive_seq: u32,
    pub last_poll_at: u64,
    pub polling_interval: u64,
}

/// What one tick sends and asks.
pub struct TickPlan {
    /// The latency stats frame; one on every tick.
    pub latency_frame: Vec<u8>,
    /// The keepalive frame, on every tenth tick.
    pub keepalive_frame: Option<Vec<u8>>,
    /// Whether the backend command status is due for a poll.
    pub poll_status: bool,
}

impl Heartbeat {
    /// A fresh scheduler. The initial control pair (see
    /// [`initial_control_frames`]) carries keepalive number one, so
    /// the sequence starts at one.
    pub fn new(now: u64, polling_interval: u64) -> (r: Heartbeat)
        ensures
            r == (Heartbeat { ticks: 0, keepalive_seq: 1, last_poll_at: now, polling_interval }),
    {
        Heartbeat { ticks: 0, keepalive_seq: 1, last_poll_at: now, polling_interval }
    }

    /// One tick: always the latency stats frame; a keepalive with
    /// the next sequence exactly on every tenth tick; and a status
    /// poll exactly when the polling interval has elapsed.
    pub fn on_tick(&mut self, now: u64) -> (plan: TickPlan)
        requires
            old(self).ticks < u32::MAX,
            old(self).keepalive_seq < u32::MAX,
            now >= old(self).last_poll_at,
        ensures
            final(self).ticks == old(self).ticks + 1,
            final(self).last_poll_at == old(self).last_poll_at,
            final(self).polling_interval == old(self).polling_interval,
            plan.latency_frame@ == latency_stats_bytes(),
            if (old(self).ticks + 1) % (KEEPALIVE_TICK_INTERVAL as int) == 0 {
                &&& final(self).keepalive_seq == old(self).keepalive_seq + 1
                &&& plan.keepalive_frame matches Some(f) && f@ == keepalive_bytes(
                    final(self).keepalive_seq,
                )
            } else {
                &&& final(self).keepalive_seq == old(self).keepalive_seq
                &&& plan.keepalive_frame is None
            },
            plan.poll_status == (now - old(self).last_poll_at >= old(self).polling_interval),
    {
        self.ticks = self.ticks + 1;
        let keepalive_frame: Option<Vec<u8>> = if self.ticks % KEEPALIVE_TICK_INTERVAL == 0 {
            self.keepalive_seq = self.keepalive_seq + 1;
            Some(encode_keepalive(self.keepalive_seq))
        } else {
            None
        };
        let poll_status = now - self.last_poll_at >= self.polling_interval;
        TickPlan { latency_frame: encode_latency_stats(), keepalive_frame, poll_status }
    }

    /// Records that a status poll has just completed.
    pub fn note_poll(&mut self, now: u64)
        ensures
            *final(self) == (Heartbeat { last_poll_at: now, ..*old(self) }),
    {
        self.last_poll_at = now;
    }
}

/// The initial control pair sent before the first tick: one
/// latency stats frame, then keepalive number one.
pub fn initial_control_frames() -> (r: Vec<Vec<u8>>)
    ensures
        r@.len() == 2,
        r@[0]@ == latency_stats_bytes(),
        r@[1]@ == keepalive_bytes(1),
{
    let mut out: Vec<Vec<u8>> = Vec::new();
    out.push(encode_latency_stats());
    out.push(encode_keepalive(1));
    out
}

/// Keepalives sent during the first `n` ticks: one at each tick
/// divisible by ten, per the tick contract.
pub open spec fn keepalives_in_ticks(n: nat) -> nat
    decreases n,
{
    if n == 0 {
        0
    } else {
        keepalives_in_ticks((n - 1) as nat) + (if n % 10 == 0 {
            1nat
        } else {
            0nat
        })
    }
}

/// Law: exactly one keepalive goes out per ten ticks — over any
/// first `n` ticks, the count of keepalive-carrying ticks is
/// `n / 10`, and the sequence number after them is `1 + n / 10`.
pub proof fn lemma_one_keepalive_per_ten_ticks(n: nat)
    ensures
        keepalives_in_ticks(n) == n / 10,
    decreases n,
{
    if n > 0 {
        lemma_one_keepalive_per_ten_ticks((n - 1) as nat);
    }
}

/// One backend command as the status poll reports it: its id and
/// its state.
pub struct CommandInfo {
    pub id: i64,
    pub state_condition: Vec<u8>,
}

/// A command state that keeps the session alive: `new` or
/// `running`.
pub open spec fn is_active_state(s: Seq<u8>) -> bool {
    s == seq![110u8, 101u8, 119u8] || s == seq![114u8, 117u8, 110u8, 110u8, 105u8, 110u8, 103u8]
}

/// The entry keeps the session alive: it is the session's command
/// and its state is active.
pub open spec fn command_entry_live(c: CommandInfo, command_id: i64) -> bool {
    c.id == command_id && is_active_state(c.state_condition@)
}

/// Some reported command has the session's id and an active state.
pub open spec fn command_running_spec(cmds: Seq<CommandInfo>, command_id: i64) -> bool {
    exists|i: int| 0 <= i < cmds.len() && command_entry_live(#[trigger] cmds[i], command_id)
}

/// Decides from a status poll whether the session's command is
/// still live; a dead command ends the session.
pub fn command_running(cmds: &Vec<CommandInfo>, command_id: i64) -> (r: bool)
    ensures
        r == command_running_spec(cmds@, command_id),
{
    let new_state: Vec<u8> = vec![110u8, 101u8, 119u8];
    let running_state: Vec<u8> = vec![114u8, 117u8, 110u8, 110u8, 105u8, 110u8, 103u8];
    assert(new_state@ =~= seq![110u8, 101u8, 119u8]);
    assert(running_state@ =~= seq![114u8, 117u8, 110u8, 110u8, 105u8, 110u8, 103u8]);
    let n = cmds.len();
    let mut i: usize = 0;
    while i < n
        invariant
            n == cmds@.len(),
            i <= n,
            new_state@ == seq![110u8, 101u8, 119u8],
            running_state@ == seq![114u8, 117u8, 110u8, 110u8, 105u8, 110u8, 103u8],
            forall|k: int| 0 <= k < i ==> !command_entry_live(#[trigger] cmds@[k], command_id),
        decreases n - i,
    {
        if cmds[i].id == command_id {
            let active = crate::util::bytes_eq(cmds[i].state_condition.as_slice(), new_state.as_slice())
                || crate::util::bytes_eq(cmds[i].state_condition.as_slice(), running_state.as_slice());
            if active {
                proof {
                    assert(command_entry_live(cmds@[i as int], command_id));
                }
                return true;
            }
        }
        i = i + 1;
    }
    false
}

} // verus!
