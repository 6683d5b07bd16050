//! The alarm multiplexer: many software alarms on one hardware alarm.
//!
//! The multiplexer owns the hardware alarm and the set of active requests.
//! Clients reach the timer only through it: they arm and disarm requests, and
//! the interrupt handler takes out the requests that are due and hands them
//! back in firing order. After each of these operations the hardware is armed
//! for the earliest pending deadline, or disabled when nothing is pending.

use vstd::prelude::*;
use crate::alarm::{AlarmView, PhysicalAlarm};
use crate::schedule::{
    VirtualAlarmRequest,
    requests_valid,
    without_client,
    without_request,
    not_yet_due,
    earliest_deadline,
    is_earliest_deadline,
    fire_order,
    is_fire_order,
    lemma_filter_all,
    lemma_requests_bounded,
    lemma_filter_members,
    lemma_filter_push,
    lemma_filter_valid,
    lemma_earliest_deadline,
    lemma_earliest_deadline_unique,
    lemma_insert_by_deadline,
    lemma_fire_order,
};
use crate::ticks::{
    CounterWidth,
    has_elapsed,
    lemma_counter_modulus,
    lemma_ticks_until,
    ticks_until,
    wrap_ticks,
};
use vstd::arithmetic::div_mod::{lemma_mod_bound, lemma_small_mod};

verus! {

/// The multiplexer as a mathematical value.
pub struct MuxState {
    /// The hardware alarm: its configuration, the counter, the armed deadline.
    pub alarm: AlarmView,
    /// Number of request nodes provisioned at assembly.
    pub capacity: usize,
    /// The active requests, in the order in which they were armed.
    pub pending: Seq<VirtualAlarmRequest>,
}

impl MuxState {
    /// Number of distinct counter values.
    pub open spec fn modulus(self) -> int {
        self.alarm.modulus()
    }

    /// Current counter value.
    pub open spec fn now(self) -> int {
        self.alarm.now as int
    }

    /// Deadline the hardware is armed for, if any.
    pub open spec fn armed(self) -> Option<u32> {
        self.alarm.armed
    }

    /// The hardware state is valid, every request belongs to a provisioned
    /// node and holds a counter value, and no client has two requests.
    pub open spec fn wf(self) -> bool {
        &&& self.alarm.wf()
        &&& requests_valid(self.pending, self.capacity as int, self.modulus())
    }

    /// The hardware is armed for the earliest pending deadline, or disabled
    /// when nothing is pending.
    pub open spec fn armed_is_earliest(self) -> bool {
        is_earliest_deadline(self.armed(), self.pending, self.now(), self.modulus())
    }

    /// A multiplexer without requests over `alarm`, which it disables.
    pub open spec fn fresh(alarm: AlarmView, capacity: usize) -> MuxState {
        MuxState { alarm: AlarmView { armed: None, ..alarm }, capacity, pending: Seq::empty() }
    }

    /// This state with `pending` as its requests and the hardware armed to
    /// match.
    pub open spec fn with_pending(self, pending: Seq<VirtualAlarmRequest>) -> MuxState {
        MuxState {
            alarm: AlarmView {
                armed: earliest_deadline(pending, self.now(), self.modulus()),
                ..self.alarm
            },
            pending,
            ..self
        }
    }

    /// The request that `client` registers for `deadline`.
    pub open spec fn request_for(self, client: usize, deadline: u32) -> VirtualAlarmRequest {
        VirtualAlarmRequest {
            client,
            deadline: wrap_ticks(deadline as int, self.modulus()) as u32,
        }
    }

    /// State after `client` has armed a request for `deadline`: an earlier
    /// request of the client is gone, the new one is the last armed.
    pub open spec fn arm(self, client: usize, deadline: u32) -> MuxState {
        self.with_pending(
            without_client(self.pending, client).push(self.request_for(client, deadline)),
        )
    }

    /// State after `request` has been disarmed.
    pub open spec fn disarm(self, request: VirtualAlarmRequest) -> MuxState {
        self.with_pending(without_request(self.pending, request))
    }

    /// The requests the interrupt handler takes out, in firing order.
    pub open spec fn due(self) -> Seq<VirtualAlarmRequest> {
        fire_order(self.pending, self.now(), self.modulus())
    }

    /// State after the interrupt handler has run.
    pub open spec fn after_interrupt(self) -> MuxState {
        self.with_pending(not_yet_due(self.pending, self.now(), self.modulus()))
    }

    /// State after the counter has been read as `counter`.
    pub open spec fn at(self, counter: u32) -> MuxState {
        MuxState {
            alarm: AlarmView {
                now: wrap_ticks(counter as int, self.modulus()) as u32,
                ..self.alarm
            },
            ..self
        }
    }
}

/// Replacing the requests of a valid state by valid requests gives a valid
/// state whose hardware is armed for the earliest of them.
pub proof fn lemma_with_pending(state: MuxState, pending: Seq<VirtualAlarmRequest>)
    requires
        state.wf(),
        requests_valid(pending, state.capacity as int, state.modulus()),
    ensures
        state.with_pending(pending).wf(),
        state.with_pending(pending).armed_is_earliest(),
{
    lemma_earliest_deadline(pending, state.now(), state.modulus());
}

/// Arming keeps the state valid and the hardware armed for the earliest
/// deadline.
pub proof fn lemma_arm(state: MuxState, client: usize, deadline: u32)
    requires
        state.wf(),
        client < state.capacity,
    ensures
        state.arm(client, deadline).wf(),
        state.arm(client, deadline).armed_is_earliest(),
{
    lemma_counter_modulus(state.alarm.bits as nat);
    let kept = without_client(state.pending, client);
    let request = state.request_for(client, deadline);
    let pending = kept.push(request);
    lemma_filter_valid(
        state.pending,
        |r: VirtualAlarmRequest| r.client != client,
        state.capacity as int,
        state.modulus(),
    );
    lemma_filter_members(
        state.pending,
        |r: VirtualAlarmRequest| r.client != client,
    );
    assert(requests_valid(pending, state.capacity as int, state.modulus())) by {
        assert forall|i: int| 0 <= i < pending.len() implies (#[trigger] pending[i]).client
            < state.capacity && pending[i].deadline < state.modulus() by {
            if i < kept.len() {
                assert(pending[i] == kept[i]);
            }
        }
        assert forall|i: int, j: int| 0 <= i < j < pending.len() implies (
        #[trigger] pending[i]).client != (#[trigger] pending[j]).client by {
            assert(pending[i] == kept[i]);
            if j < kept.len() {
                assert(pending[j] == kept[j]);
            }
        }
    }
    lemma_with_pending(state, pending);
}

/// Arming for a client without a request changes the hardware only where it
/// must: the new deadline is loaded when nothing was armed or when it comes
/// before the armed one, and the armed deadline stays otherwise.
pub proof fn lemma_arm_takes_over_when_sooner(state: MuxState, client: usize, deadline: u32)
    requires
        state.wf(),
        state.armed_is_earliest(),
        client < state.capacity,
        forall|i: int| 0 <= i < state.pending.len() ==> (#[trigger] state.pending[i]).client != client,
    ensures
        state.arm(client, deadline).pending == state.pending.push(
            state.request_for(client, deadline),
        ),
        state.arm(client, deadline).armed() == match state.armed() {
            None => Some(state.request_for(client, deadline).deadline),
            Some(armed) => if ticks_until(
                state.request_for(client, deadline).deadline as int,
                state.now(),
                state.modulus(),
            ) < ticks_until(armed as int, state.now(), state.modulus()) {
                Some(state.request_for(client, deadline).deadline)
            } else {
                Some(armed)
            },
        },
{
    lemma_counter_modulus(state.alarm.bits as nat);
    lemma_filter_all(
        state.pending,
        |r: VirtualAlarmRequest| r.client != client,
    );
    let request = state.request_for(client, deadline);
    assert(state.pending.push(request).drop_last() =~= state.pending);
    lemma_earliest_deadline(state.pending, state.now(), state.modulus());
    lemma_earliest_deadline_unique(
        state.armed(),
        earliest_deadline(state.pending, state.now(), state.modulus()),
        state.pending,
        state.now(),
        state.capacity as int,
        state.modulus(),
    );
}

/// Disarming a request whose deadline the hardware is not armed for leaves
/// the hardware as it is.
pub proof fn lemma_disarm_keeps_other_minimum(state: MuxState, handle: VirtualAlarmRequest)
    requires
        state.wf(),
        state.armed_is_earliest(),
        state.armed() != Some(handle.deadline),
    ensures
        state.disarm(handle).armed() == state.armed(),
{
    lemma_counter_modulus(state.alarm.bits as nat);
    let keep = |r: VirtualAlarmRequest| r.client != handle.client || r.deadline != handle.deadline;
    let kept = without_request(state.pending, handle);
    lemma_filter_valid(state.pending, keep, state.capacity as int, state.modulus());
    lemma_filter_members(state.pending, keep);
    lemma_earliest_deadline(kept, state.now(), state.modulus());
    match state.armed() {
        Some(armed) => {
            let i = choose|i: int|
                0 <= i < state.pending.len() && (#[trigger] state.pending[i]).deadline == armed;
            assert(kept.contains(state.pending[i]));
            let k = choose|k: int| 0 <= k < kept.len() && kept[k] == state.pending[i];
            assert(kept[k].deadline == armed);
            assert forall|j: int| 0 <= j < kept.len() implies ticks_until(
                armed as int,
                state.now(),
                state.modulus(),
            ) <= ticks_until((#[trigger] kept[j]).deadline as int, state.now(), state.modulus()) by {
                assert(state.pending.contains(kept[j]));
                let m = choose|m: int| 0 <= m < state.pending.len() && state.pending[m] == kept[j];
                assert(state.pending[m].deadline == kept[j].deadline);
            }
            assert(is_earliest_deadline(Some(armed), kept, state.now(), state.modulus()));
        },
        None => {
            assert(kept.len() == 0) by {
                state.pending.lemma_filter_len(keep);
            }
        },
    }
    lemma_earliest_deadline_unique(
        state.armed(),
        earliest_deadline(kept, state.now(), state.modulus()),
        kept,
        state.now(),
        state.capacity as int,
        state.modulus(),
    );
}

/// Disarming keeps the state valid and the hardware armed for the earliest
/// deadline.
pub proof fn lemma_disarm(state: MuxState, request: VirtualAlarmRequest)
    requires
        state.wf(),
    ensures
        state.disarm(request).wf(),
        state.disarm(request).armed_is_earliest(),
{
    lemma_filter_valid(
        state.pending,
        |r: VirtualAlarmRequest| r.client != request.client || r.deadline != request.deadline,
        state.capacity as int,
        state.modulus(),
    );
    lemma_with_pending(state, without_request(state.pending, request));
}

/// The interrupt handler keeps the state valid and the hardware armed for
/// the earliest deadline.
pub proof fn lemma_after_interrupt(state: MuxState)
    requires
        state.wf(),
    ensures
        state.after_interrupt().wf(),
        state.after_interrupt().armed_is_earliest(),
{
    let now = state.now();
    let modulus = state.modulus();
    lemma_filter_valid(
        state.pending,
        |r: VirtualAlarmRequest| !has_elapsed(r.deadline as int, now, modulus),
        state.capacity as int,
        modulus,
    );
    lemma_with_pending(state, not_yet_due(state.pending, now, modulus));
}

/// After the interrupt handler has run, no request that is still pending
/// has a deadline that was reached at the counter value the handler read.
pub proof fn lemma_nothing_due_after_interrupt(state: MuxState)
    ensures
        forall|i: int|
            0 <= i < state.after_interrupt().pending.len() ==> !has_elapsed(
                (#[trigger] state.after_interrupt().pending[i]).deadline as int,
                state.now(),
                state.modulus(),
            ),
{
    let now = state.now();
    let modulus = state.modulus();
    lemma_filter_members(
        state.pending,
        |r: VirtualAlarmRequest| !has_elapsed(r.deadline as int, now, modulus),
    );
}

/// As long as no pending request is left unserved for half the counter's
/// range, the passing of time does not change which deadline is the
/// earliest: a state whose hardware was armed for it stays so when the
/// counter is read again.
pub proof fn lemma_time_keeps_earliest(state: MuxState, counter: u32)
    requires
        state.wf(),
        state.armed_is_earliest(),
        forall|i: int|
            0 <= i < state.pending.len() ==> ticks_until(
                (#[trigger] state.pending[i]).deadline as int,
                state.now(),
                state.modulus(),
            ) - (state.at(counter).now() - state.now()) % state.modulus() > -(state.modulus() / 2),
    ensures
        state.at(counter).wf(),
        state.at(counter).armed_is_earliest(),
{
    let modulus = state.modulus();
    let before = state.now();
    let after = state.at(counter).now();
    lemma_counter_modulus(state.alarm.bits as nat);
    lemma_mod_bound(counter as int, modulus);
    lemma_ticks_until(after, before, modulus);
    let moved = (after - before) % modulus;
    assert forall|i: int| 0 <= i < state.pending.len() implies ticks_until(
        (#[trigger] state.pending[i]).deadline as int,
        after,
        modulus,
    ) == ticks_until(state.pending[i].deadline as int, before, modulus) - moved by {
        let deadline = state.pending[i].deadline as int;
        lemma_ticks_until(deadline, before, modulus);
        lemma_ticks_until(deadline, after, modulus);
    }
    match state.armed() {
        Some(armed) => {
            let k = choose|k: int|
                0 <= k < state.pending.len() && (#[trigger] state.pending[k]).deadline == armed;
            assert(state.at(counter).pending[k].deadline == armed);
            assert forall|i: int| 0 <= i < state.pending.len() implies ticks_until(
                armed as int,
                after,
                modulus,
            ) <= ticks_until((#[trigger] state.pending[i]).deadline as int, after, modulus) by {
                assert(ticks_until(state.pending[k].deadline as int, after, modulus)
                    == ticks_until(armed as int, before, modulus) - moved);
            }
        },
        None => {},
    }
}

/// An operation on the multiplexer.
pub enum MuxOp {
    /// `client` arms a request for `deadline`.
    Arm { client: usize, deadline: u32 },
    /// The request that `handle` stands for is disarmed.
    Disarm { handle: VirtualAlarmRequest },
    /// The interrupt handler runs.
    Interrupt,
    /// The counter is read as `counter`.
    Counter { counter: u32 },
}

impl MuxState {
    /// Whether `op` may be applied: a client that arms has a request node.
    pub open spec fn admits(self, op: MuxOp) -> bool {
        op matches MuxOp::Arm { client, .. } ==> client < self.capacity
    }

    /// State after `op`.
    pub open spec fn apply(self, op: MuxOp) -> MuxState {
        match op {
            MuxOp::Arm { client, deadline } => self.arm(client, deadline),
            MuxOp::Disarm { handle } => self.disarm(handle),
            MuxOp::Interrupt => self.after_interrupt(),
            MuxOp::Counter { counter } => self.at(counter),
        }
    }

    /// State after the operations in `ops`, first to last.
    pub open spec fn run(self, ops: Seq<MuxOp>) -> MuxState
        decreases ops.len(),
    {
        if ops.len() == 0 {
            self
        } else {
            self.run(ops.drop_last()).apply(ops.last())
        }
    }
}

/// Whatever clients do, and in whatever order, the hardware follows: after
/// any sequence of operations that ends with arming, disarming or the
/// interrupt handler, the hardware is armed for the earliest pending
/// deadline, or disabled when nothing is pending.
pub proof fn lemma_armed_deadline_follows(start: MuxState, ops: Seq<MuxOp>)
    requires
        start.wf(),
        forall|i: int| 0 <= i < ops.len() ==> start.admits(#[trigger] ops[i]),
    ensures
        start.run(ops).wf(),
        start.run(ops).capacity == start.capacity,
        ops.len() > 0 && !(ops.last() is Counter) ==> start.run(ops).armed_is_earliest(),
    decreases ops.len(),
{
    if ops.len() > 0 {
        let before = start.run(ops.drop_last());
        assert forall|i: int| 0 <= i < ops.drop_last().len() implies start.admits(
            #[trigger] ops.drop_last()[i],
        ) by {
            assert(ops.drop_last()[i] == ops[i]);
        }
        lemma_armed_deadline_follows(start, ops.drop_last());
        assert(start.admits(ops[ops.len() - 1]));
        match ops.last() {
            MuxOp::Arm { client, deadline } => {
                lemma_arm(before, client, deadline);
            },
            MuxOp::Disarm { handle } => {
                lemma_disarm(before, handle);
            },
            MuxOp::Interrupt => {
                lemma_after_interrupt(before);
            },
            MuxOp::Counter { counter } => {
                lemma_counter_modulus(before.alarm.bits as nat);
                lemma_mod_bound(counter as int, before.modulus());
            },
        }
    }
}

/// The alarm multiplexer.
pub struct MuxAlarm {
    alarm: PhysicalAlarm,
    capacity: usize,
    pending: Vec<VirtualAlarmRequest>,
}

impl View for MuxAlarm {
    type V = MuxState;

    closed spec fn view(&self) -> MuxState {
        MuxState { alarm: self.alarm@, capacity: self.capacity, pending: self.pending@ }
    }
}

impl MuxAlarm {
    /// A multiplexer over `alarm` with `capacity` request nodes, one for each
    /// client: the clients are numbered from zero. It starts without
    /// requests and disables the hardware alarm.
    pub fn new(alarm: PhysicalAlarm, capacity: usize) -> (mux: MuxAlarm)
        requires
            alarm@.wf(),
        ensures
            mux@ == MuxState::fresh(alarm@, capacity),
            mux@.wf(),
            mux@.armed_is_earliest(),
    {
        let mut alarm = alarm;
        alarm.clear_alarm();
        MuxAlarm { alarm, capacity, pending: Vec::new() }
    }

    /// Current value of the hardware counter.
    pub fn now(&self) -> (now: u32)
        ensures
            now == self@.alarm.now,
    {
        self.alarm.now()
    }

    /// Counter increments per second.
    pub fn frequency(&self) -> (frequency: u32)
        ensures
            frequency == self@.alarm.frequency,
    {
        self.alarm.frequency()
    }

    /// Width of the hardware counter.
    pub fn width(&self) -> (width: CounterWidth)
        ensures
            width.spec_bits() == self@.alarm.bits,
    {
        self.alarm.width()
    }

    /// Number of request nodes, and so of clients.
    pub fn capacity(&self) -> (capacity: usize)
        ensures
            capacity == self@.capacity,
    {
        self.capacity
    }

    /// Deadline the hardware is armed for, or `None` when it is disabled.
    pub fn armed_deadline(&self) -> (armed: Option<u32>)
        ensures
            armed == self@.armed(),
    {
        self.alarm.armed()
    }

    /// Number of active requests. There are never more than request nodes.
    pub fn active_count(&self) -> (count: usize)
        ensures
            count == self@.pending.len(),
            self@.wf() ==> count <= self@.capacity,
    {
        proof {
            if self@.wf() {
                lemma_requests_bounded(self@.pending, self@.capacity as int, self@.modulus());
            }
        }
        self.pending.len()
    }

    /// The deadline that `client` waits for, or `None` when it has no active
    /// request.
    pub fn deadline_of(&self, client: usize) -> (deadline: Option<u32>)
        ensures
            match deadline {
                Some(deadline) => self@.pending.contains(VirtualAlarmRequest { client, deadline }),
                None => forall|i: int|
                    0 <= i < self@.pending.len() ==> (#[trigger] self@.pending[i]).client
                        != client,
            },
    {
        let mut i: usize = 0;
        while i < self.pending.len()
            invariant
                i <= self.pending.len(),
                forall|k: int| 0 <= k < i ==> (#[trigger] self.pending@[k]).client != client,
            decreases self.pending.len() - i,
        {
            if self.pending[i].client == client {
                assert(self.pending@[i as int] == (VirtualAlarmRequest {
                    client,
                    deadline: self.pending@[i as int].deadline,
                }));
                return Some(self.pending[i].deadline);
            }
            i = i + 1;
        }
        None
    }

    /// Arms the hardware for the earliest pending deadline, or disables it
    /// when nothing is pending.
    fn rearm(&mut self)
        requires
            old(self)@.wf(),
        ensures
            final(self)@ == old(self)@.with_pending(old(self)@.pending),
    {
        let now: u32 = self.alarm.now();
        let width: CounterWidth = self.alarm.width();
        let ghost modulus = self@.modulus();
        let mut best: Option<u32> = None;
        let mut i: usize = 0;
        while i < self.pending.len()
            invariant
                i <= self.pending.len(),
                width.wf(),
                width.spec_modulus() == modulus,
                now < modulus,
                requests_valid(self.pending@, self.capacity as int, modulus),
                best == earliest_deadline(self.pending@.take(i as int), now as int, modulus),
                best matches Some(deadline) ==> deadline < modulus,
            decreases self.pending.len() - i,
        {
            let candidate: u32 = self.pending[i].deadline;
            proof {
                let upto = self.pending@.take(i + 1);
                assert(upto.drop_last() =~= self.pending@.take(i as int));
                assert(upto.last() == self.pending@[i as int]);
            }
            best = match best {
                None => Some(candidate),
                Some(deadline) => if width.ticks_until(deadline, now) <= width.ticks_until(
                    candidate,
                    now,
                ) {
                    Some(deadline)
                } else {
                    Some(candidate)
                },
            };
            i = i + 1;
        }
        assert(self.pending@.take(i as int) =~= self.pending@);
        match best {
            Some(deadline) => {
                proof {
                    lemma_small_mod(deadline as nat, modulus as nat);
                }
                self.alarm.set_alarm(deadline);
            },
            None => {
                self.alarm.clear_alarm();
            },
        }
    }

    /// Registers a request of `client` for `deadline`, reduced to the
    /// counter's width, and returns it as the handle by which it can be
    /// disarmed. A request that the client still had is replaced. The
    /// hardware is then armed for the earliest pending deadline.
    pub fn arm(&mut self, client: usize, deadline: u32) -> (handle: VirtualAlarmRequest)
        requires
            old(self)@.wf(),
            client < old(self)@.capacity,
        ensures
            handle == old(self)@.request_for(client, deadline),
            final(self)@ == old(self)@.arm(client, deadline),
            final(self)@.wf(),
            final(self)@.armed_is_earliest(),
    {
        let request = VirtualAlarmRequest { client, deadline: self.alarm.width().wrap(deadline as u64) };
        let mut kept: Vec<VirtualAlarmRequest> = Vec::new();
        let mut i: usize = 0;
        while i < self.pending.len()
            invariant
                i <= self.pending.len(),
                kept@ == without_client(self.pending@.take(i as int), client),
            decreases self.pending.len() - i,
        {
            let current = self.pending[i];
            proof {
                assert(self.pending@.take(i + 1) =~= self.pending@.take(i as int).push(current));
                lemma_filter_push(
                    self.pending@.take(i as int),
                    current,
                    |r: VirtualAlarmRequest| r.client != client,
                );
            }
            if current.client != client {
                kept.push(current);
            }
            i = i + 1;
        }
        proof {
            assert(self.pending@.take(i as int) =~= self.pending@);
            lemma_arm(self@, client, deadline);
        }
        kept.push(request);
        self.pending = kept;
        self.rearm();
        request
    }

    /// Takes out the request that `handle` stands for, if it is still
    /// pending, and arms the hardware for the earliest deadline that is left,
    /// or disables it.
    pub fn disarm(&mut self, handle: VirtualAlarmRequest)
        requires
            old(self)@.wf(),
        ensures
            final(self)@ == old(self)@.disarm(handle),
            final(self)@.wf(),
            final(self)@.armed_is_earliest(),
    {
        let mut kept: Vec<VirtualAlarmRequest> = Vec::new();
        let mut i: usize = 0;
        while i < self.pending.len()
            invariant
                i <= self.pending.len(),
                kept@ == without_request(self.pending@.take(i as int), handle),
            decreases self.pending.len() - i,
        {
            let current = self.pending[i];
            proof {
                assert(self.pending@.take(i + 1) =~= self.pending@.take(i as int).push(current));
                lemma_filter_push(
                    self.pending@.take(i as int),
                    current,
                    |r: VirtualAlarmRequest|
                        r.client != handle.client || r.deadline != handle.deadline,
                );
            }
            if current.client != handle.client || current.deadline != handle.deadline {
                kept.push(current);
            }
            i = i + 1;
        }
        proof {
            assert(self.pending@.take(i as int) =~= self.pending@);
            lemma_disarm(self@, handle);
        }
        self.pending = kept;
        self.rearm();
    }

    /// The interrupt handler. Reads the counter, takes out every request
    /// whose deadline has been reached, and returns those requests in firing
    /// order: by ascending deadline, and by arming order where deadlines are
    /// equal. The hardware is then armed for the earliest deadline that is
    /// left, or disabled.
    ///
    /// The caller runs the clients' callbacks in the order of the result. A
    /// callback may arm again at once: its request is no longer pending.
    pub fn handle_interrupt(&mut self) -> (fired: Vec<VirtualAlarmRequest>)
        requires
            old(self)@.wf(),
        ensures
            fired@ == old(self)@.due(),
            is_fire_order(fired@, old(self)@.pending, old(self)@.now(), old(self)@.modulus()),
            final(self)@ == old(self)@.after_interrupt(),
            final(self)@.wf(),
            final(self)@.armed_is_earliest(),
            forall|i: int|
                0 <= i < final(self)@.pending.len() ==> !has_elapsed(
                    (#[trigger] final(self)@.pending[i]).deadline as int,
                    old(self)@.now(),
                    old(self)@.modulus(),
                ),
    {
        let now: u32 = self.alarm.now();
        let width: CounterWidth = self.alarm.width();
        let ghost modulus = self@.modulus();
        let ghost capacity = self.capacity as int;
        let mut fired: Vec<VirtualAlarmRequest> = Vec::new();
        let mut kept: Vec<VirtualAlarmRequest> = Vec::new();
        let mut i: usize = 0;
        while i < self.pending.len()
            invariant
                i <= self.pending.len(),
                width.wf(),
                width.spec_modulus() == modulus,
                now < modulus,
                requests_valid(self.pending@, capacity, modulus),
                kept@ == not_yet_due(self.pending@.take(i as int), now as int, modulus),
                fired@ == fire_order(self.pending@.take(i as int), now as int, modulus),
            decreases self.pending.len() - i,
        {
            let current = self.pending[i];
            let ghost seen = self.pending@.take(i as int);
            proof {
                assert(self.pending@.take(i + 1) =~= seen.push(current));
                assert(seen.push(current).drop_last() =~= seen);
                lemma_filter_push(
                    seen,
                    current,
                    |r: VirtualAlarmRequest| !has_elapsed(r.deadline as int, now as int, modulus),
                );
                assert(requests_valid(seen, capacity, modulus));
                lemma_fire_order(seen, now as int, capacity, modulus);
                assert forall|k: int| 0 <= k < fired@.len() implies (#[trigger] fired@[k]).deadline
                    < modulus by {
                    assert(fired@.contains(fired@[k]));
                    assert(seen.contains(fired@[k]));
                }
            }
            if width.has_elapsed(current.deadline, now) {
                let distance: i64 = width.ticks_until(current.deadline, now);
                let mut at: usize = fired.len();
                while at > 0 && width.ticks_until(fired[at - 1].deadline, now) > distance
                    invariant
                        at <= fired.len(),
                        width.wf(),
                        width.spec_modulus() == modulus,
                        now < modulus,
                        forall|k: int| 0 <= k < fired@.len() ==> (#[trigger] fired@[k]).deadline
                            < modulus,
                        distance == ticks_until(current.deadline as int, now as int, modulus),
                        forall|k: int|
                            at <= k < fired@.len() ==> ticks_until(
                                (#[trigger] fired@[k]).deadline as int,
                                now as int,
                                modulus,
                            ) > distance,
                    decreases at,
                {
                    at = at - 1;
                }
                proof {
                    let expected = lemma_insert_by_deadline(fired@, current, now as int, modulus);
                    if expected < at {
                        assert(ticks_until(fired@[at - 1].deadline as int, now as int, modulus)
                            > distance);
                    } else if at < expected {
                        assert(ticks_until(fired@[at as int].deadline as int, now as int, modulus)
                            <= distance);
                    }
                    assert(expected == at);
                }
                fired.insert(at, current);
            } else {
                kept.push(current);
            }
            i = i + 1;
        }
        proof {
            assert(self.pending@.take(i as int) =~= self.pending@);
            lemma_fire_order(self.pending@, now as int, capacity, modulus);
            lemma_after_interrupt(self@);
            lemma_filter_members(
                self.pending@,
                |r: VirtualAlarmRequest| !has_elapsed(r.deadline as int, now as int, modulus),
            );
        }
        self.pending = kept;
        self.rearm();
        fired
    }

    /// Records the counter value read from the hardware. Requests and the
    /// armed deadline stay as they are.
    pub fn set_counter(&mut self, counter: u32)
        requires
            old(self)@.wf(),
        ensures
            final(self)@ == old(self)@.at(counter),
            final(self)@.wf(),
    {
        self.alarm.set_counter(counter);
    }
}

} // verus!
