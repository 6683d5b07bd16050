//! Periodic process status reports.
//!
//! The capsule is a client of the alarm multiplexer. While it runs it is
//! called back once per interval, reports the figures of every loaded
//! process, and arms its alarm for the next interval.

use vstd::prelude::*;
use crate::introspection::{Introspection, ProcessSnapshot, loaded_processes};
use crate::mux::{MuxAlarm, MuxState, lemma_arm};
use crate::text::{decimal, labelled};
use crate::ticks::{
    CounterWidth,
    has_elapsed,
    lemma_counter_modulus,
    lemma_ticks_until_after_add,
    ticks_until,
    wrap_ticks,
};

verus! {

/// Length of `interval_ms` milliseconds in ticks of a counter that runs at
/// `frequency` increments per second, rounded down.
pub open spec fn interval_ticks(interval_ms: int, frequency: int) -> int {
    interval_ms * frequency / 1000
}

/// The interval that the capsule runs with when it is started for
/// `interval_ms` milliseconds: the length in ticks, or `None` when that is
/// zero or more than half the counter's range. An interval of zero ticks
/// would make the alarm due the moment it is armed; one beyond half the range
/// cannot be told from a deadline that has passed.
pub open spec fn accepted_interval(interval_ms: int, frequency: int, modulus: int) -> Option<u32> {
    let ticks = interval_ticks(interval_ms, frequency);
    if 1 <= ticks <= modulus / 2 {
        Some(ticks as u32)
    } else {
        None
    }
}

/// The multiplexer after a capsule with the given interval has armed its
/// alarm for one interval from now; unchanged when the capsule is stopped.
pub open spec fn rearmed(mux: MuxState, client: usize, interval: Option<u32>) -> MuxState {
    match interval {
        Some(ticks) => mux.arm(client, wrap_ticks(mux.now() + ticks, mux.modulus()) as u32),
        None => mux,
    }
}

/// A running capsule arms its alarm for exactly one interval after the
/// counter value at which it does so: its request is the last armed, and
/// its deadline lies the interval ahead of that counter value, so that it is
/// not due yet.
pub proof fn lemma_rearmed_one_interval_ahead(mux: MuxState, client: usize, interval: u32)
    requires
        mux.wf(),
        client < mux.capacity,
        1 <= interval <= mux.modulus() / 2,
    ensures
        rearmed(mux, client, Some(interval)).wf(),
        rearmed(mux, client, Some(interval)).armed_is_earliest(),
        rearmed(mux, client, Some(interval)).pending.len() > 0,
        rearmed(mux, client, Some(interval)).pending.last().client == client,
        ticks_until(
            rearmed(mux, client, Some(interval)).pending.last().deadline as int,
            mux.now(),
            mux.modulus(),
        ) == interval,
        !has_elapsed(
            rearmed(mux, client, Some(interval)).pending.last().deadline as int,
            mux.now(),
            mux.modulus(),
        ),
{
    let modulus = mux.modulus();
    lemma_counter_modulus(mux.alarm.bits as nat);
    lemma_ticks_until_after_add(mux.now(), interval as int, modulus);
    let deadline = wrap_ticks(mux.now() + interval, modulus);
    vstd::arithmetic::div_mod::lemma_small_mod(deadline as nat, modulus as nat);
    lemma_arm(mux, client, deadline as u32);
}

/// A stopped capsule arms nothing: the callback of a request that was still
/// pending when the capsule was stopped leaves the multiplexer as it finds
/// it.
pub proof fn lemma_stopped_arms_nothing(mux: MuxState, client: usize)
    ensures
        rearmed(mux, client, None) == mux,
{
}

/// The lines that head a report on `process_count` loaded processes.
pub open spec fn heading_lines(process_count: nat) -> Seq<Seq<char>> {
    seq![
        "##### APP INFORMATION #####"@,
        "  Number of processes: "@ + decimal(process_count),
        Seq::empty(),
    ]
}

/// The lines that report the figures of `process`.
pub open spec fn process_lines(process: ProcessSnapshot) -> Seq<Seq<char>> {
    seq![
        "  app: "@ + process.name@,
        "    # syscalls:              "@ + decimal(process.syscall_count as nat),
        "    # dropped callbacks:     "@ + decimal(process.dropped_callback_count as nat),
        "    # restarts:              "@ + decimal(process.restart_count as nat),
        "    # timeslice expirations: "@ + decimal(process.timeslice_expiration_count as nat),
        Seq::empty(),
    ]
}

/// The lines that report the figures of each of `processes`, in order.
pub open spec fn all_process_lines(processes: Seq<ProcessSnapshot>) -> Seq<Seq<char>>
    decreases processes.len(),
{
    if processes.len() == 0 {
        Seq::empty()
    } else {
        all_process_lines(processes.drop_last()) + process_lines(processes.last())
    }
}

/// A report as lines of text for the diagnostic output: the heading, then
/// the lines of each process.
pub open spec fn report_lines(process_count: nat, processes: Seq<ProcessSnapshot>) -> Seq<
    Seq<char>,
> {
    heading_lines(process_count) + all_process_lines(processes)
}

/// The characters of each of `lines`.
pub open spec fn line_views(lines: Seq<String>) -> Seq<Seq<char>> {
    lines.map_values(|line: String| line@)
}

/// Adds `line` at the end of `lines`.
fn push_line(lines: &mut Vec<String>, line: String)
    ensures
        line_views(final(lines)@) == line_views(old(lines)@).push(line@),
{
    lines.push(line);
    assert(line_views(lines@) =~= line_views(old(lines)@).push(line@));
}

/// One status report: the number of loaded processes and the figures of each.
#[derive(Debug)]
pub struct StatusReport {
    /// Number of loaded processes.
    pub process_count: usize,
    /// The figures of the loaded processes, in slot order.
    pub processes: Vec<ProcessSnapshot>,
}

impl StatusReport {
    /// The report as lines of text for the diagnostic output.
    pub fn lines(&self) -> (lines: Vec<String>)
        ensures
            line_views(lines@) == report_lines(self.process_count as nat, self.processes@),
    {
        let mut lines: Vec<String> = Vec::new();
        assert(line_views(lines@) =~= Seq::empty());
        push_line(&mut lines, String::from_str("##### APP INFORMATION #####"));
        push_line(&mut lines, labelled("  Number of processes: ", self.process_count));
        push_line(&mut lines, String::new());
        assert(line_views(lines@) =~= heading_lines(self.process_count as nat));
        let mut i: usize = 0;
        while i < self.processes.len()
            invariant
                i <= self.processes.len(),
                line_views(lines@) == report_lines(
                    self.process_count as nat,
                    self.processes@.take(i as int),
                ),
            decreases self.processes.len() - i,
        {
            let process: &ProcessSnapshot = &self.processes[i];
            let ghost before = line_views(lines@);
            proof {
                let upto = self.processes@.take(i + 1);
                assert(upto.drop_last() =~= self.processes@.take(i as int));
                assert(upto.last() == *process);
            }
            let mut name_line: String = String::from_str("  app: ");
            name_line.append(process.name.as_str());
            push_line(&mut lines, name_line);
            push_line(&mut lines, labelled("    # syscalls:              ", process.syscall_count));
            push_line(
                &mut lines,
                labelled("    # dropped callbacks:     ", process.dropped_callback_count),
            );
            push_line(&mut lines, labelled("    # restarts:              ", process.restart_count));
            push_line(
                &mut lines,
                labelled("    # timeslice expirations: ", process.timeslice_expiration_count),
            );
            push_line(&mut lines, String::new());
            assert(line_views(lines@) =~= before + process_lines(*process));
            assert(line_views(lines@) =~= report_lines(
                self.process_count as nat,
                self.processes@.take(i + 1),
            ));
            i = i + 1;
        }
        assert(self.processes@.take(i as int) =~= self.processes@);
        lines
    }
}

/// The process status capsule.
#[derive(Debug)]
pub struct DebugProcessStatus {
    client: usize,
    interval: Option<u32>,
}

impl DebugProcessStatus {
    /// The request node of the multiplexer that the capsule arms.
    pub closed spec fn spec_client(&self) -> usize {
        self.client
    }

    /// The reporting interval in ticks; `None` while the capsule is stopped.
    pub closed spec fn spec_interval(&self) -> Option<u32> {
        self.interval
    }

    /// A stopped capsule that arms the request node `client`.
    pub fn new(client: usize) -> (capsule: DebugProcessStatus)
        ensures
            capsule.spec_client() == client,
            capsule.spec_interval().is_none(),
    {
        DebugProcessStatus { client, interval: None }
    }

    /// The request node of the multiplexer that the capsule arms.
    pub fn client(&self) -> (client: usize)
        ensures
            client == self.spec_client(),
    {
        self.client
    }

    /// The reporting interval in ticks; `None` while the capsule is stopped.
    pub fn interval(&self) -> (interval: Option<u32>)
        ensures
            interval == self.spec_interval(),
    {
        self.interval
    }

    /// Starts reporting every `interval_ms` milliseconds. The interval is
    /// converted to ticks of the multiplexer's counter, rounding down, and
    /// the alarm is armed for one interval from now, in place of a request
    /// that the capsule still had pending.
    ///
    /// When the interval comes to zero ticks, or to more than half the
    /// counter's range, the capsule is left stopped and the multiplexer is
    /// not touched.
    pub fn start(&mut self, interval_ms: usize, mux: &mut MuxAlarm)
        requires
            old(mux)@.wf(),
            old(self).spec_client() < old(mux)@.capacity,
        ensures
            final(self).spec_client() == old(self).spec_client(),
            final(self).spec_interval() == accepted_interval(
                interval_ms as int,
                old(mux)@.alarm.frequency as int,
                old(mux)@.modulus(),
            ),
            final(self).spec_interval() matches Some(ticks) ==> 1 <= ticks <= old(mux)@.modulus()
                / 2,
            final(mux)@ == rearmed(old(mux)@, old(self).spec_client(), final(self).spec_interval()),
            final(mux)@.wf(),
            final(mux)@.capacity == old(mux)@.capacity,
            final(mux)@.alarm.bits == old(mux)@.alarm.bits,
    {
        let width: CounterWidth = mux.width();
        let frequency: u32 = mux.frequency();
        proof {
            lemma_counter_modulus(width.spec_bits() as nat);
            assert(interval_ms * frequency <= 0xffff_ffff_ffff_ffff * 0xffff_ffff)
                by (nonlinear_arith)
                requires
                    0 <= interval_ms <= 0xffff_ffff_ffff_ffff,
                    0 <= frequency <= 0xffff_ffff,
            ;
        }
        let ticks: u128 = (interval_ms as u128) * (frequency as u128) / 1000;
        let half: u64 = width.modulus() / 2;
        if 1 <= ticks && ticks <= half as u128 {
            self.interval = Some(ticks as u32);
        } else {
            self.interval = None;
        }
        self.arm_next(mux);
    }

    /// Stops reporting. A request that is still pending stays pending: the
    /// callback it leads to reports once more and arms nothing.
    pub fn stop(&mut self)
        ensures
            final(self).spec_client() == old(self).spec_client(),
            final(self).spec_interval().is_none(),
    {
        self.interval = None;
    }

    /// Arms the alarm for one interval from now, if the capsule runs.
    fn arm_next(&self, mux: &mut MuxAlarm)
        requires
            old(mux)@.wf(),
            self.spec_client() < old(mux)@.capacity,
        ensures
            final(mux)@ == rearmed(old(mux)@, self.spec_client(), self.spec_interval()),
            final(mux)@.wf(),
            final(mux)@.capacity == old(mux)@.capacity,
            final(mux)@.alarm.bits == old(mux)@.alarm.bits,
    {
        match self.interval {
            Some(ticks) => {
                let width: CounterWidth = mux.width();
                let deadline: u32 = width.wrapping_add(mux.now(), ticks);
                mux.arm(self.client, deadline);
            },
            None => {},
        }
    }

    /// The alarm callback. Reports the number of loaded processes and the
    /// figures of each, then arms the alarm for one interval from the current
    /// counter value. A capsule that was stopped in the meantime still
    /// reports, but arms nothing.
    pub fn fired(&self, mux: &mut MuxAlarm, inspector: &Introspection) -> (report: StatusReport)
        requires
            old(mux)@.wf(),
            self.spec_client() < old(mux)@.capacity,
        ensures
            report.process_count == loaded_processes(inspector@).len(),
            report.processes@ == loaded_processes(inspector@),
            final(mux)@ == rearmed(old(mux)@, self.spec_client(), self.spec_interval()),
            final(mux)@.wf(),
            final(mux)@.capacity == old(mux)@.capacity,
            final(mux)@.alarm.bits == old(mux)@.alarm.bits,
    {
        let process_count: usize = inspector.number_loaded_processes();
        let processes: Vec<ProcessSnapshot> = inspector.each_app();
        self.arm_next(mux);
        StatusReport { process_count, processes }
    }
}

} // verus!
