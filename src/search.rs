use vstd::prelude::*;
use crate::config::SaltVariant;
use crate::finding::Finding;
use crate::matcher::Matcher;
use crate::salt::{candidate_salt, salt_of};

verus! {

/// What the hash oracle returns for one candidate: its counter and the
/// derived address.
pub struct HashResult {
    pub counter: u64,
    pub address: [u8; 20],
}

/// The salt/address pairs of a list of findings.
pub open spec fn findings_view(fs: Seq<Finding>) -> Seq<(Seq<u8>, Seq<u8>)> {
    fs.map_values(|f: Finding| (f.salt@, f.address@))
}

/// The findings of a batch, in the order of its results: one for each result
/// whose address the matcher accepts, with the salt rebuilt from its counter.
pub open spec fn batch_findings(m: Matcher, v: SaltVariant, rs: Seq<HashResult>) -> Seq<(Seq<u8>, Seq<u8>)>
    decreases rs.len(),
{
    if rs.len() == 0 {
        Seq::empty()
    } else {
        let prev = batch_findings(m, v, rs.drop_last());
        let h = rs.last();
        if m.accepts(h.address@) {
            prev.push((salt_of(v, h.counter), h.address@))
        } else {
            prev
        }
    }
}

/// Evaluates every result of a batch and collects the findings.
pub fn process_batch(matcher: &Matcher, variant: &SaltVariant, results: &[HashResult]) -> (r: Vec<Finding>)
    ensures
        findings_view(r@) == batch_findings(*matcher, *variant, results@),
{
    let mut out: Vec<Finding> = Vec::new();
    let mut i: usize = 0;
    while i < results.len()
        invariant
            i <= results@.len(),
            findings_view(out@) == batch_findings(*matcher, *variant, results@.subrange(0, i as int)),
        decreases results.len() - i,
    {
        let h = &results[i];
        assert(results@.subrange(0, i + 1).drop_last() =~= results@.subrange(0, i as int));
        if matcher.matches(&h.address) {
            let f = Finding { salt: candidate_salt(variant, h.counter), address: h.address };
            out.push(f);
            assert(findings_view(out@) =~= batch_findings(*matcher, *variant, results@.subrange(0, i + 1)));
        } else {
            assert(findings_view(out@) =~= batch_findings(*matcher, *variant, results@.subrange(0, i + 1)));
        }
        i += 1;
    }
    assert(results@.subrange(0, results@.len() as int) =~= results@);
    out
}

/// Every finding of a batch comes from one of its results and earned the reward.
pub proof fn lemma_findings_earn_reward(m: Matcher, v: SaltVariant, rs: Seq<HashResult>, k: int)
    requires
        0 <= k < batch_findings(m, v, rs).len(),
    ensures
        exists|j: int|
            0 <= j < rs.len() && m.accepts(#[trigger] rs[j].address@) && batch_findings(m, v, rs)[k] == (
                salt_of(v, rs[j].counter),
                rs[j].address@,
            ),
    decreases rs.len(),
{
    let prev = batch_findings(m, v, rs.drop_last());
    if k < prev.len() {
        lemma_findings_earn_reward(m, v, rs.drop_last(), k);
        let j = choose|j: int|
            0 <= j < rs.drop_last().len() && m.accepts(#[trigger] rs.drop_last()[j].address@)
                && prev[k] == (salt_of(v, rs.drop_last()[j].counter), rs.drop_last()[j].address@);
        assert(rs[j] == rs.drop_last()[j]);
    } else {
        assert(rs[rs.len() - 1] == rs.last());
    }
}

/// A batch has at most as many findings as results.
pub proof fn lemma_findings_bounded(m: Matcher, v: SaltVariant, rs: Seq<HashResult>)
    ensures
        batch_findings(m, v, rs).len() <= rs.len(),
    decreases rs.len(),
{
    if rs.len() > 0 {
        lemma_findings_bounded(m, v, rs.drop_last());
    }
}

/// The phases of a search run.
pub enum Phase {
    Idle,
    Initializing,
    Running,
    Stopped,
}

/// What happened since the last step.
pub enum Event {
    /// The run was asked to begin.
    Start,
    /// The result sink is open and the matcher compiled.
    Initialized,
    /// The oracle's batch was evaluated and its findings written.
    BatchDone { findings: u64, now_ms: u64 },
    /// The run was asked to stop.
    Cancelled,
}

/// What the driver is to do next.
pub enum Action {
    /// Open and reset the result sink, and compile the matcher.
    Initialize,
    /// Run the oracle on the batch of counters `start .. start + size`,
    /// after emitting a progress report when `report` holds.
    Dispatch { start: u64, size: u64, report: bool },
    /// Stop the run.
    Stop,
    /// Nothing: the event does not apply in this phase.
    Ignore,
}

/// Milliseconds between two progress reports, at least.
pub const REPORT_INTERVAL_MS: u64 = 1000;

/// The state of a search run.
pub struct Search {
    pub phase: Phase,
    pub counter: u64,
    pub batch_size: u64,
    pub batches: u64,
    pub found: u64,
    pub last_report_ms: u64,
}

impl Search {
    /// The counter is the number of candidates handed out, a whole number of
    /// batches; there are no more findings than candidates.
    pub open spec fn wf(&self) -> bool {
        &&& self.batch_size > 0
        &&& self.counter == self.batches * self.batch_size
        &&& self.found <= self.counter
    }

    /// A run that has not begun.
    pub fn new(batch_size: u64) -> (s: Search)
        requires
            batch_size > 0,
        ensures
            s.wf(),
            s.phase is Idle,
            s.counter == 0,
            s.batches == 0,
            s.found == 0,
            s.batch_size == batch_size,
    {
        Search { phase: Phase::Idle, counter: 0, batch_size, batches: 0, found: 0, last_report_ms: 0 }
    }

    /// Takes one event: begins, starts the first batch, advances the counter
    /// by one batch after each finished batch (reporting at most once per
    /// interval), and stops on cancellation or when the counter space is spent.
    pub fn step(&mut self, event: Event) -> (a: Action)
        requires
            old(self).wf(),
        ensures
            final(self).wf(),
            final(self).batch_size == old(self).batch_size,
            final(self).counter >= old(self).counter,
            match (old(self).phase, event) {
                (Phase::Stopped, _) => *final(self) == *old(self) && a is Stop,
                (_, Event::Cancelled) => final(self).phase is Stopped && a is Stop
                    && final(self).counter == old(self).counter && final(self).found == old(self).found,
                (Phase::Idle, Event::Start) => final(self).phase is Initializing && a is Initialize
                    && final(self).counter == old(self).counter,
                (Phase::Initializing, Event::Initialized) => final(self).phase is Running
                    && final(self).counter == old(self).counter && a == (Action::Dispatch {
                        start: old(self).counter,
                        size: old(self).batch_size,
                        report: false,
                    }),
                (Phase::Running, Event::BatchDone { findings, now_ms }) => {
                    let next = old(self).counter + old(self).batch_size;
                    let report = now_ms >= old(self).last_report_ms + REPORT_INTERVAL_MS;
                    if findings <= old(self).batch_size && next + old(self).batch_size <= u64::MAX {
                        &&& final(self).phase is Running
                        &&& final(self).counter == next
                        &&& final(self).batches == old(self).batches + 1
                        &&& final(self).found == old(self).found + findings
                        &&& a == (Action::Dispatch { start: next as u64, size: old(self).batch_size, report })
                        &&& final(self).last_report_ms == if report { now_ms } else { old(self).last_report_ms }
                    } else {
                        &&& final(self).phase is Stopped
                        &&& a is Stop
                        &&& final(self).counter == old(self).counter
                        &&& final(self).found == old(self).found
                    }
                },
                _ => *final(self) == *old(self) && a is Ignore,
            },
    {
        match self.phase {
            Phase::Stopped => return Action::Stop,
            _ => {},
        }
        match event {
            Event::Cancelled => {
                self.phase = Phase::Stopped;
                Action::Stop
            },
            Event::Start => match self.phase {
                Phase::Idle => {
                    self.phase = Phase::Initializing;
                    Action::Initialize
                },
                _ => Action::Ignore,
            },
            Event::Initialized => match self.phase {
                Phase::Initializing => {
                    self.phase = Phase::Running;
                    Action::Dispatch { start: self.counter, size: self.batch_size, report: false }
                },
                _ => Action::Ignore,
            },
            Event::BatchDone { findings, now_ms } => match self.phase {
                Phase::Running => {
                    if findings > self.batch_size || self.counter > u64::MAX - self.batch_size
                        || self.counter + self.batch_size > u64::MAX - self.batch_size {
                        self.phase = Phase::Stopped;
                        return Action::Stop;
                    }
                    proof {
                        let b = self.batches as int;
                        let z = self.batch_size as int;
                        assert(b <= b * z) by (nonlinear_arith)
                            requires z >= 1, b >= 0;
                        assert((self.batches + 1) * self.batch_size == self.batches * self.batch_size + self.batch_size)
                            by (nonlinear_arith);
                    }
                    self.counter = self.counter + self.batch_size;
                    self.batches = self.batches + 1;
                    self.found = self.found + findings;
                    let report = self.last_report_ms <= u64::MAX - REPORT_INTERVAL_MS
                        && now_ms >= self.last_report_ms + REPORT_INTERVAL_MS;
                    if report {
                        self.last_report_ms = now_ms;
                    }
                    Action::Dispatch { start: self.counter, size: self.batch_size, report }
                },
                _ => Action::Ignore,
            },
        }
    }
}

/// Candidates tried per second, from the count of candidates and the
/// elapsed milliseconds (at most `u64::MAX`); zero before any time has passed.
pub fn throughput(attempts: u64, elapsed_ms: u64) -> (r: u64)
    ensures
        elapsed_ms == 0 ==> r == 0,
        elapsed_ms > 0 ==> r as int == if (attempts as int * 1000) / elapsed_ms as int > u64::MAX {
            u64::MAX as int
        } else {
            (attempts as int * 1000) / elapsed_ms as int
        },
{
    if elapsed_ms == 0 {
        return 0;
    }
    let wide: u128 = (attempts as u128) * 1000u128 / (elapsed_ms as u128);
    if wide > u64::MAX as u128 {
        return u64::MAX;
    }
    wide as u64
}

} // verus!
