//! The decisions of the trigger sources: where a process is looked up, when a
//! process watch completes, and how repeated interrupts become one completion.
use vstd::prelude::*;

verus! {

/// Milliseconds between two looks at a watched process.
pub const POLL_INTERVAL_MS: u64 = 100;

pub open spec fn digit_byte(d: nat) -> u8 {
    ('0' as u8 + d) as u8
}

/// The decimal digits of `n`, most significant first, without leading zeros.
pub open spec fn decimal(n: nat) -> Seq<u8>
    decreases n,
{
    if n < 10 {
        seq![digit_byte(n)]
    } else {
        decimal(n / 10) + seq![digit_byte(n % 10)]
    }
}

/// The process table entry of a process: `/proc/` and its decimal id.
pub open spec fn spec_proc_path(pid: u64) -> Seq<u8> {
    seq!['/' as u8, 'p' as u8, 'r' as u8, 'o' as u8, 'c' as u8, '/' as u8] + decimal(pid as nat)
}

fn push_decimal(v: &mut Vec<u8>, n: u64)
    ensures
        final(v)@ == old(v)@ + decimal(n as nat),
    decreases n,
{
    if n >= 10 {
        push_decimal(v, n / 10);
    }
    v.push('0' as u8 + (n % 10) as u8);
    assert(final(v)@ =~= old(v)@ + decimal(n as nat));
}

/// The path, as bytes, at which the process table shows process `pid`.
pub fn proc_path(pid: u64) -> (r: Vec<u8>)
    ensures
        r@ == spec_proc_path(pid),
{
    let mut r = vec!['/' as u8, 'p' as u8, 'r' as u8, 'o' as u8, 'c' as u8, '/' as u8];
    push_decimal(&mut r, pid);
    r
}

/// What a process watch asks for after one look at the process.
#[derive(Clone, Copy, Debug, PartialEq, Eq, Structural)]
pub enum PollStep {
    /// Deliver the completion: the process is gone.
    Complete,
    /// Look again after this many milliseconds.
    Sleep(u64),
    /// The completion was delivered; stop looking.
    Stop,
}

/// A watch on one process, which completes the first time the process is seen
/// gone.
#[derive(Clone, Copy, Debug)]
pub struct ProcessWatch {
    pub completed: bool,
}

impl ProcessWatch {
    /// Starts a watch if the process exists now; no watch is made otherwise.
    pub fn start(alive: bool) -> (r: Option<ProcessWatch>)
        ensures
            r is None <==> !alive,
            r matches Some(w) ==> !w.completed,
    {
        if alive {
            Some(ProcessWatch { completed: false })
        } else {
            None
        }
    }

    pub open spec fn spec_observe(self, alive: bool) -> (ProcessWatch, PollStep) {
        if self.completed {
            (self, PollStep::Stop)
        } else if alive {
            (self, PollStep::Sleep(POLL_INTERVAL_MS))
        } else {
            (ProcessWatch { completed: true }, PollStep::Complete)
        }
    }

    /// Takes in one look at the process.
    pub fn observe(&mut self, alive: bool) -> (r: PollStep)
        ensures
            (*final(self), r) == old(self).spec_observe(alive),
    {
        if self.completed {
            PollStep::Stop
        } else if alive {
            PollStep::Sleep(POLL_INTERVAL_MS)
        } else {
            self.completed = true;
            PollStep::Complete
        }
    }
}

/// Turns the interrupts delivered to the process into a single completion.
#[derive(Clone, Copy, Debug)]
pub struct InterruptLatch {
    pub delivered: bool,
}

impl InterruptLatch {
    pub open spec fn spec_interrupt(self) -> (InterruptLatch, bool) {
        (InterruptLatch { delivered: true }, !self.delivered)
    }

    pub fn new() -> (r: InterruptLatch)
        ensures
            !r.delivered,
    {
        InterruptLatch { delivered: false }
    }

    /// Takes in one interrupt; says whether it is to be passed on as the
    /// completion.
    pub fn interrupt(&mut self) -> (r: bool)
        ensures
            (*final(self), r) == old(self).spec_interrupt(),
    {
        let first = !self.delivered;
        self.delivered = true;
        first
    }
}

/// The steps of a process watch over a series of looks at the process.
pub open spec fn watch_run(w: ProcessWatch, looks: Seq<bool>) -> (ProcessWatch, Seq<PollStep>)
    decreases looks.len(),
{
    if looks.len() == 0 {
        (w, Seq::empty())
    } else {
        let (m, steps) = watch_run(w, looks.drop_last());
        let (n, st) = m.spec_observe(looks.last());
        (n, steps.push(st))
    }
}

/// Whether the process was seen gone in one of the first `i` looks.
pub open spec fn seen_gone(looks: Seq<bool>, i: int) -> bool {
    exists|j: int| 0 <= j < i && !looks[j]
}

/// A started process watch completes once, at the first look that finds the
/// process gone; before that it sleeps one poll interval after each look, and
/// after it it stops.
pub proof fn lemma_watch_completes_once(looks: Seq<bool>)
    ensures
        ({
            let steps = watch_run(ProcessWatch { completed: false }, looks).1;
            &&& steps.len() == looks.len()
            &&& forall|i: int|
                0 <= i < looks.len() ==> #[trigger] steps[i] == if seen_gone(looks, i) {
                    PollStep::Stop
                } else if looks[i] {
                    PollStep::Sleep(POLL_INTERVAL_MS)
                } else {
                    PollStep::Complete
                }
        }),
        watch_run(ProcessWatch { completed: false }, looks).0.completed == seen_gone(
            looks,
            looks.len() as int,
        ),
    decreases looks.len(),
{
    if looks.len() > 0 {
        let start = ProcessWatch { completed: false };
        let prev = looks.drop_last();
        lemma_watch_completes_once(prev);
        let (m, steps) = watch_run(start, prev);
        let all = watch_run(start, looks).1;
        let k = looks.len() - 1;
        assert forall|i: int| 0 <= i < k implies seen_gone(looks, i) == seen_gone(prev, i) by {
            if seen_gone(looks, i) {
                let j = choose|j: int| 0 <= j < i && !looks[j];
                assert(!prev[j]);
            }
            if seen_gone(prev, i) {
                let j = choose|j: int| 0 <= j < i && !prev[j];
                assert(!looks[j]);
            }
        }
        assert(seen_gone(looks, k) == seen_gone(prev, k)) by {
            if seen_gone(looks, k) {
                let j = choose|j: int| 0 <= j < k && !looks[j];
                assert(!prev[j]);
            }
            if seen_gone(prev, k) {
                let j = choose|j: int| 0 <= j < k && !prev[j];
                assert(!looks[j]);
            }
        }
        assert forall|i: int| 0 <= i < looks.len() implies #[trigger] all[i] == if seen_gone(
            looks,
            i,
        ) {
            PollStep::Stop
        } else if looks[i] {
            PollStep::Sleep(POLL_INTERVAL_MS)
        } else {
            PollStep::Complete
        } by {
            if i < k {
                assert(all[i] == steps[i]);
                assert(prev[i] == looks[i]);
            }
        }
        if !looks[k] {
            assert(seen_gone(looks, looks.len() as int));
        } else if seen_gone(looks, looks.len() as int) {
            let j = choose|j: int| 0 <= j < looks.len() && !looks[j];
            assert(j < k);
        }
    }
}

/// For each of `n` interrupts in a row, whether the latch lets it through.
pub open spec fn latch_run(g: InterruptLatch, n: nat) -> (InterruptLatch, Seq<bool>)
    decreases n,
{
    if n == 0 {
        (g, Seq::empty())
    } else {
        let (m, passed) = latch_run(g, (n - 1) as nat);
        let (k, a) = m.spec_interrupt();
        (k, passed.push(a))
    }
}

/// However many interrupts arrive, a new latch passes on the first one and no
/// other.
pub proof fn lemma_one_completion_per_latch(n: nat)
    ensures
        ({
            let passed = latch_run(InterruptLatch { delivered: false }, n).1;
            &&& passed.len() == n
            &&& forall|i: int| 0 <= i < n ==> #[trigger] passed[i] == (i == 0)
        }),
        n > 0 ==> latch_run(InterruptLatch { delivered: false }, n).0.delivered,
    decreases n,
{
    if n > 0 {
        lemma_one_completion_per_latch((n - 1) as nat);
        let prev = latch_run(InterruptLatch { delivered: false }, (n - 1) as nat).1;
        let all = latch_run(InterruptLatch { delivered: false }, n).1;
        assert forall|i: int| 0 <= i < n implies #[trigger] all[i] == (i == 0) by {
            if i < n - 1 {
                assert(all[i] == prev[i]);
            }
        }
    }
}

} // verus!
